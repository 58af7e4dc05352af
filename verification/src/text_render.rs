//! Label text: splitting it into runs for the text font and for the emoji
//! font, and the patterns that the emoji font is looked up with.

use crate::text;
use crate::text::{chars_of, trim};
use vstd::prelude::*;
use vstd::string::*;

verus! {

/// The character belongs to the emoji font: everything beyond the basic
/// plane, the blocks of symbols and dingbats, and single characters.
pub open spec fn is_emoji(ch: char) -> bool {
    let cp = ch as u32;
    ||| cp >= 0x10000
    ||| 0x2600 <= cp <= 0x27BF
    ||| 0x2194 <= cp <= 0x2199
    ||| 0x23E9 <= cp <= 0x23F3
    ||| 0x23F8 <= cp <= 0x23FA
    ||| 0x25FB <= cp <= 0x25FE
    ||| 0x2B05 <= cp <= 0x2B07
    ||| cp == 0x00A9 || cp == 0x00AE || cp == 0x203C || cp == 0x2049 || cp == 0x2122
    ||| cp == 0x2139 || cp == 0x21A9 || cp == 0x21AA || cp == 0x231A || cp == 0x231B
    ||| cp == 0x2328 || cp == 0x23CF || cp == 0x24C2 || cp == 0x25AA || cp == 0x25AB
    ||| cp == 0x25B6 || cp == 0x25C0 || cp == 0x2934 || cp == 0x2935 || cp == 0x2B1B
    ||| cp == 0x2B1C || cp == 0x2B50 || cp == 0x2B55 || cp == 0x3030 || cp == 0x303D
    ||| cp == 0x3297 || cp == 0x3299 || cp == 0xFE0F
}

/// Some character of the text belongs to the emoji font.
pub open spec fn has_emoji(s: Seq<char>) -> bool {
    exists|i: int| 0 <= i < s.len() && is_emoji(#[trigger] s[i])
}

/// Tells whether a character belongs to the emoji font.
pub fn is_emoji_codepoint(ch: char) -> (r: bool)
    ensures
        r == is_emoji(ch),
{
    let cp: u32 = ch as u32;
    if (0x2600 <= cp && cp <= 0x27BF) || cp >= 0x10000 {
        return true;
    }
    matches!(
        cp,
        0x00A9 | 0x00AE | 0x203C | 0x2049 | 0x2122 | 0x2139 | 0x2194 | 0x2195 | 0x2196 | 0x2197
            | 0x2198 | 0x2199 | 0x21A9 | 0x21AA | 0x231A | 0x231B | 0x2328 | 0x23CF | 0x23E9
            | 0x23EA | 0x23EB | 0x23EC | 0x23ED | 0x23EE | 0x23EF | 0x23F0 | 0x23F1 | 0x23F2
            | 0x23F3 | 0x23F8 | 0x23F9 | 0x23FA | 0x24C2 | 0x25AA | 0x25AB | 0x25B6 | 0x25C0
            | 0x25FB | 0x25FC | 0x25FD | 0x25FE | 0x2934 | 0x2935 | 0x2B05 | 0x2B06 | 0x2B07
            | 0x2B1B | 0x2B1C | 0x2B50 | 0x2B55 | 0x3030 | 0x303D | 0x3297 | 0x3299 | 0xFE0F
    )
}

/// Tells whether a grapheme is drawn with the emoji font.
pub fn grapheme_needs_emoji_font(grapheme: &str) -> (r: bool)
    ensures
        r == has_emoji(grapheme@),
{
    let cs = chars_of(grapheme);
    let mut i: usize = 0;
    while i < cs.len()
        invariant
            i <= cs@.len(),
            cs@ == grapheme@,
            forall|j: int| 0 <= j < i ==> !is_emoji(#[trigger] cs@[j]),
        decreases cs.len() - i,
    {
        if is_emoji_codepoint(cs[i]) {
            return true;
        }
        i += 1;
    }
    false
}

/// The extended grapheme clusters of a text, as the `unicode_segmentation`
/// crate finds them.
pub uninterp spec fn grapheme_clusters(s: Seq<char>) -> Seq<Seq<char>>;

/// Calls `UnicodeSegmentation::graphemes` for extended grapheme clusters. The
/// clusters are consecutive, non-empty slices that cover the text from its
/// beginning to its end; where the boundaries lie is left to the name.
#[verifier::external_body]
fn graphemes(s: &str) -> (r: Vec<String>)
    ensures
        text::texts(r@) == grapheme_clusters(s@),
        text::joined(text::texts(r@)) == s@,
        forall|i: int| 0 <= i < r@.len() ==> (#[trigger] r@[i])@.len() > 0,
{
    unicode_segmentation::UnicodeSegmentation::graphemes(s, true).map(|g| g.to_string()).collect()
}

/// The graphemes collected into runs: neighbours that need the same font stand
/// in one run.
pub open spec fn runs_of(clusters: Seq<Seq<char>>) -> Seq<(bool, Seq<char>)>
    decreases clusters.len(),
{
    if clusters.len() == 0 {
        Seq::empty()
    } else {
        let earlier = runs_of(clusters.drop_last());
        let g = clusters.last();
        if earlier.len() > 0 && earlier.last().0 == has_emoji(g) {
            earlier.drop_last().push((earlier.last().0, earlier.last().1 + g))
        } else {
            earlier.push((has_emoji(g), g))
        }
    }
}

/// The runs with their text as characters.
pub open spec fn run_views(runs: Seq<(bool, String)>) -> Seq<(bool, Seq<char>)> {
    Seq::new(runs.len(), |i: int| (runs[i].0, runs[i].1@))
}

/// The texts of the runs.
pub open spec fn run_texts(runs: Seq<(bool, Seq<char>)>) -> Seq<Seq<char>> {
    Seq::new(runs.len(), |i: int| runs[i].1)
}

/// Neighbouring runs need different fonts.
pub open spec fn runs_alternate(runs: Seq<(bool, Seq<char>)>) -> bool {
    forall|i: int, j: int|
        0 <= i && j == i + 1 && j < runs.len() ==> (#[trigger] runs[i]).0 != (
        #[trigger] runs[j]).0
}

/// Each run is marked for the font that its characters need.
pub open spec fn runs_marked(runs: Seq<(bool, Seq<char>)>) -> bool {
    forall|i: int| 0 <= i < runs.len() ==> (#[trigger] runs[i]).0 == has_emoji(runs[i].1)
}

/// No run is empty.
pub open spec fn runs_filled(runs: Seq<(bool, Seq<char>)>) -> bool {
    forall|i: int| 0 <= i < runs.len() ==> (#[trigger] runs[i]).1.len() > 0
}

proof fn lemma_has_emoji_append(a: Seq<char>, b: Seq<char>)
    ensures
        has_emoji(a + b) == (has_emoji(a) || has_emoji(b)),
{
    if has_emoji(a) {
        let i = choose|i: int| 0 <= i < a.len() && is_emoji(#[trigger] a[i]);
        assert((a + b)[i] == a[i]);
    }
    if has_emoji(b) {
        let i = choose|i: int| 0 <= i < b.len() && is_emoji(#[trigger] b[i]);
        assert((a + b)[a.len() + i] == b[i]);
    }
    if has_emoji(a + b) {
        let i = choose|i: int| 0 <= i < (a + b).len() && is_emoji(#[trigger] (a + b)[i]);
        if i < a.len() {
            assert(is_emoji(a[i]));
        } else {
            assert(is_emoji(b[i - a.len()]));
        }
    }
}

/// The runs of a text put together give the text; each is marked for the font
/// that it needs, and neighbours need different fonts.
pub proof fn runs_cover_the_text(clusters: Seq<Seq<char>>)
    ensures
        text::joined(run_texts(runs_of(clusters))) == text::joined(clusters),
        runs_marked(runs_of(clusters)),
        runs_alternate(runs_of(clusters)),
    decreases clusters.len(),
{
    if clusters.len() == 0 {
        assert(run_texts(runs_of(clusters)) =~= Seq::empty());
    } else {
        let head = clusters.drop_last();
        runs_cover_the_text(head);
        let earlier = runs_of(head);
        let g = clusters.last();
        let all = runs_of(clusters);
        if earlier.len() > 0 && earlier.last().0 == has_emoji(g) {
            let e = run_texts(earlier);
            let a = run_texts(all);
            assert(a.drop_last() =~= e.drop_last());
            assert(a.last() == e.last() + g);
            assert(text::joined(e.drop_last()) + (e.last() + g) =~= (text::joined(e.drop_last())
                + e.last()) + g);
            lemma_has_emoji_append(earlier.last().1, g);
            assert(earlier[earlier.len() - 1] == earlier.last());
            assert forall|i: int| 0 <= i < all.len() implies (#[trigger] all[i]).0 == has_emoji(
                all[i].1,
            ) by {
                if i < all.len() - 1 {
                    assert(all[i] == earlier[i]);
                }
            }
            assert forall|i: int, j: int| 0 <= i && j == i + 1 && j < all.len() implies (
            #[trigger] all[i]).0 != (#[trigger] all[j]).0 by {
                assert(all[i].0 == earlier[i].0);
                assert(all[j].0 == earlier[j].0);
            }
        } else {
            assert(run_texts(all).drop_last() =~= run_texts(earlier));
            assert forall|i: int| 0 <= i < all.len() implies (#[trigger] all[i]).0 == has_emoji(
                all[i].1,
            ) by {
                if i < all.len() - 1 {
                    assert(all[i] == earlier[i]);
                }
            }
            assert forall|i: int, j: int| 0 <= i && j == i + 1 && j < all.len() implies (
            #[trigger] all[i]).0 != (#[trigger] all[j]).0 by {
                assert(all[i] == earlier[i]);
                if j < earlier.len() {
                    assert(all[j] == earlier[j]);
                }
            }
        }
    }
}

/// Non-empty graphemes give non-empty runs.
pub proof fn runs_are_filled(clusters: Seq<Seq<char>>)
    requires
        forall|i: int| 0 <= i < clusters.len() ==> (#[trigger] clusters[i]).len() > 0,
    ensures
        runs_filled(runs_of(clusters)),
    decreases clusters.len(),
{
    if clusters.len() > 0 {
        let head = clusters.drop_last();
        assert forall|i: int| 0 <= i < head.len() implies (#[trigger] head[i]).len() > 0 by {
            assert(head[i] == clusters[i]);
        }
        runs_are_filled(head);
        let earlier = runs_of(head);
        let all = runs_of(clusters);
        assert(clusters.last() == clusters[clusters.len() - 1]);
        assert forall|i: int| 0 <= i < all.len() implies (#[trigger] all[i]).1.len() > 0 by {
            if i < all.len() - 1 {
                assert(all[i] == earlier[i]);
            }
        }
    }
}

/// Collects graphemes into runs.
pub fn collect_runs(clusters: &Vec<String>) -> (r: Vec<(bool, String)>)
    ensures
        run_views(r@) == runs_of(text::texts(clusters@)),
{
    let ghost all = text::texts(clusters@);
    let mut runs: Vec<(bool, String)> = Vec::new();
    let mut i: usize = 0;
    proof {
        assert(all.take(0) =~= Seq::empty());
        assert(run_views(runs@) =~= Seq::empty());
    }
    while i < clusters.len()
        invariant
            i <= clusters@.len(),
            all == text::texts(clusters@),
            run_views(runs@) == runs_of(all.take(i as int)),
        decreases clusters.len() - i,
    {
        proof {
            assert(all.take(i + 1).drop_last() =~= all.take(i as int));
            assert(all.take(i + 1).last() == clusters@[i as int]@);
        }
        let ghost earlier = run_views(runs@);
        let needs_emoji = grapheme_needs_emoji_font(clusters[i].as_str());
        let n: usize = runs.len();
        if n > 0 && runs[n - 1].0 == needs_emoji {
            runs[n - 1].1.append(clusters[i].as_str());
            proof {
                assert(run_views(runs@) =~= runs_of(all.take(i + 1)));
            }
        } else {
            runs.push((needs_emoji, clusters[i].clone()));
            proof {
                assert(run_views(runs@) =~= runs_of(all.take(i + 1)));
            }
        }
        i += 1;
    }
    proof {
        assert(all.take(clusters@.len() as int) =~= all);
    }
    runs
}

/// Splits a label into consecutive runs of graphemes, each marked for the text
/// font or for the emoji font.
pub fn text_runs(s: &str) -> (r: Vec<(bool, String)>)
    ensures
        run_views(r@) == runs_of(grapheme_clusters(s@)),
        text::joined(run_texts(run_views(r@))) == s@,
        runs_marked(run_views(r@)),
        runs_alternate(run_views(r@)),
        runs_filled(run_views(r@)),
{
    let clusters = graphemes(s);
    proof {
        let c = text::texts(clusters@);
        runs_cover_the_text(c);
        assert forall|i: int| 0 <= i < c.len() implies (#[trigger] c[i]).len() > 0 by {
            assert(c[i] == clusters@[i]@);
        }
        runs_are_filled(c);
    }
    collect_runs(&clusters)
}

/// The patterns that the emoji font is looked up with, in the order in which
/// they are tried.
pub open spec fn emoji_patterns(user_template: Option<Seq<char>>) -> Seq<Seq<char>> {
    let known = seq!["emoji"@, ":family=Apple Color Emoji"@, ":family=Noto Color Emoji"@];
    match user_template {
        Some(template) => if text::trimmed(template).len() > 0 {
            seq![text::trimmed(template)] + known
        } else {
            known
        },
        None => known,
    }
}

/// The patterns that the emoji font is looked up with: the one that the
/// options give comes first, unless it is blank.
pub fn emoji_font_patterns(user_template: &Option<String>) -> (r: Vec<String>)
    ensures
        text::texts(r@) == emoji_patterns(text::opt_text(*user_template)),
{
    let mut patterns: Vec<String> = Vec::new();
    if let Some(template) = user_template {
        let inner = trim(template.as_str());
        if !inner.is_empty() {
            patterns.push(inner.to_owned());
        }
    }
    patterns.push("emoji".to_owned());
    patterns.push(":family=Apple Color Emoji".to_owned());
    patterns.push(":family=Noto Color Emoji".to_owned());
    proof {
        assert(text::texts(patterns@) =~= emoji_patterns(text::opt_text(*user_template)));
    }
    patterns
}

/// The emoji font is looked up by the template of the user first, where that is
/// not blank, and then by three patterns that do not depend on it.
pub proof fn the_users_emoji_font_goes_first(template: Seq<char>)
    ensures
        ({
            let known = emoji_patterns(None);
            &&& known == seq!["emoji"@, ":family=Apple Color Emoji"@, ":family=Noto Color Emoji"@]
            &&& text::trimmed(template).len() == 0 ==> emoji_patterns(Some(template)) == known
            &&& text::trimmed(template).len() > 0 ==> {
                &&& emoji_patterns(Some(template))[0] == text::trimmed(template)
                &&& emoji_patterns(Some(template)).skip(1) == known
            }
        }),
{
    let known = emoji_patterns(None);
    if text::trimmed(template).len() > 0 {
        assert(emoji_patterns(Some(template)).skip(1) =~= known);
    }
}

/// A text needs the emoji font where one of its characters does.
pub proof fn one_emoji_suffices(s: Seq<char>, i: int)
    ensures
        0 <= i < s.len() && is_emoji(s[i]) ==> has_emoji(s),
        (forall|k: int| 0 <= k < s.len() ==> !is_emoji(#[trigger] s[k])) ==> !has_emoji(s),
{
}

/// A further grapheme goes on the last run where that needs the same font, and
/// else begins a run of its own; earlier runs stay as they are.
pub proof fn graphemes_go_on_runs(clusters: Seq<Seq<char>>, g: Seq<char>)
    ensures
        ({
            let before = runs_of(clusters);
            let r = runs_of(clusters.push(g));
            let joins = before.len() > 0 && before.last().0 == has_emoji(g);
            &&& r.len() == (if joins {
                before.len()
            } else {
                before.len() + 1
            })
            &&& r.last().0 == has_emoji(g)
            &&& joins ==> r.last().1 == before.last().1 + g && r.drop_last() == before.drop_last()
            &&& !joins ==> r.last().1 == g && r.drop_last() == before
        }),
        runs_of(Seq::empty()).len() == 0,
{
    assert(clusters.push(g).drop_last() =~= clusters);
    let before = runs_of(clusters);
    let r = runs_of(clusters.push(g));
    if before.len() > 0 && before.last().0 == has_emoji(g) {
        assert(r.drop_last() =~= before.drop_last());
    } else {
        assert(r.drop_last() =~= before);
    }
}

} // verus!
