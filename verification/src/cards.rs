//! The search for the card that drives the Touch Bar.

use crate::text;
use crate::text::{decimal_string, parse_number, starts_with};
use vstd::prelude::*;
use vstd::string::*;

verus! {

/// How often to try all cards.
pub const MAX_OPEN_RETRIES: usize = 15;

/// How long to wait before trying all cards again, in milliseconds.
pub const RETRY_DELAY_MS: u64 = 750;

/// The error number of a device that is in use.
pub const EBUSY: i32 = 16;

/// The name is that of a card.
pub open spec fn is_card(name: Seq<char>) -> bool {
    text::begins_with(name, "card"@)
}

/// The number in the name of a card; cards without a number come last.
pub open spec fn card_number(name: Seq<char>) -> nat {
    match text::parsed_number(name.skip("card"@.len() as int), u32::MAX as nat) {
        Some(n) => n,
        None => u32::MAX as nat,
    }
}

fn number_of_card(name: &str) -> (r: u32)
    requires
        is_card(name@),
    ensures
        r == card_number(name@),
{
    proof {
        reveal_strlit("card");
    }
    let len: usize = name.unicode_len();
    let digits = name.substring_char(4, len);
    assert(digits@ =~= name@.skip(4));
    match parse_number(digits, u32::MAX as u64) {
        Some(n) => n as u32,
        None => u32::MAX,
    }
}

/// The card with index `a` is tried before the one with index `b`: it has the
/// smaller number, or the same and stands before it.
pub open spec fn tried_before(names: Seq<Seq<char>>, a: int, b: int) -> bool {
    ||| card_number(names[a]) < card_number(names[b])
    ||| card_number(names[a]) == card_number(names[b]) && a < b
}

/// Lists the cards among the names of a directory in the order in which to try
/// them.
pub fn card_order(names: &Vec<String>) -> (r: Vec<usize>)
    ensures
        forall|k: int| 0 <= k < r@.len() ==> #[trigger] r@[k] < names@.len(),
        forall|i: usize|
            i < names@.len() ==> (#[trigger] r@.contains(i) <==> is_card(
                text::texts(names@)[i as int],
            )),
        forall|k: int, l: int|
            0 <= k < l < r@.len() ==> tried_before(
                text::texts(names@),
                #[trigger] r@[k] as int,
                #[trigger] r@[l] as int,
            ),
{
    let ghost all = text::texts(names@);
    let mut out: Vec<usize> = Vec::new();
    let mut i: usize = 0;
    while i < names.len()
        invariant
            i <= names@.len(),
            all == text::texts(names@),
            forall|k: int|
                0 <= k < out@.len() ==> #[trigger] out@[k] < i && is_card(all[out@[k] as int]),
            forall|j: usize| j < i ==> (#[trigger] out@.contains(j) <==> is_card(all[j as int])),
            forall|k: int, l: int|
                0 <= k < l < out@.len() ==> tried_before(
                    all,
                    #[trigger] out@[k] as int,
                    #[trigger] out@[l] as int,
                ),
        decreases names.len() - i,
    {
        assert(all[i as int] == names@[i as int]@);
        if starts_with(names[i].as_str(), "card") {
            let number: u32 = number_of_card(names[i].as_str());
            let mut at: usize = 0;
            while at < out.len() && number_of_card(names[out[at]].as_str()) <= number
                invariant
                    i < names@.len(),
                    all == text::texts(names@),
                    at <= out@.len(),
                    number == card_number(all[i as int]),
                    forall|k: int|
                        0 <= k < out@.len() ==> #[trigger] out@[k] < i && is_card(
                            all[out@[k] as int],
                        ),
                    forall|k: int|
                        0 <= k < at ==> card_number(all[(#[trigger] out@[k]) as int]) <= number,
                decreases out.len() - at,
            {
                at += 1;
            }
            let ghost before = out@;
            out.insert(at, i);
            proof {
                assert(out@ == before.insert(at as int, i));
                assert forall|k: int, l: int| 0 <= k < l < out@.len() implies tried_before(
                    all,
                    #[trigger] out@[k] as int,
                    #[trigger] out@[l] as int,
                ) by {
                    if k == at {
                        assert(out@[l] == before[l - 1]);
                        assert(out@[l] < i);
                        assert(card_number(all[before[at as int] as int]) > number);
                        if l - 1 > at {
                            assert(tried_before(
                                all,
                                before[at as int] as int,
                                before[l - 1] as int,
                            ));
                        }
                    } else if l == at {
                        assert(out@[k] == before[k]);
                    } else {
                        let k0 = if k < at {
                            k
                        } else {
                            k - 1
                        };
                        let l0 = if l < at {
                            l
                        } else {
                            l - 1
                        };
                        assert(out@[k] == before[k0] && out@[l] == before[l0]);
                    }
                }
                assert forall|j: usize| j < i + 1 implies (#[trigger] out@.contains(j) <==> is_card(
                    all[j as int],
                )) by {
                    if j == i {
                        assert(out@[at as int] == i);
                    } else {
                        if before.contains(j) {
                            let k = choose|k: int| 0 <= k < before.len() && before[k] == j;
                            let k1 = if k < at {
                                k
                            } else {
                                k + 1
                            };
                            assert(out@[k1] == j);
                        }
                        if out@.contains(j) {
                            let k = choose|k: int| 0 <= k < out@.len() && out@[k] == j;
                            let k1 = if k < at {
                                k
                            } else {
                                k - 1
                            };
                            assert(before[k1] == j);
                        }
                    }
                }
            }
        } else {
            proof {
                assert(!out@.contains(i));
            }
        }
        i += 1;
    }
    out
}

/// Tells whether an error, or one that it comes from, is that the device is in
/// use; `codes` are the error numbers, as far as they have one.
pub fn is_ebusy_error(codes: &Vec<Option<i32>>) -> (r: bool)
    ensures
        r == codes@.contains(Some(EBUSY)),
{
    let mut i: usize = 0;
    while i < codes.len()
        invariant
            i <= codes@.len(),
            forall|j: int| 0 <= j < i ==> #[trigger] codes@[j] != Some(EBUSY),
        decreases codes.len() - i,
    {
        if let Some(code) = codes[i] {
            if code == EBUSY {
                assert(codes@[i as int] == Some(EBUSY));
                return true;
            }
        }
        i += 1;
    }
    false
}

/// What to do next in the search.
pub enum CardAction {
    /// Try the card with this index.
    Probe(usize),
    /// Wait, then try all cards again from the first.
    Wait,
    /// Give up, for this reason.
    GiveUp(String),
}

/// The search for a card, as it stands before the card with index `next` is
/// tried.
pub struct CardSearch {
    paths: Vec<String>,
    attempt: usize,
    next: usize,
    saw_ebusy: bool,
    errors: Vec<String>,
}

/// The search for a card, by value.
pub struct CardSearchView {
    pub paths: Seq<Seq<char>>,
    pub attempt: nat,
    pub next: nat,
    pub saw_ebusy: bool,
    pub errors: Seq<Seq<char>>,
}

/// What to do next in the search, by value.
pub enum CardActionView {
    Probe(nat),
    Wait,
    GiveUp(Seq<char>),
}

impl View for CardAction {
    type V = CardActionView;

    open spec fn view(&self) -> CardActionView {
        match *self {
            CardAction::Probe(i) => CardActionView::Probe(i as nat),
            CardAction::Wait => CardActionView::Wait,
            CardAction::GiveUp(reason) => CardActionView::GiveUp(reason@),
        }
    }
}

impl View for CardSearch {
    type V = CardSearchView;

    closed spec fn view(&self) -> CardSearchView {
        CardSearchView {
            paths: text::texts(self.paths@),
            attempt: self.attempt as nat,
            next: self.next as nat,
            saw_ebusy: self.saw_ebusy,
            errors: text::texts(self.errors@),
        }
    }
}

/// What is recorded of a card that could not be used.
pub open spec fn failure_line(
    path: Seq<char>,
    ebusy: bool,
    error: Seq<char>,
    debug: Seq<char>,
) -> Seq<char> {
    path + (if ebusy {
        " (EBUSY)"@
    } else {
        ""@
    }) + ": "@ + error + " | debug="@ + debug
}

/// The parts with a separator between them.
pub open spec fn separated(parts: Seq<Seq<char>>, separator: Seq<char>) -> Seq<char>
    decreases parts.len(),
{
    if parts.len() == 0 {
        Seq::empty()
    } else if parts.len() == 1 {
        parts[0]
    } else {
        separated(parts.drop_last(), separator) + separator + parts.last()
    }
}

/// Why the search was given up.
pub open spec fn give_up_reason(attempt: nat, errors: Seq<Seq<char>>) -> Seq<char> {
    "No touchbar device found after "@ + text::decimal(attempt)
        + " attempt(s), attempted: [\n    "@ + separated(errors, ",\n    "@) + "\n]"@
}

impl CardSearchView {
    /// There is a card to try, and the attempts are not used up.
    pub open spec fn wf(self) -> bool {
        &&& self.next < self.paths.len()
        &&& 1 <= self.attempt <= MAX_OPEN_RETRIES
    }

    /// The search before the first card is tried.
    pub open spec fn initial(paths: Seq<Seq<char>>) -> CardSearchView {
        CardSearchView { paths, attempt: 1, next: 0, saw_ebusy: false, errors: Seq::empty() }
    }

    /// The search with one more failure recorded.
    pub open spec fn recorded(
        self,
        ebusy: bool,
        error: Seq<char>,
        debug: Seq<char>,
    ) -> CardSearchView {
        CardSearchView {
            next: self.next + 1,
            saw_ebusy: self.saw_ebusy || ebusy,
            errors: self.errors.push(
                failure_line(self.paths[self.next as int], ebusy, error, debug),
            ),
            ..self
        }
    }

    /// What to do once a failure was recorded: try the next card. After the
    /// last one try again where a card was in use, up to the last attempt.
    pub open spec fn action(self) -> CardActionView {
        if self.next < self.paths.len() {
            CardActionView::Probe(self.next)
        } else if self.saw_ebusy && self.attempt < MAX_OPEN_RETRIES {
            CardActionView::Wait
        } else {
            CardActionView::GiveUp(give_up_reason(self.attempt, self.errors))
        }
    }

    /// The search at the start of the next attempt.
    pub open spec fn again(self) -> CardSearchView {
        CardSearchView { attempt: self.attempt + 1, ..CardSearchView::initial(self.paths) }
    }

    /// The search after a card could not be used.
    pub open spec fn failed(
        self,
        ebusy: bool,
        error: Seq<char>,
        debug: Seq<char>,
    ) -> CardSearchView {
        let s = self.recorded(ebusy, error, debug);
        if s.action() is Wait {
            s.again()
        } else {
            s
        }
    }

    /// How many times a card can still be tried.
    pub open spec fn probes_left(self) -> int {
        (MAX_OPEN_RETRIES - self.attempt) * self.paths.len() + (self.paths.len() - self.next)
    }
}

fn join_with(parts: &Vec<String>, separator: &str) -> (r: String)
    ensures
        r@ == separated(text::texts(parts@), separator@),
{
    let ghost all = text::texts(parts@);
    let mut out = "".to_owned();
    let mut i: usize = 0;
    proof {
        reveal_strlit("");
        assert(out@ =~= separated(all.take(0), separator@));
    }
    while i < parts.len()
        invariant
            i <= parts@.len(),
            all == text::texts(parts@),
            out@ == separated(all.take(i as int), separator@),
        decreases parts.len() - i,
    {
        proof {
            assert(all.take(i + 1).drop_last() =~= all.take(i as int));
            assert(all.take(i + 1).last() == parts@[i as int]@);
        }
        if i > 0 {
            out.append(separator);
        }
        out.append(parts[i].as_str());
        proof {
            assert(out@ =~= separated(all.take(i + 1), separator@));
        }
        i += 1;
    }
    proof {
        assert(all.take(i as int) =~= all);
    }
    out
}

fn describe_failure(path: &str, ebusy: bool, error: &str, debug: &str) -> (r: String)
    ensures
        r@ == failure_line(path@, ebusy, error@, debug@),
{
    let mut line = path.to_owned();
    line.append(
        if ebusy {
            " (EBUSY)"
        } else {
            ""
        },
    );
    line.append(": ");
    line.append(error);
    line.append(" | debug=");
    line.append(debug);
    line
}

impl CardSearch {
    /// Starts the search over the cards with these paths, in this order.
    pub fn new(paths: Vec<String>) -> (r: Result<CardSearch, String>)
        ensures
            r is Ok <==> paths@.len() > 0,
            r matches Ok(search) ==> search@ == CardSearchView::initial(text::texts(paths@))
                && search@.wf(),
            r matches Err(reason) ==> reason@ == "No DRM card nodes found in /dev/dri"@,
    {
        if paths.len() == 0 {
            return Err("No DRM card nodes found in /dev/dri".to_owned());
        }
        let search = CardSearch {
            paths,
            attempt: 1,
            next: 0,
            saw_ebusy: false,
            errors: Vec::new(),
        };
        assert(text::texts(search.errors@) =~= Seq::empty());
        Ok(search)
    }

    /// Records that the card to be tried could not be used, and tells what to
    /// do next. The two descriptions of the error go into the reason to give
    /// up.
    pub fn probe_failed(&mut self, ebusy: bool, error: &str, debug: &str) -> (r: CardAction)
        requires
            old(self)@.wf(),
        ensures
            final(self)@ == old(self)@.failed(ebusy, error@, debug@),
            r@ == old(self)@.recorded(ebusy, error@, debug@).action(),
            r !is GiveUp ==> final(self)@.wf(),
    {
        let cards: usize = self.paths.len();
        let line = describe_failure(self.paths[self.next].as_str(), ebusy, error, debug);
        proof {
            assert(text::texts(self.errors@.push(line)) =~= text::texts(self.errors@).push(line@));
        }
        self.errors.push(line);
        self.next = self.next + 1;
        if ebusy {
            self.saw_ebusy = true;
        }
        assert(self@ == old(self)@.recorded(ebusy, error@, debug@));
        if self.next < cards {
            return CardAction::Probe(self.next);
        }
        if self.saw_ebusy && self.attempt < MAX_OPEN_RETRIES {
            self.attempt = self.attempt + 1;
            self.next = 0;
            self.saw_ebusy = false;
            self.errors = Vec::new();
            assert(text::texts(self.errors@) =~= Seq::empty());
            return CardAction::Wait;
        }
        let mut reason = "No touchbar device found after ".to_owned();
        let count = decimal_string(self.attempt as u64);
        reason.append(count.as_str());
        reason.append(" attempt(s), attempted: [\n    ");
        let list = join_with(&self.errors, ",\n    ");
        reason.append(list.as_str());
        reason.append("\n]");
        CardAction::GiveUp(reason)
    }

    /// The attempt that is being made, from one.
    pub fn attempt(&self) -> (r: usize)
        ensures
            r == self@.attempt,
    {
        self.attempt
    }

    /// The path of the card to be tried.
    pub fn path(&self) -> (r: &String)
        requires
            self@.wf(),
        ensures
            r@ == self@.paths[self@.next as int],
    {
        &self.paths[self.next]
    }
}

/// The search comes to an end: each failure leaves fewer cards to be tried, or
/// the search is given up.
pub proof fn card_search_ends(
    s: CardSearchView,
    ebusy: bool,
    error: Seq<char>,
    debug: Seq<char>,
)
    requires
        s.wf(),
    ensures
        s.probes_left() >= 1,
        s.recorded(ebusy, error, debug).action() !is GiveUp ==> s.failed(
            ebusy,
            error,
            debug,
        ).probes_left() == s.probes_left() - 1,
        s.probes_left() == 1 ==> s.recorded(ebusy, error, debug).action() is GiveUp,
{
    let n = s.paths.len();
    let k = MAX_OPEN_RETRIES - s.attempt;
    assert(k * n >= 0) by (nonlinear_arith)
        requires
            k >= 0,
            n >= 0,
    ;
    assert((k - 1) * n == k * n - n) by (nonlinear_arith);
    assert(k >= 1 ==> k * n >= 1) by (nonlinear_arith)
        requires
            n >= 1,
    ;
    assert(MAX_OPEN_RETRIES - (s.attempt + 1) == k - 1);
}

/// An attempt without a card in use is the last one.
pub proof fn only_busy_cards_are_tried_again(
    s: CardSearchView,
    ebusy: bool,
    error: Seq<char>,
    debug: Seq<char>,
)
    requires
        s.wf(),
        s.next + 1 == s.paths.len(),
        !s.saw_ebusy,
        !ebusy,
    ensures
        s.recorded(ebusy, error, debug).action() is GiveUp,
{
}

} // verus!
