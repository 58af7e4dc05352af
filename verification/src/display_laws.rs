//! What the search for the display finds, and what is set for it.

use crate::cards;
use crate::cards::{CardActionView, CardSearchView};
use crate::display;
use crate::display::{
    ConnectorInfo, DrmObject, ModeSize, PixelFormat, PlaneInfo, PropertyKind, PropertyValue,
    SettingView,
};
use crate::search;
use crate::search::Search;
use crate::text;
use vstd::prelude::*;
use vstd::string::*;

verus! {

/// The property of this name is set, and to this value only.
pub open spec fn is_set(
    list: Seq<SettingView>,
    object: DrmObject,
    name: Seq<char>,
    value: PropertyValue,
) -> bool {
    &&& exists|i: int|
        0 <= i < list.len() && (#[trigger] list[i]) == (SettingView { object, name, value })
    &&& forall|i: int|
        0 <= i < list.len() && (#[trigger] list[i]).object == object && list[i].name == name
            ==> list[i].value == value
}

proof fn lemma_setting_names()
    ensures
        "CRTC_ID"@.len() == 7,
        "MODE_ID"@.len() == 7,
        "CRTC_ID"@[0] == 'C',
        "MODE_ID"@[0] == 'M',
        "ACTIVE"@.len() == 6,
        "FB_ID"@.len() == 5,
        "FB_ID"@[0] == 'F',
        "SRC_X"@.len() == 5 && "SRC_X"@[0] == 'S' && "SRC_X"@[4] == 'X',
        "SRC_Y"@.len() == 5 && "SRC_Y"@[0] == 'S' && "SRC_Y"@[4] == 'Y',
        "SRC_W"@.len() == 5 && "SRC_W"@[0] == 'S' && "SRC_W"@[4] == 'W',
        "SRC_H"@.len() == 5 && "SRC_H"@[0] == 'S' && "SRC_H"@[4] == 'H',
        "CRTC_X"@.len() == 6 && "CRTC_X"@[5] == 'X',
        "CRTC_Y"@.len() == 6 && "CRTC_Y"@[5] == 'Y',
        "CRTC_W"@.len() == 6 && "CRTC_W"@[5] == 'W',
        "CRTC_H"@.len() == 6 && "CRTC_H"@[5] == 'H',
{
    reveal_strlit("CRTC_ID");
    reveal_strlit("MODE_ID");
    reveal_strlit("ACTIVE");
    reveal_strlit("FB_ID");
    reveal_strlit("SRC_X");
    reveal_strlit("SRC_Y");
    reveal_strlit("SRC_W");
    reveal_strlit("SRC_H");
    reveal_strlit("CRTC_X");
    reveal_strlit("CRTC_Y");
    reveal_strlit("CRTC_W");
    reveal_strlit("CRTC_H");
}

/// The plane lies on the display from its corner on and is as wide and as high
/// as the mode.
pub proof fn plane_covers_the_display(width: u16, height: u16)
    ensures
        ({
            let list = display::mode_settings(width, height);
            &&& is_set(list, DrmObject::Plane, "CRTC_X"@, PropertyValue::Signed(0))
            &&& is_set(list, DrmObject::Plane, "CRTC_Y"@, PropertyValue::Signed(0))
            &&& is_set(list, DrmObject::Plane, "CRTC_W"@, PropertyValue::Unsigned(width as u64))
            &&& is_set(list, DrmObject::Plane, "CRTC_H"@, PropertyValue::Unsigned(height as u64))
        }),
{
    lemma_setting_names();
    let list = display::mode_settings(width, height);
    assert(list[9].name == "CRTC_X"@ && list[10].name == "CRTC_Y"@);
    assert(list[11].name == "CRTC_W"@ && list[12].name == "CRTC_H"@);
}

/// The plane shows the frame buffer from its corner on, as far as the plane
/// reaches on the display: sizes there are in units of 1/65536 pixel.
pub proof fn plane_shows_the_whole_frame(
    width: u16,
    height: u16,
    src_w: u64,
    src_h: u64,
    crtc_w: u64,
    crtc_h: u64,
)
    requires
        ({
            let list = display::mode_settings(width, height);
            &&& is_set(list, DrmObject::Plane, "SRC_W"@, PropertyValue::Unsigned(src_w))
            &&& is_set(list, DrmObject::Plane, "SRC_H"@, PropertyValue::Unsigned(src_h))
            &&& is_set(list, DrmObject::Plane, "CRTC_W"@, PropertyValue::Unsigned(crtc_w))
            &&& is_set(list, DrmObject::Plane, "CRTC_H"@, PropertyValue::Unsigned(crtc_h))
        }),
    ensures
        src_w == 65_536 * crtc_w,
        src_h == 65_536 * crtc_h,
{
    let list = display::mode_settings(width, height);
    assert(list[7].name == "SRC_W"@ && list[8].name == "SRC_H"@);
    assert(list[11].name == "CRTC_W"@ && list[12].name == "CRTC_H"@);
}

/// The frame buffer is shown from its corner on, 65536 units to a pixel.
pub proof fn frame_is_shown_from_its_corner(width: u16, height: u16)
    ensures
        ({
            let list = display::mode_settings(width, height);
            &&& is_set(list, DrmObject::Plane, "SRC_X"@, PropertyValue::Unsigned(0))
            &&& is_set(list, DrmObject::Plane, "SRC_Y"@, PropertyValue::Unsigned(0))
            &&& is_set(
                list,
                DrmObject::Plane,
                "SRC_W"@,
                PropertyValue::Unsigned((65_536 * width) as u64),
            )
            &&& is_set(
                list,
                DrmObject::Plane,
                "SRC_H"@,
                PropertyValue::Unsigned((65_536 * height) as u64),
            )
        }),
{
    lemma_setting_names();
    let list = display::mode_settings(width, height);
    assert(list[5].name == "SRC_X"@ && list[6].name == "SRC_Y"@);
    assert(list[7].name == "SRC_W"@ && list[8].name == "SRC_H"@);
}

/// The connector and the plane are bound to the chosen controller, which runs
/// the chosen mode, and the plane shows the frame buffer.
pub proof fn parts_are_bound_together(width: u16, height: u16)
    ensures
        ({
            let list = display::mode_settings(width, height);
            &&& is_set(list, DrmObject::Connector, "CRTC_ID"@, PropertyValue::Crtc)
            &&& is_set(list, DrmObject::Plane, "CRTC_ID"@, PropertyValue::Crtc)
            &&& is_set(list, DrmObject::Crtc, "MODE_ID"@, PropertyValue::Mode)
            &&& is_set(list, DrmObject::Crtc, "ACTIVE"@, PropertyValue::Boolean(true))
            &&& is_set(list, DrmObject::Plane, "FB_ID"@, PropertyValue::Framebuffer)
            &&& list.len() == 13
        }),
{
    lemma_setting_names();
    let list = display::mode_settings(width, height);
    assert(list[0].name == "CRTC_ID"@ && list[1].name == "MODE_ID"@);
    assert(list[2].name == "ACTIVE"@ && list[3].name == "FB_ID"@ && list[4].name == "CRTC_ID"@);
}

/// A mode is one of a Touch Bar where it is not empty and its longer side is at
/// least eight times the shorter one, whichever that is.
pub proof fn touch_bars_are_long(width: u16, height: u16)
    ensures
        display::touchbar_like(width, height) == (width > 0 && height > 0 && (width >= 8 * height
            || height >= 8 * width)),
{
}

/// The ratio of a mode is how often its height goes into a thousand times its
/// width.
pub proof fn ratio_is_width_over_height(m: ModeSize)
    ensures
        m.height > 0 ==> m.ratio() * m.height <= 1000 * m.width < (m.ratio() + 1) * m.height,
        m.height == 0 ==> m.ratio() == 1000 * m.width,
        m.fits() == display::touchbar_like(m.width, m.height),
{
    if m.height > 0 {
        let w = m.width * 1000;
        let h = m.height as int;
        assert((w / h) * h <= w < (w / h + 1) * h) by (nonlinear_arith)
            requires
                h > 0,
                w >= 0,
        ;
    }
}

proof fn lemma_best_mode_exists(modes: Seq<ModeSize>, j: int)
    requires
        0 <= j < modes.len(),
        modes[j].fits(),
    ensures
        exists|m: int| display::is_best_mode(modes, m) && modes[j].ratio() <= modes[m].ratio(),
    decreases modes.len(),
{
    let head = modes.drop_last();
    let last = modes.len() - 1;
    let top = modes[last];
    if exists|k: int| 0 <= k < head.len() && (#[trigger] head[k]).fits() {
        let k0 = choose|k: int| 0 <= k < head.len() && (#[trigger] head[k]).fits();
        let k = if j < last {
            j
        } else {
            k0
        };
        assert(head[k].fits());
        lemma_best_mode_exists(head, k);
        let m = choose|m: int|
            display::is_best_mode(head, m) && head[k].ratio() <= head[m].ratio();
        assert(modes[m] == head[m]);
        if top.fits() && top.ratio() >= modes[m].ratio() {
            assert forall|i: int| 0 <= i < modes.len() && (#[trigger] modes[i]).fits() implies if i
                <= last {
                modes[i].ratio() <= modes[last].ratio()
            } else {
                modes[i].ratio() < modes[last].ratio()
            } by {
                if i < last {
                    assert(head[i] == modes[i]);
                }
            }
            assert(display::is_best_mode(modes, last));
        } else {
            assert forall|i: int| 0 <= i < modes.len() && (#[trigger] modes[i]).fits() implies if i
                <= m {
                modes[i].ratio() <= modes[m].ratio()
            } else {
                modes[i].ratio() < modes[m].ratio()
            } by {
                if i < last {
                    assert(head[i] == modes[i]);
                }
            }
            assert(display::is_best_mode(modes, m));
        }
    } else {
        if j < last {
            assert(head[j] == modes[j]);
        }
        assert forall|i: int| 0 <= i < modes.len() && (#[trigger] modes[i]).fits() implies i
            == last by {
            if i < last {
                assert(head[i] == modes[i]);
            }
        }
        assert(display::is_best_mode(modes, last));
    }
}

/// What is chosen is a connected display with a mode of a Touch Bar, and no
/// connected display has one of a greater ratio.
pub proof fn the_longest_bar_is_chosen(
    connectors: Seq<ConnectorInfo>,
    c: int,
    m: int,
    other: int,
    j: int,
)
    requires
        display::is_choice(connectors, c, m),
        0 <= other < connectors.len(),
        connectors[other].connected,
        0 <= j < connectors[other].modes@.len(),
        connectors[other].modes@[j].fits(),
    ensures
        0 <= c < connectors.len(),
        connectors[c].connected,
        0 <= m < connectors[c].modes@.len(),
        connectors[c].modes@[m].fits(),
        connectors[other].modes@[j].ratio() <= connectors[c].modes@[m].ratio(),
        other == c && j > m ==> connectors[other].modes@[j].ratio()
            < connectors[c].modes@[m].ratio(),
{
    let modes = connectors[other].modes@;
    lemma_best_mode_exists(modes, j);
    let best = choose|k: int|
        display::is_best_mode(modes, k) && modes[j].ratio() <= modes[k].ratio();
    assert(display::offers(connectors, other, best));
}

/// Of displays with modes of the same ratio the wider one is chosen, and of
/// equal ones the last.
pub proof fn equal_bars_are_told_apart(
    connectors: Seq<ConnectorInfo>,
    c: int,
    m: int,
    c2: int,
    m2: int,
)
    requires
        display::is_choice(connectors, c, m),
        display::offers(connectors, c2, m2),
        connectors[c2].modes@[m2].ratio() == connectors[c].modes@[m].ratio(),
    ensures
        connectors[c2].modes@[m2].width <= connectors[c].modes@[m].width,
        connectors[c2].modes@[m2].width == connectors[c].modes@[m].width ==> c2 <= c,
{
}

/// A plane is used with alpha where it has that format, else without where it
/// has the other; with neither format, or on another controller, it is not
/// used.
pub proof fn formats_with_alpha_go_first(formats: Seq<u32>, plane: PlaneInfo, crtc: u32)
    ensures
        display::primary_format(formats) == Some(PixelFormat::Argb8888) <==> formats.contains(
            0x34325241,
        ),
        display::primary_format(formats) == Some(PixelFormat::Xrgb8888) <==> !formats.contains(
            0x34325241,
        ) && formats.contains(0x34325258),
        display::primary_format(formats) is None <==> !formats.contains(0x34325241)
            && !formats.contains(0x34325258),
        plane.usable(crtc) == (plane.crtcs@.contains(crtc) && (plane.formats@.contains(0x34325241)
            || plane.formats@.contains(0x34325258))),
{
}

/// The controller is the first that the connector can be driven by, or else the
/// first of all; there is none only where there is none at all.
pub proof fn drivable_controllers_go_first(possible: Seq<u32>, all: Seq<u32>)
    ensures
        possible.len() > 0 ==> display::chosen_crtc(possible, all) == Some(possible[0]),
        possible.len() == 0 && all.len() > 0 ==> display::chosen_crtc(possible, all) == Some(
            all[0],
        ),
        display::chosen_crtc(possible, all) is None <==> possible.len() == 0 && all.len() == 0,
{
}

/// A search finds the first entry that fits. Where none fits it tells whether
/// the list could be read to its end.
pub proof fn searches_find_the_first(
    names: Seq<Seq<char>>,
    fits: spec_fn(Seq<char>) -> bool,
    read_failed: bool,
    r: Search,
    i: int,
)
    requires
        search::search_result(names, fits, read_failed, r),
        0 <= i < names.len(),
        fits(names[i]),
    ensures
        r matches Search::Found(j) && j <= i && fits(names[j as int]),
{
}

/// A search that finds nothing has seen nothing that fits.
pub proof fn searches_that_fail(
    names: Seq<Seq<char>>,
    fits: spec_fn(Seq<char>) -> bool,
    read_failed: bool,
    r: Search,
)
    requires
        search::search_result(names, fits, read_failed, r),
        forall|i: int| 0 <= i < names.len() ==> !fits(#[trigger] names[i]),
    ensures
        r == (if read_failed {
            Search::ReadFailed
        } else {
            Search::Missing
        }),
{
}

/// A value of a property is known by its name, in whatever case.
pub proof fn values_are_known_by_name(
    values: Seq<Option<String>>,
    i: int,
    wanted: Seq<char>,
    name: String,
)
    requires
        0 <= i < values.len(),
    ensures
        values[i] == Some(name) ==> display::named(values, i, wanted) == text::same_ignoring_case(
            name@,
            wanted,
        ),
        values[i] is None ==> !display::named(values, i, wanted),
{
}

/// Of the names in the order of preference, the first that any value has
/// decides, and of several values with that name the first is set.
pub proof fn preferred_values_are_set(
    values: Seq<Option<String>>,
    wanted: Seq<Seq<char>>,
    i: int,
    t: int,
    j: int,
)
    requires
        display::is_first_preferred(values, wanted, i),
        0 <= t < wanted.len(),
        display::named(values, j, wanted[t]),
    ensures
        exists|u: int|
            0 <= u <= t && display::named(values, i, #[trigger] wanted[u]) && (u == t ==> i <= j),
{
    let u = choose|u: int| #[trigger] display::is_preferred(values, wanted, u, i);
    assert(display::named(values, i, wanted[u]));
    if t < u {
        assert(!display::named(values, j, wanted[t]));
    }
    if u == t && j < i {
        assert(!display::named(values, j, wanted[u]));
    }
}

/// Pixels that were multiplied by their alpha are preferred, then coverage, then
/// none; a property without any of these is left alone, and so is one of
/// another kind.
pub proof fn blending_is_preferred_in_order(kind: PropertyKind, r: Option<PropertyValue>)
    requires
        display::is_blend_setting(kind, r),
    ensures
        display::blend_modes() == seq![
            "Pre-multiplied"@,
            "Premultiplied"@,
            "Coverage"@,
            "None"@,
        ],
        kind !is Enum ==> r is None,
        kind matches PropertyKind::Enum(values) ==> {
            &&& r is None ==> forall|t: int, j: int|
                0 <= t < 4 ==> !#[trigger] display::named(
                    values@,
                    j,
                    display::blend_modes()[t],
                )
            &&& r matches Some(value) ==> value matches PropertyValue::Enum(i)
                && display::is_first_preferred(values@, display::blend_modes(), i as int)
        },
{
}

/// Alpha and depth go to their maximum where they are ranges; the blend mode is
/// as preferred; any other property is left alone.
pub proof fn optional_properties(name: Seq<char>, max: u64, kind: PropertyKind, r: Option<
    PropertyValue,
>)
    requires
        display::is_optional_setting(name, kind, r),
    ensures
        display::optional_names() == seq!["alpha"@, "zpos"@, "pixel blend mode"@],
        name == "alpha"@ || name == "zpos"@ ==> {
            &&& kind == PropertyKind::UnsignedRange(max) ==> r == Some(PropertyValue::Unsigned(max))
            &&& kind !is UnsignedRange ==> r is None
        },
        name == "pixel blend mode"@ ==> display::is_blend_setting(kind, r),
        name != "alpha"@ && name != "zpos"@ && name != "pixel blend mode"@ ==> r is None,
{
    reveal_strlit("alpha");
    reveal_strlit("zpos");
    reveal_strlit("pixel blend mode");
    assert("alpha"@.len() == 5 && "zpos"@.len() == 4 && "pixel blend mode"@.len() == 16);
}

/// A card is known by a name that begins with `card`, and has the number behind
/// that; one without a number comes behind all others.
pub proof fn cards_have_numbers(rest: Seq<char>, n: nat)
    requires
        n <= u32::MAX,
    ensures
        cards::is_card("card"@ + rest),
        cards::card_number("card"@ + text::decimal(n)) == n,
        text::parsed_number(rest, u32::MAX as nat) is None ==> cards::card_number("card"@ + rest)
            == u32::MAX,
{
    text::parse_undoes_decimal(n, u32::MAX as nat);
    assert(("card"@ + text::decimal(n)).skip("card"@.len() as int) =~= text::decimal(n));
    assert(("card"@ + rest).skip("card"@.len() as int) =~= rest);
    assert(("card"@ + rest).subrange(0, "card"@.len() as int) =~= "card"@);
}

/// Nothing else is a card.
pub proof fn only_cards_are_cards(name: Seq<char>)
    ensures
        cards::is_card(name) <==> name.len() >= 4 && name.take(4) == seq!['c', 'a', 'r', 'd'],
{
    reveal_strlit("card");
    if name.len() >= 4 {
        assert(name.take(4) =~= name.subrange(0, 4));
        assert("card"@ =~= seq!['c', 'a', 'r', 'd']);
    }
}

/// Cards are tried by their numbers, and cards with the same number in the order
/// in which they are listed.
pub proof fn cards_are_tried_by_number(names: Seq<Seq<char>>, a: int, b: int)
    ensures
        cards::card_number(names[a]) < cards::card_number(names[b]) ==> cards::tried_before(
            names,
            a,
            b,
        ) && !cards::tried_before(names, b, a),
        cards::card_number(names[a]) == cards::card_number(names[b]) ==> cards::tried_before(
            names,
            a,
            b,
        ) == (a < b),
{
}

/// After a card that cannot be used comes the next one, with what was recorded
/// kept and the new failure behind it.
pub proof fn the_next_card_is_tried(
    s: CardSearchView,
    ebusy: bool,
    error: Seq<char>,
    debug: Seq<char>,
)
    requires
        s.wf(),
        s.next + 1 < s.paths.len(),
    ensures
        ({
            let r = s.failed(ebusy, error, debug);
            &&& s.recorded(ebusy, error, debug).action() == CardActionView::Probe(s.next + 1)
            &&& r.next == s.next + 1
            &&& r.attempt == s.attempt
            &&& r.paths == s.paths
            &&& r.saw_ebusy == (s.saw_ebusy || ebusy)
            &&& r.errors.len() == s.errors.len() + 1
            &&& r.errors.drop_last() == s.errors
            &&& r.errors.last() == cards::failure_line(
                s.paths[s.next as int],
                ebusy,
                error,
                debug,
            )
        }),
{
    assert(s.failed(ebusy, error, debug).errors.drop_last() =~= s.errors);
}

/// After the last card all are tried again, from the first and with nothing
/// recorded, where one was in use and fewer than fifteen attempts were made.
/// Else the search is given up, and the reason tells of every failure.
pub proof fn busy_cards_are_tried_again(
    s: CardSearchView,
    ebusy: bool,
    error: Seq<char>,
    debug: Seq<char>,
)
    requires
        s.wf(),
        s.next + 1 == s.paths.len(),
    ensures
        ({
            let again = (s.saw_ebusy || ebusy) && s.attempt < 15;
            let r = s.failed(ebusy, error, debug);
            let line = cards::failure_line(s.paths[s.next as int], ebusy, error, debug);
            let action = s.recorded(ebusy, error, debug).action();
            &&& again ==> action is Wait && r.attempt == s.attempt + 1 && r.next == 0
                && !r.saw_ebusy && r.errors.len() == 0 && r.paths == s.paths
            &&& !again ==> action == CardActionView::GiveUp(
                cards::give_up_reason(s.attempt, s.errors.push(line)),
            )
        }),
{
}

/// A search starts with the first card, the first attempt and nothing recorded,
/// and waits three quarters of a second between attempts.
pub proof fn searches_start_with_the_first_card(paths: Seq<Seq<char>>)
    ensures
        ({
            let s = CardSearchView::initial(paths);
            &&& s.paths == paths
            &&& s.next == 0
            &&& s.attempt == 1
            &&& !s.saw_ebusy
            &&& s.errors.len() == 0
        }),
        cards::RETRY_DELAY_MS == 750,
        cards::MAX_OPEN_RETRIES == 15,
        cards::EBUSY == 16,
{
}

/// What is recorded of a failure names the card, tells whether it was in use,
/// and holds both descriptions of the error.
pub proof fn failures_are_described(path: Seq<char>, error: Seq<char>, debug: Seq<char>)
    ensures
        cards::failure_line(path, false, error, debug) == path + ": "@ + error + " | debug="@
            + debug,
        cards::failure_line(path, true, error, debug) == path + " (EBUSY)"@ + ": "@ + error
            + " | debug="@ + debug,
{
    reveal_strlit("");
    assert(path + ""@ =~= path);
}

/// The parts stand in the text in order, with the separator between two of them
/// and nowhere else.
pub proof fn parts_are_separated(parts: Seq<Seq<char>>, part: Seq<char>, separator: Seq<char>)
    ensures
        cards::separated(Seq::empty(), separator) == Seq::<char>::empty(),
        cards::separated(seq![part], separator) == part,
        parts.len() > 0 ==> cards::separated(parts.push(part), separator) == cards::separated(
            parts,
            separator,
        ) + separator + part,
{
    assert(parts.push(part).drop_last() =~= parts);
}

proof fn lemma_part_occurs(parts: Seq<Seq<char>>, separator: Seq<char>, i: int)
    requires
        0 <= i < parts.len(),
    ensures
        text::occurs_in(cards::separated(parts, separator), parts[i]),
    decreases parts.len(),
{
    let all = cards::separated(parts, separator);
    let none = Seq::<char>::empty();
    if parts.len() == 1 {
        text::parts_occur(none, parts[0], none);
        assert(none + parts[0] + none =~= all);
    } else if i == parts.len() - 1 {
        let head = cards::separated(parts.drop_last(), separator) + separator;
        text::parts_occur(head, parts[i], none);
        assert(head + parts[i] + none =~= all);
    } else {
        lemma_part_occurs(parts.drop_last(), separator, i);
        let earlier = cards::separated(parts.drop_last(), separator);
        lemma_occurs_further(none, earlier, separator + parts.last(), parts[i]);
        assert(none + earlier + (separator + parts.last()) =~= all);
    }
}

proof fn lemma_occurs_further(a: Seq<char>, m: Seq<char>, z: Seq<char>, part: Seq<char>)
    requires
        text::occurs_in(m, part),
    ensures
        text::occurs_in(a + m + z, part),
{
    let at = choose|at: int| text::occurs_at(m, part, at);
    let s = a + m + z;
    assert(s.subrange(a.len() + at, a.len() + at + part.len()) =~= m.subrange(
        at,
        at + part.len(),
    ));
    assert(text::occurs_at(s, part, a.len() + at));
}

/// The reason to give up tells how many attempts were made and holds everything
/// that was recorded, in order.
pub proof fn reasons_list_failures(attempt: nat, errors: Seq<Seq<char>>, i: int)
    requires
        0 <= i < errors.len(),
    ensures
        ({
            let reason = cards::give_up_reason(attempt, errors);
            &&& text::begins_with(
                reason,
                "No touchbar device found after "@ + text::decimal(attempt) + " attempt(s)"@,
            )
            &&& text::occurs_in(reason, cards::separated(errors, ",\n    "@))
            &&& text::occurs_in(reason, errors[i])
        }),
{
    reveal_strlit(" attempt(s)");
    reveal_strlit(" attempt(s), attempted: [\n    ");
    let reason = cards::give_up_reason(attempt, errors);
    let front = "No touchbar device found after "@ + text::decimal(attempt);
    let middle = " attempt(s), attempted: [\n    "@;
    let list = cards::separated(errors, ",\n    "@);
    text::parts_occur(front + middle, list, "\n]"@);
    lemma_part_occurs(errors, ",\n    "@, i);
    lemma_occurs_further(front + middle, list, "\n]"@, errors[i]);
    assert(front + middle + list + "\n]"@ =~= reason);
    let n = " attempt(s)"@.len() as int;
    assert(middle.take(n) =~= " attempt(s)"@);
    assert(reason.subrange(0, front.len() + n) =~= front + " attempt(s)"@);
}

} // verus!
