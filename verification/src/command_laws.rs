//! When the commands of buttons are run.

use crate::control;
use crate::session;
use crate::session::{BarView, TouchView};
use crate::session_laws;
use crate::session_laws::BarEvent;
use vstd::prelude::*;

verus! {

/// The command that an event hands back: only lifting a finger does.
pub open spec fn handed_back(s: BarView, event: BarEvent) -> Option<Seq<char>> {
    match event {
        BarEvent::TouchUp(slot) => s.lifted_command(slot),
        _ => None,
    }
}

/// The touch in a slot, if any.
pub open spec fn touch_in(s: BarView, slot: u32) -> Option<TouchView> {
    match session::slot_place(s.touches, slot) {
        Some(i) => Some(s.touches[i].1),
        None => None,
    }
}

/// The touch that begins when a finger comes down: the button that it presses
/// and the command that this button has then.
pub open spec fn begun_touch(s: BarView, slot: u32, hit: Option<u32>) -> Option<TouchView> {
    let t = s.lifted(slot);
    match t.pressed_button(hit) {
        Some(button) => Some(
            TouchView {
                layer: t.active_layer,
                button,
                command: t.layers[t.active_layer as int][button as int].command,
            },
        ),
        None => None,
    }
}

/// Another layer than the visible one comes up.
pub open spec fn changes_layer(s: BarView, requested: usize) -> bool {
    requested < s.layers.len() && requested != s.active_layer
}

/// The event ends the touch in a slot: its finger lifts or comes down anew, all
/// touches are let go, or another layer comes up that the finger did not ask
/// for.
pub open spec fn ends_touch(s: BarView, event: BarEvent, slot: u32) -> bool {
    match event {
        BarEvent::TouchUp(other) => other == slot,
        BarEvent::TouchDown(other, _) => other == slot,
        BarEvent::Cancel => true,
        BarEvent::DigitizerRemoved => true,
        BarEvent::Reload(_) => true,
        BarEvent::Control(layer) => changes_layer(s, layer),
        BarEvent::Key(rules, key, pressed, now, redraw_hit, layer_hit) => match s.shown_by_key(
            rules,
            key,
            pressed,
            now,
            redraw_hit,
            layer_hit,
        ) {
            Some(layer) => changes_layer(s, layer),
            None => false,
        },
        _ => false,
    }
}

/// No event of the history ends the touch in a slot.
pub open spec fn touch_lasts(s: BarView, history: Seq<BarEvent>, slot: u32) -> bool
    decreases history.len(),
{
    history.len() == 0 || {
        &&& touch_lasts(s, history.drop_last(), slot)
        &&& !ends_touch(session_laws::after_all(s, history.drop_last()), history.last(), slot)
    }
}

/// A finger comes down in this slot.
pub open spec fn comes_down_in(event: BarEvent, slot: u32) -> bool {
    event matches BarEvent::TouchDown(other, _) && other == slot
}

/// A new configuration brings layers.
pub open spec fn brings_layers(event: BarEvent) -> bool {
    event matches BarEvent::Reload(layers) ==> layers.len() > 0
}

proof fn lemma_place(touches: Seq<(u32, TouchView)>, slot: u32, i: int)
    requires
        session::slots_distinct(touches),
        0 <= i < touches.len(),
        touches[i].0 == slot,
    ensures
        session::slot_place(touches, slot) == Some(i),
{
    let j = session::slot_place(touches, slot)->0;
    assert(touches[j].0 == slot);
}

/// A touch that lifts leaves the other touches alone.
proof fn lemma_lifting(s: BarView, other: u32, slot: u32)
    requires
        s.wf(),
    ensures
        touch_in(s.lifted(other), slot) == (if other == slot {
            None
        } else {
            touch_in(s, slot)
        }),
{
    let t = s.lifted(other);
    session_laws::event_keeps_wf(s, BarEvent::TouchUp(other));
    if let Some(i) = session::slot_place(s.touches, other) {
        if let Some(k) = session::slot_place(s.touches, slot) {
            if other == slot {
                lemma_place(s.touches, slot, i);
                assert forall|a: int| 0 <= a < t.touches.len() implies (
                #[trigger] t.touches[a]).0 != slot by {
                    let b = if a < i {
                        a
                    } else {
                        a + 1
                    };
                    assert(t.touches[a] == s.touches[b]);
                }
            } else {
                let a = if k < i {
                    k
                } else {
                    k - 1
                };
                assert(s.touches[k].0 == slot && s.touches[i].0 == other);
                assert(t.touches[a] == s.touches[k]);
                lemma_place(t.touches, slot, a);
            }
        } else {
            assert forall|a: int| 0 <= a < t.touches.len() implies (
            #[trigger] t.touches[a]).0 != slot by {
                let b = if a < i {
                    a
                } else {
                    a + 1
                };
                assert(t.touches[a] == s.touches[b]);
            }
        }
    }
}

/// Pressing a button puts its touch behind the others.
proof fn lemma_pressing(s: BarView, other: u32, hit: Option<u32>, slot: u32)
    requires
        s.wf(),
    ensures
        touch_in(s.touch_down(other, hit), slot) == (if other == slot {
            begun_touch(s, slot, hit)
        } else {
            touch_in(s, slot)
        }),
{
    let t = s.lifted(other);
    let r = s.touch_down(other, hit);
    lemma_lifting(s, other, slot);
    session_laws::event_keeps_wf(s, BarEvent::TouchDown(other, hit));
    if let Some(button) = t.pressed_button(hit) {
        let n = t.touches.len() as int;
        let touch = begun_touch(s, other, hit)->0;
        assert(r.touches == t.touches.push((other, touch)));
        if other == slot {
            assert(r.touches[n].0 == slot);
            lemma_place(r.touches, slot, n);
        } else if let Some(k) = session::slot_place(t.touches, slot) {
            assert(r.touches[k] == t.touches[k]);
            lemma_place(r.touches, slot, k);
        } else {
            assert forall|a: int| 0 <= a < r.touches.len() implies (
            #[trigger] r.touches[a]).0 != slot by {
                if a < n {
                    assert(r.touches[a] == t.touches[a]);
                }
            }
        }
    }
}

/// A finger that comes down begins its touch.
pub(crate) proof fn touch_down_begins(s: BarView, slot: u32, hit: Option<u32>)
    requires
        s.wf(),
    ensures
        touch_in(s.touch_down(slot, hit), slot) == begun_touch(s, slot, hit),
{
    lemma_pressing(s, slot, hit, slot);
}

/// A key leaves the touches as they are, or lets go of all where another layer
/// comes up.
proof fn lemma_key_touches(
    s: BarView,
    rules: session::KeyRules,
    key: u32,
    pressed: bool,
    now: u64,
    redraw_hit: bool,
    layer_hit: Option<usize>,
    slot: u32,
)
    ensures
        s.key_step(rules, key, pressed, now, redraw_hit, layer_hit).touches == (if ends_touch(
            s,
            BarEvent::Key(rules, key, pressed, now, redraw_hit, layer_hit),
            slot,
        ) {
            Seq::empty()
        } else {
            s.touches
        }),
{
}

/// One event leaves a touch as it is or ends it, unless a finger comes down
/// anew in its slot.
pub proof fn event_keeps_touch(s: BarView, event: BarEvent, slot: u32)
    requires
        s.wf(),
        !comes_down_in(event, slot),
    ensures
        touch_in(session_laws::after(s, event), slot) == (if ends_touch(s, event, slot) {
            None
        } else {
            touch_in(s, slot)
        }),
{
    match event {
        BarEvent::Key(rules, key, pressed, now, redraw_hit, layer_hit) => {
            lemma_key_touches(s, rules, key, pressed, now, redraw_hit, layer_hit, slot);
        },
        BarEvent::TouchDown(other, hit) => {
            lemma_pressing(s, other, hit, slot);
        },
        BarEvent::TouchUp(other) => {
            lemma_lifting(s, other, slot);
        },
        _ => {},
    }
}

proof fn lemma_touch_after(s: BarView, history: Seq<BarEvent>, slot: u32)
    requires
        s.wf(),
        forall|i: int|
            0 <= i < history.len() ==> brings_layers(#[trigger] history[i]) && !comes_down_in(
                history[i],
                slot,
            ),
    ensures
        session_laws::after_all(s, history).wf(),
        touch_in(session_laws::after_all(s, history), slot) == (if touch_lasts(s, history, slot) {
            touch_in(s, slot)
        } else {
            None
        }),
    decreases history.len(),
{
    if history.len() > 0 {
        let head = history.drop_last();
        assert forall|i: int| 0 <= i < head.len() implies brings_layers(#[trigger] head[i])
            && !comes_down_in(head[i], slot) by {
            assert(head[i] == history[i]);
        }
        lemma_touch_after(s, head, slot);
        let before = session_laws::after_all(s, head);
        assert(history.last() == history[history.len() - 1]);
        session_laws::event_keeps_wf(before, history.last());
        event_keeps_touch(before, history.last(), slot);
    }
}

/// The command that lifting a finger hands back is that of the button which this
/// finger pressed when it came down, whatever came between, as long as nothing
/// ended the touch; where something did, lifting hands back none.
pub proof fn command_is_that_of_the_pressed_button(
    s: BarView,
    slot: u32,
    hit: Option<u32>,
    between: Seq<BarEvent>,
)
    requires
        s.wf(),
        forall|i: int|
            0 <= i < between.len() ==> brings_layers(#[trigger] between[i]) && !comes_down_in(
                between[i],
                slot,
            ),
    ensures
        ({
            let down = session_laws::after(s, BarEvent::TouchDown(slot, hit));
            let end = session_laws::after_all(down, between);
            handed_back(end, BarEvent::TouchUp(slot)) == (match begun_touch(s, slot, hit) {
                Some(touch) => if touch_lasts(down, between, slot) {
                    touch.command
                } else {
                    None
                },
                None => None,
            })
        }),
{
    let down = session_laws::after(s, BarEvent::TouchDown(slot, hit));
    lemma_pressing(s, slot, hit, slot);
    session_laws::event_keeps_wf(s, BarEvent::TouchDown(slot, hit));
    lemma_touch_after(down, between, slot);
}

/// The event with this index is a finger coming down that begins this touch,
/// and no later event ends it.
pub open spec fn begins(
    s: BarView,
    history: Seq<BarEvent>,
    j: int,
    slot: u32,
    touch: TouchView,
) -> bool {
    &&& 0 <= j < history.len()
    &&& history[j] matches BarEvent::TouchDown(other, hit) && other == slot && begun_touch(
        session_laws::after_all(s, history.take(j)),
        slot,
        hit,
    ) == Some(touch)
    &&& forall|k: int|
        j < k < history.len() ==> !ends_touch(
            session_laws::after_all(s, history.take(k)),
            #[trigger] history[k],
            slot,
        )
}

#[verifier::rlimit(40)]
proof fn lemma_touch_was_begun(s: BarView, history: Seq<BarEvent>, slot: u32)
    requires
        s.wf(),
        touch_in(s, slot) is None,
        forall|i: int| 0 <= i < history.len() ==> brings_layers(#[trigger] history[i]),
    ensures
        session_laws::after_all(s, history).wf(),
        touch_in(session_laws::after_all(s, history), slot) matches Some(touch) ==> exists|j: int|
            begins(s, history, j, slot, touch),
    decreases history.len(),
{
    if history.len() > 0 {
        let head = history.drop_last();
        let last = history.len() - 1;
        assert forall|i: int| 0 <= i < head.len() implies brings_layers(#[trigger] head[i]) by {
            assert(head[i] == history[i]);
        }
        lemma_touch_was_begun(s, head, slot);
        let before = session_laws::after_all(s, head);
        assert(brings_layers(history[last]));
        session_laws::event_keeps_wf(before, history.last());
        assert(history.take(last) =~= head);
        if let Some(touch) = touch_in(session_laws::after_all(s, history), slot) {
            if comes_down_in(history.last(), slot) {
                lemma_pressing(before, slot, history.last()->TouchDown_1, slot);
                assert(begins(s, history, last, slot, touch));
            } else {
                event_keeps_touch(before, history.last(), slot);
                let j = choose|j: int| begins(s, head, j, slot, touch);
                assert(history.take(j) =~= head.take(j));
                assert forall|k: int| j < k < history.len() implies !ends_touch(
                    session_laws::after_all(s, history.take(k)),
                    #[trigger] history[k],
                    slot,
                ) by {
                    if k < last {
                        assert(history.take(k) =~= head.take(k));
                        assert(head[k] == history[k]);
                    }
                }
                assert(begins(s, history, j, slot, touch));
            }
        }
    }
}

/// A command that lifting a finger hands back is that of a button which this
/// finger pressed when it came down, in a touch that nothing ended since.
pub proof fn command_was_pressed(s: BarView, history: Seq<BarEvent>, slot: u32)
    requires
        s.wf(),
        touch_in(s, slot) is None,
        forall|i: int| 0 <= i < history.len() ==> brings_layers(#[trigger] history[i]),
    ensures
        handed_back(session_laws::after_all(s, history), BarEvent::TouchUp(slot)) matches Some(
            command,
        ) ==> exists|j: int, touch: TouchView| #[trigger]
            begins(s, history, j, slot, touch) && touch.command == Some(command),
{
    lemma_touch_was_begun(s, history, slot);
    if let Some(command) = handed_back(
        session_laws::after_all(s, history),
        BarEvent::TouchUp(slot),
    ) {
        let touch = touch_in(session_laws::after_all(s, history), slot)->0;
        let j = choose|j: int| begins(s, history, j, slot, touch);
        assert(begins(s, history, j, slot, touch));
    }
}

/// The commands that a history of events runs, in order; `allowed` tells
/// whether commands were allowed when the daemon started.
pub open spec fn run_by_all(allowed: bool, s: BarView, history: Seq<BarEvent>) -> Seq<Seq<char>>
    decreases history.len(),
{
    if history.len() == 0 {
        Seq::empty()
    } else {
        let before = session_laws::after_all(s, history.drop_last());
        let earlier = run_by_all(allowed, s, history.drop_last());
        match control::permitted(allowed, handed_back(before, history.last())) {
            Some(command) => earlier.push(command),
            None => earlier,
        }
    }
}

/// Where commands were not allowed at the start, none is ever run, whatever
/// configuration comes in later.
pub proof fn nothing_runs_unless_allowed(s: BarView, history: Seq<BarEvent>)
    ensures
        run_by_all(false, s, history) == Seq::<Seq<char>>::empty(),
    decreases history.len(),
{
    if history.len() > 0 {
        nothing_runs_unless_allowed(s, history.drop_last());
    }
}

/// The event with this index hands back this command by lifting a finger.
pub open spec fn lifts_with(s: BarView, history: Seq<BarEvent>, i: int, command: Seq<char>) -> bool {
    &&& 0 <= i < history.len()
    &&& history[i] is TouchUp
    &&& handed_back(session_laws::after_all(s, history.take(i)), history[i]) == Some(command)
}

proof fn lemma_run_on_lifting(allowed: bool, s: BarView, history: Seq<BarEvent>, k: int)
    requires
        0 <= k < run_by_all(allowed, s, history).len(),
    ensures
        allowed,
        exists|i: int| lifts_with(s, history, i, run_by_all(allowed, s, history)[k]),
    decreases history.len(),
{
    let head = history.drop_last();
    let last = history.len() - 1;
    let runs = run_by_all(allowed, s, history);
    let earlier = run_by_all(allowed, s, head);
    if k < earlier.len() {
        lemma_run_on_lifting(allowed, s, head, k);
        let i = choose|i: int| lifts_with(s, head, i, earlier[k]);
        assert(history.take(i) =~= head.take(i));
        assert(lifts_with(s, history, i, runs[k]));
    } else {
        assert(history.take(last) =~= head);
        assert(lifts_with(s, history, last, runs[k]));
    }
}

/// The event with this index lifts a finger and hands back this command, which
/// is that of the button that the same touch pressed when it began.
pub open spec fn lifts_pressed(
    s: BarView,
    history: Seq<BarEvent>,
    i: int,
    command: Seq<char>,
) -> bool {
    &&& lifts_with(s, history, i, command)
    &&& exists|j: int, touch: TouchView| #[trigger]
        begins(s, history.take(i), j, history[i]->TouchUp_0, touch) && touch.command == Some(
            command,
        )
}

/// A command is run only where commands were allowed at the start, and only
/// when the finger lifts that pressed its button: never when a finger comes
/// down, and never when touches are cancelled.
pub proof fn commands_run_on_lifting(allowed: bool, s: BarView, history: Seq<BarEvent>, k: int)
    requires
        s.wf(),
        s.touches.len() == 0,
        forall|i: int| 0 <= i < history.len() ==> brings_layers(#[trigger] history[i]),
        0 <= k < run_by_all(allowed, s, history).len(),
    ensures
        allowed,
        exists|i: int| lifts_pressed(s, history, i, run_by_all(allowed, s, history)[k]),
{
    let command = run_by_all(allowed, s, history)[k];
    lemma_run_on_lifting(allowed, s, history, k);
    let i = choose|i: int| lifts_with(s, history, i, command);
    let before = history.take(i);
    let slot = history[i]->TouchUp_0;
    assert(history[i] == BarEvent::TouchUp(slot));
    assert forall|a: int| 0 <= a < before.len() implies brings_layers(#[trigger] before[a]) by {
        assert(before[a] == history[a]);
    }
    command_was_pressed(s, before, slot);
    assert(lifts_pressed(s, history, i, command));
}

/// Where commands were allowed at the start, every command that lifting a
/// finger hands back is run.
pub proof fn allowed_commands_run(s: BarView, history: Seq<BarEvent>, slot: u32)
    ensures
        run_by_all(true, s, history.push(BarEvent::TouchUp(slot))) == (match handed_back(
            session_laws::after_all(s, history),
            BarEvent::TouchUp(slot),
        ) {
            Some(command) => run_by_all(true, s, history).push(command),
            None => run_by_all(true, s, history),
        }),
{
    assert(history.push(BarEvent::TouchUp(slot)).drop_last() =~= history);
}

} // verus!
