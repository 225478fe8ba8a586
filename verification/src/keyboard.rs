use vstd::prelude::*;

use crate::input::advanced;
use crate::input::is_held;
use crate::input::is_press;
use crate::input::lemma_advanced_keeps_unobserved;
use crate::input::lemma_lookup_record_other;
use crate::input::lemma_lookup_record_same;
use crate::input::lookup;
use crate::input::record;
use crate::input::went_down;
use crate::input::went_up;
use crate::input::InputAction;
use crate::input::InputEntry;
use crate::input::InputState;
use crate::input::WindowEvent;

verus! {

/// Whether `e` is a key event for the identifier `id`.
pub open spec fn key_event_for(e: WindowEvent, id: i32) -> bool {
    e matches WindowEvent::Key(k, _) && k == id
}

/// Whether `e` is a key event for `id` that reports the key as held.
pub open spec fn key_press_for(e: WindowEvent, id: i32) -> bool {
    e matches WindowEvent::Key(k, a) && k == id && is_press(a)
}

/// The keyboard state after one platform event. Only key events matter; a
/// key observed for the first time has its previous state seeded released.
pub open spec fn keyboard_step(s: Seq<InputEntry>, e: WindowEvent) -> Seq<InputEntry> {
    match e {
        WindowEvent::Key(k, a) => record(s, k, is_press(a), false),
        _ => s,
    }
}

/// The keyboard state after a whole frame's events, in order.
pub open spec fn keyboard_steps(s: Seq<InputEntry>, es: Seq<WindowEvent>) -> Seq<InputEntry>
    decreases es.len(),
{
    if es.len() == 0 {
        s
    } else {
        keyboard_step(keyboard_steps(s, es.drop_last()), es.last())
    }
}

/// Converts the stream of raw platform events into point-in-time held
/// queries and frame-over-frame edge queries for the keyboard.
pub struct Keyboard {
    state: InputState,
}

impl View for Keyboard {
    type V = Seq<InputEntry>;

    closed spec fn view(&self) -> Seq<InputEntry> {
        self.state@
    }
}

impl Keyboard {
    /// A keyboard tracker that has observed no key yet.
    pub fn new() -> (k: Keyboard)
        ensures
            k@ == Seq::<InputEntry>::empty(),
    {
        Keyboard { state: InputState::new() }
    }

    /// Feeds one raw platform event; events other than key events are
    /// ignored. A press or a repeat marks the key held, a release marks it
    /// released; a key seen for the first time seeds its previous state as
    /// released, so a first press shows as an edge.
    pub fn process_event(&mut self, event: &WindowEvent)
        ensures
            final(self)@ == keyboard_step(old(self)@, *event),
    {
        match event {
            WindowEvent::Key(key, action) => {
                let is_pressed = *action == InputAction::Press || *action == InputAction::Repeat;
                self.state.set_state(*key, is_pressed, false);
            },
            _ => {},
        }
    }

    /// The frame-boundary step: snapshots every key's current state as its
    /// previous state. The only operation that changes previous states.
    pub fn update(&mut self)
        ensures
            final(self)@ == advanced(old(self)@),
    {
        self.state.advance();
    }

    /// Whether `key` is held now; a key never observed counts as released.
    pub fn get_key(&self, key: i32) -> (r: bool)
        ensures
            r == is_held(self@, key),
    {
        self.state.get(key)
    }

    /// Whether `key` went from released to held since the last frame boundary.
    pub fn get_key_down(&self, key: i32) -> (r: bool)
        ensures
            r == went_down(self@, key),
    {
        self.state.get_down(key)
    }

    /// Whether `key` went from held to released since the last frame boundary.
    pub fn get_key_up(&self, key: i32) -> (r: bool)
        ensures
            r == went_up(self@, key),
    {
        self.state.get_up(key)
    }
}

/// A key that no event ever names stays unobserved, and so answers every
/// query with false.
pub proof fn lemma_keyboard_keeps_unobserved(s: Seq<InputEntry>, es: Seq<WindowEvent>, id: i32)
    requires
        lookup(s, id) is None,
        forall|i: int| 0 <= i < es.len() ==> !key_event_for(es[i], id),
    ensures
        lookup(keyboard_steps(s, es), id) is None,
        !is_held(keyboard_steps(s, es), id),
        !went_down(keyboard_steps(s, es), id),
        !went_up(keyboard_steps(s, es), id),
    decreases es.len(),
{
    if es.len() > 0 {
        lemma_keyboard_keeps_unobserved(s, es.drop_last(), id);
        let before = keyboard_steps(s, es.drop_last());
        match es.last() {
            WindowEvent::Key(k, a) => {
                assert(!key_event_for(es.last(), id));
                lemma_lookup_record_other(before, k, is_press(a), false, id);
            },
            _ => {},
        }
    }
}

/// A key that was released at the last frame boundary and receives only
/// press reports within a frame shows a press edge for that frame, however
/// many press events arrive; the edge is gone after the next boundary.
pub proof fn lemma_key_press_edge(s: Seq<InputEntry>, es: Seq<WindowEvent>, id: i32)
    requires
        !crate::input::was_held(s, id),
        forall|i: int| 0 <= i < es.len() && key_event_for(#[trigger] es[i], id) ==> key_press_for(es[i], id),
        exists|i: int| 0 <= i < es.len() && key_event_for(es[i], id),
    ensures
        went_down(keyboard_steps(s, es), id),
        !went_down(advanced(keyboard_steps(s, es)), id),
    decreases es.len(),
{
    lemma_key_press_fold(s, es, id);
    crate::input::lemma_advanced_clears_edges(keyboard_steps(s, es), id);
}

proof fn lemma_key_press_fold(s: Seq<InputEntry>, es: Seq<WindowEvent>, id: i32)
    requires
        !crate::input::was_held(s, id),
        forall|i: int| 0 <= i < es.len() && key_event_for(#[trigger] es[i], id) ==> key_press_for(es[i], id),
    ensures
        !crate::input::was_held(keyboard_steps(s, es), id),
        is_held(keyboard_steps(s, es), id) == (is_held(s, id) || exists|i: int|
            0 <= i < es.len() && key_event_for(es[i], id)),
    decreases es.len(),
{
    if es.len() == 0 {
        assert(!(exists|i: int| 0 <= i < es.len() && key_event_for(es[i], id)));
    } else {
        lemma_key_press_fold(s, es.drop_last(), id);
        let before = keyboard_steps(s, es.drop_last());
        let e = es.last();
        assert(forall|i: int|
            0 <= i < es.drop_last().len() && key_event_for(#[trigger] es.drop_last()[i], id)
                ==> key_press_for(es.drop_last()[i], id));
        match e {
            WindowEvent::Key(k, a) => {
                if k == id {
                    assert(key_event_for(e, id));
                    assert(key_press_for(e, id));
                    lemma_lookup_record_same(before, k, is_press(a), false);
                    assert(is_held(keyboard_steps(s, es), id));
                } else {
                    lemma_lookup_record_other(before, k, is_press(a), false, id);
                    lemma_exists_shift(es, id);
                }
            },
            _ => {
                lemma_exists_shift(es, id);
            },
        }
    }
}

proof fn lemma_exists_shift(es: Seq<WindowEvent>, id: i32)
    requires
        es.len() > 0,
        !key_event_for(es.last(), id),
    ensures
        (exists|i: int| 0 <= i < es.len() && key_event_for(es[i], id)) == (exists|i: int|
            0 <= i < es.drop_last().len() && key_event_for(es.drop_last()[i], id)),
{
    if exists|i: int| 0 <= i < es.len() && key_event_for(es[i], id) {
        let i = choose|i: int| 0 <= i < es.len() && key_event_for(es[i], id);
        assert(i < es.len() - 1);
        assert(es.drop_last()[i] == es[i]);
    }
    if exists|i: int| 0 <= i < es.drop_last().len() && key_event_for(es.drop_last()[i], id) {
        let i = choose|i: int| 0 <= i < es.drop_last().len() && key_event_for(es.drop_last()[i], id);
        assert(es[i] == es.drop_last()[i]);
    }
}

} // verus!
