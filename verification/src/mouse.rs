use vstd::prelude::*;

use crate::input::advanced;
use crate::input::is_held;
use crate::input::is_press;
use crate::input::lemma_lookup_record_other;
use crate::input::lemma_lookup_record_same;
use crate::input::lookup;
use crate::input::record;
use crate::input::went_down;
use crate::input::went_up;
use crate::input::InputAction;
use crate::input::InputEntry;
use crate::input::InputState;
use crate::input::WindowEvent;

verus! {

/// Whether `e` is a mouse-button event for the identifier `id`.
pub open spec fn button_event_for(e: WindowEvent, id: i32) -> bool {
    e matches WindowEvent::MouseButton(b, _) && b == id
}

/// Whether `e` is a button event for `id` that reports the button as held.
pub open spec fn button_press_for(e: WindowEvent, id: i32) -> bool {
    e matches WindowEvent::MouseButton(b, a) && b == id && is_press(a)
}

/// The button state after one platform event. Only button events matter; a
/// button observed for the first time has its previous state seeded equal
/// to its current state, so a button already held when first seen does not
/// show as newly pressed.
pub open spec fn mouse_step(s: Seq<InputEntry>, e: WindowEvent) -> Seq<InputEntry> {
    match e {
        WindowEvent::MouseButton(b, a) => record(s, b, is_press(a), is_press(a)),
        _ => s,
    }
}

/// The button state after a whole frame's events, in order.
pub open spec fn mouse_steps(s: Seq<InputEntry>, es: Seq<WindowEvent>) -> Seq<InputEntry>
    decreases es.len(),
{
    if es.len() == 0 {
        s
    } else {
        mouse_step(mouse_steps(s, es.drop_last()), es.last())
    }
}

/// The cursor position after one platform event: a cursor-move event
/// overwrites it wholesale, every other event leaves it alone.
pub open spec fn position_step(p: (u64, u64), e: WindowEvent) -> (u64, u64) {
    match e {
        WindowEvent::CursorPos(x, y) => (x, y),
        _ => p,
    }
}

/// The cursor position after a whole frame's events, in order.
pub open spec fn position_steps(p: (u64, u64), es: Seq<WindowEvent>) -> (u64, u64)
    decreases es.len(),
{
    if es.len() == 0 {
        p
    } else {
        position_step(position_steps(p, es.drop_last()), es.last())
    }
}

/// Converts the stream of raw platform events into point-in-time held
/// queries and frame-over-frame edge queries for the mouse buttons, and
/// tracks the current cursor position.
pub struct Mouse {
    state: InputState,
    position: (u64, u64),
}

impl View for Mouse {
    type V = Seq<InputEntry>;

    closed spec fn view(&self) -> Seq<InputEntry> {
        self.state@
    }
}

impl Mouse {
    /// The cursor position, as the coordinate encodings last reported by
    /// the platform; the zero pair until a cursor-move event arrives.
    pub closed spec fn spec_position(self) -> (u64, u64) {
        self.position
    }

    /// A mouse tracker that has observed no button or cursor move yet.
    pub fn new() -> (m: Mouse)
        ensures
            m@ == Seq::<InputEntry>::empty(),
            m.spec_position() == (0u64, 0u64),
    {
        Mouse { state: InputState::new(), position: (0, 0) }
    }

    /// Feeds one raw platform event. Button events mark the button held on
    /// a press or a repeat and released on a release; cursor-move events
    /// overwrite the position; every other event is ignored.
    pub fn process_event(&mut self, event: &WindowEvent)
        ensures
            final(self)@ == mouse_step(old(self)@, *event),
            final(self).spec_position() == position_step(old(self).spec_position(), *event),
    {
        match event {
            WindowEvent::MouseButton(button, action) => {
                let is_pressed = *action == InputAction::Press || *action == InputAction::Repeat;
                self.state.set_state(*button, is_pressed, is_pressed);
            },
            WindowEvent::CursorPos(x, y) => {
                self.position = (*x, *y);
            },
            _ => {},
        }
    }

    /// The frame-boundary step: snapshots every button's current state as
    /// its previous state. The only operation that changes previous states.
    pub fn update(&mut self)
        ensures
            final(self)@ == advanced(old(self)@),
            final(self).spec_position() == old(self).spec_position(),
    {
        self.state.advance();
    }

    /// Whether `button` is held now; a button never observed counts as
    /// released.
    pub fn get_button(&self, button: i32) -> (r: bool)
        ensures
            r == is_held(self@, button),
    {
        self.state.get(button)
    }

    /// Whether `button` went from released to held since the last frame
    /// boundary.
    pub fn get_button_down(&self, button: i32) -> (r: bool)
        ensures
            r == went_down(self@, button),
    {
        self.state.get_down(button)
    }

    /// Whether `button` went from held to released since the last frame
    /// boundary.
    pub fn get_button_up(&self, button: i32) -> (r: bool)
        ensures
            r == went_up(self@, button),
    {
        self.state.get_up(button)
    }

    /// The cursor position last reported by the platform.
    pub fn position(&self) -> (p: (u64, u64))
        ensures
            p == self.spec_position(),
    {
        self.position
    }
}

/// A button that no event ever names stays unobserved, and so answers
/// every query with false.
pub proof fn lemma_mouse_keeps_unobserved(s: Seq<InputEntry>, es: Seq<WindowEvent>, id: i32)
    requires
        lookup(s, id) is None,
        forall|i: int| 0 <= i < es.len() ==> !button_event_for(es[i], id),
    ensures
        lookup(mouse_steps(s, es), id) is None,
        !is_held(mouse_steps(s, es), id),
        !went_down(mouse_steps(s, es), id),
        !went_up(mouse_steps(s, es), id),
    decreases es.len(),
{
    if es.len() > 0 {
        lemma_mouse_keeps_unobserved(s, es.drop_last(), id);
        let before = mouse_steps(s, es.drop_last());
        match es.last() {
            WindowEvent::MouseButton(b, a) => {
                assert(!button_event_for(es.last(), id));
                lemma_lookup_record_other(before, b, is_press(a), is_press(a), id);
            },
            _ => {},
        }
    }
}

/// A button that was already observed, was released at the last frame
/// boundary, and receives only press reports within a frame shows a press
/// edge for that frame, however many press events arrive; the edge is gone
/// after the next boundary. A button not yet observed is excluded: its
/// previous state is seeded held, so its first frame shows no edge.
pub proof fn lemma_button_press_edge(s: Seq<InputEntry>, es: Seq<WindowEvent>, id: i32)
    requires
        lookup(s, id) matches Some(e) && !e.previous,
        forall|i: int| 0 <= i < es.len() && button_event_for(#[trigger] es[i], id) ==> button_press_for(es[i], id),
        exists|i: int| 0 <= i < es.len() && button_event_for(es[i], id),
    ensures
        went_down(mouse_steps(s, es), id),
        !went_down(advanced(mouse_steps(s, es)), id),
    decreases es.len(),
{
    lemma_button_press_fold(s, es, id);
    crate::input::lemma_advanced_clears_edges(mouse_steps(s, es), id);
}

proof fn lemma_button_press_fold(s: Seq<InputEntry>, es: Seq<WindowEvent>, id: i32)
    requires
        lookup(s, id) matches Some(e) && !e.previous,
        forall|i: int| 0 <= i < es.len() && button_event_for(#[trigger] es[i], id) ==> button_press_for(es[i], id),
    ensures
        lookup(mouse_steps(s, es), id) matches Some(e) && !e.previous,
        is_held(mouse_steps(s, es), id) == (is_held(s, id) || exists|i: int|
            0 <= i < es.len() && button_event_for(es[i], id)),
    decreases es.len(),
{
    if es.len() == 0 {
        assert(!(exists|i: int| 0 <= i < es.len() && button_event_for(es[i], id)));
    } else {
        lemma_button_press_fold(s, es.drop_last(), id);
        let before = mouse_steps(s, es.drop_last());
        let e = es.last();
        assert(forall|i: int|
            0 <= i < es.drop_last().len() && button_event_for(#[trigger] es.drop_last()[i], id)
                ==> button_press_for(es.drop_last()[i], id));
        match e {
            WindowEvent::MouseButton(b, a) => {
                if b == id {
                    assert(button_event_for(e, id));
                    assert(button_press_for(e, id));
                    lemma_lookup_record_same(before, b, is_press(a), is_press(a));
                    assert(is_held(mouse_steps(s, es), id));
                } else {
                    lemma_lookup_record_other(before, b, is_press(a), is_press(a), id);
                    lemma_button_exists_shift(es, id);
                }
            },
            _ => {
                lemma_button_exists_shift(es, id);
            },
        }
    }
}

proof fn lemma_button_exists_shift(es: Seq<WindowEvent>, id: i32)
    requires
        es.len() > 0,
        !button_event_for(es.last(), id),
    ensures
        (exists|i: int| 0 <= i < es.len() && button_event_for(es[i], id)) == (exists|i: int|
            0 <= i < es.drop_last().len() && button_event_for(es.drop_last()[i], id)),
{
    if exists|i: int| 0 <= i < es.len() && button_event_for(es[i], id) {
        let i = choose|i: int| 0 <= i < es.len() && button_event_for(es[i], id);
        assert(i < es.len() - 1);
        assert(es.drop_last()[i] == es[i]);
    }
    if exists|i: int| 0 <= i < es.drop_last().len() && button_event_for(es.drop_last()[i], id) {
        let i = choose|i: int| 0 <= i < es.drop_last().len() && button_event_for(es.drop_last()[i], id);
        assert(es[i] == es.drop_last()[i]);
    }
}

/// The mouse's seeding asymmetry: a button press for a button never seen
/// before does not show a press edge on the frame of first observation,
/// because its previous state is seeded equal to its current state.
pub proof fn lemma_first_button_press_no_edge(s: Seq<InputEntry>, e: WindowEvent, id: i32)
    requires
        lookup(s, id) is None,
        e matches WindowEvent::MouseButton(b, a) && b == id && is_press(a),
    ensures
        is_held(mouse_step(s, e), id),
        !went_down(mouse_step(s, e), id),
    {
        match e {
            WindowEvent::MouseButton(b, a) => {
                lemma_lookup_record_same(s, b, is_press(a), is_press(a));
            },
            _ => {},
        }
    }

} // verus!
