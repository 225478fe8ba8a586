use vstd::prelude::*;

use crate::clock::delta;
use crate::clock::FrameClock;
use crate::input::advanced;
use crate::input::InputEntry;
use crate::input::WindowEvent;
use crate::keyboard::keyboard_steps;
use crate::keyboard::Keyboard;
use crate::mouse::mouse_steps;
use crate::mouse::position_steps;
use crate::mouse::Mouse;

verus! {

/// The configuration surface of a window: dimensions, a title, and whether
/// the window is borderless fullscreen.
pub struct WindowArgs {
    pub width: u32,
    pub height: u32,
    pub title: &'static str,
    pub borderless: bool,
}

/// Why a window could not be constructed: the platform windowing subsystem
/// failed to initialize, or the window itself could not be created. Both
/// are terminal; construction is never retried.
#[derive(Clone, Copy, PartialEq, Eq, Structural, Debug)]
pub enum WindowError {
    FailedGLFWInit,
    FailedGLFWCreateWindow,
}

/// Where the window stands in its single-shot lifecycle: created but still
/// hidden, visible and looping, or destroyed after the loop has ended.
#[derive(Clone, Copy, PartialEq, Eq, Structural, Debug)]
pub enum Phase {
    Created,
    Visible,
    Destroyed,
}

/// The capability an embedding application implements to be driven by the
/// window: `init` runs once before the first frame, `render_loop` once per
/// frame with the ticks elapsed since the previous frame, and `closing`
/// once after the last frame. Each callback gets read access to the window
/// for the duration of the call.
pub trait EventReciever {
    fn init(&mut self, window: &Window);

    fn render_loop(&mut self, window: &Window, dt: u64);

    fn closing(&mut self, window: &Window);
}

/// One frame's worth of platform input: the events drained from the queue,
/// in delivery order, and the timestamp taken for the frame.
pub struct FrameInput {
    pub events: Vec<WindowEvent>,
    pub time: u64,
}

/// The window size that a configuration yields: a borderless window takes
/// the primary monitor's reported resolution, falling back to the requested
/// size when no monitor mode is available; a decorated window keeps the
/// requested size.
pub open spec fn spec_effective_size(args: WindowArgs, monitor: Option<(u32, u32)>) -> (u32, u32) {
    if args.borderless {
        match monitor {
            Some(m) => m,
            None => (args.width, args.height),
        }
    } else {
        (args.width, args.height)
    }
}

/// Resolves the window size for `args` given the primary monitor's video
/// mode, if the platform reports one.
pub fn effective_size(args: &WindowArgs, monitor: Option<(u32, u32)>) -> (size: (u32, u32))
    ensures
        size == spec_effective_size(*args, monitor),
{
    if args.borderless {
        match monitor {
            Some(m) => m,
            None => (args.width, args.height),
        }
    } else {
        (args.width, args.height)
    }
}

/// The keyboard state after a sequence of whole frames, each frame applying
/// its events and then passing the frame boundary.
pub open spec fn keyboard_frames(s: Seq<InputEntry>, fs: Seq<FrameInput>) -> Seq<InputEntry>
    decreases fs.len(),
{
    if fs.len() == 0 {
        s
    } else {
        advanced(keyboard_steps(keyboard_frames(s, fs.drop_last()), fs.last().events@))
    }
}

/// The mouse-button state after a sequence of whole frames.
pub open spec fn mouse_frames(s: Seq<InputEntry>, fs: Seq<FrameInput>) -> Seq<InputEntry>
    decreases fs.len(),
{
    if fs.len() == 0 {
        s
    } else {
        advanced(mouse_steps(mouse_frames(s, fs.drop_last()), fs.last().events@))
    }
}

/// The cursor position after a sequence of whole frames.
pub open spec fn position_frames(p: (u64, u64), fs: Seq<FrameInput>) -> (u64, u64)
    decreases fs.len(),
{
    if fs.len() == 0 {
        p
    } else {
        position_steps(position_frames(p, fs.drop_last()), fs.last().events@)
    }
}

/// The clock baseline after a sequence of whole frames: the last frame's
/// timestamp, or the starting baseline when no frame ran.
pub open spec fn last_frame_time(t0: u64, fs: Seq<FrameInput>) -> u64 {
    if fs.len() == 0 {
        t0
    } else {
        fs.last().time
    }
}

/// Owns one keyboard tracker, one mouse tracker, and the frame clock, and
/// drives the per-frame protocol against an externally supplied receiver.
/// The embedding shell owns the native display surface and hands the drained
/// platform events and a timestamp to each frame.
pub struct Window {
    phase: Phase,
    width: u32,
    height: u32,
    keyboard: Keyboard,
    mouse: Mouse,
    clock: FrameClock,
}

impl Window {
    /// The lifecycle phase the window is in.
    pub closed spec fn spec_phase(self) -> Phase {
        self.phase
    }

    /// The effective width the window was created with.
    pub closed spec fn spec_width(self) -> u32 {
        self.width
    }

    /// The effective height the window was created with.
    pub closed spec fn spec_height(self) -> u32 {
        self.height
    }

    /// The keyboard tracker's state.
    pub closed spec fn spec_keyboard(self) -> Seq<InputEntry> {
        self.keyboard@
    }

    /// The mouse tracker's button state.
    pub closed spec fn spec_mouse_buttons(self) -> Seq<InputEntry> {
        self.mouse@
    }

    /// The mouse tracker's cursor position.
    pub closed spec fn spec_mouse_position(self) -> (u64, u64) {
        self.mouse.spec_position()
    }

    /// The frame clock's baseline timestamp.
    pub closed spec fn spec_last_time(self) -> u64 {
        self.clock.spec_last()
    }

    /// Builds a hidden window for `args`, sized by the primary monitor's
    /// video mode when borderless. Both trackers start empty and the clock
    /// baseline starts at zero. The native surface itself is owned by the
    /// embedding shell, which reports the monitor mode here and maps its
    /// own construction failures to `WindowError`.
    pub fn new(args: &WindowArgs, monitor: Option<(u32, u32)>) -> (w: Window)
        ensures
            w.spec_phase() == Phase::Created,
            (w.spec_width(), w.spec_height()) == spec_effective_size(*args, monitor),
            w.spec_keyboard() == Seq::<InputEntry>::empty(),
            w.spec_mouse_buttons() == Seq::<InputEntry>::empty(),
            w.spec_mouse_position() == (0u64, 0u64),
            w.spec_last_time() == 0,
    {
        let (width, height) = effective_size(args, monitor);
        Window {
            phase: Phase::Created,
            width,
            height,
            keyboard: Keyboard::new(),
            mouse: Mouse::new(),
            clock: FrameClock::new(),
        }
    }

    /// Read access to the keyboard tracker, for use inside the receiver's
    /// callbacks.
    pub fn keyboard(&self) -> (k: &Keyboard)
        ensures
            k@ == self.spec_keyboard(),
    {
        &self.keyboard
    }

    /// Read access to the mouse tracker, for use inside the receiver's
    /// callbacks.
    pub fn mouse(&self) -> (m: &Mouse)
        ensures
            m@ == self.spec_mouse_buttons(),
            m.spec_position() == self.spec_mouse_position(),
    {
        &self.mouse
    }

    /// The lifecycle phase the window is in.
    pub fn phase(&self) -> (p: Phase)
        ensures
            p == self.spec_phase(),
    {
        self.phase
    }

    /// The effective width the window was created with.
    pub fn width(&self) -> (w: u32)
        ensures
            w == self.spec_width(),
    {
        self.width
    }

    /// The effective height the window was created with.
    pub fn height(&self) -> (h: u32)
        ensures
            h == self.spec_height(),
    {
        self.height
    }

    /// Makes the window enter its visible, looping phase and runs the
    /// receiver's `init` callback. Demands a freshly created window, so
    /// `init` can run at most once in the window's life, and runs before
    /// any frame, since `frame` demands the visible phase that only this
    /// transition establishes.
    pub fn begin<R: EventReciever>(&mut self, receiver: &mut R)
        requires
            old(self).spec_phase() == Phase::Created,
        ensures
            final(self).spec_phase() == Phase::Visible,
            final(self).spec_width() == old(self).spec_width(),
            final(self).spec_height() == old(self).spec_height(),
            final(self).spec_keyboard() == old(self).spec_keyboard(),
            final(self).spec_mouse_buttons() == old(self).spec_mouse_buttons(),
            final(self).spec_mouse_position() == old(self).spec_mouse_position(),
            final(self).spec_last_time() == old(self).spec_last_time(),
    {
        self.phase = Phase::Visible;
        receiver.init(&*self);
    }

    /// Runs one frame of the per-frame protocol: feeds every drained event
    /// to both trackers, advances the clock to `now`, runs the receiver's
    /// `render_loop` with the elapsed ticks while the edge state of this
    /// frame's events is still visible, and only then passes the frame
    /// boundary on both trackers.
    pub fn frame<R: EventReciever>(&mut self, receiver: &mut R, events: &Vec<WindowEvent>, now: u64)
        requires
            old(self).spec_phase() == Phase::Visible,
        ensures
            final(self).spec_phase() == Phase::Visible,
            final(self).spec_width() == old(self).spec_width(),
            final(self).spec_height() == old(self).spec_height(),
            final(self).spec_keyboard() == advanced(
                keyboard_steps(old(self).spec_keyboard(), events@),
            ),
            final(self).spec_mouse_buttons() == advanced(
                mouse_steps(old(self).spec_mouse_buttons(), events@),
            ),
            final(self).spec_mouse_position() == position_steps(
                old(self).spec_mouse_position(),
                events@,
            ),
            final(self).spec_last_time() == now,
    {
        let n = events.len();
        let mut i: usize = 0;
        proof {
            assert(events@.take(0) =~= Seq::<WindowEvent>::empty());
        }
        while i < n
            invariant
                i <= n,
                n == events@.len(),
                self.spec_phase() == old(self).spec_phase(),
                self.spec_width() == old(self).spec_width(),
                self.spec_height() == old(self).spec_height(),
                self.spec_keyboard() == keyboard_steps(old(self).spec_keyboard(), events@.take(i as int)),
                self.spec_mouse_buttons() == mouse_steps(
                    old(self).spec_mouse_buttons(),
                    events@.take(i as int),
                ),
                self.spec_mouse_position() == position_steps(
                    old(self).spec_mouse_position(),
                    events@.take(i as int),
                ),
                self.spec_last_time() == old(self).spec_last_time(),
            decreases n - i,
        {
            proof {
                assert(events@.take(i + 1).drop_last() =~= events@.take(i as int));
                assert(events@.take(i + 1).last() == events@[i as int]);
            }
            let event = events[i];
            self.keyboard.process_event(&event);
            self.mouse.process_event(&event);
            i += 1;
        }
        proof {
            assert(events@.take(n as int) =~= events@);
        }
        let dt = self.clock.tick(now);
        receiver.render_loop(&*self, dt);
        self.keyboard.update();
        self.mouse.update();
    }

    /// Ends the window's life: runs the receiver's `closing` callback once
    /// and leaves the destroyed phase behind, from which no transition
    /// exists. Demands the visible phase, so `closing` runs strictly after
    /// `init` and after the last frame.
    pub fn finish<R: EventReciever>(&mut self, receiver: &mut R)
        requires
            old(self).spec_phase() == Phase::Visible,
        ensures
            final(self).spec_phase() == Phase::Destroyed,
            final(self).spec_width() == old(self).spec_width(),
            final(self).spec_height() == old(self).spec_height(),
            final(self).spec_keyboard() == old(self).spec_keyboard(),
            final(self).spec_mouse_buttons() == old(self).spec_mouse_buttons(),
            final(self).spec_mouse_position() == old(self).spec_mouse_position(),
            final(self).spec_last_time() == old(self).spec_last_time(),
    {
        receiver.closing(&*self);
        self.phase = Phase::Destroyed;
    }

    /// Drives the whole lifecycle over a feed of frames: `init` once, then
    /// one `render_loop` per frame with that frame's events and timestamp,
    /// then `closing` once. The feed stands for what the platform delivers
    /// until the close request; an interactive shell drives `begin`,
    /// `frame` and `finish` itself instead.
    pub fn show<R: EventReciever>(&mut self, receiver: &mut R, frames: &Vec<FrameInput>)
        requires
            old(self).spec_phase() == Phase::Created,
        ensures
            final(self).spec_phase() == Phase::Destroyed,
            final(self).spec_width() == old(self).spec_width(),
            final(self).spec_height() == old(self).spec_height(),
            final(self).spec_keyboard() == keyboard_frames(old(self).spec_keyboard(), frames@),
            final(self).spec_mouse_buttons() == mouse_frames(old(self).spec_mouse_buttons(), frames@),
            final(self).spec_mouse_position() == position_frames(
                old(self).spec_mouse_position(),
                frames@,
            ),
            final(self).spec_last_time() == last_frame_time(old(self).spec_last_time(), frames@),
    {
        self.begin(receiver);
        let n = frames.len();
        let mut i: usize = 0;
        proof {
            assert(frames@.take(0) =~= Seq::<FrameInput>::empty());
        }
        while i < n
            invariant
                i <= n,
                n == frames@.len(),
                self.spec_phase() == Phase::Visible,
                self.spec_width() == old(self).spec_width(),
                self.spec_height() == old(self).spec_height(),
                self.spec_keyboard() == keyboard_frames(old(self).spec_keyboard(), frames@.take(i as int)),
                self.spec_mouse_buttons() == mouse_frames(
                    old(self).spec_mouse_buttons(),
                    frames@.take(i as int),
                ),
                self.spec_mouse_position() == position_frames(
                    old(self).spec_mouse_position(),
                    frames@.take(i as int),
                ),
                self.spec_last_time() == last_frame_time(
                    old(self).spec_last_time(),
                    frames@.take(i as int),
                ),
            decreases n - i,
        {
            proof {
                assert(frames@.take(i + 1).drop_last() =~= frames@.take(i as int));
                assert(frames@.take(i + 1).last() == frames@[i as int]);
            }
            self.frame(receiver, &frames[i].events, frames[i].time);
            i += 1;
        }
        proof {
            assert(frames@.take(n as int) =~= frames@);
        }
        self.finish(receiver);
    }
}

} // verus!
