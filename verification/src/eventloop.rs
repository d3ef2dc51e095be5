//! The decisions of the run-time event loop: which window an event from the windowing
//! system goes to, what is done with it, and how the loop waits for the next event.
//!
//! The loop itself, the windows and the windowing system are driven by the caller:
//! it hands each event to [`EventLoopState::handle_event`], performs the actions that
//! come back, then asks [`schedule`] how to wait.

use vstd::prelude::*;

use std::collections::HashMap;

verus! {

/// The identity of a window that the run-time has registered, as the caller hands it
/// out.
#[derive(Debug, Clone, Copy, PartialEq, Eq, Hash, Structural)]
pub struct WindowHandle(pub usize);

/// The window registered for a window id in a registry of the given contents, if any.
pub open spec fn registered(windows: Map<u64, WindowHandle>, id: u64) -> Option<WindowHandle> {
    if windows.contains_key(id) {
        Some(windows[id])
    } else {
        None
    }
}

/// Once a window is registered for an id, it is the window for that id, and the
/// windows of the other ids stay as they were.
pub proof fn law_register_then_lookup(
    windows: Map<u64, WindowHandle>,
    id: u64,
    window: WindowHandle,
    other: u64,
)
    ensures
        registered(windows.insert(id, window), id) == Some(window),
        other != id ==> registered(windows.insert(id, window), other) == registered(windows, other),
{
}

/// Once the window of an id is unregistered, no window is registered for that id,
/// and the windows of the other ids stay as they were.
pub proof fn law_unregister_then_lookup(windows: Map<u64, WindowHandle>, id: u64, other: u64)
    ensures
        registered(windows.remove(id), id) is None,
        other != id ==> registered(windows.remove(id), other) == registered(windows, other),
{
}

/// The windows that receive events, by the windowing system's id of the window.
#[derive(Debug)]
pub struct WindowRegistry {
    windows: HashMap<u64, WindowHandle>,
}

impl View for WindowRegistry {
    type V = Map<u64, WindowHandle>;

    closed spec fn view(&self) -> Map<u64, WindowHandle> {
        self.windows@
    }
}

impl WindowRegistry {
    /// A registry without windows.
    pub fn new() -> (r: WindowRegistry)
        ensures
            r@ == Map::<u64, WindowHandle>::empty(),
    {
        WindowRegistry { windows: HashMap::new() }
    }

    /// Registers the window that events for the window id `id` go to, in place of any
    /// window registered for that id before.
    pub fn register_window(&mut self, id: u64, window: WindowHandle)
        ensures
            final(self)@ == old(self)@.insert(id, window),
    {
        broadcast use vstd::std_specs::hash::group_hash_axioms;

        self.windows.insert(id, window);
    }

    /// Unregisters the window registered for the window id `id`, if any.
    pub fn unregister_window(&mut self, id: u64)
        ensures
            final(self)@ == old(self)@.remove(id),
    {
        broadcast use vstd::std_specs::hash::group_hash_axioms;

        self.windows.remove(&id);
    }

    /// The window registered for the window id `id`, if any.
    pub fn window(&self, id: u64) -> (w: Option<WindowHandle>)
        ensures
            w == registered(self@, id),
    {
        broadcast use vstd::std_specs::hash::group_hash_axioms;

        match self.windows.get(&id) {
            Some(w) => Some(*w),
            None => None,
        }
    }
}

/// A position in a window, in physical pixels; each coordinate is given by the bits
/// of its `f64` value.
#[derive(Debug, Clone, Copy, PartialEq, Eq, Structural)]
pub struct PhysicalPosition {
    pub x_bits: u64,
    pub y_bits: u64,
}

/// Whether a mouse button went down or up.
#[derive(Debug, Clone, Copy, PartialEq, Eq, Structural)]
pub enum ElementState {
    Pressed,
    Released,
}

/// The phase of a touch.
#[derive(Debug, Clone, Copy, PartialEq, Eq, Structural)]
pub enum TouchPhase {
    Started,
    Moved,
    Ended,
    Cancelled,
}

/// The modifier keys that are held.
#[derive(Debug, Clone, Copy, PartialEq, Eq, Structural)]
pub struct KeyboardModifiers {
    pub shift: bool,
    pub control: bool,
    pub alt: bool,
    pub logo: bool,
}

/// What a mouse event that an item receives is.
#[derive(Debug, Clone, Copy, PartialEq, Eq, Structural)]
pub enum MouseEventType {
    MousePressed,
    MouseReleased,
    MouseMoved,
    MouseExit,
}

/// An event from the windowing system, with what the caller knows of it beforehand.
#[derive(Debug, Clone, Copy, PartialEq, Eq, Structural)]
pub enum LoopEvent {
    /// The user asked for a window to close.
    CloseRequested,
    /// A window asks to be drawn; `layout_dirty` tells whether the layout of the
    /// component needs to be computed again.
    RedrawRequested { window: u64, layout_dirty: bool },
    Resized { window: u64, width: u32, height: u32 },
    /// The scale factor changed; it is given by the bits of its `f64` value.
    ScaleFactorChanged { window: u64, scale_factor_bits: u64, width: u32, height: u32 },
    MouseInput { window: u64, state: ElementState },
    Touch { window: u64, phase: TouchPhase, location: PhysicalPosition },
    CursorMoved { window: u64, position: PhysicalPosition },
    /// A key went down or up; `converts` tells whether it converts to a key event
    /// with the window's current modifiers.
    KeyboardInput { window: u64, converts: bool },
    /// A character was typed; `modifiers` are the window's current modifiers.
    ReceivedCharacter { window: u64, ch: char, modifiers: KeyboardModifiers },
    ModifiersChanged { window: u64, modifiers: KeyboardModifiers },
    Focused { window: u64, have_focus: bool },
    /// Any other event.
    Other,
}

/// What the caller does in answer to an event, in order.
#[derive(Debug, Clone, Copy, PartialEq, Eq, Structural)]
pub enum LoopAction {
    UpdateAnimations,
    /// Computes the layout of the component again.
    ComputeLayout,
    Draw { window: WindowHandle },
    /// Sets the window's scale factor to the one that the windowing system gives.
    ApplyPlatformScaleFactor { window: WindowHandle },
    /// Sets the window's scale factor, given by the bits of its `f64` value.
    SetScaleFactor { window: WindowHandle, factor_bits: u64 },
    SetWidth { window: WindowHandle, width: u32 },
    SetHeight { window: WindowHandle, height: u32 },
    ProcessMouseInput { window: WindowHandle, position: PhysicalPosition, what: MouseEventType },
    RequestRedraw { window: WindowHandle },
    /// Passes the key event that the windowing system's input converts to.
    ProcessKeyInput { window: WindowHandle },
    ProcessCharacterInput { window: WindowHandle, ch: char, modifiers: KeyboardModifiers },
    SetKeyboardModifiers { window: WindowHandle, modifiers: KeyboardModifiers },
    SetFocus { window: WindowHandle, have_focus: bool },
}

/// How the loop waits for the next event.
#[derive(Debug, Clone, Copy, PartialEq, Eq, Structural)]
pub enum ControlFlow {
    /// Until the next event.
    Wait,
    /// Not at all: the next round of the loop starts at once.
    Poll,
    /// The loop ends.
    Exit,
    /// Until the next event or the next timer's timeout, whichever comes first.
    WaitUntilNextTimeout,
}

/// What the loop remembers between events.
#[derive(Debug, Clone, Copy, PartialEq, Eq, Structural)]
pub struct EventLoopState {
    /// Where the cursor was last seen.
    pub cursor_pos: PhysicalPosition,
    /// Whether a mouse button or a touch is down.
    pub pressed: bool,
}

/// Whether a character is a control character (general category Cc).
pub open spec fn is_control_char(ch: char) -> bool {
    (ch as u32) <= 0x1f || (0x7f <= (ch as u32) && (ch as u32) <= 0x9f)
}

/// Tells whether a character is a control character (general category Cc).
fn char_is_control(ch: char) -> (r: bool)
    ensures
        r == is_control_char(ch),
{
    let c = ch as u32;
    c <= 0x1f || (0x7f <= c && c <= 0x9f)
}

/// The position of the origin.
pub open spec fn origin() -> PhysicalPosition {
    PhysicalPosition { x_bits: 0, y_bits: 0 }
}

/// What the loop does with an event: the state after it, the actions, in order, and
/// how the loop is to wait. `target` is the live window registered for the event's
/// window, if there is one.
pub open spec fn spec_handle_event(
    state: EventLoopState,
    event: LoopEvent,
    target: Option<WindowHandle>,
) -> (EventLoopState, Seq<LoopAction>, ControlFlow) {
    match event {
        LoopEvent::CloseRequested => (state, Seq::empty(), ControlFlow::Exit),
        LoopEvent::RedrawRequested { layout_dirty, .. } => (
            state,
            seq![LoopAction::UpdateAnimations] + match target {
                Some(w) => if layout_dirty {
                    seq![LoopAction::ComputeLayout, LoopAction::Draw { window: w }]
                } else {
                    seq![LoopAction::Draw { window: w }]
                },
                None => Seq::empty(),
            },
            ControlFlow::Wait,
        ),
        LoopEvent::Resized { width, height, .. } => (
            state,
            match target {
                Some(w) => seq![
                    LoopAction::ApplyPlatformScaleFactor { window: w },
                    LoopAction::SetWidth { window: w, width },
                    LoopAction::SetHeight { window: w, height },
                ],
                None => Seq::empty(),
            },
            ControlFlow::Wait,
        ),
        LoopEvent::ScaleFactorChanged { scale_factor_bits, width, height, .. } => (
            state,
            match target {
                Some(w) => seq![
                    LoopAction::SetScaleFactor { window: w, factor_bits: scale_factor_bits },
                    LoopAction::SetWidth { window: w, width },
                    LoopAction::SetHeight { window: w, height },
                ],
                None => Seq::empty(),
            },
            ControlFlow::Wait,
        ),
        LoopEvent::MouseInput { state: button, .. } => match target {
            Some(w) => {
                let what = match button {
                    ElementState::Pressed => MouseEventType::MousePressed,
                    ElementState::Released => MouseEventType::MouseReleased,
                };
                (
                    EventLoopState { pressed: button == ElementState::Pressed, ..state },
                    seq![
                        LoopAction::UpdateAnimations,
                        LoopAction::ProcessMouseInput { window: w, position: state.cursor_pos, what },
                        LoopAction::RequestRedraw { window: w },
                    ],
                    ControlFlow::Wait,
                )
            },
            None => (state, seq![LoopAction::UpdateAnimations], ControlFlow::Wait),
        },
        LoopEvent::Touch { phase, location, .. } => match target {
            Some(w) => {
                let (pressed, what) = match phase {
                    TouchPhase::Started => (true, MouseEventType::MousePressed),
                    TouchPhase::Ended => (false, MouseEventType::MouseReleased),
                    TouchPhase::Cancelled => (false, MouseEventType::MouseReleased),
                    TouchPhase::Moved => (state.pressed, MouseEventType::MouseMoved),
                };
                (
                    EventLoopState { pressed, ..state },
                    seq![
                        LoopAction::UpdateAnimations,
                        LoopAction::ProcessMouseInput { window: w, position: location, what },
                        LoopAction::RequestRedraw { window: w },
                    ],
                    ControlFlow::Wait,
                )
            },
            None => (state, seq![LoopAction::UpdateAnimations], ControlFlow::Wait),
        },
        LoopEvent::CursorMoved { position, .. } => (
            EventLoopState { cursor_pos: position, ..state },
            seq![LoopAction::UpdateAnimations] + match target {
                Some(w) => seq![
                    LoopAction::ProcessMouseInput {
                        window: w,
                        position,
                        what: MouseEventType::MouseMoved,
                    },
                    LoopAction::RequestRedraw { window: w },
                ],
                None => Seq::empty(),
            },
            ControlFlow::Wait,
        ),
        LoopEvent::KeyboardInput { converts, .. } => (
            state,
            seq![LoopAction::UpdateAnimations] + match target {
                Some(w) => if converts {
                    seq![
                        LoopAction::ProcessKeyInput { window: w },
                        LoopAction::RequestRedraw { window: w },
                    ]
                } else {
                    Seq::empty()
                },
                None => Seq::empty(),
            },
            ControlFlow::Wait,
        ),
        LoopEvent::ReceivedCharacter { ch, modifiers, .. } => (
            state,
            if is_control_char(ch) {
                Seq::empty()
            } else {
                seq![LoopAction::UpdateAnimations] + match target {
                    Some(w) => if !modifiers.control && !modifiers.alt && !modifiers.logo {
                        seq![
                            LoopAction::ProcessCharacterInput { window: w, ch, modifiers },
                            LoopAction::RequestRedraw { window: w },
                        ]
                    } else {
                        Seq::empty()
                    },
                    None => Seq::empty(),
                }
            },
            ControlFlow::Wait,
        ),
        LoopEvent::ModifiersChanged { modifiers, .. } => (
            state,
            match target {
                Some(w) => seq![LoopAction::SetKeyboardModifiers { window: w, modifiers }],
                None => Seq::empty(),
            },
            ControlFlow::Wait,
        ),
        LoopEvent::Focused { have_focus, .. } => (
            state,
            match target {
                Some(w) => seq![
                    LoopAction::SetFocus { window: w, have_focus },
                    LoopAction::RequestRedraw { window: w },
                ],
                None => Seq::empty(),
            },
            ControlFlow::Wait,
        ),
        LoopEvent::Other => (state, Seq::empty(), ControlFlow::Wait),
    }
}

/// How the loop waits once an event is handled: `flow` is what the event asked for,
/// `animations_active` whether an animation runs, `timers_fired` whether timers fired
/// after the event, and `timeout_pending` whether a timer waits for its timeout. The
/// second value tells whether every registered window is to be redrawn.
pub open spec fn spec_schedule(
    flow: ControlFlow,
    animations_active: bool,
    timers_fired: bool,
    timeout_pending: bool,
) -> (ControlFlow, bool) {
    let (f1, r1) = if flow != ControlFlow::Exit && animations_active {
        (ControlFlow::Poll, true)
    } else {
        (flow, false)
    };
    let r2 = r1 || timers_fired;
    let f2 = if f1 == ControlFlow::Wait && timeout_pending {
        ControlFlow::WaitUntilNextTimeout
    } else {
        f1
    };
    (f2, r2)
}

/// How the loop waits once an event is handled, and whether every registered window
/// is to be redrawn.
pub fn schedule(
    flow: ControlFlow,
    animations_active: bool,
    timers_fired: bool,
    timeout_pending: bool,
) -> (r: (ControlFlow, bool))
    ensures
        r == spec_schedule(flow, animations_active, timers_fired, timeout_pending),
{
    let mut control_flow = flow;
    let mut redraw_all = false;
    if control_flow != ControlFlow::Exit && animations_active {
        control_flow = ControlFlow::Poll;
        redraw_all = true;
    }
    if timers_fired {
        redraw_all = true;
    }
    if control_flow == ControlFlow::Wait && timeout_pending {
        control_flow = ControlFlow::WaitUntilNextTimeout;
    }
    (control_flow, redraw_all)
}

impl EventLoopState {
    /// The state of a loop that has seen no event.
    pub fn new() -> (s: EventLoopState)
        ensures
            s.cursor_pos == origin(),
            !s.pressed,
    {
        EventLoopState { cursor_pos: PhysicalPosition { x_bits: 0, y_bits: 0 }, pressed: false }
    }

    /// Decides what to do with an event: updates the state and returns the actions, in
    /// order, and how the loop is to wait. `target` is the live window registered for
    /// the event's window, if there is one.
    pub fn handle_event(&mut self, event: LoopEvent, target: Option<WindowHandle>) -> (r: (
        Vec<LoopAction>,
        ControlFlow,
    ))
        ensures
            (*final(self), r.0@, r.1) == spec_handle_event(*old(self), event, target),
    {
        let mut actions: Vec<LoopAction> = Vec::new();
        match event {
            LoopEvent::CloseRequested => {
                assert(actions@ =~= Seq::<LoopAction>::empty());
                return (actions, ControlFlow::Exit);
            },
            LoopEvent::RedrawRequested { layout_dirty, .. } => {
                actions.push(LoopAction::UpdateAnimations);
                if let Some(w) = target {
                    if layout_dirty {
                        actions.push(LoopAction::ComputeLayout);
                    }
                    actions.push(LoopAction::Draw { window: w });
                }
            },
            LoopEvent::Resized { width, height, .. } => {
                if let Some(w) = target {
                    actions.push(LoopAction::ApplyPlatformScaleFactor { window: w });
                    actions.push(LoopAction::SetWidth { window: w, width });
                    actions.push(LoopAction::SetHeight { window: w, height });
                }
            },
            LoopEvent::ScaleFactorChanged { scale_factor_bits, width, height, .. } => {
                if let Some(w) = target {
                    actions.push(LoopAction::SetScaleFactor { window: w, factor_bits: scale_factor_bits });
                    actions.push(LoopAction::SetWidth { window: w, width });
                    actions.push(LoopAction::SetHeight { window: w, height });
                }
            },
            LoopEvent::MouseInput { state, .. } => {
                actions.push(LoopAction::UpdateAnimations);
                if let Some(w) = target {
                    let what = match state {
                        ElementState::Pressed => {
                            self.pressed = true;
                            MouseEventType::MousePressed
                        },
                        ElementState::Released => {
                            self.pressed = false;
                            MouseEventType::MouseReleased
                        },
                    };
                    actions.push(LoopAction::ProcessMouseInput { window: w, position: self.cursor_pos, what });
                    actions.push(LoopAction::RequestRedraw { window: w });
                }
            },
            LoopEvent::Touch { phase, location, .. } => {
                actions.push(LoopAction::UpdateAnimations);
                if let Some(w) = target {
                    let what = match phase {
                        TouchPhase::Started => {
                            self.pressed = true;
                            MouseEventType::MousePressed
                        },
                        TouchPhase::Ended | TouchPhase::Cancelled => {
                            self.pressed = false;
                            MouseEventType::MouseReleased
                        },
                        TouchPhase::Moved => MouseEventType::MouseMoved,
                    };
                    actions.push(LoopAction::ProcessMouseInput { window: w, position: location, what });
                    actions.push(LoopAction::RequestRedraw { window: w });
                }
            },
            LoopEvent::CursorMoved { position, .. } => {
                self.cursor_pos = position;
                actions.push(LoopAction::UpdateAnimations);
                if let Some(w) = target {
                    actions.push(
                        LoopAction::ProcessMouseInput {
                            window: w,
                            position: self.cursor_pos,
                            what: MouseEventType::MouseMoved,
                        },
                    );
                    actions.push(LoopAction::RequestRedraw { window: w });
                }
            },
            LoopEvent::KeyboardInput { converts, .. } => {
                actions.push(LoopAction::UpdateAnimations);
                if let Some(w) = target {
                    if converts {
                        actions.push(LoopAction::ProcessKeyInput { window: w });
                        actions.push(LoopAction::RequestRedraw { window: w });
                    }
                }
            },
            LoopEvent::ReceivedCharacter { ch, modifiers, .. } => {
                if !char_is_control(ch) {
                    actions.push(LoopAction::UpdateAnimations);
                    if let Some(w) = target {
                        if !modifiers.control && !modifiers.alt && !modifiers.logo {
                            actions.push(LoopAction::ProcessCharacterInput { window: w, ch, modifiers });
                            actions.push(LoopAction::RequestRedraw { window: w });
                        }
                    }
                }
            },
            LoopEvent::ModifiersChanged { modifiers, .. } => {
                if let Some(w) = target {
                    actions.push(LoopAction::SetKeyboardModifiers { window: w, modifiers });
                }
            },
            LoopEvent::Focused { have_focus, .. } => {
                if let Some(w) = target {
                    actions.push(LoopAction::SetFocus { window: w, have_focus });
                    actions.push(LoopAction::RequestRedraw { window: w });
                }
            },
            LoopEvent::Other => {},
        }
        assert(actions@ =~= spec_handle_event(*old(self), event, target).1);
        (actions, ControlFlow::Wait)
    }
}

/// The window that an action is for, if it is for one.
pub open spec fn action_window(a: LoopAction) -> Option<WindowHandle> {
    match a {
        LoopAction::UpdateAnimations => None,
        LoopAction::ComputeLayout => None,
        LoopAction::Draw { window } => Some(window),
        LoopAction::ApplyPlatformScaleFactor { window } => Some(window),
        LoopAction::SetScaleFactor { window, .. } => Some(window),
        LoopAction::SetWidth { window, .. } => Some(window),
        LoopAction::SetHeight { window, .. } => Some(window),
        LoopAction::ProcessMouseInput { window, .. } => Some(window),
        LoopAction::RequestRedraw { window } => Some(window),
        LoopAction::ProcessKeyInput { window } => Some(window),
        LoopAction::ProcessCharacterInput { window, .. } => Some(window),
        LoopAction::SetKeyboardModifiers { window, .. } => Some(window),
        LoopAction::SetFocus { window, .. } => Some(window),
    }
}

/// The loop ends on a request to close a window, and on no other event.
pub proof fn law_exit_only_on_close(
    state: EventLoopState,
    event: LoopEvent,
    target: Option<WindowHandle>,
)
    ensures
        spec_handle_event(state, event, target).2 == ControlFlow::Exit <==> event
            is CloseRequested,
{
}

/// Scheduling keeps the end of the loop, and never ends a loop that the event did
/// not end.
pub proof fn law_schedule_keeps_exit(
    flow: ControlFlow,
    animations_active: bool,
    timers_fired: bool,
    timeout_pending: bool,
)
    ensures
        spec_schedule(flow, animations_active, timers_fired, timeout_pending).0
            == ControlFlow::Exit <==> flow == ControlFlow::Exit,
{
}

/// The remembered cursor position is the position of the last cursor move, and only
/// a cursor move changes it.
pub proof fn law_cursor_follows_moves(
    state: EventLoopState,
    event: LoopEvent,
    target: Option<WindowHandle>,
)
    ensures
        spec_handle_event(state, event, target).0.cursor_pos == match event {
            LoopEvent::CursorMoved { position, .. } => position,
            _ => state.cursor_pos,
        },
{
}

/// Only a mouse button or a touch that reaches a registered window changes whether
/// a button is held; a press sets it and a release clears it.
pub proof fn law_pressed_follows_buttons(
    state: EventLoopState,
    event: LoopEvent,
    target: Option<WindowHandle>,
)
    ensures
        spec_handle_event(state, event, target).0.pressed != state.pressed ==> target is Some
            && (event is MouseInput || event is Touch),
        target is Some ==> match event {
            LoopEvent::MouseInput { state: ElementState::Pressed, .. } => spec_handle_event(
                state,
                event,
                target,
            ).0.pressed,
            LoopEvent::MouseInput { state: ElementState::Released, .. } => !spec_handle_event(
                state,
                event,
                target,
            ).0.pressed,
            _ => true,
        },
{
}

/// Every action that is for a window is for the window that the event was sent to;
/// an event for a window that is not registered only updates the animations.
pub proof fn law_actions_for_target(
    state: EventLoopState,
    event: LoopEvent,
    target: Option<WindowHandle>,
)
    ensures
        forall|i: int|
            0 <= i < spec_handle_event(state, event, target).1.len() ==> {
                let a = #[trigger] spec_handle_event(state, event, target).1[i];
                &&& action_window(a) is Some ==> action_window(a) == target
                &&& target is None ==> a == LoopAction::UpdateAnimations
            },
{
    let actions = spec_handle_event(state, event, target).1;
    assert forall|i: int| 0 <= i < actions.len() implies {
        let a = #[trigger] actions[i];
        &&& action_window(a) is Some ==> action_window(a) == target
        &&& target is None ==> a == LoopAction::UpdateAnimations
    } by {
        match event {
            LoopEvent::RedrawRequested { layout_dirty, .. } => {
                match target {
                    Some(w) => {
                        if layout_dirty {
                            assert(actions == seq![
                                LoopAction::UpdateAnimations,
                                LoopAction::ComputeLayout,
                                LoopAction::Draw { window: w },
                            ]);
                        } else {
                            assert(actions == seq![
                                LoopAction::UpdateAnimations,
                                LoopAction::Draw { window: w },
                            ]);
                        }
                    },
                    None => {
                        assert(actions == seq![LoopAction::UpdateAnimations]);
                    },
                }
            },
            LoopEvent::CursorMoved { position, .. } => {
                match target {
                    Some(w) => {
                        assert(actions == seq![
                            LoopAction::UpdateAnimations,
                            LoopAction::ProcessMouseInput {
                                window: w,
                                position,
                                what: MouseEventType::MouseMoved,
                            },
                            LoopAction::RequestRedraw { window: w },
                        ]);
                    },
                    None => {
                        assert(actions == seq![LoopAction::UpdateAnimations]);
                    },
                }
            },
            LoopEvent::KeyboardInput { converts, .. } => {
                match target {
                    Some(w) => {
                        if converts {
                            assert(actions == seq![
                                LoopAction::UpdateAnimations,
                                LoopAction::ProcessKeyInput { window: w },
                                LoopAction::RequestRedraw { window: w },
                            ]);
                        } else {
                            assert(actions == seq![LoopAction::UpdateAnimations]);
                        }
                    },
                    None => {
                        assert(actions == seq![LoopAction::UpdateAnimations]);
                    },
                }
            },
            LoopEvent::ReceivedCharacter { ch, modifiers, .. } => {
                if !is_control_char(ch) {
                    match target {
                        Some(w) => {
                            if !modifiers.control && !modifiers.alt && !modifiers.logo {
                                assert(actions == seq![
                                    LoopAction::UpdateAnimations,
                                    LoopAction::ProcessCharacterInput { window: w, ch, modifiers },
                                    LoopAction::RequestRedraw { window: w },
                                ]);
                            } else {
                                assert(actions == seq![LoopAction::UpdateAnimations]);
                            }
                        },
                        None => {
                            assert(actions == seq![LoopAction::UpdateAnimations]);
                        },
                    }
                }
            },
            _ => {},
        }
    }
}

/// What a mouse button, a touch or a cursor move does for a registered window: the
/// animations are updated, the window gets a mouse event and is redrawn. A button
/// press or a touch that starts presses, with a pressed event; a button release, or a
/// touch that ends or is cancelled, releases, with a released event; a touch that
/// moves, or a cursor move, gives a moved event and leaves the button as it was. A
/// button event is at the last cursor position, a touch at its own location, a cursor
/// move at its new position.
pub proof fn law_pointer_events(state: EventLoopState, event: LoopEvent, w: WindowHandle)
    ensures
        ({
            let (next, actions, flow) = spec_handle_event(state, event, Some(w));
            let mouse = |position: PhysicalPosition, what: MouseEventType|
                seq![
                    LoopAction::UpdateAnimations,
                    LoopAction::ProcessMouseInput { window: w, position, what },
                    LoopAction::RequestRedraw { window: w },
                ];
            &&& event matches LoopEvent::MouseInput { state: ElementState::Pressed, .. } ==> next.pressed
                && actions == mouse(state.cursor_pos, MouseEventType::MousePressed)
            &&& event matches LoopEvent::MouseInput { state: ElementState::Released, .. } ==> !next.pressed
                && actions == mouse(state.cursor_pos, MouseEventType::MouseReleased)
            &&& event matches LoopEvent::Touch { phase: TouchPhase::Started, location, .. } ==> next.pressed
                && actions == mouse(location, MouseEventType::MousePressed)
            &&& event matches LoopEvent::Touch { phase: TouchPhase::Ended, location, .. } ==> !next.pressed
                && actions == mouse(location, MouseEventType::MouseReleased)
            &&& event matches LoopEvent::Touch { phase: TouchPhase::Cancelled, location, .. }
                ==> !next.pressed && actions == mouse(location, MouseEventType::MouseReleased)
            &&& event matches LoopEvent::Touch { phase: TouchPhase::Moved, location, .. }
                ==> next.pressed == state.pressed && actions == mouse(
                location,
                MouseEventType::MouseMoved,
            )
            &&& event matches LoopEvent::CursorMoved { position, .. } ==> next.pressed
                == state.pressed && next.cursor_pos == position && actions == mouse(
                position,
                MouseEventType::MouseMoved,
            )
            &&& (event is MouseInput || event is Touch || event is CursorMoved) ==> flow
                == ControlFlow::Wait && next.cursor_pos == match event {
                LoopEvent::CursorMoved { position, .. } => position,
                _ => state.cursor_pos,
            }
        }),
{
}

/// What the other events do for a registered window, leaving the loop's state as it
/// was: a redraw request updates the animations, lays the component out again where
/// its layout is dirty, and draws; a resize takes the platform's scale factor and
/// sets the new width and height; a scale factor change sets the given factor and
/// size; a key event that converts is passed on and redraws, one that does not only
/// updates the animations; a typed character that is not a control character and is
/// typed without control, alt or logo is passed on with the modifiers and redraws; a
/// control character does nothing; a change of modifiers sets them; a change of focus
/// sets it and redraws; any other event does nothing.
pub proof fn law_window_events(state: EventLoopState, event: LoopEvent, w: WindowHandle)
    ensures
        ({
            let (next, actions, flow) = spec_handle_event(state, event, Some(w));
            &&& !(event is MouseInput || event is Touch || event is CursorMoved) ==> next == state
            &&& !(event is CloseRequested) ==> flow == ControlFlow::Wait
            &&& event matches LoopEvent::RedrawRequested { layout_dirty, .. } ==> actions == if layout_dirty {
                seq![LoopAction::UpdateAnimations, LoopAction::ComputeLayout, LoopAction::Draw { window: w }]
            } else {
                seq![LoopAction::UpdateAnimations, LoopAction::Draw { window: w }]
            }
            &&& event matches LoopEvent::Resized { width, height, .. } ==> actions == seq![
                LoopAction::ApplyPlatformScaleFactor { window: w },
                LoopAction::SetWidth { window: w, width },
                LoopAction::SetHeight { window: w, height },
            ]
            &&& event matches LoopEvent::ScaleFactorChanged { scale_factor_bits, width, height, .. }
                ==> actions == seq![
                LoopAction::SetScaleFactor { window: w, factor_bits: scale_factor_bits },
                LoopAction::SetWidth { window: w, width },
                LoopAction::SetHeight { window: w, height },
            ]
            &&& event matches LoopEvent::KeyboardInput { converts, .. } ==> actions == if converts {
                seq![
                    LoopAction::UpdateAnimations,
                    LoopAction::ProcessKeyInput { window: w },
                    LoopAction::RequestRedraw { window: w },
                ]
            } else {
                seq![LoopAction::UpdateAnimations]
            }
            &&& event matches LoopEvent::ReceivedCharacter { ch, modifiers, .. } ==> actions == if (ch
                as u32) <= 0x1f || (0x7f <= (ch as u32) && (ch as u32) <= 0x9f) {
                Seq::<LoopAction>::empty()
            } else if modifiers.control || modifiers.alt || modifiers.logo {
                seq![LoopAction::UpdateAnimations]
            } else {
                seq![
                    LoopAction::UpdateAnimations,
                    LoopAction::ProcessCharacterInput { window: w, ch, modifiers },
                    LoopAction::RequestRedraw { window: w },
                ]
            }
            &&& event matches LoopEvent::ModifiersChanged { modifiers, .. } ==> actions == seq![
                LoopAction::SetKeyboardModifiers { window: w, modifiers },
            ]
            &&& event matches LoopEvent::Focused { have_focus, .. } ==> actions == seq![
                LoopAction::SetFocus { window: w, have_focus },
                LoopAction::RequestRedraw { window: w },
            ]
            &&& (event is Other || event is CloseRequested) ==> actions.len() == 0
        }),
{
}

/// How the loop waits: it ends where the event ended it; otherwise, while an
/// animation runs, it does not wait and every window is redrawn; else it waits for
/// the next event, or for the next timer's timeout where a timer waits. Timers that
/// fired have every window redrawn as well.
pub proof fn law_schedule(
    flow: ControlFlow,
    animations_active: bool,
    timers_fired: bool,
    timeout_pending: bool,
)
    ensures
        ({
            let (f, redraw) = spec_schedule(flow, animations_active, timers_fired, timeout_pending);
            &&& flow == ControlFlow::Exit ==> f == ControlFlow::Exit && redraw == timers_fired
            &&& flow != ControlFlow::Exit && animations_active ==> f == ControlFlow::Poll && redraw
            &&& flow == ControlFlow::Wait && !animations_active ==> f == (if timeout_pending {
                ControlFlow::WaitUntilNextTimeout
            } else {
                ControlFlow::Wait
            }) && redraw == timers_fired
        }),
{
}

} // verus!
