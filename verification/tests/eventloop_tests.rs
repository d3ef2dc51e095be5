use sixtyfps::eventloop::{
    schedule, ControlFlow, ElementState, EventLoopState, KeyboardModifiers, LoopAction, LoopEvent,
    MouseEventType, PhysicalPosition, TouchPhase, WindowHandle, WindowRegistry,
};

fn pos(x: f64, y: f64) -> PhysicalPosition {
    PhysicalPosition { x_bits: x.to_bits(), y_bits: y.to_bits() }
}

fn no_modifiers() -> KeyboardModifiers {
    KeyboardModifiers { shift: false, control: false, alt: false, logo: false }
}

const W: WindowHandle = WindowHandle(7);

#[test]
fn registry_register_lookup_unregister() {
    let mut r = WindowRegistry::new();
    assert_eq!(r.window(1), None);
    r.register_window(1, WindowHandle(10));
    r.register_window(2, WindowHandle(20));
    assert_eq!(r.window(1), Some(WindowHandle(10)));
    assert_eq!(r.window(2), Some(WindowHandle(20)));
    r.register_window(1, WindowHandle(11));
    assert_eq!(r.window(1), Some(WindowHandle(11)));
    r.unregister_window(1);
    assert_eq!(r.window(1), None);
    assert_eq!(r.window(2), Some(WindowHandle(20)));
    r.unregister_window(3);
    assert_eq!(r.window(2), Some(WindowHandle(20)));
}

#[test]
fn close_request_exits() {
    let mut s = EventLoopState::new();
    let (actions, flow) = s.handle_event(LoopEvent::CloseRequested, Some(W));
    assert!(actions.is_empty());
    assert_eq!(flow, ControlFlow::Exit);
    let (flow, redraw) = schedule(flow, true, true, true);
    assert_eq!(flow, ControlFlow::Exit);
    assert!(redraw);
}

#[test]
fn other_events_wait() {
    let mut s = EventLoopState::new();
    for e in [
        LoopEvent::Other,
        LoopEvent::Resized { window: 1, width: 10, height: 20 },
        LoopEvent::Focused { window: 1, have_focus: true },
    ] {
        let (_, flow) = s.handle_event(e, Some(W));
        assert_eq!(flow, ControlFlow::Wait);
    }
}

#[test]
fn redraw_computes_layout_when_dirty() {
    let mut s = EventLoopState::new();
    let (actions, _) = s.handle_event(LoopEvent::RedrawRequested { window: 1, layout_dirty: true }, Some(W));
    assert_eq!(
        actions,
        vec![LoopAction::UpdateAnimations, LoopAction::ComputeLayout, LoopAction::Draw { window: W }]
    );
    let (actions, _) = s.handle_event(LoopEvent::RedrawRequested { window: 1, layout_dirty: false }, Some(W));
    assert_eq!(actions, vec![LoopAction::UpdateAnimations, LoopAction::Draw { window: W }]);
    let (actions, _) = s.handle_event(LoopEvent::RedrawRequested { window: 1, layout_dirty: true }, None);
    assert_eq!(actions, vec![LoopAction::UpdateAnimations]);
}

#[test]
fn resize_and_scale_factor() {
    let mut s = EventLoopState::new();
    let (actions, _) = s.handle_event(LoopEvent::Resized { window: 1, width: 640, height: 480 }, Some(W));
    assert_eq!(
        actions,
        vec![
            LoopAction::ApplyPlatformScaleFactor { window: W },
            LoopAction::SetWidth { window: W, width: 640 },
            LoopAction::SetHeight { window: W, height: 480 },
        ]
    );
    let bits = 2.0f64.to_bits();
    let (actions, _) = s.handle_event(
        LoopEvent::ScaleFactorChanged { window: 1, scale_factor_bits: bits, width: 10, height: 20 },
        Some(W),
    );
    assert_eq!(
        actions,
        vec![
            LoopAction::SetScaleFactor { window: W, factor_bits: bits },
            LoopAction::SetWidth { window: W, width: 10 },
            LoopAction::SetHeight { window: W, height: 20 },
        ]
    );
    let (actions, _) = s.handle_event(LoopEvent::Resized { window: 1, width: 1, height: 1 }, None);
    assert!(actions.is_empty());
}

#[test]
fn mouse_press_and_release_use_last_cursor_position() {
    let mut s = EventLoopState::new();
    let (actions, _) = s.handle_event(LoopEvent::CursorMoved { window: 1, position: pos(3.0, 4.0) }, Some(W));
    assert_eq!(s.cursor_pos, pos(3.0, 4.0));
    assert_eq!(
        actions,
        vec![
            LoopAction::UpdateAnimations,
            LoopAction::ProcessMouseInput { window: W, position: pos(3.0, 4.0), what: MouseEventType::MouseMoved },
            LoopAction::RequestRedraw { window: W },
        ]
    );
    let (actions, _) = s.handle_event(LoopEvent::MouseInput { window: 1, state: ElementState::Pressed }, Some(W));
    assert!(s.pressed);
    assert_eq!(
        actions[1],
        LoopAction::ProcessMouseInput { window: W, position: pos(3.0, 4.0), what: MouseEventType::MousePressed }
    );
    let (actions, _) = s.handle_event(LoopEvent::MouseInput { window: 1, state: ElementState::Released }, Some(W));
    assert!(!s.pressed);
    assert_eq!(
        actions[1],
        LoopAction::ProcessMouseInput { window: W, position: pos(3.0, 4.0), what: MouseEventType::MouseReleased }
    );
}

#[test]
fn cursor_moves_to_unregistered_window_still_tracked() {
    let mut s = EventLoopState::new();
    let (actions, _) = s.handle_event(LoopEvent::CursorMoved { window: 9, position: pos(1.0, 1.0) }, None);
    assert_eq!(actions, vec![LoopAction::UpdateAnimations]);
    assert_eq!(s.cursor_pos, pos(1.0, 1.0));
    let (actions, _) = s.handle_event(LoopEvent::MouseInput { window: 9, state: ElementState::Pressed }, None);
    assert_eq!(actions, vec![LoopAction::UpdateAnimations]);
    assert!(!s.pressed);
}

#[test]
fn touch_uses_its_own_location() {
    let mut s = EventLoopState::new();
    let (actions, _) = s.handle_event(
        LoopEvent::Touch { window: 1, phase: TouchPhase::Started, location: pos(5.0, 6.0) },
        Some(W),
    );
    assert!(s.pressed);
    assert_eq!(s.cursor_pos, pos(0.0, 0.0));
    assert_eq!(
        actions[1],
        LoopAction::ProcessMouseInput { window: W, position: pos(5.0, 6.0), what: MouseEventType::MousePressed }
    );
    let (actions, _) = s.handle_event(
        LoopEvent::Touch { window: 1, phase: TouchPhase::Moved, location: pos(7.0, 6.0) },
        Some(W),
    );
    assert!(s.pressed);
    assert_eq!(
        actions[1],
        LoopAction::ProcessMouseInput { window: W, position: pos(7.0, 6.0), what: MouseEventType::MouseMoved }
    );
    s.handle_event(LoopEvent::Touch { window: 1, phase: TouchPhase::Cancelled, location: pos(7.0, 6.0) }, Some(W));
    assert!(!s.pressed);
}

#[test]
fn typed_characters() {
    let mut s = EventLoopState::new();
    let (actions, _) = s.handle_event(
        LoopEvent::ReceivedCharacter { window: 1, ch: 'a', modifiers: no_modifiers() },
        Some(W),
    );
    assert_eq!(
        actions,
        vec![
            LoopAction::UpdateAnimations,
            LoopAction::ProcessCharacterInput { window: W, ch: 'a', modifiers: no_modifiers() },
            LoopAction::RequestRedraw { window: W },
        ]
    );
    // control characters are dropped before anything else
    for ch in ['\u{8}', '\u{7f}', '\u{9f}', '\r'] {
        let (actions, _) = s.handle_event(
            LoopEvent::ReceivedCharacter { window: 1, ch, modifiers: no_modifiers() },
            Some(W),
        );
        assert!(actions.is_empty());
    }
    // characters typed with control, alt or logo held only update the animations
    let ctrl = KeyboardModifiers { control: true, ..no_modifiers() };
    let (actions, _) = s.handle_event(LoopEvent::ReceivedCharacter { window: 1, ch: 'c', modifiers: ctrl }, Some(W));
    assert_eq!(actions, vec![LoopAction::UpdateAnimations]);
    let shift = KeyboardModifiers { shift: true, ..no_modifiers() };
    let (actions, _) = s.handle_event(LoopEvent::ReceivedCharacter { window: 1, ch: 'C', modifiers: shift }, Some(W));
    assert_eq!(actions.len(), 3);
    // a character just above the control range goes through
    let (actions, _) = s.handle_event(
        LoopEvent::ReceivedCharacter { window: 1, ch: '\u{a0}', modifiers: no_modifiers() },
        Some(W),
    );
    assert_eq!(actions.len(), 3);
}

#[test]
fn keyboard_modifiers_and_focus() {
    let mut s = EventLoopState::new();
    let (actions, _) = s.handle_event(LoopEvent::KeyboardInput { window: 1, converts: true }, Some(W));
    assert_eq!(
        actions,
        vec![LoopAction::UpdateAnimations, LoopAction::ProcessKeyInput { window: W }, LoopAction::RequestRedraw { window: W }]
    );
    let (actions, _) = s.handle_event(LoopEvent::KeyboardInput { window: 1, converts: false }, Some(W));
    assert_eq!(actions, vec![LoopAction::UpdateAnimations]);
    let m = KeyboardModifiers { alt: true, ..no_modifiers() };
    let (actions, _) = s.handle_event(LoopEvent::ModifiersChanged { window: 1, modifiers: m }, Some(W));
    assert_eq!(actions, vec![LoopAction::SetKeyboardModifiers { window: W, modifiers: m }]);
    let (actions, _) = s.handle_event(LoopEvent::Focused { window: 1, have_focus: false }, Some(W));
    assert_eq!(
        actions,
        vec![LoopAction::SetFocus { window: W, have_focus: false }, LoopAction::RequestRedraw { window: W }]
    );
}

#[test]
fn scheduling() {
    assert_eq!(schedule(ControlFlow::Wait, false, false, false), (ControlFlow::Wait, false));
    assert_eq!(schedule(ControlFlow::Wait, true, false, true), (ControlFlow::Poll, true));
    assert_eq!(schedule(ControlFlow::Wait, false, true, false), (ControlFlow::Wait, true));
    assert_eq!(schedule(ControlFlow::Wait, false, false, true), (ControlFlow::WaitUntilNextTimeout, false));
    assert_eq!(schedule(ControlFlow::Exit, true, false, true), (ControlFlow::Exit, false));
}
