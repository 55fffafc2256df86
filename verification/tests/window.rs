use std::path::PathBuf;
use winit_async::window::{ElementState, KeyboardInput, MouseButton, Theme, WindowEventAsync};

#[test]
fn window_events_clone_to_equal_values() {
    let events = vec![
        WindowEventAsync::Resized { width: 640, height: 480 },
        WindowEventAsync::Moved { x: -3, y: 7 },
        WindowEventAsync::DroppedFile(PathBuf::from("/tmp/a.txt")),
        WindowEventAsync::HoveredFile(PathBuf::from("b.png")),
        WindowEventAsync::ReceivedCharacter('x'),
        WindowEventAsync::Focused(true),
        WindowEventAsync::ModifiersChanged(4),
        WindowEventAsync::ThemeChanged(Theme::Dark),
        WindowEventAsync::CloseRequested,
        WindowEventAsync::ScaleFactorChanged {
            scale_factor_bits: 2.0f64.to_bits(),
            new_inner_width: 1280,
            new_inner_height: 960,
        },
    ];
    for e in events {
        assert_eq!(e.clone(), e);
    }
}

#[test]
fn window_event_parts_are_plain_values() {
    let input = KeyboardInput { scancode: 30, state: ElementState::Pressed, virtual_keycode: None, modifiers: 0 };
    let copy = input;
    assert_eq!(copy, input);
    assert_ne!(MouseButton::Other(4), MouseButton::Other(5));
    assert_eq!(f64::from_bits(1.25f64.to_bits()), 1.25);
}
