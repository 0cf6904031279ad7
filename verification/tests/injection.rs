use p2p_signaling::injection::{hexadecimal, utf16, HeldInputs, WindowsInjector, WindowsInput};
use p2p_signaling::mac_injection::{
    flags_for_pressed, next_click_count, EventFlags, LastClick, MacInjector, MacInput, MacRefusal,
    PointerAct, SinceClick,
};
use p2p_signaling::remote_desktop::{
    DesktopError, RemoteDesktopPlatform, RemoteInputEvent, RemotePointerButton,
};
use p2p_signaling::scan_codes::{
    egui_key_to_scan_code, remote_modifier_changes, scan_code_to_macos, Key, Modifiers,
};
use p2p_signaling::screen::{Bounds, VirtualScreen};

#[test]
fn maps_pc_scan_codes_to_macos_keys() {
    assert_eq!(scan_code_to_macos(0x1E, false), Some(0x00));
    assert_eq!(scan_code_to_macos(0x48, true), Some(0x7E));
    assert_eq!(scan_code_to_macos(0x5B, true), Some(0x37));
    assert_eq!(scan_code_to_macos(0x7F, false), None);
}

#[test]
fn maps_punctuation_scan_codes() {
    for (pc, mac) in [
        (0x0C_u16, 0x1B_u16),
        (0x0D, 0x18),
        (0x1A, 0x21),
        (0x1B, 0x1E),
        (0x27, 0x29),
        (0x28, 0x27),
        (0x29, 0x32),
        (0x2B, 0x2A),
        (0x33, 0x2B),
        (0x34, 0x2F),
        (0x35, 0x2C),
    ] {
        assert_eq!(scan_code_to_macos(pc, false), Some(mac), "扫描码 {pc:#x}");
    }
}

#[test]
fn maps_primary_shortcut_to_windows_control() {
    let next = Modifiers {
        command: true,
        ..Modifiers::none()
    };
    assert!(remote_modifier_changes(
        Modifiers::none(),
        next,
        RemoteDesktopPlatform::Windows,
        false
    )
    .contains(&(false, true, 0x1D, false)));
}

#[test]
fn keeps_macos_control_and_command_distinct() {
    let next = Modifiers {
        ctrl: true,
        mac_cmd: true,
        command: true,
        ..Modifiers::none()
    };
    let changes =
        remote_modifier_changes(Modifiers::none(), next, RemoteDesktopPlatform::Macos, true);
    assert!(changes.contains(&(false, true, 0x1D, false)));
    assert!(changes.contains(&(false, true, 0x5B, true)));
}

const NO_FLAGS: EventFlags = EventFlags {
    shift: false,
    control: false,
    alternate: false,
    command: false,
};

#[test]
fn accumulates_modifier_flags_from_pressed_keys() {
    let mut pressed = HeldInputs::new();
    assert_eq!(flags_for_pressed(&pressed), NO_FLAGS);
    pressed.key(0x1D, false, true);
    pressed.key(0x2A, false, true);
    assert_eq!(
        flags_for_pressed(&pressed),
        EventFlags { control: true, shift: true, ..NO_FLAGS }
    );
    pressed.key(0x5B, true, true);
    pressed.key(0x38, false, true);
    pressed.key(0x2E, false, true);
    assert_eq!(
        flags_for_pressed(&pressed),
        EventFlags { control: true, shift: true, command: true, alternate: true }
    );
    let mut other = HeldInputs::new();
    other.key(0x5B, false, true);
    assert_eq!(flags_for_pressed(&other), NO_FLAGS);
}

#[test]
fn counts_double_clicks_within_threshold() {
    let at = |millis: u128, near: bool| SinceClick { nanos: millis * 1_000_000, near };
    let near = |x: f64, y: f64| (x - 10.0).abs() <= 5.0 && (y - 10.0).abs() <= 5.0;
    let first = next_click_count(None, at(0, true), RemotePointerButton::Left);
    assert_eq!(first, 1);
    let last = LastClick {
        button: RemotePointerButton::Left,
        count: first,
    };
    assert_eq!(
        next_click_count(Some(last), at(200, near(12.0, 9.0)), RemotePointerButton::Left),
        2
    );
    assert_eq!(
        next_click_count(Some(last), at(800, near(10.0, 10.0)), RemotePointerButton::Left),
        1
    );
    assert_eq!(
        next_click_count(Some(last), at(200, near(30.0, 10.0)), RemotePointerButton::Left),
        1
    );
    assert_eq!(
        next_click_count(Some(last), at(200, near(10.0, 10.0)), RemotePointerButton::Right),
        1
    );
}

#[test]
fn texts_are_split_into_units() {
    for text in ["", "a", "中文", "a😀b", "\u{ffff}\u{10000}\u{10ffff}"] {
        assert_eq!(utf16(text), text.encode_utf16().collect::<Vec<_>>());
    }
    for n in [0_u16, 9, 15, 16, 255, 4096, 65535] {
        assert_eq!(hexadecimal(n), format!("{n:x}"));
    }
}

#[test]
fn what_is_held_is_held_once() {
    let mut held = HeldInputs::new();
    held.key(1, false, true);
    held.key(1, false, true);
    held.key(1, true, true);
    held.button(RemotePointerButton::Right, true);
    held.button(RemotePointerButton::Left, true);
    held.button(RemotePointerButton::Left, false);
    held.key(9, false, false);
    assert!(held.holds_key(1, true));
    assert!(!held.holds_button(RemotePointerButton::Left));
    let (mut keys, buttons) = held.drain();
    keys.sort();
    assert_eq!(keys, [(1, false), (1, true)]);
    assert_eq!(buttons, [RemotePointerButton::Right]);
    assert!(!held.holds_key(1, true));
}

const BOUNDS: Bounds = Bounds { left: 0, top: 0, right: 1920, bottom: 1080 };
const DESKTOP: VirtualScreen = VirtualScreen { left: 0, top: 0, width: 1920, height: 1080 };

fn key(scan_code: u16, pressed: bool) -> RemoteInputEvent {
    RemoteInputEvent::Key { scan_code, extended: false, pressed }
}

#[test]
fn windows_gets_its_inputs() {
    let mut injector = WindowsInjector::new(BOUNDS);
    let moved = RemoteInputEvent::PointerMove { x: 65535, y: 0 };
    assert_eq!(
        injector.inject(&moved, DESKTOP).unwrap(),
        [WindowsInput::Move { x: 65535, y: 0 }]
    );
    let text = RemoteInputEvent::Text { text: "ab".into() };
    assert_eq!(
        injector.inject(&text, DESKTOP).unwrap(),
        [
            WindowsInput::Unicode { unit: 97, pressed: true },
            WindowsInput::Unicode { unit: 97, pressed: false },
            WindowsInput::Unicode { unit: 98, pressed: true },
            WindowsInput::Unicode { unit: 98, pressed: false },
        ]
    );
    let wheel = RemoteInputEvent::Wheel { horizontal: true, delta: -5 };
    assert_eq!(
        injector.inject(&wheel, DESKTOP).unwrap(),
        [WindowsInput::Wheel { horizontal: true, delta: -5 }]
    );
    let far = RemoteInputEvent::Wheel { horizontal: true, delta: -1201 };
    assert_eq!(injector.inject(&far, DESKTOP), Err(DesktopError::WheelDelta));
    assert_eq!(
        injector.inject(&key(0x1E, true), DESKTOP).unwrap(),
        [WindowsInput::Key { scan_code: 0x1E, extended: false, pressed: true }]
    );
    injector.injected(&key(0x1E, true));
    let down = RemoteInputEvent::PointerButton {
        button: RemotePointerButton::Left,
        pressed: true,
    };
    injector.inject(&down, DESKTOP).unwrap();
    injector.injected(&down);
    assert_eq!(
        injector.inject(&RemoteInputEvent::ReleaseAll, DESKTOP).unwrap(),
        [
            WindowsInput::Key { scan_code: 0x1E, extended: false, pressed: false },
            WindowsInput::Button { button: RemotePointerButton::Left, pressed: false },
        ]
    );
    assert!(injector
        .inject(&RemoteInputEvent::ReleaseAll, DESKTOP)
        .unwrap()
        .is_empty());
}

#[test]
fn a_key_that_was_not_taken_is_not_held() {
    let mut injector = WindowsInjector::new(BOUNDS);
    injector.inject(&key(0x1E, true), DESKTOP).unwrap();
    assert!(injector
        .inject(&RemoteInputEvent::ReleaseAll, DESKTOP)
        .unwrap()
        .is_empty());
}

const LONG_AGO: SinceClick = SinceClick { nanos: u128::MAX, near: false };
const JUST_NOW: SinceClick = SinceClick { nanos: 1, near: true };

#[test]
fn a_macintosh_gets_its_events() {
    let mut injector = MacInjector::new();
    let moved = RemoteInputEvent::PointerMove { x: 1, y: 2 };
    assert!(matches!(
        injector.inject(&moved, true, LONG_AGO).unwrap().as_slice(),
        [MacInput::Pointer { act: PointerAct::Moved, clicks: None, .. }]
    ));
    assert!(matches!(
        injector.inject(&key(0x2A, true), true, LONG_AGO).unwrap().as_slice(),
        [MacInput::Key { key_code: 0x38, pressed: true, flags }] if flags.shift
    ));
    let down = RemoteInputEvent::PointerButton {
        button: RemotePointerButton::Middle,
        pressed: true,
    };
    assert!(matches!(
        injector.inject(&down, true, LONG_AGO).unwrap().as_slice(),
        [MacInput::Pointer {
            act: PointerAct::Down,
            button: RemotePointerButton::Middle,
            clicks: Some(1),
            ..
        }]
    ));
    injector.injected(&down);
    assert!(matches!(
        injector.inject(&moved, true, LONG_AGO).unwrap().as_slice(),
        [MacInput::Pointer {
            act: PointerAct::Dragged,
            button: RemotePointerButton::Middle,
            clicks: Some(1),
            ..
        }]
    ));
    assert!(matches!(
        injector.inject(&down, true, JUST_NOW).unwrap().as_slice(),
        [MacInput::Pointer { clicks: Some(2), .. }]
    ));
    let text = RemoteInputEvent::Text { text: "é".into() };
    assert!(matches!(
        injector.inject(&text, true, LONG_AGO).unwrap().as_slice(),
        [
            MacInput::Text { units: a, pressed: true, .. },
            MacInput::Text { units: b, pressed: false, .. }
        ] if a == &vec![0xe9] && a == b
    ));
    let wheel = RemoteInputEvent::Wheel { horizontal: false, delta: 7 };
    assert!(matches!(
        injector.inject(&wheel, true, LONG_AGO).unwrap().as_slice(),
        [MacInput::Wheel { vertical: 7, horizontal: 0, .. }]
    ));
    let released = injector
        .inject(&RemoteInputEvent::ReleaseAll, true, LONG_AGO)
        .unwrap();
    assert!(matches!(
        released.as_slice(),
        [
            MacInput::Key { key_code: 0x38, pressed: false, flags },
            MacInput::Pointer { act: PointerAct::Up, button: RemotePointerButton::Middle, .. }
        ] if !flags.shift
    ));
}

#[test]
fn a_macintosh_refuses_with_words() {
    let mut injector = MacInjector::new();
    let refused = injector.inject(&key(0x7F, true), true, LONG_AGO).unwrap_err();
    assert_eq!(refused, MacRefusal::UnknownKey(0x7F));
    assert_eq!(refused.message(), "不支持的远程扫描码：0x7f");
    assert_eq!(
        injector.inject(&key(0x1E, true), false, LONG_AGO).unwrap_err().message(),
        "macOS 辅助功能控制权限已失效"
    );
    let long = RemoteInputEvent::Text { text: "x".repeat(65) };
    assert_eq!(
        injector.inject(&long, true, LONG_AGO).unwrap_err(),
        MacRefusal::Invalid(DesktopError::TextLength)
    );
}

#[test]
fn every_key_has_its_place() {
    assert_eq!(egui_key_to_scan_code(Key::A), Some((0x1E, false, true)));
    assert_eq!(egui_key_to_scan_code(Key::C), Some((0x2E, false, true)));
    assert_eq!(egui_key_to_scan_code(Key::Other), None);
    let (code, extended, printable) = egui_key_to_scan_code(Key::ArrowUp).unwrap();
    assert!(!printable);
    assert_eq!(scan_code_to_macos(code, extended), Some(0x7E));
    let next = Modifiers { shift: true, ctrl: true, ..Modifiers::none() };
    assert_eq!(
        remote_modifier_changes(Modifiers::none(), next, RemoteDesktopPlatform::Macos, false),
        [
            (false, true, 0x2A, false),
            (false, false, 0x38, false),
            (false, true, 0x5B, true),
        ]
    );
}
