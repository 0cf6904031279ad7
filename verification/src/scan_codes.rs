//! Keys: where they stand on a PC keyboard, and which they are on a Macintosh.
use crate::remote_desktop::RemoteDesktopPlatform;
use vstd::prelude::*;

verus! {

/// A key of the viewer's keyboard.
#[derive(Debug, Clone, Copy, PartialEq, Eq, Structural)]
pub enum Key {
    Escape,
    Num1,
    Num2,
    Num3,
    Num4,
    Num5,
    Num6,
    Num7,
    Num8,
    Num9,
    Num0,
    Backspace,
    Tab,
    Q,
    W,
    E,
    R,
    T,
    Y,
    U,
    I,
    O,
    P,
    Enter,
    A,
    S,
    D,
    F,
    G,
    H,
    J,
    K,
    L,
    Z,
    X,
    C,
    V,
    B,
    N,
    M,
    Space,
    F1,
    F2,
    F3,
    F4,
    F5,
    F6,
    F7,
    F8,
    F9,
    F10,
    Home,
    ArrowUp,
    PageUp,
    ArrowLeft,
    ArrowRight,
    End,
    ArrowDown,
    PageDown,
    Insert,
    Delete,
    F11,
    F12,
    Other,
}

/// The scan code of a key, whether it is an extended one, and whether the key writes a character.
pub open spec fn scan_code_of(key: Key) -> Option<(u16, bool, bool)> {
    match key {
        Key::Escape => Some((0x01, false, false)),
        Key::Num1 => Some((0x02, false, true)),
        Key::Num2 => Some((0x03, false, true)),
        Key::Num3 => Some((0x04, false, true)),
        Key::Num4 => Some((0x05, false, true)),
        Key::Num5 => Some((0x06, false, true)),
        Key::Num6 => Some((0x07, false, true)),
        Key::Num7 => Some((0x08, false, true)),
        Key::Num8 => Some((0x09, false, true)),
        Key::Num9 => Some((0x0A, false, true)),
        Key::Num0 => Some((0x0B, false, true)),
        Key::Backspace => Some((0x0E, false, false)),
        Key::Tab => Some((0x0F, false, false)),
        Key::Q => Some((0x10, false, true)),
        Key::W => Some((0x11, false, true)),
        Key::E => Some((0x12, false, true)),
        Key::R => Some((0x13, false, true)),
        Key::T => Some((0x14, false, true)),
        Key::Y => Some((0x15, false, true)),
        Key::U => Some((0x16, false, true)),
        Key::I => Some((0x17, false, true)),
        Key::O => Some((0x18, false, true)),
        Key::P => Some((0x19, false, true)),
        Key::Enter => Some((0x1C, false, false)),
        Key::A => Some((0x1E, false, true)),
        Key::S => Some((0x1F, false, true)),
        Key::D => Some((0x20, false, true)),
        Key::F => Some((0x21, false, true)),
        Key::G => Some((0x22, false, true)),
        Key::H => Some((0x23, false, true)),
        Key::J => Some((0x24, false, true)),
        Key::K => Some((0x25, false, true)),
        Key::L => Some((0x26, false, true)),
        Key::Z => Some((0x2C, false, true)),
        Key::X => Some((0x2D, false, true)),
        Key::C => Some((0x2E, false, true)),
        Key::V => Some((0x2F, false, true)),
        Key::B => Some((0x30, false, true)),
        Key::N => Some((0x31, false, true)),
        Key::M => Some((0x32, false, true)),
        Key::Space => Some((0x39, false, false)),
        Key::F1 => Some((0x3B, false, false)),
        Key::F2 => Some((0x3C, false, false)),
        Key::F3 => Some((0x3D, false, false)),
        Key::F4 => Some((0x3E, false, false)),
        Key::F5 => Some((0x3F, false, false)),
        Key::F6 => Some((0x40, false, false)),
        Key::F7 => Some((0x41, false, false)),
        Key::F8 => Some((0x42, false, false)),
        Key::F9 => Some((0x43, false, false)),
        Key::F10 => Some((0x44, false, false)),
        Key::Home => Some((0x47, true, false)),
        Key::ArrowUp => Some((0x48, true, false)),
        Key::PageUp => Some((0x49, true, false)),
        Key::ArrowLeft => Some((0x4B, true, false)),
        Key::ArrowRight => Some((0x4D, true, false)),
        Key::End => Some((0x4F, true, false)),
        Key::ArrowDown => Some((0x50, true, false)),
        Key::PageDown => Some((0x51, true, false)),
        Key::Insert => Some((0x52, true, false)),
        Key::Delete => Some((0x53, true, false)),
        Key::F11 => Some((0x57, false, false)),
        Key::F12 => Some((0x58, false, false)),
        Key::Other => None,
    }
}

pub fn egui_key_to_scan_code(key: Key) -> (r: Option<(u16, bool, bool)>)
    ensures
        r == scan_code_of(key),
{
    let value: (u16, bool, bool) = match key {
        Key::Escape => (0x01, false, false),
        Key::Num1 => (0x02, false, true),
        Key::Num2 => (0x03, false, true),
        Key::Num3 => (0x04, false, true),
        Key::Num4 => (0x05, false, true),
        Key::Num5 => (0x06, false, true),
        Key::Num6 => (0x07, false, true),
        Key::Num7 => (0x08, false, true),
        Key::Num8 => (0x09, false, true),
        Key::Num9 => (0x0A, false, true),
        Key::Num0 => (0x0B, false, true),
        Key::Backspace => (0x0E, false, false),
        Key::Tab => (0x0F, false, false),
        Key::Q => (0x10, false, true),
        Key::W => (0x11, false, true),
        Key::E => (0x12, false, true),
        Key::R => (0x13, false, true),
        Key::T => (0x14, false, true),
        Key::Y => (0x15, false, true),
        Key::U => (0x16, false, true),
        Key::I => (0x17, false, true),
        Key::O => (0x18, false, true),
        Key::P => (0x19, false, true),
        Key::Enter => (0x1C, false, false),
        Key::A => (0x1E, false, true),
        Key::S => (0x1F, false, true),
        Key::D => (0x20, false, true),
        Key::F => (0x21, false, true),
        Key::G => (0x22, false, true),
        Key::H => (0x23, false, true),
        Key::J => (0x24, false, true),
        Key::K => (0x25, false, true),
        Key::L => (0x26, false, true),
        Key::Z => (0x2C, false, true),
        Key::X => (0x2D, false, true),
        Key::C => (0x2E, false, true),
        Key::V => (0x2F, false, true),
        Key::B => (0x30, false, true),
        Key::N => (0x31, false, true),
        Key::M => (0x32, false, true),
        Key::Space => (0x39, false, false),
        Key::F1 => (0x3B, false, false),
        Key::F2 => (0x3C, false, false),
        Key::F3 => (0x3D, false, false),
        Key::F4 => (0x3E, false, false),
        Key::F5 => (0x3F, false, false),
        Key::F6 => (0x40, false, false),
        Key::F7 => (0x41, false, false),
        Key::F8 => (0x42, false, false),
        Key::F9 => (0x43, false, false),
        Key::F10 => (0x44, false, false),
        Key::Home => (0x47, true, false),
        Key::ArrowUp => (0x48, true, false),
        Key::PageUp => (0x49, true, false),
        Key::ArrowLeft => (0x4B, true, false),
        Key::ArrowRight => (0x4D, true, false),
        Key::End => (0x4F, true, false),
        Key::ArrowDown => (0x50, true, false),
        Key::PageDown => (0x51, true, false),
        Key::Insert => (0x52, true, false),
        Key::Delete => (0x53, true, false),
        Key::F11 => (0x57, false, false),
        Key::F12 => (0x58, false, false),
        Key::Other => {
            return None;
        },
    };
    Some(value)
}

/// The key code of a Macintosh for a scan code of a PC.
pub open spec fn macos_code_of(scan_code: u16, extended: bool) -> Option<u16> {
    if extended {
        match scan_code {
            0x1D => Some(0x3E),
            0x38 => Some(0x3D),
            0x47 => Some(0x73),
            0x48 => Some(0x7E),
            0x49 => Some(0x74),
            0x4B => Some(0x7B),
            0x4D => Some(0x7C),
            0x4F => Some(0x77),
            0x50 => Some(0x7D),
            0x51 => Some(0x79),
            0x52 => Some(0x72),
            0x53 => Some(0x75),
            0x5B => Some(0x37),
            0x5C => Some(0x36),
            _ => None,
        }
    } else {
        match scan_code {
            0x01 => Some(0x35),
            0x02 => Some(0x12),
            0x03 => Some(0x13),
            0x04 => Some(0x14),
            0x05 => Some(0x15),
            0x06 => Some(0x17),
            0x07 => Some(0x16),
            0x08 => Some(0x1A),
            0x09 => Some(0x1C),
            0x0A => Some(0x19),
            0x0B => Some(0x1D),
            0x0C => Some(0x1B),
            0x0D => Some(0x18),
            0x0E => Some(0x33),
            0x0F => Some(0x30),
            0x10 => Some(0x0C),
            0x11 => Some(0x0D),
            0x12 => Some(0x0E),
            0x13 => Some(0x0F),
            0x14 => Some(0x11),
            0x15 => Some(0x10),
            0x16 => Some(0x20),
            0x17 => Some(0x22),
            0x18 => Some(0x1F),
            0x19 => Some(0x23),
            0x1A => Some(0x21),
            0x1B => Some(0x1E),
            0x1C => Some(0x24),
            0x1D => Some(0x3B),
            0x1E => Some(0x00),
            0x1F => Some(0x01),
            0x20 => Some(0x02),
            0x21 => Some(0x03),
            0x22 => Some(0x05),
            0x23 => Some(0x04),
            0x24 => Some(0x26),
            0x25 => Some(0x28),
            0x26 => Some(0x25),
            0x27 => Some(0x29),
            0x28 => Some(0x27),
            0x29 => Some(0x32),
            0x2A => Some(0x38),
            0x2B => Some(0x2A),
            0x2C => Some(0x06),
            0x2D => Some(0x07),
            0x2E => Some(0x08),
            0x2F => Some(0x09),
            0x30 => Some(0x0B),
            0x31 => Some(0x2D),
            0x32 => Some(0x2E),
            0x33 => Some(0x2B),
            0x34 => Some(0x2F),
            0x35 => Some(0x2C),
            0x36 => Some(0x3C),
            0x38 => Some(0x3A),
            0x39 => Some(0x31),
            0x3B => Some(0x7A),
            0x3C => Some(0x78),
            0x3D => Some(0x63),
            0x3E => Some(0x76),
            0x3F => Some(0x60),
            0x40 => Some(0x61),
            0x41 => Some(0x62),
            0x42 => Some(0x64),
            0x43 => Some(0x65),
            0x44 => Some(0x6D),
            0x57 => Some(0x67),
            0x58 => Some(0x6F),
            _ => None,
        }
    }
}

pub fn scan_code_to_macos(scan_code: u16, extended: bool) -> (r: Option<u16>)
    ensures
        r == macos_code_of(scan_code, extended),
{
    if extended {
        return match scan_code {
            0x1D => Some(0x3E),
            0x38 => Some(0x3D),
            0x47 => Some(0x73),
            0x48 => Some(0x7E),
            0x49 => Some(0x74),
            0x4B => Some(0x7B),
            0x4D => Some(0x7C),
            0x4F => Some(0x77),
            0x50 => Some(0x7D),
            0x51 => Some(0x79),
            0x52 => Some(0x72),
            0x53 => Some(0x75),
            0x5B => Some(0x37),
            0x5C => Some(0x36),
            _ => None,
        };
    }
    match scan_code {
        0x01 => Some(0x35),
        0x02 => Some(0x12),
        0x03 => Some(0x13),
        0x04 => Some(0x14),
        0x05 => Some(0x15),
        0x06 => Some(0x17),
        0x07 => Some(0x16),
        0x08 => Some(0x1A),
        0x09 => Some(0x1C),
        0x0A => Some(0x19),
        0x0B => Some(0x1D),
        0x0C => Some(0x1B),
        0x0D => Some(0x18),
        0x0E => Some(0x33),
        0x0F => Some(0x30),
        0x10 => Some(0x0C),
        0x11 => Some(0x0D),
        0x12 => Some(0x0E),
        0x13 => Some(0x0F),
        0x14 => Some(0x11),
        0x15 => Some(0x10),
        0x16 => Some(0x20),
        0x17 => Some(0x22),
        0x18 => Some(0x1F),
        0x19 => Some(0x23),
        0x1A => Some(0x21),
        0x1B => Some(0x1E),
        0x1C => Some(0x24),
        0x1D => Some(0x3B),
        0x1E => Some(0x00),
        0x1F => Some(0x01),
        0x20 => Some(0x02),
        0x21 => Some(0x03),
        0x22 => Some(0x05),
        0x23 => Some(0x04),
        0x24 => Some(0x26),
        0x25 => Some(0x28),
        0x26 => Some(0x25),
        0x27 => Some(0x29),
        0x28 => Some(0x27),
        0x29 => Some(0x32),
        0x2A => Some(0x38),
        0x2B => Some(0x2A),
        0x2C => Some(0x06),
        0x2D => Some(0x07),
        0x2E => Some(0x08),
        0x2F => Some(0x09),
        0x30 => Some(0x0B),
        0x31 => Some(0x2D),
        0x32 => Some(0x2E),
        0x33 => Some(0x2B),
        0x34 => Some(0x2F),
        0x35 => Some(0x2C),
        0x36 => Some(0x3C),
        0x38 => Some(0x3A),
        0x39 => Some(0x31),
        0x3B => Some(0x7A),
        0x3C => Some(0x78),
        0x3D => Some(0x63),
        0x3E => Some(0x76),
        0x3F => Some(0x60),
        0x40 => Some(0x61),
        0x41 => Some(0x62),
        0x42 => Some(0x64),
        0x43 => Some(0x65),
        0x44 => Some(0x6D),
        0x57 => Some(0x67),
        0x58 => Some(0x6F),
        _ => None,
    }
}

/// Every key that can be sent is one that a Macintosh knows.
pub proof fn every_key_reaches_a_macintosh(key: Key)
    ensures
        scan_code_of(key) matches Some((code, extended, _)) ==> macos_code_of(
            code,
            extended,
        ) is Some,
{
}

/// No two keys have the same scan code.
pub proof fn scan_codes_tell_keys_apart(a: Key, b: Key)
    requires
        scan_code_of(a) is Some,
        scan_code_of(a) == scan_code_of(b),
    ensures
        a == b,
{
}

/// No two scan codes lead to the same key of a Macintosh.
pub proof fn macintosh_keys_tell_scan_codes_apart(a: u16, x: bool, b: u16, y: bool)
    requires
        macos_code_of(a, x) is Some,
        macos_code_of(a, x) == macos_code_of(b, y),
    ensures
        a == b && x == y,
{
}

/// The modifier keys that are held down.
#[derive(Debug, Clone, Copy, PartialEq, Eq, Structural)]
pub struct Modifiers {
    pub alt: bool,
    pub ctrl: bool,
    pub shift: bool,
    pub mac_cmd: bool,
    pub command: bool,
}

impl Modifiers {
    pub open spec fn spec_none() -> Self {
        Modifiers { alt: false, ctrl: false, shift: false, mac_cmd: false, command: false }
    }

    /// No modifier is held down.
    pub fn none() -> (r: Self)
        ensures
            r == Modifiers::spec_none(),
    {
        Modifiers { alt: false, ctrl: false, shift: false, mac_cmd: false, command: false }
    }

    /// Does a key with these modifiers command rather than write?
    pub open spec fn commands(self) -> bool {
        self.command || self.ctrl || self.alt
    }
}

/// Which keys of the shared desktop follow the viewer's modifiers: whether each was and is to be
/// held down, its scan code and whether that is extended. What is the main modifier on one platform
/// stands for the main one of the other; between two Macintoshes control and command stay apart.
pub open spec fn modifier_changes(
    previous: Modifiers,
    next: Modifiers,
    platform: RemoteDesktopPlatform,
    on_macos: bool,
) -> Seq<(bool, bool, u16, bool)> {
    let was = previous.command || previous.ctrl;
    let is = next.command || next.ctrl;
    seq![(previous.shift, next.shift, 0x2Au16, false), (previous.alt, next.alt, 0x38u16, false)]
        + match platform {
        RemoteDesktopPlatform::Windows => seq![(was, is, 0x1Du16, false)],
        RemoteDesktopPlatform::Macos => if on_macos {
            seq![
                (previous.ctrl, next.ctrl, 0x1Du16, false),
                (previous.mac_cmd, next.mac_cmd, 0x5Bu16, true),
            ]
        } else {
            seq![(was, is, 0x5Bu16, true)]
        },
    }
}

/// Which keys of the shared desktop follow the viewer's modifiers.
pub fn remote_modifier_changes(
    previous: Modifiers,
    next: Modifiers,
    platform: RemoteDesktopPlatform,
    on_macos: bool,
) -> (r: Vec<(bool, bool, u16, bool)>)
    ensures
        r@ == modifier_changes(previous, next, platform, on_macos),
{
    let mut changes: Vec<(bool, bool, u16, bool)> = Vec::new();
    changes.push((previous.shift, next.shift, 0x2A, false));
    changes.push((previous.alt, next.alt, 0x38, false));
    let was = previous.command || previous.ctrl;
    let is = next.command || next.ctrl;
    match platform {
        RemoteDesktopPlatform::Windows => {
            changes.push((was, is, 0x1D, false));
        },
        RemoteDesktopPlatform::Macos => {
            if on_macos {
                changes.push((previous.ctrl, next.ctrl, 0x1D, false));
                changes.push((previous.mac_cmd, next.mac_cmd, 0x5B, true));
            } else {
                changes.push((was, is, 0x5B, true));
            }
        },
    }
    assert(changes@ =~= modifier_changes(previous, next, platform, on_macos));
    changes
}

/// Do these keys stand side by side on a PC keyboard, the first of them at this place?
pub open spec fn side_by_side(keys: Seq<Key>, first: int, extended: bool, writes: bool) -> bool {
    forall|i: int| 0 <= i < keys.len() ==> #[trigger] scan_code_of(keys[i]) == Some(
        ((first + i) as u16, extended, writes),
    )
}

/// The keys are where a PC keyboard has them: the digits and the three rows of letters each side by
/// side, the keys of functions in their order, and the arrows and their neighbours in the block of
/// extended keys. Letters and digits write, and the others do not.
pub proof fn keys_stand_in_rows()
    ensures
        side_by_side(seq![Key::Escape], 1, false, false),
        side_by_side(
            seq![
                Key::Num1,
                Key::Num2,
                Key::Num3,
                Key::Num4,
                Key::Num5,
                Key::Num6,
                Key::Num7,
                Key::Num8,
                Key::Num9,
                Key::Num0,
            ],
            2,
            false,
            true,
        ),
        side_by_side(seq![Key::Backspace, Key::Tab], 14, false, false),
        side_by_side(
            seq![
                Key::Q,
                Key::W,
                Key::E,
                Key::R,
                Key::T,
                Key::Y,
                Key::U,
                Key::I,
                Key::O,
                Key::P,
            ],
            16,
            false,
            true,
        ),
        side_by_side(seq![Key::Enter], 28, false, false),
        side_by_side(
            seq![
                Key::A,
                Key::S,
                Key::D,
                Key::F,
                Key::G,
                Key::H,
                Key::J,
                Key::K,
                Key::L,
            ],
            30,
            false,
            true,
        ),
        side_by_side(
            seq![Key::Z, Key::X, Key::C, Key::V, Key::B, Key::N, Key::M],
            44,
            false,
            true,
        ),
        side_by_side(seq![Key::Space], 57, false, false),
        side_by_side(
            seq![
                Key::F1,
                Key::F2,
                Key::F3,
                Key::F4,
                Key::F5,
                Key::F6,
                Key::F7,
                Key::F8,
                Key::F9,
                Key::F10,
            ],
            59,
            false,
            false,
        ),
        side_by_side(seq![Key::F11, Key::F12], 87, false, false),
        side_by_side(seq![Key::Home, Key::ArrowUp, Key::PageUp], 71, true, false),
        side_by_side(seq![Key::ArrowLeft], 75, true, false),
        side_by_side(seq![Key::ArrowRight], 77, true, false),
        side_by_side(
            seq![Key::End, Key::ArrowDown, Key::PageDown, Key::Insert, Key::Delete],
            79,
            true,
            false,
        ),
        forall|key: Key| #[trigger] scan_code_of(key) is None <==> key == Key::Other,
{
}

/// The scan code of a PC for a key code of a Macintosh.
pub open spec fn scan_code_of_macos(code: u16) -> Option<(u16, bool)> {
    match code {
        0x00 => Some((0x1E, false)),
        0x01 => Some((0x1F, false)),
        0x02 => Some((0x20, false)),
        0x03 => Some((0x21, false)),
        0x04 => Some((0x23, false)),
        0x05 => Some((0x22, false)),
        0x06 => Some((0x2C, false)),
        0x07 => Some((0x2D, false)),
        0x08 => Some((0x2E, false)),
        0x09 => Some((0x2F, false)),
        0x0B => Some((0x30, false)),
        0x0C => Some((0x10, false)),
        0x0D => Some((0x11, false)),
        0x0E => Some((0x12, false)),
        0x0F => Some((0x13, false)),
        0x10 => Some((0x15, false)),
        0x11 => Some((0x14, false)),
        0x12 => Some((0x02, false)),
        0x13 => Some((0x03, false)),
        0x14 => Some((0x04, false)),
        0x15 => Some((0x05, false)),
        0x16 => Some((0x07, false)),
        0x17 => Some((0x06, false)),
        0x18 => Some((0x0D, false)),
        0x19 => Some((0x0A, false)),
        0x1A => Some((0x08, false)),
        0x1B => Some((0x0C, false)),
        0x1C => Some((0x09, false)),
        0x1D => Some((0x0B, false)),
        0x1E => Some((0x1B, false)),
        0x1F => Some((0x18, false)),
        0x20 => Some((0x16, false)),
        0x21 => Some((0x1A, false)),
        0x22 => Some((0x17, false)),
        0x23 => Some((0x19, false)),
        0x24 => Some((0x1C, false)),
        0x25 => Some((0x26, false)),
        0x26 => Some((0x24, false)),
        0x27 => Some((0x28, false)),
        0x28 => Some((0x25, false)),
        0x29 => Some((0x27, false)),
        0x2A => Some((0x2B, false)),
        0x2B => Some((0x33, false)),
        0x2C => Some((0x35, false)),
        0x2D => Some((0x31, false)),
        0x2E => Some((0x32, false)),
        0x2F => Some((0x34, false)),
        0x30 => Some((0x0F, false)),
        0x31 => Some((0x39, false)),
        0x32 => Some((0x29, false)),
        0x33 => Some((0x0E, false)),
        0x35 => Some((0x01, false)),
        0x36 => Some((0x5C, true)),
        0x37 => Some((0x5B, true)),
        0x38 => Some((0x2A, false)),
        0x3A => Some((0x38, false)),
        0x3B => Some((0x1D, false)),
        0x3C => Some((0x36, false)),
        0x3D => Some((0x38, true)),
        0x3E => Some((0x1D, true)),
        0x60 => Some((0x3F, false)),
        0x61 => Some((0x40, false)),
        0x62 => Some((0x41, false)),
        0x63 => Some((0x3D, false)),
        0x64 => Some((0x42, false)),
        0x65 => Some((0x43, false)),
        0x67 => Some((0x57, false)),
        0x6D => Some((0x44, false)),
        0x6F => Some((0x58, false)),
        0x72 => Some((0x52, true)),
        0x73 => Some((0x47, true)),
        0x74 => Some((0x49, true)),
        0x75 => Some((0x53, true)),
        0x76 => Some((0x3E, false)),
        0x77 => Some((0x4F, true)),
        0x78 => Some((0x3C, false)),
        0x79 => Some((0x51, true)),
        0x7A => Some((0x3B, false)),
        0x7B => Some((0x4B, true)),
        0x7C => Some((0x4D, true)),
        0x7D => Some((0x50, true)),
        0x7E => Some((0x48, true)),
        _ => None,
    }
}

/// The key codes of a Macintosh lead back to the scan codes that they stand for, and there are no
/// others.
pub proof fn macintosh_keys_lead_back(scan_code: u16, extended: bool, code: u16)
    ensures
        macos_code_of(scan_code, extended) == Some(code) <==> scan_code_of_macos(code) == Some(
            (scan_code, extended),
        ),
{
}

/// Is this modifier of the shared desktop to follow, and from what to what?
pub open spec fn follows(
    changes: Seq<(bool, bool, u16, bool)>,
    was: bool,
    is: bool,
    scan_code: u16,
    extended: bool,
) -> bool {
    changes.contains((was, is, scan_code, extended))
}

/// Shift follows shift and the alternate key itself. The main modifier of the viewer, control or
/// command, is control on Windows and the command key on a Macintosh; only between two Macintoshes
/// are the two kept apart. Nothing else follows.
pub proof fn modifiers_follow_their_like(
    previous: Modifiers,
    next: Modifiers,
    platform: RemoteDesktopPlatform,
    on_macos: bool,
)
    ensures
        ({
            let changes = modifier_changes(previous, next, platform, on_macos);
            let was = previous.command || previous.ctrl;
            let is = next.command || next.ctrl;
            let apart = platform == RemoteDesktopPlatform::Macos && on_macos;
            &&& follows(changes, previous.shift, next.shift, 42, false)
            &&& follows(changes, previous.alt, next.alt, 56, false)
            &&& platform == RemoteDesktopPlatform::Windows ==> follows(changes, was, is, 29, false)
            &&& platform == RemoteDesktopPlatform::Macos && !on_macos ==> follows(
                changes,
                was,
                is,
                91,
                true,
            )
            &&& apart ==> follows(changes, previous.ctrl, next.ctrl, 29, false) && follows(
                changes,
                previous.mac_cmd,
                next.mac_cmd,
                91,
                true,
            )
            &&& changes.len() == if apart {
                4int
            } else {
                3int
            }
        }),
        next.commands() <==> next.command || next.ctrl || next.alt,
{
    let changes = modifier_changes(previous, next, platform, on_macos);
    assert(changes[0] == (previous.shift, next.shift, 42u16, false));
    assert(changes[1] == (previous.alt, next.alt, 56u16, false));
    let third = changes[2];
    assert(changes.contains(third));
    if changes.len() == 4 {
        let fourth = changes[3];
        assert(changes.contains(fourth));
    }
}

}
