//! Carrying out a viewer's input on a Macintosh.
use crate::injection::{HeldInputs, HeldInputsView};
use crate::remote_desktop::{
    DesktopError, RemoteInputEvent, RemoteInputEventView, RemotePointerButton,
};
use crate::{injection, scan_codes, text};
use vstd::prelude::*;

verus! {

/// Two clicks count together when no more than this lies between them, in nanoseconds.
pub const DOUBLE_CLICK_NANOS: u128 = 500_000_000;

/// The modifier keys that an event carries.
#[derive(Debug, Clone, Copy, PartialEq, Eq, Structural)]
pub struct EventFlags {
    pub shift: bool,
    pub control: bool,
    pub alternate: bool,
    pub command: bool,
}

/// The modifiers among the keys that are held down.
pub open spec fn flags_of(keys: Set<(u16, bool)>) -> EventFlags {
    EventFlags {
        shift: keys.contains((0x2A, false)) || keys.contains((0x36, false)),
        control: keys.contains((0x1D, false)) || keys.contains((0x1D, true)),
        alternate: keys.contains((0x38, false)) || keys.contains((0x38, true)),
        command: keys.contains((0x5B, true)) || keys.contains((0x5C, true)),
    }
}

/// The modifiers among the keys that are held down.
pub fn flags_for_pressed(held: &HeldInputs) -> (r: EventFlags)
    ensures
        r == flags_of(held@.keys),
{
    EventFlags {
        shift: held.holds_key(0x2A, false) || held.holds_key(0x36, false),
        control: held.holds_key(0x1D, false) || held.holds_key(0x1D, true),
        alternate: held.holds_key(0x38, false) || held.holds_key(0x38, true),
        command: held.holds_key(0x5B, true) || held.holds_key(0x5C, true),
    }
}

/// The last click: with which button, and how many clicks it counted as.
#[derive(Debug, Clone, Copy, PartialEq, Eq, Structural)]
pub struct LastClick {
    pub button: RemotePointerButton,
    pub count: i64,
}

/// When a button goes down after the last click: how long ago that was, and whether it was near.
#[derive(Debug, Clone, Copy, PartialEq, Eq, Structural)]
pub struct SinceClick {
    pub nanos: u128,
    pub near: bool,
}

/// How many clicks a button that goes down counts as.
pub open spec fn clicks(
    previous: Option<LastClick>,
    since: SinceClick,
    button: RemotePointerButton,
) -> int {
    match previous {
        Some(last) => if last.button == button && since.nanos <= DOUBLE_CLICK_NANOS && since.near {
            last.count + 1
        } else {
            1
        },
        None => 1,
    }
}

/// How many clicks a button that goes down counts as.
pub fn next_click_count(
    previous: Option<LastClick>,
    since: SinceClick,
    button: RemotePointerButton,
) -> (r: i64)
    requires
        clicks(previous, since, button) <= i64::MAX,
    ensures
        r == clicks(previous, since, button),
{
    match previous {
        Some(last) => if last.button == button && since.nanos <= DOUBLE_CLICK_NANOS && since.near {
            last.count + 1
        } else {
            1
        },
        None => 1,
    }
}

/// What the pointer does.
#[derive(Debug, Clone, Copy, PartialEq, Eq, Structural)]
pub enum PointerAct {
    Moved,
    Dragged,
    Down,
    Up,
}

/// One event as it is posted. A pointer that merely moves counts no clicks.
#[derive(Debug)]
pub enum MacInput {
    Pointer { act: PointerAct, button: RemotePointerButton, clicks: Option<i64>, flags: EventFlags },
    Wheel { vertical: i32, horizontal: i32, flags: EventFlags },
    Key { key_code: u16, pressed: bool, flags: EventFlags },
    Text { units: Vec<u16>, pressed: bool, flags: EventFlags },
}

#[verifier::ext_equal]
pub enum MacInputView {
    Pointer { act: PointerAct, button: RemotePointerButton, clicks: Option<i64>, flags: EventFlags },
    Wheel { vertical: i32, horizontal: i32, flags: EventFlags },
    Key { key_code: u16, pressed: bool, flags: EventFlags },
    Text { units: Seq<u16>, pressed: bool, flags: EventFlags },
}

impl View for MacInput {
    type V = MacInputView;

    open spec fn view(&self) -> MacInputView {
        match self {
            MacInput::Pointer { act, button, clicks, flags } => MacInputView::Pointer {
                act: *act,
                button: *button,
                clicks: *clicks,
                flags: *flags,
            },
            MacInput::Wheel { vertical, horizontal, flags } => MacInputView::Wheel {
                vertical: *vertical,
                horizontal: *horizontal,
                flags: *flags,
            },
            MacInput::Key { key_code, pressed, flags } => MacInputView::Key {
                key_code: *key_code,
                pressed: *pressed,
                flags: *flags,
            },
            MacInput::Text { units, pressed, flags } => MacInputView::Text {
                units: units@,
                pressed: *pressed,
                flags: *flags,
            },
        }
    }
}

pub open spec fn input_views(inputs: Seq<MacInput>) -> Seq<MacInputView> {
    inputs.map_values(|i: MacInput| i@)
}

/// Why an event is not carried out.
#[derive(Debug, Clone, Copy, PartialEq, Eq, Structural)]
pub enum MacRefusal {
    Invalid(DesktopError),
    NotPermitted,
    UnknownKey(u16),
}

impl MacRefusal {
    pub open spec fn words(self) -> Seq<char> {
        match self {
            MacRefusal::Invalid(e) => e.words(),
            MacRefusal::NotPermitted => "macOS 辅助功能控制权限已失效"@,
            MacRefusal::UnknownKey(scan_code) => "不支持的远程扫描码：0x"@ + injection::hex_number(
                scan_code as nat,
            ),
        }
    }

    pub fn message(&self) -> (r: String)
        ensures
            r@ == self.words(),
    {
        match self {
            MacRefusal::Invalid(e) => e.message(),
            MacRefusal::NotPermitted => "macOS 辅助功能控制权限已失效".to_owned(),
            MacRefusal::UnknownKey(scan_code) => {
                let n = injection::hexadecimal(*scan_code);
                text::concat("不支持的远程扫描码：0x", n.as_str())
            },
        }
    }
}

/// Carries a viewer's input out on a display of a Macintosh.
#[derive(Debug)]
pub struct MacInjector {
    held: HeldInputs,
    last_click: Option<LastClick>,
    click_count: i64,
}

#[verifier::ext_equal]
pub struct MacInjectorView {
    pub held: HeldInputsView,
    pub last_click: Option<LastClick>,
    pub click_count: i64,
}

impl View for MacInjector {
    type V = MacInjectorView;

    closed spec fn view(&self) -> MacInjectorView {
        MacInjectorView {
            held: self.held@,
            last_click: self.last_click,
            click_count: self.click_count,
        }
    }
}

impl MacInjectorView {
    /// Why an event is not carried out at all, if it is not.
    pub open spec fn turned_down(event: RemoteInputEventView, permitted: bool) -> Option<MacRefusal> {
        match event.checked() {
            Err(e) => Some(MacRefusal::Invalid(e)),
            Ok(_) => if permitted {
                None
            } else {
                Some(MacRefusal::NotPermitted)
            },
        }
    }

    /// The injector after the events for an input were posted.
    pub open spec fn posted(self, event: RemoteInputEventView) -> Self {
        MacInjectorView {
            held: match event {
                RemoteInputEventView::PointerButton { button, pressed } => self.held.with_button(
                    button,
                    pressed,
                ),
                _ => self.held,
            },
            ..self
        }
    }

    pub open spec fn start() -> Self {
        MacInjectorView { held: HeldInputsView::nothing(), last_click: None, click_count: 1 }
    }

    /// Each key that is held down is one of a Macintosh.
    pub open spec fn holds_known_keys(self) -> bool {
        forall|k: (u16, bool)| #[trigger]
            self.held.keys.contains(k) ==> scan_codes::macos_code_of(k.0, k.1) is Some
    }

    /// Can the next click be counted?
    pub open spec fn can_count(self) -> bool {
        self.last_click matches Some(last) ==> last.count < i64::MAX
    }

    /// The pointer moves: with a button held down it drags, the left one before the right one
    /// before the middle one.
    pub open spec fn motion(self) -> MacInputView {
        let (act, button) = if self.held.buttons.contains(RemotePointerButton::Left) {
            (PointerAct::Dragged, RemotePointerButton::Left)
        } else if self.held.buttons.contains(RemotePointerButton::Right) {
            (PointerAct::Dragged, RemotePointerButton::Right)
        } else if self.held.buttons.contains(RemotePointerButton::Middle) {
            (PointerAct::Dragged, RemotePointerButton::Middle)
        } else {
            (PointerAct::Moved, RemotePointerButton::Left)
        };
        MacInputView::Pointer {
            act,
            button,
            clicks: if act == PointerAct::Moved {
                None
            } else {
                Some(self.click_count)
            },
            flags: flags_of(self.held.keys),
        }
    }

    /// A button that goes down is a click and counts as one or more.
    pub open spec fn clicked(
        self,
        button: RemotePointerButton,
        pressed: bool,
        since: SinceClick,
    ) -> Self {
        if pressed {
            let count = clicks(self.last_click, since, button) as i64;
            MacInjectorView {
                last_click: Some(LastClick { button, count }),
                click_count: count,
                ..self
            }
        } else {
            self
        }
    }

    pub open spec fn button_event(self, button: RemotePointerButton, pressed: bool) -> MacInputView {
        MacInputView::Pointer {
            act: if pressed {
                PointerAct::Down
            } else {
                PointerAct::Up
            },
            button,
            clicks: Some(self.click_count),
            flags: flags_of(self.held.keys),
        }
    }

    pub open spec fn key_event(self, key_code: u16, pressed: bool) -> MacInputView {
        MacInputView::Key { key_code, pressed, flags: flags_of(self.held.keys) }
    }

    pub open spec fn text_event(self, text: Seq<char>, pressed: bool) -> MacInputView {
        MacInputView::Text {
            units: injection::utf16_units(text),
            pressed,
            flags: flags_of(self.held.keys),
        }
    }

    pub open spec fn wheel_event(self, horizontal: bool, delta: i32) -> MacInputView {
        MacInputView::Wheel {
            vertical: if horizontal {
                0
            } else {
                delta
            },
            horizontal: if horizontal {
                delta
            } else {
                0
            },
            flags: flags_of(self.held.keys),
        }
    }

    /// With a key pressed or released.
    pub open spec fn with_key(self, scan_code: u16, extended: bool, pressed: bool) -> Self {
        MacInjectorView { held: self.held.with_key(scan_code, extended, pressed), ..self }
    }

    /// With everything let go.
    pub open spec fn emptied(self) -> Self {
        MacInjectorView { held: HeldInputsView::nothing(), ..self }
    }

    /// The keys are released and then the buttons, when nothing counts as held any more.
    pub open spec fn releases(
        self,
        keys: Seq<(u16, bool)>,
        buttons: Seq<RemotePointerButton>,
    ) -> Seq<MacInputView> {
        keys.map_values(
            |k: (u16, bool)| self.key_event(scan_codes::macos_code_of(k.0, k.1)->0, false),
        ) + buttons.map_values(|b: RemotePointerButton| self.button_event(b, false))
    }

    /// The injector and the events for an input, but for the one that releases everything.
    pub open spec fn carried_out(self, event: RemoteInputEventView, since: SinceClick) -> (
        Self,
        Result<Seq<MacInputView>, MacRefusal>,
    ) {
        match event {
            RemoteInputEventView::PointerMove { x: _, y: _ } => (self, Ok(seq![self.motion()])),
            RemoteInputEventView::PointerButton { button, pressed } => {
                let s = self.clicked(button, pressed, since);
                (s, Ok(seq![s.button_event(button, pressed)]))
            },
            RemoteInputEventView::Wheel { horizontal, delta } => (
                self,
                Ok(seq![self.wheel_event(horizontal, delta)]),
            ),
            RemoteInputEventView::Key { scan_code, extended, pressed } => match scan_codes::macos_code_of(
                scan_code,
                extended,
            ) {
                Some(key_code) => {
                    let s = self.with_key(scan_code, extended, pressed);
                    (s, Ok(seq![s.key_event(key_code, pressed)]))
                },
                None => (self, Err(MacRefusal::UnknownKey(scan_code))),
            },
            RemoteInputEventView::Text { text } => (
                self,
                Ok(seq![self.text_event(text, true), self.text_event(text, false)]),
            ),
            RemoteInputEventView::ReleaseAll => (self, Ok(Seq::empty())),
        }
    }
}

impl MacInjector {
    #[verifier::type_invariant]
    spec fn knows_its_keys(self) -> bool {
        forall|k: (u16, bool)| #[trigger]
            self.held@.keys.contains(k) ==> scan_codes::macos_code_of(k.0, k.1) is Some
    }

    pub fn new() -> (r: Self)
        ensures
            r@ == MacInjectorView::start(),
    {
        MacInjector { held: HeldInputs::new(), last_click: None, click_count: 1 }
    }

    /// Can the next click be counted?
    pub fn can_count(&self) -> (r: bool)
        ensures
            r == self@.can_count(),
    {
        match &self.last_click {
            Some(last) => last.count < i64::MAX,
            None => true,
        }
    }

    fn pointer_move(&self) -> (r: MacInput)
        ensures
            r@ == self@.motion(),
    {
        let flags = flags_for_pressed(&self.held);
        let clicks = Some(self.click_count);
        if self.held.holds_button(RemotePointerButton::Left) {
            MacInput::Pointer {
                act: PointerAct::Dragged,
                button: RemotePointerButton::Left,
                clicks,
                flags,
            }
        } else if self.held.holds_button(RemotePointerButton::Right) {
            MacInput::Pointer {
                act: PointerAct::Dragged,
                button: RemotePointerButton::Right,
                clicks,
                flags,
            }
        } else if self.held.holds_button(RemotePointerButton::Middle) {
            MacInput::Pointer {
                act: PointerAct::Dragged,
                button: RemotePointerButton::Middle,
                clicks,
                flags,
            }
        } else {
            MacInput::Pointer {
                act: PointerAct::Moved,
                button: RemotePointerButton::Left,
                clicks: None,
                flags,
            }
        }
    }

    fn pointer_button(&mut self, button: RemotePointerButton, pressed: bool, since: SinceClick) -> (r:
        MacInput)
        requires
            pressed ==> old(self)@.can_count(),
        ensures
            final(self)@ == old(self)@.clicked(button, pressed, since),
            r@ == final(self)@.button_event(button, pressed),
    {
        proof {
            use_type_invariant(&*self);
        }
        if pressed {
            let count: i64 = next_click_count(self.last_click, since, button);
            self.click_count = count;
            self.last_click = Some(LastClick { button, count });
        }
        MacInput::Pointer {
            act: if pressed {
                PointerAct::Down
            } else {
                PointerAct::Up
            },
            button,
            clicks: Some(self.click_count),
            flags: flags_for_pressed(&self.held),
        }
    }

    fn key(&mut self, scan_code: u16, extended: bool, pressed: bool) -> (r: Result<
        MacInput,
        MacRefusal,
    >)
        ensures
            match (r, scan_codes::macos_code_of(scan_code, extended)) {
                (Ok(input), Some(key_code)) => {
                    &&& final(self)@ == old(self)@.with_key(scan_code, extended, pressed)
                    &&& input@ == final(self)@.key_event(key_code, pressed)
                },
                (Err(e), None) => e == MacRefusal::UnknownKey(scan_code) && final(self)@ == old(
                    self,
                )@,
                _ => false,
            },
    {
        let key_code: u16 = match scan_codes::scan_code_to_macos(scan_code, extended) {
            Some(code) => code,
            None => {
                return Err(MacRefusal::UnknownKey(scan_code));
            },
        };
        proof {
            use_type_invariant(&*self);
        }
        let mut held = HeldInputs::new();
        std::mem::swap(&mut held, &mut self.held);
        held.key(scan_code, extended, pressed);
        self.held = held;
        Ok(MacInput::Key { key_code, pressed, flags: flags_for_pressed(&self.held) })
    }

    fn release_all(&mut self) -> (r: Vec<MacInput>)
        ensures
            final(self)@ == old(self)@.emptied(),
            exists|keys: Seq<(u16, bool)>, buttons: Seq<RemotePointerButton>|
                old(self)@.held.is_listed_by(keys, buttons) && input_views(r@) == #[trigger] old(
                    self,
                )@.emptied().releases(keys, buttons),
    {
        proof {
            use_type_invariant(&*self);
        }
        let ghost s = self@;
        let mut held = HeldInputs::new();
        std::mem::swap(&mut held, &mut self.held);
        let (keys, buttons) = held.drain();
        let flags = flags_for_pressed(&self.held);
        let ghost e = s.emptied();
        assert(self@ =~= e);
        let mut r: Vec<MacInput> = Vec::new();
        let mut i: usize = 0;
        assert forall|j: int| 0 <= j < keys@.len() implies scan_codes::macos_code_of(
            (#[trigger] keys@[j]).0,
            keys@[j].1,
        ) is Some by {
            assert(keys@.to_set().contains(keys@[j]));
        }
        while i < keys.len()
            invariant
                i <= keys@.len(),
                self@ == e,
                flags == flags_of(e.held.keys),
                r@.len() == i,
                forall|j: int|
                    0 <= j < keys@.len() ==> scan_codes::macos_code_of(
                        (#[trigger] keys@[j]).0,
                        keys@[j].1,
                    ) is Some,
                forall|j: int|
                    0 <= j < i ==> (#[trigger] r@[j])@ == e.key_event(
                        scan_codes::macos_code_of(keys@[j].0, keys@[j].1)->0,
                        false,
                    ),
            decreases keys@.len() - i,
        {
            if let Some(key_code) = scan_codes::scan_code_to_macos(keys[i].0, keys[i].1) {
                r.push(MacInput::Key { key_code, pressed: false, flags });
            }
            i += 1;
        }
        let ghost ups = r@;
        let mut k: usize = 0;
        while k < buttons.len()
            invariant
                k <= buttons@.len(),
                self@ == e,
                flags == flags_of(e.held.keys),
                ups.len() == keys@.len(),
                r@.len() == ups.len() + k,
                forall|j: int| 0 <= j < ups.len() ==> r@[j] == ups[j],
                forall|j: int|
                    0 <= j < k ==> (#[trigger] r@[ups.len() + j])@ == e.button_event(
                        buttons@[j],
                        false,
                    ),
            decreases buttons@.len() - k,
        {
            let ghost before = r@;
            r.push(
                MacInput::Pointer {
                    act: PointerAct::Up,
                    button: buttons[k],
                    clicks: Some(self.click_count),
                    flags,
                },
            );
            assert forall|j: int| 0 <= j < k + 1 implies (#[trigger] r@[ups.len() + j])@
                == e.button_event(buttons@[j], false) by {
                if j < k {
                    assert(r@[ups.len() + j] == before[ups.len() + j]);
                }
            }
            k += 1;
        }
        proof {
            let whole = e.releases(keys@, buttons@);
            assert forall|j: int| 0 <= j < whole.len() implies input_views(r@)[j] == whole[j] by {
                if j >= keys@.len() {
                    let m = j - keys@.len();
                    assert(r@[ups.len() + m]@ == e.button_event(buttons@[m], false));
                } else {
                    assert(r@[j]@ == ups[j]@);
                }
            }
            assert(input_views(r@) =~= whole);
            assert(s.held.is_listed_by(keys@, buttons@));
        }
        r
    }

    /// The events to post for an input, one after the other until one fails. Keys, and all that is
    /// released, count from now on.
    pub fn inject(&mut self, event: &RemoteInputEvent, permitted: bool, since: SinceClick) -> (r:
        Result<Vec<MacInput>, MacRefusal>)
        requires
            old(self)@.can_count(),
        ensures
            match event@.checked() {
                Err(e) => final(self)@ == old(self)@ && r is Err && r->Err_0 == MacRefusal::Invalid(
                    e,
                ),
                Ok(_) => if !permitted {
                    final(self)@ == old(self)@ && r is Err && r->Err_0 == MacRefusal::NotPermitted
                } else if event@ is ReleaseAll {
                    &&& final(self)@ == old(self)@.emptied()
                    &&& r is Ok
                    &&& exists|keys: Seq<(u16, bool)>, buttons: Seq<RemotePointerButton>|
                        old(self)@.held.is_listed_by(keys, buttons) && input_views(r->Ok_0@)
                            == #[trigger] old(self)@.emptied().releases(keys, buttons)
                } else {
                    let (s, outcome) = old(self)@.carried_out(event@, since);
                    &&& final(self)@ == s
                    &&& match (r, outcome) {
                        (Ok(inputs), Ok(views)) => input_views(inputs@) == views,
                        (Err(e), Err(f)) => e == f,
                        _ => false,
                    }
                },
            },
            MacInjectorView::turned_down(event@, permitted) matches Some(refusal) ==> r
                == Err::<Vec<MacInput>, MacRefusal>(refusal) && final(self)@ == old(self)@,
    {
        match event.validate() {
            Err(e) => {
                return Err(MacRefusal::Invalid(e));
            },
            Ok(_) => {},
        }
        if !permitted {
            return Err(MacRefusal::NotPermitted);
        }
        let ghost s = self@;
        let mut r: Vec<MacInput> = Vec::new();
        match event {
            RemoteInputEvent::PointerMove { x: _, y: _ } => {
                r.push(self.pointer_move());
            },
            RemoteInputEvent::PointerButton { button, pressed } => {
                let input = self.pointer_button(*button, *pressed, since);
                r.push(input);
            },
            RemoteInputEvent::Wheel { horizontal, delta } => {
                r.push(
                    MacInput::Wheel {
                        vertical: if *horizontal {
                            0
                        } else {
                            *delta
                        },
                        horizontal: if *horizontal {
                            *delta
                        } else {
                            0
                        },
                        flags: flags_for_pressed(&self.held),
                    },
                );
            },
            RemoteInputEvent::Key { scan_code, extended, pressed } => {
                match self.key(*scan_code, *extended, *pressed) {
                    Ok(input) => {
                        r.push(input);
                    },
                    Err(e) => {
                        return Err(e);
                    },
                }
            },
            RemoteInputEvent::Text { text } => {
                let flags = flags_for_pressed(&self.held);
                r.push(
                    MacInput::Text { units: injection::utf16(text.as_str()), pressed: true, flags },
                );
                r.push(
                    MacInput::Text { units: injection::utf16(text.as_str()), pressed: false, flags },
                );
            },
            RemoteInputEvent::ReleaseAll => {
                return Ok(self.release_all());
            },
        }
        assert(input_views(r@) =~= s.carried_out(event@, since).1->Ok_0);
        Ok(r)
    }

    /// The events for the input were posted.
    pub fn injected(&mut self, event: &RemoteInputEvent)
        ensures
            final(self)@ == (MacInjectorView {
                held: match event@ {
                    RemoteInputEventView::PointerButton { button, pressed } => old(
                        self,
                    )@.held.with_button(button, pressed),
                    _ => old(self)@.held,
                },
                ..old(self)@
            }),
            final(self)@ == old(self)@.posted(event@),
    {
        proof {
            use_type_invariant(&*self);
        }
        if let RemoteInputEvent::PointerButton { button, pressed } = event {
            let mut held = HeldInputs::new();
            std::mem::swap(&mut held, &mut self.held);
            held.button(*button, *pressed);
            self.held = held;
        }
    }
}

/// Whatever is carried out, only keys of a Macintosh are held down, so that each can be released.
pub proof fn only_known_keys_are_held(
    s: MacInjectorView,
    event: RemoteInputEventView,
    since: SinceClick,
)
    requires
        s.holds_known_keys(),
    ensures
        MacInjectorView::start().holds_known_keys(),
        s.carried_out(event, since).0.holds_known_keys(),
        s.emptied().holds_known_keys(),
{
}

/// A key that goes down carries its own modifier, and one that goes up no longer does.
pub proof fn a_modifier_carries_itself(s: MacInjectorView, since: SinceClick)
    ensures
        ({
            let down = RemoteInputEventView::Key { scan_code: 0x2A, extended: false, pressed: true };
            let up = RemoteInputEventView::Key { scan_code: 0x2A, extended: false, pressed: false };
            let held = s.carried_out(down, since);
            let gone = held.0.carried_out(up, since);
            &&& held.1 is Ok
            &&& held.1->Ok_0[0]->Key_flags.shift
            &&& gone.1 is Ok
            &&& gone.1->Ok_0[0]->Key_flags.shift == s.held.keys.contains((0x36, false))
        }),
{
}

/// Clicks in the same place, each soon after the last, are counted on; any other button, place or
/// pause starts anew.
pub proof fn clicks_are_counted_on(
    s: MacInjectorView,
    button: RemotePointerButton,
    first: SinceClick,
    second: SinceClick,
)
    requires
        s.can_count(),
        s.clicked(button, true, first).can_count(),
    ensures
        s.clicked(button, true, first).clicked(button, true, second).click_count == if second.nanos
            <= DOUBLE_CLICK_NANOS && second.near {
            s.clicked(button, true, first).click_count + 1
        } else {
            1
        },
        forall|other: RemotePointerButton|
            other != button ==> #[trigger] s.clicked(button, true, first).clicked(
                other,
                true,
                second,
            ).click_count == 1,
{
}

/// What is down at a Macintosh once it has taken one event, keys by their codes there.
#[verifier::ext_equal]
pub struct MacDown {
    pub keys: Set<u16>,
    pub buttons: Set<RemotePointerButton>,
}

/// A key or a button that goes down is down, and one that goes up is not; nothing else changes that.
pub open spec fn mac_taken(down: MacDown, input: MacInputView) -> MacDown {
    match input {
        MacInputView::Key { key_code, pressed: true, .. } => MacDown {
            keys: down.keys.insert(key_code),
            ..down
        },
        MacInputView::Key { key_code, pressed: false, .. } => MacDown {
            keys: down.keys.remove(key_code),
            ..down
        },
        MacInputView::Pointer { act: PointerAct::Down, button, .. } => MacDown {
            buttons: down.buttons.insert(button),
            ..down
        },
        MacInputView::Pointer { act: PointerAct::Up, button, .. } => MacDown {
            buttons: down.buttons.remove(button),
            ..down
        },
        _ => down,
    }
}

/// What a viewer does to a key or a button happens to that one at a Macintosh: there the key of the
/// scan code goes down or up, and the button does. The injector knows which keys are down.
pub proof fn a_macintosh_does_what_the_viewer_does(
    s: MacInjectorView,
    event: RemoteInputEventView,
    since: SinceClick,
    down: MacDown,
)
    requires
        event is Key || event is PointerButton,
        s.carried_out(event, since).1 is Ok,
    ensures
        ({
            let (after, r) = s.carried_out(event, since);
            let inputs = r->Ok_0;
            &&& inputs.len() == 1
            &&& match event {
                RemoteInputEventView::Key { scan_code, extended, pressed } => {
                    let code = scan_codes::macos_code_of(scan_code, extended)->0;
                    &&& mac_taken(down, inputs[0]).keys == if pressed {
                        down.keys.insert(code)
                    } else {
                        down.keys.remove(code)
                    }
                    &&& mac_taken(down, inputs[0]).buttons == down.buttons
                    &&& after.held.keys == if pressed {
                        s.held.keys.insert((scan_code, extended))
                    } else {
                        s.held.keys.remove((scan_code, extended))
                    }
                    &&& after.held.buttons == s.held.buttons
                    &&& after.last_click == s.last_click
                    &&& after.click_count == s.click_count
                },
                RemoteInputEventView::PointerButton { button, pressed } => {
                    &&& mac_taken(down, inputs[0]).buttons == if pressed {
                        down.buttons.insert(button)
                    } else {
                        down.buttons.remove(button)
                    }
                    &&& mac_taken(down, inputs[0]).keys == down.keys
                    &&& inputs[0] is Pointer
                    &&& inputs[0]->clicks == Some(after.click_count)
                    &&& after.held == s.held
                    &&& !pressed ==> after == s
                },
                _ => true,
            }
        }),
{
}

/// Keys that a Macintosh lacks are refused by their number, and nothing counts as held. Every other
/// key is carried out.
pub proof fn unknown_keys_are_refused(
    s: MacInjectorView,
    scan_code: u16,
    extended: bool,
    pressed: bool,
    since: SinceClick,
)
    ensures
        ({
            let (after, r) = s.carried_out(
                RemoteInputEventView::Key { scan_code, extended, pressed },
                since,
            );
            let known = scan_codes::macos_code_of(scan_code, extended) is Some;
            &&& !known ==> after == s && r == Err::<Seq<MacInputView>, _>(
                MacRefusal::UnknownKey(scan_code),
            )
            &&& known ==> r is Ok
        }),
{
}

/// A pointer that moves drags with the button that is down, and merely moves where none is. A wheel
/// turns by as much as it was turned, along its own axis only. A text is typed whole, down and up.
/// None of this changes what is held or how clicks are counted.
pub proof fn motion_wheel_and_text_are_carried_out(
    s: MacInjectorView,
    x: u16,
    y: u16,
    horizontal: bool,
    delta: i32,
    text: Seq<char>,
    since: SinceClick,
)
    ensures
        ({
            let (after, r) = s.carried_out(RemoteInputEventView::PointerMove { x, y }, since);
            let moved = r->Ok_0[0];
            &&& after == s
            &&& r is Ok && r->Ok_0.len() == 1
            &&& moved is Pointer
            &&& s.held.buttons == Set::<RemotePointerButton>::empty() ==> moved->act
                == PointerAct::Moved && moved->clicks is None
            &&& (exists|b: RemotePointerButton| s.held.buttons.contains(b)) ==> moved->act
                == PointerAct::Dragged && s.held.buttons.contains(moved->button) && moved->clicks
                == Some(s.click_count)
            &&& s.held.buttons.contains(RemotePointerButton::Left) ==> moved->button
                == RemotePointerButton::Left
            &&& moved->Pointer_flags == flags_of(s.held.keys)
        }),
        ({
            let (after, r) = s.carried_out(
                RemoteInputEventView::Wheel { horizontal, delta },
                since,
            );
            let turned = r->Ok_0[0];
            &&& after == s
            &&& r is Ok && r->Ok_0.len() == 1
            &&& turned is Wheel
            &&& turned->vertical + turned->horizontal == delta
            &&& horizontal ==> turned->vertical == 0
            &&& !horizontal ==> turned->horizontal == 0
            &&& turned->Wheel_flags == flags_of(s.held.keys)
        }),
        ({
            let (after, r) = s.carried_out(RemoteInputEventView::Text { text }, since);
            let units = injection::utf16_units(text);
            let flags = flags_of(s.held.keys);
            &&& after == s
            &&& r == Ok::<_, MacRefusal>(
                seq![
                    MacInputView::Text { units, pressed: true, flags },
                    MacInputView::Text { units, pressed: false, flags },
                ],
            )
        }),
{
    if exists|b: RemotePointerButton| s.held.buttons.contains(b) {
        let b = choose|b: RemotePointerButton| s.held.buttons.contains(b);
        assert(b == RemotePointerButton::Left || b == RemotePointerButton::Right || b
            == RemotePointerButton::Middle);
    }
}

/// The modifiers that an event carries are those of the keys that are down, on either side of the
/// keyboard: shift, control, alternate and command.
pub proof fn events_carry_the_modifiers_that_are_down(keys: Set<(u16, bool)>)
    ensures
        flags_of(keys).shift <==> keys.contains((0x2A, false)) || keys.contains((0x36, false)),
        flags_of(keys).control <==> keys.contains((0x1D, false)) || keys.contains((0x1D, true)),
        flags_of(keys).alternate <==> keys.contains((0x38, false)) || keys.contains((0x38, true)),
        flags_of(keys).command <==> keys.contains((0x5B, true)) || keys.contains((0x5C, true)),
{
}

/// When everything is let go each key that was held goes up at the Macintosh, and then each button;
/// nothing counts as held, and the events carry no modifiers.
pub proof fn everything_goes_up_at_a_macintosh(
    s: MacInjectorView,
    keys: Seq<(u16, bool)>,
    buttons: Seq<RemotePointerButton>,
    i: int,
)
    requires
        s.held.is_listed_by(keys, buttons),
    ensures
        ({
            let e = s.emptied();
            let ups = e.releases(keys, buttons);
            &&& e.held.keys == Set::<(u16, bool)>::empty()
            &&& e.held.buttons == Set::<RemotePointerButton>::empty()
            &&& e.last_click == s.last_click
            &&& e.click_count == s.click_count
            &&& ups.len() == keys.len() + buttons.len()
            &&& 0 <= i < keys.len() ==> ups[i] is Key && !ups[i]->Key_pressed && ups[i]->key_code
                == scan_codes::macos_code_of(keys[i].0, keys[i].1)->0
            &&& keys.len() <= i < ups.len() ==> ups[i] is Pointer && ups[i]->act == PointerAct::Up
                && ups[i]->button == buttons[i - keys.len()]
        }),
{
}

/// A click counts as one more than the last where it is with the same button, near it and within
/// half a second; else as one. Only a button that goes down is a click.
pub proof fn quick_clicks_near_each_other_count_together(
    s: MacInjectorView,
    last: LastClick,
    button: RemotePointerButton,
    since: SinceClick,
)
    requires
        s.last_click == Some(last),
        last.count < i64::MAX,
    ensures
        ({
            let after = s.clicked(button, true, since);
            let together = button == last.button && since.near && since.nanos <= 500_000_000;
            &&& after.click_count == if together {
                last.count + 1
            } else {
                1
            }
            &&& after.last_click == Some(LastClick { button, count: after.click_count })
            &&& after.held == s.held
            &&& s.clicked(button, false, since) == s
        }),
        MacInjectorView::start().clicked(button, true, since).click_count == 1,
{
}

/// Nothing is carried out that is not valid, or without the permission of the system; anything else
/// is not turned down.
pub proof fn input_needs_permission(event: RemoteInputEventView, permitted: bool)
    ensures
        MacInjectorView::turned_down(event, permitted) is None <==> event.checked() is Ok && permitted,
        event.checked() is Ok && !permitted ==> MacInjectorView::turned_down(event, permitted) == Some(
            MacRefusal::NotPermitted,
        ),
        event.checked() matches Err(e) ==> MacInjectorView::turned_down(event, permitted) == Some(
            MacRefusal::Invalid(e),
        ),
{
}

/// The injector knows what is held down once the events were posted: a key or a button that went down
/// and did not go up, and nothing else.
pub proof fn the_injector_knows_what_is_held_down(
    s: MacInjectorView,
    event: RemoteInputEventView,
    since: SinceClick,
    key: (u16, bool),
    button: RemotePointerButton,
)
    requires
        !(event is ReleaseAll),
        s.carried_out(event, since).1 is Ok,
    ensures
        ({
            let after = s.carried_out(event, since).0.posted(event);
            &&& after.held.keys.contains(key) == match event {
                RemoteInputEventView::Key { scan_code, extended, pressed } => if key == (
                    scan_code,
                    extended,
                ) {
                    pressed
                } else {
                    s.held.keys.contains(key)
                },
                _ => s.held.keys.contains(key),
            }
            &&& after.held.buttons.contains(button) == match event {
                RemoteInputEventView::PointerButton { button: b, pressed } => if button == b {
                    pressed
                } else {
                    s.held.buttons.contains(button)
                },
                _ => s.held.buttons.contains(button),
            }
        }),
{
}

}
