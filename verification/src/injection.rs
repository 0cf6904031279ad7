//! Carrying out a viewer's input: what is handed to Windows and to a Macintosh, and which keys and
//! buttons are held down meanwhile.
use crate::remote_desktop::{RemoteInputEvent, RemoteInputEventView, RemotePointerButton};
use crate::screen::{Bounds, VirtualScreen};
use crate::{remote_desktop, screen, text};
use vstd::prelude::*;

verus! {

/// The UTF-16 units of a character.
pub open spec fn char_units(c: char) -> Seq<u16> {
    let n = c as int;
    if n < 0x10000 {
        seq![n as u16]
    } else {
        seq![(0xd800 + (n - 0x10000) / 0x400) as u16, (0xdc00 + (n - 0x10000) % 0x400) as u16]
    }
}

/// The UTF-16 units of a text.
pub open spec fn utf16_units(s: Seq<char>) -> Seq<u16>
    decreases s.len(),
{
    if s.len() == 0 {
        Seq::empty()
    } else {
        utf16_units(s.drop_last()) + char_units(s.last())
    }
}

/// The UTF-16 units of a text.
pub fn utf16(s: &str) -> (r: Vec<u16>)
    ensures
        r@ == utf16_units(s@),
{
    let chars = text::chars_of(s);
    let mut r: Vec<u16> = Vec::new();
    let mut i: usize = 0;
    assert(s@.take(0) =~= Seq::<char>::empty());
    while i < chars.len()
        invariant
            chars@ == s@,
            i <= chars@.len(),
            r@ == utf16_units(s@.take(i as int)),
        decreases chars@.len() - i,
    {
        let n: u32 = text::code_point(chars[i]);
        assert(s@.take(i + 1).drop_last() =~= s@.take(i as int));
        if n < 0x10000 {
            r.push(n as u16);
        } else {
            let high: u32 = 0xd800 + (n - 0x10000) / 0x400;
            let low: u32 = 0xdc00 + (n - 0x10000) % 0x400;
            r.push(high as u16);
            r.push(low as u16);
        }
        assert(r@ =~= utf16_units(s@.take(i + 1)));
        i += 1;
    }
    assert(s@.take(i as int) =~= s@);
    r
}

/// A hexadecimal number without zeros in front.
pub open spec fn hex_number(n: nat) -> Seq<char>
    decreases n,
{
    if n < 16 {
        seq![text::hex_char(n)]
    } else {
        hex_number(n / 16).push(text::hex_char(n % 16))
    }
}

pub fn hexadecimal(n: u16) -> (r: String)
    ensures
        r@ == hex_number(n as nat),
    decreases n,
{
    if n < 16 {
        let mut r = String::new();
        r.push(text::hex_digit(n as u8));
        assert(r@ =~= hex_number(n as nat));
        r
    } else {
        let mut r = hexadecimal(n / 16);
        r.push(text::hex_digit((n % 16) as u8));
        r
    }
}

/// The keys and buttons that are held down on a viewer's behalf, each once.
#[derive(Debug)]
pub struct HeldInputs {
    keys: Vec<(u16, bool)>,
    buttons: Vec<RemotePointerButton>,
}

#[verifier::ext_equal]
pub struct HeldInputsView {
    pub keys: Set<(u16, bool)>,
    pub buttons: Set<RemotePointerButton>,
}

impl View for HeldInputs {
    type V = HeldInputsView;

    closed spec fn view(&self) -> HeldInputsView {
        HeldInputsView { keys: self.keys@.to_set(), buttons: self.buttons@.to_set() }
    }
}

impl HeldInputsView {
    pub open spec fn nothing() -> Self {
        HeldInputsView { keys: Set::empty(), buttons: Set::empty() }
    }

    pub open spec fn with_key(self, scan_code: u16, extended: bool, pressed: bool) -> Self {
        HeldInputsView {
            keys: if pressed {
                self.keys.insert((scan_code, extended))
            } else {
                self.keys.remove((scan_code, extended))
            },
            ..self
        }
    }

    pub open spec fn with_button(self, button: RemotePointerButton, pressed: bool) -> Self {
        HeldInputsView {
            buttons: if pressed {
                self.buttons.insert(button)
            } else {
                self.buttons.remove(button)
            },
            ..self
        }
    }

    /// A list of everything that is held, each once, the keys in some order and the buttons.
    pub open spec fn is_listed_by(
        self,
        keys: Seq<(u16, bool)>,
        buttons: Seq<RemotePointerButton>,
    ) -> bool {
        &&& keys.no_duplicates()
        &&& keys.to_set() == self.keys
        &&& buttons.no_duplicates()
        &&& buttons.to_set() == self.buttons
    }
}

proof fn lemma_removed<T>(list: Seq<T>, i: int)
    requires
        list.no_duplicates(),
        0 <= i < list.len(),
    ensures
        list.remove(i).to_set() == list.to_set().remove(list[i]),
        list.remove(i).no_duplicates(),
{
    let rest = list.remove(i);
    assert forall|x: T| rest.to_set().contains(x) == list.to_set().remove(list[i]).contains(x) by {
        if rest.contains(x) {
            let j = choose|j: int| 0 <= j < rest.len() && rest[j] == x;
            let k = if j < i {
                j
            } else {
                j + 1
            };
            assert(list[k] == x);
        }
        if list.contains(x) && x != list[i] {
            let k = choose|k: int| 0 <= k < list.len() && list[k] == x;
            let j = if k < i {
                k
            } else {
                k - 1
            };
            assert(rest[j] == x);
        }
    }
    assert(rest.to_set() =~= list.to_set().remove(list[i]));
}

proof fn lemma_added<T>(list: Seq<T>, x: T)
    requires
        list.no_duplicates(),
        !list.contains(x),
    ensures
        list.push(x).to_set() == list.to_set().insert(x),
        list.push(x).no_duplicates(),
{
    let more = list.push(x);
    assert forall|y: T| more.to_set().contains(y) == list.to_set().insert(x).contains(y) by {
        if list.contains(y) {
            let j = choose|j: int| 0 <= j < list.len() && list[j] == y;
            assert(more[j] == y);
        }
        assert(more[list.len() as int] == x);
        if more.contains(y) && y != x {
            let j = choose|j: int| 0 <= j < more.len() && more[j] == y;
            assert(list[j] == y);
        }
    }
    assert(more.to_set() =~= list.to_set().insert(x));
}

impl HeldInputs {
    #[verifier::type_invariant]
    spec fn each_once(self) -> bool {
        &&& self.keys@.no_duplicates()
        &&& self.buttons@.no_duplicates()
    }

    /// Nothing is held down.
    pub fn new() -> (r: Self)
        ensures
            r@ == HeldInputsView::nothing(),
    {
        let keys: Vec<(u16, bool)> = Vec::new();
        let buttons: Vec<RemotePointerButton> = Vec::new();
        assert(keys@.to_set() =~= Set::<(u16, bool)>::empty());
        assert(buttons@.to_set() =~= Set::<RemotePointerButton>::empty());
        HeldInputs { keys, buttons }
    }

    fn find_key(&self, scan_code: u16, extended: bool) -> (r: Option<usize>)
        ensures
            match r {
                Some(i) => i < self.keys@.len() && self.keys@[i as int] == (scan_code, extended),
                None => !self.keys@.contains((scan_code, extended)),
            },
    {
        let mut i: usize = 0;
        while i < self.keys.len()
            invariant
                i <= self.keys@.len(),
                forall|j: int| 0 <= j < i ==> self.keys@[j] != (scan_code, extended),
            decreases self.keys@.len() - i,
        {
            if self.keys[i].0 == scan_code && self.keys[i].1 == extended {
                return Some(i);
            }
            i += 1;
        }
        None
    }

    fn find_button(&self, button: RemotePointerButton) -> (r: Option<usize>)
        ensures
            match r {
                Some(i) => i < self.buttons@.len() && self.buttons@[i as int] == button,
                None => !self.buttons@.contains(button),
            },
    {
        let mut i: usize = 0;
        while i < self.buttons.len()
            invariant
                i <= self.buttons@.len(),
                forall|j: int| 0 <= j < i ==> self.buttons@[j] != button,
            decreases self.buttons@.len() - i,
        {
            if self.buttons[i] == button {
                return Some(i);
            }
            i += 1;
        }
        None
    }

    /// Is the key held down?
    pub fn holds_key(&self, scan_code: u16, extended: bool) -> (r: bool)
        ensures
            r == self@.keys.contains((scan_code, extended)),
    {
        self.find_key(scan_code, extended).is_some()
    }

    /// Is the button held down?
    pub fn holds_button(&self, button: RemotePointerButton) -> (r: bool)
        ensures
            r == self@.buttons.contains(button),
    {
        self.find_button(button).is_some()
    }

    /// The key is pressed or released.
    pub fn key(&mut self, scan_code: u16, extended: bool, pressed: bool)
        ensures
            final(self)@ == old(self)@.with_key(scan_code, extended, pressed),
    {
        proof {
            use_type_invariant(&*self);
        }
        let ghost before = self.keys@;
        let ghost key = (scan_code, extended);
        match self.find_key(scan_code, extended) {
            Some(i) => {
                proof {
                    lemma_removed(before, i as int);
                    assert(before.contains(before[i as int]));
                    assert(before.to_set().insert(key) =~= before.to_set());
                }
                if !pressed {
                    let mut keys: Vec<(u16, bool)> = Vec::new();
                    std::mem::swap(&mut keys, &mut self.keys);
                    keys.remove(i);
                    self.keys = keys;
                }
            },
            None => {
                proof {
                    lemma_added(before, key);
                    assert(before.to_set().remove(key) =~= before.to_set());
                }
                if pressed {
                    let mut keys: Vec<(u16, bool)> = Vec::new();
                    std::mem::swap(&mut keys, &mut self.keys);
                    keys.push((scan_code, extended));
                    self.keys = keys;
                }
            },
        }
    }

    /// The button is pressed or released.
    pub fn button(&mut self, button: RemotePointerButton, pressed: bool)
        ensures
            final(self)@ == old(self)@.with_button(button, pressed),
    {
        proof {
            use_type_invariant(&*self);
        }
        let ghost before = self.buttons@;
        match self.find_button(button) {
            Some(i) => {
                proof {
                    lemma_removed(before, i as int);
                    assert(before.contains(before[i as int]));
                    assert(before.to_set().insert(button) =~= before.to_set());
                }
                if !pressed {
                    let mut buttons: Vec<RemotePointerButton> = Vec::new();
                    std::mem::swap(&mut buttons, &mut self.buttons);
                    buttons.remove(i);
                    self.buttons = buttons;
                }
            },
            None => {
                proof {
                    lemma_added(before, button);
                    assert(before.to_set().remove(button) =~= before.to_set());
                }
                if pressed {
                    let mut buttons: Vec<RemotePointerButton> = Vec::new();
                    std::mem::swap(&mut buttons, &mut self.buttons);
                    buttons.push(button);
                    self.buttons = buttons;
                }
            },
        }
    }

    /// Lets go of everything and lists what was held.
    pub fn drain(&mut self) -> (r: (Vec<(u16, bool)>, Vec<RemotePointerButton>))
        ensures
            old(self)@.is_listed_by(r.0@, r.1@),
            final(self)@ == HeldInputsView::nothing(),
    {
        proof {
            use_type_invariant(&*self);
        }
        let mut keys: Vec<(u16, bool)> = Vec::new();
        let mut buttons: Vec<RemotePointerButton> = Vec::new();
        std::mem::swap(&mut keys, &mut self.keys);
        std::mem::swap(&mut buttons, &mut self.buttons);
        assert(self.keys@.to_set() =~= Set::<(u16, bool)>::empty());
        assert(self.buttons@.to_set() =~= Set::<RemotePointerButton>::empty());
        (keys, buttons)
    }
}

/// One input as it is handed to Windows.
#[derive(Debug, Clone, Copy, PartialEq, Eq, Structural)]
pub enum WindowsInput {
    /// The pointer moves to a place on the whole desktop.
    Move { x: i32, y: i32 },
    Button { button: RemotePointerButton, pressed: bool },
    Wheel { horizontal: bool, delta: i32 },
    Key { scan_code: u16, extended: bool, pressed: bool },
    /// A unit of a text.
    Unicode { unit: u16, pressed: bool },
}

/// Each unit pressed and released.
pub open spec fn typed(units: Seq<u16>) -> Seq<WindowsInput> {
    Seq::new(
        2 * units.len(),
        |i: int| WindowsInput::Unicode { unit: units[i / 2], pressed: i % 2 == 0 },
    )
}

/// The inputs for an event, but for the one that releases everything. They are handed over
/// together.
pub open spec fn windows_inputs(
    event: RemoteInputEventView,
    bounds: Bounds,
    desktop: VirtualScreen,
) -> Seq<WindowsInput> {
    match event {
        RemoteInputEventView::PointerMove { x, y } => {
            seq![
                WindowsInput::Move {
                    x: screen::desktop_fraction(bounds.left, bounds.right, desktop.left, desktop.width, x) as i64 as i32,
                    y: screen::desktop_fraction(bounds.top, bounds.bottom, desktop.top, desktop.height, y) as i64 as i32,
                },
            ]
        },
        RemoteInputEventView::PointerButton { button, pressed } => {
            seq![WindowsInput::Button { button, pressed }]
        },
        RemoteInputEventView::Wheel { horizontal, delta } => {
            seq![WindowsInput::Wheel { horizontal, delta }]
        },
        RemoteInputEventView::Key { scan_code, extended, pressed } => {
            seq![WindowsInput::Key { scan_code, extended, pressed }]
        },
        RemoteInputEventView::Text { text } => typed(utf16_units(text)),
        RemoteInputEventView::ReleaseAll => Seq::empty(),
    }
}

/// The keys are released and then the buttons.
pub open spec fn windows_releases(
    keys: Seq<(u16, bool)>,
    buttons: Seq<RemotePointerButton>,
) -> Seq<WindowsInput> {
    keys.map_values(
        |k: (u16, bool)| WindowsInput::Key { scan_code: k.0, extended: k.1, pressed: false },
    ) + buttons.map_values(
        |b: RemotePointerButton| WindowsInput::Button { button: b, pressed: false },
    )
}

/// What is held down once the inputs for an event were carried out.
pub open spec fn held_after(held: HeldInputsView, event: RemoteInputEventView) -> HeldInputsView {
    match event {
        RemoteInputEventView::PointerButton { button, pressed } => held.with_button(button, pressed),
        RemoteInputEventView::Key { scan_code, extended, pressed } => held.with_key(
            scan_code,
            extended,
            pressed,
        ),
        RemoteInputEventView::ReleaseAll => HeldInputsView::nothing(),
        _ => held,
    }
}

/// The inputs for an event, but for the one that releases everything.
pub fn inputs_for(event: &RemoteInputEvent, bounds: Bounds, desktop: VirtualScreen) -> (r: Vec<
    WindowsInput,
>)
    requires
        bounds.is_measurable(),
    ensures
        r@ == windows_inputs(event@, bounds, desktop),
{
    let mut r: Vec<WindowsInput> = Vec::new();
    match event {
        RemoteInputEvent::PointerMove { x, y } => {
            let (ax, ay) = screen::absolute_pointer(bounds, desktop, *x, *y);
            r.push(WindowsInput::Move { x: ax, y: ay });
        },
        RemoteInputEvent::PointerButton { button, pressed } => {
            r.push(WindowsInput::Button { button: *button, pressed: *pressed });
        },
        RemoteInputEvent::Wheel { horizontal, delta } => {
            r.push(WindowsInput::Wheel { horizontal: *horizontal, delta: *delta });
        },
        RemoteInputEvent::Key { scan_code, extended, pressed } => {
            r.push(
                WindowsInput::Key { scan_code: *scan_code, extended: *extended, pressed: *pressed },
            );
        },
        RemoteInputEvent::Text { text } => {
            let units = utf16(text.as_str());
            let mut i: usize = 0;
            while i < units.len()
                invariant
                    i <= units@.len(),
                    r@.len() == 2 * i,
                    forall|j: int| 0 <= j < 2 * i ==> r@[j] == #[trigger] typed(units@)[j],
                decreases units@.len() - i,
            {
                r.push(WindowsInput::Unicode { unit: units[i], pressed: true });
                r.push(WindowsInput::Unicode { unit: units[i], pressed: false });
                i += 1;
            }
            assert(r@ =~= typed(units@));
        },
        RemoteInputEvent::ReleaseAll => {},
    }
    assert(r@ =~= windows_inputs(event@, bounds, desktop));
    r
}

/// Carries a viewer's input out on a display of Windows.
#[derive(Debug)]
pub struct WindowsInjector {
    bounds: Bounds,
    held: HeldInputs,
}

#[verifier::ext_equal]
pub struct WindowsInjectorView {
    pub bounds: Bounds,
    pub held: HeldInputsView,
}

impl WindowsInjectorView {
    /// The injector that is about to carry out an event, and the inputs for it, where what is held
    /// down is listed so. Everything that is held down goes up at once.
    pub open spec fn carrying_out(
        self,
        event: RemoteInputEventView,
        desktop: VirtualScreen,
        keys: Seq<(u16, bool)>,
        buttons: Seq<RemotePointerButton>,
    ) -> (Self, Seq<WindowsInput>) {
        if event is ReleaseAll {
            (
                WindowsInjectorView { held: HeldInputsView::nothing(), ..self },
                windows_releases(keys, buttons),
            )
        } else {
            (self, windows_inputs(event, self.bounds, desktop))
        }
    }

    /// The injector after the inputs for an event were carried out.
    pub open spec fn carried_out(self, event: RemoteInputEventView) -> Self {
        WindowsInjectorView {
            held: match event {
                RemoteInputEventView::ReleaseAll => self.held,
                e => held_after(self.held, e),
            },
            ..self
        }
    }
}

impl View for WindowsInjector {
    type V = WindowsInjectorView;

    closed spec fn view(&self) -> WindowsInjectorView {
        WindowsInjectorView { bounds: self.bounds, held: self.held@ }
    }
}

impl WindowsInjector {
    pub fn new(bounds: Bounds) -> (r: Self)
        ensures
            r@ == (WindowsInjectorView { bounds, held: HeldInputsView::nothing() }),
    {
        WindowsInjector { bounds, held: HeldInputs::new() }
    }

    /// The inputs to hand over for an event: all at once or, where everything is released, one
    /// after the other until one is refused. What is released counts as let go from now on.
    pub fn inject(&mut self, event: &RemoteInputEvent, desktop: VirtualScreen) -> (r: Result<
        Vec<WindowsInput>,
        remote_desktop::DesktopError,
    >)
        requires
            old(self)@.bounds.is_measurable(),
        ensures
            match (r, event@.checked()) {
                (Err(e), Err(f)) => e == f && final(self)@ == old(self)@,
                (Ok(inputs), Ok(_)) => if event@ is ReleaseAll {
                    &&& final(self)@ == (WindowsInjectorView {
                        held: HeldInputsView::nothing(),
                        ..old(self)@
                    })
                    &&& exists|keys: Seq<(u16, bool)>, buttons: Seq<RemotePointerButton>|
                        old(self)@.held.is_listed_by(keys, buttons) && inputs@ == #[trigger]
                            windows_releases(keys, buttons)
                } else {
                    &&& final(self)@ == old(self)@
                    &&& inputs@ == windows_inputs(event@, old(self)@.bounds, desktop)
                },
                _ => false,
            },
            r is Ok && event@ is ReleaseAll ==> exists|
                keys: Seq<(u16, bool)>,
                buttons: Seq<RemotePointerButton>,
            |
                old(self)@.held.is_listed_by(keys, buttons) && (final(self)@, r->Ok_0@)
                    == #[trigger] old(self)@.carrying_out(event@, desktop, keys, buttons),
            r is Ok && !(event@ is ReleaseAll) ==> forall|
                keys: Seq<(u16, bool)>,
                buttons: Seq<RemotePointerButton>,
            |
                (final(self)@, r->Ok_0@) == #[trigger] old(self)@.carrying_out(
                    event@,
                    desktop,
                    keys,
                    buttons,
                ),
    {
        match event.validate() {
            Err(e) => {
                return Err(e);
            },
            Ok(_) => {},
        }
        if let RemoteInputEvent::ReleaseAll = event {
            let (keys, buttons) = self.held.drain();
            let mut r: Vec<WindowsInput> = Vec::new();
            let mut i: usize = 0;
            while i < keys.len()
                invariant
                    i <= keys@.len(),
                    r@.len() == i,
                    forall|j: int|
                        0 <= j < i ==> r@[j] == (WindowsInput::Key {
                            scan_code: keys@[j].0,
                            extended: keys@[j].1,
                            pressed: false,
                        }),
                decreases keys@.len() - i,
            {
                r.push(
                    WindowsInput::Key { scan_code: keys[i].0, extended: keys[i].1, pressed: false },
                );
                i += 1;
            }
            let mut k: usize = 0;
            while k < buttons.len()
                invariant
                    k <= buttons@.len(),
                    r@.len() == keys@.len() + k,
                    forall|j: int|
                        0 <= j < keys@.len() ==> r@[j] == (WindowsInput::Key {
                            scan_code: keys@[j].0,
                            extended: keys@[j].1,
                            pressed: false,
                        }),
                    forall|j: int|
                        0 <= j < k ==> r@[keys@.len() + j] == (WindowsInput::Button {
                            button: buttons@[j],
                            pressed: false,
                        }),
                decreases buttons@.len() - k,
            {
                let ghost before = r@;
                r.push(WindowsInput::Button { button: buttons[k], pressed: false });
                assert forall|j: int| 0 <= j < k + 1 implies r@[keys@.len() + j] == (
                WindowsInput::Button { button: buttons@[j], pressed: false }) by {
                    if j < k {
                        assert(r@[keys@.len() + j] == before[keys@.len() + j]);
                    }
                }
                k += 1;
            }
            proof {
                let whole = windows_releases(keys@, buttons@);
                assert forall|j: int| 0 <= j < whole.len() implies r@[j] == whole[j] by {
                    if j >= keys@.len() {
                        let m = j - keys@.len();
                        assert(r@[keys@.len() + m] == (WindowsInput::Button {
                            button: buttons@[m],
                            pressed: false,
                        }));
                    }
                }
                assert(r@ =~= whole);
                assert(old(self)@.held.is_listed_by(keys@, buttons@));
                assert((self@, r@) == old(self)@.carrying_out(event@, desktop, keys@, buttons@));
            }
            return Ok(r);
        }
        Ok(inputs_for(event, self.bounds, desktop))
    }

    /// The inputs for the event were taken.
    pub fn injected(&mut self, event: &RemoteInputEvent)
        ensures
            final(self)@ == (WindowsInjectorView {
                held: match event@ {
                    RemoteInputEventView::ReleaseAll => old(self)@.held,
                    e => held_after(old(self)@.held, e),
                },
                ..old(self)@
            }),
            final(self)@ == old(self)@.carried_out(event@),
    {
        match event {
            RemoteInputEvent::PointerButton { button, pressed } => {
                self.held.button(*button, *pressed);
            },
            RemoteInputEvent::Key { scan_code, extended, pressed } => {
                self.held.key(*scan_code, *extended, *pressed);
            },
            _ => {},
        }
    }
}

/// Once everything was released, each key and each button that was held got its release.
pub proof fn everything_held_is_released(
    held: HeldInputsView,
    keys: Seq<(u16, bool)>,
    buttons: Seq<RemotePointerButton>,
    key: (u16, bool),
    button: RemotePointerButton,
)
    requires
        held.is_listed_by(keys, buttons),
    ensures
        held.keys.contains(key) == windows_releases(keys, buttons).contains(
            WindowsInput::Key { scan_code: key.0, extended: key.1, pressed: false },
        ),
        held.buttons.contains(button) == windows_releases(keys, buttons).contains(
            WindowsInput::Button { button, pressed: false },
        ),
{
    let all = windows_releases(keys, buttons);
    let k = WindowsInput::Key { scan_code: key.0, extended: key.1, pressed: false };
    let b = WindowsInput::Button { button, pressed: false };
    if held.keys.contains(key) {
        assert(keys.contains(key));
        let i = choose|i: int| 0 <= i < keys.len() && keys[i] == key;
        assert(all[i] == k);
    }
    if all.contains(k) {
        let i = choose|i: int| 0 <= i < all.len() && all[i] == k;
        assert(i < keys.len());
        assert(keys[i] == key);
        assert(keys.to_set().contains(key));
    }
    if held.buttons.contains(button) {
        assert(buttons.contains(button));
        let i = choose|i: int| 0 <= i < buttons.len() && buttons[i] == button;
        assert(all[keys.len() + i] == b);
    }
    if all.contains(b) {
        let i = choose|i: int| 0 <= i < all.len() && all[i] == b;
        assert(i >= keys.len());
        assert(buttons[i - keys.len()] == button);
        assert(buttons.to_set().contains(button));
    }
}

/// What is down at Windows once it has taken one input: a press puts a key or a button down, a
/// release lets it go, and anything else leaves them.
pub open spec fn taken(down: HeldInputsView, input: WindowsInput) -> HeldInputsView {
    match input {
        WindowsInput::Key { scan_code, extended, pressed: true } => HeldInputsView {
            keys: down.keys.insert((scan_code, extended)),
            ..down
        },
        WindowsInput::Key { scan_code, extended, pressed: false } => HeldInputsView {
            keys: down.keys.remove((scan_code, extended)),
            ..down
        },
        WindowsInput::Button { button, pressed: true } => HeldInputsView {
            buttons: down.buttons.insert(button),
            ..down
        },
        WindowsInput::Button { button, pressed: false } => HeldInputsView {
            buttons: down.buttons.remove(button),
            ..down
        },
        _ => down,
    }
}

/// What is down at Windows once it has taken these inputs one after the other.
pub open spec fn all_taken(down: HeldInputsView, inputs: Seq<WindowsInput>) -> HeldInputsView
    decreases inputs.len(),
{
    if inputs.len() == 0 {
        down
    } else {
        taken(all_taken(down, inputs.drop_last()), inputs.last())
    }
}

/// What a viewer does to a key or a button happens to that one at Windows and to no other: what is
/// pressed is down after the inputs for it, what is let go is not, and the injector knows it. The
/// rest of an event presses nothing that stays down.
pub proof fn windows_does_what_the_viewer_does(
    held: HeldInputsView,
    event: RemoteInputEventView,
    bounds: Bounds,
    desktop: VirtualScreen,
    key: (u16, bool),
    button: RemotePointerButton,
)
    requires
        !(event is ReleaseAll),
    ensures
        all_taken(held, windows_inputs(event, bounds, desktop)) == held_after(held, event),
        held_after(held, event).keys.contains(key) == match event {
            RemoteInputEventView::Key { scan_code, extended, pressed } => if key == (
                scan_code,
                extended,
            ) {
                pressed
            } else {
                held.keys.contains(key)
            },
            _ => held.keys.contains(key),
        },
        held_after(held, event).buttons.contains(button) == match event {
            RemoteInputEventView::PointerButton { button: b, pressed } => if button == b {
                pressed
            } else {
                held.buttons.contains(button)
            },
            _ => held.buttons.contains(button),
        },
        event is Key || event is PointerButton || event is Wheel || event is PointerMove
            ==> windows_inputs(event, bounds, desktop).len() == 1,
        event matches RemoteInputEventView::Wheel { horizontal, delta } ==> windows_inputs(
            event,
            bounds,
            desktop,
        )[0] == (WindowsInput::Wheel { horizontal, delta }),
        event is PointerMove ==> windows_inputs(event, bounds, desktop)[0] is Move,
{
    let inputs = windows_inputs(event, bounds, desktop);
    let after = held_after(held, event);
    match event {
        RemoteInputEventView::Text { text } => {
            lemma_typing_holds_nothing(held, utf16_units(text), inputs.len() as int);
            assert(inputs.take(inputs.len() as int) == inputs);
        },
        _ => {
            assert(inputs.len() == 1);
            assert(inputs.drop_last() =~= Seq::<WindowsInput>::empty());
            assert(all_taken(held, inputs.drop_last()) == held);
            assert(all_taken(held, inputs) =~= after);
        },
    }
}

proof fn lemma_typing_holds_nothing(held: HeldInputsView, units: Seq<u16>, n: int)
    requires
        0 <= n <= 2 * units.len(),
    ensures
        all_taken(held, typed(units).take(n)) == held,
    decreases n,
{
    if n > 0 {
        lemma_typing_holds_nothing(held, units, n - 1);
        assert(typed(units).take(n).drop_last() =~= typed(units).take(n - 1));
    }
}

/// When everything is let go nothing is down at Windows.
pub proof fn nothing_stays_down_after_a_release(
    held: HeldInputsView,
    keys: Seq<(u16, bool)>,
    buttons: Seq<RemotePointerButton>,
)
    requires
        held.is_listed_by(keys, buttons),
    ensures
        all_taken(held, windows_releases(keys, buttons)) == HeldInputsView::nothing(),
        held_after(held, RemoteInputEventView::ReleaseAll) == HeldInputsView::nothing(),
        HeldInputsView::nothing().keys == Set::<(u16, bool)>::empty(),
        HeldInputsView::nothing().buttons == Set::<RemotePointerButton>::empty(),
{
    let all = windows_releases(keys, buttons);
    lemma_released_so_far(held, keys, buttons, all.len() as int);
    assert(all.take(all.len() as int) == all);
    let after = all_taken(held, all);
    assert(after.keys =~= Set::<(u16, bool)>::empty()) by {
        assert forall|k: (u16, bool)| !after.keys.contains(k) by {
            if held.keys.contains(k) {
                assert(keys.contains(k));
                let i = keys.index_of(k);
                assert(keys[i] == k);
            }
        }
    }
    assert(after.buttons =~= Set::<RemotePointerButton>::empty()) by {
        assert forall|b: RemotePointerButton| !after.buttons.contains(b) by {
            if held.buttons.contains(b) {
                assert(buttons.contains(b));
                let i = buttons.index_of(b);
                assert(buttons[i] == b);
            }
        }
    }
    assert(after =~= HeldInputsView::nothing());
}

proof fn lemma_released_so_far(
    held: HeldInputsView,
    keys: Seq<(u16, bool)>,
    buttons: Seq<RemotePointerButton>,
    n: int,
)
    requires
        0 <= n <= windows_releases(keys, buttons).len(),
    ensures
        ({
            let after = all_taken(held, windows_releases(keys, buttons).take(n));
            &&& after.keys.subset_of(held.keys)
            &&& after.buttons.subset_of(held.buttons)
            &&& forall|i: int|
                0 <= i < n && i < keys.len() ==> !after.keys.contains(#[trigger] keys[i])
            &&& forall|i: int|
                0 <= i < buttons.len() && keys.len() + i < n ==> !after.buttons.contains(
                    #[trigger] buttons[i],
                )
        }),
    decreases n,
{
    if n > 0 {
        let all = windows_releases(keys, buttons);
        lemma_released_so_far(held, keys, buttons, n - 1);
        assert(all.take(n).drop_last() =~= all.take(n - 1));
        let last = all.take(n).last();
        if n - 1 < keys.len() {
            let k = keys[n - 1];
            assert(last == (WindowsInput::Key { scan_code: k.0, extended: k.1, pressed: false }));
        } else {
            let b = buttons[n - 1 - keys.len()];
            assert(last == (WindowsInput::Button { button: b, pressed: false }));
        }
    }
}

/// The character that one or two UTF-16 units stand for.
pub open spec fn unit_value(units: Seq<u16>) -> int {
    if units.len() == 1 {
        units[0] as int
    } else {
        0x10000 + (units[0] - 0xd800) * 0x400 + (units[1] - 0xdc00)
    }
}

/// A text is typed character by character: each character's units stand for it, the units of a text
/// are those of its characters in order, and each unit is pressed and let go before the next.
pub proof fn text_is_typed_unit_by_unit(c: char, before: Seq<char>, units: Seq<u16>, k: int)
    ensures
        unit_value(char_units(c)) == c as int,
        char_units(c).len() == if (c as int) < 0x10000 {
            1nat
        } else {
            2nat
        },
        char_units(c).len() == 2 ==> 0xd800 <= char_units(c)[0] < 0xdc00 && 0xdc00 <= char_units(
            c,
        )[1] < 0xe000,
        utf16_units(before.push(c)) == utf16_units(before) + char_units(c),
        utf16_units(Seq::<char>::empty()).len() == 0,
        typed(units).len() == 2 * units.len(),
        0 <= k < units.len() ==> typed(units)[2 * k] == (WindowsInput::Unicode {
            unit: units[k],
            pressed: true,
        }) && typed(units)[2 * k + 1] == (WindowsInput::Unicode { unit: units[k], pressed: false }),
{
    assert(before.push(c).drop_last() == before);
    let n = c as int;
    if n >= 0x10000 {
        assert(n <= 0x10ffff);
        let d = n - 0x10000;
        assert(d == d / 0x400 * 0x400 + d % 0x400);
    }
}

/// Typing a text hands over nothing but its units.
pub proof fn a_typed_text_is_its_units(text: Seq<char>, bounds: Bounds, desktop: VirtualScreen)
    ensures
        windows_inputs(RemoteInputEventView::Text { text }, bounds, desktop) == typed(
            utf16_units(text),
        ),
{
}

/// The number in hexadecimal, without zeros in front, stands for the number.
pub open spec fn hex_value(digits: Seq<char>) -> int
    decreases digits.len(),
{
    if digits.len() == 0 {
        0
    } else {
        let c = digits.last() as int;
        16 * hex_value(digits.drop_last()) + if c < 58 {
            c - 48
        } else {
            c - 87
        }
    }
}

/// What is written in hexadecimal can be read again.
pub proof fn hexadecimal_is_read_again(n: nat)
    ensures
        hex_value(hex_number(n)) == n,
        hex_number(n).len() > 0,
        n >= 16 ==> hex_number(n).len() > 1,
    decreases n,
{
    if n < 16 {
        assert(hex_number(n).drop_last() =~= Seq::<char>::empty());
        assert(hex_value(Seq::<char>::empty()) == 0);
        assert(hex_number(n).last() == text::hex_char(n));
    } else {
        hexadecimal_is_read_again(n / 16);
        assert(hex_number(n).drop_last() =~= hex_number(n / 16));
    }
}

/// The injector knows what is held down on the display: replaying the inputs for an event on what was
/// held down before gives what it holds afterwards, for every event, and the display stays the same.
pub proof fn the_injector_knows_what_is_held_down(
    s: WindowsInjectorView,
    event: RemoteInputEventView,
    desktop: VirtualScreen,
    keys: Seq<(u16, bool)>,
    buttons: Seq<RemotePointerButton>,
)
    requires
        s.held.is_listed_by(keys, buttons),
    ensures
        ({
            let (t, inputs) = s.carrying_out(event, desktop, keys, buttons);
            let after = t.carried_out(event);
            &&& all_taken(s.held, inputs) == after.held
            &&& after.bounds == s.bounds
            &&& event is ReleaseAll ==> after.held == HeldInputsView::nothing()
            &&& event is PointerMove || event is Wheel || event is Text ==> after == s
        }),
{
    if event is ReleaseAll {
        nothing_stays_down_after_a_release(s.held, keys, buttons);
    } else {
        windows_does_what_the_viewer_does(
            s.held,
            event,
            s.bounds,
            desktop,
            (0, false),
            RemotePointerButton::Left,
        );
    }
}

/// On a display that is the whole desktop the pointer goes where the viewer points: along the width
/// by the first number and along the height by the second, from one corner to the opposite one, and
/// neither number matters to the other.
pub proof fn the_pointer_goes_along_each_axis(
    bounds: Bounds,
    desktop: VirtualScreen,
    x: u16,
    y: u16,
    other: u16,
)
    requires
        bounds.is_measurable(),
        bounds.left == desktop.left && bounds.right - bounds.left == desktop.width,
        bounds.top == desktop.top && bounds.bottom - bounds.top == desktop.height,
        desktop.width > 1 && desktop.height > 1,
    ensures
        ({
            let to = |x: u16, y: u16|
                windows_inputs(RemoteInputEventView::PointerMove { x, y }, bounds, desktop);
            &&& to(x, y).len() == 1
            &&& to(x, y)[0] is Move
            &&& to(0, y)[0]->Move_x == 0
            &&& to(65535, y)[0]->Move_x == 65535
            &&& to(x, 0)[0]->Move_y == 0
            &&& to(x, 65535)[0]->Move_y == 65535
            &&& to(x, y)[0]->Move_x == to(x, other)[0]->Move_x
            &&& to(x, y)[0]->Move_y == to(other, y)[0]->Move_y
            &&& 0 <= to(x, y)[0]->Move_x <= 65535
            &&& x <= other ==> to(x, y)[0]->Move_x <= to(other, y)[0]->Move_x
        }),
{
    screen::the_pointer_goes_where_the_viewer_points(
        bounds.left,
        bounds.right,
        desktop.left,
        desktop.width,
        x,
        if x <= other {
            other
        } else {
            x
        },
    );
    screen::the_pointer_goes_where_the_viewer_points(
        bounds.top,
        bounds.bottom,
        desktop.top,
        desktop.height,
        y,
        y,
    );
}

}
