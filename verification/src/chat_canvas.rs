//! What the pointer and the keyboard do on the picture of a desktop that is viewed.
use crate::chat::{
    action_views, joined, nothing, ChatModel, ChatModelView, UiAction, UiActionView,
};
use crate::remote_desktop::{
    RemoteDesktopPlatform, RemoteInputEvent, RemoteInputEventView, RemotePointerButton,
};
use crate::scan_codes::{Key, Modifiers};
use crate::{scan_codes, text};
use vstd::prelude::*;

verus! {

/// What the keyboard does while it goes to the desktop that is viewed.
#[derive(Debug)]
pub enum CanvasEvent {
    Copy,
    Cut,
    Paste,
    Text(String),
    Key { key: Key, pressed: bool, repeat: bool },
    Other,
}

#[verifier::ext_equal]
pub enum CanvasEventView {
    Copy,
    Cut,
    Paste,
    Text(Seq<char>),
    Key { key: Key, pressed: bool, repeat: bool },
    Other,
}

impl View for CanvasEvent {
    type V = CanvasEventView;

    open spec fn view(&self) -> CanvasEventView {
        match self {
            CanvasEvent::Copy => CanvasEventView::Copy,
            CanvasEvent::Cut => CanvasEventView::Cut,
            CanvasEvent::Paste => CanvasEventView::Paste,
            CanvasEvent::Text(a) => CanvasEventView::Text(a@),
            CanvasEvent::Key { key, pressed, repeat } => CanvasEventView::Key {
                key: *key,
                pressed: *pressed,
                repeat: *repeat,
            },
            CanvasEvent::Other => CanvasEventView::Other,
        }
    }
}

/// Whether a button of the pointer went down or up.
#[derive(Debug, Clone, Copy, PartialEq, Eq, Structural)]
pub struct ButtonChange {
    pub pressed: bool,
    pub released: bool,
}

/// What happens on the picture of the desktop that is viewed: the pointer is over it at a place in
/// fractions of 65535, the wheel has turned by so much, and the keyboard does this.
#[derive(Debug)]
pub struct CanvasInput {
    pub clicked: bool,
    pub escape: bool,
    pub hovered: bool,
    pub pointer: Option<(u16, u16)>,
    pub left: ButtonChange,
    pub right: ButtonChange,
    pub middle: ButtonChange,
    pub scroll_y: Option<i32>,
    pub scroll_x: Option<i32>,
    pub modifiers: Modifiers,
    pub events: Vec<CanvasEvent>,
}

#[verifier::ext_equal]
pub struct CanvasInputView {
    pub clicked: bool,
    pub escape: bool,
    pub hovered: bool,
    pub pointer: Option<(u16, u16)>,
    pub left: ButtonChange,
    pub right: ButtonChange,
    pub middle: ButtonChange,
    pub scroll_y: Option<i32>,
    pub scroll_x: Option<i32>,
    pub modifiers: Modifiers,
    pub events: Seq<CanvasEventView>,
}

impl View for CanvasInput {
    type V = CanvasInputView;

    open spec fn view(&self) -> CanvasInputView {
        CanvasInputView {
            clicked: self.clicked,
            escape: self.escape,
            hovered: self.hovered,
            pointer: self.pointer,
            left: self.left,
            right: self.right,
            middle: self.middle,
            scroll_y: self.scroll_y,
            scroll_x: self.scroll_x,
            modifiers: self.modifiers,
            events: self.events@.map_values(|x: CanvasEvent| x@),
        }
    }
}

/// The model and what was done so far, and then one more input.
#[verifier::opaque]
pub open spec fn steered(step: (ChatModelView, Seq<UiActionView>), event: RemoteInputEventView) -> (
    ChatModelView,
    Seq<UiActionView>,
) {
    let (s, actions) = step.0.steering(event);
    (s, step.1 + actions)
}

/// A key of the desktop that is viewed goes down or up.
pub open spec fn key_event(scan_code: u16, extended: bool, pressed: bool) -> RemoteInputEventView {
    RemoteInputEventView::Key { scan_code, extended, pressed }
}

/// The modifiers that have changed follow.
pub open spec fn follow(
    step: (ChatModelView, Seq<UiActionView>),
    changes: Seq<(bool, bool, u16, bool)>,
) -> (ChatModelView, Seq<UiActionView>)
    decreases changes.len(),
{
    if changes.len() == 0 {
        step
    } else {
        let before = follow(step, changes.drop_last());
        let (was, is, scan_code, extended) = changes.last();
        if was == is {
            before
        } else {
            steered(before, key_event(scan_code, extended, is))
        }
    }
}

/// The input that an event of the keyboard stands for. A text is written unless a modifier makes it
/// a command; a key that writes counts as a key only with such a modifier; the escape key stays
/// here, and a key that repeats itself counts once.
pub open spec fn keyboard_input(event: CanvasEventView, modifiers: Modifiers) -> Option<
    RemoteInputEventView,
> {
    match event {
        CanvasEventView::Copy => shortcut(Key::C),
        CanvasEventView::Cut => shortcut(Key::X),
        CanvasEventView::Paste => shortcut(Key::V),
        CanvasEventView::Text(text) => if text.len() > 0 && !modifiers.commands() {
            Some(RemoteInputEventView::Text { text })
        } else {
            None
        },
        CanvasEventView::Key { key, pressed, repeat } => if key == Key::Escape || (repeat
            && pressed) {
            None
        } else {
            match scan_codes::scan_code_of(key) {
                Some((scan_code, extended, printable)) => if !printable || modifiers.commands() {
                    Some(key_event(scan_code, extended, pressed))
                } else {
                    None
                },
                None => None,
            }
        },
        CanvasEventView::Other => None,
    }
}

/// The key of a shortcut goes down.
pub open spec fn shortcut(key: Key) -> Option<RemoteInputEventView> {
    match scan_codes::scan_code_of(key) {
        Some((scan_code, extended, _)) => Some(key_event(scan_code, extended, true)),
        None => None,
    }
}

/// The events of the keyboard, one after the other.
pub open spec fn typed(
    step: (ChatModelView, Seq<UiActionView>),
    events: Seq<CanvasEventView>,
    modifiers: Modifiers,
) -> (ChatModelView, Seq<UiActionView>)
    decreases events.len(),
{
    if events.len() == 0 {
        step
    } else {
        let before = typed(step, events.drop_last(), modifiers);
        match keyboard_input(events.last(), modifiers) {
            Some(event) => steered(before, event),
            None => before,
        }
    }
}

/// A button goes down, if over the picture, and up.
#[verifier::opaque]
pub open spec fn button_steps(
    step: (ChatModelView, Seq<UiActionView>),
    button: RemotePointerButton,
    change: ButtonChange,
    hovered: bool,
) -> (ChatModelView, Seq<UiActionView>) {
    let down = if change.pressed && hovered {
        steered(step, RemoteInputEventView::PointerButton { button, pressed: true })
    } else {
        step
    };
    if change.released {
        steered(down, RemoteInputEventView::PointerButton { button, pressed: false })
    } else {
        down
    }
}

/// The wheel has turned.
#[verifier::opaque]
pub open spec fn wheel_step(
    step: (ChatModelView, Seq<UiActionView>),
    horizontal: bool,
    delta: Option<i32>,
) -> (ChatModelView, Seq<UiActionView>) {
    match delta {
        Some(delta) => steered(step, RemoteInputEventView::Wheel { horizontal, delta }),
        None => step,
    }
}

impl ChatModelView {
    /// The platform of the desktop that is viewed.
    pub open spec fn viewed_platform(self) -> RemoteDesktopPlatform {
        match self.remote_offer {
            Some(offer) => offer.platform,
            None => RemoteDesktopPlatform::Windows,
        }
    }

    /// A click on the picture takes the keyboard, and the escape key gives it back.
    pub open spec fn canvas_keyboard(self, input: CanvasInputView) -> (Self, Seq<UiActionView>) {
        let s = if input.clicked {
            ChatModelView { remote_keyboard_captured: true, ..self }
        } else {
            self
        };
        if input.escape && s.remote_keyboard_captured {
            s.keyboard_released()
        } else {
            (s, Seq::empty())
        }
    }

    /// The pointer, its buttons and the wheel. A place is told once.
    pub open spec fn canvas_pointer(self, input: CanvasInputView) -> (Self, Seq<UiActionView>) {
        let start = (self, Seq::empty());
        let moved = match input.pointer {
            Some((x, y)) => if self.remote_last_pointer == Some((x, y)) {
                start
            } else {
                (ChatModelView { remote_last_pointer: Some((x, y)), ..self }).steering(
                    RemoteInputEventView::PointerMove { x, y },
                )
            },
            None => start,
        };
        let left = button_steps(moved, RemotePointerButton::Left, input.left, input.hovered);
        let right = button_steps(left, RemotePointerButton::Right, input.right, input.hovered);
        let middle = button_steps(right, RemotePointerButton::Middle, input.middle, input.hovered);
        if input.hovered {
            wheel_step(wheel_step(middle, false, input.scroll_y), true, input.scroll_x)
        } else {
            middle
        }
    }

    /// The modifiers, as far as they have changed.
    pub open spec fn modifiers_followed(self, next: Modifiers, on_macos: bool) -> (
        Self,
        Seq<UiActionView>,
    ) {
        let (s, actions) = follow(
            (self, Seq::empty()),
            scan_codes::modifier_changes(
                self.remote_modifiers,
                next,
                self.viewed_platform(),
                on_macos,
            ),
        );
        (ChatModelView { remote_modifiers: next, ..s }, actions)
    }

    /// The keyboard, while it is taken.
    pub open spec fn canvas_typing(self, input: CanvasInputView, on_macos: bool) -> (
        Self,
        Seq<UiActionView>,
    ) {
        if self.remote_keyboard_captured {
            typed(
                self.modifiers_followed(input.modifiers, on_macos),
                input.events,
                input.modifiers,
            )
        } else {
            (self, Seq::empty())
        }
    }

    /// All that happens on the picture.
    pub open spec fn canvas_input(self, input: CanvasInputView, on_macos: bool) -> (
        Self,
        Seq<UiActionView>,
    ) {
        let (s, a) = self.canvas_keyboard(input);
        let (t, b) = s.canvas_pointer(input);
        let (u, c) = t.canvas_typing(input, on_macos);
        (u, a + b + c)
    }
}

impl ChatModel {
    fn steer(&mut self, done: Vec<UiAction>, event: RemoteInputEvent) -> (r: Vec<UiAction>)
        ensures
            (final(self)@, action_views(r@)) == steered(
                (old(self)@, action_views(done@)),
                event@,
            ),
    {
        proof {
            reveal(steered);
        }
        let more = self.send_remote_input_event(event);
        joined(done, more)
    }

    fn steer_button(
        &mut self,
        done: Vec<UiAction>,
        button: RemotePointerButton,
        change: ButtonChange,
        hovered: bool,
    ) -> (r: Vec<UiAction>)
        ensures
            (final(self)@, action_views(r@)) == button_steps(
                (old(self)@, action_views(done@)),
                button,
                change,
                hovered,
            ),
    {
        proof {
            reveal(button_steps);
        }
        let mut r = done;
        if change.pressed && hovered {
            r = self.steer(r, RemoteInputEvent::PointerButton { button, pressed: true });
        }
        if change.released {
            r = self.steer(r, RemoteInputEvent::PointerButton { button, pressed: false });
        }
        r
    }

    fn steer_wheel(&mut self, done: Vec<UiAction>, horizontal: bool, delta: Option<i32>) -> (r: Vec<
        UiAction,
    >)
        ensures
            (final(self)@, action_views(r@)) == wheel_step(
                (old(self)@, action_views(done@)),
                horizontal,
                delta,
            ),
    {
        proof {
            reveal(wheel_step);
        }
        match delta {
            Some(delta) => self.steer(done, RemoteInputEvent::Wheel { horizontal, delta }),
            None => done,
        }
    }

    fn take_keyboard(&mut self, input: &CanvasInput) -> (r: Vec<UiAction>)
        ensures
            (final(self)@, action_views(r@)) == old(self)@.canvas_keyboard(input@),
    {
        if input.clicked {
            self.remote_keyboard_captured = true;
        }
        if input.escape && self.remote_keyboard_captured {
            return self.release_keyboard();
        }
        nothing()
    }

    fn point(&mut self, input: &CanvasInput) -> (r: Vec<UiAction>)
        ensures
            (final(self)@, action_views(r@)) == old(self)@.canvas_pointer(input@),
    {
        let mut r = nothing();
        if let Some((x, y)) = input.pointer {
            let told = match self.remote_last_pointer {
                Some((a, b)) => a == x && b == y,
                None => false,
            };
            if !told {
                self.remote_last_pointer = Some((x, y));
                r = self.send_remote_input_event(RemoteInputEvent::PointerMove { x, y });
            }
        }
        r = self.steer_button(r, RemotePointerButton::Left, input.left, input.hovered);
        r = self.steer_button(r, RemotePointerButton::Right, input.right, input.hovered);
        r = self.steer_button(r, RemotePointerButton::Middle, input.middle, input.hovered);
        if input.hovered {
            r = self.steer_wheel(r, false, input.scroll_y);
            r = self.steer_wheel(r, true, input.scroll_x);
        }
        r
    }

    pub fn send_remote_modifier_changes(&mut self, next: Modifiers, on_macos: bool) -> (r: Vec<
        UiAction,
    >)
        ensures
            (final(self)@, action_views(r@)) == old(self)@.modifiers_followed(next, on_macos),
    {
        let platform = match &self.remote_offer {
            Some(offer) => offer.platform,
            None => RemoteDesktopPlatform::Windows,
        };
        let changes = scan_codes::remote_modifier_changes(
            self.remote_modifiers,
            next,
            platform,
            on_macos,
        );
        let ghost start = (self@, Seq::<UiActionView>::empty());
        let mut r = nothing();
        let mut i: usize = 0;
        assert(changes@.take(0) =~= Seq::<(bool, bool, u16, bool)>::empty());
        while i < changes.len()
            invariant
                i <= changes@.len(),
                (self@, action_views(r@)) == follow(start, changes@.take(i as int)),
            decreases changes@.len() - i,
        {
            assert(changes@.take(i + 1).drop_last() =~= changes@.take(i as int));
            let (was, is, scan_code, extended) = changes[i];
            if was != is {
                r = self.steer(r, RemoteInputEvent::Key { scan_code, extended, pressed: is });
            }
            i += 1;
        }
        assert(changes@.take(i as int) =~= changes@);
        self.remote_modifiers = next;
        r
    }

    fn read_event(event: &CanvasEvent, modifiers: Modifiers) -> (r: Option<RemoteInputEvent>)
        ensures
            match (r, keyboard_input(event@, modifiers)) {
                (Some(a), Some(b)) => a@ == b,
                (None, None) => true,
                _ => false,
            },
    {
        let commands = modifiers.command || modifiers.ctrl || modifiers.alt;
        match event {
            CanvasEvent::Copy => Self::shortcut_event(Key::C),
            CanvasEvent::Cut => Self::shortcut_event(Key::X),
            CanvasEvent::Paste => Self::shortcut_event(Key::V),
            CanvasEvent::Text(text) => {
                if !text.as_str().is_empty() && !commands {
                    Some(RemoteInputEvent::Text { text: text.clone() })
                } else {
                    None
                }
            },
            CanvasEvent::Key { key, pressed, repeat } => {
                if *key == Key::Escape || (*repeat && *pressed) {
                    return None;
                }
                match scan_codes::egui_key_to_scan_code(*key) {
                    Some((scan_code, extended, printable)) => {
                        if !printable || commands {
                            Some(RemoteInputEvent::Key { scan_code, extended, pressed: *pressed })
                        } else {
                            None
                        }
                    },
                    None => None,
                }
            },
            CanvasEvent::Other => None,
        }
    }

    fn shortcut_event(key: Key) -> (r: Option<RemoteInputEvent>)
        ensures
            match (r, shortcut(key)) {
                (Some(a), Some(b)) => a@ == b,
                (None, None) => true,
                _ => false,
            },
    {
        match scan_codes::egui_key_to_scan_code(key) {
            Some((scan_code, extended, _)) => Some(
                RemoteInputEvent::Key { scan_code, extended, pressed: true },
            ),
            None => None,
        }
    }

    fn type_in(&mut self, input: &CanvasInput, on_macos: bool) -> (r: Vec<UiAction>)
        ensures
            (final(self)@, action_views(r@)) == old(self)@.canvas_typing(input@, on_macos),
    {
        if !self.remote_keyboard_captured {
            return nothing();
        }
        let mut r = self.send_remote_modifier_changes(input.modifiers, on_macos);
        let ghost start = (self@, action_views(r@));
        let ghost events = input@.events;
        let mut i: usize = 0;
        assert(events.take(0) =~= Seq::<CanvasEventView>::empty());
        while i < input.events.len()
            invariant
                i <= input.events@.len(),
                events == input@.events,
                (self@, action_views(r@)) == typed(start, events.take(i as int), input.modifiers),
            decreases input.events@.len() - i,
        {
            assert(events.take(i + 1).drop_last() =~= events.take(i as int));
            assert(events.take(i + 1).last() == input.events@[i as int]@);
            if let Some(event) = Self::read_event(&input.events[i], input.modifiers) {
                r = self.steer(r, event);
            }
            i += 1;
        }
        assert(events.take(i as int) =~= events);
        r
    }

    /// What is done for all that happens on the picture of the desktop that is viewed.
    pub fn handle_remote_canvas_input(&mut self, input: &CanvasInput, on_macos: bool) -> (r: Vec<
        UiAction,
    >)
        ensures
            (final(self)@, action_views(r@)) == old(self)@.canvas_input(input@, on_macos),
    {
        let a = self.take_keyboard(input);
        let b = self.point(input);
        let c = self.type_in(input, on_macos);
        joined(joined(a, b), c)
    }
}

/// Where the keyboard goes and who may control stay as they are, and without control nothing is
/// done.
spec fn keeps(
    step: (ChatModelView, Seq<UiActionView>),
    next: (ChatModelView, Seq<UiActionView>),
) -> bool {
    &&& next.0.remote_keyboard_captured == step.0.remote_keyboard_captured
    &&& may_steer(next.0) == may_steer(step.0)
    &&& !may_steer(step.0) ==> next.1 == step.1
}

proof fn lemma_steered(step: (ChatModelView, Seq<UiActionView>), event: RemoteInputEventView)
    ensures
        keeps(step, steered(step, event)),
{
    reveal(steered);
    assert(step.1 + Seq::<UiActionView>::empty() =~= step.1);
}

proof fn lemma_button(
    step: (ChatModelView, Seq<UiActionView>),
    button: RemotePointerButton,
    change: ButtonChange,
    hovered: bool,
)
    ensures
        keeps(step, button_steps(step, button, change, hovered)),
{
    reveal(button_steps);
    let down = RemoteInputEventView::PointerButton { button, pressed: true };
    let up = RemoteInputEventView::PointerButton { button, pressed: false };
    lemma_steered(step, down);
    lemma_steered(step, up);
    lemma_steered(steered(step, down), up);
}

proof fn lemma_wheel(
    step: (ChatModelView, Seq<UiActionView>),
    horizontal: bool,
    delta: Option<i32>,
)
    ensures
        keeps(step, wheel_step(step, horizontal, delta)),
{
    reveal(wheel_step);
    if let Some(delta) = delta {
        lemma_steered(step, RemoteInputEventView::Wheel { horizontal, delta });
    }
}

proof fn lemma_pointer(s: ChatModelView, input: CanvasInputView)
    ensures
        keeps((s, Seq::empty()), s.canvas_pointer(input)),
{
    let start = (s, Seq::<UiActionView>::empty());
    let moved = match input.pointer {
        Some((x, y)) => if s.remote_last_pointer == Some((x, y)) {
            start
        } else {
            (ChatModelView { remote_last_pointer: Some((x, y)), ..s }).steering(
                RemoteInputEventView::PointerMove { x, y },
            )
        },
        None => start,
    };
    assert(keeps(start, moved));
    let left = button_steps(moved, RemotePointerButton::Left, input.left, input.hovered);
    let right = button_steps(left, RemotePointerButton::Right, input.right, input.hovered);
    let middle = button_steps(right, RemotePointerButton::Middle, input.middle, input.hovered);
    lemma_button(moved, RemotePointerButton::Left, input.left, input.hovered);
    lemma_button(left, RemotePointerButton::Right, input.right, input.hovered);
    lemma_button(right, RemotePointerButton::Middle, input.middle, input.hovered);
    lemma_wheel(middle, false, input.scroll_y);
    lemma_wheel(wheel_step(middle, false, input.scroll_y), true, input.scroll_x);
}

proof fn lemma_follow(
    step: (ChatModelView, Seq<UiActionView>),
    changes: Seq<(bool, bool, u16, bool)>,
)
    ensures
        keeps(step, follow(step, changes)),
    decreases changes.len(),
{
    if changes.len() > 0 {
        let before = follow(step, changes.drop_last());
        let (was, is, scan_code, extended) = changes.last();
        lemma_follow(step, changes.drop_last());
        lemma_steered(before, key_event(scan_code, extended, is));
    }
}

proof fn lemma_typed(
    step: (ChatModelView, Seq<UiActionView>),
    events: Seq<CanvasEventView>,
    modifiers: Modifiers,
)
    ensures
        keeps(step, typed(step, events, modifiers)),
    decreases events.len(),
{
    if events.len() > 0 {
        lemma_typed(step, events.drop_last(), modifiers);
        if let Some(event) = keyboard_input(events.last(), modifiers) {
            lemma_steered(typed(step, events.drop_last(), modifiers), event);
        }
    }
}

/// May the desktop that is viewed be controlled from here?
pub open spec fn may_steer(s: ChatModelView) -> bool {
    s.has_handle && s.remote_state is Viewing && s.remote_state->Viewing_can_control
}

/// Without control nothing that happens on the picture is sent.
pub proof fn nothing_is_sent_without_control(
    s: ChatModelView,
    input: CanvasInputView,
    on_macos: bool,
)
    requires
        !may_steer(s),
    ensures
        s.canvas_input(input, on_macos).1.len() == 0,
{
    let (t, _) = s.canvas_keyboard(input);
    let (u, _) = t.canvas_pointer(input);
    lemma_pointer(t, input);
    lemma_follow(
        (u, Seq::empty()),
        scan_codes::modifier_changes(
            u.remote_modifiers,
            input.modifiers,
            u.viewed_platform(),
            on_macos,
        ),
    );
    lemma_typed(
        u.modifiers_followed(input.modifiers, on_macos),
        input.events,
        input.modifiers,
    );
}

/// Until the picture was clicked, and once the escape key was pressed, the keyboard stays here:
/// only what the pointer does is sent, and with the escape key the release of all that is held.
pub proof fn the_keyboard_stays_here_until_a_click(
    s: ChatModelView,
    input: CanvasInputView,
    on_macos: bool,
)
    requires
        !s.remote_keyboard_captured && !input.clicked || input.escape,
    ensures
        ({
            let (t, a) = s.canvas_keyboard(input);
            &&& !t.remote_keyboard_captured
            &&& s.canvas_input(input, on_macos).1 == a + t.canvas_pointer(input).1
            &&& may_steer(s) && (s.remote_keyboard_captured || input.clicked) ==> a.len() == 1
                && a[0] is SendInput && a[0]->SendInput_event is ReleaseAll
        }),
{
    let (t, a) = s.canvas_keyboard(input);
    let (u, b) = t.canvas_pointer(input);
    lemma_pointer(t, input);
    assert(a + b + Seq::<UiActionView>::empty() =~= a + b);
}

/// Modifiers that stay as they are send nothing.
pub proof fn steady_modifiers_send_nothing(s: ChatModelView, on_macos: bool)
    ensures
        s.modifiers_followed(s.remote_modifiers, on_macos) == (s, Seq::<UiActionView>::empty()),
{
    let changes = scan_codes::modifier_changes(
        s.remote_modifiers,
        s.remote_modifiers,
        s.viewed_platform(),
        on_macos,
    );
    lemma_follow_nothing((s, Seq::empty()), changes);
}

proof fn lemma_follow_nothing(
    step: (ChatModelView, Seq<UiActionView>),
    changes: Seq<(bool, bool, u16, bool)>,
)
    requires
        forall|i: int| 0 <= i < changes.len() ==> (#[trigger] changes[i]).0 == changes[i].1,
    ensures
        follow(step, changes) == step,
    decreases changes.len(),
{
    if changes.len() > 0 {
        assert(changes.last().0 == changes.last().1);
        lemma_follow_nothing(step, changes.drop_last());
    }
}

}
