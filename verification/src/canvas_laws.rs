//! What the pointer and the keyboard of the viewer send to the desktop that is viewed.
use crate::chat::{ChatModelView, UiActionView};
use crate::chat_canvas::{
    button_steps, follow, keyboard_input, may_steer, steered, typed, wheel_step, ButtonChange,
    CanvasEventView, CanvasInputView,
};
use crate::remote_desktop::{RemoteInputEventView, RemotePointerButton};
use crate::scan_codes::{scan_code_of, Key, Modifiers};
use vstd::prelude::*;

verus! {

/// The number after this one; the last one is used again.
pub open spec fn next_number(n: u64) -> u64 {
    if n < u64::MAX {
        (n + 1) as u64
    } else {
        n
    }
}

/// One input more is sent to the session that is watched, with the next number.
pub open spec fn sends(step: (ChatModelView, Seq<UiActionView>), event: RemoteInputEventView) -> (
    ChatModelView,
    Seq<UiActionView>,
) {
    let number = next_number(step.0.remote_input_sequence);
    (
        ChatModelView { remote_input_sequence: number, ..step.0 },
        step.1.push(
            UiActionView::SendInput {
                session_id: step.0.remote_state->Viewing_session_id,
                sequence: number,
                event,
            },
        ),
    )
}

/// These inputs are sent, one after the other.
pub open spec fn sends_all(
    step: (ChatModelView, Seq<UiActionView>),
    events: Seq<RemoteInputEventView>,
) -> (ChatModelView, Seq<UiActionView>)
    decreases events.len(),
{
    if events.len() == 0 {
        step
    } else {
        sends(sends_all(step, events.drop_last()), events.last())
    }
}

proof fn lemma_sends_all(
    step: (ChatModelView, Seq<UiActionView>),
    a: Seq<RemoteInputEventView>,
    b: Seq<RemoteInputEventView>,
)
    ensures
        sends_all(step, a + b) == sends_all(sends_all(step, a), b),
    decreases b.len(),
{
    if b.len() == 0 {
        assert(a + b =~= a);
    } else {
        assert((a + b).drop_last() =~= a + b.drop_last());
        lemma_sends_all(step, a, b.drop_last());
    }
}

proof fn lemma_may_steer(
    step: (ChatModelView, Seq<UiActionView>),
    events: Seq<RemoteInputEventView>,
)
    requires
        may_steer(step.0),
    ensures
        may_steer(sends_all(step, events).0),
    decreases events.len(),
{
    if events.len() > 0 {
        lemma_may_steer(step, events.drop_last());
    }
}

/// Nothing, or this one input.
pub open spec fn when(given: bool, event: RemoteInputEventView) -> Seq<RemoteInputEventView> {
    if given {
        seq![event]
    } else {
        Seq::empty()
    }
}

/// What a button does: it goes down over the picture only, and up anywhere.
#[verifier::opaque]
pub open spec fn of_button(button: RemotePointerButton, change: ButtonChange, hovered: bool) -> Seq<
    RemoteInputEventView,
> {
    when(
        change.pressed && hovered,
        RemoteInputEventView::PointerButton { button, pressed: true },
    ) + when(
        change.released,
        RemoteInputEventView::PointerButton { button, pressed: false },
    )
}

/// What the wheel does in one direction.
#[verifier::opaque]
pub open spec fn of_wheel(horizontal: bool, delta: Option<i32>) -> Seq<RemoteInputEventView> {
    match delta {
        Some(delta) => seq![RemoteInputEventView::Wheel { horizontal, delta }],
        None => Seq::empty(),
    }
}

/// What the pointer does on the picture: it moves to a place that is not told yet, its three
/// buttons go down and up, and over the picture its wheel turns, down the page and across it.
pub open spec fn of_pointer(last: Option<(u16, u16)>, input: CanvasInputView) -> Seq<
    RemoteInputEventView,
> {
    let wheel = if input.hovered {
        of_wheel(false, input.scroll_y) + of_wheel(true, input.scroll_x)
    } else {
        Seq::empty()
    };
    of_move(last, input.pointer) + of_button(
        RemotePointerButton::Left,
        input.left,
        input.hovered,
    ) + of_button(RemotePointerButton::Right, input.right, input.hovered) + of_button(RemotePointerButton::Middle, input.middle, input.hovered) + wheel
}

/// One input makes one message to the session that is watched.
pub proof fn one_input_is_one_message(
    step: (ChatModelView, Seq<UiActionView>),
    event: RemoteInputEventView,
)
    requires
        may_steer(step.0),
    ensures
        steered(step, event) == sends(step, event),
        step.0.steering(event) == sends((step.0, Seq::empty()), event),
        may_steer(sends(step, event).0),
{
    reveal(steered);
    assert(step.0.steering(event).1 =~= sends((step.0, Seq::empty()), event).1);
    assert(steered(step, event).1 =~= sends(step, event).1);
}

proof fn lemma_button(
    step: (ChatModelView, Seq<UiActionView>),
    button: RemotePointerButton,
    change: ButtonChange,
    hovered: bool,
)
    requires
        may_steer(step.0),
    ensures
        button_steps(step, button, change, hovered) == sends_all(
            step,
            of_button(button, change, hovered),
        ),
        may_steer(button_steps(step, button, change, hovered).0),
{
    reveal(button_steps);
    reveal(of_button);
    reveal_with_fuel(sends_all, 3);
    let down = RemoteInputEventView::PointerButton { button, pressed: true };
    let up = RemoteInputEventView::PointerButton { button, pressed: false };
    one_input_is_one_message(step, down);
    one_input_is_one_message(step, up);
    one_input_is_one_message(sends(step, down), up);
    let events = of_button(button, change, hovered);
    if change.pressed && hovered && change.released {
        assert(events =~= seq![down, up]);
        assert(events.drop_last() =~= seq![down]);
        assert(events.drop_last().drop_last() =~= Seq::empty());
    } else if events.len() > 0 {
        assert(events.drop_last() =~= Seq::empty());
    }
}

proof fn lemma_wheel(
    step: (ChatModelView, Seq<UiActionView>),
    horizontal: bool,
    delta: Option<i32>,
)
    requires
        may_steer(step.0),
    ensures
        wheel_step(step, horizontal, delta) == sends_all(step, of_wheel(horizontal, delta)),
        may_steer(wheel_step(step, horizontal, delta).0),
{
    reveal(wheel_step);
    reveal(of_wheel);
    reveal_with_fuel(sends_all, 2);
    if let Some(delta) = delta {
        let event = RemoteInputEventView::Wheel { horizontal, delta };
        one_input_is_one_message(step, event);
        assert(of_wheel(horizontal, Some(delta)).drop_last() =~= Seq::empty());
    }
}

/// The move of the pointer to a place that is not told yet.
#[verifier::opaque]
pub open spec fn of_move(last: Option<(u16, u16)>, place: Option<(u16, u16)>) -> Seq<
    RemoteInputEventView,
> {
    match place {
        Some((x, y)) => when(last != Some((x, y)), RemoteInputEventView::PointerMove { x, y }),
        None => Seq::empty(),
    }
}

/// The window that has told this place of the pointer.
pub open spec fn told(s: ChatModelView, place: Option<(u16, u16)>) -> ChatModelView {
    match place {
        Some(place) => ChatModelView { remote_last_pointer: Some(place), ..s },
        None => s,
    }
}

proof fn lemma_move(s: ChatModelView, place: Option<(u16, u16)>)
    requires
        may_steer(s),
    ensures
        ({
            let start = sends_all(
                (told(s, place), Seq::empty()),
                of_move(s.remote_last_pointer, place),
            );
            &&& may_steer(start.0)
            &&& start == match place {
                Some((x, y)) => if s.remote_last_pointer == Some((x, y)) {
                    (s, Seq::empty())
                } else {
                    (ChatModelView { remote_last_pointer: Some((x, y)), ..s }).steering(
                        RemoteInputEventView::PointerMove { x, y },
                    )
                },
                None => (s, Seq::empty()),
            }
        }),
{
    reveal_with_fuel(sends_all, 2);
    reveal(of_move);
    let events = of_move(s.remote_last_pointer, place);
    let step = (told(s, place), Seq::<UiActionView>::empty());
    if events.len() > 0 {
        one_input_is_one_message(step, events[0]);
        assert(events.drop_last() =~= Seq::empty());
    }
    lemma_may_steer(step, events);
}

/// What the pointer does on the picture is sent, each thing once and in order, and the place that
/// was told is kept.
#[verifier::rlimit(30)]
pub proof fn the_pointer_is_followed(s: ChatModelView, input: CanvasInputView)
    requires
        may_steer(s),
    ensures
        s.canvas_pointer(input) == sends_all(
            (told(s, input.pointer), Seq::empty()),
            of_pointer(s.remote_last_pointer, input),
        ),
{
    let step = (told(s, input.pointer), Seq::<UiActionView>::empty());
    let moved = of_move(s.remote_last_pointer, input.pointer);
    let start = sends_all(step, moved);
    lemma_move(s, input.pointer);
    let a = of_button(RemotePointerButton::Left, input.left, input.hovered);
    let b = of_button(RemotePointerButton::Right, input.right, input.hovered);
    let c = of_button(RemotePointerButton::Middle, input.middle, input.hovered);
    let left = button_steps(start, RemotePointerButton::Left, input.left, input.hovered);
    lemma_button(start, RemotePointerButton::Left, input.left, input.hovered);
    let right = button_steps(left, RemotePointerButton::Right, input.right, input.hovered);
    lemma_button(left, RemotePointerButton::Right, input.right, input.hovered);
    let middle = button_steps(right, RemotePointerButton::Middle, input.middle, input.hovered);
    lemma_button(right, RemotePointerButton::Middle, input.middle, input.hovered);
    lemma_sends_all(step, moved, a);
    lemma_sends_all(step, moved + a, b);
    lemma_sends_all(step, moved + a + b, c);
    if input.hovered {
        let d = of_wheel(false, input.scroll_y);
        let e = of_wheel(true, input.scroll_x);
        lemma_wheel(middle, false, input.scroll_y);
        lemma_wheel(wheel_step(middle, false, input.scroll_y), true, input.scroll_x);
        lemma_sends_all(step, moved + a + b + c, d);
        lemma_sends_all(step, moved + a + b + c + d, e);
        assert(moved + a + b + c + (d + e) =~= moved + a + b + c + d + e);
    } else {
        assert(moved + a + b + c + Seq::empty() =~= moved + a + b + c);
    }
}

/// A text is sent as it was typed, unless a modifier makes it a command; a key that writes is sent
/// as a key only then, and one that does not write always. It goes down and up as at the viewer; a
/// key that repeats itself and the escape key are not sent. The shortcuts of the clipboard are sent
/// as the keys that make them.
pub proof fn the_keyboard_is_followed(
    modifiers: Modifiers,
    text: Seq<char>,
    key: Key,
    pressed: bool,
    repeat: bool,
)
    ensures
        ({
            let commands = modifiers.command || modifiers.ctrl || modifiers.alt;
            &&& keyboard_input(CanvasEventView::Text(text), modifiers) == if text.len() > 0
                && !commands {
                Some(RemoteInputEventView::Text { text })
            } else {
                None
            }
            &&& scan_code_of(key) matches Some((scan_code, extended, writes)) ==> {
                let sent = key != Key::Escape && !(repeat && pressed) && (writes ==> commands);
                keyboard_input(CanvasEventView::Key { key, pressed, repeat }, modifiers) == if sent {
                    Some(RemoteInputEventView::Key { scan_code, extended, pressed })
                } else {
                    None
                }
            }
            &&& scan_code_of(key) is None ==> keyboard_input(
                CanvasEventView::Key { key, pressed, repeat },
                modifiers,
            ) is None
            &&& keyboard_input(CanvasEventView::Copy, modifiers) == Some(
                RemoteInputEventView::Key { scan_code: 46, extended: false, pressed: true },
            )
            &&& keyboard_input(CanvasEventView::Cut, modifiers) == Some(
                RemoteInputEventView::Key { scan_code: 45, extended: false, pressed: true },
            )
            &&& keyboard_input(CanvasEventView::Paste, modifiers) == Some(
                RemoteInputEventView::Key { scan_code: 47, extended: false, pressed: true },
            )
            &&& keyboard_input(CanvasEventView::Other, modifiers) is None
        }),
{
}

/// The events of the keyboard are sent in the order in which they come, each by itself.
pub proof fn events_are_sent_in_order(
    step: (ChatModelView, Seq<UiActionView>),
    events: Seq<CanvasEventView>,
    event: CanvasEventView,
    modifiers: Modifiers,
)
    ensures
        typed(step, Seq::empty(), modifiers) == step,
        ({
            let before = typed(step, events, modifiers);
            match keyboard_input(event, modifiers) {
                Some(input) => may_steer(before.0) ==> typed(step, events.push(event), modifiers)
                    == sends(before, input),
                None => typed(step, events.push(event), modifiers) == before,
            }
        }),
{
    assert(events.push(event).drop_last() =~= events);
    let before = typed(step, events, modifiers);
    if let Some(input) = keyboard_input(event, modifiers) {
        if may_steer(before.0) {
            one_input_is_one_message(before, input);
        }
    }
}

/// A modifier that has changed goes down or up, as it is now; one that has not is not sent.
pub proof fn changed_modifiers_are_sent(
    step: (ChatModelView, Seq<UiActionView>),
    changes: Seq<(bool, bool, u16, bool)>,
    was: bool,
    is: bool,
    scan_code: u16,
    extended: bool,
)
    ensures
        follow(step, Seq::empty()) == step,
        ({
            let before = follow(step, changes);
            let after = follow(step, changes.push((was, is, scan_code, extended)));
            &&& was == is ==> after == before
            &&& was != is && may_steer(before.0) ==> after == sends(
                before,
                RemoteInputEventView::Key { scan_code, extended, pressed: is },
            )
        }),
{
    let change = (was, is, scan_code, extended);
    assert(changes.push(change).drop_last() =~= changes);
    let before = follow(step, changes);
    if may_steer(before.0) {
        one_input_is_one_message(
            before,
            RemoteInputEventView::Key { scan_code, extended, pressed: is },
        );
    }
}

/// Shift that goes down or up at the viewer goes down or up at the desktop that is viewed, and the
/// modifiers are kept as they are.
pub proof fn shift_is_followed(s: ChatModelView, next: Modifiers, on_macos: bool)
    requires
        may_steer(s),
        next == (Modifiers { shift: next.shift, ..s.remote_modifiers }),
    ensures
        ({
            let (t, actions) = s.modifiers_followed(next, on_macos);
            let sent = sends(
                (s, Seq::empty()),
                RemoteInputEventView::Key { scan_code: 42, extended: false, pressed: next.shift },
            );
            &&& t.remote_modifiers == next
            &&& next.shift == s.remote_modifiers.shift ==> actions.len() == 0
            &&& next.shift != s.remote_modifiers.shift ==> actions == sent.1
        }),
{
    reveal_with_fuel(follow, 5);
    let changes = crate::scan_codes::modifier_changes(
        s.remote_modifiers,
        next,
        s.viewed_platform(),
        on_macos,
    );
    let step = (s, Seq::<UiActionView>::empty());
    one_input_is_one_message(
        step,
        RemoteInputEventView::Key { scan_code: 42, extended: false, pressed: next.shift },
    );
    if changes.len() == 4 {
        assert(changes.drop_last().drop_last().drop_last().drop_last() =~= Seq::empty());
    } else {
        assert(changes.drop_last().drop_last().drop_last() =~= Seq::empty());
    }
}

/// A click takes the keyboard and the escape key gives it back; while it is taken, the modifiers
/// follow first and then the events, after all that the pointer does.
pub proof fn the_keyboard_comes_after_the_pointer(
    s: ChatModelView,
    input: CanvasInputView,
    on_macos: bool,
)
    ensures
        ({
            let (t, a) = s.canvas_keyboard(input);
            let (u, b) = t.canvas_pointer(input);
            let (v, c) = typed(
                u.modifiers_followed(input.modifiers, on_macos),
                input.events,
                input.modifiers,
            );
            let (end, sent) = s.canvas_input(input, on_macos);
            let taken = s.remote_keyboard_captured || input.clicked;
            &&& t.remote_keyboard_captured == (taken && !input.escape)
            &&& !(taken && input.escape) ==> a.len() == 0 && t == (ChatModelView {
                remote_keyboard_captured: taken,
                ..s
            })
            &&& taken && input.escape ==> a == s.steering(RemoteInputEventView::ReleaseAll).1
            &&& u.remote_keyboard_captured ==> end == v && sent == a + b + c
            &&& !u.remote_keyboard_captured ==> end == u && sent == a + b
        }),
{
    let (t, a) = s.canvas_keyboard(input);
    let (u, b) = t.canvas_pointer(input);
    assert(a + b + Seq::<UiActionView>::empty() =~= a + b);
}

/// The platform of the offer that was taken is the platform whose keys are sent.
pub proof fn keys_are_those_of_the_offer(s: ChatModelView)
    ensures
        s.remote_offer matches Some(offer) ==> s.viewed_platform() == offer.platform,
{
}

}
