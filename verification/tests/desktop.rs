use p2p_signaling::desktop_session::{
    new_offer, offer_under, received_frame, DesktopAction, DesktopRefusal,
    RemoteDesktopRuntimeState,
};
use p2p_signaling::fit::fit_dimensions;
use p2p_signaling::remote_desktop::{
    DesktopError, RemoteDesktopConfig, RemoteDesktopControl, RemoteDesktopEvent,
    RemoteDesktopFrame, RemoteDesktopFrameHeader, RemoteDesktopOffer, RemoteDesktopPatch,
    RemoteDesktopPlatform, RemoteDesktopState, RemoteDisplay, RemoteInputEvent,
    RemotePointerButton, REMOTE_DESKTOP_STREAM_TYPE,
};

#[test]
fn validates_frame_payload_and_bounds() {
    let header = RemoteDesktopFrameHeader {
        stream_type: REMOTE_DESKTOP_STREAM_TYPE.into(),
        session_id: "desktop-1".into(),
        frame_id: 1,
        width: 640,
        height: 360,
        keyframe: true,
        patches: vec![RemoteDesktopPatch {
            x: 0,
            y: 0,
            width: 128,
            height: 128,
            encoded_len: 4,
        }],
    };
    assert_eq!(header.validate().unwrap(), 4);
    assert!(RemoteDesktopFrame {
        header: header.clone(),
        payload: vec![1, 2, 3, 4],
    }
    .validate()
    .is_ok());

    let mut invalid = header;
    invalid.patches[0].width = 641;
    assert!(invalid.validate().is_err());
}

#[test]
fn rejects_oversized_text_and_wheel() {
    assert!(RemoteInputEvent::Text {
        text: "x".repeat(65)
    }
    .validate()
    .is_err());
    assert!(RemoteInputEvent::Wheel {
        horizontal: false,
        delta: 1201,
    }
    .validate()
    .is_err());
}

#[test]
fn fits_1080p_into_720p() {
    assert_eq!(
        fit_dimensions(1920, 1080),
        RemoteDesktopConfig {
            width: 1280,
            height: 720,
            max_fps: 15,
        }
    );
}

fn by_floats(source_width: u32, source_height: u32) -> (u32, u32) {
    let scale = (1280.0_f64 / source_width as f64)
        .min(720.0_f64 / source_height as f64)
        .min(1.0);
    (
        ((source_width as f64 * scale).round() as u32).max(1),
        ((source_height as f64 * scale).round() as u32).max(1),
    )
}

#[test]
fn sizes_are_rounded_as_floats_are() {
    assert_eq!(fit_dimensions(39, 1248).width, 22);
    assert_eq!(fit_dimensions(39, 1248).height, 720);
    assert_eq!(fit_dimensions(0, 10), RemoteDesktopConfig::default());
    for (width, height) in [
        (1, 1),
        (800, 600),
        (1280, 720),
        (1281, 721),
        (3840, 2160),
        (5120, 1440),
        (1, u32::MAX),
        (u32::MAX, 1),
        (u32::MAX, u32::MAX),
        (4_294_967_291, 2_415_919_103),
        (2560, 1601),
    ] {
        let fitted = fit_dimensions(width, height);
        assert_eq!((fitted.width, fitted.height), by_floats(width, height));
        assert!(fitted.validate().is_ok());
    }
    let mut seed: u64 = 12345;
    for _ in 0..20_000 {
        seed = seed.wrapping_mul(6364136223846793005).wrapping_add(1442695040888963407);
        let width = ((seed >> 33) as u32 % 9000) + 1;
        seed = seed.wrapping_mul(6364136223846793005).wrapping_add(1442695040888963407);
        let height = ((seed >> 33) as u32 % 9000) + 1;
        let fitted = fit_dimensions(width, height);
        assert_eq!((fitted.width, fitted.height), by_floats(width, height));
    }
}

fn display() -> RemoteDisplay {
    RemoteDisplay {
        id: "0:0".into(),
        name: "Display".into(),
        width: 1920,
        height: 1080,
    }
}

fn offer(id: &str, allow_control: bool) -> RemoteDesktopOffer {
    offer_under(
        id.into(),
        display(),
        fit_dimensions(1920, 1080),
        allow_control,
        "windows",
    )
    .unwrap()
}

fn sent(actions: Vec<DesktopAction>) -> Vec<RemoteDesktopControl> {
    actions
        .into_iter()
        .filter_map(|action| match action {
            DesktopAction::Send(message) => Some(message),
            _ => None,
        })
        .collect()
}

fn hear_all(end: &mut RemoteDesktopRuntimeState, messages: Vec<RemoteDesktopControl>) -> Vec<DesktopAction> {
    let mut actions = Vec::new();
    for message in messages {
        actions.append(&mut end.handle_remote_desktop_control(message).unwrap());
    }
    actions
}

/// Two ends, the first of which shares with the second.
fn sharing(allow_control: bool) -> (RemoteDesktopRuntimeState, RemoteDesktopRuntimeState) {
    let mut host = RemoteDesktopRuntimeState::default();
    let mut guest = RemoteDesktopRuntimeState::default();
    let asked = sent(host.offer(offer("s-1", allow_control), true).unwrap());
    hear_all(&mut guest, asked);
    let answered = sent(guest.answer("s-1".into(), true, None).unwrap());
    hear_all(&mut host, answered);
    (host, guest)
}

#[test]
fn an_accepted_offer_joins_two_ends() {
    let (host, guest) = sharing(true);
    assert_eq!(
        host.state,
        RemoteDesktopState::Sharing { session_id: "s-1".into(), allow_control: true }
    );
    assert_eq!(
        guest.state,
        RemoteDesktopState::Viewing { session_id: "s-1".into(), can_control: true }
    );
    assert!(host.is_sharing("s-1"));
    assert!(guest.is_viewing("s-1"));
    assert!(!guest.is_viewing("s-2"));
}

#[test]
fn a_declined_offer_leaves_both_idle() {
    let mut host = RemoteDesktopRuntimeState::default();
    let mut guest = RemoteDesktopRuntimeState::default();
    let asked = sent(host.offer(offer("s-1", false), true).unwrap());
    hear_all(&mut guest, asked);
    let answered = sent(guest.answer("s-1".into(), false, Some("no".into())).unwrap());
    let told = hear_all(&mut host, answered);
    assert_eq!(host.state, RemoteDesktopState::Idle);
    assert_eq!(guest.state, RemoteDesktopState::Idle);
    assert!(told.iter().any(|action| matches!(
        action,
        DesktopAction::Emit(RemoteDesktopEvent::Error { message, .. }) if message == "no"
    )));
}

#[test]
fn of_crossing_offers_the_smaller_stays() {
    let mut a = RemoteDesktopRuntimeState::default();
    let mut b = RemoteDesktopRuntimeState::default();
    let from_a = sent(a.offer(offer("aaa", false), true).unwrap());
    let from_b = sent(b.offer(offer("bbb", false), true).unwrap());
    let back_b = sent(hear_all(&mut b, from_a));
    let back_a = sent(hear_all(&mut a, from_b));
    hear_all(&mut a, back_b);
    hear_all(&mut b, back_a);
    assert!(matches!(&a.state, RemoteDesktopState::OutgoingPending(o) if o.session_id == "aaa"));
    assert!(matches!(&b.state, RemoteDesktopState::IncomingPending(o) if o.session_id == "aaa"));
}

#[test]
fn input_is_carried_out_once_and_only_with_control() {
    let (mut host, guest) = sharing(true);
    let event = RemoteInputEvent::Key { scan_code: 0x1E, extended: false, pressed: true };
    let messages = sent(guest.send_input("s-1".into(), 1, event.clone()).unwrap());
    assert_eq!(hear_all(&mut host, messages.clone()).len(), 1);
    assert!(hear_all(&mut host, messages).is_empty());

    let (mut host, guest) = sharing(false);
    assert!(matches!(
        guest.send_input("s-1".into(), 1, event.clone()),
        Err(DesktopRefusal::NotAuthorized)
    ));
    let forged = vec![RemoteDesktopControl::Input {
        session_id: "s-1".into(),
        sequence: 9,
        event,
    }];
    assert!(hear_all(&mut host, forged).is_empty());
}

#[test]
fn taking_control_away_releases_the_keys() {
    let (mut host, mut guest) = sharing(true);
    let actions = host.set_permission("s-1".into(), false).unwrap();
    assert!(actions.iter().any(|action| matches!(
        action,
        DesktopAction::Emit(RemoteDesktopEvent::Input(RemoteInputEvent::ReleaseAll))
    )));
    hear_all(&mut guest, sent(actions));
    assert_eq!(
        guest.state,
        RemoteDesktopState::Viewing { session_id: "s-1".into(), can_control: false }
    );
    let ended = guest.stop("s-1".into(), "done".into()).unwrap();
    hear_all(&mut host, sent(ended));
    assert_eq!(host.state, RemoteDesktopState::Idle);
    assert_eq!(guest.state, RemoteDesktopState::Idle);
}

fn header(session_id: &str, frame_id: u64) -> RemoteDesktopFrameHeader {
    RemoteDesktopFrameHeader {
        stream_type: REMOTE_DESKTOP_STREAM_TYPE.into(),
        session_id: session_id.into(),
        frame_id,
        width: 640,
        height: 360,
        keyframe: true,
        patches: vec![RemoteDesktopPatch { x: 0, y: 0, width: 1, height: 1, encoded_len: 2 }],
    }
}

#[test]
fn frames_are_taken_in_order_and_of_the_session_only() {
    let (_, mut guest) = sharing(false);
    assert_eq!(guest.admit_frame(&header("s-1", 2)).unwrap(), Some(2));
    assert_eq!(guest.admit_frame(&header("s-1", 2)).unwrap(), None);
    assert_eq!(guest.admit_frame(&header("s-1", 1)).unwrap(), None);
    assert!(matches!(
        guest.admit_frame(&header("s-2", 3)),
        Err(DesktopRefusal::FrameOfOtherSession)
    ));
    let (frame, event) = received_frame(header("s-1", 2), vec![7, 8]).unwrap();
    assert_eq!(frame.payload, vec![7, 8]);
    assert_eq!(
        event,
        RemoteDesktopEvent::FrameAvailable { session_id: "s-1".into(), frame_id: 2 }
    );
    assert_eq!(
        received_frame(header("s-1", 2), vec![7]).unwrap_err(),
        DesktopError::PayloadLength
    );
}

#[test]
fn refusals_change_nothing() {
    let (mut host, mut guest) = sharing(true);
    assert!(matches!(
        host.offer(offer("s-2", false), true),
        Err(DesktopRefusal::AlreadyActive)
    ));
    assert!(matches!(
        guest.set_permission("s-1".into(), true),
        Err(DesktopRefusal::NotSharing)
    ));
    assert!(matches!(
        guest.answer("s-1".into(), true, None),
        Err(DesktopRefusal::NothingPending)
    ));
    assert!(host.is_sharing("s-1"));
    assert!(guest.is_viewing("s-1"));

    let mut idle = RemoteDesktopRuntimeState::default();
    assert!(matches!(
        idle.offer(offer("s-1", false), false),
        Err(DesktopRefusal::PeerUnsupported)
    ));
    let mut flat = offer("s-1", false);
    flat.display.width = 0;
    assert!(matches!(idle.offer(flat, true), Err(DesktopRefusal::OfferInvalid)));
    hear_all(&mut idle, vec![RemoteDesktopControl::Offer { offer: offer("s-3", false) }]);
    assert!(matches!(
        idle.answer("s-4".into(), true, None),
        Err(DesktopRefusal::SessionMismatch)
    ));
    assert!(matches!(
        idle.stop("s-4".into(), String::new()),
        Err(DesktopRefusal::SessionMismatch)
    ));
}

#[test]
fn keyframes_are_asked_of_the_end_that_shares() {
    let (mut host, mut guest) = sharing(false);
    let request = vec![RemoteDesktopControl::KeyframeRequest { session_id: "s-1".into() }];
    assert!(matches!(
        hear_all(&mut host, request.clone()).as_slice(),
        [DesktopAction::Emit(RemoteDesktopEvent::KeyframeRequested(id))] if id == "s-1"
    ));
    assert!(hear_all(&mut guest, request).is_empty());
    assert!(!host.tear_down().is_empty());
    assert_eq!(host.state, RemoteDesktopState::Idle);
    assert!(host.tear_down().is_empty());
}

#[test]
fn offers_get_fresh_identifiers() {
    let config = fit_dimensions(1920, 1080);
    let a = new_offer(display(), config, true, "macos").unwrap();
    let b = new_offer(display(), config, true, "macos").unwrap();
    assert_eq!(a.session_id.len(), 36);
    for (i, c) in a.session_id.chars().enumerate() {
        if [8, 13, 18, 23].contains(&i) {
            assert_eq!(c, '-');
        } else {
            assert!(c.is_ascii_digit() || ('a'..='f').contains(&c));
        }
    }
    assert_eq!(a.session_id.chars().nth(14), Some('4'));
    assert_ne!(a.session_id, b.session_id);
    assert_eq!(a.platform, RemoteDesktopPlatform::Macos);
    assert!(matches!(
        new_offer(display(), config, true, "linux"),
        Err(DesktopRefusal::PlatformUnsupported)
    ));
    let wide = RemoteDesktopConfig { width: 1281, height: 720, max_fps: 15 };
    assert!(matches!(
        new_offer(display(), wide, true, "windows"),
        Err(DesktopRefusal::Invalid(DesktopError::Size { width: 1281, height: 720 }))
    ));
}

#[test]
fn errors_have_their_words() {
    assert_eq!(
        DesktopError::Size { width: 1281, height: 720 }.message(),
        "远程桌面尺寸无效：1281x720"
    );
    assert_eq!(DesktopError::Rate { max_fps: 16 }.message(), "远程桌面帧率无效：16");
    let fast = RemoteDesktopConfig { width: 1, height: 1, max_fps: 16 };
    assert_eq!(fast.validate(), Err(DesktopError::Rate { max_fps: 16 }));
    let mut bad = header("s-1", 1);
    bad.stream_type = "file".into();
    assert_eq!(bad.validate(), Err(DesktopError::StreamType));
    let mut bad = header("", 1);
    assert_eq!(bad.validate(), Err(DesktopError::EmptySessionId));
    bad = header("s-1", 1);
    bad.patches = vec![bad.patches[0]; 61];
    assert_eq!(bad.validate(), Err(DesktopError::PatchCount));
    bad.patches = vec![RemoteDesktopPatch { x: 640, y: 0, width: 1, height: 1, encoded_len: 1 }];
    assert_eq!(bad.validate(), Err(DesktopError::PatchBounds));
    bad.patches =
        vec![RemoteDesktopPatch { x: 0, y: 0, width: 1, height: 1, encoded_len: 8_388_609 }];
    assert_eq!(bad.validate(), Err(DesktopError::FrameLength));
    assert_eq!(DesktopRefusal::NotAuthorized.message(), "远程控制未获授权");
    assert!(RemoteInputEvent::PointerButton { button: RemotePointerButton::Left, pressed: true }
        .validate()
        .is_ok());
}
