use p2p_signaling::capture::CaptureEvent;
use p2p_signaling::chat::{ChatAuthor, ChatModel, InjectorPurpose, MainView, UiAction};
use p2p_signaling::chat_canvas::{ButtonChange, CanvasEvent, CanvasInput};
use p2p_signaling::chat_commands::direct_command;
use p2p_signaling::chat_view::{
    author_label, display_label, pending_offer_row_text, transfer_row_actions, transfer_row_text,
    DesktopPage, RowAction,
};
use p2p_signaling::candidates::{connect_info, Candidate, CandidateKind, SocketAddress};
use p2p_signaling::connection::ConnectionState;
use p2p_signaling::desktop_session::{offer_under, DesktopRefusal};
use p2p_signaling::direct::DirectLinkInfo;
use p2p_signaling::fit::fit_dimensions;
use p2p_signaling::frames::{FrameEncoder, RawFrame};
use p2p_signaling::remote_desktop::{
    RemoteDesktopEvent, RemoteDesktopOffer, RemoteDesktopState, RemoteDisplay, RemoteInputEvent,
    RemotePointerButton,
};
use p2p_signaling::scan_codes::{Key, Modifiers};
use p2p_signaling::session::{DirectCommand, FileTransferProgress, SessionEvent, SessionRole};
use p2p_signaling::settings::{ClientConfig, RoleChoice};
use p2p_signaling::signaling::SignalingRole;
use p2p_signaling::transfer::{FileMetadata, TransferDirection, TransferStatus};

fn config(role: RoleChoice, room: &str, test_message: Option<&str>) -> ClientConfig {
    ClientConfig {
        server: "example.com".into(),
        room: room.into(),
        role,
        server_explicit: true,
        test_message: test_message.map(|m| m.into()),
    }
}

fn display() -> RemoteDisplay {
    RemoteDisplay { id: "0:0".into(), name: "D".into(), width: 1920, height: 1080 }
}

fn fresh() -> ChatModel {
    let (model, actions) =
        ChatModel::new(config(RoleChoice::Host, "", None), None, vec![display()]);
    assert!(actions.is_empty());
    model
}

/// A model with a session.
fn connected() -> ChatModel {
    let mut model = fresh();
    model.create_room();
    model.session_started(SessionRole::Host);
    model
}

fn link_info() -> DirectLinkInfo {
    DirectLinkInfo {
        remote_addr: SocketAddress::V4 { octets: [1, 2, 3, 4], port: 5 },
        local_role: SignalingRole::Host,
        peer_remote_desktop: true,
    }
}

/// A model with a direct link.
fn linked() -> ChatModel {
    let mut model = connected();
    model.session_event(
        SessionEvent::DirectLinkEstablished(link_info()),
        &vec!["1.2.3.4:5".into()],
    );
    model
}

fn last_words(model: &ChatModel) -> &str {
    model.messages.last().map(|line| line.text.as_str()).unwrap_or("")
}

#[test]
fn a_room_is_created_and_joined() {
    let mut model = fresh();
    assert_eq!(model.status, "未连接");
    assert_eq!(model.room_label(), "----");
    let actions = model.create_room();
    assert!(matches!(
        actions.as_slice(),
        [
            UiAction::DropEvents,
            UiAction::SaveServer(server),
            UiAction::StartSession { role: SessionRole::Host, url }
        ] if server == "example.com" && url == "wss://example.com/rooms/new"
    ));
    model.server_saved(Ok(()));
    assert_eq!(model.status, "服务器地址已保存");
    model.session_started(SessionRole::Host);
    assert_eq!(model.state, ConnectionState::Connecting);
    assert_eq!(model.status, "正在创建房间");
    model.session_event(SessionEvent::Connected, &vec![]);
    assert_eq!(model.state, ConnectionState::Connected);
    model.session_event(SessionEvent::RoomCodeAssigned("1234".into()), &vec![]);
    assert_eq!(model.room_label(), "1234");
    assert_eq!(last_words(&model), "服务器已分配房间号：1234");
    model.room_copied("1234");
    assert_eq!(model.status, "已复制房间号 1234");

    model.room_input = "12".into();
    assert!(model.join_room().is_empty());
    assert_eq!(model.status, "房间号需要 4 位数字");
    model.room_input = "9 8 7 6".into();
    let actions = model.join_room();
    assert!(matches!(
        actions.as_slice(),
        [
            UiAction::CloseSession,
            UiAction::DropEvents,
            UiAction::SaveServer(_),
            UiAction::StartSession { role: SessionRole::Guest { room_code }, url }
        ] if room_code == "9876" && url == "wss://example.com/rooms/9876"
    ));
    model.session_failed("no route".into());
    assert_eq!(last_words(&model), "连接失败：no route");
    assert!(!model.has_handle);
}

#[test]
fn the_program_starts_as_it_is_told() {
    let (model, actions) =
        ChatModel::new(config(RoleChoice::Host, "1234", Some("hi")), None, vec![]);
    assert_eq!(actions.len(), 3);
    assert_eq!(model.room_input, "");
    assert!(last_words(&model).starts_with("房间号由服务器分配"));
    let (_, actions) = ChatModel::new(config(RoleChoice::Guest, "1234", None), None, vec![]);
    assert_eq!(actions.len(), 3);
    let (model, actions) = ChatModel::new(config(RoleChoice::Guest, "12", None), None, vec![]);
    assert!(actions.is_empty());
    assert_eq!(model.status, "已填入房间号，可直接加入");
    let mut blank = fresh();
    blank.server = " ".into();
    assert!(!blank.can_connect());
    assert!(blank.create_room().is_empty());
    assert_eq!(blank.status, "信令服务器地址不能为空");
    assert!(blank.save_server().is_empty());
}

#[test]
fn messages_need_a_direct_link() {
    let mut model = fresh();
    model.message_input = " hello ".into();
    assert!(model.send_message().is_empty());
    assert_eq!(last_words(&model), "请先创建或加入房间。");
    let mut model = connected();
    model.message_input = " hello ".into();
    assert!(model.send_message().is_empty());
    assert_eq!(last_words(&model), "请等待连接房间后再发送消息。");
    assert_eq!(model.message_input, " hello ");
    let mut model = linked();
    model.message_input = " hello ".into();
    assert!(matches!(
        model.send_message().as_slice(),
        [UiAction::SendText(text)] if text == "hello"
    ));
    assert_eq!(model.message_input, "");
    assert_eq!(model.messages.last().unwrap().author, ChatAuthor::Mine);
    assert!(model.send_message().is_empty());
    model.session_event(SessionEvent::MessageReceived("yo".into()), &vec![]);
    assert_eq!(model.messages.last().unwrap().author, ChatAuthor::Peer);
    assert_eq!(author_label(ChatAuthor::Peer), Some("对方"));
    assert_eq!(author_label(ChatAuthor::System), None);
    assert_eq!(
        UiAction::SendText("x".into()).failure("gone").as_deref(),
        Some("发送失败：gone")
    );
    assert_eq!(UiAction::CloseSession.failure("gone"), None);
}

#[test]
fn a_waiting_message_goes_out_once() {
    let (mut model, _) =
        ChatModel::new(config(RoleChoice::Host, "1", Some("ping")), None, vec![]);
    model.session_started(SessionRole::Host);
    assert_eq!(last_words(&model), "将在直连建立后自动发送测试消息：ping");
    let link = || SessionEvent::DirectLinkEstablished(link_info());
    let first = model.session_event(link(), &vec!["a:1".into()]);
    assert!(matches!(first.as_slice(), [UiAction::SendText(m)] if m == "ping"));
    assert!(model.session_event(link(), &vec!["a:1".into()]).is_empty());
    assert_eq!(model.status, "直连已建立：a:1");
}

#[test]
fn a_direct_link_outlives_the_server() {
    let mut model = linked();
    model.session_event(SessionEvent::SignalingClosed, &vec![]);
    assert!(model.has_handle);
    assert_eq!(model.state, ConnectionState::Direct);
    model.session_event(SessionEvent::DirectLinkLost("x".into()), &vec![]);
    assert_eq!(model.state, ConnectionState::DirectFailed);
    assert_eq!(last_words(&model), "直连已断开：x");
    assert!(model.can_retry());
    assert!(matches!(model.retry_direct().as_slice(), [UiAction::RetryDirect]));
    assert_eq!(model.state, ConnectionState::Paired);
    model.session_event(SessionEvent::SignalingClosed, &vec![]);
    assert!(!model.has_handle);
    assert_eq!(model.state, ConnectionState::Idle);
    assert!(model.retry_direct().is_empty());
}

#[test]
fn the_peer_comes_and_goes() {
    let mut model = connected();
    model.session_event(SessionEvent::PeerConnected, &vec![]);
    assert_eq!(model.state, ConnectionState::Paired);
    assert_eq!(last_words(&model), "另一客户端已加入房间。");
    let info = connect_info(
        SignalingRole::Guest,
        vec![Candidate {
            addr: SocketAddress::V4 { octets: [1, 2, 3, 4], port: 5 },
            kind: CandidateKind::Local,
        }],
        "c".into(),
        "t".into(),
        "linux",
    );
    model.session_event(
        SessionEvent::PeerCandidatesReceived(info),
        &vec!["1.2.3.4:5".into()],
    );
    assert_eq!(last_words(&model), "对端候选 [guest]：1.2.3.4:5 (local)");
    model.session_event(SessionEvent::PeerDisconnected, &vec![]);
    assert_eq!(model.state, ConnectionState::Connected);
    model.session_event(SessionEvent::DirectLinkFailed("y".into()), &vec![]);
    assert_eq!(last_words(&model), "直连建立失败：y");
    model.session_event(SessionEvent::Error("z".into()), &vec![]);
    assert_eq!(model.status, "错误：z");
    assert!(model.has_handle);
    model.notice("发送失败：q".into());
    assert_eq!(model.status, "发送失败：q");
}

fn metadata(id: &str) -> FileMetadata {
    FileMetadata {
        transfer_id: id.into(),
        file_name: format!("{id}.bin"),
        file_size: 70_000,
        chunk_size: 32_768,
        total_chunks: 3,
        modified_millis: None,
        sample_hash: "s".into(),
        file_hash: "h".into(),
    }
}

fn progress(id: &str, completed_bytes: u64, status: TransferStatus) -> FileTransferProgress {
    FileTransferProgress {
        transfer_id: id.into(),
        file_name: format!("{id}.bin"),
        direction: TransferDirection::Receive,
        status,
        completed_bytes,
        total_bytes: 70_000,
    }
}

#[test]
fn files_are_listed_once() {
    let mut model = linked();
    for id in ["a", "b", "a"] {
        model.session_event(SessionEvent::FileOffered(metadata(id)), &vec![]);
    }
    assert_eq!(model.pending_offers.len(), 2);
    assert_eq!(last_words(&model), "对方请求发送文件：a.bin (68.4 KiB)");
    assert_eq!(pending_offer_row_text(&metadata("a")), "待接收 · 68.4 KiB · 3 个分段");
    let picked = model.row_pressed("b".into(), RowAction::Accept);
    assert!(matches!(
        picked.as_slice(),
        [UiAction::PickSavePath(m)] if m.transfer_id == "b"
    ));
    assert!(model.save_path_picked(metadata("b"), None).is_empty());
    assert_eq!(model.pending_offers.len(), 2);
    assert!(matches!(
        model.save_path_picked(metadata("b"), Some("/o".into())).as_slice(),
        [UiAction::AcceptFile { transfer_id, path }] if transfer_id == "b" && path == "/o"
    ));
    assert_eq!(model.pending_offers.len(), 1);
    assert!(matches!(
        model.row_pressed("a".into(), RowAction::Reject).as_slice(),
        [UiAction::RejectFile { reason, .. }] if reason == "用户拒绝接收"
    ));
    assert!(model.row_pressed("a".into(), RowAction::Reject).is_empty());
    model.update_transfer(progress("b", 0, TransferStatus::Accepted));
    model.update_transfer(progress("b", 32_768, TransferStatus::Accepted));
    assert_eq!(model.transfers.len(), 1);
    assert_eq!(
        transfer_row_text(&model.transfers[0]),
        "接收 · 传输中 · 32.0 KiB / 68.4 KiB"
    );
    assert_eq!(
        transfer_row_actions(TransferStatus::Accepted),
        (true, Some(RowAction::Pause))
    );
    assert_eq!(transfer_row_actions(TransferStatus::Complete), (false, None));
    assert!(matches!(
        model.row_pressed("b".into(), RowAction::Cancel).as_slice(),
        [UiAction::CancelTransfer { reason, .. }] if reason == "用户取消"
    ));
    model.session_event(
        SessionEvent::FileCompleted {
            transfer_id: "b".into(),
            file_name: "b.bin".into(),
            path: Some("/o".into()),
        },
        &vec![],
    );
    assert_eq!(last_words(&model), "文件已完成：b.bin：/o");
}

#[test]
fn a_file_to_send_is_chosen() {
    let mut model = connected();
    assert!(model.choose_and_send_file().is_empty());
    let mut model = linked();
    assert!(matches!(model.choose_and_send_file().as_slice(), [UiAction::PickFile]));
    assert!(matches!(
        model.file_picked("/tmp/a.bin".into()).as_slice(),
        [UiAction::SendFile(path)] if path == "/tmp/a.bin"
    ));
    assert_eq!(last_words(&model), "准备发送文件：a.bin");
}

fn offer(allow_control: bool) -> RemoteDesktopOffer {
    offer_under(
        "s-1".into(),
        display(),
        fit_dimensions(1920, 1080),
        allow_control,
        "windows",
    )
    .unwrap()
}

fn desktop(event: RemoteDesktopEvent) -> SessionEvent {
    SessionEvent::RemoteDesktop(event)
}

#[test]
fn a_screen_is_offered_and_shared() {
    let mut model = linked();
    assert!(!model.can_share());
    assert_eq!(model.sharing_hint(true), Some("对方客户端不支持远程桌面"));
    assert_eq!(model.sharing_hint(false), Some("当前平台暂不支持共享屏幕"));
    assert!(model.start_remote_desktop_offer().is_empty());
    model.session_event(desktop(RemoteDesktopEvent::PeerAvailabilityChanged(true)), &vec![]);
    assert!(model.can_share());
    model.remote_allow_control = true;
    assert!(matches!(
        model.start_remote_desktop_offer().as_slice(),
        [UiAction::AskPermissions { control: true }]
    ));
    assert!(model.permissions_asked(Err("no".into()), Ok(())).is_empty());
    assert_eq!(last_words(&model), "无法共享屏幕：no");
    assert!(model.permissions_asked(Ok(()), Err("no".into())).is_empty());
    assert_eq!(
        last_words(&model),
        "无法授予远程控制：no；可关闭控制权限后仅共享画面。"
    );
    let asked = model.permissions_asked(Ok(()), Ok(()));
    assert!(matches!(
        asked.as_slice(),
        [UiAction::OfferDesktop { config, allow_control: true, .. }] if config.width == 1280
    ));
    assert!(matches!(
        direct_command(&asked[0], "windows"),
        Ok(Some(DirectCommand::OfferRemoteDesktop(o))) if o.session_id.len() == 36
    ));
    assert!(matches!(
        direct_command(&asked[0], "linux"),
        Err(DesktopRefusal::PlatformUnsupported)
    ));

    let started = model.session_event(desktop(RemoteDesktopEvent::SharingStarted(offer(true))), &vec![]);
    assert!(matches!(
        started.as_slice(),
        [UiAction::OpenInjector { purpose: InjectorPurpose::Capture, .. }]
    ));
    assert!(matches!(
        model.injector_opened(InjectorPurpose::Capture, Ok(())).as_slice(),
        [UiAction::StartCapture(_)]
    ));
    assert!(model.capturing && model.injecting);
    model.session_event(
        desktop(RemoteDesktopEvent::StateChanged(RemoteDesktopState::Sharing {
            session_id: "s-1".into(),
            allow_control: true,
        })),
        &vec![],
    );
    assert_eq!(model.desktop_line(), Some("正在共享本机屏幕"));
    let key = RemoteInputEvent::Key { scan_code: 1, extended: false, pressed: true };
    assert!(matches!(
        model.session_event(desktop(RemoteDesktopEvent::Input(key)), &vec![]).as_slice(),
        [UiAction::Inject(_)]
    ));
    assert!(matches!(
        model.session_event(desktop(RemoteDesktopEvent::KeyframeRequested("s-1".into())), &vec![])
            .as_slice(),
        [UiAction::ForceKeyframe]
    ));
    assert!(matches!(
        model.update_remote_control_permission(false).as_slice(),
        [UiAction::ReleaseInputs, UiAction::SetPermission { allow_control: false, .. }]
    ));
    assert!(matches!(
        model.update_remote_control_permission(true).as_slice(),
        [UiAction::OpenInjector { purpose: InjectorPurpose::Permission, .. }]
    ));
    assert!(model
        .injector_opened(InjectorPurpose::Permission, Err("no".into()))
        .is_empty());
    assert!(matches!(
        model.injector_opened(InjectorPurpose::Permission, Ok(())).as_slice(),
        [UiAction::SetPermission { allow_control: true, .. }]
    ));
    assert!(matches!(
        model.injection_failed("no".into()).as_slice(),
        [UiAction::SetPermission { allow_control: false, .. }]
    ));
    assert!(matches!(
        model.capture_event(CaptureEvent::Error("gone".into())).as_slice(),
        [UiAction::StopDesktop { reason, .. }] if reason == "屏幕采集失败"
    ));
    assert!(model.capture_event(CaptureEvent::Stopped).is_empty());
    let over = model.session_event(
        desktop(RemoteDesktopEvent::StateChanged(RemoteDesktopState::Idle)),
        &vec![],
    );
    assert!(matches!(over.as_slice(), [UiAction::StopCapture]));
    assert!(!model.capturing);
    let closed = model.disconnect();
    assert!(matches!(
        closed.as_slice(),
        [UiAction::CloseSession, UiAction::DropEvents]
    ));
    assert_eq!(model.status, "已断开");
}

/// A model that views a desktop which it may control.
fn viewing() -> ChatModel {
    let mut model = linked();
    model.session_event(desktop(RemoteDesktopEvent::IncomingOffer(offer(true))), &vec![]);
    assert!(matches!(model.remote_desktop_view(), DesktopPage::Question { .. }));
    assert!(matches!(
        model.answer_remote_desktop_offer(true).as_slice(),
        [UiAction::AnswerDesktop { accepted: true, reason: None, .. }]
    ));
    model.session_event(
        desktop(RemoteDesktopEvent::StateChanged(RemoteDesktopState::Viewing {
            session_id: "s-1".into(),
            can_control: true,
        })),
        &vec![],
    );
    model
}

#[test]
fn a_desktop_is_viewed() {
    let mut model = viewing();
    assert_eq!(model.main_view, MainView::RemoteDesktop);
    assert!(matches!(
        model.remote_desktop_view(),
        DesktopPage::Words { waiting: true, .. }
    ));
    let available = RemoteDesktopEvent::FrameAvailable { session_id: "s-1".into(), frame_id: 1 };
    assert!(matches!(
        model.session_event(desktop(available), &vec![]).as_slice(),
        [UiAction::TakeFrame(id)] if id == "s-1"
    ));
    let raw = RawFrame { width: 64, height: 32, rgba: vec![5; 64 * 32 * 4] };
    let frame = FrameEncoder::new("s-1".into()).encode(&raw).unwrap().unwrap();
    let shown = model.consume_remote_frame("s-1", frame.clone()).unwrap();
    assert_eq!(shown.rgba, raw.rgba);
    assert!(matches!(
        model.remote_desktop_view(),
        DesktopPage::Picture { width: 64, height: 32, can_control: true, hint }
            if hint == "控制已授权 · 点击画面接管键盘"
    ));
    assert!(model.consume_remote_frame("s-1", frame).is_err());
    assert!(matches!(
        model.frame_failed("s-1".into(), "old".into()).as_slice(),
        [UiAction::RequestKeyframe(id)] if id == "s-1"
    ));
    assert_eq!(last_words(&model), "远程画面需要关键帧：old");
}

const STILL: ButtonChange = ButtonChange { pressed: false, released: false };

fn canvas() -> CanvasInput {
    CanvasInput {
        clicked: false,
        escape: false,
        hovered: false,
        pointer: None,
        left: STILL,
        right: STILL,
        middle: STILL,
        scroll_y: None,
        scroll_x: None,
        modifiers: Modifiers::none(),
        events: vec![],
    }
}

fn inputs(actions: Vec<UiAction>) -> Vec<RemoteInputEvent> {
    actions
        .into_iter()
        .map(|action| match action {
            UiAction::SendInput { event, .. } => event,
            other => panic!("{other:?}"),
        })
        .collect()
}

fn key_event(scan_code: u16, pressed: bool) -> RemoteInputEvent {
    RemoteInputEvent::Key { scan_code, extended: false, pressed }
}

#[test]
fn the_pointer_is_followed() {
    let mut model = viewing();
    let input = CanvasInput {
        hovered: true,
        pointer: Some((7, 8)),
        left: ButtonChange { pressed: true, released: true },
        scroll_x: Some(-3),
        scroll_y: Some(4),
        ..canvas()
    };
    assert_eq!(
        inputs(model.handle_remote_canvas_input(&input, false)),
        [
            RemoteInputEvent::PointerMove { x: 7, y: 8 },
            RemoteInputEvent::PointerButton { button: RemotePointerButton::Left, pressed: true },
            RemoteInputEvent::PointerButton { button: RemotePointerButton::Left, pressed: false },
            RemoteInputEvent::Wheel { horizontal: false, delta: 4 },
            RemoteInputEvent::Wheel { horizontal: true, delta: -3 },
        ]
    );
    assert_eq!(model.remote_input_sequence, 5);
    let away = CanvasInput {
        pointer: Some((7, 8)),
        right: ButtonChange { pressed: true, released: true },
        scroll_y: Some(4),
        ..canvas()
    };
    assert_eq!(
        inputs(model.handle_remote_canvas_input(&away, false)),
        [RemoteInputEvent::PointerButton { button: RemotePointerButton::Right, pressed: false }]
    );
}

#[test]
fn the_keyboard_goes_over_after_a_click() {
    let mut model = viewing();
    let typing = |events: Vec<CanvasEvent>, modifiers: Modifiers| CanvasInput {
        events,
        modifiers,
        ..canvas()
    };
    let none = Modifiers::none();
    let a = |pressed: bool, repeat: bool| CanvasEvent::Key { key: Key::A, pressed, repeat };
    assert!(model
        .handle_remote_canvas_input(&typing(vec![a(true, false)], none), false)
        .is_empty());
    let click = CanvasInput { clicked: true, ..canvas() };
    assert!(model.handle_remote_canvas_input(&click, false).is_empty());
    assert!(model.remote_keyboard_captured);
    let plain = typing(
        vec![
            a(true, false),
            CanvasEvent::Text("a".into()),
            CanvasEvent::Text(String::new()),
            CanvasEvent::Key { key: Key::Enter, pressed: true, repeat: false },
            CanvasEvent::Key { key: Key::Enter, pressed: true, repeat: true },
            CanvasEvent::Key { key: Key::Escape, pressed: false, repeat: false },
            CanvasEvent::Other,
        ],
        none,
    );
    assert_eq!(
        inputs(model.handle_remote_canvas_input(&plain, false)),
        [RemoteInputEvent::Text { text: "a".into() }, key_event(0x1C, true)]
    );
    let ctrl = Modifiers { ctrl: true, command: true, ..none };
    let shortcut = typing(vec![CanvasEvent::Copy, CanvasEvent::Text("c".into())], ctrl);
    assert_eq!(
        inputs(model.handle_remote_canvas_input(&shortcut, false)),
        [key_event(0x1D, true), key_event(0x2E, true)]
    );
    assert!(model
        .handle_remote_canvas_input(&typing(vec![], ctrl), false)
        .is_empty());
    let escape = CanvasInput { escape: true, ..canvas() };
    assert_eq!(
        inputs(model.handle_remote_canvas_input(&escape, false)),
        [RemoteInputEvent::ReleaseAll]
    );
    assert!(!model.remote_keyboard_captured);
    model.handle_remote_canvas_input(&click, false);
    assert_eq!(inputs(model.choose_view(MainView::Chat)), [RemoteInputEvent::ReleaseAll]);
    assert!(model.choose_view(MainView::RemoteDesktop).is_empty());
}

#[test]
fn nothing_is_sent_without_control() {
    let mut model = viewing();
    model.session_event(
        desktop(RemoteDesktopEvent::StateChanged(RemoteDesktopState::Viewing {
            session_id: "s-1".into(),
            can_control: false,
        })),
        &vec![],
    );
    let input = CanvasInput {
        clicked: true,
        hovered: true,
        pointer: Some((1, 1)),
        left: ButtonChange { pressed: true, released: true },
        events: vec![CanvasEvent::Text("a".into())],
        ..canvas()
    };
    assert!(model.handle_remote_canvas_input(&input, false).is_empty());
    let long = UiAction::SendInput {
        session_id: "s-1".into(),
        sequence: 1,
        event: RemoteInputEvent::Text { text: "x".repeat(65) },
    };
    assert!(matches!(direct_command(&long, "windows"), Err(DesktopRefusal::Invalid(_))));
    assert!(matches!(direct_command(&UiAction::StopCapture, "windows"), Ok(None)));
    assert_eq!(display_label(&display()), "D (1920×1080)");
    assert_eq!(model.chosen_display(), "D");
    assert_eq!(model.message_hint(), "输入消息");
}
