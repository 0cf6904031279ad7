use p2p_signaling::candidates::{connect_info, ConnectInfo, SocketAddress};
use p2p_signaling::direct::DirectLinkInfo;
use p2p_signaling::dispatch::{
    announce_failure, should_announce_peer, AnnounceStage, DispatchAction, DispatchEvent,
    DispatchState,
};
use p2p_signaling::link::{LinkAction, LinkEvent, LinkState};
use p2p_signaling::p2p_proto::{FileStreamHeader, P2pMessage};
use p2p_signaling::paths::FilePath;
use p2p_signaling::ranges::ChunkRange;
use p2p_signaling::session::{
    progress_event, signaling_role_for_session, ChatSession, DirectCommand, SessionEvent,
    SessionRole,
};
use p2p_signaling::signaling::{SignalingEnvelope, SignalingRole};
use p2p_signaling::transfer::{
    FileMetadata, TransferManifest, TransferStatus, TransferStore,
};
use p2p_signaling::transfer_session::{
    accept_manifest, empty_receiver, expected_chunk_len, TransferAction, TransferState,
};

#[test]
fn peer_announcement_only_fires_for_first_peer_event() {
    let mut peer_seen = false;

    assert!(should_announce_peer(&mut peer_seen));
    assert!(!should_announce_peer(&mut peer_seen));

    peer_seen = false;
    assert!(should_announce_peer(&mut peer_seen));
}

fn info(role: SignalingRole, token: &str) -> ConnectInfo {
    connect_info(role, vec![], "cert".into(), token.into(), "windows")
}

fn signal(info: &ConnectInfo) -> DispatchEvent {
    DispatchEvent::Signal(SignalingEnvelope::Signal { payload: Some(info.clone()) })
}

fn starts(actions: &[DispatchAction]) -> usize {
    actions
        .iter()
        .filter(|action| matches!(action, DispatchAction::StartDirectLink { .. }))
        .count()
}

#[test]
fn a_link_starts_once_both_ends_are_known() {
    let mut host = DispatchState::new(SignalingRole::Host);
    let joined = host.step(DispatchEvent::Signal(SignalingEnvelope::PeerJoined {
        role: SignalingRole::Guest,
    }));
    assert!(matches!(
        joined.as_slice(),
        [DispatchAction::Emit(SessionEvent::PeerConnected), DispatchAction::Announce]
    ));
    let peer = info(SignalingRole::Guest, "t1");
    assert_eq!(starts(&host.step(signal(&peer))), 0);
    assert_eq!(starts(&host.step(DispatchEvent::LocalReady)), 1);
    assert_eq!(starts(&host.step(DispatchEvent::LocalReady)), 0);
    assert_eq!(starts(&host.step(signal(&peer))), 0);

    let again = host.step(signal(&info(SignalingRole::Guest, "t2")));
    assert!(again.iter().any(|a| matches!(a, DispatchAction::ForgetLocal)));
    assert!(again.iter().any(|a| matches!(a, DispatchAction::Announce)));
    assert_eq!(starts(&host.step(DispatchEvent::LocalReady)), 1);

    let left = host.step(DispatchEvent::Signal(SignalingEnvelope::PeerLeft {
        role: SignalingRole::Guest,
    }));
    assert!(matches!(
        left.as_slice(),
        [DispatchAction::ForgetLocal, DispatchAction::Emit(SessionEvent::PeerDisconnected)]
    ));
    assert!(matches!(
        host.step(DispatchEvent::SignalingGone).as_slice(),
        [DispatchAction::Stop, DispatchAction::Emit(SessionEvent::SignalingClosed)]
    ));
    assert!(host.step(DispatchEvent::Unreadable).is_empty());
    assert!(matches!(
        host.step(DispatchEvent::Retry).as_slice(),
        [DispatchAction::ForgetLocal, DispatchAction::Announce]
    ));
}

#[test]
fn a_guest_announces_itself_when_the_room_is_ready() {
    let mut guest = DispatchState::new(SignalingRole::Guest);
    let ready = guest.step(DispatchEvent::Signal(SignalingEnvelope::RoomReady {
        room_code: Some("1234".into()),
    }));
    assert!(matches!(
        ready.as_slice(),
        [
            DispatchAction::Emit(SessionEvent::RoomCodeAssigned(code)),
            DispatchAction::Emit(SessionEvent::Connected),
            DispatchAction::Announce
        ] if code == "1234"
    ));
    let mut host = DispatchState::new(SignalingRole::Host);
    let ready = host.step(DispatchEvent::Signal(SignalingEnvelope::RoomReady { room_code: None }));
    assert!(matches!(
        ready.as_slice(),
        [DispatchAction::Emit(SessionEvent::Connected)]
    ));
    assert!(matches!(
        announce_failure(AnnounceStage::Collect, "x"),
        SessionEvent::Error(words) if words.ends_with('x')
    ));
}

#[test]
fn a_session_greets_with_its_role() {
    let guest = ChatSession::new(
        SessionRole::Guest { room_code: "1234".into() },
        "wss://a/rooms/1234".into(),
    );
    assert_eq!(guest.url(), "wss://a/rooms/1234");
    assert_eq!(guest.signaling_role(), SignalingRole::Guest);
    assert!(matches!(
        guest.hello(),
        SignalingEnvelope::Hello { role: SignalingRole::Guest, room_code: Some(code) }
            if code == "1234"
    ));
    assert_eq!(signaling_role_for_session(&SessionRole::Host), SignalingRole::Host);
}

fn metadata(file_size: u64, chunk_size: u64, total_chunks: u64) -> FileMetadata {
    FileMetadata {
        transfer_id: "t".into(),
        file_name: "a.bin".into(),
        file_size,
        chunk_size,
        total_chunks,
        modified_millis: None,
        sample_hash: "s".into(),
        file_hash: "h".into(),
    }
}

fn state() -> TransferState {
    TransferState::new(TransferStore::new("/data".into()))
}

fn messages(actions: &[TransferAction]) -> Vec<P2pMessage> {
    actions
        .iter()
        .filter_map(|action| match action {
            TransferAction::Send(message) => Some(message.clone()),
            _ => None,
        })
        .collect()
}

#[test]
fn a_file_goes_from_one_end_to_the_other() {
    let mut sender = state();
    let mut receiver = state();
    let offered = sender.commit_offer(TransferManifest::new_sender(
        metadata(70_000, 32_768, 3),
        "/tmp/a.bin".into(),
    ));
    let offer = match messages(&offered).as_slice() {
        [P2pMessage::FileOffer { metadata }] => metadata.clone(),
        _ => unreachable!(),
    };
    let told = receiver.receive_file_offer(offer).unwrap();
    assert!(matches!(
        told.as_slice(),
        [TransferAction::Emit(SessionEvent::FileOffered(m))] if m.file_name == "a.bin"
    ));
    let taken = receiver.begin_accept("t").unwrap();
    assert!(receiver.begin_accept("t").is_err());
    let manifest = accept_manifest(taken, None, FilePath::new("/home/u/a.bin"));
    assert_eq!(manifest.temp_path.as_deref(), Some("/home/u/a.bin.part"));
    let accepted = receiver.commit_accept("t".into(), manifest);
    let wanted = match messages(&accepted).as_slice() {
        [P2pMessage::FileAccept { completed_chunks, .. }] => completed_chunks.clone(),
        _ => unreachable!(),
    };
    let plan = sender.send_file_ranges("t", wanted).unwrap();
    assert_eq!(plan.missing, vec![ChunkRange::new(0, 3)]);
    assert_eq!(plan.source_path, "/tmp/a.bin");

    let header = FileStreamHeader { transfer_id: "t".into(), start_chunk: 0, end_chunk: 3 };
    let manifest = receiver.begin_receive(&header).unwrap();
    for index in [1_u64, 0, 2] {
        let len = expected_chunk_len(&manifest.metadata, index).unwrap();
        assert_eq!(len, if index == 2 { 4464 } else { 32768 });
        assert!(receiver.ready_to_finalize("t").unwrap().is_none());
        let acked = receiver.record_received_chunk("t", index).unwrap();
        for message in messages(&acked) {
            match message {
                P2pMessage::FileAck { transfer_id, chunks } => {
                    sender.acknowledge_sent_chunks(&transfer_id, chunks).unwrap();
                }
                _ => unreachable!(),
            }
        }
    }
    let whole = receiver.ready_to_finalize("t").unwrap().unwrap();
    assert!(whole.is_complete());
    assert!(receiver.check_hash("t".into(), "h", "h").is_none());
    let done = receiver.complete_received("t".into(), "/home/u/a.bin".into()).unwrap();
    assert!(matches!(
        messages(&done).as_slice(),
        [P2pMessage::FileComplete { transfer_id }] if transfer_id == "t"
    ));
    sender.complete_sent_transfer("t".into()).unwrap();
    assert_eq!(sender.senders.get("t").unwrap().status, TransferStatus::Complete);
    assert_eq!(receiver.receivers.get("t").unwrap().status, TransferStatus::Complete);
}

#[test]
fn a_wrong_hash_fails_the_transfer() {
    let mut receiver = state();
    receiver.commit_accept(
        "t".into(),
        accept_manifest(metadata(10, 262_144, 1), None, FilePath::new("/o")),
    );
    let failed = receiver.check_hash("t".into(), "h", "g").unwrap();
    assert!(failed
        .iter()
        .any(|action| matches!(action, TransferAction::Emit(SessionEvent::FileFailed { .. }))));
    assert_eq!(receiver.receivers.get("t").unwrap().status, TransferStatus::Failed);
}

#[test]
fn paused_and_cancelled_transfers_do_not_go_on() {
    let mut sender = state();
    sender.commit_offer(TransferManifest::new_sender(metadata(10, 262_144, 1), "/s".into()));
    assert!(sender.ensure_not_cancelled("t").is_ok());
    sender.pause_transfer("t").unwrap();
    let told = sender.confirm_pause("t".into());
    assert!(matches!(
        messages(&told).as_slice(),
        [P2pMessage::FileCancel { reason, .. }] if reason == "用户暂停"
    ));
    assert!(sender.ensure_not_cancelled("t").is_err());
    let resumed = sender.resume_transfer("t".into()).unwrap();
    assert!(matches!(
        messages(&resumed).as_slice(),
        [P2pMessage::FileOffer { .. }]
    ));
    assert!(sender.ensure_not_cancelled("t").is_ok());
    let cancelled = sender.cancel_transfer("t".into(), "no".into());
    assert!(matches!(
        messages(&cancelled).as_slice(),
        [P2pMessage::FileCancel { reason, .. }] if reason == "no"
    ));
    assert!(sender.ensure_not_cancelled("t").is_err());
    assert!(sender.resume_transfer("u".into()).is_err());
    assert!(sender.pause_transfer("u").is_err());
    assert!(sender.acknowledge_sent_chunks("u", vec![]).is_err());
    assert!(sender.mark_transfer_failed("u".into(), "x".into()).is_empty());
}

#[test]
fn a_resumed_file_keeps_what_was_received() {
    let mut earlier = TransferManifest::new_receiver(metadata(70_000, 32_768, 3), FilePath::new("/old"));
    earlier.completed_chunks = vec![ChunkRange::new(0, 2)];
    let manifest = accept_manifest(metadata(70_000, 32_768, 3), Some(earlier), FilePath::new("/new"));
    assert_eq!(manifest.completed_chunks, vec![ChunkRange::new(0, 2)]);
    assert_eq!(manifest.status, TransferStatus::Accepted);
    let mut receiver = state();
    receiver.commit_accept("t".into(), manifest);
    let header = FileStreamHeader { transfer_id: "t".into(), start_chunk: 2, end_chunk: 9 };
    assert!(receiver.begin_receive(&header).is_err());
    let header = FileStreamHeader { transfer_id: "t".into(), start_chunk: 2, end_chunk: 2 };
    assert!(receiver.begin_receive(&header).is_err());
    let header = FileStreamHeader { transfer_id: "u".into(), start_chunk: 0, end_chunk: 1 };
    assert!(receiver.begin_receive(&header).is_err());
}

#[test]
fn an_empty_file_is_there_at_once() {
    let manifest = accept_manifest(metadata(0, 262_144, 0), None, FilePath::new("/home/u/e"));
    let (manifest, path) = empty_receiver(manifest).unwrap();
    assert_eq!(path, "/home/u/e");
    assert_eq!(manifest.status, TransferStatus::Complete);
    let mut receiver = state();
    let actions = receiver.commit_empty(manifest, path);
    assert!(matches!(
        messages(&actions).as_slice(),
        [P2pMessage::FileComplete { .. }]
    ));
}

#[test]
fn a_rejected_offer_is_told_to_the_peer() {
    let mut receiver = state();
    receiver.receive_file_offer(metadata(10, 262_144, 1)).unwrap();
    assert!(receiver.receive_file_offer(metadata(10, 0, 1)).is_err());
    let actions = receiver.reject_file_offer("t".into(), "no".into());
    assert!(matches!(
        messages(&actions).as_slice(),
        [P2pMessage::FileReject { reason, .. }] if reason == "no"
    ));
    assert!(receiver.begin_accept("t").is_err());
    let manifest = TransferManifest::new_sender(metadata(10, 262_144, 1), "/s".into());
    assert!(matches!(
        progress_event(&manifest),
        SessionEvent::FileProgress(p) if p.total_bytes == 10 && p.completed_bytes == 0
    ));
}

fn link() -> LinkState {
    LinkState::new(true, TransferStore::new("/data".into()))
}

#[test]
fn a_link_answers_and_passes_on() {
    let mut link = link();
    assert!(matches!(
        link.step(LinkEvent::Message(P2pMessage::Ping)).as_slice(),
        [LinkAction::Write(P2pMessage::Pong)] | [LinkAction::Queue(P2pMessage::Pong)]
    ));
    assert!(matches!(
        link.step(LinkEvent::PingDue).as_slice(),
        [LinkAction::Write(P2pMessage::Ping)]
    ));
    assert!(matches!(
        link.step(LinkEvent::Message(P2pMessage::Chat { text: "hi".into() })).as_slice(),
        [LinkAction::Emit(SessionEvent::MessageReceived(text))] if text == "hi"
    ));
    let sent = link.step(LinkEvent::Command(Some(DirectCommand::Chat("yo".into()))));
    assert!(sent.iter().any(|action| matches!(
        action,
        LinkAction::Write(P2pMessage::Chat { text }) | LinkAction::Queue(P2pMessage::Chat { text })
            if text == "yo"
    )));
    assert!(matches!(
        link.step(LinkEvent::Command(None)).as_slice(),
        [LinkAction::CloseSession, LinkAction::Stop]
    ));
    let lost = link.step(LinkEvent::ReadFailed("gone".into()));
    assert!(lost.iter().any(|action| matches!(action, LinkAction::Stop)));
    assert!(lost.iter().any(|action| matches!(
        action,
        LinkAction::Emit(SessionEvent::DirectLinkLost(reason)) if reason == "gone"
    )));
    assert!(link.closing().is_empty());
}

#[test]
fn a_link_tells_that_it_is_there() {
    let opening = LinkState::opening(DirectLinkInfo {
        remote_addr: SocketAddress::V4 { octets: [1, 2, 3, 4], port: 5 },
        local_role: SignalingRole::Host,
        peer_remote_desktop: true,
    });
    assert!(opening
        .iter()
        .any(|action| matches!(action, LinkAction::Emit(SessionEvent::DirectLinkEstablished(_)))));
    assert!(link().wants_frame());
}
