use p2p_signaling::candidates::{
    connect_info, dedupe_candidates, first_twelve, is_useful_ipv6, local_candidates,
    local_capabilities, pairing_token, parse_stun_binding_response, stun_binding_request,
    stun_servers, token_of, transaction_id, Candidate, CandidateKind, Interface, IpAddress,
    SocketAddress, StunQuery,
};
use p2p_signaling::direct::{
    certificate_matches, check_hello, dial_candidates, generate_direct_certificate, hello_message,
    link_plan, ordered_compatible_candidates, HelloError, LinkPlan,
};
use p2p_signaling::p2p_proto::{
    classify_stream, desktop_header, file_header, frame_desktop, frame_file_header, frame_message,
    message_len, stream_header_len, stream_kind, FileStreamHeader, FrameError,
    IncomingUniStreamHeader, P2pMessage, StreamKind, MAX_FRAME_LEN, MAX_STREAM_HEADER_LEN,
};
use p2p_signaling::remote_desktop::{
    DesktopError, RemoteDesktopFrame, RemoteDesktopFrameHeader, RemoteDesktopPatch,
    REMOTE_DESKTOP_CAPABILITY, REMOTE_DESKTOP_STREAM_TYPE,
};
use p2p_signaling::signaling::{
    signaling_step, SignalingAction, SignalingClient, SignalingCommand, SignalingEvent,
    SignalingMessage, SignalingRole,
};

const STUN_BINDING_SUCCESS: u16 = 0x0101;
const STUN_MAGIC_COOKIE: u32 = 0x2112_A442;
const STUN_ATTR_XOR_MAPPED_ADDRESS: u16 = 0x0020;

fn response(transaction_id: [u8; 12], octets: [u8; 4], port: u16) -> Vec<u8> {
    let mut packet = Vec::new();
    packet.extend_from_slice(&STUN_BINDING_SUCCESS.to_be_bytes());
    packet.extend_from_slice(&12_u16.to_be_bytes());
    packet.extend_from_slice(&STUN_MAGIC_COOKIE.to_be_bytes());
    packet.extend_from_slice(&transaction_id);
    packet.extend_from_slice(&STUN_ATTR_XOR_MAPPED_ADDRESS.to_be_bytes());
    packet.extend_from_slice(&8_u16.to_be_bytes());
    packet.push(0);
    packet.push(0x01);
    let xport = port ^ ((STUN_MAGIC_COOKIE >> 16) as u16);
    packet.extend_from_slice(&xport.to_be_bytes());
    let cookie = STUN_MAGIC_COOKIE.to_be_bytes();
    for (octet, mask) in octets.iter().zip(cookie) {
        packet.push(octet ^ mask);
    }
    packet
}

#[test]
fn parses_xor_mapped_ipv4_response() {
    let transaction_id = [1, 2, 3, 4, 5, 6, 7, 8, 9, 10, 11, 12];
    let packet = response(transaction_id, [203, 0, 113, 7], 54321);
    let parsed = parse_stun_binding_response(&packet).unwrap();
    assert_eq!(parsed.0, transaction_id);
    assert_eq!(
        parsed.1,
        SocketAddress::V4 { octets: [203, 0, 113, 7], port: 54321 }
    );
}

#[test]
fn packets_that_are_no_response_are_ignored() {
    let id = [7; 12];
    let good = response(id, [203, 0, 113, 7], 54321);
    assert!(parse_stun_binding_response(&good[..31]).is_none());
    assert!(parse_stun_binding_response(&[]).is_none());
    let mut other = good.clone();
    other[0] = 0;
    assert!(parse_stun_binding_response(&other).is_none());
    let mut cookie = good.clone();
    cookie[5] ^= 1;
    assert!(parse_stun_binding_response(&cookie).is_none());
    let request = stun_binding_request(&id);
    assert_eq!(&request[..8], &[0, 1, 0, 0, 0x21, 0x12, 0xA4, 0x42]);
    assert_eq!(&request[8..], &id);
}

#[test]
fn a_query_takes_each_answer_once() {
    let a = transaction_id();
    let b = transaction_id();
    assert_ne!(a, b);
    assert_eq!((a[6] / 16, a[8] / 64), (4, 2));
    let mut query = StunQuery::new();
    assert!(query.is_done());
    query.sent(a);
    query.sent(b);
    query.receive(&response([0; 12], [1, 2, 3, 4], 5));
    assert!(query.found.is_empty());
    query.receive(&response(a, [1, 2, 3, 4], 5));
    query.receive(&response(a, [1, 2, 3, 4], 6));
    assert_eq!(query.found.len(), 1);
    assert_eq!(query.found[0].kind, CandidateKind::ServerReflexive);
    assert!(!query.is_done());
    query.receive(&response(b, [1, 2, 3, 4], 6));
    assert!(query.is_done());
    assert_eq!(query.found.len(), 2);
}

fn v4(last: u8, port: u16) -> SocketAddress {
    SocketAddress::V4 { octets: [192, 168, 1, last], port }
}

fn candidate(addr: SocketAddress, kind: CandidateKind) -> Candidate {
    Candidate { addr, kind }
}

#[test]
fn candidates_are_kept_once() {
    let mut list = vec![
        candidate(v4(1, 9), CandidateKind::Local),
        candidate(v4(2, 9), CandidateKind::Local),
        candidate(v4(1, 9), CandidateKind::Local),
        candidate(v4(1, 9), CandidateKind::ServerReflexive),
    ];
    dedupe_candidates(&mut list);
    assert!(list.len() >= 2);
    assert!(list[0].same(&candidate(v4(1, 9), CandidateKind::Local)));
    assert!(list[1].same(&candidate(v4(2, 9), CandidateKind::Local)));
    for i in 0..list.len() {
        for j in 0..i {
            assert!(!list[i].same(&list[j]));
        }
    }
}

#[test]
fn interfaces_give_candidates() {
    let mut global = [0_u8; 16];
    global[0] = 0x20;
    global[1] = 0x01;
    let mut link = [0_u8; 16];
    link[0] = 0xfe;
    link[1] = 0x80;
    assert!(is_useful_ipv6(&global));
    assert!(!is_useful_ipv6(&link));
    let interfaces = vec![
        Interface { loopback: true, addr: IpAddress::V4([127, 0, 0, 1]) },
        Interface { loopback: false, addr: IpAddress::V4([192, 168, 1, 5]) },
        Interface { loopback: false, addr: IpAddress::V6(global) },
        Interface { loopback: false, addr: IpAddress::V6(link) },
    ];
    let four = local_candidates(&interfaces, 53000, true);
    assert_eq!(four.len(), 1);
    assert_eq!(four[0].addr, v4(5, 53000));
    let six = local_candidates(&interfaces, 53000, false);
    assert!(six.iter().any(|c| !c.addr.is_ipv4()));
}

#[test]
fn connect_info_says_what_this_end_can_do() {
    assert_eq!(local_capabilities("linux"), Vec::<String>::new());
    assert_eq!(local_capabilities("windows"), vec![REMOTE_DESKTOP_CAPABILITY.to_string()]);
    let info = connect_info(
        SignalingRole::Host,
        vec![candidate(v4(5, 53000), CandidateKind::Local)],
        "abcd".into(),
        "token".into(),
        "windows",
    );
    assert!(info.is_supported());
    assert!(info.offers_remote_desktop());
    assert_eq!(info.cert_hash, "abcd");
    assert_eq!(info.pairing_token, "token");
    let mut old = info.clone();
    old.capabilities.clear();
    assert!(!old.offers_remote_desktop());
    let mut future = info;
    future.version += 1;
    assert!(!future.is_supported());
}

#[test]
fn tokens_are_fresh_and_in_base64() {
    let a = pairing_token();
    let b = pairing_token();
    assert_ne!(a, b);
    assert_eq!(a.len(), 44);
    assert_eq!(token_of(&[0; 16], &[0; 16]), format!("{}=", "A".repeat(43)));
    assert_eq!(
        token_of(&[255; 16], &[255; 16]),
        format!("{}8=", "/".repeat(42))
    );
    assert_eq!(
        first_twelve([1, 2, 3, 4, 5, 6, 7, 8, 9, 10, 11, 12, 13, 14, 15, 16]),
        [1, 2, 3, 4, 5, 6, 7, 8, 9, 10, 11, 12]
    );
}

#[test]
fn servers_for_addresses_can_be_named() {
    assert!(!stun_servers(None).is_empty());
    assert_eq!(
        stun_servers(Some(" a:1, b:2 ,,".into())),
        vec!["a:1".to_string(), "b:2".to_string()]
    );
}

#[test]
fn candidates_are_dialled_in_order() {
    let list = vec![
        candidate(v4(1, 1), CandidateKind::ServerReflexive),
        candidate(v4(2, 2), CandidateKind::Local),
        candidate(
            SocketAddress::V6 { octets: [1; 16], port: 3, flowinfo: 0, scope_id: 0 },
            CandidateKind::Local,
        ),
    ];
    let local = SocketAddress::V4 { octets: [0; 4], port: 0 };
    let ordered = ordered_compatible_candidates(&list, local);
    assert_eq!(ordered.len(), 2);
    assert_eq!(ordered[0].kind, CandidateKind::Local);
    assert_eq!(ordered[1].kind, CandidateKind::ServerReflexive);
    assert_eq!(dial_candidates(&list, local).unwrap().len(), 2);
    assert!(dial_candidates(&vec![], local).is_err());
}

#[test]
fn the_host_accepts_and_the_guest_dials() {
    assert!(matches!(
        link_plan(SignalingRole::Host, SignalingRole::Guest),
        Ok(LinkPlan::Accept)
    ));
    assert!(matches!(
        link_plan(SignalingRole::Guest, SignalingRole::Host),
        Ok(LinkPlan::Dial)
    ));
    assert!(link_plan(SignalingRole::Host, SignalingRole::Host).is_err());
}

#[test]
fn a_greeting_needs_the_token() {
    let hello = hello_message("t");
    assert_eq!(hello, P2pMessage::Hello { token: "t".into() });
    assert!(check_hello(&hello, "t").is_ok());
    assert!(matches!(check_hello(&hello, "u"), Err(HelloError::TokenMismatch)));
    assert!(matches!(check_hello(&P2pMessage::Ping, "t"), Err(HelloError::NotHello)));
}

#[test]
fn a_certificate_is_known_by_its_hash() {
    let made = generate_direct_certificate().unwrap();
    assert!(!made.cert_der.is_empty());
    assert!(!made.key_der.is_empty());
    assert!(made.cert_der.windows(9).any(|part| part == "p2p.local".as_bytes()));
    let other = generate_direct_certificate().unwrap();
    assert_ne!(made.cert_der, other.cert_der);
    let hash = p2p_signaling::candidates::certificate_hash(&made.cert_der);
    assert_eq!(hash.len(), 64);
    assert!(certificate_matches(&made.cert_der, &hash));
    assert!(!certificate_matches(&other.cert_der, &hash));
}

#[test]
fn a_certificate_comes_with_its_key() {
    let made = generate_direct_certificate().unwrap();
    let other = generate_direct_certificate().unwrap();
    let pair = rcgen::KeyPair::try_from(made.key_der.as_slice()).unwrap();
    let key = pair.public_key_raw();
    assert!(made.cert_der.windows(key.len()).any(|part| part == key));
    assert!(!other.cert_der.windows(key.len()).any(|part| part == key));
}

fn prefix(bytes: &[u8]) -> [u8; 4] {
    [bytes[0], bytes[1], bytes[2], bytes[3]]
}

#[test]
fn framed_messages_give_back_their_payload() {
    let payload = br#"{"type":"chat","text":"hello"}"#;
    let bytes = frame_message(payload).unwrap();
    assert_eq!(u32::from_le_bytes(prefix(&bytes)) as usize, bytes.len() - 4);
    let len = message_len(&prefix(&bytes)).unwrap();
    assert_eq!(&bytes[4..4 + len], payload);
    let header = frame_file_header(payload).unwrap();
    let len = stream_header_len(&prefix(&header)).unwrap();
    assert_eq!(&header[4..4 + len], payload);
}

#[test]
fn lengths_have_their_limits() {
    assert!(frame_message(&vec![0; MAX_FRAME_LEN]).is_ok());
    assert_eq!(
        frame_message(&vec![0; MAX_FRAME_LEN + 1]).unwrap_err(),
        FrameError::MessageTooLong
    );
    assert_eq!(
        message_len(&[0, 0, 0, 0]).unwrap_err(),
        FrameError::MessageLength { len: 0 }
    );
    assert_eq!(
        message_len(&[1, 0, 1, 0]).unwrap_err().message(),
        "直连消息长度无效：65537"
    );
    assert_eq!(
        frame_file_header(&vec![0; MAX_STREAM_HEADER_LEN + 1]).unwrap_err(),
        FrameError::FileHeaderTooLong
    );
    assert_eq!(
        stream_header_len(&[1, 16, 0, 0]).unwrap_err(),
        FrameError::HeaderLength { len: 4097 }
    );
    assert_eq!(
        frame_desktop(&vec![0; MAX_STREAM_HEADER_LEN + 1], &desktop_frame()).unwrap_err(),
        FrameError::DesktopHeaderTooLong
    );
}

fn desktop_frame() -> RemoteDesktopFrame {
    RemoteDesktopFrame {
        header: RemoteDesktopFrameHeader {
            stream_type: REMOTE_DESKTOP_STREAM_TYPE.into(),
            session_id: "desktop-1".into(),
            frame_id: 1,
            width: 320,
            height: 180,
            keyframe: true,
            patches: vec![RemoteDesktopPatch {
                x: 0,
                y: 0,
                width: 1,
                height: 1,
                encoded_len: 4,
            }],
        },
        payload: vec![1, 2, 3, 4],
    }
}

#[test]
fn streams_are_told_apart_by_their_header() {
    let json = br#"{"streamType":"desktop-frame","sessionId":"desktop-1"}"#;
    let bytes = frame_desktop(json, &desktop_frame()).unwrap();
    let len = stream_header_len(&prefix(&bytes)).unwrap();
    assert_eq!(&bytes[4..4 + len], json);
    assert_eq!(&bytes[4 + len..], &[1, 2, 3, 4]);
    assert!(matches!(classify_stream(json), Ok(StreamKind::Desktop)));
    assert!(matches!(
        classify_stream(br#"{"transferId":"file-test","startChunk":2}"#),
        Ok(StreamKind::File)
    ));
    assert!(matches!(
        classify_stream(br#"{"streamType":"other"}"#),
        Ok(StreamKind::File)
    ));
    assert_eq!(classify_stream(b"{").unwrap_err(), FrameError::HeaderSyntax);
    assert!(matches!(stream_kind(None), StreamKind::File));
    let header = desktop_frame().header;
    assert!(matches!(
        desktop_header(header.clone()),
        Ok(IncomingUniStreamHeader::RemoteDesktop(h)) if h == header
    ));
    let mut empty = header.clone();
    empty.session_id.clear();
    assert_eq!(
        desktop_header(empty).unwrap_err(),
        FrameError::Desktop(DesktopError::EmptySessionId)
    );
    let file = FileStreamHeader { transfer_id: "file-test".into(), start_chunk: 2, end_chunk: 5 };
    assert_eq!(file_header(IncomingUniStreamHeader::File(file.clone())).unwrap(), file);
    assert_eq!(
        file_header(IncomingUniStreamHeader::RemoteDesktop(header)).unwrap_err(),
        FrameError::NotAFileStream
    );
    let mut torn = desktop_frame();
    torn.payload.pop();
    assert_eq!(
        frame_desktop(json, &torn).unwrap_err(),
        FrameError::Desktop(DesktopError::PayloadLength)
    );
}

#[test]
fn the_signaling_connection_passes_texts_on() {
    let client = SignalingClient::new("wss://a/rooms/1".into());
    assert_eq!(client.url(), "wss://a/rooms/1");
    assert_eq!(
        client.connect_failure(),
        "failed to connect signaling websocket: wss://a/rooms/1"
    );
    assert!(matches!(
        signaling_step(SignalingEvent::Command(Some(SignalingCommand::SendText("x".into()))))
            .as_slice(),
        [SignalingAction::Send(text)] if text == "x"
    ));
    assert!(matches!(
        signaling_step(SignalingEvent::Command(None)).as_slice(),
        [SignalingAction::SendClose, SignalingAction::Stop]
    ));
    assert!(matches!(
        signaling_step(SignalingEvent::Message(Some(SignalingMessage::Text("y".into()))))
            .as_slice(),
        [SignalingAction::Deliver(text)] if text == "y"
    ));
    assert!(signaling_step(SignalingEvent::Message(Some(SignalingMessage::Other))).is_empty());
    assert!(matches!(
        signaling_step(SignalingEvent::Message(None)).as_slice(),
        [SignalingAction::Stop]
    ));
}
