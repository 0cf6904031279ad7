//! The connection to the signaling server, by which two peers find each other.
use crate::candidates::{ConnectInfo, ConnectInfoView};
use crate::text;
use vstd::prelude::*;

verus! {

/// Which of the two peers one is: the host opens the room, the guest enters it.
#[derive(Debug, Clone, Copy, PartialEq, Eq, Structural)]
pub enum SignalingRole {
    Host,
    Guest,
}

/// What the session asks of the signaling connection.
#[derive(Debug, PartialEq, Eq)]
pub enum SignalingCommand {
    SendText(String),
    Close,
}

#[verifier::ext_equal]
pub enum SignalingCommandView {
    SendText(Seq<char>),
    Close,
}

impl View for SignalingCommand {
    type V = SignalingCommandView;

    open spec fn view(&self) -> SignalingCommandView {
        match self {
            SignalingCommand::SendText(a) => SignalingCommandView::SendText(a@),
            SignalingCommand::Close => SignalingCommandView::Close,
        }
    }
}

/// What client and server tell each other. The payload of a signal is kept where it is the
/// description of a peer.
#[derive(Debug, PartialEq, Eq)]
pub enum SignalingEnvelope {
    Hello { role: SignalingRole, room_code: Option<String> },
    RoomReady { room_code: Option<String> },
    PeerJoined { role: SignalingRole },
    PeerLeft { role: SignalingRole },
    Signal { payload: Option<ConnectInfo> },
    Error { message: String },
    Bye,
}

#[verifier::ext_equal]
pub enum SignalingEnvelopeView {
    Hello { role: SignalingRole, room_code: Option<Seq<char>> },
    RoomReady { room_code: Option<Seq<char>> },
    PeerJoined { role: SignalingRole },
    PeerLeft { role: SignalingRole },
    Signal { payload: Option<ConnectInfoView> },
    Error { message: Seq<char> },
    Bye,
}

impl View for SignalingEnvelope {
    type V = SignalingEnvelopeView;

    open spec fn view(&self) -> SignalingEnvelopeView {
        match self {
            SignalingEnvelope::Hello { role, room_code } => SignalingEnvelopeView::Hello {
                role: *role,
                room_code: text::opt_text(*room_code),
            },
            SignalingEnvelope::RoomReady { room_code } => SignalingEnvelopeView::RoomReady {
                room_code: text::opt_text(*room_code),
            },
            SignalingEnvelope::PeerJoined { role } => SignalingEnvelopeView::PeerJoined {
                role: *role,
            },
            SignalingEnvelope::PeerLeft { role } => SignalingEnvelopeView::PeerLeft { role: *role },
            SignalingEnvelope::Signal { payload } => SignalingEnvelopeView::Signal { payload: match *payload {
                    Some(x) => Some(x@),
                    None => None,
                } },
            SignalingEnvelope::Error { message } => SignalingEnvelopeView::Error {
                message: message@,
            },
            SignalingEnvelope::Bye => SignalingEnvelopeView::Bye,
        }
    }
}

/// A message of the web socket.
#[derive(Debug, PartialEq, Eq)]
pub enum SignalingMessage {
    Text(String),
    Close,
    Other,
}

#[verifier::ext_equal]
pub enum SignalingMessageView {
    Text(Seq<char>),
    Close,
    Other,
}

impl View for SignalingMessage {
    type V = SignalingMessageView;

    open spec fn view(&self) -> SignalingMessageView {
        match self {
            SignalingMessage::Text(a) => SignalingMessageView::Text(a@),
            SignalingMessage::Close => SignalingMessageView::Close,
            SignalingMessage::Other => SignalingMessageView::Other,
        }
    }
}

/// What happens to the signaling connection: a command from the session, none where the session
/// is gone, or a message from the server, none where the server is gone.
#[derive(Debug, PartialEq, Eq)]
pub enum SignalingEvent {
    Command(Option<SignalingCommand>),
    Message(Option<SignalingMessage>),
}

#[verifier::ext_equal]
pub enum SignalingEventView {
    Command(Option<SignalingCommandView>),
    Message(Option<SignalingMessageView>),
}

impl View for SignalingEvent {
    type V = SignalingEventView;

    open spec fn view(&self) -> SignalingEventView {
        match self {
            SignalingEvent::Command(a) => SignalingEventView::Command(match *a {
                    Some(x) => Some(x@),
                    None => None,
                }),
            SignalingEvent::Message(a) => SignalingEventView::Message(match *a {
                    Some(x) => Some(x@),
                    None => None,
                }),
        }
    }
}

/// What the signaling connection does next.
#[derive(Debug, PartialEq, Eq)]
pub enum SignalingAction {
    Send(String),
    SendClose,
    Deliver(String),
    Stop,
}

#[verifier::ext_equal]
pub enum SignalingActionView {
    Send(Seq<char>),
    SendClose,
    Deliver(Seq<char>),
    Stop,
}

impl View for SignalingAction {
    type V = SignalingActionView;

    open spec fn view(&self) -> SignalingActionView {
        match self {
            SignalingAction::Send(a) => SignalingActionView::Send(a@),
            SignalingAction::SendClose => SignalingActionView::SendClose,
            SignalingAction::Deliver(a) => SignalingActionView::Deliver(a@),
            SignalingAction::Stop => SignalingActionView::Stop,
        }
    }
}

/// The client of a signaling server.
#[derive(Debug)]
pub struct SignalingClient {
    url: String,
}

impl View for SignalingClient {
    type V = Seq<char>;

    closed spec fn view(&self) -> Seq<char> {
        self.url@
    }
}

impl Clone for SignalingClient {
    fn clone(&self) -> (r: Self)
        ensures
            r@ == self@,
    {
        SignalingClient { url: self.url.clone() }
    }
}

impl SignalingClient {
    pub fn new(url: String) -> (r: Self)
        ensures
            r@ == url@,
    {
        SignalingClient { url }
    }

    pub fn url(&self) -> (r: &str)
        ensures
            r@ == self@,
    {
        self.url.as_str()
    }

    /// Why the connection could not be made.
    pub fn connect_failure(&self) -> (r: String)
        ensures
            r@ == "failed to connect signaling websocket: "@ + self@,
    {
        text::concat("failed to connect signaling websocket: ", self.url.as_str())
    }
}

/// What follows on an event: texts are passed on in both directions, the session's close is told
/// to the server, and the end of either side ends the connection.
pub open spec fn signaling_actions(event: SignalingEventView) -> Seq<SignalingActionView> {
    match event {
        SignalingEventView::Command(Some(SignalingCommandView::SendText(text))) => seq![
            SignalingActionView::Send(text),
        ],
        SignalingEventView::Command(_) => seq![
            SignalingActionView::SendClose,
            SignalingActionView::Stop,
        ],
        SignalingEventView::Message(Some(SignalingMessageView::Text(text))) => seq![
            SignalingActionView::Deliver(text),
        ],
        SignalingEventView::Message(Some(SignalingMessageView::Other)) => Seq::empty(),
        SignalingEventView::Message(_) => seq![SignalingActionView::Stop],
    }
}

pub fn signaling_step(event: SignalingEvent) -> (r: Vec<SignalingAction>)
    ensures
        r@.map_values(|a: SignalingAction| a@) == signaling_actions(event@),
{
    let mut actions: Vec<SignalingAction> = Vec::new();
    let ghost given = event@;
    match event {
        SignalingEvent::Command(Some(SignalingCommand::SendText(text))) => {
            actions.push(SignalingAction::Send(text));
        },
        SignalingEvent::Command(_) => {
            actions.push(SignalingAction::SendClose);
            actions.push(SignalingAction::Stop);
        },
        SignalingEvent::Message(Some(SignalingMessage::Text(text))) => {
            actions.push(SignalingAction::Deliver(text));
        },
        SignalingEvent::Message(Some(SignalingMessage::Other)) => {},
        SignalingEvent::Message(_) => {
            actions.push(SignalingAction::Stop);
        },
    }
    assert(actions@.map_values(|a: SignalingAction| a@) =~= signaling_actions(given));
    actions
}

/// What the session says goes to the server as it is, and what the server says goes to the session
/// as it is; nothing else is said to either.
pub proof fn texts_are_passed_on(event: SignalingEventView, words: Seq<char>)
    ensures
        ({
            let actions = signaling_actions(event);
            let said = SignalingEventView::Command(Some(SignalingCommandView::SendText(words)));
            let heard = SignalingEventView::Message(Some(SignalingMessageView::Text(words)));
            &&& actions.contains(SignalingActionView::Send(words)) <==> event == said
            &&& actions.contains(SignalingActionView::Deliver(words)) <==> event == heard
        }),
{
    let actions = signaling_actions(event);
    if actions.len() > 0 {
        assert(actions.contains(actions[0]));
    }
}

/// The connection ends when the session closes it or is gone, which the server is told, and when the
/// server closes it or is gone; nothing else ends it.
pub proof fn either_side_ends_the_connection(event: SignalingEventView)
    ensures
        ({
            let actions = signaling_actions(event);
            let by_session = event == SignalingEventView::Command(None) || event
                == SignalingEventView::Command(Some(SignalingCommandView::Close));
            let by_server = event == SignalingEventView::Message(None) || event
                == SignalingEventView::Message(Some(SignalingMessageView::Close));
            &&& actions.contains(SignalingActionView::Stop) <==> by_session || by_server
            &&& actions.contains(SignalingActionView::SendClose) <==> by_session
            &&& by_session ==> actions[0] == SignalingActionView::SendClose
            &&& event == SignalingEventView::Message(Some(SignalingMessageView::Other))
                ==> actions.len() == 0
        }),
{
    let actions = signaling_actions(event);
    if actions.len() > 0 {
        assert(actions.contains(actions[0]));
        assert(actions.contains(actions.last()));
    }
}

}
