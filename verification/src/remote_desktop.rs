//! Shared desktops: what is offered, sent and shown, and what of it is valid.
use crate::text;
use vstd::prelude::*;

verus! {

pub const REMOTE_DESKTOP_CAPABILITY: &'static str = "remote-desktop-v1";

pub const REMOTE_DESKTOP_STREAM_TYPE: &'static str = "desktop-frame";

pub const MAX_DESKTOP_WIDTH: u32 = 1280;

pub const MAX_DESKTOP_HEIGHT: u32 = 720;

pub const MAX_DESKTOP_FPS: u8 = 15;

pub const MAX_DESKTOP_PATCHES: usize = 60;

pub const MAX_DESKTOP_PAYLOAD: usize = 8388608;

/// What is wrong with a part of a shared desktop.
#[derive(Debug, Clone, Copy, PartialEq, Eq, Structural)]
pub enum DesktopError {
    Size { width: u32, height: u32 },
    Rate { max_fps: u8 },
    WheelDelta,
    TextLength,
    StreamType,
    EmptySessionId,
    PatchCount,
    PatchBounds,
    LengthOverflow,
    FrameLength,
    PayloadLength,
}

impl DesktopError {
    /// The error in words.
    pub open spec fn words(self) -> Seq<char> {
        match self {
            DesktopError::Size { width, height } => "远程桌面尺寸无效："@ + text::decimal_text(
                width as nat,
            ) + "x"@ + text::decimal_text(height as nat),
            DesktopError::Rate { max_fps } => "远程桌面帧率无效："@ + text::decimal_text(max_fps as nat),
            DesktopError::WheelDelta => "远程滚轮增量超出范围"@,
            DesktopError::TextLength => "远程文本输入过长"@,
            DesktopError::StreamType => "远程桌面流类型无效"@,
            DesktopError::EmptySessionId => "远程桌面会话 ID 为空"@,
            DesktopError::PatchCount => "远程桌面补丁数量过多"@,
            DesktopError::PatchBounds => "远程桌面补丁范围无效"@,
            DesktopError::LengthOverflow => "远程桌面帧长度溢出"@,
            DesktopError::FrameLength => "远程桌面帧过大"@,
            DesktopError::PayloadLength => "远程桌面帧载荷长度不匹配"@,
        }
    }

    /// The error in words.
    pub fn message(&self) -> (r: String)
        ensures
            r@ == self.words(),
    {
        match self {
            DesktopError::Size { width, height } => {
                let w = text::decimal(*width as u64);
                let h = text::decimal(*height as u64);
                text::concat4("远程桌面尺寸无效：", w.as_str(), "x", h.as_str())
            },
            DesktopError::Rate { max_fps } => {
                let n = text::decimal(*max_fps as u64);
                text::concat("远程桌面帧率无效：", n.as_str())
            },
            DesktopError::WheelDelta => "远程滚轮增量超出范围".to_owned(),
            DesktopError::TextLength => "远程文本输入过长".to_owned(),
            DesktopError::StreamType => "远程桌面流类型无效".to_owned(),
            DesktopError::EmptySessionId => "远程桌面会话 ID 为空".to_owned(),
            DesktopError::PatchCount => "远程桌面补丁数量过多".to_owned(),
            DesktopError::PatchBounds => "远程桌面补丁范围无效".to_owned(),
            DesktopError::LengthOverflow => "远程桌面帧长度溢出".to_owned(),
            DesktopError::FrameLength => "远程桌面帧过大".to_owned(),
            DesktopError::PayloadLength => "远程桌面帧载荷长度不匹配".to_owned(),
        }
    }
}

#[derive(Debug, Clone, Copy, PartialEq, Eq, Hash, Structural)]
pub enum RemoteDesktopPlatform {
    Windows,
    Macos,
}

impl Default for RemoteDesktopPlatform {
    fn default() -> (r: Self)
        ensures
            r == RemoteDesktopPlatform::Windows,
    {
        RemoteDesktopPlatform::Windows
    }
}

/// The platform of an operating system, by the name that it is built for.
pub open spec fn platform_of(target_os: Seq<char>) -> Option<RemoteDesktopPlatform> {
    if target_os == "windows"@ {
        Some(RemoteDesktopPlatform::Windows)
    } else if target_os == "macos"@ {
        Some(RemoteDesktopPlatform::Macos)
    } else {
        None
    }
}

impl RemoteDesktopPlatform {
    /// The platform of an operating system, by the name that it is built for.
    pub fn current(target_os: &str) -> (r: Option<Self>)
        ensures
            r == if target_os@ == "windows"@ {
                Some(RemoteDesktopPlatform::Windows)
            } else if target_os@ == "macos"@ {
                Some(RemoteDesktopPlatform::Macos)
            } else {
                None::<RemoteDesktopPlatform>
            },
            r == platform_of(target_os@),
    {
        if text::same_text(target_os, "windows") {
            Some(RemoteDesktopPlatform::Windows)
        } else if text::same_text(target_os, "macos") {
            Some(RemoteDesktopPlatform::Macos)
        } else {
            None
        }
    }
}

/// The size of the shared picture and how often it is sent.
#[derive(Debug, Clone, Copy, PartialEq, Eq, Hash, Structural)]
pub struct RemoteDesktopConfig {
    pub width: u32,
    pub height: u32,
    pub max_fps: u8,
}

impl Default for RemoteDesktopConfig {
    fn default() -> (r: Self)
        ensures
            r == (RemoteDesktopConfig {
                width: MAX_DESKTOP_WIDTH,
                height: MAX_DESKTOP_HEIGHT,
                max_fps: MAX_DESKTOP_FPS,
            }),
    {
        RemoteDesktopConfig {
            width: MAX_DESKTOP_WIDTH,
            height: MAX_DESKTOP_HEIGHT,
            max_fps: MAX_DESKTOP_FPS,
        }
    }
}

impl RemoteDesktopConfig {
    /// The configuration, or what is wrong with it.
    pub open spec fn checked(self) -> Result<Self, DesktopError> {
        if !(0 < self.width <= MAX_DESKTOP_WIDTH && 0 < self.height <= MAX_DESKTOP_HEIGHT) {
            Err(DesktopError::Size { width: self.width, height: self.height })
        } else if !(0 < self.max_fps <= MAX_DESKTOP_FPS) {
            Err(DesktopError::Rate { max_fps: self.max_fps })
        } else {
            Ok(self)
        }
    }

    pub fn validate(self) -> (r: Result<Self, DesktopError>)
        ensures
            r == self.checked(),
    {
        if self.width == 0 || self.height == 0 || self.width > MAX_DESKTOP_WIDTH || self.height
            > MAX_DESKTOP_HEIGHT {
            return Err(DesktopError::Size { width: self.width, height: self.height });
        }
        if self.max_fps == 0 || self.max_fps > MAX_DESKTOP_FPS {
            return Err(DesktopError::Rate { max_fps: self.max_fps });
        }
        Ok(self)
    }
}

#[derive(Debug, Clone, Copy, PartialEq, Eq, Hash, Structural)]
pub enum RemotePointerButton {
    Left,
    Right,
    Middle,
}

/// A rectangle of the picture that a frame brings anew.
#[derive(Debug, Clone, Copy, PartialEq, Eq, Structural)]
pub struct RemoteDesktopPatch {
    pub x: u32,
    pub y: u32,
    pub width: u32,
    pub height: u32,
    pub encoded_len: u32,
}

/// A display that can be shared.
#[derive(Debug, PartialEq, Eq)]
pub struct RemoteDisplay {
    pub id: String,
    pub name: String,
    pub width: u32,
    pub height: u32,
}

#[verifier::ext_equal]
pub struct RemoteDisplayView {
    pub id: Seq<char>,
    pub name: Seq<char>,
    pub width: u32,
    pub height: u32,
}

impl View for RemoteDisplay {
    type V = RemoteDisplayView;

    open spec fn view(&self) -> RemoteDisplayView {
        RemoteDisplayView {
            id: self.id@,
            name: self.name@,
            width: self.width,
            height: self.height,
        }
    }
}

impl Clone for RemoteDisplay {
    fn clone(&self) -> (r: Self)
        ensures
            r@ == self@,
    {
        RemoteDisplay {
            id: self.id.clone(),
            name: self.name.clone(),
            width: self.width,
            height: self.height,
        }
    }
}

/// An offer to share a display.
#[derive(Debug, PartialEq, Eq)]
pub struct RemoteDesktopOffer {
    pub session_id: String,
    pub platform: RemoteDesktopPlatform,
    pub display: RemoteDisplay,
    pub config: RemoteDesktopConfig,
    pub allow_control: bool,
}

#[verifier::ext_equal]
pub struct RemoteDesktopOfferView {
    pub session_id: Seq<char>,
    pub platform: RemoteDesktopPlatform,
    pub display: RemoteDisplayView,
    pub config: RemoteDesktopConfig,
    pub allow_control: bool,
}

impl View for RemoteDesktopOffer {
    type V = RemoteDesktopOfferView;

    open spec fn view(&self) -> RemoteDesktopOfferView {
        RemoteDesktopOfferView {
            session_id: self.session_id@,
            platform: self.platform,
            display: self.display@,
            config: self.config,
            allow_control: self.allow_control,
        }
    }
}

impl Clone for RemoteDesktopOffer {
    fn clone(&self) -> (r: Self)
        ensures
            r@ == self@,
    {
        RemoteDesktopOffer {
            session_id: self.session_id.clone(),
            platform: self.platform,
            display: self.display.clone(),
            config: self.config,
            allow_control: self.allow_control,
        }
    }
}

/// What the viewer does with mouse and keyboard.
#[derive(Debug, PartialEq, Eq)]
pub enum RemoteInputEvent {
    PointerMove { x: u16, y: u16 },
    PointerButton { button: RemotePointerButton, pressed: bool },
    Wheel { horizontal: bool, delta: i32 },
    Key { scan_code: u16, extended: bool, pressed: bool },
    Text { text: String },
    ReleaseAll,
}

#[verifier::ext_equal]
pub enum RemoteInputEventView {
    PointerMove { x: u16, y: u16 },
    PointerButton { button: RemotePointerButton, pressed: bool },
    Wheel { horizontal: bool, delta: i32 },
    Key { scan_code: u16, extended: bool, pressed: bool },
    Text { text: Seq<char> },
    ReleaseAll,
}

impl View for RemoteInputEvent {
    type V = RemoteInputEventView;

    open spec fn view(&self) -> RemoteInputEventView {
        match self {
            RemoteInputEvent::PointerMove { x, y } => RemoteInputEventView::PointerMove {
                x: *x,
                y: *y,
            },
            RemoteInputEvent::PointerButton {
                button,
                pressed,
            } => RemoteInputEventView::PointerButton {
                button: *button,
                pressed: *pressed,
            },
            RemoteInputEvent::Wheel { horizontal, delta } => RemoteInputEventView::Wheel {
                horizontal: *horizontal,
                delta: *delta,
            },
            RemoteInputEvent::Key { scan_code, extended, pressed } => RemoteInputEventView::Key {
                scan_code: *scan_code,
                extended: *extended,
                pressed: *pressed,
            },
            RemoteInputEvent::Text { text } => RemoteInputEventView::Text { text: text@ },
            RemoteInputEvent::ReleaseAll => RemoteInputEventView::ReleaseAll,
        }
    }
}

impl Clone for RemoteInputEvent {
    fn clone(&self) -> (r: Self)
        ensures
            r@ == self@,
    {
        match self {
            RemoteInputEvent::PointerMove { x, y } => RemoteInputEvent::PointerMove {
                x: *x,
                y: *y,
            },
            RemoteInputEvent::PointerButton { button, pressed } => RemoteInputEvent::PointerButton {
                button: *button,
                pressed: *pressed,
            },
            RemoteInputEvent::Wheel { horizontal, delta } => RemoteInputEvent::Wheel {
                horizontal: *horizontal,
                delta: *delta,
            },
            RemoteInputEvent::Key { scan_code, extended, pressed } => RemoteInputEvent::Key {
                scan_code: *scan_code,
                extended: *extended,
                pressed: *pressed,
            },
            RemoteInputEvent::Text { text } => RemoteInputEvent::Text { text: text.clone() },
            RemoteInputEvent::ReleaseAll => RemoteInputEvent::ReleaseAll,
        }
    }
}

/// What the two sides tell each other about a shared desktop.
#[derive(Debug, PartialEq, Eq)]
pub enum RemoteDesktopControl {
    Offer { offer: RemoteDesktopOffer },
    Answer { session_id: String, accepted: bool, reason: Option<String> },
    Permission { session_id: String, allow_control: bool },
    Stop { session_id: String, reason: String },
    Input { session_id: String, sequence: u64, event: RemoteInputEvent },
    KeyframeRequest { session_id: String },
}

#[verifier::ext_equal]
pub enum RemoteDesktopControlView {
    Offer { offer: RemoteDesktopOfferView },
    Answer { session_id: Seq<char>, accepted: bool, reason: Option<Seq<char>> },
    Permission { session_id: Seq<char>, allow_control: bool },
    Stop { session_id: Seq<char>, reason: Seq<char> },
    Input { session_id: Seq<char>, sequence: u64, event: RemoteInputEventView },
    KeyframeRequest { session_id: Seq<char> },
}

impl View for RemoteDesktopControl {
    type V = RemoteDesktopControlView;

    open spec fn view(&self) -> RemoteDesktopControlView {
        match self {
            RemoteDesktopControl::Offer { offer } => RemoteDesktopControlView::Offer {
                offer: offer@,
            },
            RemoteDesktopControl::Answer {
                session_id,
                accepted,
                reason,
            } => RemoteDesktopControlView::Answer {
                session_id: session_id@,
                accepted: *accepted,
                reason: text::opt_text(*reason),
            },
            RemoteDesktopControl::Permission {
                session_id,
                allow_control,
            } => RemoteDesktopControlView::Permission {
                session_id: session_id@,
                allow_control: *allow_control,
            },
            RemoteDesktopControl::Stop { session_id, reason } => RemoteDesktopControlView::Stop {
                session_id: session_id@,
                reason: reason@,
            },
            RemoteDesktopControl::Input {
                session_id,
                sequence,
                event,
            } => RemoteDesktopControlView::Input {
                session_id: session_id@,
                sequence: *sequence,
                event: event@,
            },
            RemoteDesktopControl::KeyframeRequest {
                session_id,
            } => RemoteDesktopControlView::KeyframeRequest {
                session_id: session_id@,
            },
        }
    }
}

impl Clone for RemoteDesktopControl {
    fn clone(&self) -> (r: Self)
        ensures
            r@ == self@,
    {
        match self {
            RemoteDesktopControl::Offer { offer } => RemoteDesktopControl::Offer {
                offer: offer.clone(),
            },
            RemoteDesktopControl::Answer {
                session_id,
                accepted,
                reason,
            } => RemoteDesktopControl::Answer {
                session_id: session_id.clone(),
                accepted: *accepted,
                reason: text::clone_opt(reason),
            },
            RemoteDesktopControl::Permission {
                session_id,
                allow_control,
            } => RemoteDesktopControl::Permission {
                session_id: session_id.clone(),
                allow_control: *allow_control,
            },
            RemoteDesktopControl::Stop { session_id, reason } => RemoteDesktopControl::Stop {
                session_id: session_id.clone(),
                reason: reason.clone(),
            },
            RemoteDesktopControl::Input {
                session_id,
                sequence,
                event,
            } => RemoteDesktopControl::Input {
                session_id: session_id.clone(),
                sequence: *sequence,
                event: event.clone(),
            },
            RemoteDesktopControl::KeyframeRequest {
                session_id,
            } => RemoteDesktopControl::KeyframeRequest {
                session_id: session_id.clone(),
            },
        }
    }
}

/// What precedes the encoded patches of a frame.
#[derive(Debug, PartialEq, Eq)]
pub struct RemoteDesktopFrameHeader {
    pub stream_type: String,
    pub session_id: String,
    pub frame_id: u64,
    pub width: u32,
    pub height: u32,
    pub keyframe: bool,
    pub patches: Vec<RemoteDesktopPatch>,
}

#[verifier::ext_equal]
pub struct RemoteDesktopFrameHeaderView {
    pub stream_type: Seq<char>,
    pub session_id: Seq<char>,
    pub frame_id: u64,
    pub width: u32,
    pub height: u32,
    pub keyframe: bool,
    pub patches: Seq<RemoteDesktopPatch>,
}

impl View for RemoteDesktopFrameHeader {
    type V = RemoteDesktopFrameHeaderView;

    open spec fn view(&self) -> RemoteDesktopFrameHeaderView {
        RemoteDesktopFrameHeaderView {
            stream_type: self.stream_type@,
            session_id: self.session_id@,
            frame_id: self.frame_id,
            width: self.width,
            height: self.height,
            keyframe: self.keyframe,
            patches: self.patches@,
        }
    }
}

impl Clone for RemoteDesktopFrameHeader {
    fn clone(&self) -> (r: Self)
        ensures
            r@ == self@,
    {
        RemoteDesktopFrameHeader {
            stream_type: self.stream_type.clone(),
            session_id: self.session_id.clone(),
            frame_id: self.frame_id,
            width: self.width,
            height: self.height,
            keyframe: self.keyframe,
            patches: self.patches.clone(),
        }
    }
}

/// A frame: its header and the encoded patches one after the other.
#[derive(Debug, PartialEq, Eq)]
pub struct RemoteDesktopFrame {
    pub header: RemoteDesktopFrameHeader,
    pub payload: Vec<u8>,
}

#[verifier::ext_equal]
pub struct RemoteDesktopFrameView {
    pub header: RemoteDesktopFrameHeaderView,
    pub payload: Seq<u8>,
}

impl View for RemoteDesktopFrame {
    type V = RemoteDesktopFrameView;

    open spec fn view(&self) -> RemoteDesktopFrameView {
        RemoteDesktopFrameView {
            header: self.header@,
            payload: self.payload@,
        }
    }
}

impl Clone for RemoteDesktopFrame {
    fn clone(&self) -> (r: Self)
        ensures
            r@ == self@,
    {
        RemoteDesktopFrame {
            header: self.header.clone(),
            payload: self.payload.clone(),
        }
    }
}

/// Where a shared desktop stands.
#[derive(Debug, PartialEq, Eq)]
pub enum RemoteDesktopState {
    Idle,
    OutgoingPending(RemoteDesktopOffer),
    IncomingPending(RemoteDesktopOffer),
    Sharing { session_id: String, allow_control: bool },
    Viewing { session_id: String, can_control: bool },
}

#[verifier::ext_equal]
pub enum RemoteDesktopStateView {
    Idle,
    OutgoingPending(RemoteDesktopOfferView),
    IncomingPending(RemoteDesktopOfferView),
    Sharing { session_id: Seq<char>, allow_control: bool },
    Viewing { session_id: Seq<char>, can_control: bool },
}

impl View for RemoteDesktopState {
    type V = RemoteDesktopStateView;

    open spec fn view(&self) -> RemoteDesktopStateView {
        match self {
            RemoteDesktopState::Idle => RemoteDesktopStateView::Idle,
            RemoteDesktopState::OutgoingPending(a) => RemoteDesktopStateView::OutgoingPending(a@),
            RemoteDesktopState::IncomingPending(a) => RemoteDesktopStateView::IncomingPending(a@),
            RemoteDesktopState::Sharing {
                session_id,
                allow_control,
            } => RemoteDesktopStateView::Sharing {
                session_id: session_id@,
                allow_control: *allow_control,
            },
            RemoteDesktopState::Viewing {
                session_id,
                can_control,
            } => RemoteDesktopStateView::Viewing {
                session_id: session_id@,
                can_control: *can_control,
            },
        }
    }
}

impl Clone for RemoteDesktopState {
    fn clone(&self) -> (r: Self)
        ensures
            r@ == self@,
    {
        match self {
            RemoteDesktopState::Idle => RemoteDesktopState::Idle,
            RemoteDesktopState::OutgoingPending(a) => RemoteDesktopState::OutgoingPending(a.clone()),
            RemoteDesktopState::IncomingPending(a) => RemoteDesktopState::IncomingPending(a.clone()),
            RemoteDesktopState::Sharing {
                session_id,
                allow_control,
            } => RemoteDesktopState::Sharing {
                session_id: session_id.clone(),
                allow_control: *allow_control,
            },
            RemoteDesktopState::Viewing { session_id, can_control } => RemoteDesktopState::Viewing {
                session_id: session_id.clone(),
                can_control: *can_control,
            },
        }
    }
}

/// What the user interface is told about a shared desktop.
#[derive(Debug, PartialEq, Eq)]
pub enum RemoteDesktopEvent {
    PeerAvailabilityChanged(bool),
    IncomingOffer(RemoteDesktopOffer),
    SharingStarted(RemoteDesktopOffer),
    StateChanged(RemoteDesktopState),
    FrameAvailable { session_id: String, frame_id: u64 },
    Input(RemoteInputEvent),
    KeyframeRequested(String),
    Error { session_id: Option<String>, message: String },
}

#[verifier::ext_equal]
pub enum RemoteDesktopEventView {
    PeerAvailabilityChanged(bool),
    IncomingOffer(RemoteDesktopOfferView),
    SharingStarted(RemoteDesktopOfferView),
    StateChanged(RemoteDesktopStateView),
    FrameAvailable { session_id: Seq<char>, frame_id: u64 },
    Input(RemoteInputEventView),
    KeyframeRequested(Seq<char>),
    Error { session_id: Option<Seq<char>>, message: Seq<char> },
}

impl View for RemoteDesktopEvent {
    type V = RemoteDesktopEventView;

    open spec fn view(&self) -> RemoteDesktopEventView {
        match self {
            RemoteDesktopEvent::PeerAvailabilityChanged(a) => RemoteDesktopEventView::PeerAvailabilityChanged(*a),
            RemoteDesktopEvent::IncomingOffer(a) => RemoteDesktopEventView::IncomingOffer(a@),
            RemoteDesktopEvent::SharingStarted(a) => RemoteDesktopEventView::SharingStarted(a@),
            RemoteDesktopEvent::StateChanged(a) => RemoteDesktopEventView::StateChanged(a@),
            RemoteDesktopEvent::FrameAvailable {
                session_id,
                frame_id,
            } => RemoteDesktopEventView::FrameAvailable {
                session_id: session_id@,
                frame_id: *frame_id,
            },
            RemoteDesktopEvent::Input(a) => RemoteDesktopEventView::Input(a@),
            RemoteDesktopEvent::KeyframeRequested(a) => RemoteDesktopEventView::KeyframeRequested(a@),
            RemoteDesktopEvent::Error { session_id, message } => RemoteDesktopEventView::Error {
                session_id: text::opt_text(*session_id),
                message: message@,
            },
        }
    }
}

impl Clone for RemoteDesktopEvent {
    fn clone(&self) -> (r: Self)
        ensures
            r@ == self@,
    {
        match self {
            RemoteDesktopEvent::PeerAvailabilityChanged(a) => RemoteDesktopEvent::PeerAvailabilityChanged(*a),
            RemoteDesktopEvent::IncomingOffer(a) => RemoteDesktopEvent::IncomingOffer(a.clone()),
            RemoteDesktopEvent::SharingStarted(a) => RemoteDesktopEvent::SharingStarted(a.clone()),
            RemoteDesktopEvent::StateChanged(a) => RemoteDesktopEvent::StateChanged(a.clone()),
            RemoteDesktopEvent::FrameAvailable {
                session_id,
                frame_id,
            } => RemoteDesktopEvent::FrameAvailable {
                session_id: session_id.clone(),
                frame_id: *frame_id,
            },
            RemoteDesktopEvent::Input(a) => RemoteDesktopEvent::Input(a.clone()),
            RemoteDesktopEvent::KeyframeRequested(a) => RemoteDesktopEvent::KeyframeRequested(a.clone()),
            RemoteDesktopEvent::Error { session_id, message } => RemoteDesktopEvent::Error {
                session_id: text::clone_opt(session_id),
                message: message.clone(),
            },
        }
    }
}

impl RemoteInputEventView {
    /// Nothing, or what is wrong with the event.
    pub open spec fn checked(self) -> Result<(), DesktopError> {
        match self {
            RemoteInputEventView::Wheel { delta, .. } if !(-1200 <= delta <= 1200) => Err(
                DesktopError::WheelDelta,
            ),
            RemoteInputEventView::Text { text } if text.len() > 64 => Err(DesktopError::TextLength),
            _ => Ok(()),
        }
    }
}

impl RemoteInputEvent {
    pub fn validate(&self) -> (r: Result<(), DesktopError>)
        ensures
            r == self@.checked(),
    {
        match self {
            RemoteInputEvent::Wheel { delta, .. } => {
                if *delta < -1200 || *delta > 1200 {
                    Err(DesktopError::WheelDelta)
                } else {
                    Ok(())
                }
            },
            RemoteInputEvent::Text { text } => {
                if text::chars_of(text.as_str()).len() > 64 {
                    Err(DesktopError::TextLength)
                } else {
                    Ok(())
                }
            },
            _ => Ok(()),
        }
    }
}

impl RemoteDesktopPatch {
    /// Is the patch a rectangle inside a picture of this size?
    pub open spec fn lies_in(self, width: u32, height: u32) -> bool {
        &&& self.width > 0
        &&& self.height > 0
        &&& self.x + self.width <= width
        &&& self.y + self.height <= height
    }
}

/// The length of the patches' payload, or what is wrong with the first patch that is not in order.
pub open spec fn payload_len(patches: Seq<RemoteDesktopPatch>, width: u32, height: u32) -> Result<
    int,
    DesktopError,
>
    decreases patches.len(),
{
    if patches.len() == 0 {
        Ok(0)
    } else {
        match payload_len(patches.drop_last(), width, height) {
            Err(e) => Err(e),
            Ok(n) => {
                if !patches.last().lies_in(width, height) {
                    Err(DesktopError::PatchBounds)
                } else if n + patches.last().encoded_len > usize::MAX {
                    Err(DesktopError::LengthOverflow)
                } else {
                    Ok(n + patches.last().encoded_len)
                }
            },
        }
    }
}

impl RemoteDesktopFrameHeaderView {
    /// The length of the payload that belongs to the header, or what is wrong with the header.
    pub open spec fn checked(self) -> Result<int, DesktopError> {
        let size = RemoteDesktopConfig { width: self.width, height: self.height, max_fps: 1 };
        if self.stream_type != REMOTE_DESKTOP_STREAM_TYPE@ {
            Err(DesktopError::StreamType)
        } else if self.session_id.len() == 0 {
            Err(DesktopError::EmptySessionId)
        } else if size.checked() is Err {
            Err(size.checked()->Err_0)
        } else if self.patches.len() > MAX_DESKTOP_PATCHES {
            Err(DesktopError::PatchCount)
        } else {
            match payload_len(self.patches, self.width, self.height) {
                Err(e) => Err(e),
                Ok(n) => if n > MAX_DESKTOP_PAYLOAD {
                    Err(DesktopError::FrameLength)
                } else {
                    Ok(n)
                },
            }
        }
    }
}

proof fn lemma_payload_len_prefix(
    patches: Seq<RemoteDesktopPatch>,
    width: u32,
    height: u32,
    k: int,
)
    requires
        0 <= k <= patches.len(),
        payload_len(patches.take(k), width, height) is Err,
    ensures
        payload_len(patches, width, height) == payload_len(patches.take(k), width, height),
    decreases patches.len(),
{
    if k == patches.len() {
        assert(patches.take(k) == patches);
    } else {
        assert(patches.drop_last().take(k) == patches.take(k));
        lemma_payload_len_prefix(patches.drop_last(), width, height, k);
    }
}

impl RemoteDesktopFrameHeader {
    pub fn validate(&self) -> (r: Result<usize, DesktopError>)
        ensures
            match (r, self@.checked()) {
                (Ok(a), Ok(b)) => a == b,
                (Err(a), Err(b)) => a == b,
                _ => false,
            },
    {
        if !text::same_text(self.stream_type.as_str(), REMOTE_DESKTOP_STREAM_TYPE) {
            return Err(DesktopError::StreamType);
        }
        if self.session_id.as_str().is_empty() {
            return Err(DesktopError::EmptySessionId);
        }
        let size = RemoteDesktopConfig { width: self.width, height: self.height, max_fps: 1 };
        match size.validate() {
            Err(e) => {
                return Err(e);
            },
            Ok(_) => {},
        }
        if self.patches.len() > MAX_DESKTOP_PATCHES {
            return Err(DesktopError::PatchCount);
        }
        let ghost all = self.patches@;
        let mut sum: usize = 0;
        let mut i: usize = 0;
        while i < self.patches.len()
            invariant
                all == self.patches@,
                all.len() <= MAX_DESKTOP_PATCHES,
                self.stream_type@ == REMOTE_DESKTOP_STREAM_TYPE@,
                self.session_id@.len() > 0,
                size == (RemoteDesktopConfig { width: self.width, height: self.height, max_fps: 1 }),
                size.checked() is Ok,
                i <= all.len(),
                payload_len(all.take(i as int), self.width, self.height) == Ok::<int, DesktopError>(
                    sum as int,
                ),
            decreases all.len() - i,
        {
            let patch = self.patches[i];
            proof {
                assert(all.take(i + 1).drop_last() == all.take(i as int));
                assert(all.take(i + 1).last() == patch);
                if payload_len(all.take(i + 1), self.width, self.height) is Err {
                    lemma_payload_len_prefix(all, self.width, self.height, i + 1);
                }
            }
            if patch.width == 0 || patch.height == 0 || patch.x as u64 + patch.width as u64
                > self.width as u64 || patch.y as u64 + patch.height as u64 > self.height as u64 {
                return Err(DesktopError::PatchBounds);
            }
            sum = match sum.checked_add(patch.encoded_len as usize) {
                Some(n) => n,
                None => {
                    return Err(DesktopError::LengthOverflow);
                },
            };
            i += 1;
        }
        assert(all.take(i as int) == all);
        if sum > MAX_DESKTOP_PAYLOAD {
            return Err(DesktopError::FrameLength);
        }
        Ok(sum)
    }
}

impl RemoteDesktopFrameView {
    /// Nothing, or what is wrong with the frame.
    pub open spec fn checked(self) -> Result<(), DesktopError> {
        match self.header.checked() {
            Err(e) => Err(e),
            Ok(n) => if n != self.payload.len() {
                Err(DesktopError::PayloadLength)
            } else {
                Ok(())
            },
        }
    }
}

impl RemoteDesktopFrame {
    pub fn validate(&self) -> (r: Result<(), DesktopError>)
        ensures
            r == self@.checked(),
    {
        match self.header.validate() {
            Err(e) => Err(e),
            Ok(expected) => {
                if expected != self.payload.len() {
                    Err(DesktopError::PayloadLength)
                } else {
                    Ok(())
                }
            },
        }
    }
}

/// The bytes that the patches say they take.
pub open spec fn encoded_sum(patches: Seq<RemoteDesktopPatch>) -> int
    decreases patches.len(),
{
    if patches.len() == 0 {
        0
    } else {
        encoded_sum(patches.drop_last()) + patches.last().encoded_len
    }
}

/// Is every patch a rectangle of the picture?
pub open spec fn patches_lie_inside(
    patches: Seq<RemoteDesktopPatch>,
    width: u32,
    height: u32,
) -> bool {
    forall|k: int|
        0 <= k < patches.len() ==> {
            let p = #[trigger] patches[k];
            &&& p.width > 0
            &&& p.height > 0
            &&& p.x + p.width <= width
            &&& p.y + p.height <= height
        }
}

proof fn lemma_payload_is_the_sum(patches: Seq<RemoteDesktopPatch>, width: u32, height: u32)
    ensures
        payload_len(patches, width, height) is Ok ==> {
            &&& payload_len(patches, width, height)->Ok_0 == encoded_sum(patches)
            &&& patches_lie_inside(patches, width, height)
        },
        patches_lie_inside(patches, width, height) && encoded_sum(patches) <= usize::MAX
            ==> payload_len(patches, width, height) is Ok,
        encoded_sum(patches) >= 0,
    decreases patches.len(),
{
    if patches.len() > 0 {
        let front = patches.drop_last();
        lemma_payload_is_the_sum(front, width, height);
        let last = patches[patches.len() - 1];
        assert(last == patches.last());
        if payload_len(patches, width, height) is Ok {
            assert forall|k: int| 0 <= k < patches.len() implies {
                let p = #[trigger] patches[k];
                &&& p.width > 0
                &&& p.height > 0
                &&& p.x + p.width <= width
                &&& p.y + p.height <= height
            } by {
                if k < front.len() {
                    assert(front[k] == patches[k]);
                }
            }
        }
        if patches_lie_inside(patches, width, height) {
            assert forall|k: int| 0 <= k < front.len() implies {
                let p = #[trigger] front[k];
                &&& p.width > 0
                &&& p.height > 0
                &&& p.x + p.width <= width
                &&& p.y + p.height <= height
            } by {
                assert(front[k] == patches[k]);
            }
        }
    }
}

/// A header is in order exactly if it is one of a frame, names a session, has a size that can be
/// sent, and has no more than sixty patches, all inside the picture and no longer together than
/// eight megabytes. A frame is in order exactly if its header is and its payload is as long as the
/// patches say.
pub proof fn a_frame_in_order_fits_its_picture(frame: RemoteDesktopFrameView)
    ensures
        ({
            let h = frame.header;
            let good = h.stream_type == "desktop-frame"@ && h.session_id.len() > 0 && 0 < h.width
                <= 1280 && 0 < h.height <= 720 && h.patches.len() <= 60 && patches_lie_inside(
                h.patches,
                h.width,
                h.height,
            ) && encoded_sum(h.patches) <= 8388608;
            &&& h.checked() is Ok <==> good
            &&& good ==> h.checked()->Ok_0 == encoded_sum(h.patches)
            &&& frame.checked() is Ok <==> good && encoded_sum(h.patches) == frame.payload.len()
        }),
{
    let h = frame.header;
    lemma_payload_is_the_sum(h.patches, h.width, h.height);
}

/// Input is valid unless it turns the wheel by more than ten notches either way or types more than
/// sixty-four characters at once. A size and a rate are valid if they are neither zero nor more than
/// can be sent. What is wrong is told.
pub proof fn input_and_sizes_have_limits(event: RemoteInputEventView, config: RemoteDesktopConfig)
    ensures
        event matches RemoteInputEventView::Wheel { delta, .. } ==> event.checked() == if delta
            < -1200 || delta > 1200 {
            Err::<(), DesktopError>(DesktopError::WheelDelta)
        } else {
            Ok(())
        },
        event matches RemoteInputEventView::Text { text } ==> event.checked() == if text.len()
            >= 65 {
            Err::<(), DesktopError>(DesktopError::TextLength)
        } else {
            Ok(())
        },
        !(event is Wheel) && !(event is Text) ==> event.checked() is Ok,
        config.checked() == if config.width == 0 || config.width > 1280 || config.height == 0
            || config.height > 720 {
            Err::<RemoteDesktopConfig, DesktopError>(
                DesktopError::Size { width: config.width, height: config.height },
            )
        } else if config.max_fps == 0 || config.max_fps > 15 {
            Err(DesktopError::Rate { max_fps: config.max_fps })
        } else {
            Ok(config)
        },
{
}

/// What is wrong with a frame is told by the first thing that is: its type, its session, its size, how
/// many patches it has, where a patch lies, how long it is, and that its payload has another length.
pub proof fn the_first_fault_of_a_frame_is_told(frame: RemoteDesktopFrameView)
    ensures
        ({
            let h = frame.header;
            let typed = h.stream_type == "desktop-frame"@;
            let named = typed && h.session_id.len() > 0;
            let sized = named && 0 < h.width <= 1280 && 0 < h.height <= 720;
            let counted = sized && h.patches.len() <= 60;
            let placed = counted && patches_lie_inside(h.patches, h.width, h.height);
            &&& !typed ==> h.checked() == Err::<int, DesktopError>(DesktopError::StreamType)
            &&& typed && !named ==> h.checked() == Err::<int, DesktopError>(
                DesktopError::EmptySessionId,
            )
            &&& named && !sized ==> h.checked() == Err::<int, DesktopError>(
                DesktopError::Size { width: h.width, height: h.height },
            )
            &&& sized && !counted ==> h.checked() == Err::<int, DesktopError>(
                DesktopError::PatchCount,
            )
            &&& placed && encoded_sum(h.patches) > 8388608 && encoded_sum(h.patches) <= usize::MAX
                ==> h.checked() == Err::<int, DesktopError>(DesktopError::FrameLength)
            &&& h.checked() is Err ==> frame.checked() is Err && frame.checked()->Err_0
                == h.checked()->Err_0
            &&& h.checked() is Ok && h.checked()->Ok_0 != frame.payload.len() ==> frame.checked()
                == Err::<(), DesktopError>(DesktopError::PayloadLength)
        }),
{
    let h = frame.header;
    lemma_payload_is_the_sum(h.patches, h.width, h.height);
}

/// The first patch that is not a rectangle of the picture is what is wrong.
pub proof fn a_patch_outside_is_told(
    patches: Seq<RemoteDesktopPatch>,
    patch: RemoteDesktopPatch,
    width: u32,
    height: u32,
)
    requires
        payload_len(patches, width, height) is Ok,
        patch.width == 0 || patch.height == 0 || patch.x + patch.width > width || patch.y
            + patch.height > height,
    ensures
        payload_len(patches.push(patch), width, height) == Err::<int, DesktopError>(
            DesktopError::PatchBounds,
        ),
{
    assert(patches.push(patch).drop_last() =~= patches);
}

}
