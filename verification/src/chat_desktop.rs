//! The shared desktop as the user sees it.
use crate::capture::CaptureEvent;
use crate::chat::{
    action_views, joined, just, nothing, ChatModel, ChatModelView, InjectorPurpose, MainView,
    UiAction, UiActionView,
};
use crate::connection::ConnectionState;
use crate::frames::{
    ApplyError, DecodedFrame, DecodedFrameView, FrameDecoder, FrameDecoderView, FrameFault,
};
use crate::remote_desktop::{
    RemoteDesktopEvent, RemoteDesktopEventView, RemoteDesktopFrame, RemoteDesktopFrameView,
    RemoteDesktopOffer, RemoteDesktopOfferView, RemoteDesktopState, RemoteDesktopStateView,
    RemoteInputEvent, RemoteInputEventView,
};
use crate::scan_codes::Modifiers;
use crate::{desktop_session, fit, text};
use vstd::prelude::*;

verus! {

impl ChatModelView {
    /// The user wants to share the screen: the system is asked whether that is permitted.
    pub open spec fn sharing_wanted(self) -> (Self, Seq<UiActionView>) {
        if self.state != ConnectionState::Direct {
            (self.said("请等待直连建立后再共享屏幕。"@), Seq::empty())
        } else if !self.remote_peer_supported {
            (self.said("对方客户端不支持远程桌面。"@), Seq::empty())
        } else if !(self.remote_state is Idle) {
            (self.said("已有远程桌面会话。"@), Seq::empty())
        } else {
            (self, seq![UiActionView::AskPermissions { control: self.remote_allow_control }])
        }
    }

    /// The system has answered: the chosen display is offered to the peer.
    pub open spec fn offering(
        self,
        screen: Result<(), Seq<char>>,
        input: Result<(), Seq<char>>,
    ) -> (Self, Seq<UiActionView>) {
        if screen is Err {
            (self.said("无法共享屏幕："@ + screen->Err_0), Seq::empty())
        } else if self.remote_allow_control && input is Err {
            (
                self.said(
                    "无法授予远程控制："@ + input->Err_0
                        + "；可关闭控制权限后仅共享画面。"@,
                ),
                Seq::empty(),
            )
        } else if self.remote_display_index >= self.remote_displays.len() {
            (self.said("没有可共享的显示器。"@), Seq::empty())
        } else if !self.has_handle {
            (self, Seq::empty())
        } else {
            let display = self.remote_displays[self.remote_display_index as int];
            (
                ChatModelView { main_view: MainView::RemoteDesktop, ..self },
                seq![
                    UiActionView::OfferDesktop {
                        display,
                        config: fit::fitted(display.width, display.height),
                        allow_control: self.remote_allow_control,
                    },
                ],
            )
        }
    }

    /// The peer's offer is answered.
    pub open spec fn answering(self, accepted: bool) -> Seq<UiActionView> {
        match self.remote_offer {
            Some(offer) => self.asking(
                UiActionView::AnswerDesktop {
                    session_id: offer.session_id,
                    accepted,
                    reason: if accepted {
                        None
                    } else {
                        Some("用户拒绝观看共享屏幕"@)
                    },
                },
            ),
            None => Seq::empty(),
        }
    }

    /// The viewer is given control or loses it.
    pub open spec fn permitting(self, allow_control: bool) -> (Self, Seq<UiActionView>) {
        match self.remote_state {
            RemoteDesktopStateView::Sharing { session_id, .. } => {
                let permission = seq![UiActionView::SetPermission { session_id, allow_control }];
                if !self.has_handle {
                    (self, Seq::empty())
                } else if !allow_control {
                    (
                        ChatModelView { injecting: false, ..self },
                        (if self.injecting {
                            seq![UiActionView::ReleaseInputs]
                        } else {
                            Seq::empty()
                        }) + permission,
                    )
                } else if self.injecting {
                    (self, permission)
                } else {
                    match self.remote_offer {
                        Some(offer) => (
                            self,
                            seq![
                                UiActionView::OpenInjector {
                                    display_id: offer.display.id,
                                    purpose: InjectorPurpose::Permission,
                                },
                            ],
                        ),
                        None => (self.said("找不到当前共享的显示器。"@), Seq::empty()),
                    }
                }
            },
            _ => (self, Seq::empty()),
        }
    }

    /// The input of this machine was opened or not.
    pub open spec fn injector_opened(
        self,
        purpose: InjectorPurpose,
        outcome: Result<(), Seq<char>>,
    ) -> (Self, Seq<UiActionView>) {
        match purpose {
            InjectorPurpose::Permission => match outcome {
                Err(error) => (self.said("无法启用远程控制："@ + error), Seq::empty()),
                Ok(_) => (
                    ChatModelView { injecting: true, ..self },
                    match self.remote_state {
                        RemoteDesktopStateView::Sharing { session_id, .. } => self.asking(
                            UiActionView::SetPermission { session_id, allow_control: true },
                        ),
                        _ => Seq::empty(),
                    },
                ),
            },
            InjectorPurpose::Capture => match self.remote_offer {
                None => (self, Seq::empty()),
                Some(offer) => match outcome {
                    Err(error) => (
                        (ChatModelView { injecting: false, capturing: true, ..self }).said(
                            "初始化远程输入失败："@ + error,
                        ),
                        seq![
                            UiActionView::WithdrawPermission(offer.session_id),
                            UiActionView::StartCapture(offer),
                        ],
                    ),
                    Ok(_) => (
                        ChatModelView { injecting: true, capturing: true, ..self },
                        seq![UiActionView::StartCapture(offer)],
                    ),
                },
            },
        }
    }

    /// The screen is captured for the viewer, whose input is opened first where they may control.
    pub open spec fn capture_wanted(self, offer: RemoteDesktopOfferView) -> (
        Self,
        Seq<UiActionView>,
    ) {
        let s = ChatModelView { remote_offer: Some(offer), ..self.freed() };
        if !self.has_handle {
            (self.freed(), self.freeing())
        } else if offer.allow_control {
            (
                s,
                self.freeing() + seq![
                    UiActionView::OpenInjector {
                        display_id: offer.display.id,
                        purpose: InjectorPurpose::Capture,
                    },
                ],
            )
        } else {
            (
                ChatModelView { capturing: true, ..s },
                self.freeing() + seq![UiActionView::StartCapture(offer)],
            )
        }
    }

    /// The session with the shared desktop is ended.
    pub open spec fn stopping(self, reason: Seq<char>) -> Seq<UiActionView> {
        match self.remote_state.session() {
            Some(session_id) => self.asking(UiActionView::StopDesktop { session_id, reason }),
            None => Seq::empty(),
        }
    }

    /// Input for the desktop that is viewed, if it may be controlled. Each gets a number.
    pub open spec fn steering(self, event: RemoteInputEventView) -> (Self, Seq<UiActionView>) {
        match self.remote_state {
            RemoteDesktopStateView::Viewing { session_id, can_control } => if can_control
                && self.has_handle {
                let sequence = if self.remote_input_sequence == u64::MAX {
                    u64::MAX
                } else {
                    (self.remote_input_sequence + 1) as u64
                };
                (
                    ChatModelView { remote_input_sequence: sequence, ..self },
                    seq![UiActionView::SendInput { session_id, sequence, event }],
                )
            } else {
                (self, Seq::empty())
            },
            _ => (self, Seq::empty()),
        }
    }

    /// The keyboard no longer goes to the desktop that is viewed, and nothing is held down there.
    pub open spec fn keyboard_released(self) -> (Self, Seq<UiActionView>) {
        let (s, actions) = (ChatModelView { remote_keyboard_captured: false, ..self }).steering(
            RemoteInputEventView::ReleaseAll,
        );
        (ChatModelView { remote_modifiers: Modifiers::spec_none(), ..s }, actions)
    }

    /// The user turns to another page.
    pub open spec fn turned_to(self, page: MainView) -> (Self, Seq<UiActionView>) {
        let s = ChatModelView { main_view: page, ..self };
        if self.main_view != page && self.remote_keyboard_captured {
            s.keyboard_released()
        } else {
            (s, Seq::empty())
        }
    }

    /// The state of the shared desktop is another one. Who starts to view gets a fresh picture.
    pub open spec fn desktop_changed(self, state: RemoteDesktopStateView) -> (
        Self,
        Seq<UiActionView>,
    ) {
        match state {
            RemoteDesktopStateView::Idle => {
                let s = ChatModelView { remote_state: state, ..self };
                (s.freed(), s.freeing())
            },
            RemoteDesktopStateView::Viewing { session_id, .. } => {
                let goes_on = self.remote_decoder is Some && self.remote_state is Viewing
                    && self.remote_state->Viewing_session_id == session_id;
                (
                    ChatModelView {
                        remote_decoder: if goes_on {
                            self.remote_decoder
                        } else {
                            Some(FrameDecoderView::start(session_id))
                        },
                        remote_frame_size: if goes_on {
                            self.remote_frame_size
                        } else {
                            None
                        },
                        main_view: MainView::RemoteDesktop,
                        remote_state: state,
                        ..self
                    },
                    Seq::empty(),
                )
            },
            _ => (ChatModelView { remote_state: state, ..self }, Seq::empty()),
        }
    }

    /// The session tells something of a shared desktop.
    pub open spec fn desktop_event(self, event: RemoteDesktopEventView) -> (
        Self,
        Seq<UiActionView>,
    ) {
        match event {
            RemoteDesktopEventView::PeerAvailabilityChanged(supported) => {
                let s = ChatModelView { remote_peer_supported: supported, ..self };
                (
                    if supported {
                        s.said("对方支持远程桌面。"@)
                    } else {
                        s
                    },
                    Seq::empty(),
                )
            },
            RemoteDesktopEventView::IncomingOffer(offer) => (
                (ChatModelView {
                    remote_offer: Some(offer),
                    remote_state: RemoteDesktopStateView::IncomingPending(offer),
                    main_view: MainView::RemoteDesktop,
                    ..self
                }).said("对方请求共享屏幕。"@),
                Seq::empty(),
            ),
            RemoteDesktopEventView::SharingStarted(offer) => {
                let (s, actions) = self.capture_wanted(offer);
                (ChatModelView { main_view: MainView::RemoteDesktop, ..s }, actions)
            },
            RemoteDesktopEventView::StateChanged(state) => self.desktop_changed(state),
            RemoteDesktopEventView::FrameAvailable { session_id, .. } => (
                self,
                self.asking(UiActionView::TakeFrame(session_id)),
            ),
            RemoteDesktopEventView::Input(event) => (
                self,
                if self.injecting {
                    seq![UiActionView::Inject(event)]
                } else {
                    Seq::empty()
                },
            ),
            RemoteDesktopEventView::KeyframeRequested(_) => (
                self,
                if self.capturing {
                    seq![UiActionView::ForceKeyframe]
                } else {
                    Seq::empty()
                },
            ),
            RemoteDesktopEventView::Error { message, .. } => (
                self.told("远程桌面错误："@ + message),
                Seq::empty(),
            ),
        }
    }

    /// The viewer's input could not be carried out: they lose control.
    pub open spec fn injection_failed(self, error: Seq<char>) -> (Self, Seq<UiActionView>) {
        (ChatModelView { injecting: false, ..self.told("远程输入失败："@ + error) }).permitting(
            false,
        )
    }

    /// The decoder for the session's frames.
    pub open spec fn decoder_for(self, session_id: Seq<char>) -> FrameDecoderView {
        match self.remote_decoder {
            Some(decoder) => decoder,
            None => FrameDecoderView::start(session_id),
        }
    }

    /// A frame of the desktop that is viewed has come.
    pub open spec fn frame_taken(self, session_id: Seq<char>, frame: RemoteDesktopFrameView) -> (
        Self,
        Option<FrameFault>,
    ) {
        let (decoder, fault) = self.decoder_for(session_id).apply(frame);
        (
            ChatModelView {
                remote_decoder: Some(decoder),
                remote_frame_size: if fault is None {
                    Some((decoder.width, decoder.height))
                } else {
                    self.remote_frame_size
                },
                ..self
            },
            fault,
        )
    }

    /// A frame could not be shown: a whole picture is asked for.
    pub open spec fn frame_failed(self, session_id: Seq<char>, error: Seq<char>) -> (
        Self,
        Seq<UiActionView>,
    ) {
        if self.has_handle {
            (
                self.said("远程画面需要关键帧："@ + error),
                seq![UiActionView::RequestKeyframe(session_id)],
            )
        } else {
            (self, Seq::empty())
        }
    }

    /// The capture is over, with an error or because it was to be.
    pub open spec fn capture_ended(self, error: Option<Seq<char>>) -> (Self, Seq<UiActionView>) {
        match error {
            Some(error) => self.capture_failed(error),
            None => (self, Seq::empty()),
        }
    }

    /// The capture of the screen has failed.
    pub open spec fn capture_failed(self, error: Seq<char>) -> (Self, Seq<UiActionView>) {
        let s = self.told("屏幕采集失败："@ + error);
        (s, s.stopping("屏幕采集失败"@))
    }
}

impl ChatModel {
    pub fn start_remote_desktop_offer(&mut self) -> (r: Vec<UiAction>)
        ensures
            (final(self)@, action_views(r@)) == old(self)@.sharing_wanted(),
    {
        if self.state != ConnectionState::Direct {
            self.push_system("请等待直连建立后再共享屏幕。".to_owned());
            return nothing();
        }
        if !self.remote_peer_supported {
            self.push_system("对方客户端不支持远程桌面。".to_owned());
            return nothing();
        }
        match &self.remote_state {
            RemoteDesktopState::Idle => just(
                UiAction::AskPermissions { control: self.remote_allow_control },
            ),
            _ => {
                self.push_system("已有远程桌面会话。".to_owned());
                nothing()
            },
        }
    }

    pub fn permissions_asked(&mut self, screen: Result<(), String>, input: Result<(), String>) -> (r:
        Vec<UiAction>)
        ensures
            (final(self)@, action_views(r@)) == old(self)@.offering(
                text::error_text(screen),
                text::error_text(input),
            ),
    {
        if let Err(error) = screen {
            self.push_system(text::concat("无法共享屏幕：", error.as_str()));
            return nothing();
        }
        if self.remote_allow_control {
            if let Err(error) = input {
                self.push_system(
                    text::concat3(
                        "无法授予远程控制：",
                        error.as_str(),
                        "；可关闭控制权限后仅共享画面。",
                    ),
                );
                return nothing();
            }
        }
        if self.remote_display_index >= self.remote_displays.len() {
            self.push_system("没有可共享的显示器。".to_owned());
            return nothing();
        }
        if !self.has_handle {
            return nothing();
        }
        let display = self.remote_displays[self.remote_display_index].clone();
        let config = fit::fit_dimensions(display.width, display.height);
        self.main_view = MainView::RemoteDesktop;
        just(UiAction::OfferDesktop { display, config, allow_control: self.remote_allow_control })
    }

    pub fn answer_remote_desktop_offer(&self, accepted: bool) -> (r: Vec<UiAction>)
        ensures
            action_views(r@) == self@.answering(accepted),
    {
        match &self.remote_offer {
            Some(offer) => {
                let reason = if accepted {
                    None
                } else {
                    Some("用户拒绝观看共享屏幕".to_owned())
                };
                self.ask(
                    UiAction::AnswerDesktop {
                        session_id: offer.session_id.clone(),
                        accepted,
                        reason,
                    },
                )
            },
            None => nothing(),
        }
    }

    pub fn update_remote_control_permission(&mut self, allow_control: bool) -> (r: Vec<UiAction>)
        ensures
            (final(self)@, action_views(r@)) == old(self)@.permitting(allow_control),
    {
        let session_id = match &self.remote_state {
            RemoteDesktopState::Sharing { session_id, .. } => session_id.clone(),
            _ => {
                return nothing();
            },
        };
        if !self.has_handle {
            return nothing();
        }
        if !allow_control {
            let released = if self.injecting {
                just(UiAction::ReleaseInputs)
            } else {
                nothing()
            };
            self.injecting = false;
            return joined(released, just(UiAction::SetPermission { session_id, allow_control }));
        }
        if self.injecting {
            return just(UiAction::SetPermission { session_id, allow_control });
        }
        match &self.remote_offer {
            Some(offer) => just(
                UiAction::OpenInjector {
                    display_id: offer.display.id.clone(),
                    purpose: InjectorPurpose::Permission,
                },
            ),
            None => {
                self.push_system("找不到当前共享的显示器。".to_owned());
                nothing()
            },
        }
    }

    pub fn injector_opened(&mut self, purpose: InjectorPurpose, outcome: Result<(), String>) -> (r:
        Vec<UiAction>)
        ensures
            (final(self)@, action_views(r@)) == old(self)@.injector_opened(
                purpose,
                text::error_text(outcome),
            ),
    {
        match purpose {
            InjectorPurpose::Permission => match outcome {
                Err(error) => {
                    self.push_system(text::concat("无法启用远程控制：", error.as_str()));
                    nothing()
                },
                Ok(_) => {
                    self.injecting = true;
                    match &self.remote_state {
                        RemoteDesktopState::Sharing { session_id, .. } => self.ask(
                            UiAction::SetPermission {
                                session_id: session_id.clone(),
                                allow_control: true,
                            },
                        ),
                        _ => nothing(),
                    }
                },
            },
            InjectorPurpose::Capture => {
                let offer = match &self.remote_offer {
                    Some(offer) => offer.clone(),
                    None => {
                        return nothing();
                    },
                };
                self.capturing = true;
                match outcome {
                    Err(error) => {
                        self.injecting = false;
                        self.push_system(text::concat("初始化远程输入失败：", error.as_str()));
                        let session_id = offer.session_id.clone();
                        let r = joined(
                            just(UiAction::WithdrawPermission(session_id)),
                            just(UiAction::StartCapture(offer)),
                        );
                        assert(action_views(r@) =~= seq![
                            UiActionView::WithdrawPermission(offer@.session_id),
                            UiActionView::StartCapture(offer@),
                        ]);
                        r
                    },
                    Ok(_) => {
                        self.injecting = true;
                        just(UiAction::StartCapture(offer))
                    },
                }
            },
        }
    }

    pub fn start_capture_worker(&mut self, offer: RemoteDesktopOffer) -> (r: Vec<UiAction>)
        ensures
            (final(self)@, action_views(r@)) == old(self)@.capture_wanted(offer@),
    {
        let freeing = self.cleanup_remote_desktop_resources();
        if !self.has_handle {
            return freeing;
        }
        self.remote_offer = Some(offer.clone());
        if offer.allow_control {
            return joined(
                freeing,
                just(
                    UiAction::OpenInjector {
                        display_id: offer.display.id,
                        purpose: InjectorPurpose::Capture,
                    },
                ),
            );
        }
        self.capturing = true;
        joined(freeing, just(UiAction::StartCapture(offer)))
    }

    pub fn stop_remote_desktop(&self, reason: String) -> (r: Vec<UiAction>)
        ensures
            action_views(r@) == self@.stopping(reason@),
    {
        match desktop_session::remote_state_session_id(&self.remote_state) {
            Some(session_id) => self.ask(
                UiAction::StopDesktop { session_id: session_id.to_owned(), reason },
            ),
            None => nothing(),
        }
    }

    pub fn send_remote_input_event(&mut self, event: RemoteInputEvent) -> (r: Vec<UiAction>)
        ensures
            (final(self)@, action_views(r@)) == old(self)@.steering(event@),
    {
        let session_id = match &self.remote_state {
            RemoteDesktopState::Viewing { session_id, can_control } => {
                if !*can_control {
                    return nothing();
                }
                session_id.clone()
            },
            _ => {
                return nothing();
            },
        };
        if !self.has_handle {
            return nothing();
        }
        self.remote_input_sequence = self.remote_input_sequence.saturating_add(1);
        just(UiAction::SendInput { session_id, sequence: self.remote_input_sequence, event })
    }

    pub fn release_keyboard(&mut self) -> (r: Vec<UiAction>)
        ensures
            (final(self)@, action_views(r@)) == old(self)@.keyboard_released(),
    {
        self.remote_keyboard_captured = false;
        let r = self.send_remote_input_event(RemoteInputEvent::ReleaseAll);
        self.remote_modifiers = Modifiers::none();
        r
    }

    /// The user turns to a page.
    pub fn choose_view(&mut self, page: MainView) -> (r: Vec<UiAction>)
        ensures
            (final(self)@, action_views(r@)) == old(self)@.turned_to(page),
    {
        let turned = self.main_view != page;
        self.main_view = page;
        if turned && self.remote_keyboard_captured {
            return self.release_keyboard();
        }
        nothing()
    }

    fn change_desktop(&mut self, state: RemoteDesktopState) -> (r: Vec<UiAction>)
        ensures
            (final(self)@, action_views(r@)) == old(self)@.desktop_changed(state@),
    {
        match &state {
            RemoteDesktopState::Idle => {
                self.remote_state = state;
                return self.cleanup_remote_desktop_resources();
            },
            RemoteDesktopState::Viewing { session_id, .. } => {
                let same = match &self.remote_state {
                    RemoteDesktopState::Viewing { session_id: shown, .. } => text::same_text(
                        shown.as_str(),
                        session_id.as_str(),
                    ),
                    _ => false,
                };
                if self.remote_decoder.is_none() || !same {
                    self.remote_decoder = Some(FrameDecoder::new(session_id.clone()));
                    self.remote_frame_size = None;
                }
                self.main_view = MainView::RemoteDesktop;
            },
            _ => {},
        }
        self.remote_state = state;
        nothing()
    }

    pub fn handle_remote_desktop_event(&mut self, event: RemoteDesktopEvent) -> (r: Vec<UiAction>)
        ensures
            (final(self)@, action_views(r@)) == old(self)@.desktop_event(event@),
    {
        match event {
            RemoteDesktopEvent::PeerAvailabilityChanged(supported) => {
                self.remote_peer_supported = supported;
                if supported {
                    self.push_system("对方支持远程桌面。".to_owned());
                }
                nothing()
            },
            RemoteDesktopEvent::IncomingOffer(offer) => {
                self.remote_offer = Some(offer.clone());
                self.remote_state = RemoteDesktopState::IncomingPending(offer);
                self.main_view = MainView::RemoteDesktop;
                self.push_system("对方请求共享屏幕。".to_owned());
                nothing()
            },
            RemoteDesktopEvent::SharingStarted(offer) => {
                let r = self.start_capture_worker(offer);
                self.main_view = MainView::RemoteDesktop;
                r
            },
            RemoteDesktopEvent::StateChanged(state) => self.change_desktop(state),
            RemoteDesktopEvent::FrameAvailable { session_id, .. } => self.ask(
                UiAction::TakeFrame(session_id),
            ),
            RemoteDesktopEvent::Input(event) => {
                if self.injecting {
                    just(UiAction::Inject(event))
                } else {
                    nothing()
                }
            },
            RemoteDesktopEvent::KeyframeRequested(_) => {
                if self.capturing {
                    just(UiAction::ForceKeyframe)
                } else {
                    nothing()
                }
            },
            RemoteDesktopEvent::Error { message, .. } => {
                self.notice(text::concat("远程桌面错误：", message.as_str()));
                nothing()
            },
        }
    }

    pub fn injection_failed(&mut self, error: String) -> (r: Vec<UiAction>)
        ensures
            (final(self)@, action_views(r@)) == old(self)@.injection_failed(error@),
    {
        self.notice(text::concat("远程输入失败：", error.as_str()));
        self.injecting = false;
        self.update_remote_control_permission(false)
    }

    /// Takes up a frame and gives the picture to show.
    pub fn consume_remote_frame(&mut self, session_id: &str, frame: RemoteDesktopFrame) -> (r: Result<
        DecodedFrame,
        ApplyError,
    >)
        ensures
            final(self)@ == old(self)@.frame_taken(session_id@, frame@).0,
            match (r, old(self)@.frame_taken(session_id@, frame@).1) {
                (Err(e), Some(fault)) => e.fault() == fault,
                (Ok(shown), None) => {
                    let decoder = old(self)@.decoder_for(session_id@).apply(frame@).0;
                    shown@ == (DecodedFrameView {
                        width: decoder.width,
                        height: decoder.height,
                        rgba: decoder.rgba,
                    })
                },
                _ => false,
            },
    {
        let mut found: Option<FrameDecoder> = None;
        std::mem::swap(&mut found, &mut self.remote_decoder);
        let mut decoder = match found {
            Some(decoder) => decoder,
            None => FrameDecoder::new(session_id.to_owned()),
        };
        let r = decoder.apply(frame);
        self.remote_decoder = Some(decoder);
        if let Ok(shown) = &r {
            self.remote_frame_size = Some((shown.width, shown.height));
        }
        r
    }

    pub fn frame_failed(&mut self, session_id: String, error: String) -> (r: Vec<UiAction>)
        ensures
            (final(self)@, action_views(r@)) == old(self)@.frame_failed(session_id@, error@),
    {
        if !self.has_handle {
            return nothing();
        }
        self.push_system(text::concat("远程画面需要关键帧：", error.as_str()));
        just(UiAction::RequestKeyframe(session_id))
    }

    /// What is done when the capture of the screen tells something.
    pub fn capture_event(&mut self, event: CaptureEvent) -> (r: Vec<UiAction>)
        ensures
            (final(self)@, action_views(r@)) == match event {
                CaptureEvent::Error(error) => old(self)@.capture_failed(error@),
                CaptureEvent::Stopped => (old(self)@, Seq::<UiActionView>::empty()),
            },
            (final(self)@, action_views(r@)) == old(self)@.capture_ended(
                match event {
                    CaptureEvent::Error(error) => Some(error@),
                    CaptureEvent::Stopped => None,
                },
            ),
    {
        match event {
            CaptureEvent::Error(error) => {
                self.notice(text::concat("屏幕采集失败：", error.as_str()));
                self.stop_remote_desktop("屏幕采集失败".to_owned())
            },
            CaptureEvent::Stopped => nothing(),
        }
    }
}

/// Taking control away releases what is held down on this machine and closes its input.
pub proof fn control_ends_with_a_release(s: ChatModelView)
    requires
        s.remote_state is Sharing,
        s.has_handle,
        s.injecting,
    ensures
        !s.permitting(false).0.injecting,
        s.permitting(false).1[0] == UiActionView::ReleaseInputs,
{
}

/// The input of this machine is open only while the user lets the viewer control: nothing that the
/// session tells opens it, only the start of a shared desktop that was offered with control and the
/// user's own permission ask for it.
pub proof fn only_permission_opens_the_input(
    s: ChatModelView,
    event: RemoteDesktopEventView,
    i: int,
)
    requires
        0 <= i < s.desktop_event(event).1.len(),
        s.desktop_event(event).1[i] is OpenInjector,
    ensures
        event is SharingStarted,
        event->SharingStarted_0.allow_control,
        s.has_handle,
{
}

/// When the shared desktop is over, neither the screen is captured nor the input of this machine
/// open, and the next input starts to count anew.
pub proof fn an_idle_desktop_holds_nothing(s: ChatModelView)
    ensures
        ({
            let (t, actions) = s.desktop_event(
                RemoteDesktopEventView::StateChanged(RemoteDesktopStateView::Idle),
            );
            &&& t.remote_state is Idle
            &&& !t.capturing
            &&& !t.injecting
            &&& t.remote_offer is None
            &&& t.remote_decoder is None
            &&& t.remote_input_sequence == 0
            &&& s.capturing ==> actions[0] == UiActionView::StopCapture
            &&& s.injecting ==> actions.last() == UiActionView::ReleaseInputs
        }),
{
}

/// Input is numbered upwards.
pub proof fn inputs_are_numbered_upwards(
    s: ChatModelView,
    event: RemoteInputEventView,
    next: RemoteInputEventView,
)
    requires
        s.steering(event).1.len() > 0,
        s.remote_input_sequence < u64::MAX - 1,
    ensures
        ({
            let (t, first) = s.steering(event);
            let (u, second) = t.steering(next);
            &&& first.len() == 1
            &&& second.len() == 1
            &&& first[0]->SendInput_sequence < second[0]->SendInput_sequence
        }),
{
}

}
