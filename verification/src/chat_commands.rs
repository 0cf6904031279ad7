//! What is asked of the session, as commands for the direct link.
use crate::chat::{UiAction, UiActionView};
use crate::desktop_session::{self, DesktopRefusal};
use crate::remote_desktop::{RemoteDesktopOfferView, RemoteDesktopPlatform};
use crate::session::{DirectCommand, DirectCommandView};
use crate::{random, text};
use vstd::prelude::*;

verus! {

/// The command for an action, but for the offer of a desktop, which gets a fresh identifier.
pub open spec fn command_of(action: UiActionView) -> Option<DirectCommandView> {
    match action {
        UiActionView::SendText(text) => Some(DirectCommandView::Chat(text)),
        UiActionView::SendFile(path) => Some(DirectCommandView::OfferFile(path)),
        UiActionView::AcceptFile { transfer_id, path } => Some(
            DirectCommandView::AcceptFile { transfer_id, save_path: path },
        ),
        UiActionView::RejectFile { transfer_id, reason } => Some(
            DirectCommandView::RejectFile { transfer_id, reason },
        ),
        UiActionView::PauseTransfer(id) => Some(DirectCommandView::PauseTransfer(id)),
        UiActionView::ResumeTransfer(id) => Some(DirectCommandView::ResumeTransfer(id)),
        UiActionView::CancelTransfer { transfer_id, reason } => Some(
            DirectCommandView::CancelTransfer { transfer_id, reason },
        ),
        UiActionView::AnswerDesktop { session_id, accepted, reason } => Some(
            DirectCommandView::AnswerRemoteDesktop { session_id, accepted, reason },
        ),
        UiActionView::SetPermission { session_id, allow_control } => Some(
            DirectCommandView::SetRemoteDesktopPermission { session_id, allow_control },
        ),
        UiActionView::WithdrawPermission(session_id) => Some(
            DirectCommandView::SetRemoteDesktopPermission { session_id, allow_control: false },
        ),
        UiActionView::StopDesktop { session_id, reason } => Some(
            DirectCommandView::StopRemoteDesktop { session_id, reason },
        ),
        UiActionView::SendInput { session_id, sequence, event } => Some(
            DirectCommandView::RemoteInput { session_id, sequence, event },
        ),
        UiActionView::RequestKeyframe(session_id) => Some(
            DirectCommandView::RequestRemoteKeyframe(session_id),
        ),
        _ => None,
    }
}

/// Why an action makes no command: its input or its measures are not valid, or the platform cannot
/// share its desktop.
pub open spec fn command_fault(action: UiActionView, target_os: Seq<char>) -> Option<DesktopRefusal> {
    match action {
        UiActionView::SendInput { event, .. } => match event.checked() {
            Err(e) => Some(DesktopRefusal::Invalid(e)),
            Ok(_) => None,
        },
        UiActionView::OfferDesktop { config, .. } => match config.checked() {
            Err(e) => Some(DesktopRefusal::Invalid(e)),
            Ok(_) => if target_os == "windows"@ || target_os == "macos"@ {
                None
            } else {
                Some(DesktopRefusal::PlatformUnsupported)
            },
        },
        _ => None,
    }
}

/// The command for an action; nothing where the action does not concern the direct link.
pub fn direct_command(action: &UiAction, target_os: &str) -> (r: Result<
    Option<DirectCommand>,
    DesktopRefusal,
>)
    ensures
        match (r, command_fault(action@, target_os@)) {
            (Err(e), Some(fault)) => e == fault,
            (Ok(made), None) => match action@ {
                UiActionView::OfferDesktop { display, config, allow_control } => match made {
                    Some(DirectCommand::OfferRemoteDesktop(offer)) => {
                        &&& random::is_random_id(offer@.session_id)
                        &&& offer@ == (RemoteDesktopOfferView {
                            session_id: offer@.session_id,
                            platform: if target_os@ == "windows"@ {
                                RemoteDesktopPlatform::Windows
                            } else {
                                RemoteDesktopPlatform::Macos
                            },
                            display,
                            config,
                            allow_control,
                        })
                        &&& desktop_session::made_offer(
                            offer@.session_id,
                            display,
                            config,
                            allow_control,
                            target_os@,
                        ) == Some(offer@)
                    },
                    _ => false,
                },
                a => command_of(a) == match made {
                    Some(command) => Some(command@),
                    None => None,
                },
            },
            _ => false,
        },
{
    let command = match action {
        UiAction::SendText(text) => DirectCommand::Chat(text.clone()),
        UiAction::SendFile(path) => DirectCommand::OfferFile(path.clone()),
        UiAction::AcceptFile { transfer_id, path } => DirectCommand::AcceptFile {
            transfer_id: transfer_id.clone(),
            save_path: path.clone(),
        },
        UiAction::RejectFile { transfer_id, reason } => DirectCommand::RejectFile {
            transfer_id: transfer_id.clone(),
            reason: reason.clone(),
        },
        UiAction::PauseTransfer(id) => DirectCommand::PauseTransfer(id.clone()),
        UiAction::ResumeTransfer(id) => DirectCommand::ResumeTransfer(id.clone()),
        UiAction::CancelTransfer { transfer_id, reason } => DirectCommand::CancelTransfer {
            transfer_id: transfer_id.clone(),
            reason: reason.clone(),
        },
        UiAction::OfferDesktop { display, config, allow_control } => {
            match desktop_session::new_offer(display.clone(), *config, *allow_control, target_os) {
                Ok(offer) => {
                    return Ok(Some(DirectCommand::OfferRemoteDesktop(offer)));
                },
                Err(e) => {
                    return Err(e);
                },
            }
        },
        UiAction::AnswerDesktop { session_id, accepted, reason } => {
            DirectCommand::AnswerRemoteDesktop {
                session_id: session_id.clone(),
                accepted: *accepted,
                reason: text::clone_opt(reason),
            }
        },
        UiAction::SetPermission { session_id, allow_control } => {
            DirectCommand::SetRemoteDesktopPermission {
                session_id: session_id.clone(),
                allow_control: *allow_control,
            }
        },
        UiAction::WithdrawPermission(session_id) => DirectCommand::SetRemoteDesktopPermission {
            session_id: session_id.clone(),
            allow_control: false,
        },
        UiAction::StopDesktop { session_id, reason } => DirectCommand::StopRemoteDesktop {
            session_id: session_id.clone(),
            reason: reason.clone(),
        },
        UiAction::SendInput { session_id, sequence, event } => {
            match event.validate() {
                Err(e) => {
                    return Err(DesktopRefusal::Invalid(e));
                },
                Ok(_) => {},
            }
            DirectCommand::RemoteInput {
                session_id: session_id.clone(),
                sequence: *sequence,
                event: event.clone(),
            }
        },
        UiAction::RequestKeyframe(session_id) => DirectCommand::RequestRemoteKeyframe(
            session_id.clone(),
        ),
        _ => {
            return Ok(None);
        },
    };
    Ok(Some(command))
}

/// Only input that is not valid, and a desktop that cannot be shared in these measures or on this
/// platform, make no command; everything else is never refused.
pub proof fn only_what_is_not_valid_is_refused(action: UiActionView, target_os: Seq<char>)
    ensures
        command_fault(action, target_os) is Some <==> match action {
            UiActionView::SendInput { event, .. } => event.checked() is Err,
            UiActionView::OfferDesktop { config, .. } => config.checked() is Err || (target_os
                != "windows"@ && target_os != "macos"@),
            _ => false,
        },
        action matches UiActionView::SendInput { event, .. } ==> event.checked() matches Err(e)
            ==> command_fault(action, target_os) == Some(DesktopRefusal::Invalid(e)),
{
}

}
