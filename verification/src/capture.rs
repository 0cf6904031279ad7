//! Sharing the screen: what is done with each picture that was captured, and when the capture is
//! given up.
use crate::frames::{EncodeError, FrameEncoder, FrameEncoderView, RawFrame, RawFrameView};
use crate::remote_desktop::{RemoteDesktopFrame, RemoteDesktopFrameView};
use crate::{frames, text, tiles};
use vstd::prelude::*;

verus! {

/// How often in a row the capture may fail before it is given up.
pub const MAX_FAILURES: u8 = 3;

/// What the capture tells: that it has failed, and that it is over.
#[derive(Debug)]
pub enum CaptureEvent {
    Error(String),
    Stopped,
}

/// What is done next.
#[derive(Debug)]
pub enum CaptureStep {
    /// Nothing has to be sent.
    Wait,
    /// The frame is sent.
    Send(RemoteDesktopFrame),
    /// The capture is set up anew.
    Reopen,
}

/// Why sharing the screen ends.
#[derive(Debug)]
pub enum CaptureError {
    /// The picture could not be made into a frame.
    Encode(EncodeError),
    /// The capture failed too often in a row.
    GivenUp(String),
}

/// The encoder of a shared screen and how often in a row the screen could not be captured.
#[derive(Debug)]
pub struct CaptureLoop {
    encoder: FrameEncoder,
    failures: u8,
}

#[verifier::ext_equal]
pub struct CaptureLoopView {
    pub encoder: FrameEncoderView,
    pub failures: u8,
}

impl View for CaptureLoop {
    type V = CaptureLoopView;

    closed spec fn view(&self) -> CaptureLoopView {
        CaptureLoopView { encoder: self.encoder@, failures: self.failures }
    }
}

impl CaptureLoopView {
    pub open spec fn has_given_up(self) -> bool {
        self.failures >= MAX_FAILURES
    }

    /// The next picture is to be sent whole.
    pub open spec fn forced(self) -> Self {
        CaptureLoopView {
            encoder: FrameEncoderView { force_keyframe: true, ..self.encoder },
            ..self
        }
    }

    /// Before a picture is captured: a whole picture may have been asked for.
    pub open spec fn asked(self, whole: bool) -> Self {
        if whole {
            self.forced()
        } else {
            self
        }
    }

    /// The capture failed.
    pub open spec fn failed(self) -> Self {
        let counted = CaptureLoopView { failures: (self.failures + 1) as u8, ..self };
        if counted.has_given_up() {
            counted
        } else {
            counted.forced()
        }
    }
}

/// What came of a capture, as far as it matters here.
pub open spec fn outcome_view(outcome: Result<Option<RawFrame>, String>) -> Result<
    Option<RawFrameView>,
    Seq<char>,
> {
    match outcome {
        Ok(Some(frame)) => Ok(Some(frame@)),
        Ok(None) => Ok(None),
        Err(cause) => Err(cause@),
    }
}

/// What is done next, or that sharing the screen ends.
#[verifier::ext_equal]
pub enum CaptureStepView {
    Wait,
    Send(RemoteDesktopFrameView),
    Reopen,
    GiveUp(Seq<char>),
    Refuse,
}

pub open spec fn step_view(r: Result<CaptureStep, CaptureError>) -> CaptureStepView {
    match r {
        Ok(CaptureStep::Wait) => CaptureStepView::Wait,
        Ok(CaptureStep::Send(frame)) => CaptureStepView::Send(frame@),
        Ok(CaptureStep::Reopen) => CaptureStepView::Reopen,
        Err(CaptureError::GivenUp(words)) => CaptureStepView::GiveUp(words@),
        Err(CaptureError::Encode(_)) => CaptureStepView::Refuse,
    }
}

impl CaptureLoopView {
    /// The capture after an outcome, and what is done next.
    pub open spec fn after(
        self,
        whole: bool,
        outcome: Result<Option<RawFrameView>, Seq<char>>,
    ) -> (Self, CaptureStepView) {
        let s = self.asked(whole);
        match outcome {
            Ok(None) => (s, CaptureStepView::Wait),
            Err(cause) => (
                s.failed(),
                if s.failed().has_given_up() {
                    CaptureStepView::GiveUp("连续三次恢复屏幕采集失败: "@ + cause)
                } else {
                    CaptureStepView::Reopen
                },
            ),
            Ok(Some(frame)) => {
                let made = s.encoder.frame_for(frame);
                let (encoder, step) = if !frames::has_its_pixels(frame) {
                    (s.encoder, CaptureStepView::Refuse)
                } else if made.header.patches.len() == 0 {
                    (s.encoder.prepared(frame), CaptureStepView::Wait)
                } else if s.encoder.objection(frame) is Some {
                    (s.encoder.sent(frame), CaptureStepView::Refuse)
                } else {
                    (s.encoder.sent(frame), CaptureStepView::Send(made))
                };
                (CaptureLoopView { encoder, failures: 0 }, step)
            },
        }
    }

    /// The capture after a frame was offered for sending.
    pub open spec fn after_offer(self, taken: bool) -> Self {
        if taken {
            self
        } else {
            self.forced()
        }
    }
}

impl CaptureLoop {
    pub fn new(session_id: String) -> (r: Self)
        ensures
            r@ == (CaptureLoopView {
                encoder: FrameEncoderView::start(session_id@),
                failures: 0,
            }),
    {
        CaptureLoop { encoder: FrameEncoder::new(session_id), failures: 0 }
    }

    /// Was the capture given up?
    pub fn has_given_up(&self) -> (r: bool)
        ensures
            r == self@.has_given_up(),
    {
        self.failures >= MAX_FAILURES
    }

    /// How many frames were made.
    pub fn frame_count(&self) -> (r: u64)
        ensures
            r == self@.encoder.frame_id,
    {
        self.encoder.frame_count()
    }

    /// What is done after the screen was captured, where `whole` says that a whole picture was
    /// asked for. There may be no new picture, and the capture may have failed.
    pub fn captured(&mut self, whole: bool, outcome: Result<Option<RawFrame>, String>) -> (r: Result<
        CaptureStep,
        CaptureError,
    >)
        requires
            !old(self)@.has_given_up(),
            old(self)@.encoder.frame_id < u64::MAX,
            match outcome {
                Ok(Some(frame)) => tiles::picture_len(frame.width, frame.height) <= u32::MAX,
                _ => true,
            },
        ensures
            ({
                let s = old(self)@.asked(whole);
                match outcome {
                    Ok(None) => final(self)@ == s && r == Ok::<CaptureStep, CaptureError>(
                        CaptureStep::Wait,
                    ),
                    Err(cause) => {
                        &&& final(self)@ == s.failed()
                        &&& match r {
                            Ok(step) => step == CaptureStep::Reopen && !s.failed().has_given_up(),
                            Err(CaptureError::GivenUp(words)) => {
                                &&& s.failed().has_given_up()
                                &&& words@ == "连续三次恢复屏幕采集失败: "@ + cause@
                            },
                            _ => false,
                        }
                    },
                    Ok(Some(frame)) => {
                        let f = s.encoder.frame_for(frame@);
                        &&& final(self)@.failures == 0
                        &&& match r {
                            Err(CaptureError::Encode(EncodeError::PixelCount)) => {
                                &&& !frames::has_its_pixels(frame@)
                                &&& final(self)@.encoder == s.encoder
                            },
                            Err(CaptureError::Encode(EncodeError::Picture(_))) => false,
                            Err(CaptureError::Encode(EncodeError::Invalid(e))) => {
                                &&& frames::has_its_pixels(frame@)
                                &&& f.header.patches.len() > 0
                                &&& s.encoder.objection(frame@) == Some(e)
                                &&& f.checked() is Err
                                &&& f.checked()->Err_0 == e
                                &&& final(self)@.encoder == s.encoder.sent(frame@)
                            },
                            Err(CaptureError::GivenUp(_)) => false,
                            Ok(CaptureStep::Wait) => {
                                &&& frames::has_its_pixels(frame@)
                                &&& f.header.patches.len() == 0
                                &&& final(self)@.encoder == s.encoder.prepared(frame@)
                            },
                            Ok(CaptureStep::Send(made)) => {
                                &&& frames::has_its_pixels(frame@)
                                &&& f.header.patches.len() > 0
                                &&& s.encoder.objection(frame@) is None
                                &&& f.checked() is Ok
                                &&& made@ == f
                                &&& frames::shows(f, frame@.rgba)
                                &&& final(self)@.encoder == s.encoder.sent(frame@)
                            },
                            Ok(CaptureStep::Reopen) => false,
                        }
                    },
                }
            }),
            (final(self)@, step_view(r)) == old(self)@.after(whole, outcome_view(outcome)),
    {
        if whole {
            self.encoder.force_keyframe();
        }
        match outcome {
            Ok(Some(frame)) => {
                self.failures = 0;
                match self.encoder.encode(&frame) {
                    Ok(Some(made)) => Ok(CaptureStep::Send(made)),
                    Ok(None) => Ok(CaptureStep::Wait),
                    Err(e) => Err(CaptureError::Encode(e)),
                }
            },
            Ok(None) => Ok(CaptureStep::Wait),
            Err(cause) => {
                self.failures = self.failures + 1;
                if self.failures >= MAX_FAILURES {
                    return Err(
                        CaptureError::GivenUp(
                            text::concat("连续三次恢复屏幕采集失败: ", cause.as_str()),
                        ),
                    );
                }
                self.encoder.force_keyframe();
                Ok(CaptureStep::Reopen)
            },
        }
    }

    /// The frame was sent, or there was no room for it.
    pub fn offered(&mut self, taken: bool)
        ensures
            final(self)@ == if taken {
                old(self)@
            } else {
                old(self)@.forced()
            },
            final(self)@ == old(self)@.after_offer(taken),
    {
        if !taken {
            self.encoder.force_keyframe();
        }
    }
}

/// The capture after `n` failures in a row.
pub open spec fn after_failures(s: CaptureLoopView, n: nat) -> CaptureLoopView
    decreases n,
{
    if n == 0 {
        s
    } else {
        after_failures(s, (n - 1) as nat).failed()
    }
}

/// From a capture that works, the third failure in a row ends it and none before.
pub proof fn the_third_failure_ends_the_capture(s: CaptureLoopView, n: nat)
    requires
        s.failures == 0,
        n <= 3,
    ensures
        after_failures(s, n).has_given_up() == (n == 3),
{
    reveal_with_fuel(after_failures, 4);
}

/// After a frame that found no room, and after a failure that does not end the capture, the next
/// picture is sent whole, so that what was lost is made up for.
pub proof fn what_was_lost_is_sent_again(s: CaptureLoopView, whole: bool, frame: RawFrameView)
    ensures
        s.forced().asked(whole).encoder.is_keyframe(frame),
        !s.failed().has_given_up() ==> s.failed().asked(whole).encoder.is_keyframe(frame),
        s.asked(true).encoder.is_keyframe(frame),
{
}

/// A picture that could be captured ends a row of failures, whatever comes of it; what has changed
/// on it is sent, and where nothing has there is nothing to send.
pub proof fn a_captured_picture_is_sent(s: CaptureLoopView, whole: bool, frame: RawFrameView)
    requires
        frames::has_its_pixels(frame),
        s.asked(whole).encoder.objection(frame) is None,
    ensures
        ({
            let (t, step) = s.after(whole, Ok(Some(frame)));
            let made = s.asked(whole).encoder.frame_for(frame);
            &&& t.failures == 0
            &&& made.header.patches.len() > 0 ==> step == CaptureStepView::Send(made)
                && t.encoder.previous == frame.rgba && !t.encoder.force_keyframe
                && t.encoder.frame_id == made.header.frame_id
            &&& made.header.patches.len() == 0 ==> step == CaptureStepView::Wait
                && t.encoder.frame_id == s.encoder.frame_id
        }),
{
}

/// Without a new picture nothing is done, a request for a whole one is kept, and failures still
/// count. A picture that does not have its pixels is refused.
pub proof fn waiting_changes_nothing(s: CaptureLoopView, whole: bool, frame: RawFrameView)
    ensures
        s.after(false, Ok(None)) == (s, CaptureStepView::Wait),
        s.after(whole, Ok(None)).0.failures == s.failures,
        s.after(true, Ok(None)).0.encoder.force_keyframe,
        !frames::has_its_pixels(frame) ==> s.after(whole, Ok(Some(frame))).1
            == CaptureStepView::Refuse,
{
}

/// A capture that failed is set up anew, and after the third failure in a row given up, with the
/// cause.
pub proof fn a_failed_capture_is_set_up_anew(s: CaptureLoopView, whole: bool, cause: Seq<char>)
    requires
        s.failures < 3,
    ensures
        ({
            let (t, step) = s.after(whole, Err(cause));
            &&& t.failures == s.failures + 1
            &&& t.failures < 3 ==> step == CaptureStepView::Reopen && t.encoder.force_keyframe
            &&& t.failures == 3 ==> step == CaptureStepView::GiveUp(
                "连续三次恢复屏幕采集失败: "@ + cause,
            )
            &&& t.encoder.previous == s.encoder.previous && t.encoder.frame_id == s.encoder.frame_id
        }),
        s.after_offer(true) == s,
        s.after_offer(false).encoder.force_keyframe,
{
}

}
