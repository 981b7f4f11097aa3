//! Capturing the primary display: the retry policy around a capture that may
//! fail for a moment, and the periodic snapshot, a frame encoded as text.

use crate::codec::{
    can_encode, encode, encode_error, is_encoding, EncodeError, Frame, FrameView, ResampleFilter,
};
use vstd::prelude::*;

verus! {

/// How many times a capture is tried before it is given up.
pub const CAPTURE_ATTEMPTS: u8 = 3;

/// The wait between two tries of a capture, in milliseconds.
pub const CAPTURE_RETRY_MILLIS: u64 = 500;

/// Why a display could not be captured.
#[derive(Clone, Copy, Debug, PartialEq, Eq, Structural)]
pub enum CaptureError {
    /// The system listed no display.
    NoScreens,
    /// The displays could not be listed.
    EnumerationFailed,
    /// The display was found but its image could not be read.
    CaptureFailed,
    /// The image read holds fewer bytes than its size asks for.
    BadBuffer,
}

impl CaptureError {
    /// The error in words.
    pub fn message(self) -> (text: &'static str)
        ensures
            text@ == (match self {
                CaptureError::NoScreens => "No screens found"@,
                CaptureError::EnumerationFailed => "Could not list screens"@,
                CaptureError::CaptureFailed => "Could not capture screen"@,
                CaptureError::BadBuffer => "Failed to create image from screenshot"@,
            }),
    {
        match self {
            CaptureError::NoScreens => "No screens found",
            CaptureError::EnumerationFailed => "Could not list screens",
            CaptureError::CaptureFailed => "Could not capture screen",
            CaptureError::BadBuffer => "Failed to create image from screenshot",
        }
    }
}

/// The state of one capture with retries: how many tries have failed, and the
/// error to report if all do. A try that finds no display leaves that error as
/// it was.
#[derive(Clone, Copy, Debug, PartialEq, Eq, Structural)]
pub struct CaptureRetry {
    pub failures: u8,
    pub last_error: CaptureError,
}

/// What follows a try of a capture.
#[derive(Debug, PartialEq, Eq)]
pub enum CaptureStep {
    /// The try failed and another is due after `millis` milliseconds, with
    /// `retry` as the state.
    RetryAfter { millis: u64, retry: CaptureRetry },
    /// A try succeeded: this is its frame.
    Captured { frame: Frame },
    /// The last try failed too.
    Failed { error: CaptureError },
}

impl CaptureRetry {
    /// The state before the first try.
    pub open spec fn start() -> CaptureRetry {
        CaptureRetry { failures: 0, last_error: CaptureError::NoScreens }
    }

    /// The error to report after a try has failed with `error`.
    pub open spec fn error_after(self, error: CaptureError) -> CaptureError {
        if error == CaptureError::NoScreens {
            self.last_error
        } else {
            error
        }
    }

    /// What follows a try with the given outcome: a success ends the capture
    /// with its frame; a failure is followed by a wait and another try until
    /// `CAPTURE_ATTEMPTS` tries have failed, and then ends it with the error.
    /// A buffer that does not fit its size is no passing failure: it ends the
    /// capture at once.
    pub open spec fn after(self, outcome: Result<Frame, CaptureError>) -> CaptureStep {
        match outcome {
            Ok(frame) => CaptureStep::Captured { frame },
            Err(error) => if error == CaptureError::BadBuffer {
                CaptureStep::Failed { error }
            } else if self.failures + 1 < CAPTURE_ATTEMPTS {
                CaptureStep::RetryAfter {
                    millis: CAPTURE_RETRY_MILLIS,
                    retry: CaptureRetry {
                        failures: (self.failures + 1) as u8,
                        last_error: self.error_after(error),
                    },
                }
            } else {
                CaptureStep::Failed { error: self.error_after(error) }
            },
        }
    }

    /// The state before the first try.
    pub fn new() -> (retry: CaptureRetry)
        ensures
            retry == CaptureRetry::start(),
    {
        CaptureRetry { failures: 0, last_error: CaptureError::NoScreens }
    }

    /// Takes the outcome of a try and says what follows it.
    pub fn record(self, outcome: Result<Frame, CaptureError>) -> (step: CaptureStep)
        ensures
            step == self.after(outcome),
    {
        match outcome {
            Ok(frame) => CaptureStep::Captured { frame },
            Err(error) => {
                let last_error = match error {
                    CaptureError::NoScreens => self.last_error,
                    CaptureError::BadBuffer => {
                        return CaptureStep::Failed { error };
                    },
                    _ => error,
                };
                if self.failures < CAPTURE_ATTEMPTS - 1 {
                    CaptureStep::RetryAfter {
                        millis: CAPTURE_RETRY_MILLIS,
                        retry: CaptureRetry { failures: self.failures + 1, last_error },
                    }
                } else {
                    CaptureStep::Failed { error: last_error }
                }
            },
        }
    }
}

/// A capture that fails twice for a passing reason and then succeeds ends
/// with the frame of the third try: each failure is followed by a wait of
/// `CAPTURE_RETRY_MILLIS`, and neither error is reported.
pub proof fn law_third_try_succeeds(first: CaptureError, second: CaptureError, frame: Frame)
    requires
        first != CaptureError::BadBuffer,
        second != CaptureError::BadBuffer,
    ensures
        ({
            let one = CaptureRetry::start().after(Err(first));
            &&& one matches CaptureStep::RetryAfter { millis, retry }
            &&& millis == CAPTURE_RETRY_MILLIS
            &&& retry.after(Err(second)) matches CaptureStep::RetryAfter { millis: again, retry: last }
            &&& again == CAPTURE_RETRY_MILLIS
            &&& last.after(Ok(frame)) == (CaptureStep::Captured { frame })
        }),
{
}

/// A capture whose three tries all fail ends with an error after the third,
/// with no wait after it.
pub proof fn law_three_failures_give_up(
    first: CaptureError,
    second: CaptureError,
    third: CaptureError,
)
    requires
        first != CaptureError::BadBuffer,
        second != CaptureError::BadBuffer,
    ensures
        ({
            let one = CaptureRetry::start().after(Err(first));
            &&& one matches CaptureStep::RetryAfter { retry, .. }
            &&& retry.after(Err(second)) matches CaptureStep::RetryAfter { retry: last, .. }
            &&& last.after(Err(third)) is Failed
        }),
{
}

/// Picks the display to capture from the flags that say which of the listed
/// displays is the primary one: the first primary display, or the first
/// display if none is primary, or none if no display is listed.
pub fn primary_display(primary: &Vec<bool>) -> (index: Option<usize>)
    ensures
        match index {
            Some(i) => {
                &&& i < primary@.len()
                &&& forall|j: int| 0 <= j < i ==> !primary@[j]
                &&& primary@[i as int] || (i == 0 && forall|j: int|
                    0 <= j < primary@.len() ==> !primary@[j])
            },
            None => primary@.len() == 0,
        },
{
    let mut i: usize = 0;
    while i < primary.len()
        invariant
            i <= primary@.len(),
            forall|j: int| 0 <= j < i ==> !primary@[j],
        decreases primary.len() - i,
    {
        if primary[i] {
            return Some(i);
        }
        i += 1;
    }
    if primary.len() > 0 {
        Some(0)
    } else {
        None
    }
}

/// The text of the base64 encoding, standard alphabet with padding, of
/// `bytes`, as the base64 crate's `STANDARD` engine writes it.
pub uninterp spec fn base64_text(bytes: Seq<u8>) -> Seq<char>;

/// The base64 text of `len` bytes can be held in memory.
pub open spec fn base64_fits(len: nat) -> bool {
    len / 3 * 4 + 4 <= isize::MAX
}

/// Calls `Engine::encode` on `general_purpose::STANDARD`. Trusted: the text is
/// a function of the bytes, named `base64_text`. The requirement keeps the
/// call clear of the crate's panic on a length that overflows.
#[verifier::external_body]
fn base64_encode(bytes: &Vec<u8>) -> (text: String)
    requires
        base64_fits(bytes@.len()),
    ensures
        text@ == base64_text(bytes@),
{
    base64::Engine::encode(&base64::engine::general_purpose::STANDARD, bytes)
}

/// `text` is a snapshot of `frame`: the base64 text of an encoding of it with
/// the snapshot's filter.
pub open spec fn is_snapshot(
    frame: FrameView,
    quality: u8,
    max_dimension: u32,
    text: Seq<char>,
) -> bool {
    exists|bytes: Seq<u8>| #[trigger]
        is_encoding(frame, quality, max_dimension, ResampleFilter::Lanczos3, bytes) && base64_fits(
            bytes.len(),
        ) && text == base64_text(bytes)
}

/// The snapshot of `frame` failed with `error`: the frame cannot be encoded,
/// or its encoding is too long for its text to be held in memory.
pub open spec fn snapshot_failed(
    frame: FrameView,
    quality: u8,
    max_dimension: u32,
    error: EncodeError,
) -> bool {
    if can_encode(frame, max_dimension) {
        error == EncodeError::TooLarge && exists|bytes: Seq<u8>| #[trigger]
            is_encoding(frame, quality, max_dimension, ResampleFilter::Lanczos3, bytes)
                && !base64_fits(bytes.len())
    } else {
        error == encode_error(frame, max_dimension)
    }
}

/// Turns a captured frame into a snapshot: the frame encoded within
/// `max_dimension` at `quality`, as base64 text.
pub fn capture_screenshot(
    frame: Frame,
    quality: u8,
    max_dimension: u32,
) -> (snapshot: Result<String, EncodeError>)
    ensures
        match snapshot {
            Ok(text) => can_encode(frame@, max_dimension) && is_snapshot(
                frame@,
                quality,
                max_dimension,
                text@,
            ),
            Err(error) => snapshot_failed(frame@, quality, max_dimension, error),
        },
{
    match encode(frame, quality, max_dimension, ResampleFilter::Lanczos3) {
        Ok(bytes) => {
            if bytes.len() / 3 > (isize::MAX as usize - 4) / 4 {
                Err(EncodeError::TooLarge)
            } else {
                Ok(base64_encode(&bytes))
            }
        },
        Err(error) => Err(error),
    }
}

/// The snapshot of a capture, or nothing where the capture or the encoding
/// failed.
pub fn try_capture_screenshot(
    captured: Result<Frame, CaptureError>,
    quality: u8,
    max_dimension: u32,
) -> (snapshot: Option<String>)
    ensures
        match snapshot {
            Some(text) => captured matches Ok(frame) && can_encode(frame@, max_dimension)
                && is_snapshot(frame@, quality, max_dimension, text@),
            None => captured matches Ok(frame) ==> exists|error: EncodeError| #[trigger]
                snapshot_failed(frame@, quality, max_dimension, error),
        },
{
    match captured {
        Ok(frame) => match capture_screenshot(frame, quality, max_dimension) {
            Ok(text) => Some(text),
            Err(_) => None,
        },
        Err(_) => None,
    }
}

} // verus!
