//! Streaming session: one connection to the remote viewer at a time, a
//! handshake, frames that differ from the one before, and reconnection
//! without end.
//!
//! The session does no input or output. `StreamingSession::step` takes what
//! happened and answers with what to do next; whoever drives it connects,
//! sends, waits and captures.

use crate::codec::{
    can_encode, encode, lemma_triangle_encoding, triangle_encoding, Frame, FrameView,
    ResampleFilter,
};
use crate::config::StreamingConfig;
use crate::json::{field_views, json_object, json_object_text, JsonMember, JsonMemberView};
use vstd::prelude::*;

verus! {

/// Why a connection ended.
#[derive(Clone, Copy, Debug, PartialEq, Eq, Structural)]
pub enum CloseReason {
    /// The remote side closed it.
    Graceful,
    /// Connecting, the handshake or a send failed, or something happened that
    /// the session did not await.
    Error,
}

/// The state of the session.
#[derive(Clone, Copy, Debug, PartialEq, Eq, Structural)]
pub enum SessionState {
    /// A connection is being opened.
    Connecting,
    /// The connection is open and the handshake is being sent.
    Handshaking,
    /// Frames are being captured and sent.
    Streaming,
    /// The connection has ended; the wait before the next one is running.
    Closed { reason: CloseReason },
}

/// What the driver of the session is asked to do.
#[derive(Clone, Debug, PartialEq, Eq)]
pub enum StreamAction {
    /// Open a connection to `url`.
    Connect { url: String },
    /// Send `message` as one text message.
    SendHandshake { message: String },
    /// Wait `millis` milliseconds, then capture the screen.
    CaptureAfter { millis: u64 },
    /// Send `bytes` as one binary message.
    SendFrame { bytes: Vec<u8> },
    /// Drop the connection and wait `secs` seconds.
    ReconnectAfter { secs: u64 },
}

/// The mathematical model of an action.
pub enum StreamActionView {
    Connect { url: Seq<char> },
    SendHandshake { message: Seq<char> },
    CaptureAfter { millis: u64 },
    SendFrame { bytes: Seq<u8> },
    ReconnectAfter { secs: u64 },
}

impl View for StreamAction {
    type V = StreamActionView;

    open spec fn view(&self) -> StreamActionView {
        match *self {
            StreamAction::Connect { url } => StreamActionView::Connect { url: url@ },
            StreamAction::SendHandshake { message } => StreamActionView::SendHandshake {
                message: message@,
            },
            StreamAction::CaptureAfter { millis } => StreamActionView::CaptureAfter { millis },
            StreamAction::SendFrame { bytes } => StreamActionView::SendFrame { bytes: bytes@ },
            StreamAction::ReconnectAfter { secs } => StreamActionView::ReconnectAfter { secs },
        }
    }
}

/// What happened to what the driver was asked to do.
#[derive(Clone, Debug)]
pub enum StreamEvent {
    /// The connection is open.
    Connected,
    /// The connection could not be opened.
    ConnectFailed,
    /// The handshake was sent.
    HandshakeSent,
    /// The handshake could not be sent.
    HandshakeFailed,
    /// The screen was captured.
    Captured { frame: Frame },
    /// The screen could not be captured this time.
    CaptureFailed,
    /// The capture was abandoned and will not come back.
    CaptureAborted,
    /// The frame was sent.
    FrameSent,
    /// The frame could not be sent.
    SendFailed,
    /// The remote side closed the connection.
    Disconnected,
    /// The wait before reconnecting is over.
    WaitElapsed,
}

/// The mathematical model of an event.
pub enum StreamEventView {
    Connected,
    ConnectFailed,
    HandshakeSent,
    HandshakeFailed,
    Captured { frame: FrameView },
    CaptureFailed,
    CaptureAborted,
    FrameSent,
    SendFailed,
    Disconnected,
    WaitElapsed,
}

impl View for StreamEvent {
    type V = StreamEventView;

    open spec fn view(&self) -> StreamEventView {
        match *self {
            StreamEvent::Connected => StreamEventView::Connected,
            StreamEvent::ConnectFailed => StreamEventView::ConnectFailed,
            StreamEvent::HandshakeSent => StreamEventView::HandshakeSent,
            StreamEvent::HandshakeFailed => StreamEventView::HandshakeFailed,
            StreamEvent::Captured { frame } => StreamEventView::Captured { frame: frame@ },
            StreamEvent::CaptureFailed => StreamEventView::CaptureFailed,
            StreamEvent::CaptureAborted => StreamEventView::CaptureAborted,
            StreamEvent::FrameSent => StreamEventView::FrameSent,
            StreamEvent::SendFailed => StreamEventView::SendFailed,
            StreamEvent::Disconnected => StreamEventView::Disconnected,
            StreamEvent::WaitElapsed => StreamEventView::WaitElapsed,
        }
    }
}

/// A streaming session: its parameters, its state, and the fingerprint of the
/// frame sent last on the present connection.
pub struct StreamingSession {
    url: String,
    hostname: String,
    quality: u8,
    max_dimension: u32,
    interval_ms: u64,
    reconnect_secs: u64,
    state: SessionState,
    last_fingerprint: Option<String>,
}

/// The mathematical model of a streaming session.
pub struct SessionView {
    pub url: Seq<char>,
    pub hostname: Seq<char>,
    pub quality: u8,
    pub max_dimension: u32,
    pub interval_ms: u64,
    pub reconnect_secs: u64,
    pub state: SessionState,
    /// The fingerprint of the frame sent last on the present connection;
    /// nothing before the first.
    pub last_fingerprint: Option<Seq<char>>,
}

impl View for StreamingSession {
    type V = SessionView;

    closed spec fn view(&self) -> SessionView {
        SessionView {
            url: self.url@,
            hostname: self.hostname@,
            quality: self.quality,
            max_dimension: self.max_dimension,
            interval_ms: self.interval_ms,
            reconnect_secs: self.reconnect_secs,
            state: self.state,
            last_fingerprint: match self.last_fingerprint {
                Some(f) => Some(f@),
                None => None,
            },
        }
    }
}

/// The fingerprint of some bytes: their SHA-256 digest in lowercase
/// hexadecimal digits, as the sha2 crate computes and formats it.
pub uninterp spec fn sha256_hex(bytes: Seq<u8>) -> Seq<char>;

/// A lowercase hexadecimal digit.
pub open spec fn is_lower_hex(c: char) -> bool {
    ('0' <= c && c <= '9') || ('a' <= c && c <= 'f')
}

/// The text has the shape of a fingerprint: 64 lowercase hexadecimal digits.
pub open spec fn is_fingerprint(text: Seq<char>) -> bool {
    text.len() == 64 && forall|i: int| 0 <= i < text.len() ==> is_lower_hex(#[trigger] text[i])
}

/// Calls `Sha256::new`, `update` and `finalize` of the sha2 crate and formats
/// the digest with `{:x}`. Trusted: the text is a function of the bytes, named
/// `sha256_hex`, and it holds two lowercase hexadecimal digits for each of the
/// 32 bytes of the digest.
#[verifier::external_body]
fn sha256_hash(data: &Vec<u8>) -> (digest: String)
    ensures
        digest@ == sha256_hex(data@),
        is_fingerprint(digest@),
{
    let mut hasher = <sha2::Sha256 as sha2::Digest>::new();
    sha2::Digest::update(&mut hasher, data);
    format!("{:x}", sha2::Digest::finalize(hasher))
}

/// The handshake of an agent on `hostname`: a JSON object with the members
/// `role`, which is `student`, and `hostname`.
pub open spec fn handshake_text(hostname: Seq<char>) -> Seq<char> {
    json_object_text(handshake_members(hostname))
}

/// The members of the handshake of an agent on `hostname`.
pub open spec fn handshake_members(hostname: Seq<char>) -> Seq<(Seq<char>, JsonMemberView)> {
    seq![
        ("role"@, JsonMemberView::Text("student"@)),
        ("hostname"@, JsonMemberView::Text(hostname)),
    ]
}

/// The members of the handshake of an agent on `hostname`.
pub fn handshake_fields(hostname: &str) -> (fields: Vec<(String, JsonMember)>)
    ensures
        field_views(fields@) == handshake_members(hostname@),
{
    let mut fields: Vec<(String, JsonMember)> = Vec::new();
    fields.push(("role".to_owned(), JsonMember::Text("student".to_owned())));
    fields.push(("hostname".to_owned(), JsonMember::Text(hostname.to_owned())));
    assert(field_views(fields@) =~= handshake_members(hostname@));
    fields
}

/// Writes the handshake of an agent on `hostname`.
pub fn handshake_message(hostname: &str) -> (message: String)
    ensures
        message@ == handshake_text(hostname@),
{
    json_object(&handshake_fields(hostname))
}

/// The session after its connection has ended: closed for `reason`, with the
/// fingerprint forgotten, and the wait before the next connection asked for.
pub open spec fn closed(
    session: SessionView,
    reason: CloseReason,
) -> (SessionView, StreamActionView) {
    (
        SessionView { state: SessionState::Closed { reason }, last_fingerprint: None, ..session },
        StreamActionView::ReconnectAfter { secs: session.reconnect_secs },
    )
}

/// The session goes on streaming: the next capture is asked for after the
/// frame interval.
pub open spec fn next_capture(session: SessionView) -> (SessionView, StreamActionView) {
    (session, StreamActionView::CaptureAfter { millis: session.interval_ms })
}

/// What a streaming session does with an encoded frame of a given
/// fingerprint. A frame whose fingerprint is the one kept, that of the frame
/// sent last, is not sent, and the next capture follows after the frame
/// interval; any other is sent and its fingerprint kept.
pub open spec fn after_fingerprinted(
    session: SessionView,
    bytes: Seq<u8>,
    digest: Seq<char>,
) -> (SessionView, StreamActionView) {
    if session.last_fingerprint == Some(digest) {
        next_capture(session)
    } else {
        (
            SessionView { last_fingerprint: Some(digest), ..session },
            StreamActionView::SendFrame { bytes },
        )
    }
}

/// What a streaming session does with an encoded frame, or with a frame that
/// could not be encoded. An encoded frame is taken by its fingerprint. A frame
/// that could not be encoded is passed over, and the next capture follows
/// after the frame interval.
pub open spec fn after_encoded(
    session: SessionView,
    encoded: Option<Seq<u8>>,
) -> (SessionView, StreamActionView) {
    match encoded {
        Some(bytes) => after_fingerprinted(session, bytes, sha256_hex(bytes)),
        None => next_capture(session),
    }
}

/// The encoding of a captured frame with the session's quality and bound, or
/// nothing where the frame cannot be encoded.
pub open spec fn session_encoding(session: SessionView, frame: FrameView) -> Option<Seq<u8>> {
    if can_encode(frame, session.max_dimension) {
        Some(triangle_encoding(frame, session.quality, session.max_dimension))
    } else {
        None
    }
}

/// The transitions of a session.
///
/// - Connecting: an open connection is followed by the handshake; anything
///   else closes the session with an error.
/// - Handshaking: a sent handshake starts the streaming, with no fingerprint
///   kept; anything else closes the session with an error.
/// - Streaming: a captured frame is encoded and sent unless it repeats the
///   frame sent last; a failed capture and a sent frame are followed by the
///   next capture; the remote side closing ends the session gracefully;
///   anything else, a failed send or an abandoned capture among it, closes it
///   with an error.
/// - Closed: when the wait is over a connection is opened again; until then
///   the wait is asked for again.
pub open spec fn step(
    session: SessionView,
    event: StreamEventView,
) -> (SessionView, StreamActionView) {
    match session.state {
        SessionState::Connecting => match event {
            StreamEventView::Connected => (
                SessionView { state: SessionState::Handshaking, ..session },
                StreamActionView::SendHandshake { message: handshake_text(session.hostname) },
            ),
            _ => closed(session, CloseReason::Error),
        },
        SessionState::Handshaking => match event {
            StreamEventView::HandshakeSent => next_capture(
                SessionView { state: SessionState::Streaming, last_fingerprint: None, ..session },
            ),
            _ => closed(session, CloseReason::Error),
        },
        SessionState::Streaming => match event {
            StreamEventView::Captured { frame } => after_encoded(
                session,
                session_encoding(session, frame),
            ),
            StreamEventView::CaptureFailed => next_capture(session),
            StreamEventView::FrameSent => next_capture(session),
            StreamEventView::Disconnected => closed(session, CloseReason::Graceful),
            _ => closed(session, CloseReason::Error),
        },
        SessionState::Closed { reason } => match event {
            StreamEventView::WaitElapsed => (
                SessionView {
                    state: SessionState::Connecting,
                    last_fingerprint: None,
                    ..session
                },
                StreamActionView::Connect { url: session.url },
            ),
            _ => (session, StreamActionView::ReconnectAfter { secs: session.reconnect_secs }),
        },
    }
}

impl StreamingSession {
    /// A session for the configured endpoint, about to connect.
    pub fn start(
        cfg: &StreamingConfig,
        hostname: String,
    ) -> (start: (StreamingSession, StreamAction))
        ensures
            start.0@ == (SessionView {
                url: cfg.server_url@,
                hostname: hostname@,
                quality: cfg.quality,
                max_dimension: cfg.max_dimension,
                interval_ms: cfg.interval_ms,
                reconnect_secs: cfg.reconnect_secs,
                state: SessionState::Connecting,
                last_fingerprint: None,
            }),
            start.1@ == (StreamActionView::Connect { url: cfg.server_url@ }),
    {
        let session = StreamingSession {
            url: cfg.server_url.clone(),
            hostname,
            quality: cfg.quality,
            max_dimension: cfg.max_dimension,
            interval_ms: cfg.interval_ms,
            reconnect_secs: cfg.reconnect_secs,
            state: SessionState::Connecting,
            last_fingerprint: None,
        };
        (session, StreamAction::Connect { url: cfg.server_url.clone() })
    }

    /// The state of the session.
    pub fn state(&self) -> (state: SessionState)
        ensures
            state == self@.state,
    {
        self.state
    }

    /// Ends the connection for `reason`.
    fn close(self, reason: CloseReason) -> (next: (StreamingSession, StreamAction))
        ensures
            (next.0@, next.1@) == closed(self@, reason),
    {
        let secs = self.reconnect_secs;
        let mut session = self;
        session.state = SessionState::Closed { reason };
        session.last_fingerprint = None;
        (session, StreamAction::ReconnectAfter { secs })
    }

    /// Goes on to the next capture.
    fn capture_next(self) -> (next: (StreamingSession, StreamAction))
        ensures
            (next.0@, next.1@) == next_capture(self@),
    {
        let millis = self.interval_ms;
        (self, StreamAction::CaptureAfter { millis })
    }

    /// Takes an encoded frame, or nothing for a frame that could not be
    /// encoded, and decides whether it is sent: not if its fingerprint is
    /// that of the frame sent last.
    pub fn offer_encoded(
        self,
        encoded: Option<Vec<u8>>,
    ) -> (next: (StreamingSession, StreamAction))
        ensures
            (next.0@, next.1@) == after_encoded(
                self@,
                match encoded {
                    Some(bytes) => Some(bytes@),
                    None => None,
                },
            ),
            encoded matches Some(bytes) ==> is_fingerprint(sha256_hex(bytes@)),
    {
        match encoded {
            Some(bytes) => {
                let digest = sha256_hash(&bytes);
                self.offer_fingerprinted(bytes, digest)
            },
            None => self.capture_next(),
        }
    }

    /// Takes an encoded frame with its fingerprint and decides whether it is
    /// sent: not if the fingerprint is the one kept.
    pub fn offer_fingerprinted(
        self,
        bytes: Vec<u8>,
        digest: String,
    ) -> (next: (StreamingSession, StreamAction))
        ensures
            (next.0@, next.1@) == after_fingerprinted(self@, bytes@, digest@),
    {
        let repeated = match &self.last_fingerprint {
            Some(last) => *last == digest,
            None => false,
        };
        if repeated {
            self.capture_next()
        } else {
            let mut session = self;
            session.last_fingerprint = Some(digest);
            (session, StreamAction::SendFrame { bytes })
        }
    }

    /// Advances the session by what happened and answers with what to do
    /// next.
    pub fn step(self, event: StreamEvent) -> (next: (StreamingSession, StreamAction))
        ensures
            (next.0@, next.1@) == step(self@, event@),
            self@.state == SessionState::Streaming ==> (event@ matches StreamEventView::Captured {
                frame,
            } ==> (session_encoding(self@, frame) matches Some(bytes) ==> is_fingerprint(
                sha256_hex(bytes),
            ))),
    {
        match self.state {
            SessionState::Connecting => match event {
                StreamEvent::Connected => {
                    let message = handshake_message(self.hostname.as_str());
                    let mut session = self;
                    session.state = SessionState::Handshaking;
                    (session, StreamAction::SendHandshake { message })
                },
                _ => self.close(CloseReason::Error),
            },
            SessionState::Handshaking => match event {
                StreamEvent::HandshakeSent => {
                    let mut session = self;
                    session.state = SessionState::Streaming;
                    session.last_fingerprint = None;
                    session.capture_next()
                },
                _ => self.close(CloseReason::Error),
            },
            SessionState::Streaming => match event {
                StreamEvent::Captured { frame } => {
                    let encoded = match encode(
                        frame,
                        self.quality,
                        self.max_dimension,
                        ResampleFilter::Triangle,
                    ) {
                        Ok(bytes) => {
                            proof {
                                lemma_triangle_encoding(
                                    frame@,
                                    self.quality,
                                    self.max_dimension,
                                    bytes@,
                                );
                            }
                            Some(bytes)
                        },
                        Err(_) => None,
                    };
                    self.offer_encoded(encoded)
                },
                StreamEvent::CaptureFailed => self.capture_next(),
                StreamEvent::FrameSent => self.capture_next(),
                StreamEvent::Disconnected => self.close(CloseReason::Graceful),
                _ => self.close(CloseReason::Error),
            },
            SessionState::Closed { reason } => match event {
                StreamEvent::WaitElapsed => {
                    let url = self.url.clone();
                    let mut session = self;
                    session.state = SessionState::Connecting;
                    session.last_fingerprint = None;
                    (session, StreamAction::Connect { url })
                },
                _ => {
                    let secs = self.reconnect_secs;
                    (self, StreamAction::ReconnectAfter { secs })
                },
            },
        }
    }
}

} // verus!
