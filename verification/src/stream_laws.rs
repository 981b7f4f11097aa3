//! What holds of every streaming session, proved from its transitions.

use crate::codec::{can_encode, is_encoding, triangle_encoding, FrameView, ResampleFilter};
use crate::stream::{
    closed, handshake_text, next_capture, sha256_hex, step, CloseReason, SessionState,
    SessionView, StreamActionView, StreamEventView,
};
use vstd::prelude::*;

verus! {

/// A session that is connecting, with no fingerprint kept.
pub open spec fn is_connecting(session: SessionView) -> bool {
    session.state == SessionState::Connecting && session.last_fingerprint is None
}

/// The session after `rounds` rounds of a failed connection and the wait that
/// follows it.
pub open spec fn after_failed_connections(session: SessionView, rounds: nat) -> SessionView
    decreases rounds,
{
    if rounds == 0 {
        session
    } else {
        let earlier = after_failed_connections(session, (rounds - 1) as nat);
        step(step(earlier, StreamEventView::ConnectFailed).0, StreamEventView::WaitElapsed).0
    }
}

/// A failed connection closes the session with an error and is followed by a
/// wait of the configured `reconnect_secs`; when the wait is over, the same
/// endpoint is tried again.
pub proof fn law_failed_connection_waits(session: SessionView)
    requires
        is_connecting(session),
    ensures
        step(session, StreamEventView::ConnectFailed) == (
            SessionView { state: SessionState::Closed { reason: CloseReason::Error }, ..session },
            StreamActionView::ReconnectAfter { secs: session.reconnect_secs },
        ),
        step(step(session, StreamEventView::ConnectFailed).0, StreamEventView::WaitElapsed) == (
            session,
            StreamActionView::Connect { url: session.url },
        ),
{
}

/// Failed connections and the waits after them leave the session connecting
/// as it was.
proof fn lemma_failed_connections_return(session: SessionView, rounds: nat)
    requires
        is_connecting(session),
    ensures
        after_failed_connections(session, rounds) == session,
    decreases rounds,
{
    if rounds > 0 {
        lemma_failed_connections_return(session, (rounds - 1) as nat);
    }
}

/// However many connections fail in a row, each failure is followed by a wait
/// of the configured `reconnect_secs`, never longer, and the session is then
/// connecting again as it was: it does not give up.
pub proof fn law_every_failure_waits(session: SessionView, rounds: nat)
    requires
        is_connecting(session),
    ensures
        after_failed_connections(session, rounds) == session,
        forall|done: nat|
            #![trigger after_failed_connections(session, done)]
            step(after_failed_connections(session, done), StreamEventView::ConnectFailed).1 == (
            StreamActionView::ReconnectAfter { secs: session.reconnect_secs }),
{
    lemma_failed_connections_return(session, rounds);
    assert forall|done: nat| #![trigger after_failed_connections(session, done)]
        step(after_failed_connections(session, done), StreamEventView::ConnectFailed).1 == (
        StreamActionView::ReconnectAfter { secs: session.reconnect_secs }) by {
        lemma_failed_connections_return(session, done);
    }
}

/// A connection that opens is followed by the handshake, sent before any
/// frame, and the sent handshake by the streaming: the session goes from
/// connecting through handshaking to streaming, with no fingerprint kept, and
/// asks for the first capture after the frame interval.
pub proof fn law_connection_leads_to_streaming(session: SessionView)
    requires
        is_connecting(session),
    ensures
        ({
            let (shaking, first) = step(session, StreamEventView::Connected);
            let (streaming, second) = step(shaking, StreamEventView::HandshakeSent);
            &&& shaking.state == SessionState::Handshaking
            &&& first == StreamActionView::SendHandshake {
                message: handshake_text(session.hostname),
            }
            &&& streaming == SessionView { state: SessionState::Streaming, ..session }
            &&& second == StreamActionView::CaptureAfter { millis: session.interval_ms }
        }),
{
}

/// Any failure of the connection (connecting, the handshake, a send) closes
/// the session with an error at once, keeps nothing of it, and is followed by
/// the wait before reconnecting.
pub proof fn law_failures_close(session: SessionView)
    ensures
        session.state == SessionState::Connecting ==> step(
            session,
            StreamEventView::ConnectFailed,
        ) == closed(session, CloseReason::Error),
        session.state == SessionState::Handshaking ==> step(
            session,
            StreamEventView::HandshakeFailed,
        ) == closed(session, CloseReason::Error),
        session.state == SessionState::Streaming ==> step(session, StreamEventView::SendFailed)
            == closed(session, CloseReason::Error),
        closed(session, CloseReason::Error).0.last_fingerprint is None,
{
}

/// Two encodings of one frame with the same parameters have the same
/// fingerprint.
pub proof fn law_same_frame_same_fingerprint(
    frame: FrameView,
    quality: u8,
    max_dimension: u32,
    first: Seq<u8>,
    second: Seq<u8>,
)
    requires
        is_encoding(frame, quality, max_dimension, ResampleFilter::Triangle, first),
        is_encoding(frame, quality, max_dimension, ResampleFilter::Triangle, second),
    ensures
        sha256_hex(first) == sha256_hex(second),
{
    crate::codec::law_encoding_repeats(
        frame,
        quality,
        max_dimension,
        ResampleFilter::Triangle,
        first,
        second,
    );
}

/// A frame captured twice in a row is sent at most once: after a streaming
/// session has taken a frame, the same frame again is followed by the next
/// capture and not by a send, and the session is left as it was.
pub proof fn law_same_frame_not_resent(session: SessionView, frame: FrameView)
    requires
        session.state == SessionState::Streaming,
    ensures
        ({
            let once = step(session, StreamEventView::Captured { frame }).0;
            step(once, StreamEventView::Captured { frame }) == next_capture(once)
        }),
        ({
            let once = step(session, StreamEventView::Captured { frame }).0;
            let sent = step(once, StreamEventView::FrameSent).0;
            step(sent, StreamEventView::Captured { frame }) == next_capture(once)
        }),
{
}

/// A frame whose fingerprint differs from that of the frame sent last is
/// sent, as its encoded bytes, and its fingerprint is kept in place of the
/// other. The first frame of a connection, before which no fingerprint is
/// kept, is always sent.
pub proof fn law_changed_frame_sent(session: SessionView, frame: FrameView)
    requires
        session.state == SessionState::Streaming,
        can_encode(frame, session.max_dimension),
        session.last_fingerprint != Some(
            sha256_hex(triangle_encoding(frame, session.quality, session.max_dimension)),
        ),
    ensures
        ({
            let bytes = triangle_encoding(frame, session.quality, session.max_dimension);
            step(session, StreamEventView::Captured { frame }) == (
                SessionView { last_fingerprint: Some(sha256_hex(bytes)), ..session },
                StreamActionView::SendFrame { bytes },
            )
        }),
{
}

/// `last_sent` is the frame that the session sent last on its present
/// connection, as far as the session is streaming: the fingerprint that the
/// session keeps is that frame's.
pub open spec fn keeps_fingerprint_of(session: SessionView, last_sent: Option<Seq<u8>>) -> bool {
    session.state == SessionState::Streaming ==> session.last_fingerprint == (match last_sent {
        Some(bytes) => Some(sha256_hex(bytes)),
        None => None,
    })
}

/// The frame sent last on the present connection after a step that asked for
/// `action` and left the session in `state`.
pub open spec fn last_sent_after(
    last_sent: Option<Seq<u8>>,
    state: SessionState,
    action: StreamActionView,
) -> Option<Seq<u8>> {
    match action {
        StreamActionView::SendFrame { bytes } => Some(bytes),
        _ => if state == SessionState::Streaming {
            last_sent
        } else {
            None
        },
    }
}

/// The session never sends two identical frames one after the other on one
/// connection. Through every step it keeps the fingerprint of the frame sent
/// last, and a frame that it sends differs from that one.
pub proof fn law_no_frame_sent_twice_in_a_row(
    session: SessionView,
    last_sent: Option<Seq<u8>>,
    event: StreamEventView,
)
    requires
        keeps_fingerprint_of(session, last_sent),
        session.state != SessionState::Streaming ==> last_sent is None,
    ensures
        ({
            let (next, action) = step(session, event);
            &&& keeps_fingerprint_of(next, last_sent_after(last_sent, next.state, action))
            &&& next.state != SessionState::Streaming ==> last_sent_after(
                last_sent,
                next.state,
                action,
            ) is None
            &&& action matches StreamActionView::SendFrame { bytes } ==> last_sent != Some(bytes)
                && session.state == SessionState::Streaming
        }),
{
}

} // verus!
