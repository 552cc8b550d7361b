use vstd::prelude::*;
use vstd::string::*;
use crate::errors::{ClipError, ClipErrorType, MergeError};
use crate::heartbeat::HeartbeatState;
use crate::request::{spec_parse_clips, spec_clips_view, parse_clip_request, ClipDetailRequest};

verus! {

/// The largest frame a connection accepts, in bytes. Media chunks arrive in
/// large binary frames, so the boundary must configure this limit when it
/// accepts the connection.
pub const MAX_FRAME_SIZE: usize = 10000234;

/// Which mode a connection was opened in; fixed for the connection's
/// lifetime.
#[derive(Debug, Clone, PartialEq, Eq, Structural)]
pub enum ClipRequest {
    Chunk,
    OnPlayback,
    Submission,
}

/// A clip recorded for this connection: its id and its size in bytes.
#[derive(Debug, Clone)]
pub struct ClipDetails {
    pub id: String,
    pub data: usize,
}

/// One fragment of a logical message split across several frames.
pub enum ContinuationItem {
    FirstText(Vec<u8>),
    FirstBinary(Vec<u8>),
    Continue(Vec<u8>),
    Last(Vec<u8>),
}

/// One frame received on the connection.
pub enum WsMessage {
    Ping(Vec<u8>),
    Pong(Vec<u8>),
    Text(String),
    Binary(Vec<u8>),
    Continuation(ContinuationItem),
    Close,
    Nop,
}

pub enum ContinuationItemView {
    FirstText(Seq<u8>),
    FirstBinary(Seq<u8>),
    Continue(Seq<u8>),
    Last(Seq<u8>),
}

pub enum WsMessageView {
    Ping(Seq<u8>),
    Pong(Seq<u8>),
    Text(Seq<char>),
    Binary(Seq<u8>),
    Continuation(ContinuationItemView),
    Close,
    Nop,
}

impl View for ContinuationItem {
    type V = ContinuationItemView;

    open spec fn view(&self) -> ContinuationItemView {
        match self {
            ContinuationItem::FirstText(d) => ContinuationItemView::FirstText(d@),
            ContinuationItem::FirstBinary(d) => ContinuationItemView::FirstBinary(d@),
            ContinuationItem::Continue(d) => ContinuationItemView::Continue(d@),
            ContinuationItem::Last(d) => ContinuationItemView::Last(d@),
        }
    }
}

impl View for WsMessage {
    type V = WsMessageView;

    open spec fn view(&self) -> WsMessageView {
        match self {
            WsMessage::Ping(m) => WsMessageView::Ping(m@),
            WsMessage::Pong(m) => WsMessageView::Pong(m@),
            WsMessage::Text(t) => WsMessageView::Text(t@),
            WsMessage::Binary(b) => WsMessageView::Binary(b@),
            WsMessage::Continuation(item) => WsMessageView::Continuation(item@),
            WsMessage::Close => WsMessageView::Close,
            WsMessage::Nop => WsMessageView::Nop,
        }
    }
}

/// What the connection must do in response to one frame.
pub enum SessionEffect {
    /// Nothing is sent back.
    Silence,
    /// Echo a pong frame with this payload.
    Pong(Vec<u8>),
    /// Persist these bytes as a new clip file and reply with the new clip
    /// id as a text frame.
    StoreClip(Vec<u8>),
    /// Run the merge pipeline on this ordered clip list.
    Merge(Vec<ClipDetailRequest>),
}

pub enum SessionEffectView {
    Silence,
    Pong(Seq<u8>),
    StoreClip(Seq<u8>),
    Merge(Seq<(Seq<char>, u64)>),
}

impl View for SessionEffect {
    type V = SessionEffectView;

    open spec fn view(&self) -> SessionEffectView {
        match self {
            SessionEffect::Silence => SessionEffectView::Silence,
            SessionEffect::Pong(m) => SessionEffectView::Pong(m@),
            SessionEffect::StoreClip(b) => SessionEffectView::StoreClip(b@),
            SessionEffect::Merge(c) => SessionEffectView::Merge(spec_clips_view(c@)),
        }
    }
}

pub open spec fn spec_frag_bytes(item: ContinuationItemView) -> Seq<u8> {
    match item {
        ContinuationItemView::FirstText(d) => d,
        ContinuationItemView::FirstBinary(d) => d,
        ContinuationItemView::Continue(d) => d,
        ContinuationItemView::Last(d) => d,
    }
}

/// The ingest buffer after one frame: in chunk mode every binary payload
/// and every fragment appends to it, and it is never cleared; no other
/// frame, and no frame in playback mode, changes it.
pub open spec fn spec_chunks_after(
    mode: ClipRequest,
    chunks: Seq<u8>,
    msg: WsMessageView,
) -> Seq<u8> {
    if mode is Chunk {
        match msg {
            WsMessageView::Binary(b) => chunks + b,
            WsMessageView::Continuation(item) => chunks + spec_frag_bytes(item),
            _ => chunks,
        }
    } else {
        chunks
    }
}

/// The effect owed for one frame, given the buffer as it was when the frame
/// arrived.
pub open spec fn spec_effect_of(
    mode: ClipRequest,
    chunks: Seq<u8>,
    msg: WsMessageView,
) -> SessionEffectView {
    match msg {
        WsMessageView::Ping(m) => SessionEffectView::Pong(m),
        WsMessageView::Text(t) => if mode is OnPlayback {
            match spec_parse_clips(t) {
                Some(l) => SessionEffectView::Merge(l),
                None => SessionEffectView::Silence,
            }
        } else {
            SessionEffectView::Silence
        },
        WsMessageView::Binary(b) => if mode is Chunk {
            SessionEffectView::StoreClip(chunks + b)
        } else {
            SessionEffectView::Silence
        },
        WsMessageView::Continuation(item) => if mode is Chunk {
            match item {
                ContinuationItemView::Last(d) => SessionEffectView::StoreClip(chunks + d),
                _ => SessionEffectView::Silence,
            }
        } else {
            SessionEffectView::Silence
        },
        WsMessageView::Pong(_) => SessionEffectView::Silence,
        WsMessageView::Close => SessionEffectView::Silence,
        WsMessageView::Nop => SessionEffectView::Silence,
    }
}

/// Per-connection session state: the fixed mode and session id, the ingest
/// buffer, the clips recorded so far, and the liveness state.
pub struct ClipWS {
    pub request_type: ClipRequest,
    pub session_id: String,
    pub chunks: Vec<u8>,
    pub clips: Vec<ClipDetails>,
    pub hb: HeartbeatState,
}

impl ClipWS {
    /// Opens a session for one connection. The boundary hands in the
    /// session id it extracted; an empty id is a handshake failure and the
    /// connection is refused.
    pub fn new(request_type: ClipRequest, session_id: String, now_ms: u64) -> (r: Result<
        ClipWS,
        ClipError,
    >)
        ensures
            session_id@.len() > 0 ==> (r matches Ok(s) && s.request_type == request_type
                && s.session_id@ == session_id@ && s.chunks@ == Seq::<u8>::empty()
                && s.clips@ == Seq::<ClipDetails>::empty() && s.hb.last_contact == now_ms),
            session_id@.len() == 0 ==> (r matches Err(e) && e.err_type == ClipErrorType::Error),
    {
        if session_id.as_str().is_empty() {
            Err(ClipError {
                message: Some("session id missing".to_owned()),
                err_type: ClipErrorType::Error,
            })
        } else {
            Ok(ClipWS {
                request_type,
                session_id,
                chunks: Vec::new(),
                clips: Vec::new(),
                hb: HeartbeatState::new(now_ms),
            })
        }
    }

    /// Handles one received frame and returns the effect the connection
    /// must perform. A ping refreshes the liveness state and is answered
    /// with a pong. In chunk mode, a binary frame or a fragment appends to
    /// the ingest buffer, and a completed message (a binary frame, or the
    /// last fragment) flushes the entire buffer into a new clip; the buffer
    /// is never cleared, so each flush holds every payload byte received so
    /// far on this connection. In playback mode, a text frame that parses
    /// becomes a merge request, and a malformed one is dropped without a
    /// reply. Pong, close and nop frames change nothing.
    pub fn handle(&mut self, msg: WsMessage, now_ms: u64) -> (eff: SessionEffect)
        ensures
            final(self).request_type == old(self).request_type,
            final(self).session_id == old(self).session_id,
            final(self).clips == old(self).clips,
            final(self).hb.last_contact == if msg is Ping {
                now_ms
            } else {
                old(self).hb.last_contact
            },
            final(self).chunks@ == spec_chunks_after(
                old(self).request_type,
                old(self).chunks@,
                msg@,
            ),
            eff@ == spec_effect_of(old(self).request_type, old(self).chunks@, msg@),
    {
        match msg {
            WsMessage::Ping(m) => {
                self.hb.refresh(now_ms);
                SessionEffect::Pong(m)
            },
            WsMessage::Text(t) => {
                match self.request_type {
                    ClipRequest::OnPlayback => {
                        match parse_clip_request(t.as_str()) {
                            Ok(clips) => SessionEffect::Merge(clips),
                            Err(_) => SessionEffect::Silence,
                        }
                    },
                    _ => SessionEffect::Silence,
                }
            },
            WsMessage::Binary(bin) => {
                match self.request_type {
                    ClipRequest::Chunk => {
                        let mut payload = bin;
                        self.chunks.append(&mut payload);
                        let flushed = self.chunks.clone();
                        proof {
                            assert(flushed@ =~= self.chunks@);
                        }
                        SessionEffect::StoreClip(flushed)
                    },
                    _ => SessionEffect::Silence,
                }
            },
            WsMessage::Continuation(item) => {
                match self.request_type {
                    ClipRequest::Chunk => {
                        match item {
                            ContinuationItem::FirstText(d) => {
                                let mut payload = d;
                                self.chunks.append(&mut payload);
                                SessionEffect::Silence
                            },
                            ContinuationItem::FirstBinary(d) => {
                                let mut payload = d;
                                self.chunks.append(&mut payload);
                                SessionEffect::Silence
                            },
                            ContinuationItem::Continue(d) => {
                                let mut payload = d;
                                self.chunks.append(&mut payload);
                                SessionEffect::Silence
                            },
                            ContinuationItem::Last(d) => {
                                let mut payload = d;
                                self.chunks.append(&mut payload);
                                let flushed = self.chunks.clone();
                                proof {
                                    assert(flushed@ =~= self.chunks@);
                                }
                                SessionEffect::StoreClip(flushed)
                            },
                        }
                    },
                    _ => SessionEffect::Silence,
                }
            },
            WsMessage::Pong(_) => SessionEffect::Silence,
            WsMessage::Close => SessionEffect::Silence,
            WsMessage::Nop => SessionEffect::Silence,
        }
    }
}

/// The reply owed to the client after a merge: the text "passed" on
/// success, and nothing on failure, which is only logged at the boundary.
pub fn merge_reply(outcome: &Result<String, MergeError>) -> (r: Option<&'static str>)
    ensures
        outcome is Ok <==> (r matches Some(t) && t@ == "passed"@),
        outcome is Err <==> r is None,
{
    match outcome {
        Ok(_) => Some("passed"),
        Err(_) => None,
    }
}

/// Fragment reassembly: on a fresh chunk-mode connection, the fragments
/// `First(a)`, `Continue(b)`, `Last(c)` store exactly the bytes `a + b + c`
/// — the same clip contents as the single binary frame `a + b + c` on an
/// equally fresh connection — and the two leading fragments store nothing
/// and send no reply.
pub proof fn lemma_fragment_reassembly(a: Seq<u8>, b: Seq<u8>, c: Seq<u8>)
    ensures
        ({
            let s0 = Seq::<u8>::empty();
            let m1 = WsMessageView::Continuation(ContinuationItemView::FirstBinary(a));
            let m2 = WsMessageView::Continuation(ContinuationItemView::Continue(b));
            let m3 = WsMessageView::Continuation(ContinuationItemView::Last(c));
            let s1 = spec_chunks_after(ClipRequest::Chunk, s0, m1);
            let s2 = spec_chunks_after(ClipRequest::Chunk, s1, m2);
            &&& spec_effect_of(ClipRequest::Chunk, s0, m1) == SessionEffectView::Silence
            &&& spec_effect_of(ClipRequest::Chunk, s1, m2) == SessionEffectView::Silence
            &&& spec_effect_of(ClipRequest::Chunk, s2, m3) == SessionEffectView::StoreClip(
                a + b + c,
            )
            &&& spec_effect_of(ClipRequest::Chunk, s2, m3) == spec_effect_of(
                ClipRequest::Chunk,
                s0,
                WsMessageView::Binary(a + b + c),
            )
        }),
{
    assert(Seq::<u8>::empty() + a + b + c =~= a + b + c);
    assert(Seq::<u8>::empty() + (a + b + c) =~= a + b + c);
}

/// Buffer accumulation: two binary messages on one fresh chunk-mode
/// connection flush twice; the first flush stores the first payload and the
/// second stores the concatenation of both payloads, because the ingest
/// buffer is never cleared between flushes.
pub proof fn lemma_buffer_accumulation(b1: Seq<u8>, b2: Seq<u8>)
    ensures
        ({
            let s0 = Seq::<u8>::empty();
            let s1 = spec_chunks_after(ClipRequest::Chunk, s0, WsMessageView::Binary(b1));
            &&& spec_effect_of(ClipRequest::Chunk, s0, WsMessageView::Binary(b1))
                == SessionEffectView::StoreClip(b1)
            &&& spec_effect_of(ClipRequest::Chunk, s1, WsMessageView::Binary(b2))
                == SessionEffectView::StoreClip(b1 + b2)
        }),
{
    assert(Seq::<u8>::empty() + b1 =~= b1);
    assert(Seq::<u8>::empty() + b1 + b2 =~= b1 + b2);
}

} // verus!
