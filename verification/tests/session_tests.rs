use cliphost::errors::{ClipErrorType, MergeError};
use cliphost::session::{
    ClipRequest, ClipWS, ContinuationItem, SessionEffect, WsMessage, merge_reply,
};

fn fresh(mode: ClipRequest) -> ClipWS {
    ClipWS::new(mode, String::from("sess"), 0).unwrap()
}

#[test]
fn fragment_reassembly_matches_single_binary() {
    let mut frag = fresh(ClipRequest::Chunk);
    let e1 = frag.handle(
        WsMessage::Continuation(ContinuationItem::FirstBinary(b"ab".to_vec())),
        1,
    );
    assert!(matches!(e1, SessionEffect::Silence));
    let e2 = frag.handle(
        WsMessage::Continuation(ContinuationItem::Continue(b"cd".to_vec())),
        2,
    );
    assert!(matches!(e2, SessionEffect::Silence));
    let e3 = frag.handle(
        WsMessage::Continuation(ContinuationItem::Last(b"ef".to_vec())),
        3,
    );
    let frag_bytes = match e3 {
        SessionEffect::StoreClip(b) => b,
        _ => panic!("last fragment must flush"),
    };

    let mut single = fresh(ClipRequest::Chunk);
    let e = single.handle(WsMessage::Binary(b"abcdef".to_vec()), 1);
    let single_bytes = match e {
        SessionEffect::StoreClip(b) => b,
        _ => panic!("binary message must flush"),
    };
    assert_eq!(frag_bytes, single_bytes);
    assert_eq!(frag_bytes, b"abcdef".to_vec());
}

#[test]
fn first_text_fragment_also_accumulates() {
    let mut s = fresh(ClipRequest::Chunk);
    let e1 = s.handle(
        WsMessage::Continuation(ContinuationItem::FirstText(b"xy".to_vec())),
        1,
    );
    assert!(matches!(e1, SessionEffect::Silence));
    let e2 = s.handle(
        WsMessage::Continuation(ContinuationItem::Last(b"z".to_vec())),
        2,
    );
    match e2 {
        SessionEffect::StoreClip(b) => assert_eq!(b, b"xyz".to_vec()),
        _ => panic!("last fragment must flush"),
    }
}

#[test]
fn buffer_accumulates_across_messages() {
    let mut s = fresh(ClipRequest::Chunk);
    let e1 = s.handle(WsMessage::Binary(b"first".to_vec()), 1);
    match e1 {
        SessionEffect::StoreClip(b) => assert_eq!(b, b"first".to_vec()),
        _ => panic!("binary message must flush"),
    }
    let e2 = s.handle(WsMessage::Binary(b"second".to_vec()), 2);
    match e2 {
        SessionEffect::StoreClip(b) => assert_eq!(b, b"firstsecond".to_vec()),
        _ => panic!("binary message must flush"),
    }
}

#[test]
fn ping_refreshes_liveness_and_pongs() {
    let mut s = fresh(ClipRequest::Chunk);
    let e = s.handle(WsMessage::Ping(b"hi".to_vec()), 42);
    match e {
        SessionEffect::Pong(m) => assert_eq!(m, b"hi".to_vec()),
        _ => panic!("ping must be answered with a pong"),
    }
    assert_eq!(s.hb.last_contact, 42);
}

#[test]
fn pong_close_nop_change_nothing() {
    let mut s = fresh(ClipRequest::Chunk);
    s.handle(WsMessage::Binary(b"abc".to_vec()), 1);
    for msg in [WsMessage::Pong(b"x".to_vec()), WsMessage::Close, WsMessage::Nop] {
        let e = s.handle(msg, 5);
        assert!(matches!(e, SessionEffect::Silence));
    }
    assert_eq!(s.chunks, b"abc".to_vec());
    assert_eq!(s.hb.last_contact, 0);
}

#[test]
fn playback_text_becomes_merge_request() {
    let mut s = fresh(ClipRequest::OnPlayback);
    let payload = String::from("[{\"id\":\"clip-1\",\"duration\":2.5},{\"id\":\"clip-2\",\"duration\":0.25}]");
    let e = s.handle(WsMessage::Text(payload), 1);
    match e {
        SessionEffect::Merge(clips) => {
            assert_eq!(clips.len(), 2);
            assert_eq!(clips[0].id, "clip-1");
            assert_eq!(clips[0].duration_ms, 2500);
            assert_eq!(clips[1].id, "clip-2");
            assert_eq!(clips[1].duration_ms, 250);
        }
        _ => panic!("playback text must become a merge request"),
    }
}

#[test]
fn malformed_playback_text_is_dropped() {
    let mut s = fresh(ClipRequest::OnPlayback);
    let e = s.handle(WsMessage::Text(String::from("not json")), 1);
    assert!(matches!(e, SessionEffect::Silence));
}

#[test]
fn chunk_mode_ignores_text() {
    let mut s = fresh(ClipRequest::Chunk);
    let e = s.handle(
        WsMessage::Text(String::from("[{\"id\":\"a\",\"duration\":1.0}]")),
        1,
    );
    assert!(matches!(e, SessionEffect::Silence));
}

#[test]
fn playback_mode_ignores_binary() {
    let mut s = fresh(ClipRequest::OnPlayback);
    let e = s.handle(WsMessage::Binary(b"abc".to_vec()), 1);
    assert!(matches!(e, SessionEffect::Silence));
    assert!(s.chunks.is_empty());
}

#[test]
fn empty_session_id_is_a_handshake_failure() {
    let r = ClipWS::new(ClipRequest::Chunk, String::new(), 7);
    match r {
        Err(e) => assert!(matches!(e.err_type, ClipErrorType::Error)),
        Ok(_) => panic!("empty session id must be refused"),
    }
}

#[test]
fn fresh_session_state() {
    let s = ClipWS::new(ClipRequest::OnPlayback, String::from("abc"), 9).unwrap();
    assert!(matches!(s.request_type, ClipRequest::OnPlayback));
    assert_eq!(s.session_id, "abc");
    assert!(s.chunks.is_empty());
    assert!(s.clips.is_empty());
    assert_eq!(s.hb.last_contact, 9);
}

#[test]
fn merge_reply_is_passed_on_success_only() {
    assert_eq!(merge_reply(&Ok(String::from("path"))), Some("passed"));
    assert_eq!(merge_reply(&Err(MergeError::EncodeFailure)), None);
    assert_eq!(merge_reply(&Err(MergeError::ClipCountMismatch)), None);
}
