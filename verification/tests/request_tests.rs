use cliphost::errors::MergeError;
use cliphost::request::parse_clip_request;

#[test]
fn parse_two_clips_in_order() {
    let r = parse_clip_request(
        "[{\"id\":\"clip-1\",\"duration\":2.5},{\"id\":\"clip-2\",\"duration\":0.25}]",
    )
    .unwrap();
    assert_eq!(r.len(), 2);
    assert_eq!(r[0].id, "clip-1");
    assert_eq!(r[0].duration_ms, 2500);
    assert_eq!(r[1].id, "clip-2");
    assert_eq!(r[1].duration_ms, 250);
}

#[test]
fn parse_members_in_either_order() {
    let r = parse_clip_request("[{\"duration\":1.0,\"id\":\"a\"}]").unwrap();
    assert_eq!(r.len(), 1);
    assert_eq!(r[0].id, "a");
    assert_eq!(r[0].duration_ms, 1000);
}

#[test]
fn parse_tolerates_whitespace() {
    let r =
        parse_clip_request(" [ { \"id\" : \"a\" , \"duration\" : 3 } ] ").unwrap();
    assert_eq!(r.len(), 1);
    assert_eq!(r[0].id, "a");
    assert_eq!(r[0].duration_ms, 3000);
}

#[test]
fn parse_empty_array() {
    let r = parse_clip_request("[]").unwrap();
    assert!(r.is_empty());
}

#[test]
fn parse_truncates_fraction_to_milliseconds() {
    let r = parse_clip_request("[{\"id\":\"a\",\"duration\":1.2345}]").unwrap();
    assert_eq!(r[0].duration_ms, 1234);
}

#[test]
fn parse_clamps_negative_duration_to_zero() {
    let r = parse_clip_request("[{\"id\":\"a\",\"duration\":-2.5}]").unwrap();
    assert_eq!(r[0].duration_ms, 0);
}

#[test]
fn parse_saturates_huge_duration() {
    let r = parse_clip_request(
        "[{\"id\":\"a\",\"duration\":99999999999999999999999999999.9}]",
    )
    .unwrap();
    assert_eq!(r[0].duration_ms, u64::MAX);
}

#[test]
fn parse_rejects_malformed_payloads() {
    for bad in [
        "",
        "{",
        "[",
        "[{}]",
        "not json",
        "[{\"id\":\"a\"}]",
        "[{\"duration\":1.0}]",
        "[{\"id\":\"a\",\"duration\":}]",
        "[{\"id\":\"a\",\"duration\":1.}]",
        "[{\"id\":\"a\",\"duration\":1.0}] trailing",
        "[{\"id\":\"a\",\"duration\":1.0},]",
        "[{\"id\":\"a\",\"duration\":1.0}",
        "[{\"id\":a,\"duration\":1.0}]",
        "[{\"id\":\"a\\\"b\",\"duration\":1.0}]",
    ] {
        let r = parse_clip_request(bad);
        assert_eq!(r.err(), Some(MergeError::MalformedRequest), "payload: {}", bad);
    }
}

#[test]
fn parse_keeps_order_of_many_clips() {
    let payload = "[{\"id\":\"c3\",\"duration\":1},{\"id\":\"c1\",\"duration\":2},{\"id\":\"c2\",\"duration\":3}]";
    let r = parse_clip_request(payload).unwrap();
    let ids: Vec<&str> = r.iter().map(|c| c.id.as_str()).collect();
    assert_eq!(ids, vec!["c3", "c1", "c2"]);
}
