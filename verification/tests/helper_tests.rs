use cliphost::client;
use cliphost::errors::{ClipError, ClipErrorType};
use cliphost::heartbeat::{HeartbeatState, CLIENT_TIMEOUT_MS, HEARTBEAT_INTERVAL_MS};
use cliphost::models::FormField;
use cliphost::store::SessionStore;
use cliphost::text::{str_eq, u64_to_dec};
use cliphost::util::{Cookie, Utilities};

#[test]
fn heartbeat_times_out_after_silence() {
    let hb = HeartbeatState::new(0);
    assert!(!hb.timed_out(CLIENT_TIMEOUT_MS));
    assert!(hb.timed_out(CLIENT_TIMEOUT_MS + 1));
}

#[test]
fn heartbeat_survives_frequent_pings() {
    let mut hb = HeartbeatState::new(0);
    let mut now: u64 = 0;
    let mut next_ping: u64 = 95_000;
    while now < 1_000_000 {
        now += HEARTBEAT_INTERVAL_MS;
        if now >= next_ping {
            hb.refresh(now);
            next_ping += 95_000;
        }
        assert!(!hb.timed_out(now), "connection closed at {}", now);
    }
}

#[test]
fn heartbeat_closes_without_pings() {
    let hb = HeartbeatState::new(1000);
    let mut now: u64 = 1000;
    let mut closed = false;
    while now < 1000 + 2 * CLIENT_TIMEOUT_MS {
        now += HEARTBEAT_INTERVAL_MS;
        if hb.timed_out(now) {
            closed = true;
            break;
        }
    }
    assert!(closed);
    assert!(now - 1000 <= CLIENT_TIMEOUT_MS + HEARTBEAT_INTERVAL_MS);
}

#[test]
fn rnd_id_has_prefix_and_bounded_number() {
    for _ in 0..50 {
        let id = Utilities::rnd_id("clip-");
        let suffix = id.strip_prefix("clip-").expect("prefix kept");
        let n: u64 = suffix.parse().expect("numeric suffix");
        assert!(n < 999999);
    }
}

#[test]
fn rnd_id_from_is_deterministic() {
    assert_eq!(Utilities::rnd_id_from("clip-", 42), "clip-42");
    assert_eq!(Utilities::rnd_id_from("clip-", 0), "clip-0");
    assert_eq!(Utilities::rnd_id_from("x", 998998), "x998998");
}

#[test]
fn decimal_rendering() {
    assert_eq!(u64_to_dec(0), "0");
    assert_eq!(u64_to_dec(7), "7");
    assert_eq!(u64_to_dec(10), "10");
    assert_eq!(u64_to_dec(123456), "123456");
    assert_eq!(u64_to_dec(u64::MAX), "18446744073709551615");
}

#[test]
fn string_equality_by_characters() {
    assert!(str_eq("abc", "abc"));
    assert!(!str_eq("abc", "abd"));
    assert!(!str_eq("abc", "abcd"));
    assert!(str_eq("", ""));
}

#[test]
fn cookie_lookup_takes_first_match() {
    let cookies = vec![
        Cookie { name: String::from("other"), value: String::from("1") },
        Cookie { name: String::from("X-FDot-Session"), value: String::from("abc") },
        Cookie { name: String::from("X-FDot-Session"), value: String::from("later") },
    ];
    assert_eq!(Utilities::get_cookie_value(&cookies, "X-FDot-Session"), "abc");
    assert_eq!(Utilities::get_cookie_value(&cookies, "missing"), "");
    assert_eq!(Utilities::get_cookie_value(&vec![], "any"), "");
}

#[test]
fn config_lookup() {
    assert_eq!(client::Utilities::config("ws_url"), "ws://127.0.0.1:9011/ws/");
    assert_eq!(client::Utilities::config("unknown"), "InvalidConfigKey");
}

#[test]
fn leaked_string_keeps_contents() {
    let s = String::from("hello");
    let leaked = client::Utilities::string_to_static_str(s);
    assert_eq!(leaked, "hello");
}

#[test]
fn clip_error_from_and_type() {
    let mut e = ClipError::from(String::from("boom"));
    assert_eq!(e.message, Some(String::from("boom")));
    assert!(matches!(e.err_type, ClipErrorType::Error));
    assert_eq!(e.status_code(), 400);
    e.set_type(ClipErrorType::InvalidUri);
    assert!(matches!(e.err_type, ClipErrorType::InvalidUri));
    assert_eq!(e.status_code(), 404);
    assert_eq!(e.message, Some(String::from("boom")));
    e._message();
}

#[test]
fn session_store_write_read_exists() {
    let mut store = SessionStore::new();
    assert!(!store.exists_file("a.webm"));
    assert_eq!(store.file_count(), 0);
    store.write("a.webm", b"one".to_vec());
    store.write("b.webm", b"two".to_vec());
    assert!(store.exists_file("a.webm"));
    assert!(store.exists_file("b.webm"));
    assert!(!store.exists_file("c.webm"));
    assert_eq!(store.file_count(), 2);
    assert_eq!(store.read("a.webm"), Some(&b"one".to_vec()));
    assert_eq!(store.read("c.webm"), None);
    store.write("a.webm", b"replaced".to_vec());
    assert_eq!(store.file_count(), 2);
    assert_eq!(store.read("a.webm"), Some(&b"replaced".to_vec()));
}

#[test]
fn form_field_default_is_blank() {
    let f = FormField::default();
    assert_eq!(f.label, "");
    assert_eq!(f.value, "");
    assert_eq!(f.required, "");
    assert_eq!(f.icon, "");
    assert_eq!(f.field_type, "");
    assert_eq!(f.validator, "");
    assert_eq!(f.sort_order, "");
    assert!(f.options.is_empty());
}
