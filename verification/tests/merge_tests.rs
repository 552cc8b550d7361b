use cliphost::errors::{ClipErrorType, MergeError};
use cliphost::merge::FFMpegService;
use cliphost::request::ClipDetailRequest;
use cliphost::session::{ClipRequest, ClipWS, SessionEffect, WsMessage};
use cliphost::store::{clip_file_name, SessionStore};
use cliphost::util::Utilities;

fn clip(id: &str) -> ClipDetailRequest {
    ClipDetailRequest { id: String::from(id), duration_ms: 1000 }
}

#[test]
fn plan_merge_builds_exact_argument_list() {
    let clips = vec![clip("c1"), clip("c2"), clip("c3")];
    let exists = vec![true, true, true];
    let plan = FFMpegService::plan_merge("root/", "s", &clips, &exists).unwrap();
    let expected: Vec<&str> = vec![
        "-y",
        "-i",
        "root/s/c1.webm",
        "-i",
        "root/s/c2.webm",
        "-i",
        "root/s/c3.webm",
        "-filter_complex",
        "[0:v][0:a][1:v][1:a][2:v][2:a]concat=n=3:v=1:a=1[outv][outa]",
        "-map",
        "[outv]",
        "-map",
        "[outa]",
        "-c:v",
        "libvpx-vp9",
        "-crf",
        "23",
        "-c:a",
        "libopus",
        "-cpu-used",
        "8",
        "-row-mt",
        "1",
        "-threads",
        "8",
        "-tile-columns",
        "2",
        "-frame-parallel",
        "1",
        "-auto-alt-ref",
        "1",
        "root/s/output-s.webm",
    ];
    let got: Vec<&str> = plan.args.iter().map(|s| s.as_str()).collect();
    assert_eq!(got, expected);
    assert_eq!(plan.output_path, "root/s/output-s.webm");
    assert_eq!(
        plan.clip_paths,
        vec!["root/s/c1.webm", "root/s/c2.webm", "root/s/c3.webm"]
    );
}

#[test]
fn plan_merge_follows_request_order() {
    let exists = vec![true, true, true];
    let forward = FFMpegService::plan_merge(
        "root/",
        "s",
        &vec![clip("c1"), clip("c2"), clip("c3")],
        &exists,
    )
    .unwrap();
    let shuffled = FFMpegService::plan_merge(
        "root/",
        "s",
        &vec![clip("c3"), clip("c1"), clip("c2")],
        &exists,
    )
    .unwrap();
    assert_eq!(
        forward.clip_paths,
        vec!["root/s/c1.webm", "root/s/c2.webm", "root/s/c3.webm"]
    );
    assert_eq!(
        shuffled.clip_paths,
        vec!["root/s/c3.webm", "root/s/c1.webm", "root/s/c2.webm"]
    );
    // input i of the invocation is clip i of the request
    assert_eq!(forward.args[2], "root/s/c1.webm");
    assert_eq!(shuffled.args[2], "root/s/c3.webm");
    assert_eq!(shuffled.args[4], "root/s/c1.webm");
    assert_eq!(shuffled.args[6], "root/s/c2.webm");
    // the filter graph itself is order-independent: streams 0..n in order
    assert_eq!(forward.args[8], shuffled.args[8]);
}

#[test]
fn plan_merge_rejects_missing_clip_without_spawn() {
    let clips = vec![clip("c1"), clip("gone")];
    let exists = vec![true, false];
    let r = FFMpegService::plan_merge("root/", "s", &clips, &exists);
    assert_eq!(r.err(), Some(MergeError::ClipCountMismatch));
}

#[test]
fn plan_merge_rejects_empty_request() {
    let clips: Vec<ClipDetailRequest> = vec![];
    let exists: Vec<bool> = vec![];
    let r = FFMpegService::plan_merge("root/", "s", &clips, &exists);
    assert_eq!(r.err(), Some(MergeError::EmptyRequest));
}

#[test]
fn single_clip_filter_graph() {
    let plan =
        FFMpegService::plan_merge("root/", "s", &vec![clip("only")], &vec![true]).unwrap();
    assert_eq!(plan.args[4], "[0:v][0:a]concat=n=1:v=1:a=1[outv][outa]");
}

#[test]
fn repeated_merge_is_deterministic_and_overwrites() {
    let clips = vec![clip("c1"), clip("c2")];
    let exists = vec![true, true];
    let first = FFMpegService::plan_merge("root/", "s", &clips, &exists).unwrap();
    let second = FFMpegService::plan_merge("root/", "s", &clips, &exists).unwrap();
    assert_eq!(first.args, second.args);
    assert_eq!(first.output_path, second.output_path);

    // the session directory holds exactly one output file across repeats
    let mut store = SessionStore::new();
    store.write("c1.webm", b"one".to_vec());
    store.write("c2.webm", b"two".to_vec());
    store.write("output-s.webm", b"merged-a".to_vec());
    assert_eq!(store.file_count(), 3);
    store.write("output-s.webm", b"merged-b".to_vec());
    assert_eq!(store.file_count(), 3);
    assert_eq!(store.read("output-s.webm"), Some(&b"merged-b".to_vec()));
}

#[test]
fn validate_outcome_reports_encode_failure() {
    assert!(FFMpegService::validate_outcome(true, 10).is_ok());
    assert_eq!(
        FFMpegService::validate_outcome(false, 10).err(),
        Some(MergeError::EncodeFailure)
    );
    assert_eq!(
        FFMpegService::validate_outcome(true, 0).err(),
        Some(MergeError::EncodeFailure)
    );
    assert_eq!(
        FFMpegService::validate_outcome(false, 0).err(),
        Some(MergeError::EncodeFailure)
    );
}

#[test]
fn resolve_output_request_paths_and_errors() {
    let ok = FFMpegService::resolve_output_request("root/", "abc").unwrap();
    assert_eq!(ok, "root/abc/output-abc.webm");
    let err = FFMpegService::resolve_output_request("root/", "").unwrap_err();
    assert!(matches!(err.err_type, ClipErrorType::InvalidUri));
    assert_eq!(err.message, Some(String::from("Invalid URI")));
    assert_eq!(err.status_code(), 404);
}

#[test]
fn plan_clip_file_resolves_session_paths() {
    let (dir, path) = FFMpegService::plan_clip_file("root/", "abc", "clip-7");
    assert_eq!(dir, "root/abc");
    assert_eq!(path, "root/abc/clip-7.webm");
}

#[test]
fn session_paths_stay_inside_their_session() {
    let (_, path_a) = FFMpegService::plan_clip_file("root/", "A", "x");
    assert!(path_a.starts_with("root/A/"));
    assert!(!path_a.starts_with("root/B/"));
    let out_a = FFMpegService::resolve_output_request("root/", "A").unwrap();
    assert!(out_a.starts_with("root/A/"));
    assert!(!out_a.starts_with("root/B/"));
}

#[test]
fn ingest_then_merge_flow() {
    // a chunk-mode connection uploads two messages; the store mirrors the
    // session directory
    let mut ingest = ClipWS::new(ClipRequest::Chunk, String::from("s"), 0).unwrap();
    let mut store = SessionStore::new();
    let mut ids: Vec<String> = vec![];
    for (n, payload) in [(1u64, b"aa".to_vec()), (2u64, b"bb".to_vec())] {
        let e = ingest.handle(WsMessage::Binary(payload), n);
        let bytes = match e {
            SessionEffect::StoreClip(b) => b,
            _ => panic!("upload must flush"),
        };
        let id = Utilities::rnd_id_from("clip-", n);
        store.write(&clip_file_name(&id), bytes);
        ids.push(id);
    }
    assert_eq!(store.read(&clip_file_name(&ids[1])), Some(&b"aabb".to_vec()));

    // a playback connection asks for both clips in order
    let mut play = ClipWS::new(ClipRequest::OnPlayback, String::from("s"), 0).unwrap();
    let payload = format!(
        "[{{\"id\":\"{}\",\"duration\":1.0}},{{\"id\":\"{}\",\"duration\":2.0}}]",
        ids[0], ids[1]
    );
    let e = play.handle(WsMessage::Text(payload), 3);
    let clips = match e {
        SessionEffect::Merge(c) => c,
        _ => panic!("playback text must become a merge request"),
    };
    let exists: Vec<bool> =
        clips.iter().map(|c| store.exists_file(&clip_file_name(&c.id))).collect();
    let plan = FFMpegService::plan_merge("root/", "s", &clips, &exists).unwrap();
    assert_eq!(
        plan.clip_paths,
        vec![format!("root/s/{}.webm", ids[0]), format!("root/s/{}.webm", ids[1])]
    );

    // a clip the session never stored is caught before any spawn
    let ghost_clips = vec![clip("clip-9")];
    let ghost_exists: Vec<bool> =
        ghost_clips.iter().map(|c| store.exists_file(&clip_file_name(&c.id))).collect();
    let r = FFMpegService::plan_merge("root/", "s", &ghost_clips, &ghost_exists);
    assert_eq!(r.err(), Some(MergeError::ClipCountMismatch));
}
