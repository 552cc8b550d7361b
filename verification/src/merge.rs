use vstd::prelude::*;
use vstd::string::*;
use crate::errors::{ClipError, ClipErrorType, MergeError};
use crate::request::ClipDetailRequest;
use crate::store::{
    spec_clip_path, spec_output_path, spec_session_dir, clip_path, output_path, session_dir,
};
use crate::text::{spec_dec, u64_to_dec};

verus! {

// The merge pipeline: resolves an ordered clip list against the session
// directory, builds the external encoder's argument list, and validates the
// finished run. The encoder itself is an opaque external binary; the
// boundary spawns it with exactly the arguments planned here.

pub open spec fn spec_strings_view(v: Seq<String>) -> Seq<Seq<char>> {
    v.map_values(|s: String| s@)
}

pub open spec fn spec_clip_ids(clips: Seq<ClipDetailRequest>) -> Seq<Seq<char>> {
    clips.map_values(|c: ClipDetailRequest| c@.0)
}

/// The stream-selection tokens of the filter graph: `[i:v][i:a]` for each
/// input index `i`, in input order.
pub open spec fn spec_filter_pairs(n: nat) -> Seq<char>
    decreases n,
{
    if n == 0 {
        Seq::empty()
    } else {
        spec_filter_pairs((n - 1) as nat) + "["@ + spec_dec((n - 1) as nat) + ":v]["@ + spec_dec(
            (n - 1) as nat,
        ) + ":a]"@
    }
}

/// The whole filter graph: the stream tokens of all inputs, then one concat
/// filter joining them into the output video and audio streams.
pub open spec fn spec_filter_graph(n: nat) -> Seq<char> {
    spec_filter_pairs(n) + "concat=n="@ + spec_dec(n) + ":v=1:a=1[outv][outa]"@
}

/// For each clip in request order: `-i` followed by the clip's resolved
/// path inside the session directory.
pub open spec fn spec_input_args(root: Seq<char>, sid: Seq<char>, ids: Seq<Seq<char>>) -> Seq<
    Seq<char>,
>
    decreases ids.len(),
{
    if ids.len() == 0 {
        Seq::empty()
    } else {
        spec_input_args(root, sid, ids.drop_last()) + seq![
            "-i"@,
            spec_clip_path(root, sid, ids.last()),
        ]
    }
}

/// The fixed encode profile: VP9 at constant quality 23 with Opus audio,
/// tuned for eight parallel threads, row-based multithreading, two tile
/// columns, frame-parallel decoding and automatic alternate reference
/// frames. Callers cannot change it.
pub open spec fn spec_profile_args() -> Seq<Seq<char>> {
    seq![
        "-c:v"@,
        "libvpx-vp9"@,
        "-crf"@,
        "23"@,
        "-c:a"@,
        "libopus"@,
        "-cpu-used"@,
        "8"@,
        "-row-mt"@,
        "1"@,
        "-threads"@,
        "8"@,
        "-tile-columns"@,
        "2"@,
        "-frame-parallel"@,
        "1"@,
        "-auto-alt-ref"@,
        "1"@,
    ]
}

/// The full encoder argument list for one merge: unconditional overwrite,
/// the inputs in request order, the filter graph, the output stream maps,
/// the fixed profile, and the output path.
pub open spec fn spec_merge_args(root: Seq<char>, sid: Seq<char>, ids: Seq<Seq<char>>) -> Seq<
    Seq<char>,
> {
    seq!["-y"@] + spec_input_args(root, sid, ids) + seq![
        "-filter_complex"@,
        spec_filter_graph(ids.len()),
    ] + seq!["-map"@, "[outv]"@, "-map"@, "[outa]"@] + spec_profile_args() + seq![
        spec_output_path(root, sid),
    ]
}

/// A fully built encoder invocation: the argument list in order, the
/// resolved clip paths in request order, and the output path. To execute
/// it, the boundary removes any previous file at `output_path` and then
/// runs the encoder binary with exactly `args`.
pub struct MergePlan {
    pub args: Vec<String>,
    pub clip_paths: Vec<String>,
    pub output_path: String,
}

/// Builds the filter graph for `n` inputs.
fn build_filter_graph(n: u64) -> (r: String)
    ensures
        r@ == spec_filter_graph(n as nat),
{
    let mut fg = String::new();
    let mut i: u64 = 0;
    proof {
        assert(fg@ =~= spec_filter_pairs(0));
    }
    while i < n
        invariant
            i <= n,
            fg@ == spec_filter_pairs(i as nat),
        decreases n - i,
    {
        fg.append("[");
        let d = u64_to_dec(i);
        fg.append(d.as_str());
        fg.append(":v][");
        fg.append(d.as_str());
        fg.append(":a]");
        proof {
            assert(fg@ =~= spec_filter_pairs((i + 1) as nat));
        }
        i = i + 1;
    }
    fg.append("concat=n=");
    let d = u64_to_dec(n);
    fg.append(d.as_str());
    fg.append(":v=1:a=1[outv][outa]");
    proof {
        assert(fg@ =~= spec_filter_graph(n as nat));
    }
    fg
}

proof fn lemma_input_args_len(root: Seq<char>, sid: Seq<char>, ids: Seq<Seq<char>>)
    ensures
        spec_input_args(root, sid, ids).len() == 2 * ids.len(),
    decreases ids.len(),
{
    if ids.len() > 0 {
        lemma_input_args_len(root, sid, ids.drop_last());
    }
}

proof fn lemma_input_args_index(root: Seq<char>, sid: Seq<char>, ids: Seq<Seq<char>>, i: int)
    requires
        0 <= i < ids.len(),
    ensures
        spec_input_args(root, sid, ids)[2 * i] == "-i"@,
        spec_input_args(root, sid, ids)[2 * i + 1] == spec_clip_path(root, sid, ids[i]),
    decreases ids.len(),
{
    lemma_input_args_len(root, sid, ids);
    lemma_input_args_len(root, sid, ids.drop_last());
    if i == ids.len() - 1 {
    } else {
        lemma_input_args_index(root, sid, ids.drop_last(), i);
        assert(ids.drop_last()[i] == ids[i]);
    }
}

/// Merge ordering: input `i` of the planned invocation is exactly clip `i`
/// of the request — the argument list holds `-i` and the path of the `i`-th
/// requested clip at the `i`-th input position, so reordering the request
/// reorders the concatenation.
pub proof fn lemma_merge_ordering(root: Seq<char>, sid: Seq<char>, ids: Seq<Seq<char>>, i: int)
    requires
        0 <= i < ids.len(),
    ensures
        2 * i + 2 < spec_merge_args(root, sid, ids).len(),
        spec_merge_args(root, sid, ids)[2 * i + 1] == "-i"@,
        spec_merge_args(root, sid, ids)[2 * i + 2] == spec_clip_path(root, sid, ids[i]),
{
    lemma_input_args_len(root, sid, ids);
    lemma_input_args_index(root, sid, ids, i);
}

fn push_arg(args: &mut Vec<String>, s: &str)
    ensures
        spec_strings_view(final(args)@) == spec_strings_view(old(args)@).push(s@),
{
    let owned = s.to_owned();
    let ghost v = owned@;
    args.push(owned);
    proof {
        assert(spec_strings_view(args@) =~= spec_strings_view(old(args)@).push(v));
    }
}

fn push_string_arg(args: &mut Vec<String>, s: String)
    ensures
        spec_strings_view(final(args)@) == spec_strings_view(old(args)@).push(s@),
{
    let ghost v = s@;
    args.push(s);
    proof {
        assert(spec_strings_view(args@) =~= spec_strings_view(old(args)@).push(v));
    }
}

/// The merge pipeline service.
pub struct FFMpegService {}

impl FFMpegService {
    /// The first half of a merge: validation and argument construction.
    /// The boundary reports in `clip_exists` whether each requested clip,
    /// in request order, resolved to an existing file in the session
    /// directory. An empty request is refused, and a request in which any
    /// clip failed to resolve is refused as a clip-count mismatch — both
    /// before any encoder process is spawned. Every other request yields
    /// the exact planned invocation.
    #[verifier::rlimit(100)]
    #[verifier::spinoff_prover]
    pub fn plan_merge(
        root: &str,
        session_id: &str,
        clips: &Vec<ClipDetailRequest>,
        clip_exists: &Vec<bool>,
    ) -> (r: Result<MergePlan, MergeError>)
        requires
            clip_exists@.len() == clips@.len(),
        ensures
            clips@.len() == 0 ==> (r matches Err(e) && e == MergeError::EmptyRequest),
            clips@.len() > 0 && !(forall|i: int|
                0 <= i < clip_exists@.len() ==> clip_exists@[i]) ==> (r matches Err(e) && e
                == MergeError::ClipCountMismatch),
            clips@.len() > 0 && (forall|i: int| 0 <= i < clip_exists@.len() ==> clip_exists@[i])
                ==> (r matches Ok(p) && spec_strings_view(p.args@) == spec_merge_args(
                root@,
                session_id@,
                spec_clip_ids(clips@),
            ) && p.clip_paths@.len() == clips@.len() && (forall|i: int|
                0 <= i < clips@.len() ==> #[trigger] p.clip_paths@[i]@ == spec_clip_path(
                    root@,
                    session_id@,
                    clips@[i].id@,
                )) && p.output_path@ == spec_output_path(root@, session_id@)),
    {
        let n = clips.len();
        if n == 0 {
            return Err(MergeError::EmptyRequest);
        }
        let mut k: usize = 0;
        while k < n
            invariant
                n == clips@.len(),
                clip_exists@.len() == n,
                k <= n,
                forall|i: int| 0 <= i < k ==> clip_exists@[i],
            decreases n - k,
        {
            if !clip_exists[k] {
                return Err(MergeError::ClipCountMismatch);
            }
            k = k + 1;
        }
        let ghost ids = spec_clip_ids(clips@);
        let mut args: Vec<String> = Vec::new();
        push_arg(&mut args, "-y");
        let mut clip_paths: Vec<String> = Vec::new();
        let mut idx: usize = 0;
        proof {
            assert(spec_strings_view(args@) =~= seq!["-y"@] + spec_input_args(
                root@,
                session_id@,
                ids.take(0),
            ));
        }
        while idx < n
            invariant
                n == clips@.len(),
                idx <= n,
                ids == spec_clip_ids(clips@),
                spec_strings_view(args@) == seq!["-y"@] + spec_input_args(
                    root@,
                    session_id@,
                    ids.take(idx as int),
                ),
                clip_paths@.len() == idx,
                forall|i: int|
                    0 <= i < idx ==> #[trigger] clip_paths@[i]@ == spec_clip_path(
                        root@,
                        session_id@,
                        clips@[i].id@,
                    ),
            decreases n - idx,
        {
            let p = clip_path(root, session_id, clips[idx].id.as_str());
            push_arg(&mut args, "-i");
            push_string_arg(&mut args, p.clone());
            clip_paths.push(p);
            proof {
                assert(ids.take(idx + 1 as int).drop_last() =~= ids.take(idx as int));
                assert(ids.take(idx + 1 as int).last() == clips@[idx as int]@.0);
                assert(spec_input_args(root@, session_id@, ids.take(idx + 1 as int))
                    == spec_input_args(root@, session_id@, ids.take(idx as int)) + seq![
                    "-i"@,
                    spec_clip_path(root@, session_id@, clips@[idx as int].id@),
                ]);
                assert(spec_strings_view(args@) =~= seq!["-y"@] + spec_input_args(
                    root@,
                    session_id@,
                    ids.take(idx + 1 as int),
                ));
            }
            idx = idx + 1;
        }
        proof {
            assert(ids.take(n as int) =~= ids);
        }
        push_arg(&mut args, "-filter_complex");
        let fg = build_filter_graph(n as u64);
        proof {
            assert(ids.len() == n as nat);
        }
        push_string_arg(&mut args, fg);
        push_arg(&mut args, "-map");
        push_arg(&mut args, "[outv]");
        push_arg(&mut args, "-map");
        push_arg(&mut args, "[outa]");
        let ghost mid = spec_strings_view(args@);
        proof {
            assert(mid =~= seq!["-y"@] + spec_input_args(root@, session_id@, ids) + seq![
                "-filter_complex"@,
                spec_filter_graph(ids.len()),
            ] + seq!["-map"@, "[outv]"@, "-map"@, "[outa]"@]);
        }
        push_arg(&mut args, "-c:v");
        push_arg(&mut args, "libvpx-vp9");
        push_arg(&mut args, "-crf");
        push_arg(&mut args, "23");
        push_arg(&mut args, "-c:a");
        push_arg(&mut args, "libopus");
        push_arg(&mut args, "-cpu-used");
        push_arg(&mut args, "8");
        push_arg(&mut args, "-row-mt");
        push_arg(&mut args, "1");
        push_arg(&mut args, "-threads");
        push_arg(&mut args, "8");
        push_arg(&mut args, "-tile-columns");
        push_arg(&mut args, "2");
        push_arg(&mut args, "-frame-parallel");
        push_arg(&mut args, "1");
        push_arg(&mut args, "-auto-alt-ref");
        push_arg(&mut args, "1");
        proof {
            assert(spec_strings_view(args@) =~= mid + spec_profile_args());
        }
        let ghost with_profile = spec_strings_view(args@);
        let out = output_path(root, session_id);
        push_string_arg(&mut args, out.clone());
        proof {
            assert(spec_strings_view(args@) =~= with_profile + seq![
                spec_output_path(root@, session_id@),
            ]);
            assert(spec_strings_view(args@) =~= spec_merge_args(root@, session_id@, ids));
        }
        Ok(MergePlan { args, clip_paths, output_path: out })
    }

    /// The second half of a merge: validation of the finished encoder run.
    /// An unsuccessful exit status or an empty output file is an encode
    /// failure, reported to the caller rather than only logged.
    pub fn validate_outcome(exit_success: bool, output_len: u64) -> (r: Result<(), MergeError>)
        ensures
            r is Ok <==> (exit_success && output_len > 0),
            !(exit_success && output_len > 0) ==> (r matches Err(e) && e
                == MergeError::EncodeFailure),
    {
        if exit_success && output_len > 0 {
            Ok(())
        } else {
            Err(MergeError::EncodeFailure)
        }
    }

    /// Resolves a retrieval request for a session's merged output: an empty
    /// session id is refused as an invalid URI (the not-found class), any
    /// other id yields the output path to stream back.
    pub fn resolve_output_request(root: &str, session_id: &str) -> (r: Result<String, ClipError>)
        ensures
            session_id@.len() > 0 ==> (r matches Ok(p) && p@ == spec_output_path(
                root@,
                session_id@,
            )),
            session_id@.len() == 0 ==> (r matches Err(e) && e.err_type
                == ClipErrorType::InvalidUri && (e.message matches Some(m) && m@
                == "Invalid URI"@)),
    {
        if session_id.is_empty() {
            let mut error = ClipError::from("Invalid URI".to_owned());
            error.set_type(ClipErrorType::InvalidUri);
            Err(error)
        } else {
            Ok(output_path(root, session_id))
        }
    }

    /// The paths used to persist one flushed clip: the session directory,
    /// which the boundary creates on first write if absent, and the file
    /// path at which the clip's bytes are stored.
    pub fn plan_clip_file(root: &str, session_id: &str, clip_id: &str) -> (r: (String, String))
        ensures
            r.0@ == spec_session_dir(root@, session_id@),
            r.1@ == spec_clip_path(root@, session_id@, clip_id@),
    {
        let dir = session_dir(root, session_id);
        let path = clip_path(root, session_id, clip_id);
        (dir, path)
    }
}

} // verus!
