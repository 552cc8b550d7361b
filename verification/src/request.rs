use vstd::prelude::*;
use vstd::string::*;
use crate::errors::MergeError;
use crate::text::{str_to_chars, string_push};

verus! {

// The playback request grammar. A playback connection sends one text frame
// holding an ordered list of clips, as an array of objects with an `id`
// string and a `duration` number, in JSON syntax:
//
//     [{"id":"clip-1","duration":2.5},{"id":"clip-2","duration":0.25}]
//
// The grammar below accepts surrounding whitespace, the two members in
// either order, and a decimal number with an optional sign and fraction.
// String values may hold any character except a quote or a backslash
// (escape sequences are rejected, not interpreted); durations are read as
// whole milliseconds, truncating further fractional digits, clamping
// negative values to zero and saturating at the largest representable
// value. Anything else is malformed and the whole payload is rejected.

/// One entry of a playback request: which stored clip to include, and the
/// client-reported clip duration in milliseconds.
#[derive(Debug, Clone)]
pub struct ClipDetailRequest {
    pub id: String,
    pub duration_ms: u64,
}

impl View for ClipDetailRequest {
    type V = (Seq<char>, u64);

    open spec fn view(&self) -> (Seq<char>, u64) {
        (self.id@, self.duration_ms)
    }
}

pub open spec fn spec_clips_view(v: Seq<ClipDetailRequest>) -> Seq<(Seq<char>, u64)> {
    v.map_values(|c: ClipDetailRequest| c@)
}

pub open spec fn is_json_ws(c: char) -> bool {
    c == ' ' || c == '\t' || c == '\n' || c == '\r'
}

pub open spec fn is_digit(c: char) -> bool {
    48 <= c as u32 && c as u32 <= 57
}

pub open spec fn digit_val(c: char) -> nat {
    (c as u32 - 48) as nat
}

/// The value of a digit run, most significant digit first.
pub open spec fn digits_val(ds: Seq<char>) -> nat
    decreases ds.len(),
{
    if ds.len() == 0 {
        0
    } else {
        digits_val(ds.drop_last()) * 10 + digit_val(ds.last())
    }
}

pub open spec fn sat_u64(n: nat) -> u64 {
    if n > u64::MAX {
        u64::MAX
    } else {
        n as u64
    }
}

// --- the grammar, as total functions from a position to a parse ---

pub open spec fn sp_skip_ws(s: Seq<char>, i: int) -> int
    decreases s.len() - i,
{
    if 0 <= i < s.len() && is_json_ws(s[i]) {
        sp_skip_ws(s, i + 1)
    } else {
        i
    }
}

pub open spec fn sp_string_body(s: Seq<char>, i: int) -> Option<(Seq<char>, int)>
    decreases s.len() - i,
{
    if !(0 <= i < s.len()) {
        None
    } else if s[i] == '"' {
        Some((Seq::empty(), i + 1))
    } else if s[i] == '\\' {
        None
    } else {
        match sp_string_body(s, i + 1) {
            Some((t, j)) => Some((seq![s[i]] + t, j)),
            None => None,
        }
    }
}

pub open spec fn sp_string(s: Seq<char>, i: int) -> Option<(Seq<char>, int)> {
    if 0 <= i < s.len() && s[i] == '"' {
        sp_string_body(s, i + 1)
    } else {
        None
    }
}

/// The end of the digit run that starts at `i`.
pub open spec fn sp_digits_end(s: Seq<char>, i: int) -> int
    decreases s.len() - i,
{
    if 0 <= i < s.len() && is_digit(s[i]) {
        sp_digits_end(s, i + 1)
    } else {
        i
    }
}

/// Milliseconds contributed by the fraction digits of a duration: the
/// first three fraction digits, scaled; further digits are truncated.
pub open spec fn spec_frac_ms(ds: Seq<char>) -> nat {
    if ds.len() == 0 {
        0
    } else if ds.len() == 1 {
        digits_val(ds) * 100
    } else if ds.len() == 2 {
        digits_val(ds) * 10
    } else {
        digits_val(ds.subrange(0, 3))
    }
}

/// A duration in milliseconds: negative durations clamp to zero, values
/// beyond the representable range saturate.
pub open spec fn spec_duration_ms(neg: bool, int_ds: Seq<char>, frac_ds: Seq<char>) -> u64 {
    if neg {
        0
    } else {
        sat_u64(digits_val(int_ds) * 1000 + spec_frac_ms(frac_ds))
    }
}

pub open spec fn sp_number(s: Seq<char>, i: int) -> Option<(u64, int)> {
    let (neg, i1): (bool, int) = if 0 <= i < s.len() && s[i] == '-' {
        (true, i + 1)
    } else {
        (false, i)
    };
    let i2 = sp_digits_end(s, i1);
    if i2 == i1 {
        None
    } else if 0 <= i2 < s.len() && s[i2] == '.' {
        let i3 = sp_digits_end(s, i2 + 1);
        if i3 == i2 + 1 {
            None
        } else {
            Some((spec_duration_ms(neg, s.subrange(i1, i2), s.subrange(i2 + 1, i3)), i3))
        }
    } else {
        Some((spec_duration_ms(neg, s.subrange(i1, i2), Seq::empty()), i2))
    }
}

proof fn lemma_digits_end_bounds(s: Seq<char>, i: int)
    requires
        0 <= i <= s.len(),
    ensures
        i <= sp_digits_end(s, i) <= s.len(),
        forall|k: int| i <= k < sp_digits_end(s, i) ==> is_digit(s[k]),
    decreases s.len() - i,
{
    if 0 <= i < s.len() && is_digit(s[i]) {
        lemma_digits_end_bounds(s, i + 1);
    }
}

// --- the scanners, executed ---

fn is_ws_char(c: char) -> (r: bool)
    ensures
        r == is_json_ws(c),
{
    c == ' ' || c == '\t' || c == '\n' || c == '\r'
}

fn is_digit_char(c: char) -> (r: bool)
    ensures
        r == is_digit(c),
{
    let u = c as u32;
    48 <= u && u <= 57
}

fn ex_skip_ws(s: &Vec<char>, i: usize) -> (r: usize)
    requires
        i <= s@.len(),
    ensures
        r as int == sp_skip_ws(s@, i as int),
        i <= r <= s@.len(),
    decreases s@.len() - i,
{
    if i < s.len() && is_ws_char(s[i]) {
        ex_skip_ws(s, i + 1)
    } else {
        i
    }
}

fn ex_string_body(s: &Vec<char>, i: usize) -> (r: Option<(String, usize)>)
    requires
        i <= s@.len(),
    ensures
        match sp_string_body(s@, i as int) {
            Some(p) => r matches Some(q) && q.0@ == p.0 && q.1 as int == p.1 && i < q.1 <= s@.len(),
            None => r is None,
        },
    decreases s@.len() - i,
{
    if i >= s.len() {
        None
    } else {
        let c = s[i];
        if c == '"' {
            Some((String::new(), i + 1))
        } else if c == '\\' {
            None
        } else {
            match ex_string_body(s, i + 1) {
                Some((t, j)) => {
                    let mut out = String::new();
                    string_push(&mut out, c);
                    out.append(t.as_str());
                    proof {
                        assert(out@ =~= seq![s@[i as int]] + t@);
                    }
                    Some((out, j))
                },
                None => None,
            }
        }
    }
}

fn ex_string(s: &Vec<char>, i: usize) -> (r: Option<(String, usize)>)
    requires
        i <= s@.len(),
    ensures
        match sp_string(s@, i as int) {
            Some(p) => r matches Some(q) && q.0@ == p.0 && q.1 as int == p.1 && i < q.1 <= s@.len(),
            None => r is None,
        },
{
    if i < s.len() && s[i] == '"' {
        ex_string_body(s, i + 1)
    } else {
        None
    }
}

fn ex_digits_end(s: &Vec<char>, i: usize) -> (r: usize)
    requires
        i <= s@.len(),
    ensures
        r as int == sp_digits_end(s@, i as int),
        i <= r <= s@.len(),
    decreases s@.len() - i,
{
    if i < s.len() && is_digit_char(s[i]) {
        ex_digits_end(s, i + 1)
    } else {
        i
    }
}

/// The value of the digit run `s[from..to]`, saturating at `u64::MAX`.
fn ex_digits_val(s: &Vec<char>, from: usize, to: usize) -> (r: u64)
    requires
        from <= to <= s@.len(),
        forall|k: int| from <= k < to ==> is_digit(s@[k]),
    ensures
        r == sat_u64(digits_val(s@.subrange(from as int, to as int))),
{
    let mut acc: u64 = 0;
    let mut i: usize = from;
    proof {
        assert(s@.subrange(from as int, from as int) =~= Seq::<char>::empty());
    }
    while i < to
        invariant
            from <= i <= to <= s@.len(),
            forall|k: int| from <= k < to ==> is_digit(s@[k]),
            acc == sat_u64(digits_val(s@.subrange(from as int, i as int))),
        decreases to - i,
    {
        let ghost pre = s@.subrange(from as int, i as int);
        let ghost v: nat = digits_val(pre);
        let u = s[i] as u32;
        let d: u64 = (u - 48) as u64;
        proof {
            assert(is_digit(s@[i as int]));
            assert(d == digit_val(s@[i as int]));
            assert(s@.subrange(from as int, i + 1 as int).drop_last() =~= pre);
            assert(s@.subrange(from as int, i + 1 as int).last() == s@[i as int]);
        }
        if acc > (u64::MAX - d) / 10 {
            proof {
                if v <= u64::MAX {
                    assert(v * 10 + d > u64::MAX) by (nonlinear_arith)
                        requires
                            v == acc,
                            d < 10,
                            acc > (u64::MAX - d) / 10,
                    ;
                } else {
                    assert(v * 10 + d > u64::MAX) by (nonlinear_arith)
                        requires
                            v > u64::MAX,
                            d < 10,
                    ;
                }
            }
            acc = u64::MAX;
        } else {
            proof {
                assert(acc <= (u64::MAX - d) / 10);
                assert((u64::MAX - d) / 10 < u64::MAX);
                assert(v == acc);
                assert(acc * 10 + d <= u64::MAX) by (nonlinear_arith)
                    requires
                        d < 10,
                        acc <= (u64::MAX - d) / 10,
                ;
            }
            acc = acc * 10 + d;
        }
        i = i + 1;
    }
    acc
}

/// Combines the integer and fraction parts of a duration, saturating.
fn ex_duration_combine(int_sat: u64, frac: u64, int_exact: Ghost<nat>) -> (r: u64)
    requires
        int_sat == sat_u64(int_exact@),
        frac <= 999,
    ensures
        r == sat_u64((int_exact@ * 1000 + frac) as nat),
{
    if int_sat > (u64::MAX - frac) / 1000 {
        proof {
            if int_exact@ <= u64::MAX {
                assert(int_exact@ * 1000 + frac > u64::MAX) by (nonlinear_arith)
                    requires
                        int_exact@ == int_sat,
                        frac < 1000,
                        int_sat > (u64::MAX - frac) / 1000,
                ;
            } else {
                assert(int_exact@ * 1000 + frac > u64::MAX) by (nonlinear_arith)
                    requires
                        int_exact@ > u64::MAX,
                ;
            }
        }
        u64::MAX
    } else {
        proof {
            assert((u64::MAX - frac) / 1000 < u64::MAX);
            assert(int_exact@ == int_sat);
            assert(int_sat * 1000 + frac <= u64::MAX) by (nonlinear_arith)
                requires
                    frac < 1000,
                    int_sat <= (u64::MAX - frac) / 1000,
            ;
        }
        int_sat * 1000 + frac
    }
}

proof fn lemma_digits_val_small(ds: Seq<char>)
    requires
        forall|k: int| 0 <= k < ds.len() ==> is_digit(ds[k]),
        ds.len() <= 3,
    ensures
        digits_val(ds) <= 999,
        ds.len() <= 2 ==> digits_val(ds) <= 99,
        ds.len() <= 1 ==> digits_val(ds) <= 9,
    decreases ds.len(),
{
    if ds.len() > 0 {
        assert(forall|k: int| 0 <= k < ds.drop_last().len() ==> is_digit(#[trigger] ds.drop_last()[k]));
        lemma_digits_val_small(ds.drop_last());
        assert(digit_val(ds.last()) <= 9);
    }
}

fn ex_number(s: &Vec<char>, i: usize) -> (r: Option<(u64, usize)>)
    requires
        i <= s@.len(),
    ensures
        match sp_number(s@, i as int) {
            Some(p) => r matches Some(q) && q.0 == p.0 && q.1 as int == p.1 && i < q.1 <= s@.len(),
            None => r is None,
        },
{
    let (neg, i1): (bool, usize) = if i < s.len() && s[i] == '-' {
        (true, i + 1)
    } else {
        (false, i)
    };
    let i2 = ex_digits_end(s, i1);
    proof {
        lemma_digits_end_bounds(s@, i1 as int);
    }
    if i2 == i1 {
        return None;
    }
    let int_val = ex_digits_val(s, i1, i2);
    let ghost int_exact = digits_val(s@.subrange(i1 as int, i2 as int));
    if i2 < s.len() && s[i2] == '.' {
        let i3 = ex_digits_end(s, i2 + 1);
        proof {
            lemma_digits_end_bounds(s@, i2 + 1 as int);
        }
        if i3 == i2 + 1 {
            return None;
        }
        let ghost fds = s@.subrange(i2 + 1 as int, i3 as int);
        let flen = i3 - (i2 + 1);
        let frac: u64 = if flen == 1 {
            let f = ex_digits_val(s, i2 + 1, i3);
            proof {
                lemma_digits_val_small(fds);
            }
            f * 100
        } else if flen == 2 {
            let f = ex_digits_val(s, i2 + 1, i3);
            proof {
                lemma_digits_val_small(fds);
            }
            f * 10
        } else {
            let f = ex_digits_val(s, i2 + 1, i2 + 1 + 3);
            proof {
                assert(fds.subrange(0, 3) =~= s@.subrange(i2 + 1 as int, i2 + 4 as int));
                lemma_digits_val_small(s@.subrange(i2 + 1 as int, i2 + 4 as int));
            }
            f
        };
        proof {
            assert(frac == spec_frac_ms(fds));
        }
        if neg {
            Some((0, i3))
        } else {
            let v = ex_duration_combine(int_val, frac, Ghost(int_exact));
            Some((v, i3))
        }
    } else {
        if neg {
            Some((0, i2))
        } else {
            let v = ex_duration_combine(int_val, 0, Ghost(int_exact));
            Some((v, i2))
        }
    }
}

// --- the composite grammar: members, objects, the clip list ---

pub open spec fn id_key() -> Seq<char> {
    seq!['"', 'i', 'd', '"']
}

pub open spec fn duration_key() -> Seq<char> {
    seq!['"', 'd', 'u', 'r', 'a', 't', 'i', 'o', 'n', '"']
}

pub open spec fn sp_match(s: Seq<char>, i: int, tok: Seq<char>) -> bool {
    0 <= i && i + tok.len() <= s.len() && s.subrange(i, i + tok.len()) == tok
}

pub open spec fn sp_after_colon(s: Seq<char>, i: int) -> Option<int> {
    let j = sp_skip_ws(s, i);
    if 0 <= j < s.len() && s[j] == ':' {
        Some(sp_skip_ws(s, j + 1))
    } else {
        None
    }
}

pub open spec fn sp_comma(s: Seq<char>, i: int) -> Option<int> {
    let j = sp_skip_ws(s, i);
    if 0 <= j < s.len() && s[j] == ',' {
        Some(sp_skip_ws(s, j + 1))
    } else {
        None
    }
}

pub open spec fn sp_id_member(s: Seq<char>, i: int) -> Option<(Seq<char>, int)> {
    if sp_match(s, i, id_key()) {
        match sp_after_colon(s, i + 4) {
            Some(j) => sp_string(s, j),
            None => None,
        }
    } else {
        None
    }
}

pub open spec fn sp_duration_member(s: Seq<char>, i: int) -> Option<(u64, int)> {
    if sp_match(s, i, duration_key()) {
        match sp_after_colon(s, i + 10) {
            Some(j) => sp_number(s, j),
            None => None,
        }
    } else {
        None
    }
}

pub open spec fn sp_object_close(s: Seq<char>, i: int) -> Option<int> {
    let j = sp_skip_ws(s, i);
    if 0 <= j < s.len() && s[j] == '}' {
        Some(j + 1)
    } else {
        None
    }
}

/// One clip entry: an object with an `id` and a `duration` member, in
/// either order.
pub open spec fn sp_object(s: Seq<char>, i: int) -> Option<((Seq<char>, u64), int)> {
    if !(0 <= i < s.len() && s[i] == '{') {
        None
    } else {
        let i1 = sp_skip_ws(s, i + 1);
        if sp_match(s, i1, id_key()) {
            match sp_id_member(s, i1) {
                Some((id, i2)) => match sp_comma(s, i2) {
                    Some(i3) => match sp_duration_member(s, i3) {
                        Some((d, i4)) => match sp_object_close(s, i4) {
                            Some(i5) => Some(((id, d), i5)),
                            None => None,
                        },
                        None => None,
                    },
                    None => None,
                },
                None => None,
            }
        } else {
            match sp_duration_member(s, i1) {
                Some((d, i2)) => match sp_comma(s, i2) {
                    Some(i3) => match sp_id_member(s, i3) {
                        Some((id, i4)) => match sp_object_close(s, i4) {
                            Some(i5) => Some(((id, d), i5)),
                            None => None,
                        },
                        None => None,
                    },
                    None => None,
                },
                None => None,
            }
        }
    }
}

/// The clip entries after the first: a comma-separated tail.
pub open spec fn sp_clip_list_rest(s: Seq<char>, i: int) -> Option<(Seq<(Seq<char>, u64)>, int)>
    decreases s.len() - i,
{
    match sp_comma(s, i) {
        Some(j) => match sp_object(s, j) {
            Some((v, k)) => if i < k && k <= s.len() {
                match sp_clip_list_rest(s, k) {
                    Some((rest, m)) => Some((seq![v] + rest, m)),
                    None => None,
                }
            } else {
                None
            },
            None => None,
        },
        None => Some((Seq::empty(), i)),
    }
}

/// The whole playback payload: a bracketed, possibly empty clip list with
/// nothing but whitespace around it. `None` means the payload is malformed.
pub open spec fn spec_parse_clips(s: Seq<char>) -> Option<Seq<(Seq<char>, u64)>> {
    let i = sp_skip_ws(s, 0);
    if !(0 <= i < s.len() && s[i] == '[') {
        None
    } else {
        let j = sp_skip_ws(s, i + 1);
        if 0 <= j < s.len() && s[j] == ']' {
            if sp_skip_ws(s, j + 1) == s.len() {
                Some(Seq::empty())
            } else {
                None
            }
        } else {
            match sp_object(s, j) {
                Some((v, k)) => match sp_clip_list_rest(s, k) {
                    Some((rest, m)) => {
                        let e = sp_skip_ws(s, m);
                        if 0 <= e < s.len() && s[e] == ']' && sp_skip_ws(s, e + 1) == s.len() {
                            Some(seq![v] + rest)
                        } else {
                            None
                        }
                    },
                    None => None,
                },
                None => None,
            }
        }
    }
}

// --- the composite grammar, executed ---

fn ex_match_id(s: &Vec<char>, i: usize) -> (r: bool)
    requires
        i <= s@.len(),
    ensures
        r == sp_match(s@, i as int, id_key()),
{
    if s.len() >= 4 && i <= s.len() - 4 {
        let ok = s[i] == '"' && s[i + 1] == 'i' && s[i + 2] == 'd' && s[i + 3] == '"';
        proof {
            if ok {
                assert(s@.subrange(i as int, i + 4 as int) =~= id_key());
            }
            if sp_match(s@, i as int, id_key()) {
                assert(forall|k: int| 0 <= k < 4
                    ==> s@.subrange(i as int, i + 4 as int)[k] == #[trigger] id_key()[k]);
                assert(s@[i as int] == '"');
                assert(s@[i + 1 as int] == 'i');
                assert(s@[i + 2 as int] == 'd');
                assert(s@[i + 3 as int] == '"');
            }
        }
        ok
    } else {
        false
    }
}

fn ex_match_duration(s: &Vec<char>, i: usize) -> (r: bool)
    requires
        i <= s@.len(),
    ensures
        r == sp_match(s@, i as int, duration_key()),
{
    if s.len() >= 10 && i <= s.len() - 10 {
        let ok = s[i] == '"' && s[i + 1] == 'd' && s[i + 2] == 'u' && s[i + 3] == 'r'
            && s[i + 4] == 'a' && s[i + 5] == 't' && s[i + 6] == 'i' && s[i + 7] == 'o'
            && s[i + 8] == 'n' && s[i + 9] == '"';
        proof {
            if ok {
                assert(s@.subrange(i as int, i + 10 as int) =~= duration_key());
            }
            if sp_match(s@, i as int, duration_key()) {
                assert(forall|k: int| 0 <= k < 10
                    ==> s@.subrange(i as int, i + 10 as int)[k] == #[trigger] duration_key()[k]);
                assert(s@[i as int] == '"');
                assert(s@[i + 1 as int] == 'd');
                assert(s@[i + 2 as int] == 'u');
                assert(s@[i + 3 as int] == 'r');
                assert(s@[i + 4 as int] == 'a');
                assert(s@[i + 5 as int] == 't');
                assert(s@[i + 6 as int] == 'i');
                assert(s@[i + 7 as int] == 'o');
                assert(s@[i + 8 as int] == 'n');
                assert(s@[i + 9 as int] == '"');
            }
        }
        ok
    } else {
        false
    }
}

fn ex_after_colon(s: &Vec<char>, i: usize) -> (r: Option<usize>)
    requires
        i <= s@.len(),
    ensures
        match sp_after_colon(s@, i as int) {
            Some(j) => r matches Some(q) && q as int == j && i <= q <= s@.len(),
            None => r is None,
        },
{
    let j = ex_skip_ws(s, i);
    if j < s.len() && s[j] == ':' {
        Some(ex_skip_ws(s, j + 1))
    } else {
        None
    }
}

fn ex_comma(s: &Vec<char>, i: usize) -> (r: Option<usize>)
    requires
        i <= s@.len(),
    ensures
        match sp_comma(s@, i as int) {
            Some(j) => r matches Some(q) && q as int == j && i < q <= s@.len(),
            None => r is None,
        },
{
    let j = ex_skip_ws(s, i);
    if j < s.len() && s[j] == ',' {
        Some(ex_skip_ws(s, j + 1))
    } else {
        None
    }
}

fn ex_object_close(s: &Vec<char>, i: usize) -> (r: Option<usize>)
    requires
        i <= s@.len(),
    ensures
        match sp_object_close(s@, i as int) {
            Some(j) => r matches Some(q) && q as int == j && i < q <= s@.len(),
            None => r is None,
        },
{
    let j = ex_skip_ws(s, i);
    if j < s.len() && s[j] == '}' {
        Some(j + 1)
    } else {
        None
    }
}

fn ex_id_member(s: &Vec<char>, i: usize) -> (r: Option<(String, usize)>)
    requires
        i <= s@.len(),
    ensures
        match sp_id_member(s@, i as int) {
            Some(p) => r matches Some(q) && q.0@ == p.0 && q.1 as int == p.1 && i < q.1 <= s@.len(),
            None => r is None,
        },
{
    if ex_match_id(s, i) {
        let n = s.len();
        proof {
            assert(i + 4 <= n);
        }
        match ex_after_colon(s, i + 4) {
            Some(j) => ex_string(s, j),
            None => None,
        }
    } else {
        None
    }
}

fn ex_duration_member(s: &Vec<char>, i: usize) -> (r: Option<(u64, usize)>)
    requires
        i <= s@.len(),
    ensures
        match sp_duration_member(s@, i as int) {
            Some(p) => r matches Some(q) && q.0 == p.0 && q.1 as int == p.1 && i < q.1 <= s@.len(),
            None => r is None,
        },
{
    if ex_match_duration(s, i) {
        let n = s.len();
        proof {
            assert(i + 10 <= n);
        }
        match ex_after_colon(s, i + 10) {
            Some(j) => ex_number(s, j),
            None => None,
        }
    } else {
        None
    }
}

fn ex_object(s: &Vec<char>, i: usize) -> (r: Option<(ClipDetailRequest, usize)>)
    requires
        i <= s@.len(),
    ensures
        match sp_object(s@, i as int) {
            Some(p) => r matches Some(q) && q.0.id@ == p.0.0 && q.0.duration_ms == p.0.1
                && q.1 as int == p.1 && i < q.1 <= s@.len(),
            None => r is None,
        },
{
    if !(i < s.len() && s[i] == '{') {
        return None;
    }
    let i1 = ex_skip_ws(s, i + 1);
    if ex_match_id(s, i1) {
        match ex_id_member(s, i1) {
            Some((id, i2)) => match ex_comma(s, i2) {
                Some(i3) => match ex_duration_member(s, i3) {
                    Some((d, i4)) => match ex_object_close(s, i4) {
                        Some(i5) => Some((ClipDetailRequest { id, duration_ms: d }, i5)),
                        None => None,
                    },
                    None => None,
                },
                None => None,
            },
            None => None,
        }
    } else {
        match ex_duration_member(s, i1) {
            Some((d, i2)) => match ex_comma(s, i2) {
                Some(i3) => match ex_id_member(s, i3) {
                    Some((id, i4)) => match ex_object_close(s, i4) {
                        Some(i5) => Some((ClipDetailRequest { id, duration_ms: d }, i5)),
                        None => None,
                    },
                    None => None,
                },
                None => None,
            },
            None => None,
        }
    }
}

fn ex_clip_list_rest(s: &Vec<char>, i: usize) -> (r: Option<(Vec<ClipDetailRequest>, usize)>)
    requires
        i <= s@.len(),
    ensures
        match sp_clip_list_rest(s@, i as int) {
            Some(p) => r matches Some(q) && spec_clips_view(q.0@) == p.0 && q.1 as int == p.1
                && i <= q.1 <= s@.len(),
            None => r is None,
        },
    decreases s@.len() - i,
{
    match ex_comma(s, i) {
        Some(j) => match ex_object(s, j) {
            Some((c, k)) => match ex_clip_list_rest(s, k) {
                Some((rest, m)) => {
                    let mut out = rest;
                    let ghost rest_view = out@;
                    out.insert(0, c);
                    proof {
                        assert(out@ =~= seq![c] + rest_view);
                        assert(spec_clips_view(out@) =~= seq![c@] + spec_clips_view(rest_view));
                    }
                    Some((out, m))
                },
                None => None,
            },
            None => None,
        },
        None => {
            proof {
                assert(spec_clips_view(Seq::<ClipDetailRequest>::empty())
                    =~= Seq::<(Seq<char>, u64)>::empty());
            }
            Some((Vec::new(), i))
        },
    }
}

/// Parses a playback payload. Exactly the payloads of the request grammar
/// are accepted, and yield the requested clips in the order sent; any other
/// payload is rejected as malformed.
pub fn parse_clip_request(payload: &str) -> (r: Result<Vec<ClipDetailRequest>, MergeError>)
    ensures
        match spec_parse_clips(payload@) {
            Some(l) => r matches Ok(v) && spec_clips_view(v@) == l,
            None => r matches Err(e) && e == MergeError::MalformedRequest,
        },
{
    let cs = str_to_chars(payload);
    let n = cs.len();
    let i = ex_skip_ws(&cs, 0);
    if !(i < n && cs[i] == '[') {
        return Err(MergeError::MalformedRequest);
    }
    let j = ex_skip_ws(&cs, i + 1);
    if j < n && cs[j] == ']' {
        if ex_skip_ws(&cs, j + 1) == n {
            let out: Vec<ClipDetailRequest> = Vec::new();
            proof {
                assert(spec_clips_view(out@) =~= Seq::<(Seq<char>, u64)>::empty());
            }
            Ok(out)
        } else {
            Err(MergeError::MalformedRequest)
        }
    } else {
        match ex_object(&cs, j) {
            Some((c, k)) => match ex_clip_list_rest(&cs, k) {
                Some((rest, m)) => {
                    let e = ex_skip_ws(&cs, m);
                    if e < n && cs[e] == ']' {
                        if ex_skip_ws(&cs, e + 1) == n {
                            let mut out = rest;
                            let ghost rest_view = out@;
                            out.insert(0, c);
                            proof {
                                assert(out@ =~= seq![c] + rest_view);
                                assert(spec_clips_view(out@)
                                    =~= seq![c@] + spec_clips_view(rest_view));
                            }
                            Ok(out)
                        } else {
                            Err(MergeError::MalformedRequest)
                        }
                    } else {
                        Err(MergeError::MalformedRequest)
                    }
                },
                None => Err(MergeError::MalformedRequest),
            },
            None => Err(MergeError::MalformedRequest),
        }
    }
}

} // verus!
