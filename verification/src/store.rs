use vstd::prelude::*;
use vstd::string::*;
use crate::text::str_eq;

verus! {

// Path resolution for the session directory store. A session owns the
// directory `{root}{session_id}`; each clip is the file `{clip_id}.webm`
// inside it, and the merged result is `output-{session_id}.webm`. The
// configured root is expected to end with a path separator.

pub open spec fn spec_session_dir(root: Seq<char>, session_id: Seq<char>) -> Seq<char> {
    root + session_id
}

pub open spec fn spec_clip_file_name(clip_id: Seq<char>) -> Seq<char> {
    clip_id + ".webm"@
}

pub open spec fn spec_output_file_name(session_id: Seq<char>) -> Seq<char> {
    "output-"@ + session_id + ".webm"@
}

pub open spec fn spec_clip_path(root: Seq<char>, session_id: Seq<char>, clip_id: Seq<char>) -> Seq<char> {
    spec_session_dir(root, session_id) + "/"@ + spec_clip_file_name(clip_id)
}

pub open spec fn spec_output_path(root: Seq<char>, session_id: Seq<char>) -> Seq<char> {
    spec_session_dir(root, session_id) + "/"@ + spec_output_file_name(session_id)
}

/// The directory that holds one session's files.
pub fn session_dir(root: &str, session_id: &str) -> (r: String)
    ensures
        r@ == spec_session_dir(root@, session_id@),
{
    let mut s = root.to_owned();
    s.append(session_id);
    s
}

/// The file name under which a clip is stored.
pub fn clip_file_name(clip_id: &str) -> (r: String)
    ensures
        r@ == spec_clip_file_name(clip_id@),
{
    let mut s = clip_id.to_owned();
    s.append(".webm");
    s
}

/// The file name of the session's merged output.
pub fn output_file_name(session_id: &str) -> (r: String)
    ensures
        r@ == spec_output_file_name(session_id@),
{
    let mut s = "output-".to_owned();
    s.append(session_id);
    s.append(".webm");
    proof {
        assert(s@ =~= spec_output_file_name(session_id@));
    }
    s
}

/// The full path of one clip inside its session's directory.
pub fn clip_path(root: &str, session_id: &str, clip_id: &str) -> (r: String)
    ensures
        r@ == spec_clip_path(root@, session_id@, clip_id@),
{
    let mut s = session_dir(root, session_id);
    s.append("/");
    let name = clip_file_name(clip_id);
    s.append(name.as_str());
    proof {
        assert(s@ =~= spec_clip_path(root@, session_id@, clip_id@));
    }
    s
}

/// The full path of the session's merged output file.
pub fn output_path(root: &str, session_id: &str) -> (r: String)
    ensures
        r@ == spec_output_path(root@, session_id@),
{
    let mut s = session_dir(root, session_id);
    s.append("/");
    let name = output_file_name(session_id);
    s.append(name.as_str());
    proof {
        assert(s@ =~= spec_output_path(root@, session_id@));
    }
    s
}

proof fn lemma_distinct_session_prefix(root: Seq<char>, a: Seq<char>, b: Seq<char>, rest: Seq<char>)
    requires
        a != b,
        !a.contains('/'),
        !b.contains('/'),
    ensures
        !(spec_session_dir(root, b) + "/"@).is_prefix_of(spec_session_dir(root, a) + "/"@ + rest),
{
    reveal_strlit("/");
    let p = spec_session_dir(root, b) + "/"@;
    let s = spec_session_dir(root, a) + "/"@ + rest;
    if p.is_prefix_of(s) {
        assert(forall|j: int| 0 <= j < p.len() ==> p[j] == #[trigger] s[j]) by {
            assert(forall|j: int|
                0 <= j < p.len() ==> p[j] == #[trigger] s.subrange(0, p.len() as int)[j]);
        }
        if b.len() < a.len() {
            let idx = root.len() + b.len();
            assert(p[idx as int] == '/');
            assert(s[idx as int] == a[b.len() as int]);
            assert(a[b.len() as int] == '/');
            assert(a.contains('/'));
        } else if b.len() == a.len() {
            assert(forall|i: int| 0 <= i < a.len() ==> a[i] == #[trigger] b[i]) by {
                assert(forall|i: int| 0 <= i < a.len() ==> {
                    &&& s[root.len() + i] == #[trigger] a[i]
                    &&& p[root.len() + i] == b[i]
                });
            }
            assert(a =~= b);
        } else {
            let idx = root.len() + a.len();
            assert(s[idx as int] == '/');
            assert(p[idx as int] == b[a.len() as int]);
            assert(b[a.len() as int] == '/');
            assert(b.contains('/'));
        }
        assert(false);
    }
}

/// Session isolation: as long as two session ids differ and neither holds a
/// path separator, every path resolved for one session lies outside the
/// other session's directory.
pub proof fn lemma_session_isolation(root: Seq<char>, a: Seq<char>, b: Seq<char>, clip_id: Seq<char>)
    requires
        a != b,
        !a.contains('/'),
        !b.contains('/'),
    ensures
        !(spec_session_dir(root, b) + "/"@).is_prefix_of(spec_clip_path(root, a, clip_id)),
        !(spec_session_dir(root, b) + "/"@).is_prefix_of(spec_output_path(root, a)),
{
    lemma_distinct_session_prefix(root, a, b, spec_clip_file_name(clip_id));
    lemma_distinct_session_prefix(root, a, b, spec_output_file_name(a));
}

// An in-memory model of one session's directory: a set of named files. The
// unverified boundary mirrors these operations onto the real filesystem;
// everything the core decides about stored files is decided against this
// model.

pub open spec fn entries_map(s: Seq<(String, Vec<u8>)>) -> Map<Seq<char>, Seq<u8>>
    decreases s.len(),
{
    if s.len() == 0 {
        Map::empty()
    } else {
        entries_map(s.drop_last()).insert(s.last().0@, s.last().1@)
    }
}

pub open spec fn unique_names(s: Seq<(String, Vec<u8>)>) -> bool {
    forall|i: int, j: int| 0 <= i < j < s.len() ==> #[trigger] s[i].0@ != #[trigger] s[j].0@
}

proof fn lemma_entries_map_key(s: Seq<(String, Vec<u8>)>, k: Seq<char>)
    ensures
        entries_map(s).contains_key(k) <==> exists|i: int| 0 <= i < s.len() && #[trigger] s[i].0@ == k,
    decreases s.len(),
{
    if s.len() > 0 {
        lemma_entries_map_key(s.drop_last(), k);
        if s.last().0@ == k {
            assert(s[s.len() - 1].0@ == k);
        } else if entries_map(s).contains_key(k) {
            let i = choose|i: int| 0 <= i < s.drop_last().len() && #[trigger] s.drop_last()[i].0@ == k;
            assert(s[i].0@ == k);
        } else {
            if exists|i: int| 0 <= i < s.len() && #[trigger] s[i].0@ == k {
                let i = choose|i: int| 0 <= i < s.len() && #[trigger] s[i].0@ == k;
                assert(s.drop_last()[i].0@ == k);
                assert(false);
            }
        }
    }
}

proof fn lemma_entries_map_value(s: Seq<(String, Vec<u8>)>, i: int)
    requires
        unique_names(s),
        0 <= i < s.len(),
    ensures
        entries_map(s).contains_key(s[i].0@),
        entries_map(s)[s[i].0@] == s[i].1@,
    decreases s.len(),
{
    if i == s.len() - 1 {
    } else {
        lemma_entries_map_value(s.drop_last(), i);
        assert(s.drop_last()[i] == s[i]);
        assert(s[i].0@ != s.last().0@);
    }
}

proof fn lemma_entries_map_remove(s: Seq<(String, Vec<u8>)>, i: int)
    requires
        unique_names(s),
        0 <= i < s.len(),
    ensures
        entries_map(s.remove(i)) == entries_map(s).remove(s[i].0@),
    decreases s.len(),
{
    let k = s[i].0@;
    if i == s.len() - 1 {
        assert(s.remove(i) =~= s.drop_last());
        lemma_entries_map_key(s.drop_last(), k);
        if entries_map(s.drop_last()).contains_key(k) {
            let j = choose|j: int| 0 <= j < s.drop_last().len() && #[trigger] s.drop_last()[j].0@ == k;
            assert(s[j].0@ == k);
            assert(false);
        }
        assert(entries_map(s.drop_last()) =~= entries_map(s.drop_last()).insert(k, s.last().1@).remove(k));
    } else {
        lemma_entries_map_remove(s.drop_last(), i);
        assert(s.remove(i).drop_last() =~= s.drop_last().remove(i));
        assert(s.remove(i).last() == s.last());
        assert(s.drop_last()[i] == s[i]);
        assert(s.last().0@ != k);
        assert(entries_map(s.drop_last()).remove(k).insert(s.last().0@, s.last().1@)
            =~= entries_map(s.drop_last()).insert(s.last().0@, s.last().1@).remove(k));
    }
}

/// One session's stored files, by name. Mirrors the session's directory on
/// disk: clip files and at most one merged output.
pub struct SessionStore {
    files: Vec<(String, Vec<u8>)>,
}

impl SessionStore {
    /// The files this store holds: contents keyed by file name.
    pub closed spec fn contents(&self) -> Map<Seq<char>, Seq<u8>> {
        entries_map(self.files@)
    }

    /// Internal consistency: no file name occurs twice.
    pub closed spec fn wf(&self) -> bool {
        unique_names(self.files@)
    }

    /// An empty session directory.
    pub fn new() -> (r: SessionStore)
        ensures
            r.wf(),
            r.contents() == Map::<Seq<char>, Seq<u8>>::empty(),
    {
        SessionStore { files: Vec::new() }
    }

    fn find(&self, name: &str) -> (r: Option<usize>)
        ensures
            match r {
                Some(i) => i < self.files@.len() && self.files@[i as int].0@ == name@,
                None => forall|i: int| 0 <= i < self.files@.len() ==> #[trigger] self.files@[i].0@ != name@,
            },
    {
        let mut i: usize = 0;
        let n = self.files.len();
        while i < n
            invariant
                n == self.files@.len(),
                i <= n,
                forall|j: int| 0 <= j < i ==> #[trigger] self.files@[j].0@ != name@,
            decreases n - i,
        {
            if str_eq(self.files[i].0.as_str(), name) {
                return Some(i);
            }
            i = i + 1;
        }
        None
    }

    /// Whether a file of this name is stored.
    pub fn exists_file(&self, name: &str) -> (r: bool)
        ensures
            r == self.contents().contains_key(name@),
    {
        let found = self.find(name);
        proof {
            lemma_entries_map_key(self.files@, name@);
        }
        match found {
            Some(_) => true,
            None => false,
        }
    }

    /// The stored contents of a file, if present.
    pub fn read(&self, name: &str) -> (r: Option<&Vec<u8>>)
        requires
            self.wf(),
        ensures
            match r {
                Some(bytes) => self.contents().contains_key(name@)
                    && bytes@ == self.contents()[name@],
                None => !self.contents().contains_key(name@),
            },
    {
        let found = self.find(name);
        proof {
            lemma_entries_map_key(self.files@, name@);
        }
        match found {
            Some(i) => {
                proof {
                    lemma_entries_map_value(self.files@, i as int);
                }
                Some(&self.files[i].1)
            },
            None => None,
        }
    }

    /// How many files are stored.
    pub fn file_count(&self) -> (r: usize)
        requires
            self.wf(),
        ensures
            r == self.contents().dom().len(),
    {
        proof {
            lemma_entries_map_count(self.files@);
        }
        self.files.len()
    }

    /// Stores a file under this name, replacing any previous file of the
    /// same name.
    pub fn write(&mut self, name: &str, bytes: Vec<u8>)
        requires
            old(self).wf(),
        ensures
            final(self).wf(),
            final(self).contents() == old(self).contents().insert(name@, bytes@),
    {
        let found = self.find(name);
        let ghost s0 = self.files@;
        if let Some(i) = found {
            proof {
                lemma_entries_map_remove(s0, i as int);
            }
            self.files.remove(i);
            proof {
                assert(unique_names(self.files@)) by {
                    assert(forall|x: int, y: int| 0 <= x < y < self.files@.len() ==> {
                        let xi = if x < i { x } else { x + 1 };
                        let yi = if y < i { y } else { y + 1 };
                        #[trigger] self.files@[x].0@ == s0[xi].0@ && #[trigger] self.files@[y].0@ == s0[yi].0@
                    });
                }
                lemma_entries_map_key(self.files@, name@);
                assert(forall|j: int| 0 <= j < self.files@.len() ==> #[trigger] self.files@[j].0@ != name@) by {
                    assert(forall|j: int| 0 <= j < self.files@.len() ==> {
                        let ji = if j < i { j } else { j + 1 };
                        #[trigger] self.files@[j].0@ == s0[ji].0@
                    });
                }
            }
        } else {
            proof {
                lemma_entries_map_key(s0, name@);
                assert(self.contents() =~= self.contents().remove(name@));
            }
        }
        let ghost s1 = self.files@;
        let owned = name.to_owned();
        self.files.push((owned, bytes));
        proof {
            assert(self.files@.drop_last() =~= s1);
            lemma_entries_map_key(s1, name@);
            assert(unique_names(self.files@)) by {
                assert(forall|j: int| 0 <= j < s1.len() ==> #[trigger] self.files@[j] == s1[j]);
            }
            assert(entries_map(s1).insert(name@, bytes@)
                =~= entries_map(s0).insert(name@, bytes@));
        }
    }
}

proof fn lemma_entries_map_count(s: Seq<(String, Vec<u8>)>)
    requires
        unique_names(s),
    ensures
        entries_map(s).dom().finite(),
        entries_map(s).dom().len() == s.len(),
    decreases s.len(),
{
    if s.len() > 0 {
        lemma_entries_map_count(s.drop_last());
        lemma_entries_map_key(s.drop_last(), s.last().0@);
        if entries_map(s.drop_last()).contains_key(s.last().0@) {
            let j = choose|j: int|
                0 <= j < s.drop_last().len() && #[trigger] s.drop_last()[j].0@ == s.last().0@;
            assert(s[j].0@ == s[s.len() - 1].0@);
            assert(false);
        }
        assert(entries_map(s).dom() =~= entries_map(s.drop_last()).dom().insert(s.last().0@));
    } else {
        assert(entries_map(s).dom() =~= Set::<Seq<char>>::empty());
    }
}

/// Overwriting a file is idempotent in the set of files: writing under one
/// name twice leaves exactly the one file that the second write stored.
pub proof fn lemma_overwrite_keeps_one_file(
    m: Map<Seq<char>, Seq<u8>>,
    name: Seq<char>,
    b1: Seq<u8>,
    b2: Seq<u8>,
)
    ensures
        m.insert(name, b1).insert(name, b2) == m.insert(name, b2),
        m.insert(name, b1).insert(name, b2).dom() == m.insert(name, b1).dom(),
{
    assert(m.insert(name, b1).insert(name, b2) =~= m.insert(name, b2));
    assert(m.insert(name, b1).insert(name, b2).dom() =~= m.insert(name, b1).dom());
}

} // verus!
