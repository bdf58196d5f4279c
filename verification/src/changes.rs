use vstd::prelude::*;

use crate::text::has_substring;
use crate::text::has_suffix;
use crate::text::str_has_substring;
use crate::text::str_has_suffix;

verus! {

// ---------------------------------------------------------------------------
// Content digests
// ---------------------------------------------------------------------------

/// The hex digest the change detector assigns to a file's byte content.
pub uninterp spec fn md5_hex_of(content: Seq<u8>) -> Seq<char>;

/// Relies on md5::compute and the `LowerHex` rendering of its digest: the
/// 16-byte digest of the input, printed as exactly 32 lowercase hex
/// characters, is a deterministic function of the input bytes alone.
#[verifier::external_body]
fn file_digest(content: &Vec<u8>) -> (d: String)
    ensures
        d@ == md5_hex_of(content@),
        d@.len() == 32,
{
    format!("{:x}", md5::compute(content.as_slice()))
}

// ---------------------------------------------------------------------------
// The path-to-digest mapping
// ---------------------------------------------------------------------------

/// Keys are pairwise distinct.
pub open spec fn unique_keys(s: Seq<(Seq<char>, Seq<char>)>) -> bool {
    forall|i: int, j: int| 0 <= i < j < s.len() ==> s[i].0 != s[j].0
}

/// The mapping an entry list denotes (later entries would win, though a
/// well-formed list never repeats a key).
pub open spec fn pairs_to_map(s: Seq<(Seq<char>, Seq<char>)>) -> Map<Seq<char>, Seq<char>>
    decreases s.len(),
{
    if s.len() == 0 {
        Map::empty()
    } else {
        pairs_to_map(s.drop_last()).insert(s.last().0, s.last().1)
    }
}

pub proof fn lemma_pairs_to_map_present(s: Seq<(Seq<char>, Seq<char>)>, i: int)
    requires
        0 <= i < s.len(),
        unique_keys(s),
    ensures
        pairs_to_map(s).dom().contains(s[i].0),
        pairs_to_map(s)[s[i].0] == s[i].1,
    decreases s.len(),
{
    if i < s.len() - 1 {
        assert(s.drop_last()[i] == s[i]);
        lemma_pairs_to_map_present(s.drop_last(), i);
        assert(s[i].0 != s.last().0);
    }
}

pub proof fn lemma_pairs_to_map_absent(s: Seq<(Seq<char>, Seq<char>)>, k: Seq<char>)
    requires
        forall|i: int| 0 <= i < s.len() ==> s[i].0 != k,
    ensures
        !pairs_to_map(s).dom().contains(k),
    decreases s.len(),
{
    if s.len() > 0 {
        lemma_pairs_to_map_absent(s.drop_last(), k);
    }
}

/// A mapping from file path to content digest.  Two generations of it drive
/// change detection: the previous mapping, loaded from the persisted cache,
/// and the current mapping, recomputed from the tree on every run.
pub struct DigestMap {
    entries: Vec<(String, String)>,
}

impl DigestMap {
    /// The entry list, as character sequences, in insertion order.
    pub closed spec fn entries_seq(&self) -> Seq<(Seq<char>, Seq<char>)> {
        self.entries@.map_values(|p: (String, String)| (p.0@, p.1@))
    }

    /// Well-formed: keys are unique.
    pub open spec fn wf(&self) -> bool {
        unique_keys(self.entries_seq())
    }

    /// The mapping as a mathematical map.
    pub open spec fn as_map(&self) -> Map<Seq<char>, Seq<char>> {
        pairs_to_map(self.entries_seq())
    }

    pub fn new() -> (m: DigestMap)
        ensures
            m.wf(),
            m.entries_seq() == Seq::<(Seq<char>, Seq<char>)>::empty(),
            m.as_map() == Map::<Seq<char>, Seq<char>>::empty(),
    {
        let m = DigestMap { entries: Vec::new() };
        proof {
            assert(m.entries_seq() =~= Seq::<(Seq<char>, Seq<char>)>::empty());
        }
        m
    }

    /// Adds a binding for a path not yet present.
    pub fn insert_new(&mut self, path: String, digest: String)
        requires
            old(self).wf(),
            !old(self).as_map().dom().contains(path@),
        ensures
            final(self).wf(),
            final(self).entries_seq() == old(self).entries_seq().push((path@, digest@)),
            final(self).as_map() == old(self).as_map().insert(path@, digest@),
    {
        proof {
            assert forall|i: int| 0 <= i < self.entries_seq().len() implies self.entries_seq()[i].0
                != path@ by {
                if self.entries_seq()[i].0 == path@ {
                    lemma_pairs_to_map_present(self.entries_seq(), i);
                }
            }
        }
        let ghost before = self.entries_seq();
        self.entries.push((path, digest));
        proof {
            assert(self.entries_seq() =~= before.push((path@, digest@)));
            assert(self.entries_seq().drop_last() =~= before);
        }
    }

    /// Looks a path up.
    pub fn get(&self, path: &String) -> (r: Option<&String>)
        requires
            self.wf(),
        ensures
            r is Some <==> self.as_map().dom().contains(path@),
            r matches Some(d) ==> self.as_map()[path@] == d@,
    {
        let n = self.entries.len();
        let mut i: usize = 0;
        while i < n
            invariant
                n == self.entries@.len(),
                i <= n,
                self.wf(),
                forall|j: int| 0 <= j < i ==> self.entries_seq()[j].0 != path@,
            decreases n - i,
        {
            if self.entries[i].0.eq(path) {
                proof {
                    lemma_pairs_to_map_present(self.entries_seq(), i as int);
                }
                return Some(&self.entries[i].1);
            }
            i += 1;
        }
        proof {
            lemma_pairs_to_map_absent(self.entries_seq(), path@);
        }
        None
    }

    /// The number of entries.
    pub fn len(&self) -> (n: usize)
        ensures
            n == self.entries_seq().len(),
    {
        self.entries.len()
    }

    /// The entry list itself, for persisting the mapping.
    pub fn pairs(&self) -> (r: &Vec<(String, String)>)
        ensures
            r@.map_values(|p: (String, String)| (p.0@, p.1@)) == self.entries_seq(),
    {
        &self.entries
    }
}

// ---------------------------------------------------------------------------
// Scanning: which paths take part, and their digests
// ---------------------------------------------------------------------------

/// A path takes part in change detection unless it sits in a `temp` path
/// segment or is the cache file itself.
pub open spec fn watched_path(p: Seq<char>) -> bool {
    !has_substring(p, "/temp/"@) && !has_suffix(p, "md5_cache.json"@)
}

/// Decides whether a path takes part in change detection.
pub fn is_watched_path(p: &String) -> (r: bool)
    ensures
        r == watched_path(p@),
{
    let in_temp = str_has_substring(p.as_str(), "/temp/");
    let is_cache = str_has_suffix(p.as_str(), "md5_cache.json");
    !in_temp && !is_cache
}

/// One regular file found by the tree walk: its path and its full content.
pub struct ScannedFile {
    pub path: String,
    pub content: Vec<u8>,
}

impl View for ScannedFile {
    type V = (Seq<char>, Seq<u8>);

    open spec fn view(&self) -> (Seq<char>, Seq<u8>) {
        (self.path@, self.content@)
    }
}

/// The digest entries of a file list: one entry per watched path, keyed by
/// path, in scan order.
pub open spec fn digest_entries(files: Seq<(Seq<char>, Seq<u8>)>) -> Seq<(Seq<char>, Seq<char>)>
    decreases files.len(),
{
    if files.len() == 0 {
        Seq::empty()
    } else {
        let rest = digest_entries(files.drop_last());
        let f = files.last();
        if watched_path(f.0) {
            rest.push((f.0, md5_hex_of(f.1)))
        } else {
            rest
        }
    }
}

proof fn lemma_digest_entries_keys(files: Seq<(Seq<char>, Seq<u8>)>, k: Seq<char>)
    requires
        forall|i: int| 0 <= i < files.len() ==> files[i].0 != k,
    ensures
        forall|i: int|
            0 <= i < digest_entries(files).len() ==> digest_entries(files)[i].0 != k,
    decreases files.len(),
{
    if files.len() > 0 {
        assert forall|i: int| 0 <= i < files.drop_last().len() implies files.drop_last()[i].0
            != k by {
            assert(files.drop_last()[i] == files[i]);
        }
        lemma_digest_entries_keys(files.drop_last(), k);
        let rest = digest_entries(files.drop_last());
        let f = files.last();
        if watched_path(f.0) {
            assert(digest_entries(files) == rest.push((f.0, md5_hex_of(f.1))));
            assert forall|i: int| 0 <= i < digest_entries(files).len() implies digest_entries(
                files,
            )[i].0 != k by {
                if i < rest.len() {
                    assert(digest_entries(files)[i] == rest[i]);
                } else {
                    assert(digest_entries(files)[i] == (f.0, md5_hex_of(f.1)));
                }
            }
        } else {
            assert(digest_entries(files) == rest);
        }
    }
}

/// Computes the current mapping of a scanned tree: every watched file's path
/// bound to the digest of its content.
pub fn current_digests(files: &Vec<ScannedFile>) -> (m: DigestMap)
    requires
        forall|i: int, j: int| 0 <= i < j < files@.len() ==> files@[i].path@ != files@[j].path@,
    ensures
        m.wf(),
        m.entries_seq() == digest_entries(files@.map_values(|f: ScannedFile| f@)),
{
    let ghost fv = files@.map_values(|f: ScannedFile| f@);
    let mut m = DigestMap::new();
    let n = files.len();
    let mut i: usize = 0;
    proof {
        assert(m.entries_seq() =~= digest_entries(fv.take(0)));
    }
    while i < n
        invariant
            n == files@.len(),
            i <= n,
            fv == files@.map_values(|f: ScannedFile| f@),
            forall|a: int, b: int| 0 <= a < b < files@.len() ==> files@[a].path@ != files@[b].path@,
            m.wf(),
            m.entries_seq() == digest_entries(fv.take(i as int)),
        decreases n - i,
    {
        proof {
            assert(fv.take(i + 1).drop_last() =~= fv.take(i as int));
            assert(fv.take(i + 1).last() == (files@[i as int].path@, files@[i as int].content@));
        }
        if is_watched_path(&files[i].path) {
            let d = file_digest(&files[i].content);
            proof {
                assert forall|t: int| 0 <= t < fv.take(i as int).len() implies fv.take(i as int)[t].0
                    != files@[i as int].path@ by {
                    assert(fv.take(i as int)[t].0 == files@[t].path@);
                }
                lemma_digest_entries_keys(fv.take(i as int), files@[i as int].path@);
                lemma_pairs_to_map_absent(m.entries_seq(), files@[i as int].path@);
            }
            let p = files[i].path.clone();
            m.insert_new(p, d);
        }
        i += 1;
    }
    proof {
        assert(fv.take(n as int) =~= fv);
    }
    m
}

// ---------------------------------------------------------------------------
// The changed set
// ---------------------------------------------------------------------------

/// A current binding counts as changed when its path is absent from the
/// previous mapping or bound there to a different digest.  Paths present
/// previously but gone now are deliberately not reported: deletions are not
/// changes.
pub open spec fn binding_changed(
    prev: Map<Seq<char>, Seq<char>>,
    path: Seq<char>,
    digest: Seq<char>,
) -> bool {
    !prev.dom().contains(path) || prev[path] != digest
}

/// The changed paths of a current entry list against a previous mapping, in
/// entry order.
pub open spec fn changed_keys(
    entries: Seq<(Seq<char>, Seq<char>)>,
    prev: Map<Seq<char>, Seq<char>>,
) -> Seq<Seq<char>>
    decreases entries.len(),
{
    if entries.len() == 0 {
        Seq::empty()
    } else {
        let rest = changed_keys(entries.drop_last(), prev);
        let e = entries.last();
        if binding_changed(prev, e.0, e.1) {
            rest.push(e.0)
        } else {
            rest
        }
    }
}

/// Lists the paths of `current` that are new or re-digested against
/// `previous`, in scan order.
pub fn changed_paths(current: &DigestMap, previous: &DigestMap) -> (r: Vec<String>)
    requires
        current.wf(),
        previous.wf(),
    ensures
        r@.map_values(|s: String| s@) == changed_keys(current.entries_seq(), previous.as_map()),
{
    let mut r: Vec<String> = Vec::new();
    let pairs = current.pairs();
    let n = pairs.len();
    let mut i: usize = 0;
    proof {
        assert(r@.map_values(|s: String| s@) =~= changed_keys(
            current.entries_seq().take(0),
            previous.as_map(),
        ));
    }
    while i < n
        invariant
            n == current.entries_seq().len(),
            pairs@.map_values(|p: (String, String)| (p.0@, p.1@)) == current.entries_seq(),
            i <= n,
            previous.wf(),
            r@.map_values(|s: String| s@) == changed_keys(
                current.entries_seq().take(i as int),
                previous.as_map(),
            ),
        decreases n - i,
    {
        proof {
            assert(current.entries_seq().take(i + 1).drop_last() =~= current.entries_seq().take(
                i as int,
            ));
            assert(current.entries_seq()[i as int] == (pairs@[i as int].0@, pairs@[i as int].1@));
        }
        let changed = match previous.get(&pairs[i].0) {
            None => true,
            Some(d) => !d.eq(&pairs[i].1),
        };
        if changed {
            r.push(pairs[i].0.clone());
            proof {
                assert(r@.map_values(|s: String| s@) =~= changed_keys(
                    current.entries_seq().take(i + 1),
                    previous.as_map(),
                ));
            }
        } else {
            proof {
                assert(r@.map_values(|s: String| s@) =~= changed_keys(
                    current.entries_seq().take(i + 1),
                    previous.as_map(),
                ));
            }
        }
        i += 1;
    }
    proof {
        assert(current.entries_seq().take(n as int) =~= current.entries_seq());
    }
    r
}

proof fn lemma_changed_keys_all_present(
    entries: Seq<(Seq<char>, Seq<char>)>,
    prev: Map<Seq<char>, Seq<char>>,
)
    requires
        forall|i: int|
            0 <= i < entries.len() ==> prev.dom().contains(entries[i].0) && prev[entries[i].0]
                == entries[i].1,
    ensures
        changed_keys(entries, prev).len() == 0,
    decreases entries.len(),
{
    if entries.len() > 0 {
        assert forall|i: int| 0 <= i < entries.drop_last().len() implies prev.dom().contains(
            entries.drop_last()[i].0,
        ) && prev[entries.drop_last()[i].0] == entries.drop_last()[i].1 by {
            assert(entries.drop_last()[i] == entries[i]);
        }
        lemma_changed_keys_all_present(entries.drop_last(), prev);
    }
}

/// Idempotence of change detection: diffing a well-formed mapping against itself
/// reports no change.  Running change detection twice with no intervening
/// file modification therefore stages nothing the second time.
pub proof fn lemma_rescan_unchanged(entries: Seq<(Seq<char>, Seq<char>)>)
    requires
        unique_keys(entries),
    ensures
        changed_keys(entries, pairs_to_map(entries)).len() == 0,
{
    assert forall|i: int| 0 <= i < entries.len() implies pairs_to_map(entries).dom().contains(
        entries[i].0,
    ) && pairs_to_map(entries)[entries[i].0] == entries[i].1 by {
        lemma_pairs_to_map_present(entries, i);
    }
    lemma_changed_keys_all_present(entries, pairs_to_map(entries));
}

// ---------------------------------------------------------------------------
// Staging changed files
// ---------------------------------------------------------------------------

/// The characters after the last `/` of a path: the file's own name.
pub open spec fn base_name_of(p: Seq<char>) -> Seq<char>
    decreases p.len(),
{
    if p.len() == 0 {
        p
    } else if p.last() == '/' {
        Seq::empty()
    } else {
        base_name_of(p.drop_last()).push(p.last())
    }
}

proof fn lemma_base_name_skip(p: Seq<char>, k: int)
    requires
        0 <= k <= p.len(),
        forall|j: int| k <= j < p.len() ==> p[j] != '/',
        k > 0 ==> p[k - 1] == '/',
    ensures
        base_name_of(p) == p.skip(k),
    decreases p.len(),
{
    if p.len() == 0 {
        assert(p.skip(0) =~= p);
    } else if k == p.len() {
        assert(p.last() == '/');
        assert(p.skip(k) =~= Seq::<char>::empty());
    } else {
        assert(p.last() != '/');
        assert forall|j: int| k <= j < p.drop_last().len() implies p.drop_last()[j] != '/' by {
            assert(p.drop_last()[j] == p[j]);
        }
        lemma_base_name_skip(p.drop_last(), k);
        assert(p.skip(k) =~= p.drop_last().skip(k).push(p.last()));
    }
}

/// The flattened staging name of a source path: its base name alone, so files
/// of the same name from different subdirectories overwrite one another in
/// the staging area (a known limitation, preserved).
pub fn base_name(path: &String) -> (r: String)
    ensures
        r@ == base_name_of(path@),
{
    let s = path.as_str();
    let n = s.unicode_len();
    let mut cut = n;
    while cut > 0 && s.get_char(cut - 1) != '/'
        invariant
            cut <= n,
            n == s@.len(),
            forall|j: int| cut <= j < n ==> s@[j] != '/',
        decreases cut,
    {
        cut -= 1;
    }
    proof {
        lemma_base_name_skip(s@, cut as int);
    }
    let tail = s.substring_char(cut, n);
    tail.to_owned()
}

/// The scratch directory changed files are staged into.
pub fn temp_dir_path(target_dir: &String) -> (r: String)
    ensures
        r@ == target_dir@ + "/temp"@,
{
    let mut s = target_dir.clone();
    s.append("/temp");
    s
}

/// Where one changed file lands inside the staging directory.
pub fn staged_dest(temp_dir: &String, source_path: &String) -> (r: String)
    ensures
        r@ == temp_dir@ + seq!['/'] + base_name_of(source_path@),
{
    proof {
        reveal_strlit("/");
    }
    let mut s = temp_dir.clone();
    s.append("/");
    let b = base_name(source_path);
    s.append(b.as_str());
    proof {
        assert(seq!['/'] =~= "/"@);
    }
    s
}

} // verus!
