use vstd::prelude::*;

use crate::config::opt_ref_view;
use crate::errors::DeployError;
use crate::text::has_substring;
use crate::text::has_suffix;

verus! {

// ---------------------------------------------------------------------------
// The archiver: a compressed tar stream of a directory tree, built in
// memory.  The tree walk happens outside the library and hands in one entry
// per file or directory, with its path relative to the tree root; entries of
// any other kind were already silently skipped by the walk, as the design
// demands.  The tar and gzip byte production is the work of outside crates,
// behind the trusted items below; which entries enter the archive, under
// which paths, is decided and verified here.
// ---------------------------------------------------------------------------

/// A tar builder writing through a gzip encoder into an in-memory buffer.
/// The builder and encoder are an outside crate's; the struct only carries
/// them, opaque to the verifier, between the trusted calls below.
#[verifier::external_body]
pub struct TarGzBuilder {
    inner: tar::Builder<flate2::write::GzEncoder<Vec<u8>>>,
}

/// The entries handed to the builder's append calls so far, in order: path,
/// whether it is a directory, and the file content (empty for directories).
pub uninterp spec fn archived_entries(b: TarGzBuilder) -> Seq<(Seq<char>, bool, Seq<u8>)>;

/// The bytes of the finished, gzip-compressed tar stream produced for
/// exactly this sequence of appended entries.  Headers are fully determined
/// (zeroed gnu header, fixed modes, no timestamps) and the default
/// compression is fixed, so the stream is a function of the entries alone.
/// Tar stores each path in normalized form (a leading `./` is elided); the
/// deploy pipeline only ever hands in clean relative paths.
pub uninterp spec fn targz_bytes(items: Seq<(Seq<char>, bool, Seq<u8>)>) -> Seq<u8>;

/// The path has a parent-directory (`..`) component.
pub open spec fn has_parent_component(p: Seq<char>) -> bool {
    ||| p == ".."@
    ||| p.len() >= 3 && p.take(3) == "../"@
    ||| has_suffix(p, "/.."@)
    ||| has_substring(p, "/../"@)
}

/// A path the tar builder accepts outright: nonempty and relative, with no
/// parent-directory component and no NUL character.  The builder rejects the
/// rest of its own accord; over-long names it handles itself through the
/// long-name extension, and writes into the in-memory sink cannot fail.
pub open spec fn clean_rel_path(p: Seq<char>) -> bool {
    &&& p.len() > 0
    &&& p[0] != '/'
    &&& forall|i: int| 0 <= i < p.len() ==> p[i] != '\0'
    &&& !has_parent_component(p)
}

/// Relies on tar::Builder::new and flate2::write::GzEncoder::new: a fresh
/// builder over a fresh default-compression gzip stream holds no entries.
#[verifier::external_body]
fn targz_new() -> (b: TarGzBuilder)
    ensures
        archived_entries(b) == Seq::<(Seq<char>, bool, Seq<u8>)>::empty(),
{
    let enc = flate2::write::GzEncoder::new(Vec::new(), flate2::Compression::default());
    TarGzBuilder { inner: tar::Builder::new(enc) }
}

/// Relies on tar::Builder::append_data with a zeroed gnu header: on success
/// exactly one regular-file append of this path and content has happened.
/// Over an in-memory sink the call can fail only on a path the builder
/// rejects — empty, absolute, with a parent-directory component, or holding
/// a NUL byte — so it succeeds on every clean relative path (over-long names
/// go through the long-name extension it emits itself).
#[verifier::external_body]
fn targz_add_file(b: &mut TarGzBuilder, path: &String, content: &Vec<u8>) -> (r: Result<(), ()>)
    ensures
        r is Ok ==> archived_entries(*final(b)) == archived_entries(*old(b)).push(
            (path@, false, content@),
        ),
        clean_rel_path(path@) ==> r is Ok,
{
    let mut h = tar::Header::new_gnu();
    h.set_mode(0o644);
    h.set_size(content.len() as u64);
    match b.inner.append_data(&mut h, path.as_str(), content.as_slice()) {
        Ok(()) => Ok(()),
        Err(_) => Err(()),
    }
}

/// Relies on tar::Builder::append_data with a zeroed gnu header of directory
/// type: on success exactly one directory append of this path, with no
/// content, has happened; as for files, it succeeds on every clean relative
/// path.
#[verifier::external_body]
fn targz_add_dir(b: &mut TarGzBuilder, path: &String) -> (r: Result<(), ()>)
    ensures
        r is Ok ==> archived_entries(*final(b)) == archived_entries(*old(b)).push(
            (path@, true, Seq::<u8>::empty()),
        ),
        clean_rel_path(path@) ==> r is Ok,
{
    let mut h = tar::Header::new_gnu();
    h.set_entry_type(tar::EntryType::dir());
    h.set_mode(0o755);
    h.set_size(0);
    match b.inner.append_data(&mut h, path.as_str(), std::io::empty()) {
        Ok(()) => Ok(()),
        Err(_) => Err(()),
    }
}

/// Relies on tar::Builder::into_inner and flate2 GzEncoder::finish: the
/// result is the complete compressed stream of the appended entries.  Both
/// only write the fixed terminator and flush, and a write into the
/// in-memory sink cannot fail, so the call always succeeds.
#[verifier::external_body]
fn targz_finish(b: TarGzBuilder) -> (r: Result<Vec<u8>, ()>)
    ensures
        r is Ok,
        r matches Ok(bytes) ==> bytes@ == targz_bytes(archived_entries(b)),
{
    match b.inner.into_inner() {
        Ok(enc) => match enc.finish() {
            Ok(v) => Ok(v),
            Err(_) => Err(()),
        },
        Err(_) => Err(()),
    }
}

/// One entry of the walked tree: its path relative to the tree root, whether
/// it is a directory, and its content (files only).
pub struct ArchiveEntry {
    pub rel_path: String,
    pub is_dir: bool,
    pub content: Vec<u8>,
}

impl View for ArchiveEntry {
    type V = (Seq<char>, bool, Seq<u8>);

    open spec fn view(&self) -> (Seq<char>, bool, Seq<u8>) {
        (self.rel_path@, self.is_dir, self.content@)
    }
}

/// The path an entry takes inside the archive: nested one level under the
/// root name when one is given, its bare relative path otherwise.
pub open spec fn archived_path(rel: Seq<char>, root: Option<Seq<char>>) -> Seq<char> {
    match root {
        Some(n) => n + seq!['/'] + rel,
        None => rel,
    }
}

/// What one walked entry becomes in the archive.
pub open spec fn item_of(e: (Seq<char>, bool, Seq<u8>), root: Option<Seq<char>>) -> (
    Seq<char>,
    bool,
    Seq<u8>,
) {
    (
        archived_path(e.0, root),
        e.1,
        if e.1 {
            Seq::<u8>::empty()
        } else {
            e.2
        },
    )
}

/// The archive's entry list: when a root name is given, one directory entry
/// for the root first, then every walked entry nested under it; otherwise
/// the walked entries at the archive root.  The tree root itself (empty
/// relative path) is skipped either way.
pub open spec fn planned_items(
    entries: Seq<(Seq<char>, bool, Seq<u8>)>,
    root: Option<Seq<char>>,
) -> Seq<(Seq<char>, bool, Seq<u8>)>
    decreases entries.len(),
{
    if entries.len() == 0 {
        match root {
            Some(n) => seq![(n, true, Seq::<u8>::empty())],
            None => Seq::empty(),
        }
    } else {
        let rest = planned_items(entries.drop_last(), root);
        let e = entries.last();
        if e.0.len() == 0 {
            rest
        } else {
            rest.push(item_of(e, root))
        }
    }
}

/// Every path this build will append — the root entry's own, and each
/// nonempty entry's path inside the archive — is one the tar builder
/// accepts.
pub open spec fn all_paths_clean(
    entries: Seq<(Seq<char>, bool, Seq<u8>)>,
    root: Option<Seq<char>>,
) -> bool {
    &&& (root matches Some(n) ==> clean_rel_path(n))
    &&& forall|i: int|
        0 <= i < entries.len() ==> (entries[i].0.len() > 0 ==> clean_rel_path(
            archived_path(entries[i].0, root),
        ))
}

/// Under `all_paths_clean`, every planned archive entry has a clean path.
pub proof fn lemma_all_planned_paths_clean(
    entries: Seq<(Seq<char>, bool, Seq<u8>)>,
    root: Option<Seq<char>>,
)
    requires
        all_paths_clean(entries, root),
    ensures
        forall|i: int|
            0 <= i < planned_items(entries, root).len() ==> clean_rel_path(
                (#[trigger] planned_items(entries, root)[i]).0,
            ),
    decreases entries.len(),
{
    if entries.len() > 0 {
        assert forall|i: int|
            0 <= i < entries.drop_last().len() implies (entries.drop_last()[i].0.len() > 0
            ==> clean_rel_path(archived_path(entries.drop_last()[i].0, root))) by {
            assert(entries.drop_last()[i] == entries[i]);
        }
        lemma_all_planned_paths_clean(entries.drop_last(), root);
        let rest = planned_items(entries.drop_last(), root);
        let e = entries.last();
        if e.0.len() != 0 {
            assert(planned_items(entries, root) == rest.push(item_of(e, root)));
            assert forall|i: int| 0 <= i < planned_items(entries, root).len() implies clean_rel_path(
                (#[trigger] planned_items(entries, root)[i]).0,
            ) by {
                if i < rest.len() {
                    assert(planned_items(entries, root)[i] == rest[i]);
                } else {
                    assert(planned_items(entries, root)[i] == item_of(e, root));
                    assert(clean_rel_path(archived_path(e.0, root)));
                }
            }
        }
    }
}

/// The nesting law: with a root name, the archive opens with the root's own
/// directory entry, and every other entry's path sits one level under the
/// root name.  With no root name, `planned_items` keeps each entry's bare
/// relative path, so no such nesting exists.
pub proof fn lemma_root_nesting(entries: Seq<(Seq<char>, bool, Seq<u8>)>, n: Seq<char>)
    ensures
        planned_items(entries, Some(n)).len() >= 1,
        planned_items(entries, Some(n))[0] == (n, true, Seq::<u8>::empty()),
        forall|i: int|
            1 <= i < planned_items(entries, Some(n)).len() ==> (#[trigger] planned_items(
                entries,
                Some(n),
            )[i]).0.take(n.len() as int + 1) == n + seq!['/'],
    decreases entries.len(),
{
    if entries.len() > 0 {
        lemma_root_nesting(entries.drop_last(), n);
        let rest = planned_items(entries.drop_last(), Some(n));
        let e = entries.last();
        if e.0.len() != 0 {
            assert(planned_items(entries, Some(n)) == rest.push(item_of(e, Some(n))));
            assert forall|i: int| 1 <= i < planned_items(entries, Some(n)).len() implies (
            #[trigger] planned_items(entries, Some(n))[i]).0.take(n.len() as int + 1) == n + seq!['/'] by {
                if i < rest.len() {
                    assert(planned_items(entries, Some(n))[i] == rest[i]);
                } else {
                    assert(planned_items(entries, Some(n))[i] == item_of(e, Some(n)));
                    assert((n + seq!['/'] + e.0).take(n.len() as int + 1) =~= n + seq!['/']);
                }
            }
        }
    }
}

/// Builds the compressed tar stream of a walked directory tree.  On success
/// the bytes are exactly the stream of the planned entries: nested under
/// `root_name` when one is given, flattened to the archive root otherwise.
/// Success is owed whenever every appended path is a clean relative path —
/// the only thing the in-memory tar builder can reject.
pub fn build_archive(entries: &Vec<ArchiveEntry>, root_name: Option<&String>) -> (r: Result<
    Vec<u8>,
    DeployError,
>)
    ensures
        r matches Ok(bytes) ==> bytes@ == targz_bytes(
            planned_items(entries@.map_values(|e: ArchiveEntry| e@), opt_ref_view(root_name)),
        ),
        all_paths_clean(entries@.map_values(|e: ArchiveEntry| e@), opt_ref_view(root_name))
            ==> r is Ok,
{
    let ghost ev = entries@.map_values(|e: ArchiveEntry| e@);
    let ghost root = opt_ref_view(root_name);
    let mut b = targz_new();
    match root_name {
        Some(name) => {
            let ok = targz_add_dir(&mut b, name);
            if ok.is_err() {
                proof {
                    assert(!clean_rel_path(name@));
                    assert(!all_paths_clean(ev, root));
                }
                return Err(DeployError::Archive { detail: "could not write the archive stream".to_owned() });
            }
        },
        None => {},
    }
    proof {
        assert(ev.take(0) =~= Seq::<(Seq<char>, bool, Seq<u8>)>::empty());
        assert(archived_entries(b) =~= planned_items(ev.take(0), root));
    }
    let n = entries.len();
    let mut i: usize = 0;
    while i < n
        invariant
            n == entries@.len(),
            i <= n,
            ev == entries@.map_values(|e: ArchiveEntry| e@),
            root == opt_ref_view(root_name),
            archived_entries(b) == planned_items(ev.take(i as int), root),
        decreases n - i,
    {
        proof {
            assert(ev.take(i + 1).drop_last() =~= ev.take(i as int));
            assert(ev.take(i + 1).last() == ev[i as int]);
        }
        let e = &entries[i];
        if !e.rel_path.as_str().is_empty() {
            let path: String = match root_name {
                Some(nm) => {
                    proof {
                        reveal_strlit("/");
                    }
                    let mut s = nm.clone();
                    s.append("/");
                    s.append(e.rel_path.as_str());
                    proof {
                        assert(seq!['/'] =~= "/"@);
                    }
                    s
                },
                None => e.rel_path.clone(),
            };
            proof {
                assert(path@ == archived_path(e.rel_path@, root));
            }
            let ok = if e.is_dir {
                targz_add_dir(&mut b, &path)
            } else {
                targz_add_file(&mut b, &path, &e.content)
            };
            if ok.is_err() {
                proof {
                    assert(!clean_rel_path(path@));
                    assert(ev[i as int] == (e.rel_path@, e.is_dir, e.content@));
                    assert(!all_paths_clean(ev, root)) by {
                        if all_paths_clean(ev, root) {
                            assert(clean_rel_path(archived_path(ev[i as int].0, root)));
                        }
                    }
                }
                return Err(DeployError::Archive { detail: "could not write the archive stream".to_owned() });
            }
            proof {
                assert(archived_entries(b) =~= planned_items(ev.take(i + 1), root));
            }
        } else {
            proof {
                assert(planned_items(ev.take(i + 1), root) =~= planned_items(ev.take(i as int), root));
            }
        }
        i += 1;
    }
    proof {
        assert(ev.take(n as int) =~= ev);
    }
    match targz_finish(b) {
        Ok(bytes) => Ok(bytes),
        Err(()) => Err(DeployError::Archive { detail: "could not finish the archive stream".to_owned() }),
    }
}

} // verus!
