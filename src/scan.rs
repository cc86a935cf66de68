use vstd::prelude::*;
use crate::database::{Database, MediaRecord, SidecarRecord};
use crate::media::{detect_media_type, media_type_of};
use crate::paths::{file_name_of, split_path};
use crate::plan::{join_chars, join_path, media_index, relpath_by_id};
use crate::sidecar::lists_name;
use crate::text::{chars_of, equals_str, same_chars, string_of};

verus! {

/// A media item whose file is not where the index says.
#[derive(Debug)]
pub struct MissingFile {
    pub id: i64,
    pub filename: String,
    pub relpath: String,
    pub media_type: String,
    pub expected_path: String,
}

/// A sidecar whose file's content changed since it was indexed.
#[derive(Debug)]
pub struct ModifiedSidecar {
    pub id: i64,
    pub media_id: i64,
    pub filename: String,
    pub old_hash: String,
    pub new_hash: String,
    pub path: String,
}

/// A sidecar whose file is not where the index says.
#[derive(Debug)]
pub struct OrphanedSidecar {
    pub id: i64,
    pub filename: String,
    pub relpath: String,
    pub expected_path: String,
}

/// How a library on disk differs from its index.
#[derive(Debug)]
pub struct ScanResult {
    pub missing_files: Vec<MissingFile>,
    pub new_files: Vec<String>,
    pub modified_sidecars: Vec<ModifiedSidecar>,
    pub orphaned_sidecars: Vec<OrphanedSidecar>,
}

impl ScanResult {
    /// A result with nothing found.
    pub fn new() -> (r: ScanResult)
        ensures
            r.missing_files@.len() == 0 && r.new_files@.len() == 0
                && r.modified_sidecars@.len() == 0 && r.orphaned_sidecars@.len() == 0,
    {
        ScanResult {
            missing_files: Vec::new(),
            new_files: Vec::new(),
            modified_sidecars: Vec::new(),
            orphaned_sidecars: Vec::new(),
        }
    }

    /// Whether the scan found no difference at all.
    pub fn is_clean(&self) -> (r: bool)
        ensures
            r == (self.missing_files@.len() == 0 && self.new_files@.len() == 0
                && self.modified_sidecars@.len() == 0 && self.orphaned_sidecars@.len() == 0),
    {
        self.missing_files.len() == 0 && self.new_files.len() == 0
            && self.modified_sidecars.len() == 0 && self.orphaned_sidecars.len() == 0
    }
}

/// Where the index says a media item's file is, under the library root.
pub open spec fn media_path(root: Seq<char>, m: MediaRecord) -> Seq<char> {
    join_path(join_path(root, m.relpath@), m.filename@)
}

/// The items whose file `on_disk` does not list, in index order.
pub open spec fn missing(db: Database, root: Seq<char>, on_disk: Seq<String>) -> Seq<MediaRecord> {
    db.media@.filter(|m: MediaRecord| !lists_name(on_disk, media_path(root, m)))
}

fn listed_path(names: &Vec<String>, p: &Vec<char>) -> (r: bool)
    ensures
        r == lists_name(names@, p@),
{
    let mut j: usize = 0;
    while j < names.len()
        invariant
            j <= names@.len(),
            forall|i: int| 0 <= i < j ==> names@[i]@ != p@,
        decreases names@.len() - j,
    {
        if same_chars(&chars_of(names[j].as_str()), p) {
            return true;
        }
        j = j + 1;
    }
    false
}

fn path_of(root: &Vec<char>, relpath: &String, filename: &String) -> (r: Vec<char>)
    ensures
        r@ == join_path(join_path(root@, relpath@), filename@),
{
    let dir = join_chars(root, &chars_of(relpath.as_str()));
    join_chars(&dir, &chars_of(filename.as_str()))
}

/// The media items whose file is missing: those whose expected path the
/// listing `on_disk` of the files under the library root does not hold.
pub fn find_missing_files(db: &Database, root: &str, on_disk: &Vec<String>) -> (r: Vec<MissingFile>)
    ensures
        r@.len() == missing(*db, root@, on_disk@).len(),
        forall|k: int|
            0 <= k < r@.len() ==> {
                let m = #[trigger] missing(*db, root@, on_disk@)[k];
                &&& r@[k].id == m.id
                &&& r@[k].filename == m.filename
                &&& r@[k].relpath == m.relpath
                &&& r@[k].media_type@ == m.media_type.name_spec()
                &&& r@[k].expected_path@ == media_path(root@, m)
            },
{
    let ghost pred = |m: MediaRecord| !lists_name(on_disk@, media_path(root@, m));
    let root_c = chars_of(root);
    let mut out: Vec<MissingFile> = Vec::new();
    let mut i: usize = 0;
    while i < db.media.len()
        invariant
            i <= db.media@.len(),
            root_c@ == root@,
            pred == (|m: MediaRecord| !lists_name(on_disk@, media_path(root@, m))),
            out@.len() == db.media@.subrange(0, i as int).filter(pred).len(),
            forall|k: int|
                0 <= k < out@.len() ==> {
                    let m = #[trigger] db.media@.subrange(0, i as int).filter(pred)[k];
                    &&& out@[k].id == m.id
                    &&& out@[k].filename == m.filename
                    &&& out@[k].relpath == m.relpath
                    &&& out@[k].media_type@ == m.media_type.name_spec()
                    &&& out@[k].expected_path@ == media_path(root@, m)
                },
        decreases db.media@.len() - i,
    {
        proof {
            reveal(Seq::filter);
            assert(db.media@.subrange(0, i + 1).drop_last() =~= db.media@.subrange(0, i as int));
        }
        let m = &db.media[i];
        let p = path_of(&root_c, &m.relpath, &m.filename);
        if !listed_path(on_disk, &p) {
            out.push(
                MissingFile {
                    id: m.id,
                    filename: m.filename.clone(),
                    relpath: m.relpath.clone(),
                    media_type: String::from_str(m.media_type.as_str()),
                    expected_path: string_of(&p),
                },
            );
        }
        i = i + 1;
    }
    assert(db.media@.subrange(0, i as int) =~= db.media@);
    out
}

/// Where the index says a sidecar's file is: beside its media file.
pub open spec fn sidecar_path(db: Database, root: Seq<char>, s: SidecarRecord) -> Seq<char> {
    join_path(join_path(root, relpath_by_id(db, s.media_id)), s.filename@)
}

fn sidecar_path_of(db: &Database, root: &Vec<char>, k: usize) -> (r: Vec<char>)
    requires
        db.wf(),
        k < db.sidecars@.len(),
    ensures
        r@ == sidecar_path(*db, root@, db.sidecars@[k as int]),
{
    let s = &db.sidecars[k];
    assert(db.has_media_id(s.media_id));
    let m = &db.media[media_index(db, s.media_id)];
    path_of(root, &m.relpath, &s.filename)
}

/// The expected path of each sidecar row, in index order.
pub fn sidecar_paths(db: &Database, root: &str) -> (r: Vec<String>)
    requires
        db.wf(),
    ensures
        r@.len() == db.sidecars@.len(),
        forall|k: int| 0 <= k < r@.len() ==> (#[trigger] r@[k])@ == sidecar_path(*db, root@, db.sidecars@[k]),
{
    let root_c = chars_of(root);
    let mut out: Vec<String> = Vec::new();
    let mut k: usize = 0;
    while k < db.sidecars.len()
        invariant
            db.wf(),
            root_c@ == root@,
            k <= db.sidecars@.len(),
            out@.len() == k,
            forall|j: int| 0 <= j < k ==> (#[trigger] out@[j])@ == sidecar_path(*db, root@, db.sidecars@[j]),
        decreases db.sidecars@.len() - k,
    {
        out.push(string_of(&sidecar_path_of(db, &root_c, k)));
        k = k + 1;
    }
    out
}

/// The sidecars whose file `on_disk` does not list, in index order.
pub open spec fn orphaned(db: Database, root: Seq<char>, on_disk: Seq<String>) -> Seq<SidecarRecord> {
    db.sidecars@.filter(|s: SidecarRecord| !lists_name(on_disk, sidecar_path(db, root, s)))
}

/// The sidecars whose file is missing: those whose expected path the listing
/// `on_disk` of the files under the library root does not hold.
pub fn find_orphaned_sidecars(db: &Database, root: &str, on_disk: &Vec<String>) -> (r: Vec<
    OrphanedSidecar,
>)
    requires
        db.wf(),
    ensures
        r@.len() == orphaned(*db, root@, on_disk@).len(),
        forall|k: int|
            0 <= k < r@.len() ==> {
                let s = #[trigger] orphaned(*db, root@, on_disk@)[k];
                &&& r@[k].id == s.id
                &&& r@[k].filename == s.filename
                &&& r@[k].relpath@ == relpath_by_id(*db, s.media_id)
                &&& r@[k].expected_path@ == sidecar_path(*db, root@, s)
            },
{
    let ghost pred = |s: SidecarRecord| !lists_name(on_disk@, sidecar_path(*db, root@, s));
    let root_c = chars_of(root);
    let mut out: Vec<OrphanedSidecar> = Vec::new();
    let mut i: usize = 0;
    while i < db.sidecars.len()
        invariant
            db.wf(),
            i <= db.sidecars@.len(),
            root_c@ == root@,
            pred == (|s: SidecarRecord| !lists_name(on_disk@, sidecar_path(*db, root@, s))),
            out@.len() == db.sidecars@.subrange(0, i as int).filter(pred).len(),
            forall|k: int|
                0 <= k < out@.len() ==> {
                    let s = #[trigger] db.sidecars@.subrange(0, i as int).filter(pred)[k];
                    &&& out@[k].id == s.id
                    &&& out@[k].filename == s.filename
                    &&& out@[k].relpath@ == relpath_by_id(*db, s.media_id)
                    &&& out@[k].expected_path@ == sidecar_path(*db, root@, s)
                },
        decreases db.sidecars@.len() - i,
    {
        proof {
            reveal(Seq::filter);
            assert(db.sidecars@.subrange(0, i + 1).drop_last() =~= db.sidecars@.subrange(0, i as int));
        }
        let s = &db.sidecars[i];
        assert(db.has_media_id(s.media_id));
        let m = &db.media[media_index(db, s.media_id)];
        let p = path_of(&root_c, &m.relpath, &s.filename);
        if !listed_path(on_disk, &p) {
            out.push(
                OrphanedSidecar {
                    id: s.id,
                    filename: s.filename.clone(),
                    relpath: m.relpath.clone(),
                    expected_path: string_of(&p),
                },
            );
        }
        i = i + 1;
    }
    assert(db.sidecars@.subrange(0, i as int) =~= db.sidecars@);
    out
}

/// The positions, among the first `k` sidecar rows, of those whose file's
/// current hash is known and differs from the indexed one.
pub open spec fn modified_rows(db: Database, current: Seq<Option<String>>, k: int) -> Seq<int>
    decreases k,
{
    if k <= 0 {
        seq![]
    } else {
        let before = modified_rows(db, current, k - 1);
        match current[k - 1] {
            Some(h) => if h@ != db.sidecars@[k - 1].hash@ {
                before.push(k - 1)
            } else {
                before
            },
            None => before,
        }
    }
}

/// The sidecars whose content changed: `current` holds, for each sidecar row
/// in index order, the hash of its file now (`None` where it could not be
/// read); a row whose current hash differs from the indexed one is modified.
pub fn find_modified_sidecars(db: &Database, root: &str, current: &Vec<Option<String>>) -> (r: Vec<
    ModifiedSidecar,
>)
    requires
        db.wf(),
        current@.len() == db.sidecars@.len(),
    ensures
        r@.len() == modified_rows(*db, current@, current@.len() as int).len(),
        forall|q: int|
            0 <= q < r@.len() ==> {
                let k = #[trigger] modified_rows(*db, current@, current@.len() as int)[q];
                let s = db.sidecars@[k];
                &&& 0 <= k < db.sidecars@.len()
                &&& r@[q].id == s.id
                &&& r@[q].media_id == s.media_id
                &&& r@[q].filename == s.filename
                &&& r@[q].old_hash == s.hash
                &&& current@[k] == Some(r@[q].new_hash)
                &&& r@[q].path@ == sidecar_path(*db, root@, s)
            },
{
    let root_c = chars_of(root);
    let mut out: Vec<ModifiedSidecar> = Vec::new();
    let mut i: usize = 0;
    while i < db.sidecars.len()
        invariant
            db.wf(),
            current@.len() == db.sidecars@.len(),
            i <= db.sidecars@.len(),
            root_c@ == root@,
            out@.len() == modified_rows(*db, current@, i as int).len(),
            forall|q: int|
                0 <= q < out@.len() ==> {
                    let k = #[trigger] modified_rows(*db, current@, i as int)[q];
                    let s = db.sidecars@[k];
                    &&& 0 <= k < i
                    &&& out@[q].id == s.id
                    &&& out@[q].media_id == s.media_id
                    &&& out@[q].filename == s.filename
                    &&& out@[q].old_hash == s.hash
                    &&& current@[k] == Some(out@[q].new_hash)
                    &&& out@[q].path@ == sidecar_path(*db, root@, s)
                },
        decreases db.sidecars@.len() - i,
    {
        if let Some(h) = &current[i] {
            let s = &db.sidecars[i];
            if !same_chars(&chars_of(h.as_str()), &chars_of(s.hash.as_str())) {
                let p = sidecar_path_of(db, &root_c, i);
                out.push(
                    ModifiedSidecar {
                        id: s.id,
                        media_id: s.media_id,
                        filename: s.filename.clone(),
                        old_hash: s.hash.clone(),
                        new_hash: h.clone(),
                        path: string_of(&p),
                    },
                );
            }
        }
        i = i + 1;
    }
    out
}

/// Whether a file path is one that the index tracks, as a media file or a sidecar.
pub open spec fn indexed_path(db: Database, root: Seq<char>, p: Seq<char>) -> bool {
    ||| exists|i: int| 0 <= i < db.media@.len() && media_path(root, db.media@[i]) == p
    ||| exists|i: int| 0 <= i < db.sidecars@.len() && sidecar_path(db, root, db.sidecars@[i]) == p
}

/// Whether a file found under the library's media folders is untracked: a
/// media file (by the extension table) that the index does not track, other
/// than the index file itself.
pub open spec fn untracked(db: Database, root: Seq<char>, p: Seq<char>) -> bool {
    &&& file_name_of(p) != "library.db"@
    &&& !indexed_path(db, root, p)
    &&& media_type_of(p) is Some
}

/// The untracked media files among `files`, the files found under the
/// library's `images` and `videos` folders, in their order.
pub fn find_new_files(db: &Database, root: &str, files: &Vec<String>) -> (r: Vec<String>)
    requires
        db.wf(),
    ensures
        r@.map_values(|s: String| s@) == files@.map_values(|s: String| s@).filter(
            |p: Seq<char>| untracked(*db, root@, p),
        ),
{
    let media_paths = media_paths(db, root);
    let sc_paths = sidecar_paths(db, root);
    let ghost pred = |p: Seq<char>| untracked(*db, root@, p);
    let ghost fv = files@.map_values(|s: String| s@);
    let mut out: Vec<String> = Vec::new();
    let mut i: usize = 0;
    while i < files.len()
        invariant
            db.wf(),
            i <= files@.len(),
            fv == files@.map_values(|s: String| s@),
            pred == (|p: Seq<char>| untracked(*db, root@, p)),
            media_paths@.len() == db.media@.len(),
            forall|k: int| 0 <= k < media_paths@.len() ==> (#[trigger] media_paths@[k])@ == media_path(root@, db.media@[k]),
            sc_paths@.len() == db.sidecars@.len(),
            forall|k: int| 0 <= k < sc_paths@.len() ==> (#[trigger] sc_paths@[k])@ == sidecar_path(*db, root@, db.sidecars@[k]),
            out@.map_values(|s: String| s@) == fv.subrange(0, i as int).filter(pred),
        decreases files@.len() - i,
    {
        proof {
            reveal(Seq::filter);
            assert(fv.subrange(0, i + 1).drop_last() =~= fv.subrange(0, i as int));
        }
        let f = chars_of(files[i].as_str());
        let (_dir, name) = split_path(&f);
        let is_index = equals_str(&name, "library.db");
        let known_media = listed_path(&media_paths, &f);
        let known_sc = listed_path(&sc_paths, &f);
        proof {
            if known_media {
                let j = choose|j: int| 0 <= j < media_paths@.len() && media_paths@[j]@ == f@;
                assert(media_path(root@, db.media@[j]) == f@);
            }
            if known_sc {
                let j = choose|j: int| 0 <= j < sc_paths@.len() && sc_paths@[j]@ == f@;
                assert(sidecar_path(*db, root@, db.sidecars@[j]) == f@);
            }
            if indexed_path(*db, root@, f@) {
                if exists|j: int| 0 <= j < db.media@.len() && media_path(root@, db.media@[j]) == f@ {
                    let j = choose|j: int| 0 <= j < db.media@.len() && media_path(root@, db.media@[j]) == f@;
                    assert(media_paths@[j]@ == f@);
                } else {
                    let j = choose|j: int| 0 <= j < db.sidecars@.len() && sidecar_path(*db, root@, db.sidecars@[j]) == f@;
                    assert(sc_paths@[j]@ == f@);
                }
            }
        }
        if !is_index && !known_media && !known_sc && detect_media_type(files[i].as_str()).is_some() {
            let ghost before = out@.map_values(|s: String| s@);
            out.push(files[i].clone());
            assert(out@.map_values(|s: String| s@) =~= before.push(f@));
        }
        i = i + 1;
    }
    assert(fv.subrange(0, i as int) =~= fv);
    out
}

/// The expected path of each media row, in index order.
pub fn media_paths(db: &Database, root: &str) -> (r: Vec<String>)
    ensures
        r@.len() == db.media@.len(),
        forall|k: int| 0 <= k < r@.len() ==> (#[trigger] r@[k])@ == media_path(root@, db.media@[k]),
{
    let root_c = chars_of(root);
    let mut out: Vec<String> = Vec::new();
    let mut k: usize = 0;
    while k < db.media.len()
        invariant
            root_c@ == root@,
            k <= db.media@.len(),
            out@.len() == k,
            forall|j: int| 0 <= j < k ==> (#[trigger] out@[j])@ == media_path(root@, db.media@[j]),
        decreases db.media@.len() - k,
    {
        let m = &db.media[k];
        out.push(string_of(&path_of(&root_c, &m.relpath, &m.filename)));
        k = k + 1;
    }
    out
}

} // verus!
