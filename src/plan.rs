use vstd::prelude::*;
use crate::capture::{destination_of, relpath_for, relpath_of};
use crate::commit::FileCopy;
use crate::database::Database;
use crate::digits::{push_chars, push_str};
use crate::import::{Dedup, SidecarMerge};
use crate::text::{chars_of, same_chars, string_of};

verus! {

/// `b` under directory `a`.
pub open spec fn join_path(a: Seq<char>, b: Seq<char>) -> Seq<char> {
    if a.len() == 0 {
        b
    } else if a.last() == '/' {
        a + b
    } else {
        a + "/"@ + b
    }
}

/// The folder of the media row with id `id`.
pub open spec fn relpath_by_id(db: Database, id: i64) -> Seq<char> {
    db.media@[choose|i: int| 0 <= i < db.media@.len() && db.media@[i].id == id].relpath@
}

/// The copies that the first `k` batch members ask for, as (source,
/// destination) pairs: each media file, then its sidecars beside it.
pub open spec fn batch_copies(root: Seq<char>, d: Dedup, k: int) -> Seq<(Seq<char>, Seq<char>)>
    decreases k,
{
    if k <= 0 {
        seq![]
    } else {
        let c = d.batch@[k - 1];
        let dir = relpath_of(c.media_type, c.created_at);
        batch_copies(root, d, k - 1).push(
            (c.source_path@, join_path(root, destination_of(c.media_type, c.created_at, c.filename@))),
        ) + c.sidecars@.map_values(
            |s: crate::import::SidecarCandidate|
                (s.source_path@, join_path(root, dir + "/"@ + s.filename@)),
        )
    }
}

/// The copies of the pending merges: each sidecar beside its media file.
pub open spec fn merge_copies(root: Seq<char>, db: Database, d: Dedup) -> Seq<(Seq<char>, Seq<char>)> {
    d.merges@.map_values(
        |m: SidecarMerge|
            (
                m.sidecar.source_path@,
                join_path(root, relpath_by_id(db, m.media_id) + "/"@ + m.sidecar.filename@),
            ),
    )
}

/// `s` keeping, of the entries with one destination, only the first.
pub open spec fn first_by_destination(s: Seq<(Seq<char>, Seq<char>)>) -> Seq<(Seq<char>, Seq<char>)>
    decreases s.len(),
{
    if s.len() == 0 {
        s
    } else {
        let before = first_by_destination(s.drop_last());
        if exists|j: int| 0 <= j < s.len() - 1 && s[j].1 == s.last().1 {
            before
        } else {
            before.push(s.last())
        }
    }
}

pub open spec fn copy_view(f: FileCopy) -> (Seq<char>, Seq<char>) {
    (f.source@, f.destination@)
}

/// `rel` under directory `root`.
pub fn join_chars(root: &Vec<char>, rel: &Vec<char>) -> (r: Vec<char>)
    ensures
        r@ == join_path(root@, rel@),
{
    let mut out: Vec<char> = Vec::new();
    push_chars(&mut out, root);
    if root.len() > 0 && root[root.len() - 1] != '/' {
        push_str(&mut out, "/");
    }
    push_chars(&mut out, rel);
    assert(out@ =~= join_path(root@, rel@));
    out
}

/// The copies that an import run makes, from the library root `root`: each
/// batch member's file to `{root}/{kind}/YYYY/MM-DD/{name}` with its sidecars
/// beside it, then each merged sidecar beside its media file. Of copies with
/// one destination only the first is made: a later one would overwrite it.
pub fn plan_copies(root: &str, db: &Database, d: &Dedup) -> (r: Vec<FileCopy>)
    requires
        db.wf(),
        forall|i: int| 0 <= i < d.merges@.len() ==> db.has_media_id(#[trigger] d.merges@[i].media_id),
    ensures
        r@.map_values(|f: FileCopy| copy_view(f)) == first_by_destination(
            batch_copies(root@, *d, d.batch@.len() as int) + merge_copies(root@, *db, *d),
        ),
{
    let root_c = chars_of(root);
    let mut raw: Vec<(Vec<char>, Vec<char>)> = Vec::new();
    let mut k: usize = 0;
    while k < d.batch.len()
        invariant
            k <= d.batch@.len(),
            root_c@ == root@,
            raw@.map_values(|p: (Vec<char>, Vec<char>)| (p.0@, p.1@)) == batch_copies(
                root@,
                *d,
                k as int,
            ),
        decreases d.batch@.len() - k,
    {
        let c = &d.batch[k];
        let dir = chars_of(relpath_for(c.media_type, &c.created_at).as_str());
        let mut dest = dir.clone();
        assert(dest@ == dir@);
        push_str(&mut dest, "/");
        push_str(&mut dest, c.filename.as_str());
        assert(dest@ =~= destination_of(c.media_type, c.created_at, c.filename@));
        let ghost before = raw@.map_values(|p: (Vec<char>, Vec<char>)| (p.0@, p.1@));
        raw.push((chars_of(c.source_path.as_str()), join_chars(&root_c, &dest)));
        let ghost mid = raw@.map_values(|p: (Vec<char>, Vec<char>)| (p.0@, p.1@));
        assert(mid =~= before.push(
            (c.source_path@, join_path(root@, destination_of(c.media_type, c.created_at, c.filename@))),
        ));
        let mut j: usize = 0;
        while j < c.sidecars.len()
            invariant
                k < d.batch@.len(),
                c == d.batch@[k as int],
                j <= c.sidecars@.len(),
                root_c@ == root@,
                dir@ == relpath_of(c.media_type, c.created_at),
                raw@.map_values(|p: (Vec<char>, Vec<char>)| (p.0@, p.1@)) == mid + c.sidecars@.subrange(
                    0,
                    j as int,
                ).map_values(
                    |s: crate::import::SidecarCandidate|
                        (s.source_path@, join_path(root@, dir@ + "/"@ + s.filename@)),
                ),
            decreases c.sidecars@.len() - j,
        {
            let s = &c.sidecars[j];
            let mut rel = dir.clone();
            assert(rel@ == dir@);
            push_str(&mut rel, "/");
            push_str(&mut rel, s.filename.as_str());
            assert(rel@ =~= dir@ + "/"@ + s.filename@);
            let ghost b2 = raw@.map_values(|p: (Vec<char>, Vec<char>)| (p.0@, p.1@));
            raw.push((chars_of(s.source_path.as_str()), join_chars(&root_c, &rel)));
            assert(raw@.map_values(|p: (Vec<char>, Vec<char>)| (p.0@, p.1@)) =~= b2.push(
                (s.source_path@, join_path(root@, dir@ + "/"@ + s.filename@)),
            ));
            assert(c.sidecars@.subrange(0, j + 1).map_values(
                |s: crate::import::SidecarCandidate|
                    (s.source_path@, join_path(root@, dir@ + "/"@ + s.filename@)),
            ) =~= c.sidecars@.subrange(0, j as int).map_values(
                |s: crate::import::SidecarCandidate|
                    (s.source_path@, join_path(root@, dir@ + "/"@ + s.filename@)),
            ).push((s.source_path@, join_path(root@, dir@ + "/"@ + s.filename@))));
            j = j + 1;
            assert(raw@.map_values(|p: (Vec<char>, Vec<char>)| (p.0@, p.1@)) =~= mid
                + c.sidecars@.subrange(0, j as int).map_values(
                |s: crate::import::SidecarCandidate|
                    (s.source_path@, join_path(root@, dir@ + "/"@ + s.filename@)),
            ));
        }
        assert(c.sidecars@.subrange(0, j as int) =~= c.sidecars@);
        k = k + 1;
    }
    let ghost nb = raw@.len();
    let mut q: usize = 0;
    while q < d.merges.len()
        invariant
            db.wf(),
            forall|i: int|
                0 <= i < d.merges@.len() ==> db.has_media_id(#[trigger] d.merges@[i].media_id),
            q <= d.merges@.len(),
            root_c@ == root@,
            raw@.map_values(|p: (Vec<char>, Vec<char>)| (p.0@, p.1@)) == batch_copies(
                root@,
                *d,
                d.batch@.len() as int,
            ) + merge_copies(root@, *db, *d).subrange(0, q as int),
        decreases d.merges@.len() - q,
    {
        let m = &d.merges[q];
        let mut rel = chars_of(db.media[media_index(db, m.media_id)].relpath.as_str());
        push_str(&mut rel, "/");
        push_str(&mut rel, m.sidecar.filename.as_str());
        assert(rel@ =~= relpath_by_id(*db, m.media_id) + "/"@ + m.sidecar.filename@);
        let ghost b2 = raw@.map_values(|p: (Vec<char>, Vec<char>)| (p.0@, p.1@));
        raw.push((chars_of(m.sidecar.source_path.as_str()), join_chars(&root_c, &rel)));
        assert(raw@.map_values(|p: (Vec<char>, Vec<char>)| (p.0@, p.1@)) =~= b2.push(
            merge_copies(root@, *db, *d)[q as int],
        ));
        q = q + 1;
        assert(raw@.map_values(|p: (Vec<char>, Vec<char>)| (p.0@, p.1@)) =~= batch_copies(
            root@,
            *d,
            d.batch@.len() as int,
        ) + merge_copies(root@, *db, *d).subrange(0, q as int));
    }
    assert(merge_copies(root@, *db, *d).subrange(0, q as int) =~= merge_copies(root@, *db, *d));
    keep_first_destinations(&raw)
}

/// The position of the media row with id `id`.
pub fn media_index(db: &Database, id: i64) -> (r: usize)
    requires
        db.wf(),
        db.has_media_id(id),
    ensures
        r < db.media@.len(),
        db.media@[r as int].id == id,
        db.media@[r as int].relpath@ == relpath_by_id(*db, id),
{
    let mut i: usize = 0;
    while i < db.media.len()
        invariant
            i <= db.media@.len(),
            forall|j: int| 0 <= j < i ==> db.media@[j].id != id,
            db.has_media_id(id),
            db.wf(),
        decreases db.media@.len() - i,
    {
        if db.media[i].id == id {
            proof {
                let w = choose|w: int| 0 <= w < db.media@.len() && db.media@[w].id == id;
                if w != i {
                    if w < i {
                        assert(db.media@[w].id != db.media@[i as int].id);
                    } else {
                        assert(db.media@[i as int].id != db.media@[w].id);
                    }
                }
            }
            return i;
        }
        i = i + 1;
    }
    proof {
        let w = choose|w: int| 0 <= w < db.media@.len() && db.media@[w].id == id;
        assert(db.media@[w].id == id);
    }
    0
}

fn keep_first_destinations(raw: &Vec<(Vec<char>, Vec<char>)>) -> (r: Vec<FileCopy>)
    ensures
        r@.map_values(|f: FileCopy| copy_view(f)) == first_by_destination(
            raw@.map_values(|p: (Vec<char>, Vec<char>)| (p.0@, p.1@)),
        ),
{
    let ghost v = raw@.map_values(|p: (Vec<char>, Vec<char>)| (p.0@, p.1@));
    let mut out: Vec<FileCopy> = Vec::new();
    let mut i: usize = 0;
    while i < raw.len()
        invariant
            i <= raw@.len(),
            v == raw@.map_values(|p: (Vec<char>, Vec<char>)| (p.0@, p.1@)),
            out@.map_values(|f: FileCopy| copy_view(f)) == first_by_destination(
                v.subrange(0, i as int),
            ),
        decreases raw@.len() - i,
    {
        let mut seen = false;
        let mut j: usize = 0;
        while j < i
            invariant
                j <= i < raw@.len(),
                v == raw@.map_values(|p: (Vec<char>, Vec<char>)| (p.0@, p.1@)),
                seen == exists|t: int| 0 <= t < j && v[t].1 == v[i as int].1,
            decreases i - j,
        {
            assert(v[j as int] == (raw@[j as int].0@, raw@[j as int].1@));
            assert(v[i as int] == (raw@[i as int].0@, raw@[i as int].1@));
            if !seen && same_chars(&raw[j].1, &raw[i].1) {
                seen = true;
            }
            j = j + 1;
        }
        let ghost pre = v.subrange(0, i as int + 1);
        assert(pre.drop_last() =~= v.subrange(0, i as int));
        assert(pre.last() == v[i as int]);
        assert((exists|t: int| 0 <= t < pre.len() - 1 && pre[t].1 == pre.last().1) == seen) by {
            if seen {
                let t = choose|t: int| 0 <= t < i && v[t].1 == v[i as int].1;
                assert(pre[t] == v[t]);
            }
            if exists|t: int| 0 <= t < pre.len() - 1 && pre[t].1 == pre.last().1 {
                let t = choose|t: int| 0 <= t < pre.len() - 1 && pre[t].1 == pre.last().1;
                assert(pre[t] == v[t]);
            }
        }
        if !seen {
            let ghost before = out@.map_values(|f: FileCopy| copy_view(f));
            out.push(FileCopy { source: string_of(&raw[i].0), destination: string_of(&raw[i].1) });
            assert(out@.map_values(|f: FileCopy| copy_view(f)) =~= before.push(v[i as int]));
        }
        i = i + 1;
    }
    assert(v.subrange(0, i as int) =~= v);
    out
}

} // verus!
