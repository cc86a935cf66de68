use vstd::prelude::*;
use crate::commit::{committed, lemma_sidecars_before_mono, lemma_sidecars_before_nonneg, sidecar_row_of, sidecars_before, media_row_of};
use crate::database::Database;
use crate::import::{new_sidecars, Dedup, SidecarCandidate};

verus! {

/// Content hashes are unique in a well-formed index: no two media rows share
/// one. Two files of one content that the operator chose to keep both are
/// told apart by the second one's disambiguated identity (`alt_hash`).
pub proof fn lemma_hash_unique(db: Database, i: int, j: int)
    requires
        db.wf(),
        0 <= i < db.media@.len(),
        0 <= j < db.media@.len(),
        i != j,
    ensures
        db.media@[i].hash@ != db.media@[j].hash@,
{
    if i > j {
        assert(db.media@[j].hash@ != db.media@[i].hash@);
    }
}

/// Importing again what an import committed adds nothing: each committed
/// candidate's content is in the index, and none of its sidecars is new to
/// the media item that holds it, so offering it again only counts a duplicate.
pub proof fn lemma_reimport_adds_nothing(
    old: Database,
    new: Database,
    d: Dedup,
    imported_at: Seq<char>,
    k: int,
)
    requires
        old.wf(),
        d.wf(old),
        committed(old, new, d, imported_at),
        0 <= k < d.batch@.len(),
    ensures
        new.has_hash(d.batch@[k].hash@),
        ({
            let id = (old.next_media_id + k) as i64;
            &&& exists|i: int|
                0 <= i < new.media@.len() && new.media@[i].hash@ == d.batch@[k].hash@
                    && new.media@[i].id == id
            &&& new_sidecars(new, seq![], id, d.batch@[k]).len() == 0
        }),
{
    let b = d.batch@;
    let c = b[k];
    let id = (old.next_media_id + k) as i64;
    let m0 = old.media@.len() as int;
    let s0 = old.sidecars@.len() as int;
    assert(media_row_of(new.media@[m0 + k], c, id, imported_at));
    assert(new.media@[m0 + k].hash@ == c.hash@);
    let pred = |s: SidecarCandidate| !new.has_sidecar(id, s.filename@) && !crate::import::merge_has(
        seq![],
        id,
        s.filename@,
    );
    let f = c.sidecars@.filter(pred);
    if f.len() > 0 {
        c.sidecars@.lemma_filter_pred(pred, 0);
        assert(f.contains(f[0]));
        c.sidecars@.lemma_filter_contains_rev(pred, f[0]);
        let j = choose|j: int| 0 <= j < c.sidecars@.len() && c.sidecars@[j] == f[0];
        lemma_sidecars_before_mono(b, k, b.len() as int);
        lemma_sidecars_before_nonneg(b, k);
        let p = s0 + sidecars_before(b, k) + j;
        assert(sidecar_row_of(
            new.sidecars@[p],
            c.sidecars@[j],
            id,
            (old.next_sidecar_id + sidecars_before(b, k) + j) as i64,
        ));
        assert(new.has_sidecar(id, f[0].filename@));
    }
}

/// Committing a run with an empty batch and nothing to merge leaves the
/// index's rows as they were.
pub proof fn lemma_empty_commit(old: Database, new: Database, d: Dedup, imported_at: Seq<char>)
    requires
        committed(old, new, d, imported_at),
        d.batch@.len() == 0,
        d.merges@.len() == 0,
    ensures
        new.media@ == old.media@,
        new.sidecars@ == old.sidecars@,
{
    assert(new.media@ =~= new.media@.subrange(0, old.media@.len() as int));
    assert(new.sidecars@ =~= new.sidecars@.subrange(0, old.sidecars@.len() as int));
}

} // verus!
