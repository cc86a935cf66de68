use vstd::prelude::*;
use crate::capture::CaptureTime;
use crate::database::{Database, ExifMetadata};
use crate::media::MediaType;
use crate::text::{chars_of, same_chars, string_of};
use crate::digits::push_str;

verus! {

/// A sidecar file found beside a media file in the source tree.
#[derive(Debug)]
pub struct SidecarCandidate {
    pub source_path: String,
    pub filename: String,
    pub filetype: String,
    pub file_size: u64,
    pub hash: String,
    pub modified_at: String,
}

/// A media file found in the source tree, with what was computed of it,
/// waiting for the decision whether it enters the library.
#[derive(Debug)]
pub struct ImportCandidate {
    pub source_path: String,
    pub hash: String,
    pub media_type: MediaType,
    pub file_size: u64,
    pub created_at: CaptureTime,
    pub filename: String,
    pub filetype: String,
    pub sidecars: Vec<SidecarCandidate>,
    pub exif: ExifMetadata,
}

impl ImportCandidate {
    /// The capture time is in range and no two sidecars share a file name.
    pub open spec fn wf(&self) -> bool {
        &&& self.created_at.wf()
        &&& forall|i: int, j: int|
            0 <= i < j < self.sidecars@.len() ==> self.sidecars@[i].filename@
                != self.sidecars@[j].filename@
    }

    /// Whether the candidate has the shape that the import engine takes.
    pub fn check(&self) -> (r: bool)
        ensures
            r == self.wf(),
    {
        let t = &self.created_at;
        if !(t.year <= 9999 && 1 <= t.month && t.month <= 12 && 1 <= t.day && t.day <= 31 && t.hour
            < 24 && t.minute < 60 && t.second < 60 && t.nanosecond < 1000000000 && -1560
            < t.offset_minutes && t.offset_minutes < 1560) {
            return false;
        }
        let n = self.sidecars.len();
        let mut i: usize = 0;
        while i < n
            invariant
                n == self.sidecars@.len(),
                self.created_at.wf(),
                i <= n,
                forall|a: int, b: int|
                    0 <= a < b < n && a < i ==> self.sidecars@[a].filename@
                        != self.sidecars@[b].filename@,
            decreases n - i,
        {
            let a = chars_of(self.sidecars[i].filename.as_str());
            let mut j: usize = i + 1;
            while j < n
                invariant
                    n == self.sidecars@.len(),
                    i < j <= n,
                    a@ == self.sidecars@[i as int].filename@,
                    forall|b: int| i < b < j ==> self.sidecars@[i as int].filename@
                        != self.sidecars@[b].filename@,
                decreases n - j,
            {
                let b = chars_of(self.sidecars[j].filename.as_str());
                if same_chars(&a, &b) {
                    return false;
                }
                j = j + 1;
            }
            i = i + 1;
        }
        true
    }
}

/// The operator's answer when two files of one content both carry sidecars.
#[derive(Debug, Clone, Copy, PartialEq, Eq, Structural)]
pub enum Choice {
    KeepFirst,
    KeepSecond,
    KeepBoth,
}

/// What became of a candidate offered to the engine.
#[derive(Debug, Clone, Copy, PartialEq, Eq, Structural)]
pub enum Offered {
    /// Its content is already in the library; sidecars new to that media item
    /// were set aside to be added to it.
    InLibrary,
    /// It entered the batch.
    Added,
    /// It took the place of the batch member of its content.
    Replaced,
    /// It entered the batch beside the member of its content, under a
    /// disambiguating identity.
    KeptBoth,
    /// It was discarded as a duplicate.
    Skipped,
}

/// A sidecar to be added to a media item that the library already holds.
#[derive(Debug)]
pub struct SidecarMerge {
    pub media_id: i64,
    pub sidecar: SidecarCandidate,
}

/// The state of deduplication over one import run: the batch of candidates
/// that will become media items, the sidecars to add to existing items, and
/// the count of discarded duplicates.
#[derive(Debug)]
pub struct Dedup {
    pub batch: Vec<ImportCandidate>,
    pub merges: Vec<SidecarMerge>,
    pub duplicates_skipped: usize,
}

/// The identity under which the second of two kept files of one content is
/// imported: its content hash with the suffix `-alt`.
pub open spec fn alt_hash(h: Seq<char>) -> Seq<char> {
    h + "-alt"@
}

/// Whether the batch holds a candidate with hash `h`.
pub open spec fn batch_has(b: Seq<ImportCandidate>, h: Seq<char>) -> bool {
    exists|i: int| 0 <= i < b.len() && b[i].hash@ == h
}

/// Whether a pending merge adds a sidecar named `name` to media item `id`.
pub open spec fn merge_has(m: Seq<SidecarMerge>, id: i64, name: Seq<char>) -> bool {
    exists|i: int| 0 <= i < m.len() && m[i].media_id == id && m[i].sidecar.filename@ == name
}

/// `b` is `a` under another content hash.
pub open spec fn same_but_hash(a: ImportCandidate, b: ImportCandidate) -> bool {
    &&& a.source_path == b.source_path
    &&& a.media_type == b.media_type
    &&& a.file_size == b.file_size
    &&& a.created_at == b.created_at
    &&& a.filename == b.filename
    &&& a.filetype == b.filetype
    &&& a.sidecars == b.sidecars
    &&& a.exif == b.exif
}

/// The sidecars of `c` that would be new to media item `id`: neither indexed
/// for it nor already set aside for it.
pub open spec fn new_sidecars(db: Database, m: Seq<SidecarMerge>, id: i64, c: ImportCandidate) -> Seq<
    SidecarCandidate,
> {
    c.sidecars@.filter(
        |s: SidecarCandidate| !db.has_sidecar(id, s.filename@) && !merge_has(m, id, s.filename@),
    )
}

impl Dedup {
    /// The batch's hashes are unique and new to the index, its candidates are
    /// well formed, and each pending merge adds a sidecar name new to an
    /// indexed media item, no two of them the same.
    pub open spec fn wf(&self, db: Database) -> bool {
        &&& forall|i: int| 0 <= i < self.batch@.len() ==> (#[trigger] self.batch@[i]).wf()
        &&& forall|i: int|
            0 <= i < self.batch@.len() ==> !db.has_hash(#[trigger] self.batch@[i].hash@)
        &&& forall|i: int, j: int|
            0 <= i < j < self.batch@.len() ==> self.batch@[i].hash@ != self.batch@[j].hash@
        &&& forall|i: int|
            0 <= i < self.merges@.len() ==> db.has_media_id(#[trigger] self.merges@[i].media_id)
                && !db.has_sidecar(self.merges@[i].media_id, self.merges@[i].sidecar.filename@)
        &&& forall|i: int, j: int|
            0 <= i < j < self.merges@.len() ==> self.merges@[i].media_id
                != self.merges@[j].media_id || self.merges@[i].sidecar.filename@
                != self.merges@[j].sidecar.filename@
    }

    /// An engine with nothing offered yet.
    pub fn new() -> (r: Dedup)
        ensures
            r.batch@.len() == 0,
            r.merges@.len() == 0,
            r.duplicates_skipped == 0,
    {
        Dedup { batch: Vec::new(), merges: Vec::new(), duplicates_skipped: 0 }
    }

    /// The position in the batch of the candidate with hash `hash`.
    pub fn find(&self, hash: &str) -> (r: Option<usize>)
        ensures
            match r {
                Some(i) => i < self.batch@.len() && self.batch@[i as int].hash@ == hash@,
                None => !batch_has(self.batch@, hash@),
            },
    {
        let h = chars_of(hash);
        let mut i: usize = 0;
        while i < self.batch.len()
            invariant
                i <= self.batch@.len(),
                h@ == hash@,
                forall|j: int| 0 <= j < i ==> self.batch@[j].hash@ != hash@,
            decreases self.batch@.len() - i,
        {
            let c = chars_of(self.batch[i].hash.as_str());
            if same_chars(&c, &h) {
                return Some(i);
            }
            i = i + 1;
        }
        None
    }

    /// Whether one of the first `n` pending merges adds `name` to item `id`.
    fn merged_before(&self, n: usize, id: i64, name: &Vec<char>) -> (r: bool)
        requires
            n <= self.merges@.len(),
        ensures
            r == merge_has(self.merges@.subrange(0, n as int), id, name@),
    {
        let mut i: usize = 0;
        while i < n
            invariant
                i <= n <= self.merges@.len(),
                forall|j: int|
                    0 <= j < i ==> !(self.merges@[j].media_id == id
                        && self.merges@[j].sidecar.filename@ == name@),
            decreases n - i,
        {
            if self.merges[i].media_id == id {
                let c = chars_of(self.merges[i].sidecar.filename.as_str());
                if same_chars(&c, name) {
                    assert(self.merges@.subrange(0, n as int)[i as int] == self.merges@[i as int]);
                    return true;
                }
            }
            i = i + 1;
        }
        assert forall|j: int| 0 <= j < n implies !(#[trigger] self.merges@.subrange(
            0,
            n as int,
        )[j].media_id == id && self.merges@.subrange(0, n as int)[j].sidecar.filename@
            == name@) by {
            assert(self.merges@.subrange(0, n as int)[j] == self.merges@[j]);
        }
        false
    }

    /// Sets aside the sidecars of `c` that are new to media item `id`.
    fn merge_new(&mut self, db: &Database, id: i64, c: ImportCandidate)
        requires
            old(self).wf(*db),
            db.has_media_id(id),
            c.wf(),
        ensures
            final(self).wf(*db),
            final(self).batch == old(self).batch,
            final(self).duplicates_skipped == old(self).duplicates_skipped,
            final(self).merges@ == old(self).merges@ + new_sidecars(
                *db,
                old(self).merges@,
                id,
                c,
            ).map_values(|s: SidecarCandidate| SidecarMerge { media_id: id, sidecar: s }),
    {
        let ghost old_merges = self.merges@;
        let ghost pred = |s: SidecarCandidate|
            !db.has_sidecar(id, s.filename@) && !merge_has(old_merges, id, s.filename@);
        let ghost f = |s: SidecarCandidate| SidecarMerge { media_id: id, sidecar: s };
        let ghost all = c.sidecars@;
        let n0 = self.merges.len();
        let mut rest = c.sidecars;
        let n = rest.len();
        let mut i: usize = 0;
        let ghost mut pos: Seq<int> = seq![];
        assert(old_merges.subrange(0, n0 as int) =~= old_merges);
        assert(self.merges@ =~= old_merges + all.subrange(0, 0).filter(pred).map_values(f)) by {
            reveal(Seq::filter);
        }
        while i < n
            invariant
                old(self).wf(*db),
                db.has_media_id(id),
                c.wf(),
                all == c.sidecars@,
                n == all.len(),
                i <= n,
                n0 == old_merges.len(),
                old_merges == old(self).merges@,
                self.batch == old(self).batch,
                self.duplicates_skipped == old(self).duplicates_skipped,
                rest@ == all.subrange(i as int, n as int),
                self.merges@.subrange(0, n0 as int) == old_merges,
                self.merges@ == old_merges + all.subrange(0, i as int).filter(pred).map_values(f),
                pred == (|s: SidecarCandidate|
                    !db.has_sidecar(id, s.filename@) && !merge_has(old_merges, id, s.filename@)),
                f == (|s: SidecarCandidate| SidecarMerge { media_id: id, sidecar: s }),
                pos.len() + n0 == self.merges@.len(),
                forall|k: int|
                    0 <= k < pos.len() ==> 0 <= #[trigger] pos[k] < i && self.merges@[n0 + k]
                        == f(all[pos[k]]) && pred(all[pos[k]]),
                forall|k: int, l: int| 0 <= k < l < pos.len() ==> pos[k] < pos[l],
            decreases n - i,
        {
            let s = rest.remove(0);
            assert(s == all[i as int]);
            proof {
                reveal(Seq::filter);
                assert(all.subrange(0, i + 1).drop_last() =~= all.subrange(0, i as int));
                assert(all.subrange(0, i + 1).last() == all[i as int]);
            }
            let name = chars_of(s.filename.as_str());
            let fresh = !db.sidecar_exists(id, &name) && !self.merged_before(n0, id, &name);
            proof {
                assert(self.merges@.subrange(0, n0 as int) == old_merges);
            }
            if fresh {
                let ghost before = self.merges@;
                self.merges.push(SidecarMerge { media_id: id, sidecar: s });
                proof {
                    let p = all.subrange(0, i as int).filter(pred);
                    assert(p.push(all[i as int]).map_values(f) =~= p.map_values(f).push(
                        f(all[i as int]),
                    ));
                    assert(self.merges@ =~= old_merges + all.subrange(0, i + 1).filter(
                        pred,
                    ).map_values(f));
                    pos = pos.push(i as int);
                    assert(self.merges@.subrange(0, n0 as int) =~= before.subrange(0, n0 as int));
                    assert forall|k: int|
                        0 <= k < pos.len() implies 0 <= #[trigger] pos[k] < i + 1 && self.merges@[n0
                            + k] == f(all[pos[k]]) && pred(all[pos[k]]) by {
                        if k < pos.len() - 1 {
                            assert(self.merges@[n0 + k] == before[n0 + k]);
                        }
                    }
                }
            } else {
                proof {
                    assert(self.merges@ =~= old_merges + all.subrange(0, i + 1).filter(
                        pred,
                    ).map_values(f));
                }
            }
            i = i + 1;
        }
        proof {
            assert(all.subrange(0, n as int) =~= all);
            assert forall|a: int, b: int|
                0 <= a < b < self.merges@.len() implies self.merges@[a].media_id
                != self.merges@[b].media_id || self.merges@[a].sidecar.filename@
                != self.merges@[b].sidecar.filename@ by {
                if b >= n0 {
                    if a >= n0 {
                        assert(pos[a - n0] < pos[b - n0]);
                    } else {
                        assert(self.merges@[a] == old_merges[a]);
                        assert(pred(all[pos[b - n0]]));
                        if self.merges@[a].media_id == id {
                            assert(!(old_merges[a].sidecar.filename@ == all[pos[b
                                - n0]].filename@));
                        }
                    }
                } else {
                    assert(self.merges@[a] == old_merges[a]);
                    assert(self.merges@[b] == old_merges[b]);
                }
            }
            assert forall|k: int| 0 <= k < self.merges@.len() implies db.has_media_id(
                #[trigger] self.merges@[k].media_id,
            ) && !db.has_sidecar(self.merges@[k].media_id, self.merges@[k].sidecar.filename@) by {
                if k >= n0 {
                    assert(pred(all[pos[k - n0]]));
                } else {
                    assert(self.merges@[k] == old_merges[k]);
                }
            }
        }
    }

    /// Offers one candidate. A candidate whose content the index already holds
    /// is a duplicate: only its sidecars new to that item are set aside. One
    /// whose content no batch member has joins the batch. Against the batch
    /// member of its content: when both carry sidecars, the operator's `choice`
    /// decides (without one, the candidate comes back in `Err` and nothing
    /// changes); otherwise the one with sidecars stays (the earlier one when
    /// neither has any) and the other is a discarded duplicate.
    pub fn offer(&mut self, db: &Database, c: ImportCandidate, choice: Option<Choice>) -> (r: Result<
        Offered,
        ImportCandidate,
    >)
        requires
            old(self).wf(*db),
            c.wf(),
            old(self).duplicates_skipped < usize::MAX,
        ensures
            final(self).wf(*db),
            ({
                let b = old(self).batch@;
                let h = c.hash@;
                let dup = old(self).duplicates_skipped;
                if db.has_hash(h) {
                    &&& r == Ok::<Offered, ImportCandidate>(Offered::InLibrary)
                    &&& final(self).batch == old(self).batch
                    &&& final(self).duplicates_skipped == dup + 1
                    &&& exists|i: int|
                        0 <= i < db.media@.len() && db.media@[i].hash@ == h
                            && final(self).merges@ == old(self).merges@ + new_sidecars(
                            *db,
                            old(self).merges@,
                            db.media@[i].id,
                            c,
                        ).map_values(
                            |s: SidecarCandidate| SidecarMerge { media_id: db.media@[i].id, sidecar: s },
                        )
                } else if !batch_has(b, h) {
                    &&& r == Ok::<Offered, ImportCandidate>(Offered::Added)
                    &&& final(self).batch@ == b.push(c)
                    &&& final(self).merges == old(self).merges
                    &&& final(self).duplicates_skipped == dup
                } else {
                    let k = choose|k: int| 0 <= k < b.len() && b[k].hash@ == h;
                    let first_has = b[k].sidecars@.len() > 0;
                    let second_has = c.sidecars@.len() > 0;
                    &&& final(self).merges == old(self).merges
                    &&& if first_has && second_has {
                        match choice {
                            None => {
                                &&& r == Err::<Offered, ImportCandidate>(c)
                                &&& final(self).batch == old(self).batch
                                &&& final(self).duplicates_skipped == dup
                            },
                            Some(Choice::KeepFirst) => {
                                &&& r == Ok::<Offered, ImportCandidate>(Offered::Skipped)
                                &&& final(self).batch == old(self).batch
                                &&& final(self).duplicates_skipped == dup + 1
                            },
                            Some(Choice::KeepSecond) => {
                                &&& r == Ok::<Offered, ImportCandidate>(Offered::Replaced)
                                &&& final(self).batch@ == b.update(k, c)
                                &&& final(self).duplicates_skipped == dup + 1
                            },
                            Some(Choice::KeepBoth) => {
                                if db.has_hash(alt_hash(h)) {
                                    &&& r == Ok::<Offered, ImportCandidate>(Offered::Skipped)
                                    &&& final(self).batch == old(self).batch
                                    &&& final(self).duplicates_skipped == dup + 1
                                } else {
                                    &&& r == Ok::<Offered, ImportCandidate>(Offered::KeptBoth)
                                    &&& final(self).duplicates_skipped == dup
                                    &&& if batch_has(b, alt_hash(h)) {
                                        let m = choose|m: int|
                                            0 <= m < b.len() && b[m].hash@ == alt_hash(h);
                                        &&& final(self).batch@.len() == b.len()
                                        &&& final(self).batch@ == b.update(m, final(self).batch@[m])
                                        &&& final(self).batch@[m].hash@ == alt_hash(h)
                                        &&& same_but_hash(final(self).batch@[m], c)
                                    } else {
                                        &&& final(self).batch@.len() == b.len() + 1
                                        &&& final(self).batch@.drop_last() == b
                                        &&& final(self).batch@.last().hash@ == alt_hash(h)
                                        &&& same_but_hash(final(self).batch@.last(), c)
                                    }
                                }
                            },
                        }
                    } else if !second_has {
                        &&& r == Ok::<Offered, ImportCandidate>(Offered::Skipped)
                        &&& final(self).batch == old(self).batch
                        &&& final(self).duplicates_skipped == dup + 1
                    } else {
                        &&& r == Ok::<Offered, ImportCandidate>(Offered::Replaced)
                        &&& final(self).batch@ == b.update(k, c)
                        &&& final(self).duplicates_skipped == dup + 1
                    }
                }
            }),
    {
        let ghost b = self.batch@;
        let ghost h = c.hash@;
        if let Some(i) = db.find_hash(c.hash.as_str()) {
            let id = db.media[i].id;
            proof {
                assert(db.has_media_id(id));
            }
            self.merge_new(db, id, c);
            self.duplicates_skipped = self.duplicates_skipped + 1;
            return Ok(Offered::InLibrary);
        }
        let k = match self.find(c.hash.as_str()) {
            Some(k) => k,
            None => {
                self.batch.push(c);
                proof {
                    assert forall|i: int, j: int|
                        0 <= i < j < self.batch@.len() implies self.batch@[i].hash@
                        != self.batch@[j].hash@ by {
                        if j == self.batch@.len() - 1 {
                            assert(self.batch@[i] == b[i]);
                        }
                    }
                }
                return Ok(Offered::Added);
            },
        };
        proof {
            assert forall|k2: int| 0 <= k2 < b.len() && b[k2].hash@ == h implies k2 == k by {
                if k2 != k {
                    if k2 < k {
                        assert(b[k2].hash@ != b[k as int].hash@);
                    } else {
                        assert(b[k as int].hash@ != b[k2].hash@);
                    }
                }
            }
        }
        let first_has = self.batch[k].sidecars.len() > 0;
        let second_has = c.sidecars.len() > 0;
        if first_has && second_has {
            match choice {
                None => Err(c),
                Some(Choice::KeepFirst) => {
                    self.duplicates_skipped = self.duplicates_skipped + 1;
                    Ok(Offered::Skipped)
                },
                Some(Choice::KeepSecond) => {
                    self.batch.set(k, c);
                    self.duplicates_skipped = self.duplicates_skipped + 1;
                    proof {
                        self.lemma_update_keeps_hashes(*db, b, k as int);
                    }
                    Ok(Offered::Replaced)
                },
                Some(Choice::KeepBoth) => {
                    let mut alt = chars_of(c.hash.as_str());
                    push_str(&mut alt, "-alt");
                    let alt_s = string_of(&alt);
                    if db.hash_exists(alt_s.as_str()) {
                        self.duplicates_skipped = self.duplicates_skipped + 1;
                        return Ok(Offered::Skipped);
                    }
                    let mut c2 = c;
                    c2.hash = alt_s;
                    assert(c2.wf());
                    match self.find(c2.hash.as_str()) {
                        Some(m) => {
                            self.batch.set(m, c2);
                            proof {
                                assert forall|m2: int|
                                    0 <= m2 < b.len() && b[m2].hash@ == alt_hash(h) implies m2
                                    == m by {
                                    if m2 != m {
                                        if m2 < m {
                                            assert(b[m2].hash@ != b[m as int].hash@);
                                        } else {
                                            assert(b[m as int].hash@ != b[m2].hash@);
                                        }
                                    }
                                }
                                self.lemma_update_keeps_hashes(*db, b, m as int);
                                assert(self.batch@ =~= b.update(m as int, self.batch@[m as int]));
                            }
                        },
                        None => {
                            self.batch.push(c2);
                            proof {
                                assert(self.batch@.drop_last() =~= b);
                                assert forall|i: int, j: int|
                                    0 <= i < j < self.batch@.len() implies self.batch@[i].hash@
                                    != self.batch@[j].hash@ by {
                                    if j == self.batch@.len() - 1 {
                                        assert(self.batch@[i] == b[i]);
                                    }
                                }
                            }
                        },
                    }
                    Ok(Offered::KeptBoth)
                },
            }
        } else if !second_has {
            self.duplicates_skipped = self.duplicates_skipped + 1;
            Ok(Offered::Skipped)
        } else {
            self.batch.set(k, c);
            self.duplicates_skipped = self.duplicates_skipped + 1;
            proof {
                self.lemma_update_keeps_hashes(*db, b, k as int);
            }
            Ok(Offered::Replaced)
        }
    }

    /// Putting a well-formed candidate of the same hash, or of a hash new to
    /// the index and the rest of the batch, at one position keeps the batch's
    /// hashes unique.
    proof fn lemma_update_keeps_hashes(&self, db: Database, b: Seq<ImportCandidate>, k: int)
        requires
            0 <= k < b.len(),
            self.batch@.len() == b.len(),
            forall|i: int| 0 <= i < b.len() && i != k ==> self.batch@[i] == b[i],
            self.batch@[k].hash@ == b[k].hash@,
            self.batch@[k].wf(),
            forall|i: int| 0 <= i < b.len() ==> (#[trigger] b[i]).wf(),
            forall|i: int| 0 <= i < b.len() ==> !db.has_hash(#[trigger] b[i].hash@),
            forall|i: int, j: int| 0 <= i < j < b.len() ==> b[i].hash@ != b[j].hash@,
        ensures
            forall|i: int| 0 <= i < self.batch@.len() ==> (#[trigger] self.batch@[i]).wf(),
            forall|i: int|
                0 <= i < self.batch@.len() ==> !db.has_hash(#[trigger] self.batch@[i].hash@),
            forall|i: int, j: int|
                0 <= i < j < self.batch@.len() ==> self.batch@[i].hash@ != self.batch@[j].hash@,
    {
        assert forall|i: int| 0 <= i < self.batch@.len() implies (#[trigger] self.batch@[i]).wf() by {
            if i != k {
                assert(b[i].wf());
            }
        }
        assert forall|i: int| 0 <= i < self.batch@.len() implies !db.has_hash(
            #[trigger] self.batch@[i].hash@,
        ) by {
            assert(!db.has_hash(b[i].hash@));
        }
        assert forall|i: int, j: int|
            0 <= i < j < self.batch@.len() implies self.batch@[i].hash@ != self.batch@[j].hash@ by {
            assert(b[i].hash@ != b[j].hash@);
        }
    }
}

} // verus!
