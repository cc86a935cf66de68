use vstd::prelude::*;
use crate::capture::{relpath_for, relpath_of, CaptureTime};
use crate::database::{Database, MediaRecord, SidecarRecord};
use crate::error::{CopyFailure, CopyFailures, PhotosortError};
use crate::import::{Dedup, ImportCandidate, SidecarCandidate};
use crate::media::MediaType;
use crate::digits::{decimal, decimal_of, push_chars, push_str};
use crate::text::string_of;

verus! {

/// Counts of what an import run did.
#[derive(Debug, Clone, Copy, PartialEq, Eq, Structural)]
pub struct ImportStats {
    pub images_imported: usize,
    pub videos_imported: usize,
    pub sidecars_imported: usize,
    pub duplicates_skipped: usize,
    pub errors: usize,
}

impl ImportStats {
    /// The one-line report of a run: "I images, V videos, S sidecars
    /// imported (D duplicates skipped)".
    pub fn describe(&self) -> (r: String)
        ensures
            r@ == decimal(self.images_imported as nat) + " images, "@ + decimal(
                self.videos_imported as nat,
            ) + " videos, "@ + decimal(self.sidecars_imported as nat) + " sidecars imported ("@
                + decimal(self.duplicates_skipped as nat) + " duplicates skipped)"@,
    {
        let mut out = decimal_of(self.images_imported as u64);
        push_str(&mut out, " images, ");
        push_chars(&mut out, &decimal_of(self.videos_imported as u64));
        push_str(&mut out, " videos, ");
        push_chars(&mut out, &decimal_of(self.sidecars_imported as u64));
        push_str(&mut out, " sidecars imported (");
        push_chars(&mut out, &decimal_of(self.duplicates_skipped as u64));
        push_str(&mut out, " duplicates skipped)");
        assert(out@ =~= decimal(self.images_imported as nat) + " images, "@ + decimal(
            self.videos_imported as nat,
        ) + " videos, "@ + decimal(self.sidecars_imported as nat) + " sidecars imported ("@
            + decimal(self.duplicates_skipped as nat) + " duplicates skipped)"@);
        string_of(&out)
    }
}

/// The number of sidecars of the first `k` candidates.
pub open spec fn sidecars_before(b: Seq<ImportCandidate>, k: int) -> int
    decreases k,
{
    if k <= 0 {
        0
    } else {
        sidecars_before(b, k - 1) + b[k - 1].sidecars@.len()
    }
}

/// The number of the first `k` candidates of kind `t`.
pub open spec fn count_kind(b: Seq<ImportCandidate>, t: MediaType, k: int) -> int
    decreases k,
{
    if k <= 0 {
        0
    } else {
        count_kind(b, t, k - 1) + if b[k - 1].media_type == t {
            1int
        } else {
            0int
        }
    }
}

/// The media row that candidate `c` becomes under id `id`.
pub open spec fn media_row_of(r: MediaRecord, c: ImportCandidate, id: i64, imported_at: Seq<char>) -> bool {
    &&& r.id == id
    &&& r.hash == c.hash
    &&& r.filename == c.filename
    &&& r.relpath@ == relpath_of(c.media_type, c.created_at)
    &&& r.media_type == c.media_type
    &&& r.filetype == c.filetype
    &&& r.file_size == c.file_size
    &&& r.created_at@ == c.created_at.db_text()
    &&& r.imported_at@ == imported_at
    &&& r.exif == c.exif
}

/// The sidecar row that sidecar `s` of media item `media_id` becomes under id `id`.
pub open spec fn sidecar_row_of(r: SidecarRecord, s: SidecarCandidate, media_id: i64, id: i64) -> bool {
    &&& r.id == id
    &&& r.media_id == media_id
    &&& r.filename == s.filename
    &&& r.filetype == s.filetype
    &&& r.file_size == s.file_size
    &&& r.hash == s.hash
    &&& r.modified_at == s.modified_at
}

pub proof fn lemma_sidecars_before_mono(b: Seq<ImportCandidate>, k: int, l: int)
    requires
        0 <= k <= l <= b.len(),
    ensures
        0 <= sidecars_before(b, k) <= sidecars_before(b, l),
        k < l ==> sidecars_before(b, k) + b[k].sidecars@.len() <= sidecars_before(b, l),
    decreases l - k,
{
    if k < l {
        lemma_sidecars_before_mono(b, k, l - 1);
        if k < l - 1 {
            lemma_sidecars_before_mono(b, k + 1, l - 1);
        }
    } else {
        lemma_sidecars_before_nonneg(b, k);
    }
}

pub proof fn lemma_sidecars_before_nonneg(b: Seq<ImportCandidate>, k: int)
    ensures
        0 <= sidecars_before(b, k),
    decreases k,
{
    if k > 0 {
        lemma_sidecars_before_nonneg(b, k - 1);
    }
}

/// A file to copy into the library: from a source path to a destination path.
#[derive(Debug)]
pub struct FileCopy {
    pub source: String,
    pub destination: String,
}

/// Whether some copy failed.
pub open spec fn any_failed(errors: Seq<Option<String>>) -> bool {
    exists|i: int| 0 <= i < errors.len() && errors[i] is Some
}

/// Whether the rows that a run adds fit in the index's id space.
pub open spec fn ids_fit(db: Database, d: Dedup) -> bool {
    &&& db.next_media_id + d.batch@.len() <= i64::MAX
    &&& db.next_sidecar_id + sidecars_before(d.batch@, d.batch@.len() as int) + d.merges@.len()
        <= i64::MAX
}

/// The rows that committing `d` adds to `old` give `new`: the batch's media
/// rows after the old ones, under consecutive fresh ids, then the sidecar
/// rows of each batch member in order, then the pending merges, under
/// consecutive fresh ids.
pub open spec fn committed(old: Database, new: Database, d: Dedup, imported_at: Seq<char>) -> bool {
    let b = d.batch@;
    let n = b.len() as int;
    let m0 = old.media@.len() as int;
    let s0 = old.sidecars@.len() as int;
    let total = sidecars_before(b, n);
    &&& new.media@.len() == m0 + n
    &&& new.media@.subrange(0, m0) == old.media@
    &&& forall|k: int|
        0 <= k < n ==> media_row_of(
            #[trigger] new.media@[m0 + k],
            b[k],
            (old.next_media_id + k) as i64,
            imported_at,
        )
    &&& new.sidecars@.len() == s0 + total + d.merges@.len()
    &&& new.sidecars@.subrange(0, s0) == old.sidecars@
    &&& forall|k: int, j: int|
        0 <= k < n && 0 <= j < b[k].sidecars@.len() ==> sidecar_row_of(
            #[trigger] new.sidecars@[s0 + sidecars_before(b, k) + j],
            b[k].sidecars@[j],
            (old.next_media_id + k) as i64,
            (old.next_sidecar_id + sidecars_before(b, k) + j) as i64,
        )
    &&& forall|q: int|
        0 <= q < d.merges@.len() ==> sidecar_row_of(
            #[trigger] new.sidecars@[s0 + total + q],
            d.merges@[q].sidecar,
            d.merges@[q].media_id,
            (old.next_sidecar_id + total + q) as i64,
        )
    &&& new.next_media_id == old.next_media_id + n
    &&& new.next_sidecar_id == old.next_sidecar_id + total + d.merges@.len()
}

fn copy_sidecar_row(s: &SidecarCandidate, media_id: i64, id: i64) -> (r: SidecarRecord)
    ensures
        sidecar_row_of(r, *s, media_id, id),
{
    SidecarRecord {
        id,
        media_id,
        filename: s.filename.clone(),
        filetype: s.filetype.clone(),
        file_size: s.file_size,
        hash: s.hash.clone(),
        modified_at: s.modified_at.clone(),
    }
}

/// The failed copies among the first `k`, in order: source, destination, cause.
pub open spec fn failed_copies(copies: Seq<FileCopy>, errors: Seq<Option<String>>, k: int) -> Seq<
    (String, String, String),
>
    decreases k,
{
    if k <= 0 {
        seq![]
    } else {
        let before = failed_copies(copies, errors, k - 1);
        match errors[k - 1] {
            Some(e) => before.push((copies[k - 1].source, copies[k - 1].destination, e)),
            None => before,
        }
    }
}

pub open spec fn failure_view(f: CopyFailure) -> (String, String, String) {
    (f.source, f.destination, f.error)
}

/// The failed copies, each with its source, destination and cause, in order.
pub fn collect_failures(copies: &Vec<FileCopy>, copy_errors: &Vec<Option<String>>) -> (failures:
    CopyFailures)
    requires
        copies@.len() == copy_errors@.len(),
    ensures
        failures.failures@.map_values(|f: CopyFailure| failure_view(f)) == failed_copies(
            copies@,
            copy_errors@,
            copies@.len() as int,
        ),
        failures.failures@.len() > 0 <==> any_failed(copy_errors@),
{
    let mut failures = CopyFailures::new();
    let mut i: usize = 0;
    assert(failures.failures@.map_values(|f: CopyFailure| failure_view(f)) =~= seq![]);
    while i < copies.len()
        invariant
            copies@.len() == copy_errors@.len(),
            i <= copies@.len(),
            failures.failures@.map_values(|f: CopyFailure| failure_view(f)) == failed_copies(
                copies@,
                copy_errors@,
                i as int,
            ),
            failures.failures@.len() > 0 <==> exists|j: int|
                0 <= j < i && (#[trigger] copy_errors@[j]) is Some,
        decreases copies@.len() - i,
    {
        if let Some(e) = &copy_errors[i] {
            let ghost before = failures.failures@;
            failures.add(copies[i].source.clone(), copies[i].destination.clone(), e.clone());
            assert(failures.failures@.map_values(|f: CopyFailure| failure_view(f)) =~= before.map_values(
                |f: CopyFailure| failure_view(f),
            ).push((copies@[i as int].source, copies@[i as int].destination, *e)));
            assert(copy_errors@[i as int] is Some);
        }
        i = i + 1;
    }
    failures
}

/// Commits an import run to the index once its files are copied. `copies`
/// are the run's copies and `copy_errors` what became of each (`Some` with the
/// cause where it failed). When any copy failed, the index is left exactly as
/// it was and every failure is reported. Otherwise the batch's media rows, their
/// sidecar rows and the pending merges are added all together (or, when the
/// index has no ids left for them, nothing is).
pub fn commit_import(
    db: &mut Database,
    dedup: &Dedup,
    copies: &Vec<FileCopy>,
    copy_errors: &Vec<Option<String>>,
    imported_at: &CaptureTime,
) -> (r: Result<ImportStats, PhotosortError>)
    requires
        old(db).wf(),
        dedup.wf(*old(db)),
        copies@.len() == copy_errors@.len(),
    ensures
        any_failed(copy_errors@) ==> *final(db) == *old(db) && match r {
            Err(PhotosortError::CopyFailed(f)) => f.failures@.len() > 0
                && f.failures@.map_values(|f: CopyFailure| failure_view(f)) == failed_copies(
                copies@,
                copy_errors@,
                copies@.len() as int,
            ),
            _ => false,
        },
        !any_failed(copy_errors@) && !ids_fit(*old(db), *dedup) ==> *final(db) == *old(db) && r
            == Err::<ImportStats, PhotosortError>(PhotosortError::IdsExhausted),
        !any_failed(copy_errors@) && ids_fit(*old(db), *dedup) ==> final(db).wf() && committed(
            *old(db),
            *final(db),
            *dedup,
            imported_at.db_text(),
        ) && r == Ok::<ImportStats, PhotosortError>(
            ImportStats {
                images_imported: count_kind(dedup.batch@, MediaType::Image, dedup.batch@.len() as int) as usize,
                videos_imported: count_kind(dedup.batch@, MediaType::Video, dedup.batch@.len() as int) as usize,
                sidecars_imported: (sidecars_before(dedup.batch@, dedup.batch@.len() as int)
                    + dedup.merges@.len()) as usize,
                duplicates_skipped: dedup.duplicates_skipped,
                errors: 0,
            },
        ),
{
    let failures = collect_failures(copies, copy_errors);
    if !failures.is_empty() {
        return Err(PhotosortError::CopyFailed(failures));
    }
    proof {
        assert(!any_failed(copy_errors@));
    }
    stage_and_append(db, dedup, imported_at)
}

/// Adds the rows of a run whose copies all succeeded, or none of them when
/// they do not fit in the id space.
fn stage_and_append(db: &mut Database, dedup: &Dedup, imported_at: &CaptureTime) -> (r: Result<
    ImportStats,
    PhotosortError,
>)
    requires
        old(db).wf(),
        dedup.wf(*old(db)),
    ensures
        !ids_fit(*old(db), *dedup) ==> *final(db) == *old(db) && r == Err::<
            ImportStats,
            PhotosortError,
        >(PhotosortError::IdsExhausted),
        ids_fit(*old(db), *dedup) ==> final(db).wf() && committed(
            *old(db),
            *final(db),
            *dedup,
            imported_at.db_text(),
        ) && r == Ok::<ImportStats, PhotosortError>(
            ImportStats {
                images_imported: count_kind(dedup.batch@, MediaType::Image, dedup.batch@.len() as int) as usize,
                videos_imported: count_kind(dedup.batch@, MediaType::Video, dedup.batch@.len() as int) as usize,
                sidecars_imported: (sidecars_before(dedup.batch@, dedup.batch@.len() as int)
                    + dedup.merges@.len()) as usize,
                duplicates_skipped: dedup.duplicates_skipped,
                errors: 0,
            },
        ),
{
    let ghost b = dedup.batch@;
    let n = dedup.batch.len();
    let next_m = db.next_media_id;
    let next_s = db.next_sidecar_id;
    if n as u64 > (i64::MAX - next_m) as u64 {
        return Err(PhotosortError::IdsExhausted);
    }
    let limit: i64 = i64::MAX - next_s;
    let mut total: u64 = 0;
    let mut k: usize = 0;
    while k < n
        invariant
            *db == *old(db),
            old(db).wf(),
            next_s == old(db).next_sidecar_id,
            limit == i64::MAX - next_s,
            n == b.len(),
            b == dedup.batch@,
            k <= n,
            0 <= limit,
            total == sidecars_before(b, k as int),
            total <= limit,
        decreases n - k,
    {
        let len = dedup.batch[k].sidecars.len();
        if len as u64 > (limit as u64) - total {
            proof {
                lemma_sidecars_before_mono(b, k as int + 1, n as int);
            }
            return Err(PhotosortError::IdsExhausted);
        }
        total = total + len as u64;
        k = k + 1;
    }
    if dedup.merges.len() as u64 > (limit as u64) - total {
        return Err(PhotosortError::IdsExhausted);
    }
    let imported = imported_at.db_string();
    // Media rows.
    let mut new_media: Vec<MediaRecord> = Vec::new();
    let mut images: usize = 0;
    let mut videos: usize = 0;
    let mut k: usize = 0;
    while k < n
        invariant
            n == b.len(),
            b == dedup.batch@,
            k <= n,
            *db == *old(db),
            0 < next_m,
            imported@ == imported_at.db_text(),
            next_m + n <= i64::MAX,
            next_m == old(db).next_media_id,
            new_media@.len() == k,
            images == count_kind(b, MediaType::Image, k as int),
            videos == count_kind(b, MediaType::Video, k as int),
            images + videos == k,
            forall|q: int|
                0 <= q < k ==> media_row_of(
                    #[trigger] new_media@[q],
                    b[q],
                    (next_m + q) as i64,
                    imported_at.db_text(),
                ),
        decreases n - k,
    {
        let c = &dedup.batch[k];
        let row = MediaRecord {
            id: next_m + k as i64,
            hash: c.hash.clone(),
            filename: c.filename.clone(),
            relpath: relpath_for(c.media_type, &c.created_at),
            media_type: c.media_type,
            filetype: c.filetype.clone(),
            file_size: c.file_size,
            created_at: c.created_at.db_string(),
            imported_at: imported.clone(),
            exif: c.exif.duplicate(),
        };
        new_media.push(row);
        match c.media_type {
            MediaType::Image => {
                images = images + 1;
            },
            MediaType::Video => {
                videos = videos + 1;
            },
        }
        k = k + 1;
    }
    // Sidecar rows of the batch, then the merges.
    let mut new_sc: Vec<SidecarRecord> = Vec::new();
    let ghost mut owner: Seq<int> = seq![];
    let ghost mut slot: Seq<int> = seq![];
    let mut k: usize = 0;
    while k < n
        invariant
            n == b.len(),
            b == dedup.batch@,
            k <= n,
            *db == *old(db),
            0 < next_m,
            0 < next_s,
            next_m + n <= i64::MAX,
            next_m == old(db).next_media_id,
            next_s == old(db).next_sidecar_id,
            next_s + total + dedup.merges@.len() <= i64::MAX,
            total == sidecars_before(b, n as int),
            new_sc@.len() == sidecars_before(b, k as int),
            owner.len() == new_sc@.len(),
            slot.len() == new_sc@.len(),
            forall|p: int|
                0 <= p < new_sc@.len() ==> 0 <= #[trigger] owner[p] < k && 0 <= slot[p] < b[owner[p]].sidecars@.len()
                    && p == sidecars_before(b, owner[p]) + slot[p] && sidecar_row_of(
                    new_sc@[p],
                    b[owner[p]].sidecars@[slot[p]],
                    (next_m + owner[p]) as i64,
                    (next_s + p) as i64,
                ),
        decreases n - k,
    {
        proof {
            lemma_sidecars_before_mono(b, k as int + 1, n as int);
            lemma_sidecars_before_nonneg(b, k as int);
        }
        let c = &dedup.batch[k];
        let m = c.sidecars.len();
        let mut j: usize = 0;
        while j < m
            invariant
                n == b.len(),
                b == dedup.batch@,
                k < n,
                c == dedup.batch@[k as int],
                m == c.sidecars@.len(),
                j <= m,
                0 < next_m,
                0 < next_s,
                next_m + n <= i64::MAX,
                next_s + total + dedup.merges@.len() <= i64::MAX,
                total == sidecars_before(b, n as int),
                sidecars_before(b, k as int + 1) <= total,
                0 <= sidecars_before(b, k as int),
                new_sc@.len() == sidecars_before(b, k as int) + j,
                owner.len() == new_sc@.len(),
                slot.len() == new_sc@.len(),
                forall|p: int|
                    0 <= p < new_sc@.len() ==> 0 <= #[trigger] owner[p] <= k && 0 <= slot[p] < b[owner[p]].sidecars@.len()
                        && p == sidecars_before(b, owner[p]) + slot[p] && sidecar_row_of(
                        new_sc@[p],
                        b[owner[p]].sidecars@[slot[p]],
                        (next_m + owner[p]) as i64,
                        (next_s + p) as i64,
                    ),
            decreases m - j,
        {
            let p = new_sc.len();
            proof {
                lemma_sidecars_before_mono(b, k as int, k as int + 1);
            }
            let row = copy_sidecar_row(&c.sidecars[j], next_m + k as i64, next_s + p as i64);
            new_sc.push(row);
            proof {
                owner = owner.push(k as int);
                slot = slot.push(j as int);
            }
            j = j + 1;
        }
        k = k + 1;
    }
    let mut q: usize = 0;
    while q < dedup.merges.len()
        invariant
            n == b.len(),
            b == dedup.batch@,
            *db == *old(db),
            0 < next_s,
            next_m == old(db).next_media_id,
            next_s == old(db).next_sidecar_id,
            next_s + total + dedup.merges@.len() <= i64::MAX,
            total == sidecars_before(b, n as int),
            q <= dedup.merges@.len(),
            new_sc@.len() == total + q,
            owner.len() == total,
            slot.len() == total,
            forall|p: int|
                0 <= p < total ==> 0 <= #[trigger] owner[p] < n && 0 <= slot[p] < b[owner[p]].sidecars@.len()
                    && p == sidecars_before(b, owner[p]) + slot[p] && sidecar_row_of(
                    new_sc@[p],
                    b[owner[p]].sidecars@[slot[p]],
                    (next_m + owner[p]) as i64,
                    (next_s + p) as i64,
                ),
            forall|t: int|
                0 <= t < q ==> sidecar_row_of(
                    #[trigger] new_sc@[total + t],
                    dedup.merges@[t].sidecar,
                    dedup.merges@[t].media_id,
                    (next_s + total + t) as i64,
                ),
        decreases dedup.merges@.len() - q,
    {
        let mg = &dedup.merges[q];
        let p = new_sc.len();
        let row = copy_sidecar_row(&mg.sidecar, mg.media_id, next_s + p as i64);
        new_sc.push(row);
        q = q + 1;
    }
    let ghost old_db = *db;
    let ghost new_media_v = new_media@;
    let ghost new_sc_v = new_sc@;
    db.media.append(&mut new_media);
    db.sidecars.append(&mut new_sc);
    db.next_media_id = next_m + n as i64;
    db.next_sidecar_id = next_s + (total as i64 + dedup.merges.len() as i64);
    proof {
        assert(db.media@ =~= old_db.media@ + new_media_v);
        assert(db.sidecars@ =~= old_db.sidecars@ + new_sc_v);
        lemma_commit_wf(old_db, *db, *dedup, owner, slot, imported_at.db_text(), new_media_v, new_sc_v);
    }
    Ok(
        ImportStats {
            images_imported: images,
            videos_imported: videos,
            sidecars_imported: (total + dedup.merges.len() as u64) as usize,
            duplicates_skipped: dedup.duplicates_skipped,
            errors: 0,
        },
    )
}

pub proof fn lemma_slot_unique(b: Seq<ImportCandidate>, k1: int, j1: int, k2: int, j2: int)
    requires
        0 <= k1 < b.len(),
        0 <= k2 < b.len(),
        0 <= j1 < b[k1].sidecars@.len(),
        0 <= j2 < b[k2].sidecars@.len(),
        sidecars_before(b, k1) + j1 == sidecars_before(b, k2) + j2,
    ensures
        k1 == k2 && j1 == j2,
{
    if k1 < k2 {
        lemma_sidecars_before_mono(b, k1, k2);
        lemma_sidecars_before_nonneg(b, k2);
    } else if k2 < k1 {
        lemma_sidecars_before_mono(b, k2, k1);
        lemma_sidecars_before_nonneg(b, k1);
    }
}

proof fn lemma_commit_wf(
    old: Database,
    new: Database,
    d: Dedup,
    owner: Seq<int>,
    slot: Seq<int>,
    imported: Seq<char>,
    nm: Seq<MediaRecord>,
    ns: Seq<SidecarRecord>,
)
    requires
        old.wf(),
        d.wf(old),
        new.media@ == old.media@ + nm,
        new.sidecars@ == old.sidecars@ + ns,
        nm.len() == d.batch@.len(),
        old.next_media_id + d.batch@.len() <= i64::MAX,
        old.next_sidecar_id + sidecars_before(d.batch@, d.batch@.len() as int) + d.merges@.len()
            <= i64::MAX,
        new.next_media_id == old.next_media_id + d.batch@.len(),
        new.next_sidecar_id == old.next_sidecar_id + sidecars_before(
            d.batch@,
            d.batch@.len() as int,
        ) + d.merges@.len(),
        forall|q: int|
            0 <= q < d.batch@.len() ==> media_row_of(
                #[trigger] nm[q],
                d.batch@[q],
                (old.next_media_id + q) as i64,
                imported,
            ),
        ns.len() == sidecars_before(d.batch@, d.batch@.len() as int) + d.merges@.len(),
        owner.len() == sidecars_before(d.batch@, d.batch@.len() as int),
        slot.len() == owner.len(),
        forall|p: int|
            0 <= p < owner.len() ==> 0 <= #[trigger] owner[p] < d.batch@.len() && 0 <= slot[p]
                < d.batch@[owner[p]].sidecars@.len() && p == sidecars_before(d.batch@, owner[p])
                + slot[p] && sidecar_row_of(
                ns[p],
                d.batch@[owner[p]].sidecars@[slot[p]],
                (old.next_media_id + owner[p]) as i64,
                (old.next_sidecar_id + p) as i64,
            ),
        forall|t: int|
            0 <= t < d.merges@.len() ==> sidecar_row_of(
                #[trigger] ns[owner.len() + t],
                d.merges@[t].sidecar,
                d.merges@[t].media_id,
                (old.next_sidecar_id + owner.len() + t) as i64,
            ),
    ensures
        new.wf(),
        committed(old, new, d, imported),
{
    let b = d.batch@;
    let n = b.len() as int;
    let m0 = old.media@.len() as int;
    let s0 = old.sidecars@.len() as int;
    let total = owner.len() as int;
    lemma_sidecars_before_nonneg(b, n);
    assert(new.media@.subrange(0, m0) =~= old.media@);
    assert(new.sidecars@.subrange(0, s0) =~= old.sidecars@);
    assert forall|i: int| 0 <= i < new.media@.len() implies 0 < #[trigger] new.media@[i].id
        < new.next_media_id by {
        if i < m0 {
            assert(new.media@[i] == old.media@[i]);
        } else {
            assert(new.media@[i] == nm[i - m0]);
        }
    }
    // Rows of the batch's sidecars, and rows of the merges, in terms of their origin.
    assert forall|p: int| 0 <= p < ns.len() implies (#[trigger] ns[p]).id == old.next_sidecar_id + p
        && (p < total ==> ns[p].media_id == old.next_media_id + owner[p]
            && ns[p].filename == b[owner[p]].sidecars@[slot[p]].filename)
        && (p >= total ==> ns[p].media_id == d.merges@[p - total].media_id
            && ns[p].filename == d.merges@[p - total].sidecar.filename) by {
        if p >= total {
            assert(ns[total + (p - total)] == ns[p]);
        }
    }
    assert forall|i: int| 0 <= i < new.sidecars@.len() implies 0 < #[trigger] new.sidecars@[i].id
        < new.next_sidecar_id by {
        if i < s0 {
            assert(new.sidecars@[i] == old.sidecars@[i]);
        } else {
            assert(new.sidecars@[i] == ns[i - s0]);
        }
    }
    assert forall|i: int, j: int| 0 <= i < j < new.media@.len() implies new.media@[i].id
        != new.media@[j].id && new.media@[i].hash@ != new.media@[j].hash@ by {
        if j < m0 {
            assert(new.media@[i] == old.media@[i]);
            assert(new.media@[j] == old.media@[j]);
        } else if i < m0 {
            assert(new.media@[i] == old.media@[i]);
            assert(new.media@[j] == nm[j - m0]);
            assert(!old.has_hash(b[j - m0].hash@));
        } else {
            assert(new.media@[i] == nm[i - m0]);
            assert(new.media@[j] == nm[j - m0]);
        }
    }
    assert forall|i: int, j: int| 0 <= i < j < new.sidecars@.len() implies new.sidecars@[i].id
        != new.sidecars@[j].id && (new.sidecars@[i].media_id != new.sidecars@[j].media_id
        || new.sidecars@[i].filename@ != new.sidecars@[j].filename@) by {
        if j < s0 {
            assert(new.sidecars@[i] == old.sidecars@[i]);
            assert(new.sidecars@[j] == old.sidecars@[j]);
        } else if i < s0 {
            let oi = old.sidecars@[i];
            assert(new.sidecars@[i] == oi);
            assert(new.sidecars@[j] == ns[j - s0]);
            assert(old.has_media_id(oi.media_id));
            let w = choose|w: int| 0 <= w < old.media@.len() && old.media@[w].id == oi.media_id;
            assert(oi.media_id < old.next_media_id);
            if j - s0 >= total {
                let t = j - s0 - total;
                assert(!old.has_sidecar(d.merges@[t].media_id, d.merges@[t].sidecar.filename@));
            }
        } else {
            let p = i - s0;
            let q = j - s0;
            assert(new.sidecars@[i] == ns[p]);
            assert(new.sidecars@[j] == ns[q]);
            if q < total {
                if owner[p] == owner[q] {
                    assert(slot[p] != slot[q]);
                    let c = b[owner[p]];
                    assert(c.wf());
                    if slot[p] < slot[q] {
                        assert(c.sidecars@[slot[p]].filename@ != c.sidecars@[slot[q]].filename@);
                    } else {
                        assert(c.sidecars@[slot[q]].filename@ != c.sidecars@[slot[p]].filename@);
                    }
                }
            } else if p < total {
                let t = q - total;
                assert(old.has_media_id(d.merges@[t].media_id));
                let w = choose|w: int|
                    0 <= w < old.media@.len() && old.media@[w].id == d.merges@[t].media_id;
                assert(d.merges@[t].media_id < old.next_media_id);
            } else {
                assert(d.merges@[p - total].media_id != d.merges@[q - total].media_id
                    || d.merges@[p - total].sidecar.filename@
                    != d.merges@[q - total].sidecar.filename@);
            }
        }
    }
    assert forall|i: int| 0 <= i < new.sidecars@.len() implies new.has_media_id(
        #[trigger] new.sidecars@[i].media_id,
    ) by {
        if i < s0 {
            let oi = old.sidecars@[i];
            assert(new.sidecars@[i] == oi);
            assert(old.has_media_id(oi.media_id));
            let w = choose|w: int| 0 <= w < old.media@.len() && old.media@[w].id == oi.media_id;
            assert(new.media@[w] == old.media@[w]);
        } else {
            let p = i - s0;
            assert(new.sidecars@[i] == ns[p]);
            if p < total {
                let k = owner[p];
                assert(new.media@[m0 + k] == nm[k]);
            } else {
                let t = p - total;
                assert(old.has_media_id(d.merges@[t].media_id));
                let w = choose|w: int|
                    0 <= w < old.media@.len() && old.media@[w].id == d.merges@[t].media_id;
                assert(new.media@[w] == old.media@[w]);
            }
        }
    }
    assert forall|k: int| 0 <= k < n implies media_row_of(
        #[trigger] new.media@[m0 + k],
        b[k],
        (old.next_media_id + k) as i64,
        imported,
    ) by {
        assert(new.media@[m0 + k] == nm[k]);
    }
    assert forall|k: int, j: int| 0 <= k < n && 0 <= j < b[k].sidecars@.len() implies sidecar_row_of(
        #[trigger] new.sidecars@[s0 + sidecars_before(b, k) + j],
        b[k].sidecars@[j],
        (old.next_media_id + k) as i64,
        (old.next_sidecar_id + sidecars_before(b, k) + j) as i64,
    ) by {
        let p = sidecars_before(b, k) + j;
        lemma_sidecars_before_mono(b, k, n);
        lemma_sidecars_before_nonneg(b, k);
        assert(0 <= p < total);
        lemma_slot_unique(b, k, j, owner[p], slot[p]);
        assert(new.sidecars@[s0 + p] == ns[p]);
    }
    assert forall|t: int| 0 <= t < d.merges@.len() implies sidecar_row_of(
        #[trigger] new.sidecars@[s0 + total + t],
        d.merges@[t].sidecar,
        d.merges@[t].media_id,
        (old.next_sidecar_id + total + t) as i64,
    ) by {
        assert(new.sidecars@[s0 + total + t] == ns[total + t]);
    }
}

} // verus!
