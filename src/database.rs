use vstd::prelude::*;
use crate::media::MediaType;
use crate::text::{chars_of, same_chars};

verus! {

/// Camera metadata of a media file. GPS coordinates are held in units of
/// 1e-7 degree, south and west negative.
#[derive(Debug)]
pub struct ExifMetadata {
    pub camera_make: Option<String>,
    pub camera_model: Option<String>,
    pub lens: Option<String>,
    pub focal_length: Option<String>,
    pub aperture: Option<String>,
    pub shutter_speed: Option<String>,
    pub iso: Option<i32>,
    pub gps_lat_e7: Option<i64>,
    pub gps_lon_e7: Option<i64>,
}

/// A copy of an optional text.
pub fn copy_text(o: &Option<String>) -> (r: Option<String>)
    ensures
        r == *o,
{
    match o {
        Some(s) => Some(s.clone()),
        None => None,
    }
}

impl ExifMetadata {
    /// Metadata with every field absent.
    pub fn empty() -> (r: ExifMetadata)
        ensures
            r.camera_make is None && r.camera_model is None && r.lens is None
                && r.focal_length is None && r.aperture is None && r.shutter_speed is None
                && r.iso is None && r.gps_lat_e7 is None && r.gps_lon_e7 is None,
    {
        ExifMetadata {
            camera_make: None,
            camera_model: None,
            lens: None,
            focal_length: None,
            aperture: None,
            shutter_speed: None,
            iso: None,
            gps_lat_e7: None,
            gps_lon_e7: None,
        }
    }

    /// A copy of this metadata.
    pub fn duplicate(&self) -> (r: ExifMetadata)
        ensures
            r == *self,
    {
        ExifMetadata {
            camera_make: copy_text(&self.camera_make),
            camera_model: copy_text(&self.camera_model),
            lens: copy_text(&self.lens),
            focal_length: copy_text(&self.focal_length),
            aperture: copy_text(&self.aperture),
            shutter_speed: copy_text(&self.shutter_speed),
            iso: self.iso,
            gps_lat_e7: self.gps_lat_e7,
            gps_lon_e7: self.gps_lon_e7,
        }
    }
}

/// One row of the `media` table: a photo or video tracked by the library.
#[derive(Debug)]
pub struct MediaRecord {
    pub id: i64,
    pub hash: String,
    pub filename: String,
    pub relpath: String,
    pub media_type: MediaType,
    pub filetype: String,
    pub file_size: u64,
    pub created_at: String,
    pub imported_at: String,
    pub exif: ExifMetadata,
}

/// One row of the `sidecars` table: a companion file owned by one media row.
#[derive(Debug)]
pub struct SidecarRecord {
    pub id: i64,
    pub media_id: i64,
    pub filename: String,
    pub filetype: String,
    pub file_size: u64,
    pub hash: String,
    pub modified_at: String,
}

impl MediaRecord {
    /// A copy of this row.
    pub fn duplicate(&self) -> (r: MediaRecord)
        ensures
            r == *self,
    {
        MediaRecord {
            id: self.id,
            hash: self.hash.clone(),
            filename: self.filename.clone(),
            relpath: self.relpath.clone(),
            media_type: self.media_type,
            filetype: self.filetype.clone(),
            file_size: self.file_size,
            created_at: self.created_at.clone(),
            imported_at: self.imported_at.clone(),
            exif: self.exif.duplicate(),
        }
    }
}

impl SidecarRecord {
    /// A copy of this row.
    pub fn duplicate(&self) -> (r: SidecarRecord)
        ensures
            r == *self,
    {
        SidecarRecord {
            id: self.id,
            media_id: self.media_id,
            filename: self.filename.clone(),
            filetype: self.filetype.clone(),
            file_size: self.file_size,
            hash: self.hash.clone(),
            modified_at: self.modified_at.clone(),
        }
    }
}

/// The library's index: its media rows and sidecar rows, and the ids that the
/// next inserted rows receive.
#[derive(Debug)]
pub struct Database {
    pub media: Vec<MediaRecord>,
    pub sidecars: Vec<SidecarRecord>,
    pub next_media_id: i64,
    pub next_sidecar_id: i64,
}

impl Database {
    /// Whether some media row has content hash `h`.
    pub open spec fn has_hash(&self, h: Seq<char>) -> bool {
        exists|i: int| 0 <= i < self.media@.len() && self.media@[i].hash@ == h
    }

    /// Whether some media row has id `id`.
    pub open spec fn has_media_id(&self, id: i64) -> bool {
        exists|i: int| 0 <= i < self.media@.len() && self.media@[i].id == id
    }

    /// Whether media row `id` owns a sidecar row named `name`.
    pub open spec fn has_sidecar(&self, id: i64, name: Seq<char>) -> bool {
        exists|i: int|
            0 <= i < self.sidecars@.len() && self.sidecars@[i].media_id == id
                && self.sidecars@[i].filename@ == name
    }

    /// The index's integrity: ids are unique and below the next ids, content
    /// hashes are unique, every sidecar row belongs to an existing media row,
    /// and no media row owns two sidecar rows of one name.
    pub open spec fn wf(&self) -> bool {
        &&& 0 < self.next_media_id
        &&& 0 < self.next_sidecar_id
        &&& forall|i: int|
            0 <= i < self.media@.len() ==> 0 < #[trigger] self.media@[i].id < self.next_media_id
        &&& forall|i: int|
            0 <= i < self.sidecars@.len() ==> 0 < #[trigger] self.sidecars@[i].id
                < self.next_sidecar_id
        &&& forall|i: int, j: int|
            0 <= i < j < self.media@.len() ==> self.media@[i].id != self.media@[j].id
                && self.media@[i].hash@ != self.media@[j].hash@
        &&& forall|i: int, j: int|
            0 <= i < j < self.sidecars@.len() ==> self.sidecars@[i].id != self.sidecars@[j].id
                && (self.sidecars@[i].media_id != self.sidecars@[j].media_id
                || self.sidecars@[i].filename@ != self.sidecars@[j].filename@)
        &&& forall|i: int|
            0 <= i < self.sidecars@.len() ==> self.has_media_id(
                #[trigger] self.sidecars@[i].media_id,
            )
    }

    /// An empty index.
    pub fn new() -> (r: Database)
        ensures
            r.wf(),
            r.media@.len() == 0,
            r.sidecars@.len() == 0,
    {
        Database { media: Vec::new(), sidecars: Vec::new(), next_media_id: 1, next_sidecar_id: 1 }
    }

    /// The number of media rows.
    pub fn media_count(&self) -> (r: usize)
        ensures
            r == self.media@.len(),
    {
        self.media.len()
    }

    /// The number of sidecar rows.
    pub fn sidecar_count(&self) -> (r: usize)
        ensures
            r == self.sidecars@.len(),
    {
        self.sidecars.len()
    }

    /// The position of the media row with content hash `hash`.
    pub fn find_hash(&self, hash: &str) -> (r: Option<usize>)
        ensures
            match r {
                Some(i) => i < self.media@.len() && self.media@[i as int].hash@ == hash@,
                None => !self.has_hash(hash@),
            },
    {
        let h = chars_of(hash);
        let mut i: usize = 0;
        while i < self.media.len()
            invariant
                i <= self.media@.len(),
                h@ == hash@,
                forall|j: int| 0 <= j < i ==> self.media@[j].hash@ != hash@,
            decreases self.media@.len() - i,
        {
            let c = chars_of(self.media[i].hash.as_str());
            if same_chars(&c, &h) {
                return Some(i);
            }
            i = i + 1;
        }
        None
    }

    /// Whether a media row has content hash `hash`.
    pub fn hash_exists(&self, hash: &str) -> (r: bool)
        ensures
            r == self.has_hash(hash@),
    {
        self.find_hash(hash).is_some()
    }

    /// The id of the media row with content hash `hash`.
    pub fn get_media_id_by_hash(&self, hash: &str) -> (r: Option<i64>)
        ensures
            match r {
                Some(id) => exists|i: int|
                    0 <= i < self.media@.len() && self.media@[i].hash@ == hash@
                        && self.media@[i].id == id,
                None => !self.has_hash(hash@),
            },
    {
        match self.find_hash(hash) {
            Some(i) => Some(self.media[i].id),
            None => None,
        }
    }

    /// Whether media row `media_id` owns a sidecar row named `name`.
    pub fn sidecar_exists(&self, media_id: i64, name: &Vec<char>) -> (r: bool)
        ensures
            r == self.has_sidecar(media_id, name@),
    {
        let mut i: usize = 0;
        while i < self.sidecars.len()
            invariant
                i <= self.sidecars@.len(),
                forall|j: int|
                    0 <= j < i ==> !(self.sidecars@[j].media_id == media_id
                        && self.sidecars@[j].filename@ == name@),
            decreases self.sidecars@.len() - i,
        {
            if self.sidecars[i].media_id == media_id {
                let c = chars_of(self.sidecars[i].filename.as_str());
                if same_chars(&c, name) {
                    return true;
                }
            }
            i = i + 1;
        }
        false
    }

    /// Removes the media rows whose ids `ids` lists, and with them every
    /// sidecar row that they own; all other rows stay, in order.
    pub fn remove_media(&mut self, ids: &Vec<i64>)
        requires
            old(self).wf(),
        ensures
            final(self).wf(),
            final(self).media@ == old(self).media@.filter(
                |m: MediaRecord| !ids@.contains(m.id),
            ),
            final(self).sidecars@ == old(self).sidecars@.filter(
                |s: SidecarRecord| !ids@.contains(s.media_id),
            ),
            forall|i: int|
                0 <= i < final(self).sidecars@.len() ==> !ids@.contains(
                    #[trigger] final(self).sidecars@[i].media_id,
                ),
            final(self).next_media_id == old(self).next_media_id,
            final(self).next_sidecar_id == old(self).next_sidecar_id,
    {
        let ghost keep_m = |m: MediaRecord| !ids@.contains(m.id);
        let ghost keep_s = |s: SidecarRecord| !ids@.contains(s.media_id);
        let ghost old_db = *self;
        let mut media: Vec<MediaRecord> = Vec::new();
        let ghost mut mpos: Seq<int> = seq![];
        let mut i: usize = 0;
        while i < self.media.len()
            invariant
                *self == old_db,
                old_db.wf(),
                keep_m == (|m: MediaRecord| !ids@.contains(m.id)),
                i <= self.media@.len(),
                media@ == self.media@.subrange(0, i as int).filter(keep_m),
                mpos.len() == media@.len(),
                forall|k: int|
                    0 <= k < mpos.len() ==> 0 <= #[trigger] mpos[k] < i && media@[k]
                        == self.media@[mpos[k]],
                forall|k: int, l: int| 0 <= k < l < mpos.len() ==> mpos[k] < mpos[l],
                forall|k: int| 0 <= k < media@.len() ==> !ids@.contains(#[trigger] media@[k].id),
            decreases self.media@.len() - i,
        {
            proof {
                reveal(Seq::filter);
                assert(self.media@.subrange(0, i + 1).drop_last() =~= self.media@.subrange(
                    0,
                    i as int,
                ));
            }
            let m = &self.media[i];
            if !contains_id(ids, m.id) {
                media.push(m.duplicate());
                proof {
                    mpos = mpos.push(i as int);
                }
            }
            i = i + 1;
        }
        assert(self.media@.subrange(0, i as int) =~= self.media@);
        let mut sidecars: Vec<SidecarRecord> = Vec::new();
        let ghost mut spos: Seq<int> = seq![];
        let mut j: usize = 0;
        while j < self.sidecars.len()
            invariant
                *self == old_db,
                old_db.wf(),
                keep_s == (|s: SidecarRecord| !ids@.contains(s.media_id)),
                j <= self.sidecars@.len(),
                sidecars@ == self.sidecars@.subrange(0, j as int).filter(keep_s),
                spos.len() == sidecars@.len(),
                forall|k: int|
                    0 <= k < spos.len() ==> 0 <= #[trigger] spos[k] < j && sidecars@[k]
                        == self.sidecars@[spos[k]],
                forall|k: int, l: int| 0 <= k < l < spos.len() ==> spos[k] < spos[l],
                forall|k: int|
                    0 <= k < sidecars@.len() ==> !ids@.contains(#[trigger] sidecars@[k].media_id),
            decreases self.sidecars@.len() - j,
        {
            proof {
                reveal(Seq::filter);
                assert(self.sidecars@.subrange(0, j + 1).drop_last() =~= self.sidecars@.subrange(
                    0,
                    j as int,
                ));
            }
            let s = &self.sidecars[j];
            if !contains_id(ids, s.media_id) {
                sidecars.push(s.duplicate());
                proof {
                    spos = spos.push(j as int);
                }
            }
            j = j + 1;
        }
        assert(self.sidecars@.subrange(0, j as int) =~= self.sidecars@);
        self.media = media;
        self.sidecars = sidecars;
        proof {
            assert forall|k: int, l: int| 0 <= k < l < self.media@.len() implies self.media@[k].id
                != self.media@[l].id && self.media@[k].hash@ != self.media@[l].hash@ by {
                assert(mpos[k] < mpos[l]);
            }
            assert forall|k: int, l: int| 0 <= k < l < self.sidecars@.len() implies self.sidecars@[k].id
                != self.sidecars@[l].id && (self.sidecars@[k].media_id != self.sidecars@[l].media_id
                || self.sidecars@[k].filename@ != self.sidecars@[l].filename@) by {
                assert(spos[k] < spos[l]);
            }
            assert forall|k: int| 0 <= k < self.media@.len() implies 0 < #[trigger] self.media@[k].id
                < self.next_media_id by {
                assert(self.media@[k] == old_db.media@[mpos[k]]);
            }
            assert forall|k: int| 0 <= k < self.sidecars@.len() implies 0 < #[trigger] self.sidecars@[k].id
                < self.next_sidecar_id by {
                assert(self.sidecars@[k] == old_db.sidecars@[spos[k]]);
            }
            assert forall|k: int| 0 <= k < self.sidecars@.len() implies self.has_media_id(
                #[trigger] self.sidecars@[k].media_id,
            ) by {
                let sid = self.sidecars@[k].media_id;
                assert(old_db.has_media_id(old_db.sidecars@[spos[k]].media_id));
                let w = choose|w: int| 0 <= w < old_db.media@.len() && old_db.media@[w].id == sid;
                assert(old_db.media@.subrange(0, old_db.media@.len() as int) =~= old_db.media@);
                assert(keep_m(old_db.media@[w]));
                old_db.media@.lemma_filter_contains(keep_m, w);
                let v = choose|v: int| 0 <= v < self.media@.len() && self.media@[v] == old_db.media@[w];
                assert(self.media@[v].id == sid);
            }
        }
    }

    /// Removes the sidecar rows whose ids `ids` lists; all other rows stay, in order.
    pub fn remove_sidecars(&mut self, ids: &Vec<i64>)
        requires
            old(self).wf(),
        ensures
            final(self).wf(),
            final(self).media == old(self).media,
            final(self).sidecars@ == old(self).sidecars@.filter(
                |s: SidecarRecord| !ids@.contains(s.id),
            ),
            final(self).next_media_id == old(self).next_media_id,
            final(self).next_sidecar_id == old(self).next_sidecar_id,
    {
        let ghost keep = |s: SidecarRecord| !ids@.contains(s.id);
        let ghost old_db = *self;
        let mut sidecars: Vec<SidecarRecord> = Vec::new();
        let ghost mut spos: Seq<int> = seq![];
        let mut j: usize = 0;
        while j < self.sidecars.len()
            invariant
                *self == old_db,
                old_db.wf(),
                keep == (|s: SidecarRecord| !ids@.contains(s.id)),
                j <= self.sidecars@.len(),
                sidecars@ == self.sidecars@.subrange(0, j as int).filter(keep),
                spos.len() == sidecars@.len(),
                forall|k: int|
                    0 <= k < spos.len() ==> 0 <= #[trigger] spos[k] < j && sidecars@[k]
                        == self.sidecars@[spos[k]],
                forall|k: int, l: int| 0 <= k < l < spos.len() ==> spos[k] < spos[l],
            decreases self.sidecars@.len() - j,
        {
            proof {
                reveal(Seq::filter);
                assert(self.sidecars@.subrange(0, j + 1).drop_last() =~= self.sidecars@.subrange(
                    0,
                    j as int,
                ));
            }
            let s = &self.sidecars[j];
            if !contains_id(ids, s.id) {
                sidecars.push(s.duplicate());
                proof {
                    spos = spos.push(j as int);
                }
            }
            j = j + 1;
        }
        assert(self.sidecars@.subrange(0, j as int) =~= self.sidecars@);
        self.sidecars = sidecars;
        proof {
            assert forall|k: int, l: int| 0 <= k < l < self.sidecars@.len() implies self.sidecars@[k].id
                != self.sidecars@[l].id && (self.sidecars@[k].media_id != self.sidecars@[l].media_id
                || self.sidecars@[k].filename@ != self.sidecars@[l].filename@) by {
                assert(spos[k] < spos[l]);
            }
            assert forall|k: int| 0 <= k < self.sidecars@.len() implies 0 < #[trigger] self.sidecars@[k].id
                < self.next_sidecar_id by {
                assert(self.sidecars@[k] == old_db.sidecars@[spos[k]]);
            }
            assert forall|k: int| 0 <= k < self.sidecars@.len() implies self.has_media_id(
                #[trigger] self.sidecars@[k].media_id,
            ) by {
                assert(old_db.has_media_id(old_db.sidecars@[spos[k]].media_id));
            }
        }
    }

    /// Records new content for sidecar rows: each `(id, hash)` of `updates`
    /// sets that row's hash, and its modification time to `modified_at`.
    pub fn update_sidecar_hashes(&mut self, updates: &Vec<(i64, String)>, modified_at: &String)
        requires
            old(self).wf(),
        ensures
            final(self).wf(),
            final(self).media == old(self).media,
            final(self).next_media_id == old(self).next_media_id,
            final(self).next_sidecar_id == old(self).next_sidecar_id,
            final(self).sidecars@.len() == old(self).sidecars@.len(),
            forall|k: int|
                0 <= k < final(self).sidecars@.len() ==> {
                    let o = old(self).sidecars@[k];
                    let n = #[trigger] final(self).sidecars@[k];
                    &&& n.id == o.id && n.media_id == o.media_id && n.filename == o.filename
                    &&& n.filetype == o.filetype && n.file_size == o.file_size
                    &&& (exists|u: int| 0 <= u < updates@.len() && updates@[u].0 == o.id) ==> (
                        exists|u: int| 0 <= u < updates@.len() && updates@[u].0 == o.id
                            && n.hash == updates@[u].1) && n.modified_at == *modified_at
                    &&& !(exists|u: int| 0 <= u < updates@.len() && updates@[u].0 == o.id) ==> n
                        == o
                },
    {
        let ghost old_db = *self;
        let mut k: usize = 0;
        while k < self.sidecars.len()
            invariant
                old_db.wf(),
                self.media == old_db.media,
                self.next_media_id == old_db.next_media_id,
                self.next_sidecar_id == old_db.next_sidecar_id,
                self.sidecars@.len() == old_db.sidecars@.len(),
                k <= self.sidecars@.len(),
                forall|j: int|
                    k <= j < self.sidecars@.len() ==> #[trigger] self.sidecars@[j] == old_db.sidecars@[j],
                forall|j: int|
                    0 <= j < k ==> {
                        let o = old_db.sidecars@[j];
                        let n = #[trigger] self.sidecars@[j];
                        &&& n.id == o.id && n.media_id == o.media_id && n.filename == o.filename
                        &&& n.filetype == o.filetype && n.file_size == o.file_size
                        &&& (exists|u: int| 0 <= u < updates@.len() && updates@[u].0 == o.id) ==> (
                            exists|u: int| 0 <= u < updates@.len() && updates@[u].0 == o.id
                                && n.hash == updates@[u].1) && n.modified_at == *modified_at
                        &&& !(exists|u: int| 0 <= u < updates@.len() && updates@[u].0 == o.id)
                            ==> n == o
                    },
            decreases self.sidecars@.len() - k,
        {
            let id = self.sidecars[k].id;
            let mut u: usize = 0;
            let mut found: Option<usize> = None;
            while u < updates.len()
                invariant
                    u <= updates@.len(),
                    match found {
                        Some(f) => f < updates@.len() && updates@[f as int].0 == id,
                        None => forall|t: int| 0 <= t < u ==> updates@[t].0 != id,
                    },
                decreases updates@.len() - u,
            {
                if found.is_none() && updates[u].0 == id {
                    found = Some(u);
                }
                u = u + 1;
            }
            if let Some(f) = found {
                let old_row = self.sidecars[k].duplicate();
                let row = SidecarRecord {
                    id: old_row.id,
                    media_id: old_row.media_id,
                    filename: old_row.filename,
                    filetype: old_row.filetype,
                    file_size: old_row.file_size,
                    hash: updates[f].1.clone(),
                    modified_at: modified_at.clone(),
                };
                self.sidecars.set(k, row);
            }
            k = k + 1;
        }
        proof {
            assert forall|i: int| 0 <= i < self.sidecars@.len() implies 0 < #[trigger] self.sidecars@[i].id
                < self.next_sidecar_id by {
                assert(self.sidecars@[i].id == old_db.sidecars@[i].id);
            }
            assert forall|i: int, j: int| 0 <= i < j < self.sidecars@.len() implies self.sidecars@[i].id
                != self.sidecars@[j].id && (self.sidecars@[i].media_id != self.sidecars@[j].media_id
                || self.sidecars@[i].filename@ != self.sidecars@[j].filename@) by {
                assert(self.sidecars@[i].id == old_db.sidecars@[i].id);
                assert(self.sidecars@[j].id == old_db.sidecars@[j].id);
            }
            assert forall|i: int| 0 <= i < self.sidecars@.len() implies self.has_media_id(
                #[trigger] self.sidecars@[i].media_id,
            ) by {
                assert(self.sidecars@[i].media_id == old_db.sidecars@[i].media_id);
                assert(old_db.has_media_id(old_db.sidecars@[i].media_id));
            }
        }
    }

    /// Whether the index has its integrity, `wf`: for an index read from
    /// storage, before any operation that relies on it.
    pub fn check(&self) -> (r: bool)
        ensures
            r == self.wf(),
    {
        if self.next_media_id <= 0 || self.next_sidecar_id <= 0 {
            return false;
        }
        let nm = self.media.len();
        let mut i: usize = 0;
        while i < nm
            invariant
                nm == self.media@.len(),
                i <= nm,
                forall|a: int| 0 <= a < i ==> 0 < #[trigger] self.media@[a].id < self.next_media_id,
                forall|a: int, b: int|
                    0 <= a < b < nm && a < i ==> self.media@[a].id != self.media@[b].id
                        && self.media@[a].hash@ != self.media@[b].hash@,
            decreases nm - i,
        {
            let m = &self.media[i];
            if !(0 < m.id && m.id < self.next_media_id) {
                return false;
            }
            let h = chars_of(m.hash.as_str());
            let mut j: usize = i + 1;
            while j < nm
                invariant
                    nm == self.media@.len(),
                    i < j <= nm,
                    h@ == self.media@[i as int].hash@,
                    m == self.media@[i as int],
                    forall|b: int| i < b < j ==> self.media@[i as int].id != self.media@[b].id
                        && self.media@[i as int].hash@ != self.media@[b].hash@,
                decreases nm - j,
            {
                if self.media[j].id == m.id || same_chars(&chars_of(self.media[j].hash.as_str()), &h) {
                    return false;
                }
                j = j + 1;
            }
            i = i + 1;
        }
        let ns = self.sidecars.len();
        let mut i: usize = 0;
        while i < ns
            invariant
                ns == self.sidecars@.len(),
                i <= ns,
                forall|a: int| 0 <= a < i ==> 0 < #[trigger] self.sidecars@[a].id < self.next_sidecar_id,
                forall|a: int| 0 <= a < i ==> self.has_media_id(#[trigger] self.sidecars@[a].media_id),
                forall|a: int, b: int|
                    0 <= a < b < ns && a < i ==> self.sidecars@[a].id != self.sidecars@[b].id && (
                    self.sidecars@[a].media_id != self.sidecars@[b].media_id
                        || self.sidecars@[a].filename@ != self.sidecars@[b].filename@),
            decreases ns - i,
        {
            let s = &self.sidecars[i];
            if !(0 < s.id && s.id < self.next_sidecar_id) {
                return false;
            }
            if !self.media_id_exists(s.media_id) {
                return false;
            }
            let f = chars_of(s.filename.as_str());
            let mut j: usize = i + 1;
            while j < ns
                invariant
                    ns == self.sidecars@.len(),
                    i < j <= ns,
                    f@ == self.sidecars@[i as int].filename@,
                    s == self.sidecars@[i as int],
                    forall|b: int| i < b < j ==> self.sidecars@[i as int].id != self.sidecars@[b].id && (
                        self.sidecars@[i as int].media_id != self.sidecars@[b].media_id
                            || self.sidecars@[i as int].filename@ != self.sidecars@[b].filename@),
                decreases ns - j,
            {
                let t = &self.sidecars[j];
                if t.id == s.id || (t.media_id == s.media_id && same_chars(&chars_of(t.filename.as_str()), &f)) {
                    return false;
                }
                j = j + 1;
            }
            i = i + 1;
        }
        true
    }

    /// Whether some media row has id `id`.
    pub fn media_id_exists(&self, id: i64) -> (r: bool)
        ensures
            r == self.has_media_id(id),
    {
        let mut i: usize = 0;
        while i < self.media.len()
            invariant
                i <= self.media@.len(),
                forall|j: int| 0 <= j < i ==> self.media@[j].id != id,
            decreases self.media@.len() - i,
        {
            if self.media[i].id == id {
                return true;
            }
            i = i + 1;
        }
        false
    }

    /// The number of media rows of kind `t`.
    pub fn count_of_kind(&self, t: MediaType) -> (r: usize)
        ensures
            r == kind_count(self.media@, t, self.media@.len() as int),
    {
        let mut n: usize = 0;
        let mut i: usize = 0;
        while i < self.media.len()
            invariant
                i <= self.media@.len(),
                n == kind_count(self.media@, t, i as int),
                n <= i,
            decreases self.media@.len() - i,
        {
            if self.media[i].media_type == t {
                n = n + 1;
            }
            i = i + 1;
        }
        n
    }

    /// The number of image rows.
    pub fn image_count(&self) -> (r: usize)
        ensures
            r == kind_count(self.media@, MediaType::Image, self.media@.len() as int),
    {
        self.count_of_kind(MediaType::Image)
    }

    /// The number of video rows.
    pub fn video_count(&self) -> (r: usize)
        ensures
            r == kind_count(self.media@, MediaType::Video, self.media@.len() as int),
    {
        self.count_of_kind(MediaType::Video)
    }

    /// The total size of the media files of kind `t` (of every kind when
    /// `None`), or `None` when it exceeds `u64`.
    pub fn total_size_of(&self, t: Option<MediaType>) -> (r: Option<u64>)
        ensures
            match r {
                Some(v) => v == media_size(self.media@, t, self.media@.len() as int),
                None => media_size(self.media@, t, self.media@.len() as int) > u64::MAX,
            },
    {
        let mut total: u64 = 0;
        let mut i: usize = 0;
        while i < self.media.len()
            invariant
                i <= self.media@.len(),
                total == media_size(self.media@, t, i as int),
            decreases self.media@.len() - i,
        {
            proof {
                lemma_media_size_mono(self.media@, t, i as int + 1, self.media@.len() as int);
            }
            let m = &self.media[i];
            let counted = match t {
                Some(k) => m.media_type == k,
                None => true,
            };
            if counted {
                if m.file_size > u64::MAX - total {
                    return None;
                }
                total = total + m.file_size;
            }
            i = i + 1;
        }
        Some(total)
    }

    pub fn total_media_size(&self) -> (r: Option<u64>)
        ensures
            match r {
                Some(v) => v == media_size(self.media@, None, self.media@.len() as int),
                None => media_size(self.media@, None, self.media@.len() as int) > u64::MAX,
            },
    {
        self.total_size_of(None)
    }

    pub fn total_image_size(&self) -> (r: Option<u64>)
        ensures
            match r {
                Some(v) => v == media_size(self.media@, Some(MediaType::Image), self.media@.len() as int),
                None => media_size(self.media@, Some(MediaType::Image), self.media@.len() as int) > u64::MAX,
            },
    {
        self.total_size_of(Some(MediaType::Image))
    }

    pub fn total_video_size(&self) -> (r: Option<u64>)
        ensures
            match r {
                Some(v) => v == media_size(self.media@, Some(MediaType::Video), self.media@.len() as int),
                None => media_size(self.media@, Some(MediaType::Video), self.media@.len() as int) > u64::MAX,
            },
    {
        self.total_size_of(Some(MediaType::Video))
    }

    /// The total size of the sidecar files, or `None` when it exceeds `u64`.
    pub fn total_sidecar_size(&self) -> (r: Option<u64>)
        ensures
            match r {
                Some(v) => v == sidecar_size(self.sidecars@, self.sidecars@.len() as int),
                None => sidecar_size(self.sidecars@, self.sidecars@.len() as int) > u64::MAX,
            },
    {
        let mut total: u64 = 0;
        let mut i: usize = 0;
        while i < self.sidecars.len()
            invariant
                i <= self.sidecars@.len(),
                total == sidecar_size(self.sidecars@, i as int),
            decreases self.sidecars@.len() - i,
        {
            proof {
                lemma_sidecar_size_mono(self.sidecars@, i as int + 1, self.sidecars@.len() as int);
            }
            if self.sidecars[i].file_size > u64::MAX - total {
                return None;
            }
            total = total + self.sidecars[i].file_size;
            i = i + 1;
        }
        Some(total)
    }
}

/// The number of the first `k` media rows of kind `t`.
pub open spec fn kind_count(m: Seq<MediaRecord>, t: MediaType, k: int) -> int
    decreases k,
{
    if k <= 0 {
        0
    } else {
        kind_count(m, t, k - 1) + if m[k - 1].media_type == t {
            1int
        } else {
            0int
        }
    }
}

/// The total size of the first `k` media rows of kind `t` (of all when `None`).
pub open spec fn media_size(m: Seq<MediaRecord>, t: Option<MediaType>, k: int) -> int
    decreases k,
{
    if k <= 0 {
        0
    } else {
        media_size(m, t, k - 1) + match t {
            Some(x) => if m[k - 1].media_type == x {
                m[k - 1].file_size as int
            } else {
                0int
            },
            None => m[k - 1].file_size as int,
        }
    }
}

/// The total size of the first `k` sidecar rows.
pub open spec fn sidecar_size(s: Seq<SidecarRecord>, k: int) -> int
    decreases k,
{
    if k <= 0 {
        0
    } else {
        sidecar_size(s, k - 1) + s[k - 1].file_size as int
    }
}

proof fn lemma_media_size_mono(m: Seq<MediaRecord>, t: Option<MediaType>, k: int, l: int)
    requires
        0 <= k <= l,
    ensures
        0 <= media_size(m, t, k) <= media_size(m, t, l),
    decreases l,
{
    if l > k {
        lemma_media_size_mono(m, t, k, l - 1);
    } else if k > 0 {
        lemma_media_size_mono(m, t, k - 1, k - 1);
    }
}

proof fn lemma_sidecar_size_mono(s: Seq<SidecarRecord>, k: int, l: int)
    requires
        0 <= k <= l,
    ensures
        0 <= sidecar_size(s, k) <= sidecar_size(s, l),
    decreases l,
{
    if l > k {
        lemma_sidecar_size_mono(s, k, l - 1);
    } else if k > 0 {
        lemma_sidecar_size_mono(s, k - 1, k - 1);
    }
}

/// Whether `ids` lists `id`.
pub fn contains_id(ids: &Vec<i64>, id: i64) -> (r: bool)
    ensures
        r == ids@.contains(id),
{
    let mut i: usize = 0;
    while i < ids.len()
        invariant
            i <= ids@.len(),
            forall|j: int| 0 <= j < i ==> ids@[j] != id,
        decreases ids@.len() - i,
    {
        if ids[i] == id {
            assert(ids@[i as int] == id);
            return true;
        }
        i = i + 1;
    }
    false
}

} // verus!
