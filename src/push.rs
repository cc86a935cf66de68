use vstd::prelude::*;
use crate::database::{Database, MediaRecord, SidecarRecord};
use crate::digits::{push_chars, push_str};
use crate::error::PhotosortError;
use crate::plan::media_index;
use crate::search::{text_le, text_le_exec};
use crate::text::{chars_of, same_chars, slice_chars, string_of};

verus! {

/// Counts of what a push did.
#[derive(Debug, Clone, Copy, PartialEq, Eq, Structural)]
pub struct PushResult {
    pub files_pushed: usize,
    pub sidecars_pushed: usize,
    pub bytes_transferred: u64,
    pub conflicts_resolved: usize,
    pub skipped: usize,
}

/// A sidecar edited on both sides, newer on the remote side.
#[derive(Debug)]
pub struct SidecarConflict {
    pub media_hash: String,
    pub media_filename: String,
    pub sidecar_filename: String,
    pub local_modified: String,
    pub local_size: u64,
    pub remote_modified: String,
    pub remote_size: u64,
    pub local_path: String,
    pub remote_path: String,
}

/// The operator's answer to a conflict.
#[derive(Debug, Clone, Copy, PartialEq, Eq, Structural)]
pub enum ConflictResolution {
    UseLocal,
    UseRemote,
    Skip,
}

/// A library to push to: a mounted path, or `user@host:/path` over SSH.
#[derive(Debug)]
pub struct RemoteLibrary {
    pub path: String,
    pub is_ssh: bool,
    pub local_path: Option<String>,
}

/// Whether a remote names an SSH location: it holds a ':' and does not start with '/'.
pub open spec fn is_ssh_remote(s: Seq<char>) -> bool {
    (exists|i: int| 0 <= i < s.len() && s[i] == ':') && !(s.len() > 0 && s[0] == '/')
}

/// The index of the first ':' of `s`, or `s.len()` when there is none.
pub open spec fn first_colon(s: Seq<char>) -> int {
    if exists|i: int| 0 <= i < s.len() && s[i] == ':' {
        choose|i: int| 0 <= i < s.len() && s[i] == ':' && forall|j: int| 0 <= j < i ==> s[j] != ':'
    } else {
        s.len() as int
    }
}

pub fn colon_from(s: &Vec<char>, from: usize) -> (r: usize)
    requires
        from <= s@.len(),
    ensures
        from <= r <= s@.len(),
        r < s@.len() ==> s@[r as int] == ':',
        forall|j: int| from <= j < r ==> s@[j] != ':',
{
    let mut i = from;
    while i < s.len()
        invariant
            from <= i <= s@.len(),
            forall|j: int| from <= j < i ==> s@[j] != ':',
        decreases s@.len() - i,
    {
        if s[i] == ':' {
            return i;
        }
        i = i + 1;
    }
    i
}

pub fn first_colon_exec(s: &Vec<char>) -> (r: usize)
    ensures
        r == first_colon(s@),
        r <= s@.len(),
        r < s@.len() ==> s@[r as int] == ':',
        forall|j: int| 0 <= j < r ==> s@[j] != ':',
{
    let r = colon_from(s, 0);
    if r < s.len() {
        assert(forall|k: int|
            0 <= k < s@.len() && s@[k] == ':' && (forall|j: int| 0 <= j < k ==> s@[j] != ':')
                ==> k == r) by {
            assert forall|k: int|
                0 <= k < s@.len() && s@[k] == ':' && (forall|j: int| 0 <= j < k ==> s@[j] != ':')
                    implies k == r by {
                if k < r {
                    assert(s@[k] != ':');
                }
                if k > r {
                    assert(s@[r as int] != ':');
                }
            }
        }
    }
    r
}

/// The host part of an SSH remote: up to its first ':'.
pub open spec fn ssh_host(s: Seq<char>) -> Seq<char> {
    s.subrange(0, first_colon(s))
}

/// The path part of an SSH remote: between its first ':' and the next one
/// (or the end); empty when it holds no ':'.
pub open spec fn ssh_path(s: Seq<char>) -> Seq<char> {
    let c = first_colon(s);
    if c >= s.len() {
        seq![]
    } else {
        let rest = s.subrange(c + 1, s.len() as int);
        rest.subrange(0, first_colon(rest))
    }
}

impl RemoteLibrary {
    /// Parses a remote: `user@host:/path` is an SSH remote; anything else is
    /// a mounted path, accepted when it exists (`path_exists`).
    pub fn parse(remote_str: &str, path_exists: bool) -> (r: Result<RemoteLibrary, PhotosortError>)
        ensures
            is_ssh_remote(remote_str@) ==> (r matches Ok(l) && l.path@ == remote_str@ && l.is_ssh
                && l.local_path is None),
            !is_ssh_remote(remote_str@) && path_exists ==> (r matches Ok(l) && l.path@
                == remote_str@ && !l.is_ssh && l.local_path == Some(l.path)),
            !is_ssh_remote(remote_str@) && !path_exists ==> (r matches Err(
                PhotosortError::Library(m),
            ) && m@ == "Remote path does not exist: "@ + remote_str@),
    {
        let s = chars_of(remote_str);
        let c = first_colon_exec(&s);
        let starts_slash = s.len() > 0 && s[0] == '/';
        if c < s.len() && !starts_slash {
            assert(s@[c as int] == ':');
            Ok(RemoteLibrary { path: String::from_str(remote_str), is_ssh: true, local_path: None })
        } else {
            proof {
                if c >= s@.len() {
                    assert forall|i: int| 0 <= i < s@.len() implies s@[i] != ':' by {
                        assert(i < c);
                    }
                }
            }
            if !path_exists {
                let mut m: Vec<char> = Vec::new();
                push_str(&mut m, "Remote path does not exist: ");
                push_chars(&mut m, &s);
                return Err(PhotosortError::Library(string_of(&m)));
            }
            let p = String::from_str(remote_str);
            let q = p.clone();
            Ok(RemoteLibrary { path: p, is_ssh: false, local_path: Some(q) })
        }
    }

    /// The SSH host of the remote ("user@host" of "user@host:/path").
    pub fn get_ssh_host(&self) -> (r: String)
        ensures
            r@ == ssh_host(self.path@),
    {
        let s = chars_of(self.path.as_str());
        let c = first_colon_exec(&s);
        string_of(&slice_chars(&s, 0, c))
    }

    /// The path on the SSH host ("/path" of "user@host:/path").
    pub fn get_ssh_path(&self) -> (r: String)
        ensures
            r@ == ssh_path(self.path@),
    {
        let s = chars_of(self.path.as_str());
        let c = first_colon_exec(&s);
        if c >= s.len() {
            return String::new();
        }
        let rest = slice_chars(&s, c + 1, s.len());
        let d = first_colon_exec(&rest);
        string_of(&slice_chars(&rest, 0, d))
    }
}

/// What a push does with one local sidecar row.
#[derive(Debug, Clone, Copy, PartialEq, Eq, Structural)]
pub enum SidecarAction {
    /// Nothing: it is in sync, or it travels with its new media file.
    Keep,
    /// Push it: the remote lacks it or holds an older one.
    Update,
    /// Ask: the remote holds a newer one.
    Conflict,
}

/// The media row with id `id`.
pub open spec fn media_by_id(db: Database, id: i64) -> MediaRecord {
    db.media@[choose|i: int| 0 <= i < db.media@.len() && db.media@[i].id == id]
}

/// The media row with content hash `h`.
pub open spec fn media_by_hash(db: Database, h: Seq<char>) -> MediaRecord {
    db.media@[choose|i: int| 0 <= i < db.media@.len() && db.media@[i].hash@ == h]
}

/// Whether media item `id` of `db` owns a sidecar named `name`, and which.
pub open spec fn sidecar_by(db: Database, id: i64, name: Seq<char>) -> SidecarRecord {
    db.sidecars@[choose|j: int|
        0 <= j < db.sidecars@.len() && db.sidecars@[j].media_id == id && db.sidecars@[j].filename@
            == name]
}

/// What a push from `local` to `remote` does with local sidecar row `s`: it
/// is pushed where the remote copy of its media item lacks it or holds it
/// with an earlier modification time, and is a conflict where the remote's
/// is later.
pub open spec fn sidecar_action(local: Database, remote: Database, s: SidecarRecord) -> SidecarAction {
    let m = media_by_id(local, s.media_id);
    if !remote.has_hash(m.hash@) {
        SidecarAction::Keep
    } else {
        let rm = media_by_hash(remote, m.hash@);
        if !remote.has_sidecar(rm.id, s.filename@) {
            SidecarAction::Update
        } else {
            let r = sidecar_by(remote, rm.id, s.filename@);
            if s.modified_at@ == r.modified_at@ {
                SidecarAction::Keep
            } else if text_le(r.modified_at@, s.modified_at@) {
                SidecarAction::Update
            } else {
                SidecarAction::Conflict
            }
        }
    }
}

/// What a push from one library to another will do.
#[derive(Debug)]
pub struct PushPlan {
    /// Positions of the local media rows whose content the remote lacks.
    pub new_media: Vec<usize>,
    /// Positions of the local sidecar rows to push.
    pub sidecar_updates: Vec<usize>,
    /// Positions of the local sidecar rows in conflict.
    pub conflicts: Vec<usize>,
}

/// The positions below `n` that `p` keeps, in order.
pub open spec fn positions(n: int, p: spec_fn(int) -> bool) -> Seq<int> {
    Seq::new(n as nat, |i: int| i).filter(p)
}

fn sidecar_index(db: &Database, id: i64, name: &Vec<char>) -> (r: Option<usize>)
    requires
        db.wf(),
    ensures
        match r {
            Some(j) => j < db.sidecars@.len() && db.has_sidecar(id, name@) && db.sidecars@[j as int]
                == sidecar_by(*db, id, name@),
            None => !db.has_sidecar(id, name@),
        },
{
    let mut j: usize = 0;
    while j < db.sidecars.len()
        invariant
            db.wf(),
            j <= db.sidecars@.len(),
            forall|t: int|
                0 <= t < j ==> !(db.sidecars@[t].media_id == id && db.sidecars@[t].filename@ == name@),
        decreases db.sidecars@.len() - j,
    {
        if db.sidecars[j].media_id == id && same_chars(&chars_of(db.sidecars[j].filename.as_str()), name) {
            proof {
                let w = choose|w: int|
                    0 <= w < db.sidecars@.len() && db.sidecars@[w].media_id == id
                        && db.sidecars@[w].filename@ == name@;
                if w != j {
                    if w < j {
                        assert(!(db.sidecars@[w].media_id == id && db.sidecars@[w].filename@ == name@));
                    } else {
                        assert(db.sidecars@[j as int].media_id != db.sidecars@[w].media_id
                            || db.sidecars@[j as int].filename@ != db.sidecars@[w].filename@);
                    }
                }
            }
            return Some(j);
        }
        j = j + 1;
    }
    None
}

proof fn lemma_hash_row(db: Database, i: int)
    requires
        db.wf(),
        0 <= i < db.media@.len(),
    ensures
        media_by_hash(db, db.media@[i].hash@) == db.media@[i],
{
    let h = db.media@[i].hash@;
    let w = choose|w: int| 0 <= w < db.media@.len() && db.media@[w].hash@ == h;
    if w != i {
        if w < i {
            assert(db.media@[w].hash@ != db.media@[i].hash@);
        } else {
            assert(db.media@[i].hash@ != db.media@[w].hash@);
        }
    }
}

proof fn lemma_id_row(db: Database, i: int)
    requires
        db.wf(),
        0 <= i < db.media@.len(),
    ensures
        media_by_id(db, db.media@[i].id) == db.media@[i],
{
    let id = db.media@[i].id;
    let w = choose|w: int| 0 <= w < db.media@.len() && db.media@[w].id == id;
    if w != i {
        if w < i {
            assert(db.media@[w].id != db.media@[i].id);
        } else {
            assert(db.media@[i].id != db.media@[w].id);
        }
    }
}

/// The action of local sidecar row `k`.
pub fn action_of(local: &Database, remote: &Database, k: usize) -> (r: SidecarAction)
    requires
        local.wf(),
        remote.wf(),
        k < local.sidecars@.len(),
    ensures
        r == sidecar_action(*local, *remote, local.sidecars@[k as int]),
{
    let s = &local.sidecars[k];
    assert(local.has_media_id(s.media_id));
    let mi = media_index(local, s.media_id);
    proof {
        let w = choose|w: int| 0 <= w < local.media@.len() && local.media@[w].id == s.media_id;
        lemma_id_row(*local, mi as int);
    }
    let m = &local.media[mi];
    match remote.find_hash(m.hash.as_str()) {
        None => SidecarAction::Keep,
        Some(ri) => {
            proof {
                lemma_hash_row(*remote, ri as int);
                assert(remote.has_hash(m.hash@));
            }
            let rid = remote.media[ri].id;
            match sidecar_index(remote, rid, &chars_of(s.filename.as_str())) {
                None => SidecarAction::Update,
                Some(j) => {
                    let lm = chars_of(s.modified_at.as_str());
                    let rm = chars_of(remote.sidecars[j].modified_at.as_str());
                    if same_chars(&lm, &rm) {
                        SidecarAction::Keep
                    } else if text_le_exec(&rm, &lm) {
                        SidecarAction::Update
                    } else {
                        SidecarAction::Conflict
                    }
                },
            }
        },
    }
}

/// Plans a push from `local` to `remote`: the media items whose content the
/// remote lacks, and, for media items on both sides, the sidecars to push and
/// those in conflict, as `sidecar_action` says; all in index order.
pub fn plan_push(local: &Database, remote: &Database) -> (r: PushPlan)
    requires
        local.wf(),
        remote.wf(),
    ensures
        r.new_media@.map_values(|i: usize| i as int) == positions(
            local.media@.len() as int,
            |i: int| !remote.has_hash(local.media@[i].hash@),
        ),
        r.sidecar_updates@.map_values(|i: usize| i as int) == positions(
            local.sidecars@.len() as int,
            |k: int| sidecar_action(*local, *remote, local.sidecars@[k]) == SidecarAction::Update,
        ),
        r.conflicts@.map_values(|i: usize| i as int) == positions(
            local.sidecars@.len() as int,
            |k: int| sidecar_action(*local, *remote, local.sidecars@[k]) == SidecarAction::Conflict,
        ),
{
    let ghost pn = |i: int| !remote.has_hash(local.media@[i].hash@);
    let ghost pu = |k: int| sidecar_action(*local, *remote, local.sidecars@[k]) == SidecarAction::Update;
    let ghost pc = |k: int| sidecar_action(*local, *remote, local.sidecars@[k]) == SidecarAction::Conflict;
    let ghost id = |i: int| i;
    let mut new_media: Vec<usize> = Vec::new();
    let mut i: usize = 0;
    while i < local.media.len()
        invariant
            i <= local.media@.len(),
            pn == (|i: int| !remote.has_hash(local.media@[i].hash@)),
            id == (|i: int| i),
            new_media@.map_values(|i: usize| i as int) == Seq::new(i as nat, id).filter(pn),
        decreases local.media@.len() - i,
    {
        proof {
            reveal(Seq::filter);
            assert(Seq::new((i + 1) as nat, id).drop_last() =~= Seq::new(i as nat, id));
        }
        let ghost before = new_media@.map_values(|i: usize| i as int);
        if !remote.hash_exists(local.media[i].hash.as_str()) {
            new_media.push(i);
            assert(new_media@.map_values(|i: usize| i as int) =~= before.push(i as int));
        }
        i = i + 1;
    }
    let mut updates: Vec<usize> = Vec::new();
    let mut conflicts: Vec<usize> = Vec::new();
    let mut k: usize = 0;
    while k < local.sidecars.len()
        invariant
            local.wf(),
            remote.wf(),
            k <= local.sidecars@.len(),
            pu == (|k: int| sidecar_action(*local, *remote, local.sidecars@[k]) == SidecarAction::Update),
            pc == (|k: int| sidecar_action(*local, *remote, local.sidecars@[k]) == SidecarAction::Conflict),
            id == (|i: int| i),
            updates@.map_values(|i: usize| i as int) == Seq::new(k as nat, id).filter(pu),
            conflicts@.map_values(|i: usize| i as int) == Seq::new(k as nat, id).filter(pc),
        decreases local.sidecars@.len() - k,
    {
        proof {
            reveal(Seq::filter);
            assert(Seq::new((k + 1) as nat, id).drop_last() =~= Seq::new(k as nat, id));
        }
        let a = action_of(local, remote, k);
        let ghost bu = updates@.map_values(|i: usize| i as int);
        let ghost bc = conflicts@.map_values(|i: usize| i as int);
        match a {
            SidecarAction::Update => {
                updates.push(k);
                assert(updates@.map_values(|i: usize| i as int) =~= bu.push(k as int));
            },
            SidecarAction::Conflict => {
                conflicts.push(k);
                assert(conflicts@.map_values(|i: usize| i as int) =~= bc.push(k as int));
            },
            SidecarAction::Keep => {},
        }
        k = k + 1;
    }
    PushPlan { new_media, sidecar_updates: updates, conflicts }
}

} // verus!
