use vstd::prelude::*;
use crate::parse::{parse_i64, parse_i64_spec, trim, trim_chars};
use crate::database::{copy_text, Database, MediaRecord};
use crate::digits::push_str;
use crate::plan::{join_chars, join_path};
use crate::media::MediaType;
use crate::text::{chars_of, slice_chars, string_of, to_upper, upper};

verus! {

/// Which kinds of media a search keeps.
#[derive(Debug, Clone, Copy, PartialEq, Eq, Structural)]
pub enum MediaTypeFilter {
    Image,
    Video,
    All,
}

/// A search query: each filter that is set narrows the results.
#[derive(Debug)]
pub struct SearchQuery {
    pub media_type: Option<MediaTypeFilter>,
    pub date_start: Option<String>,
    pub date_end: Option<String>,
    pub extensions: Vec<String>,
    pub has_sidecar: Option<bool>,
    pub min_size: Option<i64>,
    pub max_size: Option<i64>,
    pub camera: Option<String>,
    pub lens: Option<String>,
}

/// Whether ".." starts at `i` in `s`.
pub open spec fn dotdot_at(s: Seq<char>, i: int) -> bool {
    0 <= i && i + 1 < s.len() && s[i] == '.' && s[i + 1] == '.'
}

/// Whether the first ".." of `s` starts at `i`.
pub open spec fn first_dotdot(s: Seq<char>, i: int) -> bool {
    dotdot_at(s, i) && forall|j: int| 0 <= j < i ==> !dotdot_at(s, j)
}

/// The two sides of the one ".." in `s`: `None` when `s` holds no "..", or
/// holds another one after the first.
pub open spec fn split_dotdot(s: Seq<char>) -> Option<(Seq<char>, Seq<char>)> {
    if exists|i: int| first_dotdot(s, i) {
        let i = choose|i: int| first_dotdot(s, i);
        if exists|j: int| i + 2 <= j && dotdot_at(s, j) {
            None
        } else {
            Some((s.subrange(0, i), s.subrange(i + 2, s.len() as int)))
        }
    } else {
        None
    }
}

fn find_dotdot(s: &Vec<char>, from: usize) -> (r: Option<usize>)
    ensures
        match r {
            Some(i) => from <= i && dotdot_at(s@, i as int) && forall|j: int|
                from <= j < i ==> !dotdot_at(s@, j),
            None => forall|j: int| from <= j ==> !dotdot_at(s@, j),
        },
{
    let n = s.len();
    if n == 0 || from >= n - 1 {
        return None;
    }
    let mut i: usize = from;
    while i < n - 1
        invariant
            n == s@.len(),
            n >= 1,
            from <= i,
            forall|j: int| from <= j < i ==> !dotdot_at(s@, j),
        decreases n - i,
    {
        if s[i] == '.' && s[i + 1] == '.' {
            return Some(i);
        }
        i = i + 1;
    }
    None
}

/// Splits `s` at its one "..", as `split_dotdot` says.
pub fn split_range(s: &Vec<char>) -> (r: Option<(Vec<char>, Vec<char>)>)
    ensures
        match r {
            Some((a, b)) => split_dotdot(s@) == Some((a@, b@)),
            None => split_dotdot(s@) is None,
        },
{
    let _n = s.len();
    match find_dotdot(s, 0) {
        None => {
            assert(!exists|i: int| first_dotdot(s@, i));
            None
        },
        Some(i) => {
            assert(first_dotdot(s@, i as int));
            assert forall|k: int| first_dotdot(s@, k) implies k == i by {
                if k < i {
                    assert(!dotdot_at(s@, k));
                } else if k > i {
                    assert(!dotdot_at(s@, i as int));
                }
            }
            match find_dotdot(s, i + 2) {
                Some(j) => {
                    assert(dotdot_at(s@, j as int));
                    None
                },
                None => Some((slice_chars(s, 0, i), slice_chars(s, i + 2, s.len()))),
            }
        },
    }
}

/// `u` ends with `x` and `y`.
pub open spec fn ends_with2(u: Seq<char>, x: char, y: char) -> bool {
    u.len() >= 2 && u[u.len() - 2] == x && u[u.len() - 1] == y
}

/// The digits and the multiplier of a size: a unit of GB, MB, KB or B (bytes
/// when there is none), without regard to case, after a number.
pub open spec fn size_parts(s: Seq<char>) -> (Seq<char>, int) {
    let u = upper(trim(s));
    if ends_with2(u, 'G', 'B') {
        (u.subrange(0, u.len() - 2), 1073741824)
    } else if ends_with2(u, 'M', 'B') {
        (u.subrange(0, u.len() - 2), 1048576)
    } else if ends_with2(u, 'K', 'B') {
        (u.subrange(0, u.len() - 2), 1024)
    } else if u.len() >= 1 && u[u.len() - 1] == 'B' {
        (u.subrange(0, u.len() - 1), 1)
    } else {
        (u, 1)
    }
}

/// The byte count that a size like "10MB" or "1gb" stands for: `None` when
/// the number does not parse or the count does not fit in an `i64`.
pub open spec fn size_value(s: Seq<char>) -> Option<i64> {
    match parse_i64_spec(trim(size_parts(s).0)) {
        Some(n) => if i64::MIN <= n * size_parts(s).1 <= i64::MAX {
            Some((n * size_parts(s).1) as i64)
        } else {
            None
        },
        None => None,
    }
}

fn size_value_of(s: &Vec<char>) -> (r: Option<i64>)
    ensures
        r == size_value(s@),
{
    let u = to_upper(&trim_chars(s));
    let n = u.len();
    let (num, mult): (Vec<char>, i64) = if n >= 2 && u[n - 2] == 'G' && u[n - 1] == 'B' {
        (slice_chars(&u, 0, n - 2), 1073741824)
    } else if n >= 2 && u[n - 2] == 'M' && u[n - 1] == 'B' {
        (slice_chars(&u, 0, n - 2), 1048576)
    } else if n >= 2 && u[n - 2] == 'K' && u[n - 1] == 'B' {
        (slice_chars(&u, 0, n - 2), 1024)
    } else if n >= 1 && u[n - 1] == 'B' {
        (slice_chars(&u, 0, n - 1), 1)
    } else {
        (slice_chars(&u, 0, n), 1)
    };
    assert(u@.subrange(0, n as int) =~= u@);
    match parse_i64(&trim_chars(&num)) {
        Some(v) => v.checked_mul(mult),
        None => None,
    }
}

/// Parses a size like "10MB", "1GB", "512kb" or "100" into bytes.
pub fn parse_size_value(s: &str) -> (r: Option<i64>)
    ensures
        r == size_value(s@),
{
    size_value_of(&chars_of(s))
}

/// The bounds that a size filter gives: "A..B" both (each side a size),
/// ">A" the least, "<B" the most, and a single size both.
pub open spec fn size_filter(s: Seq<char>) -> (Option<i64>, Option<i64>) {
    let t = trim(s);
    match split_dotdot(t) {
        Some((a, b)) => (size_value(a), size_value(b)),
        None => if t.len() > 0 && t[0] == '>' {
            (size_value(t.drop_first()), None)
        } else if t.len() > 0 && t[0] == '<' {
            (None, size_value(t.drop_first()))
        } else {
            (size_value(t), size_value(t))
        },
    }
}

/// The bounds that a date filter gives: "A..B" from A to B, a single date
/// that day alone.
pub open spec fn date_filter(s: Seq<char>) -> (Seq<char>, Seq<char>) {
    match split_dotdot(s) {
        Some((a, b)) => (a, b),
        None => (s, s),
    }
}

/// How a size filter bounds sizes: by two sides of "..", by one with '>' or
/// '<', or by a single size.
pub open spec fn size_filter_form(s: Seq<char>) -> int {
    let t = trim(s);
    if split_dotdot(t) is Some {
        0
    } else if t.len() > 0 && t[0] == '>' {
        1
    } else if t.len() > 0 && t[0] == '<' {
        2
    } else {
        3
    }
}

impl SearchQuery {
    /// A query with no filter set: it keeps every item.
    pub fn new() -> (r: SearchQuery)
        ensures
            r.media_type is None && r.date_start is None && r.date_end is None
                && r.extensions@.len() == 0 && r.has_sidecar is None && r.min_size is None
                && r.max_size is None && r.camera is None && r.lens is None,
    {
        SearchQuery {
            media_type: None,
            date_start: None,
            date_end: None,
            extensions: Vec::new(),
            has_sidecar: None,
            min_size: None,
            max_size: None,
            camera: None,
            lens: None,
        }
    }

    /// Sets the size bounds from a filter: "A..B" keeps sizes from A to B
    /// inclusive, ">A" sizes above A, "<B" sizes below B, and "A" size A alone.
    /// A side that does not parse leaves that bound unset.
    pub fn set_size_filter(&mut self, size_str: &str)
        ensures
            final(self).media_type == old(self).media_type,
            final(self).date_start == old(self).date_start,
            final(self).date_end == old(self).date_end,
            final(self).extensions == old(self).extensions,
            final(self).has_sidecar == old(self).has_sidecar,
            final(self).camera == old(self).camera,
            final(self).lens == old(self).lens,
            ({
                let (lo, hi) = size_filter(size_str@);
                let form = size_filter_form(size_str@);
                &&& form == 1 ==> final(self).max_size is None && final(self).min_size == match lo {
                    Some(v) => if v < i64::MAX {
                        Some((v + 1) as i64)
                    } else {
                        Some(i64::MAX)
                    },
                    None => None,
                }
                &&& form == 2 ==> final(self).min_size is None && final(self).max_size == match hi {
                    Some(v) => if v > i64::MIN {
                        Some((v - 1) as i64)
                    } else {
                        Some(i64::MIN)
                    },
                    None => None,
                }
                &&& (form == 0 || form == 3) ==> final(self).min_size == lo && final(self).max_size == hi
            }),
    {
        let t = trim_chars(&chars_of(size_str));
        let (lo, hi) = SearchQuery::parse_size_filter(size_str);
        let is_range = split_range(&t).is_some();
        if !is_range && t.len() > 0 && t[0] == '>' {
            self.min_size = match lo {
                Some(v) => if v < i64::MAX {
                    Some(v + 1)
                } else {
                    Some(i64::MAX)
                },
                None => None,
            };
            self.max_size = None;
        } else if !is_range && t.len() > 0 && t[0] == '<' {
            self.min_size = None;
            self.max_size = match hi {
                Some(v) => if v > i64::MIN {
                    Some(v - 1)
                } else {
                    Some(i64::MIN)
                },
                None => None,
            };
        } else {
            self.min_size = lo;
            self.max_size = hi;
        }
    }

    /// Parses a date filter like "2024-01-15" or "2024-01-01..2024-12-31"
    /// into its first and last day.
    pub fn parse_date_filter(date_str: &str) -> (r: (Option<String>, Option<String>))
        ensures
            r.0 is Some && r.1 is Some,
            r.0->0@ == date_filter(date_str@).0,
            r.1->0@ == date_filter(date_str@).1,
    {
        let s = chars_of(date_str);
        match split_range(&s) {
            Some((a, b)) => (Some(string_of(&a)), Some(string_of(&b))),
            None => (Some(string_of(&s)), Some(string_of(&s))),
        }
    }

    /// Parses a size filter like ">10MB", "<1GB", "5MB..50MB" or "2KB" into
    /// the least and the most byte count it allows.
    pub fn parse_size_filter(size_str: &str) -> (r: (Option<i64>, Option<i64>))
        ensures
            r == size_filter(size_str@),
    {
        let t = trim_chars(&chars_of(size_str));
        match split_range(&t) {
            Some((a, b)) => (size_value_of(&a), size_value_of(&b)),
            None => {
                let n = t.len();
                if n > 0 && t[0] == '>' {
                    let rest = slice_chars(&t, 1, n);
                    assert(rest@ =~= t@.drop_first());
                    (size_value_of(&rest), None)
                } else if n > 0 && t[0] == '<' {
                    let rest = slice_chars(&t, 1, n);
                    assert(rest@ =~= t@.drop_first());
                    (None, size_value_of(&rest))
                } else {
                    let v = size_value_of(&t);
                    (v, v)
                }
            },
        }
    }
}

/// Whether `a` comes no later than `b` in code-point order, the order in
/// which the index compares text.
pub open spec fn text_le(a: Seq<char>, b: Seq<char>) -> bool
    decreases a.len(),
{
    if a.len() == 0 {
        true
    } else if b.len() == 0 {
        false
    } else if a[0] != b[0] {
        a[0] < b[0]
    } else {
        text_le(a.drop_first(), b.drop_first())
    }
}

pub fn text_le_exec(a: &Vec<char>, b: &Vec<char>) -> (r: bool)
    ensures
        r == text_le(a@, b@),
{
    let mut i: usize = 0;
    assert(a@.subrange(0, a@.len() as int) =~= a@);
    assert(b@.subrange(0, b@.len() as int) =~= b@);
    while i < a.len()
        invariant
            i <= a@.len(),
            i <= b@.len(),
            forall|j: int| 0 <= j < i ==> a@[j] == b@[j],
            text_le(a@, b@) == text_le(a@.subrange(i as int, a@.len() as int), b@.subrange(i as int, b@.len() as int)),
        decreases a@.len() - i,
    {
        if i >= b.len() {
            return false;
        }
        if a[i] != b[i] {
            return a[i] < b[i];
        }
        assert(a@.subrange(i as int, a@.len() as int).drop_first() =~= a@.subrange(i + 1, a@.len() as int));
        assert(b@.subrange(i as int, b@.len() as int).drop_first() =~= b@.subrange(i + 1, b@.len() as int));
        i = i + 1;
    }
    true
}

/// Whether `needle` occurs in `hay`, without regard to ASCII case.
pub open spec fn contains_ci(hay: Seq<char>, needle: Seq<char>) -> bool {
    exists|i: int| occurs_at(upper(hay), upper(needle), i)
}

/// Whether `n` occurs in `h` at `i`.
pub open spec fn occurs_at(h: Seq<char>, n: Seq<char>, i: int) -> bool {
    0 <= i && i + n.len() <= h.len() && h.subrange(i, i + n.len()) == n
}

pub fn contains_ci_exec(hay: &Vec<char>, needle: &Vec<char>) -> (r: bool)
    ensures
        r == contains_ci(hay@, needle@),
{
    let h = to_upper(hay);
    let nd = to_upper(needle);
    if nd.len() > h.len() {
        return false;
    }
    let hl: usize = h.len();
    let limit: usize = hl - nd.len();
    let mut i: usize = 0;
    loop
        invariant
            hl == h@.len(),
            limit == h@.len() - nd@.len(),
            h@ == upper(hay@),
            nd@ == upper(needle@),
            nd@.len() <= h@.len(),
            h@.len() == hay@.len(),
            nd@.len() == needle@.len(),
            i <= limit,
            forall|j: int| 0 <= j < i ==> !occurs_at(h@, nd@, j),
        ensures
            forall|j: int| 0 <= j <= limit ==> !occurs_at(h@, nd@, j),
        decreases limit - i,
    {
        assert(i + nd@.len() <= h@.len());
        if crate::text::same_chars(&slice_chars(&h, i, i + nd.len()), &nd) {
            assert(occurs_at(h@, nd@, i as int));
            return true;
        }
        if i == limit {
            break;
        }
        i = i + 1;
    }
    assert forall|j: int| !occurs_at(h@, nd@, j) by {
        if 0 <= j && j + nd@.len() <= h@.len() {
            assert(j <= limit);
        }
    }
    false
}

/// Whether an indexed item passes every filter of `q` that is set; `sidecars`
/// tells whether the item has a sidecar.
pub open spec fn matches(q: SearchQuery, m: MediaRecord, sidecars: bool) -> bool {
    &&& match q.media_type {
        Some(MediaTypeFilter::Image) => m.media_type == MediaType::Image,
        Some(MediaTypeFilter::Video) => m.media_type == MediaType::Video,
        _ => true,
    }
    &&& match q.date_start {
        Some(d) => text_le(d@ + ":00:00:00"@, m.created_at@),
        None => true,
    }
    &&& match q.date_end {
        Some(d) => text_le(m.created_at@, d@ + ":23:59:59"@),
        None => true,
    }
    &&& (q.extensions@.len() == 0 || exists|i: int|
        0 <= i < q.extensions@.len() && upper(q.extensions@[i]@) == upper(m.filetype@))
    &&& match q.min_size {
        Some(v) => m.file_size >= v,
        None => true,
    }
    &&& match q.max_size {
        Some(v) => m.file_size <= v,
        None => true,
    }
    &&& match q.camera {
        Some(c) => m.exif.camera_model is Some && contains_ci(m.exif.camera_model->0@, c@),
        None => true,
    }
    &&& match q.lens {
        Some(l) => m.exif.lens is Some && contains_ci(m.exif.lens->0@, l@),
        None => true,
    }
    &&& match q.has_sidecar {
        Some(w) => w == sidecars,
        None => true,
    }
}

/// One item that a search found.
#[derive(Debug)]
pub struct SearchResult {
    pub id: i64,
    pub filename: String,
    pub relpath: String,
    pub media_type: String,
    pub filetype: String,
    pub file_size: u64,
    pub created_at: String,
    pub camera_model: Option<String>,
    pub has_sidecar: bool,
    pub full_path: String,
}

/// Whether media item `id` owns some sidecar row.
pub open spec fn owns_sidecar(db: Database, id: i64) -> bool {
    exists|i: int| 0 <= i < db.sidecars@.len() && db.sidecars@[i].media_id == id
}

/// The items of `db` that pass `q`, in index order.
pub open spec fn found(db: Database, q: SearchQuery) -> Seq<MediaRecord> {
    db.media@.filter(|m: MediaRecord| matches(q, m, owns_sidecar(db, m.id)))
}

/// `r` reports item `m` of a library at `root`.
pub open spec fn reports(r: SearchResult, m: MediaRecord, db: Database, root: Seq<char>) -> bool {
    &&& r.id == m.id
    &&& r.filename == m.filename
    &&& r.relpath == m.relpath
    &&& r.media_type@ == m.media_type.name_spec()
    &&& r.filetype == m.filetype
    &&& r.file_size == m.file_size
    &&& r.created_at == m.created_at
    &&& r.camera_model == m.exif.camera_model
    &&& r.has_sidecar == owns_sidecar(db, m.id)
    &&& r.full_path@ == join_path(join_path(root, m.relpath@), m.filename@)
}

fn owns_sidecar_exec(db: &Database, id: i64) -> (r: bool)
    ensures
        r == owns_sidecar(*db, id),
{
    let mut i: usize = 0;
    while i < db.sidecars.len()
        invariant
            i <= db.sidecars@.len(),
            forall|j: int| 0 <= j < i ==> db.sidecars@[j].media_id != id,
        decreases db.sidecars@.len() - i,
    {
        if db.sidecars[i].media_id == id {
            return true;
        }
        i = i + 1;
    }
    false
}

fn opt_text_le(bound: &Option<String>, suffix: &str, value: &Vec<char>, upper_bound: bool) -> (r: bool)
    ensures
        r == match *bound {
            Some(d) => if upper_bound {
                text_le(value@, d@ + suffix@)
            } else {
                text_le(d@ + suffix@, value@)
            },
            None => true,
        },
{
    match bound {
        Some(d) => {
            let mut b = chars_of(d.as_str());
            push_str(&mut b, suffix);
            if upper_bound {
                text_le_exec(value, &b)
            } else {
                text_le_exec(&b, value)
            }
        },
        None => true,
    }
}

fn opt_contains(field: &Option<String>, needle: &Option<String>) -> (r: bool)
    ensures
        r == match *needle {
            Some(c) => field is Some && contains_ci(field->0@, c@),
            None => true,
        },
{
    match needle {
        Some(c) => match field {
            Some(f) => contains_ci_exec(&chars_of(f.as_str()), &chars_of(c.as_str())),
            None => false,
        },
        None => true,
    }
}

fn extension_listed(exts: &Vec<String>, filetype: &String) -> (r: bool)
    ensures
        r == (exts@.len() == 0 || exists|i: int|
            0 <= i < exts@.len() && upper(exts@[i]@) == upper(filetype@)),
{
    if exts.len() == 0 {
        return true;
    }
    let ft = to_upper(&chars_of(filetype.as_str()));
    let mut i: usize = 0;
    while i < exts.len()
        invariant
            i <= exts@.len(),
            ft@ == upper(filetype@),
            forall|j: int| 0 <= j < i ==> upper(exts@[j]@) != upper(filetype@),
        decreases exts@.len() - i,
    {
        let e = to_upper(&chars_of(exts[i].as_str()));
        if crate::text::same_chars(&e, &ft) {
            return true;
        }
        i = i + 1;
    }
    false
}

/// Whether an indexed item passes every filter of `q` that is set.
pub fn matches_query(q: &SearchQuery, m: &MediaRecord, sidecars: bool) -> (r: bool)
    ensures
        r == matches(*q, *m, sidecars),
{
    let kind_ok = match q.media_type {
        Some(MediaTypeFilter::Image) => m.media_type == MediaType::Image,
        Some(MediaTypeFilter::Video) => m.media_type == MediaType::Video,
        _ => true,
    };
    let created = chars_of(m.created_at.as_str());
    let start_ok = opt_text_le(&q.date_start, ":00:00:00", &created, false);
    let end_ok = opt_text_le(&q.date_end, ":23:59:59", &created, true);
    let ext_ok = extension_listed(&q.extensions, &m.filetype);
    let min_ok = match q.min_size {
        Some(v) => v < 0 || m.file_size >= v as u64,
        None => true,
    };
    let max_ok = match q.max_size {
        Some(v) => v >= 0 && m.file_size <= v as u64,
        None => true,
    };
    let camera_ok = opt_contains(&m.exif.camera_model, &q.camera);
    let lens_ok = opt_contains(&m.exif.lens, &q.lens);
    let sidecar_ok = match q.has_sidecar {
        Some(w) => w == sidecars,
        None => true,
    };
    kind_ok && start_ok && end_ok && ext_ok && min_ok && max_ok && camera_ok && lens_ok && sidecar_ok
}

fn copy_result(m: &MediaRecord, root: &Vec<char>, sidecars: bool) -> (r: SearchResult)
    ensures
        r.id == m.id,
        r.filename == m.filename,
        r.relpath == m.relpath,
        r.media_type@ == m.media_type.name_spec(),
        r.filetype == m.filetype,
        r.file_size == m.file_size,
        r.created_at == m.created_at,
        r.camera_model == m.exif.camera_model,
        r.has_sidecar == sidecars,
        r.full_path@ == join_path(join_path(root@, m.relpath@), m.filename@),
{
    let dir = join_chars(root, &chars_of(m.relpath.as_str()));
    let full = join_chars(&dir, &chars_of(m.filename.as_str()));
    SearchResult {
        id: m.id,
        filename: m.filename.clone(),
        relpath: m.relpath.clone(),
        media_type: String::from_str(m.media_type.as_str()),
        filetype: m.filetype.clone(),
        file_size: m.file_size,
        created_at: m.created_at.clone(),
        camera_model: copy_text(&m.exif.camera_model),
        has_sidecar: sidecars,
        full_path: string_of(&full),
    }
}

/// Runs a query over the index of a library at `root`: the items that pass
/// every filter that is set, in index order, each with its full path.
pub fn search(db: &Database, root: &str, query: &SearchQuery) -> (r: Vec<SearchResult>)
    ensures
        r@.len() == found(*db, *query).len(),
        forall|k: int| 0 <= k < r@.len() ==> reports(#[trigger] r@[k], found(*db, *query)[k], *db, root@),
{
    let ghost pred = |m: MediaRecord| matches(*query, m, owns_sidecar(*db, m.id));
    let root_c = chars_of(root);
    let mut out: Vec<SearchResult> = Vec::new();
    let mut i: usize = 0;
    while i < db.media.len()
        invariant
            i <= db.media@.len(),
            root_c@ == root@,
            pred == (|m: MediaRecord| matches(*query, m, owns_sidecar(*db, m.id))),
            out@.len() == db.media@.subrange(0, i as int).filter(pred).len(),
            forall|k: int|
                0 <= k < out@.len() ==> reports(
                    #[trigger] out@[k],
                    db.media@.subrange(0, i as int).filter(pred)[k],
                    *db,
                    root@,
                ),
        decreases db.media@.len() - i,
    {
        proof {
            reveal(Seq::filter);
            assert(db.media@.subrange(0, i + 1).drop_last() =~= db.media@.subrange(0, i as int));
        }
        let m = &db.media[i];
        let sc = owns_sidecar_exec(db, m.id);
        if matches_query(query, m, sc) {
            out.push(copy_result(m, &root_c, sc));
        }
        i = i + 1;
    }
    assert(db.media@.subrange(0, i as int) =~= db.media@);
    out
}

/// A query that bounds sizes alone keeps exactly the items whose size lies
/// within its bounds, both included: with ">A" set as `A + 1` below, that is
/// the items above A; with "A..B", the items from A to B.
pub proof fn lemma_size_bounds(q: SearchQuery, m: MediaRecord, sidecars: bool)
    requires
        q.media_type is None,
        q.date_start is None,
        q.date_end is None,
        q.extensions@.len() == 0,
        q.has_sidecar is None,
        q.camera is None,
        q.lens is None,
    ensures
        matches(q, m, sidecars) <==> (match q.min_size {
            Some(v) => m.file_size >= v,
            None => true,
        }) && (match q.max_size {
            Some(v) => m.file_size <= v,
            None => true,
        }),
        q.min_size == Some(10485761i64) && q.max_size is None ==> (matches(q, m, sidecars)
            <==> m.file_size > 10 * 1024 * 1024),
        q.min_size == Some(5242880i64) && q.max_size == Some(52428800i64) ==> (matches(q, m, sidecars)
            <==> 5 * 1024 * 1024 <= m.file_size <= 50 * 1024 * 1024),
{
}

/// `s` cut to at most `max_len` characters: longer text keeps its first
/// `max_len - 3` characters followed by "...".
pub fn truncate_str(s: &str, max_len: usize) -> (r: String)
    requires
        max_len >= 3,
    ensures
        s@.len() <= max_len ==> r@ == s@,
        s@.len() > max_len ==> r@ == s@.subrange(0, max_len - 3) + "..."@,
{
    let c = chars_of(s);
    if c.len() <= max_len {
        return String::from_str(s);
    }
    let mut out = slice_chars(&c, 0, max_len - 3);
    push_str(&mut out, "...");
    string_of(&out)
}

pub proof fn lemma_text_le_total(a: Seq<char>, b: Seq<char>)
    ensures
        text_le(a, b) || text_le(b, a),
    decreases a.len(),
{
    if a.len() > 0 && b.len() > 0 && a[0] == b[0] {
        lemma_text_le_total(a.drop_first(), b.drop_first());
    }
}

pub proof fn lemma_text_le_trans(a: Seq<char>, b: Seq<char>, c: Seq<char>)
    requires
        text_le(a, b),
        text_le(b, c),
    ensures
        text_le(a, c),
    decreases a.len(),
{
    if a.len() > 0 && b.len() > 0 && c.len() > 0 && a[0] == b[0] && b[0] == c[0] {
        lemma_text_le_trans(a.drop_first(), b.drop_first(), c.drop_first());
    }
}

/// Whether results are ordered newest capture first.
pub open spec fn newest_first(r: Seq<SearchResult>) -> bool {
    forall|i: int, j: int| 0 <= i < j < r.len() ==> text_le(r[j].created_at@, r[i].created_at@)
}

/// Orders results newest capture first, by the index's text order of capture times.
pub fn sort_newest_first(results: Vec<SearchResult>) -> (r: Vec<SearchResult>)
    ensures
        newest_first(r@),
        r@.to_multiset() == results@.to_multiset(),
{
    let mut rest = results;
    let mut out: Vec<SearchResult> = Vec::new();
    let ghost all = rest@;
    proof {
        out@.to_multiset_ensures();
        vstd::multiset::lemma_multiset_empty_len(out@.to_multiset());
        assert(out@.to_multiset().add(rest@.to_multiset()) =~= all.to_multiset());
    }
    while rest.len() > 0
        invariant
            newest_first(out@),
            out@.to_multiset().add(rest@.to_multiset()) == all.to_multiset(),
        decreases rest@.len(),
    {
        let ghost before_rest = rest@;
        let x = rest.pop().unwrap();
        proof {
            assert(before_rest =~= rest@.push(x));
        }
        let key = chars_of(x.created_at.as_str());
        let mut p: usize = 0;
        while p < out.len() && text_le_exec(&key, &chars_of(out[p].created_at.as_str()))
            invariant
                p <= out@.len(),
                key@ == x.created_at@,
                forall|i: int| 0 <= i < p ==> text_le(x.created_at@, #[trigger] out@[i].created_at@),
            decreases out@.len() - p,
        {
            p = p + 1;
        }
        let ghost old_out = out@;
        out.insert(p, x);
        proof {
            assert forall|i: int, j: int| 0 <= i < j < out@.len() implies text_le(
                out@[j].created_at@,
                out@[i].created_at@,
            ) by {
                if i < p && j == p {
                } else if i == p && j > p {
                    let e = old_out[j - 1];
                    if p < old_out.len() {
                        let q = old_out[p as int];
                        assert(!text_le(x.created_at@, q.created_at@));
                        lemma_text_le_total(x.created_at@, q.created_at@);
                        if j - 1 > p {
                            assert(text_le(e.created_at@, q.created_at@));
                            lemma_text_le_trans(e.created_at@, q.created_at@, x.created_at@);
                        }
                    }
                } else if i < p && j > p {
                    assert(text_le(old_out[j - 1].created_at@, old_out[i].created_at@));
                } else if j < p {
                    assert(text_le(old_out[j].created_at@, old_out[i].created_at@));
                } else {
                    assert(text_le(old_out[j - 1].created_at@, old_out[i - 1].created_at@));
                }
            }
            vstd::seq_lib::to_multiset_insert(old_out, p as int, x);
            assert(out@ == old_out.insert(p as int, x));
            assert(out@.to_multiset() == old_out.to_multiset().insert(x));
            rest@.to_multiset_ensures();
            assert(before_rest.to_multiset() == rest@.push(x).to_multiset());
            assert(before_rest.to_multiset() == rest@.to_multiset().insert(x));
            assert(out@.to_multiset().add(rest@.to_multiset()) =~= old_out.to_multiset().add(
                before_rest.to_multiset(),
            ));
        }
    }
    proof {
        rest@.to_multiset_ensures();
        vstd::multiset::lemma_multiset_empty_len(rest@.to_multiset());
        assert(rest@.to_multiset() =~= vstd::multiset::Multiset::empty());
        assert(out@.to_multiset().add(rest@.to_multiset()) =~= out@.to_multiset());
    }
    out
}

} // verus!
