use vstd::prelude::*;
use crate::digits::{padded, push_chars, push_padded, push_str};
use crate::media::MediaType;
use crate::text::{chars_of, string_of};

verus! {

/// A capture time: a calendar date and wall-clock time, with the offset from
/// UTC (in minutes) at which it was recorded.
#[derive(Debug, Clone, Copy, PartialEq, Eq, Structural)]
pub struct CaptureTime {
    pub year: u16,
    pub month: u8,
    pub day: u8,
    pub hour: u8,
    pub minute: u8,
    pub second: u8,
    pub nanosecond: u32,
    pub offset_minutes: i16,
}

/// `s` without its trailing zeros, keeping at least one character.
pub open spec fn trim_zeros(s: Seq<char>) -> Seq<char>
    decreases s.len(),
{
    if s.len() <= 1 || s.last() != '0' {
        s
    } else {
        trim_zeros(s.drop_last())
    }
}

impl CaptureTime {
    /// Every field lies in its range: a four-digit year, a month, a day of a
    /// month, a time of day, and an offset under 26 hours.
    pub open spec fn wf(&self) -> bool {
        &&& self.year <= 9999
        &&& 1 <= self.month <= 12
        &&& 1 <= self.day <= 31
        &&& self.hour < 24
        &&& self.minute < 60
        &&& self.second < 60
        &&& self.nanosecond < 1000000000
        &&& -1560 < self.offset_minutes < 1560
    }

    /// The folder of a capture day: `YYYY/MM-DD`.
    pub open spec fn path_date(&self) -> Seq<char> {
        padded(self.year as nat, 4) + "/"@ + padded(self.month as nat, 2) + "-"@ + padded(
            self.day as nat,
            2,
        )
    }

    /// The fraction of a second: nine digits with trailing zeros dropped.
    pub open spec fn subsecond(&self) -> Seq<char> {
        trim_zeros(padded(self.nanosecond as nat, 9))
    }

    pub open spec fn offset_abs(&self) -> nat {
        if self.offset_minutes < 0 {
            (-self.offset_minutes) as nat
        } else {
            self.offset_minutes as nat
        }
    }

    /// The offset: a sign, then hours and minutes, `+HH:MM`.
    pub open spec fn offset_text(&self) -> Seq<char> {
        (if self.offset_minutes < 0 {
            "-"@
        } else {
            "+"@
        }) + padded(self.offset_abs() / 60, 2) + ":"@ + padded(self.offset_abs() % 60, 2)
    }

    /// The index's text for a time: `YYYY:MM:DD HH:MM:SS.f+HH:MM`. Its fields
    /// have fixed widths but the fraction, whose trailing zeros are dropped;
    /// the signed offset follows it, so that for one offset the text order is
    /// the time order.
    pub open spec fn db_text(&self) -> Seq<char> {
        padded(self.year as nat, 4) + ":"@ + padded(self.month as nat, 2) + ":"@ + padded(
            self.day as nat,
            2,
        ) + " "@ + padded(self.hour as nat, 2) + ":"@ + padded(self.minute as nat, 2) + ":"@
            + padded(self.second as nat, 2) + "."@ + self.subsecond() + self.offset_text()
    }

    /// The `YYYY/MM-DD` folder of this time's day.
    pub fn path_date_string(&self) -> (r: String)
        ensures
            r@ == self.path_date(),
    {
        let mut out: Vec<char> = Vec::new();
        push_padded(&mut out, self.year as u64, 4);
        push_str(&mut out, "/");
        push_padded(&mut out, self.month as u64, 2);
        push_str(&mut out, "-");
        push_padded(&mut out, self.day as u64, 2);
        assert(out@ =~= self.path_date());
        string_of(&out)
    }

    /// The index's text for this time, `YYYY:MM:DD HH:MM:SS.f+HH:MM`.
    pub fn db_string(&self) -> (r: String)
        ensures
            r@ == self.db_text(),
    {
        let mut out: Vec<char> = Vec::new();
        push_padded(&mut out, self.year as u64, 4);
        push_str(&mut out, ":");
        push_padded(&mut out, self.month as u64, 2);
        push_str(&mut out, ":");
        push_padded(&mut out, self.day as u64, 2);
        push_str(&mut out, " ");
        push_padded(&mut out, self.hour as u64, 2);
        push_str(&mut out, ":");
        push_padded(&mut out, self.minute as u64, 2);
        push_str(&mut out, ":");
        push_padded(&mut out, self.second as u64, 2);
        push_str(&mut out, ".");
        let mut frac: Vec<char> = Vec::new();
        push_padded(&mut frac, self.nanosecond as u64, 9);
        assert(frac@ =~= padded(self.nanosecond as nat, 9));
        let frac = trimmed(frac);
        push_chars(&mut out, &frac);
        let abs: u64 = if self.offset_minutes < 0 {
            (-(self.offset_minutes as i32)) as u64
        } else {
            self.offset_minutes as u64
        };
        if self.offset_minutes < 0 {
            push_str(&mut out, "-");
        } else {
            push_str(&mut out, "+");
        }
        push_padded(&mut out, abs / 60, 2);
        push_str(&mut out, ":");
        push_padded(&mut out, abs % 60, 2);
        assert(out@ =~= self.db_text());
        string_of(&out)
    }
}

/// `s` without its trailing zeros, keeping at least one character.
fn trimmed(s: Vec<char>) -> (r: Vec<char>)
    ensures
        r@ == trim_zeros(s@),
{
    let mut v = s;
    while v.len() > 1 && v[v.len() - 1] == '0'
        invariant
            trim_zeros(v@) == trim_zeros(s@),
        decreases v@.len(),
    {
        v.pop();
    }
    v
}

/// A media file's folder in the library: `{images|videos}/YYYY/MM-DD`.
pub open spec fn relpath_of(media_type: MediaType, t: CaptureTime) -> Seq<char> {
    media_type.folder_spec() + "/"@ + t.path_date()
}

/// Where a media file lands in the library, relative to its root.
pub open spec fn destination_of(media_type: MediaType, t: CaptureTime, filename: Seq<char>) -> Seq<
    char,
> {
    relpath_of(media_type, t) + "/"@ + filename
}

/// The folder, relative to the library root, that holds a media file of this
/// kind captured at `t`: `{images|videos}/YYYY/MM-DD`.
pub fn relpath_for(media_type: MediaType, t: &CaptureTime) -> (r: String)
    ensures
        r@ == relpath_of(media_type, *t),
{
    let mut out: Vec<char> = Vec::new();
    push_str(&mut out, media_type.folder_name());
    push_str(&mut out, "/");
    let d = chars_of(t.path_date_string().as_str());
    push_chars(&mut out, &d);
    assert(out@ =~= relpath_of(media_type, *t));
    string_of(&out)
}

/// The path, relative to the library root, of a media file of this kind,
/// captured at `t`, with this file name: `{images|videos}/YYYY/MM-DD/{filename}`.
pub fn destination_path(media_type: MediaType, t: &CaptureTime, filename: &str) -> (r: String)
    ensures
        r@ == destination_of(media_type, *t, filename@),
{
    let mut out = chars_of(relpath_for(media_type, t).as_str());
    push_str(&mut out, "/");
    push_str(&mut out, filename);
    assert(out@ =~= destination_of(media_type, *t, filename@));
    string_of(&out)
}

/// The destination of a file depends on its kind, capture time and file name
/// alone: the same three give the same path, whatever else differs.
pub proof fn lemma_destination_deterministic(
    t1: MediaType,
    c1: CaptureTime,
    f1: Seq<char>,
    t2: MediaType,
    c2: CaptureTime,
    f2: Seq<char>,
)
    requires
        t1 == t2,
        c1 == c2,
        f1 == f2,
    ensures
        destination_of(t1, c1, f1) == destination_of(t2, c2, f2),
        relpath_of(t1, c1) == relpath_of(t2, c2),
{
}

/// Where a capture time comes from, in the order in which sources are tried.
#[derive(Debug, Clone, Copy, PartialEq, Eq, Structural)]
pub enum TimeSource {
    CreateDate,
    DateTimeOriginal,
    FileCreated,
    Now,
}

/// The capture time of a file: the first of the metadata's creation date, its
/// original date and the file system's creation time that is known, else the
/// time now, reported as a degraded result.
pub fn choose_capture_time(
    create_date: Option<CaptureTime>,
    date_time_original: Option<CaptureTime>,
    file_created: Option<CaptureTime>,
    now: CaptureTime,
) -> (r: (CaptureTime, TimeSource))
    ensures
        r == (match (create_date, date_time_original, file_created) {
            (Some(t), _, _) => (t, TimeSource::CreateDate),
            (None, Some(t), _) => (t, TimeSource::DateTimeOriginal),
            (None, None, Some(t)) => (t, TimeSource::FileCreated),
            (None, None, None) => (now, TimeSource::Now),
        }),
{
    match create_date {
        Some(t) => (t, TimeSource::CreateDate),
        None => match date_time_original {
            Some(t) => (t, TimeSource::DateTimeOriginal),
            None => match file_created {
                Some(t) => (t, TimeSource::FileCreated),
                None => (now, TimeSource::Now),
            },
        },
    }
}

} // verus!
