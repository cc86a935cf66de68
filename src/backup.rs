use vstd::prelude::*;
use crate::parse::{all_digits, digits_value, is_space, space, trim, trim_chars};
use crate::search::occurs_at;
use crate::text::{chars_of, slice_chars};

verus! {

/// What a backup run did.
#[derive(Debug, Clone, Copy, PartialEq, Eq, Structural)]
pub struct BackupResult {
    pub files_copied: usize,
    pub bytes_transferred: u64,
    pub backup_id: i64,
}

/// One entry of the backup history.
#[derive(Debug)]
pub struct BackupHistoryEntry {
    pub id: i64,
    pub target_path: String,
    pub started_at: String,
    pub completed_at: Option<String>,
    pub files_copied: i64,
    pub bytes_copied: i64,
    pub status: String,
}

/// The lines of `s`: its parts between line feeds.
pub open spec fn lines_of(s: Seq<char>) -> Seq<Seq<char>>
    decreases s.len(),
{
    if s.len() == 0 {
        seq![seq![]]
    } else {
        let before = lines_of(s.drop_last());
        if s.last() == '\n' {
            before.push(seq![])
        } else {
            before.update(before.len() - 1, before.last().push(s.last()))
        }
    }
}

pub open spec fn has_text(h: Seq<char>, n: Seq<char>) -> bool {
    exists|i: int| occurs_at(h, n, i)
}

/// `s` without its commas.
pub open spec fn without_commas(s: Seq<char>) -> Seq<char> {
    s.filter(|c: char| c != ',')
}

/// The second ':'-separated field of a line (empty when it has no ':').
pub open spec fn second_field(line: Seq<char>) -> Seq<char> {
    let c = crate::push::first_colon(line);
    if c >= line.len() {
        seq![]
    } else {
        let rest = line.subrange(c + 1, line.len() as int);
        rest.subrange(0, crate::push::first_colon(rest))
    }
}

/// The count of leading characters of `s` that are not white space.
pub open spec fn word_len(s: Seq<char>) -> int
    decreases s.len(),
{
    if s.len() == 0 || is_space(s[0]) {
        0
    } else {
        1 + word_len(s.drop_first())
    }
}

/// The value of an unsigned count as `from_str` reads it (an optional '+',
/// then digits), when it is at most `max`; zero otherwise.
pub open spec fn count_or_zero(s: Seq<char>, max: int) -> int {
    let ds = if s.len() > 0 && s[0] == '+' {
        s.drop_first()
    } else {
        s
    };
    if ds.len() > 0 && all_digits(ds) && digits_value(ds) <= max {
        digits_value(ds)
    } else {
        0
    }
}

pub open spec fn files_in(line: Seq<char>) -> int {
    count_or_zero(without_commas(trim(second_field(line))), usize::MAX as int)
}

pub open spec fn bytes_in(line: Seq<char>) -> int {
    let t = trim(second_field(line));
    let w = if word_len(t) == 0 {
        seq!['0']
    } else {
        t.subrange(0, word_len(t))
    };
    count_or_zero(without_commas(w), u64::MAX as int)
}

/// The files and bytes that rsync's statistics report, from the last line
/// of each kind among the first `k` lines.
pub open spec fn rsync_stats(ls: Seq<Seq<char>>, k: int) -> (int, int)
    decreases k,
{
    if k <= 0 {
        (0, 0)
    } else {
        let (f, b) = rsync_stats(ls, k - 1);
        let line = ls[k - 1];
        let f2 = if has_text(line, "files transferred:"@) {
            files_in(line)
        } else {
            f
        };
        let b2 = if has_text(line, "Total transferred file size:"@) {
            bytes_in(line)
        } else {
            b
        };
        (f2, b2)
    }
}

fn has_text_exec(h: &Vec<char>, lit: &str) -> (r: bool)
    ensures
        r == has_text(h@, lit@),
{
    let n = chars_of(lit);
    if n.len() > h.len() {
        return false;
    }
    let hl: usize = h.len();
    let limit: usize = hl - n.len();
    let mut i: usize = 0;
    loop
        invariant
            hl == h@.len(),
            n@ == lit@,
            n@.len() <= h@.len(),
            limit == h@.len() - n@.len(),
            i <= limit,
            forall|j: int| 0 <= j < i ==> !occurs_at(h@, n@, j),
        ensures
            forall|j: int| 0 <= j <= limit ==> !occurs_at(h@, n@, j),
        decreases limit - i,
    {
        assert(i + n@.len() <= h@.len());
        if crate::text::same_chars(&slice_chars(h, i, i + n.len()), &n) {
            assert(occurs_at(h@, n@, i as int));
            return true;
        }
        if i == limit {
            break;
        }
        i = i + 1;
    }
    assert forall|j: int| !occurs_at(h@, n@, j) by {
        if 0 <= j && j + n@.len() <= h@.len() {
            assert(j <= limit);
        }
    }
    false
}

fn drop_commas(s: &Vec<char>) -> (r: Vec<char>)
    ensures
        r@ == without_commas(s@),
{
    let ghost keep = |c: char| c != ',';
    let mut out: Vec<char> = Vec::new();
    let mut i: usize = 0;
    while i < s.len()
        invariant
            i <= s@.len(),
            keep == (|c: char| c != ','),
            out@ == s@.subrange(0, i as int).filter(keep),
        decreases s@.len() - i,
    {
        proof {
            reveal(Seq::filter);
            assert(s@.subrange(0, i + 1).drop_last() =~= s@.subrange(0, i as int));
        }
        if s[i] != ',' {
            out.push(s[i]);
        }
        i = i + 1;
    }
    assert(s@.subrange(0, i as int) =~= s@);
    out
}

fn second_field_of(line: &Vec<char>) -> (r: Vec<char>)
    ensures
        r@ == second_field(line@),
{
    let c = crate::push::first_colon_exec(line);
    if c >= line.len() {
        return Vec::new();
    }
    let rest = slice_chars(line, c + 1, line.len());
    let d = crate::push::first_colon_exec(&rest);
    slice_chars(&rest, 0, d)
}

fn count_of(s: &Vec<char>, max: u64) -> (r: u64)
    ensures
        r as int == count_or_zero(s@, max as int),
{
    let n = s.len();
    let start: usize = if n > 0 && s[0] == '+' {
        1
    } else {
        0
    };
    let ghost ds = if s@.len() > 0 && s@[0] == '+' {
        s@.drop_first()
    } else {
        s@
    };
    assert(ds =~= s@.subrange(start as int, n as int));
    if start >= n {
        return 0;
    }
    let mut acc: u64 = 0;
    let mut over = false;
    let mut i: usize = start;
    while i < n
        invariant
            start <= i <= n == s@.len(),
            start < n,
            ds == s@.subrange(start as int, n as int),
            ds == (if s@.len() > 0 && s@[0] == '+' {
                s@.drop_first()
            } else {
                s@
            }),
            forall|j: int| start <= j < i ==> crate::parse::is_digit(#[trigger] s@[j]),
            !over ==> acc as int == digits_value(s@.subrange(start as int, i as int)) && acc <= max,
            over ==> digits_value(s@.subrange(start as int, i as int)) > max,
        decreases n - i,
    {
        let c = s[i];
        if !('0' <= c && c <= '9') {
            assert(ds[i - start] == s@[i as int]);
            assert(!all_digits(ds));
            return 0;
        }
        let d = (c as u32 - '0' as u32) as u64;
        let ghost pre = s@.subrange(start as int, i as int);
        assert(s@.subrange(start as int, i + 1).drop_last() =~= pre);
        assert forall|j: int| 0 <= j < pre.len() implies crate::parse::is_digit(#[trigger] pre[j]) by {
            assert(pre[j] == s@[start + j]);
        }
        proof {
            lemma_digits_nonneg(pre);
        }
        if !over {
            if d > max || acc > (max - d) / 10 {
                over = true;
                assert(acc * 10 + d > max) by (nonlinear_arith)
                    requires
                        d > max || acc > (max - d) / 10,
                        0 <= d < 10,
                        0 <= acc,
                ;
            } else {
                assert(acc * 10 + d <= max) by (nonlinear_arith)
                    requires
                        acc <= (max - d) / 10,
                        d <= max,
                        0 <= d,
                ;
                acc = acc * 10 + d;
            }
        } else {
            assert(digits_value(pre) * 10 + d > max) by (nonlinear_arith)
                requires
                    digits_value(pre) > max,
                    0 <= d,
                    max >= 0,
            ;
        }
        i = i + 1;
    }
    assert(s@.subrange(start as int, n as int) =~= ds);
    assert forall|j: int| 0 <= j < ds.len() implies crate::parse::is_digit(#[trigger] ds[j]) by {
        assert(ds[j] == s@[start + j]);
    }
    if over {
        0
    } else {
        acc
    }
}

proof fn lemma_digits_nonneg(s: Seq<char>)
    requires
        forall|i: int| 0 <= i < s.len() ==> crate::parse::is_digit(#[trigger] s[i]),
    ensures
        digits_value(s) >= 0,
    decreases s.len(),
{
    if s.len() > 0 {
        lemma_digits_nonneg(s.drop_last());
        assert(crate::parse::is_digit(s[s.len() - 1]));
    }
}

fn first_word(t: &Vec<char>) -> (r: Vec<char>)
    ensures
        r@ == (if word_len(t@) == 0 {
            seq!['0']
        } else {
            t@.subrange(0, word_len(t@))
        }),
{
    let mut i: usize = 0;
    assert(t@.subrange(0, t@.len() as int) =~= t@);
    while i < t.len() && !space(t[i])
        invariant
            i <= t@.len(),
            word_len(t@) == i + word_len(t@.subrange(i as int, t@.len() as int)),
        decreases t@.len() - i,
    {
        assert(t@.subrange(i as int, t@.len() as int).drop_first() =~= t@.subrange(i + 1, t@.len() as int));
        i = i + 1;
    }
    if i == 0 {
        let mut z: Vec<char> = Vec::new();
        z.push('0');
        assert(z@ =~= seq!['0']);
        z
    } else {
        slice_chars(t, 0, i)
    }
}

/// Reads rsync's statistics: the count after "files transferred:" and the
/// byte count after "Total transferred file size:" (commas dropped), from the
/// last line that reports each; a count that does not parse reads as zero.
pub fn parse_rsync_stats(output: &str) -> (r: (usize, u64))
    ensures
        (r.0 as int, r.1 as int) == rsync_stats(lines_of(output@), lines_of(output@).len() as int),
{
    let s = chars_of(output);
    let mut files: usize = 0;
    let mut bytes: u64 = 0;
    let mut cur: Vec<char> = Vec::new();
    let mut i: usize = 0;
    assert(s@.subrange(0, 0) =~= seq![]);
    assert(cur@ =~= seq![]);
    while i < s.len()
        invariant
            s@ == output@,
            i <= s@.len(),
            lines_of(s@.subrange(0, i as int)).len() >= 1,
            lines_of(s@.subrange(0, i as int)).last() == cur@,
            (files as int, bytes as int) == rsync_stats(
                lines_of(s@.subrange(0, i as int)),
                lines_of(s@.subrange(0, i as int)).len() - 1,
            ),
        decreases s@.len() - i,
    {
        let ghost ls = lines_of(s@.subrange(0, i as int));
        assert(s@.subrange(0, i + 1).drop_last() =~= s@.subrange(0, i as int));
        if s[i] == '\n' {
            let (f, b) = line_stats(&cur, files, bytes);
            files = f;
            bytes = b;
            cur = Vec::new();
            assert(lines_of(s@.subrange(0, i + 1)) == ls.push(seq![]));
            assert(ls.push(seq![]).subrange(0, ls.len() as int) =~= ls);
            assert(rsync_stats(ls.push(seq![]), ls.len() as int) == rsync_stats(ls, ls.len() as int)) by {
                lemma_stats_prefix(ls, ls.push(seq![]), ls.len() as int);
            }
        } else {
            let c = s[i];
            cur.push(c);
            let ghost ls2 = lines_of(s@.subrange(0, i + 1));
            assert(ls2 == ls.update(ls.len() - 1, ls.last().push(c)));
            assert(rsync_stats(ls2, ls.len() - 1) == rsync_stats(ls, ls.len() - 1)) by {
                lemma_stats_prefix(ls, ls2, ls.len() - 1);
            }
        }
        i = i + 1;
    }
    assert(s@.subrange(0, i as int) =~= output@);
    let (f, b) = line_stats(&cur, files, bytes);
    (f, b)
}

proof fn lemma_stats_prefix(a: Seq<Seq<char>>, b: Seq<Seq<char>>, k: int)
    requires
        0 <= k <= a.len(),
        k <= b.len(),
        forall|j: int| 0 <= j < k ==> a[j] == b[j],
    ensures
        rsync_stats(a, k) == rsync_stats(b, k),
    decreases k,
{
    if k > 0 {
        lemma_stats_prefix(a, b, k - 1);
    }
}

/// The statistics after one more line.
fn line_stats(line: &Vec<char>, files: usize, bytes: u64) -> (r: (usize, u64))
    ensures
        (r.0 as int, r.1 as int) == ({
            let f2 = if has_text(line@, "files transferred:"@) {
                files_in(line@)
            } else {
                files as int
            };
            let b2 = if has_text(line@, "Total transferred file size:"@) {
                bytes_in(line@)
            } else {
                bytes as int
            };
            (f2, b2)
        }),
{
    let mut f = files;
    let mut b = bytes;
    if has_text_exec(line, "files transferred:") {
        let field = trim_chars(&second_field_of(line));
        f = count_of(&drop_commas(&field), usize::MAX as u64) as usize;
    }
    if has_text_exec(line, "Total transferred file size:") {
        let field = trim_chars(&second_field_of(line));
        let w = first_word(&field);
        b = count_of(&drop_commas(&w), u64::MAX);
    }
    (f, b)
}

} // verus!
