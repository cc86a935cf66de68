use vstd::prelude::*;
use crate::text::{find_last, last_index_of, lemma_last_index_bounds, slice_chars};

verus! {

/// The last component of a path: everything after its last '/'.
pub open spec fn file_name_of(p: Seq<char>) -> Seq<char> {
    p.subrange(last_index_of(p, '/') + 1, p.len() as int)
}

/// The directory part of a path, with its trailing '/': everything up to and
/// including the last '/', empty when the path holds none.
pub open spec fn dir_prefix_of(p: Seq<char>) -> Seq<char> {
    p.subrange(0, last_index_of(p, '/') + 1)
}

/// A last component names a file unless it is empty, "." or "..".
pub open spec fn is_file_name(n: Seq<char>) -> bool {
    n.len() > 0 && n != seq!['.'] && n != seq!['.', '.']
}

/// The extension of a file name: what follows its last '.', where that dot is
/// not the name's first character.
pub open spec fn name_extension(n: Seq<char>) -> Option<Seq<char>> {
    if is_file_name(n) && last_index_of(n, '.') > 0 {
        Some(n.subrange(last_index_of(n, '.') + 1, n.len() as int))
    } else {
        None
    }
}

/// The stem of a file name: the name without its extension and that dot.
pub open spec fn name_stem(n: Seq<char>) -> Option<Seq<char>> {
    if !is_file_name(n) {
        None
    } else if last_index_of(n, '.') > 0 {
        Some(n.subrange(0, last_index_of(n, '.')))
    } else {
        Some(n)
    }
}

pub open spec fn extension_of(p: Seq<char>) -> Option<Seq<char>> {
    name_extension(file_name_of(p))
}

pub open spec fn stem_of(p: Seq<char>) -> Option<Seq<char>> {
    name_stem(file_name_of(p))
}

/// Splits a path into its directory prefix and its last component.
pub fn split_path(p: &Vec<char>) -> (r: (Vec<char>, Vec<char>))
    ensures
        r.0@ == dir_prefix_of(p@),
        r.1@ == file_name_of(p@),
        p@ == r.0@ + r.1@,
{
    proof {
        lemma_last_index_bounds(p@, '/');
    }
    let _len = p.len();
    let cut: usize = match find_last(p, '/') {
        Some(i) => i + 1,
        None => 0,
    };
    let dir = slice_chars(p, 0, cut);
    let name = slice_chars(p, cut, p.len());
    assert(p@ =~= dir@ + name@);
    (dir, name)
}

pub fn check_file_name(n: &Vec<char>) -> (r: bool)
    ensures
        r == is_file_name(n@),
{
    if n.len() == 0 {
        return false;
    }
    if n.len() == 1 && n[0] == '.' {
        assert(n@ =~= seq!['.']);
        return false;
    }
    if n.len() == 2 && n[0] == '.' && n[1] == '.' {
        assert(n@ =~= seq!['.', '.']);
        return false;
    }
    assert(n@ != seq!['.']) by {
        if n@ == seq!['.'] {
            assert(n@[0] == '.');
        }
    }
    assert(n@ != seq!['.', '.']) by {
        if n@ == seq!['.', '.'] {
            assert(n@[0] == '.' && n@[1] == '.');
        }
    }
    true
}

/// The extension of a file name, if it has one.
pub fn name_extension_of(n: &Vec<char>) -> (r: Option<Vec<char>>)
    ensures
        match r {
            Some(e) => name_extension(n@) == Some(e@),
            None => name_extension(n@) is None,
        },
{
    proof {
        lemma_last_index_bounds(n@, '.');
    }
    if !check_file_name(n) {
        return None;
    }
    let _len = n.len();
    match find_last(n, '.') {
        Some(d) => {
            if d > 0 {
                Some(slice_chars(n, d + 1, n.len()))
            } else {
                None
            }
        },
        None => None,
    }
}

/// The stem of a file name, if it is one.
pub fn name_stem_of(n: &Vec<char>) -> (r: Option<Vec<char>>)
    ensures
        match r {
            Some(s) => name_stem(n@) == Some(s@),
            None => name_stem(n@) is None,
        },
{
    proof {
        lemma_last_index_bounds(n@, '.');
    }
    if !check_file_name(n) {
        return None;
    }
    match find_last(n, '.') {
        Some(d) => {
            if d > 0 {
                Some(slice_chars(n, 0, d))
            } else {
                Some(slice_chars(n, 0, n.len()))
            }
        },
        None => Some(slice_chars(n, 0, n.len())),
    }
}

/// The extension of the file a path names, if it has one.
pub fn path_extension(p: &Vec<char>) -> (r: Option<Vec<char>>)
    ensures
        match r {
            Some(e) => extension_of(p@) == Some(e@),
            None => extension_of(p@) is None,
        },
{
    let (_dir, name) = split_path(p);
    name_extension_of(&name)
}

/// The stem of the file a path names, if it names one.
pub fn path_stem(p: &Vec<char>) -> (r: Option<Vec<char>>)
    ensures
        match r {
            Some(s) => stem_of(p@) == Some(s@),
            None => stem_of(p@) is None,
        },
{
    let (_dir, name) = split_path(p);
    name_stem_of(&name)
}

} // verus!
