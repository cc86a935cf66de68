use vstd::prelude::*;
use crate::paths::{dir_prefix_of, extension_of, path_extension, path_stem, split_path, stem_of};
use crate::text::{chars_of, concat_chars, equals_str, lower, same_chars, string_of, to_lower};

verus! {

/// Extensions of the companion files that travel with a media file, in the
/// order in which they are looked for: Adobe XMP, Photomator edits, ON1 Photo
/// RAW, Apple adjustments, RawTherapee and DxO PhotoLab.
pub open spec fn sidecar_extensions() -> Seq<Seq<char>> {
    seq!["xmp"@, "photo-edit"@, "on1"@, "aae"@, "pp3"@, "dop"@]
}

pub open spec fn is_sidecar_extension(e: Seq<char>) -> bool {
    sidecar_extensions().contains(e)
}

/// Whether a path names a sidecar: its extension, without regard to case, is a
/// sidecar extension.
pub open spec fn is_sidecar_path(p: Seq<char>) -> bool {
    match extension_of(p) {
        Some(e) => is_sidecar_extension(lower(e)),
        None => false,
    }
}

/// `stem.ext`.
pub open spec fn with_extension(stem: Seq<char>, ext: Seq<char>) -> Seq<char> {
    stem + seq!['.'] + ext
}

/// The sidecar extension at `i` of the table.
fn sidecar_extension(i: usize) -> (r: &'static str)
    requires
        i < 6,
    ensures
        r@ == sidecar_extensions()[i as int],
{
    match i {
        0 => "xmp",
        1 => "photo-edit",
        2 => "on1",
        3 => "aae",
        4 => "pp3",
        _ => "dop",
    }
}

/// Whether a path names a sidecar file, judged by its extension without regard to case.
pub fn is_sidecar(path: &str) -> (r: bool)
    ensures
        r == is_sidecar_path(path@),
{
    let p = chars_of(path);
    match path_extension(&p) {
        Some(e) => {
            let low = to_lower(&e);
            let mut i: usize = 0;
            while i < 6
                invariant
                    i <= 6,
                    sidecar_extensions().len() == 6,
                    extension_of(path@) == Some(e@),
                    low@ == lower(e@),
                    forall|j: int| 0 <= j < i ==> sidecar_extensions()[j] != low@,
                decreases 6 - i,
            {
                if equals_str(&low, sidecar_extension(i)) {
                    assert(sidecar_extensions()[i as int] == low@);
                    assert(sidecar_extensions().contains(low@));
                    return true;
                }
                i = i + 1;
            }
            assert(!sidecar_extensions().contains(low@));
            false
        },
        None => false,
    }
}

fn join_name(stem: &Vec<char>, ext: &Vec<char>) -> (r: Vec<char>)
    ensures
        r@ == with_extension(stem@, ext@),
{
    let dot: Vec<char> = vec!['.'];
    let a = concat_chars(stem, &dot);
    assert(dot@ =~= seq!['.']);
    concat_chars(&a, ext)
}

/// The file name that a sidecar of extension `sidecar_ext` has beside the
/// media file `media_filename`: the media file's stem, a dot, the extension.
/// `None` when `media_filename` names no file.
pub fn get_sidecar_filename(media_filename: &str, sidecar_ext: &str) -> (r: Option<String>)
    ensures
        match r {
            Some(s) => stem_of(media_filename@) is Some && s@ == with_extension(
                stem_of(media_filename@)->0,
                sidecar_ext@,
            ),
            None => stem_of(media_filename@) is None,
        },
{
    let m = chars_of(media_filename);
    match path_stem(&m) {
        Some(stem) => {
            let e = chars_of(sidecar_ext);
            Some(string_of(&join_name(&stem, &e)))
        },
        None => None,
    }
}

/// The new name of a sidecar when its media file is renamed: the new media
/// file's stem with the sidecar's own extension. `None` when the sidecar has
/// no extension or the new name names no file.
pub fn rename_sidecar_for_media(old_sidecar_filename: &str, new_media_filename: &str) -> (r:
    Option<String>)
    ensures
        match r {
            Some(s) => extension_of(old_sidecar_filename@) is Some && stem_of(
                new_media_filename@,
            ) is Some && s@ == with_extension(
                stem_of(new_media_filename@)->0,
                extension_of(old_sidecar_filename@)->0,
            ),
            None => extension_of(old_sidecar_filename@) is None || stem_of(
                new_media_filename@,
            ) is None,
        },
{
    let old = chars_of(old_sidecar_filename);
    let ext = match path_extension(&old) {
        Some(e) => e,
        None => {
            return None;
        },
    };
    let new = chars_of(new_media_filename);
    match path_stem(&new) {
        Some(stem) => Some(string_of(&join_name(&stem, &ext))),
        None => None,
    }
}

/// Whether `names` holds `n`.
pub open spec fn lists_name(names: Seq<String>, n: Seq<char>) -> bool {
    exists|j: int| 0 <= j < names.len() && names[j]@ == n
}

/// The sidecar paths of a media file among the first `k` extensions of the
/// table, in table order, keeping those whose file name the directory lists.
pub open spec fn sidecars_found(p: Seq<char>, names: Seq<String>, k: int) -> Seq<Seq<char>>
    decreases k,
{
    if k <= 0 || stem_of(p) is None {
        seq![]
    } else {
        let name = with_extension(stem_of(p)->0, sidecar_extensions()[k - 1]);
        let before = sidecars_found(p, names, k - 1);
        if lists_name(names, name) {
            before.push(dir_prefix_of(p) + name)
        } else {
            before
        }
    }
}

fn listed(names: &Vec<String>, n: &Vec<char>) -> (r: bool)
    ensures
        r == lists_name(names@, n@),
{
    let mut j: usize = 0;
    while j < names.len()
        invariant
            j <= names@.len(),
            forall|i: int| 0 <= i < j ==> names@[i]@ != n@,
        decreases names@.len() - j,
    {
        let c = chars_of(names[j].as_str());
        if same_chars(&c, n) {
            return true;
        }
        j = j + 1;
    }
    false
}

/// The sidecars of a media file: for each sidecar extension, in table order,
/// the path of the same-stem file in the media file's directory, kept where
/// `dir_entries` (the names of the files in that directory) lists it.
pub fn find_sidecars(media_path: &str, dir_entries: &Vec<String>) -> (r: Vec<String>)
    ensures
        r@.map_values(|s: String| s@) == sidecars_found(media_path@, dir_entries@, 6),
{
    let p = chars_of(media_path);
    let mut out: Vec<String> = Vec::new();
    let stem = match path_stem(&p) {
        Some(s) => s,
        None => {
            assert(out@.map_values(|s: String| s@) =~= seq![]);
            return out;
        },
    };
    let (dir, _name) = split_path(&p);
    let mut i: usize = 0;
    assert(out@.map_values(|s: String| s@) =~= sidecars_found(media_path@, dir_entries@, 0));
    while i < 6
        invariant
            i <= 6,
            stem_of(media_path@) == Some(stem@),
            dir@ == dir_prefix_of(media_path@),
            p@ == media_path@,
            sidecar_extensions().len() == 6,
            out@.map_values(|s: String| s@) == sidecars_found(media_path@, dir_entries@, i as int),
        decreases 6 - i,
    {
        let e = chars_of(sidecar_extension(i));
        let name = join_name(&stem, &e);
        if listed(dir_entries, &name) {
            let full = concat_chars(&dir, &name);
            let ghost before = out@;
            out.push(string_of(&full));
            assert(out@.map_values(|s: String| s@) =~= before.map_values(|s: String| s@).push(
                full@,
            ));
        }
        i = i + 1;
    }
    out
}

} // verus!
