//! Which of the scanned paths are font files to install.
use crate::error::ProfileError;
use crate::path::{base_name, extension, file_extension};
use vstd::prelude::*;

verus! {

/// A file met while scanning a directory. `depth` is 1 for a file directly
/// inside the scanned directory, and one more for each subdirectory below it.
#[derive(Debug)]
pub struct ScannedFile {
    pub path: String,
    pub depth: u32,
}

/// What one path given by the user turned out to be.
#[derive(Debug)]
pub enum InputPath {
    /// The path does not exist.
    Missing(String),
    /// A file, taken whatever its extension.
    File(String),
    /// A directory, with the files found below it, in the order met.
    Dir(Vec<ScannedFile>),
    /// Something that exists and is neither a file nor a directory.
    Other(String),
}

pub open spec fn lower_ascii(c: char) -> char {
    if 'A' <= c && c <= 'Z' {
        ((c as u8) + 32) as char
    } else {
        c
    }
}

pub open spec fn lower_ascii_seq(s: Seq<char>) -> Seq<char> {
    s.map_values(|c: char| lower_ascii(c))
}

/// The recognised font extensions, in any letter case.
pub open spec fn is_font_extension(e: Seq<char>) -> bool {
    let l = lower_ascii_seq(e);
    l == "ttf"@ || l == "otf"@ || l == "woff"@ || l == "woff2"@
}

/// A path whose file name carries a font extension.
pub open spec fn is_font_path(p: Seq<char>) -> bool {
    match extension(base_name(p)) {
        Some(e) => is_font_extension(e),
        None => false,
    }
}

/// Whether a scanned file is kept: within the depth bound, with a font extension.
pub open spec fn keeps(f: ScannedFile, max_depth: u32) -> bool {
    f.depth <= max_depth && is_font_path(f.path@)
}

/// The kept paths of a directory's files, in the order met.
pub open spec fn kept_in_dir(files: Seq<ScannedFile>, max_depth: u32) -> Seq<Seq<char>>
    decreases files.len(),
{
    if files.len() == 0 {
        Seq::empty()
    } else {
        kept_in_dir(files.drop_last(), max_depth) + if keeps(files.last(), max_depth) {
            seq![files.last().path@]
        } else {
            Seq::empty()
        }
    }
}

/// The font paths that one input contributes.
pub open spec fn kept_of_input(input: InputPath, max_depth: u32) -> Seq<Seq<char>> {
    match input {
        InputPath::File(p) => seq![p@],
        InputPath::Dir(files) => kept_in_dir(files@, max_depth),
        _ => Seq::empty(),
    }
}

/// The font paths of all inputs, in input order.
pub open spec fn kept_paths(inputs: Seq<InputPath>, max_depth: u32) -> Seq<Seq<char>>
    decreases inputs.len(),
{
    if inputs.len() == 0 {
        Seq::empty()
    } else {
        kept_paths(inputs.drop_last(), max_depth) + kept_of_input(inputs.last(), max_depth)
    }
}

/// Whether the directory whose entries lie at `depth` is to be listed at all.
pub fn should_scan(depth: u32, max_depth: u32) -> (r: bool)
    ensures
        r == (depth <= max_depth),
{
    depth <= max_depth
}

/// Whether `e` equals the lowercase word `w` when letter case is ignored.
fn equals_ignoring_case(e: &str, w: &str) -> (r: bool)
    ensures
        r == (lower_ascii_seq(e@) == w@),
{
    let n = e.unicode_len();
    let m = w.unicode_len();
    if n != m {
        assert(lower_ascii_seq(e@).len() != w@.len());
        return false;
    }
    let mut i: usize = 0;
    while i < n
        invariant
            n == e@.len(),
            m == w@.len(),
            n == m,
            i <= n,
            forall|j: int| 0 <= j < i ==> lower_ascii(e@[j]) == w@[j],
        decreases n - i,
    {
        let c = e.get_char(i);
        let l = if 'A' <= c && c <= 'Z' {
            ((c as u8) + 32) as char
        } else {
            c
        };
        if l != w.get_char(i) {
            assert(lower_ascii_seq(e@)[i as int] != w@[i as int]);
            return false;
        }
        i = i + 1;
    }
    assert(lower_ascii_seq(e@) =~= w@);
    true
}

/// Whether the path's file name carries a recognised font extension.
pub fn is_font_file(path: &str) -> (r: bool)
    ensures
        r == is_font_path(path@),
{
    match file_extension(path) {
        Some(e) => {
            let e = e.as_str();
            equals_ignoring_case(e, "ttf") || equals_ignoring_case(e, "otf")
                || equals_ignoring_case(e, "woff") || equals_ignoring_case(e, "woff2")
        },
        None => false,
    }
}

/// The font files to install: every input file, and every file below an input
/// directory that lies within `max_depth` and carries a font extension. Fails
/// on the first input that does not exist, and when nothing is found.
pub fn collect_font_files(inputs: &Vec<InputPath>, max_depth: u32) -> (r: Result<
    Vec<String>,
    ProfileError,
>)
    ensures
        (exists|i: int| 0 <= i < inputs@.len() && #[trigger] inputs@[i] is Missing) <==> r matches Err(
            ProfileError::PathNotFound { .. },
        ),
        r matches Err(ProfileError::PathNotFound { path }) ==> exists|i: int|
            0 <= i < inputs@.len() && (#[trigger] inputs@[i] matches InputPath::Missing(p) && p@
                == path@) && forall|j: int| 0 <= j < i ==> !(inputs@[j] is Missing),
        r matches Err(ProfileError::NoFontsFound) <==> (forall|i: int|
            0 <= i < inputs@.len() ==> !(#[trigger] inputs@[i] is Missing)) && kept_paths(
            inputs@,
            max_depth,
        ).len() == 0,
        r matches Ok(v) ==> v@.map_values(|s: String| s@) == kept_paths(inputs@, max_depth),
        r is Ok || r matches Err(ProfileError::PathNotFound { .. }) || r matches Err(
            ProfileError::NoFontsFound,
        ),
{
    let mut out: Vec<String> = Vec::new();
    let mut i: usize = 0;
    while i < inputs.len()
        invariant
            i <= inputs@.len(),
            forall|j: int| 0 <= j < i ==> !(#[trigger] inputs@[j] is Missing),
            out@.map_values(|s: String| s@) == kept_paths(inputs@.take(i as int), max_depth),
        decreases inputs@.len() - i,
    {
        let ghost before = out@.map_values(|s: String| s@);
        match &inputs[i] {
            InputPath::Missing(p) => {
                return Err(ProfileError::PathNotFound { path: p.clone() });
            },
            InputPath::File(p) => {
                out.push(p.clone());
                assert(out@.map_values(|s: String| s@) =~= before + seq![p@]);
            },
            InputPath::Dir(files) => {
                let mut k: usize = 0;
                while k < files.len()
                    invariant
                        k <= files@.len(),
                        out@.map_values(|s: String| s@) == before + kept_in_dir(
                            files@.take(k as int),
                            max_depth,
                        ),
                    decreases files@.len() - k,
                {
                    let f = &files[k];
                    let ghost mid = out@.map_values(|s: String| s@);
                    if f.depth <= max_depth && is_font_file(f.path.as_str()) {
                        out.push(f.path.clone());
                        assert(out@.map_values(|s: String| s@) =~= mid + seq![f.path@]);
                    }
                    assert(files@.take(k + 1).drop_last() =~= files@.take(k as int));
                    assert(files@.take(k + 1).last() == *f);
                    assert(out@.map_values(|s: String| s@) =~= before + kept_in_dir(
                        files@.take(k + 1),
                        max_depth,
                    ));
                    k = k + 1;
                }
                assert(files@.take(files@.len() as int) =~= files@);
            },
            InputPath::Other(_) => {
                assert(out@.map_values(|s: String| s@) =~= before + Seq::<Seq<char>>::empty());
            },
        }
        assert(inputs@.take(i + 1).drop_last() =~= inputs@.take(i as int));
        assert(inputs@.take(i + 1).last() == inputs@[i as int]);
        i = i + 1;
    }
    assert(inputs@.take(inputs@.len() as int) =~= inputs@);
    if out.len() == 0 {
        return Err(ProfileError::NoFontsFound);
    }
    Ok(out)
}

} // verus!
