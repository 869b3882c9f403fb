//! Filesystem paths as text, with the operations of `std::path::Path`
//! that the preprocessor relies on.

use std::path::Path;
use vstd::prelude::*;

verus! {

/// The text of `Path::new(base).join(path)`.
pub uninterp spec fn joined_path(base: Seq<char>, path: Seq<char>) -> Seq<char>;

/// The text of `Path::new(path).parent()`, if the path has a parent.
pub uninterp spec fn parent_path(path: Seq<char>) -> Option<Seq<char>>;

/// Whether `Path::new(a) == Path::new(b)`: the paths have the same components.
pub uninterp spec fn same_path(a: Seq<char>, b: Seq<char>) -> bool;

/// The text of `Path::new(path).extension()`, if the path has one.
pub uninterp spec fn path_extension(path: Seq<char>) -> Option<Seq<char>>;

/// Calls `Path::join`; the result is the joined path rendered as text. Nothing
/// is claimed of it but that it is `joined_path` of the two arguments.
#[verifier::external_body]
pub(crate) fn join_paths(base: &str, path: &str) -> (r: String)
    ensures
        r@ == joined_path(base@, path@),
{
    Path::new(base).join(path).to_string_lossy().into_owned()
}

/// Calls `Path::parent`; the result is `parent_path` of the argument.
#[verifier::external_body]
pub(crate) fn path_parent(path: &str) -> (r: Option<String>)
    ensures
        match r {
            Some(p) => parent_path(path@) == Some(p@),
            None => parent_path(path@) is None,
        },
{
    Path::new(path).parent().map(|p| p.to_string_lossy().into_owned())
}

/// Calls `==` on two `Path`s, which compares their components; `Path` is `Eq`,
/// so a path equals itself.
#[verifier::external_body]
pub(crate) fn paths_equal(a: &str, b: &str) -> (r: bool)
    ensures
        r == same_path(a@, b@),
        a@ == b@ ==> r,
{
    Path::new(a) == Path::new(b)
}

/// Calls `Path::extension`; the result is `path_extension` of the argument.
#[verifier::external_body]
pub(crate) fn extension_of(path: &str) -> (r: Option<String>)
    ensures
        match r {
            Some(e) => path_extension(path@) == Some(e@),
            None => path_extension(path@) is None,
        },
{
    Path::new(path).extension().map(|e| e.to_string_lossy().into_owned())
}

/// The extension that marks a shader source file.
pub open spec fn shader_extension() -> Seq<char> {
    seq!['w', 'g', 's', 'l']
}

/// Whether `path` names a WGSL source file, the files whose changes trigger a reload.
pub fn is_shader_file(path: &str) -> (r: bool)
    ensures
        r == (path_extension(path@) == Some(shader_extension())),
{
    match extension_of(path) {
        Some(ext) => {
            let wanted: Vec<char> = vec!['w', 'g', 's', 'l'];
            let got = crate::text::chars_of(ext.as_str());
            if got.len() != 4 {
                assert(got@ != shader_extension());
                return false;
            }
            let mut i: usize = 0;
            while i < 4
                invariant
                    i <= 4,
                    got@.len() == 4,
                    got@ == ext@,
                    path_extension(path@) == Some(ext@),
                    wanted@ == shader_extension(),
                    forall|j: int| 0 <= j < i ==> got@[j] == wanted@[j],
                decreases 4 - i,
            {
                if got[i] != wanted[i] {
                    assert(got@[i as int] != shader_extension()[i as int]);
                    assert(got@ != shader_extension());
                    return false;
                }
                i = i + 1;
            }
            assert(got@ =~= shader_extension());
            true
        },
        None => false,
    }
}

} // verus!
