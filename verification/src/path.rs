//! File system paths, as Unix has them.

use std::path::PathBuf;
use vstd::prelude::*;
use vstd::utf8::encode_utf8;

verus! {

/// A path of the file system.
#[verifier::external_type_specification]
#[verifier::external_body]
pub struct ExPathBuf(std::path::PathBuf);

/// The bytes that a path is made of.
pub uninterp spec fn path_bytes(path: std::path::PathBuf) -> Seq<u8>;

/// The bytes of the path `base` with the relative path `name` below it: a
/// slash stands between the two, unless `base` is empty or ends in one.
pub open spec fn joined(base: Seq<u8>, name: Seq<u8>) -> Seq<u8> {
    if base.len() == 0 || base.last() == 0x2f {
        base + name
    } else {
        base.push(0x2f) + name
    }
}

/// Calls `PathBuf::from` on a text, which keeps its bytes.
#[verifier::external_body]
pub(crate) fn path_from(text: &str) -> (res: PathBuf)
    ensures
        path_bytes(res) == encode_utf8(text@),
{
    PathBuf::from(text)
}

/// Calls `Path::join`, which puts a relative path below another path, with the
/// separator of Unix between them.
#[verifier::external_body]
pub(crate) fn join(base: &PathBuf, name: &str) -> (res: PathBuf)
    requires
        name@.len() > 0,
        name@[0] != '/',
    ensures
        path_bytes(res) == joined(path_bytes(*base), encode_utf8(name@)),
{
    base.join(name)
}

} // verus!
