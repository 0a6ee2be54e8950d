//! Which paths are containers: the decision that a walk over files and
//! directories asks for at every path it meets.

use vstd::prelude::*;
use vstd::string::StringSliceAdditionalSpecFns;
use vstd::utf8::encode_utf8_decode_utf8;

verus! {

/// Extension, without its dot, of the files that are containers.
pub const CONTAINER_EXTENSION: &'static str = "ncm";

/// What a walk finds at a path.
#[derive(Clone, Copy, Debug, PartialEq, Eq, Structural)]
pub enum PathKind {
    /// Nothing exists at the path.
    Missing,
    /// The path is a directory.
    Directory,
    /// The path is a file.
    File,
}

/// What a walk does with a path.
#[derive(Clone, Copy, Debug, PartialEq, Eq, Structural)]
pub enum DumpStep {
    /// Leave the path alone.
    Skip,
    /// Visit every entry of the directory.
    Descend,
    /// Decode the file as a container.
    Decode,
}

/// The step that a path calls for: a directory is descended into, a file is
/// decoded if its extension is the containers', anything else is skipped.
pub open spec fn step_for(kind: PathKind, extension: Option<Seq<char>>) -> DumpStep {
    match kind {
        PathKind::Missing => DumpStep::Skip,
        PathKind::Directory => DumpStep::Descend,
        PathKind::File => if extension == Some(CONTAINER_EXTENSION@) {
            DumpStep::Decode
        } else {
            DumpStep::Skip
        },
    }
}

fn same_text(a: &str, b: &str) -> (same: bool)
    ensures
        same == (a@ == b@),
{
    let left = a.as_bytes();
    let right = b.as_bytes();
    proof {
        encode_utf8_decode_utf8(a@);
        encode_utf8_decode_utf8(b@);
    }
    if left.len() != right.len() {
        return false;
    }
    let mut i: usize = 0;
    while i < left.len()
        invariant
            i <= left@.len(),
            left@.len() == right@.len(),
            left@ == a.spec_bytes(),
            right@ == b.spec_bytes(),
            forall|p: int| 0 <= p < i ==> left@[p] == right@[p],
        decreases left@.len() - i,
    {
        if left[i] != right[i] {
            return false;
        }
        i = i + 1;
    }
    assert(left@ =~= right@);
    true
}

/// Decides what to do with a path, given what was found there and the
/// extension of its name, if it has one.
pub fn dump(kind: PathKind, extension: Option<&str>) -> (step: DumpStep)
    ensures
        step == step_for(
            kind,
            match extension {
                Some(text) => Some(text@),
                None => None,
            },
        ),
{
    match kind {
        PathKind::Missing => DumpStep::Skip,
        PathKind::Directory => DumpStep::Descend,
        PathKind::File => match extension {
            Some(text) => if same_text(text, CONTAINER_EXTENSION) {
                DumpStep::Decode
            } else {
                DumpStep::Skip
            },
            None => DumpStep::Skip,
        },
    }
}

} // verus!
