//! Kinds of plugin artifact, told apart by the file name.

use vstd::prelude::*;
use vstd::string::StrSliceExecFns;

verus! {

/// How an artifact is brought into the sandbox runtime.
#[derive(Clone, Copy, Debug, PartialEq, Eq, Structural)]
pub enum ArtifactKind {
    /// Compiled ahead of time: mapped as it is, with nothing compiled at load.
    Precompiled,
    /// Compiled when it is loaded.
    Source,
}

/// Whether `text` ends with `suffix`.
pub open spec fn has_suffix(text: Seq<char>, suffix: Seq<char>) -> bool {
    text.len() >= suffix.len() && text.subrange(text.len() - suffix.len(), text.len() as int)
        == suffix
}

/// Whether `text` ends with `suffix`.
pub fn ends_with(text: &str, suffix: &str) -> (ends: bool)
    ensures
        ends == has_suffix(text@, suffix@),
{
    let n = text.unicode_len();
    let m = suffix.unicode_len();
    if n < m {
        return false;
    }
    let start = n - m;
    let mut i: usize = 0;
    while i < m
        invariant
            i <= m,
            n == text@.len(),
            m == suffix@.len(),
            start == n - m,
            forall|k: int| 0 <= k < i ==> text@[start + k] == suffix@[k],
        decreases m - i,
    {
        if text.get_char(start + i) != suffix.get_char(i) {
            proof {
                let tail = text@.subrange(text@.len() - suffix@.len(), text@.len() as int);
                assert(tail[i as int] == text@[start + i]);
            }
            return false;
        }
        i += 1;
    }
    assert(text@.subrange(text@.len() - suffix@.len(), text@.len() as int) =~= suffix@);
    true
}

/// The kind of the artifact at `path`: precompiled exactly when the path
/// ends in `.cwasm`.
pub fn artifact_kind(path: &str) -> (kind: ArtifactKind)
    ensures
        kind == ArtifactKind::Precompiled <==> has_suffix(path@, ".cwasm"@),
{
    if ends_with(path, ".cwasm") {
        ArtifactKind::Precompiled
    } else {
        ArtifactKind::Source
    }
}

} // verus!
