//! The parts of a snapshot that the library checks and builds.

use vstd::prelude::*;
use crate::graph::CodeRange;

verus! {

/// Schema version for forward compatibility.
pub const SCHEMA_VERSION: u32 = 1;

/// A place in a file, as a snapshot records it.
#[derive(Debug, Clone)]
pub struct Location {
    pub file: String,
    pub line: usize,
    pub column: Option<usize>,
    pub range: Option<CodeRange>,
    pub description: Option<String>,
}

/// Why a snapshot was refused.
#[derive(Debug, Clone)]
pub enum SnapshotError {
    /// Written by a newer schema than this library reads.
    UnsupportedVersion { found: u32, supported: u32 },
    /// Two smells share this ID.
    DuplicateId(String),
}

/// Whether the ID at index `j` repeats one before it.
pub open spec fn repeats_earlier(ids: Seq<Seq<char>>, j: int) -> bool {
    exists|i: int| 0 <= i < j && ids[i] == ids[j]
}

/// Whether no ID occurs twice.
pub open spec fn all_distinct(ids: Seq<Seq<char>>) -> bool {
    forall|i: int, j: int| 0 <= i < j < ids.len() ==> ids[i] != ids[j]
}

/// Checks a snapshot of schema `schema_version` whose smells have the IDs
/// `ids`: a newer schema is refused, then the first ID that repeats an
/// earlier one; otherwise the snapshot is accepted.
pub fn validate_snapshot(schema_version: u32, ids: &Vec<String>) -> (r: Result<(), SnapshotError>)
    ensures
        schema_version > SCHEMA_VERSION ==> r == Err::<(), SnapshotError>(
            SnapshotError::UnsupportedVersion { found: schema_version, supported: SCHEMA_VERSION },
        ),
        schema_version <= SCHEMA_VERSION ==> match r {
            Ok(()) => all_distinct(crate::text::str_views(ids@)),
            Err(SnapshotError::DuplicateId(id)) => exists|j: int|
                0 <= j < ids@.len() && id@ == ids@[j]@ && repeats_earlier(crate::text::str_views(ids@), j)
                    && forall|k: int| 0 <= k < j ==> !repeats_earlier(crate::text::str_views(ids@), k),
            Err(_) => false,
        },
{
    if schema_version > SCHEMA_VERSION {
        return Err(SnapshotError::UnsupportedVersion { found: schema_version, supported: SCHEMA_VERSION });
    }
    let ghost v = crate::text::str_views(ids@);
    let mut j: usize = 0;
    while j < ids.len()
        invariant
            j <= ids@.len(),
            schema_version <= SCHEMA_VERSION,
            v == crate::text::str_views(ids@),
            forall|a: int, b: int| 0 <= a < b < j ==> v[a] != v[b],
        decreases ids@.len() - j,
    {
        let mut i: usize = 0;
        while i < j
            invariant
                i <= j,
                j < ids@.len(),
                schema_version <= SCHEMA_VERSION,
                v == crate::text::str_views(ids@),
                forall|a: int| 0 <= a < i ==> v[a] != v[j as int],
                forall|a: int, b: int| 0 <= a < b < j ==> v[a] != v[b],
            decreases j - i,
        {
            if crate::text::str_eq(ids[i].as_str(), ids[j].as_str()) {
                proof {
                    assert(v[i as int] == v[j as int]);
                    assert(repeats_earlier(v, j as int));
                    assert forall|k: int| 0 <= k < j implies !repeats_earlier(v, k) by {
                        if repeats_earlier(v, k) {
                            let a = choose|a: int| 0 <= a < k && v[a] == v[k];
                            assert(v[a] != v[k]);
                        }
                    }
                }
                return Err(SnapshotError::DuplicateId(ids[j].clone()));
            }
            i = i + 1;
        }
        j = j + 1;
    }
    Ok(())
}

} // verus!
