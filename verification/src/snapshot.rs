//! The key that identifies which catalog files a cached catalog parse covers.

use vstd::prelude::*;
use vstd::std_specs::cmp::PartialEqSpecImpl;

verus! {

/// Version of the on-disk snapshot layout; a change invalidates old snapshots.
pub const SNAPSHOT_SCHEMA: u32 = 1;

/// One catalog file as it was when parsed.
#[derive(Clone, Debug)]
pub struct SourceStamp {
    pub path: String,
    pub mtime_secs: i64,
    pub size: u64,
}

/// What identifies a stamp.
pub open spec fn stamp_view(s: SourceStamp) -> (Seq<char>, i64, u64) {
    (s.path@, s.mtime_secs, s.size)
}

impl PartialEq for SourceStamp {
    fn eq(&self, other: &Self) -> (r: bool) {
        self.path == other.path && self.mtime_secs == other.mtime_secs && self.size == other.size
    }
}

impl PartialEqSpecImpl for SourceStamp {
    open spec fn obeys_eq_spec() -> bool {
        true
    }

    open spec fn eq_spec(&self, other: &SourceStamp) -> bool {
        stamp_view(*self) == stamp_view(*other)
    }
}

/// Exactly which catalog files (and which versions of them) a parse covers.
#[derive(Clone, Debug)]
pub struct SnapshotKey {
    pub schema: u32,
    pub sources: Vec<SourceStamp>,
}

/// What identifies a key.
pub open spec fn key_view(k: SnapshotKey) -> (u32, Seq<(Seq<char>, i64, u64)>) {
    (k.schema, k.sources@.map_values(|s: SourceStamp| stamp_view(s)))
}

impl PartialEq for SnapshotKey {
    fn eq(&self, other: &Self) -> (r: bool) {
        if self.schema != other.schema || self.sources.len() != other.sources.len() {
            proof {
                if self.schema == other.schema {
                    assert(self.sources@.map_values(|s: SourceStamp| stamp_view(s)).len()
                        != other.sources@.map_values(|s: SourceStamp| stamp_view(s)).len());
                }
            }
            return false;
        }
        let mut i: usize = 0;
        while i < self.sources.len()
            invariant
                i <= self.sources.len(),
                self.sources.len() == other.sources.len(),
                self.schema == other.schema,
                forall|j: int|
                    0 <= j < i ==> stamp_view(self.sources@[j]) == stamp_view(other.sources@[j]),
            decreases self.sources.len() - i,
        {
            if !(self.sources[i] == other.sources[i]) {
                assert(self.sources@.map_values(|s: SourceStamp| stamp_view(s))[i as int]
                    != other.sources@.map_values(|s: SourceStamp| stamp_view(s))[i as int]);
                return false;
            }
            i = i + 1;
        }
        assert(self.sources@.map_values(|s: SourceStamp| stamp_view(s)) =~= other.sources@.map_values(
            |s: SourceStamp| stamp_view(s),
        ));
        true
    }
}

impl PartialEqSpecImpl for SnapshotKey {
    open spec fn obeys_eq_spec() -> bool {
        true
    }

    open spec fn eq_spec(&self, other: &SnapshotKey) -> bool {
        key_view(*self) == key_view(*other)
    }
}

/// Whether the key of the parse in use still matches the catalog files on
/// disk; with no parse in use it never does.
pub fn snapshot_is_current(current: &Option<SnapshotKey>, fresh: &SnapshotKey) -> (r: bool)
    ensures
        r == match current {
            Some(k) => key_view(*k) == key_view(*fresh),
            None => false,
        },
{
    match current {
        Some(k) => *k == *fresh,
        None => false,
    }
}

} // verus!
