use vstd::prelude::*;

verus! {

/// One resolved change script: immutable after resolution.
///
/// `version` is a 64-bit integer derived from the script's creation time
/// and is the sole ordering and identity key; `checksum` is a content digest
/// of `sql`, computed at resolution time by the script source.
#[derive(Debug, Clone)]
pub struct Seeds {
    pub version: i64,
    pub seeds_type: crate::seeds_type::SeedsType,
    pub description: String,
    pub sql: String,
    pub checksum: Vec<u8>,
}

/// One persisted tracking-table row: proof that a version was applied.
///
/// `success == false` marks the version as dirty: a partially applied script
/// that blocks every further run or revert until an operator intervenes.
/// `applied_at` is a timestamp in seconds and `execution_ms` the execution
/// time in milliseconds; neither takes part in the consistency protocol.
#[derive(Debug, Clone)]
pub struct AppliedSeeds {
    pub version: i64,
    pub checksum: Vec<u8>,
    pub success: bool,
    pub applied_at: i64,
    pub execution_ms: i64,
}

/// A calendar timestamp split into plain fields, as a version is minted
/// from the creation time of a new script.
pub open spec fn valid_timestamp(
    year: u64,
    month: u64,
    day: u64,
    hour: u64,
    minute: u64,
    second: u64,
) -> bool {
    year <= 9999 && 1 <= month <= 12 && 1 <= day <= 31 && hour <= 23 && minute <= 59
        && second <= 59
}

/// The version an instant mints, as the decimal digits of
/// `YYYYMMDDHHMMSS` read as one integer: instants later in time give
/// strictly larger versions.
pub open spec fn spec_version_of(
    year: u64,
    month: u64,
    day: u64,
    hour: u64,
    minute: u64,
    second: u64,
) -> int {
    year * 10000000000 + month * 100000000 + day * 1000000 + hour * 10000 + minute * 100
        + second
}

/// Mints the version for a script created at the given instant.
pub fn version_from_timestamp(
    year: u64,
    month: u64,
    day: u64,
    hour: u64,
    minute: u64,
    second: u64,
) -> (r: i64)
    requires
        valid_timestamp(year, month, day, hour, minute, second),
    ensures
        r as int == spec_version_of(year, month, day, hour, minute, second),
{
    (year * 10000000000 + month * 100000000 + day * 1000000 + hour * 10000 + minute * 100
        + second) as i64
}

/// Versions order as their creation instants do: a strictly later instant
/// mints a strictly larger version.
pub proof fn lemma_version_monotonic(
    y1: u64, mo1: u64, d1: u64, h1: u64, mi1: u64, s1: u64,
    y2: u64, mo2: u64, d2: u64, h2: u64, mi2: u64, s2: u64,
)
    requires
        valid_timestamp(y1, mo1, d1, h1, mi1, s1),
        valid_timestamp(y2, mo2, d2, h2, mi2, s2),
        (y1 < y2) || (y1 == y2 && mo1 < mo2) || (y1 == y2 && mo1 == mo2 && d1 < d2)
            || (y1 == y2 && mo1 == mo2 && d1 == d2 && h1 < h2)
            || (y1 == y2 && mo1 == mo2 && d1 == d2 && h1 == h2 && mi1 < mi2)
            || (y1 == y2 && mo1 == mo2 && d1 == d2 && h1 == h2 && mi1 == mi2 && s1 < s2),
    ensures
        spec_version_of(y1, mo1, d1, h1, mi1, s1) < spec_version_of(y2, mo2, d2, h2, mi2, s2),
{
}

/// Byte-wise equality of two checksums.
pub fn checksum_eq(a: &Vec<u8>, b: &Vec<u8>) -> (r: bool)
    ensures
        r == (a@ == b@),
{
    if a.len() != b.len() {
        return false;
    }
    let mut i: usize = 0;
    while i < a.len()
        invariant
            a@.len() == b@.len(),
            i <= a@.len(),
            forall|j: int| 0 <= j < i ==> a@[j] == b@[j],
        decreases a@.len() - i,
    {
        if a[i] != b[i] {
            return false;
        }
        i = i + 1;
    }
    assert(a@ =~= b@);
    true
}

} // verus!
