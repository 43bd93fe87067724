use vstd::prelude::*;
use vstd::string::*;

verus! {

/// Everything that can go wrong while resolving or applying change scripts.
///
/// Resolution failures (`Source`, `InvalidMixReversibleAndSimple`,
/// `DuplicateVersion`) are detected before any database interaction; the
/// remaining variants describe the state of the tracking table or of the
/// backend and are always fatal for the invocation that sees them.
#[derive(Debug, Clone)]
pub enum SeedsError {
    /// The backend failed while executing a script or a bookkeeping
    /// operation; carries the driver's message.
    Execute(String),
    /// The script source failed while resolving scripts; carries its message.
    Source(String),
    /// A script with this version was previously applied but is missing from
    /// the resolved scripts.
    VersionMissing(i64),
    /// A script with this version was previously applied but its body has
    /// been modified since (the recorded checksum no longer matches).
    VersionMismatch(i64),
    /// Reversible and simple scripts may not be mixed in one registry.
    InvalidMixReversibleAndSimple,
    /// Two resolved scripts share both this version and their kind.
    DuplicateVersion(i64),
    /// The script with this version is partially applied; the row must be
    /// fixed and removed from the tracking table by an operator.
    Dirty(i64),
}

pub open spec fn spec_message(e: SeedsError) -> Seq<char> {
    match e {
        SeedsError::Execute(_) => "error while executing seeds"@,
        SeedsError::Source(_) => "error while resolving seeds"@,
        SeedsError::VersionMissing(_) =>
            "seeds was previously applied but is missing in the resolved seeds"@,
        SeedsError::VersionMismatch(_) =>
            "seeds was previously applied but has been modified"@,
        SeedsError::InvalidMixReversibleAndSimple =>
            "cannot mix reversible seeds with simple seeds. All seeds should be reversible or simple seeds"@,
        SeedsError::DuplicateVersion(_) =>
            "two seeds share the same version and type"@,
        SeedsError::Dirty(_) =>
            "seeds is partially applied; fix and remove row from the tracking table"@,
    }
}

impl SeedsError {
    /// A fixed description of the error, without the version number; the
    /// version, where one is attached, comes from [`Self::version`].
    pub fn message(&self) -> (r: String)
        ensures
            r@ == spec_message(*self),
    {
        match self {
            SeedsError::Execute(_) => String::from_str(
                "error while executing seeds",
            ),
            SeedsError::Source(_) => String::from_str(
                "error while resolving seeds",
            ),
            SeedsError::VersionMissing(_) => String::from_str(
                "seeds was previously applied but is missing in the resolved seeds",
            ),
            SeedsError::VersionMismatch(_) => String::from_str(
                "seeds was previously applied but has been modified",
            ),
            SeedsError::InvalidMixReversibleAndSimple => String::from_str(
                "cannot mix reversible seeds with simple seeds. All seeds should be reversible or simple seeds",
            ),
            SeedsError::DuplicateVersion(_) => String::from_str(
                "two seeds share the same version and type",
            ),
            SeedsError::Dirty(_) => String::from_str(
                "seeds is partially applied; fix and remove row from the tracking table",
            ),
        }
    }

    /// The script version the error is about, where the variant carries one.
    pub fn version(&self) -> (r: Option<i64>)
        ensures
            r == match *self {
                SeedsError::VersionMissing(v) => Some(v),
                SeedsError::VersionMismatch(v) => Some(v),
                SeedsError::DuplicateVersion(v) => Some(v),
                SeedsError::Dirty(v) => Some(v),
                _ => None::<i64>,
            },
    {
        match self {
            SeedsError::VersionMissing(v) => Some(*v),
            SeedsError::VersionMismatch(v) => Some(*v),
            SeedsError::DuplicateVersion(v) => Some(*v),
            SeedsError::Dirty(v) => Some(*v),
            _ => None,
        }
    }
}

} // verus!
