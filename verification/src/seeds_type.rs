use vstd::prelude::*;
use vstd::string::*;

verus! {

/// The kind of a change script, read off the script file's name.
#[derive(Debug, Copy, Clone, PartialEq, Eq, Structural)]
pub enum SeedsType {
    /// A single-file script with no paired up / down halves.
    Simple,
    /// The forward half of a reversible pair; a matching down file with the
    /// same version is expected.
    ReversibleUp,
    /// The reverse half of a reversible pair; a matching up file with the
    /// same version is expected.
    ReversibleDown,
}

/// `s` ends with `suffix`, character-wise.
pub open spec fn ends_with_spec(s: Seq<char>, suffix: Seq<char>) -> bool {
    suffix.len() <= s.len() && s.subrange(s.len() - suffix.len(), s.len() as int)
        == suffix
}

/// Character-by-character suffix test on string slices.
pub fn str_ends_with(s: &str, suffix: &str) -> (r: bool)
    ensures
        r == ends_with_spec(s@, suffix@),
{
    let n: usize = s.unicode_len();
    let m: usize = suffix.unicode_len();
    if m > n {
        return false;
    }
    let mut i: usize = 0;
    while i < m
        invariant
            m <= n,
            n == s@.len(),
            m == suffix@.len(),
            i <= m,
            forall|j: int| 0 <= j < i ==> s@[n - m + j] == suffix@[j],
        decreases m - i,
    {
        if s.get_char(n - m + i) != suffix.get_char(i) {
            assert(!ends_with_spec(s@, suffix@)) by {
                assert(s@.subrange(s@.len() - m, s@.len() as int)[i as int]
                    == s@[n - m + i]);
            }
            return false;
        }
        i = i + 1;
    }
    assert(s@.subrange(s@.len() - m, s@.len() as int) =~= suffix@);
    true
}

pub open spec fn spec_suffix(t: SeedsType) -> Seq<char> {
    match t {
        SeedsType::Simple => ".sql"@,
        SeedsType::ReversibleUp => ".up.sql"@,
        SeedsType::ReversibleDown => ".down.sql"@,
    }
}

pub open spec fn spec_label(t: SeedsType) -> Seq<char> {
    match t {
        SeedsType::Simple => "seeds"@,
        SeedsType::ReversibleUp => "seeds"@,
        SeedsType::ReversibleDown => "revert"@,
    }
}

pub open spec fn spec_file_content(t: SeedsType) -> Seq<char> {
    match t {
        SeedsType::Simple => "-- Add seeds script here\n"@,
        SeedsType::ReversibleUp => "-- Add up seeds script here\n"@,
        SeedsType::ReversibleDown => "-- Add down seeds script here\n"@,
    }
}

/// The description as it is embedded in a file name: spaces become
/// underscores.
pub open spec fn spec_underscored(s: Seq<char>) -> Seq<char> {
    s.map_values(|c: char| if c == ' ' { '_' } else { c })
}

/// The file name a newly created script of the given kind is written
/// under: the version prefix, an underscore, the description with spaces
/// replaced by underscores, and the kind's suffix.
pub fn seeds_file_name(file_prefix: &str, description: &str, seeds_type: SeedsType) -> (r: String)
    ensures
        r@ == file_prefix@ + "_"@ + spec_underscored(description@) + spec_suffix(seeds_type),
{
    proof {
        reveal_strlit("_");
    }
    let mut name = String::from_str(file_prefix);
    name.append("_");
    let n: usize = description.unicode_len();
    let mut i: usize = 0;
    assert(spec_underscored(description@).take(0) =~= Seq::<char>::empty());
    assert(name@ =~= file_prefix@ + "_"@ + spec_underscored(description@).take(0));
    while i < n
        invariant
            n == description@.len(),
            i <= n,
            name@ == file_prefix@ + "_"@ + spec_underscored(description@).take(i as int),
        decreases n - i,
    {
        proof {
            reveal_strlit("_");
        }
        let c = description.get_char(i);
        if c == ' ' {
            name.append("_");
        } else {
            let piece = description.substring_char(i, i + 1);
            name.append(piece);
        }
        assert(spec_underscored(description@).take(i as int + 1)
            =~= spec_underscored(description@).take(i as int).push(
            spec_underscored(description@)[i as int],
        ));
        assert(name@ =~= file_prefix@ + "_"@ + spec_underscored(description@).take(
            i as int + 1,
        ));
        i = i + 1;
    }
    assert(spec_underscored(description@).take(n as int) =~= spec_underscored(description@));
    name.append(seeds_type.suffix());
    name
}

/// The kind a file name denotes: an `.up.sql` suffix marks the forward half
/// of a reversible pair, `.down.sql` the reverse half, anything else a
/// simple script.
pub open spec fn spec_from_filename(s: Seq<char>) -> SeedsType {
    if ends_with_spec(s, spec_suffix(SeedsType::ReversibleUp)) {
        SeedsType::ReversibleUp
    } else if ends_with_spec(s, spec_suffix(SeedsType::ReversibleDown)) {
        SeedsType::ReversibleDown
    } else {
        SeedsType::Simple
    }
}

impl SeedsType {
    /// Classifies a script file by its name's suffix.
    pub fn from_filename(filename: &str) -> (r: Self)
        ensures
            r == spec_from_filename(filename@),
    {
        if str_ends_with(filename, SeedsType::ReversibleUp.suffix()) {
            SeedsType::ReversibleUp
        } else if str_ends_with(filename, SeedsType::ReversibleDown.suffix()) {
            SeedsType::ReversibleDown
        } else {
            SeedsType::Simple
        }
    }

    /// Whether this kind belongs to a reversible pair.
    pub fn is_reversible(&self) -> (r: bool)
        ensures
            r == (*self == SeedsType::ReversibleUp
                || *self == SeedsType::ReversibleDown),
    {
        match self {
            SeedsType::Simple => false,
            SeedsType::ReversibleUp => true,
            SeedsType::ReversibleDown => true,
        }
    }

    /// Whether this kind is the reverse half of a pair; such scripts are
    /// never applied by a forward run.
    pub fn is_down_seeds(&self) -> (r: bool)
        ensures
            r == (*self == SeedsType::ReversibleDown),
    {
        match self {
            SeedsType::Simple => false,
            SeedsType::ReversibleUp => false,
            SeedsType::ReversibleDown => true,
        }
    }

    /// Short label for reporting an operation on a script of this kind.
    pub fn label(&self) -> (r: &'static str)
        ensures
            r@ == spec_label(*self),
    {
        match self {
            SeedsType::Simple => "seeds",
            SeedsType::ReversibleUp => "seeds",
            SeedsType::ReversibleDown => "revert",
        }
    }

    /// The file-name suffix that denotes this kind.
    pub fn suffix(&self) -> (r: &'static str)
        ensures
            r@ == spec_suffix(*self),
    {
        match self {
            SeedsType::Simple => ".sql",
            SeedsType::ReversibleUp => ".up.sql",
            SeedsType::ReversibleDown => ".down.sql",
        }
    }

    /// The placeholder body a freshly created script file starts with.
    pub fn file_content(&self) -> (r: &'static str)
        ensures
            r@ == spec_file_content(*self),
    {
        match self {
            SeedsType::Simple => "-- Add seeds script here\n",
            SeedsType::ReversibleUp => "-- Add up seeds script here\n",
            SeedsType::ReversibleDown => "-- Add down seeds script here\n",
        }
    }
}

} // verus!
