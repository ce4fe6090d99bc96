//! Numeric semantic versions and the update-classification rules.

use vstd::prelude::*;
use vstd::string::StrSliceExecFns;

verus! {

/// A semantic version reduced to its three numeric components.
#[derive(Clone, Copy, PartialEq, Eq, Structural, Debug)]
pub struct Version {
    pub major: u64,
    pub minor: u64,
    pub patch: u64,
}

/// The bucket an available update falls into, by how far the latest
/// published version is ahead of the current one.
#[derive(Clone, Copy, PartialEq, Eq, Structural, Debug)]
pub enum VersionSection {
    Patch,
    Minor,
    Major,
    PreV1,
}

/// The classification of `latest` against `current`: `None` when the two are
/// equal (or `latest` is behind on every component), otherwise the first rule
/// that applies, in order: a latest major of zero always lands in `PreV1`, a
/// greater major in `Major`, else a greater minor in `Minor`, else a greater
/// patch in `Patch`.
pub open spec fn spec_classify(current: Version, latest: Version) -> Option<VersionSection> {
    if current == latest {
        None
    } else if latest.major == 0 {
        Some(VersionSection::PreV1)
    } else if latest.major > current.major {
        Some(VersionSection::Major)
    } else if latest.minor > current.minor {
        Some(VersionSection::Minor)
    } else if latest.patch > current.patch {
        Some(VersionSection::Patch)
    } else {
        None
    }
}

/// Decide which update bucket, if any, `latest` falls into relative to
/// `current`.
pub fn classify(current: &Version, latest: &Version) -> (r: Option<VersionSection>)
    ensures
        r == spec_classify(*current, *latest),
{
    if current.major == latest.major && current.minor == latest.minor && current.patch
        == latest.patch {
        None
    } else if latest.major == 0 {
        Some(VersionSection::PreV1)
    } else if latest.major > current.major {
        Some(VersionSection::Major)
    } else if latest.minor > current.minor {
        Some(VersionSection::Minor)
    } else if latest.patch > current.patch {
        Some(VersionSection::Patch)
    } else {
        None
    }
}


/// A decimal digit.
pub open spec fn is_digit(c: char) -> bool {
    ('0' as u32) <= (c as u32) && (c as u32) <= ('9' as u32)
}

/// The value of a decimal digit.
pub open spec fn digit_val(c: char) -> nat {
    ((c as u32) - ('0' as u32)) as nat
}

/// A non-empty run of decimal digits.
pub open spec fn is_digits(s: Seq<char>) -> bool {
    s.len() > 0 && forall|i: int| 0 <= i < s.len() ==> is_digit(#[trigger] s[i])
}

/// The number a run of decimal digits denotes.
pub open spec fn digits_val(s: Seq<char>) -> nat
    decreases s.len(),
{
    if s.len() == 0 {
        0
    } else {
        digits_val(s.drop_last()) * 10 + digit_val(s.last())
    }
}

/// A version string with its optional leading caret or tilde removed.
pub open spec fn strip_prefix(s: Seq<char>) -> Seq<char> {
    if s.len() > 0 && (s[0] == '^' || s[0] == '~') {
        s.drop_first()
    } else {
        s
    }
}

/// `i` and `j` are the two dots of a well-formed `major.minor.patch` core,
/// with each component a digit run whose value fits in 64 bits.
pub open spec fn valid_core_at(s: Seq<char>, i: int, j: int) -> bool {
    &&& 0 <= i < j < s.len()
    &&& s[i] == '.'
    &&& s[j] == '.'
    &&& is_digits(s.subrange(0, i))
    &&& is_digits(s.subrange(i + 1, j))
    &&& is_digits(s.subrange(j + 1, s.len() as int))
    &&& digits_val(s.subrange(0, i)) <= u64::MAX
    &&& digits_val(s.subrange(i + 1, j)) <= u64::MAX
    &&& digits_val(s.subrange(j + 1, s.len() as int)) <= u64::MAX
}

/// The string is an optional caret or tilde followed by a well-formed
/// `major.minor.patch` core.
pub open spec fn is_valid_version(s: Seq<char>) -> bool {
    exists|i: int, j: int| valid_core_at(strip_prefix(s), i, j)
}

/// The version a valid version string denotes.
pub open spec fn spec_version_of(s: Seq<char>) -> Version {
    let core = strip_prefix(s);
    let (i, j) = choose|i: int, j: int| valid_core_at(core, i, j);
    Version {
        major: digits_val(core.subrange(0, i)) as u64,
        minor: digits_val(core.subrange(i + 1, j)) as u64,
        patch: digits_val(core.subrange(j + 1, core.len() as int)) as u64,
    }
}

/// The two dots of a valid core are pinned: the first dot of the string and
/// the first dot after it.
proof fn lemma_core_pins(core: Seq<char>, i: int, j: int, i2: int, j2: int)
    requires
        0 <= i < core.len(),
        core[i] == '.',
        forall|k: int| 0 <= k < i ==> core[k] != '.',
        i < j < core.len(),
        core[j] == '.',
        forall|k: int| i < k < j ==> core[k] != '.',
        valid_core_at(core, i2, j2),
    ensures
        i2 == i,
        j2 == j,
{
    if i2 < i {
        assert(core[i2] != '.');
    } else if i2 > i {
        assert(is_digit(core.subrange(0, i2)[i]));
        assert(core.subrange(0, i2)[i] == core[i]);
    }
    if j2 < j {
        assert(core[j2] != '.');
    } else if j2 > j {
        assert(is_digit(core.subrange(i2 + 1, j2)[j - i2 - 1]));
        assert(core.subrange(i2 + 1, j2)[j - i2 - 1] == core[j]);
    }
}

/// A longer digit run denotes at least as large a number.
proof fn lemma_digits_prefix_le(s: Seq<char>, k: int)
    requires
        0 <= k <= s.len(),
    ensures
        digits_val(s.subrange(0, k)) <= digits_val(s.subrange(0, s.len() as int)),
    decreases s.len() - k,
{
    if k < s.len() {
        assert(s.subrange(0, k + 1).drop_last() =~= s.subrange(0, k));
        assert(s.subrange(0, k + 1).last() == s[k]);
        assert(digits_val(s.subrange(0, k + 1)) == digits_val(s.subrange(0, k)) * 10 + digit_val(
            s[k],
        ));
        assert(digits_val(s.subrange(0, k)) * 10 >= digits_val(s.subrange(0, k))) by (
        nonlinear_arith);
        lemma_digits_prefix_le(s, k + 1);
    }
}

/// The characters of a text, as a vector.
fn chars_of(s: &str) -> (r: Vec<char>)
    ensures
        r@ == s@,
{
    let n = s.unicode_len();
    let mut out: Vec<char> = Vec::new();
    let mut i: usize = 0;
    while i < n
        invariant
            i <= n,
            n == s@.len(),
            out@.len() == i,
            forall|k: int| 0 <= k < i ==> out@[k] == s@[k],
        decreases n - i,
    {
        out.push(s.get_char(i));
        i = i + 1;
    }
    proof {
        assert(out@ =~= s@);
    }
    out
}

/// The first occurrence of `target` in `cs` at or after `from`.
fn find_char(cs: &Vec<char>, from: usize, target: char) -> (r: Option<usize>)
    requires
        from <= cs@.len(),
    ensures
        match r {
            Some(i) => from <= i < cs@.len() && cs@[i as int] == target && (forall|k: int|
                from <= k < i ==> cs@[k] != target),
            None => forall|k: int| from <= k < cs@.len() ==> cs@[k] != target,
        },
{
    let mut i: usize = from;
    while i < cs.len()
        invariant
            from <= i <= cs@.len(),
            forall|k: int| from <= k < i ==> cs@[k] != target,
        decreases cs@.len() - i,
    {
        if cs[i] == target {
            return Some(i);
        }
        i = i + 1;
    }
    None
}

/// Parse the digit run `cs[from..to]`: its value when it is a non-empty run
/// of digits that fits in 64 bits, `None` otherwise.
fn parse_digits(cs: &Vec<char>, from: usize, to: usize) -> (r: Option<u64>)
    requires
        from <= to <= cs@.len(),
    ensures
        ({
            let seg = cs@.subrange(from as int, to as int);
            match r {
                Some(v) => is_digits(seg) && v as nat == digits_val(seg),
                None => !(is_digits(seg) && digits_val(seg) <= u64::MAX),
            }
        }),
{
    let ghost seg = cs@.subrange(from as int, to as int);
    if from == to {
        return None;
    }
    let mut acc: u64 = 0;
    let mut k: usize = from;
    while k < to
        invariant
            from <= k <= to <= cs@.len(),
            seg == cs@.subrange(from as int, to as int),
            forall|m: int| from <= m < k ==> is_digit(#[trigger] cs@[m]),
            acc as nat == digits_val(seg.subrange(0, k - from)),
        decreases to - k,
    {
        let c = cs[k];
        let code: u32 = c as u32;
        if code < 48 || code > 57 {
            proof {
                assert(!is_digit(seg[k - from]));
            }
            return None;
        }
        let d: u64 = ((code - 48) as u64);
        let wide: u128 = (acc as u128) * 10 + (d as u128);
        proof {
            assert(seg.subrange(0, k - from + 1).drop_last() =~= seg.subrange(0, k - from));
            assert(seg.subrange(0, k - from + 1).last() == cs@[k as int]);
            assert(digits_val(seg.subrange(0, k - from + 1)) == digits_val(
                seg.subrange(0, k - from),
            ) * 10 + digit_val(cs@[k as int]));
        }
        if wide > u64::MAX as u128 {
            proof {
                lemma_digits_prefix_le(seg, k - from + 1);
                assert(seg.subrange(0, seg.len() as int) =~= seg);
                assert(digits_val(seg) > u64::MAX);
            }
            return None;
        }
        acc = wide as u64;
        k = k + 1;
    }
    proof {
        assert(seg.subrange(0, to - from) =~= seg);
        assert(is_digits(seg));
    }
    Some(acc)
}

/// Parse a version string: an optional leading caret or tilde, then three
/// dot-separated decimal components.  Succeeds exactly on such strings whose
/// components fit in 64 bits, and returns exactly the denoted version.
pub fn parse_version(s: &str) -> (r: Option<Version>)
    ensures
        match r {
            Some(v) => is_valid_version(s@) && v == spec_version_of(s@),
            None => !is_valid_version(s@),
        },
{
    let cs = chars_of(s);
    let start: usize = if cs.len() > 0 {
        let c0 = cs[0];
        if c0 == '^' || c0 == '~' {
            1
        } else {
            0
        }
    } else {
        0
    };
    let mut core: Vec<char> = Vec::new();
    let mut k: usize = start;
    while k < cs.len()
        invariant
            start <= k <= cs@.len(),
            core@.len() == k - start,
            forall|m: int| 0 <= m < k - start ==> core@[m] == cs@[m + start],
        decreases cs@.len() - k,
    {
        core.push(cs[k]);
        k = k + 1;
    }
    proof {
        assert(core@ =~= strip_prefix(s@));
    }
    let i = match find_char(&core, 0, '.') {
        Some(i) => i,
        None => {
            proof {
                assert forall|i2: int, j2: int| !valid_core_at(core@, i2, j2) by {
                    if valid_core_at(core@, i2, j2) {
                        assert(core@[i2] == '.');
                    }
                }
            }
            return None;
        },
    };
    let j = match find_char(&core, i + 1, '.') {
        Some(j) => j,
        None => {
            proof {
                assert forall|i2: int, j2: int| !valid_core_at(core@, i2, j2) by {
                    if valid_core_at(core@, i2, j2) {
                        lemma_first_dot_pins(core@, i as int, i2, j2);
                    }
                }
            }
            return None;
        },
    };
    let major = match parse_digits(&core, 0, i) {
        Some(v) => v,
        None => {
            proof {
                assert forall|i2: int, j2: int| !valid_core_at(core@, i2, j2) by {
                    if valid_core_at(core@, i2, j2) {
                        lemma_core_pins(core@, i as int, j as int, i2, j2);
                    }
                }
            }
            return None;
        },
    };
    let minor = match parse_digits(&core, i + 1, j) {
        Some(v) => v,
        None => {
            proof {
                assert forall|i2: int, j2: int| !valid_core_at(core@, i2, j2) by {
                    if valid_core_at(core@, i2, j2) {
                        lemma_core_pins(core@, i as int, j as int, i2, j2);
                    }
                }
            }
            return None;
        },
    };
    let patch = match parse_digits(&core, j + 1, core.len()) {
        Some(v) => v,
        None => {
            proof {
                assert forall|i2: int, j2: int| !valid_core_at(core@, i2, j2) by {
                    if valid_core_at(core@, i2, j2) {
                        lemma_core_pins(core@, i as int, j as int, i2, j2);
                    }
                }
            }
            return None;
        },
    };
    proof {
        assert(valid_core_at(core@, i as int, j as int));
        let (i2, j2) = choose|i2: int, j2: int| valid_core_at(core@, i2, j2);
        lemma_core_pins(core@, i as int, j as int, i2, j2);
    }
    Some(Version { major, minor, patch })
}

/// A valid core's first dot is the string's first dot.
proof fn lemma_first_dot_pins(core: Seq<char>, i: int, i2: int, j2: int)
    requires
        0 <= i < core.len(),
        core[i] == '.',
        forall|k: int| 0 <= k < i ==> core[k] != '.',
        valid_core_at(core, i2, j2),
    ensures
        i2 == i,
{
    if i2 < i {
        assert(core[i2] != '.');
    } else if i2 > i {
        assert(is_digit(core.subrange(0, i2)[i]));
        assert(core.subrange(0, i2)[i] == core[i]);
    }
}

} // verus!
