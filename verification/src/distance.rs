//! Metric identities: parsing from names and canonical display.
//!
//! A metric name is matched case-insensitively against the recognized set
//! `"l2"`, `"euclidean"` (an alias of L2), `"cosine"` and `"dot"`; anything
//! else is rejected with [`UnsupportedMetric`]. Case folding here is the
//! ASCII one: it agrees with full Unicode lowercasing on every string that
//! could match one of the recognized names, since none of those names
//! contains a letter that any non-ASCII character lowercases to.

use vstd::prelude::*;
use vstd::string::StrSliceExecFns;

verus! {

/// Distance metrics type.
#[derive(Debug, Copy, Clone, PartialEq, Eq, Structural)]
pub enum DistanceType {
    L2,
    Cosine,
    Dot,
}

/// For backwards compatibility.
pub type MetricType = DistanceType;

/// The error for a metric name outside the recognized set: it carries the
/// rejected name.
#[derive(Debug, Clone, PartialEq, Eq)]
pub struct UnsupportedMetric {
    pub name: String,
}

/// The case-folded code point of a character: ASCII uppercase letters map to
/// their lowercase counterparts, every other character to its own code.
pub open spec fn lower_code(c: char) -> u32 {
    if 65 <= c as u32 && c as u32 <= 90 {
        (c as u32 + 32) as u32
    } else {
        c as u32
    }
}

/// A string case-folded character by character.
pub open spec fn folded(s: Seq<char>) -> Seq<u32> {
    s.map_values(|c: char| lower_code(c))
}

/// Two strings are equal up to ASCII case.
pub open spec fn eq_ignore_case(a: Seq<char>, b: Seq<char>) -> bool {
    folded(a) == folded(b)
}

/// What parsing a metric name yields: the metric whose name or alias the
/// input matches up to case, or nothing.
pub open spec fn parse_spec(s: Seq<char>) -> Option<DistanceType> {
    if eq_ignore_case(s, "l2"@) || eq_ignore_case(s, "euclidean"@) {
        Some(DistanceType::L2)
    } else if eq_ignore_case(s, "cosine"@) {
        Some(DistanceType::Cosine)
    } else if eq_ignore_case(s, "dot"@) {
        Some(DistanceType::Dot)
    } else {
        None
    }
}

fn lower_code_exec(c: char) -> (r: u32)
    ensures
        r == lower_code(c),
{
    let code: u32 = c as u32;
    if 65 <= code && code <= 90 {
        code + 32
    } else {
        code
    }
}

fn eq_ignore_case_str(a: &str, b: &str) -> (r: bool)
    ensures
        r == eq_ignore_case(a@, b@),
{
    let n = a.unicode_len();
    if n != b.unicode_len() {
        assert(folded(a@).len() != folded(b@).len());
        return false;
    }
    let mut i: usize = 0;
    while i < n
        invariant
            i <= n,
            n == a@.len(),
            n == b@.len(),
            forall|j: int| 0 <= j < i ==> folded(a@)[j] == folded(b@)[j],
        decreases n - i,
    {
        let ca = a.get_char(i);
        let cb = b.get_char(i);
        if lower_code_exec(ca) != lower_code_exec(cb) {
            assert(folded(a@)[i as int] != folded(b@)[i as int]);
            return false;
        }
        i += 1;
    }
    assert(folded(a@) =~= folded(b@));
    true
}

impl DistanceType {
    /// The canonical lowercase name of the metric.
    pub open spec fn canonical_name(self) -> Seq<char> {
        match self {
            DistanceType::L2 => "l2"@,
            DistanceType::Cosine => "cosine"@,
            DistanceType::Dot => "dot"@,
        }
    }

    /// Resolves a metric name: case-insensitive, with `"euclidean"` accepted
    /// as an alias of L2. Every unrecognized name comes back inside the
    /// error.
    pub fn parse(s: &str) -> (r: Result<DistanceType, UnsupportedMetric>)
        ensures
            r is Ok <==> parse_spec(s@) is Some,
            r matches Ok(m) ==> parse_spec(s@) == Some(m),
            r matches Err(e) ==> e.name@ == s@,
    {
        if eq_ignore_case_str(s, "l2") || eq_ignore_case_str(s, "euclidean") {
            Ok(DistanceType::L2)
        } else if eq_ignore_case_str(s, "cosine") {
            Ok(DistanceType::Cosine)
        } else if eq_ignore_case_str(s, "dot") {
            Ok(DistanceType::Dot)
        } else {
            Err(UnsupportedMetric { name: s.to_owned() })
        }
    }

    /// The canonical lowercase name, the one an alias normalizes to.
    pub fn display(&self) -> (r: String)
        ensures
            r@ == self.canonical_name(),
    {
        match self {
            DistanceType::L2 => "l2".to_owned(),
            DistanceType::Cosine => "cosine".to_owned(),
            DistanceType::Dot => "dot".to_owned(),
        }
    }
}

/// Parsing is case-insensitive: two names equal up to case resolve to the
/// same metric, or both fail.
pub proof fn lemma_parse_case_insensitive(a: Seq<char>, b: Seq<char>)
    requires
        eq_ignore_case(a, b),
    ensures
        parse_spec(a) == parse_spec(b),
{
}

/// Parsing is total over the recognized set and partial outside it: it
/// succeeds exactly on the names that match `"l2"`, `"euclidean"`,
/// `"cosine"` or `"dot"` up to case.
pub proof fn lemma_parse_recognized(s: Seq<char>)
    ensures
        parse_spec(s) is Some <==> (eq_ignore_case(s, "l2"@) || eq_ignore_case(s, "euclidean"@)
            || eq_ignore_case(s, "cosine"@) || eq_ignore_case(s, "dot"@)),
{
}

/// Display round-trips through parsing: every metric's canonical name parses
/// back to that metric, so aliases normalize to a stable form.
pub proof fn lemma_parse_canonical(m: DistanceType)
    ensures
        parse_spec(m.canonical_name()) == Some(m),
{
    reveal_strlit("l2");
    reveal_strlit("euclidean");
    reveal_strlit("cosine");
    reveal_strlit("dot");
    assert(folded("l2"@).len() == 2);
    assert(folded("euclidean"@).len() == 9);
    assert(folded("cosine"@).len() == 6);
    assert(folded("dot"@).len() == 3);
}

} // verus!
