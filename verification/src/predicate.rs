//! The per-line matching rule applied to one extracted column.
//!
//! Exactly one of two interchangeable strategies is active per run: a
//! regular-expression test, or exact membership in a fixed set of literal
//! values.  A supplied pattern takes precedence over the value set, and an
//! empty value set matches nothing.

use crate::errors::ScanError;
use crate::pattern::{regex_accepts, regex_valid, CompiledRegex};
use crate::split::chars_eq;
use crate::text::chars_of;
use vstd::prelude::*;

verus! {

/// The active matching strategy.
pub enum Predicate {
    /// Match when the regular expression finds a match within the field.
    Pattern(CompiledRegex),
    /// Match when the field equals one of these values exactly.
    Exact(Vec<Vec<char>>),
}

/// The pattern of a regex predicate, if that is the active strategy.
pub open spec fn pred_ropt(p: &Predicate) -> Option<Seq<char>> {
    match p {
        Predicate::Pattern(c) => Some(c.pattern_view()),
        Predicate::Exact(_) => None,
    }
}

/// The literal values of an exact-set predicate; empty for a regex predicate.
pub open spec fn pred_vals(p: &Predicate) -> Seq<Seq<char>> {
    match p {
        Predicate::Pattern(_) => Seq::empty(),
        Predicate::Exact(vals) => vals.deep_view(),
    }
}

/// Whether a field matches: against the pattern when one is configured,
/// otherwise by exact membership in the value set.
pub open spec fn value_matches(
    ropt: Option<Seq<char>>,
    vals: Seq<Seq<char>>,
    field: Seq<char>,
) -> bool {
    match ropt {
        Some(p) => regex_accepts(p, field),
        None => vals.contains(field),
    }
}

/// Whether a field matches the predicate.
pub open spec fn pred_matches(p: &Predicate, field: Seq<char>) -> bool {
    value_matches(pred_ropt(p), pred_vals(p), field)
}

/// Whether `vals` holds a vector with exactly the characters of `field`.
fn contains_chars(vals: &Vec<Vec<char>>, field: &Vec<char>) -> (r: bool)
    ensures
        r == vals.deep_view().contains(field@),
{
    let mut k: usize = 0;
    while k < vals.len()
        invariant
            0 <= k <= vals.len(),
            forall|m: int| 0 <= m < k ==> vals.deep_view()[m] != field@,
        decreases vals.len() - k,
    {
        proof {
            assert(vals.deep_view()[k as int] == vals@[k as int]@);
        }
        if chars_eq(&vals[k], field) {
            assert(vals.deep_view()[k as int] == field@);
            return true;
        }
        k = k + 1;
    }
    assert(!vals.deep_view().contains(field@));
    false
}

impl Predicate {
    /// Chooses the active predicate for a run: a supplied pattern takes
    /// precedence; otherwise the literal value set, possibly empty, is used.
    pub fn build(regex: &Option<String>, values: &Vec<String>) -> (r: Result<Predicate, ScanError>)
        ensures
            match regex {
                Some(p) => match r {
                    Ok(q) => regex_valid(p@) && pred_ropt(&q) == Some(p@),
                    Err(e) => !regex_valid(p@) && e == ScanError::BadPattern,
                },
                None => match r {
                    Ok(q) => pred_ropt(&q) is None && pred_vals(&q) == values.deep_view(),
                    Err(_) => false,
                },
            },
    {
        match regex {
            Some(p) => {
                let c = CompiledRegex::compile(p.as_str())?;
                Ok(Predicate::Pattern(c))
            },
            None => {
                let mut vals: Vec<Vec<char>> = Vec::new();
                let mut k: usize = 0;
                proof {
                    assert(vals.deep_view() =~~= values.deep_view().take(0));
                }
                while k < values.len()
                    invariant
                        0 <= k <= values.len(),
                        vals.deep_view() == values.deep_view().take(k as int),
                    decreases values.len() - k,
                {
                    let ghost prev = vals.deep_view();
                    let cs = chars_of(values[k].as_str());
                    proof {
                        assert(cs@ == values.deep_view()[k as int]);
                    }
                    vals.push(cs);
                    k = k + 1;
                    proof {
                        assert(vals.deep_view() =~~= prev.push(cs@));
                        assert(vals.deep_view() =~~= values.deep_view().take(k as int));
                    }
                }
                proof {
                    assert(values.deep_view().take(values.len() as int) =~~= values.deep_view());
                }
                Ok(Predicate::Exact(vals))
            },
        }
    }

    /// Whether a field matches the predicate.
    pub fn matches(&self, field: &Vec<char>) -> (r: bool)
        ensures
            r == pred_matches(self, field@),
    {
        match self {
            Predicate::Pattern(c) => c.is_match(field),
            Predicate::Exact(vals) => contains_chars(vals, field),
        }
    }
}

/// An exact-set predicate with an empty value list matches nothing, whatever
/// the field.
pub proof fn lemma_empty_set_matches_nothing(vals: Seq<Seq<char>>, field: Seq<char>)
    requires
        vals.len() == 0,
    ensures
        !value_matches(None, vals, field),
{
}

} // verus!
