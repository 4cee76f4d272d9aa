//! The total order on file references.
//!
//! Grouping keys are source-attribution chains; reproducible output needs a
//! total order over them: by file name, then line, then column, then the
//! callsite chain, chains themselves ordered element by element and shorter
//! before longer.

use vstd::prelude::*;
use crate::data_model::FileReference;

verus! {

#[derive(Clone, Copy, PartialEq, Eq, Structural, Debug)]
pub enum Rank {
    Less,
    Equal,
    Greater,
}

/// Character-by-character comparison from position `i` on.
pub open spec fn spec_cmp_chars(a: Seq<char>, b: Seq<char>, i: int) -> Rank
    decreases a.len() - i,
{
    if i < 0 {
        Rank::Equal
    } else if i < a.len() && i < b.len() {
        if (a[i] as int) < (b[i] as int) {
            Rank::Less
        } else if (a[i] as int) > (b[i] as int) {
            Rank::Greater
        } else {
            spec_cmp_chars(a, b, i + 1)
        }
    } else if i < b.len() {
        Rank::Less
    } else if i < a.len() {
        Rank::Greater
    } else {
        Rank::Equal
    }
}

pub fn cmp_str(a: &str, b: &str) -> (r: Rank)
    ensures
        r == spec_cmp_chars(a@, b@, 0),
{
    let na = a.unicode_len();
    let nb = b.unicode_len();
    let mut i: usize = 0;
    while i < na && i < nb
        invariant
            0 <= i,
            i <= na || i <= nb,
            na == a@.len(),
            nb == b@.len(),
            spec_cmp_chars(a@, b@, 0) == spec_cmp_chars(a@, b@, i as int),
        decreases na + nb - i,
    {
        let ca = a.get_char(i) as u32;
        let cb = b.get_char(i) as u32;
        if ca < cb {
            return Rank::Less;
        } else if ca > cb {
            return Rank::Greater;
        }
        i += 1;
    }
    if i < nb {
        Rank::Less
    } else if i < na {
        Rank::Greater
    } else {
        Rank::Equal
    }
}

pub open spec fn spec_cmp_u32(a: u32, b: u32) -> Rank {
    if a < b {
        Rank::Less
    } else if a > b {
        Rank::Greater
    } else {
        Rank::Equal
    }
}

/// An absent column orders before any present one.
pub open spec fn spec_cmp_opt_u32(a: Option<u32>, b: Option<u32>) -> Rank {
    match (a, b) {
        (None, None) => Rank::Equal,
        (None, Some(_)) => Rank::Less,
        (Some(_), None) => Rank::Greater,
        (Some(x), Some(y)) => spec_cmp_u32(x, y),
    }
}

/// The first unequal component decides.
pub open spec fn rank_then(r: Rank, next: Rank) -> Rank {
    if r == Rank::Equal {
        next
    } else {
        r
    }
}

/// File references order by file name, then line, then column, then the
/// callsite chain.
pub open spec fn spec_cmp_fr(a: FileReference, b: FileReference) -> Rank
    decreases a,
{
    rank_then(
        spec_cmp_chars(a.file_name@, b.file_name@, 0),
        rank_then(
            spec_cmp_u32(a.line, b.line),
            rank_then(
                spec_cmp_opt_u32(a.column_number, b.column_number),
                spec_cmp_fr_list(a.callsite@, b.callsite@, 0),
            ),
        ),
    )
}

/// Chains compare element by element from position `i`; a shorter chain
/// that is a prefix of the longer orders first.
pub open spec fn spec_cmp_fr_list(x: Seq<FileReference>, y: Seq<FileReference>, i: int) -> Rank
    decreases x, x.len() - i,
{
    if i < 0 {
        Rank::Equal
    } else if i < x.len() && i < y.len() {
        let r = spec_cmp_fr(x[i], y[i]);
        if r == Rank::Equal {
            spec_cmp_fr_list(x, y, i + 1)
        } else {
            r
        }
    } else if i < y.len() {
        Rank::Less
    } else if i < x.len() {
        Rank::Greater
    } else {
        Rank::Equal
    }
}

pub fn cmp_fr(a: &FileReference, b: &FileReference) -> (r: Rank)
    ensures
        r == spec_cmp_fr(*a, *b),
    decreases *a,
{
    let c = cmp_str(a.file_name.as_str(), b.file_name.as_str());
    if !matches!(c, Rank::Equal) {
        return c;
    }
    if a.line < b.line {
        return Rank::Less;
    }
    if a.line > b.line {
        return Rank::Greater;
    }
    let oc = match (&a.column_number, &b.column_number) {
        (None, None) => Rank::Equal,
        (None, Some(_)) => Rank::Less,
        (Some(_), None) => Rank::Greater,
        (Some(x), Some(y)) => {
            if *x < *y {
                Rank::Less
            } else if *x > *y {
                Rank::Greater
            } else {
                Rank::Equal
            }
        },
    };
    if !matches!(oc, Rank::Equal) {
        return oc;
    }
    proof {
        assert(decreases_to!(*a => a.callsite@));
    }
    cmp_fr_vec(&a.callsite, &b.callsite)
}

pub fn cmp_fr_vec(x: &Vec<FileReference>, y: &Vec<FileReference>) -> (r: Rank)
    ensures
        r == spec_cmp_fr_list(x@, y@, 0),
    decreases x@,
{
    let mut i: usize = 0;
    while i < x.len() && i < y.len()
        invariant
            0 <= i,
            i <= x@.len() || i <= y@.len(),
            spec_cmp_fr_list(x@, y@, 0) == spec_cmp_fr_list(x@, y@, i as int),
        decreases x@.len() + y@.len() - i,
    {
        let r = cmp_fr(&x[i], &y[i]);
        if !matches!(r, Rank::Equal) {
            return r;
        }
        i += 1;
    }
    if i < y.len() {
        Rank::Less
    } else if i < x.len() {
        Rank::Greater
    } else {
        Rank::Equal
    }
}

} // verus!
