//! Delete targets: which row positions to remove, written as `random`, one
//! index, an inclusive range `lo-hi`, or a comma-separated list of indices.

use vstd::prelude::*;
use rand::Rng;
use crate::error::DataError;
use crate::sequence::{signed_end, signed_end_from};
use crate::text::{
    chars_equal, chars_of, parse_i32_of, parsed_i32, skip_spaces_from, split_chars, split_on, trim,
    trim_end_from,
};

verus! {

/// A delete target, read once from its text.
#[derive(Clone, Debug)]
pub enum DeleteTarget {
    /// A random set of positions.
    Random,
    /// One position.
    Single(i32),
    /// Every position from the first bound to the second, both included.
    Range(i32, i32),
    /// The positions listed.
    List(Vec<i32>),
}

/// What a `DeleteTarget` holds.
pub enum TargetSpec {
    Random,
    Single(i32),
    Range(i32, i32),
    List(Seq<i32>),
}

impl View for DeleteTarget {
    type V = TargetSpec;

    open spec fn view(&self) -> TargetSpec {
        match self {
            DeleteTarget::Random => TargetSpec::Random,
            DeleteTarget::Single(i) => TargetSpec::Single(*i),
            DeleteTarget::Range(lo, hi) => TargetSpec::Range(*lo, *hi),
            DeleteTarget::List(v) => TargetSpec::List(v@),
        }
    }
}

/// Position of the dash between the bounds when all of `s` is `lo-hi`, each
/// bound an optionally negative run of digits.
pub open spec fn range_split(s: Seq<char>) -> Option<int> {
    match signed_end(s, 0) {
        Some(a) => if a < s.len() && s[a] == '-' {
            match signed_end(s, a + 1) {
                Some(d) => if d == s.len() {
                    Some(a)
                } else {
                    None
                },
                None => None,
            }
        } else {
            None
        },
        None => None,
    }
}

/// The integers that the pieces write, each trimmed, if every piece writes one.
pub open spec fn list_spec(pieces: Seq<Seq<char>>) -> Option<Seq<i32>>
    decreases pieces.len(),
{
    if pieces.len() == 0 {
        Some(Seq::empty())
    } else {
        match (list_spec(pieces.drop_last()), parsed_i32(trim(pieces.last()))) {
            (Some(l), Some(x)) => Some(l.push(x)),
            _ => None,
        }
    }
}

/// The delete target that `s` writes; the first form that matches decides.
pub open spec fn delete_expr_spec(s: Seq<char>) -> Option<TargetSpec> {
    if s == "random"@ {
        Some(TargetSpec::Random)
    } else if parsed_i32(s) is Some {
        Some(TargetSpec::Single(parsed_i32(s)->0))
    } else if range_split(s) is Some {
        let a = range_split(s)->0;
        match (parsed_i32(s.subrange(0, a)), parsed_i32(s.subrange(a + 1, s.len() as int))) {
            (Some(l), Some(u)) => Some(TargetSpec::Range(l, u)),
            _ => None,
        }
    } else {
        match list_spec(split_on(s, ',')) {
            Some(l) => if l.len() > 0 {
                Some(TargetSpec::List(l))
            } else {
                None
            },
            None => None,
        }
    }
}

/// The positions that a target other than `Random` names, in order.
pub open spec fn expand(t: TargetSpec) -> Seq<i32> {
    match t {
        TargetSpec::Single(i) => seq![i],
        TargetSpec::Range(lo, hi) => if lo <= hi {
            Seq::new((hi - lo + 1) as nat, |k: int| (lo + k) as i32)
        } else {
            Seq::empty()
        },
        TargetSpec::List(l) => l,
        TargetSpec::Random => Seq::empty(),
    }
}

/// A random draw for `rows` rows: between one and `max(rows, 1)` positions,
/// each in `[0, rows]`.
pub open spec fn random_ok(v: Seq<i32>, rows: nat) -> bool {
    &&& 1 <= v.len() <= (if rows > 0 { rows } else { 1 })
    &&& forall|k: int| 0 <= k < v.len() ==> 0 <= #[trigger] v[k] <= rows
}

/// `v` is what target `t` resolves to for `rows` rows.
pub open spec fn resolved(t: TargetSpec, rows: nat, v: Seq<i32>) -> bool {
    if t is Random {
        random_ok(v, rows)
    } else {
        v == expand(t)
    }
}

/// Relies on rand's `thread_rng().gen_range(lo..=hi)`: a value in `[lo, hi]`
/// (it panics on an empty range, which `requires` leaves out).
#[verifier::external_body]
fn random_between(lo: usize, hi: usize) -> (r: usize)
    requires
        lo <= hi,
    ensures
        lo <= r <= hi,
{
    rand::thread_rng().gen_range(lo..=hi)
}

/// The integers written by `pieces`, each trimmed, or `None` if one is not an integer.
fn parse_list(pieces: &Vec<Vec<char>>) -> (r: Option<Vec<i32>>)
    ensures
        match list_spec(pieces@.map_values(|p: Vec<char>| p@)) {
            Some(l) => r is Some && r->0@ == l,
            None => r is None,
        },
{
    let ghost all = pieces@.map_values(|p: Vec<char>| p@);
    let mut r: Vec<i32> = Vec::new();
    let mut i: usize = 0;
    while i < pieces.len()
        invariant
            all == pieces@.map_values(|p: Vec<char>| p@),
            i <= pieces@.len(),
            list_spec(all.subrange(0, i as int)) == Some(r@),
        decreases pieces@.len() - i,
    {
        let piece = &pieces[i];
        let n = piece.len();
        assert(piece@.subrange(0, n as int) =~= piece@);
        let b = skip_spaces_from(piece, 0, n);
        let e = trim_end_from(piece, b, n);
        let x = parse_i32_of(piece, b, e);
        assert(all.subrange(0, i + 1).drop_last() =~= all.subrange(0, i as int));
        assert(all.subrange(0, i + 1).last() == piece@);
        match x {
            Some(x) => {
                r.push(x);
            },
            None => {
                proof {
                    lemma_list_spec_none(all, i as int);
                }
                return None;
            },
        }
        i += 1;
    }
    assert(all.subrange(0, i as int) =~= all);
    Some(r)
}

proof fn lemma_list_spec_none(all: Seq<Seq<char>>, i: int)
    requires
        0 <= i < all.len(),
        list_spec(all.subrange(0, i + 1)) is None,
    ensures
        list_spec(all) is None,
    decreases all.len() - i,
{
    if i + 1 < all.len() {
        assert(all.subrange(0, i + 2).drop_last() =~= all.subrange(0, i + 1));
        lemma_list_spec_none(all, i + 1);
    } else {
        assert(all.subrange(0, i + 1) =~= all);
    }
}

/// The delete target that `text` writes. Its forms are tried in order:
/// the word `random`; one integer; `lo-hi` with optionally negative bounds;
/// integers separated by commas, each trimmed. Any other text, the empty
/// text among them, is an error.
pub fn parse_delete_expr(text: &str) -> (r: Result<DeleteTarget, DataError>)
    ensures
        match delete_expr_spec(text@) {
            Some(t) => r is Ok && r->Ok_0@ == t,
            None => r == Err::<DeleteTarget, DataError>(DataError::DeleteTargetParse),
        },
{
    let v = chars_of(text);
    let n = v.len();
    if chars_equal(&v, "random") {
        return Ok(DeleteTarget::Random);
    }
    match parse_i32_of(&v, 0, n) {
        Some(i) => {
            assert(v@.subrange(0, n as int) =~= v@);
            return Ok(DeleteTarget::Single(i));
        },
        None => {},
    }
    assert(v@.subrange(0, n as int) =~= v@);
    match signed_end_from(&v, 0) {
        Some(a) => {
            if a < n && v[a] == '-' {
                match signed_end_from(&v, a + 1) {
                    Some(d) => {
                        if d == n {
                            let lower = parse_i32_of(&v, 0, a);
                            let upper = parse_i32_of(&v, a + 1, n);
                            return match (lower, upper) {
                                (Some(l), Some(u)) => Ok(DeleteTarget::Range(l, u)),
                                _ => Err(DataError::DeleteTargetParse),
                            };
                        }
                    },
                    None => {},
                }
            }
        },
        None => {},
    }
    let pieces = split_chars(&v, n, ',');
    assert(pieces@.map_values(|p: Vec<char>| p@) =~= split_on(v@, ','));
    match parse_list(&pieces) {
        Some(l) => {
            if l.len() > 0 {
                Ok(DeleteTarget::List(l))
            } else {
                Err(DataError::DeleteTargetParse)
            }
        },
        None => Err(DataError::DeleteTargetParse),
    }
}

/// The positions that `target` names for a table of `rows` rows. `Random`
/// draws a count in `[1, max(rows, 1)]`, then that many positions in
/// `[0, rows]`, repeats allowed.
pub fn resolve_target(target: &DeleteTarget, rows: usize) -> (r: Vec<i32>)
    requires
        rows <= i32::MAX,
    ensures
        resolved(target@, rows as nat, r@),
{
    match target {
        DeleteTarget::Random => {
            let top = if rows > 0 { rows } else { 1 };
            let count = random_between(1, top);
            let mut r: Vec<i32> = Vec::new();
            let mut k: usize = 0;
            while k < count
                invariant
                    rows <= i32::MAX,
                    1 <= count <= (if rows > 0 { rows } else { 1 }),
                    k <= count,
                    r@.len() == k,
                    forall|j: int| 0 <= j < r@.len() ==> 0 <= #[trigger] r@[j] <= rows,
                decreases count - k,
            {
                let x = random_between(0, rows);
                r.push(x as i32);
                k += 1;
            }
            r
        },
        DeleteTarget::Single(i) => {
            let r = vec![*i];
            assert(r@ =~= expand(target@));
            r
        },
        DeleteTarget::Range(lo, hi) => {
            let mut r: Vec<i32> = Vec::new();
            if *lo > *hi {
                assert(r@ =~= expand(target@));
                return r;
            }
            let mut x: i64 = *lo as i64;
            while x <= *hi as i64
                invariant
                    *lo <= x <= *hi as int + 1,
                    *lo <= *hi,
                    r@ =~= Seq::new((x - *lo) as nat, |k: int| (*lo + k) as i32),
                decreases *hi as int + 1 - x,
            {
                r.push(x as i32);
                x += 1;
            }
            assert(r@ =~= expand(target@));
            r
        },
        DeleteTarget::List(l) => {
            let r = l.clone();
            assert(r@ =~= l@);
            r
        },
    }
}

/// The positions that `text` names for a table of `rows` rows; see
/// `parse_delete_expr` for the forms and `resolve_target` for `random`.
pub fn parse_delete_target(text: &str, rows: usize) -> (r: Result<Vec<i32>, DataError>)
    requires
        rows <= i32::MAX,
    ensures
        match delete_expr_spec(text@) {
            Some(t) => r is Ok && resolved(t, rows as nat, r->Ok_0@),
            None => r == Err::<Vec<i32>, DataError>(DataError::DeleteTargetParse),
        },
{
    match parse_delete_expr(text) {
        Ok(t) => Ok(resolve_target(&t, rows)),
        Err(e) => Err(e),
    }
}

} // verus!
