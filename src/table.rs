//! Tables of named, equal-length columns, and the edits made to them:
//! appending one table to another and removing rows by position.

use vstd::prelude::*;
use crate::error::DataError;

verus! {

/// One value of a column.
#[derive(Clone, Debug, PartialEq, Eq)]
pub enum Cell {
    Int(i32),
    Text(String),
}

/// Named columns of cells, in order. A well-formed table has as many names as
/// columns and columns of one length, its height.
#[derive(Clone, Debug)]
pub struct Table {
    pub names: Vec<String>,
    pub columns: Vec<Vec<Cell>>,
}

/// The names of a table, as character sequences.
pub open spec fn names_view(names: Seq<String>) -> Seq<Seq<char>> {
    names.map_values(|s: String| s@)
}

impl Table {
    /// Number of rows: the length of the first column, or zero without columns.
    pub open spec fn spec_height(&self) -> nat {
        if self.columns@.len() == 0 {
            0
        } else {
            self.columns@[0]@.len()
        }
    }

    pub open spec fn wf(&self) -> bool {
        &&& self.names@.len() == self.columns@.len()
        &&& forall|c: int|
            0 <= c < self.columns@.len() ==> #[trigger] self.columns@[c]@.len()
                == self.spec_height()
    }

    pub open spec fn column(&self, c: int) -> Seq<Cell> {
        self.columns@[c]@
    }

    /// A table without columns or rows.
    pub fn new() -> (r: Table)
        ensures
            r.wf(),
            r.names@.len() == 0,
            r.spec_height() == 0,
    {
        Table { names: Vec::new(), columns: Vec::new() }
    }

    /// Adds a column at the end.
    pub fn push_column(&mut self, name: String, cells: Vec<Cell>)
        requires
            old(self).wf(),
            old(self).columns@.len() == 0 || cells@.len() == old(self).spec_height(),
        ensures
            final(self).wf(),
            final(self).names@ == old(self).names@.push(name),
            final(self).columns@ == old(self).columns@.push(cells),
            final(self).spec_height() == cells@.len(),
    {
        self.names.push(name);
        self.columns.push(cells);
    }

    pub fn height(&self) -> (r: usize)
        requires
            self.wf(),
        ensures
            r == self.spec_height(),
    {
        if self.columns.len() == 0 {
            0
        } else {
            self.columns[0].len()
        }
    }

    pub fn width(&self) -> (r: usize)
        ensures
            r == self.columns@.len(),
    {
        self.columns.len()
    }
}

/// A copy of a cell, equal to it.
pub fn copy_cell(c: &Cell) -> (r: Cell)
    ensures
        r == *c,
{
    match c {
        Cell::Int(v) => Cell::Int(*v),
        Cell::Text(s) => Cell::Text(s.clone()),
    }
}

/// A copy of a list of names, equal to it.
pub fn copy_names(v: &Vec<String>) -> (r: Vec<String>)
    ensures
        r@ == v@,
{
    let mut r: Vec<String> = Vec::new();
    let mut i: usize = 0;
    while i < v.len()
        invariant
            i <= v@.len(),
            r@ == v@.subrange(0, i as int),
        decreases v@.len() - i,
    {
        r.push(v[i].clone());
        assert(r@ =~= v@.subrange(0, i + 1));
        i += 1;
    }
    assert(v@.subrange(0, i as int) =~= v@);
    r
}

/// Appends copies of the cells of `b` to `a`.
fn extend_cells(a: &mut Vec<Cell>, b: &Vec<Cell>)
    ensures
        final(a)@ == old(a)@ + b@,
{
    let mut i: usize = 0;
    while i < b.len()
        invariant
            i <= b@.len(),
            a@ == old(a)@ + b@.subrange(0, i as int),
        decreases b@.len() - i,
    {
        a.push(copy_cell(&b[i]));
        assert(old(a)@ + b@.subrange(0, i + 1) =~= (old(a)@ + b@.subrange(0, i as int)).push(
            b@[i as int],
        ));
        i += 1;
    }
    assert(b@.subrange(0, i as int) =~= b@);
}

/// True when both lists hold the same names in the same order.
pub fn same_names(a: &Vec<String>, b: &Vec<String>) -> (r: bool)
    ensures
        r == (names_view(a@) == names_view(b@)),
{
    if a.len() != b.len() {
        assert(names_view(a@).len() != names_view(b@).len());
        return false;
    }
    let mut i: usize = 0;
    while i < a.len()
        invariant
            a@.len() == b@.len(),
            i <= a@.len(),
            forall|k: int| 0 <= k < i ==> a@[k]@ == b@[k]@,
        decreases a@.len() - i,
    {
        if a[i] != b[i] {
            assert(names_view(a@)[i as int] != names_view(b@)[i as int]);
            return false;
        }
        i += 1;
    }
    assert(names_view(a@) =~= names_view(b@));
    true
}

/// The rows of `target` followed by the rows of `addition`. The two must have
/// the same column names in the same order; otherwise the result is
/// `AppendSchemaMismatch`.
pub fn append(target: &Table, addition: &Table) -> (r: Result<Table, DataError>)
    requires
        target.wf(),
        addition.wf(),
    ensures
        names_view(target.names@) != names_view(addition.names@) ==> r == Err::<Table, DataError>(
            DataError::AppendSchemaMismatch,
        ),
        names_view(target.names@) == names_view(addition.names@) ==> r is Ok && appended(
            target,
            addition,
            &r->Ok_0,
        ),
{
    if !same_names(&target.names, &addition.names) {
        return Err(DataError::AppendSchemaMismatch);
    }
    let ghost w = target.columns@.len();
    assert(names_view(target.names@).len() == names_view(addition.names@).len());
    let mut columns: Vec<Vec<Cell>> = Vec::new();
    let mut c: usize = 0;
    while c < target.columns.len()
        invariant
            target.wf(),
            addition.wf(),
            w == target.columns@.len(),
            w == addition.columns@.len(),
            c <= w,
            columns@.len() == c,
            forall|k: int|
                0 <= k < c ==> #[trigger] columns@[k]@ == target.column(k) + addition.column(k),
        decreases w - c,
    {
        let mut col: Vec<Cell> = Vec::new();
        extend_cells(&mut col, &target.columns[c]);
        extend_cells(&mut col, &addition.columns[c]);
        assert(col@ =~= target.column(c as int) + addition.column(c as int));
        columns.push(col);
        c += 1;
    }
    let r = Table { names: copy_names(&target.names), columns };
    proof {
        if w > 0 {
            assert(r.columns@[0]@.len() == target.spec_height() + addition.spec_height());
        }
    }
    assert(r.wf());
    Ok(r)
}

/// `r` holds the rows of `a` followed by those of `b`, under the names of `a`.
pub open spec fn appended(a: &Table, b: &Table, r: &Table) -> bool {
    &&& r.wf()
    &&& r.names@ == a.names@
    &&& r.columns@.len() == a.columns@.len()
    &&& forall|c: int| 0 <= c < r.columns@.len() ==> #[trigger] r.column(c) == a.column(c) + b.column(c)
    &&& r.spec_height() == a.spec_height() + b.spec_height()
}

/// The positions listed in `v`.
pub open spec fn index_set(v: Seq<i32>) -> Set<int> {
    Set::new(|i: int| exists|k: int| 0 <= k < v.len() && v[k] as int == i)
}

/// The elements of `s` whose position is not in `del`, in order.
pub open spec fn drop_rows<T>(s: Seq<T>, del: Set<int>) -> Seq<T>
    decreases s.len(),
{
    if s.len() == 0 {
        s
    } else {
        let rest = drop_rows(s.drop_last(), del);
        if del.contains(s.len() - 1) {
            rest
        } else {
            rest.push(s.last())
        }
    }
}

/// True when `i` is listed in `v`.
fn listed(v: &Vec<i32>, i: usize) -> (r: bool)
    ensures
        r == index_set(v@).contains(i as int),
{
    let mut k: usize = 0;
    while k < v.len()
        invariant
            k <= v@.len(),
            forall|j: int| 0 <= j < k ==> v@[j] as int != i as int,
        decreases v@.len() - k,
    {
        if v[k] >= 0 && v[k] as usize == i {
            assert(v@[k as int] as int == i as int);
            assert(index_set(v@).contains(i as int));
            return true;
        }
        k += 1;
    }
    false
}

/// The cells of `col` whose position is not listed in `indices`.
fn keep_cells(col: &Vec<Cell>, indices: &Vec<i32>) -> (r: Vec<Cell>)
    ensures
        r@ == drop_rows(col@, index_set(indices@)),
{
    let ghost del = index_set(indices@);
    let mut r: Vec<Cell> = Vec::new();
    let mut i: usize = 0;
    while i < col.len()
        invariant
            del == index_set(indices@),
            i <= col@.len(),
            r@ == drop_rows(col@.subrange(0, i as int), del),
        decreases col@.len() - i,
    {
        assert(col@.subrange(0, i + 1).drop_last() =~= col@.subrange(0, i as int));
        if !listed(indices, i) {
            r.push(copy_cell(&col[i]));
        }
        i += 1;
    }
    assert(col@.subrange(0, i as int) =~= col@);
    r
}

pub proof fn lemma_drop_rows_len<T>(s: Seq<T>, del: Set<int>)
    ensures
        drop_rows(s, del).len() <= s.len(),
        (forall|i: int| 0 <= i < s.len() ==> !del.contains(i)) ==> drop_rows(s, del) == s,
    decreases s.len(),
{
    if s.len() > 0 {
        lemma_drop_rows_len(s.drop_last(), del);
        if forall|i: int| 0 <= i < s.len() ==> !del.contains(i) {
            assert(s.drop_last().push(s.last()) =~= s);
        }
    }
}

/// `r` holds the rows of `t` whose position is not listed in `indices`.
pub open spec fn filtered(t: &Table, indices: Seq<i32>, r: &Table) -> bool {
    &&& r.wf()
    &&& r.names@ == t.names@
    &&& r.columns@.len() == t.columns@.len()
    &&& forall|c: int|
        0 <= c < r.columns@.len() ==> #[trigger] r.column(c) == drop_rows(
            t.column(c),
            index_set(indices),
        )
}

/// The rows of `table` whose position (from zero) is not listed in
/// `indices`; positions outside the table and repeats have no effect.
pub fn filter_by_index(table: &Table, indices: &Vec<i32>) -> (r: Table)
    requires
        table.wf(),
    ensures
        filtered(table, indices@, &r),
{
    let ghost w = table.columns@.len();
    let mut columns: Vec<Vec<Cell>> = Vec::new();
    let mut c: usize = 0;
    while c < table.columns.len()
        invariant
            table.wf(),
            w == table.columns@.len(),
            c <= w,
            columns@.len() == c,
            forall|k: int|
                0 <= k < c ==> #[trigger] columns@[k]@ == drop_rows(
                    table.column(k),
                    index_set(indices@),
                ),
        decreases w - c,
    {
        let col = keep_cells(&table.columns[c], indices);
        columns.push(col);
        c += 1;
    }
    let r = Table { names: copy_names(&table.names), columns };
    assert forall|c: int| 0 <= c < r.columns@.len() implies #[trigger] r.columns@[c]@.len()
        == r.spec_height() by {
        lemma_drop_rows_same_len(table.column(c), table.column(0), index_set(indices@));
    }
    r
}

/// Two sequences of one length lose the same number of elements.
pub proof fn lemma_drop_rows_same_len<T, U>(s: Seq<T>, t: Seq<U>, del: Set<int>)
    requires
        s.len() == t.len(),
    ensures
        drop_rows(s, del).len() == drop_rows(t, del).len(),
    decreases s.len(),
{
    if s.len() > 0 {
        lemma_drop_rows_same_len(s.drop_last(), t.drop_last(), del);
    }
}

/// Removing one position inside a sequence shortens it by one; one outside
/// it changes nothing.
pub proof fn lemma_drop_single<T>(s: Seq<T>, i: int)
    ensures
        0 <= i < s.len() ==> drop_rows(s, set![i]).len() == s.len() - 1,
        !(0 <= i < s.len()) ==> drop_rows(s, set![i]) == s,
    decreases s.len(),
{
    if s.len() > 0 {
        lemma_drop_single(s.drop_last(), i);
        lemma_drop_rows_len(s.drop_last(), set![i]);
        if !(0 <= i < s.len()) {
            assert(s.drop_last().push(s.last()) =~= s);
        }
    } else {
        lemma_drop_rows_len(s, set![i]);
    }
}

/// Filtering a table of height `H` by one position `i < H` leaves `H - 1`
/// rows; by a position outside the table, all `H` rows.
pub proof fn law_filter_single_index(t: &Table, i: i32, r: &Table)
    requires
        t.wf(),
        filtered(t, seq![i], r),
    ensures
        0 <= i < t.spec_height() ==> r.spec_height() == t.spec_height() - 1,
        !(0 <= i < t.spec_height()) ==> r.spec_height() == t.spec_height(),
{
    assert(index_set(seq![i]) =~= set![i as int]) by {
        assert forall|x: int| index_set(seq![i]).contains(x) <==> x == i as int by {
            if x == i as int {
                assert(seq![i][0] as int == x);
            }
        }
    }
    if t.columns@.len() > 0 {
        assert(r.column(0) == drop_rows(t.column(0), set![i as int]));
        lemma_drop_single(t.column(0), i as int);
    }
}

/// Filtering by a list of positions gives the same table as filtering by any
/// list with the same members, its deduplicated form among them.
pub proof fn law_filter_duplicates(t: &Table, a: Seq<i32>, b: Seq<i32>, ra: &Table, rb: &Table)
    requires
        t.wf(),
        a.to_set() == b.to_set(),
        filtered(t, a, ra),
        filtered(t, b, rb),
    ensures
        ra.names@ == rb.names@,
        ra.columns@.len() == rb.columns@.len(),
        forall|c: int| 0 <= c < ra.columns@.len() ==> #[trigger] ra.column(c) == rb.column(c),
{
    assert(index_set(a) =~= index_set(b)) by {
        assert forall|x: int| index_set(a).contains(x) implies index_set(b).contains(x) by {
            let k = choose|k: int| 0 <= k < a.len() && a[k] as int == x;
            assert(a.to_set().contains(a[k]));
            assert(b.to_set().contains(a[k]));
        }
        assert forall|x: int| index_set(b).contains(x) implies index_set(a).contains(x) by {
            let k = choose|k: int| 0 <= k < b.len() && b[k] as int == x;
            assert(b.to_set().contains(b[k]));
            assert(a.to_set().contains(b[k]));
        }
    }
}

/// Appending a table of height `hB` to one of height `hA` with the same
/// column names gives height `hA + hB`, the rows of the first before those of
/// the second.
pub proof fn law_append_heights(a: &Table, b: &Table, r: &Table)
    requires
        a.wf(),
        b.wf(),
        appended(a, b, r),
    ensures
        r.spec_height() == a.spec_height() + b.spec_height(),
        forall|c: int, i: int|
            0 <= c < r.columns@.len() && 0 <= i < a.spec_height() ==> #[trigger] r.column(c)[i]
                == a.column(c)[i],
        forall|c: int, i: int|
            0 <= c < r.columns@.len() && 0 <= i < b.spec_height() ==> #[trigger] r.column(c)[a.spec_height() + i]
                == b.column(c)[i],
{
    assert forall|c: int, i: int|
        0 <= c < r.columns@.len() && 0 <= i < b.spec_height() implies #[trigger] r.column(c)[a.spec_height() + i]
        == b.column(c)[i] by {
        assert(r.column(c) == a.column(c) + b.column(c));
        assert(a.columns@[c]@.len() == a.spec_height());
        assert(b.columns@[c]@.len() == b.spec_height());
    }
}

/// The positions in `[0, n)` that `del` holds.
pub open spec fn removed_in(n: int, del: Set<int>) -> Set<int> {
    Set::new(|i: int| 0 <= i < n && del.contains(i))
}

/// Dropping rows keeps every row whose position `del` does not hold.
pub proof fn lemma_drop_rows_count<T>(s: Seq<T>, del: Set<int>)
    ensures
        removed_in(s.len() as int, del).finite(),
        drop_rows(s, del).len() + removed_in(s.len() as int, del).len() == s.len(),
    decreases s.len(),
{
    if s.len() == 0 {
        assert(removed_in(0, del) =~= Set::<int>::empty());
    } else {
        let n = s.len() - 1;
        lemma_drop_rows_count(s.drop_last(), del);
        if del.contains(n) {
            assert(removed_in(n + 1, del) =~= removed_in(n, del).insert(n));
        } else {
            assert(removed_in(n + 1, del) =~= removed_in(n, del));
        }
    }
}

/// Filtering a table of height `H` leaves `H` minus the number of distinct
/// listed positions that lie in `[0, H)`.
pub proof fn law_filter_height(t: &Table, v: Seq<i32>, r: &Table)
    requires
        t.wf(),
        filtered(t, v, r),
        t.columns@.len() > 0,
    ensures
        r.spec_height() == t.spec_height() - removed_in(t.spec_height() as int, index_set(v)).len(),
{
    assert(r.column(0) == drop_rows(t.column(0), index_set(v)));
    lemma_drop_rows_count(t.column(0), index_set(v));
}

} // verus!
