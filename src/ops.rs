//! The table operations of the machine: filter, order, limit and project.
use vstd::prelude::*;
use crate::value::{Value, value_lt, value_eq, lemma_value_lt_irreflexive, lemma_value_lt_transitive, lemma_value_lt_total};
use crate::sort::{is_stable_sort, perm_indices, sort_permutation, apply_permutation};
use crate::table::{Column, Row, Table, copy_row, copy_values, rows_of, same_columns, placeholder_column_name, placeholder_name};
use crate::value::{data_type_of, is_default_of};
use crate::expr::{Expr, eval_in};
use crate::vm::RuntimeError;

verus! {

/// Whether the filter predicate `e` keeps the row `row` of `t`.
pub open spec fn keeps(e: Expr, t: Table, row: Seq<Value>) -> bool {
    eval_in(e, t, row) == Ok::<Value, crate::expr::ExprError>(Value::Bool(true))
}

/// Why the filter predicate `e` cannot be applied to the row `row`, if it cannot.
pub open spec fn filter_fault(e: Expr, t: Table, row: Seq<Value>) -> Option<RuntimeError> {
    match eval_in(e, t, row) {
        Err(x) => Some(RuntimeError::ExprError(x)),
        Ok(Value::Bool(_)) => None,
        Ok(Value::Null) => None,
        Ok(v) => Some(RuntimeError::FilterWithNonBoolean(v)),
    }
}

/// The fault of the first row that has one.
pub open spec fn first_filter_fault(e: Expr, t: Table, rows: Seq<Seq<Value>>) -> Option<
    RuntimeError,
>
    decreases rows.len(),
{
    if rows.len() == 0 {
        None
    } else {
        match first_filter_fault(e, t, rows.drop_last()) {
            Some(x) => Some(x),
            None => filter_fault(e, t, rows.last()),
        }
    }
}

/// The rows that the predicate keeps, in their order.
pub open spec fn filtered(e: Expr, t: Table, rows: Seq<Seq<Value>>) -> Seq<Seq<Value>> {
    rows.filter(|row: Seq<Value>| keeps(e, t, row))
}

/// The same table with other rows.
pub open spec fn same_frame(a: Table, b: Table) -> bool {
    a.name == b.name && a.columns == b.columns && a.temporary == b.temporary
}

/// What filtering `before` by `e` gives: the first fault with the table
/// unchanged, or the kept rows in their order.
pub open spec fn filter_outcome(e: Expr, before: Table, after: Table, r: Result<(), RuntimeError>) -> bool {
    match first_filter_fault(e, before, before.rows()) {
        Some(x) => r == Err::<(), RuntimeError>(x) && after == before,
        None => r is Ok && same_frame(after, before) && after.rows() == filtered(e, before, before.rows()),
    }
}

/// What limiting `before` to `limit` rows gives: its first `limit` rows.
pub open spec fn limit_outcome(limit: u64, before: Table, after: Table) -> bool {
    &&& same_frame(after, before)
    &&& after.rows() == before.rows().take(
        if limit as int <= before.rows().len() {
            limit as int
        } else {
            before.rows().len() as int
        },
    )
}

/// Keeps the rows on which `expr` is `true`; drops those on which it is
/// `false` or `Null`; fails on the first row where it fails or gives another type.
pub fn filter_table(t: &mut Table, expr: &Expr) -> (r: Result<(), RuntimeError>)
    ensures
        old(t).wf() ==> final(t).wf(),
        filter_outcome(*expr, *old(t), *final(t), r),
{
    let ghost rows = old(t).rows();
    let mut kept: Vec<Row> = Vec::new();
    let mut i: usize = 0;
    while i < t.raw_data.len()
        invariant
            *t == *old(t),
            rows == t.rows(),
            i <= rows.len(),
            first_filter_fault(*expr, *t, rows.take(i as int)) is None,
            rows_of(kept@) == filtered(*expr, *t, rows.take(i as int)),
            old(t).wf() ==> forall|k: int| 0 <= k < kept@.len() ==> (#[trigger] kept@[k]).data@.len() == t.columns@.len(),
        decreases rows.len() - i,
    {
        assert(rows.take(i + 1).drop_last() == rows.take(i as int));
        assert(rows.take(i + 1).last() == t.raw_data@[i as int].data@);
        let v = match expr.execute(t, &t.raw_data[i]) {
            Ok(v) => v,
            Err(x) => {
                proof {
                    lemma_fault_persists(*expr, *t, rows, i as int + 1);
                }
                return Err(RuntimeError::ExprError(x));
            },
        };
        match v {
            Value::Bool(b) => {
                if b {
                    kept.push(copy_row(&t.raw_data[i]));
                }
            },
            Value::Null => {},
            _ => {
                proof {
                    lemma_fault_persists(*expr, *t, rows, i as int + 1);
                }
                return Err(RuntimeError::FilterWithNonBoolean(v));
            },
        }
        proof {
            reveal(Seq::filter);
            assert(rows_of(kept@) == filtered(*expr, *t, rows.take(i + 1)));
        }
        i = i + 1;
    }
    assert(rows.take(i as int) == rows);
    t.raw_data = kept;
    Ok(())
}

/// A fault of a prefix is the fault of the whole.
proof fn lemma_fault_persists(e: Expr, t: Table, rows: Seq<Seq<Value>>, n: int)
    requires
        0 <= n <= rows.len(),
        first_filter_fault(e, t, rows.take(n)) is Some,
    ensures
        first_filter_fault(e, t, rows) == first_filter_fault(e, t, rows.take(n)),
    decreases rows.len() - n,
{
    if n < rows.len() {
        assert(rows.take(n + 1).drop_last() == rows.take(n));
        lemma_fault_persists(e, t, rows, n + 1);
    } else {
        assert(rows.take(n) == rows);
    }
}

/// Keeps the first `limit` rows.
pub fn limit_table(t: &mut Table, limit: u64)
    ensures
        old(t).wf() ==> final(t).wf(),
        final(t).raw_data@.len() == if limit as int <= old(t).raw_data@.len() {
            limit as int
        } else {
            old(t).raw_data@.len() as int
        },
        limit_outcome(limit, *old(t), *final(t)),
        same_frame(*final(t), *old(t)),
        final(t).rows() == old(t).rows().take(
            if limit as int <= old(t).rows().len() {
                limit as int
            } else {
                old(t).rows().len() as int
            },
        ),
{
    let n = t.raw_data.len();
    if (limit as u128) < (n as u128) {
        t.raw_data.truncate(limit as usize);
    }
    assert(t.rows() == old(t).rows().take(t.raw_data@.len() as int));
}


/// The first row on which the sort key fails, and how.
pub open spec fn first_key_fault(e: Expr, t: Table, rows: Seq<Seq<Value>>) -> Option<RuntimeError>
    decreases rows.len(),
{
    if rows.len() == 0 {
        None
    } else {
        match first_key_fault(e, t, rows.drop_last()) {
            Some(x) => Some(x),
            None => match eval_in(e, t, rows.last()) {
                Err(x) => Some(RuntimeError::ExprError(x)),
                Ok(_) => None,
            },
        }
    }
}

/// The sort key of each row, where none fails.
pub open spec fn sort_keys(e: Expr, t: Table, rows: Seq<Seq<Value>>) -> Seq<Value> {
    Seq::new(rows.len(), |i: int| eval_in(e, t, rows[i])->Ok_0)
}

/// How many of `keys` sort strictly before `v`.
pub open spec fn count_below(keys: Seq<Value>, v: Value) -> nat
    decreases keys.len(),
{
    if keys.len() == 0 {
        0
    } else {
        count_below(keys.drop_last(), v) + if value_lt(keys.last(), v) {
            1nat
        } else {
            0nat
        }
    }
}

/// `p` lists each index below `keys.len()` once, ordered by key in the value
/// order, and by index among equal keys.
pub open spec fn is_stable_value_sort(keys: Seq<Value>, p: Seq<usize>) -> bool {
    &&& p.len() == keys.len()
    &&& forall|k: int| 0 <= k < p.len() ==> #[trigger] p[k] < keys.len()
    &&& forall|k: int, l: int| 0 <= k < l < p.len() ==> #[trigger] p[k] != #[trigger] p[l]
    &&& forall|k: int, l: int|
        0 <= k < l < p.len() ==> value_lt(keys[#[trigger] p[k] as int], keys[#[trigger] p[l] as int])
            || (value_eq(keys[p[k] as int], keys[p[l] as int]) && p[k] < p[l])
}

/// The rows taken in the order of `p`.
pub open spec fn permuted(rows: Seq<Seq<Value>>, p: Seq<usize>) -> Seq<Seq<Value>> {
    Seq::new(p.len(), |k: int| rows[p[k] as int])
}

proof fn lemma_count_below_equal(keys: Seq<Value>, a: Value, b: Value)
    requires
        value_eq(a, b),
    ensures
        count_below(keys, a) == count_below(keys, b),
    decreases keys.len(),
{
    if keys.len() > 0 {
        lemma_count_below_equal(keys.drop_last(), a, b);
    }
}

proof fn lemma_count_below_monotone(keys: Seq<Value>, a: Value, b: Value)
    requires
        !value_lt(b, a),
    ensures
        count_below(keys, a) <= count_below(keys, b),
    decreases keys.len(),
{
    if keys.len() > 0 {
        lemma_count_below_monotone(keys.drop_last(), a, b);
        let x = keys.last();
        if value_lt(x, a) && !value_lt(x, b) {
            if value_lt(a, b) {
                lemma_value_lt_transitive(x, a, b);
            } else {
                lemma_value_lt_total(a, b);
                lemma_count_below_equal(seq![x], a, b);
                reveal_with_fuel(count_below, 2);
                assert(seq![x].drop_last() =~= Seq::<Value>::empty());
            }
        }
    }
}

proof fn lemma_count_below_strict(keys: Seq<Value>, i: int, b: Value)
    requires
        0 <= i < keys.len(),
        value_lt(keys[i], b),
    ensures
        count_below(keys, keys[i]) < count_below(keys, b),
    decreases keys.len(),
{
    let a = keys[i];
    lemma_value_lt_irreflexive(a);
    if i == keys.len() - 1 {
        if value_lt(b, a) {
            lemma_value_lt_transitive(a, b, a);
        }
        lemma_count_below_monotone(keys.drop_last(), a, b);
    } else {
        lemma_count_below_strict(keys.drop_last(), i, b);
        let x = keys.last();
        if value_lt(x, a) {
            lemma_value_lt_transitive(x, a, b);
        }
    }
}

/// Ordering by rank is ordering by key.
proof fn lemma_rank_sort_is_value_sort(keys: Seq<Value>, ranks: Seq<usize>, p: Seq<usize>)
    requires
        ranks.len() == keys.len(),
        forall|i: int| 0 <= i < keys.len() ==> #[trigger] ranks[i] == count_below(keys, keys[i]),
        is_stable_sort(ranks, p),
    ensures
        is_stable_value_sort(keys, p),
{
    assert forall|k: int, l: int| 0 <= k < l < p.len() implies value_lt(
        keys[#[trigger] p[k] as int],
        keys[#[trigger] p[l] as int],
    ) || (value_eq(keys[p[k] as int], keys[p[l] as int]) && p[k] < p[l]) by {
        let a = keys[p[k] as int];
        let b = keys[p[l] as int];
        if !value_lt(a, b) {
            if value_lt(b, a) {
                lemma_count_below_strict(keys, p[l] as int, a);
            } else {
                lemma_value_lt_total(a, b);
                lemma_count_below_equal(keys, a, b);
            }
        }
    }
}

fn rank_of(keys: &Vec<Value>, i: usize) -> (r: usize)
    requires
        i < keys@.len(),
    ensures
        r == count_below(keys@, keys@[i as int]),
{
    let mut c: usize = 0;
    let mut j: usize = 0;
    while j < keys.len()
        invariant
            i < keys@.len(),
            j <= keys@.len(),
            c <= j,
            c == count_below(keys@.take(j as int), keys@[i as int]),
        decreases keys@.len() - j,
    {
        assert(keys@.take(j + 1).drop_last() == keys@.take(j as int));
        if keys[j].sorts_before(&keys[i]) {
            c = c + 1;
        }
        j = j + 1;
    }
    assert(keys@.take(j as int) == keys@);
    c
}

/// What ordering `before` by `e` gives: the first fault, or a stable sort of
/// the rows by key, reversed where `ascending` is false.
pub open spec fn order_outcome(e: Expr, before: Table, after: Table, ascending: bool, r: Result<(), RuntimeError>) -> bool {
    match first_key_fault(e, before, before.rows()) {
        Some(x) => r == Err::<(), RuntimeError>(x) && after == before,
        None => r is Ok && same_frame(after, before) && exists|p: Seq<usize>|
            is_stable_value_sort(sort_keys(e, before, before.rows()), p) && after.rows()
                == if ascending {
                permuted(before.rows(), p)
            } else {
                permuted(before.rows(), p).reverse()
            },
    }
}

/// Sorts the rows stably by the value of `expr`, in ascending order, or in
/// descending order (the reverse of the ascending one) where `ascending` is
/// false; fails on the first row where `expr` fails.
pub fn order_table(t: &mut Table, expr: &Expr, ascending: bool) -> (r: Result<(), RuntimeError>)
    requires
        old(t).raw_data@.len() <= isize::MAX,
    ensures
        old(t).wf() ==> final(t).wf(),
        order_outcome(*expr, *old(t), *final(t), ascending, r),
{
    let ghost rows = old(t).rows();
    let mut keys: Vec<Value> = Vec::new();
    let mut i: usize = 0;
    while i < t.raw_data.len()
        invariant
            *t == *old(t),
            rows == t.rows(),
            i <= rows.len(),
            first_key_fault(*expr, *t, rows.take(i as int)) is None,
            keys@.len() == i,
            forall|k: int| 0 <= k < i ==> eval_in(*expr, *t, rows[k]) == Ok::<Value, crate::expr::ExprError>(#[trigger] keys@[k]),
        decreases rows.len() - i,
    {
        assert(rows.take(i + 1).drop_last() == rows.take(i as int));
        assert(rows.take(i + 1).last() == t.raw_data@[i as int].data@);
        match expr.execute(t, &t.raw_data[i]) {
            Ok(v) => keys.push(v),
            Err(x) => {
                proof {
                    lemma_key_fault_persists(*expr, *t, rows, i as int + 1);
                }
                return Err(RuntimeError::ExprError(x));
            },
        }
        i = i + 1;
    }
    assert(rows.take(i as int) == rows);
    assert(keys@ == sort_keys(*expr, *t, rows));
    let mut ranks: Vec<usize> = Vec::new();
    let mut i: usize = 0;
    while i < keys.len()
        invariant
            i <= keys@.len(),
            ranks@.len() == i,
            forall|k: int| 0 <= k < i ==> #[trigger] ranks@[k] == count_below(keys@, keys@[k]),
        decreases keys@.len() - i,
    {
        ranks.push(rank_of(&keys, i));
        i = i + 1;
    }
    let mut p = sort_permutation(&ranks);
    let ghost pi = perm_indices(p);
    proof {
        lemma_rank_sort_is_value_sort(keys@, ranks@, pi);
    }
    apply_permutation(&mut p, &mut t.raw_data);
    assert(t.rows() == permuted(rows, pi));
    assert(old(t).wf() ==> t.wf());
    if !ascending {
        let mut reversed: Vec<Row> = Vec::new();
        let mut j: usize = t.raw_data.len();
        while j > 0
            invariant
                j <= t.raw_data@.len(),
                t.rows() == permuted(rows, pi),
                rows_of(reversed@) == t.rows().reverse().take(t.raw_data@.len() - j),
                t.wf() ==> forall|k: int| 0 <= k < reversed@.len() ==> (#[trigger] reversed@[k]).data@.len() == t.columns@.len(),
            decreases j,
        {
            j = j - 1;
            let ghost before = reversed@;
            let row = copy_row(&t.raw_data[j]);
            reversed.push(row);
            assert(rows_of(reversed@) =~= rows_of(before).push(t.raw_data@[j as int].data@));
            assert(rows_of(reversed@) =~= t.rows().reverse().take(t.raw_data@.len() - j));
        }
        assert(t.rows().reverse().take(t.raw_data@.len() as int) =~= t.rows().reverse());
        t.raw_data = reversed;
    }
    Ok(())
}

proof fn lemma_key_fault_persists(e: Expr, t: Table, rows: Seq<Seq<Value>>, n: int)
    requires
        0 <= n <= rows.len(),
        first_key_fault(e, t, rows.take(n)) is Some,
    ensures
        first_key_fault(e, t, rows) == first_key_fault(e, t, rows.take(n)),
    decreases rows.len() - n,
{
    if n < rows.len() {
        assert(rows.take(n + 1).drop_last() == rows.take(n));
        lemma_key_fault_persists(e, t, rows, n + 1);
    } else {
        assert(rows.take(n) == rows);
    }
}


/// The rows a projection extends: those of `out`, or, where `out` has none,
/// one row of `Null`s per input row.
pub open spec fn base_rows(inp: Table, out: Table) -> Seq<Seq<Value>> {
    if out.raw_data@.len() == 0 {
        Seq::new(inp.raw_data@.len(), |i: int| Seq::new(out.columns@.len(), |j: int| Value::Null))
    } else {
        out.rows()
    }
}

/// A row of default values for the columns `cols`.
pub open spec fn is_sentinel(s: Seq<Value>, cols: Seq<Column>) -> bool {
    s.len() == cols.len() && forall|i: int| 0 <= i < s.len() ==> is_default_of(#[trigger] s[i], cols[i].data_type)
}

/// The name a projected column gets.
pub open spec fn projected_name(alias: Option<String>, name: Seq<char>) -> bool {
    match alias {
        Some(a) => name == a@,
        None => name == placeholder_column_name(),
    }
}

fn null_row(n: usize) -> (r: Row)
    ensures
        r.data@ == Seq::new(n as nat, |x: int| Value::Null),
{
    let mut data: Vec<Value> = Vec::new();
    let mut j: usize = 0;
    while j < n
        invariant
            j <= n,
            data@ == Seq::new(j as nat, |x: int| Value::Null),
        decreases n - j,
    {
        data.push(Value::Null);
        j = j + 1;
        assert(data@ =~= Seq::new(j as nat, |x: int| Value::Null));
    }
    Row { data }
}

/// What projecting `e` from `inp` onto `before` gives (see `project_table`).
pub open spec fn project_outcome(inp: Table, before: Table, after: Table, e: Expr, alias: Option<String>, r: Result<(), RuntimeError>) -> bool {
    &&& (r is Err ==> after == before)
    &&& (before.raw_data@.len() != 0 && inp.raw_data@.len() != before.raw_data@.len() ==> r == Err::<(), RuntimeError>((RuntimeError::ProjectTableSizeMismatch { inp_table_len: inp.raw_data@.len() as usize, out_table_len: before.raw_data@.len() as usize })))
    &&& (before.raw_data@.len() == 0 || inp.raw_data@.len() == before.raw_data@.len() ==> {
        let base = base_rows(inp, before);
        let n = inp.raw_data@.len() as int;
        if e is Wildcard {
            &&& r is Ok
            &&& after.name == before.name && after.temporary == before.temporary
            &&& same_columns(after.columns@, before.columns@ + inp.columns@)
            &&& after.rows() == Seq::new(n as nat, |i: int| base[i] + inp.rows()[i])
        } else {
            match first_key_fault(e, inp, inp.rows()) {
                Some(x) => r == Err::<(), RuntimeError>(x),
                None => {
                    let keys = sort_keys(e, inp, inp.rows());
                    let m = before.columns@.len();
                    let c = after.columns@[m as int];
                    &&& (n > 0 ==> r is Ok && c.data_type == data_type_of(keys[0]))
                    &&& (n == 0 && r is Ok ==> exists|s: Seq<Value>, v: Value| is_sentinel(s, inp.columns@) && eval_in(e, inp, s) == Ok::<Value, crate::expr::ExprError>(v) && c.data_type == data_type_of(v))
                    &&& (n == 0 && r is Err ==> exists|s: Seq<Value>, x: crate::expr::ExprError| is_sentinel(s, inp.columns@) && eval_in(e, inp, s) == Err::<Value, crate::expr::ExprError>(x) && r == Err::<(), RuntimeError>(RuntimeError::ExprError(x)))
                    &&& r is Ok ==> {
                        &&& after.name == before.name && after.temporary == before.temporary
                        &&& after.columns@.len() == m + 1
                        &&& after.columns@.take(m as int) == before.columns@
                        &&& projected_name(alias, c.name@)
                        &&& c.options@.len() == 0 && !c.primary_key
                        &&& after.rows() == Seq::new(n as nat, |i: int| base[i].push(keys[i]))
                    }
                },
            }
        }
    })
}

/// Appends to `out` the columns that `expr` projects from `inp`.
///
/// A `Wildcard` appends every column of `inp` with its data; another
/// expression appends one column, named by `alias`, holding its value on each
/// input row. The output must have as many rows as the input, or none.
pub fn project_table(inp: &Table, out: &mut Table, expr: &Expr, alias: Option<String>) -> (r: Result<(), RuntimeError>)
    requires
        inp.wf(),
        old(out).wf(),
    ensures
        final(out).wf(),
        r is Ok && inp.raw_data@.len() > 0 ==> final(out).raw_data@.len() == inp.raw_data@.len(),
        project_outcome(*inp, *old(out), *final(out), *expr, alias, r),
{
    let n = inp.raw_data.len();
    if out.raw_data.len() != 0 && n != out.raw_data.len() {
        return Err(RuntimeError::ProjectTableSizeMismatch { inp_table_len: n, out_table_len: out.raw_data.len() });
    }
    let ghost base = base_rows(*inp, *old(out));
    // The rows to extend, one per input row.
    let mut rows: Vec<Row> = Vec::new();
    let mut i: usize = 0;
    while i < n
        invariant
            n == inp.raw_data@.len(),
            *out == *old(out),
            base == base_rows(*inp, *old(out)),
            out.raw_data@.len() == 0 || out.raw_data@.len() == n,
            i <= n,
            rows@.len() == i,
            forall|k: int| 0 <= k < i ==> (#[trigger] rows@[k]).data@ == base[k],
        decreases n - i,
    {
        if out.raw_data.len() == 0 {
            rows.push(null_row(out.columns.len()));
        } else {
            rows.push(copy_row(&out.raw_data[i]));
        }
        assert(rows@[i as int].data@ =~= base[i as int]);
        i = i + 1;
    }
    if let Expr::Wildcard = expr {
        let ghost old_rows = rows@;
        let mut k: usize = 0;
        while k < n
            invariant
                n == inp.raw_data@.len(),
                rows@.len() == n,
                k <= n,
                forall|x: int| 0 <= x < k ==> (#[trigger] rows@[x]).data@ == base[x] + inp.rows()[x],
                forall|x: int| k <= x < n ==> (#[trigger] rows@[x]).data@ == base[x],
            decreases n - k,
        {
            let extra = copy_values(&inp.raw_data[k].data);
            let mut row = rows.remove(k);
            let mut x: usize = 0;
            let ghost start = row.data@;
            while x < extra.len()
                invariant
                    x <= extra@.len(),
                    row.data@ == start + extra@.take(x as int),
                decreases extra@.len() - x,
            {
                row.data.push(extra[x].duplicate());
                x = x + 1;
                assert(row.data@ =~= start + extra@.take(x as int));
            }
            assert(extra@.take(x as int) =~= extra@);
            rows.insert(k, row);
            k = k + 1;
        }
        let mut c: usize = 0;
        let ghost cols0 = out.columns@;
        while c < inp.columns.len()
            invariant
                out.name == old(out).name,
                out.temporary == old(out).temporary,
                out.raw_data == old(out).raw_data,
                c <= inp.columns@.len(),
                same_columns(out.columns@, old(out).columns@ + inp.columns@.take(c as int)),
            decreases inp.columns@.len() - c,
        {
            out.columns.push(inp.columns[c].duplicate());
            c = c + 1;
            assert(old(out).columns@ + inp.columns@.take(c as int) =~= (old(out).columns@ + inp.columns@.take(c - 1)).push(inp.columns@[c - 1]));
        }
        assert(inp.columns@.take(c as int) =~= inp.columns@);
        out.raw_data = rows;
        assert(out.rows() =~= Seq::new(n as nat, |i: int| base[i] + inp.rows()[i]));
        return Ok(());
    }
    assert(*out == *old(out));
    let ghost irows = inp.rows();
    let mut keys: Vec<Value> = Vec::new();
    let mut i: usize = 0;
    while i < n
        invariant
            n == inp.raw_data@.len(),
            irows == inp.rows(),
            i <= n,
            first_key_fault(*expr, *inp, irows.take(i as int)) is None,
            *out == *old(out),
            old(out).wf(),
            old(out).raw_data@.len() == 0 || n == old(out).raw_data@.len(),
            !(*expr is Wildcard),
            keys@.len() == i,
            forall|k: int| 0 <= k < i ==> eval_in(*expr, *inp, irows[k]) == Ok::<Value, crate::expr::ExprError>(#[trigger] keys@[k]),
        decreases n - i,
    {
        assert(irows.take(i + 1).drop_last() == irows.take(i as int));
        assert(irows.take(i + 1).last() == inp.raw_data@[i as int].data@);
        match expr.execute(inp, &inp.raw_data[i]) {
            Ok(v) => keys.push(v),
            Err(x) => {
                proof {
                    lemma_key_fault_persists(*expr, *inp, irows, i as int + 1);
                }
                return Err(RuntimeError::ExprError(x));
            },
        }
        i = i + 1;
    }
    assert(irows.take(n as int) == irows);
    assert(keys@ == sort_keys(*expr, *inp, irows));
    let data_type = if n > 0 {
        keys[0].data_type()
    } else {
        let sentinel = inp.sentinel_row();
        match expr.execute(inp, &sentinel) {
            Ok(v) => {
                assert(is_sentinel(sentinel.data@, inp.columns@));
                v.data_type()
            },
            Err(x) => {
                assert(is_sentinel(sentinel.data@, inp.columns@));
                return Err(RuntimeError::ExprError(x));
            },
        }
    };
    let mut k: usize = 0;
    while k < n
        invariant
            n == inp.raw_data@.len(),
            rows@.len() == n,
            keys@.len() == n,
            k <= n,
            forall|x: int| 0 <= x < k ==> (#[trigger] rows@[x]).data@ == base[x].push(keys@[x]),
            forall|x: int| k <= x < n ==> (#[trigger] rows@[x]).data@ == base[x],
        decreases n - k,
    {
        let mut row = rows.remove(k);
        row.data.push(keys[k].duplicate());
        rows.insert(k, row);
        k = k + 1;
    }
    let name = match alias {
        Some(a) => a,
        None => placeholder_name(),
    };
    out.columns.push(Column::new(name, data_type, Vec::new(), false));
    out.raw_data = rows;
    assert(out.rows() =~= Seq::new(n as nat, |i: int| base[i].push(keys@[i])));
    assert(keys@ == sort_keys(*expr, *inp, inp.rows()));
    assert(first_key_fault(*expr, *inp, inp.rows()) is None);
    assert(!(*expr is Wildcard));
    assert(projected_name(alias, out.columns@[old(out).columns@.len() as int].name@));
    assert(out.columns@.take(old(out).columns@.len() as int) == old(out).columns@);
    Ok(())
}

// ---------------------------------------------------------------- laws

/// Filtering keeps a subsequence: no more rows than before, each taken from a
/// later position of the input than the one before it.
pub proof fn lemma_filter_keeps_order(e: Expr, t: Table, rows: Seq<Seq<Value>>)
    ensures
        filtered(e, t, rows).len() <= rows.len(),
        exists|f: Seq<int>| #[trigger] is_position_map(f, filtered(e, t, rows), rows),
{
    let f = filter_positions(e, t, rows);
    assert(is_position_map(f, filtered(e, t, rows), rows));
}

/// `out[k]` is `rows[f[k]]` for each `k`, with positions strictly increasing.
pub open spec fn is_position_map(f: Seq<int>, out: Seq<Seq<Value>>, rows: Seq<Seq<Value>>) -> bool {
    &&& f.len() == out.len()
    &&& forall|k: int| 0 <= k < f.len() ==> 0 <= #[trigger] f[k] < rows.len() && out[k] == rows[f[k]]
    &&& forall|k: int, l: int| 0 <= k < l < f.len() ==> #[trigger] f[k] < #[trigger] f[l]
}

proof fn filter_positions(e: Expr, t: Table, rows: Seq<Seq<Value>>) -> (f: Seq<int>)
    ensures
        filtered(e, t, rows).len() <= rows.len(),
        f.len() == filtered(e, t, rows).len(),
        forall|k: int| 0 <= k < f.len() ==> 0 <= #[trigger] f[k] < rows.len() && filtered(e, t, rows)[k] == rows[f[k]],
        forall|k: int, l: int| 0 <= k < l < f.len() ==> #[trigger] f[k] < #[trigger] f[l],
    decreases rows.len(),
{
    reveal(Seq::filter);
    if rows.len() == 0 {
        Seq::empty()
    } else {
        let g = filter_positions(e, t, rows.drop_last());
        if keeps(e, t, rows.last()) {
            g.push(rows.len() - 1)
        } else {
            g
        }
    }
}

proof fn lemma_all_kept(e: Expr, t: Table, rows: Seq<Seq<Value>>)
    requires
        forall|i: int| 0 <= i < rows.len() ==> keeps(e, t, #[trigger] rows[i]),
    ensures
        first_filter_fault(e, t, rows) is None,
        filtered(e, t, rows) == rows,
    decreases rows.len(),
{
    reveal(Seq::filter);
    if rows.len() > 0 {
        lemma_all_kept(e, t, rows.drop_last());
        assert(rows.drop_last().push(rows.last()) == rows);
    }
}

/// Filtering twice by one predicate is filtering once: on the result of a
/// successful filter (same table, the kept rows), the predicate raises no
/// fault and keeps every row.
pub proof fn lemma_filter_idempotent(e: Expr, t: Table, u: Table)
    requires
        first_filter_fault(e, t, t.rows()) is None,
        same_frame(u, t),
        u.rows() == filtered(e, t, t.rows()),
    ensures
        first_filter_fault(e, u, u.rows()) is None,
        filtered(e, u, u.rows()) == u.rows(),
{
    let rows = u.rows();
    assert forall|i: int| 0 <= i < rows.len() implies keeps(e, u, #[trigger] rows[i]) by {
        t.rows().lemma_filter_pred(|row: Seq<Value>| keeps(e, t, row), i);
    }
    lemma_all_kept(e, u, rows);
}

/// A predicate that is `Null` on every row keeps no row, and raises no fault.
pub proof fn lemma_filter_all_null(e: Expr, t: Table, rows: Seq<Seq<Value>>)
    requires
        forall|i: int| 0 <= i < rows.len() ==> eval_in(e, t, #[trigger] rows[i]) == Ok::<Value, crate::expr::ExprError>(Value::Null),
    ensures
        first_filter_fault(e, t, rows) is None,
        filtered(e, t, rows).len() == 0,
    decreases rows.len(),
{
    reveal(Seq::filter);
    if rows.len() > 0 {
        lemma_filter_all_null(e, t, rows.drop_last());
    }
}

/// Some position of `p` takes the element at index `j`.
pub open spec fn takes_position(p: Seq<usize>, j: int) -> bool {
    exists|k: int| 0 <= k < p.len() && p[k] as int == j
}

/// A stable sort moves every row: each input position is taken exactly once.
pub proof fn lemma_order_rearranges(keys: Seq<Value>, p: Seq<usize>)
    requires
        is_stable_value_sort(keys, p),
    ensures
        forall|j: int| 0 <= j < keys.len() ==> #[trigger] takes_position(p, j),
{
    let n = keys.len() as int;
    let q = p.map_values(|x: usize| x as int);
    assert(q.no_duplicates()) by {
        assert forall|a: int, b: int| 0 <= a < q.len() && 0 <= b < q.len() && a != b implies q[a] != q[b] by {
            if a < b {
                assert(p[a] != p[b]);
            } else {
                assert(p[b] != p[a]);
            }
        }
    }
    q.unique_seq_to_set();
    vstd::set_lib::lemma_int_range(0, n);
    assert(q.to_set().subset_of(vstd::set_lib::set_int_range(0, n))) by {
        assert forall|x: int| q.to_set().contains(x) implies vstd::set_lib::set_int_range(0, n).contains(x) by {
            let k = choose|k: int| 0 <= k < q.len() && q[k] == x;
            assert(p[k] < keys.len());
        }
    }
    q.lemma_cardinality_of_set();
    vstd::set_lib::lemma_subset_equality(q.to_set(), vstd::set_lib::set_int_range(0, n));
    assert forall|j: int| 0 <= j < keys.len() implies #[trigger] takes_position(p, j) by {
        assert(vstd::set_lib::set_int_range(0, n).contains(j));
        assert(q.to_set().contains(j));
        let k = choose|k: int| 0 <= k < q.len() && q[k] == j;
        assert(p[k] as int == j);
    }
}

proof fn lemma_increasing_is_identity(p: Seq<usize>, n: int)
    requires
        p.len() == n,
        forall|k: int| 0 <= k < n ==> #[trigger] p[k] < n,
        forall|k: int, l: int| 0 <= k < l < n ==> #[trigger] p[k] < #[trigger] p[l],
    ensures
        forall|k: int| 0 <= k < n ==> #[trigger] p[k] == k,
{
    assert forall|k: int| 0 <= k < n implies #[trigger] p[k] == k by {
        lemma_increasing_lower(p, n, k);
        lemma_increasing_upper(p, n, k);
    }
}

proof fn lemma_increasing_lower(p: Seq<usize>, n: int, k: int)
    requires
        p.len() == n,
        0 <= k < n,
        forall|a: int, b: int| 0 <= a < b < n ==> #[trigger] p[a] < #[trigger] p[b],
    ensures
        p[k] >= k,
    decreases k,
{
    if k > 0 {
        lemma_increasing_lower(p, n, k - 1);
        assert(p[k - 1] < p[k]);
    }
}

proof fn lemma_increasing_upper(p: Seq<usize>, n: int, k: int)
    requires
        p.len() == n,
        0 <= k < n,
        forall|a: int| 0 <= a < n ==> #[trigger] p[a] < n,
        forall|a: int, b: int| 0 <= a < b < n ==> #[trigger] p[a] < #[trigger] p[b],
    ensures
        p[k] <= k,
    decreases n - k,
{
    if k < n - 1 {
        lemma_increasing_upper(p, n, k + 1);
        assert(p[k] < p[k + 1]);
    } else {
        assert(p[k] < n);
    }
}

/// Sorting keys that are already in order leaves the rows as they are.
pub proof fn lemma_order_sorted_is_identity(keys: Seq<Value>, p: Seq<usize>, rows: Seq<Seq<Value>>)
    requires
        is_stable_value_sort(keys, p),
        rows.len() == keys.len(),
        forall|i: int, j: int| 0 <= i < j < keys.len() ==> !value_lt(#[trigger] keys[j], #[trigger] keys[i]),
    ensures
        permuted(rows, p) == rows,
{
    let n = keys.len() as int;
    assert forall|k: int, l: int| 0 <= k < l < n implies #[trigger] p[k] < #[trigger] p[l] by {
        if p[k] > p[l] {
            assert(!value_lt(keys[p[k] as int], keys[p[l] as int]));
        }
    }
    lemma_increasing_is_identity(p, n);
    assert(permuted(rows, p) =~= rows);
}

/// Ordering a table without rows succeeds and leaves it without rows.
pub proof fn lemma_order_empty(e: Expr, t: Table, p: Seq<usize>)
    requires
        t.rows().len() == 0,
        is_stable_value_sort(sort_keys(e, t, t.rows()), p),
    ensures
        first_key_fault(e, t, t.rows()) is None,
        permuted(t.rows(), p).len() == 0,
        permuted(t.rows(), p).reverse().len() == 0,
{
}

/// Projecting `*` onto a table without rows or columns copies every column
/// and every row of the input.
pub proof fn lemma_project_wildcard_copies(inp: Table, out: Table)
    requires
        out.raw_data@.len() == 0,
        out.columns@.len() == 0,
    ensures
        Seq::new(inp.raw_data@.len(), |i: int| base_rows(inp, out)[i] + inp.rows()[i]) == inp.rows(),
        out.columns@ + inp.columns@ == inp.columns@,
{
    let base = base_rows(inp, out);
    assert forall|i: int| 0 <= i < inp.raw_data@.len() implies base[i] + inp.rows()[i] == inp.rows()[i] by {
        assert(base[i] =~= Seq::<Value>::empty());
        assert(base[i] + inp.rows()[i] =~= inp.rows()[i]);
    }
    assert(Seq::new(inp.raw_data@.len(), |i: int| base[i] + inp.rows()[i]) =~= inp.rows());
    assert(out.columns@ + inp.columns@ =~= inp.columns@);
}

} // verus!
