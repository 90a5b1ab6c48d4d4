use vstd::prelude::*;

verus! {

/// The rows of `rows` (listed top to bottom) that `full` does not select,
/// in their original order: what remains of a stack once its full rows are
/// removed.
pub open spec fn kept_rows<T>(rows: Seq<T>, full: spec_fn(T) -> bool) -> Seq<T>
    decreases rows.len(),
{
    if rows.len() == 0 {
        Seq::empty()
    } else {
        let rest = kept_rows(rows.drop_first(), full);
        if full(rows[0]) {
            rest
        } else {
            seq![rows[0]] + rest
        }
    }
}

/// The collapsed stack: one `blank` row for every removed row on top, then the
/// kept rows in order. Same height as `rows`.
pub open spec fn collapse_rows<T>(rows: Seq<T>, full: spec_fn(T) -> bool, blank: T) -> Seq<T> {
    let kept = kept_rows(rows, full);
    Seq::new((rows.len() - kept.len()) as nat, |_i: int| blank) + kept
}

pub proof fn lemma_kept_rows_len<T>(rows: Seq<T>, full: spec_fn(T) -> bool)
    ensures
        kept_rows(rows, full).len() <= rows.len(),
        forall|i: int|
            0 <= i < kept_rows(rows, full).len() ==> !full(#[trigger] kept_rows(rows, full)[i]),
    decreases rows.len(),
{
    if rows.len() > 0 {
        lemma_kept_rows_len(rows.drop_first(), full);
        let rest = kept_rows(rows.drop_first(), full);
        if !full(rows[0]) {
            assert forall|i: int| 0 <= i < kept_rows(rows, full).len() implies !full(
                #[trigger] kept_rows(rows, full)[i],
            ) by {
                if i > 0 {
                    assert(kept_rows(rows, full)[i] == rest[i - 1]);
                }
            }
        }
    }
}

/// Removing rows never changes rows it keeps: mapping every row through `f`
/// commutes with keeping the non-full ones, when `f` preserves fullness.
pub proof fn lemma_kept_rows_map<S, T>(
    rows: Seq<S>,
    full_s: spec_fn(S) -> bool,
    full_t: spec_fn(T) -> bool,
    f: spec_fn(S) -> T,
)
    requires
        forall|i: int| 0 <= i < rows.len() ==> full_s(rows[i]) == full_t(#[trigger] f(rows[i])),
    ensures
        kept_rows(rows.map_values(f), full_t) == kept_rows(rows, full_s).map_values(f),
    decreases rows.len(),
{
    if rows.len() > 0 {
        let mapped = rows.map_values(f);
        assert(mapped.drop_first() =~= rows.drop_first().map_values(f));
        assert(full_s(rows[0]) == full_t(f(rows[0])));
        lemma_kept_rows_map(rows.drop_first(), full_s, full_t, f);
        let rest = kept_rows(rows.drop_first(), full_s);
        if !full_s(rows[0]) {
            assert((seq![rows[0]] + rest).map_values(f) =~= seq![f(rows[0])] + rest.map_values(f));
        }
    } else {
        assert(rows.map_values(f) =~= Seq::<T>::empty());
        assert(kept_rows(rows, full_s).map_values(f) =~= Seq::<T>::empty());
    }
}

/// When no row is full, nothing is removed.
pub proof fn lemma_kept_rows_none_full<T>(rows: Seq<T>, full: spec_fn(T) -> bool)
    requires
        forall|i: int| 0 <= i < rows.len() ==> !full(#[trigger] rows[i]),
    ensures
        kept_rows(rows, full) == rows,
    decreases rows.len(),
{
    if rows.len() > 0 {
        assert(!full(rows[0]));
        lemma_kept_rows_none_full(rows.drop_first(), full);
        assert(seq![rows[0]] + rows.drop_first() =~= rows);
    }
}

} // verus!
