//! Tables whose rows are told apart by a key.

use vstd::prelude::*;

verus! {

/// A row that is told apart from the others of its table by a key.
pub trait Keyed<K>: Sized {
    spec fn key(self) -> K;
}

/// Whether no two rows share a key.
pub open spec fn unique_keys<K, R: Keyed<K>>(rows: Seq<R>) -> bool {
    forall|i: int, j: int|
        0 <= i < rows.len() && 0 <= j < rows.len() && #[trigger] rows[i].key()
            == #[trigger] rows[j].key() ==> i == j
}

/// Whether a row has the key `k`.
pub open spec fn has_key<K, R: Keyed<K>>(rows: Seq<R>, k: K) -> bool {
    exists|i: int| 0 <= i < rows.len() && #[trigger] rows[i].key() == k
}

/// The rows by their keys.
pub open spec fn by_key<K, R: Keyed<K>>(rows: Seq<R>) -> Map<K, R> {
    Map::new(
        |k: K| has_key(rows, k),
        |k: K| rows[choose|i: int| 0 <= i < rows.len() && #[trigger] rows[i].key() == k],
    )
}

pub proof fn lemma_by_key_at<K, R: Keyed<K>>(rows: Seq<R>, i: int)
    requires
        unique_keys::<K, R>(rows),
        0 <= i < rows.len(),
    ensures
        by_key::<K, R>(rows).contains_key(rows[i].key()),
        by_key::<K, R>(rows)[rows[i].key()] == rows[i],
{
    let k = rows[i].key();
    assert(has_key(rows, k));
    let j = choose|j: int| 0 <= j < rows.len() && #[trigger] rows[j].key() == k;
    assert(rows[j].key() == rows[i].key());
}

pub proof fn lemma_by_key_insert<K, R: Keyed<K>>(rows: Seq<R>, p: int, row: R)
    requires
        unique_keys::<K, R>(rows),
        !has_key::<K, R>(rows, row.key()),
        0 <= p <= rows.len(),
    ensures
        unique_keys::<K, R>(rows.insert(p, row)),
        by_key::<K, R>(rows.insert(p, row)) == by_key::<K, R>(rows).insert(row.key(), row),
{
    let after = rows.insert(p, row);
    assert forall|i: int, j: int|
        0 <= i < after.len() && 0 <= j < after.len() && #[trigger] after[i].key()
            == #[trigger] after[j].key() implies i == j by {
        let a = if i < p { i } else { i - 1 };
        let b = if j < p { j } else { j - 1 };
        if i != p {
            assert(after[i] == rows[a]);
        }
        if j != p {
            assert(after[j] == rows[b]);
        }
        if i == p && j != p {
            assert(rows[b].key() == row.key());
        }
        if i != p && j == p {
            assert(rows[a].key() == row.key());
        }
        if i != p && j != p {
            assert(rows[a].key() == rows[b].key());
        }
    }
    assert forall|k: K| has_key(after, k) == (has_key(rows, k) || k == row.key()) by {
        if has_key(after, k) {
            let i = choose|i: int| 0 <= i < after.len() && #[trigger] after[i].key() == k;
            if i < p {
                assert(rows[i].key() == k);
            } else if i > p {
                assert(rows[i - 1].key() == k);
            }
        }
        if has_key(rows, k) {
            let i = choose|i: int| 0 <= i < rows.len() && #[trigger] rows[i].key() == k;
            if i < p {
                assert(after[i].key() == k);
            } else {
                assert(after[i + 1].key() == k);
            }
        }
        assert(after[p].key() == row.key());
    }
    let left = by_key::<K, R>(after);
    let right = by_key::<K, R>(rows).insert(row.key(), row);
    assert forall|k: K| left.contains_key(k) implies left[k] == right[k] by {
        assert(has_key(after, k));
        let i = choose|i: int| 0 <= i < after.len() && #[trigger] after[i].key() == k;
        lemma_by_key_at::<K, R>(after, i);
        if i == p {
            assert(k == row.key());
        } else {
            let a = if i < p { i } else { i - 1 };
            assert(rows[a] == after[i]);
            lemma_by_key_at::<K, R>(rows, a);
            assert(k != row.key());
        }
    }
    assert(left =~= right);
}

pub proof fn lemma_by_key_update<K, R: Keyed<K>>(rows: Seq<R>, p: int, row: R)
    requires
        unique_keys::<K, R>(rows),
        0 <= p < rows.len(),
        rows[p].key() == row.key(),
    ensures
        unique_keys::<K, R>(rows.update(p, row)),
        by_key::<K, R>(rows.update(p, row)) == by_key::<K, R>(rows).insert(row.key(), row),
{
    let after = rows.update(p, row);
    assert forall|i: int| 0 <= i < after.len() implies #[trigger] after[i].key() == rows[i].key() by {
    }
    assert forall|k: K| has_key(after, k) == has_key(rows, k) by {
        if has_key(after, k) {
            let i = choose|i: int| 0 <= i < after.len() && #[trigger] after[i].key() == k;
            assert(rows[i].key() == k);
        }
        if has_key(rows, k) {
            let i = choose|i: int| 0 <= i < rows.len() && #[trigger] rows[i].key() == k;
            assert(after[i].key() == k);
        }
    }
    assert(has_key(rows, row.key()));
    let left = by_key::<K, R>(after);
    let right = by_key::<K, R>(rows).insert(row.key(), row);
    assert forall|k: K| left.contains_key(k) implies left[k] == right[k] by {
        assert(has_key(after, k));
        let i = choose|i: int| 0 <= i < after.len() && #[trigger] after[i].key() == k;
        lemma_by_key_at::<K, R>(after, i);
        lemma_by_key_at::<K, R>(rows, i);
    }
    assert(left =~= right);
}

pub proof fn lemma_by_key_map<K, R: Keyed<K>>(rows: Seq<R>, after: Seq<R>, f: spec_fn(R) -> R)
    requires
        unique_keys::<K, R>(rows),
        after.len() == rows.len(),
        forall|i: int|
            0 <= i < rows.len() ==> #[trigger] after[i] == f(rows[i]) && after[i].key()
                == rows[i].key(),
    ensures
        unique_keys::<K, R>(after),
        by_key::<K, R>(after) == by_key::<K, R>(rows).map_values(f),
{
    assert forall|i: int, j: int|
        0 <= i < after.len() && 0 <= j < after.len() && #[trigger] after[i].key()
            == #[trigger] after[j].key() implies i == j by {
        assert(rows[i].key() == rows[j].key());
    }
    assert forall|k: K| has_key(after, k) == has_key(rows, k) by {
        if has_key(after, k) {
            let i = choose|i: int| 0 <= i < after.len() && #[trigger] after[i].key() == k;
            assert(rows[i].key() == k);
        }
        if has_key(rows, k) {
            let i = choose|i: int| 0 <= i < rows.len() && #[trigger] rows[i].key() == k;
            assert(after[i].key() == k);
        }
    }
    let left = by_key::<K, R>(after);
    let right = by_key::<K, R>(rows).map_values(f);
    assert forall|k: K| left.contains_key(k) implies left[k] == right[k] by {
        assert(has_key(after, k));
        let i = choose|i: int| 0 <= i < after.len() && #[trigger] after[i].key() == k;
        lemma_by_key_at::<K, R>(after, i);
        lemma_by_key_at::<K, R>(rows, i);
        assert(rows[i].key() == k);
    }
    assert(left =~= right);
}

} // verus!
