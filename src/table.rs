//! Tables of rows keyed by a user identifier, with at most one row per key.

use vstd::prelude::*;

verus! {

/// A row that belongs to one user.
pub trait Keyed {
    /// The identifier of the user the row belongs to.
    spec fn key(&self) -> Seq<char>;

    /// The identifier of the user the row belongs to.
    fn key_ref(&self) -> (r: &String)
        ensures
            r@ == self.key(),
    ;
}

/// No two rows share a key.
pub open spec fn unique_keys<T: Keyed>(rows: Seq<T>) -> bool {
    forall|i: int, j: int|
        0 <= i < rows.len() && 0 <= j < rows.len() && i != j ==> #[trigger] rows[i].key()
            != #[trigger] rows[j].key()
}

/// The row with key `u`, searching from the end of the table.
pub open spec fn find_keyed<T: Keyed>(rows: Seq<T>, u: Seq<char>) -> Option<T>
    decreases rows.len(),
{
    if rows.len() == 0 {
        None
    } else if rows.last().key() == u {
        Some(rows.last())
    } else {
        find_keyed(rows.drop_last(), u)
    }
}

/// A key is absent exactly when no row carries it.
pub proof fn lemma_find_none<T: Keyed>(rows: Seq<T>, u: Seq<char>)
    ensures
        find_keyed(rows, u) is None <==> (forall|i: int|
            0 <= i < rows.len() ==> #[trigger] rows[i].key() != u),
    decreases rows.len(),
{
    if rows.len() > 0 {
        lemma_find_none(rows.drop_last(), u);
        assert(forall|i: int| 0 <= i < rows.len() - 1 ==> rows.drop_last()[i] == rows[i]);
    }
}

/// A row found for a key is a row of the table.
pub proof fn lemma_find_some<T: Keyed>(rows: Seq<T>, u: Seq<char>)
    ensures
        find_keyed(rows, u) matches Some(r) ==> exists|i: int| 0 <= i < rows.len() && #[trigger] rows[i] == r,
    decreases rows.len(),
{
    if rows.len() > 0 {
        lemma_find_some(rows.drop_last(), u);
        if let Some(r) = find_keyed(rows.drop_last(), u) {
            if rows.last().key() != u {
                let i = choose|i: int| 0 <= i < rows.len() - 1 && #[trigger] rows.drop_last()[i] == r;
                assert(rows[i] == r);
            }
        }
        if rows.last().key() == u {
            assert(rows[rows.len() - 1] == rows.last());
        }
    }
}

/// In a table with unique keys, the row found for a key is the one that carries it.
pub proof fn lemma_find_at<T: Keyed>(rows: Seq<T>, u: Seq<char>, i: int)
    requires
        unique_keys(rows),
        0 <= i < rows.len(),
        rows[i].key() == u,
    ensures
        find_keyed(rows, u) == Some(rows[i]),
    decreases rows.len(),
{
    if i != rows.len() - 1 {
        let d = rows.drop_last();
        assert(rows[rows.len() - 1].key() != rows[i].key());
        assert(d[i] == rows[i]);
        assert(unique_keys(d)) by {
            assert forall|a: int, b: int|
                0 <= a < d.len() && 0 <= b < d.len() && a != b implies #[trigger] d[a].key()
                != #[trigger] d[b].key() by {
                assert(d[a] == rows[a] && d[b] == rows[b]);
            }
        }
        lemma_find_at(d, u, i);
    }
}

/// Replacing a row by one with the same key changes the lookup of that key only.
pub proof fn lemma_find_update<T: Keyed>(rows: Seq<T>, i: int, r: T)
    requires
        unique_keys(rows),
        0 <= i < rows.len(),
        r.key() == rows[i].key(),
    ensures
        unique_keys(rows.update(i, r)),
        forall|v: Seq<char>|
            #[trigger] find_keyed(rows.update(i, r), v) == if v == r.key() {
                Some(r)
            } else {
                find_keyed(rows, v)
            },
{
    let n = rows.update(i, r);
    assert forall|a: int, b: int|
        0 <= a < n.len() && 0 <= b < n.len() && a != b implies #[trigger] n[a].key()
        != #[trigger] n[b].key() by {
        assert(n[a].key() == rows[a].key());
        assert(n[b].key() == rows[b].key());
    }
    assert forall|v: Seq<char>|
        #[trigger] find_keyed(n, v) == if v == r.key() {
            Some(r)
        } else {
            find_keyed(rows, v)
        } by {
        if v == r.key() {
            lemma_find_at(n, v, i);
        } else {
            lemma_find_none(rows, v);
            lemma_find_none(n, v);
            if exists|j: int| 0 <= j < rows.len() && #[trigger] rows[j].key() == v {
                let j = choose|j: int| 0 <= j < rows.len() && #[trigger] rows[j].key() == v;
                assert(n[j] == rows[j]);
                lemma_find_at(rows, v, j);
                lemma_find_at(n, v, j);
            } else {
                assert forall|j: int| 0 <= j < n.len() implies #[trigger] n[j].key() != v by {
                    assert(n[j].key() == rows[j].key());
                }
            }
        }
    }
}

/// Appending a row makes it the one found for its key.
pub proof fn lemma_find_push<T: Keyed>(rows: Seq<T>, r: T)
    ensures
        forall|v: Seq<char>|
            #[trigger] find_keyed(rows.push(r), v) == if v == r.key() {
                Some(r)
            } else {
                find_keyed(rows, v)
            },
        unique_keys(rows) && find_keyed(rows, r.key()) is None ==> unique_keys(rows.push(r)),
{
    assert(rows.push(r).drop_last() =~= rows);
    if unique_keys(rows) && find_keyed(rows, r.key()) is None {
        lemma_find_none(rows, r.key());
        let n = rows.push(r);
        assert forall|a: int, b: int|
            0 <= a < n.len() && 0 <= b < n.len() && a != b implies #[trigger] n[a].key()
            != #[trigger] n[b].key() by {
            if a < rows.len() {
                assert(n[a] == rows[a]);
            }
            if b < rows.len() {
                assert(n[b] == rows[b]);
            }
        }
    }
}

/// Whether `u` is among the identifiers `ids`.
pub open spec fn contains_id(ids: Seq<String>, u: Seq<char>) -> bool {
    exists|i: int| 0 <= i < ids.len() && (#[trigger] ids[i])@ == u
}

/// Whether `u` is among the identifiers `ids`.
pub fn has_id(ids: &Vec<String>, u: &String) -> (r: bool)
    ensures
        r == contains_id(ids@, u@),
{
    let mut i: usize = 0;
    while i < ids.len()
        invariant
            i <= ids@.len(),
            forall|j: int| 0 <= j < i ==> (#[trigger] ids@[j])@ != u@,
        decreases ids@.len() - i,
    {
        if ids[i] == *u {
            return true;
        }
        i = i + 1;
    }
    false
}

/// A copy of an optional text value.
pub fn copy_text(t: &Option<String>) -> (r: Option<String>)
    ensures
        r == *t,
{
    match t {
        Some(s) => Some(s.clone()),
        None => None,
    }
}

/// The position of the row with key `u`, if there is one.
pub fn index_of_key<T: Keyed>(rows: &Vec<T>, u: &String) -> (r: Option<usize>)
    ensures
        match r {
            Some(i) => i < rows@.len() && rows@[i as int].key() == u@,
            None => forall|i: int| 0 <= i < rows@.len() ==> #[trigger] rows@[i].key() != u@,
        },
{
    let mut i: usize = 0;
    while i < rows.len()
        invariant
            i <= rows@.len(),
            forall|j: int| 0 <= j < i ==> #[trigger] rows@[j].key() != u@,
        decreases rows@.len() - i,
    {
        let k: &String = rows[i].key_ref();
        if *k == *u {
            return Some(i);
        }
        i = i + 1;
    }
    None
}

} // verus!
