//! Laws of the store, proved from what its operations promise.
//!
//! Each law is stated over the outcome predicates of `session`, which the
//! operations of `Session` ensure and those of `SqliteStore` ensure for the
//! state they found under the lock.
use vstd::prelude::*;
use crate::error::StoreError;
use crate::model::{Record, Rows, key_views, page_offset, record, valid_page};
use crate::order::window;
use crate::session::{
    close_outcome, delete_outcome, get_outcome, keys_be_outcome, page_outcome, save_outcome,
    version_outcome, version_value_outcome,
};

verus! {

/// Round trip: once `save(key, value, version, stamp)` has succeeded, a lookup
/// of `key` reads back `value` and `version` (and `version_value` both, from
/// the one record), unless the database itself fails; it never reports
/// `NotFound` or `Closed`.
pub proof fn lemma_round_trip(
    before: Option<Rows>,
    after: Option<Rows>,
    key: Seq<char>,
    value: Seq<char>,
    version: Seq<char>,
    stamp: i64,
    n: usize,
    got: Result<String, StoreError>,
    label: Result<String, StoreError>,
    both: Result<(String, String), StoreError>,
)
    requires
        save_outcome(before, after, key, value, version, stamp, Ok(n)),
        get_outcome(after, key, got),
        version_outcome(after, key, label),
        version_value_outcome(after, key, both),
    ensures
        got is Ok ==> got->Ok_0@ == value,
        got is Err ==> got->Err_0 is Backing,
        label is Ok ==> label->Ok_0@ == version,
        label is Err ==> label->Err_0 is Backing,
        both is Ok ==> (both->Ok_0).0@ == value && (both->Ok_0).1@ == version,
        both is Err ==> both->Err_0 is Backing,
{
}

/// A successful save never adds a second record for a key: the keys afterwards
/// are those before plus `key`. Saving a key that is present leaves the set of
/// keys, and so their number, as it was; a new key adds one.
pub proof fn lemma_save_keeps_one_record_per_key(
    before: Option<Rows>,
    after: Option<Rows>,
    key: Seq<char>,
    value: Seq<char>,
    version: Seq<char>,
    stamp: i64,
    n: usize,
)
    requires
        save_outcome(before, after, key, value, version, stamp, Ok(n)),
    ensures
        before is Some && after is Some,
        after->Some_0.dom() == before->Some_0.dom().insert(key),
        before->Some_0.contains_key(key) ==> after->Some_0.dom() == before->Some_0.dom(),
        before->Some_0.dom().finite() ==> after->Some_0.dom().finite() && after->Some_0.dom().len()
            == before->Some_0.dom().len() + (if before->Some_0.contains_key(key) { 0int } else { 1int }),
{
    let rows = before->Some_0;
    assert(after->Some_0.dom() =~= rows.dom().insert(key));
    if rows.contains_key(key) {
        assert(rows.dom().insert(key) =~= rows.dom());
    }
}

/// Unique overwrite: after `save(k, v1, ver1, t1)` and then `save(k, v2, ver2, t2)`
/// there is one record for `k`, the second one, and the set of keys is the
/// one the first save left; `get(k)` reads `v2` unless the database fails.
pub proof fn lemma_second_save_overwrites(
    s0: Option<Rows>,
    s1: Option<Rows>,
    s2: Option<Rows>,
    key: Seq<char>,
    first: Record,
    second: Record,
    n1: usize,
    n2: usize,
    got: Result<String, StoreError>,
)
    requires
        save_outcome(s0, s1, key, first.0, first.1, first.2, Ok(n1)),
        save_outcome(s1, s2, key, second.0, second.1, second.2, Ok(n2)),
        get_outcome(s2, key, got),
    ensures
        s2 is Some,
        s2->Some_0.contains_key(key),
        s2->Some_0[key] == second,
        s2->Some_0.dom() == s1->Some_0.dom(),
        got is Ok ==> got->Ok_0@ == second.0,
        got is Err ==> got->Err_0 is Backing,
{
    lemma_save_keeps_one_record_per_key(s1, s2, key, second.0, second.1, second.2, n2);
}

/// Delete is idempotent: deleting an absent key removes nothing and reports 0,
/// and after any successful delete a lookup of the key finds nothing.
pub proof fn lemma_delete_idempotent(
    before: Option<Rows>,
    after: Option<Rows>,
    key: Seq<char>,
    n: usize,
    got: Result<String, StoreError>,
)
    requires
        delete_outcome(before, after, key, Ok(n)),
        get_outcome(after, key, got),
    ensures
        !before->Some_0.contains_key(key) ==> n == 0 && after == before,
        got is Err,
        got->Err_0 is NotFound || got->Err_0 is Backing,
{
    if !before->Some_0.contains_key(key) {
        assert(before->Some_0.remove(key) =~= before->Some_0);
    }
}

/// A page of size 0 is empty, whatever the store holds and whatever page is asked for.
pub proof fn lemma_page_of_size_zero_is_empty(
    rows: Rows,
    stamp: i64,
    page: i64,
    r: Result<Vec<String>, StoreError>,
)
    requires
        page_outcome(Some(rows), stamp, page, 0, r),
    ensures
        r is Ok,
        r->Ok_0@.len() == 0,
{
}

/// Pages come from the one listing in key order: on the same rows, a page is
/// the part of `all_keys_be` at its offset, `size` keys from `(page - 1) * size`
/// on, and two different pages share no key. Every listed key is thus on
/// exactly one page, and a page past the last is empty.
pub proof fn lemma_pages_split_listing(
    rows: Rows,
    stamp: i64,
    size: i64,
    listing: Vec<String>,
    first: i64,
    first_keys: Vec<String>,
    second: i64,
    second_keys: Vec<String>,
)
    requires
        keys_be_outcome(Some(rows), stamp, Ok(listing)),
        page_outcome(Some(rows), stamp, first, size, Ok(first_keys)),
        page_outcome(Some(rows), stamp, second, size, Ok(second_keys)),
        valid_page(first, size),
        valid_page(second, size),
        first != second,
    ensures
        key_views(first_keys@) == window(key_views(listing@), page_offset(first, size), size as int),
        key_views(second_keys@) == window(key_views(listing@), page_offset(second, size), size as int),
        forall|x: Seq<char>|
            key_views(first_keys@).contains(x) ==> !#[trigger] key_views(second_keys@).contains(x),
{
    let all = key_views(listing@);
    let o1 = page_offset(first, size);
    let o2 = page_offset(second, size);
    let s = size as int;
    assert(o1 + s <= o2 || o2 + s <= o1) by (nonlinear_arith)
        requires
            o1 == (first - 1) * s,
            o2 == (second - 1) * s,
            first != second,
            s > 0,
    {
        if first < second {
            assert((second - 1) * s - (first - 1) * s == (second - first) * s);
            assert((second - first) * s >= s);
        } else {
            assert((first - 1) * s - (second - 1) * s == (first - second) * s);
            assert((first - second) * s >= s);
        }
    }
    assert forall|x: Seq<char>| key_views(first_keys@).contains(x) implies !#[trigger] key_views(
        second_keys@,
    ).contains(x) by {
        let w1 = key_views(first_keys@);
        let w2 = key_views(second_keys@);
        let a = choose|a: int| 0 <= a < w1.len() && w1[a] == x;
        let lo1 = if o1 < all.len() { o1 } else { all.len() as int };
        let lo2 = if o2 < all.len() { o2 } else { all.len() as int };
        assert(w1[a] == all[lo1 + a]);
        if w2.contains(x) {
            let b = choose|b: int| 0 <= b < w2.len() && w2[b] == x;
            assert(w2[b] == all[lo2 + b]);
            assert(lo1 + a != lo2 + b);
        }
    }
}

/// After `close()`, `save`, `get` and `delete` fail with `Closed` and leave the
/// store closed, and so does a second `close()`.
pub proof fn lemma_closed_store_refuses(
    before: Option<Rows>,
    after: Option<Rows>,
    closed: Result<(), StoreError>,
    key: Seq<char>,
    value: Seq<char>,
    version: Seq<char>,
    stamp: i64,
    saved: Result<usize, StoreError>,
    after_save: Option<Rows>,
    got: Result<String, StoreError>,
    deleted: Result<usize, StoreError>,
    after_delete: Option<Rows>,
    closed_again: Result<(), StoreError>,
    after_close: Option<Rows>,
)
    requires
        close_outcome(before, after, closed),
        save_outcome(after, after_save, key, value, version, stamp, saved),
        get_outcome(after, key, got),
        delete_outcome(after, after_delete, key, deleted),
        close_outcome(after, after_close, closed_again),
    ensures
        saved matches Err(StoreError::Closed),
        got matches Err(StoreError::Closed),
        deleted matches Err(StoreError::Closed),
        closed_again matches Err(StoreError::Closed),
        after_save is None && after_delete is None && after_close is None,
{
}

/// Saves that compete for one key take effect one at a time, since each holds
/// the store's lock, in some order: `writes` lists them in that order. Once all
/// have succeeded, the key has exactly one record, which is one of the records
/// saved, whole; every other key keeps the record it had.
pub proof fn lemma_competing_saves(
    states: Seq<Option<Rows>>,
    key: Seq<char>,
    writes: Seq<Record>,
    counts: Seq<usize>,
)
    requires
        writes.len() > 0,
        states.len() == writes.len() + 1,
        counts.len() == writes.len(),
        forall|i: int|
            0 <= i < writes.len() ==> #[trigger] save_outcome(
                states[i],
                states[i + 1],
                key,
                writes[i].0,
                writes[i].1,
                writes[i].2,
                Ok(counts[i]),
            ),
    ensures
        states.last() is Some,
        states.last()->Some_0.contains_key(key),
        exists|i: int| 0 <= i < writes.len() && states.last()->Some_0[key] == writes[i],
        forall|k: Seq<char>|
            k != key ==> (states[0]->Some_0.contains_key(k) <==> #[trigger] states.last()->Some_0.contains_key(k)),
        forall|k: Seq<char>|
            k != key && states[0]->Some_0.contains_key(k) ==> #[trigger] states.last()->Some_0[k]
                == states[0]->Some_0[k],
    decreases writes.len(),
{
    let n = writes.len() as int;
    let last = n - 1;
    assert(save_outcome(states[last], states[last + 1], key, writes[last].0, writes[last].1, writes[last].2, Ok(counts[last])));
    assert(states.last() == states[n]);
    assert(states.last()->Some_0[key] == record(writes[last].0, writes[last].1, writes[last].2));
    assert(states.last()->Some_0[key] == writes[last]);
    if n == 1 {
        assert(states[0] is Some);
    } else {
        let shorter = states.drop_last();
        assert forall|i: int| 0 <= i < writes.drop_last().len() implies #[trigger] save_outcome(
            shorter[i],
            shorter[i + 1],
            key,
            writes.drop_last()[i].0,
            writes.drop_last()[i].1,
            writes.drop_last()[i].2,
            Ok(counts.drop_last()[i]),
        ) by {
            assert(save_outcome(states[i], states[i + 1], key, writes[i].0, writes[i].1, writes[i].2, Ok(counts[i])));
        }
        lemma_competing_saves(shorter, key, writes.drop_last(), counts.drop_last());
        assert(shorter.last() == states[last]);
        assert(shorter[0] == states[0]);
    }
}

} // verus!
