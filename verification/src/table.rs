//! Generic reasoning about relational tables held as vectors of keyed rows.
//!
//! Every table of the store is a `Vec` of rows keyed by a GUID.  This module
//! gives the shared vocabulary: what it means for a table to contain a key,
//! to have unique keys, and what remains of a table after deleting a key or
//! sweeping expired rows.  The executable helpers perform those operations
//! once, generically, with contracts phrased in that vocabulary.

use vstd::prelude::*;

verus! {

/// A table row addressed by a GUID.
pub trait KeyedRow: Sized {
    /// The GUID this row is keyed by.
    spec fn key(self) -> Seq<char>;

    /// True when this row's key equals `g`.
    fn key_matches(&self, g: &String) -> (b: bool)
        ensures
            b == (self.key() == g@),
    ;
}

/// A table row carrying an optional time-to-live.
pub trait TtlRow: KeyedRow {
    /// The row's optional time-to-live.
    spec fn ttl_field(self) -> Option<i64>;

    /// True when the row's time-to-live is set and at most `threshold`.
    fn expired_by(&self, threshold: i64) -> (b: bool)
        ensures
            b == ttl_expired(self.ttl_field(), threshold),
    ;
}

/// A row with this time-to-live is removed by a sweep at `threshold`:
/// the ttl is non-null and at most the threshold.
pub open spec fn ttl_expired(ttl: Option<i64>, threshold: i64) -> bool {
    ttl matches Some(v) && v <= threshold
}

/// True when some row of `rows` has key `g`.
pub open spec fn contains_key<R: KeyedRow>(rows: Seq<R>, g: Seq<char>) -> bool {
    exists|i: int| 0 <= i < rows.len() && rows[i].key() == g
}

/// True when no two rows of `rows` share a key: the key is a primary key.
pub open spec fn unique_keys<R: KeyedRow>(rows: Seq<R>) -> bool {
    forall|i: int, j: int| 0 <= i < j < rows.len() ==> rows[i].key() != rows[j].key()
}

/// True when every row of `refs` has its key present in `owners`:
/// referential integrity of a foreign key.
pub open spec fn keys_subset<R: KeyedRow, S: KeyedRow>(refs: Seq<R>, owners: Seq<S>) -> bool {
    forall|i: int| 0 <= i < refs.len() ==> #[trigger] contains_key(owners, refs[i].key())
}

/// Some index of `rows` holding the key `g` (the only one when keys are unique).
pub open spec fn key_index<R: KeyedRow>(rows: Seq<R>, g: Seq<char>) -> int {
    choose|i: int| 0 <= i < rows.len() && rows[i].key() == g
}

/// The row of `rows` with key `g` (meaningful when `contains_key` holds).
pub open spec fn row_at<R: KeyedRow>(rows: Seq<R>, g: Seq<char>) -> R {
    rows[key_index(rows, g)]
}

/// The rows that survive deleting key `g`: those with another key, in order.
pub open spec fn without_key<R: KeyedRow>(rows: Seq<R>, g: Seq<char>) -> Seq<R>
    decreases rows.len(),
{
    if rows.len() == 0 {
        Seq::empty()
    } else if rows.last().key() == g {
        without_key(rows.drop_last(), g)
    } else {
        without_key(rows.drop_last(), g).push(rows.last())
    }
}

/// The rows that survive a ttl sweep at `threshold`: those whose ttl is
/// null or greater than the threshold, in order.
pub open spec fn surviving<R: TtlRow>(rows: Seq<R>, threshold: i64) -> Seq<R>
    decreases rows.len(),
{
    if rows.len() == 0 {
        Seq::empty()
    } else if ttl_expired(rows.last().ttl_field(), threshold) {
        surviving(rows.drop_last(), threshold)
    } else {
        surviving(rows.drop_last(), threshold).push(rows.last())
    }
}

/// Containment of a key steps through `drop_last`.
pub proof fn lemma_contains_key_drop_last<R: KeyedRow>(rows: Seq<R>, k: Seq<char>)
    requires
        rows.len() > 0,
    ensures
        contains_key(rows, k) <==> (contains_key(rows.drop_last(), k) || rows.last().key() == k),
{
    if contains_key(rows, k) {
        let i = choose|i: int| 0 <= i < rows.len() && rows[i].key() == k;
        if i < rows.len() - 1 {
            assert(rows.drop_last()[i] == rows[i]);
            assert(contains_key(rows.drop_last(), k));
        }
    }
    if contains_key(rows.drop_last(), k) {
        let i = choose|i: int| 0 <= i < rows.drop_last().len() && rows.drop_last()[i].key() == k;
        assert(rows[i] == rows.drop_last()[i]);
    }
    if rows.last().key() == k {
        assert(rows[rows.len() - 1].key() == k);
    }
}

/// Containment of a key steps through `push`.
pub proof fn lemma_contains_key_push<R: KeyedRow>(rows: Seq<R>, row: R, k: Seq<char>)
    ensures
        contains_key(rows.push(row), k) <==> (contains_key(rows, k) || row.key() == k),
{
    if contains_key(rows, k) {
        let i = choose|i: int| 0 <= i < rows.len() && rows[i].key() == k;
        assert(rows.push(row)[i] == rows[i]);
    }
    if row.key() == k {
        assert(rows.push(row)[rows.len() as int].key() == k);
    }
    if contains_key(rows.push(row), k) {
        let i = choose|i: int| 0 <= i < rows.push(row).len() && rows.push(row)[i].key() == k;
        if i < rows.len() {
            assert(rows[i] == rows.push(row)[i]);
        }
    }
}

/// Inserting a row with a fresh key keeps keys unique.
pub proof fn lemma_push_preserves_unique<R: KeyedRow>(rows: Seq<R>, row: R)
    requires
        unique_keys(rows),
        !contains_key(rows, row.key()),
    ensures
        unique_keys(rows.push(row)),
{
    assert forall|i: int, j: int| 0 <= i < j < rows.push(row).len()
        implies rows.push(row)[i].key() != rows.push(row)[j].key() by {
        assert(rows.push(row)[i] == rows[i]);
        if j < rows.len() {
            assert(rows.push(row)[j] == rows[j]);
        }
    }
}

/// Inserting a reference row whose key is present in the referenced table
/// keeps referential integrity.
pub proof fn lemma_push_preserves_subset<R: KeyedRow, S: KeyedRow>(
    refs: Seq<R>,
    owners: Seq<S>,
    row: R,
)
    requires
        keys_subset(refs, owners),
        contains_key(owners, row.key()),
    ensures
        keys_subset(refs.push(row), owners),
{
    assert forall|i: int| 0 <= i < refs.push(row).len()
        implies #[trigger] contains_key(owners, refs.push(row)[i].key()) by {
        if i < refs.len() {
            assert(refs.push(row)[i] == refs[i]);
        }
    }
}

/// Growing the referenced table keeps referential integrity.
pub proof fn lemma_subset_push_owner<R: KeyedRow, S: KeyedRow>(
    refs: Seq<R>,
    owners: Seq<S>,
    row: S,
)
    requires
        keys_subset(refs, owners),
    ensures
        keys_subset(refs, owners.push(row)),
{
    assert forall|i: int| 0 <= i < refs.len()
        implies #[trigger] contains_key(owners.push(row), refs[i].key()) by {
        lemma_contains_key_push(owners, row, refs[i].key());
    }
}

/// With unique keys, `key_index` is the one index whose row has the key.
pub proof fn lemma_key_index_unique<R: KeyedRow>(rows: Seq<R>, g: Seq<char>, i: int)
    requires
        unique_keys(rows),
        0 <= i < rows.len(),
        rows[i].key() == g,
    ensures
        key_index(rows, g) == i,
{
    let j = key_index(rows, g);
    assert(0 <= j < rows.len() && rows[j].key() == g);
    if i < j {
        assert(rows[i].key() != rows[j].key());
    }
    if j < i {
        assert(rows[j].key() != rows[i].key());
    }
}

/// Unique keys are inherited by `drop_last`.
pub proof fn lemma_unique_keys_drop_last<R: KeyedRow>(rows: Seq<R>)
    requires
        rows.len() > 0,
        unique_keys(rows),
    ensures
        unique_keys(rows.drop_last()),
{
    assert forall|i: int, j: int| 0 <= i < j < rows.drop_last().len()
        implies rows.drop_last()[i].key() != rows.drop_last()[j].key() by {
        assert(rows.drop_last()[i] == rows[i]);
        assert(rows.drop_last()[j] == rows[j]);
    }
}

/// Deleting a key that is absent leaves the table unchanged.
pub proof fn lemma_without_key_absent<R: KeyedRow>(rows: Seq<R>, g: Seq<char>)
    requires
        !contains_key(rows, g),
    ensures
        without_key(rows, g) == rows,
    decreases rows.len(),
{
    if rows.len() == 0 {
        assert(without_key(rows, g) =~= rows);
    } else {
        lemma_contains_key_drop_last(rows, g);
        lemma_without_key_absent(rows.drop_last(), g);
        assert(without_key(rows, g) =~= rows);
    }
}

/// A key is in the table after a delete exactly when it is another key that
/// was in the table before.
pub proof fn lemma_without_key_contains<R: KeyedRow>(rows: Seq<R>, g: Seq<char>, k: Seq<char>)
    ensures
        contains_key(without_key(rows, g), k) <==> (k != g && contains_key(rows, k)),
    decreases rows.len(),
{
    if rows.len() == 0 {
    } else {
        lemma_without_key_contains(rows.drop_last(), g, k);
        lemma_contains_key_drop_last(rows, k);
        if rows.last().key() != g {
            lemma_contains_key_drop_last(without_key(rows.drop_last(), g).push(rows.last()), k);
            assert(without_key(rows.drop_last(), g).push(rows.last()).drop_last()
                =~= without_key(rows.drop_last(), g));
        }
    }
}

/// Every row kept by a delete is a row of the original table.
pub proof fn lemma_without_key_element<R: KeyedRow>(rows: Seq<R>, g: Seq<char>, k: int)
    requires
        0 <= k < without_key(rows, g).len(),
    ensures
        rows.contains(without_key(rows, g)[k]),
        without_key(rows, g)[k].key() != g,
    decreases rows.len(),
{
    if rows.len() == 0 {
    } else if rows.last().key() == g {
        lemma_without_key_element(rows.drop_last(), g, k);
        let r = without_key(rows.drop_last(), g)[k];
        let i = choose|i: int| 0 <= i < rows.drop_last().len() && rows.drop_last()[i] == r;
        assert(rows[i] == r);
    } else {
        let kept = without_key(rows.drop_last(), g).push(rows.last());
        if k < kept.len() - 1 {
            lemma_without_key_element(rows.drop_last(), g, k);
            let r = without_key(rows.drop_last(), g)[k];
            let i = choose|i: int| 0 <= i < rows.drop_last().len() && rows.drop_last()[i] == r;
            assert(rows[i] == r);
        } else {
            assert(rows[rows.len() - 1] == kept[k]);
        }
    }
}

/// Every row of the original table with another key is kept by a delete.
pub proof fn lemma_without_key_keeps<R: KeyedRow>(rows: Seq<R>, g: Seq<char>, i: int)
    requires
        0 <= i < rows.len(),
        rows[i].key() != g,
    ensures
        without_key(rows, g).contains(rows[i]),
    decreases rows.len(),
{
    if i == rows.len() - 1 {
        let kept = without_key(rows.drop_last(), g).push(rows.last());
        assert(kept[kept.len() - 1] == rows[i]);
    } else {
        assert(rows.drop_last()[i] == rows[i]);
        lemma_without_key_keeps(rows.drop_last(), g, i);
        let sub = without_key(rows.drop_last(), g);
        let j = choose|j: int| 0 <= j < sub.len() && sub[j] == rows[i];
        if rows.last().key() != g {
            assert(sub.push(rows.last())[j] == rows[i]);
        }
    }
}

/// Deleting a key from a table with unique keys removes exactly the row at
/// that key's index.
pub proof fn lemma_without_key_unique<R: KeyedRow>(rows: Seq<R>, g: Seq<char>, i: int)
    requires
        unique_keys(rows),
        0 <= i < rows.len(),
        rows[i].key() == g,
    ensures
        without_key(rows, g) == rows.remove(i),
    decreases rows.len(),
{
    if i == rows.len() - 1 {
        assert forall|j: int| 0 <= j < rows.drop_last().len()
            implies rows.drop_last()[j].key() != g by {
            assert(rows.drop_last()[j] == rows[j]);
        }
        lemma_without_key_absent(rows.drop_last(), g);
        assert(without_key(rows, g) =~= rows.remove(i));
    } else {
        assert(rows.drop_last()[i] == rows[i]);
        assert(rows.last().key() != g) by {
            assert(rows[i].key() != rows[rows.len() - 1].key());
        }
        lemma_unique_keys_drop_last(rows);
        lemma_without_key_unique(rows.drop_last(), g, i);
        assert(without_key(rows, g) =~= rows.remove(i));
    }
}

/// Unique keys survive a delete.
pub proof fn lemma_without_key_preserves_unique<R: KeyedRow>(rows: Seq<R>, g: Seq<char>)
    requires
        unique_keys(rows),
    ensures
        unique_keys(without_key(rows, g)),
{
    if contains_key(rows, g) {
        let i = key_index(rows, g);
        lemma_without_key_unique(rows, g, i);
        assert forall|a: int, b: int| 0 <= a < b < rows.remove(i).len()
            implies rows.remove(i)[a].key() != rows.remove(i)[b].key() by {
            let ra = if a < i { rows[a] } else { rows[a + 1] };
            let rb = if b < i { rows[b] } else { rows[b + 1] };
            assert(rows.remove(i)[a] == ra);
            assert(rows.remove(i)[b] == rb);
        }
    } else {
        lemma_without_key_absent(rows, g);
    }
}

/// A sweep at a threshold under which no row expires leaves the table
/// unchanged.
pub proof fn lemma_surviving_all_kept<R: TtlRow>(rows: Seq<R>, threshold: i64)
    requires
        forall|i: int| 0 <= i < rows.len() ==>
            !ttl_expired(#[trigger] rows[i].ttl_field(), threshold),
    ensures
        surviving(rows, threshold) == rows,
    decreases rows.len(),
{
    if rows.len() == 0 {
        assert(surviving(rows, threshold) =~= rows);
    } else {
        assert(!ttl_expired(rows[rows.len() - 1].ttl_field(), threshold));
        assert forall|i: int| 0 <= i < rows.drop_last().len()
            implies !ttl_expired(#[trigger] rows.drop_last()[i].ttl_field(), threshold) by {
            assert(rows.drop_last()[i] == rows[i]);
        }
        lemma_surviving_all_kept(rows.drop_last(), threshold);
        assert(surviving(rows, threshold) =~= rows);
    }
}

/// Every row kept by a sweep is an unexpired row of the original table.
pub proof fn lemma_surviving_element<R: TtlRow>(rows: Seq<R>, threshold: i64, k: int)
    requires
        0 <= k < surviving(rows, threshold).len(),
    ensures
        rows.contains(surviving(rows, threshold)[k]),
        !ttl_expired(surviving(rows, threshold)[k].ttl_field(), threshold),
    decreases rows.len(),
{
    if rows.len() == 0 {
    } else if ttl_expired(rows.last().ttl_field(), threshold) {
        lemma_surviving_element(rows.drop_last(), threshold, k);
        let r = surviving(rows.drop_last(), threshold)[k];
        let i = choose|i: int| 0 <= i < rows.drop_last().len() && rows.drop_last()[i] == r;
        assert(rows[i] == r);
    } else {
        let kept = surviving(rows.drop_last(), threshold).push(rows.last());
        if k < kept.len() - 1 {
            lemma_surviving_element(rows.drop_last(), threshold, k);
            let r = surviving(rows.drop_last(), threshold)[k];
            let i = choose|i: int| 0 <= i < rows.drop_last().len() && rows.drop_last()[i] == r;
            assert(rows[i] == r);
        } else {
            assert(rows[rows.len() - 1] == kept[k]);
        }
    }
}

/// Every unexpired row of the original table is kept by a sweep.
pub proof fn lemma_surviving_keeps<R: TtlRow>(rows: Seq<R>, threshold: i64, i: int)
    requires
        0 <= i < rows.len(),
        !ttl_expired(rows[i].ttl_field(), threshold),
    ensures
        surviving(rows, threshold).contains(rows[i]),
    decreases rows.len(),
{
    if i == rows.len() - 1 {
        let kept = surviving(rows.drop_last(), threshold).push(rows.last());
        assert(kept[kept.len() - 1] == rows[i]);
    } else {
        assert(rows.drop_last()[i] == rows[i]);
        lemma_surviving_keeps(rows.drop_last(), threshold, i);
        let sub = surviving(rows.drop_last(), threshold);
        let j = choose|j: int| 0 <= j < sub.len() && sub[j] == rows[i];
        if !ttl_expired(rows.last().ttl_field(), threshold) {
            assert(sub.push(rows.last())[j] == rows[i]);
        }
    }
}

/// Sweeping twice at the same threshold is the same as sweeping once.
pub proof fn lemma_surviving_idempotent<R: TtlRow>(rows: Seq<R>, threshold: i64)
    ensures
        surviving(surviving(rows, threshold), threshold) == surviving(rows, threshold),
{
    let kept = surviving(rows, threshold);
    assert forall|i: int| 0 <= i < kept.len()
        implies !ttl_expired(#[trigger] kept[i].ttl_field(), threshold) by {
        lemma_surviving_element(rows, threshold, i);
    }
    lemma_surviving_all_kept(kept, threshold);
}

/// Unique keys survive a sweep.
pub proof fn lemma_surviving_preserves_unique<R: TtlRow>(rows: Seq<R>, threshold: i64)
    requires
        unique_keys(rows),
    ensures
        unique_keys(surviving(rows, threshold)),
    decreases rows.len(),
{
    if rows.len() == 0 {
    } else {
        lemma_unique_keys_drop_last(rows);
        lemma_surviving_preserves_unique(rows.drop_last(), threshold);
        if !ttl_expired(rows.last().ttl_field(), threshold) {
            let sub = surviving(rows.drop_last(), threshold);
            let kept = sub.push(rows.last());
            assert forall|a: int, b: int| 0 <= a < b < kept.len()
                implies kept[a].key() != kept[b].key() by {
                if b == kept.len() - 1 {
                    lemma_surviving_element(rows.drop_last(), threshold, a);
                    let i = choose|i: int|
                        0 <= i < rows.drop_last().len() && rows.drop_last()[i] == sub[a];
                    assert(rows[i] == sub[a]);
                    assert(rows[i].key() != rows[rows.len() - 1].key());
                } else {
                    assert(kept[a] == sub[a]);
                    assert(kept[b] == sub[b]);
                }
            }
        }
    }
}

/// Deleting the same key from a reference table and from the table it
/// references keeps referential integrity.
pub proof fn lemma_without_key_preserves_subset<R: KeyedRow, S: KeyedRow>(
    refs: Seq<R>,
    owners: Seq<S>,
    g: Seq<char>,
)
    requires
        keys_subset(refs, owners),
    ensures
        keys_subset(without_key(refs, g), without_key(owners, g)),
{
    let kept = without_key(refs, g);
    assert forall|i: int| 0 <= i < kept.len()
        implies #[trigger] contains_key(without_key(owners, g), kept[i].key()) by {
        lemma_without_key_element(refs, g, i);
        let j = choose|j: int| 0 <= j < refs.len() && refs[j] == kept[i];
        assert(contains_key(owners, refs[j].key()));
        lemma_without_key_contains(owners, g, kept[i].key());
    }
}

/// Deleting a key from a reference table alone keeps referential integrity.
pub proof fn lemma_without_key_subset_same_owners<R: KeyedRow, S: KeyedRow>(
    refs: Seq<R>,
    owners: Seq<S>,
    g: Seq<char>,
)
    requires
        keys_subset(refs, owners),
    ensures
        keys_subset(without_key(refs, g), owners),
{
    let kept = without_key(refs, g);
    assert forall|i: int| 0 <= i < kept.len()
        implies #[trigger] contains_key(owners, kept[i].key()) by {
        lemma_without_key_element(refs, g, i);
        let j = choose|j: int| 0 <= j < refs.len() && refs[j] == kept[i];
        assert(contains_key(owners, refs[j].key()));
    }
}

/// Sweeping a reference table keeps referential integrity.
pub proof fn lemma_surviving_preserves_subset<R: TtlRow, S: KeyedRow>(
    refs: Seq<R>,
    owners: Seq<S>,
    threshold: i64,
)
    requires
        keys_subset(refs, owners),
    ensures
        keys_subset(surviving(refs, threshold), owners),
{
    let kept = surviving(refs, threshold);
    assert forall|i: int| 0 <= i < kept.len()
        implies #[trigger] contains_key(owners, kept[i].key()) by {
        lemma_surviving_element(refs, threshold, i);
        let j = choose|j: int| 0 <= j < refs.len() && refs[j] == kept[i];
        assert(contains_key(owners, refs[j].key()));
    }
}

/// `post` relates to `pre` as a table from which exactly the rows keyed
/// `g` were deleted: no row keyed `g` remains, every row with another key
/// is kept, and no row appears that was not there before.
pub open spec fn exact_deletion<R: KeyedRow>(pre: Seq<R>, post: Seq<R>, g: Seq<char>) -> bool {
    &&& !contains_key(post, g)
    &&& forall|i: int| 0 <= i < pre.len() && (#[trigger] pre[i]).key() != g ==> post.contains(
        pre[i],
    )
    &&& forall|k: int| 0 <= k < post.len() ==> pre.contains(#[trigger] post[k])
}

/// Deleting a key deletes exactly the rows with that key.
pub proof fn lemma_without_key_exact<R: KeyedRow>(rows: Seq<R>, g: Seq<char>)
    ensures
        exact_deletion(rows, without_key(rows, g), g),
{
    lemma_without_key_contains(rows, g, g);
    assert forall|i: int| 0 <= i < rows.len() && (#[trigger] rows[i]).key() != g
        implies without_key(rows, g).contains(rows[i]) by {
        lemma_without_key_keeps(rows, g, i);
    }
    assert forall|k: int| 0 <= k < without_key(rows, g).len()
        implies rows.contains(#[trigger] without_key(rows, g)[k]) by {
        lemma_without_key_element(rows, g, k);
    }
}

/// `post` relates to `pre` as a table from which exactly the rows expired
/// at `threshold` were deleted: every kept row is an unexpired row of the
/// original, and every unexpired row of the original is kept.
pub open spec fn exact_expiry<R: TtlRow>(pre: Seq<R>, post: Seq<R>, threshold: i64) -> bool {
    &&& forall|i: int|
        0 <= i < pre.len() && !ttl_expired((#[trigger] pre[i]).ttl_field(), threshold)
            ==> post.contains(pre[i])
    &&& forall|k: int| 0 <= k < post.len() ==> pre.contains(#[trigger] post[k]) && !ttl_expired(
        post[k].ttl_field(),
        threshold,
    )
}

/// A sweep deletes exactly the expired rows.
pub proof fn lemma_surviving_exact<R: TtlRow>(rows: Seq<R>, threshold: i64)
    ensures
        exact_expiry(rows, surviving(rows, threshold), threshold),
{
    assert forall|i: int|
        0 <= i < rows.len() && !ttl_expired((#[trigger] rows[i]).ttl_field(), threshold)
        implies surviving(rows, threshold).contains(rows[i]) by {
        lemma_surviving_keeps(rows, threshold, i);
    }
    assert forall|k: int| 0 <= k < surviving(rows, threshold).len()
        implies rows.contains(#[trigger] surviving(rows, threshold)[k]) && !ttl_expired(
        surviving(rows, threshold)[k].ttl_field(),
        threshold,
    ) by {
        lemma_surviving_element(rows, threshold, k);
    }
}

/// Finds some index whose row has key `g`, or reports that no row has it.
pub fn find_key<R: KeyedRow>(rows: &Vec<R>, g: &String) -> (r: Option<usize>)
    ensures
        match r {
            Some(i) => i < rows@.len() && rows@[i as int].key() == g@,
            None => !contains_key(rows@, g@),
        },
{
    let mut i: usize = 0;
    while i < rows.len()
        invariant
            i <= rows@.len(),
            forall|j: int| 0 <= j < i ==> rows@[j].key() != g@,
        decreases rows@.len() - i,
    {
        if rows[i].key_matches(g) {
            return Some(i);
        }
        i = i + 1;
    }
    None
}

/// Reports whether some row has key `g`.
pub fn contains_key_exec<R: KeyedRow>(rows: &Vec<R>, g: &String) -> (b: bool)
    ensures
        b == contains_key(rows@, g@),
{
    match find_key(rows, g) {
        Some(i) => {
            proof {
                assert(0 <= i < rows@.len() && rows@[i as int].key() == g@);
            }
            true
        }
        None => false,
    }
}

/// Deletes the row with key `g`, if any, and reports how many rows went.
pub fn remove_by_key<R: KeyedRow>(rows: &mut Vec<R>, g: &String) -> (n: usize)
    requires
        unique_keys(old(rows)@),
    ensures
        final(rows)@ == without_key(old(rows)@, g@),
        n == old(rows)@.len() - final(rows)@.len(),
        n == if contains_key(old(rows)@, g@) { 1int } else { 0int },
{
    match find_key(rows, g) {
        Some(i) => {
            proof {
                assert(contains_key(rows@, g@));
                lemma_without_key_unique(rows@, g@, i as int);
            }
            rows.remove(i);
            1
        }
        None => {
            proof {
                lemma_without_key_absent(rows@, g@);
            }
            0
        }
    }
}

/// Deletes every row whose ttl is non-null and at most `threshold`, in
/// place, and reports how many rows went.
pub fn sweep_expired<R: TtlRow>(rows: &mut Vec<R>, threshold: i64) -> (n: usize)
    ensures
        final(rows)@ == surviving(old(rows)@, threshold),
        n == old(rows)@.len() - final(rows)@.len(),
{
    let start_len: usize = rows.len();
    let ghost orig = rows@;
    let ghost mut p: int = 0;
    let mut i: usize = 0;
    while i < rows.len()
        invariant
            0 <= p <= orig.len(),
            i as int <= p,
            start_len as int == orig.len(),
            i as int == surviving(orig.take(p), threshold).len(),
            rows@ == surviving(orig.take(p), threshold) + orig.skip(p),
            rows@.len() == i as int + orig.len() - p,
        decreases orig.len() - p,
    {
        proof {
            assert(rows@[i as int] == orig[p]) by {
                assert(rows@[i as int] == orig.skip(p)[0]);
            }
            assert(orig.take(p + 1).drop_last() =~= orig.take(p));
            assert(orig.take(p + 1).last() == orig[p]);
        }
        if rows[i].expired_by(threshold) {
            rows.remove(i);
            proof {
                let kept = surviving(orig.take(p), threshold);
                assert(rows@ =~= kept + orig.skip(p + 1));
                p = p + 1;
                assert(surviving(orig.take(p), threshold) == kept);
            }
        } else {
            i = i + 1;
            proof {
                let kept = surviving(orig.take(p), threshold);
                p = p + 1;
                assert(surviving(orig.take(p), threshold) == kept.push(orig[p - 1]));
                assert(rows@ =~= surviving(orig.take(p), threshold) + orig.skip(p));
            }
        }
    }
    proof {
        assert(p == orig.len());
        assert(orig.take(orig.len() as int) =~= orig);
        assert(rows@ =~= surviving(orig, threshold));
    }
    start_len - rows.len()
}

} // verus!
