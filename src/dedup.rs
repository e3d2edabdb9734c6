//! The dedup record of one feed job: the identifiers of entries already
//! seen, newest first, and what one tick does to it.
use vstd::prelude::*;

verus! {

/// An entry identifier, as the contracts see it.
pub type Id = Seq<char>;

/// The record after the entries of one fetch were examined in order: each
/// entry whose identifier the record does not hold yet is put at the front.
pub open spec fn record_after(record: Seq<Id>, entries: Seq<Id>) -> Seq<Id>
    decreases entries.len(),
{
    if entries.len() == 0 {
        record
    } else {
        let before = record_after(record, entries.drop_last());
        if before.contains(entries.last()) {
            before
        } else {
            seq![entries.last()] + before
        }
    }
}

/// The identifiers judged new while the entries were examined, in the order
/// in which they were met: the entries that a tick publishes.
pub open spec fn published(record: Seq<Id>, entries: Seq<Id>) -> Seq<Id>
    decreases entries.len(),
{
    if entries.len() == 0 {
        Seq::empty()
    } else {
        let before = record_after(record, entries.drop_last());
        let earlier = published(record, entries.drop_last());
        if before.contains(entries.last()) {
            earlier
        } else {
            earlier.push(entries.last())
        }
    }
}

/// The first `n` identifiers of `s`, or all of them where there are fewer.
pub open spec fn truncated(s: Seq<Id>, n: nat) -> Seq<Id> {
    if s.len() <= n {
        s
    } else {
        s.take(n as int)
    }
}

/// The record that a completed tick writes back.
pub open spec fn tick_record(record: Seq<Id>, entries: Seq<Id>, cache_size: nat) -> Seq<Id> {
    truncated(record_after(record, entries), cache_size)
}

/// The record after `k` completed ticks that all fetched the same entries.
pub open spec fn repeated_ticks(record: Seq<Id>, entries: Seq<Id>, cache_size: nat, k: nat) -> Seq<Id>
    decreases k,
{
    if k == 0 {
        record
    } else {
        tick_record(repeated_ticks(record, entries, cache_size, (k - 1) as nat), entries, cache_size)
    }
}

/// Newest first: the record after a tick is the identifiers it judged new,
/// last met first, followed by the record as it was.
pub proof fn lemma_newest_first(record: Seq<Id>, entries: Seq<Id>)
    ensures
        record_after(record, entries) == published(record, entries).reverse() + record,
    decreases entries.len(),
{
    if entries.len() > 0 {
        lemma_newest_first(record, entries.drop_last());
        let p = published(record, entries.drop_last());
        let e = entries.last();
        if !record_after(record, entries.drop_last()).contains(e) {
            assert(p.push(e).reverse() =~= seq![e] + p.reverse());
            assert(seq![e] + (p.reverse() + record) =~= p.push(e).reverse() + record);
        }
    } else {
        assert(Seq::<Id>::empty().reverse() + record =~= record);
    }
}

/// An identifier is in the record after a tick's examination exactly when it
/// was in the record before or among the fetched entries.
pub proof fn lemma_record_after_members(record: Seq<Id>, entries: Seq<Id>, id: Id)
    ensures
        record_after(record, entries).contains(id) <==> (record.contains(id) || entries.contains(id)),
    decreases entries.len(),
{
    if entries.len() > 0 {
        let init = entries.drop_last();
        lemma_record_after_members(record, init, id);
        assert(entries =~= init.push(entries.last()));
        assert(entries.contains(id) <==> (init.contains(id) || id == entries.last())) by {
            if entries.contains(id) {
                let i = choose|i: int| 0 <= i < entries.len() && entries[i] == id;
                if i < entries.len() - 1 {
                    assert(init[i] == id);
                }
            }
            if init.contains(id) {
                let i = choose|i: int| 0 <= i < init.len() && init[i] == id;
                assert(entries[i] == id);
            }
        }
        let before = record_after(record, init);
        if !before.contains(entries.last()) {
            let after = seq![entries.last()] + before;
            assert(after[0] == entries.last());
            if before.contains(id) {
                let i = choose|i: int| 0 <= i < before.len() && before[i] == id;
                assert(after[i + 1] == id);
            }
            if after.contains(id) && id != entries.last() {
                let i = choose|i: int| 0 <= i < after.len() && after[i] == id;
                assert(before[i - 1] == id);
            }
        }
    }
}

/// What a tick publishes: an identifier is published exactly when the fetch
/// holds it and the record before the tick does not; none is published twice.
pub proof fn lemma_published_are_unseen(record: Seq<Id>, entries: Seq<Id>, id: Id)
    ensures
        published(record, entries).contains(id) <==> (entries.contains(id) && !record.contains(id)),
        published(record, entries).no_duplicates(),
{
    lemma_newest_first(record, entries);
    lemma_record_after_members(record, entries, id);
    lemma_published_shape(record, entries);
    let p = published(record, entries);
    let ra = record_after(record, entries);
    if p.contains(id) {
        let i = choose|i: int| 0 <= i < p.len() && p[i] == id;
        assert(p.reverse()[p.len() - 1 - i] == id);
        assert(ra[p.len() - 1 - i] == id);
        lemma_published_in_entries(record, entries, i);
    }
    if entries.contains(id) && !record.contains(id) {
        let j = choose|j: int| 0 <= j < ra.len() && ra[j] == id;
        if j >= p.len() {
            assert(record[j - p.len()] == id);
        } else {
            assert(p[p.len() - 1 - j] == id);
        }
    }
}

/// No identifier that a tick judges new was in the record before it, and
/// none is judged new twice.
proof fn lemma_published_shape(record: Seq<Id>, entries: Seq<Id>)
    ensures
        published(record, entries).no_duplicates(),
        forall|i: int| 0 <= i < published(record, entries).len()
            ==> !record.contains(#[trigger] published(record, entries)[i]),
    decreases entries.len(),
{
    if entries.len() > 0 {
        let init = entries.drop_last();
        let e = entries.last();
        lemma_published_shape(record, init);
        let before = record_after(record, init);
        if !before.contains(e) {
            let p = published(record, init);
            lemma_newest_first(record, init);
            lemma_record_after_members(record, init, e);
            assert forall|i: int| 0 <= i < p.len() implies p[i] != e by {
                assert(p.reverse()[p.len() - 1 - i] == p[i]);
                assert(before[p.len() - 1 - i] == p[i]);
            }
            assert(!record.contains(e));
        }
    }
}

/// Every identifier judged new comes from the fetched entries.
proof fn lemma_published_in_entries(record: Seq<Id>, entries: Seq<Id>, i: int)
    requires
        0 <= i < published(record, entries).len(),
    ensures
        entries.contains(published(record, entries)[i]),
    decreases entries.len(),
{
    if entries.len() > 0 {
        let init = entries.drop_last();
        let p = published(record, init);
        if i < p.len() {
            lemma_published_in_entries(record, init, i);
            let k = choose|k: int| 0 <= k < init.len() && init[k] == p[i];
            assert(entries[k] == p[i]);
        } else {
            assert(entries[entries.len() - 1] == entries.last());
        }
    }
}

/// Bounded memory: a completed tick leaves at most `cache_size` identifiers.
pub proof fn lemma_bounded(record: Seq<Id>, entries: Seq<Id>, cache_size: nat)
    ensures
        tick_record(record, entries, cache_size).len() <= cache_size,
{
}

/// Idempotence: once a completed tick keeps every identifier it fetched,
/// each later tick that fetches the same entries publishes nothing and
/// leaves the record as it is.
pub proof fn lemma_repeat_tick_is_silent(record: Seq<Id>, entries: Seq<Id>, cache_size: nat, k: nat)
    requires
        forall|id: Id| entries.contains(id) ==> tick_record(record, entries, cache_size).contains(id),
        k >= 1,
    ensures
        repeated_ticks(record, entries, cache_size, k) == tick_record(record, entries, cache_size),
        published(repeated_ticks(record, entries, cache_size, k), entries).len() == 0,
    decreases k,
{
    let first = tick_record(record, entries, cache_size);
    if k > 1 {
        lemma_repeat_tick_is_silent(record, entries, cache_size, (k - 1) as nat);
        lemma_fixpoint(first, entries, cache_size);
    } else {
        assert(repeated_ticks(record, entries, cache_size, 0) == record);
        lemma_fixpoint(first, entries, cache_size);
    }
}

/// A record of at most `cache_size` identifiers that holds every fetched
/// identifier is left alone by a tick, which publishes nothing.
proof fn lemma_fixpoint(record: Seq<Id>, entries: Seq<Id>, cache_size: nat)
    requires
        forall|id: Id| entries.contains(id) ==> record.contains(id),
        record.len() <= cache_size,
    ensures
        record_after(record, entries) == record,
        tick_record(record, entries, cache_size) == record,
        published(record, entries).len() == 0,
    decreases entries.len(),
{
    if entries.len() > 0 {
        let init = entries.drop_last();
        assert forall|id: Id| init.contains(id) implies record.contains(id) by {
            let i = choose|i: int| 0 <= i < init.len() && init[i] == id;
            assert(entries[i] == id);
        }
        lemma_fixpoint(record, init, cache_size);
        assert(entries[entries.len() - 1] == entries.last());
    }
}

} // verus!
