//! The bulk import path: loads a batch of externally-sourced records into
//! the store one record at a time, idempotently, continuing past records
//! whose id is already taken.

use vstd::prelude::*;
use crate::quote::{JsonQuote, QuoteV};
use crate::store::{Store, has_id, insert_absent};

verus! {

/// The views of a batch of wire-shaped records, in batch order.
pub open spec fn batch_views(records: Seq<JsonQuote>) -> Seq<QuoteV> {
    records.map_values(|r: JsonQuote| r@)
}

/// What a whole import leaves behind: each record of the batch, in order,
/// run through the idempotent insert.
pub open spec fn import_all(s: Seq<QuoteV>, batch: Seq<QuoteV>) -> Seq<QuoteV>
    decreases batch.len(),
{
    if batch.len() == 0 {
        s
    } else {
        import_all(insert_absent(s, batch[0]), batch.subrange(1, batch.len() as int))
    }
}

/// Importing one more record at the end of a batch is one more idempotent
/// insert after the batch.
pub proof fn lemma_import_snoc(s: Seq<QuoteV>, batch: Seq<QuoteV>, q: QuoteV)
    ensures
        import_all(s, batch.push(q)) == insert_absent(import_all(s, batch), q),
    decreases batch.len(),
{
    let pushed = batch.push(q);
    let tail = pushed.subrange(1, pushed.len() as int);
    assert(import_all(s, pushed) == import_all(insert_absent(s, pushed[0]), tail));
    if batch.len() == 0 {
        assert(pushed[0] == q);
        assert(tail =~= Seq::<QuoteV>::empty());
        assert(import_all(insert_absent(s, q), tail) == insert_absent(s, q));
        assert(import_all(s, batch) == s);
    } else {
        let rest = batch.subrange(1, batch.len() as int);
        assert(pushed[0] == batch[0]);
        assert(tail =~= rest.push(q));
        lemma_import_snoc(insert_absent(s, batch[0]), rest, q);
        assert(import_all(s, batch) == import_all(insert_absent(s, batch[0]), rest));
    }
}

/// An id present before an import is still present after it: rows are never
/// updated or deleted.
pub proof fn lemma_import_keeps_id(s: Seq<QuoteV>, batch: Seq<QuoteV>, id: int)
    requires
        has_id(s, id),
    ensures
        has_id(import_all(s, batch), id),
    decreases batch.len(),
{
    if batch.len() > 0 {
        let s1 = insert_absent(s, batch[0]);
        let i = choose|i: int| 0 <= i < s.len() && #[trigger] s[i].id == id;
        assert(s1[i].id == id);
        lemma_import_keeps_id(s1, batch.subrange(1, batch.len() as int), id);
    }
}

/// After an import, every id of the batch is present: a record either went
/// in or its id was already taken.
pub proof fn lemma_import_all_present(s: Seq<QuoteV>, batch: Seq<QuoteV>)
    ensures
        forall|j: int|
            0 <= j < batch.len() ==> has_id(import_all(s, batch), #[trigger] batch[j].id),
    decreases batch.len(),
{
    if batch.len() > 0 {
        let s1 = insert_absent(s, batch[0]);
        let rest = batch.subrange(1, batch.len() as int);
        assert(has_id(s1, batch[0].id)) by {
            if has_id(s, batch[0].id) {
                let i = choose|i: int| 0 <= i < s.len() && #[trigger] s[i].id == batch[0].id;
                assert(s1[i].id == batch[0].id);
            } else {
                assert(s1[s.len() as int].id == batch[0].id);
            }
        }
        lemma_import_keeps_id(s1, rest, batch[0].id);
        lemma_import_all_present(s1, rest);
        assert forall|j: int|
            0 <= j < batch.len() implies has_id(import_all(s, batch), #[trigger] batch[j].id) by {
            if j > 0 {
                assert(rest[j - 1] == batch[j]);
            }
        }
    }
}

/// Importing a batch whose ids are all present already changes nothing:
/// every insert is a no-op.
pub proof fn lemma_import_noop(s: Seq<QuoteV>, batch: Seq<QuoteV>)
    requires
        forall|j: int| 0 <= j < batch.len() ==> has_id(s, #[trigger] batch[j].id),
    ensures
        import_all(s, batch) == s,
    decreases batch.len(),
{
    if batch.len() > 0 {
        let rest = batch.subrange(1, batch.len() as int);
        assert(insert_absent(s, batch[0]) == s);
        assert forall|j: int| 0 <= j < rest.len() implies has_id(s, #[trigger] rest[j].id) by {
            assert(rest[j] == batch[j + 1]);
        }
        lemma_import_noop(s, rest);
    }
}

/// Import is idempotent at the whole-batch level: running the same batch a
/// second time leaves the store exactly as the first run left it.
pub proof fn lemma_import_idempotent(s: Seq<QuoteV>, batch: Seq<QuoteV>)
    ensures
        import_all(import_all(s, batch), batch) == import_all(s, batch),
{
    lemma_import_all_present(s, batch);
    lemma_import_noop(import_all(s, batch), batch);
}

/// What an import reports back: how many records went in, how many were
/// no-ops on an id already taken, and how many failed outright. Failures
/// are counted, never escalated.
#[derive(Clone, Copy, Debug, PartialEq, Eq, Structural)]
pub struct ImportOutcome {
    pub inserted: usize,
    pub skipped: usize,
    pub failed: usize,
}

impl ImportOutcome {
    /// The outcome before any record was attempted.
    pub fn new() -> (out: ImportOutcome)
        ensures
            out == (ImportOutcome { inserted: 0usize, skipped: 0usize, failed: 0usize }),
    {
        ImportOutcome { inserted: 0, skipped: 0, failed: 0 }
    }

    /// Books one attempted record: inserted, or skipped as a no-op.
    pub fn record_insert(&mut self, inserted: bool)
        requires
            old(self).inserted + old(self).skipped + old(self).failed < usize::MAX,
        ensures
            inserted ==> *final(self) == (ImportOutcome {
                inserted: (old(self).inserted + 1) as usize,
                ..*old(self)
            }),
            !inserted ==> *final(self) == (ImportOutcome {
                skipped: (old(self).skipped + 1) as usize,
                ..*old(self)
            }),
    {
        if inserted {
            self.inserted = self.inserted + 1;
        } else {
            self.skipped = self.skipped + 1;
        }
    }

    /// Books one record whose transaction failed and was rolled back; the
    /// batch as a whole goes on.
    pub fn record_failure(&mut self)
        requires
            old(self).inserted + old(self).skipped + old(self).failed < usize::MAX,
        ensures
            *final(self) == (ImportOutcome { failed: (old(self).failed + 1) as usize, ..*old(self) }),
    {
        self.failed = self.failed + 1;
    }
}

/// Loads a batch of records into the store, one idempotent insert per
/// record, never aborting the batch: the call always reports completion,
/// with per-record outcomes as counts. Records whose id is already taken
/// (in the store, or earlier in the same batch) are skipped, and every id
/// of the batch is present afterwards.
pub fn import(store: &mut Store, records: &Vec<JsonQuote>) -> (out: ImportOutcome)
    ensures
        final(store)@ == import_all(old(store)@, batch_views(records@)),
        out.inserted + out.skipped == records@.len(),
        out.failed == 0,
        out.inserted == final(store)@.len() - old(store)@.len(),
        forall|j: int|
            0 <= j < records@.len() ==> has_id(final(store)@, #[trigger] records@[j]@.id),
{
    let ghost batch: Seq<QuoteV> = batch_views(records@);
    let mut out = ImportOutcome::new();
    let n = records.len();
    let mut k: usize = 0;
    while k < n
        invariant
            n == records@.len(),
            k <= n,
            batch == batch_views(records@),
            store@ == import_all(old(store)@, batch.subrange(0, k as int)),
            out.inserted + out.skipped == k,
            out.failed == 0,
            store@.len() == old(store)@.len() + out.inserted,
        decreases n - k,
    {
        let ghost prefix: Seq<QuoteV> = batch.subrange(0, k as int);
        let quote = records[k].to_quote();
        let inserted = store.insert_if_absent(quote);
        out.record_insert(inserted);
        proof {
            assert(batch.subrange(0, k + 1 as int) =~= prefix.push(batch[k as int]));
            lemma_import_snoc(old(store)@, prefix, batch[k as int]);
        }
        k += 1;
    }
    proof {
        assert(batch.subrange(0, n as int) =~= batch);
        lemma_import_all_present(old(store)@, batch);
        assert forall|j: int|
            0 <= j < records@.len() implies has_id(store@, #[trigger] records@[j]@.id) by {
            assert(batch[j] == records@[j]@);
        }
    }
    out
}

} // verus!
