//! The store of quotes: the sole owner of persisted records, with the
//! unique-id invariant, the by-id read path, random selection and the
//! idempotent insert that the importer relies on.

use vstd::prelude::*;
use crate::error::ErrorKind;
use crate::quote::{Quote, QuoteV};

verus! {

/// No two rows carry the same id: once an id is inserted it is never reused
/// or reassigned.
pub open spec fn distinct_ids(s: Seq<QuoteV>) -> bool {
    forall|i: int, j: int|
        0 <= i < s.len() && 0 <= j < s.len() && i != j ==> #[trigger] s[i].id != #[trigger] s[j].id
}

/// Whether some row carries the given id.
pub open spec fn has_id(s: Seq<QuoteV>, id: int) -> bool {
    exists|i: int| 0 <= i < s.len() && #[trigger] s[i].id == id
}

/// An index of a row carrying the given id (the index, once ids are
/// distinct).
pub open spec fn index_of_id(s: Seq<QuoteV>, id: int) -> int {
    choose|i: int| 0 <= i < s.len() && #[trigger] s[i].id == id
}

/// The row stored under the given id.
pub open spec fn quote_at(s: Seq<QuoteV>, id: int) -> QuoteV {
    s[index_of_id(s, id)]
}

/// What an idempotent insert leaves behind: the rows unchanged when the id
/// is already taken, else the new row appended.
pub open spec fn insert_absent(s: Seq<QuoteV>, q: QuoteV) -> Seq<QuoteV> {
    if has_id(s, q.id) {
        s
    } else {
        s.push(q)
    }
}

/// The store of quotes. Its rows are the only record of the data; reads go
/// to it on every request, and rows are never updated or deleted.
pub struct Store {
    rows: Vec<Quote>,
}

impl View for Store {
    type V = Seq<QuoteV>;

    closed spec fn view(&self) -> Seq<QuoteV> {
        self.rows@.map_values(|q: Quote| q@)
    }
}

impl Store {
    #[verifier::type_invariant]
    spec fn wf(&self) -> bool {
        distinct_ids(self@)
    }

    /// A store with no rows at all.
    pub fn new() -> (s: Store)
        ensures
            s@ == Seq::<QuoteV>::empty(),
    {
        let s = Store { rows: Vec::new() };
        proof {
            assert(s@ =~= Seq::<QuoteV>::empty());
        }
        s
    }

    /// How many rows the store holds.
    pub fn len(&self) -> (n: usize)
        ensures
            n == self@.len(),
    {
        self.rows.len()
    }

    /// Looks up exactly one row by its id. Fails with `NotFound` if and only
    /// if no row matches; the returned quote is the stored one, unchanged.
    pub fn fetch_by_id(&self, id: i64) -> (r: Result<Quote, ErrorKind>)
        ensures
            distinct_ids(self@),
            match r {
                Ok(q) => has_id(self@, id as int) && q@ == quote_at(self@, id as int),
                Err(e) => e == ErrorKind::NotFound && !has_id(self@, id as int),
            },
    {
        proof {
            use_type_invariant(&*self);
        }
        let n = self.rows.len();
        let mut k: usize = 0;
        while k < n
            invariant
                n == self.rows@.len(),
                k <= n,
                self@ == self.rows@.map_values(|q: Quote| q@),
                distinct_ids(self@),
                forall|j: int| 0 <= j < k ==> #[trigger] self@[j].id != id as int,
            decreases n - k,
        {
            if self.rows[k].id == id {
                let q = self.rows[k].clone();
                proof {
                    assert(self@[k as int] == self.rows@[k as int]@);
                    assert(self@[k as int].id == id as int);
                    let i = index_of_id(self@, id as int);
                    assert(0 <= i < self@.len() && self@[i].id == id as int);
                    assert(i == k as int);
                }
                return Ok(q);
            }
            k += 1;
        }
        Err(ErrorKind::NotFound)
    }

    /// Selects one row by an externally drawn pick, reduced modulo the row
    /// count, and returns its id; when the pick is drawn uniformly the row
    /// is uniform over the table. Fails with `NotFound` if and only if the
    /// store is empty.
    pub fn fetch_random_id(&self, pick: usize) -> (r: Result<i64, ErrorKind>)
        ensures
            distinct_ids(self@),
            match r {
                Ok(id) => self@.len() > 0 && id as int == self@[pick as int % self@.len() as int].id
                    && has_id(self@, id as int),
                Err(e) => e == ErrorKind::NotFound && self@.len() == 0,
            },
    {
        proof {
            use_type_invariant(&*self);
        }
        let n = self.rows.len();
        if n == 0 {
            return Err(ErrorKind::NotFound);
        }
        let k = pick % n;
        proof {
            assert(self@[k as int].id == self.rows@[k as int]@.id);
        }
        Ok(self.rows[k].id)
    }

    /// Whether a row with the given id exists.
    pub fn contains_id(&self, id: i64) -> (b: bool)
        ensures
            b == has_id(self@, id as int),
    {
        let n = self.rows.len();
        let mut k: usize = 0;
        while k < n
            invariant
                n == self.rows@.len(),
                k <= n,
                self@ == self.rows@.map_values(|q: Quote| q@),
                forall|j: int| 0 <= j < k ==> #[trigger] self@[j].id != id as int,
            decreases n - k,
        {
            if self.rows[k].id == id {
                proof {
                    assert(self@[k as int].id == id as int);
                }
                return true;
            }
            k += 1;
        }
        false
    }

    /// Inserts a quote unless a row with the same id already exists, in
    /// which case nothing changes and the call reports "not inserted".
    /// This is the idempotency primitive the importer relies on.
    pub fn insert_if_absent(&mut self, quote: Quote) -> (inserted: bool)
        ensures
            final(self)@ == insert_absent(old(self)@, quote@),
            inserted == !has_id(old(self)@, quote@.id),
            distinct_ids(final(self)@),
    {
        proof {
            use_type_invariant(&*self);
        }
        if self.contains_id(quote.id) {
            return false;
        }
        let ghost before: Seq<QuoteV> = self@;
        let mut rows: Vec<Quote> = Vec::new();
        core::mem::swap(&mut rows, &mut self.rows);
        rows.push(quote);
        proof {
            let newv = rows@.map_values(|q: Quote| q@);
            assert(newv =~= before.push(quote@));
            assert forall|i: int, j: int|
                0 <= i < newv.len() && 0 <= j < newv.len() && i != j implies #[trigger] newv[i].id
                != #[trigger] newv[j].id by {
                if i < before.len() && j < before.len() {
                } else if i == before.len() {
                    assert(newv[j] == before[j]);
                } else {
                    assert(newv[i] == before[i]);
                }
            }
        }
        self.rows = rows;
        proof {
            assert(self@ =~= before.push(quote@));
        }
        true
    }
}

/// A quote inserted under a fresh id is exactly the one looked up under
/// that id afterwards: the inserted triple comes back unchanged.
pub proof fn lemma_insert_round_trip(s: Seq<QuoteV>, q: QuoteV)
    requires
        !has_id(s, q.id),
    ensures
        has_id(insert_absent(s, q), q.id),
        quote_at(insert_absent(s, q), q.id) == q,
{
    let t = insert_absent(s, q);
    assert(t == s.push(q));
    assert(t[s.len() as int] == q);
    assert(has_id(t, q.id));
    let i = index_of_id(t, q.id);
    assert(0 <= i < t.len() && t[i].id == q.id);
    if i < s.len() {
        assert(s[i] == t[i]);
        assert(false);
    }
}

} // verus!
