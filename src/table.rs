//! Tables of stored records, each record carrying the id that the store gave it.

use vstd::prelude::*;
use crate::model::{Asset, DataError, Quote, Ticker, Transaction};

verus! {

/// A stored entity: it has an optional id, and a copy of it can be made.
pub trait Record: Sized {
    spec fn spec_id(&self) -> Option<usize>;

    /// The same record with the id `id`.
    spec fn spec_with_id(&self, id: usize) -> Self;

    fn record_id(&self) -> (r: Option<usize>)
        ensures
            r == self.spec_id(),
    ;

    fn with_id(&self, id: usize) -> (r: Self)
        ensures
            r == self.spec_with_id(id),
            r.spec_id() == Some(id),
    ;

    fn duplicate(&self) -> (r: Self)
        ensures
            r == *self,
    ;
}

impl Record for Asset {
    open spec fn spec_id(&self) -> Option<usize> {
        self.id
    }

    open spec fn spec_with_id(&self, id: usize) -> Asset {
        Asset { id: Some(id), ..*self }
    }

    fn record_id(&self) -> (r: Option<usize>) {
        self.id
    }

    fn with_id(&self, id: usize) -> (r: Asset) {
        let mut a = self.copy();
        a.id = Some(id);
        a
    }

    fn duplicate(&self) -> (r: Asset) {
        self.copy()
    }
}

impl Record for Ticker {
    open spec fn spec_id(&self) -> Option<usize> {
        self.id
    }

    open spec fn spec_with_id(&self, id: usize) -> Ticker {
        Ticker { id: Some(id), ..*self }
    }

    fn record_id(&self) -> (r: Option<usize>) {
        self.id
    }

    fn with_id(&self, id: usize) -> (r: Ticker) {
        let mut t = self.copy();
        t.id = Some(id);
        t
    }

    fn duplicate(&self) -> (r: Ticker) {
        self.copy()
    }
}

impl Record for Quote {
    open spec fn spec_id(&self) -> Option<usize> {
        self.id
    }

    open spec fn spec_with_id(&self, id: usize) -> Quote {
        Quote { id: Some(id), ..*self }
    }

    fn record_id(&self) -> (r: Option<usize>) {
        self.id
    }

    fn with_id(&self, id: usize) -> (r: Quote) {
        Quote { id: Some(id), ..*self }
    }

    fn duplicate(&self) -> (r: Quote) {
        *self
    }
}

impl Record for Transaction {
    open spec fn spec_id(&self) -> Option<usize> {
        self.id
    }

    open spec fn spec_with_id(&self, id: usize) -> Transaction {
        Transaction { id: Some(id), ..*self }
    }

    fn record_id(&self) -> (r: Option<usize>) {
        self.id
    }

    fn with_id(&self, id: usize) -> (r: Transaction) {
        let mut t = self.copy();
        t.id = Some(id);
        t
    }

    fn duplicate(&self) -> (r: Transaction) {
        self.copy()
    }
}

/// No two records of the table share an id.
pub open spec fn ids_distinct<T: Record>(s: Seq<T>) -> bool {
    forall|j: int, k: int|
        0 <= j < s.len() && 0 <= k < s.len() && j != k ==> #[trigger] s[j].spec_id() != #[trigger] s[k].spec_id()
}

/// Every record of the table has an id below `next`, and no two share one.
pub open spec fn ids_valid<T: Record>(s: Seq<T>, next: nat) -> bool {
    &&& forall|k: int| 0 <= k < s.len() ==> (#[trigger] s[k].spec_id()) is Some && s[k].spec_id()->0 < next
    &&& ids_distinct(s)
}

/// Extending a prefix of `s` by one element extends its filtered prefix by
/// that element where it passes the filter.
pub proof fn lemma_filter_step<A>(s: Seq<A>, k: int, pred: spec_fn(A) -> bool)
    requires
        0 <= k < s.len(),
    ensures
        s.subrange(0, k + 1).filter(pred) == if pred(s[k]) {
            s.subrange(0, k).filter(pred).push(s[k])
        } else {
            s.subrange(0, k).filter(pred)
        },
{
    let s1 = s.subrange(0, k + 1);
    assert(s1.drop_last() =~= s.subrange(0, k));
    assert(s1.last() == s[k]);
    reveal(Seq::filter);
}

/// Every element of a filtered sequence is an element of the sequence, and
/// passes the filter.
pub proof fn lemma_filter_within<A>(s: Seq<A>, pred: spec_fn(A) -> bool, i: int)
    requires
        0 <= i < s.filter(pred).len(),
    ensures
        s.contains(s.filter(pred)[i]),
        pred(s.filter(pred)[i]),
    decreases s.len(),
{
    reveal(Seq::filter);
    s.lemma_filter_pred(pred, i);
    let sub = s.drop_last().filter(pred);
    if i < sub.len() {
        lemma_filter_within(s.drop_last(), pred, i);
        let k = choose|k: int| 0 <= k < s.drop_last().len() && s.drop_last()[k] == sub[i];
        assert(s[k] == s.filter(pred)[i]);
    } else {
        assert(s.filter(pred)[i] == s[s.len() - 1]);
    }
}

/// Overwriting a record with one of the same id keeps the ids valid.
pub proof fn lemma_update_keeps_ids<T: Record>(s: Seq<T>, k: int, rec: T, next: nat)
    requires
        ids_valid(s, next),
        0 <= k < s.len(),
        rec.spec_id() == s[k].spec_id(),
    ensures
        ids_valid(s.update(k, rec), next),
{
    let t = s.update(k, rec);
    assert forall|j: int| 0 <= j < t.len() implies #[trigger] t[j].spec_id() == s[j].spec_id() by {}
}

/// Removing a record keeps the ids valid.
pub proof fn lemma_remove_keeps_ids<T: Record>(s: Seq<T>, k: int, next: nat)
    requires
        ids_valid(s, next),
        0 <= k < s.len(),
    ensures
        ids_valid(s.remove(k), next),
{
    let t = s.remove(k);
    assert forall|j: int| 0 <= j < t.len() implies #[trigger] t[j].spec_id() == s[if j < k { j } else { j + 1 }].spec_id() by {}
    assert forall|i: int, j: int| 0 <= i < t.len() && 0 <= j < t.len() && i != j implies #[trigger] t[i].spec_id()
        != #[trigger] t[j].spec_id() by {
        let si = if i < k { i } else { i + 1 };
        let sj = if j < k { j } else { j + 1 };
        assert(t[i].spec_id() == s[si].spec_id());
        assert(t[j].spec_id() == s[sj].spec_id());
    }
}

/// Some record of the table has the id `id`.
pub open spec fn has_record<T: Record>(s: Seq<T>, id: usize) -> bool {
    exists|k: int| 0 <= k < s.len() && #[trigger] s[k].spec_id() == Some(id)
}

/// The index of the record of id `id` in `s`, if there is one.
pub fn position_of<T: Record>(v: &Vec<T>, id: usize) -> (r: Option<usize>)
    ensures
        r is None <==> forall|k: int| 0 <= k < v@.len() ==> (#[trigger] v@[k].spec_id()) != Some(id),
        r is Some ==> r->0 < v@.len() && v@[r->0 as int].spec_id() == Some(id),
{
    let mut k: usize = 0;
    while k < v.len()
        invariant
            k <= v@.len(),
            forall|j: int| 0 <= j < k ==> (#[trigger] v@[j].spec_id()) != Some(id),
        decreases v.len() - k,
    {
        if v[k].record_id() == Some(id) {
            return Some(k);
        }
        k = k + 1;
    }
    None
}

/// A copy of every record of the table, in order.
pub fn copy_all<T: Record>(v: &Vec<T>) -> (r: Vec<T>)
    ensures
        r@ == v@,
{
    let mut out: Vec<T> = Vec::new();
    let mut k: usize = 0;
    while k < v.len()
        invariant
            k <= v@.len(),
            out@ == v@.subrange(0, k as int),
        decreases v.len() - k,
    {
        out.push(v[k].duplicate());
        k = k + 1;
        assert(out@ =~= v@.subrange(0, k as int));
    }
    assert(out@ =~= v@);
    out
}

/// The record of id `id`.
pub fn get_record<T: Record>(v: &Vec<T>, id: usize) -> (r: Result<T, DataError>)
    ensures
        r is Ok <==> exists|k: int| 0 <= k < v@.len() && (#[trigger] v@[k].spec_id()) == Some(id),
        r is Ok ==> exists|k: int| 0 <= k < v@.len() && v@[k].spec_id() == Some(id) && r->Ok_0 == v@[k],
        r is Ok && ids_distinct(v@) ==> forall|k: int|
            0 <= k < v@.len() && #[trigger] v@[k].spec_id() == Some(id) ==> r->Ok_0 == v@[k],
        r is Err ==> r->Err_0 is NotFound,
{
    match position_of(v, id) {
        Some(k) => {
            assert(ids_distinct(v@) ==> forall|j: int|
                0 <= j < v@.len() && #[trigger] v@[j].spec_id() == Some(id) ==> j == k);
            Ok(v[k].duplicate())
        },
        None => Err(DataError::NotFound(String::from_str("no record of this id"))),
    }
}

/// Overwrites the record of `rec`'s id with `rec`.
pub fn update_record<T: Record>(v: &mut Vec<T>, rec: &T) -> (r: Result<(), DataError>)
    ensures
        rec.spec_id() is None ==> r is Err,
        r is Ok <==> rec.spec_id() is Some && exists|k: int|
            0 <= k < old(v)@.len() && (#[trigger] old(v)@[k].spec_id()) == rec.spec_id(),
        r is Ok ==> exists|k: int|
            0 <= k < old(v)@.len() && old(v)@[k].spec_id() == rec.spec_id() && final(v)@ == old(v)@.update(k, *rec),
        r is Err ==> r->Err_0 is NotFound && final(v)@ == old(v)@,
{
    let id = match rec.record_id() {
        Some(id) => id,
        None => return Err(DataError::NotFound(String::from_str("not yet stored"))),
    };
    match position_of(v, id) {
        Some(k) => {
            v.set(k, rec.duplicate());
            Ok(())
        },
        None => Err(DataError::NotFound(String::from_str("no record of this id"))),
    }
}

/// Removes the record of id `id`, if there is one.
pub fn delete_record<T: Record>(v: &mut Vec<T>, id: usize)
    ensures
        (forall|k: int| 0 <= k < old(v)@.len() ==> (#[trigger] old(v)@[k].spec_id()) != Some(id)) ==> final(v)@
            == old(v)@,
        (exists|k: int| 0 <= k < old(v)@.len() && (#[trigger] old(v)@[k].spec_id()) == Some(id)) ==> exists|k: int|
            0 <= k < old(v)@.len() && old(v)@[k].spec_id() == Some(id) && final(v)@ == old(v)@.remove(k),
{
    match position_of(v, id) {
        Some(k) => {
            v.remove(k);
        },
        None => {},
    }
}

} // verus!
