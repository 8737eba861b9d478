//! The store itself and the generic access primitives: point lookup by
//! identifier, multi-lookup by identifier set, full scan, insert and delete.

use vstd::prelude::*;

use crate::models::categories::Category;
use crate::models::orders::Order;
use crate::models::products::Product;
use crate::models::tables::Table;
use crate::models::waiters::Waiter;
use crate::models::Entity;
use crate::repo::error::RepoError;

verus! {

/// Whether some element of `s` carries the identifier `id`.
pub open spec fn has_id<T: Entity>(s: Seq<T>, id: u128) -> bool {
    exists|i: int| 0 <= i < s.len() && (#[trigger] s[i].entity_id()) == id
}

/// The index of an element of `s` carrying `id`; meaningful when
/// `has_id(s, id)` holds, and unique when identifiers are unique.
pub open spec fn idx_of<T: Entity>(s: Seq<T>, id: u128) -> int {
    choose|i: int| 0 <= i < s.len() && (#[trigger] s[i].entity_id()) == id
}

/// The element of `s` carrying `id`; meaningful when `has_id(s, id)` holds.
pub open spec fn entry_of<T: Entity>(s: Seq<T>, id: u128) -> T {
    s[idx_of(s, id)]
}

/// No two elements of `s` carry the same identifier.
pub open spec fn ids_unique<T: Entity>(s: Seq<T>) -> bool {
    forall|i: int, j: int|
        0 <= i < j < s.len() ==> (#[trigger] s[i].entity_id()) != (#[trigger] s[j].entity_id())
}

/// No two waiters of `s` share a login code.
pub open spec fn codes_unique(s: Seq<Waiter>) -> bool {
    forall|i: int, j: int|
        0 <= i < j < s.len() ==> (#[trigger] s[i].code)@ != (#[trigger] s[j].code)@
}

/// Under unique identifiers, an element with a given identifier is the
/// unique such element, and `idx_of` / `entry_of` locate it exactly.
pub proof fn lemma_unique_entry<T: Entity>(s: Seq<T>, i: int)
    requires
        ids_unique(s),
        0 <= i < s.len(),
    ensures
        has_id(s, s[i].entity_id()),
        idx_of(s, s[i].entity_id()) == i,
        entry_of(s, s[i].entity_id()) == s[i],
{
    let id = s[i].entity_id();
    assert(has_id(s, id));
    let k = idx_of(s, id);
    assert(0 <= k < s.len() && s[k].entity_id() == id);
    if k < i {
        assert(s[k].entity_id() != s[i].entity_id());
    } else if i < k {
        assert(s[i].entity_id() != s[k].entity_id());
    }
}

/// The identifiers of `ids` that resolve to no element of `s`, in request
/// order, with multiplicity.
pub open spec fn missing_ids<T: Entity>(s: Seq<T>, ids: Seq<u128>) -> Seq<u128>
    decreases ids.len(),
{
    if ids.len() == 0 {
        Seq::empty()
    } else {
        let rest = missing_ids(s, ids.drop_last());
        if has_id(s, ids.last()) {
            rest
        } else {
            rest.push(ids.last())
        }
    }
}

/// Nothing is missing exactly when every requested identifier resolves.
pub proof fn lemma_missing_ids_none<T: Entity>(s: Seq<T>, ids: Seq<u128>)
    ensures
        missing_ids(s, ids).len() == 0 <==> (forall|i: int|
            0 <= i < ids.len() ==> has_id(s, #[trigger] ids[i])),
    decreases ids.len(),
{
    if ids.len() > 0 {
        lemma_missing_ids_none(s, ids.drop_last());
        assert(forall|i: int| 0 <= i < ids.len() - 1 ==> ids.drop_last()[i] == #[trigger] ids[i]);
    }
}

/// The store: one typed collection per entity kind. The connection handle
/// of a deployed store is created once at startup and shared; here the
/// store state itself is held in memory.
#[derive(Debug, PartialEq)]
pub struct Repository {
    pub waiters: Vec<Waiter>,
    pub tables: Vec<Table>,
    pub categories: Vec<Category>,
    pub products: Vec<Product>,
    pub orders: Vec<Order>,
}

impl Repository {
    /// Store well-formedness: identifiers are unique per collection, waiter
    /// login codes are unique (the unique secondary index on the waiters
    /// collection), and every order's line list is well-formed.
    pub open spec fn inv(&self) -> bool {
        &&& ids_unique(self.waiters@)
        &&& ids_unique(self.tables@)
        &&& ids_unique(self.categories@)
        &&& ids_unique(self.products@)
        &&& ids_unique(self.orders@)
        &&& codes_unique(self.waiters@)
        &&& forall|i: int|
            0 <= i < self.orders@.len() ==> (#[trigger] self.orders@[i]).lines_wf()
    }

    /// An empty store.
    pub fn new() -> (r: Self)
        ensures
            r.inv(),
            r.waiters@.len() == 0,
            r.tables@.len() == 0,
            r.categories@.len() == 0,
            r.products@.len() == 0,
            r.orders@.len() == 0,
    {
        Repository {
            waiters: Vec::new(),
            tables: Vec::new(),
            categories: Vec::new(),
            products: Vec::new(),
            orders: Vec::new(),
        }
    }
}

/// The index of the first element of `v` carrying `id`, if any.
pub fn find_index<T: Entity>(v: &Vec<T>, id: u128) -> (r: Option<usize>)
    ensures
        match r {
            Some(i) => i < v@.len() && v@[i as int].entity_id() == id && (forall|j: int|
                0 <= j < i ==> (#[trigger] v@[j].entity_id()) != id),
            None => !has_id(v@, id),
        },
{
    let mut i: usize = 0;
    while i < v.len()
        invariant
            i <= v@.len(),
            forall|j: int| 0 <= j < i ==> (#[trigger] v@[j].entity_id()) != id,
        decreases v@.len() - i,
    {
        if v[i].id() == id {
            return Some(i);
        }
        i = i + 1;
    }
    None
}

/// Insert a document. Fails with a conflict when the identifier is already
/// in use; on success the document is appended in scan order.
pub fn insert_one<T: Entity>(v: &mut Vec<T>, document: T) -> (r: Result<(), RepoError>)
    ensures
        match r {
            Ok(()) => !has_id(old(v)@, document.entity_id()) && final(v)@ == old(v)@.push(document)
                && has_id(final(v)@, document.entity_id()),
            Err(e) => e == RepoError::Conflict && has_id(old(v)@, document.entity_id())
                && final(v)@ == old(v)@,
        },
        ids_unique(old(v)@) ==> ids_unique(final(v)@),
{
    match find_index(v, document.id()) {
        Some(_) => Err(RepoError::Conflict),
        None => {
            v.push(document);
            proof {
                assert(v@[v@.len() - 1].entity_id() == document.entity_id());
            }
            Ok(())
        },
    }
}

/// Point lookup by identifier: a copy of the unique matching document, or
/// a not-found error naming the identifier.
pub fn query_one<T: Entity + Clone>(v: &Vec<T>, id: &u128) -> (r: Result<T, RepoError>)
    requires
        ids_unique(v@),
    ensures
        match r {
            Ok(e) => has_id(v@, *id) && cloned(entry_of(v@, *id), e),
            Err(e) => e == RepoError::IdNotFound(*id) && !has_id(v@, *id),
        },
{
    match find_index(v, *id) {
        Some(i) => {
            proof {
                lemma_unique_entry(v@, i as int);
            }
            Ok(v[i].clone())
        },
        None => Err(RepoError::IdNotFound(*id)),
    }
}

/// Multi-lookup by identifier set, all or nothing: either every requested
/// identifier resolves and the copies come back aligned with the request,
/// or the call fails carrying exactly the missing identifiers.
pub fn query_many<T: Entity + Clone>(v: &Vec<T>, ids: &Vec<u128>) -> (r: Result<
    Vec<T>,
    RepoError,
>)
    requires
        ids_unique(v@),
    ensures
        match r {
            Ok(res) => missing_ids(v@, ids@).len() == 0 && res@.len() == ids@.len() && (forall|
                i: int,
            |
                0 <= i < ids@.len() ==> has_id(v@, #[trigger] ids@[i]) && cloned(
                    entry_of(v@, ids@[i]),
                    res@[i],
                )),
            Err(e) => e matches RepoError::IdsNotFound(m) && m@ == missing_ids(v@, ids@)
                && missing_ids(v@, ids@).len() > 0,
        },
{
    let mut res: Vec<T> = Vec::new();
    let mut miss: Vec<u128> = Vec::new();
    let mut i: usize = 0;
    while i < ids.len()
        invariant
            ids_unique(v@),
            i <= ids@.len(),
            miss@ == missing_ids(v@, ids@.take(i as int)),
            miss@.len() == 0 ==> res@.len() == i,
            miss@.len() == 0 ==> forall|j: int|
                0 <= j < i ==> has_id(v@, #[trigger] ids@[j]) && cloned(
                    entry_of(v@, ids@[j]),
                    res@[j],
                ),
        decreases ids@.len() - i,
    {
        proof {
            assert(ids@.take(i + 1).drop_last() =~= ids@.take(i as int));
            assert(ids@.take(i + 1).last() == ids@[i as int]);
        }
        match find_index(v, ids[i]) {
            Some(k) => {
                proof {
                    lemma_unique_entry(v@, k as int);
                }
                res.push(v[k].clone());
            },
            None => {
                miss.push(ids[i]);
            },
        }
        i = i + 1;
    }
    proof {
        assert(ids@.take(i as int) =~= ids@);
    }
    if miss.len() == 0 {
        Ok(res)
    } else {
        Err(RepoError::IdsNotFound(miss))
    }
}

/// Full scan: a copy of every document, in scan order.
pub fn query_all<T: Entity + Clone>(v: &Vec<T>) -> (r: Vec<T>)
    ensures
        r@.len() == v@.len(),
        forall|i: int| 0 <= i < v@.len() ==> cloned(v@[i], #[trigger] r@[i]),
{
    let mut res: Vec<T> = Vec::new();
    let mut i: usize = 0;
    while i < v.len()
        invariant
            i <= v@.len(),
            res@.len() == i,
            forall|j: int| 0 <= j < i ==> cloned(v@[j], #[trigger] res@[j]),
        decreases v@.len() - i,
    {
        res.push(v[i].clone());
        i = i + 1;
    }
    res
}

/// Delete by identifier. Deleting an absent identifier is a no-op, as in
/// a store whose delete reports how many documents matched.
pub fn delete_one<T: Entity>(v: &mut Vec<T>, id: &u128) -> (r: Result<(), RepoError>)
    requires
        ids_unique(old(v)@),
    ensures
        r is Ok,
        has_id(old(v)@, *id) ==> final(v)@ == old(v)@.remove(idx_of(old(v)@, *id)),
        !has_id(old(v)@, *id) ==> final(v)@ == old(v)@,
        ids_unique(final(v)@),
        !has_id(final(v)@, *id),
{
    match find_index(v, *id) {
        Some(i) => {
            proof {
                lemma_unique_entry(v@, i as int);
            }
            v.remove(i);
            proof {
                assert forall|p: int, q: int| 0 <= p < q < v@.len() implies (
                #[trigger] v@[p].entity_id()) != (#[trigger] v@[q].entity_id()) by {
                    assert(v@[p] == if p < i { old(v)@[p] } else { old(v)@[p + 1] });
                    assert(v@[q] == if q < i { old(v)@[q] } else { old(v)@[q + 1] });
                }
                assert forall|p: int| 0 <= p < v@.len() implies (#[trigger] v@[p].entity_id())
                    != *id by {
                    assert(v@[p] == if p < i { old(v)@[p] } else { old(v)@[p + 1] });
                }
            }
            Ok(())
        },
        None => Ok(()),
    }
}

/// Insert a waiter, honouring the unique secondary index on the login
/// code: an insert whose code (or identifier) is already in use fails with
/// a conflict and leaves the collection untouched.
pub fn insert_waiter(v: &mut Vec<Waiter>, document: Waiter) -> (r: Result<(), RepoError>)
    ensures
        match r {
            Ok(()) => !has_id(old(v)@, document._id) && (forall|i: int|
                0 <= i < old(v)@.len() ==> (#[trigger] old(v)@[i].code)@ != document.code@)
                && final(v)@ == old(v)@.push(document) && has_id(final(v)@, document._id),
            Err(e) => e == RepoError::Conflict && final(v)@ == old(v)@ && (has_id(old(v)@, document._id)
                || exists|i: int|
                0 <= i < old(v)@.len() && (#[trigger] old(v)@[i].code)@ == document.code@),
        },
        ids_unique(old(v)@) ==> ids_unique(final(v)@),
        codes_unique(old(v)@) ==> codes_unique(final(v)@),
{
    let mut i: usize = 0;
    while i < v.len()
        invariant
            i <= v@.len(),
            forall|j: int| 0 <= j < i ==> (#[trigger] v@[j].code)@ != document.code@,
        decreases v@.len() - i,
    {
        if v[i].code == document.code {
            return Err(RepoError::Conflict);
        }
        i = i + 1;
    }
    match find_index(v, document.id()) {
        Some(_) => Err(RepoError::Conflict),
        None => {
            v.push(document);
            proof {
                assert(v@[v@.len() - 1].entity_id() == document._id);
            }
            Ok(())
        },
    }
}

} // verus!
