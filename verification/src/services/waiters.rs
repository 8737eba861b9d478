use vstd::prelude::*;
use vstd::string::StringExecFns;

use crate::models::waiters::NewWaiter;
use crate::models::waiters::Waiter;
use crate::repo::error::RepoErrorModel;
use crate::repo::repository::delete_one;
use crate::repo::repository::has_id;
use crate::repo::repository::idx_of;
use crate::repo::repository::insert_waiter;
use crate::repo::repository::query_all;
use crate::repo::repository::Repository;
use crate::services::error::service_err_of;
use crate::services::error::ServiceError;
use crate::services::error::ServiceErrorModel;

verus! {

/// Create a waiter under a caller-supplied fresh identifier. An
/// identifier or login code already in use is a conflict; the store is
/// then left untouched.
pub fn add_waiter(repo: &mut Repository, data: NewWaiter, id: u128) -> (r: Result<
    Waiter,
    ServiceError,
>)
    requires
        old(repo).inv(),
    ensures
        final(repo).inv(),
        final(repo).tables == old(repo).tables,
        final(repo).categories == old(repo).categories,
        final(repo).products == old(repo).products,
        final(repo).orders == old(repo).orders,
        ({
            let w0 = old(repo).waiters@;
            if has_id(w0, id) || (exists|i: int|
                0 <= i < w0.len() && (#[trigger] w0[i].code)@ == data.code@) {
                final(repo).waiters@ == old(repo).waiters@ && (r matches Err(e) && e@
                    == service_err_of(RepoErrorModel::Conflict))
            } else {
                r matches Ok(w) && w == (Waiter { _id: id, name: data.name, code: data.code })
                    && final(repo).waiters@ == w0.push(w)
            }
        }),
{
    let w = Waiter { _id: id, name: data.name, code: data.code };
    match insert_waiter(&mut repo.waiters, w.clone()) {
        Ok(()) => Ok(w),
        Err(e) => Err(ServiceError::of_repo_error(&e)),
    }
}

/// Look a waiter up by login code. Under the store invariant at most one
/// waiter carries the code; a missing code reports not-found, naming it.
pub fn get_waiter(repo: &Repository, code: &String) -> (r: Result<Waiter, ServiceError>)
    requires
        repo.inv(),
    ensures
        match r {
            Ok(w) => exists|i: int|
                0 <= i < repo.waiters@.len() && w == repo.waiters@[i] && (
                #[trigger] repo.waiters@[i].code)@ == code@,
            Err(e) => (forall|i: int|
                0 <= i < repo.waiters@.len() ==> (#[trigger] repo.waiters@[i].code)@ != code@) && e@
                == ServiceErrorModel::NotFound(
                "Waiter with code "@ + code@ + " not found"@,
            ),
        },
{
    let mut i: usize = 0;
    while i < repo.waiters.len()
        invariant
            i <= repo.waiters@.len(),
            forall|j: int| 0 <= j < i ==> (#[trigger] repo.waiters@[j].code)@ != code@,
        decreases repo.waiters@.len() - i,
    {
        if repo.waiters[i].code == *code {
            return Ok(repo.waiters[i].clone());
        }
        i = i + 1;
    }
    Err(
        ServiceError::NotFound(
            String::from_str("Waiter with code ").concat(code.as_str()).concat(" not found"),
        ),
    )
}

/// List every waiter, in scan order.
pub fn get_all_waiters(repo: &Repository) -> (r: Vec<Waiter>)
    ensures
        r@ == repo.waiters@,
{
    let r = query_all(&repo.waiters);
    proof {
        assert(r@ =~= repo.waiters@);
    }
    r
}

/// Delete a waiter by identifier; deleting an absent identifier is a
/// no-op.
pub fn delete_waiter(repo: &mut Repository, id: &u128) -> (r: Result<(), ServiceError>)
    requires
        old(repo).inv(),
    ensures
        final(repo).inv(),
        final(repo).tables == old(repo).tables,
        final(repo).categories == old(repo).categories,
        final(repo).products == old(repo).products,
        final(repo).orders == old(repo).orders,
        r is Ok,
        has_id(old(repo).waiters@, *id) ==> final(repo).waiters@ == old(repo).waiters@.remove(
            idx_of(old(repo).waiters@, *id),
        ),
        !has_id(old(repo).waiters@, *id) ==> final(repo).waiters@ == old(repo).waiters@,
        !has_id(final(repo).waiters@, *id),
{
    let res = delete_one(&mut repo.waiters, id);
    proof {
        let w0 = old(repo).waiters@;
        if has_id(w0, *id) {
            let k = idx_of(w0, *id);
            assert forall|p: int, q: int| 0 <= p < q < repo.waiters@.len() implies (
            #[trigger] repo.waiters@[p].code)@ != (#[trigger] repo.waiters@[q].code)@ by {
                assert(repo.waiters@[p] == if p < k {
                    w0[p]
                } else {
                    w0[p + 1]
                });
                assert(repo.waiters@[q] == if q < k {
                    w0[q]
                } else {
                    w0[q + 1]
                });
            }
        }
    }
    match res {
        Ok(()) => Ok(()),
        Err(e) => Err(ServiceError::of_repo_error(&e)),
    }
}

} // verus!
