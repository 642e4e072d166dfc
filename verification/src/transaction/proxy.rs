//! A proxy that records calls in the active transaction instead of running them.
use vstd::prelude::*;
use std::sync::Arc;
use crate::transaction::error::TransactionError;
use crate::transaction::manager::{TransactionManager, add_call_post};
use crate::transaction::transaction::Callable;

verus! {

/// Records calls in the active transaction of the manager it holds.
pub struct Proxy<C: Callable + ?Sized = dyn Callable> {
    transaction_manager: TransactionManager<C>,
}

impl<C: Callable + ?Sized> Proxy<C> {
    /// The manager the proxy records into.
    pub closed spec fn manager(&self) -> TransactionManager<C> {
        self.transaction_manager
    }

    /// A proxy recording into `transaction_manager`.
    pub fn new(transaction_manager: TransactionManager<C>) -> (p: Self)
        ensures
            p.manager() == transaction_manager,
    {
        Proxy { transaction_manager }
    }

    /// Records a call of `callable` in the active transaction; fails with
    /// `NoActiveTransaction` when none is active.
    pub fn record_call(&mut self, callable: Arc<C>) -> (r: Result<(), TransactionError>)
        ensures
            add_call_post(old(self).manager()@, final(self).manager()@, callable, r),
    {
        self.transaction_manager.add_call(callable)
    }

    /// The manager the proxy records into.
    pub fn transaction_manager(&self) -> (m: &TransactionManager<C>)
        ensures
            *m == self.manager(),
    {
        &self.transaction_manager
    }

    /// The manager the proxy records into, for changing it.
    pub fn transaction_manager_mut(&mut self) -> (m: &mut TransactionManager<C>)
        ensures
            *m == old(self).manager(),
            final(self).manager() == *final(m),
    {
        &mut self.transaction_manager
    }
}

} // verus!
