//! The transaction manager: at most one active transaction, and the history of
//! committed ones.
use vstd::prelude::*;
use std::sync::Arc;
use crate::text::starts_with_seq;
use crate::transaction::error::TransactionError;
use crate::transaction::transaction::{Callable, Transaction, TxView, executes_to, id_prefix, undoes_to};

verus! {

/// What the manager holds: the active transaction, if any, and the committed ones
/// in commit order.
pub struct ManagerView<C: Callable + ?Sized> {
    /// The active transaction.
    pub active: Option<TxView<C>>,
    /// The committed transactions, oldest first.
    pub history: Seq<TxView<C>>,
}

/// The most recently committed transaction of `history` with id `id`.
pub open spec fn latest_with_id<C: Callable + ?Sized>(history: Seq<TxView<C>>, id: Seq<char>) -> Option<TxView<C>>
    decreases history.len(),
{
    if history.len() == 0 {
        None
    } else if history.last().id == id {
        Some(history.last())
    } else {
        latest_with_id(history.drop_last(), id)
    }
}

/// How `begin_transaction` changes the manager and what it returns.
pub open spec fn begin_post<C: Callable + ?Sized>(
    old: ManagerView<C>,
    new: ManagerView<C>,
    r: Result<(), TransactionError>,
) -> bool {
    if old.active is Some {
        r == Err::<(), TransactionError>(TransactionError::AlreadyActive) && new == old
    } else {
        &&& r is Ok
        &&& new.history == old.history
        &&& new.active is Some
        &&& new.active->0.calls.len() == 0
        &&& starts_with_seq(new.active->0.id, id_prefix())
    }
}

/// How `add_call` changes the manager and what it returns.
pub open spec fn add_call_post<C: Callable + ?Sized>(
    old: ManagerView<C>,
    new: ManagerView<C>,
    callable: Arc<C>,
    r: Result<(), TransactionError>,
) -> bool {
    match old.active {
        None => r == Err::<(), TransactionError>(TransactionError::NoActiveTransaction) && new == old,
        Some(t) => {
            &&& r is Ok
            &&& new.history == old.history
            &&& new.active matches Some(n)
            &&& n.id == t.id
            &&& n.thread == t.thread
            &&& n.calls.len() == t.calls.len() + 1
            &&& n.calls.drop_last() == t.calls
            &&& n.calls.last().target() == callable
        },
    }
}

/// What committing reports for the outcome `executed` of running the calls: `Ok`
/// for `Ok`, and `CommitFailed` carrying the error otherwise.
pub open spec fn commit_outcome_spec(executed: Result<(), String>) -> Result<(), TransactionError> {
    match executed {
        Ok(()) => Ok(()),
        Err(e) => Err(TransactionError::CommitFailed(e)),
    }
}

/// What undoing reports for the outcome `undone` of undoing the calls: `Ok` for
/// `Ok`, and `UndoFailed` carrying the error otherwise.
pub open spec fn undo_outcome_spec(undone: Result<(), String>) -> Result<(), TransactionError> {
    match undone {
        Ok(()) => Ok(()),
        Err(e) => Err(TransactionError::UndoFailed(e)),
    }
}

/// How `commit_transaction` changes the manager and what it returns: the active
/// transaction is taken and its calls run in order up to the first failure; it
/// joins the history exactly when all of them succeeded, and a failure is reported
/// as `CommitFailed` with the error of the call that failed. A transaction with no
/// calls always commits.
pub open spec fn commit_post<C: Callable + ?Sized>(
    old: ManagerView<C>,
    new: ManagerView<C>,
    r: Result<(), TransactionError>,
) -> bool {
    match old.active {
        None => r == Err::<(), TransactionError>(TransactionError::NoActiveTransaction) && new == old,
        Some(t) => {
            &&& new.active is None
            &&& exists|executed: Result<(), String>|
                executes_to(t.calls, executed) && r == #[trigger] commit_outcome_spec(executed)
            &&& t.calls.len() == 0 ==> r is Ok
            &&& r is Ok ==> new.history == old.history.push(t)
            &&& r is Err ==> new.history == old.history
        },
    }
}

/// What `undo_transaction` returns for the committed transactions `history`: for an
/// unknown id `TransactionNotFound` with that id; otherwise the calls of the latest
/// transaction with that id are undone in reverse order up to the first failure,
/// which is reported as `UndoFailed` with its error. A transaction with no calls
/// is always undone.
pub open spec fn undo_post<C: Callable + ?Sized>(
    history: Seq<TxView<C>>,
    id: Seq<char>,
    r: Result<(), TransactionError>,
) -> bool {
    match latest_with_id(history, id) {
        None => r matches Err(TransactionError::TransactionNotFound(s)) && s@ == id,
        Some(t) => {
            &&& exists|undone: Result<(), String>|
                undoes_to(t.calls, undone) && r == #[trigger] undo_outcome_spec(undone)
            &&& t.calls.len() == 0 ==> r is Ok
        },
    }
}

/// What committing reports for the outcome of running the calls.
pub fn commit_outcome(executed: Result<(), String>) -> (r: Result<(), TransactionError>)
    ensures
        r == commit_outcome_spec(executed),
{
    match executed {
        Ok(()) => Ok(()),
        Err(e) => Err(TransactionError::CommitFailed(e)),
    }
}

/// What undoing reports for the outcome of undoing the calls.
pub fn undo_outcome(undone: Result<(), String>) -> (r: Result<(), TransactionError>)
    ensures
        r == undo_outcome_spec(undone),
{
    match undone {
        Ok(()) => Ok(()),
        Err(e) => Err(TransactionError::UndoFailed(e)),
    }
}

/// How `rollback_transaction` changes the manager and what it returns.
pub open spec fn rollback_post<C: Callable + ?Sized>(
    old: ManagerView<C>,
    new: ManagerView<C>,
    r: Result<(), TransactionError>,
) -> bool {
    if old.active is None {
        r == Err::<(), TransactionError>(TransactionError::NoActiveTransaction) && new == old
    } else {
        r is Ok && new == ManagerView::<C> { active: None, history: old.history }
    }
}

/// The transaction manager.
pub struct TransactionManager<C: Callable + ?Sized = dyn Callable> {
    current_transaction: Option<Transaction<C>>,
    transaction_history: Vec<Transaction<C>>,
}

impl<C: Callable + ?Sized> View for TransactionManager<C> {
    type V = ManagerView<C>;

    closed spec fn view(&self) -> ManagerView<C> {
        ManagerView {
            active: match self.current_transaction {
                Some(t) => Some(t@),
                None => None,
            },
            history: self.transaction_history@.map_values(|t: Transaction<C>| t@),
        }
    }
}

impl<C: Callable + ?Sized> TransactionManager<C> {
    /// A manager with no active transaction and an empty history.
    pub fn new() -> (m: Self)
        ensures
            m@.active is None,
            m@.history.len() == 0,
    {
        let m = TransactionManager { current_transaction: None, transaction_history: Vec::new() };
        assert(m@.history =~= Seq::<TxView<C>>::empty());
        m
    }

    /// Whether a transaction is active.
    pub fn is_transaction_active(&self) -> (r: bool)
        ensures
            r == (self@.active is Some),
    {
        self.current_transaction.is_some()
    }

    /// Records a call in the active transaction; fails with `NoActiveTransaction`
    /// when none is active.
    pub fn add_call(&mut self, callable: Arc<C>) -> (r: Result<(), TransactionError>)
        ensures
            add_call_post(old(self)@, final(self)@, callable, r),
    {
        match &mut self.current_transaction {
            Some(tx) => {
                tx.add_call(callable);
                proof {
                    assert(self@.history =~= old(self)@.history);
                }
                Ok(())
            },
            None => Err(TransactionError::NoActiveTransaction),
        }
    }

    /// Starts a new transaction; fails with `AlreadyActive` when one is active.
    pub fn begin_transaction(&mut self) -> (r: Result<(), TransactionError>)
        ensures
            begin_post(old(self)@, final(self)@, r),
    {
        if self.current_transaction.is_some() {
            return Err(TransactionError::AlreadyActive);
        }
        self.current_transaction = Some(Transaction::new());
        Ok(())
    }

    /// Executes the calls of the active transaction and, when all ran, adds it to the
    /// history. The active transaction ends either way. Fails with
    /// `NoActiveTransaction` when none is active, and with `CommitFailed` carrying the
    /// error of the first call that failed.
    pub fn commit_transaction(&mut self) -> (r: Result<(), TransactionError>)
        ensures
            commit_post(old(self)@, final(self)@, r),
    {
        let tx = match self.current_transaction.take() {
            Some(tx) => tx,
            None => {
                return Err(TransactionError::NoActiveTransaction);
            },
        };
        let executed = tx.execute();
        let r = commit_outcome(executed);
        if r.is_err() {
            proof {
                assert(self@.history =~= old(self)@.history);
            }
            return r;
        }
        self.transaction_history.push(tx);
        proof {
            assert(self@.history =~= old(self)@.history.push(tx@));
        }
        r
    }

    /// Ends the active transaction without executing its calls; fails with
    /// `NoActiveTransaction` when none is active.
    pub fn rollback_transaction(&mut self) -> (r: Result<(), TransactionError>)
        ensures
            rollback_post(old(self)@, final(self)@, r),
    {
        match self.current_transaction.take() {
            Some(_tx) => {
                proof {
                    assert(self@.history =~= old(self)@.history);
                }
                Ok(())
            },
            None => Err(TransactionError::NoActiveTransaction),
        }
    }

    /// The position of the most recently committed transaction with id `id`.
    fn find_latest(&self, id: &str) -> (r: Option<usize>)
        ensures
            match r {
                Some(i) => i < self.transaction_history.len()
                    && latest_with_id(self@.history, id@) == Some(self.transaction_history@[i as int]@),
                None => latest_with_id(self@.history, id@) is None,
            },
    {
        let ghost h = self@.history;
        let target = crate::text::owned(id);
        let mut i: usize = self.transaction_history.len();
        assert(h.subrange(0, i as int) =~= h);
        while i > 0
            invariant
                i <= self.transaction_history.len(),
                h == self@.history,
                target@ == id@,
                latest_with_id(h, id@) == latest_with_id(h.subrange(0, i as int), id@),
            decreases i,
        {
            let ghost prefix = h.subrange(0, i as int);
            assert(prefix.drop_last() =~= h.subrange(0, i - 1));
            assert(prefix.last() == self.transaction_history@[i - 1]@);
            if crate::text::str_eq(self.transaction_history[i - 1].transaction_id(), target.as_str()) {
                return Some(i - 1);
            }
            i = i - 1;
        }
        None
    }

    /// Undoes the calls of the most recently committed transaction with id
    /// `transaction_id`, in reverse order. Fails with `TransactionNotFound` when no
    /// committed transaction has that id, and with `UndoFailed` carrying the error
    /// of the first undo that failed. The manager is not changed.
    pub fn undo_transaction(&self, transaction_id: &str) -> (r: Result<(), TransactionError>)
        ensures
            undo_post(self@.history, transaction_id@, r),
    {
        match self.find_latest(transaction_id) {
            None => Err(TransactionError::TransactionNotFound(crate::text::owned(transaction_id))),
            Some(i) => {
                let undone = self.transaction_history[i].undo();
                let ghost outcome = undone;
                let r = undo_outcome(undone);
                proof {
                    assert(undoes_to(self.transaction_history@[i as int]@.calls, outcome));
                }
                r
            },
        }
    }

    /// Copies of the committed transactions, oldest first.
    pub fn list_transactions(&self) -> (r: Vec<Transaction<C>>)
        ensures
            r@.map_values(|t: Transaction<C>| t@) == self@.history,
    {
        let mut r: Vec<Transaction<C>> = Vec::new();
        let mut i: usize = 0;
        while i < self.transaction_history.len()
            invariant
                i <= self.transaction_history.len(),
                r@.map_values(|t: Transaction<C>| t@) == self@.history.subrange(0, i as int),
            decreases self.transaction_history.len() - i,
        {
            let t = self.transaction_history[i].clone();
            assert(t@ == self.transaction_history@[i as int]@);
            let ghost before = r@;
            r.push(t);
            assert(r@.map_values(|t: Transaction<C>| t@) =~= before.map_values(|t: Transaction<C>| t@).push(t@));
            i = i + 1;
            assert(r@.map_values(|t: Transaction<C>| t@) =~= self@.history.subrange(0, i as int));
        }
        assert(self@.history.subrange(0, i as int) =~= self@.history);
        r
    }

    /// A copy of the active transaction, if any.
    pub fn current_transaction(&self) -> (r: Option<Transaction<C>>)
        ensures
            match r {
                Some(t) => self@.active == Some(t@),
                None => self@.active is None,
            },
    {
        match &self.current_transaction {
            Some(t) => Some(t.clone()),
            None => None,
        }
    }

    /// A copy of the most recently committed transaction with id `transaction_id`.
    pub fn get_transaction(&self, transaction_id: &str) -> (r: Option<Transaction<C>>)
        ensures
            match r {
                Some(t) => latest_with_id(self@.history, transaction_id@) == Some(t@),
                None => latest_with_id(self@.history, transaction_id@) is None,
            },
    {
        match self.find_latest(transaction_id) {
            Some(i) => Some(self.transaction_history[i].clone()),
            None => None,
        }
    }

    /// Forgets all committed transactions; the active one is kept.
    pub fn clear_history(&mut self)
        ensures
            final(self)@.active == old(self)@.active,
            final(self)@.history.len() == 0,
    {
        self.transaction_history.clear();
        assert(self@.history =~= Seq::<TxView<C>>::empty());
    }
}

/// Starting a transaction and rolling it back leaves the manager as it was.
pub proof fn law_begin_then_rollback_restores<C: Callable + ?Sized>(
    m0: ManagerView<C>,
    m1: ManagerView<C>,
    m2: ManagerView<C>,
    r1: Result<(), TransactionError>,
    r2: Result<(), TransactionError>,
)
    requires
        m0.active is None,
        begin_post(m0, m1, r1),
        rollback_post(m1, m2, r2),
    ensures
        r1 is Ok,
        r2 is Ok,
        m2 == m0,
{
}

/// A second `begin_transaction` while one is active fails and changes nothing.
pub proof fn law_begin_twice_fails<C: Callable + ?Sized>(
    m0: ManagerView<C>,
    m1: ManagerView<C>,
    m2: ManagerView<C>,
    r1: Result<(), TransactionError>,
    r2: Result<(), TransactionError>,
)
    requires
        m0.active is None,
        begin_post(m0, m1, r1),
        begin_post(m1, m2, r2),
    ensures
        r2 == Err::<(), TransactionError>(TransactionError::AlreadyActive),
        m2 == m1,
{
}

/// After a successful commit, looking up the committed transaction by its id finds it.
pub proof fn law_committed_is_found<C: Callable + ?Sized>(
    m0: ManagerView<C>,
    m1: ManagerView<C>,
    r: Result<(), TransactionError>,
    t: TxView<C>,
)
    requires
        m0.active == Some(t),
        commit_post(m0, m1, r),
        r is Ok,
    ensures
        latest_with_id(m1.history, t.id) == Some(t),
        m1.active is None,
{
    assert(m1.history.drop_last() =~= m0.history);
}

/// A transaction whose calls can only report success commits and joins the
/// history; in particular one with no calls does.
pub proof fn law_commit_of_infallible_calls_succeeds<C: Callable + ?Sized>(
    m0: ManagerView<C>,
    m1: ManagerView<C>,
    r: Result<(), TransactionError>,
    t: TxView<C>,
)
    requires
        m0.active == Some(t),
        forall|i: int, e: String| 0 <= i < t.calls.len() ==> !(#[trigger] t.calls[i].may_execute_to(Err(e))),
        commit_post(m0, m1, r),
    ensures
        r is Ok,
        m1.history == m0.history.push(t),
        latest_with_id(m1.history, t.id) == Some(t),
{
    let executed = choose|executed: Result<(), String>|
        executes_to(t.calls, executed) && r == #[trigger] commit_outcome_spec(executed);
    let k = choose|k: int| crate::transaction::transaction::execution_stops_at(t.calls, k, executed);
    if k < t.calls.len() {
        assert(t.calls[k].may_execute_to(executed));
    }
    assert(m1.history.drop_last() =~= m0.history);
}

/// Undoing a committed transaction whose calls can only report a successful undo
/// succeeds.
pub proof fn law_undo_of_infallible_calls_succeeds<C: Callable + ?Sized>(
    history: Seq<TxView<C>>,
    id: Seq<char>,
    t: TxView<C>,
    r: Result<(), TransactionError>,
)
    requires
        latest_with_id(history, id) == Some(t),
        forall|i: int, e: String| 0 <= i < t.calls.len() ==> !(#[trigger] t.calls[i].may_undo_to(Err(e))),
        undo_post(history, id, r),
    ensures
        r is Ok,
{
    let undone = choose|undone: Result<(), String>|
        undoes_to(t.calls, undone) && r == #[trigger] undo_outcome_spec(undone);
    let k = choose|k: int| crate::transaction::transaction::undo_stops_at(t.calls, k, undone);
    if k > 0 {
        assert(t.calls[k - 1].may_undo_to(undone));
    }
}

/// Neither committing nor rolling back leaves a transaction active.
pub proof fn law_end_leaves_none_active<C: Callable + ?Sized>(
    m0: ManagerView<C>,
    m1: ManagerView<C>,
    m2: ManagerView<C>,
    rc: Result<(), TransactionError>,
    rr: Result<(), TransactionError>,
)
    requires
        commit_post(m0, m1, rc),
        rollback_post(m0, m2, rr),
    ensures
        m1.active is None,
        m2.active is None,
{
}

/// Calls recorded while no transaction is active are refused and change nothing.
pub proof fn law_add_call_needs_active<C: Callable + ?Sized>(
    m0: ManagerView<C>,
    m1: ManagerView<C>,
    callable: Arc<C>,
    r: Result<(), TransactionError>,
)
    requires
        m0.active is None,
        add_call_post(m0, m1, callable, r),
    ensures
        r == Err::<(), TransactionError>(TransactionError::NoActiveTransaction),
        m1 == m0,
{
}

/// Clearing the history keeps the active transaction and forgets every
/// committed one: afterwards no id is found and nothing is listed.
pub proof fn law_clear_history_keeps_active<C: Callable + ?Sized>(
    m0: ManagerView<C>,
    m1: ManagerView<C>,
    id: Seq<char>,
)
    requires
        m1.active == m0.active,
        m1.history.len() == 0,
    ensures
        latest_with_id(m1.history, id) is None,
        m1.active == m0.active,
{
}

/// Whether a transaction is active is whether there is a current one to copy.
pub proof fn law_active_iff_current<C: Callable + ?Sized>(
    m: ManagerView<C>,
    active: bool,
    current: Option<TxView<C>>,
)
    requires
        active == (m.active is Some),
        current == m.active,
    ensures
        active == (current is Some),
{
}

/// Recording a call into an active transaction succeeds, appends a call of that
/// operation, and keeps the history; without an active transaction it is refused
/// and changes nothing. (The proxy's `record_call` has this contract too.)
pub proof fn law_add_call_appends<C: Callable + ?Sized>(
    m0: ManagerView<C>,
    m1: ManagerView<C>,
    callable: Arc<C>,
    r: Result<(), TransactionError>,
)
    requires
        add_call_post(m0, m1, callable, r),
    ensures
        m0.active is Some ==> r is Ok && m1.history == m0.history && m1.active is Some
            && m1.active->0.calls.len() == m0.active->0.calls.len() + 1
            && m1.active->0.calls.last().target() == callable
            && m1.active->0.id == m0.active->0.id,
        m0.active is None ==> r is Err && m1 == m0,
{
}

/// After the history is cleared, no id is found.
pub proof fn law_cleared_history_finds_nothing<C: Callable + ?Sized>(history: Seq<TxView<C>>, id: Seq<char>)
    requires
        history.len() == 0,
    ensures
        latest_with_id(history, id) is None,
{
}

} // verus!
