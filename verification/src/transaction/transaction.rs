//! Transactions and the calls they record.
use vstd::prelude::*;
use std::sync::Arc;
use crate::text::{decimal, owned, concat2, u64_to_decimal, u128_to_decimal, starts_with_seq};
use crate::clock::unix_nanos;

verus! {

/// An operation that can be executed and undone. Implemented by the users of the
/// library; an error is reported as its message. Its methods carry no contract:
/// what one of them returned is known to the library as an outcome that the
/// operation may report (`call_ensures` of the method on the operation).
pub trait Callable: Send + Sync {
    /// Executes the operation.
    fn execute(&self) -> Result<(), String>;

    /// Undoes the operation.
    fn undo(&self) -> Result<(), String>;

    /// The name of the operation, for display.
    fn name(&self) -> &str;
}

/// Shares an operation (`Arc::clone`): the result points to the same operation.
#[verifier::external_body]
fn share_callable<C: Callable + ?Sized>(c: &Arc<C>) -> (r: Arc<C>)
    ensures
        r == *c,
{
    Arc::clone(c)
}

/// Whether `c` is a lower-case hexadecimal digit.
pub open spec fn is_lower_hex(c: char) -> bool {
    ('0' <= c && c <= '9') || ('a' <= c && c <= 'f')
}

/// Whether `s` is a version-4 UUID as `uuid` writes it: 36 characters, hyphens at
/// positions 8, 13, 18 and 23, lower-case hexadecimal digits elsewhere, `4` at
/// position 14 and one of `8`, `9`, `a`, `b` at position 19.
pub open spec fn is_uuid_v4_text(s: Seq<char>) -> bool {
    &&& s.len() == 36
    &&& forall|i: int| 0 <= i < 36 ==> if i == 8 || i == 13 || i == 18 || i == 23 {
            #[trigger] s[i] == '-'
        } else {
            is_lower_hex(s[i])
        }
    &&& s[14] == '4'
    &&& (s[19] == '8' || s[19] == '9' || s[19] == 'a' || s[19] == 'b')
}

/// A random version-4 UUID in its hyphenated text form (`uuid::Uuid::new_v4`, then
/// `to_string`). Which one is left to chance; every outcome has the form of a
/// version-4 UUID (the version and variant bits are set, and the text is the
/// lower-case hyphenated form).
#[verifier::external_body]
fn fresh_uuid_text() -> (r: String)
    ensures
        is_uuid_v4_text(r@),
{
    uuid::Uuid::new_v4().to_string()
}

/// A recorded call of an operation.
pub struct Call<C: Callable + ?Sized = dyn Callable> {
    callable: Arc<C>,
}

impl<C: Callable + ?Sized> Call<C> {
    /// The operation this call invokes.
    pub closed spec fn target(&self) -> Arc<C> {
        self.callable
    }

    /// A call record of `callable`.
    pub fn new(callable: Arc<C>) -> (c: Self)
        ensures
            c.target() == callable,
    {
        Call { callable }
    }

    /// Whether `r` is an outcome that executing this call may report.
    pub open spec fn may_execute_to(&self, r: Result<(), String>) -> bool {
        call_ensures(C::execute, (&*self.target(),), r)
    }

    /// Whether `r` is an outcome that undoing this call may report.
    pub open spec fn may_undo_to(&self, r: Result<(), String>) -> bool {
        call_ensures(C::undo, (&*self.target(),), r)
    }

    /// Executes the operation and returns what it reported.
    pub fn execute(&self) -> (r: Result<(), String>)
        ensures
            self.may_execute_to(r),
    {
        let run = C::execute;
        run(&*self.callable)
    }

    /// Undoes the operation and returns what it reported.
    pub fn undo(&self) -> (r: Result<(), String>)
        ensures
            self.may_undo_to(r),
    {
        let run = C::undo;
        run(&*self.callable)
    }

    /// Whether `n` is a name that the operation may give.
    pub open spec fn may_be_named(&self, n: &str) -> bool {
        call_ensures(C::name, (&*self.target(),), n)
    }

    /// The name of the operation, as it gives it.
    pub fn name(&self) -> (r: &str)
        ensures
            self.may_be_named(r),
    {
        let give = C::name;
        give(&*self.callable)
    }
}

impl<C: Callable + ?Sized> Clone for Call<C> {
    fn clone(&self) -> (r: Self)
        ensures
            r == *self,
    {
        Call { callable: share_callable(&self.callable) }
    }
}

/// A transaction: its id, the thread it was created for, and the calls it records.
pub struct Transaction<C: Callable + ?Sized = dyn Callable> {
    transaction_id: String,
    thread_id: u64,
    calls: Vec<Call<C>>,
}

/// What a transaction holds: its id, its thread and its calls.
pub struct TxView<C: Callable + ?Sized> {
    /// The id.
    pub id: Seq<char>,
    /// The thread it was created for.
    pub thread: u64,
    /// The recorded calls, in order.
    pub calls: Seq<Call<C>>,
}

impl<C: Callable + ?Sized> View for Transaction<C> {
    type V = TxView<C>;

    open spec fn view(&self) -> TxView<C> {
        TxView { id: self.id(), thread: self.thread(), calls: self.calls() }
    }
}

/// Whether `s` is a transaction id: "tx-", a decimal timestamp, "-" and a
/// version-4 UUID.
pub open spec fn is_transaction_id(s: Seq<char>) -> bool {
    exists|n: nat, u: Seq<char>| #![trigger decimal(n), is_uuid_v4_text(u)]
        s == "tx-"@ + decimal(n) + "-"@ + u && is_uuid_v4_text(u)
}

/// Whether executing `calls` in order stops after the first `k` of them with the
/// outcome `r`: each of the first `k` may report success, and either all calls did
/// and `r` is `Ok`, or call `k` may report the error that `r` carries.
pub open spec fn execution_stops_at<C: Callable + ?Sized>(calls: Seq<Call<C>>, k: int, r: Result<(), String>) -> bool {
    &&& 0 <= k <= calls.len()
    &&& forall|i: int| 0 <= i < k ==> #[trigger] calls[i].may_execute_to(Ok(()))
    &&& if k < calls.len() {
        r is Err && calls[k].may_execute_to(r)
    } else {
        r is Ok
    }
}

/// Whether executing `calls` in order, stopping at the first failure, may end in `r`.
pub open spec fn executes_to<C: Callable + ?Sized>(calls: Seq<Call<C>>, r: Result<(), String>) -> bool {
    exists|k: int| execution_stops_at(calls, k, r)
}

/// Whether undoing `calls` in reverse order stops with the calls from position `k`
/// on undone and the outcome `r`: each call from `k` on may report a successful
/// undo, and either `k` is 0 and `r` is `Ok`, or the undo of call `k - 1` may report
/// the error that `r` carries.
pub open spec fn undo_stops_at<C: Callable + ?Sized>(calls: Seq<Call<C>>, k: int, r: Result<(), String>) -> bool {
    &&& 0 <= k <= calls.len()
    &&& forall|i: int| k <= i < calls.len() ==> #[trigger] calls[i].may_undo_to(Ok(()))
    &&& if k > 0 {
        r is Err && calls[k - 1].may_undo_to(r)
    } else {
        r is Ok
    }
}

/// Whether undoing `calls` in reverse order, stopping at the first failure, may end
/// in `r`.
pub open spec fn undoes_to<C: Callable + ?Sized>(calls: Seq<Call<C>>, r: Result<(), String>) -> bool {
    exists|k: int| undo_stops_at(calls, k, r)
}

/// The prefix of every transaction id.
pub open spec fn id_prefix() -> Seq<char> {
    "tx-"@
}

impl<C: Callable + ?Sized> Transaction<C> {
    /// The id of the transaction.
    pub closed spec fn id(&self) -> Seq<char> {
        self.transaction_id@
    }

    /// The thread the transaction was created for.
    pub closed spec fn thread(&self) -> u64 {
        self.thread_id
    }

    /// The recorded calls, in the order they were added.
    pub closed spec fn calls(&self) -> Seq<Call<C>> {
        self.calls@
    }

    /// A new transaction with no calls, whose id is "tx-", the nanoseconds since the
    /// Unix epoch, "-" and a random UUID. Thread identity is not visible to the
    /// library: the transaction records thread 0 (see `on_thread`).
    pub fn new() -> (t: Self)
        ensures
            starts_with_seq(t.id(), id_prefix()),
            is_transaction_id(t.id()),
            t.thread() == 0,
            t.calls().len() == 0,
    {
        Self::on_thread(0)
    }

    /// A new transaction with no calls, recorded for thread `thread_id`.
    pub fn on_thread(thread_id: u64) -> (t: Self)
        ensures
            starts_with_seq(t.id(), id_prefix()),
            is_transaction_id(t.id()),
            t.thread() == thread_id,
            t.calls().len() == 0,
    {
        let id = Self::generate_transaction_id();
        Transaction { transaction_id: id, thread_id, calls: Vec::new() }
    }

    /// A fresh id: "tx-", a timestamp, "-" and a random UUID.
    fn generate_transaction_id() -> (r: String)
        ensures
            starts_with_seq(r@, id_prefix()),
            is_transaction_id(r@),
    {
        let n = unix_nanos();
        let ts = u128_to_decimal(n);
        let uuid = fresh_uuid_text();
        let mut r = concat2("tx-", ts.as_str());
        r.append("-");
        r.append(uuid.as_str());
        proof {
            reveal_strlit("tx-");
            assert(r@.subrange(0, 3) =~= id_prefix());
            assert(r@ == "tx-"@ + decimal(n as nat) + "-"@ + uuid@);
            assert(is_uuid_v4_text(uuid@));
        }
        r
    }

    /// The id of the transaction.
    pub fn transaction_id(&self) -> (r: &str)
        ensures
            r@ == self.id(),
    {
        self.transaction_id.as_str()
    }

    /// The thread the transaction was created for.
    pub fn thread_id(&self) -> (r: u64)
        ensures
            r == self.thread(),
    {
        self.thread_id
    }

    /// Records a call of `callable` after the calls already recorded.
    pub fn add_call(&mut self, callable: Arc<C>)
        ensures
            final(self).calls().len() == old(self).calls().len() + 1,
            final(self).calls().drop_last() == old(self).calls(),
            final(self).calls().last().target() == callable,
            final(self).id() == old(self).id(),
            final(self).thread() == old(self).thread(),
    {
        self.calls.push(Call::new(callable));
        assert(self.calls@.drop_last() =~= old(self).calls@);
    }

    /// Executes the calls in order and stops at the first that fails, whose error
    /// it returns.
    pub fn execute(&self) -> (r: Result<(), String>)
        ensures
            executes_to(self.calls(), r),
            self.calls().len() == 0 ==> r is Ok,
    {
        let mut i: usize = 0;
        while i < self.calls.len()
            invariant
                i <= self.calls.len(),
                forall|j: int| 0 <= j < i ==> #[trigger] self.calls@[j].may_execute_to(Ok(())),
            decreases self.calls.len() - i,
        {
            let outcome = self.calls[i].execute();
            match outcome {
                Ok(()) => {
                    assert(outcome->Ok_0 == ());
                    assert(outcome == Ok::<(), String>(()));
                    assert(self.calls@[i as int].may_execute_to(Ok(())));
                },
                Err(e) => {
                    assert(execution_stops_at(self.calls@, i as int, Err(e)));
                    return Err(e);
                },
            }
            i = i + 1;
        }
        assert(execution_stops_at(self.calls@, i as int, Ok(())));
        Ok(())
    }

    /// Undoes the calls in reverse order and stops at the first that fails, whose
    /// error it returns.
    pub fn undo(&self) -> (r: Result<(), String>)
        ensures
            undoes_to(self.calls(), r),
            self.calls().len() == 0 ==> r is Ok,
    {
        let mut i: usize = self.calls.len();
        while i > 0
            invariant
                i <= self.calls.len(),
                forall|j: int| i <= j < self.calls.len() ==> #[trigger] self.calls@[j].may_undo_to(Ok(())),
            decreases i,
        {
            let outcome = self.calls[i - 1].undo();
            match outcome {
                Ok(()) => {
                    assert(outcome->Ok_0 == ());
                    assert(outcome == Ok::<(), String>(()));
                    assert(self.calls@[i - 1].may_undo_to(Ok(())));
                },
                Err(e) => {
                    assert(undo_stops_at(self.calls@, i as int, Err(e)));
                    return Err(e);
                },
            }
            i = i - 1;
        }
        assert(undo_stops_at(self.calls@, 0, Ok(())));
        Ok(())
    }

    /// Whether two transactions have the same id, thread and calls.
    pub open spec fn same_as(&self, other: Self) -> bool {
        &&& self.id() == other.id()
        &&& self.thread() == other.thread()
        &&& self.calls() == other.calls()
    }

    /// The number of recorded calls.
    pub fn call_count(&self) -> (n: usize)
        ensures
            n == self.calls().len(),
    {
        self.calls.len()
    }

    /// The names of the recorded calls, in order.
    pub fn call_names(&self) -> (names: Vec<&str>)
        ensures
            names.len() == self.calls().len(),
            forall|i: int| 0 <= i < names.len() ==> self.calls()[i].may_be_named(#[trigger] names@[i]),
    {
        let mut names: Vec<&str> = Vec::new();
        let mut i: usize = 0;
        while i < self.calls.len()
            invariant
                i <= self.calls.len(),
                names.len() == i,
                forall|j: int| 0 <= j < i ==> self.calls@[j].may_be_named(#[trigger] names@[j]),
            decreases self.calls.len() - i,
        {
            names.push(self.calls[i].name());
            i = i + 1;
        }
        names
    }

    /// The first lines of the display form: the id, the thread and the "Calls:" header.
    pub open spec fn display_header(&self) -> Seq<char> {
        "Transaction ID: "@ + self.id() + "\nThread ID: "@ + decimal(self.thread() as nat)
            + "\nCalls:\n"@
    }

    /// The display form: "Transaction ID: <id>", "Thread ID: <thread>", "Calls:" and
    /// one line "  - <name>" per call, each line ended by a newline.
    pub fn to_string(&self) -> (r: String)
        ensures
            starts_with_seq(r@, self.display_header()),
    {
        let mut r = concat2("Transaction ID: ", self.transaction_id.as_str());
        r.append("\nThread ID: ");
        let t = u64_to_decimal(self.thread_id);
        r.append(t.as_str());
        r.append("\nCalls:\n");
        let ghost header = r@;
        assert(header =~= self.display_header());
        assert(r@.subrange(0, header.len() as int) =~= header);
        let mut i: usize = 0;
        while i < self.calls.len()
            invariant
                i <= self.calls.len(),
                starts_with_seq(r@, header),
            decreases self.calls.len() - i,
        {
            let ghost before = r@;
            r.append("  - ");
            r.append(self.calls[i].name());
            r.append("\n");
            assert(r@.subrange(0, header.len() as int) =~= before.subrange(0, header.len() as int));
            i = i + 1;
        }
        r
    }
}

impl<C: Callable + ?Sized> Clone for Transaction<C> {
    fn clone(&self) -> (r: Self)
        ensures
            r.same_as(*self),
    {
        let mut calls: Vec<Call<C>> = Vec::new();
        let mut i: usize = 0;
        while i < self.calls.len()
            invariant
                i <= self.calls.len(),
                calls@ == self.calls@.subrange(0, i as int),
            decreases self.calls.len() - i,
        {
            calls.push(self.calls[i].clone());
            i = i + 1;
            assert(calls@ =~= self.calls@.subrange(0, i as int));
        }
        assert(calls@ =~= self.calls@);
        let id = self.transaction_id.clone();
        Transaction { transaction_id: id, thread_id: self.thread_id, calls }
    }
}

impl<C: Callable + ?Sized> Default for Transaction<C> {
    fn default() -> (t: Self)
        ensures
            starts_with_seq(t.id(), id_prefix()),
            is_transaction_id(t.id()),
            t.thread() == 0,
            t.calls().len() == 0,
    {
        Self::new()
    }
}

} // verus!
