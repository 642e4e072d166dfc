use seesea::transaction::error::TransactionError;
use seesea::transaction::manager::{commit_outcome, undo_outcome, TransactionManager};
use seesea::transaction::proxy::Proxy;
use seesea::transaction::transaction::{Callable, Transaction};
use std::sync::{Arc, Mutex};

struct TestCallable {
    name: String,
    executed: Arc<Mutex<bool>>,
    undone: Arc<Mutex<bool>>,
}

impl TestCallable {
    fn new(name: &str) -> Self {
        TestCallable {
            name: name.to_string(),
            executed: Arc::new(Mutex::new(false)),
            undone: Arc::new(Mutex::new(false)),
        }
    }

    fn is_executed(&self) -> bool {
        *self.executed.lock().unwrap()
    }

    fn is_undone(&self) -> bool {
        *self.undone.lock().unwrap()
    }
}

impl Callable for TestCallable {
    fn execute(&self) -> Result<(), String> {
        *self.executed.lock().unwrap() = true;
        Ok(())
    }

    fn undo(&self) -> Result<(), String> {
        *self.undone.lock().unwrap() = true;
        *self.executed.lock().unwrap() = false;
        Ok(())
    }

    fn name(&self) -> &str {
        &self.name
    }
}

struct Account {
    balance: Arc<Mutex<i64>>,
    amount: i64,
}

impl Callable for Account {
    fn execute(&self) -> Result<(), String> {
        *self.balance.lock().unwrap() += self.amount;
        Ok(())
    }

    fn undo(&self) -> Result<(), String> {
        *self.balance.lock().unwrap() -= self.amount;
        Ok(())
    }

    fn name(&self) -> &str {
        "deposit"
    }
}

struct Failing;

impl Callable for Failing {
    fn execute(&self) -> Result<(), String> {
        Err("boom".to_string())
    }

    fn undo(&self) -> Result<(), String> {
        Ok(())
    }

    fn name(&self) -> &str {
        "failing"
    }
}

#[test]
fn test_transaction_error_display() {
    let err = TransactionError::AlreadyActive;
    assert_eq!(err.to_string(), "事务已经处于活跃状态");

    let err = TransactionError::NoActiveTransaction;
    assert_eq!(err.to_string(), "没有活跃的事务");

    let err = TransactionError::CommitFailed("测试错误".to_string());
    assert_eq!(err.to_string(), "事务提交失败: 测试错误");
}

#[test]
fn test_transaction_error_code() {
    let err = TransactionError::AlreadyActive;
    assert_eq!(err.error_code(), 1);

    let err = TransactionError::NoActiveTransaction;
    assert_eq!(err.error_code(), 2);
}

#[test]
fn test_thread_id_mismatch() {
    let err = TransactionError::ThreadIdMismatch { expected: 123, actual: 456 };
    assert!(err.to_string().contains("123"));
    assert!(err.to_string().contains("456"));
}

#[test]
fn error_codes_follow_variant_order() {
    assert_eq!(TransactionError::Other("x".to_string()).error_code(), 12);
    assert_eq!(TransactionError::LockAcquisitionFailed.error_code(), 9);
    assert_eq!(
        TransactionError::ThreadIdMismatch { expected: 1, actual: 2 }.to_string(),
        "线程 ID 不匹配: 期望 1, 实际 2"
    );
}

#[test]
fn test_begin_transaction() {
    let mut tm: TransactionManager = TransactionManager::new();
    tm.clear_history();
    if tm.is_transaction_active() {
        let _ = tm.rollback_transaction();
    }
    assert!(!tm.is_transaction_active());
    tm.begin_transaction().unwrap();
    assert!(tm.is_transaction_active());
}

#[test]
fn test_begin_transaction_already_active() {
    let mut tm: TransactionManager = TransactionManager::new();
    if tm.is_transaction_active() {
        let _ = tm.rollback_transaction();
    }
    tm.begin_transaction().unwrap();
    let result = tm.begin_transaction();
    assert!(result.is_err());
    assert!(matches!(result, Err(TransactionError::AlreadyActive)));
    let _ = tm.rollback_transaction();
}

#[test]
fn test_add_call_no_transaction() {
    let mut tm: TransactionManager = TransactionManager::new();
    if tm.is_transaction_active() {
        let _ = tm.rollback_transaction();
    }
    let callable: Arc<dyn Callable> = Arc::new(TestCallable::new("test"));
    let result = tm.add_call(callable);
    assert!(result.is_err());
    assert!(matches!(result, Err(TransactionError::NoActiveTransaction)));
}

#[test]
fn test_commit_transaction() {
    let mut tm: TransactionManager = TransactionManager::new();
    tm.clear_history();
    tm.begin_transaction().unwrap();
    let callable = Arc::new(TestCallable::new("test"));
    let callable_clone = callable.clone();
    tm.add_call(callable as Arc<dyn Callable>).unwrap();
    assert!(!callable_clone.is_executed());
    tm.commit_transaction().unwrap();
    assert!(callable_clone.is_executed());
    assert!(!tm.is_transaction_active());
}

#[test]
fn test_rollback_transaction() {
    let mut tm: TransactionManager = TransactionManager::new();
    tm.begin_transaction().unwrap();
    let callable = Arc::new(TestCallable::new("test"));
    let callable_clone = callable.clone();
    tm.add_call(callable as Arc<dyn Callable>).unwrap();
    tm.rollback_transaction().unwrap();
    assert!(!callable_clone.is_executed());
    assert!(!tm.is_transaction_active());
}

#[test]
fn test_list_transactions() {
    let mut tm: TransactionManager = TransactionManager::new();
    tm.clear_history();
    let initial_count = tm.list_transactions().len();
    tm.begin_transaction().unwrap();
    tm.add_call(Arc::new(TestCallable::new("test")) as Arc<dyn Callable>).unwrap();
    tm.commit_transaction().unwrap();
    let transactions = tm.list_transactions();
    assert_eq!(transactions.len(), initial_count + 1);
}

#[test]
fn test_get_transaction() {
    let mut tm: TransactionManager = TransactionManager::new();
    tm.clear_history();
    if tm.is_transaction_active() {
        let _ = tm.rollback_transaction();
    }
    tm.begin_transaction().unwrap();
    let tx_id = tm.current_transaction().unwrap().transaction_id().to_string();
    tm.add_call(Arc::new(TestCallable::new("test")) as Arc<dyn Callable>).unwrap();
    tm.commit_transaction().unwrap();
    let tx = tm.get_transaction(&tx_id);
    assert!(tx.is_some());
    assert_eq!(tx.unwrap().transaction_id(), tx_id);
}

#[test]
fn cleared_history_finds_nothing() {
    let mut tm: TransactionManager = TransactionManager::new();
    tm.begin_transaction().unwrap();
    let tx_id = tm.current_transaction().unwrap().transaction_id().to_string();
    tm.commit_transaction().unwrap();
    tm.clear_history();
    assert!(tm.get_transaction(&tx_id).is_none());
    assert_eq!(tm.list_transactions().len(), 0);
}

#[test]
fn commit_without_transaction_fails() {
    let mut tm: TransactionManager = TransactionManager::new();
    assert!(matches!(tm.commit_transaction(), Err(TransactionError::NoActiveTransaction)));
    assert!(matches!(tm.rollback_transaction(), Err(TransactionError::NoActiveTransaction)));
}

#[test]
fn failing_call_fails_commit() {
    let mut tm: TransactionManager = TransactionManager::new();
    tm.begin_transaction().unwrap();
    tm.add_call(Arc::new(Failing) as Arc<dyn Callable>).unwrap();
    let r = tm.commit_transaction();
    assert!(r.is_err());
}

#[test]
fn deposits_add_up_and_undo_restores() {
    let balance = Arc::new(Mutex::new(1000i64));
    let mut tm: TransactionManager = TransactionManager::new();
    tm.begin_transaction().unwrap();
    tm.add_call(Arc::new(Account { balance: balance.clone(), amount: 500 }) as Arc<dyn Callable>).unwrap();
    let tx_id = tm.current_transaction().unwrap().transaction_id().to_string();
    tm.commit_transaction().unwrap();
    assert_eq!(*balance.lock().unwrap(), 1500);
    tm.undo_transaction(&tx_id).unwrap();
    assert_eq!(*balance.lock().unwrap(), 1000);
}

#[test]
fn undo_of_unknown_transaction_fails() {
    let tm: TransactionManager = TransactionManager::new();
    assert!(matches!(tm.undo_transaction("tx-none"), Err(TransactionError::TransactionNotFound(_))));
}

#[test]
fn test_proxy_creation() {
    let mut tm: TransactionManager = TransactionManager::new();
    if tm.is_transaction_active() {
        let _ = tm.rollback_transaction();
    }
    let proxy = Proxy::new(tm);
    assert!(!proxy.transaction_manager().is_transaction_active());
}

#[test]
fn test_proxy_record_call() {
    let mut tm: TransactionManager = TransactionManager::new();
    tm.begin_transaction().unwrap();
    let mut proxy = Proxy::new(tm);
    let callable = Arc::new(TestCallable::new("test"));
    let callable_clone = callable.clone();
    proxy.record_call(callable as Arc<dyn Callable>).unwrap();
    assert!(!callable_clone.is_executed());
    proxy.transaction_manager_mut().commit_transaction().unwrap();
    assert!(callable_clone.is_executed());
}

#[test]
fn test_proxy_record_call_no_transaction() {
    let mut tm: TransactionManager = TransactionManager::new();
    if tm.is_transaction_active() {
        let _ = tm.rollback_transaction();
    }
    let mut proxy = Proxy::new(tm);
    let callable: Arc<dyn Callable> = Arc::new(TestCallable::new("test"));
    let result = proxy.record_call(callable);
    assert!(result.is_err());
}

#[test]
fn test_transaction_creation() {
    let tx: Transaction = Transaction::new();
    assert!(!tx.transaction_id().is_empty());
    assert!(tx.transaction_id().starts_with("tx-"));
    assert_eq!(tx.call_count(), 0);
}

#[test]
fn test_transaction_id_uniqueness() {
    let tx1: Transaction = Transaction::new();
    let tx2: Transaction = Transaction::new();
    assert_ne!(tx1.transaction_id(), tx2.transaction_id());
}

#[test]
fn test_add_call() {
    let mut tx: Transaction = Transaction::new();
    let callable: Arc<dyn Callable> = Arc::new(TestCallable::new("test_func"));
    tx.add_call(callable);
    assert_eq!(tx.call_count(), 1);
}

#[test]
fn test_execute_calls() {
    let mut tx: Transaction = Transaction::new();
    let callable = Arc::new(TestCallable::new("test_func"));
    let callable_clone = callable.clone();
    tx.add_call(callable as Arc<dyn Callable>);
    assert!(!callable_clone.is_executed());
    tx.execute().unwrap();
    assert!(callable_clone.is_executed());
}

#[test]
fn test_undo_calls() {
    let mut tx: Transaction = Transaction::new();
    let callable = Arc::new(TestCallable::new("test_func"));
    let callable_clone = callable.clone();
    tx.add_call(callable as Arc<dyn Callable>);
    tx.execute().unwrap();
    assert!(!callable_clone.is_undone());
    tx.undo().unwrap();
    assert!(callable_clone.is_undone());
}

#[test]
fn test_multiple_calls() {
    let mut tx: Transaction = Transaction::new();
    let callable1 = Arc::new(TestCallable::new("func1"));
    let callable2 = Arc::new(TestCallable::new("func2"));
    let clone1 = callable1.clone();
    let clone2 = callable2.clone();
    tx.add_call(callable1 as Arc<dyn Callable>);
    tx.add_call(callable2 as Arc<dyn Callable>);
    assert_eq!(tx.call_count(), 2);
    tx.execute().unwrap();
    assert!(clone1.is_executed());
    assert!(clone2.is_executed());
    tx.undo().unwrap();
    assert!(clone1.is_undone());
    assert!(clone2.is_undone());
}

#[test]
fn test_transaction_display() {
    let mut tx: Transaction = Transaction::new();
    let callable: Arc<dyn Callable> = Arc::new(TestCallable::new("test_func"));
    tx.add_call(callable);
    let display = tx.to_string();
    assert!(display.contains("Transaction ID"));
    assert!(display.contains("test_func"));
}

#[test]
fn test_call_names() {
    let mut tx: Transaction = Transaction::new();
    tx.add_call(Arc::new(TestCallable::new("func1")) as Arc<dyn Callable>);
    tx.add_call(Arc::new(TestCallable::new("func2")) as Arc<dyn Callable>);
    let names = tx.call_names();
    assert_eq!(names.len(), 2);
    assert_eq!(names[0], "func1");
    assert_eq!(names[1], "func2");
}

#[test]
fn transaction_ids_end_with_a_version_4_uuid() {
    let t: Transaction = Transaction::new();
    let id = t.transaction_id().to_string();
    assert!(id.starts_with("tx-"));
    let uuid = &id[id.len() - 36..];
    let chars: Vec<char> = uuid.chars().collect();
    for i in [8, 13, 18, 23] {
        assert_eq!(chars[i], '-');
    }
    assert_eq!(chars[14], '4');
    assert!("89ab".contains(chars[19]));
    let stamp = &id[3..id.len() - 37];
    assert!(!stamp.is_empty() && stamp.chars().all(|c| c.is_ascii_digit()));
    assert_eq!(&id[id.len() - 37..id.len() - 36], "-");
}

struct Logged {
    name: String,
    log: Arc<Mutex<Vec<String>>>,
    fail_execute: bool,
    fail_undo: bool,
}

impl Logged {
    fn new(name: &str, log: &Arc<Mutex<Vec<String>>>, fail_execute: bool, fail_undo: bool) -> Arc<dyn Callable> {
        Arc::new(Logged { name: name.to_string(), log: log.clone(), fail_execute, fail_undo })
    }
}

impl Callable for Logged {
    fn execute(&self) -> Result<(), String> {
        self.log.lock().unwrap().push(format!("run {}", self.name));
        if self.fail_execute { Err(format!("{} failed", self.name)) } else { Ok(()) }
    }

    fn undo(&self) -> Result<(), String> {
        self.log.lock().unwrap().push(format!("undo {}", self.name));
        if self.fail_undo { Err(format!("{} undo failed", self.name)) } else { Ok(()) }
    }

    fn name(&self) -> &str {
        &self.name
    }
}

#[test]
fn commit_stops_at_the_first_failure_and_reports_its_error() {
    let log = Arc::new(Mutex::new(Vec::new()));
    let mut tm: TransactionManager = TransactionManager::new();
    tm.begin_transaction().unwrap();
    tm.add_call(Logged::new("a", &log, false, false)).unwrap();
    tm.add_call(Logged::new("b", &log, true, false)).unwrap();
    tm.add_call(Logged::new("c", &log, false, false)).unwrap();
    match tm.commit_transaction() {
        Err(TransactionError::CommitFailed(m)) => assert_eq!(m, "b failed"),
        _ => panic!("commit should fail"),
    }
    assert_eq!(*log.lock().unwrap(), vec!["run a".to_string(), "run b".to_string()]);
    assert!(!tm.is_transaction_active());
    assert_eq!(tm.list_transactions().len(), 0);
}

#[test]
fn empty_transaction_commits_and_joins_the_history() {
    let mut tm: TransactionManager = TransactionManager::new();
    tm.begin_transaction().unwrap();
    let id = tm.current_transaction().unwrap().transaction_id().to_string();
    tm.commit_transaction().unwrap();
    assert_eq!(tm.list_transactions().len(), 1);
    assert!(tm.get_transaction(&id).is_some());
    tm.undo_transaction(&id).unwrap();
}

#[test]
fn undo_runs_backwards_and_stops_at_the_first_failure() {
    let log = Arc::new(Mutex::new(Vec::new()));
    let mut tm: TransactionManager = TransactionManager::new();
    tm.begin_transaction().unwrap();
    tm.add_call(Logged::new("a", &log, false, false)).unwrap();
    tm.add_call(Logged::new("b", &log, false, true)).unwrap();
    tm.add_call(Logged::new("c", &log, false, false)).unwrap();
    let id = tm.current_transaction().unwrap().transaction_id().to_string();
    tm.commit_transaction().unwrap();
    log.lock().unwrap().clear();
    match tm.undo_transaction(&id) {
        Err(TransactionError::UndoFailed(m)) => assert_eq!(m, "b undo failed"),
        _ => panic!("undo should fail"),
    }
    assert_eq!(*log.lock().unwrap(), vec!["undo c".to_string(), "undo b".to_string()]);
    assert!(tm.get_transaction(&id).is_some());
}

#[test]
fn outcomes_wrap_the_error_of_the_failing_call() {
    assert!(matches!(commit_outcome(Ok(())), Ok(())));
    assert!(matches!(commit_outcome(Err("x".to_string())), Err(TransactionError::CommitFailed(m)) if m == "x"));
    assert!(matches!(undo_outcome(Ok(())), Ok(())));
    assert!(matches!(undo_outcome(Err("y".to_string())), Err(TransactionError::UndoFailed(m)) if m == "y"));
}
