use seesea::transaction::manager::TransactionManager;
use seesea::transaction::proxy::Proxy;
use seesea::transaction::transaction::Callable;
use std::sync::{Arc, Mutex};

#[derive(Clone)]
struct Account {
    balance: Arc<Mutex<i32>>,
    history: Arc<Mutex<Vec<String>>>,
}

impl Account {
    fn new(balance: i32) -> Self {
        Self { balance: Arc::new(Mutex::new(balance)), history: Arc::new(Mutex::new(Vec::new())) }
    }

    fn balance(&self) -> i32 {
        *self.balance.lock().unwrap()
    }

    fn deposit(&self, amount: i32) {
        *self.balance.lock().unwrap() += amount;
        self.history.lock().unwrap().push(format!("存入: {}", amount));
    }

    fn withdraw(&self, amount: i32) {
        *self.balance.lock().unwrap() -= amount;
        self.history.lock().unwrap().push(format!("取出: {}", amount));
    }
}

struct DepositCall {
    account: Account,
    amount: i32,
}

impl DepositCall {
    fn new(account: Account, amount: i32) -> Self {
        Self { account, amount }
    }
}

impl Callable for DepositCall {
    fn execute(&self) -> Result<(), String> {
        self.account.deposit(self.amount);
        Ok(())
    }

    fn undo(&self) -> Result<(), String> {
        self.account.withdraw(self.amount);
        Ok(())
    }

    fn name(&self) -> &str {
        "deposit"
    }
}

struct WithdrawCall {
    account: Account,
    amount: i32,
}

impl WithdrawCall {
    fn new(account: Account, amount: i32) -> Self {
        Self { account, amount }
    }
}

impl Callable for WithdrawCall {
    fn execute(&self) -> Result<(), String> {
        self.account.withdraw(self.amount);
        Ok(())
    }

    fn undo(&self) -> Result<(), String> {
        self.account.deposit(self.amount);
        Ok(())
    }

    fn name(&self) -> &str {
        "withdraw"
    }
}

fn fresh_manager() -> TransactionManager {
    let mut tm: TransactionManager = TransactionManager::new();
    tm.clear_history();
    if tm.is_transaction_active() {
        let _ = tm.rollback_transaction();
    }
    tm
}

#[test]
fn test_simple_transaction() {
    let mut tm = fresh_manager();
    let account = Account::new(1000);
    assert_eq!(account.balance(), 1000);
    tm.begin_transaction().unwrap();
    tm.add_call(Arc::new(DepositCall::new(account.clone(), 500))).unwrap();
    tm.commit_transaction().unwrap();
    assert_eq!(account.balance(), 1500);
}

#[test]
fn test_transaction_rollback() {
    let mut tm = fresh_manager();
    let account = Account::new(1000);
    assert_eq!(account.balance(), 1000);
    tm.begin_transaction().unwrap();
    tm.add_call(Arc::new(DepositCall::new(account.clone(), 500))).unwrap();
    tm.rollback_transaction().unwrap();
    assert_eq!(account.balance(), 1000);
}

#[test]
fn test_complex_transaction() {
    let mut tm = fresh_manager();
    let account = Account::new(1000);
    tm.begin_transaction().unwrap();
    tm.add_call(Arc::new(DepositCall::new(account.clone(), 500))).unwrap();
    tm.add_call(Arc::new(WithdrawCall::new(account.clone(), 200))).unwrap();
    tm.add_call(Arc::new(DepositCall::new(account.clone(), 100))).unwrap();
    tm.commit_transaction().unwrap();
    assert_eq!(account.balance(), 1400);
}

#[test]
fn test_transaction_undo() {
    let mut tm = fresh_manager();
    let account = Account::new(1000);
    tm.begin_transaction().unwrap();
    let tx_id = tm.current_transaction().unwrap().transaction_id().to_string();
    tm.add_call(Arc::new(DepositCall::new(account.clone(), 500))).unwrap();
    tm.commit_transaction().unwrap();
    assert_eq!(account.balance(), 1500);
    tm.undo_transaction(&tx_id).unwrap();
    assert_eq!(account.balance(), 1000);
}

#[test]
fn test_multiple_transactions() {
    let mut tm = fresh_manager();
    let account = Account::new(1000);
    tm.begin_transaction().unwrap();
    tm.add_call(Arc::new(DepositCall::new(account.clone(), 500))).unwrap();
    tm.commit_transaction().unwrap();
    assert_eq!(account.balance(), 1500);
    tm.begin_transaction().unwrap();
    tm.add_call(Arc::new(WithdrawCall::new(account.clone(), 300))).unwrap();
    tm.commit_transaction().unwrap();
    assert_eq!(account.balance(), 1200);
    let transactions = tm.list_transactions();
    assert!(transactions.len() >= 2);
}

#[test]
fn test_proxy_usage() {
    let mut tm = fresh_manager();
    let account = Account::new(1000);
    tm.begin_transaction().unwrap();
    let mut proxy = Proxy::new(tm);
    proxy.record_call(Arc::new(DepositCall::new(account.clone(), 500))).unwrap();
    proxy.transaction_manager_mut().commit_transaction().unwrap();
    assert_eq!(account.balance(), 1500);
}

#[test]
fn test_transaction_isolation() {
    let mut tm = fresh_manager();
    let account1 = Account::new(1000);
    let account2 = Account::new(2000);
    tm.begin_transaction().unwrap();
    tm.add_call(Arc::new(DepositCall::new(account1.clone(), 500))).unwrap();
    tm.commit_transaction().unwrap();
    tm.begin_transaction().unwrap();
    tm.add_call(Arc::new(WithdrawCall::new(account2.clone(), 300))).unwrap();
    tm.commit_transaction().unwrap();
    assert_eq!(account1.balance(), 1500);
    assert_eq!(account2.balance(), 1700);
}
