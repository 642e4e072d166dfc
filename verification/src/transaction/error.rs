//! Errors of the transaction system.
use vstd::prelude::*;
use crate::text::{decimal, owned, concat2, u64_to_decimal};

verus! {

/// An error of the transaction system.
#[derive(Debug)]
pub enum TransactionError {
    /// A transaction is already active.
    AlreadyActive,
    /// No transaction is active.
    NoActiveTransaction,
    /// A call could not be added to the transaction.
    AddCallFailed(String),
    /// Committing the transaction failed.
    CommitFailed(String),
    /// Undoing the transaction failed.
    UndoFailed(String),
    /// Executing the transaction failed.
    ExecutionFailed(String),
    /// The target object has no such method.
    MethodNotFound(String),
    /// The object cannot be called.
    NotCallable(String),
    /// The ownership lock could not be acquired.
    LockAcquisitionFailed,
    /// The thread id differs from the expected one.
    ThreadIdMismatch {
        /// The expected thread id.
        expected: u64,
        /// The actual thread id.
        actual: u64,
    },
    /// No transaction has this id.
    TransactionNotFound(String),
    /// Any other error.
    Other(String),
}

impl TransactionError {
    /// The message of the error, as its `to_string` renders it.
    pub open spec fn message(&self) -> Seq<char> {
        match self {
            TransactionError::AlreadyActive => "事务已经处于活跃状态"@,
            TransactionError::NoActiveTransaction => "没有活跃的事务"@,
            TransactionError::AddCallFailed(s) => "无法添加调用到事务: "@ + s@,
            TransactionError::CommitFailed(s) => "事务提交失败: "@ + s@,
            TransactionError::UndoFailed(s) => "事务回滚失败: "@ + s@,
            TransactionError::ExecutionFailed(s) => "事务执行失败: "@ + s@,
            TransactionError::MethodNotFound(s) => "目标对象方法未找到: "@ + s@,
            TransactionError::NotCallable(s) => "调用对象不可调用: "@ + s@,
            TransactionError::LockAcquisitionFailed => "所有权锁获取失败"@,
            TransactionError::ThreadIdMismatch { expected, actual } =>
                "线程 ID 不匹配: 期望 "@ + decimal(*expected as nat) + ", 实际 "@ + decimal(*actual as nat),
            TransactionError::TransactionNotFound(s) => "事务未找到: "@ + s@,
            TransactionError::Other(s) => "其他错误: "@ + s@,
        }
    }

    /// The numeric code of the error: its position among the variants, from 1.
    pub open spec fn code(&self) -> u32 {
        match self {
            TransactionError::AlreadyActive => 1,
            TransactionError::NoActiveTransaction => 2,
            TransactionError::AddCallFailed(_) => 3,
            TransactionError::CommitFailed(_) => 4,
            TransactionError::UndoFailed(_) => 5,
            TransactionError::ExecutionFailed(_) => 6,
            TransactionError::MethodNotFound(_) => 7,
            TransactionError::NotCallable(_) => 8,
            TransactionError::LockAcquisitionFailed => 9,
            TransactionError::ThreadIdMismatch { .. } => 10,
            TransactionError::TransactionNotFound(_) => 11,
            TransactionError::Other(_) => 12,
        }
    }

    /// Renders the error message.
    pub fn to_string(&self) -> (r: String)
        ensures
            r@ == self.message(),
    {
        match self {
            TransactionError::AlreadyActive => owned("事务已经处于活跃状态"),
            TransactionError::NoActiveTransaction => owned("没有活跃的事务"),
            TransactionError::AddCallFailed(s) => concat2("无法添加调用到事务: ", s.as_str()),
            TransactionError::CommitFailed(s) => concat2("事务提交失败: ", s.as_str()),
            TransactionError::UndoFailed(s) => concat2("事务回滚失败: ", s.as_str()),
            TransactionError::ExecutionFailed(s) => concat2("事务执行失败: ", s.as_str()),
            TransactionError::MethodNotFound(s) => concat2("目标对象方法未找到: ", s.as_str()),
            TransactionError::NotCallable(s) => concat2("调用对象不可调用: ", s.as_str()),
            TransactionError::LockAcquisitionFailed => owned("所有权锁获取失败"),
            TransactionError::ThreadIdMismatch { expected, actual } => {
                let e = u64_to_decimal(*expected);
                let a = u64_to_decimal(*actual);
                let mut r = concat2("线程 ID 不匹配: 期望 ", e.as_str());
                r.append(", 实际 ");
                r.append(a.as_str());
                r
            },
            TransactionError::TransactionNotFound(s) => concat2("事务未找到: ", s.as_str()),
            TransactionError::Other(s) => concat2("其他错误: ", s.as_str()),
        }
    }

    /// The numeric code of the error.
    pub fn error_code(&self) -> (c: u32)
        ensures
            c == self.code(),
    {
        match self {
            TransactionError::AlreadyActive => 1,
            TransactionError::NoActiveTransaction => 2,
            TransactionError::AddCallFailed(_) => 3,
            TransactionError::CommitFailed(_) => 4,
            TransactionError::UndoFailed(_) => 5,
            TransactionError::ExecutionFailed(_) => 6,
            TransactionError::MethodNotFound(_) => 7,
            TransactionError::NotCallable(_) => 8,
            TransactionError::LockAcquisitionFailed => 9,
            TransactionError::ThreadIdMismatch { .. } => 10,
            TransactionError::TransactionNotFound(_) => 11,
            TransactionError::Other(_) => 12,
        }
    }
}

} // verus!
