//! The library's error type. Failures reported by outside services (the
//! database, git, the file system, the CSV and JSON codecs) carry the
//! service's message as text.
use vstd::prelude::*;

use crate::text::push_str;

verus! {

/// Everything that can go wrong in the library.
#[derive(Debug, Clone, PartialEq, Eq)]
pub enum WorldflowError {
    Database(String),
    Migration(String),
    NotFound(String),
    Serialization(String),
    InvalidInput(String),
    Io(String),
    Git(String),
    Csv(String),
    SnapshotNotConfigured,
    NoChanges,
}

/// Result of the library's fallible operations.
pub type Result<T> = core::result::Result<T, WorldflowError>;

/// The user-facing text of an error: a fixed label, then the detail.
pub open spec fn error_message(e: WorldflowError) -> Seq<char> {
    match e {
        WorldflowError::Database(m) => "数据库错误: "@ + m@,
        WorldflowError::Migration(m) => "迁移错误: "@ + m@,
        WorldflowError::NotFound(m) => "记录不存在: "@ + m@,
        WorldflowError::Serialization(m) => "序列化错误: "@ + m@,
        WorldflowError::InvalidInput(m) => "参数错误: "@ + m@,
        WorldflowError::Io(m) => "IO 错误: "@ + m@,
        WorldflowError::Git(m) => "Git 错误: "@ + m@,
        WorldflowError::Csv(m) => "CSV 错误: "@ + m@,
        WorldflowError::SnapshotNotConfigured => "快照未配置"@,
        WorldflowError::NoChanges => "自上次快照以来没有任何变化"@,
    }
}

fn labelled(label: &str, detail: &String) -> (r: String)
    ensures
        r@ == label@ + detail@,
{
    let mut out = String::new();
    push_str(&mut out, label);
    push_str(&mut out, detail.as_str());
    assert(out@ =~= label@ + detail@);
    out
}

impl WorldflowError {
    /// The message shown to users for this error.
    pub fn message(&self) -> (r: String)
        ensures
            r@ == error_message(*self),
    {
        match self {
            WorldflowError::Database(m) => labelled("数据库错误: ", m),
            WorldflowError::Migration(m) => labelled("迁移错误: ", m),
            WorldflowError::NotFound(m) => labelled("记录不存在: ", m),
            WorldflowError::Serialization(m) => labelled("序列化错误: ", m),
            WorldflowError::InvalidInput(m) => labelled("参数错误: ", m),
            WorldflowError::Io(m) => labelled("IO 错误: ", m),
            WorldflowError::Git(m) => labelled("Git 错误: ", m),
            WorldflowError::Csv(m) => labelled("CSV 错误: ", m),
            WorldflowError::SnapshotNotConfigured => String::from_str("快照未配置"),
            WorldflowError::NoChanges => String::from_str("自上次快照以来没有任何变化"),
        }
    }
}

/// An `InvalidInput` error with the given detail.
pub fn invalid_input(detail: &str) -> (r: WorldflowError)
    ensures
        r matches WorldflowError::InvalidInput(m) && m@ == detail@,
{
    WorldflowError::InvalidInput(String::from_str(detail))
}

/// A `NotFound` error whose detail is `label` followed by `name`.
pub fn not_found(label: &str, name: &String) -> (r: WorldflowError)
    ensures
        r matches WorldflowError::NotFound(m) && m@ == label@ + name@,
{
    WorldflowError::NotFound(labelled(label, name))
}

} // verus!
