//! Operations audit model: the kinds and statuses of logged transfers, the
//! query filter and aggregate shapes, and CSV escaping for exports.

use vstd::prelude::*;
use crate::errors::AppError;
use crate::text::str_eq;

verus! {

/// Kind of a logged object operation.
#[derive(Clone, Copy, PartialEq, Eq, Structural, Debug)]
pub enum OperationType {
    Upload,
    Download,
    Delete,
    Copy,
    Move,
    Rename,
    CreateFolder,
}

impl OperationType {
    /// Canonical storage token for the kind.
    pub fn as_str(&self) -> (r: &'static str)
        ensures
            *self == OperationType::Upload ==> r@ == "upload"@,
            *self == OperationType::Download ==> r@ == "download"@,
            *self == OperationType::Delete ==> r@ == "delete"@,
            *self == OperationType::Copy ==> r@ == "copy"@,
            *self == OperationType::Move ==> r@ == "move"@,
            *self == OperationType::Rename ==> r@ == "rename"@,
            *self == OperationType::CreateFolder ==> r@ == "create_folder"@,
    {
        match self {
            OperationType::Upload => "upload",
            OperationType::Download => "download",
            OperationType::Delete => "delete",
            OperationType::Copy => "copy",
            OperationType::Move => "move",
            OperationType::Rename => "rename",
            OperationType::CreateFolder => "create_folder",
        }
    }
}

/// Status of a logged object operation.
#[derive(Clone, Copy, PartialEq, Eq, Structural, Debug)]
pub enum OperationStatus {
    Pending,
    InProgress,
    Completed,
    Failed,
    Cancelled,
}

impl OperationStatus {
    /// Canonical storage token for the status.
    pub fn as_str(&self) -> (r: &'static str)
        ensures
            *self == OperationStatus::Pending ==> r@ == "pending"@,
            *self == OperationStatus::InProgress ==> r@ == "in_progress"@,
            *self == OperationStatus::Completed ==> r@ == "completed"@,
            *self == OperationStatus::Failed ==> r@ == "failed"@,
            *self == OperationStatus::Cancelled ==> r@ == "cancelled"@,
    {
        match self {
            OperationStatus::Pending => "pending",
            OperationStatus::InProgress => "in_progress",
            OperationStatus::Completed => "completed",
            OperationStatus::Failed => "failed",
            OperationStatus::Cancelled => "cancelled",
        }
    }
}

/// Export format for the operations log.
#[derive(Clone, Copy, PartialEq, Eq, Structural, Debug)]
pub enum ExportFormat {
    Csv,
    Json,
}

impl ExportFormat {
    /// Inverse of the wire token; any other token is rejected.
    pub fn parse(value: &str) -> (r: Result<ExportFormat, AppError>)
        ensures
            value@ == "csv"@ ==> r == Ok::<ExportFormat, AppError>(ExportFormat::Csv),
            value@ == "json"@ ==> r == Ok::<ExportFormat, AppError>(ExportFormat::Json),
            value@ != "csv"@ && value@ != "json"@ ==> (r matches Err(e)
                && e matches AppError::InvalidInput(m) && m@ == "Unknown export format: "@ + value@),
    {
        proof {
            reveal_strlit("csv");
            reveal_strlit("json");
            reveal_strlit("Unknown export format: ");
            assert("csv"@.len() == 3);
            assert("json"@.len() == 4);
            assert("csv"@ != "json"@);
        }
        if str_eq(value, "csv") {
            Ok(ExportFormat::Csv)
        } else if str_eq(value, "json") {
            Ok(ExportFormat::Json)
        } else {
            let mut m = String::from_str("Unknown export format: ");
            m.append(value);
            Err(AppError::InvalidInput(m))
        }
    }
}

/// Input for logging one completed operation.
pub struct LogOperationInput {
    pub account_id: String,
    pub bucket: String,
    pub operation: OperationType,
    pub source_key: Option<String>,
    pub dest_key: Option<String>,
    pub size: Option<i64>,
    pub status: OperationStatus,
    pub duration_ms: Option<i64>,
    pub error_message: Option<String>,
}

/// Filter for querying the operations log.
pub struct OperationFilter {
    pub account_id: Option<String>,
    pub bucket: Option<String>,
    pub operation: Option<OperationType>,
    pub status: Option<OperationStatus>,
    pub from_timestamp: Option<i64>,
    pub to_timestamp: Option<i64>,
    pub search: Option<String>,
    pub limit: Option<i64>,
    pub offset: Option<i64>,
}

/// Aggregate statistics over the operations log.
pub struct OperationStats {
    pub total_operations: i64,
    pub total_bytes: i64,
    pub completed: i64,
    pub failed: i64,
    pub by_type: Vec<TypeCount>,
}

/// Count of operations of one kind.
pub struct TypeCount {
    pub operation: String,
    pub count: i64,
}

/// Does a CSV field need quoting: does it hold a comma, a quote, or a
/// newline?
pub open spec fn csv_needs_quoting(s: Seq<char>) -> bool {
    exists|i: int| 0 <= i < s.len() && (s[i] == ',' || s[i] == '"' || s[i] == '\n')
}

/// The field with every quote doubled.
pub open spec fn csv_doubled(s: Seq<char>) -> Seq<char>
    decreases s.len(),
{
    if s.len() == 0 {
        s
    } else {
        csv_doubled(s.drop_last()) + (if s.last() == '"' {
            seq!['"', '"']
        } else {
            seq![s.last()]
        })
    }
}

/// What `escape_csv` returns: the field quoted with its quotes doubled when
/// it needs quoting, else the field itself.
pub open spec fn csv_escaped(s: Seq<char>) -> Seq<char> {
    if csv_needs_quoting(s) {
        seq!['"'] + csv_doubled(s) + seq!['"']
    } else {
        s
    }
}

/// Escape one CSV field: quote it, doubling embedded quotes, exactly when it
/// holds a comma, a quote or a newline.
pub fn escape_csv(value: &str) -> (r: String)
    ensures
        r@ == csv_escaped(value@),
{
    let n = value.unicode_len();
    let mut needs: bool = false;
    let mut i: usize = 0;
    while i < n
        invariant
            n == value@.len(),
            i <= n,
            needs == exists|j: int| 0 <= j < i && (value@[j] == ',' || value@[j] == '"'
                || value@[j] == '\n'),
        decreases n - i,
    {
        let c = value.get_char(i);
        if c == ',' || c == '"' || c == '\n' {
            needs = true;
        }
        i = i + 1;
    }
    if !needs {
        return String::from_str(value);
    }
    let mut out = String::from_str("\"");
    proof {
        reveal_strlit("\"");
        assert("\""@ =~= seq!['"']);
        assert(value@.take(0) =~= Seq::<char>::empty());
        assert(out@ =~= seq!['"'] + csv_doubled(value@.take(0)));
    }
    let mut i: usize = 0;
    while i < n
        invariant
            n == value@.len(),
            i <= n,
            out@ == seq!['"'] + csv_doubled(value@.take(i as int)),
        decreases n - i,
    {
        let c = value.get_char(i);
        if c == '"' {
            out.append("\"\"");
        } else {
            let piece = value.substring_char(i, i + 1);
            out.append(piece);
            proof {
                assert(piece@ =~= seq![value@[i as int]]);
            }
        }
        proof {
            reveal_strlit("\"\"");
            assert("\"\""@ =~= seq!['"', '"']);
            assert(value@.take(i as int + 1).drop_last() =~= value@.take(i as int));
            assert(value@.take(i as int + 1).last() == value@[i as int]);
            assert(out@ =~= seq!['"'] + csv_doubled(value@.take(i as int + 1)));
        }
        i = i + 1;
    }
    out.append("\"");
    proof {
        reveal_strlit("\"");
        assert(value@.take(n as int) =~= value@);
        assert(out@ =~= seq!['"'] + csv_doubled(value@) + seq!['"']);
    }
    out
}

} // verus!
