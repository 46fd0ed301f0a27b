use vstd::prelude::*;

use crate::evidence::LineRange;
use crate::excavate::Finding;
use crate::text::{decimal, spec_decimal};

verus! {

#[derive(Debug)]
pub enum McpError {
    NotRunning,
    ProjectOpen(String, String),
    Excavate(String),
    Store(String),
}

impl McpError {
    pub open spec fn spec_message(&self) -> Seq<char> {
        match *self {
            McpError::NotRunning => "Subsurface is not running or store is unavailable"@,
            McpError::ProjectOpen(p, e) => "Failed to open Project at '"@ + p@ + "': "@ + e@,
            McpError::Excavate(m) => "Excavate error: "@ + m@,
            McpError::Store(m) => "Store error: "@ + m@,
        }
    }

    /// The error as a sentence.
    pub fn message(&self) -> (r: String)
        ensures
            r@ == self.spec_message(),
    {
        match self {
            McpError::NotRunning => String::from_str(
                "Subsurface is not running or store is unavailable",
            ),
            McpError::ProjectOpen(p, e) => String::from_str("Failed to open Project at '").concat(
                p.as_str(),
            ).concat("': ").concat(e.as_str()),
            McpError::Excavate(m) => String::from_str("Excavate error: ").concat(m.as_str()),
            McpError::Store(m) => String::from_str("Store error: ").concat(m.as_str()),
        }
    }
}

/// A tool call from an agent.
#[derive(Debug, Clone)]
pub enum McpToolCall {
    Excavate { project_path: String, file_path: String, start_line: usize, end_line: usize },
    ListFieldNotes { project_path: String },
    GetFieldNote { id: String },
}

/// The answer to an excavate call, and whether it came from a saved note.
#[derive(Debug, Clone)]
pub struct McpExcavateResult {
    pub finding: Finding,
    pub from_cached_field_note: bool,
}

/// One agent query, as audited.
#[derive(Debug, Clone, PartialEq, Eq)]
pub struct AgentAuditEntry {
    pub timestamp: String,
    pub tool_name: String,
    pub query_summary: String,
}

/// What the MCP surface reports about itself.
#[derive(Debug, Clone, Default)]
pub struct McpStatus {
    pub is_running: bool,
    pub active_queries_count: usize,
    pub recent_agent_queries: Vec<AgentAuditEntry>,
}

/// The most audit entries kept.
pub const AUDIT_LOG_CAPACITY: usize = 50;

/// Appends an audit entry, dropping the oldest one once more than the
/// capacity are kept.
pub fn record_audit(log: &mut Vec<AgentAuditEntry>, entry: AgentAuditEntry)
    requires
        old(log)@.len() <= AUDIT_LOG_CAPACITY,
    ensures
        final(log)@ == if old(log)@.len() + 1 > AUDIT_LOG_CAPACITY {
            old(log)@.push(entry).drop_first()
        } else {
            old(log)@.push(entry)
        },
        final(log)@.len() <= AUDIT_LOG_CAPACITY,
{
    log.push(entry);
    if log.len() > AUDIT_LOG_CAPACITY {
        let ghost pushed = log@;
        log.remove(0);
        assert(log@ =~= pushed.drop_first());
    }
}

/// How an excavate call is summarised in the audit log.
pub fn excavate_summary(file_path: &str, start_line: usize, end_line: usize) -> (r: String)
    ensures
        r@ == file_path@ + ":"@ + spec_decimal(start_line as nat) + "-"@ + spec_decimal(
            end_line as nat,
        ),
{
    String::from_str(file_path).concat(":").concat(decimal(start_line as u64).as_str()).concat(
        "-",
    ).concat(decimal(end_line as u64).as_str())
}

/// The audit entry of an excavate call made at `timestamp`.
pub fn excavate_audit_entry(timestamp: String, file_path: &str, start_line: usize, end_line: usize) -> (r:
    AgentAuditEntry)
    ensures
        r.timestamp == timestamp,
        r.tool_name@ == "excavate"@,
        r.query_summary@ == file_path@ + ":"@ + spec_decimal(start_line as nat) + "-"@ + spec_decimal(
            end_line as nat,
        ),
{
    AgentAuditEntry {
        timestamp,
        tool_name: String::from_str("excavate"),
        query_summary: excavate_summary(file_path, start_line, end_line),
    }
}

/// What an excavate call asks for: the Project, the file and the line
/// range. Other tool calls are refused by the excavate handler.
pub fn excavate_request(call: &McpToolCall) -> (r: Result<(String, String, LineRange), McpError>)
    ensures
        match *call {
            McpToolCall::Excavate { project_path, file_path, start_line, end_line } => r == Ok::<
                (String, String, LineRange),
                McpError,
            >((project_path, file_path, LineRange { start: start_line, end: end_line })),
            _ => r matches Err(McpError::Excavate(m)) && m@ == "Unsupported tool call in excavate handler"@,
        },
{
    match call {
        McpToolCall::Excavate { project_path, file_path, start_line, end_line } => Ok(
            (project_path.clone(), file_path.clone(), LineRange { start: *start_line, end: *end_line }),
        ),
        _ => Err(McpError::Excavate(String::from_str("Unsupported tool call in excavate handler"))),
    }
}

/// The status of a running server with this audit log.
pub fn status_of(log: &Vec<AgentAuditEntry>) -> (r: McpStatus)
    ensures
        r.is_running,
        r.active_queries_count == log@.len(),
        r.recent_agent_queries@.len() == log@.len(),
        forall|i: int| 0 <= i < log@.len() ==> #[trigger] r.recent_agent_queries@[i] == log@[i],
{
    let mut copy: Vec<AgentAuditEntry> = Vec::new();
    let mut i: usize = 0;
    while i < log.len()
        invariant
            i <= log.len(),
            copy@.len() == i,
            forall|k: int| 0 <= k < i ==> #[trigger] copy@[k] == log@[k],
        decreases log.len() - i,
    {
        let e = &log[i];
        copy.push(
            AgentAuditEntry {
                timestamp: e.timestamp.clone(),
                tool_name: e.tool_name.clone(),
                query_summary: e.query_summary.clone(),
            },
        );
        i = i + 1;
    }
    McpStatus { is_running: true, active_queries_count: log.len(), recent_agent_queries: copy }
}

/// The audit log never holds more than its capacity.
pub proof fn law_audit_log_bounded(before: Seq<AgentAuditEntry>, entry: AgentAuditEntry)
    requires
        before.len() <= AUDIT_LOG_CAPACITY,
    ensures
        (if before.len() + 1 > AUDIT_LOG_CAPACITY {
            before.push(entry).drop_first()
        } else {
            before.push(entry)
        }).len() <= AUDIT_LOG_CAPACITY,
        (if before.len() + 1 > AUDIT_LOG_CAPACITY {
            before.push(entry).drop_first()
        } else {
            before.push(entry)
        }).last() == entry,
{
}

} // verus!
