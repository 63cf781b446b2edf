//! The data model of the protocol: the message envelope, the build-stage
//! vocabulary, the diagnostic model, the job identifier, and the error
//! taxonomy, together with the spec-level models the codec contracts use.

use vstd::prelude::*;

verus! {

/// Opaque unique identifier of a successful build attempt.
///
/// The identifier is a 128-bit value held as its sixteen bytes; on the wire
/// it travels as the conventional hyphenated lower-case hexadecimal text
/// (8-4-4-4-12 digits).
#[derive(Debug, Clone, PartialEq, Eq)]
pub struct JobId {
    pub bytes: Vec<u8>,
}

impl View for JobId {
    type V = Seq<u8>;

    open spec fn view(&self) -> Seq<u8> {
        self.bytes@
    }
}

impl JobId {
    /// A job id is well formed when it holds exactly sixteen bytes.
    pub open spec fn wf(self) -> bool {
        self.bytes@.len() == 16
    }

    /// Builds a job id from its sixteen bytes; rejects any other length.
    pub fn from_bytes(bytes: Vec<u8>) -> (r: Option<JobId>)
        ensures
            match r {
                Some(id) => id.wf() && id@ == bytes@,
                None => bytes@.len() != 16,
            },
    {
        if bytes.len() == 16 {
            Some(JobId { bytes })
        } else {
            None
        }
    }
}

/// The message envelope: the single tagged union exchanged over the socket
/// in both directions, one instance per frame.
#[derive(Debug, PartialEq)]
pub enum SocketMessage {
    /// Client asks the server to build and run the given source text.
    BuildRequest(String),
    /// Terminal message of a build attempt: the job id on success, a
    /// human-readable reason on failure.
    BuildFinished(Result<JobId, String>),
    /// Progress update; zero or more per build.
    BuildStage(BuildStage),
    /// One compiler message; zero or more per build.
    BuildDiagnostic(CargoDiagnostic),
    /// This job's position in the pending queue.
    QueuePosition(usize),
    /// Sent instead of the normal flow when a second connection for the same
    /// client is rejected.
    AlreadyConnected,
}

/// A stage of building from the playground.
///
/// A reporting vocabulary only: the type enforces no ordering between
/// stages, and `Other` is the deliberate escape hatch for phases not yet
/// modeled.
#[derive(Debug, Clone, PartialEq)]
pub enum BuildStage {
    Compiling { crates_compiled: usize, total_crates: usize, current_crate: String },
    RunningBindgen,
    Other,
}

/// A cargo diagnostic: one structured compiler message.
#[derive(Debug, Clone, PartialEq)]
pub struct CargoDiagnostic {
    pub target_crate: String,
    pub level: CargoLevel,
    pub message: String,
    pub spans: Vec<CargoDiagnosticSpan>,
}

/// Severity of a diagnostic; a closed two-value set.
#[derive(Debug, Clone, PartialEq, Eq, Structural)]
pub enum CargoLevel {
    Error,
    Warning,
}

/// A source-code range referenced by a diagnostic. Coordinates pass through
/// the upstream compiler's numbering verbatim; by convention at most one
/// span per diagnostic is primary, but that is not enforced here.
#[derive(Debug, Clone, PartialEq)]
pub struct CargoDiagnosticSpan {
    pub is_primary: bool,
    pub line_start: usize,
    pub line_end: usize,
    pub column_start: usize,
    pub column_end: usize,
    pub label: Option<String>,
}

/// Any socket error: the unified taxonomy every decoding path reports
/// through, so an endpoint can match on one surface whatever went wrong.
#[derive(Debug, Clone, PartialEq)]
pub enum SocketError {
    /// The text was not a well-formed wire message: not structured data at
    /// all, a missing field, or an unknown discriminant.
    ParseJson,
    /// The received bytes were not valid UTF-8 text; carries how many
    /// leading bytes were still valid.
    Utf8Decode { valid_up_to: usize },
}

/// Spec-level model of a diagnostic span: the same fields over mathematical
/// integers and character sequences.
#[verifier::ext_equal]
pub struct SpanModel {
    pub is_primary: bool,
    pub line_start: int,
    pub line_end: int,
    pub column_start: int,
    pub column_end: int,
    pub label: Option<Seq<char>>,
}

/// Spec-level model of a diagnostic.
#[verifier::ext_equal]
pub struct DiagModel {
    pub target_crate: Seq<char>,
    pub level: CargoLevel,
    pub message: Seq<char>,
    pub spans: Seq<SpanModel>,
}

/// Spec-level model of a build stage.
#[verifier::ext_equal]
pub enum StageModel {
    Compiling { crates_compiled: int, total_crates: int, current_crate: Seq<char> },
    RunningBindgen,
    Other,
}

/// Spec-level model of a socket message.
#[verifier::ext_equal]
pub enum MsgModel {
    BuildRequest(Seq<char>),
    BuildFinished(Result<Seq<u8>, Seq<char>>),
    BuildStage(StageModel),
    BuildDiagnostic(DiagModel),
    QueuePosition(int),
    AlreadyConnected,
}

/// The spec-level content of an optional string.
pub open spec fn opt_str_view(l: Option<String>) -> Option<Seq<char>> {
    match l {
        Some(s) => Some(s@),
        None => None,
    }
}

impl View for CargoDiagnosticSpan {
    type V = SpanModel;

    open spec fn view(&self) -> SpanModel {
        SpanModel {
            is_primary: self.is_primary,
            line_start: self.line_start as int,
            line_end: self.line_end as int,
            column_start: self.column_start as int,
            column_end: self.column_end as int,
            label: opt_str_view(self.label),
        }
    }
}

impl View for CargoDiagnostic {
    type V = DiagModel;

    open spec fn view(&self) -> DiagModel {
        DiagModel {
            target_crate: self.target_crate@,
            level: self.level,
            message: self.message@,
            spans: self.spans@.map_values(|sp: CargoDiagnosticSpan| sp@),
        }
    }
}

impl View for BuildStage {
    type V = StageModel;

    open spec fn view(&self) -> StageModel {
        match *self {
            BuildStage::Compiling { crates_compiled, total_crates, current_crate } => {
                StageModel::Compiling {
                    crates_compiled: crates_compiled as int,
                    total_crates: total_crates as int,
                    current_crate: current_crate@,
                }
            },
            BuildStage::RunningBindgen => StageModel::RunningBindgen,
            BuildStage::Other => StageModel::Other,
        }
    }
}

impl View for SocketMessage {
    type V = MsgModel;

    open spec fn view(&self) -> MsgModel {
        match *self {
            SocketMessage::BuildRequest(s) => MsgModel::BuildRequest(s@),
            SocketMessage::BuildFinished(r) => MsgModel::BuildFinished(
                match r {
                    Ok(id) => Ok(id@),
                    Err(m) => Err(m@),
                },
            ),
            SocketMessage::BuildStage(st) => MsgModel::BuildStage(st@),
            SocketMessage::BuildDiagnostic(d) => MsgModel::BuildDiagnostic(d@),
            SocketMessage::QueuePosition(n) => MsgModel::QueuePosition(n as int),
            SocketMessage::AlreadyConnected => MsgModel::AlreadyConnected,
        }
    }
}

impl SpanModel {
    /// A span model is well formed when every coordinate fits the machine's
    /// word size, as every span built in a running process does.
    pub open spec fn wf(self) -> bool {
        &&& 0 <= self.line_start <= usize::MAX as int
        &&& 0 <= self.line_end <= usize::MAX as int
        &&& 0 <= self.column_start <= usize::MAX as int
        &&& 0 <= self.column_end <= usize::MAX as int
    }
}

impl DiagModel {
    pub open spec fn wf(self) -> bool {
        forall|i: int| 0 <= i < self.spans.len() ==> (#[trigger] self.spans[i]).wf()
    }
}

impl StageModel {
    pub open spec fn wf(self) -> bool {
        match self {
            StageModel::Compiling { crates_compiled, total_crates, current_crate: _ } => {
                &&& 0 <= crates_compiled <= usize::MAX as int
                &&& 0 <= total_crates <= usize::MAX as int
            },
            _ => true,
        }
    }
}

impl MsgModel {
    /// A message model is well formed when its counts fit the machine's
    /// word size and a successful job id holds exactly sixteen bytes.
    pub open spec fn wf(self) -> bool {
        match self {
            MsgModel::BuildFinished(r) => match r {
                Ok(id) => id.len() == 16,
                Err(_) => true,
            },
            MsgModel::BuildStage(st) => st.wf(),
            MsgModel::BuildDiagnostic(d) => d.wf(),
            MsgModel::QueuePosition(n) => 0 <= n <= usize::MAX as int,
            _ => true,
        }
    }
}

impl SocketMessage {
    /// A message is well formed when a successful `BuildFinished` job id
    /// holds exactly sixteen bytes; every other variant always is.
    pub open spec fn wf(self) -> bool {
        self@.wf()
    }
}

} // verus!
