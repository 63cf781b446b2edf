//! Wire-protocol contract shared between a code-playground build server and a
//! browser client connected over a persistent bidirectional socket.
//!
//! The crate defines the message envelope ([`SocketMessage`]), the build-stage
//! vocabulary ([`BuildStage`]), the structured compiler-diagnostic model
//! ([`CargoDiagnostic`] and friends), and the codec that turns a message into
//! its textual wire form and back, together with the error taxonomy
//! ([`SocketError`]) covering structured-decode and text-decode failures.

pub mod decode;
pub mod digits;
pub mod encode;
pub mod model;
pub mod reader;
pub mod roundtrip;
pub mod stdtext;
pub mod wire;

pub use model::BuildStage;
pub use model::CargoDiagnostic;
pub use model::CargoDiagnosticSpan;
pub use model::CargoLevel;
pub use model::JobId;
pub use model::SocketError;
pub use model::SocketMessage;
