//! Safe, verified surface around a native, callback-driven data-transfer
//! engine. The native engine itself (handle acquisition, the blocking
//! transfer call, and the raw callback trampolines) lives outside this
//! library; everything that decides or computes — error classification,
//! option marshaling, header-line parsing, response assembly, and the
//! callback bridge logic — is verified here.

pub mod body;
pub mod bridge;
pub mod errcode;
pub mod header;
pub mod opt;
pub mod response;
pub mod text;
pub mod transfer;

pub use errcode::ErrCode;
pub use response::Response;
pub use response::ResponseBuilder;
