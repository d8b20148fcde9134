//! A small HTTP request router with a static-file fallback, together with
//! the plain data types and pure helpers of the WiredForge site backend.
//!
//! Every request is decided afresh against a frozen route table: a route for
//! its exact method and path first, then (GET only) a file under the static
//! root, then the not-found response, which falls back from a custom page to
//! a bare 404.

pub mod bench;
pub mod models;
pub mod module;
pub mod refresh;
pub mod response;
pub mod router;
pub mod static_files;
pub mod text;

pub use bench::{get_res, get_res_vec, Message, Test, TestResult};
pub use models::{Data, Email, Rsvp};
pub use module::Module;
pub use response::{file_response, not_found_response, Response};
pub use router::{ConfigError, Dispatch, Method, WiredForge, WiredForgeBuilder};
pub use static_files::resolve_static_path;
