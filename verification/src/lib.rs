//! A client for the build listing of a Zuul CI server.
//!
//! The library holds the decisions of the client: how the API root is
//! normalised, which page is asked for next, which builds of a page are new,
//! where a catch-up scan stops, and when a failing request is tried again.
//! Sending the requests and waiting is left to the caller.

pub mod client;
pub mod model;
pub mod python_utc_without_trailing_z;
pub mod retry;
pub mod scanner;
pub mod tail;

pub use client::{create_client, parse_root_url, UrlError, Zuul};
pub use model::{Artifact, Build, DecodeError};
pub use retry::{Retry, Verdict};
pub use scanner::{PageRequest, Scanner};
pub use tail::{Next, Step, Tail};
