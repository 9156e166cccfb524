//! The verified core of a PDF renderer for Node.js.
//!
//! Most of it is the bridge between a blocking, random-access byte consumer
//! and an asynchronous range-fetch peer: the block cache, the addressing of
//! requests, the session with its registry of requests in flight and its
//! fetch protocol, the cursor that reads and seeks over it, and the table
//! of live sessions. The rest are the renderer's rules on formats, sizes
//! and page numbers.

pub mod block_cache;
pub mod error;
pub mod file_streamer;
pub mod read_pass;
pub mod render_rules;
pub mod request_id;
pub mod session_registry;
pub mod stream_reader;
