//! The core of a small HTTP/1.1 server: a request parser, a router, and the
//! bookkeeping that hands requests to workers and responses back to the
//! connection they belong to.
//!
//! - [`text`]: searching and cutting character sequences.
//! - [`http`]: methods, status codes, the parsed request, path sanitizing and
//!   the text of a response.
//! - [`parsing`]: from the text of a message to a request.
//! - [`router`]: the table of handlers, by method and path.
//! - [`server`]: handlers and their responses, the queue of work, the table
//!   of open connections, and the steps of a server.
//!
//! The library reads no socket and starts no thread: its caller does, and
//! hands it bytes and connections as values.

pub mod http;
pub mod parsing;
pub mod router;
pub mod server;
pub mod text;
