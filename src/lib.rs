//! Transfer core of an FTP/SFTP client: protocol-neutral data model, the FTP
//! listing parser, a connection pool with one session per host, and the
//! bookkeeping that drives resumable, cancellable transfers.

pub mod text;
pub mod model;
pub mod listing;
pub mod pool;
pub mod engine;
pub mod validation;
pub mod crypto;
