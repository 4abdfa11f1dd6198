//! Mirrors the file tree of a Canvas account onto local disk.
//!
//! The crate holds the decisions of the mirror: how remote folders map to
//! local directories, which files still have to be fetched, how the finished
//! list is split across workers and how one transfer proceeds. Network and
//! file-system work is left to the caller, which feeds the outcomes back in.
//!
//! * [`canvas`]: the records of the account.
//! * [`setup`]: choosing the credentials of a run.
//! * [`links`], [`paths`], [`text`]: links into the account, local paths,
//!   decimal numbers as text.
//! * [`crawl`]: the walk over the remote folder tree; [`remote`] proves what
//!   it collects.
//! * [`schedule`]: splitting the download list across workers.
//! * [`download`]: a worker's pass over its range and the progress of one
//!   transfer.
//! * [`report`]: the lines shown to the user.

pub mod canvas;
pub mod crawl;
pub mod download;
pub mod links;
pub mod paths;
pub mod remote;
pub mod report;
pub mod schedule;
pub mod setup;
pub mod text;
