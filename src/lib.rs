//! A content-addressed photo and video library, verified.
//!
//! Files are identified by the hash of their bytes (`hashing`), classified by
//! extension (`media`) and travel with their sidecars (`sidecar`). An import
//! offers each source file to a deduplication engine (`import`), plans the
//! copies into `{images|videos}/YYYY/MM-DD/` (`capture`, `plan`) and commits
//! the index rows only once every copy succeeded (`commit`). The index itself
//! is modelled in `database`; `scan` finds where disk and index differ,
//! `search` queries the index, and `push` plans replication to another
//! library. The general laws of the library stand in `laws`.

use vstd::prelude::*;

pub mod backup;
pub mod capture;
pub mod commit;
pub mod database;
pub mod error;
pub mod digits;
pub mod hashing;
pub mod import;
pub mod laws;
pub mod media;
pub mod parse;
pub mod paths;
pub mod plan;
pub mod push;
pub mod scan;
pub mod search;
pub mod sidecar;
pub mod text;
