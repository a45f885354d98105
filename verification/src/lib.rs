//! A write-ahead-log (WAL) mining library.
//!
//! The library turns raw, physically ordered log bytes into logical
//! row-level change events.  It is organised as a set of verified layers:
//! segment location and validation (`wal`, `wal_utils`), log-pointer
//! arithmetic and text forms (`pg_lsn`, `lsn`, `lsn_utils`), page and
//! record framing (`page`, `record`), record assembly across page and
//! segment boundaries (`assembler`), page reconstruction from full-page
//! images (`cache`), relation resolution (`relation`), and
//! heap-operation decoding (`xlog_heap`, `decoder`).
//!
//! The library performs no I/O itself: a driver reads segment files and
//! feeds pages to a decoding session, which asks for exactly the pages
//! it needs.
//!
//! The on-disk form the library reads is defined by these modules
//! themselves: page and record headers carry the conventional fields,
//! while block references and operation payloads use the fixed
//! encodings documented in `record` and `xlog_heap`.  Interoperability
//! holds at the level of that data model, not byte-for-byte with any
//! other producer's richer reference encodings.

pub mod assembler;
pub mod cache;
pub mod decoder;
pub mod hexutil;
pub mod lsn;
pub mod lsn_utils;
pub mod page;
pub mod pg_lsn;
pub mod record;
pub mod relation;
pub mod wal;
pub mod wal_utils;
pub mod xlog_heap;
