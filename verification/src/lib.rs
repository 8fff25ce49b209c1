//! A compendium of D&D 5e entries that is searched as you type.
//!
//! The heart of the library is the client of the search server: the grammar
//! of its line protocol (`client`), the handshake latch (`latch`), the
//! decisions of the session's loop (`event_loop`) and of the connection
//! worker (`worker`), and the caller's side of a session (`session`). Around
//! it stand the index of documents (`index`, `tantivy`, `encoding`), the
//! entries as the index sees them (`model`, `db`, `print`), and what the
//! terminal shows of them (`screen`, `layout`, `sheet`, `stats`, `wrap`,
//! `text`).
//!
//! Nothing here touches a socket, a thread, a disk or a terminal: the
//! library decides, and the program around it carries out.

pub mod client;
pub mod db;
pub mod encoding;
pub mod event_loop;
pub mod index;
pub mod latch;
pub mod layout;
pub mod model;
pub mod print;
pub mod screen;
pub mod session;
pub mod sheet;
pub mod stats;
pub mod tantivy;
pub mod text;
pub mod worker;
pub mod wrap;
