//! Boundary logic between a host application and a SQL Server driver: a
//! registry of pools and connections behind integer handles, the rewriting
//! and binding of commands with named parameters, the codec between host
//! values and typed values, and the planning of batches.
//!
//! Nothing here performs input or output. A caller sends what these functions
//! build and hands back what it received.
//!
//! Every function is proved against its contract but for a handful that call
//! code whose behaviour is taken on trust: three primitives of `std` in
//! [`text`] (appending a character, lower-casing a text, classifying a
//! character) and the readers and writers of UUIDs, dates, times and base64
//! in [`formats`]. Each of them says in its documentation what is assumed of
//! it.

pub mod batch;
pub mod bulk;
pub mod codec;
pub mod command;
pub mod config;
pub mod debug;
pub mod error;
pub mod filestream;
pub mod formats;
pub mod handle;
pub mod query;
pub mod results;
pub mod rewrite;
pub mod stream;
pub mod table;
pub mod text;
pub mod transaction;
pub mod value;
