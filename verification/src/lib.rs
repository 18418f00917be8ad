//! The crawl queue of a personal search engine: which URLs may enter the
//! queue, which task leaves it next, and what becomes of a task once it has
//! been crawled.
pub mod adding;
pub mod address;
pub mod backend;
pub mod batch;
pub mod database;
pub mod dequeue;
pub mod enqueue;
pub mod filter;
pub mod lifecycle;
pub mod query;
pub mod rules;
pub mod settings;
pub mod table;
pub mod task;
pub mod text;
pub mod time;
