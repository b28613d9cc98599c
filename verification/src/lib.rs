//! Stream positions, stores and protocol logic of a seekable HTTP stream
//! downloader.
pub mod cli;
pub mod http_client;
pub mod network;
pub mod range_set;
pub mod reader;
pub mod store;
pub mod stream;
pub mod target;
pub mod testing;
pub mod text;
pub mod vecdeque;
