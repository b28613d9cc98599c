//! The protocol side of the http client: reading responses and building
//! requests.
pub mod connect;
pub mod cookies;
pub mod headers;
pub mod leftover;
pub mod read;
pub mod request;
pub mod response;
pub mod size;
pub mod size_hint;
pub mod tcpstream_ext;
pub mod throttle;
