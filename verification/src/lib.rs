//! The core of a small HTTP/1.x static-file server: request parsing, path
//! classification, directory-listing generation and response emission, each
//! stated as a contract over byte sequences and proved.  The network and
//! filesystem edges stay outside; they hand this library plain bytes and
//! entry names and put the returned bytes on the wire.

pub mod bytes;
pub mod dispatch;
pub mod escape;
pub mod lit;
pub mod listing;
pub mod mime;
pub mod request;
pub mod response;
