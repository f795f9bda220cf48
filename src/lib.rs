//! Pre-shared-key transport security and connection orchestration for a
//! peer-to-peer overlay network.
//!
//! - [`cipher`]: the XSalsa20 streams keyed by the pre-shared key, and the
//!   key's fingerprint.
//! - [`transport`]: the nonce-exchange handshake that seeds a cipher session.
//! - [`crypt_writer`]: the buffered, encrypting write half of a stream.
//! - [`keyfile`]: the text format of a key file.
//! - [`registry`]: which optional sub-protocols are enabled, and what is
//!   advertised.
//! - [`admission`]: connection ceilings and the counts they are checked against.
//! - [`engine`]: the reactions to connection and discovery events.
//! - [`vpn`]: the overlay's own application protocol.
//! - [`config`]: the node's configuration.
pub mod admission;
pub mod bytes;
pub mod cipher;
pub mod config;
pub mod crypt_writer;
pub mod directory;
pub mod engine;
pub mod keyfile;
pub mod registry;
pub mod transport;
pub mod vpn;
