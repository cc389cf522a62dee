//! The rules of a peer-to-peer messaging node: identities, exchanges between
//! participants, and the conversations that drive them.

pub mod base32;
pub mod data;
pub mod dispatch;
pub mod error;
pub mod exchange;
pub mod host;
pub mod identity;
pub mod live_doc;
pub mod settings;
pub mod text;
