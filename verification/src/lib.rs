//! An HTTP `CONNECT` tunnel: the handshake codec, the tunnel's decisions and
//! the relay's decisions, with their contracts.
pub mod text;
pub mod buffer;
pub mod codec;
pub mod tunnel;
