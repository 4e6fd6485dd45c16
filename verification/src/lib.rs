//! A reverse proxy for a game-server farm, as a library of verified parts:
//! the decoder of the handshake frame, the elastic buffer pool, the routing
//! table with its round-robin balancers, and the state machines of one
//! connection and of the accept loop.

pub mod config;
pub mod mc;
pub mod mem;
pub mod proxy;
pub mod util;
