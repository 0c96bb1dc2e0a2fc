//! A conversational agent with a semantic memory: intent routing, two
//! confirmation dialogs, and the policies of a vector-indexed fact store.
//!
//! Everything that talks to the network, the chat transport or the shell is
//! left to the caller: the session machine hands out requests and takes back
//! the answers.
pub mod extract;
pub mod intent;
pub mod memory;
pub mod session;
pub mod text;
