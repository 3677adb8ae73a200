//! The IBC swap client: transfers over a channel, the balance kept per
//! channel and denomination, and the actions carried to the remote chain.
pub mod amount;
pub mod state;
pub mod msg;
pub mod packet;
pub mod execute;
