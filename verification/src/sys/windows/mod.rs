//! Windows: what AFD polls, completion ports and socket calls are told, and what their results
//! mean.

pub mod afd;
pub mod iocp;
pub mod socket;
