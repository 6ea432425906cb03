//! Pure domain: the shop model, the client-side interest filter, and the
//! refresh-loop controller. No I/O and no transport.

pub mod control;
pub mod filter;
pub mod shop;
pub mod stat_value;
