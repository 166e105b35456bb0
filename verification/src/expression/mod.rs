//! The attributes of the nftables expressions.
pub mod cmp;
pub mod immediate;
pub mod meta;
pub mod payload;
