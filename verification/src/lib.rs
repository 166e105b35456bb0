//! Verified encoding and decoding of the netfilter (nftables) expression
//! attributes `cmp`, `immediate`, `meta` and `payload`.
pub mod bytes;
pub mod error;
pub mod expression;
pub mod netlink;
pub mod nla;
pub mod register;
