//! The decisions of a Lightning Address server.

pub mod base_url;
pub mod event;
pub mod invoice;
pub mod label;
pub mod lnurl;
pub mod receipt;
pub mod rpc;
pub mod startup;
pub mod state;
pub mod text;
pub mod user;
pub mod users;
pub mod value;
pub mod zap;
