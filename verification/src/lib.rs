//! A client for the Gopher protocol: item types, requests built from URLs,
//! and the parser that turns a server's answer into a typed response.

pub mod buffer;
pub mod errors;
pub mod exchange;
pub mod item_type;
pub mod locator;
pub mod menu;
pub mod menu_laws;
pub mod request;
pub mod response;
pub mod text;
