//! Verified core of an intercepting HTTP(S) proxy with a browser UI.
//!
//! The library holds the decisions and encodings of the proxy: how a target
//! endpoint is derived from a request URI, how a chain of upstream proxies is
//! walked, the HTTP `CONNECT` handshake, how an intercepted connection is
//! classified, the storage keys of the history database, and the layout
//! arithmetic of the web UI. Network, disk and DOM access live outside.
#![allow(unused_imports)]

pub mod text;
pub mod textmap;
pub mod uplink;
pub mod proto;
pub mod proxy;
pub mod store;
pub mod ui;
pub mod ca;
pub mod webui;
