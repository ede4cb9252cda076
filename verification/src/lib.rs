//! Verified core of a LAN digital-signage controller: SSDP/UPnP parsing,
//! AVTransport SOAP construction, encoder selection and media rules.
#![allow(unused_imports)]

pub mod text;
pub mod state;
pub mod discovery;
pub mod dlna;
pub mod encoder;
pub mod config;
pub mod auth;
pub mod api;
pub mod media;
pub mod devices;
pub mod scenes;
pub mod persistence;
pub mod netaddr;
