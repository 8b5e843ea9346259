//! An authoritative DNS answering core: zone lookup by longest suffix,
//! GeoIP-gated record selection, typed record rendering and policy-driven
//! response shaping, all specified and verified. I/O (sockets, files, the
//! wire codec) lives outside this crate and talks to it in plain values.
pub mod answer;
pub mod config;
pub mod geoip;
pub mod ip;
pub mod names;
pub mod records;
pub mod render;
pub mod resolver;
pub mod response;
