//! Network labs on Linux namespaces: the rules, protocols and bookkeeping.

pub mod addr;
pub mod balancer;
pub mod blueprints;
pub mod bytes;
pub mod chains;
pub mod config;
pub mod consts;
pub mod container;
pub mod dns;
pub mod event;
pub mod firewall;
pub mod history;
pub mod host;
pub mod iface;
pub mod lab;
pub mod limits;
pub mod nat64;
pub mod nat_config;
pub mod nft;
pub mod notation;
pub mod overlay;
pub mod portmap;
pub mod presets;
pub mod profile;
pub mod qdisc;
pub mod redirects;
pub mod services;
pub mod table;
pub mod text;
pub mod topology;
pub mod translation;
