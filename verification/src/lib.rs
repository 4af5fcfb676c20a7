//! Per-tenant admission control: the decisions of the packet path and of the
//! control daemon, with their contracts.

pub mod common;
pub mod packet;
pub mod bucket;
pub mod datapath;
pub mod table;
pub mod text;
pub mod tenant;
pub mod tenancy;
pub mod prereqs;
pub mod order;
pub mod map_client;
pub mod state_store;
pub mod config;
pub mod reconcile;
pub mod metrics;
pub mod events;
pub mod adaptive;
pub mod control_api;
pub mod daemon;
