//! Telemetry exporter for home-router-class Linux hosts: decoding of kernel
//! and daemon statistics, and rendering of the text exposition format.

pub mod addr;
pub mod collector;
pub mod config;
pub mod daemon;
pub mod ethtool;
pub mod metric;
pub mod netlink;
pub mod nftables;
pub mod procfs;
pub mod rtnetlink;
pub mod text;
