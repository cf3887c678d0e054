//! Parsers for the kernel's statistics files and the collector types.

pub mod error;
pub mod parsing;
pub mod types;
pub mod cpu;
pub mod disk;
pub mod network;
pub mod sockstat;
pub mod softnet;
pub mod vmstat;
pub mod arp;
pub mod netstat;
pub mod schedstat;
pub mod ipvs;
pub mod processes;
pub mod stat;
pub mod ram;
pub mod conntrack;
pub mod entropy;
pub mod filefd;
pub mod edac;
pub mod sysmd;
pub mod thermal;
pub mod filesys;
pub mod powerstat;
pub mod avg;
pub mod hwmon;
pub mod uptime;
pub mod mdraid;
pub mod ntp;
pub mod pressure;
pub mod registry;
