//! Verified core of the yanOS storage appliance backend.
//!
//! The modules here hold the logic of the backend as plain, verified
//! functions: parsing the output of the illumos administration tools
//! (`network`, `interfaces`, `pkg`), reading and writing the system
//! configuration files (`sysconf`, `netconf`), the rolling event history
//! (`events`), the ZFS and kstat values (`zfs`, `kstat`), the
//! authentication decisions (`auth`), and the decisions of the watchers,
//! the terminal sessions, the TLS reloading and the API (`watch`,
//! `terminal`, `tls`, `api`, `config`).  Text is handled as sequences of
//! characters (`text`).
pub mod api;
pub mod auth;
pub mod config;
pub mod domain;
pub mod error;
pub mod events;
pub mod interfaces;
pub mod kstat;
pub mod netconf;
pub mod network;
pub mod pkg;
pub mod sysconf;
pub mod terminal;
pub mod text;
pub mod tls;
pub mod watch;
pub mod zfs;
