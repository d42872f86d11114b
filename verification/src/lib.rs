//! # lm-sensors-web
//!
//! Hardware sensor monitoring: sensor readings from Linux `libsensors`
//! exposed over a REST API, a WebSocket live feed and webhooks.
//!
//! This library holds the logic of the service, each function with a
//! contract that Verus proves:
//!
//! | Module        | Purpose                                                  |
//! |---------------|----------------------------------------------------------|
//! | [`cli`]       | command-line grammar (server flags, service subcommands) |
//! | [`config`]    | configuration types, defaults, command-line overrides    |
//! | [`sensors`]   | sensor data types, built from a `libsensors` snapshot    |
//! | [`webhook`]   | webhook trigger decisions (always / temperature / on-change) |
//! | [`websocket`] | WebSocket feed decisions                                 |
//! | [`server`]    | cross-origin (CORS) policy                               |
//! | [`api`]       | HTTP replies of the REST endpoints                       |
//! | [`service`]   | systemd unit file and `systemctl` command lines          |
//! | [`text`]      | character-level helpers                                  |

use vstd::prelude::*;

pub mod api;
pub mod cli;
pub mod config;
pub mod sensors;
pub mod server;
pub mod service;
pub mod text;
pub mod webhook;
pub mod websocket;
