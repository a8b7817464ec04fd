//! Verified core of a small build server: command templating, build-output
//! parsing, build bookkeeping, request authorisation and a scheduler of
//! notifications keyed by group and id.

pub mod text;
pub mod strmap;
pub mod model;
pub mod output;
pub mod registry;
pub mod notification;
pub mod placeholders;
pub mod builds;
pub mod command;
pub mod socket;
pub mod utils;
pub mod cert;
pub mod settings;
pub mod delivery;
