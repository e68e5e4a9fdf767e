//! One query for a fleet of hosts.
//!
//! A client resolves subnets, an inventory and host names to endpoints,
//! validates a query once, and sends it to every endpoint in turn. On each
//! host an agent answers the fields of the query by running a command and
//! reading its output into records; a field whose command fails carries an
//! error, and the fields beside it keep their values.
//!
//! - [`target`], [`address`], [`endpoint`]: from entries to the target set
//!   and to the endpoints.
//! - [`query`], [`encoding`], [`dispatch`]: validation, the request body,
//!   and the broadcast as a state machine.
//! - [`outcome`]: what a command gives back and what a field makes of it.
//! - [`hostname`], [`disk`], [`docker`], [`ip`]: the capabilities, each with
//!   its command and its reader; [`schema`] is their registry.
//! - [`text`], [`json`]: scanning of text, and records out of JSON.

pub mod address;
pub mod disk;
pub mod dispatch;
pub mod docker;
pub mod encoding;
pub mod endpoint;
pub mod hostname;
pub mod ip;
pub mod json;
pub mod outcome;
pub mod query;
pub mod schema;
pub mod target;
pub mod text;
