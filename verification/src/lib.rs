//! A minimal plugin runtime core: a registry that maps URL path prefixes to
//! named plugins, a control endpoint for registering and listing plugins at
//! run time, and the per-request dispatch decisions (correlation identifiers,
//! access-log exemptions).

pub mod control;
pub mod dispatch;
pub mod plugin;
pub mod registry;
pub mod routes;
pub mod wire;
