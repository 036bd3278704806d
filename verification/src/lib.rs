//! The rules of a daemon that runs web services on demand and proxies requests to them.
use vstd::prelude::*;

pub mod config;
pub mod config_laws;
pub mod control;
pub mod laws;
pub mod names;
pub mod paths;
pub mod proxy;
pub mod proxy_laws;
pub mod reload;
pub mod routing;
pub mod service;
pub mod service_laws;
pub mod startup;
pub mod text;
pub mod text_laws;

verus! {

} // verus!
