//! Verified core of the condor job service and its command-line client:
//! decimal rendering, the store's key schema, the store's command plans and
//! reply interpretation with a model of the server's data, the store's laws
//! over it and the invariant every write keeps, completion events, the
//! service's decisions and the client's option rules.

pub mod decimal;
pub mod keys;
pub mod store;
pub mod reply;
pub mod model;
pub mod readable;
pub mod events;
pub mod service;
pub mod cli;
