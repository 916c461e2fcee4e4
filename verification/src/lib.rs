//! An inference gateway: who may ask, what fits a model, how a request becomes
//! a job on a stream, how a worker or an engine runs it, and how its results
//! come back.
pub mod access;
pub mod admission;
pub mod budget;
pub mod cache;
pub mod clock;
pub mod door;
pub mod engine;
pub mod envelope;
pub mod frontdoor;
pub mod frontend;
pub mod ids;
pub mod json;
pub mod quota;
pub mod reply;
pub mod session;
pub mod sse;
pub mod streams;
pub mod temporal;
pub mod text;
pub mod worker;
