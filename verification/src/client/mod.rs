//! Client configuration: the builders of the REST and realtime clients and
//! the data the REST API answers with. The clients themselves, which make
//! the requests, are built around these from what the builders settle.

pub mod legacy;
pub mod realtime;
pub mod rest;
