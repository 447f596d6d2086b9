//! Verified core of a Docker engine client: credential handling, HTTP
//! response parsing, stream framing and BuildKit exporter configuration.
#![allow(unused_imports)]

use vstd::prelude::*;

pub mod auth;
pub mod bytes;
pub mod container;
pub mod context;
pub mod docker;
pub mod env;
pub mod exec;
pub mod grpc;
pub mod http;
pub mod info;
pub mod strmap;
pub mod text;

verus! {

} // verus!
