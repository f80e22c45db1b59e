#![allow(unused_imports)]
#![allow(unused_parens)]

pub mod agent;
pub mod bpf;
pub mod chrome;
pub mod config;
pub mod converter;
pub mod instrument;
pub mod mpscbuf;
pub mod perfetto;
pub mod protocol;
pub mod text;

use vstd::prelude::*;

verus! {

} // verus!
