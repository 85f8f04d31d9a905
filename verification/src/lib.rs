use vstd::prelude::*;

pub mod a2l;
pub mod a2l_parser;
pub mod a2l_writer;
pub mod arxml;
pub mod arxml_parser;
pub mod cli;
pub mod dbc;
pub mod dbf;
pub mod dbf_roundtrip;
pub mod dil;
pub mod ecu_database;
pub mod ecu_families;
pub mod engine;
pub mod error;
pub mod filter;
pub mod frame;
pub mod ldf;
pub mod ldf_parser;
pub mod number;
pub mod odx;
pub mod odx_parser;
pub mod scan;
pub mod signal;
pub mod text;

pub use error::BusmasterError;

verus! {

} // verus!
