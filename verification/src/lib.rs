use vstd::prelude::*;

pub mod address;
pub mod allocator;
pub mod atom;
pub mod codegen;
pub mod collections;
pub mod derive;
pub mod env;
pub mod erl_option;
pub mod error;
pub mod log;
pub mod interop;
pub mod map;
pub mod nif_attr;
pub mod pid;
pub mod resource;
pub mod returned;
pub mod schedule;
pub mod serde;
pub mod source;
pub mod subject;
pub mod tasks;
pub mod term;
pub mod text;
pub mod time;
pub mod types;
