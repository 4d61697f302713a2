//! CoconutPak: language codes, licenses, tags, the `.copt` text compiler and
//! the registry's bookkeeping rules, verified with Verus.
use vstd::prelude::*;

pub mod text;
pub mod languages;
pub mod tags;
pub mod license;
pub mod xml_events;
pub mod markup;
pub mod error;
pub mod text_model;
pub mod text_compiler;
pub mod compiler;
pub mod login_config;
pub mod compile_status;
pub mod server_config;
pub mod registry_config;
pub mod island_rules;
pub mod permissions;

verus! {

} // verus!
