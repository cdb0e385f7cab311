//! Core data structures and algorithms of a JavaScript runtime core:
//! arenas, buffer views and channels, error formatting, module bookkeeping
//! and the event loop phase model.
use vstd::prelude::*;

pub mod arena;
pub mod buffer_channel;
pub mod convert;
pub mod core_error;
pub mod text;
pub mod error;
pub mod event_loop;
pub mod extension_set;
pub mod extensions;
pub mod external;
pub mod feature_checker;
pub mod inspector;
pub mod io;
pub mod js_error;
pub mod laws;
pub mod module_specifier;
pub mod modules;
pub mod loaders;
pub mod module_map_data;
pub mod ops;
pub mod ops_builtin;
pub mod recursive_load;
pub mod resource_io;
pub mod resource_object;
pub mod resource_table;
pub mod str_map;

use crate::text::{nat_decimal, push_nat_decimal};

verus! {

/// The name under which a one-line script run from Rust is reported: the
/// Rust call site as `[ext:<file>:<line>:<column>]`.
pub fn located_script_name(file: &str, line: u32, column: u32) -> (r: String)
    ensures
        r@ == "[ext:"@ + file@ + ":"@ + nat_decimal(line as nat) + ":"@ + nat_decimal(column as nat)
            + "]"@,
{
    let mut r = "[ext:".to_owned();
    r.append(file);
    r.append(":");
    push_nat_decimal(&mut r, line as u64);
    r.append(":");
    push_nat_decimal(&mut r, column as u64);
    r.append("]");
    r
}

} // verus!
