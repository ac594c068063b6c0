//! Rendering of terminal output (ANSI/SGR escape sequences) into safely
//! escaped HTML fragments, together with the streaming post-processing
//! pipeline that applies the conversion and rewrites resource links, and the
//! bounded LRU caches that back both.

use vstd::prelude::*;

pub mod sgr;
pub mod tags;
pub mod render;
pub mod cache;
pub mod pipeline;

verus! {

/// The configuration file consulted when none is named on the command line.
pub fn default_config_file() -> (r: String)
    ensures
        r@ == "config.yaml"@,
{
    String::from_str("config.yaml")
}

} // verus!
