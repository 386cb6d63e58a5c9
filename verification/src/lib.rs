//! A corpus of deliberately fragile input-processing routines meant to be
//! driven by a coverage-guided fuzzer. Each routine takes an arbitrary byte
//! sequence; each has one precisely characterised input class on which its
//! unchecked computation would fault. That class is named by a spec
//! predicate and excluded by `requires`, so every function is proved to
//! return the documented value on all remaining inputs, and a driving
//! harness tests the predicate first and raises the fault itself, keeping
//! the crash signal observable outside the verified core.

mod buffer;
mod divide;
mod parse;
mod waterfall;

pub use buffer::{buffer_faults, buffer_output, has_marker, process_buffer};
pub use divide::{divide_faults, divide_numbers};
pub use parse::{is_i32_literal, literal_value, parse_faults, parse_number};
pub use waterfall::{
    check_secret_waterfall, lemma_match_count_longest_prefix,
    lemma_waterfall_faults_iff_secret_prefix, match_count, match_count_from, secret,
    waterfall_faults,
};
