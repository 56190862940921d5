//! Attribute-level behaviour of the built-in Python value types of a small
//! interpreter: the rules that decide what `obj.name` resolves to, how
//! attribute assignment and deletion act on an object's namespace, and the
//! value-level algorithms behind a number of built-in methods (string case
//! mapping, padding and partitioning, encoding, sequence repetition, float
//! arithmetic dispatch, bounded deques).

pub mod bigint;

pub mod error;
pub mod float_ops;
pub mod float_repr;
pub mod unicode;
pub mod case;
pub mod strmethods;
pub mod strsearch;
pub mod strsplit;
pub mod strws;
pub mod strtable;
pub mod method_tables;
pub mod encode;
pub mod repeat;
pub mod arg_checks;
pub mod range;
pub mod slice_ops;
pub mod int_attrs;
pub mod deque;
pub mod list;
pub mod list_sort;
pub mod keyset;
pub mod keydict;
pub mod sync_state;
pub mod super_lookup;
pub mod pattern_ops;
pub mod format_plan;
pub mod interp_error;
pub mod socket_state;
pub mod process_state;
pub mod func_attrs;
pub mod attrmap;
pub mod object;
pub mod exc_attrs;
pub mod laws;
pub mod text_laws;
pub mod table_laws;
