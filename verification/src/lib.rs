//! Verified core of a small WebAssembly userland: the decisions behind the
//! host ABI wrappers, a bump allocator's placement arithmetic, and a line
//! editor modelled as a state machine over lines of bytes.
use vstd::prelude::*;

pub mod abi;
pub mod bump;
pub mod editor;
pub mod editor_laws;
pub mod keys;
pub mod screen;
pub mod smoke;
pub mod text;
pub mod time;

verus! {

} // verus!
