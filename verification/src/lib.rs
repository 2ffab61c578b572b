//! Link sections: typed and untyped sections gathered at link time, the
//! runtime bookkeeping that WASM targets use in place of linker-gathered
//! sections, the XCOFF section lookup used on AIX, and the token-level logic
//! of the attribute macros that place items into sections.

pub mod aix;
pub mod hash;
pub mod item;
pub mod platform;
pub mod scatter;
pub mod sections;
pub mod tokens;
pub mod wasm;
