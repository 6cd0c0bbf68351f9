//! Verified core of a documentation-markup migration tool.
//!
//! The library rewrites structured tag-based markup embedded in a
//! configuration-language source tree into a lighter inline dialect.  Every
//! rewrite is checked by an external build oracle before it is committed; the
//! logic that locates rewrite candidates, transduces the text, normalizes
//! build outputs and decides commits is verified here.

pub mod escape;
pub mod locator;
pub mod normalize;
pub mod orchestrate;
pub mod progress;
pub mod rules;
pub mod text;
pub mod transduce;
