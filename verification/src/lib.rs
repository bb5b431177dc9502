//! Remote target resolver for a hosted-repository redirector.
//!
//! The library recognizes which hosting-provider grammar a raw URL string
//! belongs to, decomposes it into a canonical target descriptor, validates
//! every field against injection and traversal attacks, and re-serializes the
//! descriptor into redirect URLs and provider view links.

pub mod numfmt;
pub mod parsing;
pub mod render;
pub mod strutil;
pub mod subdomain;
pub mod target;
pub mod tenant;
pub mod urlenc;
pub mod validate;
