//! Find-and-replace over byte buffers and text.
//!
//! A search is set up once, from a pattern, a replacement text, a flag
//! string and a ceiling on the number of replacements, in one of two
//! dialects: [`constrained::RegexReplacer`] matches raw bytes in linear
//! time, [`expressive::FancyReplacer`] matches text with look-around and
//! back-references and may give up on a match. [`replacer::Replacer`] is
//! the front for both.
//!
//! Setting up a search checks the replacement text ([`validate`]), unescapes
//! it ([`template`]), reads the flags ([`flags`]) and prepares the pattern
//! ([`pattern`]). Applying it finds the matches and builds the output from
//! them ([`rewrite`]), optionally between colour markers ([`color`]).
//!
//! Around the search, [`pipeline`] says which inputs a run has, where its
//! results go and which files are written back, [`writeback`] orders the
//! steps by which a file is replaced, [`report`] collects what failed, and
//! [`usage`] judges a request before anything is compiled.
//!
//! The pattern engines, the unescaping of the replacement text and the
//! colour codes come from other crates. What this crate relies on them for
//! is said at each place where one is called; everything else is proved.

pub mod color;
pub mod constrained;
pub mod decode;
pub mod error;
pub mod expressive;
pub mod flags;
pub mod pattern;
pub mod pipeline;
pub mod replacer;
pub mod report;
pub mod rewrite;
pub mod template;
pub mod usage;
pub mod validate;
pub mod writeback;
