//! Pulls interesting items (e-mail addresses, IP addresses, hashes, URLs and
//! more) out of lines of text, with drop and filter expressions and several
//! output layouts.

pub mod pattern;
pub mod arguments;
pub mod text;
pub mod rules;
pub mod scan;
pub mod surgeon;
pub mod message;
