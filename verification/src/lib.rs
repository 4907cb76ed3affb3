//! Parsing of PHP-flavoured delimited regular expressions (`/pattern/modifiers`)
//! and extraction of the alphabet of characters that a capturing group of such
//! a pattern can match, together with the name sets that a wiki's site
//! information record holds.

pub mod charset;
pub mod extract;
pub mod names;
pub mod nameset;
pub mod pcre;
pub mod regex;
pub mod response;
pub mod siteinfo;
pub mod syntax;
pub mod text;
