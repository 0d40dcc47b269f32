//! Cloudflare API request and response model with verified request
//! construction and error reporting.

pub mod text;
pub mod net;
pub mod ip_parse;
pub mod framework;
pub mod endpoints;
