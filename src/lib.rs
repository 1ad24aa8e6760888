//! Module resolution and on-disk caches for a script runtime's module loader.
pub mod codec;
pub mod deno_dir;
pub mod fetch;
pub mod hash;
pub mod resolve;
pub mod text;
pub mod url_parts;
