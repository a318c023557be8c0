pub mod accessors;
pub mod aliases;
pub mod config;
pub mod context;
pub mod cpp_type;
pub mod errors;
pub mod instantiate;
pub mod members;
pub mod metadata;
pub mod paths;
pub mod registry;
pub mod resolve;
pub mod strutil;
