pub mod artifacts;
pub mod domain;
pub mod error;
pub mod names;
pub mod order;
pub mod paths;
pub mod provisioning;
pub mod realtime;
pub mod rounding;
pub mod runtime;
pub mod settings;
pub mod text;
pub mod text_map;
