pub mod assets;
pub mod collections;
pub mod front_matter;
pub mod json_value;
pub mod minifier;
pub mod output;
pub mod path_extension;
pub mod pipeline;
pub mod registry;
pub mod render;
pub mod report;
pub mod text;
pub mod tree;
