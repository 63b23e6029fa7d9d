pub mod calendar;
pub mod channels;
pub mod color;
pub mod config;
pub mod datastream;
pub mod error;
pub mod layout;
pub mod pipeline;
pub mod render;
pub mod stats;
