pub mod bib;
pub mod template;
pub mod render;
pub mod index;
pub mod pipeline;
