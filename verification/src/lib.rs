//! A text-template compiler: template source is segmented into literal and
//! code tokens, code fragments are classified by whether they yield a value,
//! and the classified tokens become an ordered rendering plan.

pub mod accumulator;
pub mod attributes;
pub mod choosable;
pub mod classify;
pub mod errors;
pub mod pages;
pub mod parser;
pub mod plan;
pub mod renderable;
pub mod shape;
pub mod syntax;
pub mod template;
pub mod text;

pub use accumulator::TemplateAccumulator;
pub use choosable::Choosable;
pub use errors::Error;
pub use parser::Parser;
pub use renderable::{Children, Renderable, TryRenderable};
pub use template::TemplateData;
