//! The rewrite strategies.

pub mod color;
pub mod combo;
pub mod findnreplace;
pub mod movecard;

pub use color::{ColorConfig, ColorVisitor};
pub use combo::ComboTableVisitor;
pub use findnreplace::{FindReplaceConfig, FindReplaceVisitor};
