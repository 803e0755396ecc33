pub mod diagnostic;
pub mod dom;
pub mod escape;
pub mod html;
pub mod markdown;
pub mod mdast;
pub mod media;
pub mod notebook;
pub mod text;
pub mod typst_content;
