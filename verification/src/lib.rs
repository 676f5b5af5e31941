pub mod frontmatter;
pub mod post;
pub mod text;
