pub mod pagination;
pub mod response;
pub mod text;
