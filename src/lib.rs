//! A wiki lookup command: turns a free-text search phrase into a page path
//! on a fixed wiki, and reads sharing metadata back out of the fetched page.

pub mod text;
pub mod normalize;
pub mod page;
pub mod reply;
