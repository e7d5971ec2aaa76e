pub mod assistant;
pub mod error;
pub mod http;
pub mod news;
pub mod resources;
pub mod responses;
pub mod search;
pub mod stream;
pub mod summarize;
pub mod text;
pub mod translate;
