pub mod handlers;
pub mod json;
pub mod laws;
pub mod model;
pub mod paths;
pub mod request;
pub mod response;
pub mod store;
pub mod table;
pub mod text;
