pub mod answer;
pub mod digits;
pub mod errors;
pub mod laws;
pub mod pagination;
pub mod question;
pub mod routes;
pub mod store;
