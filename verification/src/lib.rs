pub mod text;
pub mod paths;
pub mod date;
pub mod number;
pub mod counts;
pub mod library;
pub mod config;
pub mod state;
pub mod cover;
pub mod panels;
pub mod laws;
