pub mod db;
pub mod error;
pub mod ids;
pub mod models;
pub mod text;
