mod cache;
pub mod card_laws;
pub mod card_url;
pub mod chance;
pub mod config;
pub mod config_laws;
pub mod db;
pub mod db_laws;
pub mod error;
pub mod http;
pub mod outside;
pub mod render;
pub mod spotify;
pub mod telegram;
pub mod text;
pub mod text_laws;
