pub mod backends;
pub mod cli;
pub mod config;
pub mod daemon;
pub mod error;
pub mod html;
pub mod lang;
pub mod pattern;
pub mod state;
pub mod strip;
pub mod table;
pub mod text;
pub mod tokens;
