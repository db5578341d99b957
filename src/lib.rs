pub mod cli;
pub mod config;
pub mod index;
pub mod post;
pub mod publish;
pub mod text;
