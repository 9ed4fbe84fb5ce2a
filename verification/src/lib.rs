pub mod text;
pub mod url_validator;
pub mod config;
pub mod commands;
pub mod exit_codes;
pub mod error;
pub mod markdown;
pub mod mode;
pub mod input;
pub mod output;
pub mod update;
pub mod ollama_service;
pub mod backend;
pub mod non_interactive;
pub mod session;
