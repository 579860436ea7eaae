pub mod cluster;
pub mod command;
pub mod config;
pub mod get;
pub mod hello;
pub mod info;
pub mod parse;
pub mod ping;
pub mod quit;
pub mod select;
pub mod set;
