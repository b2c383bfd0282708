//! egg: a dev environment process manager for Laravel applications, driven
//! by a single `.eggrc.toml` file of supervisor processes and cron jobs.
pub mod cli;
pub mod config;
pub mod cron;
pub mod export;
pub mod process;
pub mod status;
pub mod table;
pub mod text;
