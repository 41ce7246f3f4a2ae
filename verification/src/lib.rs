//! The decisions behind an intake server: what a filed request may become, who
//! may ask for it, and what each of them is answered.

pub mod caller;
pub mod config;
pub mod guarantees;
pub mod i18n;
pub mod json;
pub mod lifecycle;
pub mod request;
pub mod routes;
pub mod screen;
pub mod screen_eval;
pub mod seal;
pub mod serve;
pub mod settings;
pub mod store;
pub mod text;
