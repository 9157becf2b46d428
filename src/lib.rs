//! Trust establishment for a benchmark-tracking service: the loopback callback
//! that receives a credential from the browser, the login handshake around it,
//! the server-side bearer-credential validator, the request-scoped batch
//! resolver, and the small client-side rules (configuration, CI detection).

pub mod api;
pub mod callback;
pub mod ci;
pub mod commands;
pub mod config;
pub mod decimal;
pub mod handshake;
pub mod loader;
pub mod login;
pub mod model;
pub mod server_config;
pub mod text;
pub mod validator;
