//! A terminal TOTP authenticator: account entries, `otpauth://` URIs, Google
//! Authenticator migration payloads and password-encrypted vault files.
pub mod text;
pub mod url;
pub mod codec;
pub mod totp;
pub mod totp_uri;
pub mod uri;
pub mod vault;
pub mod migration;
pub mod cli;
pub mod run;
pub mod listing;
pub mod secret;
pub mod ui;
pub mod notification;
pub mod screen;
pub mod app;
