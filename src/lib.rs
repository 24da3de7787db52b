//! A verified core for a composable HTTP client: response caching, redirect
//! following, retry with backoff and OAuth2 client-credentials tokens, written
//! as decision functions over plain request and response values.

pub mod bytes;
pub mod base64_codec;
pub mod headers;
pub mod message;
pub mod cache_control;
pub mod cache;
pub mod uri;
pub mod redirect;
pub mod retry;
pub mod oauth2;
pub mod auth;
pub mod multipart;
pub mod error;
pub mod timeout;
pub mod websocket;
pub mod download;
pub mod proxy;
pub mod backend;
