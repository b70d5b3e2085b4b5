//! A serving-side gateway between chat clients and a language-model backend:
//! a content-addressed response cache, a first-in first-out admission queue
//! and a relay that turns answers into streams of chunks.
pub mod config;
pub mod models;
pub mod text;
pub mod services;
pub mod handlers;
