//! The decisions of a local AI companion's HTTP API: what goes into a model
//! request, which replies are actions, how history is kept within a context
//! window, and which requests are refused.
pub mod agent;
pub mod attach;
pub mod boundary;
pub mod calibrate;
pub mod caller;
pub mod chat;
pub mod commands;
pub mod compact;
pub mod context;
pub mod decimal;
pub mod doctor;
pub mod documents;
pub mod error;
pub mod fit;
pub mod gauge;
pub mod history;
pub mod intent;
pub mod knowledge;
pub mod load;
pub mod memory;
pub mod models;
pub mod num;
pub mod offer;
pub mod office;
pub mod prepare;
pub mod prompt;
pub mod reply;
pub mod rounds;
pub mod sessions;
pub mod settings;
pub mod share;
pub mod sse;
pub mod start;
pub mod text;
pub mod toolround;
pub mod toolrun;
pub mod types;
pub mod webp;
pub mod workspace;
