//! A conversation engine for chat-completion endpoints, with the resolution
//! of the credential and endpoint that it talks to.

pub mod chat;
pub mod errors;
pub mod service_config;
pub mod types;

pub use chat::{Chat, Outbound, Reply};
pub use errors::OpaiError;
pub use service_config::ServiceConfig;
pub use types::{
    ChatConfig, Message, Real, RequestBody, ResponseBody, ResponseChoice, Role, Setting, Usage,
};
