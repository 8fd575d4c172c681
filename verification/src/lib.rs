//! A client of the WeChat iLink protocol: what it sends, how it reads the replies, and how it logs
//! in, polls, paces itself and keeps track of contexts.

pub mod account_operations;
pub mod bot;
pub mod bot_agent;
pub mod bot_agent_laws;
pub mod category;
pub mod chunk;
pub mod chunk_laws;
pub mod client;
pub mod content;
pub mod content_laws;
pub mod contexts;
pub mod decimal;
pub mod delivery;
pub mod error;
pub mod events;
pub mod json;
pub mod json_laws;
pub mod login;
pub mod login_laws;
pub mod markdown_filter;
pub mod markdown_laws;
pub mod markdown_shown;
pub mod markdown_steady;
pub mod markdown_streaming;
pub mod media;
pub mod messages;
pub mod operation_laws;
pub mod outside;
pub mod pacing_laws;
pub mod poll;
pub mod poll_laws;
pub mod protocol;
pub mod protocol_laws;
pub mod rate_limit;
pub mod request_laws;
pub mod request_operations;
pub mod responses;
pub mod retry;
pub mod text;
pub mod text_laws;
pub mod time;
pub mod transfer_laws;
pub mod transfer_operations;
pub mod types;
pub mod upload;
pub mod value_operations;

pub use bot::{WechatIlinkClient, WechatIlinkClientBuilder, WechatRateLimitOptions};
pub use client::{GetUploadUrlParams, ILinkClient};
pub use content::SendContent;
pub use delivery::SendReceipt;
pub use error::{Result, WechatIlinkError};
pub use events::{UserInteractionReason, WechatEvent};
pub use json::Json;
pub use login::LoginQrEvent;
pub use markdown_filter::filter_markdown;
pub use protocol::{build_cdn_upload_url, BaseInfo, ILinkClientOptions};
pub use responses::{
    GetConfigResponse, GetUpdatesResponse, GetUploadUrlResponse, NotifyStartResponse,
    NotifyStopResponse,
};
pub use types::{
    CDNMedia, Credentials, DownloadedMedia, IncomingMessage, UploadResult, WechatContext,
    WireMessage,
};
