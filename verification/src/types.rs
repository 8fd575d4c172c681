//! The data that the service and a client exchange.

use crate::decimal;
use vstd::prelude::*;

verus! {

/// A copy of `s`.
pub fn clone_option(s: &Option<String>) -> (r: Option<String>)
    ensures
        r == *s,
{
    match s {
        Some(s) => Some(s.clone()),
        None => None,
    }
}

/// The text of `s`, where there is one.
pub open spec fn option_view(s: Option<String>) -> Option<Seq<char>> {
    match s {
        Some(s) => Some(s@),
        None => None,
    }
}

/// What a logged-in bot authenticates itself with.
#[derive(Debug)]
pub struct Credentials {
    pub token: String,
    pub base_url: String,
    pub account_id: String,
    pub user_id: String,
    pub saved_at: Option<String>,
}

#[verifier::ext_equal]
pub struct CredentialsView {
    pub token: Seq<char>,
    pub base_url: Seq<char>,
    pub account_id: Seq<char>,
    pub user_id: Seq<char>,
    pub saved_at: Option<Seq<char>>,
}

impl View for Credentials {
    type V = CredentialsView;

    open spec fn view(&self) -> CredentialsView {
        CredentialsView {
            token: self.token@,
            base_url: self.base_url@,
            account_id: self.account_id@,
            user_id: self.user_id@,
            saved_at: option_view(self.saved_at),
        }
    }
}

impl Clone for Credentials {
    fn clone(&self) -> (r: Self)
        ensures
            r == *self,
    {
        Credentials {
            token: self.token.clone(),
            base_url: self.base_url.clone(),
            account_id: self.account_id.clone(),
            user_id: self.user_id.clone(),
            saved_at: clone_option(&self.saved_at),
        }
    }
}

/// What a bot needs to write to a user: the token that came with one of the user's messages.
pub struct WechatContext {
    pub account_key: String,
    pub user_id: String,
    pub context_token: String,
    pub observed_at_unix_ms: i64,
    pub source_message_id: Option<String>,
}

impl Clone for WechatContext {
    fn clone(&self) -> (r: Self)
        ensures
            r == *self,
    {
        WechatContext {
            account_key: self.account_key.clone(),
            user_id: self.user_id.clone(),
            context_token: self.context_token.clone(),
            observed_at_unix_ms: self.observed_at_unix_ms,
            source_message_id: clone_option(&self.source_message_id),
        }
    }
}

/// What a context is written as, without the token: the same for every token.
pub open spec fn redacted_text(
    account_key: Seq<char>,
    user_id: Seq<char>,
    observed_at_unix_ms: int,
    source_message_id: Option<Seq<char>>,
) -> Seq<char> {
    "WechatContext { account_key: \""@ + account_key + "\", user_id: \""@ + user_id
        + "\", context_token: <redacted>, observed_at_unix_ms: "@ + decimal::signed_decimal(
        observed_at_unix_ms,
    ) + ", source_message_id: "@ + match source_message_id {
        Some(id) => "Some(\""@ + id + "\")"@,
        None => "None"@,
    } + " }"@
}

impl WechatContext {
    /// The context as it may be printed: all but the token.
    pub fn redacted(&self) -> (s: String)
        ensures
            s@ == redacted_text(
                self.account_key@,
                self.user_id@,
                self.observed_at_unix_ms as int,
                option_view(self.source_message_id),
            ),
    {
        let source = match &self.source_message_id {
            Some(id) => "Some(\"".to_owned().concat(id.as_str()).concat("\")"),
            None => "None".to_owned(),
        };
        "WechatContext { account_key: \"".to_owned().concat(self.account_key.as_str()).concat(
            "\", user_id: \"",
        ).concat(self.user_id.as_str()).concat(
            "\", context_token: <redacted>, observed_at_unix_ms: ",
        ).concat(decimal::signed_decimal_of(self.observed_at_unix_ms).as_str()).concat(
            ", source_message_id: ",
        ).concat(source.as_str()).concat(" }")
    }
}

/// A reference to a file on the CDN.
#[derive(Debug, Clone)]
pub struct CDNMedia {
    pub encrypt_query_param: Option<String>,
    pub aes_key: Option<String>,
    pub encrypt_type: Option<i32>,
    pub full_url: Option<String>,
}

#[derive(Debug, Clone)]
pub struct ImageContent {
    pub media: Option<CDNMedia>,
    pub aes_key: Option<String>,
}

#[derive(Debug, Clone)]
pub struct FileContent {
    pub media: Option<CDNMedia>,
    pub file_name: Option<String>,
}

#[derive(Debug, Clone)]
pub struct VideoContent {
    pub media: Option<CDNMedia>,
}

#[derive(Debug, Clone)]
pub struct VoiceContent {
    pub media: Option<CDNMedia>,
}

/// The message that another one quotes.
#[derive(Debug, Clone)]
pub struct QuotedMessage {
    pub message_id: Option<String>,
    pub title: Option<String>,
    pub text: Option<String>,
}

/// A message of a user.
#[derive(Clone)]
pub struct IncomingMessage {
    pub user_id: String,
    pub text: String,
    pub message_id: Option<String>,
    pub wire_message_id: Option<i64>,
    pub client_id: String,
    pub quoted: Option<QuotedMessage>,
    pub context: Option<WechatContext>,
    pub images: Vec<ImageContent>,
    pub files: Vec<FileContent>,
    pub videos: Vec<VideoContent>,
    pub voices: Vec<VoiceContent>,
}

/// A message as the service delivers it.
#[derive(Clone)]
pub struct WireMessage {
    pub seq: Option<i64>,
    pub message_id: Option<i64>,
    pub from_user_id: String,
    pub to_user_id: String,
    pub client_id: String,
    pub create_time_ms: i64,
    pub message_type: i32,
    pub message_state: i32,
    pub context_token: String,
    /// The items of the message, in the service's own notation.
    pub item_list: Vec<String>,
}

/// A file that was put on the CDN.
#[derive(Debug, Clone)]
pub struct UploadResult {
    pub media: CDNMedia,
    pub aes_key: Vec<u8>,
    pub encrypted_file_size: usize,
}

/// A file that was taken from the CDN.
#[derive(Debug, Clone)]
pub struct DownloadedMedia {
    pub data: Vec<u8>,
    pub media_type: String,
    pub file_name: Option<String>,
    pub format: Option<String>,
}

} // verus!
