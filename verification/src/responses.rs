//! What the service answers.

use crate::types::{self, WireMessage};
use vstd::prelude::*;

verus! {

/// A QR code to log in with.
#[derive(Debug)]
pub struct QrCodeResponse {
    pub qrcode: String,
    pub qrcode_img_content: String,
}

/// How far a login with a QR code has come.
#[derive(Debug)]
pub struct QrStatusResponse {
    pub status: String,
    pub bot_token: Option<String>,
    pub ilink_bot_id: Option<String>,
    pub ilink_user_id: Option<String>,
    pub baseurl: Option<String>,
    /// The host to ask from now on, where the status is `scaned_but_redirect`.
    pub redirect_host: Option<String>,
}

#[verifier::ext_equal]
pub struct QrStatusView {
    pub status: Seq<char>,
    pub bot_token: Option<Seq<char>>,
    pub ilink_bot_id: Option<Seq<char>>,
    pub ilink_user_id: Option<Seq<char>>,
    pub baseurl: Option<Seq<char>>,
    pub redirect_host: Option<Seq<char>>,
}

impl View for QrStatusResponse {
    type V = QrStatusView;

    open spec fn view(&self) -> QrStatusView {
        QrStatusView {
            status: self.status@,
            bot_token: types::option_view(self.bot_token),
            ilink_bot_id: types::option_view(self.ilink_bot_id),
            ilink_user_id: types::option_view(self.ilink_user_id),
            baseurl: types::option_view(self.baseurl),
            redirect_host: types::option_view(self.redirect_host),
        }
    }
}

/// The messages that have come in since a cursor.
pub struct GetUpdatesResponse {
    pub ret: i32,
    pub msgs: Vec<WireMessage>,
    pub sync_buf: Option<String>,
    pub get_updates_buf: String,
    pub longpolling_timeout_ms: Option<i64>,
    pub errcode: Option<i32>,
    pub errmsg: Option<String>,
}

/// The settings of a conversation.
#[derive(Debug)]
pub struct GetConfigResponse {
    pub ret: Option<i32>,
    pub errmsg: Option<String>,
    pub typing_ticket: Option<String>,
}

/// The answer to the notice that a client starts to poll.
#[derive(Debug)]
pub struct NotifyStartResponse {
    pub ret: Option<i32>,
    pub errmsg: Option<String>,
}

/// The answer to the notice that a client stops polling.
#[derive(Debug)]
pub struct NotifyStopResponse {
    pub ret: Option<i32>,
    pub errmsg: Option<String>,
}

/// Where a file can be put on the CDN.
#[derive(Debug)]
pub struct GetUploadUrlResponse {
    pub upload_param: Option<String>,
    pub thumb_upload_param: Option<String>,
    pub upload_full_url: Option<String>,
}

/// What a poll that ran into its time limit stands for: nothing new since `cursor`.
pub fn empty_updates_response(cursor: &str) -> (r: GetUpdatesResponse)
    ensures
        r.ret == 0,
        r.msgs@.len() == 0,
        r.sync_buf is None,
        r.get_updates_buf@ == cursor@,
        r.longpolling_timeout_ms is None,
        r.errcode is None,
        r.errmsg is None,
{
    GetUpdatesResponse {
        ret: 0,
        msgs: Vec::new(),
        sync_buf: None,
        get_updates_buf: cursor.to_owned(),
        longpolling_timeout_ms: None,
        errcode: None,
        errmsg: None,
    }
}

/// What a status request that ran into its time limit stands for.
pub fn wait_qr_status_response() -> (r: QrStatusResponse)
    ensures
        r@ == (QrStatusView {
            status: "wait"@,
            bot_token: None,
            ilink_bot_id: None,
            ilink_user_id: None,
            baseurl: None,
            redirect_host: None,
        }),
{
    QrStatusResponse {
        status: "wait".to_owned(),
        bot_token: None,
        ilink_bot_id: None,
        ilink_user_id: None,
        baseurl: None,
        redirect_host: None,
    }
}

} // verus!
