use wechat_ilink::content::{
    media_item_json, media_item_message_with_client_id, ContentAction, ContentDelivery, ItemKind,
};
use wechat_ilink::delivery::TextDelivery;
use wechat_ilink::media::{select_download, MediaKind};
use wechat_ilink::types::{
    FileContent, ImageContent, VideoContent, VoiceContent,
};
use wechat_ilink::upload::{
    upload_params, upload_params_with_filekey, uploaded, CdnReply, CdnUpload, EncryptedFile,
};
use wechat_ilink::{
    CDNMedia, Credentials, IncomingMessage, Json, SendContent, SendReceipt, UploadResult,
    WechatIlinkClient, WechatIlinkError,
};

fn client() -> WechatIlinkClient {
    WechatIlinkClient::builder()
        .credentials(Credentials {
            token: "token-1".into(),
            base_url: "https://example.invalid".into(),
            account_id: "account-1".into(),
            user_id: "bot-1".into(),
            saved_at: None,
        })
        .build()
}

fn media(key: Option<&str>) -> CDNMedia {
    CDNMedia {
        encrypt_query_param: Some("param".to_string()),
        aes_key: key.map(str::to_string),
        encrypt_type: Some(1),
        full_url: None,
    }
}

fn upload_result() -> UploadResult {
    UploadResult {
        media: media(Some("key")),
        aes_key: vec![1, 2],
        encrypted_file_size: 48,
    }
}

#[test]
fn receipts_add_up() {
    let mut receipt = SendReceipt::empty();
    assert_eq!(receipt.last_message_id(), None);
    receipt.append(SendReceipt {
        message_ids: vec!["a".to_string()],
        visible_texts: vec!["hello".to_string()],
    });
    receipt.append(SendReceipt::single("b".to_string()));
    assert_eq!(receipt.message_ids, vec!["a", "b"]);
    assert_eq!(receipt.visible_texts, vec!["hello"]);
    assert_eq!(receipt.last_message_id(), Some("b"));
}

#[test]
fn text_is_sent_in_pieces() {
    let client = client();
    let text = "word ".repeat(1000);
    let mut delivery = TextDelivery::new(&client, "user-1", &text, "ctx-1").unwrap();
    assert_eq!(delivery.base_url, "https://example.invalid");
    assert_eq!(delivery.token, "token-1");
    let mut sent = 0;
    while let Some(outgoing) = delivery.next_message(&client.client) {
        let piece = outgoing
            .message
            .get("item_list")
            .and_then(|items| items.item(0))
            .and_then(|item| item.get("text_item"))
            .and_then(|item| item.get("text"))
            .and_then(|text| text.as_str().map(str::to_string))
            .unwrap();
        assert!(piece.len() <= 4000);
        assert_eq!(
            outgoing.message.get("client_id").unwrap().as_str(),
            Some(outgoing.client_id.as_str())
        );
        assert_eq!(
            outgoing.message.get("to_user_id").unwrap().as_str(),
            Some("user-1")
        );
        delivery.on_sent(outgoing.client_id);
        sent += 1;
    }
    assert_eq!(sent, 2);
    assert_eq!(delivery.receipt.message_ids.len(), 2);
    assert_eq!(delivery.receipt.visible_texts.concat(), text);
}

#[test]
fn empty_text_is_one_message() {
    let client = client();
    let mut delivery = TextDelivery::new(&client, "u", "", "c").unwrap();
    let message = delivery.message_with_client_id(&client.client, "id-1").unwrap();
    assert_eq!(message.get("client_id").unwrap().as_str(), Some("id-1"));
    delivery.on_sent("id-1".to_string());
    assert!(delivery.message_with_client_id(&client.client, "id-2").is_none());
    assert_eq!(delivery.receipt.visible_texts, vec![""]);
}

#[test]
fn explicit_context_send_apis_reach_auth() {
    let client = WechatIlinkClient::new();
    assert!(matches!(
        TextDelivery::new(&client, "user-1", "hello", "ctx-1"),
        Err(WechatIlinkError::Auth(_))
    ));

    let mut media = ContentDelivery::new(SendContent::Text("hello".to_string()));
    let text = match media.next() {
        ContentAction::SendText(text) => text,
        _ => panic!("text is sent as text"),
    };
    assert_eq!(text, "hello");
    assert!(matches!(
        TextDelivery::new(&client, "user-1", &text, "ctx-1"),
        Err(WechatIlinkError::Auth(_))
    ));

    assert!(matches!(client.get_auth(), Err(WechatIlinkError::Auth(_))));
}

fn run(content: SendContent) -> (Vec<String>, SendReceipt) {
    let mut delivery = ContentDelivery::new(content);
    let mut log = Vec::new();
    loop {
        let step = match delivery.next() {
            ContentAction::SendText(text) => format!("text:{text}"),
            ContentAction::Upload { media_type, data } => {
                format!("upload:{media_type}:{}", data.len())
            }
            ContentAction::SendItem(item) => match item.get("type") {
                Some(Json::Integer(kind)) => format!("item:{kind}"),
                _ => panic!("an item has a type"),
            },
            ContentAction::Done => break,
        };
        if step.starts_with("text") {
            delivery.on_text_sent(SendReceipt {
                message_ids: vec!["text-id".to_string()],
                visible_texts: vec![step[5..].to_string()],
            });
        } else if step.starts_with("upload") {
            delivery.on_uploaded(upload_result());
        } else {
            delivery.on_item_sent("item-id".to_string());
        }
        log.push(step);
    }
    (log, delivery.receipt)
}

#[test]
fn pictures_are_uploaded_before_their_caption() {
    let (log, receipt) = run(SendContent::Image {
        data: vec![0; 5],
        caption: Some("look".to_string()),
    });
    assert_eq!(log, vec!["upload:1:5", "text:look", "item:2"]);
    assert_eq!(receipt.message_ids, vec!["text-id", "item-id"]);
    assert_eq!(receipt.visible_texts, vec!["look"]);
    let (log, receipt) = run(SendContent::Video {
        data: vec![0; 6],
        caption: None,
    });
    assert_eq!(log, vec!["upload:2:6", "item:5"]);
    assert_eq!(receipt.message_ids, vec!["item-id"]);
}

#[test]
fn files_are_sent_by_their_kind() {
    let file = |name: &str, caption: Option<&str>| SendContent::File {
        data: vec![0; 7],
        file_name: name.to_string(),
        caption: caption.map(str::to_string),
    };
    assert_eq!(
        run(file("a.pdf", Some("read"))).0,
        vec!["text:read", "upload:3:7", "item:4"]
    );
    assert_eq!(run(file("a.pdf", None)).0, vec!["upload:3:7", "item:4"]);
    assert_eq!(
        run(file("a.PNG", Some("see"))).0,
        vec!["upload:1:7", "text:see", "item:2"]
    );
    assert_eq!(run(file("a.mov", None)).0, vec!["upload:2:7", "item:5"]);
    assert_eq!(
        run(SendContent::Text("hi".to_string())).0,
        vec!["text:hi"]
    );
}

#[test]
fn media_items_refer_to_their_data() {
    let item = media_item_json(&ItemKind::Image, &upload_result(), 30);
    let inner = item.get("image_item").unwrap();
    assert_eq!(inner.get("mid_size"), Some(&Json::Integer(48)));
    assert_eq!(
        inner.get("media").unwrap().get("encrypt_query_param").unwrap().as_str(),
        Some("param")
    );
    let item = media_item_json(&ItemKind::Video, &upload_result(), 30);
    assert_eq!(
        item.get("video_item").unwrap().get("video_size"),
        Some(&Json::Integer(48))
    );
    let kind = ItemKind::File {
        file_name: "a.txt".to_string(),
    };
    let item = media_item_json(&kind, &upload_result(), 30);
    let inner = item.get("file_item").unwrap();
    assert_eq!(inner.get("file_name").unwrap().as_str(), Some("a.txt"));
    assert_eq!(inner.get("len").unwrap().as_str(), Some("30"));

    let message = media_item_message_with_client_id("u", "c", item, "id");
    let sent = message.get("item_list").unwrap().item(0).unwrap();
    assert_eq!(sent.get("msg_id").unwrap().as_str(), Some("id"));
    assert_eq!(sent.get("type"), Some(&Json::Integer(4)));
}

fn encrypted() -> EncryptedFile {
    EncryptedFile {
        aes_key: vec![9; 16],
        aes_key_hex: "hex-key".to_string(),
        aes_key_base64: "base64-key".to_string(),
        ciphertext: vec![0; 32],
    }
}

#[test]
fn upload_params_describe_the_file() {
    let params = upload_params_with_filekey(
        &b"hello".to_vec(),
        &encrypted(),
        "user-1",
        3,
        &vec![0x00, 0x0f, 0xa5],
    );
    assert_eq!(params.filekey, "000fa5");
    assert_eq!(params.media_type, 3);
    assert_eq!(params.to_user_id, "user-1");
    assert_eq!(params.rawsize, 5);
    assert_eq!(params.rawfilemd5, "5d41402abc4b2a76b9719d911017c592");
    assert_eq!(params.filesize, 32);
    assert_eq!(params.thumb_rawsize, None);
    assert!(params.no_need_thumb);
    assert_eq!(params.aeskey, "hex-key");

    let a = upload_params(&vec![], &encrypted(), "u", 1);
    let b = upload_params(&vec![], &encrypted(), "u", 1);
    assert_eq!(a.filekey.len(), 32);
    assert_ne!(a.filekey, b.filekey);
    assert_eq!(a.rawfilemd5, "d41d8cd98f00b204e9800998ecf8427e");
}

#[test]
fn uploaded_files_can_be_found() {
    let result = uploaded(encrypted(), "found".to_string());
    assert_eq!(result.media.encrypt_query_param.as_deref(), Some("found"));
    assert_eq!(result.media.aes_key.as_deref(), Some("base64-key"));
    assert_eq!(result.media.encrypt_type, Some(1));
    assert_eq!(result.media.full_url, None);
    assert_eq!(result.aes_key, vec![9; 16]);
    assert_eq!(result.encrypted_file_size, 32);
}

fn response(status: u16, error: Option<&str>, param: Option<&str>) -> CdnReply {
    CdnReply::Response {
        status,
        error_message: error.map(str::to_string),
        encrypted_param: param.map(str::to_string),
    }
}

fn media_error(end: Option<Result<String, WechatIlinkError>>) -> String {
    match end {
        Some(Err(WechatIlinkError::Media(message))) => message,
        _ => panic!("expected a media error"),
    }
}

#[test]
fn uploads_are_tried_three_times() {
    let mut upload = CdnUpload::new();
    assert!(upload.on_reply(response(500, None, None)).is_none());
    assert!(upload
        .on_reply(CdnReply::NetworkError("down".to_string()))
        .is_none());
    assert_eq!(
        media_error(upload.on_reply(response(503, Some("busy"), None))),
        "CDN upload server error 503: busy"
    );
    assert_eq!(upload.attempts, 3);

    let mut upload = CdnUpload { attempts: 2 };
    match upload.on_reply(CdnReply::NetworkError("down".to_string())) {
        Some(Err(WechatIlinkError::Other(message))) => {
            assert_eq!(message, "CDN upload network error: down");
        }
        _ => panic!("expected a network error"),
    }
    let mut upload = CdnUpload { attempts: 2 };
    assert_eq!(
        media_error(upload.on_reply(response(200, None, None))),
        "CDN upload response missing x-encrypted-param header"
    );
    let mut upload = CdnUpload { attempts: 2 };
    assert_eq!(
        media_error(upload.on_reply(response(301, None, None))),
        "CDN upload server error 301: server error"
    );
}

#[test]
fn client_errors_end_an_upload() {
    let mut upload = CdnUpload::new();
    assert_eq!(
        media_error(upload.on_reply(response(404, None, Some("p")))),
        "CDN upload client error 404: client error"
    );
    let mut upload = CdnUpload::new();
    assert_eq!(
        media_error(upload.on_reply(response(499, Some("no"), None))),
        "CDN upload client error 499: no"
    );
}

#[test]
fn a_second_attempt_can_succeed() {
    let mut upload = CdnUpload::new();
    assert!(upload.on_reply(response(200, None, None)).is_none());
    match upload.on_reply(response(200, None, Some("param"))) {
        Some(Ok(param)) => assert_eq!(param, "param"),
        _ => panic!("expected success"),
    }
}

fn incoming() -> IncomingMessage {
    IncomingMessage {
        user_id: "user-1".to_string(),
        text: String::new(),
        message_id: None,
        wire_message_id: None,
        client_id: "client-1".to_string(),
        quoted: None,
        context: None,
        images: Vec::new(),
        files: Vec::new(),
        videos: Vec::new(),
        voices: Vec::new(),
    }
}

#[test]
fn downloads_prefer_images() {
    let mut msg = incoming();
    assert!(matches!(select_download(&msg), Ok(None)));
    msg.voices.push(VoiceContent { media: Some(media(Some("k"))) });
    let task = select_download(&msg).ok().unwrap().unwrap();
    let done = task.finish(vec![1]);
    assert_eq!(done.media_type, "voice");
    assert_eq!(done.format.as_deref(), Some("silk"));
    assert_eq!(done.data, vec![1]);

    msg.videos.push(VideoContent { media: Some(media(Some("k"))) });
    let task = select_download(&msg).ok().unwrap().unwrap();
    assert_eq!(task.kind, MediaKind::Video);

    msg.files.push(FileContent { media: Some(media(Some("k"))), file_name: None });
    let task = select_download(&msg).ok().unwrap().unwrap();
    assert!(task.aes_key.is_none());
    let done = task.finish(vec![]);
    assert_eq!(done.media_type, "file");
    assert_eq!(done.file_name.as_deref(), Some("file.bin"));
    assert_eq!(done.format, None);

    msg.images.push(ImageContent { media: None, aes_key: None });
    assert_eq!(
        select_download(&msg).ok().unwrap().unwrap().kind,
        MediaKind::File
    );
    msg.images[0] = ImageContent {
        media: Some(media(None)),
        aes_key: Some("own".to_string()),
    };
    let task = select_download(&msg).ok().unwrap().unwrap();
    assert_eq!(task.kind, MediaKind::Image);
    assert_eq!(task.aes_key, Some("own"));
    assert_eq!(task.finish(vec![]).file_name, None);
}

#[test]
fn downloads_need_a_key() {
    let mut msg = incoming();
    msg.files.push(FileContent {
        media: Some(media(Some(""))),
        file_name: Some("a.txt".to_string()),
    });
    match select_download(&msg) {
        Err(WechatIlinkError::Media(message)) => {
            assert_eq!(message, "file CDN media missing AES key");
        }
        _ => panic!("expected a missing key"),
    }
}
