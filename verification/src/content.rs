//! What can be sent, and in which steps.

use crate::category;
use crate::decimal;
use crate::delivery::{self, Outgoing, ReceiptView, SendReceipt};
use crate::json::{self, Json, JsonView};
use crate::messages;
use crate::outside;
use crate::text;
use crate::types::UploadResult;
use vstd::prelude::*;

verus! {

/// What can be sent to a user.
pub enum SendContent {
    Text(String),
    Image { data: Vec<u8>, caption: Option<String> },
    Video { data: Vec<u8>, caption: Option<String> },
    File { data: Vec<u8>, file_name: String, caption: Option<String> },
}

/// One step on the way.
#[derive(Debug)]
pub enum SendStep {
    /// Send this text.
    Text(String),
    /// Put the data on the CDN as media of this type.
    Upload { media_type: i32 },
    /// Send a message that refers to the data on the CDN.
    Item,
}

/// How a message refers to data on the CDN.
#[derive(Debug)]
pub enum ItemKind {
    Image,
    Video,
    File { file_name: String },
}

/// The steps in which content is sent.
#[derive(Debug)]
pub struct SendPlan {
    pub steps: Vec<SendStep>,
    pub data: Vec<u8>,
    pub kind: Option<ItemKind>,
}

#[verifier::ext_equal]
pub enum StepView {
    Text(Seq<char>),
    Upload(int),
    Item,
}

#[verifier::ext_equal]
pub enum KindView {
    Image,
    Video,
    File(Seq<char>),
}

impl View for SendStep {
    type V = StepView;

    open spec fn view(&self) -> StepView {
        match *self {
            SendStep::Text(text) => StepView::Text(text@),
            SendStep::Upload { media_type } => StepView::Upload(media_type as int),
            SendStep::Item => StepView::Item,
        }
    }
}

impl View for ItemKind {
    type V = KindView;

    open spec fn view(&self) -> KindView {
        match *self {
            ItemKind::Image => KindView::Image,
            ItemKind::Video => KindView::Video,
            ItemKind::File { file_name } => KindView::File(file_name@),
        }
    }
}

pub open spec fn kind_view(kind: Option<ItemKind>) -> Option<KindView> {
    match kind {
        Some(kind) => Some(kind@),
        None => None,
    }
}

pub open spec fn step_views(steps: Seq<SendStep>) -> Seq<StepView> {
    steps.map_values(|s: SendStep| s@)
}

/// The step that sends a caption, where there is one.
pub open spec fn caption_step(caption: Option<String>) -> Seq<StepView> {
    match caption {
        Some(caption) => seq![StepView::Text(caption@)],
        None => Seq::empty(),
    }
}

/// An image or a video is put on the CDN first, then its caption is sent, and then the message
/// that refers to it.
pub open spec fn picture_steps(media_type: int, caption: Option<String>) -> Seq<StepView> {
    seq![StepView::Upload(media_type)] + caption_step(caption) + seq![StepView::Item]
}

/// Of another file the caption is sent first.
pub open spec fn file_steps(caption: Option<String>) -> Seq<StepView> {
    caption_step(caption) + seq![StepView::Upload(3), StepView::Item]
}

/// The steps in which content is sent. A file that is an image or a video by its name is sent as
/// one.
pub open spec fn plan_steps(content: SendContent) -> Seq<StepView> {
    match content {
        SendContent::Text(text) => seq![StepView::Text(text@)],
        SendContent::Image { data, caption } => picture_steps(1, caption),
        SendContent::Video { data, caption } => picture_steps(2, caption),
        SendContent::File { data, file_name, caption } => {
            if category::category(file_name@) == "image"@ {
                picture_steps(1, caption)
            } else if category::category(file_name@) == "video"@ {
                picture_steps(2, caption)
            } else {
                file_steps(caption)
            }
        },
    }
}

/// What a message says that the data is.
pub open spec fn plan_kind(content: SendContent) -> Option<KindView> {
    match content {
        SendContent::Text(_) => None,
        SendContent::Image { .. } => Some(KindView::Image),
        SendContent::Video { .. } => Some(KindView::Video),
        SendContent::File { file_name, .. } => {
            if category::category(file_name@) == "image"@ {
                Some(KindView::Image)
            } else if category::category(file_name@) == "video"@ {
                Some(KindView::Video)
            } else {
                Some(KindView::File(file_name@))
            }
        },
    }
}

/// The data that is put on the CDN.
pub open spec fn plan_data(content: SendContent) -> Seq<u8> {
    match content {
        SendContent::Text(_) => Seq::empty(),
        SendContent::Image { data, .. } => data@,
        SendContent::Video { data, .. } => data@,
        SendContent::File { data, .. } => data@,
    }
}

/// The item of a message that refers to data on the CDN.
pub open spec fn media_item(kind: KindView, upload: UploadResult, data_len: nat) -> JsonView {
    let media = messages::cdn_media(upload.media);
    let size = JsonView::Integer(upload.encrypted_file_size as int);
    match kind {
        KindView::Image => JsonView::Object(
            seq![
                ("type"@, JsonView::Integer(2)),
                ("image_item"@, JsonView::Object(seq![("media"@, media), ("mid_size"@, size)])),
            ],
        ),
        KindView::Video => JsonView::Object(
            seq![
                ("type"@, JsonView::Integer(5)),
                ("video_item"@, JsonView::Object(seq![("media"@, media), ("video_size"@, size)])),
            ],
        ),
        KindView::File(file_name) => JsonView::Object(
            seq![
                ("type"@, JsonView::Integer(4)),
                (
                    "file_item"@,
                    JsonView::Object(
                        seq![
                            ("media"@, media),
                            ("file_name"@, JsonView::Text(file_name)),
                            ("len"@, JsonView::Text(decimal::decimal(data_len))),
                        ],
                    ),
                ),
            ],
        ),
    }
}

fn push_step(steps: &mut Vec<SendStep>, step: SendStep)
    ensures
        step_views(final(steps)@) == step_views(old(steps)@).push(step@),
{
    steps.push(step);
    assert(step_views(steps@) =~= step_views(old(steps)@).push(step@));
}

fn push_caption(steps: &mut Vec<SendStep>, caption: Option<String>)
    ensures
        step_views(final(steps)@) == step_views(old(steps)@) + caption_step(caption),
{
    match caption {
        Some(caption) => {
            push_step(steps, SendStep::Text(caption));
            assert(step_views(steps@) =~= step_views(old(steps)@) + seq![
                StepView::Text(caption@),
            ]);
        },
        None => {
            assert(step_views(steps@) =~= step_views(old(steps)@) + Seq::<StepView>::empty());
        },
    }
}

fn plan_picture(data: Vec<u8>, caption: Option<String>, media_type: i32, kind: ItemKind) -> (plan:
    SendPlan)
    ensures
        step_views(plan.steps@) == picture_steps(media_type as int, caption),
        plan.data == data,
        plan.kind == Some(kind),
{
    let mut steps: Vec<SendStep> = Vec::new();
    push_step(&mut steps, SendStep::Upload { media_type });
    assert(step_views(steps@) =~= seq![StepView::Upload(media_type as int)]);
    push_caption(&mut steps, caption);
    push_step(&mut steps, SendStep::Item);
    assert(step_views(steps@) =~= picture_steps(media_type as int, caption));
    SendPlan { steps, data, kind: Some(kind) }
}

impl SendPlan {
    /// The steps in which `content` is sent.
    pub fn new(content: SendContent) -> (plan: SendPlan)
        ensures
            step_views(plan.steps@) == plan_steps(content),
            plan.data@ == plan_data(content),
            kind_view(plan.kind) == plan_kind(content),
    {
        match content {
            SendContent::Text(text) => {
                let mut steps: Vec<SendStep> = Vec::new();
                push_step(&mut steps, SendStep::Text(text));
                assert(step_views(steps@) =~= seq![StepView::Text(text@)]);
                SendPlan { steps, data: Vec::new(), kind: None }
            },
            SendContent::Image { data, caption } => plan_picture(
                data,
                caption,
                1,
                ItemKind::Image,
            ),
            SendContent::Video { data, caption } => plan_picture(
                data,
                caption,
                2,
                ItemKind::Video,
            ),
            SendContent::File { data, file_name, caption } => {
                let category = category::categorize_by_extension(file_name.as_str()).to_owned();
                if text::is(&category, "image") {
                    plan_picture(data, caption, 1, ItemKind::Image)
                } else if text::is(&category, "video") {
                    plan_picture(data, caption, 2, ItemKind::Video)
                } else {
                    let mut steps: Vec<SendStep> = Vec::new();
                    push_caption(&mut steps, caption);
                    push_step(&mut steps, SendStep::Upload { media_type: 3 });
                    push_step(&mut steps, SendStep::Item);
                    assert(step_views(steps@) =~= file_steps(caption));
                    SendPlan { steps, data, kind: Some(ItemKind::File { file_name }) }
                }
            },
        }
    }
}

/// The item of a message that refers to data on the CDN.
pub fn media_item_json(kind: &ItemKind, upload: &UploadResult, data_len: usize) -> (item: Json)
    ensures
        item@ == media_item(kind@, *upload, data_len as nat),
{
    let mut inner: Vec<(String, Json)> = Vec::new();
    let mut fields: Vec<(String, Json)> = Vec::new();
    json::put(&mut inner, "media", messages::cdn_media_json(&upload.media));
    let size = upload.encrypted_file_size as i128;
    match kind {
        ItemKind::Image => {
            json::put_integer(&mut inner, "mid_size", size);
            assert(json::field_views(inner@) =~= seq![
                ("media"@, messages::cdn_media(upload.media)),
                ("mid_size"@, JsonView::Integer(size as int)),
            ]);
            json::put_integer(&mut fields, "type", 2);
            json::put(&mut fields, "image_item", json::object(inner));
        },
        ItemKind::Video => {
            json::put_integer(&mut inner, "video_size", size);
            assert(json::field_views(inner@) =~= seq![
                ("media"@, messages::cdn_media(upload.media)),
                ("video_size"@, JsonView::Integer(size as int)),
            ]);
            json::put_integer(&mut fields, "type", 5);
            json::put(&mut fields, "video_item", json::object(inner));
        },
        ItemKind::File { file_name } => {
            json::put_text(&mut inner, "file_name", file_name.as_str());
            json::put_text(&mut inner, "len", decimal::decimal_of(data_len as u128).as_str());
            assert(json::field_views(inner@) =~= seq![
                ("media"@, messages::cdn_media(upload.media)),
                ("file_name"@, JsonView::Text(file_name@)),
                ("len"@, JsonView::Text(decimal::decimal(data_len as nat))),
            ]);
            json::put_integer(&mut fields, "type", 4);
            json::put(&mut fields, "file_item", json::object(inner));
        },
    }
    assert(json::field_views(fields@) =~= media_item(
        kind@,
        *upload,
        data_len as nat,
    )->Object_0);
    json::object(fields)
}

/// The message that refers to data on the CDN, under the id `client_id`.
pub fn media_item_message_with_client_id(
    user_id: &str,
    context_token: &str,
    item: Json,
    client_id: &str,
) -> (msg: Json)
    ensures
        msg@ == messages::media_message(user_id@, context_token@, seq![item@], client_id@),
{
    let mut items: Vec<Json> = Vec::new();
    items.push(item);
    assert(json::item_views(items@) =~= seq![item@]);
    messages::build_media_message_with_client_id(user_id, context_token, items, client_id)
}

/// The message that refers to data on the CDN, under a random id.
pub fn media_item_message(user_id: &str, context_token: &str, item: Json) -> (r: Outgoing)
    ensures
        outside::is_random_uuid(r.client_id@),
        r.message@ == messages::media_message(
            user_id@,
            context_token@,
            seq![item@],
            r.client_id@,
        ),
{
    let client_id = outside::new_client_id();
    let message = media_item_message_with_client_id(
        user_id,
        context_token,
        item,
        client_id.as_str(),
    );
    Outgoing { client_id, message }
}

pub open spec fn is_upload(step: StepView) -> bool {
    step is Upload
}

/// Data is on the CDN before a message refers to it, and both happen once; only text needs
/// neither.
pub proof fn law_upload_comes_first(content: SendContent)
    ensures
        ({
            let steps = plan_steps(content);
            if content is Text {
                &&& steps.len() == 1
                &&& steps[0] is Text
            } else {
                &&& steps.len() >= 2
                &&& steps.last() is Item
                &&& exists|i: int| 0 <= i < steps.len() - 1 && is_upload(#[trigger] steps[i])
                &&& forall|i: int, j: int|
                    0 <= i < steps.len() && 0 <= j < steps.len() && is_upload(
                        #[trigger] steps[i],
                    ) && is_upload(#[trigger] steps[j]) ==> i == j
                &&& forall|i: int|
                    0 <= i < steps.len() - 1 ==> !((#[trigger] steps[i]) is Item)
            }
        }),
{
    let steps = plan_steps(content);
    if !(content is Text) {
        if is_upload(steps[0]) {
            assert(is_upload(steps[0]));
        } else {
            assert(is_upload(steps[1]));
        }
    }
}

/// Content on its way to a user.
pub struct ContentDelivery {
    pub plan: SendPlan,
    /// How many steps have been taken.
    pub taken: usize,
    /// The data on the CDN.
    pub upload: Option<UploadResult>,
    pub receipt: SendReceipt,
}

/// What is to be done next.
pub enum ContentAction<'a> {
    /// Send this text.
    SendText(&'a str),
    /// Put this data on the CDN as media of this type.
    Upload { media_type: i32, data: &'a Vec<u8> },
    /// Send a message with this item.
    SendItem(Json),
    /// Nothing: everything was sent.
    Done,
}

impl ContentDelivery {
    pub open spec fn steps(self) -> Seq<StepView> {
        step_views(self.plan.steps@)
    }

    /// Whether a message that is still to be sent can refer to its data by then.
    pub open spec fn valid(self) -> bool {
        &&& self.taken <= self.plan.steps@.len()
        &&& forall|i: int|
            self.taken <= i < self.steps().len() && (#[trigger] self.steps()[i]) is Item ==> {
                &&& self.plan.kind is Some
                &&& self.upload is Some || exists|j: int|
                    self.taken <= j < i && is_upload(#[trigger] self.steps()[j])
            }
    }

    /// The step that is to be taken.
    pub open spec fn next_step(self) -> Option<StepView> {
        if self.taken < self.steps().len() {
            Some(self.steps()[self.taken as int])
        } else {
            None
        }
    }

    /// Starts to send `content`.
    pub fn new(content: SendContent) -> (r: ContentDelivery)
        ensures
            r.valid(),
            r.steps() == plan_steps(content),
            r.plan.data@ == plan_data(content),
            kind_view(r.plan.kind) == plan_kind(content),
            r.taken == 0,
            r.upload is None,
            r.receipt@ == delivery::empty_receipt(),
    {
        proof {
            law_upload_comes_first(content);
        }
        let plan = SendPlan::new(content);
        let r = ContentDelivery { plan, taken: 0, upload: None, receipt: SendReceipt::empty() };
        assert(r.valid()) by {
            let steps = r.steps();
            assert forall|i: int| 0 <= i < steps.len() && (#[trigger] steps[i]) is Item implies {
                &&& r.plan.kind is Some
                &&& exists|j: int| 0 <= j < i && is_upload(#[trigger] steps[j])
            } by {
                assert(i == steps.len() - 1);
            }
        }
        r
    }

    /// What is to be done next.
    pub fn next(&self) -> (action: ContentAction)
        requires
            self.valid(),
        ensures
            match (action, self.next_step()) {
                (ContentAction::SendText(text), Some(StepView::Text(wanted))) => text@ == wanted,
                (
                    ContentAction::Upload { media_type, data },
                    Some(StepView::Upload(wanted)),
                ) => media_type == wanted && *data == self.plan.data,
                (ContentAction::SendItem(item), Some(StepView::Item)) => self.plan.kind is Some
                    && self.upload is Some && item@ == media_item(
                    self.plan.kind->0@,
                    self.upload->0,
                    self.plan.data@.len(),
                ),
                (ContentAction::Done, None) => true,
                _ => false,
            },
    {
        if self.taken >= self.plan.steps.len() {
            return ContentAction::Done;
        }
        assert(self.steps()[self.taken as int] == self.plan.steps@[self.taken as int]@);
        match &self.plan.steps[self.taken] {
            SendStep::Text(text) => ContentAction::SendText(text.as_str()),
            SendStep::Upload { media_type } => ContentAction::Upload {
                media_type: *media_type,
                data: &self.plan.data,
            },
            SendStep::Item => {
                match (&self.plan.kind, &self.upload) {
                    (Some(kind), Some(upload)) => ContentAction::SendItem(
                        media_item_json(kind, upload, self.plan.data.len()),
                    ),
                    _ => {
                        assert(false);
                        ContentAction::Done
                    },
                }
            },
        }
    }

    /// Notes that the text was sent.
    pub fn on_text_sent(&mut self, receipt: SendReceipt)
        requires
            old(self).valid(),
            old(self).next_step() matches Some(step) && step is Text,
        ensures
            final(self).valid(),
            *final(self) == (ContentDelivery {
                taken: final(self).taken,
                receipt: final(self).receipt,
                ..*old(self)
            }),
            final(self).taken == old(self).taken + 1,
            final(self).receipt@ == delivery::joined(old(self).receipt@, receipt@),
    {
        self.receipt.append(receipt);
        assert(self.taken < self.plan.steps.len());
        self.taken += 1;
    }

    /// Notes that the data is on the CDN.
    pub fn on_uploaded(&mut self, upload: UploadResult)
        requires
            old(self).valid(),
            old(self).next_step() matches Some(step) && step is Upload,
        ensures
            final(self).valid(),
            *final(self) == (ContentDelivery {
                taken: final(self).taken,
                upload: Some(upload),
                ..*old(self)
            }),
            final(self).taken == old(self).taken + 1,
    {
        self.upload = Some(upload);
        assert(self.taken < self.plan.steps.len());
        self.taken += 1;
    }

    /// Notes that the message with the item was sent, under the id `client_id`.
    pub fn on_item_sent(&mut self, client_id: String)
        requires
            old(self).valid(),
            old(self).next_step() matches Some(step) && step is Item,
        ensures
            final(self).valid(),
            *final(self) == (ContentDelivery {
                taken: final(self).taken,
                receipt: final(self).receipt,
                ..*old(self)
            }),
            final(self).taken == old(self).taken + 1,
            final(self).receipt@ == delivery::joined(
                old(self).receipt@,
                ReceiptView { message_ids: seq![client_id@], visible_texts: Seq::empty() },
            ),
    {
        self.receipt.append(SendReceipt::single(client_id));
        assert(self.taken < self.plan.steps.len());
        self.taken += 1;
    }
}

} // verus!
