//! The messages that a client sends.

use crate::json::{self, Json, JsonView};
use crate::markdown_filter;
use crate::outside;
use crate::types::CDNMedia;
use vstd::prelude::*;

verus! {

/// A message from the bot to a user.
pub open spec fn message(
    user_id: Seq<char>,
    context_token: Seq<char>,
    items: Seq<JsonView>,
    client_id: Seq<char>,
) -> JsonView {
    JsonView::Object(
        seq![
            ("from_user_id"@, JsonView::Text(""@)),
            ("to_user_id"@, JsonView::Text(user_id)),
            ("client_id"@, JsonView::Text(client_id)),
            ("message_type"@, JsonView::Integer(2)),
            ("message_state"@, JsonView::Integer(2)),
            ("context_token"@, JsonView::Text(context_token)),
            ("item_list"@, JsonView::Array(items)),
        ],
    )
}

/// The item of a message that carries text.
pub open spec fn text_item(text: Seq<char>, client_id: Seq<char>) -> JsonView {
    JsonView::Object(
        seq![
            ("type"@, JsonView::Integer(1)),
            ("msg_id"@, JsonView::Text(client_id)),
            ("text_item"@, JsonView::Object(seq![("text"@, JsonView::Text(text))])),
        ],
    )
}

/// An item with an id of its own: the one it has, or `client_id`.
pub open spec fn with_msg_id(item: JsonView, client_id: Seq<char>) -> JsonView {
    match item {
        JsonView::Object(fields) if json::lookup(fields, "msg_id"@) is None => JsonView::Object(
            fields.push(("msg_id"@, JsonView::Text(client_id))),
        ),
        other => other,
    }
}

/// A message that carries text as it is.
pub open spec fn text_message(
    user_id: Seq<char>,
    context_token: Seq<char>,
    text: Seq<char>,
    client_id: Seq<char>,
) -> JsonView {
    message(user_id, context_token, seq![text_item(text, client_id)], client_id)
}

/// A message that carries media.
pub open spec fn media_message(
    user_id: Seq<char>,
    context_token: Seq<char>,
    items: Seq<JsonView>,
    client_id: Seq<char>,
) -> JsonView {
    message(
        user_id,
        context_token,
        items.map_values(|item: JsonView| with_msg_id(item, client_id)),
        client_id,
    )
}

fn build_message(user_id: &str, context_token: &str, items: Vec<Json>, client_id: &str) -> (msg:
    Json)
    ensures
        msg@ == message(user_id@, context_token@, json::item_views(items@), client_id@),
{
    let ghost views = json::item_views(items@);
    let mut fields: Vec<(String, Json)> = Vec::new();
    json::put_text(&mut fields, "from_user_id", "");
    json::put_text(&mut fields, "to_user_id", user_id);
    json::put_text(&mut fields, "client_id", client_id);
    json::put_integer(&mut fields, "message_type", 2);
    json::put_integer(&mut fields, "message_state", 2);
    json::put_text(&mut fields, "context_token", context_token);
    json::put(&mut fields, "item_list", json::array(items));
    assert(json::field_views(fields@) =~= message(
        user_id@,
        context_token@,
        views,
        client_id@,
    )->Object_0);
    json::object(fields)
}

/// A message that carries `text` as it is.
pub fn build_text_message_payload(
    user_id: &str,
    context_token: &str,
    text: &str,
    client_id: &str,
) -> (msg: Json)
    ensures
        msg@ == text_message(user_id@, context_token@, text@, client_id@),
{
    let mut inner: Vec<(String, Json)> = Vec::new();
    json::put_text(&mut inner, "text", text);
    assert(json::field_views(inner@) =~= seq![("text"@, JsonView::Text(text@))]);
    let mut fields: Vec<(String, Json)> = Vec::new();
    json::put_integer(&mut fields, "type", 1);
    json::put_text(&mut fields, "msg_id", client_id);
    json::put(&mut fields, "text_item", json::object(inner));
    assert(json::field_views(fields@) =~= text_item(text@, client_id@)->Object_0);
    let item = json::object(fields);
    let mut items: Vec<Json> = Vec::new();
    items.push(item);
    assert(json::item_views(items@) =~= seq![text_item(text@, client_id@)]);
    build_message(user_id, context_token, items, client_id)
}

/// A message that carries what is left of `text` when Markdown that WeChat does not show is taken
/// out.
pub fn build_text_message_with_client_id(
    user_id: &str,
    context_token: &str,
    text: &str,
    client_id: &str,
) -> (msg: Json)
    requires
        markdown_filter::filtered(text@) is Some,
    ensures
        msg@ == text_message(
            user_id@,
            context_token@,
            markdown_filter::filtered(text@)->0,
            client_id@,
        ),
{
    let text = markdown_filter::filter_markdown(text);
    build_text_message_payload(user_id, context_token, text.as_str(), client_id)
}

/// The same with a random id.
pub fn build_text_message(user_id: &str, context_token: &str, text: &str) -> (msg: Json)
    requires
        markdown_filter::filtered(text@) is Some,
    ensures
        exists|client_id: Seq<char>|
            outside::is_random_uuid(client_id) && msg@ == #[trigger] text_message(
                user_id@,
                context_token@,
                markdown_filter::filtered(text@)->0,
                client_id,
            ),
{
    let client_id = outside::new_client_id();
    build_text_message_with_client_id(user_id, context_token, text, client_id.as_str())
}

/// Gives an item an id, where it has none.
fn add_msg_id(item: Json, client_id: &str) -> (r: Json)
    ensures
        r@ == with_msg_id(item@, client_id@),
{
    proof {
        json::lemma_parts(item);
    }
    match item {
        Json::Object(fields) => {
            let mut fields = fields;
            if json::find_field(&fields, "msg_id").is_none() {
                json::put_text(&mut fields, "msg_id", client_id);
            }
            json::object(fields)
        },
        other => other,
    }
}

/// A message that carries media.
pub fn build_media_message_with_client_id(
    user_id: &str,
    context_token: &str,
    item_list: Vec<Json>,
    client_id: &str,
) -> (msg: Json)
    ensures
        msg@ == media_message(user_id@, context_token@, json::item_views(item_list@), client_id@),
{
    let ghost given = json::item_views(item_list@);
    let ghost wanted = given.map_values(|item: JsonView| with_msg_id(item, client_id@));
    let mut items: Vec<Json> = Vec::new();
    for item in it: item_list
        invariant
            given == json::item_views(it.seq()),
            wanted == given.map_values(|item: JsonView| with_msg_id(item, client_id@)),
            json::item_views(items@) == wanted.take(it.index() as int),
    {
        let ghost before = json::item_views(items@);
        let ghost i = it.index() as int;
        let item = add_msg_id(item, client_id);
        let ghost last = item@;
        items.push(item);
        assert(json::item_views(items@) =~= before.push(last));
        assert(wanted.take(i + 1) =~= wanted.take(i).push(wanted[i]));
    }
    assert(wanted.take(wanted.len() as int) =~= wanted);
    build_message(user_id, context_token, items, client_id)
}

/// The same with a random id.
pub fn build_media_message(user_id: &str, context_token: &str, item_list: Vec<Json>) -> (msg: Json)
    ensures
        exists|client_id: Seq<char>|
            outside::is_random_uuid(client_id) && msg@ == #[trigger] media_message(
                user_id@,
                context_token@,
                json::item_views(item_list@),
                client_id,
            ),
{
    let client_id = outside::new_client_id();
    build_media_message_with_client_id(user_id, context_token, item_list, client_id.as_str())
}

/// A field for a text that is there.
pub open spec fn text_field(key: Seq<char>, value: Option<String>) -> Seq<(Seq<char>, JsonView)> {
    match value {
        Some(value) => seq![(key, JsonView::Text(value@))],
        None => Seq::empty(),
    }
}

/// A field for a number that is there.
pub open spec fn integer_field(key: Seq<char>, value: Option<int>) -> Seq<(Seq<char>, JsonView)> {
    match value {
        Some(value) => seq![(key, JsonView::Integer(value))],
        None => Seq::empty(),
    }
}

/// A reference to a file on the CDN, as it stands in a message: a field for each part that is
/// there.
pub open spec fn cdn_media(media: CDNMedia) -> JsonView {
    JsonView::Object(
        text_field("encrypt_query_param"@, media.encrypt_query_param) + text_field(
            "aes_key"@,
            media.aes_key,
        ) + integer_field(
            "encrypt_type"@,
            match media.encrypt_type {
                Some(n) => Some(n as int),
                None => None,
            },
        ) + text_field("full_url"@, media.full_url),
    )
}

/// Appends a field for a text that is there.
pub fn put_text_field(fields: &mut Vec<(String, Json)>, key: &str, value: &Option<String>)
    ensures
        json::field_views(final(fields)@) == json::field_views(old(fields)@) + text_field(
            key@,
            *value,
        ),
{
    if let Some(value) = value {
        json::put_text(fields, key, value.as_str());
        assert(json::field_views(fields@) =~= json::field_views(old(fields)@) + text_field(
            key@,
            Some(*value),
        ));
    } else {
        assert(json::field_views(fields@) =~= json::field_views(old(fields)@) + text_field(
            key@,
            None,
        ));
    }
}

/// A reference to a file on the CDN, as it stands in a message.
pub fn cdn_media_json(media: &CDNMedia) -> (r: Json)
    ensures
        r@ == cdn_media(*media),
{
    let mut fields: Vec<(String, Json)> = Vec::new();
    put_text_field(&mut fields, "encrypt_query_param", &media.encrypt_query_param);
    put_text_field(&mut fields, "aes_key", &media.aes_key);
    if let Some(n) = media.encrypt_type {
        json::put_integer(&mut fields, "encrypt_type", n as i128);
    }
    put_text_field(&mut fields, "full_url", &media.full_url);
    assert(json::field_views(fields@) =~= cdn_media(*media)->Object_0);
    json::object(fields)
}

} // verus!
