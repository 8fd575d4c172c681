//! Sending text and media.

use crate::bot::WechatIlinkClient;
use crate::chunk;
use crate::client::{self, ILinkClient};
use crate::error::{ErrorView, Result};
use crate::json::Json;
use crate::markdown_filter;
use crate::messages;
use crate::outside;
use crate::text;
use vstd::prelude::*;

verus! {

/// How many bytes of text one message carries.
pub const MAX_TEXT_BYTES: usize = 4000;

/// What was sent: the ids of the messages, and the texts among them.
#[derive(Debug, Clone, PartialEq, Eq)]
pub struct SendReceipt {
    pub message_ids: Vec<String>,
    pub visible_texts: Vec<String>,
}

#[verifier::ext_equal]
pub struct ReceiptView {
    pub message_ids: Seq<Seq<char>>,
    pub visible_texts: Seq<Seq<char>>,
}

impl View for SendReceipt {
    type V = ReceiptView;

    open spec fn view(&self) -> ReceiptView {
        ReceiptView {
            message_ids: text::string_views(self.message_ids@),
            visible_texts: text::string_views(self.visible_texts@),
        }
    }
}

pub open spec fn empty_receipt() -> ReceiptView {
    ReceiptView { message_ids: Seq::empty(), visible_texts: Seq::empty() }
}

/// One receipt after another.
pub open spec fn joined(a: ReceiptView, b: ReceiptView) -> ReceiptView {
    ReceiptView {
        message_ids: a.message_ids + b.message_ids,
        visible_texts: a.visible_texts + b.visible_texts,
    }
}

impl SendReceipt {
    /// The id of the message that was sent last.
    pub fn last_message_id(&self) -> (id: Option<&str>)
        ensures
            match id {
                Some(id) => self@.message_ids.len() > 0 && id@ == self@.message_ids.last(),
                None => self@.message_ids.len() == 0,
            },
    {
        if self.message_ids.len() > 0 {
            Some(self.message_ids[self.message_ids.len() - 1].as_str())
        } else {
            None
        }
    }

    /// The receipt of one message without text.
    pub fn single(message_id: String) -> (receipt: SendReceipt)
        ensures
            receipt@ == (ReceiptView {
                message_ids: seq![message_id@],
                visible_texts: Seq::empty(),
            }),
    {
        let mut message_ids: Vec<String> = Vec::new();
        message_ids.push(message_id);
        let receipt = SendReceipt { message_ids, visible_texts: Vec::new() };
        assert(receipt@.message_ids =~= seq![message_id@]);
        assert(receipt@.visible_texts =~= Seq::empty());
        receipt
    }

    /// The receipt of nothing.
    pub fn empty() -> (receipt: SendReceipt)
        ensures
            receipt@ == empty_receipt(),
    {
        let receipt = SendReceipt { message_ids: Vec::new(), visible_texts: Vec::new() };
        assert(receipt@ =~= empty_receipt());
        receipt
    }

    /// Adds what was sent after it.
    pub fn append(&mut self, other: SendReceipt)
        ensures
            final(self)@ == joined(old(self)@, other@),
    {
        let mut rest = other;
        self.message_ids.append(&mut rest.message_ids);
        self.visible_texts.append(&mut rest.visible_texts);
        assert(self@ =~= joined(old(self)@, other@));
    }
}

/// A text on its way to a user.
pub struct TextDelivery {
    pub base_url: String,
    pub token: String,
    pub user_id: String,
    pub context_token: String,
    /// The pieces of the text.
    pub chunks: Vec<String>,
    /// What was sent so far: one message for each of the first pieces.
    pub receipt: SendReceipt,
}

/// A message that is to be sent.
#[derive(Debug)]
pub struct Outgoing {
    pub client_id: String,
    pub message: Json,
}

impl TextDelivery {
    /// Whether this is the delivery of `text`, with messages for its first pieces sent.
    pub open spec fn carries(self, text: Seq<char>) -> bool {
        let chunks = chunk::chunks(text, MAX_TEXT_BYTES as int);
        let sent = self.receipt@.visible_texts.len() as int;
        &&& text::string_views(self.chunks@) == chunks
        &&& sent <= chunks.len()
        &&& self.receipt@.visible_texts == chunks.take(sent)
        &&& self.receipt@.message_ids.len() == sent
    }

    /// Starts to send `text`; there is an error where the client is not logged in.
    pub fn new(client: &WechatIlinkClient, user_id: &str, text: &str, context_token: &str) -> (r:
        Result<TextDelivery>)
        ensures
            match (r, client.credentials) {
                (Ok(delivery), Some(creds)) => {
                    &&& delivery.base_url == creds.base_url
                    &&& delivery.token == creds.token
                    &&& delivery.user_id@ == user_id@
                    &&& delivery.context_token@ == context_token@
                    &&& delivery.carries(text@)
                    &&& delivery.receipt@ == empty_receipt()
                },
                (Err(err), None) => err@ == ErrorView::Auth("not logged in"@),
                _ => false,
            },
    {
        let (base_url, token) = match client.get_auth() {
            Ok(auth) => auth,
            Err(err) => {
                return Err(err);
            },
        };
        proof {
            lemma_divisible(text@);
        }
        let chunks = chunk::chunk_text(text, MAX_TEXT_BYTES);
        assert(chunk::chunks(text@, MAX_TEXT_BYTES as int).take(0) =~= Seq::empty());
        Ok(
            TextDelivery {
                base_url,
                token,
                user_id: user_id.to_owned(),
                context_token: context_token.to_owned(),
                chunks,
                receipt: SendReceipt::empty(),
            },
        )
    }

    /// The next message under the id `client_id`; there is none where all of the text was sent.
    pub fn message_with_client_id(&self, client: &ILinkClient, client_id: &str) -> (r: Option<Json>)
        requires
            self.receipt@.visible_texts.len() < self.chunks@.len() && client.options.markdown_filter
                ==> markdown_filter::filtered(
                self.chunks@[self.receipt@.visible_texts.len() as int]@,
            ) is Some,
        ensures
            match r {
                Some(msg) => self.receipt@.visible_texts.len() < self.chunks@.len() && msg@
                    == messages::text_message(
                    self.user_id@,
                    self.context_token@,
                    client::sent_text(
                        client.options,
                        self.chunks@[self.receipt@.visible_texts.len() as int]@,
                    ),
                    client_id@,
                ),
                None => self.receipt@.visible_texts.len() >= self.chunks@.len(),
            },
    {
        let at = self.receipt.visible_texts.len();
        if at >= self.chunks.len() {
            return None;
        }
        Some(
            client.build_text_message_with_client_id(
                self.user_id.as_str(),
                self.context_token.as_str(),
                self.chunks[at].as_str(),
                client_id,
            ),
        )
    }

    /// The next message, under a random id.
    pub fn next_message(&self, client: &ILinkClient) -> (r: Option<Outgoing>)
        requires
            self.receipt@.visible_texts.len() < self.chunks@.len() && client.options.markdown_filter
                ==> markdown_filter::filtered(
                self.chunks@[self.receipt@.visible_texts.len() as int]@,
            ) is Some,
        ensures
            match r {
                Some(outgoing) => {
                    &&& self.receipt@.visible_texts.len() < self.chunks@.len()
                    &&& outside::is_random_uuid(outgoing.client_id@)
                    &&& outgoing.message@ == messages::text_message(
                        self.user_id@,
                        self.context_token@,
                        client::sent_text(
                            client.options,
                            self.chunks@[self.receipt@.visible_texts.len() as int]@,
                        ),
                        outgoing.client_id@,
                    )
                },
                None => self.receipt@.visible_texts.len() >= self.chunks@.len(),
            },
    {
        let client_id = outside::new_client_id();
        match self.message_with_client_id(client, client_id.as_str()) {
            Some(message) => Some(Outgoing { client_id, message }),
            None => None,
        }
    }

    /// Notes that the next message was sent, under the id `client_id`.
    pub fn on_sent(&mut self, client_id: String)
        requires
            old(self).receipt@.visible_texts.len() < old(self).chunks@.len(),
        ensures
            final(self).receipt@ == (ReceiptView {
                message_ids: old(self).receipt@.message_ids.push(client_id@),
                visible_texts: old(self).receipt@.visible_texts.push(
                    old(self).chunks@[old(self).receipt@.visible_texts.len() as int]@,
                ),
            }),
            *final(self) == (TextDelivery { receipt: final(self).receipt, ..*old(self) }),
            forall|text: Seq<char>| #[trigger]
                old(self).carries(text) ==> final(self).carries(text),
    {
        let at = self.receipt.visible_texts.len();
        let ghost before = self.receipt@;
        let chunk = self.chunks[at].clone();
        self.receipt.message_ids.push(client_id);
        self.receipt.visible_texts.push(chunk);
        assert(self.receipt@.message_ids =~= before.message_ids.push(client_id@));
        assert(self.receipt@.visible_texts =~= before.visible_texts.push(self.chunks@[at as int]@));
        proof {
            assert forall|text: Seq<char>| #[trigger]
                old(self).carries(text) implies self.carries(text) by {
                let chunks = chunk::chunks(text, MAX_TEXT_BYTES as int);
                assert(text::string_views(self.chunks@)[at as int] == self.chunks@[at as int]@);
                assert(self.receipt@.visible_texts =~= chunks.take(at + 1));
            }
        }
    }
}

proof fn lemma_divisible(s: Seq<char>)
    ensures
        chunk::divisible(s, MAX_TEXT_BYTES as int),
{
    assert forall|i: int| 0 <= i < s.len() implies text::char_width(#[trigger] s[i])
        <= MAX_TEXT_BYTES by {
        text::lemma_char_width(s[i]);
    }
}

/// When all of a text was sent, its receipt has one id for each message, none of the messages
/// carries more than [`MAX_TEXT_BYTES`] bytes, and their texts put together are the text.
pub proof fn law_receipt_tells_the_text(delivery: TextDelivery, text: Seq<char>)
    requires
        delivery.carries(text),
        delivery.receipt@.visible_texts.len() == delivery.chunks@.len(),
    ensures
        chunk::concat(delivery.receipt@.visible_texts) == text,
        delivery.receipt@.message_ids.len() == delivery.receipt@.visible_texts.len(),
        delivery.receipt@.message_ids.len() >= 1,
        forall|i: int|
            0 <= i < delivery.receipt@.visible_texts.len() ==> text::byte_len(
                #[trigger] delivery.receipt@.visible_texts[i],
            ) <= MAX_TEXT_BYTES,
{
    let chunks = chunk::chunks(text, MAX_TEXT_BYTES as int);
    lemma_divisible(text);
    chunk::law_chunks(text, MAX_TEXT_BYTES as int);
    assert(chunks.take(chunks.len() as int) =~= chunks);
    assert(text::string_views(delivery.chunks@).len() == delivery.chunks@.len());
}

} // verus!
