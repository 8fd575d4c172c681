//! What an application learns while a client runs.

use crate::time::{Duration, SystemTime};
use crate::types::{self, IncomingMessage, WechatContext};
use vstd::prelude::*;

verus! {

#[derive(Clone)]
pub enum WechatEvent {
    /// A message carried a context token.
    ContextObserved(WechatContext),
    /// A message has come in.
    Message(IncomingMessage),
    /// All messages up to this cursor have been handed over.
    CursorAdvanced { account_key: String, cursor: String },
    /// The session is over; a new login is needed.
    AuthSessionExpired { account_key: String },
    /// A message of the user would refresh the state that the service keeps.
    ///
    /// Whether and how to ask for one is left to the application.
    UserInteractionRequested {
        account_key: String,
        user_id: Option<String>,
        reason: UserInteractionReason,
    },
}

/// Why a user should be asked to write.
#[derive(Debug, Clone, Copy, PartialEq, Eq, Structural)]
pub enum UserInteractionReason {
    /// A context is about to expire.
    ContextExpiring { observed_at: SystemTime, expires_at: SystemTime, remind_before: Duration },
    /// The account has sent nearly as much as the service lets it.
    OutboundRateLimitApproaching { sent_count: usize, window: Duration, threshold: usize },
}

#[verifier::ext_equal]
pub enum ReasonView {
    ContextExpiring { observed_at: int, expires_at: int, remind_before: int },
    OutboundRateLimitApproaching { sent_count: int, window: int, threshold: int },
}

#[verifier::ext_equal]
pub enum EventView {
    ContextObserved(WechatContext),
    Message(IncomingMessage),
    CursorAdvanced { account_key: Seq<char>, cursor: Seq<char> },
    AuthSessionExpired { account_key: Seq<char> },
    UserInteractionRequested {
        account_key: Seq<char>,
        user_id: Option<Seq<char>>,
        reason: ReasonView,
    },
}

impl View for UserInteractionReason {
    type V = ReasonView;

    open spec fn view(&self) -> ReasonView {
        match *self {
            UserInteractionReason::ContextExpiring { observed_at, expires_at, remind_before } =>
            ReasonView::ContextExpiring {
                observed_at: observed_at@,
                expires_at: expires_at@,
                remind_before: remind_before@,
            },
            UserInteractionReason::OutboundRateLimitApproaching { sent_count, window, threshold } =>
            ReasonView::OutboundRateLimitApproaching {
                sent_count: sent_count as int,
                window: window@,
                threshold: threshold as int,
            },
        }
    }
}

impl View for WechatEvent {
    type V = EventView;

    open spec fn view(&self) -> EventView {
        match *self {
            WechatEvent::ContextObserved(context) => EventView::ContextObserved(context),
            WechatEvent::Message(message) => EventView::Message(message),
            WechatEvent::CursorAdvanced { account_key, cursor } => EventView::CursorAdvanced {
                account_key: account_key@,
                cursor: cursor@,
            },
            WechatEvent::AuthSessionExpired { account_key } => EventView::AuthSessionExpired {
                account_key: account_key@,
            },
            WechatEvent::UserInteractionRequested { account_key, user_id, reason } =>
            EventView::UserInteractionRequested {
                account_key: account_key@,
                user_id: types::option_view(user_id),
                reason: reason@,
            },
        }
    }
}

pub open spec fn event_views(events: Seq<WechatEvent>) -> Seq<EventView> {
    events.map_values(|e: WechatEvent| e@)
}

} // verus!
