//! What the central operations do, over the values that they take and give back.

use crate::bot::WechatIlinkClient;
use crate::category;
use crate::chunk;
use crate::chunk_laws;
use crate::content;
use crate::content::{ItemKind, SendContent, SendPlan, SendStep};
use crate::events::WechatEvent;
use crate::login::{LoginQrEvent, LoginStep, QrLogin};
use crate::login_laws;
use crate::markdown_filter as md;
use crate::markdown_shown;
use crate::poll::Poller;
use crate::poll_laws;
use crate::responses::QrStatusResponse;
use crate::text;
use crate::text_laws;
use crate::time::SystemTime;
use crate::types::IncomingMessage;
use vstd::prelude::*;

verus! {

/// The text of a string that may be missing.
pub open spec fn given_or(s: Option<String>, otherwise: Seq<char>) -> Seq<char> {
    if s is Some {
        s->0@
    } else {
        otherwise
    }
}

/// A filtered table row shows all its cells.
pub proof fn law_filtered_rows_are_whole(
    s: &str,
    out: String,
    tried: Option<String>,
    cells: Seq<Seq<char>>,
)
    requires
        call_ensures(md::filter_markdown, (s,), out),
        call_ensures(md::try_filter_markdown, (s,), tried),
        cells.len() > 0,
        cells[0].len() > 0,
        forall|i: int|
            0 <= i < cells.len() ==> text_laws::is_bare(#[trigger] cells[i]) && !cells[i].contains(
                '|',
            ) && !cells[i].contains('\n'),
        !markdown_shown::is_divider(markdown_shown::framed(cells)),
        s@ == seq!['|'] + (markdown_shown::framed(cells) + seq!['\n']),
    ensures
        out@ == text_laws::laid_out(cells, seq!['\t']) + seq!['\n'],
        tried is Some && tried->0@ == out@,
{
    let e = Seq::<char>::empty();
    let row = markdown_shown::framed(cells);
    markdown_shown::law_framed_rows_show_their_cells(cells, e);
    markdown_shown::law_text_is_shown(e, e);
    assert(row + seq!['\n'] + e =~= row + seq!['\n']);
    let shown = text_laws::laid_out(cells, seq!['\t']) + seq!['\n'];
    assert(shown + e =~= shown);
}

/// Both functions that filter a text show the same, and only one of them takes text that is refused.
pub proof fn law_text_is_filtered(s: &str, out: String, tried: Option<String>)
    requires
        call_ensures(md::filter_markdown, (s,), out),
        call_ensures(md::try_filter_markdown, (s,), tried),
    ensures
        md::filtered(s@) == Some(out@),
        tried is Some,
        tried->0@ == out@,
{
}

/// A text is cut directly after its last blank line, line end or space that stands late enough, in
/// this order, and only else where the limit falls.
pub proof fn law_text_is_cut(
    s: &str,
    limit: usize,
    parts: Vec<String>,
    window: Seq<char>,
    i: int,
)
    requires
        call_ensures(chunk::chunk_text, (s, limit), parts),
        chunk::divisible(s@, limit as int),
    ensures
        chunk::concat(text::string_views(parts@)) == s@,
        text::byte_len(s@) <= limit ==> parts@.len() == 1 && parts@[0]@ == s@,
        text::byte_len(s@) > limit && chunk_laws::is_window(s@, limit as int, window) ==> {
            let blank_line = seq!['\n', '\n'];
            let line_end = seq!['\n'];
            let space = seq![' '];
            &&& parts@.len() >= 2
            &&& chunk_laws::is_last_late(window, blank_line, i) ==> parts@[0]@ == s@.take(i + 2)
            &&& chunk_laws::never_late(window, blank_line) && chunk_laws::is_last_late(
                window,
                line_end,
                i,
            ) ==> parts@[0]@ == s@.take(i + 1)
            &&& chunk_laws::never_late(window, blank_line) && chunk_laws::never_late(
                window,
                line_end,
            ) && chunk_laws::is_last_late(window, space, i) ==> parts@[0]@ == s@.take(i + 1)
            &&& chunk_laws::never_late(window, blank_line) && chunk_laws::never_late(
                window,
                line_end,
            ) && chunk_laws::never_late(window, space) ==> parts@[0]@ == window
        },
{
    let views = text::string_views(parts@);
    chunk::law_chunks(s@, limit as int);
    chunk_laws::law_pieces_follow_each_other(s@, limit as int);
    assert(parts@.len() > 0 ==> views[0] == parts@[0]@);
    if text::byte_len(s@) > limit && chunk_laws::is_window(s@, limit as int, window) {
        chunk_laws::law_text_is_cut_where_a_reader_expects_it(s@, limit as int, window, i);
    }
}

/// Text is sent as it is. An image and a video are uploaded, then their caption is sent where they have
/// one, and last comes the message that refers to the data. Of another file the caption comes first. A
/// file is an image or a video where its name says so.
pub proof fn law_content_is_planned(content: SendContent, plan: SendPlan)
    requires
        call_ensures(SendPlan::new, (content,), plan),
    ensures
        content matches SendContent::Text(text) ==> plan.kind is None && plan.steps@.len() == 1 && (
        plan.steps@[0] matches SendStep::Text(s) && s@ == text@),
        content matches SendContent::Image { data, caption } ==> is_picture(plan, caption, 1)
            && plan.data@ == data@ && plan.kind is Some && plan.kind->0 is Image,
        content matches SendContent::Video { data, caption } ==> is_picture(plan, caption, 2)
            && plan.data@ == data@ && plan.kind is Some && plan.kind->0 is Video,
        content matches SendContent::File { data, file_name, caption } ==> plan.data@ == data@
            && plan.kind is Some && match plan.kind->0 {
            ItemKind::Image => is_picture(plan, caption, 1),
            ItemKind::Video => is_picture(plan, caption, 2),
            ItemKind::File { file_name: name } => is_other_file(plan, caption) && name@
                == file_name@,
        },
        content matches SendContent::File { file_name, .. } ==> {
            let named = category::category(file_name@);
            &&& plan.kind->0 is Image <==> named == "image"@
            &&& plan.kind->0 is Video <==> named == "video"@
        },
{
    let views = content::step_views(plan.steps@);
    let n = views.len() as int;
    assert(plan.steps@.len() == n);
    assert(views == content::plan_steps(content));
    assert(n > 0 ==> views[0] == plan.steps@[0]@);
    assert(n > 1 ==> views[1] == plan.steps@[1]@);
    assert(n > 2 ==> views[2] == plan.steps@[2]@);
    reveal_strlit("image");
    reveal_strlit("video");
    assert("image"@[0] == 'i' && "video"@[0] == 'v');
}

pub open spec fn is_text_step(step: SendStep, text: Seq<char>) -> bool {
    step is Text && step->Text_0@ == text
}

/// The steps for an image or a video with this caption.
pub open spec fn is_picture(plan: SendPlan, caption: Option<String>, media_type: i32) -> bool {
    let steps = plan.steps@;
    &&& steps.len() == if caption is Some { 3int } else { 2 }
    &&& steps[0] == (SendStep::Upload { media_type })
    &&& caption is Some ==> is_text_step(steps[1], caption->0@)
    &&& steps.last() is Item
}

/// The steps for another file with this caption.
pub open spec fn is_other_file(plan: SendPlan, caption: Option<String>) -> bool {
    let steps = plan.steps@;
    &&& steps.len() == if caption is Some { 3int } else { 2 }
    &&& caption is Some ==> is_text_step(steps[0], caption->0@)
    &&& steps[steps.len() - 2] == (SendStep::Upload { media_type: 3 })
    &&& steps.last() is Item
}

/// A status that confirms a login gives the credentials, each field of the status in its own place.
pub proof fn law_logins_are_confirmed()
    ensures
        forall|login: &mut QrLogin, status: QrStatusResponse, secs: u64, step: LoginStep|
            #![trigger call_ensures(QrLogin::on_status, (login, status, secs), step)]
            call_ensures(QrLogin::on_status, (login, status, secs), step) && status.status@
                == "confirmed"@ && status.bot_token is Some ==> {
                &&& step.next is Finish
                &&& step.events@.len() > 0
                &&& step.events@.last() matches LoginQrEvent::Confirmed { credentials }
                    && credentials.token@ == status.bot_token->0@ && credentials.base_url@
                    == given_or(status.baseurl, (*login).base_url@) && credentials.account_id@
                    == given_or(status.ilink_bot_id, Seq::empty()) && credentials.user_id@
                    == given_or(status.ilink_user_id, Seq::empty()) && credentials.saved_at is Some
            },
{
    assert forall|login: &mut QrLogin, status: QrStatusResponse, secs: u64, step: LoginStep|
        #![trigger call_ensures(QrLogin::on_status, (login, status, secs), step)]
        call_ensures(QrLogin::on_status, (login, status, secs), step) && status.status@
            == "confirmed"@ && status.bot_token is Some implies {
        &&& step.next is Finish
        &&& step.events@.len() > 0
        &&& step.events@.last() matches LoginQrEvent::Confirmed { credentials } && credentials.token@
            == status.bot_token->0@ && credentials.base_url@ == given_or(
            status.baseurl,
            (*login).base_url@,
        ) && credentials.account_id@ == given_or(status.ilink_bot_id, Seq::empty())
            && credentials.user_id@ == given_or(status.ilink_user_id, Seq::empty())
            && credentials.saved_at is Some
    } by {
        login_laws::law_confirmation_gives_credentials((*login)@, status@, secs as nat);
        let events = step.events@;
        assert(step@.events.len() == events.len());
        assert(step@.events.len() > 0 ==> step@.events.last() == events.last()@);
    }
}

/// Every message of a batch is told, in the order in which they came, and directly before it the
/// context that it brings.
pub proof fn law_every_message_and_context_is_told()
    ensures
        forall|
            poller: &mut Poller,
            client: &mut WechatIlinkClient,
            cursor: String,
            incoming: Vec<IncomingMessage>,
            now: SystemTime,
            told: Vec<WechatEvent>,
            i: int,
        |
            #![trigger call_ensures(Poller::on_updates, (poller, client, cursor, incoming, now), told), incoming@[i]]
            call_ensures(Poller::on_updates, (poller, client, cursor, incoming, now), told) && 0 <= i
                < incoming@.len() ==> {
                let at = poll_laws::place(incoming@, i);
                &&& 0 <= at < told@.len()
                &&& told@[at] == WechatEvent::Message(incoming@[i])
                &&& incoming@[i].context is Some ==> at > 0 && told@[at - 1]
                    == WechatEvent::ContextObserved(incoming@[i].context->0)
            },
{
    assert forall|
        poller: &mut Poller,
        client: &mut WechatIlinkClient,
        cursor: String,
        incoming: Vec<IncomingMessage>,
        now: SystemTime,
        told: Vec<WechatEvent>,
        i: int,
    |
        #![trigger call_ensures(Poller::on_updates, (poller, client, cursor, incoming, now), told), incoming@[i]]
        call_ensures(Poller::on_updates, (poller, client, cursor, incoming, now), told) && 0 <= i
            < incoming@.len() implies {
        let at = poll_laws::place(incoming@, i);
        &&& 0 <= at < told@.len()
        &&& told@[at] == WechatEvent::Message(incoming@[i])
        &&& incoming@[i].context is Some ==> at > 0 && told@[at - 1] == WechatEvent::ContextObserved(
            incoming@[i].context->0,
        )
    } by {
        poll_laws::law_a_batch_is_told(*client, (*poller).cursor@, cursor@, incoming@, now@);
        let views = crate::events::event_views(told@);
        let at = poll_laws::place(incoming@, i);
        assert(views.len() == told@.len());
        assert(views[at] == told@[at]@);
        assert(incoming@[i].context is Some ==> views[at - 1] == told@[at - 1]@);
    }
}

} // verus!
