//! What the operations on errors, values, times and logins give back.

use crate::bot::WechatIlinkClient;
use crate::bot_agent;
use crate::category;
use crate::client::HttpRequest;
use crate::decimal;
use crate::error;
use crate::error::WechatIlinkError;
use crate::events::WechatEvent;
use crate::json;
use crate::json::{Json, JsonView};
use crate::json_laws;
use crate::login;
use crate::login::{LoginAction, LoginQrEvent, LoginStep, QrLogin};
use crate::login_laws;
use crate::markdown_filter as md;
use crate::markdown_filter::StreamingMarkdownFilter;
use crate::outside;
use crate::poll::{PollDecision, Poller};
use crate::poll_laws;
use crate::protocol;
use crate::protocol_laws;
use crate::request_operations;
use crate::responses::{GetUpdatesResponse, QrCodeResponse, QrStatusResponse};
use crate::text_laws;
use crate::time::{Duration, Instant, SystemTime};
use crate::types::WechatContext;
use vstd::prelude::*;

verus! {

/// Whether an error says this: that the service asks to slow down where the code is -2, and else that it
/// has answered with an error.
pub open spec fn tells(
    err: WechatIlinkError,
    message: Seq<char>,
    http_status: u16,
    errcode: int,
) -> bool {
    if errcode == -2 {
        err matches WechatIlinkError::RateLimited { retry_after, message: m, http_status: h, errcode: e }
            && retry_after@ == 90_000_000_000 && m@ == message && h == http_status && e == errcode
    } else {
        err matches WechatIlinkError::Api { message: m, http_status: h, errcode: e } && m@ == message
            && h == http_status && e == errcode
    }
}

/// Errors tell what they were made of.
pub proof fn law_errors_tell(
    message: String,
    http_status: u16,
    errcode: i32,
    delay: Duration,
    skipped: u64,
    reason: &str,
    any: WechatIlinkError,
    api: WechatIlinkError,
    limited: WechatIlinkError,
    delayed: WechatIlinkError,
    lagged: WechatIlinkError,
    failed: WechatIlinkError,
)
    requires
        call_ensures(error::api_error, (message, http_status, errcode), api),
        call_ensures(error::rate_limited_error, (delay,), limited),
        call_ensures(error::with_rate_limit_retry_after, (any, delay), delayed),
        call_ensures(error::lagged_error, (skipped,), lagged),
        call_ensures(error::poll_task_error, (reason,), failed),
    ensures
        tells(api, message@, http_status, errcode as int),
        limited matches WechatIlinkError::RateLimited { retry_after, message: m, http_status: h, errcode: e }
            && retry_after@ == delay@ && m@ == "ret=-2"@ && h == 200 && e == -2,
        !(any is RateLimited) ==> delayed@ == any@,
        any matches WechatIlinkError::RateLimited { message: m, http_status: h, errcode: e, .. } ==> (
        delayed matches WechatIlinkError::RateLimited {
            retry_after,
            message: n,
            http_status: i,
            errcode: f,
        } && retry_after@ == delay@ && n@ == m@ && i == h && f == e),
        lagged matches WechatIlinkError::Other(m) && m@ == "wechat event stream lagged by "@
            + decimal::decimal(skipped as nat) + " events"@,
        failed matches WechatIlinkError::Other(m) && m@ == "wechat poll task failed: "@ + reason@,
{
}

/// Only an error that asks to slow down is one.
pub proof fn law_rate_limits_are_told_apart(err: &WechatIlinkError, b: bool)
    requires
        call_ensures(WechatIlinkError::is_rate_limited, (err,), b),
    ensures
        b <==> err is RateLimited,
{
}

/// A reply is an error where HTTP or its code says so, with its own words.
pub proof fn law_replies_are_checked(
    status: u16,
    raw_body: &str,
    r: core::result::Result<(), WechatIlinkError>,
)
    requires
        call_ensures(protocol::check_reply, (status, raw_body), r),
    ensures
        ({
            let errcode = outside::field_of(raw_body@, "errcode"@).0;
            let ret = outside::field_of(raw_body@, "ret"@).0;
            let errmsg = outside::field_of(raw_body@, "errmsg"@).1;
            let message = outside::field_of(raw_body@, "message"@).1;
            let small = (errcode is Some ==> -2_147_483_648 <= errcode->0 <= 2_147_483_647) && (
            ret is Some ==> -2_147_483_648 <= ret->0 <= 2_147_483_647);
            let code: int = if errcode is Some && (errcode->0 != 0 || status >= 400) {
                errcode->0 as int
            } else if ret is Some && status < 400 {
                ret->0 as int
            } else {
                0
            };
            &&& r is Err <==> status >= 400 || (errcode is Some && errcode->0 != 0) || (ret is Some
                && ret->0 != 0)
            &&& small && r is Err && errmsg is Some ==> tells(r->Err_0, errmsg->0, status, code)
            &&& small && r is Err && errmsg is None && message is Some ==> tells(
                r->Err_0,
                message->0,
                status,
                code,
            )
        }),
{
}

/// A poll is an error where one of its codes says so, with its own words.
pub proof fn law_polls_are_checked(
    response: &GetUpdatesResponse,
    r: core::result::Result<(), WechatIlinkError>,
)
    requires
        call_ensures(protocol::check_updates, (response,), r),
    ensures
        r is Err <==> response.ret != 0 || (response.errcode is Some && response.errcode->0 != 0),
        r is Err && response.errmsg is Some ==> tells(
            r->Err_0,
            response.errmsg->0@,
            200,
            if response.errcode is Some {
                response.errcode->0 as int
            } else {
                response.ret as int
            },
        ),
{
}

/// Addresses are put together of encoded parts, and a version becomes one number.
pub proof fn law_addresses_are_built(
    base: &str,
    param: &str,
    filekey: &str,
    qrcode: &str,
    typed: Option<&str>,
    version: &str,
    ns: Seq<u32>,
    place: String,
    status: String,
    packed: String,
)
    requires
        call_ensures(protocol::build_cdn_upload_url, (base, param, filekey), place),
        call_ensures(protocol::build_qr_status_endpoint, (qrcode, typed), status),
        call_ensures(protocol::build_client_version, (version,), packed),
        ns.len() > 0,
        version@ == text_laws::laid_out(protocol_laws::in_decimal(ns), seq!['.']),
    ensures
        place@ == base@ + "/upload?encrypted_query_param="@ + outside::url_encoding(param@)
            + "&filekey="@ + outside::url_encoding(filekey@),
        typed is None || typed->0@.len() == 0 ==> status@ == "/ilink/bot/get_qrcode_status?qrcode="@
            + outside::url_encoding(qrcode@),
        typed is Some && typed->0@.len() > 0 ==> status@ == "/ilink/bot/get_qrcode_status?qrcode="@
            + outside::url_encoding(qrcode@) + "&verify_code="@ + outside::url_encoding(typed->0@),
        packed@ == decimal::decimal(
            (protocol_laws::low_byte_of(ns, 0) * 65536 + protocol_laws::low_byte_of(ns, 1) * 256
                + protocol_laws::low_byte_of(ns, 2)) as nat,
        ),
{
    let none = Seq::<u32>::empty();
    protocol_laws::law_versions_have_three_numbers(ns, none, Seq::empty());
    assert(ns + none =~= ns);
}

/// Numbers are written in decimal and read back, a name is cleaned, and a file is what its name says.
pub proof fn law_texts_are_made(
    n: u128,
    digits: String,
    raw: Option<&str>,
    name: String,
    file_name: &str,
    kind: &str,
)
    requires
        call_ensures(decimal::decimal_of, (n,), digits),
        call_ensures(bot_agent::sanitize_bot_agent, (raw,), name),
        call_ensures(category::categorize_by_extension, (file_name,), kind),
    ensures
        text_laws::number(digits@) == n,
        raw is Some ==> name@ == bot_agent::sanitized(Some(raw->0@)),
        raw is None ==> name@ == "OpenClaw"@,
        kind@ == category::category(file_name@),
        kind@ == "image"@ || kind@ == "video"@ || kind@ == "file"@,
{
    text_laws::law_decimal(n as nat);
    crate::bot_agent_laws::law_other_words_are_left_out(Seq::empty(), Seq::empty(), Seq::empty());
}

/// A context is written the same for every token: with its account, its user, its time and its message.
pub proof fn law_tokens_are_not_written(
    a: &WechatContext,
    b: &WechatContext,
    written_a: String,
    written_b: String,
)
    requires
        call_ensures(WechatContext::redacted, (a,), written_a),
        call_ensures(WechatContext::redacted, (b,), written_b),
        a.account_key@ == b.account_key@,
        a.user_id@ == b.user_id@,
        a.observed_at_unix_ms == b.observed_at_unix_ms,
        a.source_message_id is Some <==> b.source_message_id is Some,
        a.source_message_id is Some ==> a.source_message_id->0@ == b.source_message_id->0@,
    ensures
        written_a@ == written_b@,
        written_a@ == "WechatContext { account_key: \""@ + a.account_key@ + "\", user_id: \""@
            + a.user_id@ + "\", context_token: <redacted>, observed_at_unix_ms: "@
            + decimal::signed_decimal(a.observed_at_unix_ms as int) + ", source_message_id: "@ + (
        if a.source_message_id is Some {
            "Some(\""@ + a.source_message_id->0@ + "\")"@
        } else {
            "None"@
        }) + " }"@,
{
}

/// A field of an object is found by its name, and an item of an array by its place; a string gives its
/// text.
pub proof fn law_json_is_read(
    value: &Json,
    key: &str,
    i: usize,
    found: Option<&Json>,
    item: Option<&Json>,
    s: Option<&str>,
    at: int,
)
    requires
        call_ensures(Json::get, (value, key), found),
        call_ensures(Json::item, (value, i), item),
        call_ensures(Json::as_str, (value,), s),
    ensures
        value matches Json::Text(t) ==> s is Some && s->0@ == t@,
        !(value is Text) ==> s is None,
        value matches Json::Array(items) ==> (item is Some <==> i < items@.len()) && (i
            < items@.len() ==> item->0@ == items@[i as int]@),
        !(value is Array) ==> item is None,
        !(value is Object) ==> found is None,
        value matches Json::Object(fields) ==> 0 <= at < fields@.len() && fields@[at].0@ == key@ && (
        forall|j: int| 0 <= j < at ==> (#[trigger] fields@[j]).0@ != key@) ==> found is Some
            && found->0@ == fields@[at].1@,
        value matches Json::Object(fields) ==> (forall|j: int|
            0 <= j < fields@.len() ==> (#[trigger] fields@[j]).0@ != key@) ==> found is None,
{
    json::lemma_parts(*value);
    if let Json::Object(fields) = value {
        let views = json::field_views(fields@);
        json_laws::law_fields_are_found(views, key@, at);
        assert forall|j: int| 0 <= j < views.len() implies (#[trigger] views[j]).0 == fields@[j].0@
            && views[j].1 == fields@[j].1@ by {}
        if forall|j: int| 0 <= j < fields@.len() ==> (#[trigger] fields@[j]).0@ != key@ {
            let object = JsonView::Object(views);
            assert forall|j: int| 0 <= j < object->Object_0.len() implies (
            #[trigger] object->Object_0[j]).0 != key@ by {
                assert(fields@[j].0@ != key@);
            }
        }
        if 0 <= at < fields@.len() && fields@[at].0@ == key@ && forall|j: int|
            0 <= j < at ==> (#[trigger] fields@[j]).0@ != key@ {
            assert forall|j: int| 0 <= j < at implies (#[trigger] views[j]).0 != key@ by {
                assert(fields@[j].0@ != key@);
            }
        }
    }
}

/// Spans of time are counted in nanoseconds.
pub proof fn law_spans(
    secs: u64,
    millis: u64,
    d: Duration,
    max: &Duration,
    of_secs: Duration,
    of_millis: Duration,
    nanos: u128,
    whole: u64,
    zero: bool,
    doubled: Duration,
)
    requires
        call_ensures(Duration::from_secs, (secs,), of_secs),
        call_ensures(Duration::from_millis, (millis,), of_millis),
        call_ensures(Duration::as_nanos, (&d,), nanos),
        call_ensures(Duration::as_secs, (&d,), whole),
        call_ensures(Duration::is_zero, (&d,), zero),
        call_ensures(Duration::doubled_up_to, (&d, *max), doubled),
    ensures
        of_secs@ == secs * 1_000_000_000,
        of_millis@ == millis * 1_000_000,
        nanos == d@,
        whole * 1_000_000_000 <= d@ < (whole + 1) * 1_000_000_000,
        zero <==> d@ == 0,
        2 * d@ <= max@ ==> doubled@ == 2 * d@,
        2 * d@ > max@ ==> doubled@ == max@,
{
}

/// Points in time are counted in nanoseconds, within 64 bits of seconds.
pub proof fn law_points_in_time(
    a: &Instant,
    b: Instant,
    s: &SystemTime,
    d: Duration,
    since: Option<Duration>,
    later: Option<Instant>,
    after: Option<SystemTime>,
    before: Option<SystemTime>,
)
    requires
        call_ensures(Instant::checked_duration_since, (a, b), since),
        call_ensures(Instant::checked_add, (a, d), later),
        call_ensures(SystemTime::checked_add, (s, d), after),
        call_ensures(SystemTime::checked_sub, (s, d), before),
    ensures
        since is Some <==> b@ <= a@,
        since is Some ==> b@ + since->0@ == a@,
        later is Some <==> is_time(a@ + d@),
        later is Some ==> later->0@ == a@ + d@,
        after is Some <==> is_time(s@ + d@),
        after is Some ==> after->0@ == s@ + d@,
        before is Some <==> is_time(s@ - d@),
        before is Some ==> before->0@ + d@ == s@,
{
}

pub open spec fn is_time(nanos: int) -> bool {
    -9_223_372_036_854_775_808 * 1_000_000_000 <= nanos < 9_223_372_036_854_775_808 * 1_000_000_000
}

/// A client that runs polls with the cursor that it has come to, once it is logged in.
pub proof fn law_next_poll(
    p: &Poller,
    c: &WechatIlinkClient,
    r: core::result::Result<Option<HttpRequest>, WechatIlinkError>,
)
    requires
        call_ensures(Poller::next_request, (p, c), r),
    ensures
        c.stopped ==> r is Ok && r->Ok_0 is None,
        !c.stopped && c.credentials is None ==> (r matches Err(err) && err
            matches WechatIlinkError::Auth(m) && m@ == "not logged in"@),
        !c.stopped && c.credentials is Some ==> {
            &&& r is Ok
            &&& r->Ok_0 is Some
            &&& request_operations::is_authorized(
                r->Ok_0->0,
                c.client.options,
                c.credentials->0.base_url@ + "/ilink/bot/getupdates"@,
                c.credentials->0.token@,
                45,
            )
            &&& json_laws::has(
                r->Ok_0->0.body->0@,
                "get_updates_buf"@,
                JsonView::Text(p.cursor@),
            )
        },
{
    if let Ok(Some(request)) = r {
        let creds = c.credentials->0;
        let options = c.client.options;
        let body = crate::client::updates_body(options, p.cursor@);
        request_operations::lemma_post(
            request,
            options,
            creds.base_url@,
            "/ilink/bot/getupdates"@,
            creds.token@,
            body,
            45,
        );
        let e = Seq::<char>::empty();
        crate::request_laws::law_bodies(options, p.cursor@, body, e, e, e, 0);
    }
}

/// Polling starts at the cursor that is given, with a delay of a second after a first failure.
pub proof fn law_polling_starts(cursor: Option<String>, p: Poller)
    requires
        call_ensures(Poller::start, (cursor,), p),
    ensures
        cursor is Some ==> p.cursor@ == cursor->0@,
        cursor is None ==> p.cursor@.len() == 0,
        p.retry_delay@ == 1_000_000_000,
{
}

/// Polling goes on after a failure: after the delay of the policy where the service asks to slow down,
/// else after a delay that doubles up to ten seconds. It ends with the session, and the next one starts
/// without a cursor.
pub proof fn law_polling_fails()
    ensures
        forall|
            p: &mut Poller,
            c: &WechatIlinkClient,
            err: &WechatIlinkError,
            over: bool,
            r: PollDecision,
        | #[trigger]
            call_ensures(Poller::on_error, (p, c, err, over), r) ==> {
                &&& r is Stop <==> over
                &&& r matches PollDecision::Stop(event) ==> (event
                    matches WechatEvent::AuthSessionExpired { account_key } && account_key@
                    == poll_laws::own_key(*c))
                &&& over ==> final(p).cursor@.len() == 0
                &&& !over ==> final(p).cursor@ == (*p).cursor@
                &&& !over && err is RateLimited ==> (r matches PollDecision::Wait(wait) && wait@
                    == c.rate_limit.retry_after@) && final(p).retry_delay@ == 1_000_000_000
                &&& !over && !(err is RateLimited) ==> (r matches PollDecision::Wait(wait) && wait@
                    == (*p).retry_delay@) && final(p).retry_delay@ == if 2 * (*p).retry_delay@
                    <= 10_000_000_000 {
                    2 * (*p).retry_delay@
                } else {
                    10_000_000_000
                }
            },
{
    poll_laws::law_delays_double(0);
}

/// A batch of messages moves the cursor, unless it brings none, and takes back the delays.
pub proof fn law_cursors_move()
    ensures
        forall|
            p: &mut Poller,
            c: &mut WechatIlinkClient,
            cursor: String,
            incoming: Vec<crate::types::IncomingMessage>,
            now: SystemTime,
            told: Vec<WechatEvent>,
        | #[trigger]
            call_ensures(Poller::on_updates, (p, c, cursor, incoming, now), told) ==> {
                &&& cursor@.len() > 0 ==> final(p).cursor@ == cursor@
                &&& cursor@.len() == 0 ==> final(p).cursor@ == (*p).cursor@
                &&& final(p).retry_delay@ == 1_000_000_000
                &&& final(c).credentials == (*c).credentials
                &&& final(c).rate_limit == (*c).rate_limit
                &&& final(c).stopped == (*c).stopped
                &&& cursor@.len() > 0 && cursor@ != (*p).cursor@ ==> told@.len() > 0 && (
                told@.last() matches WechatEvent::CursorAdvanced { account_key, cursor: told_cursor }
                    && account_key@ == poll_laws::own_key(*c) && told_cursor@ == cursor@)
            },
{
    assert forall|
        p: &mut Poller,
        c: &mut WechatIlinkClient,
        cursor: String,
        incoming: Vec<crate::types::IncomingMessage>,
        now: SystemTime,
        told: Vec<WechatEvent>,
    | #[trigger]
        call_ensures(Poller::on_updates, (p, c, cursor, incoming, now), told) && cursor@.len() > 0
            && cursor@ != (*p).cursor@ implies told@.len() > 0 && (told@.last()
        matches WechatEvent::CursorAdvanced { account_key, cursor: told_cursor } && account_key@
        == poll_laws::own_key(*c) && told_cursor@ == cursor@) by {
        poll_laws::law_a_batch_is_told(*c, (*p).cursor@, cursor@, incoming@, now@);
        let views = crate::events::event_views(told@);
        assert(views.len() == told@.len());
        assert(views.last() == told@.last()@);
    }
}

/// A login starts with the request for a QR code, and knows the address that it was given.
pub proof fn law_logins_start(base_url: String, r: (QrLogin, LoginAction))
    requires
        call_ensures(QrLogin::start, (base_url,), r),
    ensures
        r.0.base_url@ == base_url@,
        r.0.refresh_count == 1,
        r.0.verify_code is None,
        r.0.poll_base_url@ == "https://ilinkai.weixin.qq.com"@,
        r.1 is FetchQrCode,
{
}

/// A QR code is shown, and its status asked for at once.
pub proof fn law_qr_codes_are_shown()
    ensures
        forall|l: &mut QrLogin, qr: QrCodeResponse, step: LoginStep| #[trigger]
            call_ensures(QrLogin::on_qr_code, (l, qr), step) ==> {
                &&& step.events@.len() == 1
                &&& step.events@[0] matches LoginQrEvent::QrCode { content } && content@
                    == qr.qrcode_img_content@
                &&& step.next matches LoginAction::PollStatus { wait } && wait@ == 0
                &&& final(l).qrcode@ == qr.qrcode@
                &&& final(l).last_status@.len() == 0
                &&& final(l).verify_code is None
                &&& final(l).base_url@ == (*l).base_url@
                &&& final(l).refresh_count == (*l).refresh_count
                &&& final(l).poll_base_url@ == "https://ilinkai.weixin.qq.com"@
            },
{
    assert forall|l: &mut QrLogin, qr: QrCodeResponse, step: LoginStep| #[trigger]
        call_ensures(QrLogin::on_qr_code, (l, qr), step) implies {
        &&& step.events@.len() == 1
        &&& step.events@[0] matches LoginQrEvent::QrCode { content } && content@
            == qr.qrcode_img_content@
        &&& step.next matches LoginAction::PollStatus { wait } && wait@ == 0
        &&& final(l).qrcode@ == qr.qrcode@
        &&& final(l).last_status@.len() == 0
        &&& final(l).verify_code is None
        &&& final(l).base_url@ == (*l).base_url@
        &&& final(l).refresh_count == (*l).refresh_count
        &&& final(l).poll_base_url@ == "https://ilinkai.weixin.qq.com"@
    } by {
        login_laws::law_a_qr_code_is_shown((*l)@, qr.qrcode@, qr.qrcode_img_content@);
        assert(step@.events.len() == step.events@.len());
        assert(step@.events[0] == step.events@[0]@);
    }
}

/// A new status is told first. A login that cannot be completed fails, one that needs a code asks for it,
/// and one that has expired gets a new QR code up to three times.
pub proof fn law_statuses_are_followed()
    ensures
        forall|l: &mut QrLogin, status: QrStatusResponse, secs: u64, step: LoginStep| #[trigger]
            call_ensures(QrLogin::on_status, (l, status, secs), step) ==> is_followed(
                *l,
                status,
                *final(l),
                step,
            ),
{
    assert forall|l: &mut QrLogin, status: QrStatusResponse, secs: u64, step: LoginStep| #[trigger]
        call_ensures(QrLogin::on_status, (l, status, secs), step) implies is_followed(
        *l,
        status,
        *final(l),
        step,
    ) by {
        let before = (*l)@;
        let now = secs as nat;
        login_laws::law_a_new_status_is_told_first(before, status@, now);
        login_laws::law_only_a_confirmation_completes(before, status@, now);
        login_laws::law_verification_codes_are_asked_for(before, status@, now);
        login_laws::law_expired_codes_are_replaced(before, status@, now);
        login_laws::law_polling_goes_on(before, status@, now);
        assert(step@.events.len() == step.events@.len());
        assert(step.events@.len() > 0 ==> step@.events[0] == step.events@[0]@);
        assert(step.events@.len() > 0 ==> step@.events.last() == step.events@.last()@);
    }
}

pub open spec fn is_followed(
    before: QrLogin,
    status: QrStatusResponse,
    after: QrLogin,
    step: LoginStep,
) -> bool {
    let kind = status.status@;
    let expired = kind == "expired"@ || kind == "verify_code_blocked"@;
    &&& after.last_status@ == kind
    &&& after.base_url@ == before.base_url@
    &&& after.qrcode@ == before.qrcode@
    &&& kind != before.last_status@ ==> step.events@.len() > 0 && (step.events@[0]
        matches LoginQrEvent::StatusChanged { status: told } && told@ == kind)
    &&& step.next is Finish <==> kind == "confirmed"@ && status.bot_token is Some
    &&& step.next is AwaitVerifyCode <==> kind == "need_verifycode"@
    &&& kind == "need_verifycode"@ ==> step.events@.len() > 0 && (step.events@.last()
        matches LoginQrEvent::NeedVerifyCode { prompt } && prompt@
        == if before.verify_code is None {
        "QR verification code required"@
    } else {
        "QR verification code mismatch"@
    })
    &&& step.next is FetchQrCode <==> expired && before.refresh_count < 3
    &&& expired && before.refresh_count < 3 ==> after.refresh_count == before.refresh_count + 1
    &&& expired && before.refresh_count >= 3 ==> step.next is Fail
    &&& !expired ==> after.refresh_count == before.refresh_count
    &&& kind == "binded_redirect"@ ==> step.next is Fail
    &&& kind == "confirmed"@ && status.bot_token is None ==> step.next is Fail
    &&& kind == "wait"@ ==> (step.next matches LoginAction::PollStatus { wait } && wait@
        == 1_000_000_000)
    &&& kind == "scaned"@ ==> (step.next matches LoginAction::PollStatus { wait } && wait@
        == 2_000_000_000) && after.verify_code is None
    &&& kind == "scaned_but_redirect"@ ==> (step.next matches LoginAction::PollStatus { wait }
        && wait@ == 2_000_000_000) && (status.redirect_host is Some ==> after.poll_base_url@
        == "https://"@ + status.redirect_host->0@)
}

/// A typed code is kept without the white space around it, and the status asked for at once. Where
/// nothing was typed the login fails.
pub proof fn law_codes_are_typed(before: Seq<char>, code: Seq<char>, after: Seq<char>)
    requires
        text_laws::is_blank(before),
        text_laws::is_bare(code),
        text_laws::is_blank(after),
    ensures
        forall|l: &mut QrLogin, typed: Option<String>, action: LoginAction| #[trigger]
            call_ensures(QrLogin::on_verify_code, (l, typed), action) ==> {
                &&& typed is Some && typed->0@ == before + code + after && code.len() > 0 ==> (action
                    matches LoginAction::PollStatus { wait } && wait@ == 0)
                    && final(l).verify_code is Some && final(l).verify_code->0@ == code
                &&& typed is Some && typed->0@ == before + code + after && code.len() == 0
                    ==> action is Fail
                &&& typed is None ==> action is Fail
                &&& final(l).qrcode@ == (*l).qrcode@
                &&& final(l).poll_base_url@ == (*l).poll_base_url@
            },
{
    assert forall|l: &mut QrLogin, typed: Option<String>, action: LoginAction| #[trigger]
        call_ensures(QrLogin::on_verify_code, (l, typed), action) implies {
        &&& typed is Some && typed->0@ == before + code + after && code.len() > 0 ==> (action
            matches LoginAction::PollStatus { wait } && wait@ == 0) && final(l).verify_code is Some
            && final(l).verify_code->0@ == code
        &&& typed is Some && typed->0@ == before + code + after && code.len() == 0 ==> action is Fail
        &&& typed is None ==> action is Fail
        &&& final(l).qrcode@ == (*l).qrcode@
        &&& final(l).poll_base_url@ == (*l).poll_base_url@
    } by {
        login_laws::law_typed_codes_are_kept((*l)@, before, code, after);
        assert(final(l)@.qrcode == final(l).qrcode@);
        assert(login::verify_code_step((*l)@, crate::types::option_view(typed)).0.qrcode == (
        *l).qrcode@);
    }
}

/// A text that is fed to a new filter and flushed is shown as it is when filtered whole.
pub proof fn law_feeding_is_filtering(f: StreamingMarkdownFilter)
    requires
        call_ensures(StreamingMarkdownFilter::new, (), f),
    ensures
        forall|
            a: &mut StreamingMarkdownFilter,
            b: &mut StreamingMarkdownFilter,
            s: &str,
            fed: String,
            flushed: String,
        |
            #![trigger call_ensures(StreamingMarkdownFilter::feed, (a, s), fed), call_ensures(StreamingMarkdownFilter::flush, (b,), flushed)]
            call_ensures(StreamingMarkdownFilter::feed, (a, s), fed) && call_ensures(
                StreamingMarkdownFilter::flush,
                (b,),
                flushed,
            ) && *a == f && *b == *final(a) ==> md::filtered(s@) == Some(fed@ + flushed@),
        forall|a: &mut StreamingMarkdownFilter, s: &str, fed: String, tried: Option<String>|
            #![trigger call_ensures(StreamingMarkdownFilter::feed, (a, s), fed), call_ensures(StreamingMarkdownFilter::try_feed, (a, s), tried)]
            call_ensures(StreamingMarkdownFilter::feed, (a, s), fed) && call_ensures(
                StreamingMarkdownFilter::try_feed,
                (a, s),
                tried,
            ) ==> tried is Some && tried->0@ == fed@,
        forall|a: &mut StreamingMarkdownFilter, flushed: String, tried: Option<String>|
            #![trigger call_ensures(StreamingMarkdownFilter::flush, (a,), flushed), call_ensures(StreamingMarkdownFilter::try_flush, (a,), tried)]
            call_ensures(StreamingMarkdownFilter::flush, (a,), flushed) && call_ensures(
                StreamingMarkdownFilter::try_flush,
                (a,),
                tried,
            ) ==> tried is Some && tried->0@ == flushed@,
{
}

} // verus!
