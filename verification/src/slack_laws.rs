//! What holds of Slack as a whole: which requests are answered and how, which events are
//! messages and for whom, and what is handed on of them.
use crate::chat::RefusalView;
use crate::config::{SlackMode, SlackView};
use crate::json::{entry, JsonView};
use crate::message_laws::lemma_blank;
use crate::orchestrator::MessageView;
use crate::outside::{hex_bytes, hmac_sha256, json_of_bytes, utf8_lossy};
use crate::slack::{
    answer_body, event_message, event_of, events_answer, setup_error, signed_by, slack_incoming,
    SlackAnswerView, SlackHeadersView, SlackMessageView, SlackSetupError,
};
use crate::text::{
    contains_text, has_prefix, is_space, matches_at, present, replaced, trimmed, CharSet,
};
use crate::text_laws::{all_in, bare, law_bare_stays, law_trim_twice};
use vstd::prelude::*;
use vstd::utf8::encode_utf8;

verus! {

// Setting up.
/// Whether there is more than white space.
pub open spec fn is_there(o: Option<Seq<char>>) -> bool {
    o matches Some(s) && exists|i: int| 0 <= i < s.len() && !is_space(#[trigger] s[i])
}

/// What is there is found to be there.
pub proof fn lemma_is_there(o: Option<Seq<char>>)
    ensures
        present(o) is Some <==> is_there(o),
{
    if let Some(s) = o {
        if !is_there(o) {
            assert(all_in(s, CharSet::Space));
            lemma_blank(s);
        } else if trimmed(s).len() == 0 {
            let i = choose|i: int| 0 <= i < s.len() && !is_space(#[trigger] s[i]);
            lemma_trim_keeps(s, i);
        }
    }
}

proof fn lemma_trim_keeps(s: Seq<char>, i: int)
    requires
        0 <= i < s.len(),
        !is_space(s[i]),
    ensures
        trimmed(s).len() > 0,
    decreases s.len(),
{
    let set = CharSet::Space;
    if set.has(s[0]) {
        assert(s.skip(1)[i - 1] == s[i]);
        lemma_trim_keeps(s.skip(1), i - 1);
        assert(crate::text::trim_start_of(s, set) == crate::text::trim_start_of(s.skip(1), set));
    } else {
        crate::text::lemma_trim_end(s, set);
    }
}

/// Of what is missing, the setting to set is told.
pub proof fn law_missing_settings_are_told()
    ensures
        SlackSetupError::NoBotToken.text()
            == "slack.enabled requires slack.bot_token for outbound replies"@,
        SlackSetupError::NoSigningSecret.text()
            == "slack.enabled with events_api mode requires slack.signing_secret"@,
        SlackSetupError::NoAppToken.text()
            == "slack.enabled with socket mode requires slack.app_token"@,
{
}

/// Slack can work where it is off, or where there is a token to reply with and what its
/// mode takes: a secret for signatures, or a token for the socket. What is missing first
/// is told.
pub proof fn law_setup_is_checked(slack: SlackView)
    ensures
        !slack.enabled ==> setup_error(slack) is None,
        slack.enabled && !is_there(slack.bot_token) ==> setup_error(slack) == Some(
            SlackSetupError::NoBotToken,
        ),
        slack.enabled && is_there(slack.bot_token) && slack.mode == SlackMode::EventsApi ==> if is_there(
            slack.signing_secret,
        ) {
            setup_error(slack) is None
        } else {
            setup_error(slack) == Some(SlackSetupError::NoSigningSecret)
        },
        slack.enabled && is_there(slack.bot_token) && slack.mode == SlackMode::Socket ==> if is_there(
            slack.app_token,
        ) {
            setup_error(slack) is None
        } else {
            setup_error(slack) == Some(SlackSetupError::NoAppToken)
        },
{
    lemma_is_there(slack.bot_token);
    lemma_is_there(slack.signing_secret);
    lemma_is_there(slack.app_token);
}

// Requests.
/// What is signed is the time and the body: a request that is taken for signed carries
/// the code of `v0:`, its time, `:` and its body under the secret, behind `v0=`.
pub proof fn law_signatures_cover_time_and_body(
    secret: Seq<char>,
    headers: SlackHeadersView,
    body: Seq<u8>,
    now: int,
)
    requires
        signed_by(secret, headers, body, now),
    ensures
        headers.signature is Some && headers.timestamp is Some,
        has_prefix(headers.signature->0, "v0="@),
        hex_bytes(headers.signature->0.skip(3)) == hmac_sha256(
            encode_utf8(secret),
            encode_utf8("v0:"@ + headers.timestamp->0 + ":"@ + utf8_lossy(body)),
        ),
{
    reveal_strlit("v0=");
}

/// A request is refused where Slack is off, is heard on a socket, or has no secret.
pub proof fn law_requests_are_refused(
    slack: SlackView,
    headers: SlackHeadersView,
    body: Seq<u8>,
    now: int,
)
    ensures
        !slack.enabled ==> events_answer(slack, headers, body, now) == SlackAnswerView::Refused(
            RefusalView { status: 404, error: "slack integration disabled"@ },
        ),
        slack.enabled && slack.mode == SlackMode::Socket ==> events_answer(
            slack,
            headers,
            body,
            now,
        ) == SlackAnswerView::Refused(
            RefusalView {
                status: 404,
                error: "slack socket mode enabled; webhook endpoint disabled"@,
            },
        ),
        slack.enabled && slack.mode == SlackMode::EventsApi && slack.signing_secret is None
            ==> events_answer(slack, headers, body, now) == SlackAnswerView::Refused(
            RefusalView { status: 500, error: "slack signing secret is not configured"@ },
        ),
{
}

/// A request that is signed is answered by what it says: a challenge is sent back, an
/// event is taken on as it is, anything else is taken and left. One that cannot be read
/// is refused.
pub proof fn law_signed_requests_are_answered(
    slack: SlackView,
    headers: SlackHeadersView,
    body: Seq<u8>,
    now: int,
)
    requires
        slack.enabled,
        slack.mode == SlackMode::EventsApi,
        slack.signing_secret is Some,
        signed_by(slack.signing_secret->0, headers, body, now),
    ensures
        ({
            let answer = events_answer(slack, headers, body, now);
            &&& json_of_bytes(body) matches Err(complaint) ==> answer == SlackAnswerView::Refused(
                RefusalView { status: 400, error: "invalid json: "@ + complaint },
            )
            &&& json_of_bytes(body) matches Ok(payload) ==> {
                let kind = payload.text_at("type"@);
                &&& kind == Some("event_callback"@) ==> answer == SlackAnswerView::Taken(
                    Some(payload),
                )
                &&& kind == Some("url_verification"@) ==> (payload.text_at("challenge"@)
                    matches Some(s) ==> answer == SlackAnswerView::Challenge(s))
                &&& kind == Some("url_verification"@) && payload.text_at("challenge"@) is None
                    ==> answer == SlackAnswerView::Challenge(seq![])
                &&& kind != Some("event_callback"@) && kind != Some("url_verification"@)
                    ==> answer == SlackAnswerView::Taken(None)
            }
        }),
{
    reveal_strlit("event_callback");
    reveal_strlit("url_verification");
    assert("event_callback"@.len() != "url_verification"@.len());
}

/// How answers go out.
pub proof fn law_answers_go_out(refusal: RefusalView, text: Seq<char>, event: Option<JsonView>)
    ensures
        ({
            let (status, body) = answer_body(SlackAnswerView::Refused(refusal));
            status == refusal.status && body.text_at("error"@) == Some(refusal.error)
        }),
        ({
            let (status, body) = answer_body(SlackAnswerView::Challenge(text));
            status == 200 && body.text_at("challenge"@) == Some(text)
        }),
        ({
            let (status, body) = answer_body(SlackAnswerView::Taken(event));
            status == 200 && body.true_at("ok"@)
        }),
{
    reveal_with_fuel(entry, 2);
}

// Events.
/// What stands in a text where a bot is mentioned.
pub open spec fn mention_of(id: Seq<char>) -> Seq<char> {
    "<@"@ + id + ">"@
}

/// Whether an event is a message of a person: a mention or a message, not by a bot, and
/// not an edit or the like.
pub open spec fn from_a_person(event: JsonView) -> bool {
    &&& event.text_at("type"@) == Some("app_mention"@) || event.text_at("type"@) == Some(
        "message"@,
    )
    &&& event.get("bot_id"@) is None
    &&& event.text_at("subtype"@) is None || event.text_at("subtype"@) == Some(
        "thread_broadcast"@,
    )
}

/// Whether a message in a channel is for the bot: a mention always is, what is said
/// elsewhere than in a channel of many is, and there what mentions the bot is; where it
/// is not known who the bot is, everything is.
pub open spec fn for_the_bot(slack: SlackView, event: JsonView) -> bool {
    let channel = event.text_at("channel"@)->0;
    ||| event.text_at("type"@) == Some("app_mention"@)
    ||| channel[0] != 'C' && channel[0] != 'G'
    ||| slack.bot_user_id is None
    ||| contains_text(event.text_at("text"@)->0, mention_of(slack.bot_user_id->0))
}

/// A message of a person for the bot is heard, with its channel, its user, the thread it
/// is in or else starts, and in a session of that channel and thread. No other event is.
pub proof fn law_messages_are_heard(slack: SlackView, event: JsonView)
    requires
        event.text_at("channel"@) matches Some(c) && c.len() > 0,
        is_there(event.text_at("text"@)),
    ensures
        event_message(slack, event) is Some <==> from_a_person(event) && for_the_bot(slack, event),
        event_message(slack, event) matches Some(m) ==> {
            let channel = event.text_at("channel"@)->0;
            &&& m.channel == channel
            &&& m.user == event.text_at("user"@)
            &&& event.text_at("thread_ts"@) matches Some(ts) ==> m.thread_ts == Some(ts)
                && m.session == "slack:"@ + channel + ":"@ + ts
            &&& event.text_at("thread_ts"@) is None ==> (event.text_at("ts"@) matches Some(ts)
                ==> m.thread_ts == Some(ts) && m.session == "slack:"@ + channel + ":"@ + ts)
            &&& event.text_at("thread_ts"@) is None && event.text_at("ts"@) is None
                ==> m.thread_ts is None && m.session == "slack:"@ + channel + ":root"@
        },
{
    let channel = event.text_at("channel"@)->0;
    let text = event.text_at("text"@)->0;
    lemma_is_there(event.text_at("text"@));
    reveal_strlit("C");
    reveal_strlit("G");
    reveal_strlit("app_mention");
    reveal_strlit("message");
    reveal_strlit("thread_broadcast");
    reveal_strlit(":root");
    reveal_strlit(":");
    reveal_strlit("root");
    assert("app_mention"@.len() == 11 && "message"@.len() == 7);
    assert(":"@ + "root"@ =~= ":root"@);
    assert("slack:"@ + channel + ":"@ + "root"@ =~= "slack:"@ + channel + ":root"@);
    if has_prefix(channel, "C"@) {
        assert(channel.take(1)[0] == 'C');
    } else if channel[0] == 'C' {
        assert(channel.take(1) =~= "C"@);
    }
    if has_prefix(channel, "G"@) {
        assert(channel.take(1)[0] == 'G');
    } else if channel[0] == 'G' {
        assert(channel.take(1) =~= "G"@);
    }
}

/// An event without a channel, or without a text, is not heard.
pub proof fn law_empty_events_are_not_heard(slack: SlackView, event: JsonView)
    requires
        !(event.text_at("channel"@) matches Some(c) && c.len() > 0) || !is_there(
            event.text_at("text"@),
        ),
    ensures
        event_message(slack, event) is None,
{
    lemma_is_there(event.text_at("text"@));
}

/// What is heard of a payload is heard of the event in it; of a payload without one nothing
/// is heard.
pub proof fn law_events_stand_in_payloads(slack: SlackView, payload: JsonView)
    ensures
        payload.get("event"@) matches Some(event) ==> event_of(payload) == event,
        payload.get("event"@) is None ==> event_message(slack, event_of(payload)) is None,
{
    if payload.get("event"@) is None {
        law_empty_events_are_not_heard(slack, event_of(payload));
    }
}

/// What is heard of a message is its text without the white space around it, and without
/// the mentions of the bot; where it is mentioned once, what stands around that.
pub proof fn law_mentions_are_taken_out(
    slack: SlackView,
    event: JsonView,
    a: Seq<char>,
    b: Seq<char>,
)
    requires
        event_message(slack, event) is Some,
    ensures
        ({
            let text = event.text_at("text"@)->0;
            let heard = event_message(slack, event)->0.text;
            &&& slack.bot_user_id is None ==> heard == trimmed(text)
            &&& slack.bot_user_id matches Some(id) ==> heard == trimmed(
                replaced(text, mention_of(id), seq![]),
            )
            &&& slack.bot_user_id matches Some(id) ==> !contains_text(text, mention_of(id))
                ==> heard == trimmed(text)
            &&& slack.bot_user_id matches Some(id) ==> (text == a + mention_of(id) + b && forall|
                j: int,
            |
                #[trigger] matches_at(text, mention_of(id), j) ==> j == a.len()) ==> heard
                == trimmed(a + b)
        }),
{
    let text = event.text_at("text"@)->0;
    lemma_is_there(event.text_at("text"@));
    assert(event.text_at("text"@) is Some) by {
        if event.text_at("text"@) is None {
            assert(trimmed(Seq::<char>::empty()).len() == 0);
        }
    }
    law_trim_twice(text, CharSet::Space);
    if let Some(id) = slack.bot_user_id {
        let m = mention_of(id);
        reveal_strlit("<@");
        assert(m.len() > 0);
        law_trim_twice(replaced(text, m, seq![]), CharSet::Space);
        if !contains_text(text, m) {
            crate::text::lemma_find_text(text, m);
            assert(replaced(text, m, seq![]) == text);
        }
        if text == a + m + b && forall|j: int| #[trigger] matches_at(text, m, j) ==> j == a.len() {
            crate::config_laws::law_replaced_once(a, m, b, seq![]);
            assert(a + seq![] + b =~= a + b);
            law_trim_twice(a + b, CharSet::Space);
        }
    }
}

/// What is handed on of a message of Slack: its text, then what is said of its files,
/// in its session, from its user and for no agent in particular. A message of nothing
/// is not handed on.
pub proof fn law_messages_are_handed_on(m: SlackMessageView, files: Seq<char>)
    ensures
        bare(m.text, CharSet::Space) ==> slack_incoming(m, None) == Some(
            MessageView {
                source: "slack"@,
                user: m.user,
                session: Some(m.session),
                agent_id: None,
                text: m.text,
            },
        ),
        m.text.len() == 0 ==> slack_incoming(m, None) is None,
        bare(m.text, CharSet::Space) && bare(files, CharSet::Space) ==> slack_incoming(
            m,
            Some(files),
        ) == Some(
            MessageView {
                source: "slack"@,
                user: m.user,
                session: Some(m.session),
                agent_id: None,
                text: m.text + "\n\n"@ + files,
            },
        ),
        m.text.len() == 0 && bare(files, CharSet::Space) ==> slack_incoming(m, Some(files))
            == Some(
            MessageView {
                source: "slack"@,
                user: m.user,
                session: Some(m.session),
                agent_id: None,
                text: files,
            },
        ),
{
    if bare(m.text, CharSet::Space) {
        law_bare_stays(m.text, CharSet::Space);
    }
    if bare(files, CharSet::Space) {
        law_bare_stays(files, CharSet::Space);
    }
    if bare(m.text, CharSet::Space) && bare(files, CharSet::Space) {
        let both = m.text + "\n\n"@ + files;
        assert(both[0] == m.text[0] && both.last() == files.last());
        law_bare_stays(both, CharSet::Space);
    }
}

} // verus!
