//! The news that Seerr posts: a wish is there, or it failed.

pub mod laws;

use crate::i18n::{Catalogue, arg_views};
use crate::json::{Json, JsonView};
use crate::model::Aci;
use crate::secret::Secret;
use crate::state::{Entry, State, entry_of};
use crate::text::{parse_i64, parsed_i64, same, trim, trimmed};
use vstd::prelude::*;

verus! {

/// What Seerr posts.
#[derive(Debug, PartialEq)]
pub struct Payload {
    pub notification_type: String,
    /// Seerr's own line about it: the title and the year.
    pub subject: String,
    pub request: Option<RequestPart>,
}

/// The part about the wish. Its number is the only thing taken from it: the
/// name that Seerr can put in is one that a person sets themselves.
#[derive(Debug, PartialEq)]
pub struct RequestPart {
    pub request_id: Option<i64>,
}

/// The number that a field holds, as a number or in quotes. Seerr puts quotes
/// around it, with nothing between them where there is no wish.
pub open spec fn loose_id_of(value: JsonView) -> Option<i64> {
    match value {
        JsonView::Number(number) => number.signed,
        JsonView::Text(text) => parsed_i64(trimmed(text)),
        _ => None,
    }
}

/// Reads a number that may be in quotes. Anything else is no number and no
/// error: news that makes no sense is dropped, and never sent again.
pub fn loose_id(value: &Json) -> (r: Option<i64>)
    ensures
        r == loose_id_of(value@),
{
    match value {
        Json::Number(number) => number.signed,
        Json::Text(text) => parse_i64(trim(text.as_str())),
        _ => None,
    }
}

/// What decides about the news.
pub struct WebhookState {
    pub catalogue: Catalogue,
    pub token: Secret,
    pub jellyfin_url: String,
}

/// How far the news has come.
pub enum NewsStage {
    /// It has arrived, and nothing of it was read.
    Arrived,
    /// It came with the right token.
    Trusted,
    /// It is about a wish; who made it has been asked for.
    Asked { key: &'static str, title: String },
    /// The message has been handed over.
    Told,
}

/// News on its way to a person.
pub struct News {
    pub stage: NewsStage,
}

/// What happened to the news.
pub enum NewsEvent {
    /// It was posted with this token, or with none.
    Posted { token: Option<String> },
    /// Its body was read, or could not be.
    Body(Option<Payload>),
    /// Seerr named the person who asked, or did not, or did not answer.
    Requester(Option<String>),
    /// The message was sent, or could not be.
    Sent,
}

/// What to do next about the news.
#[derive(Debug, PartialEq)]
pub enum NewsStep {
    /// Read its body.
    Read,
    /// Ask Seerr who made this wish.
    Ask { request_id: i64 },
    Send { to: Aci, text: String },
    /// Answer with this status.
    Answer { status: u16 },
}

/// What a [`NewsStep`] says.
pub enum NewsStepView {
    Read,
    Ask { request_id: i64 },
    Send { to: Seq<char>, text: Seq<char> },
    Answer { status: u16 },
}

impl View for NewsStep {
    type V = NewsStepView;

    open spec fn view(&self) -> NewsStepView {
        match self {
            NewsStep::Read => NewsStepView::Read,
            NewsStep::Ask { request_id } => NewsStepView::Ask { request_id: *request_id },
            NewsStep::Send { to, text } => NewsStepView::Send { to: to@, text: text@ },
            NewsStep::Answer { status } => NewsStepView::Answer { status: *status },
        }
    }
}

/// What a [`NewsStage`] holds.
pub enum NewsStageView {
    Arrived,
    Trusted,
    Asked { key: Seq<char>, title: Seq<char> },
    Told,
}

impl View for NewsStage {
    type V = NewsStageView;

    open spec fn view(&self) -> NewsStageView {
        match self {
            NewsStage::Arrived => NewsStageView::Arrived,
            NewsStage::Trusted => NewsStageView::Trusted,
            NewsStage::Asked { key, title } => NewsStageView::Asked { key: key@, title: title@ },
            NewsStage::Told => NewsStageView::Told,
        }
    }
}

/// The statuses of the answers.
pub const OK: u16 = 200;

pub const BAD_REQUEST: u16 = 400;

pub const UNAUTHORIZED: u16 = 401;

/// The message for a kind of news; nothing for news that is not passed on.
pub open spec fn key_of(notification_type: Seq<char>) -> Option<Seq<char>> {
    if notification_type == "MEDIA_AVAILABLE"@ {
        Some("available.ready"@)
    } else if notification_type == "MEDIA_FAILED"@ {
        Some("available.failed"@)
    } else {
        None
    }
}

/// The wish that news is about.
pub open spec fn wish_named(payload: Payload) -> Option<i64> {
    match payload.request {
        Some(part) => part.request_id,
        None => None,
    }
}

/// The token that came with the news; none is an empty one.
pub open spec fn token_offered(token: Option<String>) -> Seq<char> {
    match token {
        Some(token) => token@,
        None => ""@,
    }
}

/// The message about a wish, in the language of the person.
pub open spec fn news_said(
    state: WebhookState,
    entry: Entry,
    key: Seq<char>,
    title: Seq<char>,
) -> Seq<char> {
    state.catalogue.says(
        entry.locale,
        key,
        seq![("title"@, title), ("url"@, state.jellyfin_url@)],
    )
}

/// What comes of an event: what to do next, and how far the news is.
///
/// Everything past the token is answered with success unless the body makes
/// no sense. Seerr sends again what is not answered so, and sending again
/// repairs neither news that is not passed on nor a message that did not go.
pub open spec fn news_stepped(
    state: WebhookState,
    directory: Seq<Entry>,
    stage: NewsStageView,
    event: NewsEvent,
) -> (NewsStepView, NewsStageView) {
    let ok = (NewsStepView::Answer { status: OK }, NewsStageView::Told);
    match (stage, event) {
        (NewsStageView::Arrived, NewsEvent::Posted { token }) => if token_offered(token)
            == state.token@ {
            (NewsStepView::Read, NewsStageView::Trusted)
        } else {
            (NewsStepView::Answer { status: UNAUTHORIZED }, NewsStageView::Arrived)
        },
        (NewsStageView::Trusted, NewsEvent::Body(None)) => (
            NewsStepView::Answer { status: BAD_REQUEST },
            NewsStageView::Told,
        ),
        (NewsStageView::Trusted, NewsEvent::Body(Some(payload))) => match key_of(
            payload.notification_type@,
        ) {
            Some(key) => match wish_named(payload) {
                Some(request_id) => (
                    NewsStepView::Ask { request_id },
                    NewsStageView::Asked { key, title: payload.subject@ },
                ),
                None => ok,
            },
            None => ok,
        },
        (NewsStageView::Asked { key, title }, NewsEvent::Requester(Some(name))) => match entry_of(
            directory,
            name@,
        ) {
            Some(entry) => (
                NewsStepView::Send { to: entry.aci@, text: news_said(state, entry, key, title) },
                NewsStageView::Told,
            ),
            None => ok,
        },
        (NewsStageView::Asked { .. }, NewsEvent::Requester(None)) => ok,
        (NewsStageView::Told, _) => ok,
        // What comes out of turn leaves the news where it is.
        _ => (NewsStepView::Answer { status: BAD_REQUEST }, stage),
    }
}

impl News {
    /// News that has just arrived.
    pub fn new() -> (r: News)
        ensures
            r.stage@ == NewsStageView::Arrived,
    {
        News { stage: NewsStage::Arrived }
    }

    /// What to do next about the news. The token comes before everything:
    /// without it nothing is read.
    pub fn step(&mut self, state: &WebhookState, directory: &State, event: NewsEvent) -> (r:
        NewsStep)
        ensures
            (r@, final(self).stage@) == news_stepped(
                *state,
                directory@,
                old(self).stage@,
                event,
            ),
    {
        let mut stage = NewsStage::Told;
        std::mem::swap(&mut stage, &mut self.stage);
        match (stage, event) {
            (NewsStage::Arrived, NewsEvent::Posted { token }) => {
                let right = match &token {
                    Some(token) => state.token.matches(token.as_str()),
                    None => state.token.matches(""),
                };
                if right {
                    self.stage = NewsStage::Trusted;
                    NewsStep::Read
                } else {
                    self.stage = NewsStage::Arrived;
                    NewsStep::Answer { status: UNAUTHORIZED }
                }
            },
            (NewsStage::Trusted, NewsEvent::Body(None)) => NewsStep::Answer {
                status: BAD_REQUEST,
            },
            (NewsStage::Trusted, NewsEvent::Body(Some(payload))) => {
                let kind = payload.notification_type.as_str();
                let key = if same(kind, "MEDIA_AVAILABLE") {
                    "available.ready"
                } else if same(kind, "MEDIA_FAILED") {
                    "available.failed"
                } else {
                    return NewsStep::Answer { status: OK };
                };
                let request_id: i64 = match payload.request {
                    Some(RequestPart { request_id: Some(id) }) => id,
                    _ => {
                        return NewsStep::Answer { status: OK };
                    },
                };
                self.stage = NewsStage::Asked { key, title: payload.subject };
                NewsStep::Ask { request_id }
            },
            (NewsStage::Asked { key, title }, NewsEvent::Requester(Some(name))) => {
                match directory.by_user(name.as_str()) {
                    Some(entry) => {
                        let args = [("title", title.as_str()), ("url", state.jellyfin_url.as_str())];
                        assert(arg_views(args@) =~= seq![
                            ("title"@, title@),
                            ("url"@, state.jellyfin_url@),
                        ]);
                        let text = state.catalogue.text(entry.locale, key, &args);
                        NewsStep::Send { to: entry.aci.clone(), text }
                    },
                    None => NewsStep::Answer { status: OK },
                }
            },
            (NewsStage::Asked { .. }, NewsEvent::Requester(None)) => NewsStep::Answer {
                status: OK,
            },
            (NewsStage::Told, _) => NewsStep::Answer { status: OK },
            (stage, _) => {
                self.stage = stage;
                NewsStep::Answer { status: BAD_REQUEST }
            },
        }
    }
}

/// Whatever is posted with the wrong token is refused, and nothing of it is
/// read.
pub proof fn law_the_token_comes_first(
    state: WebhookState,
    directory: Seq<Entry>,
    token: Option<String>,
)
    ensures
        ({
            let (step, stage) = news_stepped(
                state,
                directory,
                NewsStageView::Arrived,
                NewsEvent::Posted { token },
            );
            &&& token_offered(token) != state.token@ ==> step == (NewsStepView::Answer {
                status: UNAUTHORIZED,
            }) && stage == NewsStageView::Arrived
            &&& token_offered(token) == state.token@ ==> step == NewsStepView::Read
        }),
{
}

/// Once the body is read, nothing that goes wrong is an error to Seerr: not
/// an unknown person, not a person without a Signal name, not a message that
/// could not be sent.
pub proof fn law_what_is_understood_is_accepted(
    state: WebhookState,
    directory: Seq<Entry>,
    stage: NewsStageView,
    event: NewsEvent,
)
    requires
        (stage is Trusted && event matches NewsEvent::Body(Some(_))) || (stage is Asked
            && event is Requester) || stage is Told,
    ensures
        news_stepped(state, directory, stage, event).0 matches NewsStepView::Answer { status }
            ==> status == OK,
{
}

/// A message goes only to the person whom Seerr names, at the account that
/// the directory has for them, in their language.
pub proof fn law_only_the_person_who_asked(
    state: WebhookState,
    directory: Seq<Entry>,
    stage: NewsStageView,
    event: NewsEvent,
)
    ensures
        news_stepped(state, directory, stage, event).0 matches NewsStepView::Send { to, text } ==> {
            &&& stage matches NewsStageView::Asked { key, title }
            &&& event matches NewsEvent::Requester(Some(name))
            &&& entry_of(directory, name@) matches Some(entry)
            &&& to == entry.aci@
            &&& text == news_said(state, entry, key, title)
        },
{
}

} // verus!
