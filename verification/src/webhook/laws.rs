//! What becomes of the news, said of what Seerr sends.

use crate::json::JsonView;
use crate::state::{Entry, first_of, lemma_first_is_entry, lemma_nobody_has_no_entry, nobody};
use crate::text::{decimal_int, parsed_i64, trimmed, white_space};
use crate::webhook::{
    NewsEvent, NewsStageView, NewsStepView, Payload, WebhookState, loose_id_of, news_stepped,
};
use vstd::prelude::*;

verus! {

/// News is read only where it comes with the token, letter for letter; where
/// it comes with another or with none, it is turned away as such.
pub proof fn law_only_the_token_opens(
    state: WebhookState,
    directory: Seq<Entry>,
    token: Option<String>,
)
    requires
        state.token@.len() > 0,
    ensures
        ({
            let step = news_stepped(
                state,
                directory,
                NewsStageView::Arrived,
                NewsEvent::Posted { token },
            ).0;
            &&& step is Read <==> (token matches Some(offered) && offered@ == state.token@)
            &&& !(step is Read) ==> step == (NewsStepView::Answer { status: 401 })
        }),
{
    reveal_strlit("");
}

/// News that something has arrived, or has failed for good, is passed on if it
/// names the wish, under the words for that; whatever else Seerr has to say is
/// taken note of and goes no further. A body that makes no sense is refused.
pub proof fn law_which_news_is_passed_on(
    state: WebhookState,
    directory: Seq<Entry>,
    payload: Payload,
)
    ensures
        ({
            let stepped = news_stepped(
                state,
                directory,
                NewsStageView::Trusted,
                NewsEvent::Body(Some(payload)),
            );
            let arrived = payload.notification_type@ == "MEDIA_AVAILABLE"@;
            let failed = payload.notification_type@ == "MEDIA_FAILED"@;
            let wish = match payload.request {
                Some(part) => part.request_id,
                None => None,
            };
            if (arrived || failed) && wish is Some {
                &&& stepped.0 == (NewsStepView::Ask { request_id: wish->0 })
                &&& stepped.1 == (NewsStageView::Asked {
                    key: if arrived {
                        "available.ready"@
                    } else {
                        "available.failed"@
                    },
                    title: payload.subject@,
                })
            } else {
                stepped.0 == (NewsStepView::Answer { status: 200 })
            }
        }),
        news_stepped(state, directory, NewsStageView::Trusted, NewsEvent::Body(None)).0 == (
        NewsStepView::Answer { status: 400 }),
{
}

/// The message goes to the account of the person whom Seerr names as the one
/// who asked, in their language, with the title and the address of the player
/// in it. To somebody who is not known none goes.
pub proof fn law_the_news_goes_to_the_person(
    state: WebhookState,
    directory: Seq<Entry>,
    key: Seq<char>,
    title: Seq<char>,
    name: String,
    at: int,
)
    ensures
        ({
            let step = news_stepped(
                state,
                directory,
                NewsStageView::Asked { key, title },
                NewsEvent::Requester(Some(name)),
            ).0;
            &&& first_of(directory, name@, at) ==> step == (NewsStepView::Send {
                to: directory[at].aci@,
                text: state.catalogue.says(
                    directory[at].locale,
                    key,
                    seq![("title"@, title), ("url"@, state.jellyfin_url@)],
                ),
            })
            &&& nobody(directory, name@) ==> step == (NewsStepView::Answer { status: 200 })
        }),
        news_stepped(
            state,
            directory,
            NewsStageView::Asked { key, title },
            NewsEvent::Requester(None),
        ).0 == (NewsStepView::Answer { status: 200 }),
{
    if first_of(directory, name@, at) {
        lemma_first_is_entry(directory, name@, at);
    }
    if nobody(directory, name@) {
        lemma_nobody_has_no_entry(directory, name@);
    }
}

/// A number is read whether it stands in quotes or not, and nothing between
/// the quotes is no number.
pub proof fn law_a_number_may_be_quoted(id: i64)
    ensures
        loose_id_of(JsonView::Text(decimal_int(id as int))) == Some(id),
        loose_id_of(JsonView::Text(Seq::empty())) is None,
        loose_id_of(JsonView::Null) is None,
{
    crate::text::laws::law_a_written_integer_is_read_back(id);
    crate::dialog::words::lemma_a_number_is_a_word(id);
    let number = decimal_int(id as int);
    assert(!white_space(number[0]));
    assert(!white_space(number[number.len() - 1]));
    assert(trimmed(number) == number);
    assert(trimmed(Seq::<char>::empty()) == Seq::<char>::empty());
    assert(parsed_i64(Seq::<char>::empty()) is None);
}

} // verus!
