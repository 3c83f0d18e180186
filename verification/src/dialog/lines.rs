//! What the lists and the answers say, said of what is listed.

use crate::arr::QueueItem;
use crate::dialog::listing::{
    PAGE, hit_said, hits_said, known_profiles, listing_said, offered, options_said, profile_named,
    question_said, titled,
};
use crate::dialog::overview::{
    Fetched, Overview, OverviewStage, OverviewStep, is_listed, listed_wishes, overview_stepped,
};
use crate::dialog::status::{named_language, reason_said, state_said, written_day};
use crate::dialog::{Call, Reply};
use crate::i18n::{Catalogue, Locale};
use crate::insight::{EvidenceView, judged};
use crate::model::{
    Hit, MediaKind, PartCountsView, QualityProfile, ReasonView, Wish, WishStateView, opt_reason,
};
use crate::moment::{Timestamp, calendar, two_digits};
use crate::notices::NoticesView;
use crate::text::{decimal, decimal_int, joined_by, occurs, stands_at, views};
use crate::watch::laws::law_the_queue_entry_of_a_title;
use crate::watch::round::item_of;
use vstd::prelude::*;

verus! {

proof fn lemma_occurs(front: Seq<char>, needle: Seq<char>, back: Seq<char>)
    ensures
        occurs(front + needle + back, needle),
{
    let hay = front + needle + back;
    let at = front.len() as int;
    assert(hay.subrange(at, at + needle.len()) =~= needle);
    assert(stands_at(hay, at, needle));
}

/// A line of a list: the number, and the title behind it.
pub open spec fn numbered(number: nat, hit: Hit) -> Seq<char> {
    decimal(number) + ". "@ + hit.title@
}

proof fn lemma_hit_is_numbered(catalogue: Catalogue, locale: Locale, number: nat, hit: Hit) -> (rest:
    Seq<char>)
    ensures
        hit_said(catalogue, locale, number, hit) == numbered(number, hit) + rest,
{
    let line = hit_said(catalogue, locale, number, hit);
    let head = numbered(number, hit);
    let rest = line.skip(head.len() as int);
    assert(head.is_prefix_of(line)) by {
        assert(line.take(head.len() as int) =~= head);
    }
    assert(line =~= head + rest);
    rest
}

proof fn lemma_hits_are_numbered(
    catalogue: Catalogue,
    locale: Locale,
    hits: Seq<Hit>,
    count: nat,
    i: int,
)
    requires
        0 <= i < count <= hits.len(),
    ensures
        exists|front: Seq<char>, back: Seq<char>| #[trigger]
            (front + numbered((i + 1) as nat, hits[i]) + back) == hits_said(
                catalogue,
                locale,
                hits,
                count,
            ),
    decreases count,
{
    let said = hits_said(catalogue, locale, hits, count);
    let before = hits_said(catalogue, locale, hits, (count - 1) as nat);
    let line = hit_said(catalogue, locale, count, hits[count - 1]);
    if i == count - 1 {
        let rest = lemma_hit_is_numbered(catalogue, locale, count, hits[i]);
        assert(before + numbered((i + 1) as nat, hits[i]) + rest =~= said);
    } else {
        lemma_hits_are_numbered(catalogue, locale, hits, (count - 1) as nat, i);
        let (front, back) = choose|front: Seq<char>, back: Seq<char>| #[trigger]
            (front + numbered((i + 1) as nat, hits[i]) + back) == before;
        assert(front + numbered((i + 1) as nat, hits[i]) + (back + line) =~= said);
    }
}

/// The number under which a result stands is the one that it is chosen by:
/// each of the first five results stands in the list with its own number in
/// front of its title. What comes after the fifth is not shown.
pub proof fn law_results_are_numbered(catalogue: Catalogue, locale: Locale, hits: Seq<Hit>, i: int)
    ensures
        0 <= i < hits.len() && i < 5 ==> occurs(
            listing_said(catalogue, locale, hits),
            decimal((i + 1) as nat) + ". "@ + hits[i].title@,
        ),
        hits.len() > 5 ==> listing_said(catalogue, locale, hits) == listing_said(
            catalogue,
            locale,
            hits.take(5),
        ),
{
    let count: nat = if hits.len() < 5 {
        hits.len()
    } else {
        5
    };
    assert(PAGE == 5);
    if 0 <= i < hits.len() && i < 5 {
        lemma_hits_are_numbered(catalogue, locale, hits, count, i);
        let line = numbered((i + 1) as nat, hits[i]);
        let (front, back) = choose|front: Seq<char>, back: Seq<char>| #[trigger]
            (front + line + back) == hits_said(catalogue, locale, hits, count);
        let footer = "\n"@ + catalogue.says(locale, "search.footer"@, Seq::empty());
        assert(front + line + (back + footer) =~= listing_said(catalogue, locale, hits));
        lemma_occurs(front, line, back + footer);
    }
    if hits.len() > 5 {
        lemma_only_the_first(catalogue, locale, hits, hits.take(5), 5);
    }
}

proof fn lemma_only_the_first(
    catalogue: Catalogue,
    locale: Locale,
    a: Seq<Hit>,
    b: Seq<Hit>,
    count: nat,
)
    requires
        count <= a.len(),
        count <= b.len(),
        forall|i: int| 0 <= i < count ==> #[trigger] a[i] == b[i],
    ensures
        hits_said(catalogue, locale, a, count) == hits_said(catalogue, locale, b, count),
    decreases count,
{
    if count > 0 {
        lemma_only_the_first(catalogue, locale, a, b, (count - 1) as nat);
        assert(a[count - 1] == b[count - 1]);
    }
}

/// A line says what there is to know about a result: behind the title its
/// year, the word for its kind, its rating, and that it is there already,
/// each exactly where there is something to say.
pub proof fn law_a_line_says_what_is_known(
    catalogue: Catalogue,
    locale: Locale,
    number: nat,
    hit: Hit,
)
    ensures
        ({
            let kind = catalogue.says(
                locale,
                if hit.kind == MediaKind::Movie {
                    "search.kind_movie"@
                } else {
                    "search.kind_tv"@
                },
                Seq::empty(),
            );
            let title = match hit.year {
                Some(year) => hit.title@ + " ("@ + decimal(year as nat) + ")"@,
                None => hit.title@,
            };
            let line = decimal(number) + ". "@ + title + " · "@ + kind;
            let rated = match hit.rating {
                Some(rating) => line + " · ★ "@ + rating@,
                None => line,
            };
            hit_said(catalogue, locale, number, hit) == if hit.already {
                rated + " · "@ + catalogue.says(locale, "search.already"@, Seq::empty()) + "\n"@
            } else {
                rated + "\n"@
            }
        }),
{
    let kind = catalogue.says(
        locale,
        if hit.kind == MediaKind::Movie {
            "search.kind_movie"@
        } else {
            "search.kind_tv"@
        },
        Seq::empty(),
    );
    let line = decimal(number) + ". "@ + titled(hit) + " · "@ + kind;
    let rated = match hit.rating {
        Some(rating) => line + " · ★ "@ + rating@,
        None => line,
    };
    if hit.already {
        assert(hit_said(catalogue, locale, number, hit) =~= rated + " · "@ + catalogue.says(
            locale,
            "search.already"@,
            Seq::empty(),
        ) + "\n"@);
    } else {
        assert(hit_said(catalogue, locale, number, hit) =~= rated + "\n"@);
    }
}

/// Whether a profile is the first of its name in a list.
pub open spec fn is_first_named(
    listed: Seq<QualityProfile>,
    name: Seq<char>,
    profile: QualityProfile,
) -> bool {
    exists|i: int|
        0 <= i < listed.len() && listed[i] == profile && profile.name@ == name && forall|j: int|
            0 <= j < i ==> (#[trigger] listed[j]).name@ != name
}

proof fn lemma_first_named(listed: Seq<QualityProfile>, name: Seq<char>)
    ensures
        match profile_named(listed, name) {
            Some(profile) => is_first_named(listed, name, profile),
            None => forall|j: int| 0 <= j < listed.len() ==> (#[trigger] listed[j]).name@ != name,
        },
    decreases listed.len(),
{
    if listed.len() > 0 {
        let rest = listed.skip(1);
        lemma_first_named(rest, name);
        if listed[0].name@ == name {
            assert(listed[0] == listed[0]);
        } else {
            match profile_named(listed, name) {
                Some(profile) => {
                    let i = choose|i: int|
                        0 <= i < rest.len() && rest[i] == profile && profile.name@ == name
                            && forall|j: int| 0 <= j < i ==> (#[trigger] rest[j]).name@ != name;
                    assert(listed[i + 1] == profile);
                    assert forall|j: int| 0 <= j < i + 1 implies (#[trigger] listed[j]).name@
                        != name by {
                        if j > 0 {
                            assert(rest[j - 1] == listed[j]);
                        }
                    }
                },
                None => {
                    assert forall|j: int| 0 <= j < listed.len() implies (#[trigger] listed[j]).name@
                        != name by {
                        if j > 0 {
                            assert(rest[j - 1] == listed[j]);
                        }
                    }
                },
            }
        }
    }
}

/// Whether a choice of positions says where each offered profile stands among
/// the configured names.
pub open spec fn stands_for(
    places: Seq<int>,
    configured: Seq<Seq<char>>,
    listed: Seq<QualityProfile>,
    options: Seq<QualityProfile>,
) -> bool {
    &&& places.len() == options.len()
    &&& forall|i: int|
        0 <= i < places.len() ==> 0 <= #[trigger] places[i] < configured.len() && is_first_named(
            listed,
            configured[places[i]],
            options[i],
        )
    &&& forall|i: int, j: int| 0 <= i < j < places.len() ==> #[trigger] places[i] < #[trigger] places[j]
    &&& forall|c: int|
        #![trigger configured[c]]
        0 <= c < configured.len() ==> places.contains(c) || forall|j: int|
            0 <= j < listed.len() ==> (#[trigger] listed[j]).name@ != configured[c]
}

proof fn lemma_places(configured: Seq<Seq<char>>, listed: Seq<QualityProfile>) -> (places: Seq<
    int,
>)
    ensures
        stands_for(places, configured, listed, known_profiles(configured, listed)),
    decreases configured.len(),
{
    if configured.len() == 0 {
        Seq::empty()
    } else {
        let front = configured.drop_last();
        let before = lemma_places(front, listed);
        let last = configured.len() - 1;
        lemma_first_named(listed, configured.last());
        let options = known_profiles(configured, listed);
        let earlier = known_profiles(front, listed);
        match profile_named(listed, configured.last()) {
            Some(profile) => {
                let places = before.push(last);
                assert forall|i: int| 0 <= i < places.len() implies 0 <= #[trigger] places[i]
                    < configured.len() && is_first_named(
                    listed,
                    configured[places[i]],
                    options[i],
                ) by {
                    if i < before.len() {
                        assert(places[i] == before[i]);
                        assert(options[i] == earlier[i]);
                        assert(front[before[i]] == configured[before[i]]);
                    }
                }
                assert forall|c: int|
                    #![trigger configured[c]]
                    0 <= c < configured.len() implies places.contains(c) || forall|j: int|
                    0 <= j < listed.len() ==> (#[trigger] listed[j]).name@ != configured[c] by {
                    if c == last {
                        assert(places[before.len() as int] == c);
                    } else {
                        assert(front[c] == configured[c]);
                        if before.contains(c) {
                            let i = choose|i: int| 0 <= i < before.len() && before[i] == c;
                            assert(places[i] == c);
                        }
                    }
                }
                places
            },
            None => {
                assert forall|i: int| 0 <= i < before.len() implies 0 <= #[trigger] before[i]
                    < configured.len() && is_first_named(
                    listed,
                    configured[before[i]],
                    options[i],
                ) by {
                    assert(front[before[i]] == configured[before[i]]);
                }
                assert forall|c: int|
                    #![trigger configured[c]]
                    0 <= c < configured.len() implies before.contains(c) || forall|j: int|
                    0 <= j < listed.len() ==> (#[trigger] listed[j]).name@ != configured[c] by {
                    if c < last {
                        assert(front[c] == configured[c]);
                    }
                }
                before
            },
        }
    }
}

/// The profiles that are offered are those that are configured, in the order
/// in which they are configured: every one of them that Seerr lists, and no
/// other. Where none are configured they are Seerr's own, in its order.
pub proof fn law_the_configured_profiles_are_offered(
    configured: Seq<Seq<char>>,
    listed: Seq<QualityProfile>,
)
    ensures
        configured.len() == 0 ==> offered(configured, listed) == listed,
        configured.len() > 0 ==> exists|places: Seq<int>| #[trigger]
            stands_for(places, configured, listed, offered(configured, listed)),
{
    if configured.len() > 0 {
        let places = lemma_places(configured, listed);
        assert(stands_for(places, configured, listed, offered(configured, listed)));
    }
}

proof fn lemma_options_are_numbered(options: Seq<QualityProfile>, count: nat, i: int)
    requires
        0 <= i < count <= options.len(),
    ensures
        exists|front: Seq<char>, back: Seq<char>| #[trigger]
            (front + ("\n"@ + decimal((i + 1) as nat) + ". "@ + options[i].name@) + back)
                == options_said(options, count),
    decreases count,
{
    let said = options_said(options, count);
    let before = options_said(options, (count - 1) as nat);
    let line = "\n"@ + decimal((i + 1) as nat) + ". "@ + options[i].name@;
    if i == count - 1 {
        assert(before + line + Seq::<char>::empty() =~= said);
    } else {
        lemma_options_are_numbered(options, (count - 1) as nat, i);
        let (front, back) = choose|front: Seq<char>, back: Seq<char>| #[trigger]
            (front + line + back) == before;
        let last = "\n"@ + decimal(count) + ". "@ + options[count - 1].name@;
        assert(front + line + (back + last) =~= said);
    }
}

/// The question for a profile has each of them on a line of its own, with the
/// number that it is chosen by in front of its name.
pub proof fn law_profiles_are_numbered(
    catalogue: Catalogue,
    locale: Locale,
    title: Seq<char>,
    options: Seq<QualityProfile>,
    i: int,
)
    requires
        0 <= i < options.len(),
    ensures
        occurs(
            question_said(catalogue, locale, title, options),
            "\n"@ + decimal((i + 1) as nat) + ". "@ + options[i].name@,
        ),
{
    let line = "\n"@ + decimal((i + 1) as nat) + ". "@ + options[i].name@;
    lemma_options_are_numbered(options, options.len(), i);
    let (front, back) = choose|front: Seq<char>, back: Seq<char>| #[trigger]
        (front + line + back) == options_said(options, options.len());
    let sentence = catalogue.says(locale, "request.profile_question"@, seq![("title"@, title)]);
    assert((sentence + front) + line + back =~= question_said(catalogue, locale, title, options));
    lemma_occurs(sentence + front, line, back);
}

/// A wish is in the answer as long as it is open, and for one week after it
/// was made once it is there. The wishes keep their order, and none is left
/// out that belongs there.
pub proof fn law_which_wishes_are_listed(wishes: Seq<Wish>, now: Timestamp)
    ensures
        listed_wishes(wishes, now) == wishes.filter(
            |w: Wish|
                w.media_status != 5 || now.instant() - w.created_at.instant()
                    <= 604_800_000_000_000,
        ),
    decreases wishes.len(),
{
    let belongs = |w: Wish|
        w.media_status != 5 || now.instant() - w.created_at.instant() <= 604_800_000_000_000;
    reveal(Seq::filter);
    if wishes.len() > 0 {
        law_which_wishes_are_listed(wishes.drop_last(), now);
        assert(is_listed(wishes.last(), now) == belongs(wishes.last()));
    }
}

/// A line of the answer.
pub open spec fn answer_line(
    catalogue: Catalogue,
    locale: Locale,
    wish: Wish,
    title: Seq<char>,
    state: WishStateView,
) -> Seq<char> {
    catalogue.says(
        locale,
        "status.line"@,
        seq![
            ("id"@, decimal_int(wish.id as int)),
            ("title"@, title),
            ("state"@, state_said(catalogue, locale, state)),
        ],
    )
}

/// The reason that is on record for a wish.
pub open spec fn recorded_reason(record: Option<NoticesView>, wish: Wish) -> Option<ReasonView> {
    if record is Some && record->0.notes.contains_key(wish.id) {
        opt_reason(record->0.notes[wish.id].reason)
    } else {
        None
    }
}

/// Whether a step of the answer writes a line about the wish in turn that
/// says a state.
pub open spec fn writes(
    catalogue: Catalogue,
    locale: Locale,
    o: Overview,
    after: Overview,
    title: Seq<char>,
    state: WishStateView,
) -> bool {
    &&& o.at < usize::MAX ==> after.at == o.at + 1
    &&& views(after.lines@) == views(o.lines@).push(
        answer_line(catalogue, locale, o.wishes@[o.at as int], title, state),
    )
}

/// What was looked up about a film or a series is what its line goes by: the
/// film, or the episodes, and what happened last, with the reason on record.
/// Where the last lookup failed the line goes by the record alone.
pub proof fn law_a_line_goes_by_what_was_found(
    catalogue: Catalogue,
    locale: Locale,
    has_insight: bool,
    record: Option<NoticesView>,
    now: Timestamp,
    o: Overview,
    reply: Reply,
    after: Overview,
    step: OverviewStep,
)
    requires
        has_insight,
        o.at < o.wishes@.len(),
        o.stage == OverviewStage::History,
        overview_stepped(catalogue, locale, has_insight, record, now, o, reply, after, step),
    ensures
        ({
            let wish = o.wishes@[o.at as int];
            let title = match o.title {
                Some(title) => title@,
                None => catalogue.says(locale, "status.untitled"@, Seq::empty()),
            };
            let found = reply matches Reply::History(event) && event is Some;
            writes(
                catalogue,
                locale,
                o,
                after,
                title,
                judged(
                    wish,
                    EvidenceView {
                        movie: if found {
                            o.movie
                        } else {
                            None
                        },
                        series: if found {
                            o.facts
                        } else {
                            None
                        },
                        queue_item: None,
                        last_event: if found {
                            reply->History_0->0
                        } else {
                            None
                        },
                        known_reason: recorded_reason(record, wish),
                    },
                    now.instant(),
                ),
            )
        }),
{
}

/// Where neither Radarr nor Sonarr can be asked, an open wish goes by what
/// Seerr says about its download, and otherwise by the reason on record;
/// nothing but its title is looked up.
pub proof fn law_without_insight_seerr_is_taken_at_its_word(
    catalogue: Catalogue,
    locale: Locale,
    record: Option<NoticesView>,
    now: Timestamp,
    o: Overview,
    reply: Reply,
    after: Overview,
    step: OverviewStep,
    percent: u8,
)
    requires
        o.at < o.wishes@.len(),
        o.stage == OverviewStage::Title,
        overview_stepped(catalogue, locale, false, record, now, o, reply, after, step),
        crate::insight::laws::is_open(o.wishes@[o.at as int]),
        o.wishes@[o.at as int].download_percent == Some(percent),
    ensures
        writes(
            catalogue,
            locale,
            o,
            after,
            match reply {
                Reply::Title(Some(title)) => title@,
                _ => catalogue.says(locale, "status.untitled"@, Seq::empty()),
            },
            WishStateView::Downloading { percent },
        ),
{
}

/// What Seerr alone can say needs no look: a wish that is there, was declined
/// or was not handed over has that in its line as soon as its title is known,
/// in this order, and nothing is looked up in Radarr or Sonarr.
pub proof fn law_what_seerr_knows_needs_no_look(
    catalogue: Catalogue,
    locale: Locale,
    has_insight: bool,
    record: Option<NoticesView>,
    now: Timestamp,
    o: Overview,
    reply: Reply,
    after: Overview,
    step: OverviewStep,
)
    requires
        o.at < o.wishes@.len(),
        o.stage == OverviewStage::Title,
        o.wishes@[o.at as int].media_status == 5 || o.wishes@[o.at as int].request_status == 3
            || o.wishes@[o.at as int].request_status == 4,
        overview_stepped(catalogue, locale, has_insight, record, now, o, reply, after, step),
    ensures
        step is Proceed,
        writes(
            catalogue,
            locale,
            o,
            after,
            match reply {
                Reply::Title(Some(title)) => title@,
                _ => catalogue.says(locale, "status.untitled"@, Seq::empty()),
            },
            if o.wishes@[o.at as int].media_status == 5 {
                WishStateView::Available
            } else if o.wishes@[o.at as int].request_status == 3 {
                WishStateView::Declined
            } else {
                WishStateView::NotHandedOver
            },
        ),
{
}

/// The queue of the wish in turn, as far as it was read.
pub open spec fn queue_of(o: Overview) -> Fetched {
    if o.wishes@[o.at as int].kind == MediaKind::Movie {
        o.movie_queue
    } else {
        o.tv_queue
    }
}

/// Whether no entry of a queue has an id.
pub open spec fn is_not_among(items: Seq<QueueItem>, id: i64) -> bool {
    forall|i: int| 0 <= i < items.len() ==> (#[trigger] items[i]).arr_id != id
}

/// The look at a film or a series.
pub open spec fn looks_at(kind: MediaKind, id: i64) -> Call {
    match kind {
        MediaKind::Movie => Call::Movie(id),
        MediaKind::Tv => Call::Series(id),
    }
}

/// Where Radarr and Sonarr can be asked, an open wish that one of them has is
/// looked up: its queue first, if it was not read, and then the film or the
/// series itself.
pub proof fn law_an_open_wish_is_looked_up(
    catalogue: Catalogue,
    locale: Locale,
    record: Option<NoticesView>,
    now: Timestamp,
    o: Overview,
    reply: Reply,
    after: Overview,
    step: OverviewStep,
    id: i64,
)
    requires
        o.at < o.wishes@.len(),
        crate::insight::laws::is_open(o.wishes@[o.at as int]),
        o.wishes@[o.at as int].arr_id == Some(id),
        overview_stepped(catalogue, locale, true, record, now, o, reply, after, step),
    ensures
        o.stage == OverviewStage::Title && queue_of(o) is NotYet ==> step == OverviewStep::Do(
            Call::Queue(o.wishes@[o.at as int].kind),
        ),
        (o.stage == OverviewStage::Title && (queue_of(o) matches Fetched::Items(items)
            && is_not_among(items@, id))) ==> step == OverviewStep::Do(
            looks_at(o.wishes@[o.at as int].kind, id),
        ),
        (o.stage == OverviewStage::Queue && (reply matches Reply::Queue(Some(items))
            && is_not_among(items@, id))) ==> step == OverviewStep::Do(
            looks_at(o.wishes@[o.at as int].kind, id),
        ),
        o.stage == OverviewStage::Evidence ==> match reply {
            Reply::Movie(Some(movie)) => step == OverviewStep::Do(
                Call::History(o.wishes@[o.at as int].kind, id),
            ) && after.movie == Some(movie),
            Reply::Series(Some(series)) => step == OverviewStep::Do(
                Call::History(o.wishes@[o.at as int].kind, id),
            ) && (after.facts matches Some(facts) && crate::insight::facts_of(
                series.episodes@,
                series.monitored_seasons@,
                o.wishes@[o.at as int].seasons@,
                now.instant(),
                facts,
            )),
            _ => step is Proceed,
        },
{
    let wish = o.wishes@[o.at as int];
    if let Fetched::Items(items) = queue_of(o) {
        law_the_queue_entry_of_a_title(items@, wish.arr_id);
    }
    if let Reply::Queue(Some(items)) = reply {
        law_the_queue_entry_of_a_title(items@, wish.arr_id);
    }
}

/// What the answer looks up is about the wish in turn: its own title, the
/// queue of its own kind, its own film or series, and its own history. A
/// queue is read once for all wishes of its kind.
pub proof fn law_an_answer_asks_about_its_wishes(
    catalogue: Catalogue,
    locale: Locale,
    has_insight: bool,
    record: Option<NoticesView>,
    now: Timestamp,
    o: Overview,
    reply: Reply,
    after: Overview,
    step: OverviewStep,
)
    requires
        o.at < o.wishes@.len(),
        overview_stepped(catalogue, locale, has_insight, record, now, o, reply, after, step),
    ensures
        ({
            let wish = o.wishes@[o.at as int];
            &&& step matches OverviewStep::Do(call) ==> match call {
                Call::Title { kind, tmdb_id } => kind == wish.kind && tmdb_id == wish.tmdb_id && (
                record is Some && record->0.notes.contains_key(wish.id)
                    ==> record->0.notes[wish.id].title is None),
                Call::Queue(kind) => kind == wish.kind && (if kind == MediaKind::Movie {
                    o.movie_queue is NotYet
                } else {
                    o.tv_queue is NotYet
                }),
                Call::Movie(id) => wish.kind == MediaKind::Movie && wish.arr_id == Some(id),
                Call::Series(id) => wish.kind == MediaKind::Tv && wish.arr_id == Some(id),
                Call::History(kind, id) => kind == wish.kind && wish.arr_id == Some(id),
                _ => false,
            }
            &&& o.stage == OverviewStage::Queue ==> (match (reply, wish.kind) {
                (Reply::Queue(Some(items)), MediaKind::Movie) => after.movie_queue
                    == Fetched::Items(items) && after.tv_queue == o.tv_queue,
                (Reply::Queue(Some(items)), MediaKind::Tv) => after.tv_queue == Fetched::Items(
                    items,
                ) && after.movie_queue == o.movie_queue,
                (_, MediaKind::Movie) => after.movie_queue is Failed,
                (_, MediaKind::Tv) => after.tv_queue is Failed,
            })
        }),
{
}

/// A wish that is in its queue goes by the first entry with its id, and is
/// not looked up any further.
pub proof fn law_a_queued_wish_goes_by_the_queue(
    catalogue: Catalogue,
    locale: Locale,
    record: Option<NoticesView>,
    now: Timestamp,
    o: Overview,
    items: Vec<QueueItem>,
    after: Overview,
    step: OverviewStep,
    i: int,
)
    requires
        o.at < o.wishes@.len(),
        o.stage == OverviewStage::Queue,
        overview_stepped(
            catalogue,
            locale,
            true,
            record,
            now,
            o,
            Reply::Queue(Some(items)),
            after,
            step,
        ),
        0 <= i < items@.len(),
        o.wishes@[o.at as int].arr_id == Some(items@[i].arr_id),
        forall|j: int| 0 <= j < i ==> (#[trigger] items@[j]).arr_id != items@[i].arr_id,
    ensures
        step is Proceed,
        writes(
            catalogue,
            locale,
            o,
            after,
            match o.title {
                Some(title) => title@,
                None => catalogue.says(locale, "status.untitled"@, Seq::empty()),
            },
            judged(
                o.wishes@[o.at as int],
                EvidenceView {
                    movie: None,
                    series: None,
                    queue_item: Some(items@[i]),
                    last_event: None,
                    known_reason: recorded_reason(record, o.wishes@[o.at as int]),
                },
                now.instant(),
            ),
        ),
{
    let wish = o.wishes@[o.at as int];
    law_the_queue_entry_of_a_title(items@, wish.arr_id);
    let item = item_of(items@, wish.arr_id)->0;
    let n = choose|n: int|
        0 <= n < items@.len() && items@[n] == item && forall|j: int|
            0 <= j < n ==> Some((#[trigger] items@[j]).arr_id) != wish.arr_id;
    if n < i {
        assert(items@[n].arr_id != items@[i].arr_id);
    }
    if i < n {
        assert(Some(items@[i].arr_id) != wish.arr_id);
    }
    assert(n == i);
}

/// Once every wish has had its turn, the answer is their lines, one under the
/// other.
pub proof fn law_the_answer_is_its_lines(
    catalogue: Catalogue,
    locale: Locale,
    has_insight: bool,
    record: Option<NoticesView>,
    now: Timestamp,
    o: Overview,
    reply: Reply,
    after: Overview,
    step: OverviewStep,
)
    requires
        overview_stepped(catalogue, locale, has_insight, record, now, o, reply, after, step),
    ensures
        step is Done <==> o.at >= o.wishes@.len(),
        step matches OverviewStep::Done(text) ==> text@ == joined_by(views(o.lines@), "\n"@),
{
}

/// Every state is said with its own message.
pub proof fn law_each_state_has_its_words(
    catalogue: Catalogue,
    locale: Locale,
    percent: u8,
    day: int,
    reason: ReasonView,
)
    ensures
        state_said(catalogue, locale, WishStateView::Available) == catalogue.says(
            locale,
            "status.available"@,
            Seq::empty(),
        ),
        state_said(catalogue, locale, WishStateView::Declined) == catalogue.says(
            locale,
            "status.declined"@,
            Seq::empty(),
        ),
        state_said(catalogue, locale, WishStateView::NotHandedOver) == catalogue.says(
            locale,
            "status.not_handed_over"@,
            Seq::empty(),
        ),
        state_said(catalogue, locale, WishStateView::ImportStuck) == catalogue.says(
            locale,
            "status.import_stuck"@,
            Seq::empty(),
        ),
        state_said(catalogue, locale, WishStateView::DownloadFailed) == catalogue.says(
            locale,
            "status.download_failed"@,
            Seq::empty(),
        ),
        state_said(catalogue, locale, WishStateView::Searching) == catalogue.says(
            locale,
            "status.searching"@,
            Seq::empty(),
        ),
        state_said(catalogue, locale, WishStateView::Waiting) == catalogue.says(
            locale,
            "status.waiting"@,
            Seq::empty(),
        ),
        state_said(catalogue, locale, WishStateView::PartlyAvailable { counts: None })
            == catalogue.says(locale, "status.partly_available"@, Seq::empty()),
        state_said(catalogue, locale, WishStateView::Downloading { percent }) == catalogue.says(
            locale,
            "status.downloading"@,
            seq![("percent"@, decimal(percent as nat))],
        ),
        state_said(catalogue, locale, WishStateView::NotReleased { day: None }) == catalogue.says(
            locale,
            "status.not_released"@,
            Seq::empty(),
        ),
        state_said(catalogue, locale, WishStateView::NotReleased { day: Some(day) })
            == catalogue.says(
            locale,
            "status.not_released_date"@,
            seq![("date"@, written_day(locale, day))],
        ),
        state_said(catalogue, locale, WishStateView::NotAired { day: None }) == catalogue.says(
            locale,
            "status.not_aired"@,
            Seq::empty(),
        ),
        state_said(catalogue, locale, WishStateView::NotAired { day: Some(day) })
            == catalogue.says(
            locale,
            "status.not_aired_date"@,
            seq![("date"@, written_day(locale, day))],
        ),
        state_said(catalogue, locale, WishStateView::Unsuitable(reason)) == reason_said(
            catalogue,
            locale,
            reason,
        ),
{
}

/// A day is written with the day first in German, between dots, and with the
/// year first in English, between hyphens; day and month always with two
/// digits.
pub proof fn law_a_day_is_written_in_its_language(day: int)
    ensures
        ({
            let (year, month, day_of_month) = calendar(day + 2_440_588);
            &&& written_day(Locale::De, day) == two_digits(day_of_month) + "."@ + two_digits(month)
                + "."@ + decimal_int(year as int)
            &&& written_day(Locale::En, day) == decimal_int(year as int) + "-"@ + two_digits(month)
                + "-"@ + two_digits(day_of_month)
        }),
{
}

/// A language is called by the name that the catalogue has for it, and by its
/// own where the catalogue has none. Several are named one after the other.
pub proof fn law_languages_are_named(catalogue: Catalogue, locale: Locale, names: Seq<Seq<char>>)
    ensures
        forall|name: Seq<char>| #[trigger]
            named_language(catalogue, locale, name) == if catalogue.messages_in(
                locale,
            ).contains_key("language."@ + name) {
                catalogue.messages_in(locale)["language."@ + name]
            } else {
                name
            },
        exists|said: Seq<Seq<char>>| #[trigger]
            said.len() == names.len() && (forall|i: int|
                0 <= i < said.len() ==> #[trigger] said[i] == named_language(
                    catalogue,
                    locale,
                    names[i],
                )) && reason_said(catalogue, locale, ReasonView::OnlyInLanguages(names))
                == catalogue.says(
                locale,
                "status.only_in_languages"@,
                seq![("languages"@, joined_by(said, " / "@))],
            ),
{
    let said = names.map_values(|name: Seq<char>| named_language(catalogue, locale, name));
    assert(said.len() == names.len());
}

/// Every reason is said with its own message.
pub proof fn law_each_reason_has_its_words(catalogue: Catalogue, locale: Locale)
    ensures
        reason_said(catalogue, locale, ReasonView::NothingExists) == catalogue.says(
            locale,
            "status.nothing_exists"@,
            Seq::empty(),
        ),
        reason_said(catalogue, locale, ReasonView::TooLarge) == catalogue.says(
            locale,
            "status.too_large"@,
            Seq::empty(),
        ),
        reason_said(catalogue, locale, ReasonView::TooSmall) == catalogue.says(
            locale,
            "status.too_small"@,
            Seq::empty(),
        ),
        reason_said(catalogue, locale, ReasonView::WrongQuality) == catalogue.says(
            locale,
            "status.wrong_quality"@,
            Seq::empty(),
        ),
        reason_said(catalogue, locale, ReasonView::Otherwise) == catalogue.says(
            locale,
            "status.otherwise"@,
            Seq::empty(),
        ),
{
}

/// How much of a series is there is said in numbers: how many episodes are
/// there, of how many that have aired, and when the next one comes.
pub proof fn law_the_counts_are_said(
    catalogue: Catalogue,
    locale: Locale,
    counts: PartCountsView,
)
    ensures
        state_said(catalogue, locale, WishStateView::PartlyAvailable { counts: Some(counts) })
            == match counts.next {
            Some(day) => catalogue.says(
                locale,
                "status.partly_counts_next"@,
                seq![
                    ("have"@, decimal(counts.have as nat)),
                    ("aired"@, decimal(counts.aired as nat)),
                    ("date"@, written_day(locale, day)),
                ],
            ),
            None => catalogue.says(
                locale,
                "status.partly_counts"@,
                seq![
                    ("have"@, decimal(counts.have as nat)),
                    ("aired"@, decimal(counts.aired as nat)),
                ],
            ),
        },
{
}

} // verus!
