//! What holds of every notice and every search, said of what was listed and
//! what was written down.

use crate::arr::{ArrMovie, ArrSeries, QueueItem, release_views};
use crate::insight::laws::{law_the_oldest_missing_episode, ought_to_be_there};
use crate::insight::{EvidenceView, SeriesFacts, facts_of, judged, reason_of};
use crate::model::{MediaKind, Wish, WishStateView, class_of, opt_reason};
use crate::moment::Timestamp;
use crate::notices::{Note, NoticesView, searches_on};
use crate::state::{Entry, entry_of};
use crate::watch::consider::{
    Answer, Ask, Considering, Stage, WishStep, considered, evidence_of, stepped, touched,
};
use crate::watch::round::{
    Round, RoundStage, RoundStep, closing, is_run, item_of, plus, round_stepped, tallied,
};
use crate::watch::{
    RoundReport, SearchTarget, Verdict, WatchSettings, Watcher, notice_said, recipient, season_of,
    verdict,
};
use vstd::prelude::*;

verus! {

/// The problem that a state is, under the name by which it is remembered.
pub open spec fn problem_of(state: WishStateView) -> Option<Seq<char>> {
    if state is Searching || state is Unsuitable {
        Some("unsuitable"@)
    } else if state is DownloadFailed {
        Some("download_failed"@)
    } else if state is ImportStuck {
        Some("import_stuck"@)
    } else if state is NotHandedOver {
        Some("not_handed_over"@)
    } else {
        None
    }
}

/// Whether somebody with an account in Seerr is known.
pub open spec fn is_known(entries: Seq<Entry>, username: Seq<char>) -> bool {
    exists|i: int|
        0 <= i < entries.len() && (#[trigger] entries[i]).authentik_username@ == username
}

/// Whether a wish has been in trouble for the time it is given: a failed
/// hand-over since its retry; a series since it was made and since its oldest
/// missing episode aired; anything else since it was made and since the bot
/// saw the film come out.
pub open spec fn time_is_up(
    settings: WatchSettings,
    wish: Wish,
    note: Note,
    facts: Option<SeriesFacts>,
    state: WishStateView,
    now: int,
) -> bool {
    if state is NotHandedOver {
        note.retried_at matches Some(at) && now - at.instant() >= settings.stall_after.nanos
    } else {
        &&& now - wish.created_at.instant() >= settings.stall_after.nanos
        &&& facts matches Some(f) ==> (f.missing_oldest matches Some(missing) ==> now
            - missing.0.instant() >= settings.stall_after.nanos)
        &&& facts is None ==> (note.released_seen matches Some(at) ==> now - at.instant()
            >= settings.stall_after.nanos)
    }
}

/// Whether there is something to say: the state is a problem, its time is up,
/// nobody has been told of it, the last message about the wish is a day ago,
/// and the person who asked is known.
pub open spec fn there_is_something_to_say(
    settings: WatchSettings,
    wish: Wish,
    note: Note,
    facts: Option<SeriesFacts>,
    state: WishStateView,
    entries: Seq<Entry>,
    now: int,
) -> bool {
    &&& problem_of(state) matches Some(problem) && !note.told@.contains_key(problem)
    &&& time_is_up(settings, wish, note, facts, state, now)
    &&& note.last_notice matches Some(last) ==> now - last.instant() >= 86_400_000_000_000
    &&& wish.requested_by matches Some(name) && is_known(entries, name@)
}

pub(crate) proof fn lemma_known(entries: Seq<Entry>, username: Seq<char>)
    ensures
        entry_of(entries, username) is Some <==> is_known(entries, username),
        entry_of(entries, username) matches Some(e) ==> e.authentik_username@ == username
            && entries.contains(e),
    decreases entries.len(),
{
    if entries.len() > 0 {
        let rest = entries.skip(1);
        lemma_known(rest, username);
        if entries[0].authentik_username@ == username {
            assert(is_known(entries, username));
        } else {
            if is_known(rest, username) {
                let i = choose|i: int|
                    0 <= i < rest.len() && (#[trigger] rest[i]).authentik_username@ == username;
                assert(entries[i + 1] == rest[i]);
            }
            if is_known(entries, username) {
                let i = choose|i: int|
                    0 <= i < entries.len() && (#[trigger] entries[i]).authentik_username@
                        == username;
                assert(rest[i - 1] == entries[i]);
            }
            if let Some(e) = entry_of(entries, username) {
                let i = choose|i: int| 0 <= i < rest.len() && rest[i] == e;
                assert(entries[i + 1] == e);
            }
        }
    }
}

/// A wish is kept silent about exactly as long as there is nothing to say, or
/// a search for the reason has to come first and cannot be made now. The
/// search is for a wish that is being looked for, without a reason on record,
/// where searches are switched on; it is made with the round's search and the
/// day's budget, for the film or for the season of the oldest missing
/// episode.
pub proof fn law_what_there_is_to_say_is_said(
    watcher: Watcher,
    wish: Wish,
    record: NoticesView,
    note: Note,
    facts: Option<SeriesFacts>,
    state: WishStateView,
    entries: Seq<Entry>,
    may_search: bool,
    now: Timestamp,
)
    ensures
        ({
            let said = verdict(
                watcher,
                wish,
                record,
                note,
                facts,
                state,
                entries,
                may_search,
                now,
            );
            let due = there_is_something_to_say(
                watcher.settings,
                wish,
                note,
                facts,
                state,
                entries,
                now.instant(),
            );
            let search_first = watcher.search && state is Searching && note.reason is None
                && wish.arr_id is Some;
            let affordable = may_search && searches_on(record, now.utc_day_number())
                < watcher.settings.max_searches_per_day;
            &&& said is Tell <==> due && !search_first
            &&& said is Search <==> due && search_first && affordable && (wish.kind
                == MediaKind::Tv ==> facts is Some && facts->0.missing_oldest is Some)
            &&& said matches Verdict::Search(target) ==> target == (match wish.kind {
                MediaKind::Movie => SearchTarget::Movie(wish.arr_id->0),
                MediaKind::Tv => {
                    let (_, season) = facts->0.missing_oldest->0;
                    SearchTarget::Season(wish.arr_id->0, season)
                },
            })
        }),
{
    if let Some(name) = wish.requested_by {
        lemma_known(entries, name@);
    }
}

/// The problems are kept apart: two states are remembered under one name
/// exactly where they are the same problem, and that nothing suitable was
/// found yet is the same problem with and without its reason.
pub proof fn law_problems_are_kept_apart(a: WishStateView, b: WishStateView)
    ensures
        class_of(a) == problem_of(a),
        class_of(a) is Some && class_of(a) == class_of(b) ==> {
            ||| (a is Searching || a is Unsuitable) && (b is Searching || b is Unsuitable)
            ||| a is DownloadFailed && b is DownloadFailed
            ||| a is ImportStuck && b is ImportStuck
            ||| a is NotHandedOver && b is NotHandedOver
        },
{
    reveal_strlit("unsuitable");
    reveal_strlit("download_failed");
    reveal_strlit("import_stuck");
    reveal_strlit("not_handed_over");
    assert("unsuitable"@[0] == 'u');
    assert("download_failed"@[0] == 'd');
    assert("import_stuck"@[0] == 'i');
    assert("not_handed_over"@[0] == 'n');
}

/// What a look at a film leaves behind: that it was seen before it was out,
/// or, the first time it is seen out, from when on it counts as out. That is
/// now if it was seen before it was out, and otherwise since the wish was
/// made. Nothing else about the wish changes.
pub proof fn law_a_look_at_a_film_is_remembered(
    watcher: Watcher,
    wish: Wish,
    entries: Seq<Entry>,
    now: Timestamp,
    c: Considering,
    movie: ArrMovie,
    record: NoticesView,
    after: Considering,
    record_after: NoticesView,
    step: WishStep,
)
    requires
        c.stage is Evidence,
        wish.arr_id is Some,
        record.notes.contains_key(wish.id),
        considered(
            watcher,
            wish,
            entries,
            now,
            c,
            Answer::Movie(Some(movie)),
            record,
            after,
            record_after,
            step,
        ),
    ensures
        ({
            let before = record.notes[wish.id];
            let note = record_after.notes[wish.id];
            &&& after.movie == Some(movie)
            &&& note.seen_unreleased == (before.seen_unreleased || !movie.is_available)
            &&& !movie.is_available || before.released_seen is Some ==> note.released_seen
                == before.released_seen
            &&& movie.is_available && before.released_seen is None ==> note.released_seen == Some(
                if before.seen_unreleased {
                    now
                } else {
                    wish.created_at
                },
            )
            &&& note.title == before.title && note.reason == before.reason && note.told
                == before.told && note.last_notice == before.last_notice && note.retried_at
                == before.retried_at && note.first_seen == before.first_seen && note.searched_at
                == before.searched_at
        }),
{
    let noted = choose|noted: NoticesView| #[trigger]
        touched(record, wish.id, now, noted) && stepped(
            watcher,
            wish,
            entries,
            now,
            c,
            Answer::Movie(Some(movie)),
            noted,
            after,
            record_after,
            step,
        );
    assert(noted.notes[wish.id] == record.notes[wish.id]);
}

/// A step asks only about the wish itself: for its own title, film, series
/// and history, and for the retry of its own request. Radarr is asked about
/// films and Sonarr about series, and neither about what is in a queue.
pub proof fn law_only_the_wish_itself_is_asked_about(
    watcher: Watcher,
    wish: Wish,
    entries: Seq<Entry>,
    now: Timestamp,
    c: Considering,
    answer: Answer,
    record: NoticesView,
    after: Considering,
    record_after: NoticesView,
    step: WishStep,
)
    requires
        considered(watcher, wish, entries, now, c, answer, record, after, record_after, step),
    ensures
        step matches WishStep::Do(ask) ==> match ask {
            Ask::Title { kind, tmdb_id } => kind == wish.kind && tmdb_id == wish.tmdb_id,
            Ask::Movie(id) => wish.kind == MediaKind::Movie && wish.arr_id == Some(id)
                && c.queue_item is None,
            Ask::Series(id) => wish.kind == MediaKind::Tv && wish.arr_id == Some(id)
                && c.queue_item is None,
            Ask::History(kind, id) => kind == wish.kind && wish.arr_id == Some(id),
            Ask::Retry(id) => id == wish.id && c.stage is HandOver && answer == Answer::Saved(
                true,
            ),
            Ask::Search(target) => c.stage matches Stage::Counted { target: counted, .. }
                && counted == target,
            Ask::Save => true,
            Ask::Send { .. } => true,
            Ask::OpenWishes => false,
            Ask::Queue(_) => false,
        },
{
}

/// A title is asked for where none is on record, and what is found is on
/// record from then on.
pub proof fn law_a_title_is_written_down(
    watcher: Watcher,
    wish: Wish,
    entries: Seq<Entry>,
    now: Timestamp,
    c: Considering,
    answer: Answer,
    record: NoticesView,
    after: Considering,
    record_after: NoticesView,
    step: WishStep,
)
    requires
        considered(watcher, wish, entries, now, c, answer, record, after, record_after, step),
    ensures
        c.stage is Begin && (!record.notes.contains_key(wish.id)
            || record.notes[wish.id].title is None) ==> (step matches WishStep::Do(Ask::Title {
            kind,
            tmdb_id,
        }) && kind == wish.kind && tmdb_id == wish.tmdb_id),
        c.stage is Title && (answer matches Answer::Title(found) && found is Some)
            ==> record_after.notes[wish.id].title == answer->Title_0,
        record.notes.contains_key(wish.id) && record.notes[wish.id].title is Some && !(c.stage
            is Title) ==> record_after.notes[wish.id].title == record.notes[wish.id].title,
{
    let noted = choose|noted: NoticesView| #[trigger]
        touched(record, wish.id, now, noted) && stepped(
            watcher,
            wish,
            entries,
            now,
            c,
            answer,
            noted,
            after,
            record_after,
            step,
        );
    assert(record.notes.contains_key(wish.id) ==> noted.notes[wish.id] == record.notes[wish.id]);
}

/// What was found stays found: a film and the facts of a series are kept up to
/// the judgement, together with the queue entry that the turn began with.
pub proof fn law_what_was_found_is_kept(
    watcher: Watcher,
    wish: Wish,
    entries: Seq<Entry>,
    now: Timestamp,
    c: Considering,
    answer: Answer,
    record: NoticesView,
    after: Considering,
    record_after: NoticesView,
    step: WishStep,
)
    requires
        considered(watcher, wish, entries, now, c, answer, record, after, record_after, step),
    ensures
        after.queue_item == c.queue_item,
        after.may_search == c.may_search,
        !(c.stage is Evidence) ==> after.movie == c.movie && after.facts == c.facts,
        c.stage is History && (answer matches Answer::History(found) && found is Some) && !(
        after.stage is Over) ==> after.last_event == answer->History_0->0,
{
}

/// A failed hand-over is tried once more exactly where the operator wants
/// that, the wish is old enough for it and it was not tried before. It is
/// written down before it is tried.
pub proof fn law_a_retry_is_made_by_right(
    watcher: Watcher,
    wish: Wish,
    entries: Seq<Entry>,
    now: Timestamp,
    c: Considering,
    answer: Answer,
    record: NoticesView,
    after: Considering,
    record_after: NoticesView,
    step: WishStep,
)
    requires
        record.notes.contains_key(wish.id),
        c.stage is Begin && record.notes[wish.id].title is Some || c.stage is Title && answer
            is Title,
        considered(watcher, wish, entries, now, c, answer, record, after, record_after, step),
    ensures
        after.stage is HandOver <==> {
            &&& wish.request_status == 4
            &&& record.notes[wish.id].retried_at is None
            &&& watcher.settings.retry_failed_after matches Some(delay) && now.instant()
                - wish.created_at.instant() >= delay.nanos
        },
        after.stage is HandOver ==> record_after.notes[wish.id].retried_at == Some(now) && step
            == WishStep::Do(Ask::Save),
        !(after.stage is HandOver) ==> record_after.notes[wish.id].retried_at
            == record.notes[wish.id].retried_at,
{
    let noted = choose|noted: NoticesView| #[trigger]
        touched(record, wish.id, now, noted) && stepped(
            watcher,
            wish,
            entries,
            now,
            c,
            answer,
            noted,
            after,
            record_after,
            step,
        );
    assert(noted.notes[wish.id] == record.notes[wish.id]);
}

/// Once the retry was made, whatever Seerr said to it, it counts as made and
/// the wish is over for this round.
pub proof fn law_a_retry_ends_the_turn(
    watcher: Watcher,
    wish: Wish,
    entries: Seq<Entry>,
    now: Timestamp,
    c: Considering,
    answer: Answer,
    record: NoticesView,
    after: Considering,
    record_after: NoticesView,
    step: WishStep,
)
    requires
        c.stage is Retry,
        considered(watcher, wish, entries, now, c, answer, record, after, record_after, step),
    ensures
        step matches WishStep::Over(outcome) && outcome.retried && outcome.sent == c.outcome.sent
            && outcome.searched == c.outcome.searched,
{
}

/// A lookup that fails ends the wish for this round, and nothing is said on
/// half the evidence.
pub proof fn law_nothing_is_said_on_half_the_evidence(
    watcher: Watcher,
    wish: Wish,
    entries: Seq<Entry>,
    now: Timestamp,
    c: Considering,
    answer: Answer,
    record: NoticesView,
    after: Considering,
    record_after: NoticesView,
    step: WishStep,
)
    requires
        ({
            ||| c.stage is Evidence && (answer == Answer::Movie(None) || answer == Answer::Series(
                None,
            ))
            ||| c.stage is History && answer == Answer::History(None)
            ||| c.stage is Search && answer == Answer::Releases(None)
            ||| c.stage is HandOver && answer == Answer::Saved(false)
            ||| c.stage is Message && answer == Answer::Sent(false)
        }),
        record.notes.contains_key(wish.id),
        considered(watcher, wish, entries, now, c, answer, record, after, record_after, step),
    ensures
        step is Over,
        record_after.notes[wish.id].told == record.notes[wish.id].told,
        record_after.notes[wish.id].reason == record.notes[wish.id].reason,
        record_after.notes[wish.id].last_notice == record.notes[wish.id].last_notice,
{
    let noted = choose|noted: NoticesView| #[trigger]
        touched(record, wish.id, now, noted) && stepped(
            watcher,
            wish,
            entries,
            now,
            c,
            answer,
            noted,
            after,
            record_after,
            step,
        );
    assert(noted.notes[wish.id] == record.notes[wish.id]);
}

/// What a search finds is written down as the reason, judged by the languages
/// that the settings have for the wish's own profile, before anything is said
/// about it.
pub proof fn law_a_search_leaves_its_reason(
    watcher: Watcher,
    wish: Wish,
    entries: Seq<Entry>,
    now: Timestamp,
    c: Considering,
    releases: Vec<crate::arr::Release>,
    record: NoticesView,
    after: Considering,
    record_after: NoticesView,
    step: WishStep,
)
    requires
        c.stage is Search,
        considered(
            watcher,
            wish,
            entries,
            now,
            c,
            Answer::Releases(Some(releases)),
            record,
            after,
            record_after,
            step,
        ),
    ensures
        step == WishStep::Do(Ask::Save),
        record_after.notes[wish.id].searched_at == Some(now),
        ({
            let table = watcher.settings.profile_languages@;
            let wanted = if wish.profile_name is Some && table.contains_key(
                wish.profile_name->0@,
            ) {
                Some(crate::text::views(table[wish.profile_name->0@]@))
            } else {
                None
            };
            record_after.notes[wish.id].reason matches Some(reason) && reason@ == reason_of(
                release_views(releases@),
                wanted,
            )
        }),
{
}

/// What was told is remembered: once a message about a problem went out, the
/// problem counts as told and the moment as that of the last message, and
/// every problem told before stays so.
pub proof fn law_what_was_told_is_remembered(
    watcher: Watcher,
    wish: Wish,
    entries: Seq<Entry>,
    now: Timestamp,
    c: Considering,
    record: NoticesView,
    after: Considering,
    record_after: NoticesView,
    step: WishStep,
    class: &'static str,
    other: Seq<char>,
)
    requires
        c.stage == (Stage::Message { class }),
        record.notes.contains_key(wish.id),
        considered(
            watcher,
            wish,
            entries,
            now,
            c,
            Answer::Sent(true),
            record,
            after,
            record_after,
            step,
        ),
    ensures
        record_after.notes[wish.id].told@.contains_key(class@),
        record_after.notes[wish.id].last_notice == Some(now),
        record.notes[wish.id].told@.contains_key(other) ==> record_after.notes[wish.id].told@
            .contains_key(other),
        after.outcome.sent,
        step == WishStep::Do(Ask::Save),
{
    let noted = choose|noted: NoticesView| #[trigger]
        touched(record, wish.id, now, noted) && stepped(
            watcher,
            wish,
            entries,
            now,
            c,
            Answer::Sent(true),
            noted,
            after,
            record_after,
            step,
        );
    assert(noted.notes[wish.id] == record.notes[wish.id]);
    let before = noted.notes[wish.id].told@;
    let now_told = record_after.notes[wish.id].told@;
    assert(now_told.dom().contains(class@));
    if before.contains_key(other) {
        assert(now_told.dom().contains(other));
    }
}

/// Whether somebody's account and language are those of a wish's maker.
pub open spec fn are_the_makers(
    entries: Seq<Entry>,
    wish: Wish,
    to: Seq<char>,
    locale: crate::i18n::Locale,
) -> bool {
    wish.requested_by matches Some(name) && exists|i: int|
        0 <= i < entries.len() && (#[trigger] entries[i]).authentik_username@ == name@
            && entries[i].aci@ == to && entries[i].locale == locale
}

/// Whether a wish that is on its way to a message through a search keeps to
/// the person who made it.
pub open spec fn keeps_to_the_maker(entries: Seq<Entry>, wish: Wish, c: Considering) -> bool {
    match c.stage {
        Stage::Counted { to, locale, .. } => are_the_makers(entries, wish, to@, locale),
        Stage::Search { to, locale } => are_the_makers(entries, wish, to@, locale),
        Stage::Reasoned { to, locale } => are_the_makers(entries, wish, to@, locale),
        _ => true,
    }
}

/// A message goes to the person who made the wish, in their language, about
/// this wish, under its title, and says how it stands: as it was judged, or
/// with the reason that was just found.
pub proof fn law_a_message_speaks_to_the_maker(
    watcher: Watcher,
    wish: Wish,
    entries: Seq<Entry>,
    now: Timestamp,
    c: Considering,
    answer: Answer,
    record: NoticesView,
    after: Considering,
    record_after: NoticesView,
    step: WishStep,
)
    requires
        keeps_to_the_maker(entries, wish, c),
        considered(watcher, wish, entries, now, c, answer, record, after, record_after, step),
    ensures
        keeps_to_the_maker(entries, wish, after),
        step matches WishStep::Do(Ask::Send { to, text }) ==> exists|
            locale: crate::i18n::Locale,
            state: WishStateView,
            title: Seq<char>,
        |
            #![trigger notice_said(watcher.catalogue, locale, class_of(state)->0, title, state, wish.id, season_of(c.facts))]
            {
                &&& are_the_makers(entries, wish, to@, locale)
                &&& class_of(state) is Some
                &&& after.stage matches Stage::Message { class } && class_of(state) == Some(
                    class@,
                )
                &&& record_after.notes[wish.id].title matches Some(known) ==> title == known@
                &&& text@ == notice_said(
                    watcher.catalogue,
                    locale,
                    class_of(state)->0,
                    title,
                    state,
                    wish.id,
                    season_of(c.facts),
                )
                &&& if c.stage is Reasoned {
                    record_after.notes[wish.id].reason matches Some(reason) && state
                        == WishStateView::Unsuitable(reason@)
                } else {
                    state == judged(
                        wish,
                        EvidenceView {
                            movie: c.movie,
                            series: c.facts,
                            queue_item: c.queue_item,
                            last_event: if c.stage is History {
                                answer->History_0->0
                            } else {
                                c.last_event
                            },
                            known_reason: opt_reason(record_after.notes[wish.id].reason),
                        },
                        now.instant(),
                    )
                }
            },
{
    if let Some(name) = wish.requested_by {
        lemma_known(entries, name@);
        if let Some(e) = entry_of(entries, name@) {
            let i = choose|i: int| 0 <= i < entries.len() && entries[i] == e;
            assert(entries[i].authentik_username@ == name@);
            assert(are_the_makers(entries, wish, e.aci@, e.locale));
        }
    }
    let noted = choose|noted: NoticesView| #[trigger]
        touched(record, wish.id, now, noted) && stepped(
            watcher,
            wish,
            entries,
            now,
            c,
            answer,
            noted,
            after,
            record_after,
            step,
        );
    if let WishStep::Do(Ask::Send { to, text }) = step {
        let note = record_after.notes[wish.id];
        if let Stage::Reasoned { to: account, locale } = c.stage {
            let title = crate::watch::title_said(watcher.catalogue, locale, note);
            let state = WishStateView::Unsuitable(note.reason->0@);
            assert(text@ == notice_said(
                watcher.catalogue,
                locale,
                class_of(state)->0,
                title,
                state,
                wish.id,
                season_of(c.facts),
            ));
        } else {
            let person = recipient(entries, wish)->0;
            let with_event = Considering {
                last_event: if c.stage is History {
                    answer->History_0->0
                } else {
                    c.last_event
                },
                ..c
            };
            let state = judged(wish, evidence_of(with_event, note), now.instant());
            let title = crate::watch::title_said(watcher.catalogue, person.locale, note);
            assert(with_event == c || c.stage is History);
            assert(text@ == notice_said(
                watcher.catalogue,
                person.locale,
                class_of(state)->0,
                title,
                state,
                wish.id,
                season_of(c.facts),
            ));
        }
    }
}

/// The queue entry of a title is the first in the queue with its id; without
/// one there is none.
pub proof fn law_the_queue_entry_of_a_title(queue: Seq<QueueItem>, arr_id: Option<i64>)
    ensures
        match item_of(queue, arr_id) {
            Some(item) => {
                &&& arr_id == Some(item.arr_id)
                &&& exists|i: int|
                    0 <= i < queue.len() && queue[i] == item && forall|j: int|
                        0 <= j < i ==> Some((#[trigger] queue[j]).arr_id) != arr_id
            },
            None => forall|j: int|
                0 <= j < queue.len() ==> Some((#[trigger] queue[j]).arr_id) != arr_id,
        },
    decreases queue.len(),
{
    if queue.len() > 0 {
        let rest = queue.skip(1);
        law_the_queue_entry_of_a_title(rest, arr_id);
        if Some(queue[0].arr_id) == arr_id {
            assert(queue[0] == queue[0]);
        } else if let Some(item) = item_of(queue, arr_id) {
            let i = choose|i: int|
                0 <= i < rest.len() && rest[i] == item && forall|j: int|
                    0 <= j < i ==> Some((#[trigger] rest[j]).arr_id) != arr_id;
            assert(queue[i + 1] == item);
            assert forall|j: int| 0 <= j < i + 1 implies Some((#[trigger] queue[j]).arr_id)
                != arr_id by {
                if j > 0 {
                    assert(rest[j - 1] == queue[j]);
                }
            }
        } else {
            assert forall|j: int| 0 <= j < queue.len() implies Some((#[trigger] queue[j]).arr_id)
                != arr_id by {
                if j > 0 {
                    assert(rest[j - 1] == queue[j]);
                }
            }
        }
    }
}

/// Radarr's queue is about films and Sonarr's about series, and a queue that
/// could not be read is an empty one. Sonarr is asked exactly where there is
/// a series to ask about.
pub proof fn law_each_kind_has_its_queue(
    watcher: Watcher,
    entries: Seq<Entry>,
    now: Timestamp,
    r: Round,
    answer: Answer,
    record: NoticesView,
    after: Round,
    record_after: NoticesView,
    step: RoundStep,
)
    requires
        round_stepped(watcher, entries, now, r, answer, record, after, record_after, step),
    ensures
        r.stage is MovieQueue ==> {
            &&& match answer {
                Answer::Queue(Some(items)) => after.movie_queue@ == items@,
                _ => after.movie_queue@.len() == 0,
            }
            &&& after.tv_queue == r.tv_queue
            &&& step == RoundStep::Do(Ask::Queue(MediaKind::Tv)) <==> exists|i: int|
                0 <= i < r.wishes@.len() && (#[trigger] r.wishes@[i]).kind == MediaKind::Tv
        },
        r.stage is TvQueue ==> {
            &&& match answer {
                Answer::Queue(Some(items)) => after.tv_queue@ == items@,
                _ => after.tv_queue@.len() == 0,
            }
            &&& after.movie_queue == r.movie_queue
        },
        r.stage is Next && r.at < r.wishes@.len() ==> after.current.queue_item == item_of(
            if r.wishes@[r.at as int].kind == MediaKind::Movie {
                r.movie_queue@
            } else {
                r.tv_queue@
            },
            r.wishes@[r.at as int].arr_id,
        ),
        r.stage is Wishes ==> (match answer {
            Answer::Wishes(Some(wishes)) => after.wishes@ == wishes@ && step == RoundStep::Do(
                Ask::Queue(MediaKind::Movie),
            ),
            _ => step is Finished,
        }),
{
}

/// Whether a step sends a message or has a search made.
pub open spec fn is_told_or_searched(step: RoundStep) -> bool {
    step matches RoundStep::Do(ask) && (ask is Send || ask is Search)
}

/// Whether an episode of a series is missing, and has been for as long as a
/// wish is given.
pub open spec fn is_missing_for_long(
    watcher: Watcher,
    wish: Wish,
    series: ArrSeries,
    now: int,
) -> bool {
    exists|i: int|
        #![trigger series.episodes@[i]]
        0 <= i < series.episodes@.len() && ought_to_be_there(
            series.monitored_seasons@,
            wish.seasons@,
            now,
            series.episodes@[i],
        ) && !series.episodes@[i].has_file && now - series.episodes@[i].air_date->0.instant()
            >= watcher.settings.stall_after.nanos
}

/// Whether what a wish knows is what Sonarr listed of its episodes, and it is
/// on its way to a search or a message only if one has been missing for long.
spec fn waited_for(
    watcher: Watcher,
    wish: Wish,
    series: ArrSeries,
    now: int,
    c: Considering,
) -> bool {
    &&& c.queue_item is None
    &&& c.facts matches Some(facts) && facts_of(
        series.episodes@,
        series.monitored_seasons@,
        wish.seasons@,
        now,
        facts,
    )
    &&& c.stage is History || is_missing_for_long(watcher, wish, series, now) || c.stage is Over
    &&& c.stage is History || c.stage is Counted || c.stage is Search || c.stage is Reasoned
        || c.stage is Message || c.stage is Told || c.stage is Over
}

/// Whether a wish waits for the episodes that it asked for.
spec fn asks_for_episodes(wish: Wish, c: Considering) -> bool {
    c.stage is Evidence && c.queue_item is None && wish.arr_id is Some
}

proof fn lemma_waited_for(
    watcher: Watcher,
    wish: Wish,
    entries: Seq<Entry>,
    now: Timestamp,
    c: Considering,
    answer: Answer,
    record: NoticesView,
    after: Considering,
    record_after: NoticesView,
    step: WishStep,
    series: ArrSeries,
)
    requires
        wish.request_status != 4,
        considered(watcher, wish, entries, now, c, answer, record, after, record_after, step),
        waited_for(watcher, wish, series, now.instant(), c) || asks_for_episodes(wish, c)
            && answer == Answer::Series(Some(series)),
    ensures
        waited_for(watcher, wish, series, now.instant(), after),
        (step matches WishStep::Do(ask) && (ask is Send || ask is Search))
            ==> is_missing_for_long(watcher, wish, series, now.instant()),
{
    let noted = choose|noted: NoticesView| #[trigger]
        touched(record, wish.id, now, noted) && stepped(
            watcher,
            wish,
            entries,
            now,
            c,
            answer,
            noted,
            after,
            record_after,
            step,
        );
    if c.stage is History {
        if let Answer::History(Some(event)) = answer {
            let facts = c.facts->0;
            law_the_oldest_missing_episode(
                series.episodes@,
                series.monitored_seasons@,
                wish.seasons@,
                now.instant(),
                facts,
            );
            let with_event = Considering { last_event: event, ..c };
            let note = noted.notes[wish.id];
            let state = judged(wish, evidence_of(with_event, note), now.instant());
            law_what_there_is_to_say_is_said(
                watcher,
                wish,
                noted,
                note,
                c.facts,
                state,
                entries,
                c.may_search,
                now,
            );
            if let Some((air, season)) = facts.missing_oldest {
                let i = choose|i: int|
                    #![trigger series.episodes@[i]]
                    0 <= i < series.episodes@.len() && ought_to_be_there(
                        series.monitored_seasons@,
                        wish.seasons@,
                        now.instant(),
                        series.episodes@[i],
                    ) && !series.episodes@[i].has_file && series.episodes@[i].air_date == Some(air)
                        && series.episodes@[i].season == season;
                if now.instant() - air.instant() >= watcher.settings.stall_after.nanos {
                    assert(series.episodes@[i].air_date->0 == air);
                    assert(is_missing_for_long(watcher, wish, series, now.instant()));
                }
            }
        }
    }
}

/// Whose turn it is in a round: the wish that is being considered, or the one
/// whose changed reason is.
pub open spec fn in_turn(r: Round) -> Option<usize> {
    match r.stage {
        RoundStage::Wish => Some(r.at),
        RoundStage::RefreshTell { at } => Some(at),
        _ => None,
    }
}

/// A wish in its turn takes a step of its own. The wishes stay what they are.
proof fn lemma_a_turn_is_a_step(
    watcher: Watcher,
    entries: Seq<Entry>,
    now: Timestamp,
    r: Round,
    answer: Answer,
    record: NoticesView,
    after: Round,
    record_after: NoticesView,
    step: RoundStep,
    at: usize,
) -> (found: (NoticesView, WishStep))
    requires
        round_stepped(watcher, entries, now, r, answer, record, after, record_after, step),
        in_turn(r) == Some(at),
        is_told_or_searched(step) || in_turn(after) == Some(at),
    ensures
        considered(
            watcher,
            r.wishes@[at as int],
            entries,
            now,
            r.current,
            answer,
            record,
            after.current,
            found.0,
            found.1,
        ),
        found.1 matches WishStep::Do(ask) && step == RoundStep::Do(ask),
        after.wishes == r.wishes,
{
    if r.stage == RoundStage::Wish {
        let taken = choose|taken: WishStep| #[trigger]
            considered(
                watcher,
                r.wishes@[r.at as int],
                entries,
                now,
                r.current,
                answer,
                record,
                after.current,
                record_after,
                taken,
            ) && match taken {
                WishStep::Do(ask) => {
                    &&& after == Round { stage: RoundStage::Wish, current: after.current, ..r }
                    &&& step == RoundStep::Do(ask)
                },
                WishStep::Over(outcome) => {
                    &&& after == Round {
                        stage: RoundStage::Next,
                        at: (r.at + 1) as usize,
                        current: after.current,
                        searched: r.searched || outcome.searched,
                        report: tallied(r.report, outcome),
                        ..r
                    }
                    &&& step == RoundStep::Proceed
                },
            };
        (record_after, taken)
    } else {
        let (taken, between) = choose|taken: WishStep, between: NoticesView| #[trigger]
            considered(
                watcher,
                r.wishes@[at as int],
                entries,
                now,
                r.current,
                answer,
                record,
                after.current,
                between,
                taken,
            ) && match taken {
                WishStep::Do(ask) => {
                    &&& record_after == between
                    &&& after == Round {
                        stage: RoundStage::RefreshTell { at },
                        current: after.current,
                        ..r
                    }
                    &&& step == RoundStep::Do(ask)
                },
                WishStep::Over(outcome) => closing(
                    Round {
                        current: after.current,
                        report: RoundReport {
                            notices_sent: plus(r.report.notices_sent, outcome.sent),
                            ..r.report
                        },
                        ..r
                    },
                    between,
                    after,
                    record_after,
                    step,
                ),
            };
        (between, taken)
    }
}

/// A step that asks for the episodes of the wish in turn leaves it waiting
/// for them.
proof fn lemma_the_episodes_were_asked_for(
    watcher: Watcher,
    entries: Seq<Entry>,
    now: Timestamp,
    r: Round,
    answer: Answer,
    record: NoticesView,
    after: Round,
    record_after: NoticesView,
    step: RoundStep,
    at: usize,
)
    requires
        round_stepped(watcher, entries, now, r, answer, record, after, record_after, step),
        in_turn(after) == Some(at),
        step matches RoundStep::Do(Ask::Series(_)),
    ensures
        asks_for_episodes(after.wishes@[at as int], after.current),
{
}

proof fn lemma_turn_waits(
    watcher: Watcher,
    now: Timestamp,
    directories: Seq<Seq<Entry>>,
    rounds: Seq<Round>,
    records: Seq<NoticesView>,
    answers: Seq<Answer>,
    steps: Seq<RoundStep>,
    series: ArrSeries,
    at: usize,
    j: int,
    k: int,
)
    requires
        is_run(watcher, now, directories, rounds, records, answers, steps),
        0 <= j < k < steps.len(),
        forall|i: int| j <= i <= k ==> in_turn(#[trigger] rounds[i]) == Some(at),
        rounds[j].wishes@[at as int].request_status != 4,
        asks_for_episodes(rounds[j].wishes@[at as int], rounds[j].current),
        answers[j] == Answer::Series(Some(series)),
    ensures
        rounds[k].wishes == rounds[j].wishes,
        waited_for(
            watcher,
            rounds[j].wishes@[at as int],
            series,
            now.instant(),
            rounds[k].current,
        ),
    decreases k - j,
{
    let m = k - 1;
    if j < m {
        lemma_turn_waits(
            watcher,
            now,
            directories,
            rounds,
            records,
            answers,
            steps,
            series,
            at,
            j,
            m,
        );
    }
    assert(in_turn(rounds[m]) == Some(at));
    assert(in_turn(rounds[k]) == Some(at));
    assert(rounds[m + 1] == rounds[k]);
    let step = steps[m];
    let found = lemma_a_turn_is_a_step(
        watcher,
        directories[m],
        now,
        rounds[m],
        answers[m],
        records[m],
        rounds[m + 1],
        records[m + 1],
        step,
        at,
    );
    lemma_waited_for(
        watcher,
        rounds[j].wishes@[at as int],
        directories[m],
        now,
        rounds[m].current,
        answers[m],
        records[m],
        rounds[k].current,
        found.0,
        found.1,
        series,
    );
}

/// A running series is given its time. Where Sonarr was asked for the
/// episodes of a wish in its turn and listed them, nothing is sent about the
/// wish in that turn and no search is made for it, unless an episode that
/// ought to be there has been missing since it aired for as long as a wish is
/// given. So whichever the oldest missing episode is, at least that long lies
/// between its air date and now. A hand-over that failed has another clock.
pub proof fn law_a_running_series_is_given_its_time(
    watcher: Watcher,
    now: Timestamp,
    directories: Seq<Seq<Entry>>,
    rounds: Seq<Round>,
    records: Seq<NoticesView>,
    answers: Seq<Answer>,
    steps: Seq<RoundStep>,
    series: ArrSeries,
    at: usize,
    j: int,
    k: int,
)
    requires
        is_run(watcher, now, directories, rounds, records, answers, steps),
        1 <= j <= k < steps.len(),
        forall|i: int| j <= i <= k ==> in_turn(#[trigger] rounds[i]) == Some(at),
        rounds[j].wishes@[at as int].request_status != 4,
        steps[j - 1] matches RoundStep::Do(Ask::Series(_)),
        answers[j] == Answer::Series(Some(series)),
        is_told_or_searched(steps[k]),
    ensures
        ({
            let wish = rounds[j].wishes@[at as int];
            &&& is_missing_for_long(watcher, wish, series, now.instant())
            &&& forall|oldest: int|
                #![trigger series.episodes@[oldest]]
                0 <= oldest < series.episodes@.len() && ought_to_be_there(
                    series.monitored_seasons@,
                    wish.seasons@,
                    now.instant(),
                    series.episodes@[oldest],
                ) && !series.episodes@[oldest].has_file && (forall|other: int|
                    #![trigger series.episodes@[other]]
                    0 <= other < series.episodes@.len() && ought_to_be_there(
                        series.monitored_seasons@,
                        wish.seasons@,
                        now.instant(),
                        series.episodes@[other],
                    ) && !series.episodes@[other].has_file
                        ==> series.episodes@[oldest].air_date->0.instant()
                        <= series.episodes@[other].air_date->0.instant()) ==> now.instant()
                    - series.episodes@[oldest].air_date->0.instant()
                    >= watcher.settings.stall_after.nanos
        }),
{
    let wish = rounds[j].wishes@[at as int];
    let before = steps[j - 1];
    assert(in_turn(rounds[j]) == Some(at));
    assert(rounds[j - 1 + 1] == rounds[j]);
    lemma_the_episodes_were_asked_for(
        watcher,
        directories[j - 1],
        now,
        rounds[j - 1],
        answers[j - 1],
        records[j - 1],
        rounds[j],
        records[j],
        before,
        at,
    );
    if j < k {
        lemma_turn_waits(
            watcher,
            now,
            directories,
            rounds,
            records,
            answers,
            steps,
            series,
            at,
            j,
            k,
        );
    }
    assert(in_turn(rounds[k]) == Some(at));
    let found = lemma_a_turn_is_a_step(
        watcher,
        directories[k],
        now,
        rounds[k],
        answers[k],
        records[k],
        rounds[k + 1],
        records[k + 1],
        steps[k],
        at,
    );
    lemma_waited_for(
        watcher,
        wish,
        directories[k],
        now,
        rounds[k].current,
        answers[k],
        records[k],
        rounds[k + 1].current,
        found.0,
        found.1,
        series,
    );
}

} // verus!
