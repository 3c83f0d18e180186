//! What holds of second looks at a reason, and of the words of a notice.

use crate::arr::{ArrSeries, Release, release_views};
use crate::dialog::status::state_said;
use crate::i18n::{Catalogue, Locale};
use crate::insight::laws::{law_the_oldest_missing_episode, ought_to_be_there};
use crate::insight::reason_of;
use crate::model::{MediaKind, ReasonView, Wish, WishStateView};
use crate::moment::Timestamp;
use crate::notices::{NoticesView, retained, searches_on};
use crate::state::Entry;
use crate::text::{decimal, decimal_int};
use crate::watch::consider::{Answer, Ask, WishOutcome, wanted_by};
use crate::watch::round::{
    Round, RoundStage, RoundStep, longest_due, refresh_is_due, round_stepped, tallied,
};
use crate::watch::{RoundReport, SearchTarget, Watcher, notice_said, one_class};
use vstd::prelude::*;

verus! {

/// Whether the reason of a wish is old enough to be searched for again: the
/// operator wants that, the bot may search, and the last search for it is as
/// long ago as the settings say.
pub open spec fn is_old_enough(
    watcher: Watcher,
    record: NoticesView,
    wish: Wish,
    now: int,
) -> bool {
    &&& watcher.search
    &&& wish.arr_id is Some
    &&& record.notes.contains_key(wish.id)
    &&& record.notes[wish.id].reason is Some
    &&& watcher.settings.refresh_reason_after matches Some(interval) && (
    record.notes[wish.id].searched_at matches Some(last) && now - last.instant() >= interval.nanos)
}

/// Whether the round comes to its end: what is left to do is to write the
/// record, without the notes of wishes that are gone.
pub open spec fn comes_to_its_end(
    r: Round,
    record: NoticesView,
    after: Round,
    record_after: NoticesView,
    step: RoundStep,
) -> bool {
    &&& step == RoundStep::Do(Ask::Save)
    &&& after.stage == RoundStage::Last
    &&& forall|id: i64| #[trigger]
        record_after.notes.contains_key(id) <==> record.notes.contains_key(id) && exists|i: int|
            0 <= i < r.wishes@.len() && (#[trigger] r.wishes@[i]).id == id
    &&& forall|id: i64| #[trigger]
        record_after.notes.contains_key(id) ==> record_after.notes[id] == record.notes[id]
}

proof fn lemma_comes_to_its_end(
    r: Round,
    record: NoticesView,
    after: Round,
    record_after: NoticesView,
    step: RoundStep,
)
    requires
        crate::watch::round::closing(r, record, after, record_after, step),
    ensures
        comes_to_its_end(r, record, after, record_after, step),
{
    let ids = crate::watch::round::ids_of(r.wishes@);
    assert forall|id: i64| ids.contains(id) <==> exists|i: int|
        0 <= i < r.wishes@.len() && (#[trigger] r.wishes@[i]).id == id by {
        if ids.contains(id) {
            let i = choose|i: int| 0 <= i < ids.len() && ids[i] == id;
            assert(r.wishes@[i].id == id);
        }
        if exists|i: int| 0 <= i < r.wishes@.len() && (#[trigger] r.wishes@[i]).id == id {
            let i = choose|i: int| 0 <= i < r.wishes@.len() && (#[trigger] r.wishes@[i]).id == id;
            assert(ids[i] == id);
        }
    }
    assert forall|id: i64| #[trigger]
        record_after.notes.contains_key(id) <==> record.notes.contains_key(id) && exists|i: int|
            0 <= i < r.wishes@.len() && (#[trigger] r.wishes@[i]).id == id by {
        assert(retained(record.notes, ids).contains_key(id) <==> record.notes.contains_key(id)
            && ids.contains(id));
    }
}

/// Once every wish has had its turn, one reason is looked at again, unless the
/// round has made its search or no reason is old enough: that of the wish
/// whose search is longest ago. A film is searched for at once, within the
/// day's budget; of a series the episodes are asked for first.
pub proof fn law_the_oldest_reason_is_looked_at_again(
    watcher: Watcher,
    entries: Seq<Entry>,
    now: Timestamp,
    r: Round,
    answer: Answer,
    record: NoticesView,
    after: Round,
    record_after: NoticesView,
    step: RoundStep,
)
    requires
        r.stage == RoundStage::Next,
        r.at >= r.wishes@.len(),
        r.wishes@.len() <= usize::MAX,
        round_stepped(watcher, entries, now, r, answer, record, after, record_after, step),
    ensures
        r.searched || (forall|i: int|
            0 <= i < r.wishes@.len() ==> !is_old_enough(
                watcher,
                record,
                #[trigger] r.wishes@[i],
                now.instant(),
            )) ==> comes_to_its_end(r, record, after, record_after, step),
        !r.searched && (exists|i: int|
            0 <= i < r.wishes@.len() && is_old_enough(
                watcher,
                record,
                #[trigger] r.wishes@[i],
                now.instant(),
            )) ==> exists|at: int|
            #![trigger r.wishes@[at]]
            {
                &&& 0 <= at < r.wishes@.len()
                &&& is_old_enough(watcher, record, r.wishes@[at], now.instant())
                &&& forall|j: int|
                    0 <= j < r.wishes@.len() && is_old_enough(
                        watcher,
                        record,
                        #[trigger] r.wishes@[j],
                        now.instant(),
                    ) ==> record.notes[r.wishes@[at].id].searched_at->0.instant()
                        <= record.notes[r.wishes@[j].id].searched_at->0.instant()
                &&& match r.wishes@[at].kind {
                    MediaKind::Movie => if searches_on(record, now.utc_day_number())
                        < watcher.settings.max_searches_per_day {
                        &&& step == RoundStep::Do(Ask::Save)
                        &&& after.stage == (RoundStage::RefreshCounted {
                            at: at as usize,
                            target: SearchTarget::Movie(r.wishes@[at].arr_id->0),
                        })
                    } else {
                        comes_to_its_end(r, record, after, record_after, step)
                    },
                    MediaKind::Tv => {
                        &&& step == RoundStep::Do(Ask::Series(r.wishes@[at].arr_id->0))
                        &&& after.stage == (RoundStage::RefreshSeries { at: at as usize })
                    },
                }
            },
{
    assert forall|i: int| 0 <= i < r.wishes@.len() implies is_old_enough(
        watcher,
        record,
        #[trigger] r.wishes@[i],
        now.instant(),
    ) == refresh_is_due(watcher, record, r.wishes@[i], now) by {}
    if !r.searched && exists|at: usize|
        longest_due(watcher, record, r.wishes@, now, at as int) {
        let at = choose|at: usize| #[trigger]
            longest_due(watcher, record, r.wishes@, now, at as int) && {
                let wish = r.wishes@[at as int];
                match wish.kind {
                    MediaKind::Movie => crate::watch::round::hunting(
                        watcher,
                        now,
                        r,
                        at,
                        SearchTarget::Movie(wish.arr_id->0),
                        record,
                        after,
                        record_after,
                        step,
                    ),
                    MediaKind::Tv => {
                        &&& record_after == record
                        &&& after == Round { stage: RoundStage::RefreshSeries { at }, ..r }
                        &&& step == RoundStep::Do(Ask::Series(wish.arr_id->0))
                    },
                }
            };
        let wish = r.wishes@[at as int];
        assert(is_old_enough(watcher, record, wish, now.instant()));
        if wish.kind == MediaKind::Movie && !(searches_on(record, now.utc_day_number())
            < watcher.settings.max_searches_per_day) {
            lemma_comes_to_its_end(r, record, after, record_after, step);
        }
    } else {
        lemma_comes_to_its_end(r, record, after, record_after, step);
        if !r.searched && exists|i: int|
            0 <= i < r.wishes@.len() && is_old_enough(
                watcher,
                record,
                #[trigger] r.wishes@[i],
                now.instant(),
            ) {
            let i = choose|i: int|
                0 <= i < r.wishes@.len() && is_old_enough(
                    watcher,
                    record,
                    #[trigger] r.wishes@[i],
                    now.instant(),
                );
            let at = lemma_one_is_longest(watcher, record, r.wishes@, now, i, r.wishes@.len() as int);
            assert(longest_due(watcher, record, r.wishes@, now, (at as usize) as int));
        }
    }
}

/// Where one of the first wishes is due, one of them is due for longest.
proof fn lemma_one_is_longest(
    watcher: Watcher,
    record: NoticesView,
    wishes: Seq<Wish>,
    now: Timestamp,
    i: int,
    n: int,
) -> (at: int)
    requires
        0 <= i < n <= wishes.len(),
        refresh_is_due(watcher, record, wishes[i], now),
    ensures
        longest_due(watcher, record, wishes.take(n), now, at),
        n == wishes.len() ==> longest_due(watcher, record, wishes, now, at),
    decreases n,
{
    let part = wishes.take(n);
    let last = n - 1;
    assert forall|j: int| 0 <= j < n implies #[trigger] part[j] == wishes[j] by {}
    if n == wishes.len() {
        assert(part =~= wishes);
    }
    if exists|j: int| 0 <= j < last && refresh_is_due(watcher, record, #[trigger] wishes[j], now) {
        let j = choose|j: int|
            0 <= j < last && refresh_is_due(watcher, record, #[trigger] wishes[j], now);
        let earlier = lemma_one_is_longest(watcher, record, wishes, now, j, last);
        let front = wishes.take(last);
        assert forall|k: int| 0 <= k < last implies #[trigger] front[k] == part[k] by {}
        let at = if refresh_is_due(watcher, record, wishes[last], now)
            && record.notes[wishes[last].id].searched_at->0.instant()
            < record.notes[wishes[earlier].id].searched_at->0.instant() {
            last
        } else {
            earlier
        };
        assert(front[earlier] == part[earlier]);
        assert forall|k: int|
            0 <= k < part.len() && refresh_is_due(
                watcher,
                record,
                #[trigger] part[k],
                now,
            ) implies crate::watch::round::searched_at(record, part[at])
            <= crate::watch::round::searched_at(record, part[k]) by {
            if k < last {
                assert(front[k] == part[k]);
            }
        }
        assert forall|k: int|
            0 <= k < at && refresh_is_due(
                watcher,
                record,
                #[trigger] part[k],
                now,
            ) implies crate::watch::round::searched_at(record, part[at])
            < crate::watch::round::searched_at(record, part[k]) by {
            assert(front[k] == part[k]);
        }
        at
    } else {
        assert(i == last);
        assert forall|k: int| 0 <= k < last implies !refresh_is_due(
            watcher,
            record,
            #[trigger] part[k],
            now,
        ) by {
            assert(part[k] == wishes[k]);
        }
        last
    }
}

/// Whether two reasons would be the same news: the same sentence, about the
/// same languages, in whatever order.
pub open spec fn is_the_same_news(a: ReasonView, b: ReasonView) -> bool {
    match (a, b) {
        (ReasonView::OnlyInLanguages(x), ReasonView::OnlyInLanguages(y)) => x.to_set()
            == y.to_set(),
        _ => a == b,
    }
}

/// A second search that finds the same leaves the reason and what was told of
/// it as they were. One that finds something else replaces the reason, and
/// what was told about the old one counts as untold. Either way the search
/// counts as made now.
pub proof fn law_a_changed_reason_is_news(
    watcher: Watcher,
    entries: Seq<Entry>,
    now: Timestamp,
    r: Round,
    at: usize,
    releases: Vec<Release>,
    record: NoticesView,
    after: Round,
    record_after: NoticesView,
    step: RoundStep,
)
    requires
        r.stage == (RoundStage::RefreshSearch { at }),
        at < r.wishes@.len(),
        record.notes.contains_key(r.wishes@[at as int].id),
        record.notes[r.wishes@[at as int].id].reason is Some,
        round_stepped(
            watcher,
            entries,
            now,
            r,
            Answer::Releases(Some(releases)),
            record,
            after,
            record_after,
            step,
        ),
    ensures
        ({
            let wish = r.wishes@[at as int];
            let before = record.notes[wish.id];
            let note = record_after.notes[wish.id];
            let found = reason_of(release_views(releases@), wanted_by(watcher.settings, wish));
            &&& note.searched_at == Some(now)
            &&& note.last_notice == before.last_notice
            &&& after.searched
            &&& step == RoundStep::Do(Ask::Save)
            &&& if is_the_same_news(before.reason->0@, found) {
                &&& note.reason == before.reason
                &&& note.told == before.told
                &&& after.stage == (RoundStage::RefreshSaved { at, changed: false })
            } else {
                &&& note.reason matches Some(reason) && reason@ == found
                &&& !note.told@.contains_key("unsuitable"@)
                &&& forall|class: Seq<char>| #[trigger]
                    before.told@.contains_key(class) && class != "unsuitable"@
                        ==> note.told@.contains_key(class)
                &&& after.stage == (RoundStage::RefreshSaved { at, changed: true })
            }
        }),
{
    let wish = r.wishes@[at as int];
    let before = record.notes[wish.id];
    let found = reason_of(release_views(releases@), wanted_by(watcher.settings, wish));
    let old_reason = before.reason->0@;
    if let ReasonView::OnlyInLanguages(x) = old_reason {
        if let ReasonView::OnlyInLanguages(y) = found {
            crate::watch::law_the_order_of_languages_is_no_news(x, y);
        }
    }
    assert(one_class(old_reason, found) == is_the_same_news(old_reason, found));
    let note = record_after.notes[wish.id];
    if !is_the_same_news(old_reason, found) {
        assert forall|class: Seq<char>| #[trigger]
            before.told@.contains_key(class) && class
                != "unsuitable"@ implies note.told@.contains_key(class) by {
            assert(before.told@.remove("unsuitable"@).contains_key(class));
        }
    }
}

/// The second search for a series is in the season of its oldest missing
/// episode, and there is none where nothing is missing.
pub proof fn law_a_season_is_searched_again(
    watcher: Watcher,
    entries: Seq<Entry>,
    now: Timestamp,
    r: Round,
    at: usize,
    series: ArrSeries,
    record: NoticesView,
    after: Round,
    record_after: NoticesView,
    step: RoundStep,
)
    requires
        r.stage == (RoundStage::RefreshSeries { at }),
        at < r.wishes@.len(),
        r.wishes@[at as int].arr_id is Some,
        round_stepped(
            watcher,
            entries,
            now,
            r,
            Answer::Series(Some(series)),
            record,
            after,
            record_after,
            step,
        ),
    ensures
        after.stage matches RoundStage::RefreshCounted { at: same, target } ==> {
            &&& same == at
            &&& searches_on(record, now.utc_day_number()) < watcher.settings.max_searches_per_day
            &&& exists|i: int|
                #![trigger series.episodes@[i]]
                0 <= i < series.episodes@.len() && ought_to_be_there(
                    series.monitored_seasons@,
                    r.wishes@[at as int].seasons@,
                    now.instant(),
                    series.episodes@[i],
                ) && !series.episodes@[i].has_file && target == SearchTarget::Season(
                    r.wishes@[at as int].arr_id->0,
                    series.episodes@[i].season,
                ) && forall|j: int|
                    #![trigger series.episodes@[j]]
                    0 <= j < series.episodes@.len() && ought_to_be_there(
                        series.monitored_seasons@,
                        r.wishes@[at as int].seasons@,
                        now.instant(),
                        series.episodes@[j],
                    ) && !series.episodes@[j].has_file
                        ==> series.episodes@[i].air_date->0.instant()
                        <= series.episodes@[j].air_date->0.instant()
        },
        !(after.stage is RefreshCounted) ==> comes_to_its_end(r, record, after, record_after, step),
{
    let wish = r.wishes@[at as int];
    let facts = choose|facts: crate::insight::SeriesFacts| #[trigger]
        crate::insight::facts_of(
            series.episodes@,
            series.monitored_seasons@,
            wish.seasons@,
            now.instant(),
            facts,
        ) && match facts.missing_oldest {
            Some(missing) => crate::watch::round::hunting(
                watcher,
                now,
                r,
                at,
                SearchTarget::Season(wish.arr_id->0, missing.1),
                record,
                after,
                record_after,
                step,
            ),
            None => crate::watch::round::closing(r, record, after, record_after, step),
        };
    law_the_oldest_missing_episode(
        series.episodes@,
        series.monitored_seasons@,
        wish.seasons@,
        now.instant(),
        facts,
    );
    if !(after.stage is RefreshCounted) {
        lemma_comes_to_its_end(r, record, after, record_after, step);
    }
}

/// What a wish cost and achieved is counted once each, and nothing else is.
pub proof fn law_the_report_counts(report: RoundReport, outcome: WishOutcome)
    requires
        report.searches < usize::MAX,
        report.notices_sent < usize::MAX,
        report.retries < usize::MAX,
    ensures
        ({
            let after = tallied(report, outcome);
            &&& after.searches == report.searches + if outcome.searched {
                1int
            } else {
                0
            }
            &&& after.notices_sent == report.notices_sent + if outcome.sent {
                1int
            } else {
                0
            }
            &&& after.retries == report.retries + if outcome.retried {
                1int
            } else {
                0
            }
            &&& after.wishes == report.wishes
            &&& after.refreshes == report.refreshes
        }),
{
}

/// A notice is the catalogue's message for the problem, and names the title.
/// Where nothing suitable was found it says how the wish stands, with the
/// season where there is one; and if there are releases at all, it ends with
/// how to ask for another version, by the number of the wish.
pub proof fn law_a_notice_says_what_is_wrong(
    catalogue: Catalogue,
    locale: Locale,
    title: Seq<char>,
    reason: ReasonView,
    state: WishStateView,
    id: i64,
    season: Option<u16>,
)
    ensures
        notice_said(catalogue, locale, "download_failed"@, title, state, id, season)
            == catalogue.says(locale, "notice.download_failed"@, seq![("title"@, title)]),
        notice_said(catalogue, locale, "import_stuck"@, title, state, id, season)
            == catalogue.says(locale, "notice.import_stuck"@, seq![("title"@, title)]),
        notice_said(catalogue, locale, "not_handed_over"@, title, state, id, season)
            == catalogue.says(locale, "notice.not_handed_over"@, seq![("title"@, title)]),
        ({
            let found = WishStateView::Unsuitable(reason);
            let sentence = match season {
                Some(number) => catalogue.says(
                    locale,
                    "notice.unsuitable_season"@,
                    seq![
                        ("title"@, title),
                        ("season"@, decimal(number as nat)),
                        ("state"@, state_said(catalogue, locale, found)),
                    ],
                ),
                None => catalogue.says(
                    locale,
                    "notice.unsuitable"@,
                    seq![("title"@, title), ("state"@, state_said(catalogue, locale, found))],
                ),
            };
            notice_said(catalogue, locale, "unsuitable"@, title, found, id, season)
                == if reason == ReasonView::NothingExists {
                sentence
            } else {
                sentence + "\n\n"@ + catalogue.says(
                    locale,
                    "notice.unsuitable_hint"@,
                    seq![("id"@, decimal_int(id as int))],
                )
            }
        }),
{
    reveal_strlit("unsuitable");
    reveal_strlit("download_failed");
    reveal_strlit("import_stuck");
    reveal_strlit("not_handed_over");
    assert("unsuitable"@[0] == 'u');
    assert("download_failed"@[0] == 'd');
    assert("import_stuck"@[0] == 'i');
    assert("not_handed_over"@[0] == 'n');
}

} // verus!
