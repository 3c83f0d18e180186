//! What holds of every reason, said of the releases that a search turned up.

use crate::arr::ReleaseView;
use crate::insight::{
    all_rejected_with, carries, count_of, foreign, is_language, leader, leads, mentions,
    own_releases, reason_of, rejected_with, top_two, wanted_releases, without,
};
use crate::model::ReasonView;
use crate::text::{occurs, same_ascii_caseless};
use vstd::prelude::*;

verus! {

/// Whether a release says of itself that it belongs to another series.
pub open spec fn says_another_series(release: ReleaseView) -> bool {
    exists|i: int|
        #![trigger release.rejections[i]]
        0 <= i < release.rejections.len() && (occurs(release.rejections[i], "Unknown Series"@)
            || occurs(release.rejections[i], "matches an alias for series with TVDB ID"@))
}

/// Whether a release is in one of some languages.
pub open spec fn is_in_any(release: ReleaseView, wanted: Seq<Seq<char>>) -> bool {
    exists|k: int, j: int|
        #![trigger release.languages[k], wanted[j]]
        0 <= k < release.languages.len() && 0 <= j < wanted.len() && same_ascii_caseless(
            wanted[j],
            release.languages[k],
        )
}

/// Whether a release is what was searched for, in a wanted language where
/// languages are wanted.
pub open spec fn is_relevant(release: ReleaseView, wanted: Option<Seq<Seq<char>>>) -> bool {
    !says_another_series(release) && (wanted matches Some(languages) ==> is_in_any(
        release,
        languages,
    ))
}

/// Whether a release was refused with a sentence.
pub open spec fn refused_with(release: ReleaseView, sentence: Seq<char>) -> bool {
    exists|i: int|
        #![trigger release.rejections[i]]
        0 <= i < release.rejections.len() && occurs(release.rejections[i], sentence)
}

/// Whether every release that is what was searched for was refused.
pub open spec fn all_refused(releases: Seq<ReleaseView>) -> bool {
    forall|i: int|
        0 <= i < releases.len() && !says_another_series(#[trigger] releases[i])
            ==> releases[i].rejected
}

/// Whether there is a relevant release, and each of them was refused with a
/// sentence.
pub open spec fn fails_on(
    releases: Seq<ReleaseView>,
    wanted: Option<Seq<Seq<char>>>,
    sentence: Seq<char>,
) -> bool {
    &&& exists|i: int| 0 <= i < releases.len() && is_relevant(#[trigger] releases[i], wanted)
    &&& forall|i: int|
        0 <= i < releases.len() && is_relevant(#[trigger] releases[i], wanted) ==> refused_with(
            releases[i],
            sentence,
        )
}

proof fn lemma_foreign(release: ReleaseView)
    ensures
        foreign(release) == says_another_series(release),
{
    if foreign(release) {
        if rejected_with(release, "Unknown Series"@) {
            let i = choose|i: int|
                0 <= i < release.rejections.len() && occurs(
                    #[trigger] release.rejections[i],
                    "Unknown Series"@,
                );
            assert(occurs(release.rejections[i], "Unknown Series"@));
        } else {
            let i = choose|i: int|
                0 <= i < release.rejections.len() && occurs(
                    #[trigger] release.rejections[i],
                    "matches an alias for series with TVDB ID"@,
                );
            assert(occurs(
                release.rejections[i],
                "matches an alias for series with TVDB ID"@,
            ));
        }
    }
}

/// What was searched for is what does not say otherwise.
proof fn lemma_own(releases: Seq<ReleaseView>)
    ensures
        forall|k: int|
            0 <= k < own_releases(releases).len() ==> !says_another_series(
                #[trigger] own_releases(releases)[k],
            ) && releases.contains(own_releases(releases)[k]),
        forall|i: int|
            0 <= i < releases.len() && !says_another_series(#[trigger] releases[i])
                ==> own_releases(releases).contains(releases[i]),
{
    let keep = |r: ReleaseView| !foreign(r);
    let own = own_releases(releases);
    assert forall|k: int| 0 <= k < own.len() implies !says_another_series(#[trigger] own[k])
        && releases.contains(own[k]) by {
        releases.lemma_filter_pred(keep, k);
        lemma_foreign(own[k]);
        assert(own.contains(own[k]));
        releases.lemma_filter_contains_rev(keep, own[k]);
    }
    assert forall|i: int|
        0 <= i < releases.len() && !says_another_series(#[trigger] releases[i]) implies own.contains(
        releases[i],
    ) by {
        lemma_foreign(releases[i]);
        releases.lemma_filter_contains(keep, i);
    }
}

/// The releases that a reason is taken from.
spec fn taken_from(
    releases: Seq<ReleaseView>,
    wanted: Option<Seq<Seq<char>>>,
) -> Seq<ReleaseView> {
    match wanted {
        Some(languages) => wanted_releases(own_releases(releases), languages),
        None => own_releases(releases),
    }
}

/// The relevant releases are those that the reason is taken from.
proof fn lemma_relevant(releases: Seq<ReleaseView>, wanted: Option<Seq<Seq<char>>>)
    ensures
        ({
            let judged = taken_from(releases, wanted);
            &&& forall|k: int|
                0 <= k < judged.len() ==> is_relevant(#[trigger] judged[k], wanted)
                    && releases.contains(judged[k])
            &&& forall|i: int|
                0 <= i < releases.len() && is_relevant(#[trigger] releases[i], wanted)
                    ==> judged.contains(releases[i])
        }),
{
    lemma_own(releases);
    let own = own_releases(releases);
    if let Some(languages) = wanted {
        let keep = |r: ReleaseView| carries(r, languages);
        let judged = taken_from(releases, wanted);
        assert forall|k: int| 0 <= k < judged.len() implies is_relevant(
            #[trigger] judged[k],
            wanted,
        ) && releases.contains(judged[k]) by {
            own.lemma_filter_pred(keep, k);
            assert(judged.contains(judged[k]));
            own.lemma_filter_contains_rev(keep, judged[k]);
            let at = choose|at: int| 0 <= at < own.len() && own[at] == judged[k];
            assert(releases.contains(own[at]));
            assert(carries(judged[k], languages));
            assert(is_in_any(judged[k], languages));
        }
        assert forall|i: int|
            0 <= i < releases.len() && is_relevant(
                #[trigger] releases[i],
                wanted,
            ) implies judged.contains(releases[i]) by {
            assert(own.contains(releases[i]));
            let at = choose|at: int| 0 <= at < own.len() && own[at] == releases[i];
            assert(carries(own[at], languages));
            own.lemma_filter_contains(keep, at);
        }
    } else {
        assert forall|i: int|
            0 <= i < releases.len() && is_relevant(
                #[trigger] releases[i],
                wanted,
            ) implies own.contains(releases[i]) by {
            assert(!says_another_series(releases[i]));
        }
    }
}

proof fn lemma_fails_on(
    releases: Seq<ReleaseView>,
    wanted: Option<Seq<Seq<char>>>,
    sentence: Seq<char>,
)
    ensures
        ({
            let judged = taken_from(releases, wanted);
            fails_on(releases, wanted, sentence) <==> judged.len() > 0 && all_rejected_with(
                judged,
                sentence,
            )
        }),
{
    lemma_relevant(releases, wanted);
    let judged = taken_from(releases, wanted);
    assert forall|r: ReleaseView| #[trigger]
        refused_with(r, sentence) == rejected_with(r, sentence) by {
        if refused_with(r, sentence) {
            let i = choose|i: int|
                #![trigger r.rejections[i]]
                0 <= i < r.rejections.len() && occurs(r.rejections[i], sentence);
            assert(occurs(r.rejections[i], sentence));
        }
    }
    if fails_on(releases, wanted, sentence) {
        let i = choose|i: int|
            0 <= i < releases.len() && is_relevant(#[trigger] releases[i], wanted);
        assert(judged.contains(releases[i]));
        assert forall|k: int| 0 <= k < judged.len() implies rejected_with(
            #[trigger] judged[k],
            sentence,
        ) by {
            let at = choose|at: int| 0 <= at < releases.len() && releases[at] == judged[k];
            assert(is_relevant(releases[at], wanted));
            assert(refused_with(releases[at], sentence));
        }
    }
    if judged.len() > 0 && all_rejected_with(judged, sentence) {
        let at = choose|at: int| 0 <= at < releases.len() && releases[at] == judged[0];
        assert(is_relevant(releases[at], wanted));
        assert forall|i: int|
            0 <= i < releases.len() && is_relevant(
                #[trigger] releases[i],
                wanted,
            ) implies refused_with(releases[i], sentence) by {
            let k = choose|k: int| 0 <= k < judged.len() && judged[k] == releases[i];
            assert(rejected_with(judged[k], sentence));
            assert(refused_with(judged[k], sentence));
        }
    }
}

proof fn lemma_all_refused(releases: Seq<ReleaseView>)
    ensures
        all_refused(releases) <==> !(exists|k: int|
            0 <= k < own_releases(releases).len()
                && !(#[trigger] own_releases(releases)[k]).rejected),
{
    lemma_own(releases);
    let own = own_releases(releases);
    if all_refused(releases) {
        assert forall|k: int| 0 <= k < own.len() implies (#[trigger] own[k]).rejected by {
            let at = choose|at: int| 0 <= at < releases.len() && releases[at] == own[k];
            assert(!says_another_series(releases[at]));
        }
    } else {
        let i = choose|i: int|
            0 <= i < releases.len() && !says_another_series(#[trigger] releases[i])
                && !releases[i].rejected;
        let k = choose|k: int| 0 <= k < own.len() && own[k] == releases[i];
        assert(!own[k].rejected);
    }
}

/// A search found nothing exactly where every release says that it belongs to
/// another series.
pub proof fn law_nothing_is_nothing(
    releases: Seq<ReleaseView>,
    wanted: Option<Seq<Seq<char>>>,
)
    ensures
        reason_of(releases, wanted) == ReasonView::NothingExists <==> forall|i: int|
            0 <= i < releases.len() ==> says_another_series(#[trigger] releases[i]),
{
    lemma_own(releases);
    let own = own_releases(releases);
    if own.len() > 0 {
        let at = choose|at: int| 0 <= at < releases.len() && releases[at] == own[0];
        assert(!says_another_series(releases[at]));
    }
}

/// Where something was not refused, it is only a matter of time: none of the
/// reasons is given.
pub proof fn law_what_is_not_refused_is_coming(
    releases: Seq<ReleaseView>,
    wanted: Option<Seq<Seq<char>>>,
)
    requires
        !all_refused(releases),
    ensures
        reason_of(releases, wanted) == ReasonView::Otherwise,
{
    lemma_all_refused(releases);
    lemma_own(releases);
}

/// Where everything was refused and something relevant was found, the reason
/// is the first of three sentences that all of the relevant releases have in
/// common, and none of them where they have none.
pub proof fn law_the_reason_is_what_they_have_in_common(
    releases: Seq<ReleaseView>,
    wanted: Option<Seq<Seq<char>>>,
)
    requires
        all_refused(releases),
        exists|i: int| 0 <= i < releases.len() && is_relevant(#[trigger] releases[i], wanted),
    ensures
        ({
            let reason = reason_of(releases, wanted);
            let large = fails_on(releases, wanted, "larger than maximum allowed"@);
            let small = fails_on(releases, wanted, "smaller than minimum allowed"@);
            let quality = fails_on(releases, wanted, "is not wanted in profile"@);
            &&& reason == ReasonView::TooLarge <==> large
            &&& reason == ReasonView::TooSmall <==> !large && small
            &&& reason == ReasonView::WrongQuality <==> !large && !small && quality
            &&& reason == ReasonView::Otherwise <==> !large && !small && !quality
        }),
{
    lemma_all_refused(releases);
    lemma_own(releases);
    lemma_relevant(releases, wanted);
    lemma_fails_on(releases, wanted, "larger than maximum allowed"@);
    lemma_fails_on(releases, wanted, "smaller than minimum allowed"@);
    lemma_fails_on(releases, wanted, "is not wanted in profile"@);
    let i = choose|i: int| 0 <= i < releases.len() && is_relevant(#[trigger] releases[i], wanted);
    assert(own_releases(releases).contains(releases[i]));
}

/// A size or a quality is blamed only where everything was refused.
pub proof fn law_a_sentence_is_blamed_only_when_all_is_refused(
    releases: Seq<ReleaseView>,
    wanted: Option<Seq<Seq<char>>>,
)
    ensures
        ({
            let reason = reason_of(releases, wanted);
            reason is TooLarge || reason is TooSmall || reason is WrongQuality ==> {
                &&& all_refused(releases)
                &&& exists|i: int|
                    0 <= i < releases.len() && is_relevant(#[trigger] releases[i], wanted)
            }
        }),
{
    lemma_all_refused(releases);
    lemma_relevant(releases, wanted);
    let judged = taken_from(releases, wanted);
    if judged.len() > 0 {
        let at = choose|at: int| 0 <= at < releases.len() && releases[at] == judged[0];
        assert(is_relevant(releases[at], wanted));
    }
}

/// How often a search names a language, over the releases that are what was
/// searched for.
pub open spec fn how_often(releases: Seq<ReleaseView>, name: Seq<char>) -> nat
    decreases releases.len(),
{
    if releases.len() == 0 {
        0
    } else {
        how_often(releases.drop_last(), name) + if says_another_series(releases.last()) {
            0
        } else {
            releases.last().languages.to_multiset().count(name)
        }
    }
}

proof fn lemma_count_add(a: Seq<Seq<char>>, b: Seq<Seq<char>>, name: Seq<char>)
    ensures
        count_of(a + b, name) == count_of(a, name) + count_of(b, name),
    decreases b.len(),
{
    if b.len() > 0 {
        lemma_count_add(a, b.drop_last(), name);
        assert((a + b).drop_last() =~= a + b.drop_last());
        assert((a + b).last() == b.last());
    } else {
        assert(a + b =~= a);
    }
}

proof fn lemma_count_named(list: Seq<Seq<char>>, name: Seq<char>)
    requires
        is_language(name),
    ensures
        count_of(list.filter(|n: Seq<char>| is_language(n)), name) == list.to_multiset().count(
            name,
        ),
    decreases list.len(),
{
    let keep = |n: Seq<char>| is_language(n);
    reveal(Seq::filter);
    list.to_multiset_ensures();
    if list.len() > 0 {
        let before = list.drop_last();
        lemma_count_named(before, name);
        before.to_multiset_ensures();
        assert(list =~= before.push(list.last()));
        before.lemma_filter_push(list.last(), keep);
        let kept = before.filter(keep);
        assert(list.to_multiset() =~= before.to_multiset().insert(list.last()));
        if is_language(list.last()) {
            assert(kept.push(list.last()).drop_last() =~= kept);
        }
    } else {
        assert(list.filter(keep).len() == 0);
    }
}

proof fn lemma_how_often(releases: Seq<ReleaseView>, name: Seq<char>)
    requires
        is_language(name),
    ensures
        count_of(mentions(own_releases(releases)), name) == how_often(releases, name),
    decreases releases.len(),
{
    let keep = |r: ReleaseView| !foreign(r);
    reveal(Seq::filter);
    if releases.len() > 0 {
        let before = releases.drop_last();
        lemma_how_often(before, name);
        lemma_foreign(releases.last());
        assert(releases =~= before.push(releases.last()));
        before.lemma_filter_push(releases.last(), keep);
        let own = own_releases(before);
        if !foreign(releases.last()) {
            assert(own.push(releases.last()).drop_last() =~= own);
            let added = releases.last().languages.filter(|n: Seq<char>| is_language(n));
            lemma_count_add(mentions(own), added, name);
            lemma_count_named(releases.last().languages, name);
        }
    } else {
        assert(own_releases(releases).len() == 0);
    }
}

proof fn lemma_count_positive(list: Seq<Seq<char>>, at: int)
    requires
        0 <= at < list.len(),
    ensures
        count_of(list, list[at]) > 0,
    decreases list.len(),
{
    if at < list.len() - 1 {
        assert(list.drop_last()[at] == list[at]);
        lemma_count_positive(list.drop_last(), at);
    }
}

proof fn lemma_count_absent(list: Seq<Seq<char>>, name: Seq<char>)
    requires
        !list.contains(name),
    ensures
        count_of(list, name) == 0,
    decreases list.len(),
{
    if list.len() > 0 {
        assert(list[list.len() - 1] == list.last());
        assert forall|i: int| 0 <= i < list.drop_last().len() implies list.drop_last()[i]
            != name by {
            assert(list.drop_last()[i] == list[i]);
        }
        lemma_count_absent(list.drop_last(), name);
    }
}

proof fn lemma_without_count(list: Seq<Seq<char>>, name: Seq<char>, other: Seq<char>)
    requires
        other != name,
    ensures
        count_of(without(list, name), other) == count_of(list, other),
    decreases list.len(),
{
    let keep = |x: Seq<char>| x != name;
    reveal(Seq::filter);
    if list.len() > 0 {
        let before = list.drop_last();
        lemma_without_count(before, name, other);
        assert(list =~= before.push(list.last()));
        before.lemma_filter_push(list.last(), keep);
        let kept = without(before, name);
        if list.last() != name {
            assert(kept.push(list.last()).drop_last() =~= kept);
        }
    } else {
        assert(without(list, name).len() == 0);
    }
}

proof fn lemma_leader_leads(list: Seq<Seq<char>>, other: Seq<char>)
    requires
        list.len() > 0,
    ensures
        list.contains(leader(list)),
        count_of(list, other) <= count_of(list, leader(list)),
{
    let at = crate::insight::lemma_leader_exists(list);
    assert(leads(list, at));
    if list.contains(other) {
        let j = choose|j: int| 0 <= j < list.len() && list[j] == other;
        assert(count_of(list, list[j]) <= count_of(list, list[at]));
    } else {
        lemma_count_absent(list, other);
    }
}

/// Whether a language is named at all, and is one.
pub open spec fn is_named(releases: Seq<ReleaseView>, name: Seq<char>) -> bool {
    &&& !same_ascii_caseless("Unknown"@, name)
    &&& !same_ascii_caseless("Original"@, name)
    &&& how_often(releases, name) > 0
}

/// A language reason is given exactly where everything was refused, nothing
/// is in any of the wanted languages, and some language is named. It names
/// the languages that are named most often, two where there are two: nothing
/// that is wanted, nothing that is no language, and nothing that is named
/// less often than one that is left out.
pub proof fn law_a_language_is_blamed_by_right(
    releases: Seq<ReleaseView>,
    wanted: Option<Seq<Seq<char>>>,
)
    ensures
        reason_of(releases, wanted) is OnlyInLanguages <==> {
            &&& wanted is Some
            &&& all_refused(releases)
            &&& forall|i: int|
                0 <= i < releases.len() && !says_another_series(#[trigger] releases[i])
                    ==> !is_in_any(releases[i], wanted->0)
            &&& exists|name: Seq<char>| #[trigger] is_named(releases, name)
        },
        reason_of(releases, wanted) matches ReasonView::OnlyInLanguages(names) ==> {
            &&& 1 <= names.len() <= 2
            &&& names.len() == 2 ==> names[0] != names[1] && how_often(releases, names[1])
                <= how_often(releases, names[0])
            &&& forall|k: int| 0 <= k < names.len() ==> is_named(releases, #[trigger] names[k])
            &&& forall|other: Seq<char>| #[trigger]
                is_named(releases, other) && !names.contains(other) ==> names.len() == 2
                    && how_often(releases, other) <= how_often(releases, names[1])
        },
{
    lemma_all_refused(releases);
    lemma_own(releases);
    let own = own_releases(releases);
    let list = mentions(own);
    crate::insight::lemma_mentions_are_languages(own);
    assert forall|name: Seq<char>| #[trigger] is_named(releases, name) <==> is_language(name)
        && list.contains(name) by {
        if is_language(name) {
            lemma_how_often(releases, name);
            if list.contains(name) {
                let at = choose|at: int| 0 <= at < list.len() && list[at] == name;
                lemma_count_positive(list, at);
            } else {
                lemma_count_absent(list, name);
            }
        }
    }
    if list.len() > 0 {
        assert(list.contains(list[0]));
        assert(is_named(releases, list[0]));
    }
    if exists|name: Seq<char>| #[trigger] is_named(releases, name) {
        let name = choose|name: Seq<char>| #[trigger] is_named(releases, name);
        assert(list.contains(name));
        lemma_named_release(releases, name);
    }
    if wanted is Some {
        lemma_relevant(releases, wanted);
        let judged = taken_from(releases, wanted);
        if judged.len() > 0 {
            let at = choose|at: int| 0 <= at < releases.len() && releases[at] == judged[0];
            assert(is_relevant(releases[at], wanted));
        }
        if exists|i: int|
            0 <= i < releases.len() && !says_another_series(#[trigger] releases[i]) && is_in_any(
                releases[i],
                wanted->0,
            ) {
            let i = choose|i: int|
                0 <= i < releases.len() && !says_another_series(#[trigger] releases[i])
                    && is_in_any(releases[i], wanted->0);
            assert(is_relevant(releases[i], wanted));
            assert(judged.contains(releases[i]));
        }
    }
    if let ReasonView::OnlyInLanguages(names) = reason_of(releases, wanted) {
        assert(names == top_two(list));
        lemma_leader_leads(list, leader(list));
        let rest = without(list, leader(list));
        crate::insight::lemma_top_two(list);
        assert forall|k: int| 0 <= k < names.len() implies is_named(
            releases,
            #[trigger] names[k],
        ) by {
            assert(list.contains(names[k]));
        }
        if names.len() == 2 {
            lemma_leader_leads(list, names[1]);
            lemma_how_often(releases, names[0]);
            lemma_how_often(releases, names[1]);
        }
        assert forall|other: Seq<char>| #[trigger]
            is_named(releases, other) && !names.contains(other) implies names.len() == 2
            && how_often(releases, other) <= how_often(releases, names[1]) by {
            assert(names[0] == leader(list));
            assert(names.contains(names[0]));
            lemma_without_count(list, leader(list), other);
            lemma_how_often(releases, other);
            if rest.len() == 0 {
                assert(count_of(rest, other) == 0);
            } else {
                assert(names[1] == leader(rest));
                lemma_leader_leads(rest, other);
                lemma_without_count(list, leader(list), names[1]);
                lemma_how_often(releases, names[1]);
            }
        }
    }
}

proof fn lemma_named_release(releases: Seq<ReleaseView>, name: Seq<char>)
    requires
        how_often(releases, name) > 0,
    ensures
        own_releases(releases).len() > 0,
    decreases releases.len(),
{
    lemma_own(releases);
    if releases.len() > 0 {
        if !says_another_series(releases.last()) {
            assert(releases[releases.len() - 1] == releases.last());
            assert(own_releases(releases).contains(releases[releases.len() - 1]));
        } else {
            let before = releases.drop_last();
            lemma_named_release(before, name);
            lemma_own(before);
            let first = own_releases(before)[0];
            let at = choose|at: int| 0 <= at < before.len() && before[at] == first;
            assert(releases[at] == first);
            assert(own_releases(releases).contains(releases[at]));
        }
    }
}

/// A language that is blamed is not a wanted one, whatever its place in the
/// list of wanted languages and whatever its letters' case.
pub proof fn law_no_wanted_language_is_blamed(
    releases: Seq<ReleaseView>,
    wanted: Seq<Seq<char>>,
    k: int,
    j: int,
)
    requires
        0 <= j < wanted.len(),
        reason_of(releases, Some(wanted)) matches ReasonView::OnlyInLanguages(names) && 0 <= k
            < names.len(),
    ensures
        !same_ascii_caseless(
            wanted[j],
            reason_of(releases, Some(wanted))->OnlyInLanguages_0[k],
        ),
{
    law_a_language_is_blamed_by_right(releases, Some(wanted));
    let name = reason_of(releases, Some(wanted))->OnlyInLanguages_0[k];
    assert(is_named(releases, name));
    lemma_named_somewhere(releases, name);
    let (i, l) = choose|i: int, l: int|
        0 <= i < releases.len() && !says_another_series(releases[i]) && 0 <= l
            < releases[i].languages.len() && #[trigger] releases[i].languages[l] == name;
    assert(!is_in_any(releases[i], wanted));
    if same_ascii_caseless(wanted[j], name) {
        assert(same_ascii_caseless(wanted[j], releases[i].languages[l]));
        assert(is_in_any(releases[i], wanted));
    }
}

proof fn lemma_named_somewhere(releases: Seq<ReleaseView>, name: Seq<char>)
    requires
        how_often(releases, name) > 0,
    ensures
        exists|i: int, l: int|
            0 <= i < releases.len() && !says_another_series(releases[i]) && 0 <= l
                < releases[i].languages.len() && #[trigger] releases[i].languages[l] == name,
    decreases releases.len(),
{
    let last = releases.len() - 1;
    if releases.len() > 0 {
        if !says_another_series(releases.last())
            && releases.last().languages.to_multiset().count(name) > 0 {
            releases.last().languages.to_multiset_ensures();
            assert(releases[last].languages.contains(name));
            let l = choose|l: int|
                0 <= l < releases[last].languages.len() && releases[last].languages[l] == name;
            assert(releases[last].languages[l] == name);
        } else {
            let before = releases.drop_last();
            lemma_named_somewhere(before, name);
            let (i, l) = choose|i: int, l: int|
                0 <= i < before.len() && !says_another_series(before[i]) && 0 <= l
                    < before[i].languages.len() && #[trigger] before[i].languages[l] == name;
            assert(releases[i] == before[i]);
            assert(releases[i].languages[l] == name);
        }
    }
}

/// The order of the wanted languages changes nothing: two lists of the same
/// names give the same reason.
pub proof fn law_the_order_of_wanted_languages_changes_nothing(
    releases: Seq<ReleaseView>,
    wanted: Seq<Seq<char>>,
    other: Seq<Seq<char>>,
)
    requires
        wanted.to_set() == other.to_set(),
    ensures
        reason_of(releases, Some(wanted)) == reason_of(releases, Some(other)),
{
    let own = own_releases(releases);
    assert forall|r: ReleaseView| #[trigger] carries(r, wanted) == carries(r, other) by {
        lemma_carries_by_name(r, wanted, other);
        lemma_carries_by_name(r, other, wanted);
    }
    let a = |r: ReleaseView| carries(r, wanted);
    let b = |r: ReleaseView| carries(r, other);
    assert(a =~= b);
    assert(wanted_releases(own, wanted) == wanted_releases(own, other));
}

proof fn lemma_carries_by_name(r: ReleaseView, wanted: Seq<Seq<char>>, other: Seq<Seq<char>>)
    requires
        wanted.to_set() == other.to_set(),
    ensures
        carries(r, wanted) ==> carries(r, other),
{
    if carries(r, wanted) {
        let (i, j) = choose|i: int, j: int|
            #![trigger r.languages[i], wanted[j]]
            0 <= i < r.languages.len() && 0 <= j < wanted.len() && same_ascii_caseless(
                wanted[j],
                r.languages[i],
            );
        assert(wanted.contains(wanted[j]));
        assert(wanted.to_set().contains(wanted[j]));
        assert(other.to_set().contains(wanted[j]));
        let k = choose|k: int| 0 <= k < other.len() && other[k] == wanted[j];
        assert(same_ascii_caseless(other[k], r.languages[i]));
    }
}

/// Of languages that are named equally often, the one that is named first
/// comes first: the releases are gone through in their order, and each one's
/// languages in theirs.
pub proof fn law_what_is_named_first_comes_first(
    releases: Seq<ReleaseView>,
    last: ReleaseView,
    wanted: Option<Seq<Seq<char>>>,
)
    ensures
        mentions(Seq::empty()) == Seq::<Seq<char>>::empty(),
        mentions(releases.push(last)) == mentions(releases) + last.languages.filter(
            |name: Seq<char>|
                !same_ascii_caseless("Unknown"@, name) && !same_ascii_caseless("Original"@, name),
        ),
        reason_of(releases, wanted) matches ReasonView::OnlyInLanguages(names) ==> exists|at: int|
            #![trigger mentions(own_releases(releases))[at]]
            {
                let list = mentions(own_releases(releases));
                &&& 0 <= at < list.len()
                &&& names[0] == list[at]
                &&& forall|j: int|
                    0 <= j < at ==> how_often(releases, #[trigger] list[j]) < how_often(
                        releases,
                        list[at],
                    )
            },
{
    assert(releases.push(last).drop_last() =~= releases);
    let kept = last.languages.filter(|name: Seq<char>| is_language(name));
    let raw = last.languages.filter(
        |name: Seq<char>|
            !same_ascii_caseless("Unknown"@, name) && !same_ascii_caseless("Original"@, name),
    );
    lemma_same_filter(
        last.languages,
        |name: Seq<char>| is_language(name),
        |name: Seq<char>|
            !same_ascii_caseless("Unknown"@, name) && !same_ascii_caseless("Original"@, name),
    );
    if let ReasonView::OnlyInLanguages(names) = reason_of(releases, wanted) {
        let own = own_releases(releases);
        let list = mentions(own);
        let at = crate::insight::lemma_leader_exists(list);
        crate::insight::lemma_mentions_are_languages(own);
        assert(names[0] == list[at]);
        assert(is_language(list[at]));
        lemma_how_often(releases, list[at]);
        assert forall|j: int| 0 <= j < at implies how_often(releases, #[trigger] list[j])
            < how_often(releases, list[at]) by {
            assert(is_language(list[j]));
            lemma_how_often(releases, list[j]);
        }
    }
}

proof fn lemma_same_filter(
    list: Seq<Seq<char>>,
    f: spec_fn(Seq<char>) -> bool,
    g: spec_fn(Seq<char>) -> bool,
)
    requires
        forall|name: Seq<char>| #[trigger] f(name) == g(name),
    ensures
        list.filter(f) == list.filter(g),
    decreases list.len(),
{
    reveal(Seq::filter);
    if list.len() > 0 {
        lemma_same_filter(list.drop_last(), f, g);
    }
}

} // verus!
