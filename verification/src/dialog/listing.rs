//! How search results, profiles and wishes are listed.

use crate::dialog::status::{plain, state_said, state_text, with_one};
use crate::i18n::{Catalogue, Locale, arg_views};
use crate::model::{Hit, MediaKind, QualityProfile, WishState, WishStateView};
use crate::text::{decimal, decimal_i64, decimal_int, decimal_u64, same, views};
use vstd::prelude::*;

verus! {

/// How many results are shown at once.
pub const PAGE: usize = 5;

/// The title of a result, with its year where that is known.
pub open spec fn titled(hit: Hit) -> Seq<char> {
    match hit.year {
        Some(year) => hit.title@ + " ("@ + decimal(year as nat) + ")"@,
        None => hit.title@,
    }
}

/// One result: its number, title, year, kind and rating, and whether it is
/// there already.
pub open spec fn hit_said(catalogue: Catalogue, locale: Locale, number: nat, hit: Hit) -> Seq<char> {
    let kind = match hit.kind {
        MediaKind::Movie => catalogue.says(locale, "search.kind_movie"@, Seq::empty()),
        MediaKind::Tv => catalogue.says(locale, "search.kind_tv"@, Seq::empty()),
    };
    let rating = match hit.rating {
        Some(rating) => " · ★ "@ + rating@,
        None => Seq::empty(),
    };
    let already = if hit.already {
        " · "@ + catalogue.says(locale, "search.already"@, Seq::empty())
    } else {
        Seq::empty()
    };
    decimal(number) + ". "@ + titled(hit) + " · "@ + kind + rating + already + "\n"@
}

/// The first `count` results, one after the other.
pub open spec fn hits_said(
    catalogue: Catalogue,
    locale: Locale,
    hits: Seq<Hit>,
    count: nat,
) -> Seq<char>
    decreases count,
{
    if count == 0 {
        Seq::empty()
    } else {
        hits_said(catalogue, locale, hits, (count - 1) as nat) + hit_said(
            catalogue,
            locale,
            count,
            hits[count - 1],
        )
    }
}

/// How many of so many results are shown.
pub open spec fn shown(count: nat) -> nat {
    if count < PAGE {
        count
    } else {
        PAGE as nat
    }
}

/// A page of results.
pub open spec fn listing_said(catalogue: Catalogue, locale: Locale, hits: Seq<Hit>) -> Seq<char> {
    hits_said(catalogue, locale, hits, shown(hits.len())) + "\n"@ + catalogue.says(
        locale,
        "search.footer"@,
        Seq::empty(),
    )
}

/// The title of a result, with its year where that is known.
fn title_and_year(hit: &Hit) -> (out: String)
    ensures
        out@ == titled(*hit),
{
    let mut out = hit.title.clone();
    if let Some(year) = hit.year {
        out.append(" (");
        out.append(decimal_u64(year as u64).as_str());
        out.append(")");
    }
    out
}

fn hit_text(catalogue: &Catalogue, locale: Locale, number: u64, hit: &Hit) -> (out: String)
    ensures
        out@ == hit_said(*catalogue, locale, number as nat, *hit),
{
    let kind = match hit.kind {
        MediaKind::Movie => plain(catalogue, locale, "search.kind_movie"),
        MediaKind::Tv => plain(catalogue, locale, "search.kind_tv"),
    };
    let ghost kind_said = kind@;
    let mut out = decimal_u64(number);
    out.append(". ");
    out.append(title_and_year(hit).as_str());
    out.append(" · ");
    out.append(kind.as_str());
    let ghost middle = out@;
    let ghost rating = match &hit.rating {
        Some(rating) => " · ★ "@ + rating@,
        None => Seq::empty(),
    };
    if let Some(rating) = &hit.rating {
        out.append(" · ★ ");
        out.append(rating.as_str());
    }
    assert(out@ =~= middle + rating);
    let ghost rated = out@;
    let ghost already = if hit.already {
        " · "@ + catalogue.says(locale, "search.already"@, Seq::empty())
    } else {
        Seq::empty()
    };
    if hit.already {
        out.append(" · ");
        out.append(plain(catalogue, locale, "search.already").as_str());
    }
    assert(out@ =~= rated + already);
    out.append("\n");
    out
}

/// A page of results, one line each, and how to answer.
pub fn render(catalogue: &Catalogue, locale: Locale, hits: &Vec<Hit>) -> (out: String)
    ensures
        out@ == listing_said(*catalogue, locale, hits@),
{
    let count: usize = if hits.len() < PAGE {
        hits.len()
    } else {
        PAGE
    };
    let mut out = String::new();
    let mut i: usize = 0;
    assert(out@ =~= hits_said(*catalogue, locale, hits@, 0));
    while i < count
        invariant
            i <= count <= hits@.len(),
            count <= PAGE,
            out@ == hits_said(*catalogue, locale, hits@, i as nat),
        decreases count - i,
    {
        out.append(hit_text(catalogue, locale, (i + 1) as u64, &hits[i]).as_str());
        i += 1;
    }
    out.append("\n");
    out.append(plain(catalogue, locale, "search.footer").as_str());
    out
}

/// The first profile of a name.
pub open spec fn profile_named(
    listed: Seq<QualityProfile>,
    name: Seq<char>,
) -> Option<QualityProfile>
    decreases listed.len(),
{
    if listed.len() == 0 {
        None
    } else if listed[0].name@ == name {
        Some(listed[0])
    } else {
        profile_named(listed.skip(1), name)
    }
}

/// The first profile of an id.
pub open spec fn profile_with(listed: Seq<QualityProfile>, id: i64) -> Option<QualityProfile>
    decreases listed.len(),
{
    if listed.len() == 0 {
        None
    } else if listed[0].id == id {
        Some(listed[0])
    } else {
        profile_with(listed.skip(1), id)
    }
}

/// The configured profiles that Seerr knows, in the configured order.
pub open spec fn known_profiles(
    configured: Seq<Seq<char>>,
    listed: Seq<QualityProfile>,
) -> Seq<QualityProfile>
    decreases configured.len(),
{
    if configured.len() == 0 {
        Seq::empty()
    } else {
        let before = known_profiles(configured.drop_last(), listed);
        match profile_named(listed, configured.last()) {
            Some(profile) => before.push(profile),
            None => before,
        }
    }
}

/// The profiles that are offered: the configured ones that Seerr knows, or
/// Seerr's own list where none are configured.
pub open spec fn offered(
    configured: Seq<Seq<char>>,
    listed: Seq<QualityProfile>,
) -> Seq<QualityProfile> {
    if configured.len() == 0 {
        listed
    } else {
        known_profiles(configured, listed)
    }
}

fn find_named<'a>(listed: &'a Vec<QualityProfile>, name: &str) -> (r: Option<&'a QualityProfile>)
    ensures
        match r {
            Some(profile) => profile_named(listed@, name@) == Some(*profile),
            None => profile_named(listed@, name@) is None,
        },
{
    let mut i: usize = 0;
    assert(listed@.skip(0) =~= listed@);
    while i < listed.len()
        invariant
            i <= listed@.len(),
            profile_named(listed@.skip(i as int), name@) == profile_named(listed@, name@),
        decreases listed@.len() - i,
    {
        assert(listed@.skip(i as int).skip(1) =~= listed@.skip(i + 1));
        if same(listed[i].name.as_str(), name) {
            return Some(&listed[i]);
        }
        i += 1;
    }
    None
}

/// The first profile of an id.
pub fn find_profile(listed: &Vec<QualityProfile>, id: i64) -> (r: Option<&QualityProfile>)
    ensures
        match r {
            Some(profile) => profile_with(listed@, id) == Some(*profile),
            None => profile_with(listed@, id) is None,
        },
{
    let mut i: usize = 0;
    assert(listed@.skip(0) =~= listed@);
    while i < listed.len()
        invariant
            i <= listed@.len(),
            profile_with(listed@.skip(i as int), id) == profile_with(listed@, id),
        decreases listed@.len() - i,
    {
        assert(listed@.skip(i as int).skip(1) =~= listed@.skip(i + 1));
        if listed[i].id == id {
            return Some(&listed[i]);
        }
        i += 1;
    }
    None
}

/// A copy of a list of profiles.
pub fn clone_profiles(list: &Vec<QualityProfile>) -> (r: Vec<QualityProfile>)
    ensures
        r@ == list@,
{
    let mut r: Vec<QualityProfile> = Vec::new();
    let mut i: usize = 0;
    while i < list.len()
        invariant
            i <= list@.len(),
            r@ == list@.take(i as int),
        decreases list@.len() - i,
    {
        r.push(list[i].clone());
        assert(list@.take(i + 1) =~= list@.take(i as int).push(list@[i as int]));
        i += 1;
    }
    assert(list@.take(i as int) =~= list@);
    r
}

/// The profiles that are offered. A name that Seerr does not know is dropped.
pub fn offer(configured: &Vec<String>, listed: &Vec<QualityProfile>) -> (r: Vec<QualityProfile>)
    ensures
        r@ == offered(views(configured@), listed@),
{
    if configured.len() == 0 {
        return clone_profiles(listed);
    }
    let ghost all = views(configured@);
    let mut r: Vec<QualityProfile> = Vec::new();
    let mut i: usize = 0;
    assert(all.take(0) =~= Seq::<Seq<char>>::empty());
    while i < configured.len()
        invariant
            i <= configured@.len(),
            all == views(configured@),
            r@ == known_profiles(all.take(i as int), listed@),
        decreases configured@.len() - i,
    {
        proof {
            let next = all.take(i + 1);
            assert(next.drop_last() =~= all.take(i as int));
            assert(next.last() == configured@[i as int]@);
        }
        if let Some(profile) = find_named(listed, configured[i].as_str()) {
            r.push(profile.clone());
        }
        i += 1;
    }
    assert(all.take(i as int) =~= all);
    r
}

/// The numbered names of the first `count` profiles.
pub open spec fn options_said(options: Seq<QualityProfile>, count: nat) -> Seq<char>
    decreases count,
{
    if count == 0 {
        Seq::empty()
    } else {
        options_said(options, (count - 1) as nat) + "\n"@ + decimal(count) + ". "@ + options[count
            - 1].name@
    }
}

/// The question for a profile: the sentence, and the numbered profiles.
pub open spec fn question_said(
    catalogue: Catalogue,
    locale: Locale,
    title: Seq<char>,
    options: Seq<QualityProfile>,
) -> Seq<char> {
    catalogue.says(locale, "request.profile_question"@, seq![("title"@, title)]) + options_said(
        options,
        options.len(),
    )
}

/// The question for a profile.
pub fn profile_question(
    catalogue: &Catalogue,
    locale: Locale,
    title: &str,
    options: &Vec<QualityProfile>,
) -> (r: String)
    ensures
        r@ == question_said(*catalogue, locale, title@, options@),
{
    let mut r = with_one(catalogue, locale, "request.profile_question", "title", title);
    let ghost sentence = r@;
    let mut i: usize = 0;
    assert(r@ =~= sentence + options_said(options@, 0));
    while i < options.len()
        invariant
            i <= options@.len(),
            r@ == sentence + options_said(options@, i as nat),
        decreases options@.len() - i,
    {
        r.append("\n");
        r.append(decimal_u64(i as u64 + 1).as_str());
        r.append(". ");
        r.append(options[i].name.as_str());
        assert(r@ =~= sentence + options_said(options@, (i + 1) as nat));
        i += 1;
    }
    r
}

/// One wish of the status answer.
pub open spec fn line_said(
    catalogue: Catalogue,
    locale: Locale,
    id: i64,
    title: Seq<char>,
    state: WishStateView,
) -> Seq<char> {
    catalogue.says(
        locale,
        "status.line"@,
        seq![
            ("id"@, decimal_int(id as int)),
            ("title"@, title),
            ("state"@, state_said(catalogue, locale, state)),
        ],
    )
}

/// One wish of the status answer.
pub fn status_line(
    catalogue: &Catalogue,
    locale: Locale,
    id: i64,
    title: &str,
    state: &WishState,
) -> (r: String)
    ensures
        r@ == line_said(*catalogue, locale, id, title@, state@),
{
    let number = decimal_i64(id);
    let words = state_text(catalogue, locale, state);
    let args = [("id", number.as_str()), ("title", title), ("state", words.as_str())];
    assert(arg_views(args@) =~= seq![("id"@, number@), ("title"@, title@), ("state"@, words@)]);
    catalogue.text(locale, "status.line", &args)
}

/// Every profile that is offered is one that Seerr lists.
pub proof fn law_only_known_profiles_are_offered(
    configured: Seq<Seq<char>>,
    listed: Seq<QualityProfile>,
    i: int,
)
    requires
        0 <= i < offered(configured, listed).len(),
    ensures
        listed.contains(offered(configured, listed)[i]),
    decreases configured.len(),
{
    if configured.len() == 0 {
        assert(listed[i] == offered(configured, listed)[i]);
    } else {
        let before = known_profiles(configured.drop_last(), listed);
        if i < before.len() {
            if configured.drop_last().len() == 0 {
                assert(before.len() == 0);
            } else {
                law_only_known_profiles_are_offered(configured.drop_last(), listed, i);
            }
        } else {
            lemma_named_is_listed(listed, configured.last());
        }
    }
}

/// Where Seerr lists no profile, none is offered.
pub proof fn lemma_nothing_to_offer(configured: Seq<Seq<char>>)
    ensures
        offered(configured, Seq::empty()).len() == 0,
    decreases configured.len(),
{
    let none = Seq::<QualityProfile>::empty();
    if configured.len() > 0 {
        lemma_nothing_to_offer(configured.drop_last());
        assert(profile_named(none, configured.last()) is None);
    }
}

proof fn lemma_named_is_listed(listed: Seq<QualityProfile>, name: Seq<char>)
    ensures
        profile_named(listed, name) matches Some(profile) ==> listed.contains(profile)
            && profile.name@ == name,
    decreases listed.len(),
{
    if listed.len() > 0 {
        if listed[0].name@ == name {
            assert(listed[0] == profile_named(listed, name)->0);
        } else {
            lemma_named_is_listed(listed.skip(1), name);
            if profile_named(listed.skip(1), name) is Some {
                let found = profile_named(listed.skip(1), name)->0;
                let i = choose|i: int|
                    0 <= i < listed.skip(1).len() && listed.skip(1)[i] == found;
                assert(listed[i + 1] == found);
            }
        }
    }
}

} // verus!
