//! How Seerr's answers are read, said of what they hold.

use crate::json::{
    JsonView, bool_of, elements_of, entry, field_of, i64_of, number_text_of, text_of, u64_of,
};
use crate::model::{HitView, MediaKind, SeasonsView, SeerrUserId};
use crate::seerr::{
    Paging, WishRecordView, account_of, download_of, hit_of, is_request_of, number_tree, open_ones,
    page_taken, request_tree, requester_in, server_of, subject_in, title_in, wish_of, wish_views, wishes_of,
    year_of,
};
use crate::dialog::words::lemma_parted_after_a_word;
use crate::text::{parsed_unsigned, trimmed};
use vstd::prelude::*;
use vstd::utf8::{encode_utf8_decode_utf8, is_ascii_chars};

verus! {

/// What a result says under a name.
pub open spec fn said_under(result: JsonView, key: Seq<char>) -> Option<Seq<char>> {
    text_of(field_of(Some(result), key))
}

/// A result is there already exactly where Seerr says that somebody has asked
/// for it, that it is being worked on, or that it is there in part or whole.
/// Without a word about it, it is not.
pub proof fn law_what_is_there_already(result: JsonView, wanted: Option<MediaKind>, hit: HitView)
    requires
        hit_of(result, wanted) == Some(hit),
    ensures
        ({
            let status = i64_of(field_of(field_of(Some(result), "mediaInfo"@), "status"@));
            hit.already <==> status == Some(2i64) || status == Some(3i64) || status == Some(4i64)
                || status == Some(5i64)
        }),
{
}

/// A film is listed under its title and dated by its release, a series under
/// its name and dated by its first episode. Each keeps the number that Seerr
/// has for it, and where only one kind is wanted, only that one is listed.
pub proof fn law_a_result_is_read_by_its_kind(result: JsonView, wanted: Option<MediaKind>)
    ensures
        ({
            let is_film = said_under(result, "mediaType"@) == Some("movie"@);
            let is_series = said_under(result, "mediaType"@) == Some("tv"@);
            let title = if is_series {
                said_under(result, "name"@)
            } else {
                said_under(result, "title"@)
            };
            let date = if is_series {
                said_under(result, "firstAirDate"@)
            } else {
                said_under(result, "releaseDate"@)
            };
            let id = i64_of(field_of(Some(result), "id"@));
            let is_wanted = match wanted {
                None => is_film || is_series,
                Some(MediaKind::Movie) => is_film,
                Some(MediaKind::Tv) => is_series,
            };
            &&& hit_of(result, wanted) is Some <==> is_wanted && id is Some && title is Some
            &&& hit_of(result, wanted) matches Some(hit) ==> {
                &&& hit.tmdb_id == id->0
                &&& hit.title == title->0
                &&& hit.kind == MediaKind::Tv <==> is_series
                &&& hit.year == match date {
                    Some(date) => year_of(date),
                    None => None,
                }
                &&& hit.rating == number_text_of(field_of(Some(result), "voteAverage"@))
                &&& match u64_of(field_of(Some(result), "seasonCount"@)) {
                    Some(count) => count < 65_536 ==> hit.seasons == count,
                    None => hit.seasons == 0,
                }
            }
        }),
{
    reveal_strlit("movie");
    reveal_strlit("tv");
    assert("movie"@.len() == 5 && "tv"@.len() == 2);
}

/// The year of a date is what its first four characters say, whatever follows
/// them and if nothing does; where they are no number there is none.
pub proof fn law_a_date_begins_with_its_year(year: Seq<char>, rest: Seq<char>)
    requires
        year.len() == 4,
        is_ascii_chars(year),
    ensures
        match parsed_unsigned(year, 65_535) {
            Some(number) => year_of(year + rest) == Some(number as u16),
            None => year_of(year + rest) is None,
        },
{
    lemma_parted_after_a_word(year, rest);
    encode_utf8_decode_utf8(year);
}

/// Whether an account is the first with a Jellyfin name.
pub open spec fn is_first_account(accounts: Seq<JsonView>, username: Seq<char>, i: int) -> bool {
    &&& 0 <= i < accounts.len()
    &&& said_under(accounts[i], "jellyfinUsername"@) == Some(username)
    &&& forall|j: int|
        0 <= j < i ==> said_under(#[trigger] accounts[j], "jellyfinUsername"@) != Some(username)
}

/// A person is found by their Jellyfin name and by no other: what comes back
/// is the number of the first account with that name.
pub proof fn law_a_person_is_found_by_name(accounts: Seq<JsonView>, username: Seq<char>)
    ensures
        forall|i: int| #[trigger]
            is_first_account(accounts, username, i) ==> account_of(accounts, username) == (
            match i64_of(field_of(Some(accounts[i]), "id"@)) {
                Some(id) => Some(SeerrUserId(id)),
                None => None,
            }),
        (forall|i: int|
            0 <= i < accounts.len() ==> said_under(#[trigger] accounts[i], "jellyfinUsername"@)
                != Some(username)) ==> account_of(accounts, username) is None,
    decreases accounts.len(),
{
    if accounts.len() > 0 {
        let rest = accounts.skip(1);
        law_a_person_is_found_by_name(rest, username);
        assert forall|i: int| #[trigger] is_first_account(accounts, username, i) implies account_of(
            accounts,
            username,
        ) == (match i64_of(field_of(Some(accounts[i]), "id"@)) {
            Some(id) => Some(SeerrUserId(id)),
            None => None,
        }) by {
            if i > 0 {
                assert(said_under(accounts[0], "jellyfinUsername"@) != Some(username));
                assert forall|j: int| 0 <= j < i - 1 implies said_under(
                    #[trigger] rest[j],
                    "jellyfinUsername"@,
                ) != Some(username) by {
                    assert(rest[j] == accounts[j + 1]);
                }
                assert(is_first_account(rest, username, i - 1));
            }
        }
        if forall|i: int|
            0 <= i < accounts.len() ==> said_under(#[trigger] accounts[i], "jellyfinUsername"@)
                != Some(username) {
            assert(said_under(accounts[0], "jellyfinUsername"@) != Some(username));
            assert forall|i: int| 0 <= i < rest.len() implies said_under(
                #[trigger] rest[i],
                "jellyfinUsername"@,
            ) != Some(username) by {
                assert(rest[i] == accounts[i + 1]);
            }
        }
    }
}

/// Whether a server is flagged as the default.
pub open spec fn has_the_flag(server: JsonView) -> bool {
    bool_of(field_of(Some(server), "isDefault"@)) == Some(true)
}

/// The server whose profiles count is the first that is flagged as the
/// default, wherever it stands; without a flag it is the first of all.
pub proof fn law_the_default_server_counts(servers: Seq<JsonView>)
    ensures
        servers.len() == 0 ==> server_of(servers) is None,
        forall|i: int|
            0 <= i < servers.len() && has_the_flag(#[trigger] servers[i]) && (forall|j: int|
                0 <= j < i ==> !has_the_flag(#[trigger] servers[j])) ==> server_of(servers)
                == Some(servers[i]),
        servers.len() > 0 && (forall|j: int|
            0 <= j < servers.len() ==> !has_the_flag(#[trigger] servers[j])) ==> server_of(servers)
            == Some(servers[0]),
{
    lemma_flagged(servers);
}

proof fn lemma_flagged(servers: Seq<JsonView>)
    ensures
        forall|i: int|
            0 <= i < servers.len() && has_the_flag(#[trigger] servers[i]) && (forall|j: int|
                0 <= j < i ==> !has_the_flag(#[trigger] servers[j])) ==> crate::seerr::flagged(
                servers,
            ) == Some(servers[i]),
        (forall|j: int| 0 <= j < servers.len() ==> !has_the_flag(#[trigger] servers[j]))
            ==> crate::seerr::flagged(servers) is None,
    decreases servers.len(),
{
    if servers.len() > 0 {
        let rest = servers.skip(1);
        lemma_flagged(rest);
        assert forall|i: int|
            0 <= i < servers.len() && has_the_flag(#[trigger] servers[i]) && (forall|j: int|
                0 <= j < i ==> !has_the_flag(#[trigger] servers[j])) implies crate::seerr::flagged(
            servers,
        ) == Some(servers[i]) by {
            if i > 0 {
                assert(!has_the_flag(servers[0]));
                assert(rest[i - 1] == servers[i]);
                assert forall|j: int| 0 <= j < i - 1 implies !has_the_flag(#[trigger] rest[j]) by {
                    assert(rest[j] == servers[j + 1]);
                }
            }
        }
        if forall|j: int| 0 <= j < servers.len() ==> !has_the_flag(#[trigger] servers[j]) {
            assert(!has_the_flag(servers[0]));
            assert forall|j: int| 0 <= j < rest.len() implies !has_the_flag(#[trigger] rest[j]) by {
                assert(rest[j] == servers[j + 1]);
            }
        }
    }
}

/// A request says what was chosen and nothing that was not: the title by its
/// number and kind, the profile where one was chosen, and the seasons of a
/// series, all of them in a word or each by its number, in the order in which
/// they were named.
pub proof fn law_a_request_says_what_was_chosen(
    tmdb_id: i64,
    kind: MediaKind,
    seasons: SeasonsView,
    profile: Option<i64>,
)
    ensures
        ({
            let body = Some(request_tree(tmdb_id, kind, seasons, profile));
            &&& i64_of(field_of(body, "mediaId"@)) == Some(tmdb_id)
            &&& text_of(field_of(body, "mediaType"@)) == Some(
                match kind {
                    MediaKind::Movie => "movie"@,
                    MediaKind::Tv => "tv"@,
                },
            )
            &&& match profile {
                Some(id) => i64_of(field_of(body, "profileId"@)) == Some(id),
                None => field_of(body, "profileId"@) is None,
            }
            &&& match seasons {
                SeasonsView::NotApplicable => field_of(body, "seasons"@) is None,
                SeasonsView::All => text_of(field_of(body, "seasons"@)) == Some("all"@),
                SeasonsView::Only(list) => {
                    let asked = elements_of(field_of(body, "seasons"@));
                    asked.len() == list.len() && forall|i: int|
                        0 <= i < list.len() ==> i64_of(Some(#[trigger] asked[i])) == Some(
                            list[i] as i64,
                        )
                },
            }
        }),
{
    reveal_strlit("mediaId");
    reveal_strlit("mediaType");
    reveal_strlit("profileId");
    reveal_strlit("seasons");
    assert("mediaId"@[5] == 'I' && "mediaType"@[5] == 'T');
    assert("mediaId"@.len() == 7 && "mediaType"@.len() == 9);
    assert("profileId"@.len() == 9 && "seasons"@.len() == 7);
    assert("profileId"@[0] == 'p' && "mediaType"@[0] == 'm');
    assert("seasons"@[0] == 's' && "mediaId"@[0] == 'm');
    let tree = request_tree(tmdb_id, kind, seasons, profile);
    let entries = tree->Object_0;
    let second = entries.skip(1);
    let third = second.skip(1);
    let fourth = third.skip(1);
    reveal_with_fuel(entry, 5);
    assert(entries[0].0 == "mediaId"@);
    assert(second[0] == entries[1]);
    if entries.len() > 2 {
        assert(third[0] == entries[2]);
    }
    if entries.len() > 3 {
        assert(fourth[0] == entries[3]);
        assert(fourth.skip(1).len() == 0);
    }
    assert(number_tree(tmdb_id as int)->Number_0.signed == Some(tmdb_id));
    if let SeasonsView::Only(list) = seasons {
        let asked = elements_of(field_of(Some(tree), "seasons"@));
        assert(asked == list.map_values(|n: u16| number_tree(n as int)));
    }
}

/// A wish is what its request says: of the kind that is written there, under
/// the numbers that Seerr, the film database and the service have for it, and
/// asked for by the person whose Jellyfin name is written there. A request
/// that leaves one of the numbers out is not understood.
pub proof fn law_a_wish_is_what_its_request_says(request: JsonView)
    ensures
        ({
            let media = field_of(Some(request), "media"@);
            &&& wish_of(request) matches Some(record) ==> {
                let wish = record.wish;
                &&& Some(wish.id) == i64_of(field_of(Some(request), "id"@))
                &&& wish.kind == MediaKind::Tv <==> said_under(request, "type"@) == Some("tv"@)
                &&& Some(wish.tmdb_id) == i64_of(field_of(media, "tmdbId"@))
                &&& Some(wish.request_status) == i64_of(field_of(Some(request), "status"@))
                &&& Some(wish.media_status) == i64_of(field_of(media, "status"@))
                &&& wish.arr_id == i64_of(field_of(media, "externalServiceId"@))
                &&& wish.profile_name == said_under(request, "profileName"@)
                &&& wish.requested_by == text_of(
                    field_of(field_of(Some(request), "requestedBy"@), "jellyfinUsername"@),
                )
            }
            &&& i64_of(field_of(Some(request), "id"@)) is None || i64_of(
                field_of(media, "tmdbId"@),
            ) is None || i64_of(field_of(Some(request), "status"@)) is None || i64_of(
                field_of(media, "status"@),
            ) is None || said_under(request, "type"@) is None ==> wish_of(request) is None
        }),
{
}

/// The download that counts is the first that is under way; what waits or is
/// done is passed over.
pub proof fn law_the_download_under_way_counts(downloads: Seq<JsonView>, i: int)
    requires
        0 <= i < downloads.len(),
        said_under(downloads[i], "status"@) == Some("downloading"@),
        forall|j: int|
            0 <= j < i ==> said_under(#[trigger] downloads[j], "status"@) != Some("downloading"@),
    ensures
        download_of(downloads) == Some(
            (
                number_text_of(field_of(Some(downloads[i]), "size"@)),
                number_text_of(field_of(Some(downloads[i]), "sizeLeft"@)),
            ),
        ),
    decreases i,
{
    if i > 0 {
        let rest = downloads.skip(1);
        assert(said_under(downloads[0], "status"@) != Some("downloading"@));
        assert forall|j: int| 0 <= j < i - 1 implies said_under(#[trigger] rest[j], "status"@)
            != Some("downloading"@) by {
            assert(rest[j] == downloads[j + 1]);
        }
        law_the_download_under_way_counts(rest, i - 1);
    }
}

/// Every wish of a page that is not there yet is kept, in order, and none
/// that is there.
pub proof fn law_every_open_wish_is_kept(wishes: Seq<WishRecordView>)
    ensures
        open_ones(wishes) == wishes.filter(|w: WishRecordView| w.wish.media_status != 5),
    decreases wishes.len(),
{
    reveal(Seq::filter);
    if wishes.len() > 0 {
        law_every_open_wish_is_kept(wishes.drop_last());
    }
}

/// What was read stays read, and the next page begins where the last one
/// ended: after as many requests as were delivered. Reading stops at the
/// number of pages that Seerr names, at one page where it names none, and at
/// a page with nothing on it.
pub proof fn law_pages_follow_on_each_other(p: Paging, body: JsonView, after: Paging, more: bool)
    requires
        page_taken(p, body, after, more),
    ensures
        ({
            let delivered = elements_of(field_of(Some(body), "results"@)).len();
            let pages = i64_of(field_of(field_of(Some(body), "pageInfo"@), "pages"@));
            &&& wish_views(p.wishes@).is_prefix_of(wish_views(after.wishes@))
            &&& wish_views(after.wishes@).len() == wish_views(p.wishes@).len() + wishes_of(
                body,
            ).filter(|w: WishRecordView| w.wish.media_status != 5).len()
            &&& more ==> after.skip == p.skip + delivered
            &&& more <==> delivered > 0 && (match pages {
                Some(pages) => p.pages_read + 1 < pages,
                None => p.pages_read + 1 < 1,
            })
        }),
{
    law_every_open_wish_is_kept(wishes_of(body));
    let before = wish_views(p.wishes@);
    let all = wish_views(after.wishes@);
    assert(all.take(before.len() as int) =~= before);
}

/// Who asked is the person with the Jellyfin name that is written there; an
/// empty name is nobody's.
pub proof fn law_who_asked(body: JsonView, name: Seq<char>)
    ensures
        requester_in(body) == Some(name) <==> name.len() > 0 && text_of(
            field_of(field_of(Some(body), "requestedBy"@), "jellyfinUsername"@),
        ) == Some(name),
{
}

/// What a request is about is named by its kind and its number.
pub proof fn law_what_a_request_is_about(body: JsonView)
    ensures
        ({
            let media = field_of(Some(body), "media"@);
            match subject_in(body) {
                Some((kind, tmdb_id)) => i64_of(field_of(media, "tmdbId"@)) == Some(tmdb_id) && (
                kind == MediaKind::Tv <==> text_of(field_of(media, "mediaType"@)) == Some("tv"@)),
                None => i64_of(field_of(media, "tmdbId"@)) is None,
            }
        }),
{
}

/// A film is called by its title and a series, which has none, by its name;
/// what is blank is no title.
pub proof fn law_a_title_is_found(body: JsonView, title: Seq<char>)
    ensures
        title_in(body) == Some(title) <==> trimmed(title).len() > 0 && (said_under(body, "title"@)
            == Some(title) || field_of(Some(body), "title"@) is None && said_under(body, "name"@)
            == Some(title)),
{
}

/// A request belongs to one account at most: to the one that is written there
/// as having made it, and to nobody where nobody is.
pub proof fn law_a_request_has_one_owner(body: JsonView, a: SeerrUserId, b: SeerrUserId)
    ensures
        is_request_of(body, a) && is_request_of(body, b) ==> a == b,
        is_request_of(body, a) ==> (field_of(Some(body), "requestedBy"@) matches Some(owner)
            && i64_of(field_of(Some(owner), "id"@)) == Some(a.0)),
        i64_of(field_of(field_of(Some(body), "requestedBy"@), "id"@)) == Some(a.0)
            ==> is_request_of(body, a),
{
}

} // verus!
