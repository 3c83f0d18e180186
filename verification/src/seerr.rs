//! What Seerr is asked, and how its answers are read.

pub mod laws;

use crate::arr::{
    Service, date_of, parse_date, read_small, service_named, small_number,
};
use crate::json::{
    Json, JsonView, Number, NumberView, array, array_of, bool_of, elements_of, field_of, flag, get,
    i64_of, number_text, number_text_of, object, opt_tree, push_entry, text, text_of, tree, trees,
    u64_of, unsigned, whole,
};
use crate::model::{
    Hit, HitView, MediaKind, QualityProfile, QualityProfileView, Seasons, SeasonsView, SeerrUserId,
    Wish, WishView,
};
use crate::text::{
    decimal, decimal_i64, decimal_int, decimal_u64, opt_view, owned, parse_unsigned,
    parsed_unsigned, same, trim, trimmed,
};
use vstd::prelude::*;
use vstd::utf8::{decode_utf8, encode_utf8, encode_utf8_decode_utf8, is_char_boundary};

verus! {

/// The media statuses that mean a title is there or somebody has asked for
/// it: pending, processing, partly available and available.
pub open spec fn means_already(status: i64) -> bool {
    2 <= status <= 5
}

/// A digit of the hexadecimal system, with capital letters.
pub open spec fn hex_digit(d: u8) -> char {
    if d < 10 {
        (d + 48) as char
    } else {
        (d + 55) as char
    }
}

/// Whether a byte is an ASCII letter or digit.
pub open spec fn is_alphanumeric(b: u8) -> bool {
    48 <= b <= 57 || 65 <= b <= 90 || 97 <= b <= 122
}

/// Bytes with everything but ASCII letters and digits written as `%XX`.
pub open spec fn percent_encoded(bytes: Seq<u8>) -> Seq<char>
    decreases bytes.len(),
{
    if bytes.len() == 0 {
        Seq::empty()
    } else {
        let before = percent_encoded(bytes.drop_last());
        let b = bytes.last();
        if is_alphanumeric(b) {
            before.push(b as char)
        } else {
            before + seq!['%', hex_digit(b / 16), hex_digit(b % 16)]
        }
    }
}

/// Calls `percent_encoding::utf8_percent_encode` with the set
/// `NON_ALPHANUMERIC`: the UTF-8 bytes of the text, with every byte that is
/// not an ASCII letter or digit written as a percent sign and two capital
/// hexadecimal digits.
#[verifier::external_body]
fn percent_encode(text: &str) -> (r: String)
    ensures
        r@ == percent_encoded(encode_utf8(text@)),
{
    percent_encoding::utf8_percent_encode(text, percent_encoding::NON_ALPHANUMERIC).to_string()
}

/// Where Seerr answers a search. The words a person typed are percent-encoded:
/// Seerr refuses a space that is written as a plus.
pub fn search_path(query: &str, page: u32) -> (r: String)
    ensures
        r@ == "/api/v1/search?query="@ + percent_encoded(encode_utf8(query@)) + "&page="@
            + decimal(page as nat),
{
    let mut r = "/api/v1/search?query=".to_owned();
    r.append(percent_encode(query).as_str());
    r.append("&page=");
    r.append(decimal_u64(page as u64).as_str());
    r
}

/// The year that a date begins with.
pub open spec fn year_of(date: Seq<char>) -> Option<u16> {
    let bytes = encode_utf8(date);
    if is_char_boundary(bytes, 4) {
        match parsed_unsigned(decode_utf8(bytes.subrange(0, 4)), u16::MAX as nat) {
            Some(year) => Some(year as u16),
            None => None,
        }
    } else {
        None
    }
}

fn read_year(date: &str) -> (r: Option<u16>)
    ensures
        r == year_of(date@),
{
    if !date.is_char_boundary(4) {
        return None;
    }
    let start = date.split_at(4).0;
    proof {
        encode_utf8_decode_utf8(start@);
    }
    match parse_unsigned(start, u16::MAX as u64) {
        Some(year) => Some(year as u16),
        None => None,
    }
}

/// The kind of media that a result is; nothing for a person.
pub open spec fn kind_of(result: JsonView) -> Option<MediaKind> {
    match text_of(field_of(Some(result), "mediaType"@)) {
        Some(kind) => if kind == "movie"@ {
            Some(MediaKind::Movie)
        } else if kind == "tv"@ {
            Some(MediaKind::Tv)
        } else {
            None
        },
        None => None,
    }
}

/// The result that one element of Seerr's list describes; nothing where it is
/// not of the wanted kind, or has no id or title.
pub open spec fn hit_of(result: JsonView, wanted: Option<MediaKind>) -> Option<HitView> {
    let r = Some(result);
    let kind = kind_of(result);
    let (title_key, date_key) = match kind {
        Some(MediaKind::Tv) => ("name"@, "firstAirDate"@),
        _ => ("title"@, "releaseDate"@),
    };
    let id = i64_of(field_of(r, "id"@));
    let title = text_of(field_of(r, title_key));
    if kind is Some && (wanted is None || wanted == kind) && id is Some && title is Some {
        Some(
            HitView {
                tmdb_id: id->0,
                kind: kind->0,
                title: title->0,
                year: match text_of(field_of(r, date_key)) {
                    Some(date) => year_of(date),
                    None => None,
                },
                rating: number_text_of(field_of(r, "voteAverage"@)),
                seasons: match u64_of(field_of(r, "seasonCount"@)) {
                    Some(n) => (n % 65_536) as u16,
                    None => 0,
                },
                already: i64_of(field_of(field_of(r, "mediaInfo"@), "status"@)) matches Some(s)
                    && means_already(s),
            },
        )
    } else {
        None
    }
}

/// The results that Seerr's answer to a search lists.
pub open spec fn hits_of(body: JsonView, wanted: Option<MediaKind>) -> Seq<HitView> {
    elements_of(field_of(Some(body), "results"@)).filter_map(
        |result: JsonView| hit_of(result, wanted),
    )
}

/// What a list of results holds.
pub open spec fn hit_views(hits: Seq<Hit>) -> Seq<HitView> {
    hits.map_values(|h: Hit| h@)
}

fn read_hit(result: &Json, wanted: Option<MediaKind>) -> (r: Option<Hit>)
    ensures
        match r {
            Some(hit) => hit_of(result@, wanted) == Some(hit@),
            None => hit_of(result@, wanted) is None,
        },
{
    let entry = Some(result);
    let media_type = match text(get(entry, "mediaType")) {
        Some(media_type) => media_type,
        None => {
            return None;
        },
    };
    let kind = if same(media_type, "movie") {
        MediaKind::Movie
    } else if same(media_type, "tv") {
        MediaKind::Tv
    } else {
        return None;
    };
    if let Some(only) = wanted {
        if only != kind {
            return None;
        }
    }
    let tmdb_id = match whole(get(entry, "id")) {
        Some(id) => id,
        None => {
            return None;
        },
    };
    let (title_key, date_key) = match kind {
        MediaKind::Movie => ("title", "releaseDate"),
        MediaKind::Tv => ("name", "firstAirDate"),
    };
    let title = match text(get(entry, title_key)) {
        Some(title) => title.to_owned(),
        None => {
            return None;
        },
    };
    let year = match text(get(entry, date_key)) {
        Some(date) => read_year(date),
        None => None,
    };
    let seasons: u16 = match unsigned(get(entry, "seasonCount")) {
        Some(n) => (n % 65_536) as u16,
        None => 0,
    };
    let already = match whole(get(get(entry, "mediaInfo"), "status")) {
        Some(status) => 2 <= status && status <= 5,
        None => false,
    };
    let rating = owned(number_text(get(entry, "voteAverage")));
    Some(Hit { tmdb_id, kind, title, year, rating, seasons, already })
}

/// Reads the results out of Seerr's answer to a search. The rating is as Seerr
/// writes it.
pub fn hits_from(body: &Json, wanted: Option<MediaKind>) -> (hits: Vec<Hit>)
    ensures
        hit_views(hits@) == hits_of(body@, wanted),
{
    let mut hits: Vec<Hit> = Vec::new();
    let ghost read = |result: JsonView| hit_of(result, wanted);
    assert(hit_views(hits@) =~= Seq::<JsonView>::empty().filter_map(read));
    if let Some(list) = array(get(Some(body), "results")) {
        let ghost all = trees(list@);
        let mut i: usize = 0;
        assert(all.take(0) =~= Seq::empty());
        while i < list.len()
            invariant
                i <= list@.len(),
                all == trees(list@),
                read == (|result: JsonView| hit_of(result, wanted)),
                hit_views(hits@) == all.take(i as int).filter_map(read),
            decreases list@.len() - i,
        {
            proof {
                let next = all.take(i + 1);
                assert(next.drop_last() =~= all.take(i as int));
                assert(next.last() == tree(list@[i as int]));
            }
            if let Some(hit) = read_hit(&list[i], wanted) {
                assert(hit_views(hits@.push(hit)) =~= hit_views(hits@) + seq![hit@]);
                hits.push(hit);
            }
            i += 1;
        }
        assert(all.take(i as int) =~= all);
    }
    hits
}

/// Whether an account belongs to a person: its Jellyfin name is theirs. The
/// display name does not count, since people can change it.
pub open spec fn is_account_of(account: JsonView, username: Seq<char>) -> bool {
    text_of(field_of(Some(account), "jellyfinUsername"@)) == Some(username)
}

/// The number of the first account of a person.
pub open spec fn account_of(accounts: Seq<JsonView>, username: Seq<char>) -> Option<SeerrUserId>
    decreases accounts.len(),
{
    if accounts.len() == 0 {
        None
    } else if is_account_of(accounts[0], username) {
        match i64_of(field_of(Some(accounts[0]), "id"@)) {
            Some(id) => Some(SeerrUserId(id)),
            None => None,
        }
    } else {
        account_of(accounts.skip(1), username)
    }
}

/// Finds a person's account in Seerr's list.
pub fn user_in(body: &Json, username: &str) -> (r: Option<SeerrUserId>)
    ensures
        r == account_of(elements_of(field_of(Some(body@), "results"@)), username@),
{
    let list = match array(get(Some(body), "results")) {
        Some(list) => list,
        None => {
            return None;
        },
    };
    let ghost all = trees(list@);
    let mut i: usize = 0;
    assert(all.skip(0) =~= all);
    while i < list.len()
        invariant
            i <= list@.len(),
            all == trees(list@),
            all == elements_of(field_of(Some(body@), "results"@)),
            account_of(all.skip(i as int), username@) == account_of(all, username@),
        decreases list@.len() - i,
    {
        assert(all.skip(i as int).skip(1) =~= all.skip(i + 1));
        assert(all.skip(i as int)[0] == tree(list@[i as int]));
        let found = match text(get(Some(&list[i]), "jellyfinUsername")) {
            Some(name) => same(name, username),
            None => false,
        };
        if found {
            return match whole(get(Some(&list[i]), "id")) {
                Some(id) => Some(SeerrUserId(id)),
                None => None,
            };
        }
        i += 1;
    }
    None
}

/// Which service's profiles a kind of media has. Radarr and Sonarr number
/// their profiles apart from each other.
pub open spec fn profile_service(kind: MediaKind) -> Service {
    match kind {
        MediaKind::Movie => Service::Radarr,
        MediaKind::Tv => Service::Sonarr,
    }
}

/// Which service's profiles a kind of media has.
pub fn arr_of(kind: MediaKind) -> (r: Service)
    ensures
        r == profile_service(kind),
{
    match kind {
        MediaKind::Movie => Service::Radarr,
        MediaKind::Tv => Service::Sonarr,
    }
}

/// Why Seerr's answer is of no use.
#[derive(Clone, Debug, PartialEq)]
pub enum SeerrFailure {
    /// An answer that is no success.
    Refused { status: String },
    NoServerList { service: Service },
    NoServer { service: Service },
    NoServerId { service: Service },
    /// A request that was accepted without a number.
    NoRequestId,
    /// A wish that is somebody else's.
    NotYours { id: i64 },
    /// A wish that Seerr did not withdraw.
    NotWithdrawn { status: String, id: i64 },
}

/// A failure in words.
pub open spec fn seerr_failure_said(failure: SeerrFailure) -> Seq<char> {
    match failure {
        SeerrFailure::Refused { status } => "seerr answered "@ + status@,
        SeerrFailure::NoServerList { service } => "seerr did not list any "@ + service_named(
            service,
        ) + " server"@,
        SeerrFailure::NoServer { service } => "seerr has no "@ + service_named(service)
            + " server configured"@,
        SeerrFailure::NoServerId { service } => "the "@ + service_named(service)
            + " server carries no id"@,
        SeerrFailure::NoRequestId => "seerr accepted the request but named no id"@,
        SeerrFailure::NotYours { id } => "request "@ + decimal_int(id as int) + " is not yours"@,
        SeerrFailure::NotWithdrawn { status, id } => "seerr answered "@ + status@
            + " when withdrawing "@ + decimal_int(id as int),
    }
}

fn around(before: &str, middle: &str, after: &str) -> (r: String)
    ensures
        r@ == before@ + middle@ + after@,
{
    let mut r = before.to_owned();
    r.append(middle);
    r.append(after);
    r
}

impl SeerrFailure {
    /// The failure in words.
    pub fn message(&self) -> (r: String)
        ensures
            r@ == seerr_failure_said(*self),
    {
        match self {
            SeerrFailure::Refused { status } => {
                let mut r = "seerr answered ".to_owned();
                r.append(status.as_str());
                r
            },
            SeerrFailure::NoServerList { service } => around(
                "seerr did not list any ",
                service.name(),
                " server",
            ),
            SeerrFailure::NoServer { service } => around(
                "seerr has no ",
                service.name(),
                " server configured",
            ),
            SeerrFailure::NoServerId { service } => around(
                "the ",
                service.name(),
                " server carries no id",
            ),
            SeerrFailure::NoRequestId => "seerr accepted the request but named no id".to_owned(),
            SeerrFailure::NotYours { id } => around(
                "request ",
                decimal_i64(*id).as_str(),
                " is not yours",
            ),
            SeerrFailure::NotWithdrawn { status, id } => {
                let mut r = around("seerr answered ", status.as_str(), " when withdrawing ");
                r.append(decimal_i64(*id).as_str());
                r
            },
        }
    }
}

/// Whether a server is flagged as the default.
pub open spec fn is_default(server: JsonView) -> bool {
    bool_of(field_of(Some(server), "isDefault"@)) == Some(true)
}

/// The first server that is flagged as the default.
pub open spec fn flagged(servers: Seq<JsonView>) -> Option<JsonView>
    decreases servers.len(),
{
    if servers.len() == 0 {
        None
    } else if is_default(servers[0]) {
        Some(servers[0])
    } else {
        flagged(servers.skip(1))
    }
}

/// The server whose profiles count: the one flagged as the default, or the
/// first where none is.
pub open spec fn server_of(servers: Seq<JsonView>) -> Option<JsonView> {
    match flagged(servers) {
        Some(server) => Some(server),
        None => if servers.len() > 0 {
            Some(servers[0])
        } else {
            None
        },
    }
}

/// The number of the server whose profiles count.
pub open spec fn server_id_of(body: JsonView, service: Service) -> Result<i64, SeerrFailure> {
    match array_of(Some(body)) {
        Some(servers) => match server_of(servers) {
            Some(server) => match i64_of(field_of(Some(server), "id"@)) {
                Some(id) => Ok(id),
                None => Err(SeerrFailure::NoServerId { service }),
            },
            None => Err(SeerrFailure::NoServer { service }),
        },
        None => Err(SeerrFailure::NoServerList { service }),
    }
}

/// Finds the server whose profiles count in Seerr's list.
pub fn default_server(body: &Json, service: Service) -> (r: Result<i64, SeerrFailure>)
    ensures
        r == server_id_of(body@, service),
{
    let list = match array(Some(body)) {
        Some(list) => list,
        None => {
            return Err(SeerrFailure::NoServerList { service });
        },
    };
    if list.len() == 0 {
        return Err(SeerrFailure::NoServer { service });
    }
    let at: usize = match find_flagged(list) {
        Some(at) => at,
        None => 0,
    };
    assert(trees(list@)[0] == tree(list@[0]));
    match whole(get(Some(&list[at]), "id")) {
        Some(id) => Ok(id),
        None => Err(SeerrFailure::NoServerId { service }),
    }
}

fn find_flagged(list: &Vec<Json>) -> (r: Option<usize>)
    ensures
        match r {
            Some(at) => at < list@.len() && flagged(trees(list@)) == Some(tree(list@[at as int])),
            None => flagged(trees(list@)) is None,
        },
{
    let ghost all = trees(list@);
    let mut i: usize = 0;
    assert(all.skip(0) =~= all);
    while i < list.len()
        invariant
            i <= list@.len(),
            all == trees(list@),
            flagged(all.skip(i as int)) == flagged(all),
        decreases list@.len() - i,
    {
        assert(all.skip(i as int).skip(1) =~= all.skip(i + 1));
        assert(all.skip(i as int)[0] == tree(list@[i as int]));
        if let Some(true) = flag(get(Some(&list[i]), "isDefault")) {
            return Some(i);
        }
        i += 1;
    }
    None
}

/// The profile that one element of Seerr's list describes.
pub open spec fn profile_of_entry(profile: JsonView) -> Option<QualityProfileView> {
    match i64_of(field_of(Some(profile), "id"@)) {
        Some(id) => match text_of(field_of(Some(profile), "name"@)) {
            Some(name) => Some(QualityProfileView { id, name }),
            None => None,
        },
        None => None,
    }
}

/// The profiles that Seerr's answer about a server lists.
pub open spec fn profiles_of(body: JsonView) -> Seq<QualityProfileView> {
    elements_of(field_of(Some(body), "profiles"@)).filter_map(
        |profile: JsonView| profile_of_entry(profile),
    )
}

/// What a list of profiles holds.
pub open spec fn profile_views(profiles: Seq<QualityProfile>) -> Seq<QualityProfileView> {
    profiles.map_values(|p: QualityProfile| p@)
}

/// Reads the profiles out of Seerr's answer about a server, in its order.
pub fn profiles_from(body: &Json) -> (profiles: Vec<QualityProfile>)
    ensures
        profile_views(profiles@) == profiles_of(body@),
{
    let mut profiles: Vec<QualityProfile> = Vec::new();
    let ghost read = |profile: JsonView| profile_of_entry(profile);
    assert(profile_views(profiles@) =~= Seq::<JsonView>::empty().filter_map(read));
    if let Some(list) = array(get(Some(body), "profiles")) {
        let ghost all = trees(list@);
        let mut i: usize = 0;
        assert(all.take(0) =~= Seq::empty());
        while i < list.len()
            invariant
                i <= list@.len(),
                all == trees(list@),
                read == (|profile: JsonView| profile_of_entry(profile)),
                profile_views(profiles@) == all.take(i as int).filter_map(read),
            decreases list@.len() - i,
        {
            proof {
                let next = all.take(i + 1);
                assert(next.drop_last() =~= all.take(i as int));
                assert(next.last() == tree(list@[i as int]));
            }
            if let Some(id) = whole(get(Some(&list[i]), "id")) {
                if let Some(name) = text(get(Some(&list[i]), "name")) {
                    let profile = QualityProfile { id, name: name.to_owned() };
                    assert(profile_views(profiles@.push(profile)) =~= profile_views(profiles@)
                        + seq![profile@]);
                    profiles.push(profile);
                }
            }
            i += 1;
        }
        assert(all.take(i as int) =~= all);
    }
    profiles
}

/// The profile that a request has, if Seerr names one.
pub fn profile_of(body: &Json) -> (r: Option<i64>)
    ensures
        r == i64_of(field_of(Some(body@), "profileId"@)),
{
    whole(get(Some(body), "profileId"))
}

/// A whole number as JSON.
pub open spec fn number_tree(n: int) -> JsonView {
    JsonView::Number(
        NumberView {
            signed: if i64::MIN <= n <= i64::MAX {
                Some(n as i64)
            } else {
                None
            },
            unsigned: if 0 <= n <= u64::MAX {
                Some(n as u64)
            } else {
                None
            },
            text: decimal_int(n),
        },
    )
}

fn number(n: i64) -> (r: Json)
    ensures
        r@ == number_tree(n as int),
{
    Json::Number(
        Number {
            signed: Some(n),
            unsigned: if n >= 0 {
                Some(n as u64)
            } else {
                None
            },
            text: decimal_i64(n),
        },
    )
}

/// The body of a request. What nobody chose is left out, rather than null:
/// Seerr then takes the service's own default.
pub open spec fn request_tree(
    tmdb_id: i64,
    kind: MediaKind,
    seasons: SeasonsView,
    profile: Option<i64>,
) -> JsonView {
    let kind_entry = match kind {
        MediaKind::Movie => JsonView::Text("movie"@),
        MediaKind::Tv => JsonView::Text("tv"@),
    };
    let subject = seq![("mediaId"@, number_tree(tmdb_id as int)), ("mediaType"@, kind_entry)];
    let chosen = match profile {
        Some(id) => seq![("profileId"@, number_tree(id as int))],
        None => Seq::empty(),
    };
    let which = match seasons {
        SeasonsView::NotApplicable => Seq::empty(),
        SeasonsView::All => seq![("seasons"@, JsonView::Text("all"@))],
        SeasonsView::Only(list) => seq![
            ("seasons"@, JsonView::Array(list.map_values(|n: u16| number_tree(n as int)))),
        ],
    };
    JsonView::Object(subject + chosen + which)
}

fn season_numbers(list: &Vec<u16>) -> (r: Vec<Json>)
    ensures
        trees(r@) == list@.map_values(|n: u16| number_tree(n as int)),
{
    let mut r: Vec<Json> = Vec::new();
    let ghost wanted = list@.map_values(|n: u16| number_tree(n as int));
    let mut i: usize = 0;
    assert(trees(r@) =~= wanted.take(0));
    while i < list.len()
        invariant
            i <= list@.len(),
            wanted == list@.map_values(|n: u16| number_tree(n as int)),
            trees(r@) == wanted.take(i as int),
        decreases list@.len() - i,
    {
        let n = number(list[i] as i64);
        assert(trees(r@.push(n)) =~= trees(r@).push(n@));
        r.push(n);
        assert(wanted.take(i + 1) =~= wanted.take(i as int).push(wanted[i as int]));
        i += 1;
    }
    assert(wanted.take(i as int) =~= wanted);
    r
}

/// The body of a request.
pub fn request_body(hit: &Hit, seasons: &Seasons, profile: Option<i64>) -> (r: Json)
    ensures
        r@ == request_tree(hit.tmdb_id, hit.kind, seasons@, profile),
{
    let mut entries: Vec<(String, Json)> = Vec::new();
    push_entry(&mut entries, "mediaId", number(hit.tmdb_id));
    let kind = match hit.kind {
        MediaKind::Movie => "movie",
        MediaKind::Tv => "tv",
    };
    push_entry(&mut entries, "mediaType", Json::Text(kind.to_owned()));
    if let Some(id) = profile {
        push_entry(&mut entries, "profileId", number(id));
    }
    match seasons {
        Seasons::NotApplicable => {},
        Seasons::All => {
            push_entry(&mut entries, "seasons", Json::Text("all".to_owned()));
        },
        Seasons::Only(list) => {
            let numbers = season_numbers(list);
            let value = Json::Array(numbers);
            assert(value@->Array_0 =~= trees(numbers@));
            push_entry(&mut entries, "seasons", value);
        },
    }
    let r = object(entries);
    assert(r@->Object_0 =~= request_tree(hit.tmdb_id, hit.kind, seasons@, profile)->Object_0);
    r
}

/// The number of a request that was placed.
pub fn placed_id(body: &Json) -> (r: Result<i64, SeerrFailure>)
    ensures
        r == (match i64_of(field_of(Some(body@), "id"@)) {
            Some(id) => Ok::<i64, SeerrFailure>(id),
            None => Err::<i64, SeerrFailure>(SeerrFailure::NoRequestId),
        }),
{
    match whole(get(Some(body), "id")) {
        Some(id) => Ok(id),
        None => Err(SeerrFailure::NoRequestId),
    }
}

/// The sizes of a download as Seerr writes them: how far along it is takes
/// arithmetic that this library leaves to its caller.
#[derive(Clone, Debug, PartialEq)]
pub struct Download {
    pub size: Option<String>,
    pub left: Option<String>,
}

/// A wish as Seerr lists it, with the download it knows of.
#[derive(Clone, Debug, PartialEq)]
pub struct WishRecord {
    /// Without a percentage yet.
    pub wish: Wish,
    pub download: Option<Download>,
}

/// What a [`WishRecord`] holds.
pub struct WishRecordView {
    pub wish: WishView,
    pub download: Option<(Option<Seq<char>>, Option<Seq<char>>)>,
}

impl View for WishRecord {
    type V = WishRecordView;

    open spec fn view(&self) -> WishRecordView {
        WishRecordView {
            wish: self.wish@,
            download: match self.download {
                Some(d) => Some((opt_view(d.size), opt_view(d.left))),
                None => None,
            },
        }
    }
}

/// What a list of wishes holds.
pub open spec fn wish_views(wishes: Seq<WishRecord>) -> Seq<WishRecordView> {
    wishes.map_values(|w: WishRecord| w@)
}

/// The sizes of the first download that is under way. Nothing else of it is
/// read.
pub open spec fn download_of(
    downloads: Seq<JsonView>,
) -> Option<(Option<Seq<char>>, Option<Seq<char>>)>
    decreases downloads.len(),
{
    if downloads.len() == 0 {
        None
    } else if text_of(field_of(Some(downloads[0]), "status"@)) == Some("downloading"@) {
        Some(
            (
                number_text_of(field_of(Some(downloads[0]), "size"@)),
                number_text_of(field_of(Some(downloads[0]), "sizeLeft"@)),
            ),
        )
    } else {
        download_of(downloads.skip(1))
    }
}

/// The number of a season that was asked for.
pub open spec fn asked_season(season: JsonView) -> Option<u16> {
    small_number(field_of(Some(season), "seasonNumber"@))
}

/// The wish that one element of Seerr's list describes; nothing where it
/// cannot be understood.
pub open spec fn wish_of(request: JsonView) -> Option<WishRecordView> {
    let r = Some(request);
    let media = field_of(r, "media"@);
    let id = i64_of(field_of(r, "id"@));
    let kind = text_of(field_of(r, "type"@));
    let tmdb_id = i64_of(field_of(media, "tmdbId"@));
    let request_status = i64_of(field_of(r, "status"@));
    let media_status = i64_of(field_of(media, "status"@));
    let created_at = date_of(field_of(r, "createdAt"@));
    if id is Some && kind is Some && tmdb_id is Some && request_status is Some
        && media_status is Some && created_at is Some {
        Some(
            WishRecordView {
                wish: WishView {
                    id: id->0,
                    kind: if kind == Some("tv"@) {
                        MediaKind::Tv
                    } else {
                        MediaKind::Movie
                    },
                    tmdb_id: tmdb_id->0,
                    request_status: request_status->0,
                    media_status: media_status->0,
                    arr_id: i64_of(field_of(media, "externalServiceId"@)),
                    created_at: created_at->0,
                    profile_name: text_of(field_of(r, "profileName"@)),
                    requested_by: text_of(
                        field_of(field_of(r, "requestedBy"@), "jellyfinUsername"@),
                    ),
                    download_percent: None,
                    seasons: elements_of(field_of(r, "seasons"@)).filter_map(
                        |season: JsonView| asked_season(season),
                    ),
                },
                download: download_of(elements_of(field_of(media, "downloadStatus"@))),
            },
        )
    } else {
        None
    }
}

fn read_seasons_asked(seasons: Option<&Json>) -> (r: Vec<u16>)
    ensures
        r@ == elements_of(opt_tree(seasons)).filter_map(|season: JsonView| asked_season(season)),
{
    let mut r: Vec<u16> = Vec::new();
    let ghost read = |season: JsonView| asked_season(season);
    assert(r@ =~= Seq::<JsonView>::empty().filter_map(read));
    if let Some(list) = array(seasons) {
        let ghost all = trees(list@);
        let mut i: usize = 0;
        assert(all.take(0) =~= Seq::empty());
        while i < list.len()
            invariant
                i <= list@.len(),
                all == trees(list@),
                read == (|season: JsonView| asked_season(season)),
                r@ == all.take(i as int).filter_map(read),
            decreases list@.len() - i,
        {
            proof {
                let next = all.take(i + 1);
                assert(next.drop_last() =~= all.take(i as int));
                assert(next.last() == tree(list@[i as int]));
            }
            if let Some(number) = read_small(get(Some(&list[i]), "seasonNumber")) {
                assert(r@.push(number) =~= r@ + seq![number]);
                r.push(number);
            }
            i += 1;
        }
        assert(all.take(i as int) =~= all);
    }
    r
}

fn read_download(downloads: Option<&Json>) -> (r: Option<Download>)
    ensures
        match r {
            Some(d) => download_of(elements_of(opt_tree(downloads))) == Some(
                (opt_view(d.size), opt_view(d.left)),
            ),
            None => download_of(elements_of(opt_tree(downloads))) is None,
        },
{
    let list = match array(downloads) {
        Some(list) => list,
        None => {
            return None;
        },
    };
    let ghost all = trees(list@);
    let mut i: usize = 0;
    assert(all.skip(0) =~= all);
    while i < list.len()
        invariant
            i <= list@.len(),
            all == trees(list@),
            all == elements_of(opt_tree(downloads)),
            download_of(all.skip(i as int)) == download_of(all),
        decreases list@.len() - i,
    {
        assert(all.skip(i as int).skip(1) =~= all.skip(i + 1));
        assert(all.skip(i as int)[0] == tree(list@[i as int]));
        let entry = Some(&list[i]);
        let under_way = match text(get(entry, "status")) {
            Some(status) => same(status, "downloading"),
            None => false,
        };
        if under_way {
            return Some(
                Download {
                    size: owned(number_text(get(entry, "size"))),
                    left: owned(number_text(get(entry, "sizeLeft"))),
                },
            );
        }
        i += 1;
    }
    None
}

/// Reads a wish out of one element of Seerr's list.
pub fn wish_from(request: &Json) -> (r: Option<WishRecord>)
    ensures
        match r {
            Some(record) => wish_of(request@) == Some(record@),
            None => wish_of(request@) is None,
        },
{
    let r = Some(request);
    let media = get(r, "media");
    let id = match whole(get(r, "id")) {
        Some(id) => id,
        None => {
            return None;
        },
    };
    let kind = match text(get(r, "type")) {
        Some(kind) => if same(kind, "tv") {
            MediaKind::Tv
        } else {
            MediaKind::Movie
        },
        None => {
            return None;
        },
    };
    let tmdb_id = match whole(get(media, "tmdbId")) {
        Some(id) => id,
        None => {
            return None;
        },
    };
    let request_status = match whole(get(r, "status")) {
        Some(status) => status,
        None => {
            return None;
        },
    };
    let media_status = match whole(get(media, "status")) {
        Some(status) => status,
        None => {
            return None;
        },
    };
    let created_at = match parse_date(get(r, "createdAt")) {
        Some(date) => date,
        None => {
            return None;
        },
    };
    let wish = Wish {
        id,
        kind,
        tmdb_id,
        request_status,
        media_status,
        arr_id: whole(get(media, "externalServiceId")),
        created_at,
        profile_name: owned(text(get(r, "profileName"))),
        requested_by: owned(text(get(get(r, "requestedBy"), "jellyfinUsername"))),
        download_percent: None,
        seasons: read_seasons_asked(get(r, "seasons")),
    };
    Some(WishRecord { wish, download: read_download(get(media, "downloadStatus")) })
}

/// The wishes that Seerr's answer lists.
pub open spec fn wishes_of(body: JsonView) -> Seq<WishRecordView> {
    elements_of(field_of(Some(body), "results"@)).filter_map(
        |request: JsonView| wish_of(request),
    )
}

/// Reads the wishes out of Seerr's answer.
pub fn wishes_from(body: &Json) -> (wishes: Vec<WishRecord>)
    ensures
        wish_views(wishes@) == wishes_of(body@),
{
    let mut wishes: Vec<WishRecord> = Vec::new();
    let ghost read = |request: JsonView| wish_of(request);
    assert(wish_views(wishes@) =~= Seq::<JsonView>::empty().filter_map(read));
    if let Some(list) = array(get(Some(body), "results")) {
        let ghost all = trees(list@);
        let mut i: usize = 0;
        assert(all.take(0) =~= Seq::empty());
        while i < list.len()
            invariant
                i <= list@.len(),
                all == trees(list@),
                read == (|request: JsonView| wish_of(request)),
                wish_views(wishes@) == all.take(i as int).filter_map(read),
            decreases list@.len() - i,
        {
            proof {
                let next = all.take(i + 1);
                assert(next.drop_last() =~= all.take(i as int));
                assert(next.last() == tree(list@[i as int]));
            }
            if let Some(wish) = wish_from(&list[i]) {
                assert(wish_views(wishes@.push(wish)) =~= wish_views(wishes@) + seq![wish@]);
                wishes.push(wish);
            }
            i += 1;
        }
        assert(all.take(i as int) =~= all);
    }
    wishes
}

/// How many requests Seerr's answer lists, understood or not.
pub fn results_len(body: &Json) -> (r: usize)
    ensures
        r == elements_of(field_of(Some(body@), "results"@)).len(),
{
    match array(get(Some(body), "results")) {
        Some(list) => list.len(),
        None => 0,
    }
}

/// Every open wish of everybody, read page by page.
#[derive(Debug)]
pub struct Paging {
    /// How many requests the pages so far have delivered. Not how many were
    /// asked for: Seerr may deliver fewer, and counting those would leave a
    /// gap that nobody ever looks at.
    pub skip: usize,
    pub pages_read: i64,
    pub wishes: Vec<WishRecord>,
}

/// The wishes of a page that are not available yet.
pub open spec fn open_ones(wishes: Seq<WishRecordView>) -> Seq<WishRecordView>
    decreases wishes.len(),
{
    if wishes.len() == 0 {
        Seq::empty()
    } else {
        let before = open_ones(wishes.drop_last());
        if wishes.last().wish.media_status != 5 {
            before.push(wishes.last())
        } else {
            before
        }
    }
}

/// How many pages Seerr says there are.
pub open spec fn page_count(body: JsonView) -> i64 {
    match i64_of(field_of(field_of(Some(body), "pageInfo"@), "pages"@)) {
        Some(pages) => pages,
        None => 1,
    }
}

/// Whether another page is read: not after an empty one, whatever Seerr
/// claims, and not after the last.
pub open spec fn goes_on(pages_read: int, body: JsonView) -> bool {
    elements_of(field_of(Some(body), "results"@)).len() > 0 && pages_read < page_count(body)
}

/// Whether `after` is the reading with one more page.
pub open spec fn page_taken(p: Paging, body: JsonView, after: Paging, more: bool) -> bool {
    let delivered = elements_of(field_of(Some(body), "results"@)).len();
    &&& wish_views(after.wishes@) == wish_views(p.wishes@) + open_ones(wishes_of(body))
    &&& after.pages_read == p.pages_read + 1
    &&& more == goes_on(after.pages_read as int, body)
    &&& after.skip == if more {
        p.skip + delivered
    } else {
        p.skip as int
    }
}

impl Paging {
    /// Nothing read yet.
    pub fn new() -> (r: Paging)
        ensures
            r.skip == 0,
            r.pages_read == 0,
            r.wishes@.len() == 0,
    {
        Paging { skip: 0, pages_read: 0, wishes: Vec::new() }
    }

    /// Where Seerr lists the next page.
    pub fn path(&self) -> (r: String)
        ensures
            r@ == "/api/v1/request?take=100&skip="@ + decimal(self.skip as nat)
                + "&filter=all&sort=added"@,
    {
        around(
            "/api/v1/request?take=100&skip=",
            decimal_u64(self.skip as u64).as_str(),
            "&filter=all&sort=added",
        )
    }

    /// Takes a page, and says whether another one is to be read.
    pub fn take_page(&mut self, body: &Json) -> (more: bool)
        requires
            old(self).pages_read < i64::MAX,
            old(self).skip + elements_of(field_of(Some(body@), "results"@)).len() <= usize::MAX,
        ensures
            page_taken(*old(self), body@, *final(self), more),
    {
        let mut page = wishes_from(body);
        let ghost all = wish_views(page@);
        let ghost before = wish_views(self.wishes@);
        let mut open: Vec<WishRecord> = Vec::new();
        // Taken from the end, so what is kept comes out the wrong way round.
        assert(wish_views(open@).reverse() =~= Seq::<WishRecordView>::empty());
        assert(open_ones(all) + wish_views(open@).reverse() =~= open_ones(all));
        while page.len() > 0
            invariant
                open_ones(wish_views(page@)) + wish_views(open@).reverse() == open_ones(all),
            decreases page@.len(),
        {
            let ghost rest = wish_views(page@);
            let ghost kept = wish_views(open@);
            if let Some(record) = page.pop() {
                assert(rest.drop_last() =~= wish_views(page@));
                assert(rest.last() == record@);
                if record.wish.media_status != 5 {
                    let ghost view = record@;
                    open.push(record);
                    assert(wish_views(open@) =~= kept.push(view));
                    assert(open_ones(wish_views(page@)) + wish_views(open@).reverse() =~= open_ones(
                        rest,
                    ) + kept.reverse());
                }
            }
        }
        assert(open_ones(wish_views(page@)) + wish_views(open@).reverse() =~= wish_views(
            open@,
        ).reverse());
        let ghost wanted = open_ones(all);
        assert(wish_views(self.wishes@) + wish_views(open@).reverse() =~= before + wanted);
        while open.len() > 0
            invariant
                wish_views(self.wishes@) + wish_views(open@).reverse() == before + wanted,
                self.skip == old(self).skip,
                self.pages_read == old(self).pages_read,
            decreases open@.len(),
        {
            let ghost rest = wish_views(open@);
            let ghost so_far = wish_views(self.wishes@);
            if let Some(record) = open.pop() {
                assert(rest.drop_last() =~= wish_views(open@));
                let ghost view = record@;
                self.wishes.push(record);
                assert(wish_views(self.wishes@) =~= so_far.push(view));
                assert(wish_views(self.wishes@) + wish_views(open@).reverse() =~= so_far
                    + rest.reverse());
            }
        }
        assert(wish_views(self.wishes@) + wish_views(open@).reverse() =~= wish_views(self.wishes@));
        let delivered: usize = results_len(body);
        let pages: i64 = match whole(get(get(Some(body), "pageInfo"), "pages")) {
            Some(pages) => pages,
            None => 1,
        };
        self.pages_read = self.pages_read + 1;
        if delivered == 0 || self.pages_read >= pages {
            return false;
        }
        self.skip = self.skip + delivered;
        true
    }
}

/// Nothing that is available is ever among the open wishes.
pub proof fn law_open_wishes_are_open(wishes: Seq<WishRecordView>, i: int)
    requires
        0 <= i < open_ones(wishes).len(),
    ensures
        open_ones(wishes)[i].wish.media_status != 5,
        wishes.contains(open_ones(wishes)[i]),
    decreases wishes.len(),
{
    let before = open_ones(wishes.drop_last());
    if i < before.len() {
        law_open_wishes_are_open(wishes.drop_last(), i);
        let j = choose|j: int|
            0 <= j < wishes.drop_last().len() && wishes.drop_last()[j] == before[i];
        assert(wishes[j] == open_ones(wishes)[i]);
    } else {
        assert(wishes[wishes.len() - 1] == open_ones(wishes)[i]);
    }
}

/// Page by page the reading comes on: as long as it goes on, more has been
/// delivered and one more page is read.
pub proof fn law_paging_comes_on(p: Paging, body: JsonView, after: Paging)
    requires
        page_taken(p, body, after, true),
    ensures
        after.skip > p.skip,
        p.pages_read < after.pages_read < page_count(body),
{
}

/// The person who asked for a request: the Jellyfin name, unless it is empty.
pub open spec fn requester_in(body: JsonView) -> Option<Seq<char>> {
    match text_of(field_of(field_of(Some(body), "requestedBy"@), "jellyfinUsername"@)) {
        Some(name) => if name.len() > 0 {
            Some(name)
        } else {
            None
        },
        None => None,
    }
}

/// Reads who asked for a request.
pub fn requester_of(body: &Json) -> (r: Option<String>)
    ensures
        opt_view(r) == requester_in(body@),
{
    match text(get(get(Some(body), "requestedBy"), "jellyfinUsername")) {
        Some(name) => if name.is_empty() {
            None
        } else {
            Some(name.to_owned())
        },
        None => None,
    }
}

/// What a request is about; nothing where it does not say. The request itself
/// has no title.
pub open spec fn subject_in(body: JsonView) -> Option<(MediaKind, i64)> {
    let media = field_of(Some(body), "media"@);
    let kind = if text_of(field_of(media, "mediaType"@)) == Some("tv"@) {
        MediaKind::Tv
    } else {
        MediaKind::Movie
    };
    match i64_of(field_of(media, "tmdbId"@)) {
        Some(tmdb_id) => Some((kind, tmdb_id)),
        None => None,
    }
}

/// Reads what a request is about.
pub fn subject_of(body: &Json) -> (r: Option<(MediaKind, i64)>)
    ensures
        r == subject_in(body@),
{
    let media = get(Some(body), "media");
    let kind = match text(get(media, "mediaType")) {
        Some(kind) => if same(kind, "tv") {
            MediaKind::Tv
        } else {
            MediaKind::Movie
        },
        None => MediaKind::Movie,
    };
    match whole(get(media, "tmdbId")) {
        Some(tmdb_id) => Some((kind, tmdb_id)),
        None => None,
    }
}

/// The title in Seerr's answer about a film or series: a film has a `title`, a
/// series a `name`. A blank one is none.
pub open spec fn title_in(body: JsonView) -> Option<Seq<char>> {
    let value = match field_of(Some(body), "title"@) {
        Some(title) => Some(title),
        None => field_of(Some(body), "name"@),
    };
    match text_of(value) {
        Some(title) => if trimmed(title).len() > 0 {
            Some(title)
        } else {
            None
        },
        None => None,
    }
}

/// Reads the title out of Seerr's answer about a film or series.
pub fn title_from(body: &Json) -> (r: Option<String>)
    ensures
        opt_view(r) == title_in(body@),
{
    let value = match get(Some(body), "title") {
        Some(title) => Some(title),
        None => get(Some(body), "name"),
    };
    match text(value) {
        Some(title) => if trim(title).is_empty() {
            None
        } else {
            Some(title.to_owned())
        },
        None => None,
    }
}

/// Whether a request is one of an account.
pub open spec fn is_request_of(body: JsonView, user: SeerrUserId) -> bool {
    i64_of(field_of(field_of(Some(body), "requestedBy"@), "id"@)) == Some(user.0)
}

/// Whether a request may be withdrawn for an account. Seerr would delete
/// anybody's: the bot's key is an administrator's.
pub fn may_withdraw(body: &Json, id: i64, user: SeerrUserId) -> (r: Result<(), SeerrFailure>)
    ensures
        r == (if i64_of(field_of(field_of(Some(body@), "requestedBy"@), "id"@)) == Some(user.0) {
            Ok::<(), SeerrFailure>(())
        } else {
            Err::<(), SeerrFailure>(SeerrFailure::NotYours { id })
        }),
        r is Ok <==> is_request_of(body@, user),
{
    match whole(get(get(Some(body), "requestedBy"), "id")) {
        Some(owner) => if owner == user.0 {
            Ok(())
        } else {
            Err(SeerrFailure::NotYours { id })
        },
        None => Err(SeerrFailure::NotYours { id }),
    }
}

/// Where Seerr lists its accounts.
pub const USERS_PATH: &'static str = "/api/v1/user?take=500";

/// Where Seerr takes requests.
pub const REQUEST_PATH: &'static str = "/api/v1/request";

/// Where Seerr lists the servers of a service.
pub fn servers_path(service: Service) -> (r: String)
    ensures
        r@ == "/api/v1/service/"@ + service_named(service),
{
    let mut r = "/api/v1/service/".to_owned();
    r.append(service.name());
    r
}

/// Where Seerr answers about one server of a service.
pub fn server_path(service: Service, server_id: i64) -> (r: String)
    ensures
        r@ == "/api/v1/service/"@ + service_named(service) + "/"@ + decimal_int(server_id as int),
{
    let mut r = around("/api/v1/service/", service.name(), "/");
    r.append(decimal_i64(server_id).as_str());
    r
}

/// Where Seerr answers about a request.
pub fn request_path(id: i64) -> (r: String)
    ensures
        r@ == "/api/v1/request/"@ + decimal_int(id as int),
{
    let mut r = "/api/v1/request/".to_owned();
    r.append(decimal_i64(id).as_str());
    r
}

/// Where Seerr hands a request over once more.
pub fn retry_path(id: i64) -> (r: String)
    ensures
        r@ == "/api/v1/request/"@ + decimal_int(id as int) + "/retry"@,
{
    around("/api/v1/request/", decimal_i64(id).as_str(), "/retry")
}

/// Where Seerr lists the requests of an account.
pub fn pending_path(user: SeerrUserId) -> (r: String)
    ensures
        r@ == "/api/v1/user/"@ + decimal_int(user.0 as int) + "/requests?take=50"@,
{
    around("/api/v1/user/", decimal_i64(user.0).as_str(), "/requests?take=50")
}

/// Where Seerr answers about a film or series.
pub fn title_path(kind: MediaKind, tmdb_id: i64) -> (r: String)
    ensures
        r@ == (match kind {
            MediaKind::Tv => "/api/v1/tv/"@,
            MediaKind::Movie => "/api/v1/movie/"@,
        }) + decimal_int(tmdb_id as int),
{
    let mut r = match kind {
        MediaKind::Tv => "/api/v1/tv/".to_owned(),
        MediaKind::Movie => "/api/v1/movie/".to_owned(),
    };
    r.append(decimal_i64(tmdb_id).as_str());
    r
}

} // verus!
