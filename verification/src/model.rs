//! The values the bot thinks in.

use crate::moment::{Date, Timestamp};
use crate::text::{opt_view, views};
use vstd::prelude::*;

verus! {

/// A Signal account id. Stable across username changes, which is exactly why
/// it and not the username is what is stored: usernames are released and can
/// be taken by somebody else.
#[derive(Debug, PartialEq, Eq, Hash, PartialOrd, Ord)]
pub struct Aci(pub String);

impl View for Aci {
    type V = Seq<char>;

    open spec fn view(&self) -> Seq<char> {
        self.0@
    }
}

impl Clone for Aci {
    fn clone(&self) -> (r: Aci)
        ensures
            r == *self,
    {
        Aci(self.0.clone())
    }
}

/// The number of an account in Seerr.
#[derive(Clone, Copy, Debug, PartialEq, Eq, Structural)]
pub struct SeerrUserId(pub i64);

/// What a title is.
#[derive(Clone, Copy, Debug, PartialEq, Eq, Structural)]
pub enum MediaKind {
    Movie,
    Tv,
}

/// One result of a search.
#[derive(Debug, PartialEq)]
pub struct Hit {
    pub tmdb_id: i64,
    pub kind: MediaKind,
    pub title: String,
    pub year: Option<u16>,
    /// The average vote, the way it is shown.
    pub rating: Option<String>,
    /// 0 for movies.
    pub seasons: u16,
    /// Already available or already requested.
    pub already: bool,
}

/// What a [`Hit`] holds.
pub struct HitView {
    pub tmdb_id: i64,
    pub kind: MediaKind,
    pub title: Seq<char>,
    pub year: Option<u16>,
    pub rating: Option<Seq<char>>,
    pub seasons: u16,
    pub already: bool,
}

impl View for Hit {
    type V = HitView;

    open spec fn view(&self) -> HitView {
        HitView {
            tmdb_id: self.tmdb_id,
            kind: self.kind,
            title: self.title@,
            year: self.year,
            rating: opt_view(self.rating),
            seasons: self.seasons,
            already: self.already,
        }
    }
}

/// A copy of an optional text.
pub fn clone_text(text: &Option<String>) -> (r: Option<String>)
    ensures
        r == *text,
{
    match text {
        Some(s) => Some(s.clone()),
        None => None,
    }
}

impl Clone for Hit {
    fn clone(&self) -> (r: Hit)
        ensures
            r == *self,
    {
        Hit {
            tmdb_id: self.tmdb_id,
            kind: self.kind,
            title: self.title.clone(),
            year: self.year,
            rating: clone_text(&self.rating),
            seasons: self.seasons,
            already: self.already,
        }
    }
}

/// One quality profile as the service behind Seerr knows it.
///
/// The `id` is only ever meaningful together with the service it came from:
/// Radarr and Sonarr keep separate id spaces, so a number taken from the
/// wrong side looks entirely plausible and picks a different profile.
/// Everything that matches a profile matches on `name`.
#[derive(Debug, PartialEq, Eq)]
pub struct QualityProfile {
    pub id: i64,
    pub name: String,
}

impl Clone for QualityProfile {
    fn clone(&self) -> (r: QualityProfile)
        ensures
            r == *self,
    {
        QualityProfile { id: self.id, name: self.name.clone() }
    }
}

/// What a [`QualityProfile`] holds.
pub struct QualityProfileView {
    pub id: i64,
    pub name: Seq<char>,
}

impl View for QualityProfile {
    type V = QualityProfileView;

    open spec fn view(&self) -> QualityProfileView {
        QualityProfileView { id: self.id, name: self.name@ }
    }
}

/// Which seasons a wish is about.
#[derive(Debug, PartialEq, Eq)]
pub enum Seasons {
    /// A movie: the field is not sent at all.
    NotApplicable,
    All,
    Only(Vec<u16>),
}

/// What [`Seasons`] holds.
pub enum SeasonsView {
    NotApplicable,
    All,
    Only(Seq<u16>),
}

impl View for Seasons {
    type V = SeasonsView;

    open spec fn view(&self) -> SeasonsView {
        match self {
            Seasons::NotApplicable => SeasonsView::NotApplicable,
            Seasons::All => SeasonsView::All,
            Seasons::Only(list) => SeasonsView::Only(list@),
        }
    }
}

impl Clone for Seasons {
    fn clone(&self) -> (r: Seasons)
        ensures
            r@ == self@,
    {
        match self {
            Seasons::NotApplicable => Seasons::NotApplicable,
            Seasons::All => Seasons::All,
            Seasons::Only(list) => {
                let mut copy: Vec<u16> = Vec::new();
                let mut i: usize = 0;
                while i < list.len()
                    invariant
                        i <= list@.len(),
                        copy@ == list@.take(i as int),
                    decreases list@.len() - i,
                {
                    copy.push(list[i]);
                    assert(list@.take(i + 1) =~= list@.take(i as int).push(list@[i as int]));
                    i += 1;
                }
                assert(list@.take(i as int) =~= list@);
                Seasons::Only(copy)
            },
        }
    }
}

/// One request as Seerr carries it. Seerr never sends a title with it.
#[derive(Clone, Debug, PartialEq)]
pub struct Wish {
    pub id: i64,
    pub kind: MediaKind,
    pub tmdb_id: i64,
    /// 1 pending, 2 approved, 3 declined, 4 failed, 5 completed.
    pub request_status: i64,
    /// 3 processing, 4 partially available, 5 available.
    pub media_status: i64,
    /// The movie's id in Radarr, the series' in Sonarr.
    pub arr_id: Option<i64>,
    pub created_at: Timestamp,
    pub profile_name: Option<String>,
    /// The requester's Jellyfin name, which is their directory name.
    pub requested_by: Option<String>,
    /// How far along Seerr itself says a download is. The only download
    /// evidence there is where neither Radarr nor Sonarr can be asked.
    pub download_percent: Option<u8>,
    /// The seasons asked for. Empty for a movie; on a series, empty means
    /// every monitored season counts.
    pub seasons: Vec<u16>,
}

/// What a [`Wish`] holds.
pub struct WishView {
    pub id: i64,
    pub kind: MediaKind,
    pub tmdb_id: i64,
    pub request_status: i64,
    pub media_status: i64,
    pub arr_id: Option<i64>,
    pub created_at: Timestamp,
    pub profile_name: Option<Seq<char>>,
    pub requested_by: Option<Seq<char>>,
    pub download_percent: Option<u8>,
    pub seasons: Seq<u16>,
}

impl View for Wish {
    type V = WishView;

    open spec fn view(&self) -> WishView {
        WishView {
            id: self.id,
            kind: self.kind,
            tmdb_id: self.tmdb_id,
            request_status: self.request_status,
            media_status: self.media_status,
            arr_id: self.arr_id,
            created_at: self.created_at,
            profile_name: opt_view(self.profile_name),
            requested_by: opt_view(self.requested_by),
            download_percent: self.download_percent,
            seasons: self.seasons@,
        }
    }
}

/// Why a wish's search never found a suitable release.
#[derive(Debug, PartialEq)]
pub enum Reason {
    NothingExists,
    OnlyInLanguages(Vec<String>),
    TooLarge,
    TooSmall,
    WrongQuality,
    Otherwise,
}

/// What a [`Reason`] holds.
pub enum ReasonView {
    NothingExists,
    OnlyInLanguages(Seq<Seq<char>>),
    TooLarge,
    TooSmall,
    WrongQuality,
    Otherwise,
}

impl View for Reason {
    type V = ReasonView;

    open spec fn view(&self) -> ReasonView {
        match self {
            Reason::NothingExists => ReasonView::NothingExists,
            Reason::OnlyInLanguages(list) => ReasonView::OnlyInLanguages(views(list@)),
            Reason::TooLarge => ReasonView::TooLarge,
            Reason::TooSmall => ReasonView::TooSmall,
            Reason::WrongQuality => ReasonView::WrongQuality,
            Reason::Otherwise => ReasonView::Otherwise,
        }
    }
}

/// A copy of a list of texts.
pub fn clone_texts(list: &Vec<String>) -> (r: Vec<String>)
    ensures
        r@ == list@,
{
    let mut r: Vec<String> = Vec::new();
    let mut i: usize = 0;
    while i < list.len()
        invariant
            i <= list@.len(),
            r@ == list@.take(i as int),
        decreases list@.len() - i,
    {
        r.push(list[i].clone());
        assert(list@.take(i + 1) =~= list@.take(i as int).push(list@[i as int]));
        i += 1;
    }
    assert(list@.take(i as int) =~= list@);
    r
}

impl Clone for Reason {
    fn clone(&self) -> (r: Reason)
        ensures
            r@ == self@,
    {
        match self {
            Reason::NothingExists => Reason::NothingExists,
            Reason::OnlyInLanguages(list) => Reason::OnlyInLanguages(clone_texts(list)),
            Reason::TooLarge => Reason::TooLarge,
            Reason::TooSmall => Reason::TooSmall,
            Reason::WrongQuality => Reason::WrongQuality,
            Reason::Otherwise => Reason::Otherwise,
        }
    }
}

/// The view of an optional reason.
pub open spec fn opt_reason(reason: Option<Reason>) -> Option<ReasonView> {
    match reason {
        Some(r) => Some(r@),
        None => None,
    }
}

/// One state a person can be told about, derived from a wish and what is
/// currently known about it in Radarr or Sonarr.
#[derive(Debug, PartialEq)]
pub enum WishState {
    Available,
    /// Somebody with the right to do so said no. Nothing was handed over,
    /// nothing is searched, nothing is told unasked: the person was told by
    /// whoever declined it.
    Declined,
    NotHandedOver,
    /// Some of it is there, the rest is not. Only a series can be in this
    /// state. `counts` is `None` where no episodes were read.
    PartlyAvailable { counts: Option<PartCounts> },
    ImportStuck,
    Downloading { percent: u8 },
    NotReleased { date: Option<Date> },
    /// A series none of whose counting episodes has aired yet; `date` is the
    /// first air date still ahead, if Sonarr knows one.
    NotAired { date: Option<Date> },
    DownloadFailed,
    Unsuitable(Reason),
    Searching,
    /// Nothing is known beyond what Seerr says. Deliberately not `Searching`:
    /// that would be a claim about a measurement nobody made.
    Waiting,
}

/// How much of a series is there, counted over the episodes that count.
/// `next` is the first air date still ahead, if any.
#[derive(Clone, Copy, Debug, PartialEq, Eq)]
pub struct PartCounts {
    pub have: u32,
    pub aired: u32,
    pub next: Option<Date>,
}

/// What [`PartCounts`] holds.
pub struct PartCountsView {
    pub have: u32,
    pub aired: u32,
    pub next: Option<int>,
}

/// What a [`WishState`] holds, with days in place of dates.
pub enum WishStateView {
    Available,
    Declined,
    NotHandedOver,
    PartlyAvailable { counts: Option<PartCountsView> },
    ImportStuck,
    Downloading { percent: u8 },
    NotReleased { day: Option<int> },
    NotAired { day: Option<int> },
    DownloadFailed,
    Unsuitable(ReasonView),
    Searching,
    Waiting,
}

/// The day of an optional date.
pub open spec fn opt_day(date: Option<Date>) -> Option<int> {
    match date {
        Some(d) => Some(d.day_number()),
        None => None,
    }
}

impl View for PartCounts {
    type V = PartCountsView;

    open spec fn view(&self) -> PartCountsView {
        PartCountsView { have: self.have, aired: self.aired, next: opt_day(self.next) }
    }
}

impl View for WishState {
    type V = WishStateView;

    open spec fn view(&self) -> WishStateView {
        match self {
            WishState::Available => WishStateView::Available,
            WishState::Declined => WishStateView::Declined,
            WishState::NotHandedOver => WishStateView::NotHandedOver,
            WishState::PartlyAvailable { counts: None } => WishStateView::PartlyAvailable {
                counts: None,
            },
            WishState::PartlyAvailable { counts: Some(c) } => WishStateView::PartlyAvailable {
                counts: Some(c@),
            },
            WishState::ImportStuck => WishStateView::ImportStuck,
            WishState::Downloading { percent } => WishStateView::Downloading { percent: *percent },
            WishState::NotReleased { date } => WishStateView::NotReleased { day: opt_day(*date) },
            WishState::NotAired { date } => WishStateView::NotAired { day: opt_day(*date) },
            WishState::DownloadFailed => WishStateView::DownloadFailed,
            WishState::Unsuitable(reason) => WishStateView::Unsuitable(reason@),
            WishState::Searching => WishStateView::Searching,
            WishState::Waiting => WishStateView::Waiting,
        }
    }
}

/// The class under which "already told" is remembered; none for a state that
/// is never announced unasked.
pub open spec fn class_of(state: WishStateView) -> Option<Seq<char>> {
    match state {
        WishStateView::Searching => Some("unsuitable"@),
        WishStateView::Unsuitable(_) => Some("unsuitable"@),
        WishStateView::DownloadFailed => Some("download_failed"@),
        WishStateView::ImportStuck => Some("import_stuck"@),
        WishStateView::NotHandedOver => Some("not_handed_over"@),
        _ => None,
    }
}

impl WishState {
    /// The key under which "already told" is remembered; `None` for a state
    /// that is never announced unasked: one without a measurement behind it,
    /// one that is no problem, and one already said by whoever declined.
    pub fn notice_class(&self) -> (r: Option<&'static str>)
        ensures
            match r {
                Some(class) => class_of(self@) == Some(class@),
                None => class_of(self@) is None,
            },
    {
        match self {
            WishState::Searching => Some("unsuitable"),
            WishState::Unsuitable(_) => Some("unsuitable"),
            WishState::DownloadFailed => Some("download_failed"),
            WishState::ImportStuck => Some("import_stuck"),
            WishState::NotHandedOver => Some("not_handed_over"),
            _ => None,
        }
    }
}

/// A state without evidence of a problem is never announced unasked.
pub proof fn law_states_without_a_class(state: WishStateView)
    ensures
        class_of(state) is Some <==> (state is Searching || state is Unsuitable
            || state is DownloadFailed || state is ImportStuck || state is NotHandedOver),
{
}

} // verus!
