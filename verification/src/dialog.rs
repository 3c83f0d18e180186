//! The conversation with one person at a time.
//!
//! [`Dialog::handle`] takes a message, and [`Dialog::resume`] what came of the
//! work that a message asked for; each says what comes next. Messages are
//! handled one at a time. Ticks are nanoseconds of a clock that never runs
//! backwards.

use crate::arr::{ArrMovie, ArrSeries, HistoryEvent, QueueItem};
use crate::dialog::commands::{
    Heard, HeardView, Open, heard, id_to_withdraw, lower, read_seasons, seasons_meant, understand,
    withdrawn_id,
};
use crate::dialog::listing::{
    clone_profiles, find_profile, law_only_known_profiles_are_offered, lemma_nothing_to_offer,
    listing_said, offer, offered, profile_question, profile_with, question_said, render,
};
use crate::dialog::overview::{
    Overview, OverviewStage, OverviewStep, keep_listed, law_an_overview_comes_to_its_end,
    listed_wishes, opt_record, overview_stepped, stage_left,
};
use crate::dialog::status::{plain, with_one};
use crate::directory::Member;
use crate::i18n::{Catalogue, Locale, arg_views, law_a_mentioned_value_is_said};
use crate::model::{
    Aci, Hit, MediaKind, QualityProfile, Seasons, SeasonsView, SeerrUserId, Wish,
};
use crate::moment::Timestamp;
use crate::notices::{Notices, NoticesView};
use crate::table::Table;
use crate::text::{
    decimal_i64, decimal_int, lowercase, occurs, opt_view, parse_unsigned, parsed_unsigned, trim,
    trimmed, views,
};
use vstd::prelude::*;

pub mod commands;
pub mod laws;
pub mod lines;
pub mod listing;
pub mod overview;
pub mod status;
pub mod words;

verus! {

/// A piece of work that a conversation cannot do itself.
#[derive(Clone, Debug, PartialEq)]
pub enum Call {
    /// Search at Seerr.
    Search { query: String, kind: Option<MediaKind>, page: u32 },
    /// Find the Seerr account of a person.
    User(String),
    /// List the quality profiles.
    Profiles(MediaKind),
    /// Place a request.
    Place { hit: Hit, seasons: Seasons, user: SeerrUserId, profile: Option<i64> },
    /// Read back the profile that a request has.
    ProfileOf(i64),
    /// List a person's wishes.
    Pending(SeerrUserId),
    /// Withdraw a wish of a person.
    Withdraw { id: i64, user: SeerrUserId },
    /// The title of a film or series.
    Title { kind: MediaKind, tmdb_id: i64 },
    /// The download queue of Radarr (movies) or Sonarr (series).
    Queue(MediaKind),
    /// What Radarr says about a film.
    Movie(i64),
    /// What Sonarr says about a series.
    Series(i64),
    /// What happened last to a film or series.
    History(MediaKind, i64),
}

/// What came of a piece of work. `None` and `false` stand for a failure.
#[derive(Clone, Debug, PartialEq)]
pub enum Reply {
    /// There was nothing to do.
    Nothing,
    Hits(Option<Vec<Hit>>),
    /// Also `None` if there is no account.
    User(Option<SeerrUserId>),
    Profiles(Option<Vec<QualityProfile>>),
    /// The number of the request.
    Placed(Option<i64>),
    /// Also `None` if the request has no profile.
    ProfileIs(Option<i64>),
    Pending(Option<Vec<Wish>>),
    Withdrawn(bool),
    /// Also `None` if there is no title.
    Title(Option<String>),
    Queue(Option<Vec<QueueItem>>),
    Movie(Option<ArrMovie>),
    Series(Option<ArrSeries>),
    History(Option<Option<HistoryEvent>>),
}

/// How long a list or a question stays open, in nanoseconds. After this, a
/// bare "2" is a search for "2" again.
pub const RESULTS_LIVE: u64 = 600_000_000_000;

/// How long a stranger is left alone after being told once, in nanoseconds.
pub const STRANGER_QUIET: u64 = 3_600_000_000_000;

/// What is open with one person.
#[derive(Debug)]
pub enum Conversation {
    Idle,
    Results { query: String, kind: Option<MediaKind>, page: u32, hits: Vec<Hit>, at: u64 },
    Seasons { hit: Hit, at: u64 },
    /// `listed` is every profile that Seerr has, offered or not.
    Profile { hit: Hit, seasons: Seasons, listed: Vec<QualityProfile>, at: u64 },
}

/// What the bot says, and what it remembers of its conversations.
#[derive(Debug)]
pub struct Dialog {
    pub catalogue: Catalogue,
    /// Where a person goes to enter their Signal name.
    pub settings_url: String,
    /// Who to ask when a group is missing.
    pub operator_name: String,
    /// The names of the profiles to offer, in order; Seerr's own list if
    /// there are none.
    pub quality_profiles: Vec<String>,
    /// Whether Radarr and Sonarr can be asked.
    pub has_insight: bool,
    /// By Signal account.
    pub conversations: Table<String, Conversation>,
    /// By Signal account: when a stranger was last told.
    pub told_strangers: Table<String, u64>,
}

/// What a message is waiting for.
#[derive(Debug)]
pub enum WaitingFor {
    Hits { query: String, kind: Option<MediaKind>, page: u32 },
    Profiles { hit: Hit, seasons: Seasons },
    UserToPlace { hit: Hit, seasons: Seasons, profile: Option<i64>, listed: Vec<QualityProfile> },
    Placed { hit: Hit, user: SeerrUserId, listed: Vec<QualityProfile> },
    ProfileKept { id: i64, hit: Hit, user: SeerrUserId, listed: Vec<QualityProfile> },
    PlacedWish { id: i64, title: String, profile: Option<String> },
    PlacedFilm { id: i64, title: String, profile: Option<String> },
    UserForStatus,
    Wishes,
    Overview(Overview),
    UserToWithdraw { id: i64 },
    Withdrawn { id: i64 },
}

/// A message that is waiting for something.
#[derive(Debug)]
pub struct Waiting {
    pub from: Aci,
    pub locale: Locale,
    pub username: String,
    pub stage: WaitingFor,
}

/// What comes next for a message.
#[derive(Debug)]
pub enum Turn {
    Call { call: Call, waiting: Waiting },
    /// Nothing is to be done; the message goes on.
    Proceed(Waiting),
    /// The answer. Nothing, one text, or several.
    Say(Vec<String>),
}

/// Whether a list or a question is still open.
pub open spec fn is_live(conversation: Conversation, tick: u64) -> bool {
    match conversation {
        Conversation::Idle => true,
        Conversation::Results { at, .. } => tick - at <= RESULTS_LIVE,
        Conversation::Seasons { at, .. } => tick - at <= RESULTS_LIVE,
        Conversation::Profile { at, .. } => tick - at <= RESULTS_LIVE,
    }
}

/// Whether what a person had open has grown stale.
pub open spec fn is_stale(
    talks: Map<Seq<char>, Conversation>,
    from: Seq<char>,
    tick: u64,
) -> bool {
    talks.contains_key(from) && !is_live(talks[from], tick)
}

/// What is open with a person.
pub open spec fn open_with(
    talks: Map<Seq<char>, Conversation>,
    from: Seq<char>,
    tick: u64,
) -> Open {
    if talks.contains_key(from) && is_live(talks[from], tick) {
        match talks[from] {
            Conversation::Idle => Open::Nothing,
            Conversation::Results { .. } => Open::Results,
            Conversation::Seasons { .. } => Open::Seasons,
            Conversation::Profile { .. } => Open::Profile,
        }
    } else {
        Open::Nothing
    }
}

/// Whether a message would have answered something that has grown stale: a
/// list is answered by a number or by asking for more, a question by
/// everything but the ways out.
pub open spec fn comes_too_late(
    conversation: Conversation,
    text: Seq<char>,
    lowered: Seq<char>,
) -> bool {
    let meant = heard(text, lowered, Open::Nothing);
    match conversation {
        Conversation::Idle => false,
        Conversation::Results { .. } => parsed_unsigned(text, usize::MAX as nat) is Some || meant
            is More,
        Conversation::Seasons { .. } => !(meant is Help) && !(meant is Cancel),
        Conversation::Profile { .. } => !(meant is Help) && !(meant is Cancel),
    }
}

/// The conversations once a message has come: what has grown stale is
/// forgotten when somebody answers it.
pub open spec fn talks_left(
    talks: Map<Seq<char>, Conversation>,
    from: Seq<char>,
    text: Seq<char>,
    lowered: Seq<char>,
    tick: u64,
) -> Map<Seq<char>, Conversation> {
    if is_stale(talks, from, tick) && comes_too_late(talks[from], text, lowered) {
        talks.remove(from)
    } else {
        talks
    }
}

/// The strangers who are still left alone.
pub open spec fn still_quiet(told: Map<Seq<char>, u64>, tick: u64) -> Map<Seq<char>, u64> {
    told.restrict(Set::new(|from: Seq<char>| tick - told[from] < STRANGER_QUIET))
}

/// Whether a dialog has become another with the given memory, and is the same
/// in everything else.
pub open spec fn remembers(
    d: Dialog,
    after: Dialog,
    talks: Map<Seq<char>, Conversation>,
    told: Map<Seq<char>, u64>,
) -> bool {
    &&& after == Dialog {
        conversations: after.conversations,
        told_strangers: after.told_strangers,
        ..d
    }
    &&& after.conversations@ == talks
    &&& after.told_strangers@ == told
}

/// Whether the answer is these texts.
pub open spec fn answers(turn: Turn, texts: Seq<Seq<char>>) -> bool {
    turn matches Turn::Say(list) && views(list@) == texts
}

/// Whether the answer is one message of the catalogue.
pub open spec fn answers_with(
    turn: Turn,
    catalogue: Catalogue,
    locale: Locale,
    key: Seq<char>,
    args: Seq<(Seq<char>, Seq<char>)>,
) -> bool {
    answers(turn, seq![catalogue.says(locale, key, args)])
}

/// Whether the message goes on waiting, for the same person.
pub open spec fn waits(
    waiting: Waiting,
    from: Seq<char>,
    locale: Locale,
    username: Seq<char>,
) -> bool {
    waiting.from@ == from && waiting.locale == locale && waiting.username@ == username
}

/// Whether a search is made for a person.
pub open spec fn searches(
    turn: Turn,
    from: Seq<char>,
    locale: Locale,
    username: Seq<char>,
    query: Seq<char>,
    kind: Option<MediaKind>,
    page: u32,
) -> bool {
    &&& turn matches Turn::Call { call: Call::Search { query: q, kind: k, page: p }, waiting }
    &&& q@ == query
    &&& k == kind
    &&& p == page
    &&& waits(waiting, from, locale, username)
    &&& waiting.stage matches WaitingFor::Hits { query: wq, kind: wk, page: wp }
    &&& wq@ == query
    &&& wk == kind
    &&& wp == page
}

/// Whether the profiles are asked for, to place a request.
pub open spec fn asks_profiles(
    turn: Turn,
    from: Seq<char>,
    locale: Locale,
    username: Seq<char>,
    hit: Hit,
    seasons: SeasonsView,
) -> bool {
    &&& turn matches Turn::Call { call: Call::Profiles(kind), waiting }
    &&& kind == hit.kind
    &&& waits(waiting, from, locale, username)
    &&& waiting.stage matches WaitingFor::Profiles { hit: h, seasons: s }
    &&& h == hit
    &&& s@ == seasons
}

/// Whether the person's Seerr account is asked for, to place a request.
pub open spec fn asks_user_to_place(
    turn: Turn,
    from: Seq<char>,
    locale: Locale,
    username: Seq<char>,
    hit: Hit,
    seasons: SeasonsView,
    profile: Option<i64>,
    listed: Seq<QualityProfile>,
) -> bool {
    &&& turn matches Turn::Call { call: Call::User(name), waiting }
    &&& name@ == username
    &&& waits(waiting, from, locale, username)
    &&& waiting.stage matches WaitingFor::UserToPlace { hit: h, seasons: s, profile: p, listed: l }
    &&& h == hit
    &&& s@ == seasons
    &&& p == profile
    &&& l@ == listed
}

/// The page after a page.
pub open spec fn page_after(page: u32) -> u32 {
    if page < u32::MAX {
        (page + 1) as u32
    } else {
        page
    }
}

/// What a number out of the list leads to: the answer that there is no such
/// number, that the title is there already, the question for seasons, or the
/// question for a profile.
pub open spec fn chosen(
    d: Dialog,
    talks: Map<Seq<char>, Conversation>,
    from: Seq<char>,
    locale: Locale,
    username: Seq<char>,
    hits: Seq<Hit>,
    choice: usize,
    tick: u64,
    after: Dialog,
    turn: Turn,
) -> bool {
    let told = d.told_strangers@;
    if choice == 0 || choice > hits.len() {
        &&& remembers(d, after, talks, told)
        &&& answers_with(turn, d.catalogue, locale, "error.not_understood"@, Seq::empty())
    } else {
        let hit = hits[choice - 1];
        if hit.already {
            &&& remembers(d, after, talks.remove(from), told)
            &&& answers_with(
                turn,
                d.catalogue,
                locale,
                "request.already"@,
                seq![("title"@, hit.title@)],
            )
        } else if hit.kind == MediaKind::Tv {
            &&& remembers(
                d,
                after,
                talks.insert(from, Conversation::Seasons { hit, at: tick }),
                told,
            )
            &&& answers_with(
                turn,
                d.catalogue,
                locale,
                "request.seasons_question"@,
                seq![("title"@, hit.title@)],
            )
        } else {
            &&& remembers(d, after, talks, told)
            &&& asks_profiles(turn, from, locale, username, hit, SeasonsView::NotApplicable)
        }
    }
}

/// What a message of somebody who may ask for things leads to.
pub open spec fn spoken(
    d: Dialog,
    from: Seq<char>,
    locale: Locale,
    username: Seq<char>,
    text: Seq<char>,
    tick: u64,
    after: Dialog,
    turn: Turn,
) -> bool {
    let open = open_with(d.conversations@, from, tick);
    let talks = talks_left(d.conversations@, from, text, lowercase(text), tick);
    let told = d.told_strangers@;
    match heard(text, lowercase(text), open) {
        HeardView::Help => {
            &&& remembers(d, after, talks, told)
            &&& answers_with(turn, d.catalogue, locale, "help.body"@, Seq::empty())
        },
        HeardView::Cancel => {
            &&& remembers(d, after, talks.remove(from), told)
            &&& answers(turn, Seq::empty())
        },
        HeardView::Seasons => {
            let hit = talks[from]->Seasons_hit;
            &&& remembers(d, after, talks, told)
            &&& match seasons_meant(lowercase(text), hit.seasons) {
                Some(seasons) => asks_profiles(turn, from, locale, username, hit, seasons),
                None => answers_with(
                    turn,
                    d.catalogue,
                    locale,
                    "request.seasons_question"@,
                    seq![("title"@, hit.title@)],
                ),
            }
        },
        HeardView::Profile => {
            let talk = talks[from];
            let options = offered(views(d.quality_profiles@), talk->listed@);
            let choice = parsed_unsigned(text, usize::MAX as nat);
            &&& remembers(d, after, talks, told)
            &&& if choice is Some && 1 <= choice->0 <= options.len() {
                asks_user_to_place(
                    turn,
                    from,
                    locale,
                    username,
                    talk->Profile_hit,
                    talk->seasons@,
                    Some(options[choice->0 - 1].id),
                    talk->listed@,
                )
            } else {
                answers(
                    turn,
                    seq![question_said(d.catalogue, locale, talk->Profile_hit.title@, options)],
                )
            }
        },
        HeardView::Choice(choice) => chosen(
            d,
            talks,
            from,
            locale,
            username,
            talks[from]->hits@,
            choice,
            tick,
            after,
            turn,
        ),
        HeardView::More => {
            &&& remembers(d, after, talks, told)
            &&& if open == Open::Results {
                let talk = talks[from];
                searches(
                    turn,
                    from,
                    locale,
                    username,
                    talk->query@,
                    talk->kind,
                    page_after(talk->page),
                )
            } else {
                answers_with(turn, d.catalogue, locale, "error.not_understood"@, Seq::empty())
            }
        },
        HeardView::Status => {
            &&& remembers(d, after, talks, told)
            &&& turn matches Turn::Call { call: Call::User(name), waiting } && name@ == username
                && waits(waiting, from, locale, username) && waiting.stage is UserForStatus
        },
        HeardView::Withdraw => {
            &&& remembers(d, after, talks, told)
            &&& match withdrawn_id(text) {
                Some(wanted) => {
                    &&& turn matches Turn::Call { call: Call::User(name), waiting }
                    &&& name@ == username
                    &&& waits(waiting, from, locale, username)
                    &&& waiting.stage matches WaitingFor::UserToWithdraw { id }
                    &&& id == wanted
                },
                None => answers_with(
                    turn,
                    d.catalogue,
                    locale,
                    "error.not_understood"@,
                    Seq::empty(),
                ),
            }
        },
        HeardView::Find { query, kind } => {
            &&& remembers(d, after, talks, told)
            &&& searches(turn, from, locale, username, query, kind, 1)
        },
    }
}

/// What a message leads to. A stranger is told once where to go and then left
/// alone for a while; somebody without the group is told whom to ask.
pub open spec fn handled(
    d: Dialog,
    from: Seq<char>,
    member: Option<Member>,
    text: Seq<char>,
    tick: u64,
    after: Dialog,
    turn: Turn,
) -> bool {
    match member {
        None => {
            let quiet = still_quiet(d.told_strangers@, tick);
            if quiet.contains_key(from) {
                &&& remembers(d, after, d.conversations@, quiet)
                &&& answers(turn, Seq::empty())
            } else {
                &&& remembers(d, after, d.conversations@, quiet.insert(from, tick))
                &&& answers_with(
                    turn,
                    d.catalogue,
                    Locale::De,
                    "error.unknown_sender"@,
                    seq![("url"@, d.settings_url@)],
                )
            }
        },
        Some(m) => if m.allowed {
            spoken(
                d,
                from,
                m.locale,
                m.authentik_username@,
                trimmed(text),
                tick,
                after,
                turn,
            )
        } else {
            &&& after == d
            &&& answers_with(
                turn,
                d.catalogue,
                m.locale,
                "error.not_allowed"@,
                seq![("operator"@, d.operator_name@)],
            )
        },
    }
}

/// Drops every stranger who was told too long ago to still be left alone.
pub fn prune_stale_strangers(told: &mut Table<String, u64>, tick: u64)
    ensures
        final(told)@ == still_quiet(old(told)@, tick),
{
    let ghost all = told@;
    let mut stale: Vec<String> = Vec::new();
    let mut i: usize = 0;
    let ghost keys = told.key_seq();
    proof {
        told.lemma_keys();
    }
    while i < told.len()
        invariant
            told@ == all,
            told.key_seq() == keys,
            i <= keys.len(),
            forall|j: int|
                0 <= j < stale@.len() ==> all.contains_key((#[trigger] stale@[j])@) && tick
                    - all[stale@[j]@] >= STRANGER_QUIET,
            forall|j: int|
                0 <= j < i && all.contains_key(#[trigger] keys[j]) && tick - all[keys[j]]
                    >= STRANGER_QUIET ==> views(stale@).contains(keys[j]),
        decreases keys.len() - i,
    {
        let key = told.key_at(i);
        let at: u64 = match told.get(key) {
            Some(at) => *at,
            None => tick,
        };
        let ghost before = stale@;
        if tick >= at && tick - at >= STRANGER_QUIET {
            stale.push(key.clone());
            proof {
                assert(views(stale@).last() == keys[i as int]);
                assert forall|name: Seq<char>| #[trigger]
                    views(before).contains(name) implies views(stale@).contains(name) by {
                    let j = choose|j: int| 0 <= j < views(before).len() && views(before)[j] == name;
                    assert(views(stale@)[j] == name);
                }
                assert(views(stale@).contains(keys[i as int]));
            }
        }
        i += 1;
    }
    let ghost gone = views(stale@);
    let mut k: usize = 0;
    while k < stale.len()
        invariant
            k <= stale@.len(),
            gone == views(stale@),
            forall|name: Seq<char>| #[trigger]
                told@.contains_key(name) <==> all.contains_key(name) && !gone.take(
                    k as int,
                ).contains(name),
            forall|name: Seq<char>| #[trigger]
                told@.contains_key(name) ==> told@[name] == all[name],
        decreases stale@.len() - k,
    {
        let ghost before = told@;
        told.remove(&stale[k]);
        proof {
            let done = gone.take(k as int);
            let next = gone.take(k + 1);
            assert(next =~= done.push(stale@[k as int]@));
            assert forall|name: Seq<char>| #[trigger]
                next.contains(name) <==> done.contains(name) || name == stale@[k as int]@ by {
                if done.contains(name) {
                    let j = choose|j: int| 0 <= j < done.len() && done[j] == name;
                    assert(next[j] == name);
                }
                if name == stale@[k as int]@ {
                    assert(next[k as int] == name);
                }
            }
            assert forall|name: Seq<char>| #[trigger]
                told@.contains_key(name) <==> all.contains_key(name) && !next.contains(name) by {
                assert(before.contains_key(name) <==> all.contains_key(name) && !done.contains(
                    name,
                ));
            }
            assert forall|name: Seq<char>| #[trigger]
                told@.contains_key(name) implies told@[name] == all[name] by {
                assert(before.contains_key(name));
            }
        }
        k += 1;
    }
    proof {
        assert(gone.take(k as int) =~= gone);
        assert forall|name: Seq<char>| #[trigger]
            told@.contains_key(name) <==> still_quiet(all, tick).contains_key(name) by {
            if all.contains_key(name) {
                assert(keys.contains(name));
                let j = choose|j: int| 0 <= j < keys.len() && keys[j] == name;
                assert(keys[j] == name);
                if gone.contains(name) {
                    let g = choose|g: int| 0 <= g < gone.len() && gone[g] == name;
                    assert(stale@[g]@ == name);
                }
            }
        }
        assert(told@ =~= still_quiet(all, tick));
    }
}

/// One text as an answer.
fn say(text: String) -> (turn: Turn)
    ensures
        answers(turn, seq![text@]),
{
    let ghost said = text@;
    let mut list: Vec<String> = Vec::new();
    list.push(text);
    assert(views(list@) =~= seq![said]);
    Turn::Say(list)
}

/// No answer.
fn say_nothing() -> (turn: Turn)
    ensures
        answers(turn, Seq::empty()),
{
    let list: Vec<String> = Vec::new();
    assert(views(list@) =~= Seq::<Seq<char>>::empty());
    Turn::Say(list)
}

impl Dialog {
    /// A dialog without conversations.
    pub fn new(
        catalogue: Catalogue,
        settings_url: String,
        operator_name: String,
        quality_profiles: Vec<String>,
        has_insight: bool,
    ) -> (r: Dialog)
        ensures
            r.catalogue == catalogue,
            r.settings_url == settings_url,
            r.operator_name == operator_name,
            r.quality_profiles == quality_profiles,
            r.has_insight == has_insight,
            r.conversations@ == Map::<Seq<char>, Conversation>::empty(),
            r.told_strangers@ == Map::<Seq<char>, u64>::empty(),
    {
        Dialog {
            catalogue,
            settings_url,
            operator_name,
            quality_profiles,
            has_insight,
            conversations: Table::new(),
            told_strangers: Table::new(),
        }
    }

    fn tell_stranger_once(&mut self, from: &Aci, tick: u64) -> (turn: Turn)
        ensures
            handled(*old(self), from@, None, Seq::empty(), tick, *final(self), turn),
    {
        prune_stale_strangers(&mut self.told_strangers, tick);
        if self.told_strangers.contains_key(&from.0) {
            return say_nothing();
        }
        self.told_strangers.insert(from.0.clone(), tick);
        // A stranger has no account and therefore no language. German is the
        // house language; the English half of the sentence is in the same
        // text.
        say(
            with_one(
                &self.catalogue,
                Locale::De,
                "error.unknown_sender",
                "url",
                self.settings_url.as_str(),
            ),
        )
    }

    /// What is open with a person, and whether it has grown stale.
    fn what_is_open(&self, from: &Aci, tick: u64) -> (r: (Open, bool))
        ensures
            r.0 == open_with(self.conversations@, from@, tick),
            r.1 == is_stale(self.conversations@, from@, tick),
    {
        let (open, at): (Open, u64) = match self.conversations.get(&from.0) {
            None => (Open::Nothing, tick),
            Some(Conversation::Idle) => (Open::Nothing, tick),
            Some(Conversation::Results { at, .. }) => (Open::Results, *at),
            Some(Conversation::Seasons { at, .. }) => (Open::Seasons, *at),
            Some(Conversation::Profile { at, .. }) => (Open::Profile, *at),
        };
        if tick > at && tick - at > RESULTS_LIVE {
            (Open::Nothing, true)
        } else {
            (open, false)
        }
    }

    /// Forgets what has grown stale, if the message would have answered it.
    fn forget_stale(&mut self, from: &Aci, text: &str, lowered: &str, tick: u64)
        requires
            is_stale(old(self).conversations@, from@, tick),
        ensures
            remembers(
                *old(self),
                *final(self),
                talks_left(old(self).conversations@, from@, text@, lowered@, tick),
                old(self).told_strangers@,
            ),
    {
        let meant = understand(text, lowered, Open::Nothing);
        let late = match self.conversations.get(&from.0) {
            None => false,
            Some(Conversation::Idle) => false,
            Some(Conversation::Results { .. }) => parse_unsigned(
                text,
                usize::MAX as u64,
            ).is_some() || matches!(meant, Heard::More),
            Some(_) => !matches!(meant, Heard::Help) && !matches!(meant, Heard::Cancel),
        };
        if late {
            self.conversations.remove(&from.0);
        }
    }

    fn pick(
        &mut self,
        from: &Aci,
        locale: Locale,
        username: &str,
        choice: usize,
        tick: u64,
    ) -> (turn: Turn)
        requires
            old(self).conversations@.contains_key(from@),
            old(self).conversations@[from@] is Results,
        ensures
            chosen(
                *old(self),
                old(self).conversations@,
                from@,
                locale,
                username@,
                old(self).conversations@[from@]->hits@,
                choice,
                tick,
                *final(self),
                turn,
            ),
    {
        let hit = match self.conversations.get(&from.0) {
            Some(Conversation::Results { hits, .. }) => {
                if choice == 0 || choice > hits.len() {
                    None
                } else {
                    Some(hits[choice - 1].clone())
                }
            },
            _ => None,
        };
        let hit = match hit {
            Some(hit) => hit,
            None => {
                return say(plain(&self.catalogue, locale, "error.not_understood"));
            },
        };
        if hit.already {
            self.conversations.remove(&from.0);
            return say(
                with_one(
                    &self.catalogue,
                    locale,
                    "request.already",
                    "title",
                    hit.title.as_str(),
                ),
            );
        }
        if hit.kind == MediaKind::Tv {
            let question = with_one(
                &self.catalogue,
                locale,
                "request.seasons_question",
                "title",
                hit.title.as_str(),
            );
            self.conversations.insert(from.0.clone(), Conversation::Seasons { hit, at: tick });
            return say(question);
        }
        ask_profiles(from, locale, username, hit, Seasons::NotApplicable)
    }

    fn answer_seasons(
        &self,
        from: &Aci,
        locale: Locale,
        username: &str,
        hit: &Hit,
        lowered: &str,
    ) -> (turn: Turn)
        ensures
            match seasons_meant(lowered@, hit.seasons) {
                Some(seasons) => asks_profiles(turn, from@, locale, username@, *hit, seasons),
                None => answers_with(
                    turn,
                    self.catalogue,
                    locale,
                    "request.seasons_question"@,
                    seq![("title"@, hit.title@)],
                ),
            },
    {
        match read_seasons(lowered, hit.seasons) {
            Some(seasons) => ask_profiles(from, locale, username, hit.clone(), seasons),
            None => say(
                with_one(
                    &self.catalogue,
                    locale,
                    "request.seasons_question",
                    "title",
                    hit.title.as_str(),
                ),
            ),
        }
    }

    fn answer_profile(
        &self,
        from: &Aci,
        locale: Locale,
        username: &str,
        hit: &Hit,
        seasons: &Seasons,
        listed: &Vec<QualityProfile>,
        text: &str,
    ) -> (turn: Turn)
        ensures
            ({
                let options = offered(views(self.quality_profiles@), listed@);
                let choice = parsed_unsigned(text@, usize::MAX as nat);
                if choice is Some && 1 <= choice->0 <= options.len() {
                    asks_user_to_place(
                        turn,
                        from@,
                        locale,
                        username@,
                        *hit,
                        seasons@,
                        Some(options[choice->0 - 1].id),
                        listed@,
                    )
                } else {
                    answers(
                        turn,
                        seq![question_said(self.catalogue, locale, hit.title@, options)],
                    )
                }
            }),
    {
        let options = offer(&self.quality_profiles, listed);
        if let Some(choice) = parse_unsigned(text, usize::MAX as u64) {
            if 1 <= choice && choice <= options.len() as u64 {
                let profile: i64 = options[choice as usize - 1].id;
                return ask_user(
                    from,
                    locale,
                    username,
                    WaitingFor::UserToPlace {
                        hit: hit.clone(),
                        seasons: seasons.clone(),
                        profile: Some(profile),
                        listed: clone_profiles(listed),
                    },
                );
            }
        }
        say(profile_question(&self.catalogue, locale, hit.title.as_str(), &options))
    }
}

fn ask_profiles(
    from: &Aci,
    locale: Locale,
    username: &str,
    hit: Hit,
    seasons: Seasons,
) -> (turn: Turn)
    ensures
        asks_profiles(turn, from@, locale, username@, hit, seasons@),
{
    Turn::Call {
        call: Call::Profiles(hit.kind),
        waiting: Waiting {
            from: from.clone(),
            locale,
            username: username.to_owned(),
            stage: WaitingFor::Profiles { hit, seasons },
        },
    }
}

fn ask_user(from: &Aci, locale: Locale, username: &str, stage: WaitingFor) -> (turn: Turn)
    ensures
        turn matches Turn::Call { call: Call::User(name), waiting } && name@ == username@
            && waits(waiting, from@, locale, username@) && waiting.stage == stage,
{
    Turn::Call {
        call: Call::User(username.to_owned()),
        waiting: Waiting { from: from.clone(), locale, username: username.to_owned(), stage },
    }
}

fn ask_search(
    from: &Aci,
    locale: Locale,
    username: &str,
    query: &str,
    kind: Option<MediaKind>,
    page: u32,
) -> (turn: Turn)
    ensures
        searches(turn, from@, locale, username@, query@, kind, page),
{
    Turn::Call {
        call: Call::Search { query: query.to_owned(), kind, page },
        waiting: Waiting {
            from: from.clone(),
            locale,
            username: username.to_owned(),
            stage: WaitingFor::Hits { query: query.to_owned(), kind, page },
        },
    }
}

impl Dialog {
    fn speak(
        &mut self,
        from: &Aci,
        locale: Locale,
        username: &str,
        text: &str,
        tick: u64,
    ) -> (turn: Turn)
        ensures
            spoken(
                *old(self),
                from@,
                locale,
                username@,
                text@,
                tick,
                *final(self),
                turn,
            ),
    {
        let lowered = lower(text);
        let (open, stale) = self.what_is_open(from, tick);
        if stale {
            self.forget_stale(from, text, lowered.as_str(), tick);
        }
        match understand(text, lowered.as_str(), open) {
            Heard::Help => say(plain(&self.catalogue, locale, "help.body")),
            Heard::Cancel => {
                self.conversations.remove(&from.0);
                say_nothing()
            },
            Heard::Seasons => match self.conversations.get(&from.0) {
                Some(Conversation::Seasons { hit, .. }) => self.answer_seasons(
                    from,
                    locale,
                    username,
                    hit,
                    lowered.as_str(),
                ),
                _ => say_nothing(),
            },
            Heard::Profile => match self.conversations.get(&from.0) {
                Some(
                    Conversation::Profile { hit, seasons, listed, .. },
                ) => self.answer_profile(from, locale, username, hit, seasons, listed, text),
                _ => say_nothing(),
            },
            Heard::Choice(choice) => self.pick(from, locale, username, choice, tick),
            Heard::More => match self.conversations.get(&from.0) {
                Some(Conversation::Results { query, kind, page, .. }) => ask_search(
                    from,
                    locale,
                    username,
                    query.as_str(),
                    *kind,
                    if *page < u32::MAX {
                        *page + 1
                    } else {
                        *page
                    },
                ),
                _ => say(plain(&self.catalogue, locale, "error.not_understood")),
            },
            Heard::Status => ask_user(from, locale, username, WaitingFor::UserForStatus),
            Heard::Withdraw => match id_to_withdraw(text) {
                Some(id) => ask_user(from, locale, username, WaitingFor::UserToWithdraw { id }),
                None => say(plain(&self.catalogue, locale, "error.not_understood")),
            },
            Heard::Find { query, kind } => ask_search(
                from,
                locale,
                username,
                query.as_str(),
                kind,
                1,
            ),
        }
    }

    /// Takes a message. `member` is who writes it, if the bot knows them.
    pub fn handle(&mut self, from: &Aci, member: Option<&Member>, text: &str, tick: u64) -> (turn:
        Turn)
        ensures
            handled(
                *old(self),
                from@,
                (match member {
                    Some(m) => Some(*m),
                    None => None,
                }),
                text@,
                tick,
                *final(self),
                turn,
            ),
    {
        let member = match member {
            Some(member) => member,
            None => {
                return self.tell_stranger_once(from, tick);
            },
        };
        if !member.allowed {
            return say(
                with_one(
                    &self.catalogue,
                    member.locale,
                    "error.not_allowed",
                    "operator",
                    self.operator_name.as_str(),
                ),
            );
        }
        self.speak(
            from,
            member.locale,
            member.authentik_username.as_str(),
            trim(text),
            tick,
        )
    }
}

/// The confirmation of a placed request: it names the title, the number to
/// withdraw it by, whether the film is not out yet, and the profile that Seerr
/// says it kept.
pub open spec fn placed_said(
    catalogue: Catalogue,
    locale: Locale,
    title: Seq<char>,
    id: i64,
    released: bool,
    profile: Option<Seq<char>>,
) -> Seq<char> {
    let args = seq![("title"@, title), ("id"@, decimal_int(id as int))];
    let sentence = if released {
        catalogue.says(locale, "request.placed"@, args)
    } else {
        catalogue.says(locale, "request.placed_not_released"@, args)
    };
    match profile {
        Some(name) => sentence + "\n"@ + catalogue.says(
            locale,
            "request.profile"@,
            seq![("profile"@, name)],
        ),
        None => sentence,
    }
}

/// The id in Radarr or Sonarr of the first wish with a number.
pub open spec fn arr_id_of(wishes: Seq<Wish>, id: i64) -> Option<i64>
    decreases wishes.len(),
{
    if wishes.len() == 0 {
        None
    } else if wishes[0].id == id {
        wishes[0].arr_id
    } else {
        arr_id_of(wishes.skip(1), id)
    }
}

/// Whether nothing but the answer that Seerr could not be reached comes of it.
pub open spec fn seerr_is_down(d: Dialog, locale: Locale, after: Dialog, turn: Turn) -> bool {
    &&& after == d
    &&& answers_with(turn, d.catalogue, locale, "error.seerr_down"@, Seq::empty())
}

/// Whether a placed request is confirmed, after a look at whether the film is
/// out where Radarr can be asked.
pub open spec fn confirms(
    d: Dialog,
    from: Seq<char>,
    locale: Locale,
    username: Seq<char>,
    id: i64,
    hit: Hit,
    user: SeerrUserId,
    profile: Option<Seq<char>>,
    after: Dialog,
    turn: Turn,
) -> bool {
    &&& after == d
    &&& if d.has_insight && hit.kind == MediaKind::Movie {
        &&& turn matches Turn::Call { call: Call::Pending(asked), waiting }
        &&& asked == user
        &&& waits(waiting, from, locale, username)
        &&& waiting.stage matches WaitingFor::PlacedWish { id: i, title: t, profile: p }
        &&& i == id
        &&& t@ == hit.title@
        &&& opt_view(p) == profile
    } else {
        answers(
            turn,
            seq![placed_said(d.catalogue, locale, hit.title@, id, true, profile)],
        )
    }
}

/// What comes of the work that a message asked for.
pub open spec fn resumed(
    d: Dialog,
    w: Waiting,
    reply: Reply,
    record: Option<NoticesView>,
    now: Timestamp,
    tick: u64,
    after: Dialog,
    turn: Turn,
) -> bool {
    let from = w.from@;
    let talks = d.conversations@;
    let told = d.told_strangers@;
    match w.stage {
        WaitingFor::Hits { query, kind, page } => match reply {
            Reply::Hits(Some(hits)) => if hits@.len() == 0 {
                &&& after == d
                &&& if page > 1 {
                    answers_with(turn, d.catalogue, w.locale, "search.no_more"@, Seq::empty())
                } else {
                    answers_with(turn, d.catalogue, w.locale, "search.none"@, Seq::empty())
                }
            } else {
                &&& remembers(
                    d,
                    after,
                    talks.insert(
                        from,
                        Conversation::Results { query, kind, page, hits, at: tick },
                    ),
                    told,
                )
                &&& answers(turn, seq![listing_said(d.catalogue, w.locale, hits@)])
            },
            _ => seerr_is_down(d, w.locale, after, turn),
        },
        // A wish never fails because a question could not be asked.
        WaitingFor::Profiles { hit, seasons } => {
            let listed = match reply {
                Reply::Profiles(Some(list)) => list@,
                _ => Seq::empty(),
            };
            let options = offered(views(d.quality_profiles@), listed);
            if options.len() == 0 {
                &&& after == d
                &&& asks_user_to_place(
                    turn,
                    from,
                    w.locale,
                    w.username@,
                    hit,
                    seasons@,
                    None,
                    listed,
                )
            } else {
                &&& remembers(d, after, talks.insert(from, after.conversations@[from]), told)
                &&& after.conversations@[from] matches Conversation::Profile {
                    hit: h,
                    seasons: s,
                    listed: l,
                    at,
                }
                &&& h == hit
                &&& s == seasons
                &&& l@ == listed
                &&& at == tick
                &&& answers(
                    turn,
                    seq![question_said(d.catalogue, w.locale, hit.title@, options)],
                )
            }
        },
        WaitingFor::UserToPlace { hit, seasons, profile, listed } => match reply {
            Reply::User(Some(user)) => {
                &&& remembers(d, after, talks.remove(from), told)
                &&& turn matches Turn::Call { call, waiting }
                &&& call == Call::Place { hit, seasons, user, profile }
                &&& waiting == Waiting { stage: WaitingFor::Placed { hit, user, listed }, ..w }
            },
            _ => seerr_is_down(d, w.locale, after, turn),
        },
        WaitingFor::Placed { hit, user, listed } => match reply {
            Reply::Placed(Some(id)) => if listed@.len() == 0 {
                confirms(d, from, w.locale, w.username@, id, hit, user, None, after, turn)
            } else {
                &&& after == d
                &&& turn matches Turn::Call { call, waiting }
                &&& call == Call::ProfileOf(id)
                &&& waiting == Waiting {
                    stage: WaitingFor::ProfileKept { id, hit, user, listed },
                    ..w
                }
            },
            _ => seerr_is_down(d, w.locale, after, turn),
        },
        WaitingFor::ProfileKept { id, hit, user, listed } => {
            let kept = match reply {
                Reply::ProfileIs(Some(profile)) => match profile_with(listed@, profile) {
                    Some(found) => Some(found.name@),
                    None => None,
                },
                _ => None,
            };
            confirms(d, from, w.locale, w.username@, id, hit, user, kept, after, turn)
        },
        WaitingFor::PlacedWish { id, title, profile } => {
            let arr_id = match reply {
                Reply::Pending(Some(wishes)) => arr_id_of(wishes@, id),
                _ => None,
            };
            &&& after == d
            &&& if arr_id is Some {
                &&& turn matches Turn::Call { call, waiting }
                &&& call == Call::Movie(arr_id->0)
                &&& waiting == Waiting {
                    stage: WaitingFor::PlacedFilm { id, title, profile },
                    ..w
                }
            } else {
                answers(
                    turn,
                    seq![
                        placed_said(d.catalogue, w.locale, title@, id, true, opt_view(profile)),
                    ],
                )
            }
        },
        WaitingFor::PlacedFilm { id, title, profile } => {
            let released = match reply {
                Reply::Movie(Some(movie)) => movie.is_available,
                _ => true,
            };
            &&& after == d
            &&& answers(
                turn,
                seq![placed_said(d.catalogue, w.locale, title@, id, released, opt_view(profile))],
            )
        },
        WaitingFor::UserForStatus => match reply {
            Reply::User(Some(user)) => {
                &&& after == d
                &&& turn matches Turn::Call { call, waiting }
                &&& call == Call::Pending(user)
                &&& waiting == Waiting { stage: WaitingFor::Wishes, ..w }
            },
            _ => seerr_is_down(d, w.locale, after, turn),
        },
        WaitingFor::Wishes => match reply {
            Reply::Pending(Some(wishes)) => {
                let listed = listed_wishes(wishes@, now);
                &&& after == d
                &&& if listed.len() == 0 {
                    answers_with(turn, d.catalogue, w.locale, "status.empty"@, Seq::empty())
                } else {
                    &&& turn matches Turn::Proceed(waiting)
                    &&& waiting == Waiting { stage: waiting.stage, ..w }
                    &&& waiting.stage matches WaitingFor::Overview(o)
                    &&& starts(o, listed)
                }
            },
            _ => seerr_is_down(d, w.locale, after, turn),
        },
        WaitingFor::Overview(o) => {
            &&& after == d
            &&& exists|next: Overview, step: OverviewStep| #[trigger]
                overview_stepped(
                    d.catalogue,
                    w.locale,
                    d.has_insight,
                    record,
                    now,
                    o,
                    reply,
                    next,
                    step,
                ) && match step {
                    OverviewStep::Do(call) => turn == Turn::Call {
                        call,
                        waiting: Waiting { stage: WaitingFor::Overview(next), ..w },
                    },
                    OverviewStep::Proceed => turn == Turn::Proceed(
                        Waiting { stage: WaitingFor::Overview(next), ..w },
                    ),
                    OverviewStep::Done(text) => answers(turn, seq![text@]),
                }
        },
        WaitingFor::UserToWithdraw { id } => match reply {
            Reply::User(Some(user)) => {
                &&& after == d
                &&& turn matches Turn::Call { call, waiting }
                &&& call == Call::Withdraw { id, user }
                &&& waiting == Waiting { stage: WaitingFor::Withdrawn { id }, ..w }
            },
            _ => seerr_is_down(d, w.locale, after, turn),
        },
        WaitingFor::Withdrawn { id } => {
            let args = seq![("id"@, decimal_int(id as int))];
            &&& after == d
            &&& if reply == Reply::Withdrawn(true) {
                answers_with(turn, d.catalogue, w.locale, "request.withdrawn"@, args)
            } else {
                answers_with(turn, d.catalogue, w.locale, "request.unknown_id"@, args)
            }
        },
    }
}

/// Whether an overview is at its beginning, about these wishes.
pub open spec fn starts(o: Overview, wishes: Seq<Wish>) -> bool {
    &&& o.wishes@ == wishes
    &&& o.at == 0
    &&& o.lines@.len() == 0
    &&& o.movie_queue is NotYet
    &&& o.tv_queue is NotYet
    &&& o.title is None
    &&& o.movie is None
    &&& o.facts is None
    &&& o.stage == OverviewStage::Next
}

fn find_arr_id(wishes: &Vec<Wish>, id: i64) -> (r: Option<i64>)
    ensures
        r == arr_id_of(wishes@, id),
{
    let mut i: usize = 0;
    assert(wishes@.skip(0) =~= wishes@);
    while i < wishes.len()
        invariant
            i <= wishes@.len(),
            arr_id_of(wishes@.skip(i as int), id) == arr_id_of(wishes@, id),
        decreases wishes@.len() - i,
    {
        assert(wishes@.skip(i as int).skip(1) =~= wishes@.skip(i + 1));
        if wishes[i].id == id {
            return wishes[i].arr_id;
        }
        i += 1;
    }
    None
}

fn placed_text(
    catalogue: &Catalogue,
    locale: Locale,
    title: &str,
    id: i64,
    released: bool,
    profile: &Option<String>,
) -> (r: String)
    ensures
        r@ == placed_said(*catalogue, locale, title@, id, released, opt_view(*profile)),
{
    let number = decimal_i64(id);
    let args = [("title", title), ("id", number.as_str())];
    assert(arg_views(args@) =~= seq![("title"@, title@), ("id"@, number@)]);
    let mut text = if released {
        catalogue.text(locale, "request.placed", &args)
    } else {
        catalogue.text(locale, "request.placed_not_released", &args)
    };
    if let Some(name) = profile {
        text.append("\n");
        text.append(
            with_one(catalogue, locale, "request.profile", "profile", name.as_str()).as_str(),
        );
    }
    text
}

impl Dialog {
    fn down(&self, locale: Locale) -> (turn: Turn)
        ensures
            answers_with(turn, self.catalogue, locale, "error.seerr_down"@, Seq::empty()),
    {
        say(plain(&self.catalogue, locale, "error.seerr_down"))
    }

    fn confirm(
        &self,
        from: Aci,
        locale: Locale,
        username: String,
        id: i64,
        hit: Hit,
        user: SeerrUserId,
        profile: Option<String>,
    ) -> (turn: Turn)
        ensures
            confirms(
                *self,
                from@,
                locale,
                username@,
                id,
                hit,
                user,
                opt_view(profile),
                *self,
                turn,
            ),
    {
        if self.has_insight && hit.kind == MediaKind::Movie {
            let stage = WaitingFor::PlacedWish { id, title: hit.title, profile };
            return Turn::Call {
                call: Call::Pending(user),
                waiting: Waiting { from, locale, username, stage },
            };
        }
        say(
            placed_text(&self.catalogue, locale, hit.title.as_str(), id, true, &profile),
        )
    }

    /// Takes what came of the work that a message asked for.
    pub fn resume(
        &mut self,
        waiting: Waiting,
        reply: Reply,
        notices: Option<&Notices>,
        now: Timestamp,
        tick: u64,
    ) -> (turn: Turn)
        ensures
            resumed(
                *old(self),
                waiting,
                reply,
                opt_record(notices),
                now,
                tick,
                *final(self),
                turn,
            ),
    {
        let from = waiting.from;
        let locale = waiting.locale;
        let username = waiting.username;
        match waiting.stage {
            WaitingFor::Hits { query, kind, page } => {
                let hits = match reply {
                    Reply::Hits(Some(hits)) => hits,
                    _ => {
                        return self.down(locale);
                    },
                };
                if hits.len() == 0 {
                    return if page > 1 {
                        say(plain(&self.catalogue, locale, "search.no_more"))
                    } else {
                        say(plain(&self.catalogue, locale, "search.none"))
                    };
                }
                let listing = render(&self.catalogue, locale, &hits);
                self.conversations.insert(
                    from.0,
                    Conversation::Results { query, kind, page, hits, at: tick },
                );
                say(listing)
            },
            WaitingFor::Profiles { hit, seasons } => {
                let listed = match reply {
                    Reply::Profiles(Some(list)) => list,
                    _ => Vec::new(),
                };
                let options = offer(&self.quality_profiles, &listed);
                if options.len() == 0 {
                    return ask_user(
                        &from,
                        locale,
                        username.as_str(),
                        WaitingFor::UserToPlace { hit, seasons, profile: None, listed },
                    );
                }
                let question = profile_question(
                    &self.catalogue,
                    locale,
                    hit.title.as_str(),
                    &options,
                );
                self.conversations.insert(
                    from.0,
                    Conversation::Profile { hit, seasons, listed, at: tick },
                );
                say(question)
            },
            WaitingFor::UserToPlace { hit, seasons, profile, listed } => {
                let user = match reply {
                    Reply::User(Some(user)) => user,
                    _ => {
                        return self.down(locale);
                    },
                };
                self.conversations.remove(&from.0);
                Turn::Call {
                    call: Call::Place { hit: hit.clone(), seasons, user, profile },
                    waiting: Waiting {
                        from,
                        locale,
                        username,
                        stage: WaitingFor::Placed { hit, user, listed },
                    },
                }
            },
            WaitingFor::Placed { hit, user, listed } => {
                let id = match reply {
                    Reply::Placed(Some(id)) => id,
                    _ => {
                        return self.down(locale);
                    },
                };
                if listed.len() == 0 {
                    return self.confirm(from, locale, username, id, hit, user, None);
                }
                Turn::Call {
                    call: Call::ProfileOf(id),
                    waiting: Waiting {
                        from,
                        locale,
                        username,
                        stage: WaitingFor::ProfileKept { id, hit, user, listed },
                    },
                }
            },
            WaitingFor::ProfileKept { id, hit, user, listed } => {
                let kept = match reply {
                    Reply::ProfileIs(Some(profile)) => match find_profile(&listed, profile) {
                        Some(found) => Some(found.name.clone()),
                        None => None,
                    },
                    _ => None,
                };
                self.confirm(from, locale, username, id, hit, user, kept)
            },
            WaitingFor::PlacedWish { id, title, profile } => {
                let arr_id = match reply {
                    Reply::Pending(Some(wishes)) => find_arr_id(&wishes, id),
                    _ => None,
                };
                match arr_id {
                    Some(arr_id) => Turn::Call {
                        call: Call::Movie(arr_id),
                        waiting: Waiting {
                            from,
                            locale,
                            username,
                            stage: WaitingFor::PlacedFilm { id, title, profile },
                        },
                    },
                    None => say(
                        placed_text(
                            &self.catalogue,
                            locale,
                            title.as_str(),
                            id,
                            true,
                            &profile,
                        ),
                    ),
                }
            },
            WaitingFor::PlacedFilm { id, title, profile } => {
                let released = match reply {
                    Reply::Movie(Some(movie)) => movie.is_available,
                    _ => true,
                };
                say(
                    placed_text(
                        &self.catalogue,
                        locale,
                        title.as_str(),
                        id,
                        released,
                        &profile,
                    ),
                )
            },
            WaitingFor::UserForStatus => match reply {
                Reply::User(Some(user)) => Turn::Call {
                    call: Call::Pending(user),
                    waiting: Waiting { from, locale, username, stage: WaitingFor::Wishes },
                },
                _ => self.down(locale),
            },
            WaitingFor::Wishes => {
                let wishes = match reply {
                    Reply::Pending(Some(wishes)) => wishes,
                    _ => {
                        return self.down(locale);
                    },
                };
                let listed = keep_listed(wishes, now);
                if listed.len() == 0 {
                    return say(plain(&self.catalogue, locale, "status.empty"));
                }
                Turn::Proceed(
                    Waiting {
                        from,
                        locale,
                        username,
                        stage: WaitingFor::Overview(Overview::new(listed)),
                    },
                )
            },
            WaitingFor::Overview(overview) => {
                let mut next = overview;
                let step = next.step(
                    &self.catalogue,
                    locale,
                    self.has_insight,
                    notices,
                    now,
                    reply,
                );
                match step {
                    OverviewStep::Do(call) => Turn::Call {
                        call,
                        waiting: Waiting {
                            from,
                            locale,
                            username,
                            stage: WaitingFor::Overview(next),
                        },
                    },
                    OverviewStep::Proceed => Turn::Proceed(
                        Waiting { from, locale, username, stage: WaitingFor::Overview(next) },
                    ),
                    OverviewStep::Done(text) => say(text),
                }
            },
            WaitingFor::UserToWithdraw { id } => match reply {
                Reply::User(Some(user)) => Turn::Call {
                    call: Call::Withdraw { id, user },
                    waiting: Waiting {
                        from,
                        locale,
                        username,
                        stage: WaitingFor::Withdrawn { id },
                    },
                },
                _ => self.down(locale),
            },
            WaitingFor::Withdrawn { id } => {
                let number = decimal_i64(id);
                let key = match reply {
                    Reply::Withdrawn(true) => "request.withdrawn",
                    _ => "request.unknown_id",
                };
                say(with_one(&self.catalogue, locale, key, "id", number.as_str()))
            },
        }
    }
}

/// Whether an answer is the one message to a stranger. It names the address
/// where they can enter themselves, if the catalogue's text mentions it.
pub open spec fn tells_where_to_go(d: Dialog, turn: Turn) -> bool {
    let key = "error.unknown_sender"@;
    let texts = d.catalogue.messages_in(Locale::De);
    &&& answers_with(turn, d.catalogue, Locale::De, key, seq![("url"@, d.settings_url@)])
    &&& texts.contains_key(key) && occurs(texts[key], seq!['{'] + "url"@ + seq!['}']) ==> occurs(
        d.catalogue.says(Locale::De, key, seq![("url"@, d.settings_url@)]),
        d.settings_url@,
    )
}

/// A stranger is told once where to go, and then left alone for an hour: the
/// first message is answered with that one message, and the second with
/// nothing. Neither asks anything of Seerr. Another stranger still gets their
/// own first answer.
pub proof fn law_a_stranger_is_told_once(
    d: Dialog,
    from: Seq<char>,
    first: Seq<char>,
    first_tick: u64,
    between: Dialog,
    first_turn: Turn,
    second: Seq<char>,
    second_tick: u64,
    after: Dialog,
    second_turn: Turn,
    other: Seq<char>,
    third: Seq<char>,
    third_tick: u64,
    later: Dialog,
    third_turn: Turn,
)
    requires
        handled(d, from, None, first, first_tick, between, first_turn),
        handled(between, from, None, second, second_tick, after, second_turn),
        handled(after, other, None, third, third_tick, later, third_turn),
        !still_quiet(d.told_strangers@, first_tick).contains_key(from),
        !still_quiet(d.told_strangers@, third_tick).contains_key(other),
        other != from,
        first_tick <= second_tick,
        second_tick - first_tick < STRANGER_QUIET,
    ensures
        tells_where_to_go(d, first_turn),
        answers(second_turn, Seq::empty()),
        tells_where_to_go(d, third_turn),
{
    let told = between.told_strangers@;
    assert(told[from] == first_tick);
    assert(told.contains_key(from));
    assert(still_quiet(told, second_tick).contains_key(from));
    let key = "error.unknown_sender"@;
    let texts = d.catalogue.messages_in(Locale::De);
    if texts.contains_key(key) && occurs(texts[key], seq!['{'] + "url"@ + seq!['}']) {
        law_a_mentioned_value_is_said(texts[key], "url"@, d.settings_url@);
    }
}

/// Whatever others write in the meantime, a stranger who was told is left
/// alone until the hour is over.
pub proof fn law_a_stranger_is_left_alone(
    d: Dialog,
    stranger: Seq<char>,
    told_at: u64,
    from: Seq<char>,
    member: Option<Member>,
    text: Seq<char>,
    tick: u64,
    after: Dialog,
    turn: Turn,
)
    requires
        handled(d, from, member, text, tick, after, turn),
        d.told_strangers@.contains_key(stranger),
        d.told_strangers@[stranger] == told_at,
        told_at <= tick,
        tick - told_at < STRANGER_QUIET,
    ensures
        after.told_strangers@.contains_key(stranger),
        after.told_strangers@[stranger] == told_at,
        from == stranger && member is None ==> answers(turn, Seq::empty()),
{
    assert(still_quiet(d.told_strangers@, tick).contains_key(stranger));
}

/// A list or a question that has grown stale is not answered to: nothing is
/// open then.
pub proof fn law_stale_is_closed(talks: Map<Seq<char>, Conversation>, from: Seq<char>, tick: u64)
    requires
        talks.contains_key(from) ==> !is_live(talks[from], tick),
    ensures
        open_with(talks, from, tick) == Open::Nothing,
{
}

/// A message alone places no request: whatever is said, the questions come
/// first.
pub proof fn law_a_message_places_nothing(
    d: Dialog,
    from: Seq<char>,
    member: Option<Member>,
    text: Seq<char>,
    tick: u64,
    after: Dialog,
    turn: Turn,
)
    requires
        handled(d, from, member, text, tick, after, turn),
    ensures
        turn matches Turn::Call { call, .. } ==> !(call is Place) && !(call is Withdraw)
            && !(call is Pending),
{
}

/// Whatever is placed, withdrawn or listed, it is in the name of the account
/// that Seerr has for the person who asked.
pub proof fn law_only_in_the_askers_name(
    d: Dialog,
    w: Waiting,
    reply: Reply,
    record: Option<NoticesView>,
    now: Timestamp,
    tick: u64,
    after: Dialog,
    turn: Turn,
)
    requires
        resumed(d, w, reply, record, now, tick, after, turn),
    ensures
        turn matches Turn::Call { call: Call::Place { user, .. }, .. } ==> reply == Reply::User(
            Some(user),
        ),
        turn matches Turn::Call { call: Call::Withdraw { user, .. }, .. } ==> reply
            == Reply::User(Some(user)),
        turn matches Turn::Call { call: Call::Pending(user), .. } ==> reply == Reply::User(
            Some(user),
        ) || (w.stage matches WaitingFor::Placed { user: placed, .. } && placed == user) || (
        w.stage matches WaitingFor::ProfileKept { user: kept, .. } && kept == user),
        turn matches Turn::Call { call: Call::User(name), .. } ==> name@ == w.username@,
{
}

/// A message touches nobody else's conversation.
pub proof fn law_conversations_are_kept_apart(
    d: Dialog,
    from: Seq<char>,
    member: Option<Member>,
    text: Seq<char>,
    tick: u64,
    after: Dialog,
    turn: Turn,
    other: Seq<char>,
)
    requires
        handled(d, from, member, text, tick, after, turn),
        other != from,
    ensures
        after.conversations@.contains_key(other) == d.conversations@.contains_key(other),
        d.conversations@.contains_key(other) ==> after.conversations@[other]
            == d.conversations@[other],
{
}

/// A wish never fails because a question could not be asked: without profiles
/// to offer, for whatever reason, the request goes its way with none.
pub proof fn law_a_wish_needs_no_profile(
    d: Dialog,
    w: Waiting,
    reply: Reply,
    record: Option<NoticesView>,
    now: Timestamp,
    tick: u64,
    after: Dialog,
    turn: Turn,
)
    requires
        w.stage is Profiles,
        !(reply is Profiles) || (reply matches Reply::Profiles(list) && (list is None
            || list->0@.len() == 0)),
        resumed(d, w, reply, record, now, tick, after, turn),
    ensures
        turn matches Turn::Call { call: Call::User(name), waiting } && name@ == w.username@ && (
        waiting.stage matches WaitingFor::UserToPlace { hit, profile, .. } && hit
            == w.stage->Profiles_hit && profile is None),
{
    let none = Seq::<QualityProfile>::empty();
    assert(offered(views(d.quality_profiles@), none).len() == 0) by {
        lemma_nothing_to_offer(views(d.quality_profiles@));
    }
    if let Reply::Profiles(Some(list)) = reply {
        assert(list@ =~= none);
    }
}

/// A profile that is asked for is one that Seerr lists: a number out of the
/// question that was asked, and never one that was typed.
pub proof fn law_a_profile_comes_from_the_question(
    d: Dialog,
    from: Seq<char>,
    member: Option<Member>,
    text: Seq<char>,
    tick: u64,
    after: Dialog,
    turn: Turn,
)
    requires
        handled(d, from, member, text, tick, after, turn),
    ensures
        turn matches Turn::Call { waiting, .. } ==> (waiting.stage matches WaitingFor::UserToPlace {
            profile: Some(id),
            listed,
            ..
        } ==> exists|i: int| 0 <= i < listed@.len() && (#[trigger] listed@[i]).id == id),
{
    let talks = d.conversations@;
    if talks.contains_key(from) {
        if let Conversation::Profile { listed, .. } = talks[from] {
            let configured = views(d.quality_profiles@);
            assert forall|k: int| 0 <= k < offered(configured, listed@).len() implies exists|i: int|
                0 <= i < listed@.len() && (#[trigger] listed@[i]).id == (#[trigger] offered(
                    configured,
                    listed@,
                )[k]).id by {
                law_only_known_profiles_are_offered(configured, listed@, k);
                let i = choose|i: int|
                    0 <= i < listed@.len() && listed@[i] == offered(configured, listed@)[k];
                assert(listed@[i].id == offered(configured, listed@)[k].id);
            }
        }
    }
}

/// How far a message is from its answer, as three numbers of which the first
/// counts most: the calls that are yet to come, the wishes that are yet to
/// come, and the lookups that the wish in turn may still cost.
pub open spec fn far_from_answer(stage: WaitingFor) -> (nat, nat, nat) {
    match stage {
        WaitingFor::Hits { .. } => (0, 0, 0),
        WaitingFor::Profiles { .. } => (5, 0, 0),
        WaitingFor::UserToPlace { .. } => (4, 0, 0),
        WaitingFor::Placed { .. } => (3, 0, 0),
        WaitingFor::ProfileKept { .. } => (2, 0, 0),
        WaitingFor::PlacedWish { .. } => (1, 0, 0),
        WaitingFor::PlacedFilm { .. } => (0, 0, 0),
        WaitingFor::UserForStatus => (2, 0, 0),
        WaitingFor::Wishes => (1, 0, 0),
        WaitingFor::Overview(o) => (
            0,
            if o.at < o.wishes@.len() {
                (o.wishes@.len() - o.at) as nat
            } else {
                0
            },
            stage_left(o.stage),
        ),
        WaitingFor::UserToWithdraw { .. } => (1, 0, 0),
        WaitingFor::Withdrawn { .. } => (0, 0, 0),
    }
}

/// Whether one distance is shorter than another.
pub open spec fn nearer(a: (nat, nat, nat), b: (nat, nat, nat)) -> bool {
    a.0 < b.0 || a.0 == b.0 && (a.1 < b.1 || a.1 == b.1 && a.2 < b.2)
}

/// Every message gets its answer, whatever the calls come back with: each one
/// brings it nearer.
pub proof fn law_a_message_gets_its_answer(
    d: Dialog,
    w: Waiting,
    reply: Reply,
    record: Option<NoticesView>,
    now: Timestamp,
    tick: u64,
    after: Dialog,
    turn: Turn,
)
    requires
        resumed(d, w, reply, record, now, tick, after, turn),
    ensures
        turn matches Turn::Call { waiting, .. } ==> nearer(
            far_from_answer(waiting.stage),
            far_from_answer(w.stage),
        ),
        turn matches Turn::Proceed(waiting) ==> nearer(
            far_from_answer(waiting.stage),
            far_from_answer(w.stage),
        ),
{
    if let WaitingFor::Overview(o) = w.stage {
        assert forall|next: Overview, step: OverviewStep| #[trigger]
            overview_stepped(
                d.catalogue,
                w.locale,
                d.has_insight,
                record,
                now,
                o,
                reply,
                next,
                step,
            ) implies (step is Done <==> o.at >= o.wishes@.len()) && (!(step is Done)
            ==> next.wishes == o.wishes && (next.at == o.at + 1 || (next.at == o.at && stage_left(
            next.stage,
        ) < stage_left(o.stage)))) by {
            law_an_overview_comes_to_its_end(
                d.catalogue,
                w.locale,
                d.has_insight,
                record,
                now,
                o,
                reply,
                next,
                step,
            );
        }
    }
}

} // verus!
