//! What a conversation comes to, said of the messages and of what Seerr
//! listed.

use crate::dialog::commands::{HeardView, Open, heard, withdrawn_id};
use crate::dialog::words::law_everything_else_is_a_title;
use crate::dialog::{
    Call, Conversation, Dialog, Reply, Turn, Waiting, WaitingFor, answers_with, arr_id_of, handled,
    resumed,
};
use crate::directory::Member;
use crate::i18n::Locale;
use crate::model::{Hit, MediaKind, QualityProfile, SeasonsView, Wish};
use crate::moment::Timestamp;
use crate::notices::NoticesView;
use crate::text::laws::law_a_written_number_is_read_back;
use crate::text::{decimal, decimal_int, lowercase, parsed_unsigned, trimmed, views};
use vstd::prelude::*;

verus! {

/// Whether a person has a list of results open that is at most ten minutes
/// old.
pub open spec fn has_a_list(d: Dialog, from: Seq<char>, tick: u64) -> bool {
    &&& d.conversations@.contains_key(from)
    &&& d.conversations@[from] matches Conversation::Results { at, .. } && tick - at
        <= 600_000_000_000
}

/// Whether a person is asked for seasons, for at most ten minutes.
pub open spec fn is_asked_for_seasons(d: Dialog, from: Seq<char>, tick: u64) -> bool {
    &&& d.conversations@.contains_key(from)
    &&& d.conversations@[from] matches Conversation::Seasons { at, .. } && tick - at
        <= 600_000_000_000
}

/// Whether a person is asked for a profile, for at most ten minutes.
pub open spec fn is_asked_for_a_profile(d: Dialog, from: Seq<char>, tick: u64) -> bool {
    &&& d.conversations@.contains_key(from)
    &&& d.conversations@[from] matches Conversation::Profile { at, .. } && tick - at
        <= 600_000_000_000
}

/// Whether somebody who may ask for things says a text, in whatever case and
/// with whatever white space around it.
pub open spec fn says(member: Option<Member>, text: Seq<char>, said: Seq<char>) -> bool {
    (member matches Some(m) && m.allowed) && lowercase(trimmed(text)) == said
}

/// Whether somebody who may ask for things says a number. Small and large
/// letters make no difference to digits.
pub open spec fn says_number(member: Option<Member>, text: Seq<char>, number: nat) -> bool {
    &&& member matches Some(m) && m.allowed
    &&& trimmed(text) == decimal(number)
    &&& lowercase(trimmed(text)) == trimmed(text)
}

proof fn lemma_a_number_is_no_command(number: nat)
    ensures
        decimal(number) != "/hilfe"@,
        decimal(number) != "/help"@,
        decimal(number) != "/abbruch"@,
        decimal(number) != "/cancel"@,
{
    law_a_written_number_is_read_back(number, number);
    reveal_strlit("/hilfe");
    reveal_strlit("/help");
    reveal_strlit("/abbruch");
    reveal_strlit("/cancel");
    assert("/hilfe"@[0] == '/');
    assert("/help"@[0] == '/');
    assert("/abbruch"@[0] == '/');
    assert("/cancel"@[0] == '/');
}

/// A number out of an open list means the result with that number. One that
/// is there already is answered with that, under its title, and the list is
/// closed; nothing is asked of Seerr. A series is asked for its seasons. For
/// a film the profiles are looked up. A number that the list does not have is
/// not understood, and the list stays open.
pub proof fn law_a_number_means_its_result(
    d: Dialog,
    from: Seq<char>,
    member: Option<Member>,
    text: Seq<char>,
    number: nat,
    tick: u64,
    after: Dialog,
    turn: Turn,
)
    requires
        has_a_list(d, from, tick),
        says_number(member, text, number),
        number <= usize::MAX,
        handled(d, from, member, text, tick, after, turn),
    ensures
        ({
            let hits = d.conversations@[from]->hits@;
            let locale = member->0.locale;
            if 1 <= number <= hits.len() {
                let hit = hits[number - 1];
                if hit.already {
                    &&& turn matches Turn::Say(texts) && views(texts@) == seq![
                        d.catalogue.says(locale, "request.already"@, seq![("title"@, hit.title@)]),
                    ]
                    &&& !after.conversations@.contains_key(from)
                } else if hit.kind == MediaKind::Tv {
                    &&& turn matches Turn::Say(texts) && views(texts@) == seq![
                        d.catalogue.says(
                            locale,
                            "request.seasons_question"@,
                            seq![("title"@, hit.title@)],
                        ),
                    ]
                    &&& after.conversations@.contains_key(from)
                    &&& after.conversations@[from] == Conversation::Seasons { hit, at: tick }
                } else {
                    &&& turn matches Turn::Call { call: Call::Profiles(kind), waiting }
                    &&& kind == MediaKind::Movie
                    &&& waiting.from@ == from && waiting.locale == locale && waiting.username@
                        == member->0.authentik_username@
                    &&& waiting.stage matches WaitingFor::Profiles { hit: picked, seasons }
                    &&& picked == hit && seasons@ == SeasonsView::NotApplicable
                }
            } else {
                &&& turn matches Turn::Say(texts) && views(texts@) == seq![
                    d.catalogue.says(locale, "error.not_understood"@, Seq::empty()),
                ]
                &&& after.conversations@ == d.conversations@
            }
        }),
{
    lemma_a_number_is_no_command(number);
    law_a_written_number_is_read_back(number, usize::MAX as nat);
}

/// Whether something is one of the results, and not there yet.
pub open spec fn is_wanted_from(hits: Seq<Hit>, hit: Hit) -> bool {
    !hit.already && exists|i: int| 0 <= i < hits.len() && #[trigger] hits[i] == hit
}

/// Nothing out of a list is asked for that is there already. Whatever
/// somebody with an open list writes, if the answer is on its way to a
/// request, or is the question for seasons, it is about a result of that list
/// that is not there yet. The only other thing that is asked of Seerr is
/// another search or the account of the person.
pub proof fn law_what_is_there_is_not_asked_for(
    d: Dialog,
    from: Seq<char>,
    member: Option<Member>,
    text: Seq<char>,
    tick: u64,
    after: Dialog,
    turn: Turn,
)
    requires
        d.conversations@.contains_key(from),
        d.conversations@[from] is Results,
        handled(d, from, member, text, tick, after, turn),
    ensures
        ({
            let hits = d.conversations@[from]->hits@;
            &&& turn matches Turn::Call { call, waiting } ==> match waiting.stage {
                WaitingFor::Profiles { hit, .. } => is_wanted_from(hits, hit) && call
                    == Call::Profiles(hit.kind),
                WaitingFor::Hits { .. } => call is Search,
                WaitingFor::UserForStatus => call is User,
                WaitingFor::UserToWithdraw { .. } => call is User,
                _ => false,
            }
            &&& !(turn is Proceed)
            &&& after.conversations@.contains_key(from) ==> match after.conversations@[from] {
                Conversation::Seasons { hit, .. } => is_wanted_from(hits, hit),
                Conversation::Profile { .. } => false,
                other => other == d.conversations@[from],
            }
        }),
{
    if let Some(m) = member {
        let said = trimmed(text);
        let open = crate::dialog::open_with(d.conversations@, from, tick);
        if let HeardView::Choice(choice) = heard(said, lowercase(said), open) {
            let hits = d.conversations@[from]->hits@;
            if 1 <= choice <= hits.len() {
                assert(hits[choice - 1] == hits[choice - 1]);
            }
        }
    }
}

/// Asking for more repeats the search that the open list came from, one page
/// on. Without an open list there is nothing to have more of.
pub proof fn law_more_is_the_next_page(
    d: Dialog,
    from: Seq<char>,
    member: Option<Member>,
    text: Seq<char>,
    tick: u64,
    after: Dialog,
    turn: Turn,
)
    requires
        says(member, text, "m"@) || says(member, text, "mehr"@) || says(member, text, "more"@),
        parsed_unsigned(trimmed(text), usize::MAX as nat) is None,
        handled(d, from, member, text, tick, after, turn),
    ensures
        has_a_list(d, from, tick) ==> {
            &&& d.conversations@[from] matches Conversation::Results { query, kind, page, .. }
            &&& turn matches Turn::Call { call: Call::Search { query: q, kind: k, page: p }, waiting }
            &&& q@ == query@ && k == kind && (page < u32::MAX ==> p == page + 1)
            &&& waiting.stage matches WaitingFor::Hits { query: wq, kind: wk, page: wp }
            &&& wq@ == query@ && wk == kind && wp == p
            &&& after.conversations@ == d.conversations@
        },
        !d.conversations@.contains_key(from) ==> answers_with(
            turn,
            d.catalogue,
            member->0.locale,
            "error.not_understood"@,
            Seq::empty(),
        ),
{
    reveal_strlit("m");
    reveal_strlit("mehr");
    reveal_strlit("more");
    reveal_strlit("/hilfe");
    reveal_strlit("/help");
    reveal_strlit("/abbruch");
    reveal_strlit("/cancel");
    assert("m"@[0] == 'm' && "mehr"@[0] == 'm' && "more"@[0] == 'm');
    assert("/hilfe"@[0] == '/' && "/help"@[0] == '/' && "/abbruch"@[0] == '/' && "/cancel"@[0]
        == '/');
}

/// Cancelling ends whatever is open, without a word, and help is given
/// without ending anything.
pub proof fn law_the_ways_out(
    d: Dialog,
    from: Seq<char>,
    member: Option<Member>,
    text: Seq<char>,
    tick: u64,
    after: Dialog,
    turn: Turn,
)
    requires
        handled(d, from, member, text, tick, after, turn),
    ensures
        says(member, text, "/abbruch"@) || says(member, text, "/cancel"@) ==> (turn
            matches Turn::Say(texts) && texts@.len() == 0)
            && !after.conversations@.contains_key(from),
        says(member, text, "/hilfe"@) || says(member, text, "/help"@) ==> (turn
            matches Turn::Say(texts) && views(texts@) == seq![
            d.catalogue.says(member->0.locale, "help.body"@, Seq::empty()),
        ]) && (parsed_unsigned(trimmed(text), usize::MAX as nat) is None
            ==> after.conversations@ == d.conversations@),
{
    reveal_strlit("/hilfe");
    reveal_strlit("/help");
    reveal_strlit("/abbruch");
    reveal_strlit("/cancel");
    assert("/hilfe"@[1] == 'h' && "/help"@[1] == 'h');
    assert("/abbruch"@[1] == 'a' && "/cancel"@[1] == 'c');
    if turn is Say {
        assert(views(turn->Say_0@).len() == turn->Say_0@.len());
    }
    let said = trimmed(text);
    assert(heard(said, "/hilfe"@, Open::Nothing) == HeardView::Help);
    assert(heard(said, "/help"@, Open::Nothing) == HeardView::Help);
}

/// Whether nothing is open with a person, or a list at most.
pub open spec fn is_not_asked_anything(d: Dialog, from: Seq<char>) -> bool {
    d.conversations@.contains_key(from) ==> d.conversations@[from] is Results
        || d.conversations@[from] is Idle
}

/// Whoever wants to know how it is going, or wants a wish withdrawn, is looked
/// up in Seerr by their own name; a withdrawal without a number is not
/// understood.
pub proof fn law_how_it_is_going(
    d: Dialog,
    from: Seq<char>,
    member: Option<Member>,
    text: Seq<char>,
    tick: u64,
    after: Dialog,
    turn: Turn,
)
    requires
        is_not_asked_anything(d, from),
        parsed_unsigned(trimmed(text), usize::MAX as nat) is None,
        handled(d, from, member, text, tick, after, turn),
    ensures
        says(member, text, "/status"@) ==> (turn matches Turn::Call {
            call: Call::User(name),
            waiting,
        } && name@ == member->0.authentik_username@ && waiting.from@ == from && waiting.locale
            == member->0.locale && waiting.stage is UserForStatus) && after.conversations@
            == d.conversations@,
        says(member, text, "/weg"@) || says(member, text, "/withdraw"@) || (member matches Some(m)
            && m.allowed && ("/weg "@.is_prefix_of(lowercase(trimmed(text)))
            || "/withdraw "@.is_prefix_of(lowercase(trimmed(text))))) ==> match withdrawn_id(
            trimmed(text),
        ) {
            Some(wanted) => turn matches Turn::Call { call: Call::User(name), waiting } && name@
                == member->0.authentik_username@ && waiting.from@ == from && waiting.stage == (
            WaitingFor::UserToWithdraw { id: wanted }),
            None => turn matches Turn::Say(texts) && views(texts@) == seq![
                d.catalogue.says(member->0.locale, "error.not_understood"@, Seq::empty()),
            ],
        },
{
    let said = trimmed(text);
    let lowered = lowercase(said);
    reveal_strlit("m");
    reveal_strlit("mehr");
    reveal_strlit("more");
    reveal_strlit("/status");
    reveal_strlit("/film ");
    reveal_strlit("/movie ");
    reveal_strlit("/serie ");
    reveal_strlit("/series ");
    reveal_strlit("/weg");
    reveal_strlit("/withdraw");
    reveal_strlit("/weg ");
    reveal_strlit("/withdraw ");
    reveal_strlit("/hilfe");
    reveal_strlit("/help");
    reveal_strlit("/abbruch");
    reveal_strlit("/cancel");
    assert("/hilfe"@[1] == 'h' && "/help"@[1] == 'h' && "/abbruch"@[1] == 'a' && "/cancel"@[1]
        == 'c');
    assert("m"@[0] == 'm' && "mehr"@[0] == 'm' && "more"@[0] == 'm');
    assert("/status"@[1] == 's' && "/status"@[0] == '/');
    assert("/weg"@[1] == 'w' && "/withdraw"@[1] == 'w' && "/weg "@[1] == 'w' && "/withdraw "@[1]
        == 'w');
    assert("/weg"@[0] == '/' && "/withdraw"@[0] == '/' && "/weg "@[0] == '/' && "/withdraw "@[0]
        == '/');
    assert("/film "@[1] == 'f' && "/movie "@[1] == 'm' && "/serie "@[1] == 's' && "/series "@[1]
        == 's');
    let films = seq!["/film "@, "/movie "@];
    let series = seq!["/serie "@, "/series "@];
    assert(films.skip(1)[0] == "/movie "@);
    assert(series.skip(1)[0] == "/series "@);
    assert(films.skip(1).skip(1).len() == 0);
    assert(series.skip(1).skip(1).len() == 0);
    reveal_with_fuel(crate::dialog::commands::first_prefix, 3);
    if lowered.len() > 1 && lowered[0] == '/' && lowered[1] == 'w' {
        assert(crate::dialog::commands::first_prefix(lowered, films) is None);
        assert(crate::dialog::commands::first_prefix(lowered, series) is None);
        assert(heard(said, lowered, Open::Nothing) is Withdraw || !("/weg "@.is_prefix_of(lowered)
            || "/withdraw "@.is_prefix_of(lowered) || lowered == "/weg"@ || lowered
            == "/withdraw"@));
    }
    let open = crate::dialog::open_with(d.conversations@, from, tick);
    assert(open == Open::Nothing || open == Open::Results);
}

/// What is no command and no number is a title: it is searched for as it was
/// written, without the white space around it, from the first page on.
pub proof fn law_a_title_is_searched_for(
    d: Dialog,
    from: Seq<char>,
    member: Option<Member>,
    text: Seq<char>,
    tick: u64,
    after: Dialog,
    turn: Turn,
)
    requires
        is_not_asked_anything(d, from),
        parsed_unsigned(trimmed(text), usize::MAX as nat) is None,
        member matches Some(m) && m.allowed,
        lowercase(trimmed(text)).len() > 0,
        lowercase(trimmed(text))[0] != '/',
        lowercase(trimmed(text)) != "m"@,
        lowercase(trimmed(text)) != "mehr"@,
        lowercase(trimmed(text)) != "more"@,
        handled(d, from, member, text, tick, after, turn),
    ensures
        turn matches Turn::Call { call: Call::Search { query, kind, page }, waiting } && query@
            == trimmed(text) && kind is None && page == 1 && waiting.from@ == from
            && waiting.locale == member->0.locale,
{
    let said = trimmed(text);
    let lowered = lowercase(said);
    law_everything_else_is_a_title(said, lowered);
    let open = crate::dialog::open_with(d.conversations@, from, tick);
    assert(open == Open::Nothing || open == Open::Results);
    assert(heard(said, lowered, Open::Results) == heard(said, lowered, Open::Nothing));
}

/// Whether a message is on its way to a request for something, in the name of
/// the person who writes it.
pub open spec fn goes_on_to_profiles(
    turn: Turn,
    from: Seq<char>,
    member: Member,
    hit: Hit,
    seasons: SeasonsView,
) -> bool {
    &&& turn matches Turn::Call { call: Call::Profiles(kind), waiting }
    &&& kind == hit.kind
    &&& waiting.from@ == from && waiting.locale == member.locale && waiting.username@
        == member.authentik_username@
    &&& waiting.stage matches WaitingFor::Profiles { hit: h, seasons: s }
    &&& h == hit && s@ == seasons
}

/// Whoever is asked for seasons and wants them all gets them all, of the
/// series that the question was about; and a single season by its number, if
/// the series has it. A season that it does not have leads to the question
/// once more.
pub proof fn law_seasons_are_answered(
    d: Dialog,
    from: Seq<char>,
    member: Option<Member>,
    text: Seq<char>,
    number: nat,
    tick: u64,
    after: Dialog,
    turn: Turn,
)
    requires
        is_asked_for_seasons(d, from, tick),
        handled(d, from, member, text, tick, after, turn),
    ensures
        ({
            let hit = d.conversations@[from]->Seasons_hit;
            &&& says(member, text, "alle"@) || says(member, text, "all"@) ==> goes_on_to_profiles(
                turn,
                from,
                member->0,
                hit,
                SeasonsView::All,
            )
            &&& says_number(member, text, number) && 1 <= number <= hit.seasons
                ==> goes_on_to_profiles(
                turn,
                from,
                member->0,
                hit,
                SeasonsView::Only(seq![number as u16]),
            )
            &&& says_number(member, text, number) && !(1 <= number <= hit.seasons) ==> (turn
                matches Turn::Say(texts) && views(texts@) == seq![
                d.catalogue.says(
                    member->0.locale,
                    "request.seasons_question"@,
                    seq![("title"@, hit.title@)],
                ),
            ]) && after.conversations@ == d.conversations@
        }),
{
    reveal_strlit("alle");
    reveal_strlit("all");
    reveal_strlit("/hilfe");
    reveal_strlit("/help");
    reveal_strlit("/abbruch");
    reveal_strlit("/cancel");
    assert("alle"@[0] == 'a' && "all"@[0] == 'a');
    assert("/hilfe"@[0] == '/' && "/help"@[0] == '/' && "/abbruch"@[0] == '/' && "/cancel"@[0]
        == '/');
    if says_number(member, text, number) {
        let hit = d.conversations@[from]->Seasons_hit;
        let said = decimal(number);
        lemma_a_number_is_no_command(number);
        lemma_a_number_is_a_word(number);
        law_a_written_number_is_read_back(number, u16::MAX as nat);
        let list = crate::text::words(said);
        assert(list == seq![said]);
        assert(list[0] == said);
        if 1 <= number <= hit.seasons {
            assert(list.map_values(
                |w: Seq<char>| crate::dialog::commands::season_word(w, hit.seasons)->0,
            ) =~= seq![number as u16]);
        }
    }
}

proof fn lemma_a_number_is_a_word(number: nat)
    ensures
        crate::text::words(decimal(number)) == seq![decimal(number)],
        decimal(number) != "alle"@,
        decimal(number) != "all"@,
{
    let said = decimal(number);
    law_a_written_number_is_read_back(number, number);
    reveal_strlit("alle");
    reveal_strlit("all");
    assert("alle"@[0] == 'a' && "all"@[0] == 'a');
    crate::text::laws::law_a_number_is_read_digit_by_digit(said, number, 0);
    assert forall|i: int| 0 <= i < said.len() implies !crate::text::white_space(
        #[trigger] said[i],
    ) by {
        if i > 0 {
            assert('0' <= said[i] <= '9');
        }
    }
    crate::text::laws::law_a_text_falls_into_its_words(Seq::empty(), said, Seq::empty());
    assert(Seq::<char>::empty() + said + Seq::<char>::empty() =~= said);
    assert(seq![said] + crate::text::words(Seq::empty()) =~= seq![said]);
}

/// A number that answers the question for a profile means the profile that
/// stood under it: the one that is asked for is the one that was offered, for
/// the title and the seasons that the question was about. Everything else
/// leads to the question once more.
pub proof fn law_a_number_means_its_profile(
    d: Dialog,
    from: Seq<char>,
    member: Option<Member>,
    text: Seq<char>,
    number: nat,
    tick: u64,
    after: Dialog,
    turn: Turn,
)
    requires
        is_asked_for_a_profile(d, from, tick),
        says_number(member, text, number),
        number <= usize::MAX,
        handled(d, from, member, text, tick, after, turn),
    ensures
        ({
            let asked = d.conversations@[from];
            let options = crate::dialog::listing::offered(
                views(d.quality_profiles@),
                asked->listed@,
            );
            if 1 <= number <= options.len() {
                &&& turn matches Turn::Call { call: Call::User(name), waiting }
                &&& name@ == member->0.authentik_username@
                &&& waiting.from@ == from
                &&& waiting.stage matches WaitingFor::UserToPlace {
                    hit,
                    seasons,
                    profile,
                    listed,
                }
                &&& hit == asked->Profile_hit && seasons@ == asked->seasons@ && profile == Some(
                    options[number - 1].id,
                ) && listed@ == asked->listed@
            } else {
                &&& turn is Say
                &&& after.conversations@ == d.conversations@
            }
        }),
{
    lemma_a_number_is_no_command(number);
    law_a_written_number_is_read_back(number, usize::MAX as nat);
}

/// A list or a question stays open for ten minutes to the nanosecond, and no
/// longer. A number is then searched for like any other words.
pub proof fn law_a_list_stays_open_for_ten_minutes(
    d: Dialog,
    from: Seq<char>,
    member: Option<Member>,
    text: Seq<char>,
    number: nat,
    tick: u64,
    after: Dialog,
    turn: Turn,
)
    requires
        d.conversations@.contains_key(from),
        match d.conversations@[from] {
            Conversation::Idle => false,
            Conversation::Results { at, .. } => tick - at > 600_000_000_000,
            Conversation::Seasons { at, .. } => tick - at > 600_000_000_000,
            Conversation::Profile { at, .. } => tick - at > 600_000_000_000,
        },
        says_number(member, text, number),
        number <= usize::MAX,
        handled(d, from, member, text, tick, after, turn),
    ensures
        turn matches Turn::Call { call: Call::Search { query, kind, page }, .. } && query@
            == decimal(number) && kind is None && page == 1,
        !after.conversations@.contains_key(from),
{
    lemma_a_number_is_no_command(number);
    law_a_written_number_is_read_back(number, usize::MAX as nat);
    lemma_a_number_is_searched_for(number);
}

proof fn lemma_a_number_is_searched_for(number: nat)
    ensures
        heard(decimal(number), decimal(number), Open::Nothing) == (HeardView::Find {
            query: decimal(number),
            kind: None,
        }),
{
    let said = decimal(number);
    lemma_a_number_is_no_command(number);
    law_a_written_number_is_read_back(number, number);
    reveal_strlit("m");
    reveal_strlit("mehr");
    reveal_strlit("more");
    reveal_strlit("/status");
    reveal_strlit("/film ");
    reveal_strlit("/movie ");
    reveal_strlit("/serie ");
    reveal_strlit("/series ");
    reveal_strlit("/weg");
    reveal_strlit("/withdraw");
    reveal_strlit("/weg ");
    reveal_strlit("/withdraw ");
    assert("m"@[0] == 'm' && "mehr"@[0] == 'm' && "more"@[0] == 'm');
    assert("/status"@[0] == '/' && "/weg"@[0] == '/' && "/withdraw"@[0] == '/');
    assert("/weg "@[0] == '/' && "/withdraw "@[0] == '/');
    assert("/film "@[0] == '/' && "/movie "@[0] == '/');
    assert("/serie "@[0] == '/' && "/series "@[0] == '/');
    let films = seq!["/film "@, "/movie "@];
    assert(films.skip(1) =~= seq!["/movie "@]);
    assert(films.skip(1).skip(1) =~= Seq::<Seq<char>>::empty());
    reveal_with_fuel(crate::dialog::commands::first_prefix, 3);
    assert(crate::dialog::commands::first_prefix(said, films) is None);
    let series = seq!["/serie "@, "/series "@];
    assert(series.skip(1) =~= seq!["/series "@]);
    assert(series.skip(1).skip(1) =~= Seq::<Seq<char>>::empty());
    assert(crate::dialog::commands::first_prefix(said, series) is None);
}

/// Whether what a person has open is more than ten minutes old.
pub open spec fn is_left_open(d: Dialog, from: Seq<char>, tick: u64) -> bool {
    &&& d.conversations@.contains_key(from)
    &&& match d.conversations@[from] {
        Conversation::Idle => false,
        Conversation::Results { at, .. } => tick - at > 600_000_000_000,
        Conversation::Seasons { at, .. } => tick - at > 600_000_000_000,
        Conversation::Profile { at, .. } => tick - at > 600_000_000_000,
    }
}

/// What was left open too long is forgotten by whatever would have answered
/// it, and is still there after anything else. A question would have been
/// answered by everything but the ways out; a list by a number or by asking
/// for more.
pub proof fn law_what_was_left_open_is_forgotten_when_answered(
    d: Dialog,
    from: Seq<char>,
    member: Option<Member>,
    text: Seq<char>,
    tick: u64,
    after: Dialog,
    turn: Turn,
)
    requires
        is_left_open(d, from, tick),
        member matches Some(m) && m.allowed,
        handled(d, from, member, text, tick, after, turn),
    ensures
        ({
            let lowered = lowercase(trimmed(text));
            let is_way_out = lowered == "/hilfe"@ || lowered == "/help"@ || lowered == "/abbruch"@
                || lowered == "/cancel"@;
            let answers_a_list = parsed_unsigned(trimmed(text), usize::MAX as nat)
                is Some || !is_way_out && (lowered == "m"@ || lowered == "mehr"@ || lowered
                == "more"@);
            &&& !(d.conversations@[from] is Results) && !is_way_out
                ==> !after.conversations@.contains_key(from)
            &&& d.conversations@[from] is Results && answers_a_list
                ==> !after.conversations@.contains_key(from)
            &&& d.conversations@[from] is Results && !answers_a_list && lowered != "/abbruch"@
                && lowered != "/cancel"@ ==> after.conversations@ == d.conversations@
        }),
{
    let said = trimmed(text);
    let lowered = lowercase(said);
    assert(crate::dialog::open_with(d.conversations@, from, tick) == Open::Nothing);
    let meant = heard(said, lowered, Open::Nothing);
    assert(meant is Help <==> lowered == "/hilfe"@ || lowered == "/help"@);
    assert(meant is Cancel ==> lowered == "/abbruch"@ || lowered == "/cancel"@);
}

/// What a search found is kept as it was found, with the search that found
/// it, and from then on the numbers mean these results. Nothing found closes
/// nothing, and a later page says so in other words than the first.
pub proof fn law_what_was_found_is_kept(
    d: Dialog,
    w: Waiting,
    reply: Reply,
    record: Option<NoticesView>,
    now: Timestamp,
    tick: u64,
    after: Dialog,
    turn: Turn,
)
    requires
        w.stage is Hits,
        resumed(d, w, reply, record, now, tick, after, turn),
    ensures
        match reply {
            Reply::Hits(Some(hits)) => {
                &&& hits@.len() > 0 ==> {
                    &&& has_a_list(after, w.from@, tick)
                    &&& after.conversations@[w.from@] == Conversation::Results {
                        query: w.stage->Hits_query,
                        kind: w.stage->Hits_kind,
                        page: w.stage->Hits_page,
                        hits,
                        at: tick,
                    }
                    &&& turn matches Turn::Say(texts) && texts@.len() == 1
                }
                &&& hits@.len() == 0 ==> {
                    &&& after == d
                    &&& turn matches Turn::Say(texts) && views(texts@) == seq![
                        d.catalogue.says(
                            w.locale,
                            if w.stage->Hits_page > 1 {
                                "search.no_more"@
                            } else {
                                "search.none"@
                            },
                            Seq::empty(),
                        ),
                    ]
                }
            },
            _ => after == d && (turn matches Turn::Say(texts) && views(texts@) == seq![
                d.catalogue.says(w.locale, "error.seerr_down"@, Seq::empty()),
            ]),
        },
{
    if turn is Say {
        assert(views(turn->Say_0@).len() == turn->Say_0@.len());
    }
}

/// What is placed is what was asked for: the title, the seasons and the
/// profile that the person chose, in the name of their own account; and with
/// that the conversation is over. Without an account nothing is placed.
pub proof fn law_what_is_placed_was_asked_for(
    d: Dialog,
    w: Waiting,
    reply: Reply,
    record: Option<NoticesView>,
    now: Timestamp,
    tick: u64,
    after: Dialog,
    turn: Turn,
)
    requires
        resumed(d, w, reply, record, now, tick, after, turn),
    ensures
        (turn matches Turn::Call { call: Call::Place { hit, seasons, user, profile }, .. })
            ==> (w.stage matches WaitingFor::UserToPlace {
            hit: h,
            seasons: s,
            profile: p,
            ..
        } && turn->call->Place_hit == h && turn->call->seasons == s && turn->call->profile == p
            && reply == Reply::User(Some(turn->call->Place_user))
            && !after.conversations@.contains_key(w.from@)),
        w.stage is UserToPlace && (reply matches Reply::User(found) && found is Some) ==> (turn
            matches Turn::Call { call, .. } && call is Place),
        (turn matches Turn::Call { call: Call::Withdraw { .. }, .. }) ==> (w.stage
            matches WaitingFor::UserToWithdraw { id } && turn->call->Withdraw_id == id && reply
            == Reply::User(Some(turn->call->Withdraw_user))),
        w.stage is UserToWithdraw && (reply matches Reply::User(found) && found is Some) ==> (turn
            matches Turn::Call { call, .. } && call is Withdraw),
        w.stage is UserForStatus ==> (match reply {
            Reply::User(Some(user)) => turn matches Turn::Call { call: Call::Pending(asked), .. }
                && asked == user,
            _ => turn matches Turn::Say(texts) && views(texts@) == seq![
                d.catalogue.says(w.locale, "error.seerr_down"@, Seq::empty()),
            ],
        }),
{
}

/// A withdrawal that Seerr confirms is confirmed, with its number; every
/// other one is answered with that number as one that is not known.
pub proof fn law_a_withdrawal_is_answered(
    d: Dialog,
    w: Waiting,
    id: i64,
    reply: Reply,
    record: Option<NoticesView>,
    now: Timestamp,
    tick: u64,
    after: Dialog,
    turn: Turn,
)
    requires
        w.stage == (WaitingFor::Withdrawn { id }),
        resumed(d, w, reply, record, now, tick, after, turn),
    ensures
        turn matches Turn::Say(texts) && views(texts@) == seq![
            d.catalogue.says(
                w.locale,
                if reply == Reply::Withdrawn(true) {
                    "request.withdrawn"@
                } else {
                    "request.unknown_id"@
                },
                seq![("id"@, decimal_int(id as int))],
            ),
        ],
        after == d,
{
}

/// The first profile of a list with an id: the one that a confirmation names.
pub open spec fn is_first_with(listed: Seq<QualityProfile>, id: i64, i: int) -> bool {
    &&& 0 <= i < listed.len()
    &&& listed[i].id == id
    &&& forall|j: int| 0 <= j < i ==> (#[trigger] listed[j]).id != id
}

pub(crate) proof fn lemma_profile_with(listed: Seq<QualityProfile>, id: i64)
    ensures
        match crate::dialog::listing::profile_with(listed, id) {
            Some(found) => exists|i: int| #[trigger]
                is_first_with(listed, id, i) && listed[i] == found,
            None => forall|i: int| 0 <= i < listed.len() ==> (#[trigger] listed[i]).id != id,
        },
    decreases listed.len(),
{
    if listed.len() > 0 {
        if listed[0].id == id {
            assert(is_first_with(listed, id, 0));
        } else {
            let rest = listed.skip(1);
            lemma_profile_with(rest, id);
            if let Some(found) = crate::dialog::listing::profile_with(listed, id) {
                let i = choose|i: int| #[trigger] is_first_with(rest, id, i) && rest[i] == found;
                assert forall|j: int| 0 <= j < i + 1 implies (#[trigger] listed[j]).id != id by {
                    if j > 0 {
                        assert(rest[j - 1] == listed[j]);
                    }
                }
                assert(is_first_with(listed, id, i + 1));
            } else {
                assert forall|j: int| 0 <= j < listed.len() implies (#[trigger] listed[j]).id
                    != id by {
                    if j > 0 {
                        assert(rest[j - 1] == listed[j]);
                    }
                }
            }
        }
    }
}

/// The confirmation names the title, the number to withdraw it by, and the
/// profile that Seerr says the request has, if that is one of those it
/// listed. It says that a film is not out exactly where Radarr said so.
pub proof fn law_a_confirmation_says_what_was_kept(
    d: Dialog,
    w: Waiting,
    reply: Reply,
    record: Option<NoticesView>,
    now: Timestamp,
    tick: u64,
    after: Dialog,
    turn: Turn,
)
    requires
        resumed(d, w, reply, record, now, tick, after, turn),
    ensures
        w.stage matches WaitingFor::PlacedFilm { id, title, profile } ==> {
            let out = !(reply matches Reply::Movie(Some(movie)) && !movie.is_available);
            let sentence = d.catalogue.says(
                w.locale,
                if out {
                    "request.placed"@
                } else {
                    "request.placed_not_released"@
                },
                seq![("title"@, title@), ("id"@, decimal_int(id as int))],
            );
            turn matches Turn::Say(texts) && views(texts@) == seq![
                match profile {
                    Some(name) => sentence + "\n"@ + d.catalogue.says(
                        w.locale,
                        "request.profile"@,
                        seq![("profile"@, name@)],
                    ),
                    None => sentence,
                },
            ]
        },
        w.stage matches WaitingFor::ProfileKept { id, hit, user, listed } ==> (d.has_insight
            && hit.kind == MediaKind::Movie ==> {
            &&& turn matches Turn::Call { call: Call::Pending(asked), waiting }
            &&& asked == user
            &&& waiting.stage matches WaitingFor::PlacedWish { id: i, title, profile }
            &&& i == id && title@ == hit.title@
            &&& match reply {
                Reply::ProfileIs(Some(kept)) => match profile {
                    Some(name) => exists|n: int| #[trigger]
                        is_first_with(listed@, kept, n) && listed@[n].name@ == name@,
                    None => forall|n: int|
                        0 <= n < listed@.len() ==> (#[trigger] listed@[n]).id != kept,
                },
                _ => profile is None,
            }
        }),
        w.stage matches WaitingFor::Placed { hit, user, listed } ==> match reply {
            Reply::Placed(Some(id)) => listed@.len() > 0 ==> (turn matches Turn::Call {
                call: Call::ProfileOf(asked),
                waiting,
            } && asked == id && waiting.stage == (WaitingFor::ProfileKept {
                id,
                hit,
                user,
                listed,
            })),
            _ => turn matches Turn::Say(texts) && views(texts@) == seq![
                d.catalogue.says(w.locale, "error.seerr_down"@, Seq::empty()),
            ],
        },
{
    if let WaitingFor::ProfileKept { id, hit, user, listed } = w.stage {
        if let Reply::ProfileIs(Some(kept)) = reply {
            lemma_profile_with(listed@, kept);
        }
    }
}

/// Without a Radarr to ask, and for a series, a request is confirmed as soon
/// as Seerr has taken it and its profile is known, or there is none to know.
pub proof fn law_a_request_is_confirmed_at_once(
    d: Dialog,
    w: Waiting,
    reply: Reply,
    record: Option<NoticesView>,
    now: Timestamp,
    tick: u64,
    after: Dialog,
    turn: Turn,
)
    requires
        resumed(d, w, reply, record, now, tick, after, turn),
    ensures
        w.stage matches WaitingFor::ProfileKept { id, hit, .. } ==> (!d.has_insight || hit.kind
            == MediaKind::Tv ==> turn is Say),
        w.stage matches WaitingFor::Placed { hit, listed, .. } ==> (reply matches Reply::Placed(
            Some(id),
        ) ==> (listed@.len() == 0 && (!d.has_insight || hit.kind == MediaKind::Tv) ==> (turn
            matches Turn::Say(texts) && views(texts@) == seq![
            d.catalogue.says(
                w.locale,
                "request.placed"@,
                seq![("title"@, hit.title@), ("id"@, decimal_int(id as int))],
            ),
        ]))),
        w.stage matches WaitingFor::Placed { hit, user, listed } ==> (reply matches Reply::Placed(
            Some(id),
        ) ==> (listed@.len() == 0 && d.has_insight && hit.kind == MediaKind::Movie ==> (turn
            matches Turn::Call { call: Call::Pending(asked), .. } && asked == user))),
{
}

/// The first wish of a list with a number.
pub open spec fn is_first_numbered(wishes: Seq<Wish>, id: i64, i: int) -> bool {
    &&& 0 <= i < wishes.len()
    &&& wishes[i].id == id
    &&& forall|j: int| 0 <= j < i ==> (#[trigger] wishes[j]).id != id
}

/// Where a film that was just asked for is looked up, it is the one that
/// Seerr has under the number of the request.
pub proof fn law_the_placed_film_is_looked_up(
    d: Dialog,
    w: Waiting,
    reply: Reply,
    record: Option<NoticesView>,
    now: Timestamp,
    tick: u64,
    after: Dialog,
    turn: Turn,
    i: int,
)
    requires
        w.stage is PlacedWish,
        resumed(d, w, reply, record, now, tick, after, turn),
        reply matches Reply::Pending(Some(wishes)) && is_first_numbered(
            wishes@,
            w.stage->PlacedWish_id,
            i,
        ),
    ensures
        match reply->Pending_0->0@[i].arr_id {
            Some(arr_id) => turn matches Turn::Call { call, .. } && call == Call::Movie(arr_id),
            None => turn is Say,
        },
{
    lemma_arr_id(reply->Pending_0->0@, w.stage->PlacedWish_id, i);
}

proof fn lemma_arr_id(wishes: Seq<Wish>, id: i64, i: int)
    requires
        is_first_numbered(wishes, id, i),
    ensures
        arr_id_of(wishes, id) == wishes[i].arr_id,
    decreases i,
{
    if i > 0 {
        let rest = wishes.skip(1);
        assert forall|j: int| 0 <= j < i - 1 implies (#[trigger] rest[j]).id != id by {
            assert(wishes[j + 1] == rest[j]);
        }
        assert(wishes[0].id != id);
        lemma_arr_id(rest, id, i - 1);
    }
}

/// A stranger who was told is left alone for one hour to the nanosecond, and
/// is told again after it.
pub proof fn law_a_stranger_is_left_alone_for_an_hour(
    d: Dialog,
    from: Seq<char>,
    text: Seq<char>,
    tick: u64,
    after: Dialog,
    turn: Turn,
)
    requires
        d.told_strangers@.contains_key(from),
        handled(d, from, None, text, tick, after, turn),
    ensures
        tick - d.told_strangers@[from] < 3_600_000_000_000 ==> (turn matches Turn::Say(texts)
            && texts@.len() == 0) && after.told_strangers@.contains_key(from)
            && after.told_strangers@[from] == d.told_strangers@[from],
        tick - d.told_strangers@[from] >= 3_600_000_000_000 ==> (turn matches Turn::Say(texts)
            && views(texts@) == seq![
            d.catalogue.says(
                Locale::De,
                "error.unknown_sender"@,
                seq![("url"@, d.settings_url@)],
            ),
        ]) && after.told_strangers@.contains_key(from) && after.told_strangers@[from] == tick,
{
    if turn is Say {
        assert(views(turn->Say_0@).len() == turn->Say_0@.len());
    }
}

/// Somebody who is known and may ask for nothing gets one answer, in their
/// own language, whatever they write, and nothing is done for them.
pub proof fn law_without_the_group_nothing_is_done(
    d: Dialog,
    from: Seq<char>,
    member: Member,
    text: Seq<char>,
    tick: u64,
    after: Dialog,
    turn: Turn,
)
    requires
        !member.allowed,
        handled(d, from, Some(member), text, tick, after, turn),
    ensures
        after == d,
        turn matches Turn::Say(texts) && views(texts@) == seq![
            d.catalogue.says(
                member.locale,
                "error.not_allowed"@,
                seq![("operator"@, d.operator_name@)],
            ),
        ],
{
}

} // verus!
