//! The record of what the bot has already told whom about which wish.
//!
//! Kept apart from the directory of people: that one rebuilds itself after a
//! loss, this one does not. An emptied record would repeat every notice to
//! everybody.

use crate::model::Reason;
use crate::moment::Timestamp;
use crate::table::Table;
use vstd::prelude::*;

verus! {

/// The layout of the stored record that this version reads and writes.
pub const SCHEMA: u32 = 1;

/// Everything remembered about one wish.
#[derive(Clone, Debug)]
pub struct Note {
    pub title: Option<String>,
    pub first_seen: Timestamp,
    /// Whether a round has seen the film before it was out.
    pub seen_unreleased: bool,
    /// From when on the film counts as out.
    pub released_seen: Option<Timestamp>,
    pub reason: Option<Reason>,
    pub searched_at: Option<Timestamp>,
    /// When the hand-over was tried once more.
    pub retried_at: Option<Timestamp>,
    /// Class of notice to when that class was told, in the RFC 3339 format.
    pub told: Table<String, String>,
    pub last_notice: Option<Timestamp>,
}

/// Whether `note` is what is written down about a wish at its first sight.
pub open spec fn is_fresh(note: Note, now: Timestamp) -> bool {
    &&& note.title is None
    &&& note.first_seen == now
    &&& !note.seen_unreleased
    &&& note.released_seen is None
    &&& note.reason is None
    &&& note.searched_at is None
    &&& note.retried_at is None
    &&& note.told@ == Map::<Seq<char>, String>::empty()
    &&& note.last_notice is None
}

impl Note {
    /// The note of a wish that is seen for the first time.
    pub fn new(first_seen: Timestamp) -> (r: Note)
        ensures
            is_fresh(r, first_seen),
    {
        Note {
            title: None,
            first_seen,
            seen_unreleased: false,
            released_seen: None,
            reason: None,
            searched_at: None,
            retried_at: None,
            told: Table::new(),
            last_notice: None,
        }
    }
}

/// The record: one note per wish, and how often the indexers were searched on
/// which day.
#[derive(Clone, Debug)]
pub struct Notices {
    requests: Table<i64, Note>,
    search_day: Option<i64>,
    searches_today: u32,
}

/// What a [`Notices`] holds. `search_day` counts days in UTC.
pub struct NoticesView {
    pub notes: Map<i64, Note>,
    pub search_day: Option<i64>,
    pub searches_today: u32,
}

/// The stored record has a layout this version does not read.
#[derive(Clone, Copy, Debug, PartialEq, Eq, Structural)]
pub struct UnsupportedSchema {
    pub schema: u32,
}

/// The notes that a list of pairs stands for; of two under one id the later
/// one counts.
pub open spec fn notes_of(pairs: Seq<(i64, Note)>) -> Map<i64, Note>
    decreases pairs.len(),
{
    if pairs.len() == 0 {
        Map::empty()
    } else {
        notes_of(pairs.drop_last()).insert(pairs.last().0, pairs.last().1)
    }
}

/// Whether the indexers may still be searched on that day.
pub open spec fn budget_left(record: NoticesView, day: int, per_day: u32) -> bool {
    searches_on(record, day) < per_day
}

/// The notes of the wishes that are still there.
pub open spec fn retained(notes: Map<i64, Note>, live_ids: Seq<i64>) -> Map<i64, Note> {
    notes.restrict(Set::new(|id: i64| live_ids.contains(id)))
}

/// How many searches the record has for a day.
pub open spec fn searches_on(record: NoticesView, day: int) -> nat {
    if record.search_day matches Some(d) && d == day {
        record.searches_today as nat
    } else {
        0
    }
}

impl View for Notices {
    type V = NoticesView;

    closed spec fn view(&self) -> NoticesView {
        NoticesView {
            notes: self.requests@,
            search_day: self.search_day,
            searches_today: self.searches_today,
        }
    }
}

impl Default for Notices {
    /// The empty record.
    fn default() -> (r: Notices)
        ensures
            r@.notes == Map::<i64, Note>::empty(),
            r@.search_day is None,
            r@.searches_today == 0,
    {
        Notices { requests: Table::new(), search_day: None, searches_today: 0 }
    }
}

impl Notices {
    /// The record with the given contents, as it was stored under `schema`.
    /// A layout this version does not know is refused.
    pub fn restore(
        schema: u32,
        notes: Vec<(i64, Note)>,
        search_day: Option<i64>,
        searches_today: u32,
    ) -> (r: Result<Notices, UnsupportedSchema>)
        ensures
            match r {
                Ok(record) => schema == SCHEMA && record@.notes == notes_of(notes@)
                    && record@.search_day == search_day && record@.searches_today == searches_today,
                Err(e) => schema != SCHEMA && e.schema == schema,
            },
    {
        if schema != SCHEMA {
            return Err(UnsupportedSchema { schema });
        }
        let mut requests: Table<i64, Note> = Table::new();
        let ghost all = notes@;
        let mut rest = notes;
        assert(notes_of(all).union_prefer_right(requests@) =~= notes_of(all));
        while rest.len() > 0
            invariant
                notes_of(rest@).union_prefer_right(requests@) == notes_of(all),
            decreases rest@.len(),
        {
            let ghost before = rest@;
            let ghost later = requests@;
            if let Some(pair) = rest.pop() {
                assert(before.drop_last() =~= rest@);
                if !requests.contains_key(&pair.0) {
                    requests.insert(pair.0, pair.1);
                }
                assert(notes_of(rest@).union_prefer_right(requests@) =~= notes_of(
                    before,
                ).union_prefer_right(later));
            }
        }
        assert(notes_of(rest@).union_prefer_right(requests@) =~= requests@);
        Ok(Notices { requests, search_day, searches_today })
    }

    /// The ids of the wishes that have a note, each once.
    pub fn ids(&self) -> (ids: Vec<i64>)
        ensures
            forall|id: i64| #[trigger] ids@.contains(id) <==> self@.notes.contains_key(id),
            ids@.no_duplicates(),
    {
        let mut ids: Vec<i64> = Vec::new();
        let mut i: usize = 0;
        while i < self.requests.len()
            invariant
                i <= self.requests.key_seq().len(),
                ids@ == self.requests.key_seq().take(i as int),
            decreases self.requests.key_seq().len() - i,
        {
            ids.push(*self.requests.key_at(i));
            proof {
                assert(self.requests.key_seq().take(i + 1) =~= self.requests.key_seq().take(
                    i as int,
                ).push(self.requests.key_seq()[i as int]));
            }
            i += 1;
        }
        proof {
            assert(self.requests.key_seq().take(i as int) =~= self.requests.key_seq());
            self.requests.lemma_keys();
        }
        ids
    }

    /// The UTC day of the last search, counted from 1970-01-01.
    pub fn search_day(&self) -> (r: Option<i64>)
        ensures
            r == self@.search_day,
    {
        self.search_day
    }

    /// How many searches were counted on that day.
    pub fn searches_today(&self) -> (r: u32)
        ensures
            r == self@.searches_today,
    {
        self.searches_today
    }

    /// The note of a wish.
    pub fn note(&self, request_id: i64) -> (r: Option<&Note>)
        ensures
            match r {
                Some(note) => self@.notes.contains_key(request_id) && *note
                    == self@.notes[request_id],
                None => !self@.notes.contains_key(request_id),
            },
    {
        self.requests.get(&request_id)
    }

    /// The note of a wish, to be changed; written down with
    /// `first_seen = now` if there was none yet. A note that was there is
    /// returned untouched.
    pub fn note_mut(&mut self, request_id: i64, now: Timestamp) -> (r: &mut Note)
        ensures
            old(self)@.notes.contains_key(request_id) ==> *r == old(self)@.notes[request_id],
            !old(self)@.notes.contains_key(request_id) ==> is_fresh(*r, now),
            final(self)@.notes == old(self)@.notes.insert(request_id, *final(r)),
            final(self)@.search_day == old(self)@.search_day,
            final(self)@.searches_today == old(self)@.searches_today,
    {
        let ghost before = self.requests@;
        if !self.requests.contains_key(&request_id) {
            self.requests.insert(request_id, Note::new(now));
        }
        proof {
            assert forall|v: Note|
                #![trigger self.requests@.insert(request_id, v)]
                self.requests@.insert(request_id, v) == before.insert(request_id, v) by {
                assert(self.requests@.insert(request_id, v) =~= before.insert(request_id, v));
            }
        }
        self.requests.get_mut(&request_id)
    }

    /// Drops every note whose wish is not among `live_ids`: a wish withdrawn
    /// or gone from Seerr has nothing left to be told about.
    pub fn retain_only(&mut self, live_ids: &[i64])
        ensures
            final(self)@.notes == retained(old(self)@.notes, live_ids@),
            final(self)@.search_day == old(self)@.search_day,
            final(self)@.searches_today == old(self)@.searches_today,
    {
        let ids = self.ids();
        let ghost all = self.requests@;
        let mut i: usize = 0;
        while i < ids.len()
            invariant
                i <= ids@.len(),
                all == old(self)@.notes,
                self.search_day == old(self)@.search_day,
                self.searches_today == old(self)@.searches_today,
                forall|id: i64| #[trigger] ids@.contains(id) <==> all.contains_key(id),
                forall|id: i64| #[trigger]
                    self.requests@.contains_key(id) <==> all.contains_key(id) && (live_ids@.contains(
                        id,
                    ) || !ids@.take(i as int).contains(id)),
                forall|id: i64| #[trigger]
                    self.requests@.contains_key(id) ==> self.requests@[id] == all[id],
            decreases ids@.len() - i,
        {
            let id: i64 = ids[i];
            let ghost before = self.requests@;
            let live = is_among(live_ids, id);
            if !live {
                self.requests.remove(&id);
            }
            proof {
                let done = ids@.take(i as int);
                let next = ids@.take(i + 1);
                assert(next =~= done.push(id));
                assert forall|k: i64| #[trigger] next.contains(k) <==> done.contains(k) || k
                    == id by {
                    if done.contains(k) {
                        let j = choose|j: int| 0 <= j < done.len() && done[j] == k;
                        assert(next[j] == k);
                    }
                    if k == id {
                        assert(next[i as int] == k);
                    }
                }
                assert forall|k: i64| #[trigger]
                    self.requests@.contains_key(k) <==> all.contains_key(k) && (live_ids@.contains(
                        k,
                    ) || !next.contains(k)) by {
                    assert(before.contains_key(k) <==> all.contains_key(k) && (live_ids@.contains(k)
                        || !done.contains(k)));
                }
                assert forall|k: i64| #[trigger]
                    self.requests@.contains_key(k) implies self.requests@[k] == all[k] by {
                    assert(before.contains_key(k));
                }
            }
            i += 1;
        }
        proof {
            assert(ids@.take(i as int) =~= ids@);
            assert(self.requests@ =~= retained(all, live_ids@));
        }
    }

    /// Whether an indexer search may still run today, counted per UTC
    /// calendar day: on a day that has not seen `per_day` of them. Where
    /// `per_day` is zero, none may run.
    pub fn may_search(&self, now: Timestamp, per_day: u32) -> (r: bool)
        ensures
            r == budget_left(self@, now.utc_day_number(), per_day),
    {
        match self.search_day {
            Some(day) => if day == now.utc_day() {
                self.searches_today < per_day
            } else {
                0 < per_day
            },
            None => 0 < per_day,
        }
    }

    /// Counts one search against today's budget, starting over if the UTC
    /// calendar day has turned since the last one.
    pub fn count_search(&mut self, now: Timestamp)
        requires
            searches_on(old(self)@, now.utc_day_number()) < u32::MAX,
        ensures
            final(self)@.notes == old(self)@.notes,
            final(self)@.search_day == Some(now.utc_day_number() as i64),
            final(self)@.searches_today == searches_on(old(self)@, now.utc_day_number()) + 1,
    {
        let today: i64 = now.utc_day();
        match self.search_day {
            Some(day) => if day != today {
                self.search_day = Some(today);
                self.searches_today = 0;
            },
            None => {
                self.search_day = Some(today);
                self.searches_today = 0;
            },
        }
        self.searches_today = self.searches_today + 1;
    }
}

/// Whether `id` is one of `ids`.
pub fn is_among(ids: &[i64], id: i64) -> (r: bool)
    ensures
        r == ids@.contains(id),
{
    let mut i: usize = 0;
    while i < ids.len()
        invariant
            i <= ids@.len(),
            forall|j: int| 0 <= j < i ==> ids@[j] != id,
        decreases ids@.len() - i,
    {
        if ids[i] == id {
            return true;
        }
        i += 1;
    }
    false
}

/// The budget: a search that was allowed and is counted leaves the day with
/// no more searches than the limit.
pub proof fn law_the_budget_holds(
    before: NoticesView,
    after: NoticesView,
    day: int,
    per_day: u32,
)
    requires
        budget_left(before, day, per_day),
        after.search_day matches Some(d) && d == day,
        after.searches_today == searches_on(before, day) + 1,
    ensures
        searches_on(after, day) <= per_day,
        searches_on(after, day) == searches_on(before, day) + 1,
{
}

/// A new day has its whole budget, whatever the day before has used.
pub proof fn law_a_new_day_has_its_budget(record: NoticesView, day: int, next: int, per_day: u32)
    requires
        record.search_day matches Some(d) && d == day,
        next != day,
    ensures
        searches_on(record, next) == 0,
        budget_left(record, next, per_day) <==> per_day > 0,
{
}

/// Whether pairs are notes out of a record.
pub open spec fn taken_from(pairs: Seq<(i64, Note)>, notes: Map<i64, Note>) -> bool {
    forall|i: int|
        0 <= i < pairs.len() ==> notes.contains_key((#[trigger] pairs[i]).0)
            && notes[pairs[i].0] == pairs[i].1
}

proof fn lemma_stored(pairs: Seq<(i64, Note)>, notes: Map<i64, Note>, id: i64)
    requires
        taken_from(pairs, notes),
    ensures
        notes_of(pairs).contains_key(id) <==> exists|i: int|
            0 <= i < pairs.len() && (#[trigger] pairs[i]).0 == id,
        notes_of(pairs).contains_key(id) ==> notes.contains_key(id) && notes_of(pairs)[id]
            == notes[id],
    decreases pairs.len(),
{
    if pairs.len() > 0 {
        let front = pairs.drop_last();
        assert forall|i: int| 0 <= i < front.len() implies notes.contains_key(
            (#[trigger] front[i]).0,
        ) && notes[front[i].0] == front[i].1 by {
            assert(front[i] == pairs[i]);
        }
        lemma_stored(front, notes, id);
        assert(pairs[pairs.len() - 1] == pairs.last());
        if exists|i: int| 0 <= i < front.len() && (#[trigger] front[i]).0 == id {
            let i = choose|i: int| 0 <= i < front.len() && (#[trigger] front[i]).0 == id;
            assert(pairs[i].0 == id);
        }
        if exists|i: int| 0 <= i < pairs.len() && (#[trigger] pairs[i]).0 == id {
            let i = choose|i: int| 0 <= i < pairs.len() && (#[trigger] pairs[i]).0 == id;
            if i < front.len() {
                assert(front[i].0 == id);
            }
        }
    }
}

/// A record comes back as it was: restored from all of its notes, in whatever
/// order, it holds the same ones.
pub proof fn law_a_record_comes_back(pairs: Seq<(i64, Note)>, notes: Map<i64, Note>)
    requires
        taken_from(pairs, notes),
        forall|id: i64| #[trigger]
            notes.contains_key(id) ==> exists|i: int|
                0 <= i < pairs.len() && (#[trigger] pairs[i]).0 == id,
    ensures
        notes_of(pairs) == notes,
{
    assert forall|id: i64| #[trigger]
        notes_of(pairs).contains_key(id) <==> notes.contains_key(id) by {
        lemma_stored(pairs, notes, id);
    }
    assert forall|id: i64| notes.contains_key(id) implies #[trigger] notes_of(pairs)[id]
        == notes[id] by {
        lemma_stored(pairs, notes, id);
    }
    assert(notes_of(pairs) =~= notes);
}

} // verus!
