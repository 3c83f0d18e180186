//! The directory of people: whose Signal account belongs to which account in
//! Authentik.

use crate::i18n::Locale;
use crate::model::Aci;
use crate::text::{eq_ignore_ascii_case, same, same_ascii_caseless};
use vstd::prelude::*;

verus! {

/// One person.
#[derive(Clone, Debug, PartialEq)]
pub struct Entry {
    pub authentik_username: String,
    pub signal_username: String,
    /// Pinned once and never looked up again: a released username can be
    /// taken by somebody else, and a new lookup would then serve the wrong
    /// person while looking entirely correct.
    pub aci: Aci,
    /// Whether the welcome has gone out.
    pub greeted: bool,
    /// The person's language.
    pub locale: Locale,
    /// The names of their groups.
    pub groups: Vec<String>,
}

/// Everybody the bot knows, in the order in which they came.
#[derive(Clone, Debug)]
pub struct State {
    entries: Vec<Entry>,
}

/// Whether an entry belongs to an account.
pub open spec fn is_of(entry: Entry, authentik_username: Seq<char>) -> bool {
    entry.authentik_username@ == authentik_username
}

/// Whether `at` is the first entry of an account.
pub open spec fn first_of(entries: Seq<Entry>, authentik_username: Seq<char>, at: int) -> bool {
    &&& 0 <= at < entries.len()
    &&& is_of(entries[at], authentik_username)
    &&& forall|j: int| 0 <= j < at ==> !is_of(#[trigger] entries[j], authentik_username)
}

/// The first entry of an account.
pub open spec fn entry_of(entries: Seq<Entry>, authentik_username: Seq<char>) -> Option<Entry>
    decreases entries.len(),
{
    if entries.len() == 0 {
        None
    } else if is_of(entries[0], authentik_username) {
        Some(entries[0])
    } else {
        entry_of(entries.skip(1), authentik_username)
    }
}

/// The entry at the first position of an account is the entry of the account.
pub proof fn lemma_first_is_entry(entries: Seq<Entry>, user: Seq<char>, at: int)
    requires
        first_of(entries, user, at),
    ensures
        entry_of(entries, user) == Some(entries[at]),
    decreases entries.len(),
{
    if at > 0 {
        let rest = entries.skip(1);
        assert(!is_of(entries[0], user));
        assert forall|j: int| 0 <= j < at - 1 implies !is_of(#[trigger] rest[j], user) by {
            assert(rest[j] == entries[j + 1]);
        }
        lemma_first_is_entry(rest, user, at - 1);
    }
}

/// The entry of an account belongs to the account.
pub proof fn lemma_entry_is_of(entries: Seq<Entry>, user: Seq<char>)
    requires
        entry_of(entries, user) is Some,
    ensures
        is_of(entry_of(entries, user)->0, user),
    decreases entries.len(),
{
    if entries.len() > 0 && !is_of(entries[0], user) {
        lemma_entry_is_of(entries.skip(1), user);
    }
}

/// Where an account has no entry, there is nothing to take out.
pub proof fn lemma_no_entry(entries: Seq<Entry>, user: Seq<char>)
    requires
        entry_of(entries, user) is None,
    ensures
        without_first(entries, user) == entries,
    decreases entries.len(),
{
    if entries.len() > 0 {
        lemma_no_entry(entries.skip(1), user);
        assert(seq![entries[0]] + entries.skip(1) =~= entries);
    }
}

/// The entries without the first one of an account.
pub open spec fn without_first(entries: Seq<Entry>, authentik_username: Seq<char>) -> Seq<Entry>
    decreases entries.len(),
{
    if entries.len() == 0 {
        entries
    } else if is_of(entries[0], authentik_username) {
        entries.skip(1)
    } else {
        seq![entries[0]] + without_first(entries.skip(1), authentik_username)
    }
}

proof fn lemma_without_first(entries: Seq<Entry>, user: Seq<char>, at: int)
    requires
        first_of(entries, user, at),
    ensures
        without_first(entries, user) == entries.remove(at),
    decreases entries.len(),
{
    if at > 0 {
        let rest = entries.skip(1);
        assert(!is_of(entries[0], user));
        assert forall|j: int| 0 <= j < at - 1 implies !is_of(#[trigger] rest[j], user) by {
            assert(rest[j] == entries[j + 1]);
        }
        lemma_without_first(rest, user, at - 1);
        assert(entries.remove(at) =~= seq![entries[0]] + rest.remove(at - 1));
    } else {
        assert(entries.remove(0) =~= entries.skip(1));
    }
}

proof fn lemma_without_nobody(entries: Seq<Entry>, user: Seq<char>)
    requires
        nobody(entries, user),
    ensures
        without_first(entries, user) == entries,
    decreases entries.len(),
{
    if entries.len() > 0 {
        let rest = entries.skip(1);
        assert(!is_of(entries[0], user));
        assert forall|j: int| 0 <= j < rest.len() implies !is_of(#[trigger] rest[j], user) by {
            assert(rest[j] == entries[j + 1]);
        }
        lemma_without_nobody(rest, user);
        assert(seq![entries[0]] + rest =~= entries);
    }
}

/// An account without entries has no entry.
pub proof fn lemma_nobody_has_no_entry(entries: Seq<Entry>, user: Seq<char>)
    requires
        nobody(entries, user),
    ensures
        entry_of(entries, user) is None,
    decreases entries.len(),
{
    if entries.len() > 0 {
        let rest = entries.skip(1);
        assert(!is_of(entries[0], user));
        assert forall|j: int| 0 <= j < rest.len() implies !is_of(#[trigger] rest[j], user) by {
            assert(rest[j] == entries[j + 1]);
        }
        lemma_nobody_has_no_entry(rest, user);
    }
}

/// Whether nobody with that account is known.
pub open spec fn nobody(entries: Seq<Entry>, authentik_username: Seq<char>) -> bool {
    forall|j: int| 0 <= j < entries.len() ==> !is_of(#[trigger] entries[j], authentik_username)
}

/// Whether no account has two entries.
pub open spec fn one_entry_each(entries: Seq<Entry>) -> bool {
    forall|i: int, j: int|
        #![trigger entries[i], entries[j]]
        0 <= i < entries.len() && 0 <= j < entries.len() && i != j
            ==> entries[i].authentik_username@ != entries[j].authentik_username@
}

/// The entries of everybody else.
pub open spec fn others_than(entries: Seq<Entry>, authentik_username: Seq<char>) -> Seq<Entry> {
    entries.filter(|e: Entry| !is_of(e, authentik_username))
}

impl View for State {
    type V = Seq<Entry>;

    closed spec fn view(&self) -> Seq<Entry> {
        self.entries@
    }
}

impl Default for State {
    /// Nobody.
    fn default() -> (r: State)
        ensures
            r@ == Seq::<Entry>::empty(),
    {
        State { entries: Vec::new() }
    }
}

impl State {
    /// The directory with these entries.
    pub fn restore(entries: Vec<Entry>) -> (r: State)
        ensures
            r@ == entries@,
    {
        State { entries }
    }

    /// Whether nobody is known.
    pub fn is_empty(&self) -> (r: bool)
        ensures
            r == (self@.len() == 0),
    {
        self.entries.len() == 0
    }

    /// How many people are known.
    pub fn len(&self) -> (r: usize)
        ensures
            r == self@.len(),
    {
        self.entries.len()
    }

    /// The first entry with that Signal account.
    pub fn by_aci(&self, aci: &Aci) -> (r: Option<&Entry>)
        ensures
            match r {
                Some(entry) => exists|at: int|
                    #![trigger self@[at]]
                    0 <= at < self@.len() && self@[at] == *entry && entry.aci@ == aci@ && forall|
                        j: int,
                    |
                        0 <= j < at ==> (#[trigger] self@[j]).aci@ != aci@,
                None => forall|j: int| 0 <= j < self@.len() ==> (#[trigger] self@[j]).aci@ != aci@,
            },
    {
        let mut i: usize = 0;
        while i < self.entries.len()
            invariant
                i <= self.entries@.len(),
                forall|j: int| 0 <= j < i ==> (#[trigger] self@[j]).aci@ != aci@,
            decreases self.entries@.len() - i,
        {
            if same(self.entries[i].aci.0.as_str(), aci.0.as_str()) {
                assert(self@[i as int] == self.entries@[i as int]);
                return Some(&self.entries[i]);
            }
            i += 1;
        }
        None
    }

    /// The position of the first entry of an account.
    fn position(&self, authentik_username: &str) -> (r: Option<usize>)
        ensures
            match r {
                Some(at) => first_of(self@, authentik_username@, at as int),
                None => nobody(self@, authentik_username@),
            },
    {
        let mut i: usize = 0;
        while i < self.entries.len()
            invariant
                i <= self.entries@.len(),
                forall|j: int| 0 <= j < i ==> !is_of(#[trigger] self@[j], authentik_username@),
            decreases self.entries@.len() - i,
        {
            if same(self.entries[i].authentik_username.as_str(), authentik_username) {
                return Some(i);
            }
            i += 1;
        }
        None
    }

    /// The first entry of an account.
    pub fn by_user(&self, authentik_username: &str) -> (r: Option<&Entry>)
        ensures
            match r {
                Some(entry) => entry_of(self@, authentik_username@) == Some(*entry),
                None => entry_of(self@, authentik_username@) is None,
            },
    {
        match self.position(authentik_username) {
            Some(at) => {
                proof {
                    lemma_first_is_entry(self@, authentik_username@, at as int);
                }
                Some(&self.entries[at])
            },
            None => {
                proof {
                    lemma_nobody_has_no_entry(self@, authentik_username@);
                }
                None
            },
        }
    }

    /// The first entry with that Signal name, compared without regard to
    /// ASCII case.
    pub fn signal_name_taken_by(&self, signal_username: &str) -> (r: Option<&Entry>)
        ensures
            match r {
                Some(entry) => exists|at: int|
                    #![trigger self@[at]]
                    0 <= at < self@.len() && self@[at] == *entry && same_ascii_caseless(
                        entry.signal_username@,
                        signal_username@,
                    ) && forall|j: int|
                        0 <= j < at ==> !same_ascii_caseless(
                            (#[trigger] self@[j]).signal_username@,
                            signal_username@,
                        ),
                None => forall|j: int|
                    0 <= j < self@.len() ==> !same_ascii_caseless(
                        (#[trigger] self@[j]).signal_username@,
                        signal_username@,
                    ),
            },
    {
        let mut i: usize = 0;
        while i < self.entries.len()
            invariant
                i <= self.entries@.len(),
                forall|j: int|
                    0 <= j < i ==> !same_ascii_caseless(
                        (#[trigger] self@[j]).signal_username@,
                        signal_username@,
                    ),
            decreases self.entries@.len() - i,
        {
            if eq_ignore_ascii_case(self.entries[i].signal_username.as_str(), signal_username) {
                assert(self@[i as int] == self.entries@[i as int]);
                return Some(&self.entries[i]);
            }
            i += 1;
        }
        None
    }

    /// Puts `entry` at the end, in the place of every entry of its account.
    pub fn upsert(&mut self, entry: Entry)
        ensures
            final(self)@ == others_than(old(self)@, entry.authentik_username@).push(entry),
    {
        let ghost all = self.entries@;
        let ghost user = entry.authentik_username@;
        let ghost keep = |e: Entry| !is_of(e, user);
        let mut i: usize = 0;
        proof {
            reveal(Seq::filter);
            assert(all.take(0).filter(keep) =~= Seq::empty());
            assert(all.take(0).filter(keep) + all.skip(0) =~= all);
        }
        let ghost mut seen: int = 0;
        while i < self.entries.len()
            invariant
                user == entry.authentik_username@,
                keep == (|e: Entry| !is_of(e, user)),
                0 <= seen <= all.len(),
                i == all.take(seen).filter(keep).len(),
                self.entries@ == all.take(seen).filter(keep) + all.skip(seen),
            decreases self.entries@.len() - i,
        {
            proof {
                assert(self.entries@[i as int] == all.skip(seen)[0]);
                assert(all.skip(seen)[0] == all[seen]);
                assert(all.take(seen + 1) =~= all.take(seen).push(all[seen]));
                all.take(seen).lemma_filter_push(all[seen], keep);
                assert(all.skip(seen).skip(1) =~= all.skip(seen + 1));
            }
            let ghost kept = all.take(seen).filter(keep);
            if same(
                self.entries[i].authentik_username.as_str(),
                entry.authentik_username.as_str(),
            ) {
                self.entries.remove(i);
                assert(self.entries@ =~= kept + all.skip(seen + 1));
            } else {
                i += 1;
                assert(self.entries@ =~= kept.push(all[seen]) + all.skip(seen + 1));
            }
            proof {
                seen = seen + 1;
            }
        }
        proof {
            assert(all.skip(seen).len() == 0);
            assert(all.take(seen) =~= all);
            assert(self.entries@ =~= all.filter(keep));
        }
        self.entries.push(entry);
    }

    /// Takes the first entry of an account out.
    pub fn remove_user(&mut self, authentik_username: &str) -> (r: Option<Entry>)
        ensures
            r == entry_of(old(self)@, authentik_username@),
            final(self)@ == without_first(old(self)@, authentik_username@),
    {
        match self.position(authentik_username) {
            Some(at) => {
                let ghost before = self.entries@;
                let entry = self.entries.remove(at);
                assert(first_of(before, authentik_username@, at as int));
                proof {
                    lemma_first_is_entry(before, authentik_username@, at as int);
                    lemma_without_first(before, authentik_username@, at as int);
                }
                Some(entry)
            },
            None => {
                proof {
                    lemma_nobody_has_no_entry(self@, authentik_username@);
                    lemma_without_nobody(self@, authentik_username@);
                }
                None
            },
        }
    }

    /// Everybody, in the order in which they came.
    pub fn iter(&self) -> (r: &Vec<Entry>)
        ensures
            r@ == self@,
    {
        &self.entries
    }
}

proof fn lemma_others(entries: Seq<Entry>, user: Seq<char>)
    ensures
        nobody(others_than(entries, user), user),
        forall|i: int|
            0 <= i < others_than(entries, user).len() ==> entries.contains(
                #[trigger] others_than(entries, user)[i],
            ),
        one_entry_each(entries) ==> one_entry_each(others_than(entries, user)),
    decreases entries.len(),
{
    reveal(Seq::filter);
    if entries.len() > 0 {
        let before = entries.drop_last();
        lemma_others(before, user);
        let kept = others_than(before, user);
        let now = others_than(entries, user);
        assert forall|i: int| 0 <= i < now.len() implies entries.contains(#[trigger] now[i]) by {
            if i < kept.len() {
                assert(now[i] == kept[i]);
                let at = choose|at: int| 0 <= at < before.len() && before[at] == kept[i];
                assert(entries[at] == now[i]);
            } else {
                assert(entries[entries.len() - 1] == now[i]);
            }
        }
        assert forall|j: int| 0 <= j < now.len() implies !is_of(#[trigger] now[j], user) by {
            if j < kept.len() {
                assert(now[j] == kept[j]);
            }
        }
        if one_entry_each(entries) {
            assert forall|i: int, j: int|
                #![trigger now[i], now[j]]
                0 <= i < now.len() && 0 <= j < now.len() && i
                    != j implies now[i].authentik_username@ != now[j].authentik_username@ by {
                if i < kept.len() && j < kept.len() {
                    assert(now[i] == kept[i] && now[j] == kept[j]);
                } else if i < kept.len() {
                    assert(now[i] == kept[i]);
                    let at = choose|at: int| 0 <= at < before.len() && before[at] == kept[i];
                    assert(entries[at] == now[i]);
                    assert(entries[entries.len() - 1] == now[j]);
                } else if j < kept.len() {
                    assert(now[j] == kept[j]);
                    let at = choose|at: int| 0 <= at < before.len() && before[at] == kept[j];
                    assert(entries[at] == now[j]);
                    assert(entries[entries.len() - 1] == now[i]);
                }
            }
        }
    }
}

/// After an entry was put in it is the only one of its account, and where no
/// account had two entries before, none has two after.
pub proof fn law_upsert_replaces(entries: Seq<Entry>, entry: Entry)
    ensures
        ({
            let after = others_than(entries, entry.authentik_username@).push(entry);
            &&& first_of(after, entry.authentik_username@, after.len() - 1)
            &&& one_entry_each(entries) ==> one_entry_each(after)
        }),
{
    let user = entry.authentik_username@;
    lemma_others(entries, user);
    let kept = others_than(entries, user);
    let after = kept.push(entry);
    assert forall|j: int| 0 <= j < kept.len() implies !is_of(#[trigger] after[j], user) by {
        assert(after[j] == kept[j]);
    }
    if one_entry_each(entries) {
        assert forall|i: int, j: int|
            #![trigger after[i], after[j]]
            0 <= i < after.len() && 0 <= j < after.len() && i != j implies after[i].authentik_username@
            != after[j].authentik_username@ by {
            if i < kept.len() {
                assert(after[i] == kept[i]);
                assert(!is_of(kept[i], user));
            }
            if j < kept.len() {
                assert(after[j] == kept[j]);
                assert(!is_of(kept[j], user));
            }
        }
    }
}

proof fn lemma_position(entries: Seq<Entry>, user: Seq<char>, n: int) -> (at: int)
    requires
        0 <= n < entries.len(),
        is_of(entries[n], user),
    ensures
        first_of(entries, user, at),
    decreases n,
{
    if exists|j: int| 0 <= j < n && is_of(#[trigger] entries[j], user) {
        let j = choose|j: int| 0 <= j < n && is_of(#[trigger] entries[j], user);
        lemma_position(entries, user, j)
    } else {
        n
    }
}

/// Taking one entry of an account out before all of them makes no difference
/// to the entries of the others.
pub proof fn lemma_others_without_first(entries: Seq<Entry>, user: Seq<char>)
    ensures
        others_than(without_first(entries, user), user) == others_than(entries, user),
{
    if nobody(entries, user) {
        lemma_without_nobody(entries, user);
    } else {
        let n = choose|n: int| 0 <= n < entries.len() && is_of(#[trigger] entries[n], user);
        let at = lemma_position(entries, user, n);
        lemma_without_first(entries, user, at);
        let keep = |e: Entry| !is_of(e, user);
        let one = seq![entries[at]];
        let before = entries.take(at);
        let behind = entries.skip(at + 1);
        assert(entries =~= before + one + behind);
        assert(entries.remove(at) =~= before + behind);
        assert(one.filter(keep) =~= Seq::empty()) by {
            let none = Seq::<Entry>::empty();
            assert(none.filter(keep) =~= none) by {
                reveal(Seq::filter);
            }
            assert(one =~= none.push(entries[at]));
            none.lemma_filter_push(entries[at], keep);
        }
        Seq::filter_distributes_over_add(before, one, keep);
        Seq::filter_distributes_over_add(before + one, behind, keep);
        Seq::filter_distributes_over_add(before, behind, keep);
        assert(before.filter(keep) + Seq::<Entry>::empty() =~= before.filter(keep));
    }
}

/// Where no account has two entries, taking one out leaves nobody with that
/// account, and everybody else as they were.
pub proof fn law_remove_forgets(entries: Seq<Entry>, user: Seq<char>)
    requires
        one_entry_each(entries),
    ensures
        nobody(without_first(entries, user), user),
        one_entry_each(without_first(entries, user)),
        forall|j: int|
            0 <= j < entries.len() && !is_of(#[trigger] entries[j], user) ==> without_first(
                entries,
                user,
            ).contains(entries[j]),
{
    if nobody(entries, user) {
        lemma_without_nobody(entries, user);
    } else {
        let n = choose|n: int| 0 <= n < entries.len() && is_of(#[trigger] entries[n], user);
        let at = lemma_position(entries, user, n);
        lemma_without_first(entries, user, at);
        lemma_removed_at(entries, user, at);
    }
}

proof fn lemma_removed_at(entries: Seq<Entry>, user: Seq<char>, at: int)
    requires
        one_entry_each(entries),
        first_of(entries, user, at),
    ensures
        nobody(entries.remove(at), user),
        one_entry_each(entries.remove(at)),
        forall|j: int|
            0 <= j < entries.len() && j != at ==> entries.remove(at).contains(#[trigger] entries[j]),
{
    let after = entries.remove(at);
    assert forall|j: int| 0 <= j < after.len() implies !is_of(#[trigger] after[j], user) by {
        let k = if j < at {
            j
        } else {
            j + 1
        };
        assert(after[j] == entries[k]);
        assert(entries[at].authentik_username@ != entries[k].authentik_username@);
    }
    assert forall|i: int, j: int|
        #![trigger after[i], after[j]]
        0 <= i < after.len() && 0 <= j < after.len() && i != j implies after[i].authentik_username@
        != after[j].authentik_username@ by {
        let k = if i < at {
            i
        } else {
            i + 1
        };
        let l = if j < at {
            j
        } else {
            j + 1
        };
        assert(after[i] == entries[k] && after[j] == entries[l]);
    }
    assert forall|j: int| 0 <= j < entries.len() && j != at implies after.contains(
        #[trigger] entries[j],
    ) by {
        let k = if j < at {
            j
        } else {
            j - 1
        };
        assert(after[k] == entries[j]);
    }
}

} // verus!
