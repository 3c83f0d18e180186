//! Languages and the catalogue of messages.

use crate::table::Table;
use crate::text::{chars_of, replace, replaced, views};
use crate::texts::{DE, EN};
use vstd::prelude::*;

verus! {

/// A language the bot speaks.
#[derive(Clone, Copy, Debug, PartialEq, Eq, Structural)]
pub enum Locale {
    De,
    En,
}

/// What stands before the first hyphen or underscore.
pub open spec fn language_part(raw: Seq<char>) -> Seq<char>
    decreases raw.len(),
{
    if raw.len() == 0 || raw[0] == '-' || raw[0] == '_' {
        Seq::empty()
    } else {
        seq![raw[0]] + language_part(raw.skip(1))
    }
}

proof fn lemma_language_part(raw: Seq<char>, n: int)
    requires
        0 <= n <= raw.len(),
        forall|i: int| 0 <= i < n ==> #[trigger] raw[i] != '-' && raw[i] != '_',
        n < raw.len() ==> raw[n] == '-' || raw[n] == '_',
    ensures
        language_part(raw) == raw.take(n),
    decreases n,
{
    if n > 0 {
        lemma_language_part(raw.skip(1), n - 1);
        assert(raw.take(n) =~= seq![raw[0]] + raw.skip(1).take(n - 1));
    } else {
        assert(raw.take(n) =~= Seq::<char>::empty());
    }
}

/// The language for a locale setting: German where its language part is
/// "de", English for everything else.
pub open spec fn locale_for(raw: Seq<char>) -> Locale {
    if language_part(raw) == seq!['d', 'e'] {
        Locale::De
    } else {
        Locale::En
    }
}

impl Locale {
    /// Authentik stores a POSIX-ish locale ("de", "de-DE", "" for unset).
    /// Anything that is not translated falls back to English.
    pub fn from_authentik(raw: &str) -> (r: Locale)
        ensures
            r == locale_for(raw@),
    {
        let v = chars_of(raw);
        let mut n: usize = 0;
        while n < v.len() && v[n] != '-' && v[n] != '_'
            invariant
                n <= v@.len(),
                forall|i: int| 0 <= i < n ==> #[trigger] v@[i] != '-' && v@[i] != '_',
            decreases v@.len() - n,
        {
            n += 1;
        }
        proof {
            lemma_language_part(raw@, n as int);
            if n == 2 && v@[0] == 'd' && v@[1] == 'e' {
                assert(raw@.take(2) =~= seq!['d', 'e']);
            }
            if raw@.take(n as int) == seq!['d', 'e'] {
                assert(raw@.take(n as int).len() == seq!['d', 'e'].len());
                assert(raw@.take(n as int)[0] == v@[0]);
                assert(raw@.take(n as int)[1] == v@[1]);
            }
        }
        if n == 2 && v[0] == 'd' && v[1] == 'e' {
            Locale::De
        } else {
            Locale::En
        }
    }
}

/// A TOML document as plain values. Kinds the catalogue has no use for are
/// [`Toml::Other`].
#[derive(Debug)]
pub enum Toml {
    Text(String),
    Table(Vec<(String, Toml)>),
    Other,
}

/// What a [`Toml`] holds.
pub enum TomlView {
    Text(Seq<char>),
    Table(Seq<(Seq<char>, TomlView)>),
    Other,
}

/// The document that a [`Toml`] value stands for.
pub open spec fn toml_tree(toml: Toml) -> TomlView
    decreases toml,
{
    match toml {
        Toml::Text(s) => TomlView::Text(s@),
        Toml::Table(entries) => TomlView::Table(
            Seq::new(
                entries@.len(),
                |i: int|
                    if 0 <= i < entries@.len() {
                        (entries@[i].0@, toml_tree(entries@[i].1))
                    } else {
                        (Seq::empty(), TomlView::Other)
                    },
            ),
        ),
        Toml::Other => TomlView::Other,
    }
}

impl View for Toml {
    type V = TomlView;

    open spec fn view(&self) -> TomlView {
        toml_tree(*self)
    }
}

/// The document that a text holds, as the toml crate reads it; nothing where
/// the text is not TOML.
pub uninterp spec fn toml_document(text: Seq<char>) -> Option<TomlView>;

/// The toml crate's own document type, carried from its parser to the
/// conversion.
#[verifier::external_type_specification]
#[verifier::external_body]
pub struct ExTomlValue(toml::Value);

/// Converts a `toml::Value` into a [`Toml`], kind by kind.
#[verifier::external_body]
fn toml_from_value(value: toml::Value) -> (toml: Toml) {
    match value {
        toml::Value::String(s) => Toml::Text(s),
        toml::Value::Table(map) => Toml::Table(
            map.into_iter().map(|(k, v)| (k, toml_from_value(v))).collect(),
        ),
        toml::Value::Integer(_) => Toml::Other,
        toml::Value::Float(_) => Toml::Other,
        toml::Value::Boolean(_) => Toml::Other,
        toml::Value::Datetime(_) => Toml::Other,
        toml::Value::Array(_) => Toml::Other,
    }
}

/// Calls `toml::from_str` for a `toml::Value`. The result is a function of
/// the text alone, named [`toml_document`]: the document where the text is
/// TOML, nothing where it is not.
#[verifier::external_body]
fn toml_from_str(text: &str) -> (toml: Option<Toml>)
    ensures
        match toml {
            Some(t) => toml_document(text@) == Some(t@),
            None => toml_document(text@) is None,
        },
{
    toml::from_str::<toml::Value>(text).ok().map(toml_from_value)
}

/// The key of an entry inside the table at `prefix`: the two joined by a dot.
pub open spec fn joined(prefix: Seq<char>, key: Seq<char>) -> Seq<char> {
    if prefix.len() == 0 {
        key
    } else {
        prefix + seq!['.'] + key
    }
}

/// `out` with every text of `value` added under its dotted key; nothing where
/// `value` holds anything but tables and texts.
pub open spec fn walked(
    value: TomlView,
    prefix: Seq<char>,
    out: Map<Seq<char>, Seq<char>>,
) -> Option<Map<Seq<char>, Seq<char>>>
    decreases value, 0nat,
{
    match value {
        TomlView::Text(s) => Some(out.insert(prefix, s)),
        TomlView::Table(entries) => walked_entries(entries, prefix, out, entries.len()),
        TomlView::Other => None,
    }
}

/// `out` with the texts of the first `n` entries added.
pub open spec fn walked_entries(
    entries: Seq<(Seq<char>, TomlView)>,
    prefix: Seq<char>,
    out: Map<Seq<char>, Seq<char>>,
    n: nat,
) -> Option<Map<Seq<char>, Seq<char>>>
    decreases entries, n,
{
    if n == 0 || n > entries.len() {
        Some(out)
    } else {
        match walked_entries(entries, prefix, out, (n - 1) as nat) {
            Some(so_far) => walked(
                entries[n - 1].1,
                joined(prefix, entries[n - 1].0),
                so_far,
            ),
            None => None,
        }
    }
}

/// What a table of strings holds.
pub open spec fn texts_in(table: Map<Seq<char>, String>) -> Map<Seq<char>, Seq<char>> {
    table.map_values(|s: String| s@)
}

fn join(prefix: &str, key: &str) -> (r: String)
    ensures
        r@ == joined(prefix@, key@),
{
    if prefix.is_empty() {
        return key.to_owned();
    }
    proof {
        reveal_strlit(".");
        assert("."@ =~= seq!['.']);
    }
    let mut r = prefix.to_owned();
    r.append(".");
    r.append(key);
    r
}

/// Adds every text of `value` to `out` under its dotted key. Answers whether
/// `value` holds nothing but tables and texts.
fn walk(value: &Toml, prefix: String, out: &mut Table<String, String>) -> (ok: bool)
    ensures
        ok == (walked(value@, prefix@, texts_in(old(out)@)) is Some),
        ok ==> walked(value@, prefix@, texts_in(old(out)@)) == Some(texts_in(final(out)@)),
    decreases *value,
{
    match value {
        Toml::Text(s) => {
            let ghost before = out@;
            let text = s.clone();
            let ghost key = prefix@;
            out.insert(prefix, text);
            assert(texts_in(out@) =~= texts_in(before).insert(key, s@));
            true
        },
        Toml::Table(entries) => {
            let ghost start = texts_in(out@);
            let ghost all = toml_tree(*value)->Table_0;
            let mut i: usize = 0;
            while i < entries.len()
                invariant
                    i <= entries@.len(),
                    all == toml_tree(Toml::Table(*entries))->Table_0,
                    all.len() == entries@.len(),
                    *value == Toml::Table(*entries),
                    walked_entries(all, prefix@, start, i as nat) == Some(texts_in(out@)),
                    value@ == TomlView::Table(all),
                    start == texts_in(old(out)@),
                decreases entries@.len() - i,
            {
                let key = join(prefix.as_str(), entries[i].0.as_str());
                assert(all[i as int] == (entries@[i as int].0@, toml_tree(entries@[i as int].1)));
                let ok = walk(&entries[i].1, key, out);
                if !ok {
                    proof {
                        lemma_walk_stops(all, prefix@, start, i as nat + 1, all.len());
                    }
                    return false;
                }
                i += 1;
            }
            true
        },
        Toml::Other => false,
    }
}

proof fn lemma_walk_stops(
    entries: Seq<(Seq<char>, TomlView)>,
    prefix: Seq<char>,
    out: Map<Seq<char>, Seq<char>>,
    i: nat,
    n: nat,
)
    requires
        i <= n <= entries.len(),
        walked_entries(entries, prefix, out, i) is None,
    ensures
        walked_entries(entries, prefix, out, n) is None,
    decreases n,
{
    if i < n {
        lemma_walk_stops(entries, prefix, out, i, (n - 1) as nat);
    }
}

/// The messages of a document: every text under its dotted key. Nothing where
/// the document holds anything but tables and texts.
pub fn flatten(document: &Toml) -> (r: Option<Table<String, String>>)
    ensures
        match r {
            Some(table) => walked(document@, Seq::empty(), Map::empty()) == Some(texts_in(table@)),
            None => walked(document@, Seq::empty(), Map::empty()) is None,
        },
{
    let mut out: Table<String, String> = Table::new();
    assert(texts_in(out@) =~= Map::<Seq<char>, Seq<char>>::empty());
    if walk(document, String::new(), &mut out) {
        Some(out)
    } else {
        None
    }
}

/// The messages that a TOML text holds.
pub open spec fn messages(text: Seq<char>) -> Option<Map<Seq<char>, Seq<char>>> {
    match toml_document(text) {
        Some(document) => walked(document, Seq::empty(), Map::empty()),
        None => None,
    }
}

/// Reads the messages of a TOML text.
fn read_messages(text: &str) -> (r: Option<Table<String, String>>)
    ensures
        match r {
            Some(table) => messages(text@) == Some(texts_in(table@)),
            None => messages(text@) is None,
        },
{
    match toml_from_str(text) {
        Some(document) => flatten(&document),
        None => None,
    }
}

/// The messages in both languages.
#[derive(Debug)]
pub struct Catalogue {
    de: Table<String, String>,
    en: Table<String, String>,
}

/// A template with its placeholders filled in, one after the other: each
/// `{name}` becomes the value that goes with the name.
pub open spec fn filled(
    template: Seq<char>,
    args: Seq<(Seq<char>, Seq<char>)>,
) -> Seq<char>
    decreases args.len(),
{
    if args.len() == 0 {
        template
    } else {
        let so_far = filled(template, args.drop_last());
        replaced(so_far, seq!['{'] + args.last().0 + seq!['}'], args.last().1)
    }
}

/// The views of named values.
pub open spec fn arg_views(args: Seq<(&str, &str)>) -> Seq<(Seq<char>, Seq<char>)> {
    args.map_values(|arg: (&str, &str)| (arg.0@, arg.1@))
}

/// The message that a table has under `key`, filled in; the key itself where
/// it has none.
pub open spec fn message(
    table: Map<Seq<char>, Seq<char>>,
    key: Seq<char>,
    args: Seq<(Seq<char>, Seq<char>)>,
) -> Seq<char> {
    if table.contains_key(key) {
        filled(table[key], args)
    } else {
        key
    }
}

impl Catalogue {
    /// The messages of one language, by key.
    pub closed spec fn messages_in(&self, locale: Locale) -> Map<Seq<char>, Seq<char>> {
        match locale {
            Locale::De => texts_in(self.de@),
            Locale::En => texts_in(self.en@),
        }
    }

    /// The message under `key` in a language, filled in; the key itself where
    /// there is none.
    pub open spec fn says(
        &self,
        locale: Locale,
        key: Seq<char>,
        args: Seq<(Seq<char>, Seq<char>)>,
    ) -> Seq<char> {
        message(self.messages_in(locale), key, args)
    }

    /// The catalogue that two TOML texts hold. Nothing where one of them is
    /// not TOML, or holds anything but tables and texts.
    pub fn from_toml(de: &str, en: &str) -> (r: Option<Catalogue>)
        ensures
            match r {
                Some(c) => messages(de@) == Some(c.messages_in(Locale::De)) && messages(en@) == Some(
                    c.messages_in(Locale::En),
                ),
                None => messages(de@) is None || messages(en@) is None,
            },
    {
        match (read_messages(de), read_messages(en)) {
            (Some(de), Some(en)) => Some(Catalogue { de, en }),
            _ => None,
        }
    }

    /// The catalogue. Its texts are compiled in: a missing file at run time
    /// would be a silent half-working bot, and there is nothing to configure
    /// here. Nothing where the parser does not take them.
    pub fn load() -> (r: Option<Catalogue>)
        ensures
            match r {
                Some(c) => messages(DE@) == Some(c.messages_in(Locale::De)) && messages(EN@) == Some(
                    c.messages_in(Locale::En),
                ),
                None => messages(DE@) is None || messages(EN@) is None,
            },
    {
        Catalogue::from_toml(DE, EN)
    }

    fn table(&self, locale: Locale) -> (r: &Table<String, String>)
        ensures
            texts_in(r@) == self.messages_in(locale),
    {
        match locale {
            Locale::De => &self.de,
            Locale::En => &self.en,
        }
    }

    /// Every key there is in a language, once.
    pub fn keys(&self, locale: Locale) -> (keys: Vec<String>)
        ensures
            forall|key: Seq<char>| #[trigger]
                views(keys@).contains(key) <==> self.messages_in(locale).contains_key(key),
            views(keys@).no_duplicates(),
    {
        let table = self.table(locale);
        let mut keys: Vec<String> = Vec::new();
        let mut i: usize = 0;
        while i < table.len()
            invariant
                i <= table.key_seq().len(),
                views(keys@) == table.key_seq().take(i as int),
            decreases table.key_seq().len() - i,
        {
            let key = table.key_at(i).clone();
            proof {
                assert(views(keys@.push(key)) =~= views(keys@).push(key@));
                assert(table.key_seq().take(i + 1) =~= table.key_seq().take(i as int).push(key@));
            }
            keys.push(key);
            i += 1;
        }
        proof {
            assert(table.key_seq().take(i as int) =~= table.key_seq());
            table.lemma_keys();
        }
        keys
    }

    /// The message under `key`, if there is one. A quiet lookup: a miss is an
    /// ordinary outcome here.
    pub fn lookup(&self, locale: Locale, key: &str) -> (r: Option<&str>)
        ensures
            match r {
                Some(s) => self.messages_in(locale).contains_key(key@) && s@ == self.messages_in(
                    locale,
                )[key@],
                None => !self.messages_in(locale).contains_key(key@),
            },
    {
        match self.table(locale).get(&key.to_owned()) {
            Some(s) => Some(s.as_str()),
            None => None,
        }
    }

    /// The message under `key` with its placeholders filled in. Returns the
    /// key itself when it is unknown: loud enough to notice in a chat, quiet
    /// enough not to stop a running bot over a typo.
    pub fn text(&self, locale: Locale, key: &str, args: &[(&str, &str)]) -> (r: String)
        ensures
            r@ == self.says(locale, key@, arg_views(args@)),
    {
        let mut out = match self.lookup(locale, key) {
            Some(template) => template.to_owned(),
            None => {
                return key.to_owned();
            },
        };
        let ghost template = out@;
        let ghost all = arg_views(args@);
        proof {
            reveal_strlit("{");
            reveal_strlit("}");
            assert("{"@ =~= seq!['{']);
            assert("}"@ =~= seq!['}']);
            assert(all.take(0) =~= Seq::empty());
        }
        let mut i: usize = 0;
        while i < args.len()
            invariant
                i <= args@.len(),
                all == arg_views(args@),
                "{"@ == seq!['{'],
                "}"@ == seq!['}'],
                out@ == filled(template, all.take(i as int)),
            decreases args@.len() - i,
        {
            let mut placeholder = "{".to_owned();
            placeholder.append(args[i].0);
            placeholder.append("}");
            out = replace(out.as_str(), placeholder.as_str(), args[i].1);
            proof {
                let next = all.take(i + 1);
                assert(next.drop_last() =~= all.take(i as int));
                assert(next.last() == (args@[i as int].0@, args@[i as int].1@));
            }
            i += 1;
        }
        assert(all.take(all.len() as int) =~= all);
        out
    }
}

/// The law of placeholders: a template that does not mention a name is not
/// changed by a value for it.
pub proof fn law_unmentioned_names_change_nothing(
    template: Seq<char>,
    name: Seq<char>,
    value: Seq<char>,
)
    requires
        !crate::text::occurs(template, seq!['{'] + name + seq!['}']),
    ensures
        filled(template, seq![(name, value)]) == template,
{
    let placeholder = seq!['{'] + name + seq!['}'];
    let args = seq![(name, value)];
    assert(args.drop_last() =~= Seq::<(Seq<char>, Seq<char>)>::empty());
    assert(filled(template, args.drop_last()) == template);
    lemma_absent_replaced(template, placeholder, value);
}

/// A template that mentions a name says the value that goes with it.
pub proof fn law_a_mentioned_value_is_said(
    template: Seq<char>,
    name: Seq<char>,
    value: Seq<char>,
)
    requires
        crate::text::occurs(template, seq!['{'] + name + seq!['}']),
    ensures
        crate::text::occurs(filled(template, seq![(name, value)]), value),
{
    let placeholder = seq!['{'] + name + seq!['}'];
    let args = seq![(name, value)];
    assert(args.drop_last() =~= Seq::<(Seq<char>, Seq<char>)>::empty());
    assert(filled(template, args.drop_last()) == template);
    let at = choose|at: int| #[trigger] crate::text::stands_at(template, at, placeholder);
    lemma_present_replaced(template, placeholder, value, at);
}

/// A message is the text of its language under its key, with every
/// placeholder filled in, one value after the other; and the key itself where
/// there is no such text.
pub proof fn law_a_message_is_filled_in(
    catalogue: Catalogue,
    locale: Locale,
    key: Seq<char>,
    a: (Seq<char>, Seq<char>),
    b: (Seq<char>, Seq<char>),
    c: (Seq<char>, Seq<char>),
)
    ensures
        ({
            let texts = catalogue.messages_in(locale);
            let first = replaced(texts[key], seq!['{'] + a.0 + seq!['}'], a.1);
            let second = replaced(first, seq!['{'] + b.0 + seq!['}'], b.1);
            let third = replaced(second, seq!['{'] + c.0 + seq!['}'], c.1);
            if texts.contains_key(key) {
                &&& catalogue.says(locale, key, Seq::empty()) == texts[key]
                &&& catalogue.says(locale, key, seq![a]) == first
                &&& catalogue.says(locale, key, seq![a, b]) == second
                &&& catalogue.says(locale, key, seq![a, b, c]) == third
            } else {
                &&& catalogue.says(locale, key, Seq::empty()) == key
                &&& catalogue.says(locale, key, seq![a]) == key
                &&& catalogue.says(locale, key, seq![a, b]) == key
                &&& catalogue.says(locale, key, seq![a, b, c]) == key
            }
        }),
{
    reveal_with_fuel(filled, 4);
    assert(seq![a, b, c].drop_last() =~= seq![a, b]);
    assert(seq![a, b].drop_last() =~= seq![a]);
    assert(seq![a].drop_last() =~= Seq::empty());
}

proof fn lemma_present_replaced(s: Seq<char>, from: Seq<char>, to: Seq<char>, at: int)
    requires
        from.len() > 0,
        crate::text::stands_at(s, at, from),
    ensures
        crate::text::occurs(replaced(s, from, to), to),
    decreases s.len(),
{
    let after = replaced(s, from, to);
    if crate::text::stands_at(s, 0, from) {
        assert(after.subrange(0, to.len() as int) =~= to);
        assert(crate::text::stands_at(after, 0, to));
    } else {
        let rest = s.skip(1);
        assert(rest.subrange(at - 1, at - 1 + from.len()) =~= s.subrange(at, at + from.len()));
        lemma_present_replaced(rest, from, to, at - 1);
        let k = choose|k: int| #[trigger] crate::text::stands_at(replaced(rest, from, to), k, to);
        assert(after.subrange(k + 1, k + 1 + to.len()) =~= replaced(rest, from, to).subrange(
            k,
            k + to.len(),
        ));
        assert(crate::text::stands_at(after, k + 1, to));
    }
}

proof fn lemma_absent_replaced(s: Seq<char>, from: Seq<char>, to: Seq<char>)
    requires
        !crate::text::occurs(s, from),
    ensures
        replaced(s, from, to) == s,
    decreases s.len(),
{
    if s.len() > 0 && from.len() > 0 {
        assert(!crate::text::stands_at(s, 0, from));
        assert forall|at: int| !#[trigger] crate::text::stands_at(s.skip(1), at, from) by {
            if crate::text::stands_at(s.skip(1), at, from) {
                assert(s.skip(1).subrange(at, at + from.len()) =~= s.subrange(
                    at + 1,
                    at + 1 + from.len(),
                ));
                assert(crate::text::stands_at(s, at + 1, from));
            }
        }
        lemma_absent_replaced(s.skip(1), from, to);
        assert(seq![s[0]] + s.skip(1) =~= s);
    }
}

} // verus!
