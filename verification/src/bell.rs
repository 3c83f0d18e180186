//! A second exit for the news that a wish is there or failed: the bell in
//! treff, the forum on the same server. Somebody without a Signal name still
//! has a bell.

pub mod laws;

use crate::json::{Json, JsonView, entry_trees, object, push_entry};
use crate::text::{decimal, decimal_u64};
use vstd::prelude::*;

verus! {

/// One event, as treff takes it.
#[derive(Clone, Debug, PartialEq)]
pub struct BellEvent {
    /// The person's name in Authentik, which is their name in treff.
    pub handle: String,
    /// `film_available` or `film_failed`.
    pub kind: &'static str,
    pub title: String,
    pub link: Option<String>,
    /// `seerr:` and the number of the wish: with `kind` what makes news that
    /// arrives twice one entry in treff.
    pub source_key: String,
}

/// The fields of an event, in order; one without a link leaves it out.
pub open spec fn event_fields(event: BellEvent) -> Seq<(Seq<char>, JsonView)> {
    seq![
        ("handle"@, JsonView::Text(event.handle@)),
        ("kind"@, JsonView::Text(event.kind@)),
        ("title"@, JsonView::Text(event.title@)),
    ] + (match event.link {
        Some(link) => seq![("link"@, JsonView::Text(link@))],
        None => Seq::empty(),
    }) + seq![("source_key"@, JsonView::Text(event.source_key@))]
}

/// An event as it is sent.
pub fn event_body(event: &BellEvent) -> (r: Json)
    ensures
        r@ == JsonView::Object(event_fields(*event)),
{
    let mut entries: Vec<(String, Json)> = Vec::new();
    push_entry(&mut entries, "handle", Json::Text(event.handle.clone()));
    push_entry(&mut entries, "kind", Json::Text(event.kind.to_owned()));
    push_entry(&mut entries, "title", Json::Text(event.title.clone()));
    if let Some(link) = &event.link {
        push_entry(&mut entries, "link", Json::Text(link.clone()));
    }
    push_entry(&mut entries, "source_key", Json::Text(event.source_key.clone()));
    assert(entry_trees(entries@) =~= event_fields(*event));
    object(entries)
}

/// Why treff did not take an event.
#[derive(Clone, Copy, Debug, PartialEq, Eq, Structural)]
pub enum BellFailure {
    /// It could not be reached.
    Unreachable,
    Refused { status: u16 },
}

/// A failure in words. Treff's own words are not repeated: they are its
/// vocabulary.
pub open spec fn bell_failure_said(failure: BellFailure) -> Seq<char> {
    match failure {
        BellFailure::Unreachable => "treff could not be reached"@,
        BellFailure::Refused { status } => "treff answered "@ + decimal(status as nat),
    }
}

impl BellFailure {
    /// The failure in words.
    pub fn message(&self) -> (r: String)
        ensures
            r@ == bell_failure_said(*self),
    {
        match self {
            BellFailure::Unreachable => "treff could not be reached".to_owned(),
            BellFailure::Refused { status } => {
                let mut r = "treff answered ".to_owned();
                r.append(decimal_u64(*status as u64).as_str());
                r
            },
        }
    }
}

/// What treff's answer means: 201 is new, and 200 is already there, news that
/// arrived twice. Anything else is a refusal.
pub open spec fn answer_means(status: Option<u16>) -> Result<(), BellFailure> {
    match status {
        Some(status) => if status == 200 || status == 201 {
            Ok(())
        } else {
            Err(BellFailure::Refused { status })
        },
        None => Err(BellFailure::Unreachable),
    }
}

/// What treff's answer means, given its status, or nothing where it could not
/// be reached.
pub fn answered(status: Option<u16>) -> (r: Result<(), BellFailure>)
    ensures
        r == answer_means(status),
{
    match status {
        Some(status) => if status == 200 || status == 201 {
            Ok(())
        } else {
            Err(BellFailure::Refused { status })
        },
        None => Err(BellFailure::Unreachable),
    }
}

/// How long to wait before the second try, in seconds.
pub const BELL_PAUSE: u64 = 2;

/// An event on its way: how often it was offered.
#[derive(Clone, Copy, Debug, PartialEq, Eq, Structural)]
pub struct Ringing {
    pub tries: u8,
}

/// What to do next about an event.
#[derive(Clone, Copy, Debug, PartialEq)]
pub enum RingStep {
    /// Offer it once more, after this many seconds.
    TryAgain { after: u64 },
    Over(Result<(), BellFailure>),
}

impl Ringing {
    /// An event that is offered for the first time.
    pub fn new() -> (r: Ringing)
        ensures
            r.tries == 1,
    {
        Ringing { tries: 1 }
    }

    /// What to do after an answer. An event is offered once, and once more
    /// after two seconds: treff restarting is the common failure, and it is
    /// short.
    pub fn step(&mut self, status: Option<u16>) -> (r: RingStep)
        ensures
            answer_means(status) is Err && old(self).tries < 2 ==> r == (RingStep::TryAgain {
                after: BELL_PAUSE,
            }) && final(self).tries == old(self).tries + 1,
            answer_means(status) is Ok || old(self).tries >= 2 ==> r == RingStep::Over(
                answer_means(status),
            ) && *final(self) == *old(self),
    {
        let result = answered(status);
        if result.is_err() && self.tries < 2 {
            self.tries = self.tries + 1;
            return RingStep::TryAgain { after: BELL_PAUSE };
        }
        RingStep::Over(result)
    }
}

} // verus!
