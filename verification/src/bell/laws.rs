//! What treff is told, and what its answers mean.

use crate::bell::{BELL_PAUSE, BellEvent, BellFailure, answer_means, event_fields};
use crate::json::{entry, text_of};
use vstd::prelude::*;

verus! {

/// An event says whom it is for, what it is and what it is about, and by what
/// it is known again; a link only where there is one.
pub proof fn law_an_event_says_what_it_is(event: BellEvent)
    ensures
        text_of(entry(event_fields(event), "handle"@)) == Some(event.handle@),
        text_of(entry(event_fields(event), "kind"@)) == Some(event.kind@),
        text_of(entry(event_fields(event), "title"@)) == Some(event.title@),
        text_of(entry(event_fields(event), "source_key"@)) == Some(event.source_key@),
        match event.link {
            Some(link) => text_of(entry(event_fields(event), "link"@)) == Some(link@),
            None => entry(event_fields(event), "link"@) is None,
        },
{
    reveal_strlit("handle");
    reveal_strlit("kind");
    reveal_strlit("title");
    reveal_strlit("link");
    reveal_strlit("source_key");
    assert("handle"@[0] == 'h' && "kind"@[0] == 'k' && "title"@[0] == 't' && "link"@[0] == 'l'
        && "source_key"@[0] == 's');
    let fields = event_fields(event);
    let second = fields.skip(1);
    let third = second.skip(1);
    let fourth = third.skip(1);
    assert(second[0] == fields[1]);
    assert(third[0] == fields[2]);
    assert(fourth[0] == fields[3]);
    if event.link is Some {
        assert(fourth.skip(1)[0] == fields[4]);
    }
    reveal_with_fuel(entry, 6);
}

/// Treff has an event where it says that it is new or that it was there
/// already; everything else is a failure, with the status where there is one.
/// The second try follows after two seconds.
pub proof fn law_what_an_answer_means(status: Option<u16>)
    ensures
        answer_means(status) is Ok <==> status == Some(200u16) || status == Some(201u16),
        answer_means(status) matches Err(failure) ==> match status {
            Some(code) => failure == (BellFailure::Refused { status: code }),
            None => failure == BellFailure::Unreachable,
        },
        BELL_PAUSE == 2,
{
}

} // verus!
