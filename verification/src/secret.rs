//! Credentials.

use crate::text::{trim, trimmed};
use vstd::prelude::*;
use vstd::std_specs::convert::FromSpec;
use vstd::utf8::*;

verus! {

/// A text that must never reach a log line, an error message or a dump. It
/// has no way to be shown but [`Secret::redacted`], and is read only through
/// [`Secret::expose`].
#[derive(Clone)]
pub struct Secret(String);

impl View for Secret {
    type V = Seq<char>;

    closed spec fn view(&self) -> Seq<char> {
        self.0@
    }
}

proof fn lemma_no_difference(before: u8, a: u8, b: u8)
    ensures
        before | (a ^ b) == 0 <==> before == 0 && a == b,
{
    assert(before | (a ^ b) == 0 <==> before == 0 && a == b) by (bit_vector);
}

impl From<String> for Secret {
    fn from(value: String) -> (r: Secret) {
        Secret(value)
    }
}

impl vstd::std_specs::convert::FromSpecImpl<String> for Secret {
    open spec fn obeys_from_spec() -> bool {
        true
    }

    closed spec fn from_spec(value: String) -> Secret {
        Secret(value)
    }
}

impl Secret {
    /// The secret that a credential file holds: its text without the white
    /// space around it. Such a file ends in a newline more often than not,
    /// and a newline in a key reads as a wrong key.
    pub fn from_file_text(raw: &str) -> (r: Secret)
        ensures
            r@ == trimmed(raw@),
    {
        Secret(trim(raw).to_owned())
    }

    /// The value itself.
    pub fn expose(&self) -> (r: &str)
        ensures
            r@ == self@,
    {
        self.0.as_str()
    }

    /// What may be shown of a secret: nothing of its value.
    pub fn redacted(&self) -> (r: String)
        ensures
            r@ == "<redacted>"@,
    {
        "<redacted>".to_owned()
    }

    /// Whether an offered value equals this secret, in time that does not
    /// depend on how many leading bytes match: every byte is looked at,
    /// whatever the ones before it said. The length is no secret.
    pub fn matches(&self, offered: &str) -> (r: bool)
        ensures
            r == (offered@ == self@),
    {
        let secret = self.0.as_str().as_bytes();
        let other = offered.as_bytes();
        proof {
            encode_utf8_decode_utf8(self.0@);
            encode_utf8_decode_utf8(offered@);
        }
        if secret.len() != other.len() {
            return false;
        }
        let mut diff: u8 = 0;
        let mut i: usize = 0;
        while i < secret.len()
            invariant
                secret@.len() == other@.len(),
                i <= secret@.len(),
                diff == 0 <==> (forall|j: int|
                    0 <= j < i ==> #[trigger] secret@[j] == other@[j]),
            decreases secret@.len() - i,
        {
            proof {
                lemma_no_difference(diff, secret@[i as int], other@[i as int]);
            }
            diff = diff | (secret[i] ^ other[i]);
            i += 1;
        }
        proof {
            if diff == 0 {
                assert(secret@ =~= other@);
            }
        }
        diff == 0
    }
}

/// A secret is the text it was made from: it [matches](Secret::matches) that
/// text and no other.
pub proof fn law_a_secret_is_what_it_was_made_from(text: String)
    ensures
        <Secret as FromSpec<String>>::from_spec(text)@ == text@,
{
}

} // verus!
