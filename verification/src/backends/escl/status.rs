//! HTTP status codes as the protocol reads them and as error texts show
//! them.

use crate::text::{append_decimal, decimal};
use vstd::prelude::*;

verus! {

/// The status codes that stand for success.
pub open spec fn is_success(status: u16) -> bool {
    200 <= status <= 299
}

pub fn status_is_success(status: u16) -> (success: bool)
    ensures
        success == is_success(status),
{
    200 <= status && status <= 299
}

/// The reason phrase that goes with a status code, such as `Not Found` with
/// 404; `None` for a code that has none.
pub uninterp spec fn reason_phrase(status: u16) -> Option<Seq<char>>;

pub open spec fn phrase_view(phrase: Option<&str>) -> Option<Seq<char>> {
    match phrase {
        Some(p) => Some(p@),
        None => None,
    }
}

/// Looks up the reason phrase of a status code, by
/// `StatusCode::canonical_reason` of the `http` crate as `reqwest` hands
/// it on. A number that is no status code (below 100 or above 999) has no
/// phrase. The contract names the phrase and says nothing of what it is.
#[verifier::external_body]
fn canonical_reason(status: u16) -> (phrase: Option<&'static str>)
    ensures
        phrase_view(phrase) == reason_phrase(status),
{
    match reqwest::StatusCode::from_u16(status) {
        Ok(code) => code.canonical_reason(),
        Err(_) => None,
    }
}

/// A status as a line of text: the code, a space, and the phrase, for which
/// `<unknown status code>` stands in where there is none.
pub open spec fn status_line_of(status: u16, phrase: Option<Seq<char>>) -> Seq<char> {
    decimal(status as nat) + seq![' '] + match phrase {
        Some(p) => p,
        None => "<unknown status code>"@,
    }
}

/// The line of text for a status code.
pub open spec fn status_line(status: u16) -> Seq<char> {
    status_line_of(status, reason_phrase(status))
}

/// Appends the line of text for a status, given its reason phrase.
pub fn append_status_line_of(out: &mut String, status: u16, phrase: Option<&str>)
    ensures
        final(out)@ == old(out)@ + status_line_of(status, phrase_view(phrase)),
{
    proof {
        reveal_strlit(" ");
        assert(" "@ =~= seq![' ']);
    }
    append_decimal(out, status as u64);
    out.append(" ");
    match phrase {
        Some(p) => {
            out.append(p);
        },
        None => {
            out.append("<unknown status code>");
        },
    }
    assert(out@ =~= old(out)@ + status_line_of(status, phrase_view(phrase)));
}

/// Appends the line of text for a status code.
pub fn append_status_line(out: &mut String, status: u16)
    ensures
        final(out)@ == old(out)@ + status_line(status),
{
    let phrase = canonical_reason(status);
    append_status_line_of(out, status, phrase);
}

} // verus!
