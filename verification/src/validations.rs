use vstd::prelude::*;

use crate::errors::{compose_message, AppError};

verus! {

/// Whether `s` is a valid e-mail address in the HTML5 shape, as `validify`
/// decides it: a function of the characters alone.
pub uninterp spec fn email_ok(s: Seq<char>) -> bool;

/// Relies on `validify::validate_email`: the HTML5 e-mail check, depending
/// on nothing but the characters.
#[verifier::external_body]
pub fn is_valid_email(address: &str) -> (r: bool)
    ensures
        r == email_ok(address@),
{
    validify::validate_email(address)
}

/// The Unicode White_Space code points: tab through carriage return,
/// space, next line, no-break space, ogham space mark, the en-quad to
/// hair-space run, line and paragraph separators, narrow no-break space,
/// medium mathematical space and ideographic space.
pub open spec fn whitespace_char(c: char) -> bool {
    ||| (0x9 <= c as u32 && c as u32 <= 0xd)
    ||| c as u32 == 0x20
    ||| c as u32 == 0x85
    ||| c as u32 == 0xa0
    ||| c as u32 == 0x1680
    ||| (0x2000 <= c as u32 && c as u32 <= 0x200a)
    ||| c as u32 == 0x2028
    ||| c as u32 == 0x2029
    ||| c as u32 == 0x202f
    ||| c as u32 == 0x205f
    ||| c as u32 == 0x3000
}

/// Relies on `char::is_whitespace`: documented to decide exactly the
/// Unicode White_Space property, the code points `whitespace_char` lists.
#[verifier::external_body]
pub fn is_whitespace_char(c: char) -> (r: bool)
    ensures
        r == whitespace_char(c),
{
    c.is_whitespace()
}

/// ASCII letters and digits.
pub open spec fn ascii_alnum_char(c: char) -> bool {
    ||| (48 <= c as u32 && c as u32 <= 57)
    ||| (65 <= c as u32 && c as u32 <= 90)
    ||| (97 <= c as u32 && c as u32 <= 122)
}

/// A valid entity name: ASCII letters and digits only, between 4 and 32
/// characters.
pub open spec fn valid_name_spec(s: Seq<char>) -> bool {
    &&& 4 <= s.len() <= 32
    &&& forall|i: int| 0 <= i < s.len() ==> ascii_alnum_char(#[trigger] s[i])
}

/// Checks an application, job or channel name.
pub fn validate_name(name: &str) -> (r: bool)
    ensures
        r == valid_name_spec(name@),
{
    let n = name.unicode_len();
    if n < 4 || n > 32 {
        return false;
    }
    let mut i: usize = 0;
    while i < n
        invariant
            i <= n,
            n == name@.len(),
            4 <= n <= 32,
            forall|j: int| 0 <= j < i ==> ascii_alnum_char(#[trigger] name@[j]),
        decreases n - i,
    {
        let c = name.get_char(i);
        let u = c as u32;
        if !((48 <= u && u <= 57) || (65 <= u && u <= 90) || (97 <= u && u <= 122)) {
            return false;
        }
        i = i + 1;
    }
    true
}

/// A valid webhook URL: an `http://` or `https://` prefix, at least eight
/// characters, and no white space anywhere.
pub open spec fn valid_url_spec(s: Seq<char>) -> bool {
    &&& (s.len() >= 7 && s.subrange(0, 7) == "http://"@) || (s.len() >= 8 && s.subrange(0, 8)
        == "https://"@)
    &&& s.len() >= 8
    &&& forall|i: int| 0 <= i < s.len() ==> !whitespace_char(#[trigger] s[i])
}

/// Whether `s` begins with the prefix `p`; the prefix must be ASCII.
pub fn starts_with_ascii(s: &str, p: &str) -> (r: bool)
    requires
        p.is_ascii(),
    ensures
        r == (s@.len() >= p@.len() && s@.subrange(0, p@.len() as int) == p@),
{
    let np = p.unicode_len();
    let ns = s.unicode_len();
    if ns < np {
        return false;
    }
    let mut i: usize = 0;
    while i < np
        invariant
            i <= np,
            np == p@.len(),
            ns == s@.len(),
            ns >= np,
            forall|j: int| 0 <= j < i ==> s@[j] == p@[j],
        decreases np - i,
    {
        if s.get_char(i) != p.get_char(i) {
            proof {
                assert(s@.subrange(0, np as int)[i as int] != p@[i as int]);
            }
            return false;
        }
        i = i + 1;
    }
    proof {
        assert(s@.subrange(0, np as int) =~= p@);
    }
    true
}

/// Checks a webhook URL for the dispatcher's webhook providers.
pub fn validate_url(url: &str) -> (r: bool)
    ensures
        r == valid_url_spec(url@),
{
    proof {
        reveal_strlit("http://");
        reveal_strlit("https://");
    }
    let has_prefix = starts_with_ascii(url, "http://") || starts_with_ascii(url, "https://");
    if !has_prefix {
        return false;
    }
    let n = url.unicode_len();
    if n < 8 {
        return false;
    }
    let mut i: usize = 0;
    while i < n
        invariant
            i <= n,
            n == url@.len(),
            forall|j: int| 0 <= j < i ==> !whitespace_char(#[trigger] url@[j]),
        decreases n - i,
    {
        if is_whitespace_char(url.get_char(i)) {
            return false;
        }
        i = i + 1;
    }
    true
}

/// Every address in the list is a valid e-mail.
pub open spec fn valid_email_list_spec(emails: Seq<String>) -> bool {
    forall|i: int| 0 <= i < emails.len() ==> email_ok((#[trigger] emails[i])@)
}

/// Checks a recipient list: fails on the first invalid address, naming it
/// in the message.
pub fn validate_email_list(emails: &Vec<String>) -> (r: Result<(), AppError>)
    ensures
        (r is Ok) <==> valid_email_list_spec(emails@),
        r matches Err(e) ==> e is BadRequest && exists|i: int|
            {
                &&& 0 <= i < emails@.len()
                &&& !email_ok((#[trigger] emails@[i])@)
                &&& forall|j: int| 0 <= j < i ==> email_ok((#[trigger] emails@[j])@)
                &&& e.spec_message() == "Invalid email format: "@ + emails@[i]@
            },
{
    let mut i: usize = 0;
    while i < emails.len()
        invariant
            i <= emails.len(),
            forall|j: int| 0 <= j < i ==> email_ok((#[trigger] emails@[j])@),
        decreases emails.len() - i,
    {
        if !is_valid_email(emails[i].as_str()) {
            return Err(
                AppError::BadRequest(
                    compose_message("Invalid email format: ", emails[i].as_str()),
                ),
            );
        }
        i = i + 1;
    }
    Ok(())
}

} // verus!
