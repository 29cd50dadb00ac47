use vstd::prelude::*;
use crate::envelope::{BadResponseObject, DetailValue, DetailView, ErrorCode, code_number, status_for_code};

verus! {

/// The text that `String::from_utf8_lossy` makes of a byte sequence.
pub uninterp spec fn utf8_lossy(b: Seq<u8>) -> Seq<char>;

/// Relies on `String::from_utf8_lossy`: the bytes decoded as UTF-8, each invalid
/// sequence replaced by U+FFFD; the result depends on the bytes alone.
#[verifier::external_body]
fn lossy_text(b: &[u8]) -> (r: String)
    ensures
        r@ == utf8_lossy(b@),
{
    String::from_utf8_lossy(b).into_owned()
}

/// Relies on `str::chars`: the characters of the string, in order.
#[verifier::external_body]
pub(crate) fn chars_of(s: &str) -> (r: Vec<char>)
    ensures
        r@ == s@,
{
    s.chars().collect()
}

/// Relies on `String::from_iter` over chars: the string of these characters.
#[verifier::external_body]
fn string_of(v: &[char]) -> (r: String)
    ensures
        r@ == v@,
{
    v.iter().collect()
}

/// Unicode `White_Space` characters: what `char::is_whitespace` and a regex `\s` accept.
pub open spec fn is_white_space(c: char) -> bool {
    ||| '\u{9}' <= c <= '\u{d}'
    ||| c == ' '
    ||| c == '\u{85}'
    ||| c == '\u{a0}'
    ||| c == '\u{1680}'
    ||| '\u{2000}' <= c <= '\u{200a}'
    ||| c == '\u{2028}'
    ||| c == '\u{2029}'
    ||| c == '\u{202f}'
    ||| c == '\u{205f}'
    ||| c == '\u{3000}'
}

/// Characters that may be echoed back to a client: Latin and Cyrillic letters
/// (`а`-`я`, `А`-`Я`), ASCII digits, white space and the punctuation `:-,.'` and backtick.
pub open spec fn is_echo_safe(c: char) -> bool {
    ||| 'a' <= c <= 'z'
    ||| 'A' <= c <= 'Z'
    ||| '\u{430}' <= c <= '\u{44f}'
    ||| '\u{410}' <= c <= '\u{42f}'
    ||| '0' <= c <= '9'
    ||| is_white_space(c)
    ||| c == ':'
    ||| c == '-'
    ||| c == ','
    ||| c == '.'
    ||| c == '\''
    ||| c == '`'
}

/// `s` without its leading white space.
pub open spec fn trim_start(s: Seq<char>) -> Seq<char>
    decreases s.len(),
{
    if s.len() > 0 && is_white_space(s[0]) {
        trim_start(s.drop_first())
    } else {
        s
    }
}

/// `s` without its trailing white space.
pub open spec fn trim_end(s: Seq<char>) -> Seq<char>
    decreases s.len(),
{
    if s.len() > 0 && is_white_space(s.last()) {
        trim_end(s.drop_last())
    } else {
        s
    }
}

/// The echo-safe characters of `s`, in order.
pub open spec fn echo_safe_chars(s: Seq<char>) -> Seq<char>
    decreases s.len(),
{
    if s.len() == 0 {
        s
    } else if is_echo_safe(s.last()) {
        echo_safe_chars(s.drop_last()).push(s.last())
    } else {
        echo_safe_chars(s.drop_last())
    }
}

/// The echo-safe characters of `s`, in order, with white space trimmed at both ends.
pub open spec fn cleaned(s: Seq<char>) -> Seq<char> {
    trim_end(trim_start(echo_safe_chars(s)))
}

pub(crate) fn is_white_space_char(c: char) -> (r: bool)
    ensures
        r == is_white_space(c),
{
    ('\u{9}' <= c && c <= '\u{d}') || c == ' ' || c == '\u{85}' || c == '\u{a0}' || c == '\u{1680}'
        || ('\u{2000}' <= c && c <= '\u{200a}') || c == '\u{2028}' || c == '\u{2029}' || c
        == '\u{202f}' || c == '\u{205f}' || c == '\u{3000}'
}

fn is_echo_safe_char(c: char) -> (r: bool)
    ensures
        r == is_echo_safe(c),
{
    ('a' <= c && c <= 'z') || ('A' <= c && c <= 'Z') || ('\u{430}' <= c && c <= '\u{44f}') || (
    '\u{410}' <= c && c <= '\u{42f}') || ('0' <= c && c <= '9') || is_white_space_char(c) || c
        == ':' || c == '-' || c == ',' || c == '.' || c == '\'' || c == '`'
}

proof fn lemma_trim_start_skip(s: Seq<char>, i: int)
    requires
        0 <= i <= s.len(),
        forall|j: int| 0 <= j < i ==> is_white_space(#[trigger] s[j]),
    ensures
        trim_start(s) == trim_start(s.skip(i)),
    decreases i,
{
    if i > 0 {
        let d = s.drop_first();
        assert forall|j: int| 0 <= j < i - 1 implies is_white_space(#[trigger] d[j]) by {
            assert(d[j] == s[j + 1]);
        }
        lemma_trim_start_skip(d, i - 1);
        assert(d.skip(i - 1) =~= s.skip(i));
    } else {
        assert(s.skip(0) =~= s);
    }
}

proof fn lemma_trim_end_take(s: Seq<char>, j: int)
    requires
        0 <= j <= s.len(),
        forall|k: int| j <= k < s.len() ==> is_white_space(#[trigger] s[k]),
    ensures
        trim_end(s) == trim_end(s.take(j)),
    decreases s.len() - j,
{
    if j < s.len() {
        let d = s.drop_last();
        assert(is_white_space(s[s.len() - 1]));
        assert forall|k: int| j <= k < d.len() implies is_white_space(#[trigger] d[k]) by {
            assert(d[k] == s[k]);
        }
        lemma_trim_end_take(d, j);
        assert(d.take(j) =~= s.take(j));
    } else {
        assert(s.take(j) =~= s);
    }
}

/// Strips a client-echoed error text down to echo-safe characters and trims it.
pub fn clean_error_message(message: &str) -> (r: String)
    ensures
        r@ == cleaned(message@),
{
    let chars = chars_of(message);
    let mut kept: Vec<char> = Vec::new();
    let mut i: usize = 0;
    while i < chars.len()
        invariant
            i <= chars@.len(),
            kept@ == echo_safe_chars(chars@.take(i as int)),
        decreases chars@.len() - i,
    {
        let c = chars[i];
        proof {
            assert(chars@.take(i + 1).drop_last() =~= chars@.take(i as int));
            assert(chars@.take(i + 1).last() == c);
        }
        if is_echo_safe_char(c) {
            kept.push(c);
        }
        i = i + 1;
    }
    assert(chars@.take(chars@.len() as int) =~= chars@);
    let ghost f = kept@;
    let mut start: usize = 0;
    while start < kept.len() && is_white_space_char(kept[start])
        invariant
            start <= kept@.len(),
            forall|j: int| 0 <= j < start ==> is_white_space(#[trigger] kept@[j]),
        decreases kept@.len() - start,
    {
        start = start + 1;
    }
    proof {
        lemma_trim_start_skip(f, start as int);
        let t = f.skip(start as int);
        if t.len() > 0 {
            assert(t[0] == f[start as int]);
        }
    }
    let ghost t = f.skip(start as int);
    let mut end: usize = kept.len();
    while end > start && is_white_space_char(kept[end - 1])
        invariant
            start <= end <= kept@.len(),
            forall|k: int| end <= k < kept@.len() ==> is_white_space(#[trigger] kept@[k]),
        decreases end,
    {
        end = end - 1;
    }
    proof {
        let e = (end - start) as int;
        assert forall|k: int| e <= k < t.len() implies is_white_space(#[trigger] t[k]) by {
            assert(t[k] == f[k + start]);
        }
        lemma_trim_end_take(t, e);
        let u = t.take(e);
        if u.len() > 0 {
            assert(u.last() == f[end - 1]);
        }
        assert(u =~= f.subrange(start as int, end as int));
    }
    string_of(&kept.as_slice()[start..end])
}

/// What a rewriter sees of a failed response's body.
pub enum ResponseBody {
    /// The body could not be read.
    Unreadable,
    /// The body is already an error envelope.
    Envelope(BadResponseObject),
    /// Any other body, as raw bytes.
    Raw(Vec<u8>),
}

/// Success statuses: the 2xx class, which the rewriter leaves alone.
pub open spec fn is_success_status(status: u16) -> bool {
    200 <= status <= 299
}

/// The envelope that replaces a non-success response whose body is not an
/// envelope, given the body's text; the status sent is the one its code calls
/// for (400 for caller faults, 500 for server faults).
pub open spec fn fallback_of(
    r: (u16, BadResponseObject),
    status: u16,
    text: Seq<char>,
    endpoint: Seq<char>,
) -> bool {
    &&& r.0 == status_for_code(r.1.spec_code())
    &&& if status == 400 {
        r.1.is_entry_with(
            ErrorCode::ValidationError,
            map![
                "reason"@ => DetailView::Text(cleaned(text)),
                "endpoint"@ => DetailView::Text(endpoint),
            ],
        )
    } else if status == 404 {
        r.1.is_entry_with(ErrorCode::NotFoundError, map!["endpoint"@ => DetailView::Text(endpoint)])
    } else if 500 <= status <= 599 {
        r.1.is_entry_with(ErrorCode::InternalError, map!["endpoint"@ => DetailView::Text(endpoint)])
    } else {
        r.1.is_entry_with(
            ErrorCode::UnknownError,
            map![
                "status"@ => DetailView::Integer(status as i64),
                "endpoint"@ => DetailView::Text(endpoint),
            ],
        )
    }
}

/// The generic server error for a response whose body could not be read.
pub open spec fn unreadable_of(r: (u16, BadResponseObject), endpoint: Seq<char>) -> bool {
    &&& r.0 == 500
    &&& r.1.is_entry_with(ErrorCode::InternalError, map!["endpoint"@ => DetailView::Text(endpoint)])
}

fn with_endpoint(e: BadResponseObject, endpoint: &str) -> (r: (u16, BadResponseObject))
    ensures
        r.1.is_with(&e, "endpoint"@, DetailView::Text(endpoint@)),
        r.0 == status_for_code(e.spec_code()),
{
    let s = e.http_status();
    (s, e.with("endpoint", DetailValue::text(endpoint)))
}

fn entry_with_endpoint(code: ErrorCode, endpoint: &str) -> (r: (u16, BadResponseObject))
    ensures
        r.0 == status_for_code(code_number(code)),
        r.1.is_entry_with(code, map!["endpoint"@ => DetailView::Text(endpoint@)]),
{
    let e = code.details().with("endpoint", DetailValue::text(endpoint));
    proof {
        let m = map!["endpoint"@ => DetailView::Text(endpoint@)];
        assert forall|k: Seq<char>| #[trigger]
            e.spec_detail(k) == if m.contains_key(k) {
                Some(m[k])
            } else {
                None
            } by {
            if k == "endpoint"@ {
            } else {
            }
        }
    }
    (e.http_status(), e)
}

/// Rewrites a non-success response whose body is plain text (not an envelope);
/// success responses (2xx) are left alone (`None`).
pub fn rewrite_plain_error(status: u16, text: &str, endpoint: &str) -> (r: Option<
    (u16, BadResponseObject),
>)
    ensures
        r.is_none() <==> is_success_status(status),
        r.is_some() ==> fallback_of(r.unwrap(), status, text@, endpoint@),
{
    if 200 <= status && status <= 299 {
        return None;
    }
    proof {
        reveal_strlit("reason");
        reveal_strlit("endpoint");
        reveal_strlit("status");
    }
    if status == 400 {
        let reason = clean_error_message(text);
        let e = ErrorCode::ValidationError.details().with(
            "reason",
            DetailValue::Text(reason),
        ).with("endpoint", DetailValue::text(endpoint));
        proof {
            let m = map![
                "reason"@ => DetailView::Text(cleaned(text@)),
                "endpoint"@ => DetailView::Text(endpoint@),
            ];
            assert forall|k: Seq<char>| #[trigger]
                e.spec_detail(k) == if m.contains_key(k) {
                    Some(m[k])
                } else {
                    None
                } by {
                if k == "endpoint"@ {
                } else if k == "reason"@ {
                } else {
                }
            }
        }
        Some((e.http_status(), e))
    } else if status == 404 {
        Some(entry_with_endpoint(ErrorCode::NotFoundError, endpoint))
    } else if 500 <= status && status <= 599 {
        Some(entry_with_endpoint(ErrorCode::InternalError, endpoint))
    } else {
        let e = ErrorCode::UnknownError.details().with(
            "status",
            DetailValue::Integer(status as i64),
        ).with("endpoint", DetailValue::text(endpoint));
        proof {
            let m = map![
                "status"@ => DetailView::Integer(status as i64),
                "endpoint"@ => DetailView::Text(endpoint@),
            ];
            assert forall|k: Seq<char>| #[trigger]
                e.spec_detail(k) == if m.contains_key(k) {
                    Some(m[k])
                } else {
                    None
                } by {
                if k == "endpoint"@ {
                } else if k == "status"@ {
                } else {
                }
            }
        }
        Some((e.http_status(), e))
    }
}

/// Normalizes a response into the error envelope format. Success responses
/// (2xx) pass through (`None`); every other status is rewritten. An envelope
/// body keeps its code, message, flags and details, with `endpoint` set to the
/// request path; an unreadable body becomes the generic server error; any other
/// body is rewritten by its status. The status sent is always the one the
/// envelope's code calls for.
pub fn rewrite_error_response(status: u16, body: ResponseBody, endpoint: &str) -> (r: Option<
    (u16, BadResponseObject),
>)
    ensures
        r.is_none() <==> is_success_status(status),
        r.is_some() ==> r.unwrap().0 == status_for_code(r.unwrap().1.spec_code()),
        r.is_some() ==> match body {
            ResponseBody::Unreadable => unreadable_of(r.unwrap(), endpoint@),
            ResponseBody::Envelope(e) => r.unwrap().1.is_with(
                &e,
                "endpoint"@,
                DetailView::Text(endpoint@),
            ),
            ResponseBody::Raw(b) => fallback_of(r.unwrap(), status, utf8_lossy(b@), endpoint@),
        },
{
    if 200 <= status && status <= 299 {
        return None;
    }
    match body {
        ResponseBody::Unreadable => Some(entry_with_endpoint(ErrorCode::InternalError, endpoint)),
        ResponseBody::Envelope(e) => Some(with_endpoint(e, endpoint)),
        ResponseBody::Raw(b) => {
            let text = lossy_text(b.as_slice());
            rewrite_plain_error(status, text.as_str(), endpoint)
        },
    }
}

} // verus!
