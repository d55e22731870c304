//! HTTP header maps.
use crate::decimal;
use axum::http::{HeaderMap, HeaderValue};
use vstd::prelude::*;
use vstd::utf8::*;

verus! {

/// `http::HeaderMap`, the header multimap of the HTTP stack.
#[verifier::external_type_specification]
#[verifier::external_body]
#[verifier::reject_recursive_types(T)]
pub struct ExHeaderMap<T>(axum::http::HeaderMap<T>);

/// `http::HeaderValue`, the value type that a header map holds by default.
#[verifier::external_type_specification]
#[verifier::external_body]
pub struct ExHeaderValue(axum::http::HeaderValue);

/// What a header map holds: under each name, in lower case, the bytes of its
/// values in the order in which they were added.
pub uninterp spec fn header_entries(map: HeaderMap<HeaderValue>) -> Map<Seq<char>, Seq<Seq<u8>>>;

/// The contents of an empty header map.
pub open spec fn no_entries() -> Map<Seq<char>, Seq<Seq<u8>>> {
    Map::empty()
}

/// A header name as it is kept: lower-case letters, digits and hyphens.
pub open spec fn is_plain_name(name: Seq<char>) -> bool {
    &&& 0 < name.len() <= 64
    &&& forall|i: int|
        0 <= i < name.len() ==> {
            ||| 'a' <= #[trigger] name[i] <= 'z'
            ||| '0' <= name[i] <= '9'
            ||| name[i] == '-'
        }
}

/// A character that a header value made from text may hold.
pub open spec fn is_value_char(c: char) -> bool {
    c == '\t' || (c >= ' ' && c != '\u{7f}')
}

/// A text that can be a header value.
pub open spec fn is_value_text(s: Seq<char>) -> bool {
    forall|i: int| 0 <= i < s.len() ==> is_value_char(#[trigger] s[i])
}

/// A byte that stands for a visible ASCII character, a space or a tab.
pub open spec fn is_visible_byte(b: u8) -> bool {
    b == 9 || 32 <= b < 127
}

/// The text that a row of visible bytes spells; nothing where one of them is
/// not visible.
pub open spec fn visible_text(bytes: Seq<u8>) -> Option<Seq<char>> {
    if forall|i: int| 0 <= i < bytes.len() ==> is_visible_byte(#[trigger] bytes[i]) {
        Some(bytes.map_values(|b: u8| b as char))
    } else {
        None
    }
}

/// The first value under `name`, as a text.
pub open spec fn text_under(
    entries: Map<Seq<char>, Seq<Seq<u8>>>,
    name: Seq<char>,
) -> Option<Seq<char>> {
    if entries.contains_key(name) && entries[name].len() > 0 {
        visible_text(entries[name][0])
    } else {
        None
    }
}

/// The one value that a text makes.
pub open spec fn single(text: Seq<char>) -> Seq<Seq<u8>> {
    seq![encode_utf8(text)]
}

/// `http::HeaderMap::new`: an empty map.
#[verifier::external_body]
pub(crate) fn new_headers() -> (headers: HeaderMap<HeaderValue>)
    ensures
        header_entries(headers) == no_entries(),
{
    HeaderMap::new()
}

/// `http::HeaderMap::insert`: `value` becomes the only value under `name`, and
/// nothing else changes. The call panics on a name that is not a header name,
/// on a text that is not a header value and on a map that has reached its
/// size limit, so those are left out.
#[verifier::external_body]
pub(crate) fn insert_header(map: &mut HeaderMap<HeaderValue>, name: &'static str, value: &str)
    requires
        is_plain_name(name@),
        is_value_text(value@),
        header_entries(*old(map)).dom().finite(),
        header_entries(*old(map)).dom().len() < 4096,
    ensures
        header_entries(*final(map)) == header_entries(*old(map)).insert(
            name@,
            single(value@),
        ),
{
    map.insert(name, HeaderValue::from_str(value).unwrap());
}

/// `http::HeaderMap::get` and `http::HeaderValue::to_str`: the first value
/// under `name`, as a text, where there is one and all of its bytes are
/// visible ASCII characters, spaces or tabs.
#[verifier::external_body]
pub(crate) fn header_text<'a>(map: &'a HeaderMap<HeaderValue>, name: &str) -> (text: Option<&'a str>)
    requires
        is_plain_name(name@),
    ensures
        text matches Some(t) ==> text_under(header_entries(*map), name@) == Some(t@),
        text is None ==> text_under(header_entries(*map), name@) is None,
{
    match map.get(name) {
        Some(value) => value.to_str().ok(),
        None => None,
    }
}

/// `http::HeaderValue::from_str`: whether the text can be a header value,
/// which is so when it holds no control character but tabs.
#[verifier::external_body]
pub(crate) fn is_header_value(text: &str) -> (r: bool)
    ensures
        r == is_value_text(text@),
{
    HeaderValue::from_str(text).is_ok()
}

/// The header name under which a proxy reports the client.
pub const FORWARDED_FOR: &'static str = "x-forwarded-for";

/// The content security policy that every answer carries.
pub const CONTENT_SECURITY_POLICY: &'static str =
    "default-src 'self'; script-src 'none'; style-src 'unsafe-inline'";

/// The headers of a plain-text answer.
pub open spec fn plain_entries() -> Map<Seq<char>, Seq<Seq<u8>>> {
    no_entries().insert("content-type"@, single("text/plain"@))
}

/// The headers of a plain-text answer that names its character set.
pub open spec fn utf8_text_entries() -> Map<Seq<char>, Seq<Seq<u8>>> {
    no_entries().insert("content-type"@, single("text/plain; charset=utf-8"@))
}

/// The headers of a PDF answer, but for the rate-limit headers.
pub open spec fn document_entries() -> Map<Seq<char>, Seq<Seq<u8>>> {
    no_entries().insert("content-type"@, single("application/pdf"@)).insert(
        "content-disposition"@,
        single("attachment; filename=generated-document.pdf"@),
    )
}

/// `entries` with the rate-limit headers for a limiter whose cooldown has
/// `secs` seconds left: one request per window, what remains of it, and the
/// seconds until the window ends.
pub open spec fn with_rate_limit(
    entries: Map<Seq<char>, Seq<Seq<u8>>>,
    secs: nat,
) -> Map<Seq<char>, Seq<Seq<u8>>> {
    entries.insert("x-ratelimit-limit"@, single("1"@)).insert(
        "x-ratelimit-remaining"@,
        single(
            if secs == 0 {
                "1"@
            } else {
                "0"@
            },
        ),
    ).insert("x-ratelimit-reset"@, single(decimal::numeral(secs)))
}

/// The headers of the answer to a request that has to wait `secs` seconds.
pub open spec fn rejected_entries(secs: nat) -> Map<Seq<char>, Seq<Seq<u8>>> {
    with_rate_limit(plain_entries(), secs).insert("retry-after"@, single(decimal::numeral(secs)))
}

proof fn lemma_numeral_is_value_text(n: nat)
    ensures
        is_value_text(decimal::numeral(n)),
{
    decimal::lemma_numeral_parses(n, n);
    assert forall|i: int| 0 <= i < decimal::numeral(n).len() implies is_value_char(
        #[trigger] decimal::numeral(n)[i],
    ) by {
        assert(decimal::is_digit(decimal::numeral(n)[i]));
    }
}

/// The headers of a plain-text answer.
pub fn plain_text_headers() -> (headers: HeaderMap<HeaderValue>)
    ensures
        header_entries(headers) == plain_entries(),
{
    proof {
        reveal_strlit("content-type");
        reveal_strlit("text/plain");
    }
    let mut headers = new_headers();
    insert_header(&mut headers, "content-type", "text/plain");
    headers
}

/// The headers of a plain-text answer that names its character set.
pub fn utf8_text_headers() -> (headers: HeaderMap<HeaderValue>)
    ensures
        header_entries(headers) == utf8_text_entries(),
{
    proof {
        reveal_strlit("content-type");
        reveal_strlit("text/plain; charset=utf-8");
    }
    let mut headers = new_headers();
    insert_header(&mut headers, "content-type", "text/plain; charset=utf-8");
    headers
}

/// Adds the rate-limit headers to `headers`.
fn add_rate_limit(headers: &mut HeaderMap<HeaderValue>, secs: u64)
    requires
        header_entries(*old(headers)).dom().finite(),
        header_entries(*old(headers)).dom().len() < 4000,
    ensures
        header_entries(*final(headers)) == with_rate_limit(
            header_entries(*old(headers)),
            secs as nat,
        ),
{
    proof {
        reveal_strlit("x-ratelimit-limit");
        reveal_strlit("x-ratelimit-remaining");
        reveal_strlit("x-ratelimit-reset");
        reveal_strlit("0");
        reveal_strlit("1");
        lemma_numeral_is_value_text(secs as nat);
    }
    insert_header(headers, "x-ratelimit-limit", "1");
    insert_header(
        headers,
        "x-ratelimit-remaining",
        if secs == 0 {
            "1"
        } else {
            "0"
        },
    );
    insert_header(headers, "x-ratelimit-reset", decimal::decimal(secs).as_str());
}

/// The headers of the answer to a request that has to wait `secs` seconds.
pub fn rejected_headers(secs: u64) -> (headers: HeaderMap<HeaderValue>)
    ensures
        header_entries(headers) == rejected_entries(secs as nat),
{
    proof {
        reveal_strlit("retry-after");
        lemma_numeral_is_value_text(secs as nat);
    }
    let mut headers = plain_text_headers();
    add_rate_limit(&mut headers, secs);
    insert_header(&mut headers, "retry-after", decimal::decimal(secs).as_str());
    headers
}

/// The headers of a PDF answer, given while the cooldown has `secs` seconds
/// left.
pub fn document_headers(secs: u64) -> (headers: HeaderMap<HeaderValue>)
    ensures
        header_entries(headers) == with_rate_limit(document_entries(), secs as nat),
{
    proof {
        reveal_strlit("content-type");
        reveal_strlit("application/pdf");
        reveal_strlit("content-disposition");
        reveal_strlit("attachment; filename=generated-document.pdf");
    }
    let mut headers = new_headers();
    insert_header(&mut headers, "content-type", "application/pdf");
    insert_header(
        &mut headers,
        "content-disposition",
        "attachment; filename=generated-document.pdf",
    );
    add_rate_limit(&mut headers, secs);
    headers
}

/// A text of visible ASCII characters reads back from its bytes.
proof fn lemma_visible_text_round_trip(s: Seq<char>)
    requires
        forall|i: int| 0 <= i < s.len() ==> ' ' <= #[trigger] s[i] <= '~',
    ensures
        visible_text(encode_utf8(s)) == Some(s),
{
    assert(is_ascii_chars(s));
    is_ascii_chars_encode_utf8(s);
    let bytes = encode_utf8(s);
    assert(bytes.map_values(|b: u8| b as char) =~= s);
}

/// A client that reads the headers of a rejection finds one request per
/// window, none of it left, and, under both names, the seconds to wait.
pub proof fn lemma_rejection_headers_readable(secs: nat)
    requires
        0 < secs <= u64::MAX,
    ensures
        text_under(rejected_entries(secs), "x-ratelimit-limit"@) == Some("1"@),
        text_under(rejected_entries(secs), "x-ratelimit-remaining"@) == Some("0"@),
        text_under(rejected_entries(secs), "x-ratelimit-reset"@) matches Some(t)
            && decimal::parsed(t, u64::MAX as nat) == Some(secs),
        text_under(rejected_entries(secs), "retry-after"@) matches Some(t) && decimal::parsed(
            t,
            u64::MAX as nat,
        ) == Some(secs),
        text_under(rejected_entries(secs), "content-type"@) == Some("text/plain"@),
{
    lemma_names_distinct();
    lemma_number_reads_back(secs);
    reveal_strlit("0");
    reveal_strlit("1");
    reveal_strlit("text/plain");
    lemma_visible_text_round_trip("0"@);
    lemma_visible_text_round_trip("1"@);
    lemma_visible_text_round_trip("text/plain"@);
}

/// A client that reads the headers of a PDF answer finds its type, the file
/// name, one request per window, what remains of it and the seconds until the
/// window ends; it is told of no waiting time.
pub proof fn lemma_document_headers_readable(secs: nat)
    requires
        secs <= u64::MAX,
    ensures
        ({
            let entries = with_rate_limit(document_entries(), secs);
            &&& text_under(entries, "content-type"@) == Some("application/pdf"@)
            &&& text_under(entries, "content-disposition"@) == Some(
                "attachment; filename=generated-document.pdf"@,
            )
            &&& text_under(entries, "x-ratelimit-limit"@) == Some("1"@)
            &&& text_under(entries, "x-ratelimit-remaining"@) == Some(
                if secs == 0 {
                    "1"@
                } else {
                    "0"@
                },
            )
            &&& text_under(entries, "x-ratelimit-reset"@) matches Some(t) && decimal::parsed(
                t,
                u64::MAX as nat,
            ) == Some(secs)
            &&& text_under(entries, "retry-after"@) is None
        }),
{
    lemma_names_distinct();
    lemma_number_reads_back(secs);
    reveal_strlit("0");
    reveal_strlit("1");
    reveal_strlit("application/pdf");
    reveal_strlit("attachment; filename=generated-document.pdf");
    lemma_visible_text_round_trip("0"@);
    lemma_visible_text_round_trip("1"@);
    lemma_visible_text_round_trip("application/pdf"@);
    lemma_visible_text_round_trip("attachment; filename=generated-document.pdf"@);
}

proof fn lemma_number_reads_back(n: nat)
    requires
        n <= u64::MAX,
    ensures
        visible_text(encode_utf8(decimal::numeral(n))) == Some(decimal::numeral(n)),
        decimal::parsed(decimal::numeral(n), u64::MAX as nat) == Some(n),
{
    decimal::lemma_numeral_parses(n, u64::MAX as nat);
    let s = decimal::numeral(n);
    assert forall|i: int| 0 <= i < s.len() implies ' ' <= #[trigger] s[i] <= '~' by {
        assert(decimal::is_digit(s[i]));
    }
    lemma_visible_text_round_trip(s);
}

pub(crate) proof fn lemma_names_distinct()
    ensures
        "content-type"@ != "content-disposition"@,
        "content-type"@ != "x-ratelimit-limit"@,
        "content-type"@ != "x-ratelimit-remaining"@,
        "content-type"@ != "x-ratelimit-reset"@,
        "content-type"@ != "retry-after"@,
        "content-disposition"@ != "x-ratelimit-limit"@,
        "content-disposition"@ != "x-ratelimit-remaining"@,
        "content-disposition"@ != "x-ratelimit-reset"@,
        "content-disposition"@ != "retry-after"@,
        "x-ratelimit-limit"@ != "x-ratelimit-remaining"@,
        "x-ratelimit-limit"@ != "x-ratelimit-reset"@,
        "x-ratelimit-limit"@ != "retry-after"@,
        "x-ratelimit-remaining"@ != "x-ratelimit-reset"@,
        "x-ratelimit-remaining"@ != "retry-after"@,
        "x-ratelimit-reset"@ != "retry-after"@,
{
    reveal_strlit("content-type");
    reveal_strlit("content-disposition");
    reveal_strlit("x-ratelimit-limit");
    reveal_strlit("x-ratelimit-remaining");
    reveal_strlit("x-ratelimit-reset");
    reveal_strlit("retry-after");
    assert("content-type"@.len() == 12);
    assert("content-disposition"@.len() == 19);
    assert("x-ratelimit-limit"@.len() == 17);
    assert("x-ratelimit-remaining"@.len() == 21);
    assert("x-ratelimit-reset"@.len() == 17);
    assert("retry-after"@.len() == 11);
    assert("x-ratelimit-limit"@[12] != "x-ratelimit-reset"@[12]);
}

/// A header value reads as a text exactly when each of its bytes is a tab or
/// lies between the space and the tilde, and then character by character.
pub proof fn lemma_visible_text_is_the_bytes(bytes: Seq<u8>)
    ensures
        visible_text(bytes) is Some <==> (forall|i: int|
            0 <= i < bytes.len() ==> #[trigger] bytes[i] == 9 || 0x20 <= bytes[i] <= 0x7E),
        visible_text(bytes) matches Some(t) ==> t.len() == bytes.len() && (forall|i: int|
            0 <= i < bytes.len() ==> #[trigger] t[i] as u32 == bytes[i] as u32),
{
    if forall|i: int|
        0 <= i < bytes.len() ==> #[trigger] bytes[i] == 9 || 0x20 <= bytes[i] <= 0x7E {
        assert forall|i: int| 0 <= i < bytes.len() implies is_visible_byte(#[trigger] bytes[i]) by {
            let b = bytes[i];
        }
    }
}

/// Of several values under one name the first is read, and of none nothing.
pub proof fn lemma_first_value_is_read(
    entries: Map<Seq<char>, Seq<Seq<u8>>>,
    name: Seq<char>,
    first: Seq<u8>,
    more: Seq<Seq<u8>>,
)
    ensures
        !entries.contains_key(name) ==> text_under(entries, name) is None,
        text_under(entries.insert(name, seq![first] + more), name) == visible_text(first),
        text_under(entries.insert(name, Seq::empty()), name) is None,
{
}

/// A plain-text answer has a content type and no other header.
pub proof fn lemma_plain_text_headers_result(headers: HeaderMap<HeaderValue>)
    requires
        call_ensures(plain_text_headers, (), headers),
    ensures
        header_entries(headers).dom() == set!["content-type"@],
        header_entries(headers)["content-type"@] == seq![encode_utf8("text/plain"@)],
{
    assert(header_entries(headers).dom() =~= set!["content-type"@]);
}

/// A plain-text answer that names its character set has no other header.
pub proof fn lemma_utf8_text_headers_result(headers: HeaderMap<HeaderValue>)
    requires
        call_ensures(utf8_text_headers, (), headers),
    ensures
        header_entries(headers).dom() == set!["content-type"@],
        header_entries(headers)["content-type"@] == seq![encode_utf8("text/plain; charset=utf-8"@)],
{
    assert(header_entries(headers).dom() =~= set!["content-type"@]);
}

/// A rejection has five headers: the content type, the limit of one request,
/// what remains of it, and under two names the seconds to wait.
pub proof fn lemma_rejected_headers_result(secs: u64, headers: HeaderMap<HeaderValue>)
    requires
        call_ensures(rejected_headers, (secs,), headers),
    ensures
        header_entries(headers).dom() == set![
            "content-type"@,
            "x-ratelimit-limit"@,
            "x-ratelimit-remaining"@,
            "x-ratelimit-reset"@,
            "retry-after"@,
        ],
        header_entries(headers)["content-type"@] == seq![encode_utf8("text/plain"@)],
        header_entries(headers)["x-ratelimit-limit"@] == seq![encode_utf8("1"@)],
        secs > 0 ==> header_entries(headers)["x-ratelimit-remaining"@] == seq![encode_utf8("0"@)],
        secs == 0 ==> header_entries(headers)["x-ratelimit-remaining"@] == seq![encode_utf8("1"@)],
        header_entries(headers)["x-ratelimit-reset"@] == seq![
            encode_utf8(decimal::numeral(secs as nat)),
        ],
        header_entries(headers)["retry-after"@] == seq![encode_utf8(decimal::numeral(secs as nat))],
{
    lemma_names_distinct();
    assert(header_entries(headers).dom() =~= set![
        "content-type"@,
        "x-ratelimit-limit"@,
        "x-ratelimit-remaining"@,
        "x-ratelimit-reset"@,
        "retry-after"@,
    ]);
}

/// A PDF answer has five headers: the content type, the file name, the limit of
/// one request, what remains of it, and the seconds until the window ends.
pub proof fn lemma_document_headers_result(secs: u64, headers: HeaderMap<HeaderValue>)
    requires
        call_ensures(document_headers, (secs,), headers),
    ensures
        header_entries(headers).dom() == set![
            "content-type"@,
            "content-disposition"@,
            "x-ratelimit-limit"@,
            "x-ratelimit-remaining"@,
            "x-ratelimit-reset"@,
        ],
        header_entries(headers)["content-type"@] == seq![encode_utf8("application/pdf"@)],
        header_entries(headers)["content-disposition"@] == seq![
            encode_utf8("attachment; filename=generated-document.pdf"@),
        ],
        header_entries(headers)["x-ratelimit-limit"@] == seq![encode_utf8("1"@)],
        secs > 0 ==> header_entries(headers)["x-ratelimit-remaining"@] == seq![encode_utf8("0"@)],
        secs == 0 ==> header_entries(headers)["x-ratelimit-remaining"@] == seq![encode_utf8("1"@)],
        header_entries(headers)["x-ratelimit-reset"@] == seq![
            encode_utf8(decimal::numeral(secs as nat)),
        ],
{
    lemma_names_distinct();
    assert(header_entries(headers).dom() =~= set![
        "content-type"@,
        "content-disposition"@,
        "x-ratelimit-limit"@,
        "x-ratelimit-remaining"@,
        "x-ratelimit-reset"@,
    ]);
}

/// The header under which a proxy reports the client, and the content security
/// policy: no script runs, and nothing is loaded from elsewhere.
pub proof fn lemma_fixed_texts()
    ensures
        FORWARDED_FOR@ == "x-forwarded-for"@,
        CONTENT_SECURITY_POLICY@
            == "default-src 'self'; script-src 'none'; style-src 'unsafe-inline'"@,
{
}

} // verus!
