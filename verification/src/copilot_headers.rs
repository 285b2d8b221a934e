//! GitHub Copilot requires a unique `X-Request-Id` for each inference call.
use reqwest::header::{HeaderMap, HeaderName, HeaderValue, InvalidHeaderValue};
use vstd::prelude::*;
use vstd::string::*;
use vstd::utf8::{encode_utf8, is_ascii_chars, is_ascii_chars_encode_utf8};

verus! {

/// `HeaderMap`, carried as it is; [`header_values`] says what one of header values holds.
#[verifier::external_type_specification]
#[verifier::external_body]
#[verifier::reject_recursive_types(T)]
pub struct ExHeaderMap<T>(reqwest::header::HeaderMap<T>);

/// `HeaderName`, carried as it is; [`name_text`] says which name it is.
#[verifier::external_type_specification]
#[verifier::external_body]
pub struct ExHeaderName(reqwest::header::HeaderName);

/// `HeaderValue`, carried as it is; [`value_bytes`] says what one holds.
#[verifier::external_type_specification]
#[verifier::external_body]
pub struct ExHeaderValue(reqwest::header::HeaderValue);

/// The error of `HeaderValue::from_str`, which says nothing more.
#[verifier::external_type_specification]
#[verifier::external_body]
pub struct ExInvalidHeaderValue(reqwest::header::InvalidHeaderValue);

/// The values that a header map holds under each name, in the order in which they were added.
pub uninterp spec fn header_values(
    headers: HeaderMap<HeaderValue>,
) -> Map<Seq<char>, Seq<Seq<u8>>>;

/// The bytes of a header value.
pub uninterp spec fn value_bytes(value: HeaderValue) -> Seq<u8>;

/// The text of a header name, in lower case.
pub uninterp spec fn name_text(name: HeaderName) -> Seq<char>;

/// Whether a byte may stand in a header value.
pub open spec fn is_value_byte(b: u8) -> bool {
    b >= 32 && b != 127 || b == 9
}

/// Whether a text consists of small letters, digits and hyphens, as header names commonly are.
pub open spec fn is_plain_name(name: Seq<char>) -> bool {
    &&& 0 < name.len() <= 64
    &&& forall|i: int|
        0 <= i < name.len() ==> {
            ||| 'a' <= #[trigger] name[i] <= 'z'
            ||| '0' <= name[i] <= '9'
            ||| name[i] == '-'
        }
}

/// Whether `c` is a hexadecimal digit in lower case.
pub open spec fn is_hex_digit(c: char) -> bool {
    '0' <= c <= '9' || 'a' <= c <= 'f'
}

/// Whether a text has the hyphenated form of a random UUID: groups of eight, four, four, four and
/// twelve digits, the version digit `4` and one of the four variant digits.
pub open spec fn is_random_uuid(s: Seq<char>) -> bool {
    &&& s.len() == 36
    &&& forall|i: int|
        0 <= i < 36 ==> if i == 8 || i == 13 || i == 18 || i == 23 {
            #[trigger] s[i] == '-'
        } else {
            is_hex_digit(s[i])
        }
    &&& s[14] == '4'
    &&& s[19] == '8' || s[19] == '9' || s[19] == 'a' || s[19] == 'b'
}

/// The number of names below which a header map always has room for another one.
pub const ROOM_FOR_NAMES: usize = 6554;

/// `Uuid::new_v4`, written with `to_string`: a random UUID in its hyphenated lower case form.
/// Which one comes is up to chance, so no more is claimed; above all not that two calls differ.
#[verifier::external_body]
fn new_uuid() -> (id: String)
    ensures
        is_random_uuid(id@),
{
    uuid::Uuid::new_v4().to_string()
}

/// `HeaderValue::from_str`: the UTF-8 bytes of the text, if each may stand in a header value.
#[verifier::external_body]
fn header_value(text: &str) -> (r: Result<HeaderValue, InvalidHeaderValue>)
    ensures
        r is Ok <==> is_value_text(text@),
        r is Ok ==> value_bytes(r->Ok_0) == encode_utf8(text@),
{
    HeaderValue::from_str(text)
}

/// `HeaderName::from_static`: the name with the given text. It panics on texts that are no header
/// name in lower case, and the plain names are none of those.
#[verifier::external_body]
fn header_name(text: &'static str) -> (name: HeaderName)
    requires
        is_plain_name(text@),
    ensures
        name_text(name) == text@,
{
    HeaderName::from_static(text)
}

/// `HeaderMap::try_insert`: the value becomes the only one of its name. A map that has reached its
/// maximal size refuses and stays as it is; one with few names never does.
#[verifier::external_body]
fn set_header(headers: &mut HeaderMap<HeaderValue>, name: HeaderName, value: HeaderValue) -> (set:
    bool)
    ensures
        header_values(*final(headers)) == if set {
            header_values(*old(headers)).insert(name_text(name), seq![value_bytes(value)])
        } else {
            header_values(*old(headers))
        },
        has_room(header_values(*old(headers))) ==> set,
{
    headers.try_insert(name, value).is_ok()
}

/// Whether every byte of a text may stand in a header value.
pub open spec fn is_value_text(text: Seq<char>) -> bool {
    forall|i: int|
        0 <= i < encode_utf8(text).len() ==> is_value_byte(#[trigger] encode_utf8(text)[i])
}

/// Whether a header map with these values surely has room for another name.
pub open spec fn has_room(headers: Map<Seq<char>, Seq<Seq<u8>>>) -> bool {
    headers.dom().finite() && headers.dom().len() < ROOM_FOR_NAMES
}

/// The header values with `id` as the only request id.
pub open spec fn with_request_id(
    headers: Map<Seq<char>, Seq<Seq<u8>>>,
    id: Seq<char>,
) -> Map<Seq<char>, Seq<Seq<u8>>> {
    headers.insert("x-request-id"@, seq![encode_utf8(id)])
}

/// Makes `id` the request id of `headers`, in place of any other, and tells whether it did. An id
/// that cannot stand in a header is not set, and a header map of maximal size may refuse.
pub fn set_request_id(headers: &mut HeaderMap<HeaderValue>, id: &str) -> (set: bool)
    ensures
        header_values(*final(headers)) == if set {
            with_request_id(header_values(*old(headers)), id@)
        } else {
            header_values(*old(headers))
        },
        set ==> is_value_text(id@),
        is_value_text(id@) && has_room(header_values(*old(headers))) ==> set,
{
    match header_value(id) {
        Ok(value) => {
            proof {
                reveal_strlit("x-request-id");
            }
            let name = header_name("x-request-id");
            set_header(headers, name, value)
        },
        Err(_) => false,
    }
}

/// Gives each request an id of its own.
#[derive(Debug, Clone, Copy, PartialEq, Eq, Structural)]
pub struct CopilotHeaderInjector;

impl CopilotHeaderInjector {
    /// Sets the request id of `headers` to a new random UUID, in place of any other. Only a header
    /// map of maximal size may stay as it is.
    pub fn inject(&self, headers: &mut HeaderMap<HeaderValue>)
        ensures
            ({
                ||| exists|id: Seq<char>|
                    is_random_uuid(id) && header_values(*final(headers)) == #[trigger]
                        with_request_id(header_values(*old(headers)), id)
                ||| header_values(*final(headers)) == header_values(*old(headers)) && !has_room(
                    header_values(*old(headers)),
                )
            }),
    {
        let id = new_uuid();
        proof {
            uuid_stands_in_a_header(id@);
        }
        let _set = set_request_id(headers, id.as_str());
    }
}

/// Only the request id changes: every other header keeps its values, and the id that was there
/// before does not matter.
pub proof fn only_the_request_id_changes(
    headers: Map<Seq<char>, Seq<Seq<u8>>>,
    earlier: Seq<char>,
    id: Seq<char>,
    name: Seq<char>,
)
    requires
        name != "x-request-id"@,
    ensures
        with_request_id(headers, id).dom().contains(name) == headers.dom().contains(name),
        headers.dom().contains(name) ==> with_request_id(headers, id)[name] == headers[name],
        with_request_id(with_request_id(headers, earlier), id) == with_request_id(headers, id),
{
    assert(with_request_id(with_request_id(headers, earlier), id) =~= with_request_id(headers, id));
}

/// A random UUID is written with one byte for each of its characters, and each may stand in a
/// header value.
pub proof fn uuid_stands_in_a_header(id: Seq<char>)
    requires
        is_random_uuid(id),
    ensures
        encode_utf8(id) == Seq::new(id.len(), |i: int| id[i] as u8),
        is_value_text(id),
{
    assert forall|i: int| 0 <= i < id.len() implies 45 <= (#[trigger] id[i]) as u32 <= 102 by {
        if i == 8 || i == 13 || i == 18 || i == 23 {
            assert(id[i] == '-');
        } else {
            assert(is_hex_digit(id[i]));
        }
    }
    assert(is_ascii_chars(id));
    is_ascii_chars_encode_utf8(id);
    assert(encode_utf8(id) =~= Seq::new(id.len(), |i: int| id[i] as u8));
}

/// A request id that is set is the only value of its header, byte by byte, and setting it again
/// changes nothing more.
pub proof fn a_set_id_is_the_only_one(headers: Map<Seq<char>, Seq<Seq<u8>>>, id: Seq<char>)
    ensures
        with_request_id(headers, id).dom().contains("x-request-id"@),
        with_request_id(headers, id)["x-request-id"@].len() == 1,
        with_request_id(headers, id)["x-request-id"@][0] == encode_utf8(id),
        with_request_id(with_request_id(headers, id), id) == with_request_id(headers, id),
{
    assert(with_request_id(with_request_id(headers, id), id) =~= with_request_id(headers, id));
}

/// A drawn id has the form of a random UUID: thirty-six characters, hyphens behind the eighth,
/// twelfth, sixteenth and twentieth digit, and else digits and small letters up to `f`, with the
/// version and the variant of a random one.
pub proof fn a_drawn_id_is_a_random_uuid(id: Seq<char>, i: int)
    requires
        is_random_uuid(id),
        0 <= i < id.len(),
    ensures
        id.len() == 36,
        i == 8 || i == 13 || i == 18 || i == 23 ==> id[i] == '-',
        !(i == 8 || i == 13 || i == 18 || i == 23) ==> '0' <= id[i] <= '9' || 'a' <= id[i] <= 'f',
        i == 14 ==> id[i] == '4',
        i == 19 ==> id[i] == '8' || id[i] == '9' || id[i] == 'a' || id[i] == 'b',
{
    if i == 8 || i == 13 || i == 18 || i == 23 {
        assert(id[i] == '-');
    } else {
        assert(is_hex_digit(id[i]));
    }
}

/// A text can be set as an id if none of its bytes is a control character other than a tab.
pub proof fn an_id_has_no_control_characters(id: Seq<char>)
    ensures
        is_value_text(id) == forall|i: int|
            0 <= i < encode_utf8(id).len() ==> (#[trigger] encode_utf8(id)[i] == 9u8 || encode_utf8(
                id,
            )[i] >= 32u8 && encode_utf8(id)[i] != 127u8),
{
}

/// A header map with fewer than some thousand names has room for the id.
pub proof fn small_header_maps_have_room(headers: Map<Seq<char>, Seq<Seq<u8>>>)
    ensures
        headers.dom().finite() && headers.dom().len() < 6554 ==> has_room(headers),
        has_room(headers) ==> headers.dom().finite(),
{
}

} // verus!
