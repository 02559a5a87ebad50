//! Small pages of the demo web servers: a one-pixel PNG image, a random
//! number between two bounds, a created user, a record id for a new
//! employee, and the not-found reply.
use base64::Engine;
use rand::Rng;
use vstd::prelude::*;
use vstd::string::StringSliceAdditionalSpecFns;

use crate::text::{decimal, push_decimal, push_signed_decimal, signed_decimal};

verus! {

/// What standard (padded) base64 decoding gives for `input`: the bytes it
/// encodes, or `None` when `input` is not valid standard base64.
pub uninterp spec fn standard_base64_decoded(input: Seq<u8>) -> Option<Seq<u8>>;

/// `base64::engine::general_purpose::STANDARD.decode`: decodes standard,
/// padded base64. The contract claims only that the result is the named
/// decoding of the input, `None` exactly when the crate reports an error.
#[verifier::external_body]
fn decode_standard_base64(input: &[u8]) -> (r: Option<Vec<u8>>)
    ensures
        match r {
            Some(v) => standard_base64_decoded(input@) == Some(v@),
            None => standard_base64_decoded(input@) is None,
        },
{
    match base64::engine::general_purpose::STANDARD.decode(input) {
        Ok(v) => Some(v),
        Err(_) => None,
    }
}

/// A one-pixel PNG image, in standard base64.
pub const PIXEL_PNG_BASE64: &'static str =
    "iVBORw0KGgoAAAANSUhEUgAAAAEAAAABCAYAAAAfFcSJAAAADUlEQVR42mPk+89QDwADvgGOSHzRgAAAAABJRU5ErkJggg==";

/// The picture page: the content type `image/png` and the decoded bytes of
/// the one-pixel image, or `None` if its base64 text did not decode.
pub fn pic_demo() -> (r: Option<(String, Vec<u8>)>)
    ensures
        match standard_base64_decoded(PIXEL_PNG_BASE64.spec_bytes()) {
            Some(bytes) => r matches Some(page) && page.0@ == "image/png"@ && page.1@ == bytes,
            None => r is None,
        },
{
    let text = PIXEL_PNG_BASE64;
    let bytes = text.as_bytes();
    match decode_standard_base64(bytes) {
        Some(v) => Some((String::from_str("image/png"), v)),
        None => None,
    }
}


/// `rand::thread_rng().gen_range(start..end)`: a number drawn uniformly from
/// `start..end` by the thread-local generator. The contract claims only that
/// the number lies in the range, which the crate panics on when empty.
#[verifier::external_body]
fn random_in_range(start: usize, end: usize) -> (r: usize)
    requires
        start < end,
    ensures
        start <= r < end,
{
    rand::thread_rng().gen_range(start..end)
}

/// The page that shows a random number.
pub open spec fn random_number_html(n: nat) -> Seq<char> {
    "<h1>Random Number: "@ + decimal(n) + "</h1>"@
}

/// The page for a drawn number `n`.
pub fn random_number_page_for(n: usize) -> (r: String)
    ensures
        r@ == random_number_html(n as nat),
{
    let mut s = String::from_str("<h1>Random Number: ");
    push_decimal(&mut s, n as u64);
    s.append("</h1>");
    s
}

/// The page that shows a number drawn from `start..end`.
pub fn random_number_page(start: usize, end: usize) -> (r: String)
    requires
        start < end,
    ensures
        exists|n: nat| start <= n < end && r@ == random_number_html(n),
{
    let n = random_in_range(start, end);
    random_number_page_for(n)
}

/// The query parameters of the custom-parameter page.
#[derive(Debug)]
pub struct CustParams {
    pub name: String,
    pub age: i32,
}

impl CustParams {
    /// How the parameters are shown: `name is {name} and age is {age}`.
    pub fn to_display_string(&self) -> (r: String)
        ensures
            r@ == "name is "@ + self.name@ + " and age is "@ + signed_decimal(self.age as int),
    {
        let mut s = String::from_str("name is ");
        s.append(self.name.as_str());
        s.append(" and age is ");
        push_signed_decimal(&mut s, self.age as i64);
        s
    }
}

/// The custom-parameter page.
pub fn use_de(cprm: &CustParams) -> (r: String)
    ensures
        r@ == "Recieved custom Param: "@ + "name is "@ + cprm.name@ + " and age is "@ + signed_decimal(
            cprm.age as int,
        ),
{
    let mut s = String::from_str("Recieved custom Param: ");
    s.append(cprm.to_display_string().as_str());
    s
}

/// The payload of a request that creates a user.
#[derive(Debug)]
pub struct CreateUser {
    pub username: String,
}

/// A created user.
#[derive(Debug)]
pub struct User {
    pub id: u64,
    pub username: String,
}

/// The status code `201 Created`.
pub const STATUS_CREATED: u16 = 201;

/// The status code `404 Not Found`.
pub const STATUS_NOT_FOUND: u16 = 404;

/// Creates the user of a request: it gets the id 1225, and the reply's
/// status is `201 Created`.
pub fn create_user(payload: CreateUser) -> (r: (u16, User))
    ensures
        r.0 == STATUS_CREATED,
        r.1.id == 1225,
        r.1.username@ == payload.username@,
{
    (STATUS_CREATED, User { id: 1225, username: payload.username })
}

/// The reply for a path that no route serves: `404 Not Found` and a
/// message naming the path.
pub fn fallback(uri: &str) -> (r: (u16, String))
    ensures
        r.0 == STATUS_NOT_FOUND,
        r.1@ == "No Route to heaven from: "@ + uri@,
{
    let mut s = String::from_str("No Route to heaven from: ");
    s.append(uri);
    (STATUS_NOT_FOUND, s)
}

/// `c` is a lowercase hexadecimal digit.
pub open spec fn is_lower_hex(c: char) -> bool {
    ('0' <= c && c <= '9') || ('a' <= c && c <= 'f')
}

/// The hyphenated text of a UUID: 36 characters, hyphens at positions 8,
/// 13, 18 and 23 and lowercase hexadecimal digits elsewhere.
pub open spec fn is_hyphenated_uuid(s: Seq<char>) -> bool {
    &&& s.len() == 36
    &&& forall|i: int|
        0 <= i < 36 ==> (if i == 8 || i == 13 || i == 18 || i == 23 {
            #[trigger] s[i] == '-'
        } else {
            is_lower_hex(s[i])
        })
}

/// The hyphenated text of a random (version 4, RFC 4122 variant) UUID: the
/// version digit `4` at position 14, and at position 19 a digit whose top
/// two bits are `10`, that is one of `8`, `9`, `a` and `b`.
pub open spec fn is_v4_uuid(s: Seq<char>) -> bool {
    &&& is_hyphenated_uuid(s)
    &&& s[14] == '4'
    &&& (s[19] == '8' || s[19] == '9' || s[19] == 'a' || s[19] == 'b')
}

/// `uuid::Uuid::new_v4().to_string()`: a random version-4 UUID in its
/// hyphenated lowercase text. `new_v4` masks random bits so that the
/// version and variant bits are always set, and the text is lowercase
/// hexadecimal with four hyphens. The contract claims that shape and those
/// fixed digits; the other 122 bits are left to chance.
#[verifier::external_body]
fn random_uuid_text() -> (r: String)
    ensures
        is_v4_uuid(r@),
{
    uuid::Uuid::new_v4().to_string()
}

/// The record id of an employee with the given UUID text.
pub fn employee_id_for(uuid_text: &str) -> (r: String)
    ensures
        r@ == "employee:"@ + uuid_text@,
{
    let mut s = String::from_str("employee:");
    s.append(uuid_text);
    s
}

/// A fresh record id for a new employee: `employee:` and a random
/// version-4 UUID.
pub fn new_employee_id() -> (r: String)
    ensures
        exists|u: Seq<char>| is_v4_uuid(u) && r@ == "employee:"@ + u,
{
    let u = random_uuid_text();
    employee_id_for(u.as_str())
}

} // verus!
