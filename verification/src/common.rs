//! Input sanitising, URL encoding, company-name comparison and the tenant
//! configuration fallback.
//!
//! Everything that lands in a URL is checked here first: a country code or a
//! VAT number is interpolated into a VIES path segment, and a company name
//! goes into a GLEIF query string.
use vstd::prelude::*;
use crate::text::{
    ascii_alnum, ascii_upper, ascii_uppercase, chars_of, concat3, contains_chars, copy_str,
    debug_str, has_substring, hex_digit, is_alphanumeric, is_ascii_alnum, is_ascii_upper,
    is_blank, is_white_space, is_whitespace, str_debug, string_of, to_lowercase, trim,
    trim_chars, alphanumeric, ascii_lower, eq_ignore_ascii_case, lower_char, lowercase,
};

verus! {

/// A `Result<String, String>` taken by the views of both sides.
pub open spec fn text_result(r: Result<String, String>) -> Result<Seq<char>, Seq<char>> {
    match r {
        Ok(v) => Ok(v@),
        Err(e) => Err(e@),
    }
}

// ---------------------------------------------------------------------------
// Percent-encoding
// ---------------------------------------------------------------------------

/// The bytes a query-string value may carry as they are (RFC 3986
/// "unreserved").
pub open spec fn is_unreserved(b: u8) -> bool {
    ||| (0x41 <= b && b <= 0x5a)
    ||| (0x61 <= b && b <= 0x7a)
    ||| (0x30 <= b && b <= 0x39)
    ||| b == 0x2d
    ||| b == 0x5f
    ||| b == 0x2e
    ||| b == 0x7e
}

/// One byte, encoded: unreserved bytes stand for themselves, every other
/// byte (the space among them) becomes `%XX` in upper-case hex.
pub open spec fn encode_byte(b: u8) -> Seq<char> {
    if is_unreserved(b) {
        seq![b as char]
    } else {
        seq!['%', hex_digit((b / 16) as nat), hex_digit((b % 16) as nat)]
    }
}

pub open spec fn url_encoded(bytes: Seq<u8>) -> Seq<char>
    decreases bytes.len(),
{
    if bytes.len() == 0 {
        Seq::empty()
    } else {
        url_encoded(bytes.drop_last()) + encode_byte(bytes.last())
    }
}

fn hex_char(d: u8) -> (r: char)
    requires
        d < 16,
    ensures
        r == hex_digit(d as nat),
{
    if d < 10 {
        (d + 48) as char
    } else {
        (d + 55) as char
    }
}

/// Percent-encodes a query-string value.
///
/// Company names arrive from the caller and go straight into a GLEIF query
/// string; without encoding, a name containing `&` or `#` would silently
/// truncate or rewrite the query.
pub fn urlencode(input: &str) -> (r: String)
    ensures
        r@ == url_encoded(vstd::utf8::encode_utf8(input@)),
{
    let bytes = input.as_bytes();
    let n = bytes.len();
    let mut out: Vec<char> = Vec::new();
    for i in 0..n
        invariant
            n == bytes@.len(),
            out@ == url_encoded(bytes@.take(i as int)),
    {
        let b = bytes[i];
        assert(bytes@.take(i + 1).drop_last() =~= bytes@.take(i as int));
        if (0x41 <= b && b <= 0x5a) || (0x61 <= b && b <= 0x7a) || (0x30 <= b && b <= 0x39) || b
            == 0x2d || b == 0x5f || b == 0x2e || b == 0x7e {
            out.push(b as char);
            assert(out@ =~= url_encoded(bytes@.take(i + 1)));
        } else {
            out.push('%');
            out.push(hex_char(b / 16));
            out.push(hex_char(b % 16));
            assert(out@ =~= url_encoded(bytes@.take(i + 1)));
        }
    }
    assert(bytes@.take(n as int) =~= bytes@);
    string_of(&out)
}

// ---------------------------------------------------------------------------
// Validators
// ---------------------------------------------------------------------------

pub open spec fn all_ascii_upper(s: Seq<char>) -> bool {
    forall|i: int| 0 <= i < s.len() ==> is_ascii_upper(#[trigger] s[i])
}

pub open spec fn all_ascii_alnum(s: Seq<char>) -> bool {
    forall|i: int| 0 <= i < s.len() ==> is_ascii_alnum(#[trigger] s[i])
}

/// A valid country code: two ASCII letters once trimmed and upper-cased.
pub open spec fn country_code_spec(code: Seq<char>) -> Result<Seq<char>, Seq<char>> {
    let upper = ascii_upper(trim(code));
    if upper.len() == 2 && all_ascii_upper(upper) {
        Ok(upper)
    } else {
        Err("invalid country_code "@ + str_debug(code) + ": expected two letters, e.g. DE"@)
    }
}

fn check_all_upper(s: &Vec<char>) -> (r: bool)
    ensures
        r == all_ascii_upper(s@),
{
    let n = s.len();
    for i in 0..n
        invariant
            n == s@.len(),
            forall|k: int| 0 <= k < i ==> is_ascii_upper(#[trigger] s@[k]),
    {
        if !('A' <= s[i] && s[i] <= 'Z') {
            return false;
        }
    }
    true
}

fn check_all_alnum(s: &Vec<char>) -> (r: bool)
    ensures
        r == all_ascii_alnum(s@),
{
    let n = s.len();
    for i in 0..n
        invariant
            n == s@.len(),
            forall|k: int| 0 <= k < i ==> is_ascii_alnum(#[trigger] s@[k]),
    {
        if !ascii_alnum(s[i]) {
            return false;
        }
    }
    true
}

/// Rejects anything that is not a 2-letter ISO country code.
///
/// The value is interpolated into a VIES path segment, so a permissive check
/// here would let a caller walk into a different endpoint.
pub fn validate_country_code(code: &str) -> (r: Result<String, String>)
    ensures
        text_result(r) == country_code_spec(code@),
{
    let chars = chars_of(code);
    let upper = ascii_uppercase(&trim_chars(&chars));
    if upper.len() == 2 && check_all_upper(&upper) {
        Ok(string_of(&upper))
    } else {
        let shown = debug_str(code);
        Err(concat3("invalid country_code ", shown.as_str(), ": expected two letters, e.g. DE"))
    }
}

/// The characters a VAT number may be written with for readability and that
/// VIES does not take: white space, `-` and `.`.
pub open spec fn is_vat_separator(c: char) -> bool {
    is_white_space(c) || c == '-' || c == '.'
}

pub open spec fn strip_vat_separators(s: Seq<char>) -> Seq<char>
    decreases s.len(),
{
    if s.len() == 0 {
        Seq::empty()
    } else if is_vat_separator(s.last()) {
        strip_vat_separators(s.drop_last())
    } else {
        strip_vat_separators(s.drop_last()).push(s.last())
    }
}

/// A valid VAT body: 2 to 14 ASCII alphanumerics once separators are removed
/// and letters upper-cased.
pub open spec fn vat_number_spec(vat: Seq<char>) -> Result<Seq<char>, Seq<char>> {
    let cleaned = ascii_upper(strip_vat_separators(vat));
    if 2 <= cleaned.len() <= 14 && all_ascii_alnum(cleaned) {
        Ok(cleaned)
    } else {
        Err("invalid vat_number "@ + str_debug(vat) + ": expected 2-14 alphanumeric characters"@)
    }
}

/// Rejects anything that is not an alphanumeric VAT body (2-14 chars).
///
/// Same reasoning as `validate_country_code`: this lands in a URL path.
pub fn validate_vat_number(vat: &str) -> (r: Result<String, String>)
    ensures
        text_result(r) == vat_number_spec(vat@),
{
    let chars = chars_of(vat);
    let n = chars.len();
    let mut kept: Vec<char> = Vec::new();
    for i in 0..n
        invariant
            n == chars@.len(),
            kept@ == strip_vat_separators(chars@.take(i as int)),
    {
        let c = chars[i];
        assert(chars@.take(i + 1).drop_last() =~= chars@.take(i as int));
        if !(is_whitespace(c) || c == '-' || c == '.') {
            kept.push(c);
        }
    }
    assert(chars@.take(n as int) =~= chars@);
    let cleaned = ascii_uppercase(&kept);
    if 2 <= cleaned.len() && cleaned.len() <= 14 && check_all_alnum(&cleaned) {
        Ok(string_of(&cleaned))
    } else {
        let shown = debug_str(vat);
        Err(concat3("invalid vat_number ", shown.as_str(), ": expected 2-14 alphanumeric characters"))
    }
}

/// A valid LEI: 20 ASCII alphanumerics once trimmed and upper-cased (ISO 17442).
pub open spec fn lei_spec(lei: Seq<char>) -> Result<Seq<char>, Seq<char>> {
    let upper = ascii_upper(trim(lei));
    if upper.len() == 20 && all_ascii_alnum(upper) {
        Ok(upper)
    } else {
        Err("invalid lei "@ + str_debug(lei) + ": expected 20 alphanumeric characters (ISO 17442)"@)
    }
}

/// A LEI is exactly 20 upper-case alphanumeric characters (ISO 17442).
pub fn validate_lei(lei: &str) -> (r: Result<String, String>)
    ensures
        text_result(r) == lei_spec(lei@),
{
    let chars = chars_of(lei);
    let upper = ascii_uppercase(&trim_chars(&chars));
    if upper.len() == 20 && check_all_alnum(&upper) {
        Ok(string_of(&upper))
    } else {
        let shown = debug_str(lei);
        Err(concat3("invalid lei ", shown.as_str(), ": expected 20 alphanumeric characters (ISO 17442)"))
    }
}

// ---------------------------------------------------------------------------
// Company names
// ---------------------------------------------------------------------------

/// A name reduced to what a person comparing them reads: its alphanumeric characters,
/// lower-cased.
pub open spec fn normalise_name(s: Seq<char>) -> Seq<char>
    decreases s.len(),
{
    if s.len() == 0 {
        Seq::empty()
    } else if alphanumeric(s.last()) {
        normalise_name(s.drop_last()) + lowercase(s.last())
    } else {
        normalise_name(s.drop_last())
    }
}

pub open spec fn names_match_spec(a: Seq<char>, b: Seq<char>) -> bool {
    let (x, y) = (normalise_name(a), normalise_name(b));
    x.len() > 0 && y.len() > 0 && (x == y || has_substring(x, y) || has_substring(y, x))
}

fn normalise(s: &str) -> (r: Vec<char>)
    ensures
        r@ == normalise_name(s@),
{
    let chars = chars_of(s);
    let n = chars.len();
    let mut out: Vec<char> = Vec::new();
    for i in 0..n
        invariant
            n == chars@.len(),
            out@ == normalise_name(chars@.take(i as int)),
    {
        let c = chars[i];
        assert(chars@.take(i + 1).drop_last() =~= chars@.take(i as int));
        if is_alphanumeric(c) {
            let mut low = to_lowercase(c);
            out.append(&mut low);
        }
    }
    assert(chars@.take(n as int) =~= chars@);
    out
}

/// Case- and punctuation-insensitive comparison of two company names.
///
/// "ACME GmbH" and "Acme G.m.b.H." are the same supplier to a human reading the file;
/// the KYB score should not flag that as a name mismatch.
pub fn names_match(a: &str, b: &str) -> (r: bool)
    ensures
        r == names_match_spec(a@, b@),
{
    let x = normalise(a);
    let y = normalise(b);
    if x.len() == 0 || y.len() == 0 {
        return false;
    }
    let same = x.len() == y.len() && contains_chars(&x, &y);
    proof {
        if x@.len() == y@.len() && has_substring(x@, y@) {
            let i = choose|i: int|
                0 <= i && i + y@.len() <= x@.len() && #[trigger] x@.subrange(i, i + y@.len())
                    == y@;
            assert(i == 0);
            assert(x@.subrange(0, x@.len() as int) =~= x@);
        }
        if x@ == y@ {
            assert(x@.subrange(0int, 0int + y@.len()) =~= y@);
        }
    }
    same || contains_chars(&x, &y) || contains_chars(&y, &x)
}

// ---------------------------------------------------------------------------
// Tenant configuration
// ---------------------------------------------------------------------------

/// The configured value when it is there and not blank, else the default.
pub open spec fn config_choice(
    lookup: Result<Option<Seq<char>>, Seq<char>>,
    default: Seq<char>,
) -> Seq<char> {
    match lookup {
        Ok(Some(value)) => if is_blank(value) {
            default
        } else {
            value
        },
        _ => default,
    }
}

pub open spec fn lookup_view(lookup: Result<Option<String>, String>) -> Result<
    Option<Seq<char>>,
    Seq<char>,
> {
    match lookup {
        Ok(Some(v)) => Ok(Some(v@)),
        Ok(None) => Ok(None),
        Err(e) => Err(e@),
    }
}

/// Reads a `config` entry, falling back to a compiled-in default.
///
/// `lookup` is what the tenant KV read of the entry returned: a read error,
/// no entry, or its text. Endpoints live in KV rather than in the binary so
/// that pointing the agent at a different procurement system is a one-line
/// tenant update, not a rebuild and re-registration of the contract.
pub fn config_or(lookup: Result<Option<String>, String>, default: &str) -> (r: String)
    ensures
        r@ == config_choice(lookup_view(lookup), default@),
{
    match lookup {
        Ok(Some(value)) => {
            let trimmed = trim_chars(&chars_of(value.as_str()));
            if trimmed.len() == 0 {
                copy_str(default)
            } else {
                value
            }
        },
        _ => copy_str(default),
    }
}


// ---------------------------------------------------------------------------
// Tenant key-value maps
// ---------------------------------------------------------------------------

/// Lower-case hexadecimal digit of `d < 16`.
pub open spec fn lower_hex_digit(d: nat) -> char {
    if d < 10 {
        (('0' as u32) + d) as char
    } else {
        (('a' as u32) + (d - 10)) as char
    }
}

/// Each byte as two lower-case hex digits, high nibble first.
pub open spec fn lower_hex(bytes: Seq<u8>) -> Seq<char>
    decreases bytes.len(),
{
    if bytes.len() == 0 {
        Seq::empty()
    } else {
        lower_hex(bytes.drop_last()) + seq![
            lower_hex_digit((bytes.last() / 16) as nat),
            lower_hex_digit((bytes.last() % 16) as nat),
        ]
    }
}

/// `hex::encode`: every byte as two lower-case hex digits, in order.
#[verifier::external_body]
pub(crate) fn hex_encode(bytes: &[u8]) -> (r: String)
    ensures
        r@ == lower_hex(bytes@),
{
    hex::encode(bytes)
}

/// The name of a tenant's KV map: `z:<tenant id in lower-case hex>:<map>`.
///
/// The tenant id comes from the host at runtime rather than being baked in, so
/// the same WASM artifact works for any tenant that registers it.
pub fn kv_map_name(tenant_did: &[u8], map: &str) -> (r: String)
    ensures
        r@ == "z:"@ + lower_hex(tenant_did@) + ":"@ + map@,
{
    let tid = hex_encode(tenant_did);
    let mut name = concat3("z:", tid.as_str(), ":");
    name.append(map);
    name
}

/// What `String::from_utf8`'s error displays for these bytes.
pub uninterp spec fn utf8_error_text(bytes: Seq<u8>) -> Seq<char>;

/// `String::from_utf8`: valid UTF-8 becomes its text, anything else the
/// error's `Display` text. How that text words the fault is not stated.
#[verifier::external_body]
pub(crate) fn utf8_string(bytes: Vec<u8>) -> (r: Result<String, String>)
    ensures
        r is Ok <==> vstd::utf8::valid_utf8(bytes@),
        r matches Ok(s) ==> s@ == vstd::utf8::decode_utf8(bytes@),
        r matches Err(e) ==> e@ == utf8_error_text(bytes@),
{
    String::from_utf8(bytes).map_err(|e| e.to_string())
}

/// What a KV read of `key` in `map_name` comes to: the value as text, no
/// value, or an error naming the map and the key.
pub open spec fn kv_value_spec(
    map_name: Seq<char>,
    key: Seq<char>,
    read: Result<Option<Seq<u8>>, Seq<char>>,
) -> Result<Option<Seq<char>>, Seq<char>> {
    match read {
        Ok(None) => Ok(None),
        Ok(Some(b)) => if vstd::utf8::valid_utf8(b) {
            Ok(Some(vstd::utf8::decode_utf8(b)))
        } else {
            Err("kv value for "@ + key + " is not utf-8: "@ + utf8_error_text(b))
        },
        Err(e) => Err("kv read "@ + map_name + "/"@ + key + " failed: "@ + e),
    }
}

pub open spec fn read_view(read: Result<Option<Vec<u8>>, String>) -> Result<Option<Seq<u8>>, Seq<char>> {
    match read {
        Ok(Some(b)) => Ok(Some(b@)),
        Ok(None) => Ok(None),
        Err(e) => Err(e@),
    }
}

/// Reads one key from a tenant KV map: `read` is what the host's
/// `kv_store::get` of `key` in the map named `map_name` returned.
pub fn kv_value(map_name: &str, key: &str, read: Result<Option<Vec<u8>>, String>) -> (r: Result<
    Option<String>,
    String,
>)
    ensures
        lookup_view(r) == kv_value_spec(map_name@, key@, read_view(read)),
{
    match read {
        Ok(Some(bytes)) => match utf8_string(bytes) {
            Ok(text) => Ok(Some(text)),
            Err(e) => {
                let mut msg = concat3("kv value for ", key, " is not utf-8: ");
                msg.append(e.as_str());
                Err(msg)
            },
        },
        Ok(None) => Ok(None),
        Err(e) => {
            let mut msg = concat3("kv read ", map_name, "/");
            msg.append(key);
            msg.append(" failed: ");
            msg.append(e.as_str());
            Err(msg)
        },
    }
}

// ---------------------------------------------------------------------------
// Laws
// ---------------------------------------------------------------------------

/// The characters percent-encoding leaves behind: ASCII letters and digits,
/// `-`, `_`, `.`, `~` and the `%` of an escape.
pub open spec fn is_query_safe(c: char) -> bool {
    is_ascii_alnum(c) || c == '-' || c == '_' || c == '.' || c == '~' || c == '%'
}

/// An encoded value holds no character that could end or rewrite a query
/// string: no `&`, `#`, `=`, `?`, `/`, space or non-ASCII character.
pub proof fn lemma_url_encoded_is_query_safe(bytes: Seq<u8>)
    ensures
        forall|i: int| 0 <= i < url_encoded(bytes).len() ==> is_query_safe(
            #[trigger] url_encoded(bytes)[i],
        ),
    decreases bytes.len(),
{
    if bytes.len() > 0 {
        lemma_url_encoded_is_query_safe(bytes.drop_last());
        let b = bytes.last();
        let prev = url_encoded(bytes.drop_last());
        let tail = encode_byte(b);
        assert forall|i: int| 0 <= i < tail.len() implies is_query_safe(#[trigger] tail[i]) by {
            if !is_unreserved(b) {
                assert(b / 16 < 16 && b % 16 < 16);
            }
        }
        assert forall|i: int| 0 <= i < url_encoded(bytes).len() implies is_query_safe(
            #[trigger] url_encoded(bytes)[i],
        ) by {
            if i < prev.len() {
                assert(url_encoded(bytes)[i] == prev[i]);
            } else {
                assert(url_encoded(bytes)[i] == tail[i - prev.len()]);
            }
        }
    }
}

/// The value of an upper-case hexadecimal digit.
pub open spec fn hex_value(c: char) -> int {
    if '0' <= c && c <= '9' {
        (c as int) - 48
    } else if 'A' <= c && c <= 'F' {
        (c as int) - 55
    } else {
        0
    }
}

/// What a server reads back from a percent-encoded value: `%XX` is the byte
/// `XX`, any other character its own code.
pub open spec fn percent_decoded(s: Seq<char>) -> Seq<u8>
    decreases s.len(),
{
    if s.len() == 0 {
        Seq::empty()
    } else if s[0] == '%' && s.len() >= 3 {
        seq![(hex_value(s[1]) * 16 + hex_value(s[2])) as u8] + percent_decoded(s.skip(3))
    } else {
        seq![s[0] as u8] + percent_decoded(s.drop_first())
    }
}

proof fn lemma_url_encoded_front(bytes: Seq<u8>)
    requires
        bytes.len() > 0,
    ensures
        url_encoded(bytes) == encode_byte(bytes[0]) + url_encoded(bytes.drop_first()),
    decreases bytes.len(),
{
    if bytes.len() == 1 {
        assert(bytes.drop_last().len() == 0);
        assert(bytes.drop_first().len() == 0);
        assert(url_encoded(bytes.drop_last()) == Seq::<char>::empty());
        assert(url_encoded(bytes.drop_first()) == Seq::<char>::empty());
        assert(bytes.last() == bytes[0]);
        assert(url_encoded(bytes) =~= encode_byte(bytes[0]));
    } else {
        lemma_url_encoded_front(bytes.drop_last());
        assert(bytes.drop_first().drop_last() =~= bytes.drop_last().drop_first());
        assert(bytes.drop_first().last() == bytes.last());
        assert(url_encoded(bytes) =~= encode_byte(bytes[0]) + url_encoded(bytes.drop_first()));
    }
}

proof fn lemma_hex_round_trip(d: nat)
    requires
        d < 16,
    ensures
        hex_value(hex_digit(d)) == d,
{
}

proof fn lemma_decode_one(b: u8, rest: Seq<char>)
    ensures
        percent_decoded(encode_byte(b) + rest) == seq![b] + percent_decoded(rest),
{
    let s = encode_byte(b) + rest;
    if is_unreserved(b) {
        assert(s[0] == b as char);
        assert(s.drop_first() =~= rest);
        assert((b as char) as u8 == b);
    } else {
        lemma_hex_round_trip((b / 16) as nat);
        lemma_hex_round_trip((b % 16) as nat);
        assert(s[0] == '%');
        assert(s.skip(3) =~= rest);
        assert(((b / 16) * 16 + b % 16) as u8 == b);
    }
}

/// Percent-encoding loses nothing: decoding the encoded value gives back
/// exactly the bytes of the original, so the registry searches for the name
/// that was asked for and not for a truncated or rewritten one.
pub proof fn lemma_url_encoded_round_trip(bytes: Seq<u8>)
    ensures
        percent_decoded(url_encoded(bytes)) == bytes,
    decreases bytes.len(),
{
    if bytes.len() > 0 {
        lemma_url_encoded_front(bytes);
        lemma_decode_one(bytes[0], url_encoded(bytes.drop_first()));
        lemma_url_encoded_round_trip(bytes.drop_first());
        assert(seq![bytes[0]] + bytes.drop_first() =~= bytes);
    } else {
        assert(url_encoded(bytes).len() == 0);
    }
}

proof fn lemma_trim_start_keeps(s: Seq<char>)
    requires
        forall|i: int| 0 <= i < s.len() ==> !is_white_space(#[trigger] s[i]),
    ensures
        crate::text::trim_start(s) == s,
{
    if s.len() > 0 {
        assert(!is_white_space(s[0]));
    }
}

proof fn lemma_trim_keeps(s: Seq<char>)
    requires
        forall|i: int| 0 <= i < s.len() ==> !is_white_space(#[trigger] s[i]),
    ensures
        trim(s) == s,
{
    lemma_trim_start_keeps(s);
    if s.len() > 0 {
        assert(!is_white_space(s[s.len() - 1]));
    }
}

proof fn lemma_upper_keeps(s: Seq<char>)
    requires
        forall|i: int| 0 <= i < s.len() ==> !crate::text::is_ascii_lower(#[trigger] s[i]),
    ensures
        ascii_upper(s) == s,
{
    assert(ascii_upper(s) =~= s);
}

/// An accepted country code is accepted again as itself: validating twice
/// changes nothing.
pub proof fn lemma_country_code_stable(code: Seq<char>)
    requires
        country_code_spec(code) is Ok,
    ensures
        country_code_spec(country_code_spec(code)->Ok_0) == country_code_spec(code),
{
    let v = country_code_spec(code)->Ok_0;
    assert forall|i: int| 0 <= i < v.len() implies !is_white_space(#[trigger] v[i]) by {
        assert(is_ascii_upper(v[i]));
    }
    lemma_trim_keeps(v);
    assert forall|i: int| 0 <= i < v.len() implies !crate::text::is_ascii_lower(#[trigger] v[i]) by {
        assert(is_ascii_upper(v[i]));
    }
    lemma_upper_keeps(v);
}

/// An accepted LEI is accepted again as itself.
pub proof fn lemma_lei_stable(lei: Seq<char>)
    requires
        lei_spec(lei) is Ok,
    ensures
        lei_spec(lei_spec(lei)->Ok_0) == lei_spec(lei),
{
    let v = lei_spec(lei)->Ok_0;
    let t = trim(lei);
    assert forall|i: int| 0 <= i < v.len() implies !is_white_space(#[trigger] v[i]) by {
        assert(is_ascii_alnum(v[i]));
    }
    lemma_trim_keeps(v);
    assert forall|i: int| 0 <= i < v.len() implies !crate::text::is_ascii_lower(#[trigger] v[i]) by {
        assert(v[i] == crate::text::upper_char(t[i]));
    }
    lemma_upper_keeps(v);
}

proof fn lemma_strip_keeps(s: Seq<char>)
    requires
        forall|i: int| 0 <= i < s.len() ==> !is_vat_separator(#[trigger] s[i]),
    ensures
        strip_vat_separators(s) == s,
    decreases s.len(),
{
    if s.len() > 0 {
        assert(!is_vat_separator(s[s.len() - 1]));
        lemma_strip_keeps(s.drop_last());
        assert(s.drop_last().push(s.last()) =~= s);
    }
}

/// An accepted VAT number is accepted again as itself.
pub proof fn lemma_vat_number_stable(vat: Seq<char>)
    requires
        vat_number_spec(vat) is Ok,
    ensures
        vat_number_spec(vat_number_spec(vat)->Ok_0) == vat_number_spec(vat),
{
    let v = vat_number_spec(vat)->Ok_0;
    let t = strip_vat_separators(vat);
    assert forall|i: int| 0 <= i < v.len() implies !is_vat_separator(#[trigger] v[i]) by {
        assert(is_ascii_alnum(v[i]));
    }
    lemma_strip_keeps(v);
    assert forall|i: int| 0 <= i < v.len() implies !crate::text::is_ascii_lower(#[trigger] v[i]) by {
        assert(v[i] == crate::text::upper_char(t[i]));
    }
    lemma_upper_keeps(v);
}

/// Whether two names match does not depend on which one was asked for.
pub proof fn lemma_names_match_symmetric(a: Seq<char>, b: Seq<char>)
    ensures
        names_match_spec(a, b) == names_match_spec(b, a),
{
}

/// A name with nothing alphanumeric in it matches nothing.
pub proof fn lemma_names_match_needs_content(a: Seq<char>, b: Seq<char>)
    requires
        normalise_name(a).len() == 0,
    ensures
        !names_match_spec(a, b),
        !names_match_spec(b, a),
{
}


/// Normalising a name piecewise: the two halves of a name normalise
/// separately and their results join in order.
pub proof fn lemma_normalise_name_append(x: Seq<char>, y: Seq<char>)
    ensures
        normalise_name(x + y) == normalise_name(x) + normalise_name(y),
    decreases y.len(),
{
    if y.len() == 0 {
        assert(x + y =~= x);
        assert(normalise_name(x) + normalise_name(y) =~= normalise_name(x));
    } else {
        lemma_normalise_name_append(x, y.drop_last());
        assert((x + y).drop_last() =~= x + y.drop_last());
        assert((x + y).last() == y.last());
        if alphanumeric(y.last()) {
            assert(normalise_name(x) + normalise_name(y.drop_last()) + lowercase(y.last())
                =~= normalise_name(x) + (normalise_name(y.drop_last()) + lowercase(y.last())));
        }
    }
}

/// Punctuation and spacing do not count: inserting a character that is not
/// alphanumeric anywhere in a name changes neither its normal form nor what
/// it matches.
pub proof fn lemma_names_match_ignores_inserted(a: Seq<char>, b: Seq<char>, i: int, c: char)
    requires
        0 <= i <= a.len(),
        !alphanumeric(c),
    ensures
        normalise_name(a.insert(i, c)) == normalise_name(a),
        names_match_spec(a.insert(i, c), b) == names_match_spec(a, b),
        names_match_spec(b, a.insert(i, c)) == names_match_spec(b, a),
{
    let (front, back) = (a.take(i), a.skip(i));
    assert(a.insert(i, c) =~= front + seq![c] + back);
    assert(a =~= front + back);
    lemma_normalise_name_append(front + seq![c], back);
    lemma_normalise_name_append(front, seq![c]);
    lemma_normalise_name_append(front, back);
    assert(seq![c].drop_last() =~= Seq::<char>::empty());
    assert(seq![c].last() == c);
    assert(normalise_name(Seq::<char>::empty()).len() == 0);
    assert(normalise_name(seq![c]).len() == 0);
    assert(normalise_name(front) + normalise_name(seq![c]) =~= normalise_name(front));
}

/// The same read the other way: removing a character that is not
/// alphanumeric from a name changes neither its normal form nor what it
/// matches.
pub proof fn lemma_names_match_ignores_removed(a: Seq<char>, b: Seq<char>, i: int)
    requires
        0 <= i < a.len(),
        !alphanumeric(a[i]),
    ensures
        normalise_name(a.remove(i)) == normalise_name(a),
        names_match_spec(a.remove(i), b) == names_match_spec(a, b),
        names_match_spec(b, a.remove(i)) == names_match_spec(b, a),
{
    assert(a.remove(i).insert(i, a[i]) =~= a);
    lemma_names_match_ignores_inserted(a.remove(i), b, i, a[i]);
}

proof fn lemma_same_ignoring_case(c: char, d: char)
    requires
        lower_char(c) == lower_char(d),
    ensures
        alphanumeric(c) == alphanumeric(d),
        lowercase(c) == lowercase(d),
{
}

/// ASCII letter case does not count: two names that differ only in the case
/// of ASCII letters normalise alike and match the same names.
pub proof fn lemma_names_match_ignores_ascii_case(a: Seq<char>, a2: Seq<char>, b: Seq<char>)
    requires
        eq_ignore_ascii_case(a, a2),
    ensures
        normalise_name(a2) == normalise_name(a),
        names_match_spec(a2, b) == names_match_spec(a, b),
        names_match_spec(b, a2) == names_match_spec(b, a),
    decreases a.len(),
{
    if a.len() > 0 {
        let n = a.len() - 1;
        assert(lower_char(a[n]) == lower_char(a2[n]));
        lemma_same_ignoring_case(a[n], a2[n]);
        assert(eq_ignore_ascii_case(a.drop_last(), a2.drop_last())) by {
            assert forall|k: int| 0 <= k < a.drop_last().len() implies lower_char(
                #[trigger] a.drop_last()[k],
            ) == lower_char(a2.drop_last()[k]) by {
                assert(lower_char(a[k]) == lower_char(a2[k]));
            }
        }
        lemma_names_match_ignores_ascii_case(a.drop_last(), a2.drop_last(), b);
    } else {
        assert(a2.len() == 0);
    }
}

/// Upper- or lower-casing the ASCII letters of a name changes nothing it
/// matches.
pub proof fn lemma_names_match_upper_lower(a: Seq<char>, b: Seq<char>)
    ensures
        names_match_spec(ascii_upper(a), b) == names_match_spec(a, b),
        names_match_spec(ascii_lower(a), b) == names_match_spec(a, b),
{
    assert(eq_ignore_ascii_case(a, ascii_upper(a))) by {
        assert forall|k: int| 0 <= k < a.len() implies lower_char(#[trigger] a[k]) == lower_char(
            ascii_upper(a)[k],
        ) by {}
    }
    assert(eq_ignore_ascii_case(a, ascii_lower(a))) by {
        assert forall|k: int| 0 <= k < a.len() implies lower_char(#[trigger] a[k]) == lower_char(
            ascii_lower(a)[k],
        ) by {}
    }
    lemma_names_match_ignores_ascii_case(a, ascii_upper(a), b);
    lemma_names_match_ignores_ascii_case(a, ascii_lower(a), b);
}

proof fn lemma_normalise_name_empty(a: Seq<char>)
    ensures
        normalise_name(a).len() == 0 <==> forall|i: int| 0 <= i < a.len() ==> !alphanumeric(
            #[trigger] a[i],
        ),
    decreases a.len(),
{
    if a.len() > 0 {
        lemma_normalise_name_empty(a.drop_last());
        assert forall|i: int| 0 <= i < a.drop_last().len() implies #[trigger] a.drop_last()[i]
            == a[i] by {}
        if normalise_name(a).len() == 0 {
            assert forall|i: int| 0 <= i < a.len() implies !alphanumeric(#[trigger] a[i]) by {
                if i < a.len() - 1 {
                    assert(a.drop_last()[i] == a[i]);
                }
            }
        }
    }
}

/// A name matches itself exactly when it has an alphanumeric character.
pub proof fn lemma_names_match_reflexive(a: Seq<char>)
    ensures
        names_match_spec(a, a) <==> exists|i: int| 0 <= i < a.len() && alphanumeric(#[trigger] a[i]),
{
    lemma_normalise_name_empty(a);
}


/// Containment anywhere counts: when one name's normal form is not empty and
/// occurs at any position inside the other's, not only at its start, the two
/// names match, whichever is asked first.
pub proof fn lemma_names_match_on_containment(a: Seq<char>, b: Seq<char>, i: int)
    requires
        normalise_name(b).len() > 0,
        0 <= i,
        i + normalise_name(b).len() <= normalise_name(a).len(),
        normalise_name(a).subrange(i, i + normalise_name(b).len()) == normalise_name(b),
    ensures
        names_match_spec(a, b),
        names_match_spec(b, a),
{
    let (x, y) = (normalise_name(a), normalise_name(b));
    assert(x.subrange(i, i + y.len()) == y);
}

/// And only containment counts: two names match only when both normal forms
/// are non-empty and one occurs somewhere inside the other.
pub proof fn lemma_names_match_means_containment(a: Seq<char>, b: Seq<char>)
    requires
        names_match_spec(a, b),
    ensures
        normalise_name(a).len() > 0,
        normalise_name(b).len() > 0,
        (exists|i: int|
            0 <= i && i + normalise_name(b).len() <= normalise_name(a).len()
                && #[trigger] normalise_name(a).subrange(i, i + normalise_name(b).len())
                == normalise_name(b)) || (exists|i: int|
            0 <= i && i + normalise_name(a).len() <= normalise_name(b).len()
                && #[trigger] normalise_name(b).subrange(i, i + normalise_name(a).len())
                == normalise_name(a)),
{
    let (x, y) = (normalise_name(a), normalise_name(b));
    if x == y {
        assert(x.subrange(0int, 0int + y.len()) =~= y);
    }
}

} // verus!
