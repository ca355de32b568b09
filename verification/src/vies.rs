//! check-vat: validates an EU VAT number against the European Commission's
//! VIES service.
//!
//! VIES is the only authoritative source for "is this VAT number registered
//! right now", and an invalid VAT number is the most common reason a supplier
//! invoice is later rejected by a tax authority.
//!
//! Public endpoint, no API key, no PII in the request — plain `http`.
use vstd::prelude::*;
use crate::common::{
    country_code_spec, text_result, validate_country_code, validate_vat_number, vat_number_spec,
};
use crate::gleif::{lookup_failed, lookup_failed_text};
use crate::http::HttpReply;
use crate::json::{bool_of, decode_json, field, json_decode, str_of, text_of, Json};
use crate::text::{concat2, copy_str};

verus! {

pub const VIES_HOST: &'static str = "ec.europa.eu";

pub const VIES_BASE: &'static str = "https://ec.europa.eu/taxation_customs/vies/rest-api";

#[derive(Debug, Clone)]
pub struct CheckVatReq {
    pub country_code: String,
    pub vat_number: String,
}

#[derive(Debug, Clone)]
pub struct VatRecord {
    pub valid: bool,
    pub country_code: String,
    pub vat_number: String,
    /// VIES returns "---" when the member state withholds the trader name.
    pub name: String,
    pub address: String,
    pub request_date: String,
    /// VIES `userError`: VALID, INVALID_INPUT, MS_UNAVAILABLE, ...
    pub service_status: String,
}

/// What a [`VatRecord`] says, as text.
pub struct VatRecordView {
    pub valid: bool,
    pub country_code: Seq<char>,
    pub vat_number: Seq<char>,
    pub name: Seq<char>,
    pub address: Seq<char>,
    pub request_date: Seq<char>,
    pub service_status: Seq<char>,
}

impl View for VatRecord {
    type V = VatRecordView;

    open spec fn view(&self) -> VatRecordView {
        VatRecordView {
            valid: self.valid,
            country_code: self.country_code@,
            vat_number: self.vat_number@,
            name: self.name@,
            address: self.address@,
            request_date: self.request_date@,
            service_status: self.service_status@,
        }
    }
}

impl Default for VatRecord {
    fn default() -> (r: Self)
        ensures
            !r.valid,
            r.country_code@ == Seq::<char>::empty(),
            r.vat_number@ == Seq::<char>::empty(),
            r.name@ == Seq::<char>::empty(),
            r.address@ == Seq::<char>::empty(),
            r.request_date@ == Seq::<char>::empty(),
            r.service_status@ == Seq::<char>::empty(),
    {
        VatRecord {
            valid: false,
            country_code: String::new(),
            vat_number: String::new(),
            name: String::new(),
            address: String::new(),
            request_date: String::new(),
            service_status: String::new(),
        }
    }
}

pub open spec fn vat_result(r: Result<VatRecord, String>) -> Result<VatRecordView, Seq<char>> {
    match r {
        Ok(v) => Ok(v@),
        Err(e) => Err(e@),
    }
}

/// The VIES path for a country and a VAT number, each validated first.
pub open spec fn vat_url_spec(country_code: Seq<char>, vat_number: Seq<char>) -> Result<
    Seq<char>,
    Seq<char>,
> {
    match country_code_spec(country_code) {
        Err(e) => Err(e),
        Ok(country) => match vat_number_spec(vat_number) {
            Err(e) => Err(e),
            Ok(vat) => Ok(VIES_BASE@ + "/ms/"@ + country + "/vat/"@ + vat),
        },
    }
}

/// Builds the VIES path, validating both segments first.
pub fn build_vat_url(country_code: &str, vat_number: &str) -> (r: Result<String, String>)
    ensures
        text_result(r) == vat_url_spec(country_code@, vat_number@),
{
    let country = validate_country_code(country_code)?;
    let vat = validate_vat_number(vat_number)?;
    let mut url = copy_str(VIES_BASE);
    url.append("/ms/");
    url.append(country.as_str());
    url.append("/vat/");
    url.append(vat.as_str());
    Ok(url)
}

/// A VIES text field: "---" is the "withheld by member state" marker and
/// reads as empty, as does a missing field.
pub open spec fn cleaned(value: Json) -> Seq<char> {
    match str_of(value) {
        Some(s) => if s == "---"@ {
            Seq::empty()
        } else {
            s
        },
        None => Seq::empty(),
    }
}

/// The validity flag under either spelling: `isValid` (GET endpoint) first,
/// then `valid` (POST endpoint).
pub open spec fn validity_of(doc: Json) -> Option<bool> {
    match bool_of(field(doc, "isValid"@)) {
        Some(b) => Some(b),
        None => bool_of(field(doc, "valid"@)),
    }
}

/// What a VIES document says; `country_code` stands in when it names none.
pub open spec fn vies_spec(doc: Json, country_code: Seq<char>) -> Result<VatRecordView, Seq<char>> {
    match validity_of(doc) {
        None => Err("vies: response has neither isValid nor valid"@),
        Some(valid) => Ok(
            VatRecordView {
                valid,
                country_code: match str_of(field(doc, "countryCode"@)) {
                    Some(c) => c,
                    None => country_code,
                },
                vat_number: text_of(field(doc, "vatNumber"@)),
                name: cleaned(field(doc, "name"@)),
                address: cleaned(field(doc, "address"@)),
                request_date: text_of(field(doc, "requestDate"@)),
                service_status: text_of(field(doc, "userError"@)),
            },
        ),
    }
}

fn clean_text(value: Option<&Json>) -> (r: String)
    ensures
        r@ == cleaned(crate::json::or_null(value)),
{
    match crate::json::str_in(value) {
        Some(s) => {
            let text = copy_str(s);
            let marker = copy_str("---");
            if text == marker {
                String::new()
            } else {
                text
            }
        },
        None => String::new(),
    }
}

/// Reads a VIES REST document.
///
/// Note the field name: the GET endpoint returns `isValid`, while the POST
/// endpoint returns `valid`. Both spellings are accepted so that switching
/// transport later cannot silently turn every supplier into "VAT invalid".
pub fn parse_vies_json(doc: &Json, country_code: &str) -> (r: Result<VatRecord, String>)
    ensures
        vat_result(r) == vies_spec(*doc, country_code@),
{
    let flag = match doc.get("isValid") {
        Some(v) => v.as_bool(),
        None => None,
    };
    let valid = match flag {
        Some(b) => b,
        None => match doc.get("valid") {
            Some(v) => match v.as_bool() {
                Some(b) => b,
                None => {
                    return Err(copy_str("vies: response has neither isValid nor valid"));
                },
            },
            None => {
                return Err(copy_str("vies: response has neither isValid nor valid"));
            },
        },
    };
    let country = match crate::json::str_in(doc.get("countryCode")) {
        Some(c) => copy_str(c),
        None => copy_str(country_code),
    };
    Ok(
        VatRecord {
            valid,
            country_code: country,
            vat_number: crate::json::text_in(doc.get("vatNumber")),
            name: clean_text(doc.get("name")),
            address: clean_text(doc.get("address")),
            request_date: crate::json::text_in(doc.get("requestDate")),
            service_status: crate::json::text_in(doc.get("userError")),
        },
    )
}

/// What a VIES response body says.
pub open spec fn vies_body_spec(body: Seq<u8>, country_code: Seq<char>) -> Result<
    VatRecordView,
    Seq<char>,
> {
    match json_decode(body) {
        Ok(doc) => vies_spec(doc, country_code),
        Err(e) => Err("vies: response is not JSON: "@ + e),
    }
}

/// Parses the VIES REST response.
pub fn parse_vies_response(body: &[u8], country_code: &str) -> (r: Result<VatRecord, String>)
    ensures
        vat_result(r) == vies_body_spec(body@, country_code@),
{
    match decode_json(body) {
        Ok(doc) => parse_vies_json(&doc, country_code),
        Err(e) => Err(concat2("vies: response is not JSON: ", e.as_str())),
    }
}

/// What the VIES call's outcome amounts to.
pub open spec fn vies_reply_spec(reply: Result<HttpReply, String>, country_code: Seq<char>) -> Result<
    VatRecordView,
    Seq<char>,
> {
    match reply {
        Err(e) => Err("vies request failed: "@ + e@),
        Ok(resp) => if resp.code != 200 {
            Err(lookup_failed("vies"@, resp.code, resp.payload@))
        } else {
            vies_body_spec(resp.payload@, country_code)
        },
    }
}

/// Interprets the answer to the VIES request built by [`build_vat_url`] for
/// `req`; `reply` is the response, or the text of the transport error.
pub fn fetch_vat(reply: &Result<HttpReply, String>, req: &CheckVatReq) -> (r: Result<
    VatRecord,
    String,
>)
    ensures
        vat_result(r) == vies_reply_spec(*reply, req.country_code@),
{
    match reply {
        Err(e) => Err(concat2("vies request failed: ", e.as_str())),
        Ok(resp) => {
            if resp.code != 200 {
                Err(lookup_failed_text("vies", resp))
            } else {
                parse_vies_response(resp.payload.as_slice(), req.country_code.as_str())
            }
        },
    }
}


// ---------------------------------------------------------------------------
// Laws
// ---------------------------------------------------------------------------

/// The "withheld by member state" marker never comes back as a trader's
/// name or address.
pub proof fn lemma_withheld_marker_is_never_returned(doc: Json, country_code: Seq<char>)
    requires
        vies_spec(doc, country_code) is Ok,
    ensures
        vies_spec(doc, country_code)->Ok_0.name != "---"@,
        vies_spec(doc, country_code)->Ok_0.address != "---"@,
{
    reveal_strlit("---");
    assert("---"@.len() == 3);
    assert(Seq::<char>::empty() != "---"@);
}

/// Both path segments of a VIES URL are plain ASCII alphanumerics: neither
/// can carry a `/`, a `.` or anything else that would leave the endpoint.
pub proof fn lemma_vat_url_segments_are_plain(country_code: Seq<char>, vat_number: Seq<char>)
    requires
        vat_url_spec(country_code, vat_number) is Ok,
    ensures
        ({
            let country = country_code_spec(country_code)->Ok_0;
            let vat = vat_number_spec(vat_number)->Ok_0;
            &&& vat_url_spec(country_code, vat_number)->Ok_0 == VIES_BASE@ + "/ms/"@ + country
                + "/vat/"@ + vat
            &&& country.len() == 2
            &&& forall|i: int| 0 <= i < country.len() ==> crate::text::is_ascii_alnum(#[trigger] country[i])
            &&& 2 <= vat.len() <= 14
            &&& forall|i: int| 0 <= i < vat.len() ==> crate::text::is_ascii_alnum(#[trigger] vat[i])
        }),
{
}

} // verus!
