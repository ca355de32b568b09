//! verify-entity: looks a legal entity up in the GLEIF Global LEI Index.
//!
//! GLEIF is the authoritative public registry behind the ISO 17442 Legal Entity
//! Identifier. It is free, needs no API key, and covers ~2.7M entities, which
//! makes it the cheapest reliable answer to "does this company actually exist,
//! and is its registration still current?".
//!
//! This lookup carries no personal data, so it uses the plain `http` capability
//! rather than `http-with-placeholders`.
use vstd::prelude::*;
use crate::common::{lei_spec, names_match, names_match_spec, url_encoded, urlencode, validate_lei};
use crate::http::HttpReply;
use crate::json::{
    array_of, child, decode_json, field, json_decode, opt_str_view, str_in, str_of, text_in,
    text_of, Json,
};
use crate::text::{
    before_first, chars_of, concat2, copy_str, decimal, decimal_string, eq_ignore_ascii_case,
    eq_ignore_case, is_blank, join, join_strings, keep_non_empty, lossy_text, non_empty,
    prefix_before, string_of, strings_view, trim, trim_chars, utf8_lossy,
};

verus! {

pub const GLEIF_HOST: &'static str = "api.gleif.org";

pub const GLEIF_BASE: &'static str = "https://api.gleif.org/api/v1/lei-records";

/// GLEIF returns full LEI records; five is enough to disambiguate a name
/// without pulling a payload large enough to strain the enclave's allocator.
pub const PAGE_SIZE: u64 = 5;

#[derive(Debug, Clone)]
pub struct VerifyEntityReq {
    /// Exact LEI, when the buyer already has it on file.
    pub lei: Option<String>,
    /// Legal name, when they do not.
    pub legal_name: Option<String>,
}

#[derive(Debug, Clone)]
pub struct EntityRecord {
    pub found: bool,
    pub lei: String,
    pub legal_name: String,
    pub jurisdiction: String,
    /// GLEIF entity status: ACTIVE or INACTIVE.
    pub entity_status: String,
    /// GLEIF registration status: ISSUED, LAPSED, RETIRED, ...
    pub registration_status: String,
    pub next_renewal_date: String,
    pub address: String,
    /// Other names that matched, so a human can resolve an ambiguous match.
    pub candidates: Vec<String>,
}

/// What an [`EntityRecord`] says, as text.
pub struct EntityRecordView {
    pub found: bool,
    pub lei: Seq<char>,
    pub legal_name: Seq<char>,
    pub jurisdiction: Seq<char>,
    pub entity_status: Seq<char>,
    pub registration_status: Seq<char>,
    pub next_renewal_date: Seq<char>,
    pub address: Seq<char>,
    pub candidates: Seq<Seq<char>>,
}

impl View for EntityRecord {
    type V = EntityRecordView;

    open spec fn view(&self) -> EntityRecordView {
        EntityRecordView {
            found: self.found,
            lei: self.lei@,
            legal_name: self.legal_name@,
            jurisdiction: self.jurisdiction@,
            entity_status: self.entity_status@,
            registration_status: self.registration_status@,
            next_renewal_date: self.next_renewal_date@,
            address: self.address@,
            candidates: strings_view(self.candidates@),
        }
    }
}

/// The record of a search that matched nothing: not found, every field empty.
pub open spec fn empty_record() -> EntityRecordView {
    EntityRecordView {
        found: false,
        lei: Seq::empty(),
        legal_name: Seq::empty(),
        jurisdiction: Seq::empty(),
        entity_status: Seq::empty(),
        registration_status: Seq::empty(),
        next_renewal_date: Seq::empty(),
        address: Seq::empty(),
        candidates: Seq::empty(),
    }
}

impl Default for EntityRecord {
    fn default() -> (r: Self)
        ensures
            r@ == empty_record(),
    {
        let r = EntityRecord {
            found: false,
            lei: String::new(),
            legal_name: String::new(),
            jurisdiction: String::new(),
            entity_status: String::new(),
            registration_status: String::new(),
            next_renewal_date: String::new(),
            address: String::new(),
            candidates: Vec::new(),
        };
        assert(strings_view(r.candidates@) =~= Seq::<Seq<char>>::empty());
        r
    }
}

pub open spec fn record_result(r: Result<EntityRecord, String>) -> Result<EntityRecordView, Seq<char>> {
    match r {
        Ok(v) => Ok(v@),
        Err(e) => Err(e@),
    }
}

// ---------------------------------------------------------------------------
// The query URL
// ---------------------------------------------------------------------------

/// The text of an optional request field, when it is there and not blank.
pub open spec fn given(field: Option<String>) -> Option<Seq<char>> {
    match field {
        Some(s) => if is_blank(s@) {
            None
        } else {
            Some(s@)
        },
        None => None,
    }
}

/// The GLEIF URL for a request: a LEI lookup when a LEI is given, else a
/// name search, else an error.
pub open spec fn query_url_spec(lei: Option<Seq<char>>, legal_name: Option<Seq<char>>) -> Result<
    Seq<char>,
    Seq<char>,
> {
    match lei {
        Some(l) => match lei_spec(l) {
            Ok(v) => Ok(GLEIF_BASE@ + "?filter%5Blei%5D="@ + v + "&page%5Bsize%5D=1"@),
            Err(e) => Err(e),
        },
        None => match legal_name {
            Some(n) => Ok(GLEIF_BASE@ + "?filter%5Bentity.legalName%5D="@ + url_encoded(
                vstd::utf8::encode_utf8(trim(n)),
            ) + "&page%5Bsize%5D="@ + decimal(PAGE_SIZE as nat)),
            None => Err("verify-entity: provide either lei or legal_name"@),
        },
    }
}

/// The text of `field` when it is present and not blank.
fn non_blank(field: &Option<String>) -> (r: Option<&String>)
    ensures
        match r {
            Some(s) => given(*field) == Some(s@),
            None => given(*field) is None,
        },
{
    match field {
        Some(s) => {
            if trim_chars(&chars_of(s.as_str())).len() == 0 {
                None
            } else {
                Some(s)
            }
        },
        None => None,
    }
}

/// Builds the GLEIF query URL for either lookup mode.
pub fn build_query_url(req: &VerifyEntityReq) -> (r: Result<String, String>)
    ensures
        crate::common::text_result(r) == query_url_spec(given(req.lei), given(req.legal_name)),
{
    if let Some(lei) = non_blank(&req.lei) {
        let lei = validate_lei(lei.as_str())?;
        let mut url = copy_str(GLEIF_BASE);
        url.append("?filter%5Blei%5D=");
        url.append(lei.as_str());
        url.append("&page%5Bsize%5D=1");
        return Ok(url);
    }
    if let Some(name) = non_blank(&req.legal_name) {
        let trimmed = string_of(&trim_chars(&chars_of(name.as_str())));
        let encoded = urlencode(trimmed.as_str());
        let size = decimal_string(PAGE_SIZE);
        let mut url = copy_str(GLEIF_BASE);
        url.append("?filter%5Bentity.legalName%5D=");
        url.append(encoded.as_str());
        url.append("&page%5Bsize%5D=");
        url.append(size.as_str());
        return Ok(url);
    }
    Err(copy_str("verify-entity: provide either lei or legal_name"))
}


// ---------------------------------------------------------------------------
// Choosing a record
// ---------------------------------------------------------------------------

/// `record["attributes"]["entity"]`.
pub open spec fn entity_of(record: Json) -> Json {
    field(field(record, "attributes"@), "entity"@)
}

/// `record["attributes"]["registration"]`.
pub open spec fn registration_of(record: Json) -> Json {
    field(field(record, "attributes"@), "registration"@)
}

/// `record["attributes"]["entity"]["legalName"]["name"]`.
pub open spec fn name_node(record: Json) -> Json {
    field(field(entity_of(record), "legalName"@), "name"@)
}

/// Whether the record's legal name agrees with the one searched for; with
/// nothing searched for (a LEI lookup), every record agrees.
pub open spec fn name_agrees(record: Json, wanted: Option<Seq<char>>) -> bool {
    match wanted {
        Some(w) => names_match_spec(w, text_of(name_node(record))),
        None => true,
    }
}

pub open spec fn is_active(record: Json) -> bool {
    eq_ignore_ascii_case(text_of(field(entity_of(record), "status"@)), "ACTIVE"@)
}

pub open spec fn is_issued(record: Json) -> bool {
    eq_ignore_ascii_case(text_of(field(registration_of(record), "status"@)), "ISSUED"@)
}

/// How plausible a record is as the company searched for: name agreement
/// counts 4, an active entity 2, an issued registration 1.
pub open spec fn rank(record: Json, wanted: Option<Seq<char>>) -> u8 {
    ((if name_agrees(record, wanted) {
        4int
    } else {
        0int
    }) + (if is_active(record) {
        2int
    } else {
        0int
    }) + (if is_issued(record) {
        1int
    } else {
        0int
    })) as u8
}

/// The index of the first record of highest rank among the first `n`.
pub open spec fn best_index(records: Seq<Json>, wanted: Option<Seq<char>>, n: int) -> int
    decreases n,
{
    if n <= 1 {
        0
    } else {
        let b = best_index(records, wanted, n - 1);
        if rank(records[n - 1], wanted) > rank(records[b], wanted) {
            n - 1
        } else {
            b
        }
    }
}

/// Ranks one GLEIF record against the name that was searched for.
///
/// A name search returns whatever GLEIF's index ranks first, which is not
/// necessarily the company anyone meant. Searching "Acme GmbH" today returns a
/// retired "Acme International GmbH" ahead of an active "Acme United Europe
/// GmbH" — taking the first record would report a dead entity for a live
/// supplier, and the buyer would see a rejection they cannot explain.
///
/// Higher is better. Name agreement outranks liveness, because the right
/// company in a bad state is a real finding, while the wrong company in a good
/// state is a false clear.
fn rank_record(record: &Json, wanted_name: Option<&str>) -> (r: u8)
    ensures
        r == rank(*record, opt_str_view(wanted_name)),
{
    let attributes = record.get("attributes");
    let entity = child(attributes, "entity");
    let name = text_in(child(child(entity, "legalName"), "name"));
    let agrees = match wanted_name {
        Some(wanted) => names_match(wanted, name.as_str()),
        None => true,
    };
    let active = eq_ignore_case(text_in(child(entity, "status")).as_str(), "ACTIVE");
    let issued = eq_ignore_case(
        text_in(child(child(attributes, "registration"), "status")).as_str(),
        "ISSUED",
    );
    let mut r: u8 = 0;
    if agrees {
        r = r + 4;
    }
    if active {
        r = r + 2;
    }
    if issued {
        r = r + 1;
    }
    r
}

// ---------------------------------------------------------------------------
// Reading the chosen record
// ---------------------------------------------------------------------------

/// The strings among `items`, in order: `filter_map(as_str)`.
pub open spec fn strings_among(items: Seq<Json>) -> Seq<Seq<char>>
    decreases items.len(),
{
    if items.len() == 0 {
        Seq::empty()
    } else {
        match str_of(items.last()) {
            Some(s) => strings_among(items.drop_last()).push(s),
            None => strings_among(items.drop_last()),
        }
    }
}

/// The one-line postal address: address lines, postal code, city and
/// country, the empty ones left out, joined by ", ".
pub open spec fn address_of(entity: Json) -> Seq<char> {
    let node = field(entity, "legalAddress"@);
    let lines = match array_of(field(node, "addressLines"@)) {
        Some(items) => strings_among(items),
        None => Seq::empty(),
    };
    join(
        non_empty(
            seq![
                join(lines, ", "@),
                text_of(field(node, "postalCode"@)),
                text_of(field(node, "city"@)),
                text_of(field(node, "country"@)),
            ],
        ),
        ", "@,
    )
}

/// The entity's jurisdiction, falling back to the country of its legal address.
pub open spec fn jurisdiction_of(entity: Json) -> Seq<char> {
    match str_of(field(entity, "jurisdiction"@)) {
        Some(j) => j,
        None => text_of(field(field(entity, "legalAddress"@), "country"@)),
    }
}

/// The renewal date without its time of day.
pub open spec fn renewal_date_of(record: Json) -> Seq<char> {
    match str_of(field(registration_of(record), "nextRenewalDate"@)) {
        Some(d) => before_first(d, 'T'),
        None => Seq::empty(),
    }
}

/// The legal names of the first `n` records other than `best`, in GLEIF's
/// order, records without a name left out.
pub open spec fn candidates_of(records: Seq<Json>, best: int, n: int) -> Seq<Seq<char>>
    decreases n,
{
    if n <= 0 {
        Seq::empty()
    } else {
        let prev = candidates_of(records, best, n - 1);
        if n - 1 != best && str_of(name_node(records[n - 1])) is Some {
            prev.push(str_of(name_node(records[n - 1]))->0)
        } else {
            prev
        }
    }
}

/// The flat record for `records[best]`.
pub open spec fn record_at(records: Seq<Json>, best: int) -> EntityRecordView {
    let record = records[best];
    let entity = entity_of(record);
    EntityRecordView {
        found: true,
        lei: text_of(field(field(record, "attributes"@), "lei"@)),
        legal_name: text_of(name_node(record)),
        jurisdiction: jurisdiction_of(entity),
        entity_status: text_of(field(entity, "status"@)),
        registration_status: text_of(field(registration_of(record), "status"@)),
        next_renewal_date: renewal_date_of(record),
        address: address_of(entity),
        candidates: candidates_of(records, best, records.len() as int),
    }
}

/// What a GLEIF JSON:API collection document says: an error when it has no
/// `data` array, the empty record when the array is empty, else the record
/// of highest rank, the first of them when several tie.
pub open spec fn gleif_spec(doc: Json, wanted: Option<Seq<char>>) -> Result<EntityRecordView, Seq<char>> {
    match array_of(field(doc, "data"@)) {
        None => Err("gleif: response has no data array"@),
        Some(records) => if records.len() == 0 {
            Ok(empty_record())
        } else {
            Ok(record_at(records, best_index(records, wanted, records.len() as int)))
        },
    }
}

fn address_text(entity: Option<&Json>) -> (r: String)
    ensures
        r@ == address_of(crate::json::or_null(entity)),
{
    let node = child(entity, "legalAddress");
    let mut lines: Vec<String> = Vec::new();
    match child(node, "addressLines") {
        Some(list) => {
            match list.as_array() {
                Some(items) => {
                    let n = items.len();
                    for i in 0..n
                        invariant
                            n == items@.len(),
                            strings_view(lines@) == strings_among(items@.take(i as int)),
                    {
                        assert(items@.take(i + 1).drop_last() =~= items@.take(i as int));
                        match items[i].as_str() {
                            Some(line) => {
                                lines.push(copy_str(line));
                                assert(strings_view(lines@) =~= strings_among(
                                    items@.take(i as int),
                                ).push(line@));
                            },
                            None => {},
                        }
                    }
                    assert(items@.take(n as int) =~= items@);
                },
                None => {},
            }
        },
        None => {},
    }
    let mut parts: Vec<String> = Vec::new();
    parts.push(join_strings(&lines, ", "));
    parts.push(text_in(child(node, "postalCode")));
    parts.push(text_in(child(node, "city")));
    parts.push(text_in(child(node, "country")));
    let kept = keep_non_empty(&parts);
    let r = join_strings(&kept, ", ");
    proof {
        let node_spec = field(crate::json::or_null(entity), "legalAddress"@);
        let lines_spec = match array_of(field(node_spec, "addressLines"@)) {
            Some(items) => strings_among(items),
            None => Seq::empty(),
        };
        assert(strings_view(lines@) == lines_spec);
        assert(strings_view(parts@) =~= seq![
            join(lines_spec, ", "@),
            text_of(field(node_spec, "postalCode"@)),
            text_of(field(node_spec, "city"@)),
            text_of(field(node_spec, "country"@)),
        ]);
    }
    r
}

/// Parses a GLEIF JSON:API collection document into a flat record.
///
/// `wanted_name` is the name the caller searched for, used to pick the most
/// plausible record out of a multi-match response. Pass `None` for a LEI lookup.
pub fn parse_gleif_json(doc: &Json, wanted_name: Option<&str>) -> (r: Result<EntityRecord, String>)
    ensures
        record_result(r) == gleif_spec(*doc, opt_str_view(wanted_name)),
{
    let ghost wanted = opt_str_view(wanted_name);
    let records = match doc.get("data") {
        Some(data) => match data.as_array() {
            Some(records) => records,
            None => {
                return Err(copy_str("gleif: response has no data array"));
            },
        },
        None => {
            return Err(copy_str("gleif: response has no data array"));
        },
    };
    let n = records.len();
    if n == 0 {
        return Ok(EntityRecord::default());
    }
    // The first record of highest rank: GLEIF's own ordering breaks ties.
    let mut best: usize = 0;
    let mut best_rank = rank_record(&records[0], wanted_name);
    for i in 1..n
        invariant
            n == records@.len(),
            n > 0,
            best < i,
            best as int == best_index(records@, wanted, i as int),
            best_rank == rank(records@[best as int], wanted),
            wanted == opt_str_view(wanted_name),
    {
        let r = rank_record(&records[i], wanted_name);
        if r > best_rank {
            best = i;
            best_rank = r;
        }
    }
    let chosen = &records[best];
    let attributes = chosen.get("attributes");
    let entity = child(attributes, "entity");
    let registration = child(attributes, "registration");

    // Everything the selection passed over, so a human can see what else matched
    // and overrule the choice.
    let mut candidates: Vec<String> = Vec::new();
    for i in 0..n
        invariant
            n == records@.len(),
            best < n,
            strings_view(candidates@) == candidates_of(records@, best as int, i as int),
    {
        if i != best {
            match str_in(child(child(child(records[i].get("attributes"), "entity"), "legalName"), "name")) {
                Some(name) => {
                    candidates.push(copy_str(name));
                    assert(strings_view(candidates@) =~= candidates_of(
                        records@,
                        best as int,
                        i as int,
                    ).push(name@));
                },
                None => {},
            }
        }
    }

    let jurisdiction = match str_in(child(entity, "jurisdiction")) {
        Some(j) => copy_str(j),
        None => text_in(child(child(entity, "legalAddress"), "country")),
    };
    // GLEIF returns a full timestamp; the renewal date is what a person
    // reads, and the time of day is noise in a one-line check summary.
    let next_renewal_date = match str_in(child(registration, "nextRenewalDate")) {
        Some(date) => prefix_before(date, 'T'),
        None => String::new(),
    };
    let record = EntityRecord {
        found: true,
        lei: text_in(child(attributes, "lei")),
        legal_name: text_in(child(child(entity, "legalName"), "name")),
        jurisdiction,
        entity_status: text_in(child(entity, "status")),
        registration_status: text_in(child(registration, "status")),
        next_renewal_date,
        address: address_text(entity),
        candidates,
    };
    Ok(record)
}

/// What a GLEIF response body says: a parse error, or what its document says.
pub open spec fn gleif_body_spec(body: Seq<u8>, wanted: Option<Seq<char>>) -> Result<
    EntityRecordView,
    Seq<char>,
> {
    match json_decode(body) {
        Ok(doc) => gleif_spec(doc, wanted),
        Err(e) => Err("gleif: response is not JSON: "@ + e),
    }
}

/// Parses a GLEIF JSON:API collection response into a flat record.
///
/// `wanted_name` is the name the caller searched for, used to pick the most
/// plausible record out of a multi-match response. Pass `None` for a LEI lookup.
pub fn parse_gleif_response(body: &[u8], wanted_name: Option<&str>) -> (r: Result<EntityRecord, String>)
    ensures
        record_result(r) == gleif_body_spec(body@, opt_str_view(wanted_name)),
{
    match decode_json(body) {
        Ok(doc) => parse_gleif_json(&doc, wanted_name),
        Err(e) => Err(concat2("gleif: response is not JSON: ", e.as_str())),
    }
}


/// The error for a registry that answered with a status other than 200: the
/// code and the body, decoded lossily.
pub open spec fn lookup_failed(service: Seq<char>, code: u16, payload: Seq<u8>) -> Seq<char> {
    service + " lookup failed: HTTP "@ + decimal(code as nat) + " — "@ + utf8_lossy(payload)
}

/// What the GLEIF call's outcome amounts to.
pub open spec fn gleif_reply_spec(reply: Result<HttpReply, String>, wanted: Option<Seq<char>>) -> Result<
    EntityRecordView,
    Seq<char>,
> {
    match reply {
        Err(e) => Err("gleif request failed: "@ + e@),
        Ok(resp) => if resp.code != 200 {
            Err(lookup_failed("gleif"@, resp.code, resp.payload@))
        } else {
            gleif_body_spec(resp.payload@, wanted)
        },
    }
}

/// The error text for a registry that answered with another status than 200.
pub fn lookup_failed_text(service: &str, resp: &HttpReply) -> (r: String)
    ensures
        r@ == lookup_failed(service@, resp.code, resp.payload@),
{
    let body = lossy_text(resp.payload.as_slice());
    let code = decimal_string(resp.code as u64);
    let mut out = copy_str(service);
    out.append(" lookup failed: HTTP ");
    out.append(code.as_str());
    out.append(" — ");
    out.append(body.as_str());
    out
}

/// Interprets the answer to the GLEIF request built by [`build_query_url`].
///
/// `reply` is what the host's HTTP call returned: the response, or the text
/// of the transport error. `wanted_name` is forwarded to the parser so a
/// multi-match response resolves to the company that was actually asked for.
pub fn fetch_entity(reply: &Result<HttpReply, String>, wanted_name: Option<&str>) -> (r: Result<
    EntityRecord,
    String,
>)
    ensures
        record_result(r) == gleif_reply_spec(*reply, opt_str_view(wanted_name)),
{
    match reply {
        Err(e) => Err(concat2("gleif request failed: ", e.as_str())),
        Ok(resp) => {
            if resp.code != 200 {
                Err(lookup_failed_text("gleif", resp))
            } else {
                parse_gleif_response(resp.payload.as_slice(), wanted_name)
            }
        },
    }
}


// ---------------------------------------------------------------------------
// Laws
// ---------------------------------------------------------------------------

/// The chosen record has the highest rank of all, and every record before it
/// ranks strictly lower: among equals, GLEIF's own ordering decides.
pub proof fn lemma_best_is_first_of_highest_rank(records: Seq<Json>, wanted: Option<Seq<char>>, n: int)
    requires
        1 <= n <= records.len(),
    ensures
        0 <= best_index(records, wanted, n) < n,
        forall|i: int|
            0 <= i < n ==> rank(#[trigger] records[i], wanted) <= rank(
                records[best_index(records, wanted, n)],
                wanted,
            ),
        forall|i: int|
            0 <= i < best_index(records, wanted, n) ==> rank(#[trigger] records[i], wanted) < rank(
                records[best_index(records, wanted, n)],
                wanted,
            ),
    decreases n,
{
    if n > 1 {
        lemma_best_is_first_of_highest_rank(records, wanted, n - 1);
    }
}

/// A record whose name agrees with the search outranks every record whose
/// name does not, however healthy that one's registration: the wrong company
/// in a good state would be a false clear.
pub proof fn lemma_name_agreement_outranks_liveness(
    agreeing: Json,
    other: Json,
    wanted: Option<Seq<char>>,
)
    requires
        name_agrees(agreeing, wanted),
        !name_agrees(other, wanted),
    ensures
        rank(agreeing, wanted) > rank(other, wanted),
{
}

/// Every record the selection passed over that has a name is offered as a
/// candidate, and every candidate is the name of such a record.
pub proof fn lemma_candidates_are_the_others(records: Seq<Json>, best: int, n: int)
    requires
        0 <= n <= records.len(),
    ensures
        forall|i: int|
            0 <= i < n && i != best && (#[trigger] str_of(name_node(records[i]))) is Some
                ==> candidates_of(records, best, n).contains(str_of(name_node(records[i]))->0),
        forall|k: int|
            #![trigger candidates_of(records, best, n)[k]]
            0 <= k < candidates_of(records, best, n).len() ==> exists|i: int|
                0 <= i < n && i != best && #[trigger] str_of(name_node(records[i])) == Some(
                    candidates_of(records, best, n)[k],
                ),
    decreases n,
{
    if n > 0 {
        lemma_candidates_are_the_others(records, best, n - 1);
        let prev = candidates_of(records, best, n - 1);
        let cur = candidates_of(records, best, n);
        assert forall|i: int|
            0 <= i < n && i != best && (#[trigger] str_of(name_node(records[i]))) is Some
                implies cur.contains(str_of(name_node(records[i]))->0) by {
            if i < n - 1 {
                let j = choose|j: int| 0 <= j < prev.len() && prev[j] == str_of(name_node(records[i]))->0;
                assert(cur[j] == prev[j]);
            } else {
                assert(cur[cur.len() - 1] == str_of(name_node(records[i]))->0);
            }
        }
        assert forall|k: int| #![trigger cur[k]] 0 <= k < cur.len() implies exists|i: int|
            0 <= i < n && i != best && #[trigger] str_of(name_node(records[i])) == Some(cur[k]) by {
            if k < prev.len() {
                assert(cur[k] == prev[k]);
                let i = choose|i: int|
                    0 <= i < n - 1 && i != best && #[trigger] str_of(name_node(records[i])) == Some(
                        prev[k],
                    );
                assert(str_of(name_node(records[i])) == Some(cur[k]));
            } else {
                assert(str_of(name_node(records[n - 1])) == Some(cur[k]));
            }
        }
    }
}

/// A search that matched nothing is no error: the record says "not found".
pub proof fn lemma_no_match_is_not_found(doc: Json, wanted: Option<Seq<char>>)
    requires
        array_of(field(doc, "data"@)) matches Some(records) && records.len() == 0,
    ensures
        gleif_spec(doc, wanted) == Ok::<EntityRecordView, Seq<char>>(empty_record()),
        !empty_record().found,
{
}


/// An issued registration counts in the choice: between two records that
/// agree alike with the searched name and whose entities are alike active or
/// not, the one whose registration status reads `ISSUED` ranks strictly
/// above one whose status does not, so the latter is never the record chosen,
/// wherever GLEIF lists the two.
pub proof fn lemma_issued_registration_outranks(
    records: Seq<Json>,
    wanted: Option<Seq<char>>,
    i: int,
    j: int,
)
    requires
        0 <= i < records.len(),
        0 <= j < records.len(),
        name_agrees(records[i], wanted) == name_agrees(records[j], wanted),
        eq_ignore_ascii_case(text_of(field(entity_of(records[i]), "status"@)), "ACTIVE"@)
            == eq_ignore_ascii_case(text_of(field(entity_of(records[j]), "status"@)), "ACTIVE"@),
        eq_ignore_ascii_case(text_of(field(registration_of(records[i]), "status"@)), "ISSUED"@),
        !eq_ignore_ascii_case(text_of(field(registration_of(records[j]), "status"@)), "ISSUED"@),
    ensures
        rank(records[i], wanted) > rank(records[j], wanted),
        best_index(records, wanted, records.len() as int) != j,
{
    lemma_best_is_first_of_highest_rank(records, wanted, records.len() as int);
}

} // verus!
