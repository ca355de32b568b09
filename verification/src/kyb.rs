//! run-kyb-check: the one call an agent actually makes.
//!
//! Running GLEIF and VIES in a single enclave invocation matters for more than
//! latency: the agent receives a verdict, while the intermediate lookups stay
//! inside the enclave. It also means the scoring rules live in one auditable
//! place instead of being re-implemented by every caller.
use vstd::prelude::*;
use crate::common::{names_match, names_match_spec};
use crate::common::text_result;
use crate::gleif::{
    build_query_url, fetch_entity, gleif_reply_spec, given, query_url_spec, record_result,
    EntityRecord, EntityRecordView, VerifyEntityReq,
};
use crate::http::HttpReply;
use crate::text::{
    chars_of, concat2, concat3, copy_str, debug_str, eq_ignore_ascii_case, eq_ignore_case, is_blank,
    str_debug, strings_view, trim_chars,
};
use crate::vies::{
    build_vat_url, fetch_vat, vat_result, vat_url_spec, vies_reply_spec, CheckVatReq, VatRecord,
    VatRecordView,
};

verus! {

/// Below this score the supplier is cleared automatically.
pub const PASS_BELOW: u32 = 20;

/// At or above this score the supplier is rejected outright.
pub const FAIL_AT: u32 = 50;

#[derive(Debug, Clone)]
pub struct KybReq {
    pub legal_name: String,
    pub lei: Option<String>,
    pub country_code: Option<String>,
    pub vat_number: Option<String>,
}

#[derive(Debug, Clone)]
pub struct Check {
    pub name: String,
    /// pass | warn | fail | skipped
    pub status: String,
    pub detail: String,
}

/// What a [`Check`] says, as text.
pub struct CheckView {
    pub name: Seq<char>,
    pub status: Seq<char>,
    pub detail: Seq<char>,
}

impl View for Check {
    type V = CheckView;

    open spec fn view(&self) -> CheckView {
        CheckView { name: self.name@, status: self.status@, detail: self.detail@ }
    }
}

pub open spec fn check_view(name: Seq<char>, status: Seq<char>, detail: Seq<char>) -> CheckView {
    CheckView { name, status, detail }
}

impl Check {
    pub fn new(name: &str, status: &str, detail: String) -> (r: Self)
        ensures
            r@ == check_view(name@, status@, detail@),
    {
        Check { name: copy_str(name), status: copy_str(status), detail }
    }
}

#[derive(Debug, Clone)]
pub struct KybVerdict {
    /// pass | review | fail
    pub verdict: String,
    /// 0-100, higher means more risk.
    pub risk_score: u32,
    pub checks: Vec<Check>,
    pub entity: EntityRecord,
    pub vat: Option<VatRecord>,
}

pub open spec fn checks_view(checks: Seq<Check>) -> Seq<CheckView> {
    checks.map_values(|c: Check| c@)
}

pub open spec fn vat_view(vat: Option<VatRecord>) -> Option<VatRecordView> {
    match vat {
        Some(v) => Some(v@),
        None => None,
    }
}

/// What a [`KybVerdict`] says.
pub struct KybVerdictView {
    pub verdict: Seq<char>,
    pub risk_score: u32,
    pub checks: Seq<CheckView>,
    pub entity: EntityRecordView,
    pub vat: Option<VatRecordView>,
}

impl View for KybVerdict {
    type V = KybVerdictView;

    open spec fn view(&self) -> KybVerdictView {
        KybVerdictView {
            verdict: self.verdict@,
            risk_score: self.risk_score,
            checks: checks_view(self.checks@),
            entity: self.entity@,
            vat: vat_view(self.vat),
        }
    }
}

impl EntityRecord {
    /// A field-for-field copy.
    pub fn duplicate(&self) -> (r: Self)
        ensures
            r@ == self@,
    {
        let n = self.candidates.len();
        let mut candidates: Vec<String> = Vec::new();
        for i in 0..n
            invariant
                n == self.candidates@.len(),
                strings_view(candidates@) == strings_view(self.candidates@.take(i as int)),
        {
            let name = self.candidates[i].clone();
            assert(name@ == self.candidates@[i as int]@);
            let ghost before = candidates@;
            candidates.push(name);
            assert(strings_view(candidates@) =~= strings_view(before).push(name@));
            assert(strings_view(self.candidates@.take(i + 1)) =~= strings_view(
                self.candidates@.take(i as int),
            ).push(self.candidates@[i as int]@));
            assert(self.candidates@.take(i + 1) == self.candidates@.take(i as int).push(
                self.candidates@[i as int],
            ));
            assert(strings_view(candidates@) =~= strings_view(self.candidates@.take(i + 1)));
        }
        assert(self.candidates@.take(n as int) =~= self.candidates@);
        EntityRecord {
            found: self.found,
            lei: self.lei.clone(),
            legal_name: self.legal_name.clone(),
            jurisdiction: self.jurisdiction.clone(),
            entity_status: self.entity_status.clone(),
            registration_status: self.registration_status.clone(),
            next_renewal_date: self.next_renewal_date.clone(),
            address: self.address.clone(),
            candidates,
        }
    }
}

impl VatRecord {
    /// A field-for-field copy.
    pub fn duplicate(&self) -> (r: Self)
        ensures
            r@ == self@,
    {
        VatRecord {
            valid: self.valid,
            country_code: self.country_code.clone(),
            vat_number: self.vat_number.clone(),
            name: self.name.clone(),
            address: self.address.clone(),
            request_date: self.request_date.clone(),
            service_status: self.service_status.clone(),
        }
    }
}

// ---------------------------------------------------------------------------
// The scoring table
// ---------------------------------------------------------------------------

pub open spec fn entity_active(entity: EntityRecordView) -> bool {
    eq_ignore_ascii_case(entity.entity_status, "ACTIVE"@)
}

pub open spec fn registration_current(entity: EntityRecordView) -> bool {
    eq_ignore_ascii_case(entity.registration_status, "ISSUED"@)
}

pub open spec fn names_agree(legal_name: Seq<char>, entity: EntityRecordView) -> bool {
    names_match_spec(legal_name, entity.legal_name)
}

/// The checks on the registry record: one when no record was found, four
/// when one was.
pub open spec fn entity_checks(legal_name: Seq<char>, entity: EntityRecordView) -> Seq<CheckView> {
    if entity.found {
        seq![
            check_view("gleif_entity_found"@, "pass"@, "LEI "@ + entity.lei + " on file"@),
            if entity_active(entity) {
                check_view("entity_active"@, "pass"@, "entity status ACTIVE"@)
            } else {
                check_view("entity_active"@, "fail"@, "entity status "@ + entity.entity_status)
            },
            if registration_current(entity) {
                check_view(
                    "lei_registration_current"@,
                    "pass"@,
                    "registration ISSUED, renews "@ + entity.next_renewal_date,
                )
            } else {
                check_view(
                    "lei_registration_current"@,
                    "warn"@,
                    "registration status "@ + entity.registration_status,
                )
            },
            if names_agree(legal_name, entity) {
                check_view("name_match"@, "pass"@, "matches "@ + entity.legal_name)
            } else {
                check_view(
                    "name_match"@,
                    "warn"@,
                    "requested "@ + str_debug(legal_name) + " but registry says "@ + str_debug(
                        entity.legal_name,
                    ),
                )
            },
        ]
    } else {
        seq![check_view("gleif_entity_found"@, "fail"@, "no LEI record matches this company"@)]
    }
}

/// The VAT check: registered, not registered, or not supplied.
pub open spec fn vat_check(vat: Option<VatRecordView>) -> CheckView {
    match vat {
        Some(record) => if record.valid {
            check_view(
                "vat_valid"@,
                "pass"@,
                record.country_code + record.vat_number + " registered"@,
            )
        } else {
            check_view(
                "vat_valid"@,
                "fail"@,
                "VIES reports "@ + record.country_code + record.vat_number
                    + " as not registered ("@ + record.service_status + ")"@,
            )
        },
        None => check_view("vat_valid"@, "skipped"@, "no VAT number supplied"@),
    }
}

/// The risk the findings add up to, before the cap at 100.
pub open spec fn raw_risk(legal_name: Seq<char>, entity: EntityRecordView, vat: Option<VatRecordView>) -> int {
    (if !entity.found {
        50int
    } else {
        0int
    }) + (if entity.found && !entity_active(entity) {
        30int
    } else {
        0int
    }) + (if entity.found && !registration_current(entity) {
        20int
    } else {
        0int
    }) + (if entity.found && !names_agree(legal_name, entity) {
        15int
    } else {
        0int
    }) + match vat {
        Some(record) => if record.valid {
            0int
        } else {
            25int
        },
        None => 10int,
    }
}

pub open spec fn capped(risk: int) -> int {
    if risk < 100 {
        risk
    } else {
        100
    }
}

/// `pass` below 20, `review` from 20, `fail` from 50.
pub open spec fn verdict_for(risk: int) -> Seq<char> {
    if risk >= FAIL_AT {
        "fail"@
    } else if risk >= PASS_BELOW {
        "review"@
    } else {
        "pass"@
    }
}

/// The verdict the scoring table gives.
pub open spec fn score_spec(
    legal_name: Seq<char>,
    entity: EntityRecordView,
    vat: Option<VatRecordView>,
) -> KybVerdictView {
    let risk = capped(raw_risk(legal_name, entity, vat));
    KybVerdictView {
        verdict: verdict_for(risk),
        risk_score: risk as u32,
        checks: entity_checks(legal_name, entity).push(vat_check(vat)),
        entity,
        vat,
    }
}

pub open spec fn opt_vat_view(vat: Option<&VatRecord>) -> Option<VatRecordView> {
    match vat {
        Some(v) => Some(v@),
        None => None,
    }
}

/// Turns the two lookups into a verdict.
///
/// Pure scoring function — no host imports — so the whole decision table is
/// covered by native unit tests. Every rule that can reject a supplier is
/// something a procurement officer would have to justify, so each one adds an
/// explicit `Check` entry rather than silently moving the number.
pub fn score(req: &KybReq, entity: &EntityRecord, vat: Option<&VatRecord>) -> (r: KybVerdict)
    ensures
        r@ == score_spec(req.legal_name@, entity@, opt_vat_view(vat)),
{
    let ghost legal = req.legal_name@;
    let ghost e = entity@;
    let mut checks: Vec<Check> = Vec::new();
    let mut risk: u32 = 0;

    if entity.found {
        checks.push(
            Check::new("gleif_entity_found", "pass", concat3("LEI ", entity.lei.as_str(), " on file")),
        );
    } else {
        risk = risk + 50;
        checks.push(
            Check::new(
                "gleif_entity_found",
                "fail",
                copy_str("no LEI record matches this company"),
            ),
        );
    }

    if entity.found {
        if eq_ignore_case(entity.entity_status.as_str(), "ACTIVE") {
            checks.push(Check::new("entity_active", "pass", copy_str("entity status ACTIVE")));
        } else {
            risk = risk + 30;
            checks.push(
                Check::new(
                    "entity_active",
                    "fail",
                    concat2("entity status ", entity.entity_status.as_str()),
                ),
            );
        }

        if eq_ignore_case(entity.registration_status.as_str(), "ISSUED") {
            checks.push(
                Check::new(
                    "lei_registration_current",
                    "pass",
                    concat2("registration ISSUED, renews ", entity.next_renewal_date.as_str()),
                ),
            );
        } else {
            risk = risk + 20;
            checks.push(
                Check::new(
                    "lei_registration_current",
                    "warn",
                    concat2("registration status ", entity.registration_status.as_str()),
                ),
            );
        }

        if names_match(req.legal_name.as_str(), entity.legal_name.as_str()) {
            checks.push(
                Check::new("name_match", "pass", concat2("matches ", entity.legal_name.as_str())),
            );
        } else {
            risk = risk + 15;
            let requested = debug_str(req.legal_name.as_str());
            let registered = debug_str(entity.legal_name.as_str());
            let mut detail = concat2("requested ", requested.as_str());
            detail.append(" but registry says ");
            detail.append(registered.as_str());
            checks.push(Check::new("name_match", "warn", detail));
        }
    }
    assert(checks_view(checks@) =~= entity_checks(legal, e));

    match vat {
        Some(record) => {
            if record.valid {
                checks.push(
                    Check::new(
                        "vat_valid",
                        "pass",
                        concat3(record.country_code.as_str(), record.vat_number.as_str(), " registered"),
                    ),
                );
            } else {
                risk = risk + 25;
                let mut detail = concat3(
                    "VIES reports ",
                    record.country_code.as_str(),
                    record.vat_number.as_str(),
                );
                detail.append(" as not registered (");
                detail.append(record.service_status.as_str());
                detail.append(")");
                checks.push(Check::new("vat_valid", "fail", detail));
            }
        },
        None => {
            // Not a failure, but an incomplete file is still a reason a human
            // should look before money moves.
            risk = risk + 10;
            checks.push(Check::new("vat_valid", "skipped", copy_str("no VAT number supplied")));
        },
    }
    assert(checks_view(checks@) =~= entity_checks(legal, e).push(vat_check(opt_vat_view(vat))));

    let risk_score = if risk < 100 {
        risk
    } else {
        100
    };
    let verdict = if risk_score >= FAIL_AT {
        "fail"
    } else if risk_score >= PASS_BELOW {
        "review"
    } else {
        "pass"
    };
    let copied_vat = match vat {
        Some(record) => Some(record.duplicate()),
        None => None,
    };
    KybVerdict {
        verdict: copy_str(verdict),
        risk_score,
        checks,
        entity: entity.duplicate(),
        vat: copied_vat,
    }
}


// ---------------------------------------------------------------------------
// The check, step by step
// ---------------------------------------------------------------------------

/// What has just happened in a KYB check.
#[derive(Debug)]
pub enum KybEvent {
    /// The request has arrived.
    Start,
    /// The GLEIF call came back: the response, or the transport error's text.
    EntityReply(Result<HttpReply, String>),
    /// The VIES call for `vat_req` came back; `entity` is what GLEIF said.
    VatReply { entity: EntityRecord, vat_req: CheckVatReq, reply: Result<HttpReply, String> },
}

/// What the check needs done next.
#[derive(Debug)]
pub enum KybAction {
    /// Look the entity up in GLEIF at this URL.
    FetchEntity(String),
    /// Check `vat_req` with VIES at `url`; `entity` is kept for the verdict.
    FetchVat { url: String, vat_req: CheckVatReq, entity: EntityRecord },
    /// All lookups are done: here is the outcome.
    Finish(KybVerdict),
}

/// What a [`KybAction`] says.
pub enum KybActionView {
    FetchEntity(Seq<char>),
    FetchVat {
        url: Seq<char>,
        country_code: Seq<char>,
        vat_number: Seq<char>,
        entity: EntityRecordView,
    },
    Finish(KybVerdictView),
}

impl View for KybAction {
    type V = KybActionView;

    open spec fn view(&self) -> KybActionView {
        match self {
            KybAction::FetchEntity(url) => KybActionView::FetchEntity(url@),
            KybAction::FetchVat { url, vat_req, entity } => KybActionView::FetchVat {
                url: url@,
                country_code: vat_req.country_code@,
                vat_number: vat_req.vat_number@,
                entity: entity@,
            },
            KybAction::Finish(v) => KybActionView::Finish(v@),
        }
    }
}

pub open spec fn action_result(r: Result<KybAction, String>) -> Result<KybActionView, Seq<char>> {
    match r {
        Ok(a) => Ok(a@),
        Err(e) => Err(e@),
    }
}

/// A VAT number and its country are both supplied, neither empty: a missing
/// VAT number is a legitimate state (non-EU supplier) and is scored, not
/// looked up.
pub open spec fn vat_supplied(req: KybReq) -> bool {
    &&& req.country_code matches Some(c)
    &&& req.vat_number matches Some(n)
    &&& c@.len() > 0
    &&& n@.len() > 0
}

/// The next step of a KYB check, given what just happened.
pub open spec fn kyb_step_spec(req: KybReq, event: KybEvent) -> Result<KybActionView, Seq<char>> {
    let legal = req.legal_name@;
    match event {
        KybEvent::Start => if is_blank(legal) {
            Err("run-kyb-check: legal_name is required"@)
        } else {
            match query_url_spec(given(req.lei), Some(legal)) {
                Ok(url) => Ok(KybActionView::FetchEntity(url)),
                Err(e) => Err(e),
            }
        },
        KybEvent::EntityReply(reply) => match gleif_reply_spec(reply, Some(legal)) {
            Err(e) => Err(e),
            Ok(entity) => if vat_supplied(req) {
                let country = req.country_code->0@;
                let number = req.vat_number->0@;
                match vat_url_spec(country, number) {
                    Err(e) => Err(e),
                    Ok(url) => Ok(
                        KybActionView::FetchVat {
                            url,
                            country_code: country,
                            vat_number: number,
                            entity,
                        },
                    ),
                }
            } else {
                Ok(KybActionView::Finish(score_spec(legal, entity, None)))
            },
        },
        KybEvent::VatReply { entity, vat_req, reply } => match vies_reply_spec(
            reply,
            vat_req.country_code@,
        ) {
            Err(e) => Err(e),
            Ok(vat) => Ok(KybActionView::Finish(score_spec(legal, entity@, Some(vat)))),
        },
    }
}

/// A whole check, as the host runs it on a request and the two replies it
/// got: the first error met (a blank name, the GLEIF URL, GLEIF's reply, the
/// VIES URL, VIES's reply, in that order), or else the verdict the scoring
/// table gives on GLEIF's record and, when a VAT number was supplied, VIES's.
pub open spec fn kyb_run_spec(
    req: KybReq,
    entity_reply: Result<HttpReply, String>,
    vat_reply: Result<HttpReply, String>,
) -> Result<KybVerdictView, Seq<char>> {
    let legal = req.legal_name@;
    if is_blank(legal) {
        Err("run-kyb-check: legal_name is required"@)
    } else {
        match query_url_spec(given(req.lei), Some(legal)) {
            Err(e) => Err(e),
            Ok(_) => match gleif_reply_spec(entity_reply, Some(legal)) {
                Err(e) => Err(e),
                Ok(entity) => if vat_supplied(req) {
                    let country = req.country_code->0@;
                    match vat_url_spec(country, req.vat_number->0@) {
                        Err(e) => Err(e),
                        Ok(_) => match vies_reply_spec(vat_reply, country) {
                            Err(e) => Err(e),
                            Ok(vat) => Ok(score_spec(legal, entity, Some(vat))),
                        },
                    }
                } else {
                    Ok(score_spec(legal, entity, None))
                },
            },
        }
    }
}

fn copy_opt(s: &Option<String>) -> (r: Option<String>)
    ensures
        match r {
            Some(v) => s matches Some(w) && v@ == w@,
            None => s is None,
        },
{
    match s {
        Some(v) => Some(v.clone()),
        None => None,
    }
}

/// Decides the next step of a KYB check.
///
/// The host performs each lookup the returned action names and hands the
/// outcome back as the next event: first the GLEIF lookup, then, when a VAT
/// number was supplied, the VIES check, and finally the verdict.
pub fn kyb_step(req: &KybReq, event: KybEvent) -> (r: Result<KybAction, String>)
    ensures
        action_result(r) == kyb_step_spec(*req, event),
{
    match event {
        KybEvent::Start => {
            if trim_chars(&chars_of(req.legal_name.as_str())).len() == 0 {
                return Err(copy_str("run-kyb-check: legal_name is required"));
            }
            let lookup = VerifyEntityReq {
                lei: copy_opt(&req.lei),
                legal_name: Some(req.legal_name.clone()),
            };
            assert(given(lookup.lei) == given(req.lei));
            let url = build_query_url(&lookup)?;
            Ok(KybAction::FetchEntity(url))
        },
        KybEvent::EntityReply(reply) => {
            let entity = fetch_entity(&reply, Some(req.legal_name.as_str()))?;
            match (&req.country_code, &req.vat_number) {
                (Some(country), Some(number)) => {
                    if !country.as_str().is_empty() && !number.as_str().is_empty() {
                        let url = build_vat_url(country.as_str(), number.as_str())?;
                        let vat_req = CheckVatReq {
                            country_code: country.clone(),
                            vat_number: number.clone(),
                        };
                        return Ok(KybAction::FetchVat { url, vat_req, entity });
                    }
                },
                _ => {},
            }
            Ok(KybAction::Finish(score(req, &entity, None)))
        },
        KybEvent::VatReply { entity, vat_req, reply } => {
            let vat = fetch_vat(&reply, &vat_req)?;
            Ok(KybAction::Finish(score(req, &entity, Some(&vat))))
        },
    }
}


// ---------------------------------------------------------------------------
// Laws
// ---------------------------------------------------------------------------

/// The risk a check stands for: the scoring table, read from the check's
/// name and status.
pub open spec fn penalty(c: CheckView) -> int {
    if c.name == "gleif_entity_found"@ && c.status == "fail"@ {
        50
    } else if c.name == "entity_active"@ && c.status == "fail"@ {
        30
    } else if c.name == "lei_registration_current"@ && c.status == "warn"@ {
        20
    } else if c.name == "name_match"@ && c.status == "warn"@ {
        15
    } else if c.name == "vat_valid"@ && c.status == "fail"@ {
        25
    } else if c.name == "vat_valid"@ && c.status == "skipped"@ {
        10
    } else {
        0
    }
}

pub open spec fn total_penalty(checks: Seq<CheckView>) -> int
    decreases checks.len(),
{
    if checks.len() == 0 {
        0
    } else {
        total_penalty(checks.drop_last()) + penalty(checks.last())
    }
}


/// Every point of risk comes from an entry of `checks`: the score is the
/// sum of what the listed checks stand for, capped at 100. No rule moves the
/// number without saying so in `checks`.
pub proof fn lemma_risk_is_the_checks(
    legal_name: Seq<char>,
    entity: EntityRecordView,
    vat: Option<VatRecordView>,
)
    ensures
        score_spec(legal_name, entity, vat).risk_score as int == capped(
            total_penalty(score_spec(legal_name, entity, vat).checks),
        ),
{
    reveal_strlit("gleif_entity_found");
    reveal_strlit("entity_active");
    reveal_strlit("lei_registration_current");
    reveal_strlit("name_match");
    reveal_strlit("vat_valid");
    reveal_strlit("pass");
    reveal_strlit("fail");
    reveal_strlit("warn");
    reveal_strlit("skipped");
    reveal_strlit("review");
    assert("gleif_entity_found"@.len() != "entity_active"@.len());
    assert("gleif_entity_found"@.len() != "lei_registration_current"@.len());
    assert("gleif_entity_found"@.len() != "name_match"@.len());
    assert("gleif_entity_found"@.len() != "vat_valid"@.len());
    assert("entity_active"@.len() != "lei_registration_current"@.len());
    assert("entity_active"@.len() != "name_match"@.len());
    assert("entity_active"@.len() != "vat_valid"@.len());
    assert("lei_registration_current"@.len() != "name_match"@.len());
    assert("lei_registration_current"@.len() != "vat_valid"@.len());
    assert("name_match"@.len() != "vat_valid"@.len());
    assert("pass"@[0] != "fail"@[0]);
    assert("pass"@[0] != "warn"@[0]);
    assert("fail"@[0] != "warn"@[0]);
    assert("pass"@.len() != "skipped"@.len());
    assert("fail"@.len() != "skipped"@.len());
    let checks = score_spec(legal_name, entity, vat).checks;
    let front = entity_checks(legal_name, entity);
    assert(checks.drop_last() == front);
    if entity.found {
        assert(front.drop_last().drop_last().drop_last().drop_last().len() == 0);
        assert(total_penalty(front) == total_penalty(front.drop_last()) + penalty(front[3]));
        assert(total_penalty(front.drop_last()) == total_penalty(
            front.drop_last().drop_last(),
        ) + penalty(front[2]));
        assert(total_penalty(front.drop_last().drop_last()) == total_penalty(
            front.drop_last().drop_last().drop_last(),
        ) + penalty(front[1]));
        let one = front.drop_last().drop_last().drop_last();
        assert(total_penalty(one.drop_last()) == 0);
        assert(one.last() == front[0]);
        assert(total_penalty(one) == penalty(front[0]));
    } else {
        assert(front.drop_last().len() == 0);
        assert(total_penalty(front.drop_last()) == 0);
        assert(total_penalty(front) == penalty(front[0]));
    }
}

/// The score never leaves 0..=100; with every rule firing it reaches 90.
pub proof fn lemma_risk_bounded(legal_name: Seq<char>, entity: EntityRecordView, vat: Option<VatRecordView>)
    ensures
        0 <= raw_risk(legal_name, entity, vat) <= 90,
        score_spec(legal_name, entity, vat).risk_score <= 100,
{
}

/// The verdict follows the score alone: `fail` from 50, `review` from 20,
/// `pass` below.
pub proof fn lemma_verdict_bands(legal_name: Seq<char>, entity: EntityRecordView, vat: Option<VatRecordView>)
    ensures
        ({
            let v = score_spec(legal_name, entity, vat);
            &&& (v.verdict == "fail"@) == (v.risk_score >= FAIL_AT)
            &&& (v.verdict == "review"@) == (PASS_BELOW <= v.risk_score < FAIL_AT)
            &&& (v.verdict == "pass"@) == (v.risk_score < PASS_BELOW)
        }),
{
    reveal_strlit("gleif_entity_found");
    reveal_strlit("entity_active");
    reveal_strlit("lei_registration_current");
    reveal_strlit("name_match");
    reveal_strlit("vat_valid");
    reveal_strlit("pass");
    reveal_strlit("fail");
    reveal_strlit("warn");
    reveal_strlit("skipped");
    reveal_strlit("review");
    assert("fail"@.len() != "review"@.len());
    assert("pass"@.len() != "review"@.len());
    assert("pass"@[0] != "fail"@[0]);
}

/// A company with no LEI record is rejected outright, and the verdict carries
/// no sub-check about a record that does not exist.
pub proof fn lemma_unknown_entity_fails(legal_name: Seq<char>, entity: EntityRecordView, vat: Option<VatRecordView>)
    requires
        !entity.found,
    ensures
        score_spec(legal_name, entity, vat).verdict == "fail"@,
        score_spec(legal_name, entity, vat).risk_score >= FAIL_AT,
        forall|i: int|
            0 <= i < score_spec(legal_name, entity, vat).checks.len() ==> (
            #[trigger] score_spec(legal_name, entity, vat).checks[i]).name == "gleif_entity_found"@
                || score_spec(legal_name, entity, vat).checks[i].name == "vat_valid"@,
{
    let checks = score_spec(legal_name, entity, vat).checks;
    assert(checks.len() == 2);
}

/// A found, active, currently registered company under the name that was
/// asked for, with a registered VAT number, passes with no risk and every
/// check passing.
pub proof fn lemma_clean_supplier_passes(legal_name: Seq<char>, entity: EntityRecordView, vat: VatRecordView)
    requires
        entity.found,
        entity_active(entity),
        registration_current(entity),
        names_agree(legal_name, entity),
        vat.valid,
    ensures
        score_spec(legal_name, entity, Some(vat)).risk_score == 0,
        score_spec(legal_name, entity, Some(vat)).verdict == "pass"@,
        forall|i: int|
            0 <= i < score_spec(legal_name, entity, Some(vat)).checks.len() ==> (
            #[trigger] score_spec(legal_name, entity, Some(vat)).checks[i]).status == "pass"@,
{
    let checks = score_spec(legal_name, entity, Some(vat)).checks;
    assert(checks.len() == 5);
}

/// Whatever VIES says, a found and healthy company under the requested name is
/// never rejected outright: a VAT problem alone goes to human review.
pub proof fn lemma_vat_alone_never_rejects(legal_name: Seq<char>, entity: EntityRecordView, vat: Option<VatRecordView>)
    requires
        entity.found,
        entity_active(entity),
        registration_current(entity),
        names_agree(legal_name, entity),
    ensures
        score_spec(legal_name, entity, vat).risk_score < FAIL_AT,
        score_spec(legal_name, entity, vat).verdict != "fail"@,
{
    reveal_strlit("gleif_entity_found");
    reveal_strlit("entity_active");
    reveal_strlit("lei_registration_current");
    reveal_strlit("name_match");
    reveal_strlit("vat_valid");
    reveal_strlit("pass");
    reveal_strlit("fail");
    reveal_strlit("warn");
    reveal_strlit("skipped");
    reveal_strlit("review");
    assert("pass"@[0] != "fail"@[0]);
    assert("review"@.len() != "fail"@.len());
}


/// The steps make the whole check: `Start` either fails with the run's error
/// or asks for the GLEIF lookup; GLEIF's reply then either ends with the
/// run's outcome or asks for the VIES check; and VIES's reply, handed back
/// with the record and the VAT request that action carried, ends with the
/// run's outcome.
pub proof fn lemma_kyb_steps_make_the_run(
    req: KybReq,
    entity_reply: Result<HttpReply, String>,
    vat_reply: Result<HttpReply, String>,
    entity: EntityRecord,
    vat_req: CheckVatReq,
)
    ensures
        (match kyb_step_spec(req, KybEvent::Start) {
            Err(e) => kyb_run_spec(req, entity_reply, vat_reply) == Err::<KybVerdictView, _>(e),
            Ok(action) => action is FetchEntity,
        }),
        (kyb_step_spec(req, KybEvent::Start) is Ok ==> match kyb_step_spec(
            req,
            KybEvent::EntityReply(entity_reply),
        ) {
            Err(e) => kyb_run_spec(req, entity_reply, vat_reply) == Err::<KybVerdictView, _>(e),
            Ok(KybActionView::Finish(v)) => kyb_run_spec(req, entity_reply, vat_reply) == Ok::<
                _,
                Seq<char>,
            >(v),
            Ok(KybActionView::FetchVat { url: _, country_code, vat_number, entity: found }) => (
            entity@ == found && vat_req.country_code@ == country_code && vat_req.vat_number@
                == vat_number) ==> match kyb_step_spec(
                req,
                KybEvent::VatReply { entity, vat_req, reply: vat_reply },
            ) {
                Err(e) => kyb_run_spec(req, entity_reply, vat_reply) == Err::<KybVerdictView, _>(
                    e,
                ),
                Ok(KybActionView::Finish(v)) => kyb_run_spec(req, entity_reply, vat_reply) == Ok::<
                    _,
                    Seq<char>,
                >(v),
                Ok(_) => false,
            },
            Ok(KybActionView::FetchEntity(_)) => false,
        }),
{
}


/// An LEI registration counts as current only when its status reads
/// `ISSUED`, ASCII case aside. For a record that was found, the
/// `lei_registration_current` check passes exactly then and warns otherwise;
/// and a registration in any other state (`RETIRED`, `LAPSED`, ...) costs
/// exactly 20 points over the same record with an issued one, so such a
/// record never passes.
pub proof fn lemma_registration_must_be_issued(
    legal_name: Seq<char>,
    entity: EntityRecordView,
    vat: Option<VatRecordView>,
    status: Seq<char>,
)
    requires
        entity.found,
        !eq_ignore_ascii_case(status, "ISSUED"@),
    ensures
        score_spec(legal_name, entity, vat).checks[2].name == "lei_registration_current"@,
        score_spec(legal_name, entity, vat).checks[2].status == (if eq_ignore_ascii_case(
            entity.registration_status,
            "ISSUED"@,
        ) {
            "pass"@
        } else {
            "warn"@
        }),
        score_spec(legal_name, (EntityRecordView { registration_status: status, ..entity }), vat).risk_score
            == score_spec(
            legal_name,
            (EntityRecordView { registration_status: "ISSUED"@, ..entity }),
            vat,
        ).risk_score + 20,
        score_spec(legal_name, (EntityRecordView { registration_status: status, ..entity }), vat).risk_score
            >= 20,
        score_spec(legal_name, (EntityRecordView { registration_status: status, ..entity }), vat).verdict
            != "pass"@,
{
    reveal_strlit("pass");
    reveal_strlit("review");
    reveal_strlit("fail");
    let issued = EntityRecordView { registration_status: "ISSUED"@, ..entity };
    assert(eq_ignore_ascii_case(issued.registration_status, "ISSUED"@));
    assert("review"@.len() != "pass"@.len());
    assert("fail"@[0] != "pass"@[0]);
}

/// A missing VAT number is scored, not looked up: when the country code or
/// the VAT number is absent or empty, GLEIF's reply never leads to a VIES
/// lookup or to a VAT error. The step ends with GLEIF's own error, or with
/// the verdict on GLEIF's record alone, its VAT check skipped.
pub proof fn lemma_missing_vat_is_scored(req: KybReq, reply: Result<HttpReply, String>)
    requires
        req.country_code is None || req.vat_number is None || req.country_code->0@.len() == 0
            || req.vat_number->0@.len() == 0,
    ensures
        (match kyb_step_spec(req, KybEvent::EntityReply(reply)) {
            Err(e) => gleif_reply_spec(reply, Some(req.legal_name@)) == Err::<
                EntityRecordView,
                Seq<char>,
            >(e),
            Ok(KybActionView::Finish(v)) => {
                &&& gleif_reply_spec(reply, Some(req.legal_name@)) == Ok::<_, Seq<char>>(
                    v.entity,
                )
                &&& v == score_spec(req.legal_name@, v.entity, None)
                &&& v.vat is None
                &&& v.checks.last() == check_view(
                    "vat_valid"@,
                    "skipped"@,
                    "no VAT number supplied"@,
                )
            },
            Ok(_) => false,
        }),
{
}

/// A VAT number and country that are both there and not empty are always
/// checked: GLEIF's reply then never finishes the check without VIES.
pub proof fn lemma_supplied_vat_is_looked_up(req: KybReq, reply: Result<HttpReply, String>)
    requires
        req.country_code matches Some(c) && c@.len() > 0,
        req.vat_number matches Some(n) && n@.len() > 0,
    ensures
        !(kyb_step_spec(req, KybEvent::EntityReply(reply)) matches Ok(KybActionView::Finish(_))),
{
}

} // verus!
