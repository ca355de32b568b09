# z_tenant_kyb

Supplier due diligence (KYB) for a confidential-compute contract: is this
counterparty real, active, and safe to pay? The library holds every decision
and is verified with Verus; the host performs the registry calls it asks for.

- `src/common.rs` — input validation (country code, VAT number, LEI),
  percent-encoding, company-name comparison, tenant configuration fallback,
  tenant KV map names and values.
- `src/gleif.rs` — the GLEIF query URL, ranking of multi-match answers, and the
  flat entity record.
- `src/vies.rs` — the VIES URL and the VAT record.
- `src/kyb.rs` — the scoring table and the step function of a full check.
- `src/onboarding.rs` — the placeholder-templated onboarding body, endpoint
  host, reference extraction and the step function of a submission.
- `src/json.rs` — the JSON value type the library reads; parsing is
  `serde_json`'s.
- `src/text.rs` — character-level helpers.
- `app/` — request decoding, host calls and response encoding around the
  library.

Each module ends with its laws: proof functions stating what holds for every
input (e.g. the score is the sum of the listed checks, a host never keeps a
delimiter, an encoded value decodes back to the original bytes).
