# resolution_normalise

Derives billed-resolution claim records from vendor-neutral helpdesk records, with the
derivation stated and proved in Verus.

The derivation is a function of the source bundle, the ruleset, the billing period and the
evaluation time. `normalise` is specified exactly: each outcome is the one `expected_outcome`
describes, down to the text of every field and the `inputs_sha256` and `ruleset_sha256`
digests, which are SHA-256 over canonical JSON texts that are themselves specified character
by character.

Layout:

- `src/` is the verified library.
  - `source`, `model`, `ruleset`: the records, the claim record and outcome, the rules.
  - `normalise`: the flags, the requester classification, the derivation and the summary.
  - `canonical`, `criteria`, `json`, `text`, `time`: the canonical texts that are hashed or
    handed to the adjudicator, and the string and instant arithmetic under them.
  - `laws`: properties of the library as a whole (determinism, what the evaluation time can
    and cannot change, how the summary relates to the records and adds up over a split run,
    what the input digest covers, when the criteria hold on the artifact, the order of
    criteria and events).
  - chrono, regex, sha2 and hex are called through a few small trusted wrappers whose
    contracts are in their doc comments.
- `app/` holds what stays outside the proofs: serde forms of the records, reading and writing
  files, and conversions to chrono and serde_json values.
- `tests/` runs the library on concrete bundles and rulesets, against the real outside crates.
