//! Acceptance criteria, in the Judge's own wire form, as compact JSON texts with the keys of
//! every object in ascending order.
//!
//! The Judge evaluates whole-artifact hashes, field hashes, pattern matches, length bounds and
//! exact equality. Everything below is exact equality over flags the normaliser derived, plus a
//! bound on turn count and a pattern on the scope tag.
//!
//! The texts are written from structured values: a criterion (`Criterion`), and the artifact as
//! its named fields (`artifact_fields`). `criterion_holds` reads a criterion the way the Judge
//! does, over those fields.
use vstd::prelude::*;
use crate::json::{join_commas, json_array, json_bool, json_string, lemma_join_commas_step, write_bool, write_string};
use crate::model::{ClaimRecord, ClaimView};
use crate::normalise::string_views;
use crate::ruleset::{regex_compile_error, regex_is_match, Ruleset};
use crate::text::{decimal, push_char, push_decimal};

verus! {

broadcast use vstd::string::group_string_axioms;

/// A JSON scalar: a boolean, a string or a whole number.
pub enum JsonScalar {
    Bool(bool),
    Str(Seq<char>),
    Num(nat),
}

/// The JSON text of a scalar.
pub open spec fn scalar_text(v: JsonScalar) -> Seq<char> {
    match v {
        JsonScalar::Bool(b) => json_bool(b),
        JsonScalar::Str(s) => json_string(s),
        JsonScalar::Num(n) => decimal(n),
    }
}

/// The kind the schema gives a scalar.
pub open spec fn kind_of(v: JsonScalar) -> Seq<char> {
    match v {
        JsonScalar::Bool(_) => "bool"@,
        JsonScalar::Str(_) => "string"@,
        JsonScalar::Num(_) => "number"@,
    }
}

/// A field named `name` with value `v`, as a member of a JSON object.
pub open spec fn field_text(name: Seq<char>, v: JsonScalar) -> Seq<char> {
    json_string(name) + seq![':'] + scalar_text(v)
}

/// A JSON object with the given fields, in the given order.
pub open spec fn object_text(fields: Seq<(Seq<char>, JsonScalar)>) -> Seq<char> {
    seq!['{'] + join_commas(Seq::new(fields.len(), |i: int| field_text(fields[i].0, fields[i].1)))
        + seq!['}']
}

/// The value of the field named `name`: that of the first field with the name.
pub open spec fn field_value(fields: Seq<(Seq<char>, JsonScalar)>, name: Seq<char>) -> Option<JsonScalar>
    decreases fields.len(),
{
    if fields.len() == 0 {
        None
    } else if fields[0].0 == name {
        Some(fields[0].1)
    } else {
        field_value(fields.drop_first(), name)
    }
}

/// The JSON pointer of a top-level field.
pub open spec fn pointer(name: Seq<char>) -> Seq<char> {
    seq!['/'] + name
}

/// A criterion on one top-level field of the artifact.
pub enum Criterion {
    /// The field equals `value`.
    FieldEquals { field: Seq<char>, value: JsonScalar },
    /// The field is a string that the regular expression `pattern` matches.
    FieldMatches { field: Seq<char>, pattern: Seq<char> },
    /// The field is a string whose length lies between `min` and `max`.
    FieldLengthBetween { field: Seq<char>, min: nat, max: nat },
}

/// The Judge's wire form of a criterion.
pub open spec fn criterion_text(c: Criterion) -> Seq<char> {
    match c {
        Criterion::FieldEquals { field, value } => "{\"field_equals\":{\"pointer\":"@ + json_string(
            pointer(field),
        ) + ",\"value\":"@ + scalar_text(value) + "}}"@,
        Criterion::FieldMatches { field, pattern } => "{\"field_matches\":{\"pattern\":"@
            + json_string(pattern) + ",\"pointer\":"@ + json_string(pointer(field)) + "}}"@,
        Criterion::FieldLengthBetween { field, min, max } => "{\"field_length_between\":{\"max\":"@
            + decimal(max) + ",\"min\":"@ + decimal(min) + ",\"pointer\":"@ + json_string(
            pointer(field),
        ) + "}}"@,
    }
}

/// Criterion `c` holds on an object with these fields, as the Judge reads it: equality of the
/// field's value, a match of a pattern that compiles, a bound on a string's length.
pub open spec fn criterion_holds(c: Criterion, fields: Seq<(Seq<char>, JsonScalar)>) -> bool {
    match c {
        Criterion::FieldEquals { field, value } => field_value(fields, field) == Some(value),
        Criterion::FieldMatches { field, pattern } => field_value(fields, field) matches Some(
            JsonScalar::Str(s),
        ) && regex_compile_error(pattern) is None && regex_is_match(pattern, s),
        Criterion::FieldLengthBetween { field, min, max } => field_value(fields, field) matches Some(
            JsonScalar::Str(s),
        ) && min <= s.len() <= max,
    }
}

/// The criteria a claim record must satisfy to be payable.
pub open spec fn criteria_of(r: ClaimView, rules: Ruleset) -> Seq<Criterion> {
    seq![
        Criterion::FieldEquals { field: "reopened_within_window"@, value: JsonScalar::Bool(false) },
        Criterion::FieldEquals { field: "repeat_contact_window"@, value: JsonScalar::Bool(false) },
        Criterion::FieldEquals { field: "reached_human"@, value: JsonScalar::Bool(false) },
        Criterion::FieldEquals { field: "downstream_reversal"@, value: JsonScalar::Bool(false) },
        Criterion::FieldEquals { field: "requester_class"@, value: JsonScalar::Str("customer"@) },
        Criterion::FieldMatches { field: "scope_tag"@, pattern: rules.scope_tag_pattern@ },
        Criterion::FieldLengthBetween {
            field: "turn_marks"@,
            min: rules.min_turns as nat,
            max: rules.max_turns as nat,
        },
        Criterion::FieldEquals { field: "inputs_sha256"@, value: JsonScalar::Str(r.inputs_sha256) },
        Criterion::FieldEquals { field: "ruleset_sha256"@, value: JsonScalar::Str(r.ruleset_sha256) },
    ]
}

/// The wire form of the criteria a claim record must satisfy.
pub open spec fn criteria_texts(r: ClaimView, rules: Ruleset) -> Seq<Seq<char>> {
    Seq::new(criteria_of(r, rules).len(), |i: int| criterion_text(criteria_of(r, rules)[i]))
}

/// An executable JSON scalar.
pub enum Scalar {
    Bool(bool),
    Str(String),
    Num(u64),
}

impl View for Scalar {
    type V = JsonScalar;

    open spec fn view(&self) -> JsonScalar {
        match self {
            Scalar::Bool(b) => JsonScalar::Bool(*b),
            Scalar::Str(s) => JsonScalar::Str(s@),
            Scalar::Num(n) => JsonScalar::Num(*n as nat),
        }
    }
}

fn write_scalar(out: &mut String, v: &Scalar)
    ensures
        final(out)@ == old(out)@ + scalar_text(v@),
{
    match v {
        Scalar::Bool(b) => write_bool(out, *b),
        Scalar::Str(s) => write_string(out, s.as_str()),
        Scalar::Num(n) => push_decimal(out, *n),
    }
}

/// The pointer of the field `name`.
fn pointer_of(name: &str) -> (p: String)
    ensures
        p@ == pointer(name@),
{
    let mut p = String::new();
    push_char(&mut p, '/');
    p.append(name);
    p
}

/// The views of named fields.
pub open spec fn fields_view(fields: Seq<(&str, Scalar)>) -> Seq<(Seq<char>, JsonScalar)> {
    Seq::new(fields.len(), |i: int| (fields[i].0@, fields[i].1@))
}

/// Appends a JSON object with the given fields, in order.
fn write_object(out: &mut String, fields: &Vec<(&str, Scalar)>)
    ensures
        final(out)@ == old(out)@ + object_text(fields_view(fields@)),
{
    let ghost view = fields_view(fields@);
    let ghost texts = Seq::new(view.len(), |i: int| field_text(view[i].0, view[i].1));
    push_char(out, '{');
    let mut j: usize = 0;
    while j < fields.len()
        invariant
            j <= fields@.len(),
            view == fields_view(fields@),
            texts == Seq::new(view.len(), |i: int| field_text(view[i].0, view[i].1)),
            out@ == old(out)@ + seq!['{'] + join_commas(texts.take(j as int)),
        decreases fields.len() - j,
    {
        proof {
            lemma_join_commas_step(texts, j as int);
        }
        if j > 0 {
            push_char(out, ',');
        }
        let ghost before = out@;
        write_string(out, fields[j].0);
        push_char(out, ':');
        write_scalar(out, &fields[j].1);
        assert(out@ =~= before + field_text(view[j as int].0, view[j as int].1));
        j = j + 1;
        assert(out@ =~= old(out)@ + seq!['{'] + join_commas(texts.take(j as int)));
    }
    push_char(out, '}');
    assert(texts.take(fields@.len() as int) =~= texts);
    assert(out@ =~= old(out)@ + object_text(view));
}

fn equals_json(field: &str, value: &Scalar) -> (s: String)
    ensures
        s@ == criterion_text(Criterion::FieldEquals { field: field@, value: value@ }),
{
    let mut out = String::new();
    out.append("{\"field_equals\":{\"pointer\":");
    assert(out@ =~= "{\"field_equals\":{\"pointer\":"@);
    let p = pointer_of(field);
    write_string(&mut out, p.as_str());
    out.append(",\"value\":");
    write_scalar(&mut out, value);
    out.append("}}");
    out
}

fn matches_json(field: &str, pattern: &str) -> (s: String)
    ensures
        s@ == criterion_text(Criterion::FieldMatches { field: field@, pattern: pattern@ }),
{
    let mut out = String::new();
    out.append("{\"field_matches\":{\"pattern\":");
    assert(out@ =~= "{\"field_matches\":{\"pattern\":"@);
    write_string(&mut out, pattern);
    out.append(",\"pointer\":");
    let p = pointer_of(field);
    write_string(&mut out, p.as_str());
    out.append("}}");
    out
}

fn length_json(field: &str, min: u64, max: u64) -> (s: String)
    ensures
        s@ == criterion_text(
            Criterion::FieldLengthBetween { field: field@, min: min as nat, max: max as nat },
        ),
{
    let mut out = String::new();
    out.append("{\"field_length_between\":{\"max\":");
    assert(out@ =~= "{\"field_length_between\":{\"max\":"@);
    push_decimal(&mut out, max);
    out.append(",\"min\":");
    push_decimal(&mut out, min);
    out.append(",\"pointer\":");
    let p = pointer_of(field);
    write_string(&mut out, p.as_str());
    out.append("}}");
    out
}

/// The criteria a claim record must satisfy to be payable, fixed before evaluation.
pub fn for_claim(record: &ClaimRecord, rules: &Ruleset) -> (c: Vec<String>)
    ensures
        string_views(c@) == criteria_texts(record@, *rules),
{
    let mut c: Vec<String> = Vec::new();
    c.push(equals_json("reopened_within_window", &Scalar::Bool(false)));
    c.push(equals_json("repeat_contact_window", &Scalar::Bool(false)));
    c.push(equals_json("reached_human", &Scalar::Bool(false)));
    c.push(equals_json("downstream_reversal", &Scalar::Bool(false)));
    c.push(equals_json("requester_class", &Scalar::Str("customer".to_owned())));
    c.push(matches_json("scope_tag", rules.scope_tag_pattern.as_str()));
    c.push(length_json("turn_marks", rules.min_turns as u64, rules.max_turns as u64));
    c.push(equals_json("inputs_sha256", &Scalar::Str(record.inputs_sha256.clone())));
    c.push(equals_json("ruleset_sha256", &Scalar::Str(record.ruleset_sha256.clone())));
    assert(string_views(c@) =~= criteria_texts(record@, *rules));
    c
}

/// One required field of the schema: its pointer and its kind.
pub open spec fn required_text(name: Seq<char>, kind: Seq<char>) -> Seq<char> {
    "{\"kind\":"@ + json_string(kind) + ",\"pointer\":"@ + json_string(pointer(name)) + "}"@
}

/// The fields the schema requires, by name, with their kinds.
pub open spec fn required_fields() -> Seq<(Seq<char>, Seq<char>)> {
    seq![
        ("claim_id"@, "string"@),
        ("period"@, "string"@),
        ("resolution_type"@, "string"@),
        ("reopened_within_window"@, "bool"@),
        ("repeat_contact_window"@, "bool"@),
        ("reached_human"@, "bool"@),
        ("downstream_reversal"@, "bool"@),
        ("requester_class"@, "string"@),
        ("inputs_sha256"@, "string"@),
        ("ruleset_sha256"@, "string"@),
    ]
}

/// The structural schema the artifact must satisfy before any criterion is applied.
pub open spec fn schema_text() -> Seq<char> {
    "{\"deny_unknown_fields\":false,\"required\":"@ + json_array(
        Seq::new(
            required_fields().len(),
            |i: int| required_text(required_fields()[i].0, required_fields()[i].1),
        ),
    ) + "}"@
}

fn required_json(name: &str, kind: &str) -> (s: String)
    ensures
        s@ == required_text(name@, kind@),
{
    let mut out = String::new();
    out.append("{\"kind\":");
    assert(out@ =~= "{\"kind\":"@);
    write_string(&mut out, kind);
    out.append(",\"pointer\":");
    let p = pointer_of(name);
    write_string(&mut out, p.as_str());
    out.append("}");
    out
}

/// The structural schema the artifact must satisfy before any criterion is applied.
pub fn schema() -> (s: String)
    ensures
        s@ == schema_text(),
{
    let mut fields: Vec<(&str, &str)> = Vec::new();
    fields.push(("claim_id", "string"));
    fields.push(("period", "string"));
    fields.push(("resolution_type", "string"));
    fields.push(("reopened_within_window", "bool"));
    fields.push(("repeat_contact_window", "bool"));
    fields.push(("reached_human", "bool"));
    fields.push(("downstream_reversal", "bool"));
    fields.push(("requester_class", "string"));
    fields.push(("inputs_sha256", "string"));
    fields.push(("ruleset_sha256", "string"));
    let ghost texts = Seq::new(
        required_fields().len(),
        |i: int| required_text(required_fields()[i].0, required_fields()[i].1),
    );
    assert(fields@.len() == required_fields().len());
    assert forall|i: int| 0 <= i < fields@.len() implies #[trigger] fields@[i].0@
        == required_fields()[i].0 && fields@[i].1@ == required_fields()[i].1 by {}
    let mut out = String::new();
    out.append("{\"deny_unknown_fields\":false,\"required\":");
    push_char(&mut out, '[');
    assert(out@ =~= "{\"deny_unknown_fields\":false,\"required\":"@ + seq!['[']);
    let mut i: usize = 0;
    while i < fields.len()
        invariant
            i <= fields@.len(),
            fields@.len() == required_fields().len(),
            forall|k: int|
                0 <= k < fields@.len() ==> #[trigger] fields@[k].0@ == required_fields()[k].0
                    && fields@[k].1@ == required_fields()[k].1,
            texts == Seq::new(
                required_fields().len(),
                |k: int| required_text(required_fields()[k].0, required_fields()[k].1),
            ),
            out@ == "{\"deny_unknown_fields\":false,\"required\":"@ + seq!['['] + join_commas(
                texts.take(i as int),
            ),
        decreases fields.len() - i,
    {
        proof {
            lemma_join_commas_step(texts, i as int);
        }
        let (name, kind) = fields[i];
        let entry = required_json(name, kind);
        if i > 0 {
            push_char(&mut out, ',');
        }
        out.append(entry.as_str());
        i = i + 1;
        assert(out@ =~= "{\"deny_unknown_fields\":false,\"required\":"@ + seq!['['] + join_commas(
            texts.take(i as int),
        ));
    }
    push_char(&mut out, ']');
    out.append("}");
    assert(texts.take(fields@.len() as int) =~= texts);
    assert(out@ =~= schema_text());
    out
}

/// One `x` per public turn.
pub open spec fn turn_marks(n: nat) -> Seq<char> {
    Seq::new(n, |i: int| 'x')
}

/// The fields of the artifact body the Judge adjudicates: the claim record's fields, plus
/// `turn_marks`, one `x` per public turn, in ascending order of name.
pub open spec fn artifact_fields(r: ClaimView) -> Seq<(Seq<char>, JsonScalar)> {
    seq![
        ("amount_usd_micros"@, JsonScalar::Num(r.amount_usd_micros as nat)),
        ("claim_id"@, JsonScalar::Str(r.claim_id)),
        ("downstream_reversal"@, JsonScalar::Bool(r.downstream_reversal)),
        ("inputs_sha256"@, JsonScalar::Str(r.inputs_sha256)),
        ("period"@, JsonScalar::Str(r.period)),
        ("reached_human"@, JsonScalar::Bool(r.reached_human)),
        ("reopened_within_window"@, JsonScalar::Bool(r.reopened_within_window)),
        ("repeat_contact_window"@, JsonScalar::Bool(r.repeat_contact_window)),
        ("requester_class"@, JsonScalar::Str(r.requester_class)),
        ("resolution_type"@, JsonScalar::Str(r.resolution_type)),
        ("resolved_at"@, JsonScalar::Str(r.resolved_at)),
        ("ruleset_sha256"@, JsonScalar::Str(r.ruleset_sha256)),
        ("ruleset_version"@, JsonScalar::Str(r.ruleset_version)),
        ("scope_tag"@, JsonScalar::Str(r.scope_tag)),
        ("ticket_id"@, JsonScalar::Str(r.ticket_id)),
        ("turn_count"@, JsonScalar::Num(r.turn_count as nat)),
        ("turn_marks"@, JsonScalar::Str(turn_marks(r.turn_count as nat))),
    ]
}

/// The artifact body the Judge adjudicates, as text.
pub open spec fn artifact_text(r: ClaimView) -> Seq<char> {
    object_text(artifact_fields(r))
}

/// The artifact body the Judge adjudicates: the claim record plus `turn_marks`.
pub fn artifact_body(record: &ClaimRecord) -> (s: String)
    requires
        record.turn_count <= isize::MAX,
    ensures
        s@ == artifact_text(record@),
{
    let mut marks = String::new();
    let mut k: u64 = 0;
    while k < record.turn_count
        invariant
            k <= record.turn_count,
            marks@ == turn_marks(k as nat),
        decreases record.turn_count - k,
    {
        push_char(&mut marks, 'x');
        k = k + 1;
        assert(marks@ =~= turn_marks(k as nat));
    }
    let mut fields: Vec<(&str, Scalar)> = Vec::new();
    fields.push(("amount_usd_micros", Scalar::Num(record.amount_usd_micros)));
    fields.push(("claim_id", Scalar::Str(record.claim_id.clone())));
    fields.push(("downstream_reversal", Scalar::Bool(record.downstream_reversal)));
    fields.push(("inputs_sha256", Scalar::Str(record.inputs_sha256.clone())));
    fields.push(("period", Scalar::Str(record.period.clone())));
    fields.push(("reached_human", Scalar::Bool(record.reached_human)));
    fields.push(("reopened_within_window", Scalar::Bool(record.reopened_within_window)));
    fields.push(("repeat_contact_window", Scalar::Bool(record.repeat_contact_window)));
    fields.push(("requester_class", Scalar::Str(record.requester_class.clone())));
    fields.push(("resolution_type", Scalar::Str(record.resolution_type.clone())));
    fields.push(("resolved_at", Scalar::Str(record.resolved_at.clone())));
    fields.push(("ruleset_sha256", Scalar::Str(record.ruleset_sha256.clone())));
    fields.push(("ruleset_version", Scalar::Str(record.ruleset_version.clone())));
    fields.push(("scope_tag", Scalar::Str(record.scope_tag.clone())));
    fields.push(("ticket_id", Scalar::Str(record.ticket_id.clone())));
    fields.push(("turn_count", Scalar::Num(record.turn_count)));
    fields.push(("turn_marks", Scalar::Str(marks)));
    assert(fields_view(fields@) =~= artifact_fields(record@));
    let mut out = String::new();
    write_object(&mut out, &fields);
    assert(out@ =~= artifact_text(record@));
    out
}

} // verus!
