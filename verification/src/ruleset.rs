//! The rules a run is evaluated under. Fixed before the run, versioned, and hashed into every
//! claim record so a verdict can never be re-argued against different rules than the ones
//! applied.
use vstd::prelude::*;
use crate::json::{json_bool, json_string, json_string_array, write_bool, write_string, write_string_array};
use crate::text::{decimal, push_decimal, push_signed_decimal, signed_decimal, str_eq};
use crate::Error;

verus! {

broadcast use vstd::string::group_string_axioms;

/// Windows and classifications fixed before evaluation.
#[derive(Clone, Debug)]
pub struct Ruleset {
    /// Human-readable version, carried in every claim record.
    pub version: String,
    /// A resolution is void if the ticket reopened within this many days of being solved.
    pub reopen_window_days: i64,
    /// A resolution is void if the same requester opened another ticket within this many days.
    pub repeat_contact_window_days: i64,
    /// A resolution is void if a refund, cancellation, chargeback or return followed within this
    /// many days.
    pub downstream_window_days: i64,
    /// When true, a later ticket only counts as repeat contact if it carries the same intent tag.
    pub require_intent_match: bool,
    /// Prefix that marks the vendor's intent tags among all ticket tags.
    pub intent_tag_prefix: String,
    /// A claim is in contracted scope only if its intent tag matches this pattern.
    pub scope_tag_pattern: String,
    /// Email domains belonging to the buyer's own staff.
    pub staff_domains: Vec<String>,
    /// Substrings marking test or robot accounts.
    pub test_account_markers: Vec<String>,
    /// User ids belonging to the AI agent itself.
    pub bot_user_ids: Vec<String>,
    /// Fewest public turns a billable conversation may have.
    pub min_turns: usize,
    /// Most public turns a billable conversation may have.
    pub max_turns: usize,
}

/// The error text of compiling `pattern` as a regular expression, or `None` when it compiles.
pub uninterp spec fn regex_compile_error(pattern: Seq<char>) -> Option<Seq<char>>;

/// Whether the regular expression `pattern` matches somewhere in `haystack`.
pub uninterp spec fn regex_is_match(pattern: Seq<char>, haystack: Seq<char>) -> bool;

/// A compiled regular expression, carried through opaque.
#[verifier::external_type_specification]
#[verifier::external_body]
pub struct ExRegex(regex::Regex);

/// A compiled scope pattern.
pub struct ScopePattern {
    compiled: regex::Regex,
    source: Ghost<Seq<char>>,
}

impl ScopePattern {
    /// The pattern text this was compiled from.
    pub closed spec fn source(self) -> Seq<char> {
        self.source@
    }
}

/// Compiles a regular expression.
///
/// Trusted: calls `regex::Regex::new`. The contract says only that the result is `Ok` exactly
/// when the pattern compiles, and names the error text (`regex::Error`'s display) otherwise.
#[verifier::external_body]
pub(crate) fn compile_pattern(pattern: &str) -> (r: Result<ScopePattern, String>)
    ensures
        match r {
            Ok(p) => regex_compile_error(pattern@) is None && p.source() == pattern@,
            Err(e) => regex_compile_error(pattern@) == Some(e@),
        },
{
    match regex::Regex::new(pattern) {
        Ok(compiled) => Ok(ScopePattern { compiled, source: Ghost(pattern@) }),
        Err(e) => Err(e.to_string()),
    }
}

/// Whether a compiled pattern matches somewhere in `haystack`.
///
/// Trusted: calls `regex::Regex::is_match`; the contract only names the result.
#[verifier::external_body]
pub(crate) fn pattern_matches(p: &ScopePattern, haystack: &str) -> (b: bool)
    ensures
        b == regex_is_match(p.source(), haystack@),
{
    p.compiled.is_match(haystack)
}

/// The published standard rulesets: each version with the digest of its canonical form.
pub open spec fn published_manifest() -> Seq<(Seq<char>, Seq<char>)> {
    seq![("kyvryn-res-1.0"@, "83fd376e34bcc1b7bbbcfef9a2a6bc6bfe033cea0ab7a7fdb8c64100182edf0c"@)]
}

/// The digest of the first published entry for `version`, if any.
pub open spec fn published_digest_from(entries: Seq<(Seq<char>, Seq<char>)>, version: Seq<char>) -> Option<Seq<char>>
    decreases entries.len(),
{
    if entries.len() == 0 {
        None
    } else if entries[0].0 == version {
        Some(entries[0].1)
    } else {
        published_digest_from(entries.drop_first(), version)
    }
}

/// The digest the published manifest records for `version`, if any.
pub open spec fn published_digest(version: Seq<char>) -> Option<Seq<char>> {
    published_digest_from(published_manifest(), version)
}

/// The view of an optional string.
pub open spec fn opt_view(o: Option<String>) -> Option<Seq<char>> {
    match o {
        Some(s) => Some(s@),
        None => None,
    }
}

impl Ruleset {
    /// The longest of the three windows, in days.
    pub open spec fn longest_window(self) -> int {
        let a = self.reopen_window_days as int;
        let b = self.repeat_contact_window_days as int;
        let c = self.downstream_window_days as int;
        let ab = if a >= b {
            a
        } else {
            b
        };
        if ab >= c {
            ab
        } else {
            c
        }
    }

    /// No window is negative.
    pub open spec fn windows_non_negative(self) -> bool {
        self.reopen_window_days >= 0 && self.repeat_contact_window_days >= 0
            && self.downstream_window_days >= 0
    }

    /// Why this ruleset cannot be applied, or `None` when it can.
    pub open spec fn validation_error(self) -> Option<Seq<char>> {
        if !self.windows_non_negative() {
            Some("windows cannot be negative"@)
        } else if self.min_turns > self.max_turns {
            Some("min_turns cannot exceed max_turns"@)
        } else {
            match regex_compile_error(self.scope_tag_pattern@) {
                Some(m) => Some("scope_tag_pattern is not a regex: "@ + m),
                None => None,
            }
        }
    }

    /// The canonical serialisation: compact JSON with the fields in declaration order.
    pub open spec fn canonical_text(self) -> Seq<char> {
        "{\"version\":"@ + json_string(self.version@) + ",\"reopen_window_days\":"@
            + signed_decimal(self.reopen_window_days as int) + ",\"repeat_contact_window_days\":"@
            + signed_decimal(self.repeat_contact_window_days as int)
            + ",\"downstream_window_days\":"@ + signed_decimal(self.downstream_window_days as int)
            + ",\"require_intent_match\":"@ + json_bool(self.require_intent_match)
            + ",\"intent_tag_prefix\":"@ + json_string(self.intent_tag_prefix@)
            + ",\"scope_tag_pattern\":"@ + json_string(self.scope_tag_pattern@)
            + ",\"staff_domains\":"@ + json_string_array(self.staff_domains@)
            + ",\"test_account_markers\":"@ + json_string_array(self.test_account_markers@)
            + ",\"bot_user_ids\":"@ + json_string_array(self.bot_user_ids@) + ",\"min_turns\":"@
            + decimal(self.min_turns as nat) + ",\"max_turns\":"@ + decimal(self.max_turns as nat)
            + "}"@
    }

    /// The digest of this ruleset: SHA-256 over the UTF-8 of its canonical serialisation.
    pub open spec fn digest_text(self) -> Seq<char> {
        crate::text_digest(self.canonical_text())
    }

    /// `Some(expected)` when the version is a published one whose digest differs from this
    /// ruleset's.
    pub open spec fn version_conflict(self) -> Option<Seq<char>> {
        match published_digest(self.version@) {
            None => None,
            Some(expected) => if expected == self.digest_text() {
                None
            } else {
                Some(expected)
            },
        }
    }

    /// The longest window in the ruleset, in days. A claim cannot be adjudicated until every
    /// one of its windows has closed.
    pub fn longest_window_days(&self) -> (d: i64)
        ensures
            d == self.longest_window(),
            d >= self.reopen_window_days,
            d >= self.repeat_contact_window_days,
            d >= self.downstream_window_days,
            d == self.reopen_window_days || d == self.repeat_contact_window_days || d
                == self.downstream_window_days,
    {
        let a = self.reopen_window_days;
        let b = self.repeat_contact_window_days;
        let c = self.downstream_window_days;
        let ab = if a >= b {
            a
        } else {
            b
        };
        if ab >= c {
            ab
        } else {
            c
        }
    }

    /// Reject a ruleset that cannot be applied, rather than applying half of it: a negative
    /// window, an impossible turn range, or a scope pattern that is not a regular expression.
    pub fn validate(&self) -> (r: Result<(), Error>)
        ensures
            r is Ok <==> self.validation_error() is None,
            r matches Err(e) ==> e matches Error::Ruleset(m) && Some(m@)
                == self.validation_error(),
    {
        if self.reopen_window_days < 0 || self.repeat_contact_window_days < 0
            || self.downstream_window_days < 0 {
            return Err(Error::Ruleset("windows cannot be negative".to_owned()));
        }
        if self.min_turns > self.max_turns {
            return Err(Error::Ruleset("min_turns cannot exceed max_turns".to_owned()));
        }
        match compile_pattern(self.scope_tag_pattern.as_str()) {
            Ok(_) => Ok(()),
            Err(e) => {
                let mut m = "scope_tag_pattern is not a regex: ".to_owned();
                m.append(e.as_str());
                Err(Error::Ruleset(m))
            },
        }
    }

    /// The canonical serialisation of this ruleset.
    pub fn canonical(&self) -> (s: String)
        ensures
            s@ == self.canonical_text(),
    {
        let mut out = String::new();
        out.append("{\"version\":");
        assert(out@ =~= "{\"version\":"@);
        write_string(&mut out, self.version.as_str());
        out.append(",\"reopen_window_days\":");
        push_signed_decimal(&mut out, self.reopen_window_days);
        out.append(",\"repeat_contact_window_days\":");
        push_signed_decimal(&mut out, self.repeat_contact_window_days);
        out.append(",\"downstream_window_days\":");
        push_signed_decimal(&mut out, self.downstream_window_days);
        out.append(",\"require_intent_match\":");
        write_bool(&mut out, self.require_intent_match);
        out.append(",\"intent_tag_prefix\":");
        write_string(&mut out, self.intent_tag_prefix.as_str());
        out.append(",\"scope_tag_pattern\":");
        write_string(&mut out, self.scope_tag_pattern.as_str());
        out.append(",\"staff_domains\":");
        write_string_array(&mut out, &self.staff_domains);
        out.append(",\"test_account_markers\":");
        write_string_array(&mut out, &self.test_account_markers);
        out.append(",\"bot_user_ids\":");
        write_string_array(&mut out, &self.bot_user_ids);
        out.append(",\"min_turns\":");
        push_decimal(&mut out, self.min_turns as u64);
        out.append(",\"max_turns\":");
        push_decimal(&mut out, self.max_turns as u64);
        out.append("}");
        out
    }

    /// The digest of this ruleset, over its canonical JSON form. Never fails.
    pub fn digest(&self) -> (r: Result<String, Error>)
        ensures
            r matches Ok(d) && d@ == self.digest_text() && d@.len() == 64,
    {
        let text = self.canonical();
        Ok(crate::digest_of_text(text.as_str()))
    }

    /// The digest the published manifest records for a standard ruleset version, if any.
    pub fn standard_digest_for(version: &str) -> (r: Option<String>)
        ensures
            opt_view(r) == published_digest(version@),
    {
        proof {
            reveal_with_fuel(published_digest_from, 2);
            assert(published_manifest().drop_first() =~= Seq::<(Seq<char>, Seq<char>)>::empty());
        }
        if str_eq(version, "kyvryn-res-1.0") {
            Some("83fd376e34bcc1b7bbbcfef9a2a6bc6bfe033cea0ab7a7fdb8c64100182edf0c".to_owned())
        } else {
            None
        }
    }

    /// Whether this ruleset's version claims to be a standard one while its content is not:
    /// `Some(expected_digest)` exactly then. Never fails.
    pub fn version_digest_conflict(&self) -> (r: Result<Option<String>, Error>)
        ensures
            r matches Ok(o) && opt_view(o) == self.version_conflict(),
    {
        let expected = match Ruleset::standard_digest_for(self.version.as_str()) {
            None => return Ok(None),
            Some(e) => e,
        };
        let actual = match self.digest() {
            Ok(d) => d,
            Err(e) => return Err(e),
        };
        if str_eq(expected.as_str(), actual.as_str()) {
            return Ok(None);
        }
        Ok(Some(expected))
    }
}

impl Default for Ruleset {
    /// Kyvryn's standard ruleset, `kyvryn-res-1.0`.
    fn default() -> (r: Self)
        ensures
            r.version@ == "kyvryn-res-1.0"@,
            r.reopen_window_days == 7,
            r.repeat_contact_window_days == 7,
            r.downstream_window_days == 14,
            r.require_intent_match,
            r.intent_tag_prefix@ == "intent_"@,
            r.scope_tag_pattern@ == "^intent_[a-z0-9_]+$"@,
            r.staff_domains@.len() == 0,
            r.test_account_markers@.len() == 2,
            r.test_account_markers@[0]@ == "+test@"@,
            r.test_account_markers@[1]@ == "qa-"@,
            r.bot_user_ids@.len() == 0,
            r.min_turns == 2,
            r.max_turns == 200,
    {
        let mut markers: Vec<String> = Vec::new();
        markers.push("+test@".to_owned());
        markers.push("qa-".to_owned());
        Ruleset {
            version: "kyvryn-res-1.0".to_owned(),
            reopen_window_days: 7,
            repeat_contact_window_days: 7,
            downstream_window_days: 14,
            require_intent_match: true,
            intent_tag_prefix: "intent_".to_owned(),
            scope_tag_pattern: "^intent_[a-z0-9_]+$".to_owned(),
            staff_domains: Vec::new(),
            test_account_markers: markers,
            bot_user_ids: Vec::new(),
            min_turns: 2,
            max_turns: 200,
        }
    }
}

} // verus!
