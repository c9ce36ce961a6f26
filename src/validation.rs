//! Declarative field rules and the violations they report. Every rule of a
//! value is checked; the violations are gathered in order, never cut short
//! at the first.
use vstd::prelude::*;

use crate::text::{chars_of, push_all};
use vstd::string::StringExecFns;

verus! {

/// Relies on regex's error type: carried through as it is.
#[verifier::external_type_specification]
#[verifier::external_body]
pub struct ExRegexError(regex::Error);

/// Whether `regex::Regex::new` compiles `pattern`.
pub uninterp spec fn regex_compiles(pattern: Seq<char>) -> bool;

/// Whether `regex::Regex::is_match` of the compiled `pattern` finds a match
/// in `text`.
pub uninterp spec fn regex_finds(pattern: Seq<char>, text: Seq<char>) -> bool;

/// Relies on `regex::Regex::new` to compile `pattern` and on
/// `Regex::is_match` to search `text` with it.
#[verifier::external_body]
fn regex_search(pattern: &str, text: &str) -> (r: Result<bool, regex::Error>)
    ensures
        r is Ok <==> regex_compiles(pattern@),
        r matches Ok(b) ==> b == regex_finds(pattern@, text@),
{
    regex::Regex::new(pattern).map(|re| re.is_match(text))
}

/// `text` matches `pattern`, which compiles.
pub open spec fn pattern_ok(pattern: Seq<char>, text: Seq<char>) -> bool {
    regex_compiles(pattern) && regex_finds(pattern, text)
}

/// Whether `text` matches `pattern`; a pattern that does not compile matches
/// nothing.
pub fn matches_pattern(pattern: &str, text: &str) -> (r: bool)
    ensures
        r == pattern_ok(pattern@, text@),
{
    match regex_search(pattern, text) {
        Ok(b) => b,
        Err(_) => false,
    }
}

/// Mainland mobile numbers: eleven digits, a 1 first and 3 to 9 second.
pub const MOBILE_PHONE_PATTERN: &'static str = "^1[3-9]\\d{9}$";

/// A failed custom check: a code and a message.
#[derive(Debug, Clone)]
pub struct ValidationError {
    pub code: String,
    pub message: String,
}

/// Checks a mobile phone number against its pattern.
pub fn validate_mobile_phone(number: &str) -> (r: Result<(), ValidationError>)
    ensures
        r is Ok <==> pattern_ok(MOBILE_PHONE_PATTERN@, number@),
        r matches Err(e) ==> e.code@ == "invalid_mobile_phone"@ && e.message@
            == "Invalid mobile phone number format"@,
{
    if matches_pattern(MOBILE_PHONE_PATTERN, number) {
        Ok(())
    } else {
        Err(
            ValidationError {
                code: String::from_str("invalid_mobile_phone"),
                message: String::from_str("Invalid mobile phone number format"),
            },
        )
    }
}

/// One broken rule: the dotted path of the field, the rule's code and a
/// human-readable message.
#[derive(Debug, Clone)]
pub struct Violation {
    pub field: String,
    pub code: String,
    pub message: String,
}

pub struct ViolationView {
    pub field: Seq<char>,
    pub code: Seq<char>,
    pub message: Seq<char>,
}

impl View for Violation {
    type V = ViolationView;

    open spec fn view(&self) -> ViolationView {
        ViolationView { field: self.field@, code: self.code@, message: self.message@ }
    }
}

/// The views of a sequence of violations.
pub open spec fn views(vs: Seq<Violation>) -> Seq<ViolationView> {
    vs.map_values(|v: Violation| v@)
}

/// A declarative rule on one field.
pub enum Rule {
    /// The value must be present.
    Required { message: &'static str },
    /// A text holds between `min` and `max` characters, both included.
    Length { min: u64, max: u64, message: &'static str },
    /// A number lies between `min` and `max`, both included.
    Range { min: u64, max: u64, message: &'static str },
    /// A text matches a regular expression.
    Pattern { pattern: &'static str, code: &'static str, message: &'static str },
}

/// The code under which a rule reports.
pub open spec fn rule_code(rule: Rule) -> Seq<char> {
    match rule {
        Rule::Required { .. } => "required"@,
        Rule::Length { .. } => "length"@,
        Rule::Range { .. } => "range"@,
        Rule::Pattern { code, .. } => code@,
    }
}

pub open spec fn rule_message(rule: Rule) -> Seq<char> {
    match rule {
        Rule::Required { message } => message@,
        Rule::Length { message, .. } => message@,
        Rule::Range { message, .. } => message@,
        Rule::Pattern { message, .. } => message@,
    }
}

/// Whether a text field meets a rule. An absent value meets every rule but
/// `Required`; rules on numbers do not apply to texts.
pub open spec fn text_meets(value: Option<Seq<char>>, rule: Rule) -> bool {
    match value {
        None => !(rule is Required),
        Some(s) => match rule {
            Rule::Length { min, max, .. } => min <= s.len() <= max,
            Rule::Pattern { pattern, .. } => pattern_ok(pattern@, s),
            _ => true,
        },
    }
}

/// Whether a number field meets a rule, alike.
pub open spec fn number_meets(value: Option<u64>, rule: Rule) -> bool {
    match value {
        None => !(rule is Required),
        Some(n) => match rule {
            Rule::Range { min, max, .. } => min <= n <= max,
            _ => true,
        },
    }
}

/// The violation that a broken rule reports for `field`.
pub open spec fn violation_of(field: Seq<char>, rule: Rule) -> ViolationView {
    ViolationView { field, code: rule_code(rule), message: rule_message(rule) }
}

/// What checking a text field against a rule reports: nothing, or one
/// violation.
pub open spec fn text_violations(field: Seq<char>, value: Option<Seq<char>>, rule: Rule) -> Seq<
    ViolationView,
> {
    if text_meets(value, rule) {
        Seq::empty()
    } else {
        seq![violation_of(field, rule)]
    }
}

pub open spec fn number_violations(field: Seq<char>, value: Option<u64>, rule: Rule) -> Seq<
    ViolationView,
> {
    if number_meets(value, rule) {
        Seq::empty()
    } else {
        seq![violation_of(field, rule)]
    }
}

/// The view of an optional text.
pub open spec fn opt_view(value: Option<&String>) -> Option<Seq<char>> {
    match value {
        Some(s) => Some(s@),
        None => None,
    }
}

proof fn lemma_views_push(vs: Seq<Violation>, v: Violation)
    ensures
        views(vs.push(v)) == views(vs).push(v@),
{
    assert(views(vs.push(v)) =~= views(vs).push(v@));
}

fn make_violation(field: &str, rule: &Rule) -> (r: Violation)
    ensures
        r@ == violation_of(field@, *rule),
{
    let (code, message) = match rule {
        Rule::Required { message } => (String::from_str("required"), (*message).to_owned()),
        Rule::Length { message, .. } => (String::from_str("length"), (*message).to_owned()),
        Rule::Range { message, .. } => (String::from_str("range"), (*message).to_owned()),
        Rule::Pattern { code, message, .. } => ((*code).to_owned(), (*message).to_owned()),
    };
    Violation { field: field.to_owned(), code, message }
}

/// Whether `s` holds between `min` and `max` characters, both included.
fn length_within(s: &String, min: u64, max: u64) -> (r: bool)
    ensures
        r == (min <= s@.len() <= max),
{
    let cs = chars_of(s.as_str());
    let n = cs.len() as u128;
    (min as u128) <= n && n <= (max as u128)
}

/// Checks a text field against `rule`, appending what it reports.
pub fn check_text(out: &mut Vec<Violation>, field: &str, value: Option<&String>, rule: &Rule)
    ensures
        views(final(out)@) == views(old(out)@) + text_violations(field@, opt_view(value), *rule),
{
    let meets = match value {
        None => !matches!(rule, Rule::Required { .. }),
        Some(s) => match rule {
            Rule::Length { min, max, .. } => length_within(s, *min, *max),
            Rule::Pattern { pattern, .. } => matches_pattern(pattern, s.as_str()),
            _ => true,
        },
    };
    let ghost before = out@;
    if !meets {
        let v = make_violation(field, rule);
        out.push(v);
        proof {
            lemma_views_push(before, v);
        }
    }
    assert(views(out@) =~= views(before) + text_violations(field@, opt_view(value), *rule));
}

/// Checks a number field against `rule`, appending what it reports.
pub fn check_number(out: &mut Vec<Violation>, field: &str, value: Option<u64>, rule: &Rule)
    ensures
        views(final(out)@) == views(old(out)@) + number_violations(field@, value, *rule),
{
    let meets = match value {
        None => !matches!(rule, Rule::Required { .. }),
        Some(n) => match rule {
            Rule::Range { min, max, .. } => *min <= n && n <= *max,
            _ => true,
        },
    };
    let ghost before = out@;
    if !meets {
        let v = make_violation(field, rule);
        out.push(v);
        proof {
            lemma_views_push(before, v);
        }
    }
    assert(views(out@) =~= views(before) + number_violations(field@, value, *rule));
}

/// A violation of a nested structure, seen from its parent field `prefix`.
pub open spec fn prefixed(prefix: Seq<char>, v: ViolationView) -> ViolationView {
    ViolationView { field: prefix + seq!['.'] + v.field, code: v.code, message: v.message }
}

pub open spec fn prefix_all(prefix: Seq<char>, vs: Seq<ViolationView>) -> Seq<ViolationView> {
    vs.map_values(|v: ViolationView| prefixed(prefix, v))
}

/// Appends the violations `inner` of a nested structure held in the field
/// `prefix`, each with its path written `prefix.field`.
pub fn push_nested(out: &mut Vec<Violation>, prefix: &str, inner: Vec<Violation>)
    ensures
        views(final(out)@) == views(old(out)@) + prefix_all(prefix@, views(inner@)),
{
    let ghost before = out@;
    let mut i: usize = 0;
    while i < inner.len()
        invariant
            0 <= i <= inner.len(),
            views(out@) == views(before) + prefix_all(prefix@, views(inner@.subrange(0, i as int))),
        decreases inner.len() - i,
    {
        let v = &inner[i];
        let mut field = prefix.to_owned();
        field.push('.');
        push_all(&mut field, v.field.as_str());
        let nv = Violation { field, code: v.code.clone(), message: v.message.clone() };
        let ghost mid = out@;
        out.push(nv);
        proof {
            lemma_views_push(mid, nv);
            assert(inner@.subrange(0, i + 1) =~= inner@.subrange(0, i as int).push(inner@[i as int]));
            assert(views(inner@.subrange(0, i + 1)) =~= views(inner@.subrange(0, i as int)).push(
                inner@[i as int]@,
            ));
            assert(nv.field@ =~= prefix@ + seq!['.'] + inner@[i as int].field@);
            assert(nv@ == prefixed(prefix@, inner@[i as int]@));
            assert(prefix_all(prefix@, views(inner@.subrange(0, i + 1))) =~= prefix_all(
                prefix@,
                views(inner@.subrange(0, i as int)),
            ).push(nv@));
        }
        i += 1;
    }
    assert(inner@.subrange(0, inner.len() as int) =~= inner@);
}

/// A type whose fields carry rules: `validate` reports every broken rule,
/// in the order of the fields and of their rules.
pub trait Validate {
    spec fn violations_spec(&self) -> Seq<ViolationView>;

    fn validate(&self) -> (r: Vec<Violation>)
        ensures
            views(r@) == self.violations_spec(),
    ;
}

} // verus!
