//! The string rule engine shared by the peer-id, client-name and PTR modules.
//!
//! Rules are tried in turn: a rule that hits and says "allow" wins at once;
//! a rule that hits and says "match" is remembered; in the end the input
//! matches only if some rule matched and none allowed it.

use vstd::prelude::*;
use regex::Regex;
use crate::text::{
    chars_of, contains_chars, contains_spec, ends_with_chars, ends_with_spec, eq_ignore_ascii_case,
    eq_ignore_ascii_case_spec, lowercase, occurs_at, starts_with_chars, starts_with_spec, to_lowercase,
    ascii_upper_seq, to_ascii_upper_chars, string_from_chars,
};

verus! {

#[verifier::external_type_specification]
#[verifier::external_body]
pub struct ExRegex(Regex);

/// The patterns that `regex::Regex::new` compiles.
pub uninterp spec fn regex_compiles(pattern: Seq<char>) -> bool;

/// Whether the regular expression `pattern` matches somewhere in `input`
/// (`regex::Regex::is_match`).
pub uninterp spec fn regex_finds(pattern: Seq<char>, input: Seq<char>) -> bool;

/// `regex::Regex::new`: compiles a pattern, or gives back the error text.
/// Whether it succeeds depends on the pattern alone.
#[verifier::external_body]
fn regex_new(pattern: &str) -> (r: Result<Regex, String>)
    ensures
        r is Ok == regex_compiles(pattern@),
{
    Regex::new(pattern).map_err(|e| e.to_string())
}

/// A compiled regular expression with the text it was compiled from. Only
/// `CompiledRegex::new` builds one, so the two always belong together.
#[derive(Debug)]
pub struct CompiledRegex {
    source: String,
    re: Regex,
}

impl View for CompiledRegex {
    type V = Seq<char>;

    /// The pattern text.
    closed spec fn view(&self) -> Seq<char> {
        self.source@
    }
}

/// `regex::Regex::is_match` on the compiled form of `r`'s pattern; as the
/// compiled form was made from that pattern, the answer is the pattern's.
#[verifier::external_body]
fn regex_is_match(r: &CompiledRegex, input: &str) -> (b: bool)
    ensures
        b == regex_finds(r@, input@),
{
    r.re.is_match(input)
}

impl CompiledRegex {
    /// Compiles `pattern`; the error is the compiler's message.
    pub fn new(pattern: &str) -> (r: Result<CompiledRegex, String>)
        ensures
            r is Ok == regex_compiles(pattern@),
            r matches Ok(c) ==> c@ == pattern@,
    {
        match regex_new(pattern) {
            Ok(re) => {
                let v = chars_of(pattern);
                Ok(CompiledRegex { source: string_from_chars(&v), re })
            },
            Err(e) => Err(e),
        }
    }

    /// Whether the pattern matches somewhere in `input` (case-sensitive).
    pub fn is_match(&self, input: &str) -> (b: bool)
        ensures
            b == regex_finds(self@, input@),
    {
        regex_is_match(self, input)
    }
}

/// How one rule tests its input. All but `Regex` ignore case.
#[derive(Debug)]
pub enum Matcher {
    StartsWith(String),
    EndsWith(String),
    Contains(String),
    Equals(String),
    /// The number of characters lies in `[min, max]`.
    Length { min: usize, max: usize },
    /// A regular expression, case-sensitive.
    Regex(CompiledRegex),
}

/// A matcher as a mathematical value.
pub enum MatcherSpec {
    StartsWith(Seq<char>),
    EndsWith(Seq<char>),
    Contains(Seq<char>),
    Equals(Seq<char>),
    Length(nat, nat),
    Regex(Seq<char>),
}

impl Matcher {
    /// The mathematical value of the matcher.
    pub open spec fn spec_of(self) -> MatcherSpec {
        match self {
            Matcher::StartsWith(c) => MatcherSpec::StartsWith(c@),
            Matcher::EndsWith(c) => MatcherSpec::EndsWith(c@),
            Matcher::Contains(c) => MatcherSpec::Contains(c@),
            Matcher::Equals(c) => MatcherSpec::Equals(c@),
            Matcher::Length { min, max } => MatcherSpec::Length(min as nat, max as nat),
            Matcher::Regex(r) => MatcherSpec::Regex(r@),
        }
    }

    /// Whether the matcher hits `input`.
    pub fn hits(&self, input: &str) -> (b: bool)
        ensures
            b == hits_spec(self.spec_of(), input@),
            // the text tests compare the lower-case forms
            ({
                let s = lowercase(input@);
                match self {
                    Matcher::StartsWith(c) => b <==> {
                        let p = lowercase(c@);
                        p.len() <= s.len() && s.subrange(0, p.len() as int) == p
                    },
                    Matcher::EndsWith(c) => b <==> {
                        let p = lowercase(c@);
                        p.len() <= s.len() && s.subrange(s.len() - p.len(), s.len() as int) == p
                    },
                    Matcher::Contains(c) => b <==> {
                        let p = lowercase(c@);
                        exists|i: int| 0 <= i && i + p.len() <= s.len() && #[trigger] s.subrange(i, i + p.len()) == p
                    },
                    Matcher::Length { min, max } => b <==> (*min <= input@.len() && input@.len() <= *max),
                    Matcher::Equals(c) => b <==> (input@.len() == c@.len() && forall|i: int|
                        0 <= i < c@.len() ==> crate::text::ascii_lower(#[trigger] input@[i]) == crate::text::ascii_lower(c@[i])),
                    _ => true,
                }
            }),
    {
        match self {
            Matcher::StartsWith(c) => {
                let a = chars_of(to_lowercase(input).as_str());
                let b = chars_of(to_lowercase(c.as_str()).as_str());
                starts_with_chars(&a, &b)
            },
            Matcher::EndsWith(c) => {
                let a = chars_of(to_lowercase(input).as_str());
                let b = chars_of(to_lowercase(c.as_str()).as_str());
                ends_with_chars(&a, &b)
            },
            Matcher::Contains(c) => {
                proof {
                    lemma_contains_at_some_index(lowercase(input@), lowercase(c@));
                }
                let a = chars_of(to_lowercase(input).as_str());
                let b = chars_of(to_lowercase(c.as_str()).as_str());
                contains_chars(&a, &b)
            },
            Matcher::Equals(c) => {
                let a = chars_of(input);
                let b = chars_of(c.as_str());
                eq_ignore_ascii_case(&a, &b)
            },
            Matcher::Length { min, max } => {
                let n = chars_of(input).len();
                n >= *min && n <= *max
            },
            Matcher::Regex(r) => r.is_match(input),
        }
    }
}

/// `p` occurs in `s` exactly when some slice of `s` is `p`.
proof fn lemma_contains_at_some_index(s: Seq<char>, p: Seq<char>)
    ensures
        contains_spec(s, p) <==> exists|i: int| 0 <= i && i + p.len() <= s.len() && #[trigger] s.subrange(i, i + p.len()) == p,
{
    if contains_spec(s, p) {
        let i = choose|i: int| occurs_at(s, p, i);
        assert(s.subrange(i, i + p.len()) == p);
    }
    if exists|i: int| 0 <= i && i + p.len() <= s.len() && #[trigger] s.subrange(i, i + p.len()) == p {
        let i = choose|i: int| 0 <= i && i + p.len() <= s.len() && #[trigger] s.subrange(i, i + p.len()) == p;
        assert(occurs_at(s, p, i));
    }
}

/// Whether a matcher hits `input`: the text tests compare full Unicode
/// lower-case forms, `Equals` ignores ASCII case, `Length` counts characters.
pub open spec fn hits_spec(m: MatcherSpec, input: Seq<char>) -> bool {
    match m {
        MatcherSpec::StartsWith(c) => starts_with_spec(lowercase(input), lowercase(c)),
        MatcherSpec::EndsWith(c) => ends_with_spec(lowercase(input), lowercase(c)),
        MatcherSpec::Contains(c) => contains_spec(lowercase(input), lowercase(c)),
        MatcherSpec::Equals(c) => eq_ignore_ascii_case_spec(input, c),
        MatcherSpec::Length(min, max) => min <= input.len() && input.len() <= max,
        MatcherSpec::Regex(p) => regex_finds(p, input),
    }
}

/// One rule: a matcher, and whether a hit means "match" (`true`) or "allow" (`false`).
#[derive(Debug)]
pub struct StringRule {
    pub matcher: Matcher,
    pub hit_is_true: bool,
}

/// What one rule says of `input`: `Some(true)` match, `Some(false)` allow,
/// `None` no hit.
pub open spec fn rule_eval(r: StringRule, input: Seq<char>) -> Option<bool> {
    if hits_spec(r.matcher.spec_of(), input) {
        Some(r.hit_is_true)
    } else {
        None
    }
}

impl StringRule {
    /// A rule whose hit means "match".
    pub fn new(matcher: Matcher) -> (r: StringRule)
        ensures
            r.matcher == matcher,
            r.hit_is_true,
    {
        StringRule { matcher, hit_is_true: true }
    }

    /// What this rule says of `input`.
    pub fn evaluate(&self, input: &str) -> (r: Option<bool>)
        ensures
            r == rule_eval(*self, input@),
    {
        if self.matcher.hits(input) {
            Some(self.hit_is_true)
        } else {
            None
        }
    }
}

/// The verdict of a rule set.
#[derive(Debug, Clone, Copy, PartialEq, Eq, Structural)]
pub enum MatchOutcome {
    /// Matched (usually: ban).
    True,
    /// No match, or explicitly allowed.
    False,
}

/// Some rule of `rules` allows `input`.
pub open spec fn any_allows(rules: Seq<StringRule>, input: Seq<char>) -> bool {
    exists|i: int| 0 <= i < rules.len() && rule_eval(#[trigger] rules[i], input) == Some(false)
}

/// Some rule of `rules` matches `input`.
pub open spec fn any_matches(rules: Seq<StringRule>, input: Seq<char>) -> bool {
    exists|i: int| 0 <= i < rules.len() && rule_eval(#[trigger] rules[i], input) == Some(true)
}

/// The verdict of `rules` on `input`: `True` when some rule matches and none allows.
pub open spec fn match_spec(rules: Seq<StringRule>, input: Seq<char>) -> MatchOutcome {
    if any_matches(rules, input) && !any_allows(rules, input) {
        MatchOutcome::True
    } else {
        MatchOutcome::False
    }
}

/// A set of string rules.
#[derive(Debug)]
pub struct RuleSet {
    pub rules: Vec<StringRule>,
}

impl RuleSet {
    /// A rule set of the given rules, in order.
    pub fn new(rules: Vec<StringRule>) -> (r: RuleSet)
        ensures
            r.rules@ == rules@,
    {
        RuleSet { rules }
    }

    /// The verdict on `input`: an allowing rule wins at once; otherwise the
    /// input matches if some rule matched.
    pub fn match_input(&self, input: &str) -> (r: MatchOutcome)
        ensures
            r == match_spec(self.rules@, input@),
    {
        let mut saw_true = false;
        let mut i: usize = 0;
        while i < self.rules.len()
            invariant
                i <= self.rules@.len(),
                !any_allows(self.rules@.subrange(0, i as int), input@),
                saw_true == any_matches(self.rules@.subrange(0, i as int), input@),
            decreases self.rules@.len() - i,
        {
            let ghost pre = self.rules@.subrange(0, i as int);
            let ghost post = self.rules@.subrange(0, i as int + 1);
            let e = self.rules[i].evaluate(input);
            assert(post[i as int] == self.rules@[i as int]);
            match e {
                Some(false) => {
                    assert(rule_eval(self.rules@[i as int], input@) == Some(false));
                    return MatchOutcome::False;
                },
                Some(true) => {
                    saw_true = true;
                },
                None => {},
            }
            assert forall|k: int| 0 <= k < i implies post[k] == pre[k] by {}
            assert(!any_allows(post, input@)) by {
                if any_allows(post, input@) {
                    let k = choose|k: int| 0 <= k < post.len() && rule_eval(#[trigger] post[k], input@) == Some(false);
                    if k < i {
                        assert(pre[k] == post[k]);
                    }
                }
            }
            assert(saw_true == any_matches(post, input@)) by {
                if any_matches(post, input@) {
                    let k = choose|k: int| 0 <= k < post.len() && rule_eval(#[trigger] post[k], input@) == Some(true);
                    if k < i {
                        assert(pre[k] == post[k]);
                    }
                }
                if any_matches(pre, input@) {
                    let k = choose|k: int| 0 <= k < pre.len() && rule_eval(#[trigger] pre[k], input@) == Some(true);
                    assert(pre[k] == post[k]);
                }
            }
            i += 1;
        }
        proof {
            assert(self.rules@.subrange(0, i as int) =~= self.rules@);
        }
        if saw_true {
            MatchOutcome::True
        } else {
            MatchOutcome::False
        }
    }
}

/// The `hit` field of a rule as it was written.
#[derive(Debug, Clone)]
pub enum HitField {
    /// No `hit` field, or one that is neither a boolean nor a string.
    Absent,
    Bool(bool),
    Text(String),
}

/// The fields of one JSON rule object, as read from the configuration:
/// `method` and `content` when they are strings, `min` and `max` when they
/// are unsigned integers, and `hit`.
#[derive(Debug, Clone)]
pub struct RawRule {
    pub method: Option<String>,
    pub content: Option<String>,
    pub min: Option<u64>,
    pub max: Option<u64>,
    pub hit: HitField,
}

/// Why a rule could not be read.
#[derive(Debug, Clone, PartialEq, Eq)]
pub enum RuleParseError {
    /// The rule text was not a JSON object (the reader's message).
    Json(String),
    /// The method, upper-cased, is none of the known ones.
    UnknownMethod(String),
    /// The regular expression did not compile (the compiler's message).
    Regex(String),
    /// A required field is missing.
    MissingField(&'static str),
}

/// The kind of a parse error, as a mathematical value.
pub enum ParseErrorSpec {
    UnknownMethod(Seq<char>),
    Regex,
    MissingField,
}

impl RuleParseError {
    /// The kind of the error (the messages of the outside parsers aside).
    pub open spec fn spec_of(self) -> Option<ParseErrorSpec> {
        match self {
            RuleParseError::Json(_) => None,
            RuleParseError::UnknownMethod(m) => Some(ParseErrorSpec::UnknownMethod(m@)),
            RuleParseError::Regex(_) => Some(ParseErrorSpec::Regex),
            RuleParseError::MissingField(_) => Some(ParseErrorSpec::MissingField),
        }
    }
}

/// Whether the `hit` field makes a hit mean "match": a boolean is taken as
/// it is, a string means "allow" only when it is `false` in any ASCII case,
/// and anything else means "match".
pub open spec fn hit_spec(h: HitField) -> bool {
    match h {
        HitField::Absent => true,
        HitField::Bool(b) => b,
        HitField::Text(t) => !eq_ignore_ascii_case_spec(t@, "false"@),
    }
}

/// The matcher that a rule object describes, or the error it gives.
pub open spec fn matcher_spec(raw: RawRule) -> Result<MatcherSpec, ParseErrorSpec> {
    match raw.method {
        None => Err(ParseErrorSpec::MissingField),
        Some(m) => {
            let upper = ascii_upper_seq(m@);
            let content = match raw.content {
                Some(c) => c@,
                None => Seq::<char>::empty(),
            };
            if upper == "STARTS_WITH"@ {
                Ok(MatcherSpec::StartsWith(content))
            } else if upper == "ENDS_WITH"@ {
                Ok(MatcherSpec::EndsWith(content))
            } else if upper == "CONTAINS"@ {
                Ok(MatcherSpec::Contains(content))
            } else if upper == "EQUALS"@ {
                Ok(MatcherSpec::Equals(content))
            } else if upper == "REGEX"@ {
                if regex_compiles(content) {
                    Ok(MatcherSpec::Regex(content))
                } else {
                    Err(ParseErrorSpec::Regex)
                }
            } else if upper == "LENGTH"@ {
                let min: nat = match raw.min {
                    Some(x) => (x as usize) as nat,
                    None => 0,
                };
                let max: nat = match raw.max {
                    Some(x) => (x as usize) as nat,
                    None => usize::MAX as nat,
                };
                Ok(MatcherSpec::Length(min, max))
            } else {
                Err(ParseErrorSpec::UnknownMethod(upper))
            }
        },
    }
}

/// `rule` is what `raw` describes, or `e` is the error it gives.
pub open spec fn parsed_as(raw: RawRule, r: Result<StringRule, RuleParseError>) -> bool {
    match (r, matcher_spec(raw)) {
        (Ok(rule), Ok(m)) => rule.matcher.spec_of() == m && rule.hit_is_true == hit_spec(raw.hit),
        (Err(e), Err(es)) => e.spec_of() == Some(es),
        _ => false,
    }
}

/// Whether the characters `v` equal the literal `lit`.
fn chars_eq_str(v: &Vec<char>, lit: &str) -> (b: bool)
    ensures
        b == (v@ == lit@),
{
    let w = chars_of(lit);
    if v.len() != w.len() {
        return false;
    }
    let mut i: usize = 0;
    while i < v.len()
        invariant
            v@.len() == w@.len(),
            w@ == lit@,
            i <= v@.len(),
            forall|k: int| 0 <= k < i ==> v@[k] == w@[k],
        decreases v@.len() - i,
    {
        if v[i] != w[i] {
            return false;
        }
        i += 1;
    }
    assert(v@ =~= w@);
    true
}

/// Reads one rule object.
pub fn parse_one(raw: &RawRule) -> (r: Result<StringRule, RuleParseError>)
    ensures
        parsed_as(*raw, r),
{
    let m = match &raw.method {
        Some(m) => m,
        None => return Err(RuleParseError::MissingField("method")),
    };
    let content: String = match &raw.content {
        Some(c) => string_from_chars(&chars_of(c.as_str())),
        None => String::new(),
    };
    let upper = to_ascii_upper_chars(&chars_of(m.as_str()));
    let matcher = if chars_eq_str(&upper, "STARTS_WITH") {
        Matcher::StartsWith(content)
    } else if chars_eq_str(&upper, "ENDS_WITH") {
        Matcher::EndsWith(content)
    } else if chars_eq_str(&upper, "CONTAINS") {
        Matcher::Contains(content)
    } else if chars_eq_str(&upper, "EQUALS") {
        Matcher::Equals(content)
    } else if chars_eq_str(&upper, "REGEX") {
        match CompiledRegex::new(content.as_str()) {
            Ok(re) => Matcher::Regex(re),
            Err(e) => return Err(RuleParseError::Regex(e)),
        }
    } else if chars_eq_str(&upper, "LENGTH") {
        let min: usize = match raw.min {
            Some(x) => x as usize,
            None => 0,
        };
        let max: usize = match raw.max {
            Some(x) => x as usize,
            None => usize::MAX,
        };
        Matcher::Length { min, max }
    } else {
        return Err(RuleParseError::UnknownMethod(string_from_chars(&upper)));
    };
    let hit_is_true = match &raw.hit {
        HitField::Bool(b) => *b,
        HitField::Text(t) => !eq_ignore_ascii_case(&chars_of(t.as_str()), &chars_of("false")),
        HitField::Absent => true,
    };
    Ok(StringRule { matcher, hit_is_true })
}

impl RuleSet {
    /// Reads every rule in order; the first rule that cannot be read gives the error.
    pub fn parse(rules: &Vec<RawRule>) -> (r: Result<RuleSet, RuleParseError>)
        ensures
            match r {
                Ok(set) => set.rules@.len() == rules@.len() && forall|i: int|
                    0 <= i < rules@.len() ==> parsed_as(rules@[i], Ok(#[trigger] set.rules@[i])),
                Err(e) => exists|i: int|
                    0 <= i < rules@.len() && parsed_as(rules@[i], Err(e)) && forall|k: int|
                        0 <= k < i ==> #[trigger] matcher_spec(rules@[k]) is Ok,
            },
    {
        let mut out: Vec<StringRule> = Vec::new();
        let mut i: usize = 0;
        while i < rules.len()
            invariant
                i <= rules@.len(),
                out@.len() == i,
                forall|k: int| 0 <= k < i ==> parsed_as(rules@[k], Ok(#[trigger] out@[k])),
            decreases rules@.len() - i,
        {
            match parse_one(&rules[i]) {
                Ok(rule) => {
                    out.push(rule);
                },
                Err(e) => {
                    assert forall|k: int| 0 <= k < i implies #[trigger] matcher_spec(rules@[k]) is Ok by {
                        assert(parsed_as(rules@[k], Ok(out@[k])));
                    }
                    return Err(e);
                },
            }
            i += 1;
        }
        Ok(RuleSet { rules: out })
    }
}

impl Default for RuleSet {
    /// A rule set without rules.
    fn default() -> (r: RuleSet)
        ensures
            r.rules@.len() == 0,
    {
        RuleSet { rules: Vec::new() }
    }
}


/// An empty rule set matches nothing.
pub proof fn lemma_empty_rules_never_match(input: Seq<char>)
    ensures
        match_spec(Seq::<StringRule>::empty(), input) == MatchOutcome::False,
{
}

/// A rule that allows the input wins over every rule that matches it.
pub proof fn lemma_allow_wins(rules: Seq<StringRule>, input: Seq<char>, i: int)
    requires
        0 <= i < rules.len(),
        rule_eval(rules[i], input) == Some(false),
    ensures
        match_spec(rules, input) == MatchOutcome::False,
{
    assert(any_allows(rules, input));
}

/// Some rule of `rules` gives `v` on `input`.
spec fn gives(rules: Seq<StringRule>, input: Seq<char>, v: bool) -> bool {
    exists|i: int| 0 <= i < rules.len() && rule_eval(#[trigger] rules[i], input) == Some(v)
}

proof fn lemma_gives_swap(a: Seq<StringRule>, b: Seq<StringRule>, input: Seq<char>, v: bool)
    ensures
        gives(a + b, input, v) == gives(b + a, input, v),
{
    let ab = a + b;
    let ba = b + a;
    if gives(ab, input, v) {
        let i = choose|i: int| 0 <= i < ab.len() && rule_eval(#[trigger] ab[i], input) == Some(v);
        if i < a.len() {
            assert(ba[b.len() + i] == ab[i]);
        } else {
            assert(ba[i - a.len()] == ab[i]);
        }
    }
    if gives(ba, input, v) {
        let i = choose|i: int| 0 <= i < ba.len() && rule_eval(#[trigger] ba[i], input) == Some(v);
        if i < b.len() {
            assert(ab[a.len() + i] == ba[i]);
        } else {
            assert(ab[i - b.len()] == ba[i]);
        }
    }
}

/// The verdict does not depend on the order of the rules.
pub proof fn lemma_verdict_order_independent(a: Seq<StringRule>, b: Seq<StringRule>, input: Seq<char>)
    ensures
        match_spec(a + b, input) == match_spec(b + a, input),
{
    lemma_gives_swap(a, b, input, true);
    lemma_gives_swap(a, b, input, false);
    assert(any_allows(a + b, input) == gives(a + b, input, false));
    assert(any_allows(b + a, input) == gives(b + a, input, false));
    assert(any_matches(a + b, input) == gives(a + b, input, true));
    assert(any_matches(b + a, input) == gives(b + a, input, true));
}

proof fn lemma_gives_push(rules: Seq<StringRule>, r: StringRule, input: Seq<char>, v: bool)
    requires
        rule_eval(r, input) is None,
    ensures
        gives(rules.push(r), input, v) == gives(rules, input, v),
{
    let p = rules.push(r);
    if gives(p, input, v) {
        let i = choose|i: int| 0 <= i < p.len() && rule_eval(#[trigger] p[i], input) == Some(v);
        assert(i < rules.len());
        assert(p[i] == rules[i]);
    }
    if gives(rules, input, v) {
        let i = choose|i: int| 0 <= i < rules.len() && rule_eval(#[trigger] rules[i], input) == Some(v);
        assert(p[i] == rules[i]);
    }
}

/// Adding a rule that does not hit the input changes nothing.
pub proof fn lemma_silent_rule_changes_nothing(rules: Seq<StringRule>, r: StringRule, input: Seq<char>)
    requires
        rule_eval(r, input) is None,
    ensures
        match_spec(rules.push(r), input) == match_spec(rules, input),
{
    lemma_gives_push(rules, r, input, true);
    lemma_gives_push(rules, r, input, false);
    assert(any_allows(rules.push(r), input) == gives(rules.push(r), input, false));
    assert(any_allows(rules, input) == gives(rules, input, false));
    assert(any_matches(rules.push(r), input) == gives(rules.push(r), input, true));
    assert(any_matches(rules, input) == gives(rules, input, true));
}

/// An `ENDS_WITH` matcher hits exactly the inputs whose lower-case form
/// ends with the lower-case content.
pub proof fn lemma_ends_with_is_suffix(c: Seq<char>, input: Seq<char>)
    ensures
        hits_spec(MatcherSpec::EndsWith(c), input) <==> {
            let s = lowercase(input);
            let p = lowercase(c);
            p.len() <= s.len() && s.subrange(s.len() - p.len(), s.len() as int) == p
        },
{
}

/// A `STARTS_WITH` matcher hits exactly the inputs whose lower-case form
/// begins with the lower-case content.
pub proof fn lemma_starts_with_is_prefix(c: Seq<char>, input: Seq<char>)
    ensures
        hits_spec(MatcherSpec::StartsWith(c), input) <==> {
            let s = lowercase(input);
            let p = lowercase(c);
            p.len() <= s.len() && s.subrange(0, p.len() as int) == p
        },
{
}

} // verus!
