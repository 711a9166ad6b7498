//! Grammar adapters: the abstract vocabulary of syntax kinds, the capability
//! alphabet, and the label rules that mark sources, sanitizers and sinks.

use crate::text::{
    chars_are, ends_with, has_prefix, has_suffix, head_chars, lower_ascii, lower_chars,
    normalized_head, starts_with, str_eq,
};
use vstd::prelude::*;

verus! {

/// Data read from the environment.
pub const ENV_VAR: u8 = 0x01;

/// Data that is unsafe in HTML.
pub const HTML_ESCAPE: u8 = 0x02;

/// Data that is unsafe in a shell command.
pub const SHELL_ESCAPE: u8 = 0x04;

/// Data that is unsafe in a URL.
pub const URL_ENCODE: u8 = 0x08;

/// Data that is unsafe until it is parsed as JSON.
pub const JSON_PARSE: u8 = 0x10;

/// Data read from a file.
pub const FILE_IO: u8 = 0x20;

/// Every capability of the alphabet.
pub const ALL_CAPS: u8 = 0x3f;

/// A set of capabilities, one bit for each.
#[derive(Debug, Clone, Copy, PartialEq, Eq, Structural, Hash)]
pub struct Cap {
    pub raw: u8,
}

impl Cap {
    /// The capabilities of either.
    pub open spec fn spec_union(self, other: Cap) -> Cap {
        Cap { raw: self.raw | other.raw }
    }

    /// The capabilities of both.
    pub open spec fn spec_intersection(self, other: Cap) -> Cap {
        Cap { raw: self.raw & other.raw }
    }

    /// The capabilities of the alphabet that `self` lacks.
    pub open spec fn spec_complement(self) -> Cap {
        Cap { raw: !self.raw & ALL_CAPS }
    }

    /// The capabilities of `self` that `other` lacks.
    pub open spec fn spec_difference(self, other: Cap) -> Cap {
        Cap { raw: self.raw & !other.raw }
    }

    /// Whether there is no capability.
    pub open spec fn spec_is_empty(self) -> bool {
        self.raw == 0
    }

    /// Whether the two have a capability in common.
    pub open spec fn spec_intersects(self, other: Cap) -> bool {
        self.raw & other.raw != 0
    }

    /// The set with these bits.
    pub fn from_bits(bits: u8) -> (c: Cap)
        ensures
            c.raw == bits,
    {
        Cap { raw: bits }
    }

    /// The bits of the set.
    pub fn bits(self) -> (b: u8)
        ensures
            b == self.raw,
    {
        self.raw
    }

    /// The set without capabilities.
    pub fn empty() -> (c: Cap)
        ensures
            c.raw == 0,
    {
        Cap { raw: 0 }
    }

    /// The set of all capabilities of the alphabet.
    pub fn all() -> (c: Cap)
        ensures
            c.raw == ALL_CAPS,
    {
        Cap { raw: ALL_CAPS }
    }

    /// The capabilities of either.
    #[verifier::when_used_as_spec(spec_union)]
    pub fn union(self, other: Cap) -> (c: Cap)
        ensures
            c == self.spec_union(other),
    {
        Cap { raw: self.raw | other.raw }
    }

    /// The capabilities of both.
    #[verifier::when_used_as_spec(spec_intersection)]
    pub fn intersection(self, other: Cap) -> (c: Cap)
        ensures
            c == self.spec_intersection(other),
    {
        Cap { raw: self.raw & other.raw }
    }

    /// The capabilities of the alphabet that `self` lacks.
    #[verifier::when_used_as_spec(spec_complement)]
    pub fn complement(self) -> (c: Cap)
        ensures
            c == self.spec_complement(),
    {
        Cap { raw: !self.raw & ALL_CAPS }
    }

    /// The capabilities of `self` that `other` lacks.
    #[verifier::when_used_as_spec(spec_difference)]
    pub fn difference(self, other: Cap) -> (c: Cap)
        ensures
            c == self.spec_difference(other),
    {
        Cap { raw: self.raw & !other.raw }
    }

    /// Whether there is no capability.
    #[verifier::when_used_as_spec(spec_is_empty)]
    pub fn is_empty(self) -> (b: bool)
        ensures
            b == self.spec_is_empty(),
    {
        self.raw == 0
    }

    /// Whether the two have a capability in common.
    #[verifier::when_used_as_spec(spec_intersects)]
    pub fn intersects(self, other: Cap) -> (b: bool)
        ensures
            b == self.spec_intersects(other),
    {
        self.raw & other.raw != 0
    }
}

/// The abstract kinds that raw grammar node kinds are mapped to.
#[derive(Debug, Clone, Copy, PartialEq, Eq, Structural, Hash)]
pub enum Kind {
    If,
    InfiniteLoop,
    While,
    For,
    LoopBody,
    CallFn,
    CallMethod,
    CallMacro,
    Break,
    Continue,
    Return,
    Block,
    SourceFile,
    Function,
    Assignment,
    CallWrapper,
    Trivia,
    Other,
}

/// What a statement does to capabilities: it introduces them, clears them or
/// consumes them.
#[derive(Debug, Clone, Copy, PartialEq, Eq, Structural, Hash)]
pub enum DataLabel {
    Source(Cap),
    Sanitizer(Cap),
    Sink(Cap),
}

/// One label rule: a text whose head matches one of `matchers` gets `label`.
#[derive(Debug, Clone)]
pub struct LabelRule {
    pub matchers: Vec<&'static str>,
    pub label: DataLabel,
}

/// A label rule as mathematical data: its matchers and its label.
pub struct RuleModel {
    pub matchers: Seq<Seq<char>>,
    pub label: DataLabel,
}

impl View for LabelRule {
    type V = RuleModel;

    open spec fn view(&self) -> RuleModel {
        RuleModel {
            matchers: Seq::new(self.matchers@.len(), |i: int| self.matchers@[i]@),
            label: self.label,
        }
    }
}

/// Label rules as mathematical data.
pub open spec fn rules_model(rules: Seq<LabelRule>) -> Seq<RuleModel> {
    Seq::new(rules.len(), |i: int| rules[i]@)
}

/// The kinds of the Rust grammar.
pub open spec fn rust_kind(raw: Seq<char>) -> Kind {
    if raw == "if_expression"@ {
        Kind::If
    } else if raw == "loop_expression"@ {
        Kind::InfiniteLoop
    } else if raw == "loop_statement"@ {
        Kind::LoopBody
    } else if raw == "while_statement"@ {
        Kind::While
    } else if raw == "for_statement"@ {
        Kind::For
    } else if raw == "return_statement"@ {
        Kind::Return
    } else if raw == "break_expression"@ || raw == "break_statement"@ {
        Kind::Break
    } else if raw == "continue_expression"@ || raw == "continue_statement"@ {
        Kind::Continue
    } else if raw == "source_file"@ {
        Kind::SourceFile
    } else if raw == "block"@ {
        Kind::Block
    } else if raw == "function_item"@ {
        Kind::Function
    } else if raw == "call_expression"@ {
        Kind::CallFn
    } else if raw == "method_call_expression"@ {
        Kind::CallMethod
    } else if raw == "macro_invocation"@ {
        Kind::CallMacro
    } else if raw == "let_declaration"@ || raw == "expression_statement"@ {
        Kind::CallWrapper
    } else if raw == "assignment_expression"@ {
        Kind::Assignment
    } else if raw == "line_comment"@ || raw == "block_comment"@ || raw == ";"@ || raw == ","@
        || raw == "("@ || raw == ")"@ || raw == "{"@ || raw == "}"@ || raw == "\n"@ || raw
        == "use_declaration"@ || raw == "attribute_item"@ || raw == "mod_item"@ || raw
        == "type_item"@ {
        Kind::Trivia
    } else {
        Kind::Other
    }
}

/// The abstract kind of a raw node kind in a language. Unknown languages and
/// unknown kinds give `Other`; the language key is taken as it is written.
pub open spec fn kind_of(lang: Seq<char>, raw: Seq<char>) -> Kind {
    if lang == "rust"@ || lang == "rs"@ {
        rust_kind(raw)
    } else {
        Kind::Other
    }
}

fn lookup_rust(raw: &str) -> (k: Kind)
    ensures
        k == rust_kind(raw@),
{
    if str_eq(raw, "if_expression") {
        Kind::If
    } else if str_eq(raw, "loop_expression") {
        Kind::InfiniteLoop
    } else if str_eq(raw, "loop_statement") {
        Kind::LoopBody
    } else if str_eq(raw, "while_statement") {
        Kind::While
    } else if str_eq(raw, "for_statement") {
        Kind::For
    } else if str_eq(raw, "return_statement") {
        Kind::Return
    } else if str_eq(raw, "break_expression") || str_eq(raw, "break_statement") {
        Kind::Break
    } else if str_eq(raw, "continue_expression") || str_eq(raw, "continue_statement") {
        Kind::Continue
    } else if str_eq(raw, "source_file") {
        Kind::SourceFile
    } else if str_eq(raw, "block") {
        Kind::Block
    } else if str_eq(raw, "function_item") {
        Kind::Function
    } else if str_eq(raw, "call_expression") {
        Kind::CallFn
    } else if str_eq(raw, "method_call_expression") {
        Kind::CallMethod
    } else if str_eq(raw, "macro_invocation") {
        Kind::CallMacro
    } else if str_eq(raw, "let_declaration") || str_eq(raw, "expression_statement") {
        Kind::CallWrapper
    } else if str_eq(raw, "assignment_expression") {
        Kind::Assignment
    } else if str_eq(raw, "line_comment") || str_eq(raw, "block_comment") || str_eq(raw, ";")
        || str_eq(raw, ",") || str_eq(raw, "(") || str_eq(raw, ")") || str_eq(raw, "{") || str_eq(
        raw,
        "}",
    ) || str_eq(raw, "\n") || str_eq(raw, "use_declaration") || str_eq(raw, "attribute_item")
        || str_eq(raw, "mod_item") || str_eq(raw, "type_item") {
        Kind::Trivia
    } else {
        Kind::Other
    }
}

/// Maps a raw node kind of a grammar to its abstract kind.
pub fn lookup(lang: &str, raw: &str) -> (k: Kind)
    ensures
        k == kind_of(lang@, raw@),
{
    if str_eq(lang, "rust") || str_eq(lang, "rs") {
        lookup_rust(raw)
    } else {
        Kind::Other
    }
}

/// The label rules of Rust sources, in the order in which they are tried.
pub open spec fn rust_rule_table() -> Seq<RuleModel> {
    seq![
        RuleModel {
            matchers: seq!["std::env::var"@, "env::var"@, "source_env"@],
            label: DataLabel::Source(Cap { raw: ALL_CAPS }),
        },
        RuleModel {
            matchers: seq!["fs::read_to_string"@, "source_file"@],
            label: DataLabel::Source(Cap { raw: ALL_CAPS }),
        },
        RuleModel {
            matchers: seq!["html_escape::encode_safe"@, "sanitize_"@, "sanitize_html"@],
            label: DataLabel::Sanitizer(Cap { raw: HTML_ESCAPE }),
        },
        RuleModel {
            matchers: seq!["shell_escape::unix::escape"@, "sanitize_shell"@],
            label: DataLabel::Sanitizer(Cap { raw: SHELL_ESCAPE }),
        },
        RuleModel {
            matchers: seq![
                "command::new"@,
                "std::process::command::new"@,
                "command::arg"@,
                "command::args"@,
                "command::status"@,
                "command::output"@,
            ],
            label: DataLabel::Sink(Cap { raw: SHELL_ESCAPE }),
        },
        RuleModel {
            matchers: seq!["println"@, "sink_html"@],
            label: DataLabel::Sink(Cap { raw: HTML_ESCAPE }),
        },
    ]
}

/// The label rules of JavaScript sources, in the order in which they are
/// tried.
pub open spec fn javascript_rule_table() -> Seq<RuleModel> {
    seq![
        RuleModel {
            matchers: seq!["document.location"@, "window.location"@],
            label: DataLabel::Source(Cap { raw: ALL_CAPS }),
        },
        RuleModel {
            matchers: seq!["JSON.parse"@],
            label: DataLabel::Sanitizer(Cap { raw: JSON_PARSE }),
        },
        RuleModel { matchers: seq!["eval"@], label: DataLabel::Sink(Cap { raw: SHELL_ESCAPE }) },
    ]
}

/// The rule table of a language key, which is already lower-cased.
pub open spec fn rule_table(key: Seq<char>) -> Option<Seq<RuleModel>> {
    if key == "rust"@ || key == "rs"@ {
        Some(rust_rule_table())
    } else if key == "javascript"@ || key == "js"@ {
        Some(javascript_rule_table())
    } else {
        None
    }
}

/// Whether a matcher accepts a normalized head. A matcher that ends in `_`
/// names a family and accepts every head that begins with it. Any other
/// matcher accepts a head that ends with it, provided that the match begins
/// the head or follows a `.` or a `:`.
pub open spec fn matcher_hits(matcher: Seq<char>, head: Seq<char>) -> bool {
    let m = lower_ascii(matcher);
    if m.len() > 0 && m.last() == '_' {
        starts_with(head, m)
    } else {
        ends_with(head, m) && (head.len() == m.len() || head[head.len() - m.len() - 1] == '.'
            || head[head.len() - m.len() - 1] == ':')
    }
}

/// Whether one of the matchers of a rule accepts the head.
pub open spec fn rule_hits(rule: RuleModel, head: Seq<char>) -> bool {
    exists|j: int| 0 <= j < rule.matchers.len() && matcher_hits(#[trigger] rule.matchers[j], head)
}

/// The label of the first rule at or after `i` that accepts the head.
pub open spec fn first_label(rules: Seq<RuleModel>, head: Seq<char>, i: int) -> Option<DataLabel>
    decreases rules.len() - i,
{
    if i < 0 || i >= rules.len() {
        None
    } else if rule_hits(rules[i], head) {
        Some(rules[i].label)
    } else {
        first_label(rules, head, i + 1)
    }
}

/// The label of a text in a language: the language key is lower-cased, the
/// text is reduced to its normalized head, and the first rule that accepts
/// the head decides.
pub open spec fn label_of(lang: Seq<char>, text: Seq<char>) -> Option<DataLabel> {
    match rule_table(lower_ascii(lang)) {
        Some(rules) => first_label(rules, normalized_head(text), 0),
        None => None,
    }
}

fn rule(matchers: Vec<&'static str>, label: DataLabel) -> (r: LabelRule)
    ensures
        r.matchers == matchers,
        r.label == label,
{
    LabelRule { matchers, label }
}

/// The label rules of Rust sources, in the order in which they are tried.
pub fn rust_rules() -> (rules: Vec<LabelRule>)
    ensures
        rules_model(rules@) == rust_rule_table(),
{
    let mut rules: Vec<LabelRule> = Vec::new();
    rules.push(
        rule(vec!["std::env::var", "env::var", "source_env"], DataLabel::Source(Cap::all())),
    );
    rules.push(rule(vec!["fs::read_to_string", "source_file"], DataLabel::Source(Cap::all())));
    rules.push(
        rule(
            vec!["html_escape::encode_safe", "sanitize_", "sanitize_html"],
            DataLabel::Sanitizer(Cap::from_bits(HTML_ESCAPE)),
        ),
    );
    rules.push(
        rule(
            vec!["shell_escape::unix::escape", "sanitize_shell"],
            DataLabel::Sanitizer(Cap::from_bits(SHELL_ESCAPE)),
        ),
    );
    rules.push(
        rule(
            vec![
                "command::new",
                "std::process::command::new",
                "command::arg",
                "command::args",
                "command::status",
                "command::output",
            ],
            DataLabel::Sink(Cap::from_bits(SHELL_ESCAPE)),
        ),
    );
    rules.push(rule(vec!["println", "sink_html"], DataLabel::Sink(Cap::from_bits(HTML_ESCAPE))));
    proof {
        let m = rules_model(rules@);
        let t = rust_rule_table();
        assert forall|i: int| 0 <= i < m.len() implies m[i] == t[i] by {
            assert(m[i].matchers =~= t[i].matchers);
        }
    }
    rules
}

/// The label rules of JavaScript sources, in the order in which they are
/// tried.
pub fn javascript_rules() -> (rules: Vec<LabelRule>)
    ensures
        rules_model(rules@) == javascript_rule_table(),
{
    let mut rules: Vec<LabelRule> = Vec::new();
    rules.push(
        rule(vec!["document.location", "window.location"], DataLabel::Source(Cap::all())),
    );
    rules.push(rule(vec!["JSON.parse"], DataLabel::Sanitizer(Cap::from_bits(JSON_PARSE))));
    rules.push(rule(vec!["eval"], DataLabel::Sink(Cap::from_bits(SHELL_ESCAPE))));
    proof {
        let m = rules_model(rules@);
        let t = javascript_rule_table();
        assert forall|i: int| 0 <= i < m.len() implies m[i] == t[i] by {
            assert(m[i].matchers =~= t[i].matchers);
        }
    }
    rules
}

fn rules_for(key: &Vec<char>) -> (r: Option<Vec<LabelRule>>)
    ensures
        match r {
            Some(rules) => rule_table(key@) == Some(rules_model(rules@)),
            None => rule_table(key@) is None,
        },
{
    if chars_are(key, "rust") || chars_are(key, "rs") {
        Some(rust_rules())
    } else if chars_are(key, "javascript") || chars_are(key, "js") {
        Some(javascript_rules())
    } else {
        None
    }
}

fn matcher_accepts(matcher: &str, head: &Vec<char>) -> (r: bool)
    ensures
        r == matcher_hits(matcher@, head@),
{
    let m = lower_chars(matcher);
    if m.len() > 0 && m[m.len() - 1] == '_' {
        has_prefix(head, &m)
    } else if has_suffix(head, &m) {
        let start = head.len() - m.len();
        start == 0 || head[start - 1] == '.' || head[start - 1] == ':'
    } else {
        false
    }
}

fn rule_accepts(rule: &LabelRule, head: &Vec<char>) -> (r: bool)
    ensures
        r == rule_hits(rule@, head@),
{
    let mut j: usize = 0;
    while j < rule.matchers.len()
        invariant
            j <= rule.matchers.len(),
            forall|k: int| 0 <= k < j ==> !matcher_hits(#[trigger] rule@.matchers[k], head@),
        decreases rule.matchers.len() - j,
    {
        if matcher_accepts(rule.matchers[j], head) {
            assert(matcher_hits(rule@.matchers[j as int], head@));
            return true;
        }
        j += 1;
    }
    false
}

/// Classifies a piece of syntax text: the label of the first rule of the
/// language that accepts the text's normalized head, if there is one.
pub fn classify(lang: &str, text: &str) -> (label: Option<DataLabel>)
    ensures
        label == label_of(lang@, text@),
{
    let key = lower_chars(lang);
    let rules = match rules_for(&key) {
        Some(rules) => rules,
        None => {
            return None;
        },
    };
    let head = head_chars(text);
    let ghost model = rules_model(rules@);
    let mut i: usize = 0;
    while i < rules.len()
        invariant
            i <= rules.len(),
            model == rules_model(rules@),
            rule_table(lower_ascii(lang@)) == Some(model),
            head@ == normalized_head(text@),
            first_label(model, head@, 0) == first_label(model, head@, i as int),
        decreases rules.len() - i,
    {
        if rule_accepts(&rules[i], &head) {
            return Some(rules[i].label);
        }
        i += 1;
    }
    None
}

} // verus!
