//! Severity buckets and the registry of structural patterns.

use crate::text::{chars_are, lower_ascii, lower_chars};
use vstd::prelude::*;

verus! {

/// How serious a diagnostic is. `High` orders before `Medium`, which orders
/// before `Low`.
#[derive(Debug, Clone, Copy, PartialEq, Eq, Structural, PartialOrd, Ord, Hash)]
pub enum Severity {
    High,
    Medium,
    Low,
}

impl Severity {
    /// The position of the severity in the order `High`, `Medium`, `Low`.
    pub open spec fn rank(self) -> int {
        match self {
            Severity::High => 0,
            Severity::Medium => 1,
            Severity::Low => 2,
        }
    }

    /// The text stored for this severity in the result cache.
    pub open spec fn db_text(self) -> Seq<char> {
        match self {
            Severity::High => "HIGH"@,
            Severity::Medium => "MEDIUM"@,
            Severity::Low => "LOW"@,
        }
    }

    /// The severity that a text names, whatever the case of its letters;
    /// a text that names none stands for `Low`.
    pub open spec fn named(text: Seq<char>) -> Severity {
        if lower_ascii(text) == "medium"@ {
            Severity::Medium
        } else if lower_ascii(text) == "high"@ {
            Severity::High
        } else {
            Severity::Low
        }
    }

    /// Textual value stored in the result cache.
    pub fn as_db_str(self) -> (s: &'static str)
        ensures
            s@ == self.db_text(),
    {
        match self {
            Severity::High => "HIGH",
            Severity::Medium => "MEDIUM",
            Severity::Low => "LOW",
        }
    }

    /// The name of the severity, in capitals.
    pub fn to_string(&self) -> (s: String)
        ensures
            s@ == self.db_text(),
    {
        self.as_db_str().to_owned()
    }

    /// Reads a severity from its name.
    pub fn parse(input: &str) -> (r: Severity)
        ensures
            r == Severity::named(input@),
    {
        let low = lower_chars(input);
        if chars_are(&low, "medium") {
            Severity::Medium
        } else if chars_are(&low, "high") {
            Severity::High
        } else {
            Severity::Low
        }
    }
}

impl std::str::FromStr for Severity {
    type Err = ();

    fn from_str(input: &str) -> (r: Result<Self, ()>)
        ensures
            r == Ok::<Severity, ()>(Severity::named(input@)),
    {
        Ok(Severity::parse(input))
    }
}

/// The text stored for a severity reads back as that severity.
pub proof fn lemma_db_text_reads_back(s: Severity)
    ensures
        Severity::named(s.db_text()) == s,
        Severity::named(lower_ascii(s.db_text())) == s,
{
    reveal_strlit("HIGH");
    reveal_strlit("MEDIUM");
    reveal_strlit("LOW");
    reveal_strlit("high");
    reveal_strlit("medium");
    assert(lower_ascii("HIGH"@) =~= "high"@);
    assert(lower_ascii("MEDIUM"@) =~= "medium"@);
    assert(lower_ascii("high"@) =~= "high"@);
    assert(lower_ascii("medium"@) =~= "medium"@);
    assert(lower_ascii("LOW"@).len() == 3);
    assert(lower_ascii(lower_ascii("LOW"@)).len() == 3);
}

/// One structural pattern: a query over the syntax tree with its rule
/// identifier, its explanation and its severity.
#[derive(Debug, Clone, PartialEq)]
pub struct Pattern {
    /// The identifier of the rule.
    pub id: &'static str,
    /// What the rule finds, for a reader.
    pub description: &'static str,
    /// The structural query.
    pub query: &'static str,
    pub severity: Severity,
}

/// A pattern as mathematical data.
pub struct PatternModel {
    pub id: Seq<char>,
    pub description: Seq<char>,
    pub query: Seq<char>,
    pub severity: Severity,
}

impl View for Pattern {
    type V = PatternModel;

    open spec fn view(&self) -> PatternModel {
        PatternModel {
            id: self.id@,
            description: self.description@,
            query: self.query@,
            severity: self.severity,
        }
    }
}

pub open spec fn pattern_models(v: Seq<Pattern>) -> Seq<PatternModel> {
    Seq::new(v.len(), |i: int| v[i]@)
}

fn pattern(
    id: &'static str,
    description: &'static str,
    query: &'static str,
    severity: Severity,
) -> (p: Pattern)
    ensures
        p@ == (PatternModel { id: id@, description: description@, query: query@, severity }),
{
    Pattern { id, description, query, severity }
}

pub open spec fn model(
    id: Seq<char>,
    description: Seq<char>,
    query: Seq<char>,
    severity: Severity,
) -> PatternModel {
    PatternModel { id, description, query, severity }
}

/// The patterns of Rust sources.
pub open spec fn rust_table() -> Seq<PatternModel> {
    seq![
        model(
            "unsafe_block"@,
            "Use of an `unsafe` block"@,
            "(unsafe_block) @vuln"@,
            Severity::High,
        ),
        model(
            "unsafe_fn"@,
            "`unsafe fn` declaration"@,
            "(function_item
               (function_modifiers) @mods
               (#match? @mods \"^unsafe\\b\")) @vuln"@,
            Severity::High,
        ),
        model(
            "transmute_call"@,
            "`std::mem::transmute` call"@,
            "(call_expression
                  function: (scoped_identifier
                              path: (identifier) @p (#eq? @p \"mem\")
                              name: (identifier) @f (#eq? @f \"transmute\")))
                @vuln"@,
            Severity::High,
        ),
        model(
            "copy_nonoverlapping"@,
            "Raw pointer `copy_nonoverlapping`"@,
            "(call_expression
                  function: (scoped_identifier
                              path: (identifier) @p (#eq? @p \"ptr\")
                              name: (identifier) @f (#eq? @f \"copy_nonoverlapping\")))
                @vuln"@,
            Severity::High,
        ),
        model(
            "get_unchecked"@,
            "`get_unchecked` / `get_unchecked_mut` slice access"@,
            "(call_expression
                  function: (field_expression
                              field: (field_identifier) @m
                              (#match? @m \"get_unchecked(_mut)?\"))) @vuln"@,
            Severity::High,
        ),
        model(
            "unwrap_call"@,
            "`.unwrap()` call (may panic)"@,
            "(call_expression
              function: (field_expression
                          field: (field_identifier) @name
                          (#eq? @name \"unwrap\")))   ; exact match
            @vuln"@,
            Severity::Medium,
        ),
        model(
            "expect_call"@,
            "`.expect()` call (may panic)"@,
            "(call_expression
                  function: (field_expression
                              field: (field_identifier) @name
                              (#eq? @name \"expect\"))) @vuln"@,
            Severity::Medium,
        ),
        model(
            "panic_macro"@,
            "`panic!` macro invocation"@,
            "(macro_invocation (identifier) @id (#eq? @id \"panic\")) @vuln"@,
            Severity::Medium,
        ),
        model(
            "todo_or_unimplemented"@,
            "`todo!()` / `unimplemented!()` placeholder"@,
            "(macro_invocation
                  (identifier) @id
                  (#match? @id \"todo|unimplemented\")) @vuln"@,
            Severity::Low,
        ),
        model(
            "narrow_cast_with_as"@,
            "`as` cast to an 8-/16-bit integer (possible truncation)"@,
            "(type_cast_expression
                  type: (primitive_type) @to
                  (#match? @to \"^u?i(8|16)$\")) @vuln"@,
            Severity::Low,
        ),
        model(
            "mem_zeroed"@,
            "`std::mem::zeroed()`"@,
            "(call_expression function:(scoped_identifier path:(identifier)@p (#eq? @p \"mem\") name:(identifier)@n (#eq? @n \"zeroed\")))@vuln"@,
            Severity::High,
        ),
        model(
            "mem_forget"@,
            "`std::mem::forget()`"@,
            "(call_expression function:(scoped_identifier path:(identifier)@p (#eq? @p \"mem\") name:(identifier)@n (#eq? @n \"forget\")))@vuln"@,
            Severity::Medium,
        ),
        model(
            "ptr_read"@,
            "`ptr::read_*` raw-ptr read"@,
            "(call_expression function:(scoped_identifier path:(identifier)@p (#eq? @p \"ptr\") name:(identifier)@n (#match? @n \"read(_volatile)?\")))@vuln"@,
            Severity::High,
        ),
        model(
            "arc_unwrap"@,
            "`Arc::unwrap_or_else_unchecked`"@,
            "(call_expression function:(scoped_identifier name:(identifier)@n (#eq? @n \"unwrap_or_else_unchecked\")))@vuln"@,
            Severity::High,
        ),
        model(
            "dbg_macro"@,
            "`dbg!()` left in code"@,
            "(macro_invocation (identifier)@id (#eq? @id \"dbg\"))@vuln"@,
            Severity::Low,
        ),
    ]
}

fn rust_patterns() -> (v: Vec<Pattern>)
    ensures
        pattern_models(v@) == rust_table(),
{
    let mut v: Vec<Pattern> = Vec::new();
    v.push(
        pattern(
            "unsafe_block",
            "Use of an `unsafe` block",
            "(unsafe_block) @vuln",
            Severity::High,
        ),
    );
    v.push(
        pattern(
            "unsafe_fn",
            "`unsafe fn` declaration",
            "(function_item
               (function_modifiers) @mods
               (#match? @mods \"^unsafe\\b\")) @vuln",
            Severity::High,
        ),
    );
    v.push(
        pattern(
            "transmute_call",
            "`std::mem::transmute` call",
            "(call_expression
                  function: (scoped_identifier
                              path: (identifier) @p (#eq? @p \"mem\")
                              name: (identifier) @f (#eq? @f \"transmute\")))
                @vuln",
            Severity::High,
        ),
    );
    v.push(
        pattern(
            "copy_nonoverlapping",
            "Raw pointer `copy_nonoverlapping`",
            "(call_expression
                  function: (scoped_identifier
                              path: (identifier) @p (#eq? @p \"ptr\")
                              name: (identifier) @f (#eq? @f \"copy_nonoverlapping\")))
                @vuln",
            Severity::High,
        ),
    );
    v.push(
        pattern(
            "get_unchecked",
            "`get_unchecked` / `get_unchecked_mut` slice access",
            "(call_expression
                  function: (field_expression
                              field: (field_identifier) @m
                              (#match? @m \"get_unchecked(_mut)?\"))) @vuln",
            Severity::High,
        ),
    );
    v.push(
        pattern(
            "unwrap_call",
            "`.unwrap()` call (may panic)",
            "(call_expression
              function: (field_expression
                          field: (field_identifier) @name
                          (#eq? @name \"unwrap\")))   ; exact match
            @vuln",
            Severity::Medium,
        ),
    );
    v.push(
        pattern(
            "expect_call",
            "`.expect()` call (may panic)",
            "(call_expression
                  function: (field_expression
                              field: (field_identifier) @name
                              (#eq? @name \"expect\"))) @vuln",
            Severity::Medium,
        ),
    );
    v.push(
        pattern(
            "panic_macro",
            "`panic!` macro invocation",
            "(macro_invocation (identifier) @id (#eq? @id \"panic\")) @vuln",
            Severity::Medium,
        ),
    );
    v.push(
        pattern(
            "todo_or_unimplemented",
            "`todo!()` / `unimplemented!()` placeholder",
            "(macro_invocation
                  (identifier) @id
                  (#match? @id \"todo|unimplemented\")) @vuln",
            Severity::Low,
        ),
    );
    v.push(
        pattern(
            "narrow_cast_with_as",
            "`as` cast to an 8-/16-bit integer (possible truncation)",
            "(type_cast_expression
                  type: (primitive_type) @to
                  (#match? @to \"^u?i(8|16)$\")) @vuln",
            Severity::Low,
        ),
    );
    v.push(
        pattern(
            "mem_zeroed",
            "`std::mem::zeroed()`",
            "(call_expression function:(scoped_identifier path:(identifier)@p (#eq? @p \"mem\") name:(identifier)@n (#eq? @n \"zeroed\")))@vuln",
            Severity::High,
        ),
    );
    v.push(
        pattern(
            "mem_forget",
            "`std::mem::forget()`",
            "(call_expression function:(scoped_identifier path:(identifier)@p (#eq? @p \"mem\") name:(identifier)@n (#eq? @n \"forget\")))@vuln",
            Severity::Medium,
        ),
    );
    v.push(
        pattern(
            "ptr_read",
            "`ptr::read_*` raw-ptr read",
            "(call_expression function:(scoped_identifier path:(identifier)@p (#eq? @p \"ptr\") name:(identifier)@n (#match? @n \"read(_volatile)?\")))@vuln",
            Severity::High,
        ),
    );
    v.push(
        pattern(
            "arc_unwrap",
            "`Arc::unwrap_or_else_unchecked`",
            "(call_expression function:(scoped_identifier name:(identifier)@n (#eq? @n \"unwrap_or_else_unchecked\")))@vuln",
            Severity::High,
        ),
    );
    v.push(
        pattern(
            "dbg_macro",
            "`dbg!()` left in code",
            "(macro_invocation (identifier)@id (#eq? @id \"dbg\"))@vuln",
            Severity::Low,
        ),
    );
    assert(pattern_models(v@) =~= rust_table());
    v
}

/// The patterns of TypeScript sources.
pub open spec fn typescript_table() -> Seq<PatternModel> {
    seq![
        model(
            "eval_call"@,
            "Use of eval()"@,
            "(call_expression function: (identifier) @id (#eq? @id \"eval\")) @vuln"@,
            Severity::High,
        ),
        model(
            "new_function"@,
            "new Function() constructor"@,
            "(new_expression constructor: (identifier) @id (#eq? @id \"Function\")) @vuln"@,
            Severity::High,
        ),
        model(
            "document_write"@,
            "document.write() call"@,
            "(call_expression function: (member_expression object: (identifier) @obj (#eq? @obj \"document\") property: (property_identifier) @prop (#eq? @prop \"write\"))) @vuln"@,
            Severity::Medium,
        ),
        model(
            "inner_html_assignment"@,
            "Assignment to element.innerHTML"@,
            "(assignment_expression left: (member_expression property: (property_identifier) @prop (#eq? @prop \"innerHTML\"))) @vuln"@,
            Severity::Medium,
        ),
        model(
            "settimeout_string"@,
            "setTimeout / setInterval with a string argument"@,
            "(call_expression function: (identifier) @id (#match? @id \"setTimeout|setInterval\") arguments: (arguments (string) @code . _)) @vuln"@,
            Severity::Medium,
        ),
        model(
            "any_type"@,
            "Type annotation of `any`"@,
            "(type_annotation (predefined_type) @t (#eq? @t \"any\")) @vuln"@,
            Severity::Low,
        ),
        model(
            "json_parse"@,
            "JSON.parse on dynamic string"@,
            "(call_expression function: (member_expression object: (identifier) @obj (#eq? @obj \"JSON\") property: (property_identifier) @prop (#eq? @prop \"parse\"))) @vuln"@,
            Severity::Low,
        ),
        model(
            "as_any_assertion"@,
            "Type assertion to `any` using `as any`"@,
            "(as_expression type: (predefined_type) @t (#eq? @t \"any\")) @vuln"@,
            Severity::Low,
        ),
        model(
            "type_assertion_any"@,
            "Type assertion to `any` using `<any>` syntax"@,
            "(type_assertion type: (predefined_type) @t (#eq? @t \"any\")) @vuln"@,
            Severity::Low,
        ),
        model(
            "outer_html_assignment"@,
            "Assignment to element.outerHTML"@,
            "(assignment_expression left: (member_expression property: (property_identifier) @prop (#eq? @prop \"outerHTML\"))) @vuln"@,
            Severity::Medium,
        ),
        model(
            "insert_adjacent_html"@,
            "insertAdjacentHTML() call"@,
            "(call_expression function: (member_expression property: (property_identifier) @prop (#eq? @prop \"insertAdjacentHTML\"))) @vuln"@,
            Severity::Medium,
        ),
        model(
            "document_cookie_write"@,
            "Write to document.cookie"@,
            "(assignment_expression left: (member_expression object: (identifier) @obj (#eq? @obj \"document\") property: (property_identifier) @prop (#eq? @prop \"cookie\"))) @vuln"@,
            Severity::Low,
        ),
        model(
            "onclick_setattribute"@,
            "Element.setAttribute('onclick', …)"@,
            "(call_expression function: (member_expression property: (property_identifier) @prop (#eq? @prop \"setAttribute\")) arguments: (arguments (string) @name (#eq? @name \"\\\"onclick\\\"\") . (string) @handler)) @vuln"@,
            Severity::Medium,
        ),
        model(
            "math_random_call"@,
            "Use of Math.random() for security-sensitive randomness"@,
            "(call_expression function: (member_expression object: (identifier) @obj (#eq? @obj \"Math\") property: (property_identifier) @prop (#eq? @prop \"random\"))) @vuln"@,
            Severity::Low,
        ),
        model(
            "crypto_createhash_md5"@,
            "Insecure hash algorithm: crypto.createHash('md5')"@,
            "(call_expression function: (member_expression object: (identifier) @obj (#eq? @obj \"crypto\") property: (property_identifier) @prop (#eq? @prop \"createHash\")) arguments: (arguments (string) @alg (#match? @alg \"(?i)\\\"md5\\\"\"))) @vuln"@,
            Severity::Medium,
        ),
        model(
            "fetch_http_url"@,
            "fetch() over plain HTTP"@,
            "(call_expression function: (identifier) @id (#eq? @id \"fetch\") arguments: (arguments (string) @url (#match? @url \"^\\\"http://\"))) @vuln"@,
            Severity::Low,
        ),
        model(
            "xhr_eval_response"@,
            "eval() of XMLHttpRequest.responseText"@,
            "(call_expression function: (identifier) @id (#eq? @id \"eval\") arguments: (arguments (member_expression property: (property_identifier) @prop (#eq? @prop \"responseText\")))) @vuln"@,
            Severity::High,
        ),
    ]
}

fn typescript_patterns() -> (v: Vec<Pattern>)
    ensures
        pattern_models(v@) == typescript_table(),
{
    let mut v: Vec<Pattern> = Vec::new();
    v.push(
        pattern(
            "eval_call",
            "Use of eval()",
            "(call_expression function: (identifier) @id (#eq? @id \"eval\")) @vuln",
            Severity::High,
        ),
    );
    v.push(
        pattern(
            "new_function",
            "new Function() constructor",
            "(new_expression constructor: (identifier) @id (#eq? @id \"Function\")) @vuln",
            Severity::High,
        ),
    );
    v.push(
        pattern(
            "document_write",
            "document.write() call",
            "(call_expression function: (member_expression object: (identifier) @obj (#eq? @obj \"document\") property: (property_identifier) @prop (#eq? @prop \"write\"))) @vuln",
            Severity::Medium,
        ),
    );
    v.push(
        pattern(
            "inner_html_assignment",
            "Assignment to element.innerHTML",
            "(assignment_expression left: (member_expression property: (property_identifier) @prop (#eq? @prop \"innerHTML\"))) @vuln",
            Severity::Medium,
        ),
    );
    v.push(
        pattern(
            "settimeout_string",
            "setTimeout / setInterval with a string argument",
            "(call_expression function: (identifier) @id (#match? @id \"setTimeout|setInterval\") arguments: (arguments (string) @code . _)) @vuln",
            Severity::Medium,
        ),
    );
    v.push(
        pattern(
            "any_type",
            "Type annotation of `any`",
            "(type_annotation (predefined_type) @t (#eq? @t \"any\")) @vuln",
            Severity::Low,
        ),
    );
    v.push(
        pattern(
            "json_parse",
            "JSON.parse on dynamic string",
            "(call_expression function: (member_expression object: (identifier) @obj (#eq? @obj \"JSON\") property: (property_identifier) @prop (#eq? @prop \"parse\"))) @vuln",
            Severity::Low,
        ),
    );
    v.push(
        pattern(
            "as_any_assertion",
            "Type assertion to `any` using `as any`",
            "(as_expression type: (predefined_type) @t (#eq? @t \"any\")) @vuln",
            Severity::Low,
        ),
    );
    v.push(
        pattern(
            "type_assertion_any",
            "Type assertion to `any` using `<any>` syntax",
            "(type_assertion type: (predefined_type) @t (#eq? @t \"any\")) @vuln",
            Severity::Low,
        ),
    );
    v.push(
        pattern(
            "outer_html_assignment",
            "Assignment to element.outerHTML",
            "(assignment_expression left: (member_expression property: (property_identifier) @prop (#eq? @prop \"outerHTML\"))) @vuln",
            Severity::Medium,
        ),
    );
    v.push(
        pattern(
            "insert_adjacent_html",
            "insertAdjacentHTML() call",
            "(call_expression function: (member_expression property: (property_identifier) @prop (#eq? @prop \"insertAdjacentHTML\"))) @vuln",
            Severity::Medium,
        ),
    );
    v.push(
        pattern(
            "document_cookie_write",
            "Write to document.cookie",
            "(assignment_expression left: (member_expression object: (identifier) @obj (#eq? @obj \"document\") property: (property_identifier) @prop (#eq? @prop \"cookie\"))) @vuln",
            Severity::Low,
        ),
    );
    v.push(
        pattern(
            "onclick_setattribute",
            "Element.setAttribute('onclick', …)",
            "(call_expression function: (member_expression property: (property_identifier) @prop (#eq? @prop \"setAttribute\")) arguments: (arguments (string) @name (#eq? @name \"\\\"onclick\\\"\") . (string) @handler)) @vuln",
            Severity::Medium,
        ),
    );
    v.push(
        pattern(
            "math_random_call",
            "Use of Math.random() for security-sensitive randomness",
            "(call_expression function: (member_expression object: (identifier) @obj (#eq? @obj \"Math\") property: (property_identifier) @prop (#eq? @prop \"random\"))) @vuln",
            Severity::Low,
        ),
    );
    v.push(
        pattern(
            "crypto_createhash_md5",
            "Insecure hash algorithm: crypto.createHash('md5')",
            "(call_expression function: (member_expression object: (identifier) @obj (#eq? @obj \"crypto\") property: (property_identifier) @prop (#eq? @prop \"createHash\")) arguments: (arguments (string) @alg (#match? @alg \"(?i)\\\"md5\\\"\"))) @vuln",
            Severity::Medium,
        ),
    );
    v.push(
        pattern(
            "fetch_http_url",
            "fetch() over plain HTTP",
            "(call_expression function: (identifier) @id (#eq? @id \"fetch\") arguments: (arguments (string) @url (#match? @url \"^\\\"http://\"))) @vuln",
            Severity::Low,
        ),
    );
    v.push(
        pattern(
            "xhr_eval_response",
            "eval() of XMLHttpRequest.responseText",
            "(call_expression function: (identifier) @id (#eq? @id \"eval\") arguments: (arguments (member_expression property: (property_identifier) @prop (#eq? @prop \"responseText\")))) @vuln",
            Severity::High,
        ),
    );
    assert(pattern_models(v@) =~= typescript_table());
    v
}

/// The patterns of JavaScript sources.
pub open spec fn javascript_table() -> Seq<PatternModel> {
    seq![
        model(
            "eval_call"@,
            "Use of eval()"@,
            "(call_expression function: (identifier) @id (#eq? @id \"eval\")) @vuln"@,
            Severity::High,
        ),
        model(
            "new_function"@,
            "new Function() constructor"@,
            "(new_expression constructor: (identifier) @id (#eq? @id \"Function\")) @vuln"@,
            Severity::High,
        ),
        model(
            "document_write"@,
            "document.write() call"@,
            "(call_expression function: (member_expression object: (identifier) @obj (#eq? @obj \"document\") property: (property_identifier) @prop (#eq? @prop \"write\"))) @vuln"@,
            Severity::Medium,
        ),
        model(
            "inner_html_assignment"@,
            "Assignment to element.innerHTML"@,
            "(assignment_expression left: (member_expression property: (property_identifier) @prop (#eq? @prop \"innerHTML\"))) @vuln"@,
            Severity::Medium,
        ),
        model(
            "settimeout_string"@,
            "setTimeout / setInterval with a string argument"@,
            "(call_expression function: (identifier) @id (#match? @id \"setTimeout|setInterval\") arguments: (arguments (string) @code . _)) @vuln"@,
            Severity::Medium,
        ),
        model(
            "json_parse"@,
            "JSON.parse on dynamic string"@,
            "(call_expression function: (member_expression object: (identifier) @obj (#eq? @obj \"JSON\") property: (property_identifier) @prop (#eq? @prop \"parse\"))) @vuln"@,
            Severity::Low,
        ),
        model(
            "outer_html_assignment"@,
            "Assignment to element.outerHTML"@,
            "(assignment_expression
               left: (member_expression
                        property: (property_identifier) @prop
                        (#eq? @prop \"outerHTML\"))) @vuln"@,
            Severity::Medium,
        ),
        model(
            "insert_adjacent_html"@,
            "insertAdjacentHTML() call"@,
            "(call_expression
               function: (member_expression
                           property: (property_identifier) @prop
                           (#eq? @prop \"insertAdjacentHTML\"))) @vuln"@,
            Severity::Medium,
        ),
        model(
            "location_href_assignment"@,
            "Assignment to window.location / location.href"@,
            "(assignment_expression
               left: (member_expression
                        object: (identifier)? @obj
                        property: (property_identifier) @prop
                        (#match? @prop \"location|href\"))) @vuln"@,
            Severity::High,
        ),
        model(
            "cookie_assignment"@,
            "Write to document.cookie"@,
            "(assignment_expression
               left: (member_expression
                        object: (identifier) @obj
                        (#eq? @obj \"document\")
                        property: (property_identifier) @prop
                        (#eq? @prop \"cookie\"))) @vuln"@,
            Severity::Medium,
        ),
        model(
            "proto_pollution"@,
            "Assignment to __proto__ (prototype pollution)"@,
            "(assignment_expression
               left: (member_expression
                        property: (property_identifier) @prop
                        (#eq? @prop \"__proto__\"))) @vuln"@,
            Severity::High,
        ),
        model(
            "weak_hash_md5"@,
            "crypto.createHash(\"md5\")"@,
            "(call_expression
               function: (member_expression
                           object: (identifier) @obj
                           (#eq? @obj \"crypto\")
                           property: (property_identifier) @prop
                           (#eq? @prop \"createHash\"))
               arguments: (arguments
                            (string) @alg
                            (#eq? @alg \"md5\"))) @vuln"@,
            Severity::Low,
        ),
        model(
            "regexp_constructor_string"@,
            "new RegExp() with a dynamic string"@,
            "(new_expression
               constructor: (identifier) @id
               (#eq? @id \"RegExp\")
               arguments: (arguments (string) @pattern)) @vuln"@,
            Severity::Low,
        ),
        model(
            "dangerous_extend_builtin"@,
            "Extending Object.prototype (may lead to collisions/pollution)"@,
            "(assignment_expression
               left: (member_expression
                        object: (identifier) @obj
                        (#eq? @obj \"Object\")
                        property: (property_identifier) @prop
                        (#eq? @prop \"prototype\"))) @vuln"@,
            Severity::Medium,
        ),
    ]
}

fn javascript_patterns() -> (v: Vec<Pattern>)
    ensures
        pattern_models(v@) == javascript_table(),
{
    let mut v: Vec<Pattern> = Vec::new();
    v.push(
        pattern(
            "eval_call",
            "Use of eval()",
            "(call_expression function: (identifier) @id (#eq? @id \"eval\")) @vuln",
            Severity::High,
        ),
    );
    v.push(
        pattern(
            "new_function",
            "new Function() constructor",
            "(new_expression constructor: (identifier) @id (#eq? @id \"Function\")) @vuln",
            Severity::High,
        ),
    );
    v.push(
        pattern(
            "document_write",
            "document.write() call",
            "(call_expression function: (member_expression object: (identifier) @obj (#eq? @obj \"document\") property: (property_identifier) @prop (#eq? @prop \"write\"))) @vuln",
            Severity::Medium,
        ),
    );
    v.push(
        pattern(
            "inner_html_assignment",
            "Assignment to element.innerHTML",
            "(assignment_expression left: (member_expression property: (property_identifier) @prop (#eq? @prop \"innerHTML\"))) @vuln",
            Severity::Medium,
        ),
    );
    v.push(
        pattern(
            "settimeout_string",
            "setTimeout / setInterval with a string argument",
            "(call_expression function: (identifier) @id (#match? @id \"setTimeout|setInterval\") arguments: (arguments (string) @code . _)) @vuln",
            Severity::Medium,
        ),
    );
    v.push(
        pattern(
            "json_parse",
            "JSON.parse on dynamic string",
            "(call_expression function: (member_expression object: (identifier) @obj (#eq? @obj \"JSON\") property: (property_identifier) @prop (#eq? @prop \"parse\"))) @vuln",
            Severity::Low,
        ),
    );
    v.push(
        pattern(
            "outer_html_assignment",
            "Assignment to element.outerHTML",
            "(assignment_expression
               left: (member_expression
                        property: (property_identifier) @prop
                        (#eq? @prop \"outerHTML\"))) @vuln",
            Severity::Medium,
        ),
    );
    v.push(
        pattern(
            "insert_adjacent_html",
            "insertAdjacentHTML() call",
            "(call_expression
               function: (member_expression
                           property: (property_identifier) @prop
                           (#eq? @prop \"insertAdjacentHTML\"))) @vuln",
            Severity::Medium,
        ),
    );
    v.push(
        pattern(
            "location_href_assignment",
            "Assignment to window.location / location.href",
            "(assignment_expression
               left: (member_expression
                        object: (identifier)? @obj
                        property: (property_identifier) @prop
                        (#match? @prop \"location|href\"))) @vuln",
            Severity::High,
        ),
    );
    v.push(
        pattern(
            "cookie_assignment",
            "Write to document.cookie",
            "(assignment_expression
               left: (member_expression
                        object: (identifier) @obj
                        (#eq? @obj \"document\")
                        property: (property_identifier) @prop
                        (#eq? @prop \"cookie\"))) @vuln",
            Severity::Medium,
        ),
    );
    v.push(
        pattern(
            "proto_pollution",
            "Assignment to __proto__ (prototype pollution)",
            "(assignment_expression
               left: (member_expression
                        property: (property_identifier) @prop
                        (#eq? @prop \"__proto__\"))) @vuln",
            Severity::High,
        ),
    );
    v.push(
        pattern(
            "weak_hash_md5",
            "crypto.createHash(\"md5\")",
            "(call_expression
               function: (member_expression
                           object: (identifier) @obj
                           (#eq? @obj \"crypto\")
                           property: (property_identifier) @prop
                           (#eq? @prop \"createHash\"))
               arguments: (arguments
                            (string) @alg
                            (#eq? @alg \"md5\"))) @vuln",
            Severity::Low,
        ),
    );
    v.push(
        pattern(
            "regexp_constructor_string",
            "new RegExp() with a dynamic string",
            "(new_expression
               constructor: (identifier) @id
               (#eq? @id \"RegExp\")
               arguments: (arguments (string) @pattern)) @vuln",
            Severity::Low,
        ),
    );
    v.push(
        pattern(
            "dangerous_extend_builtin",
            "Extending Object.prototype (may lead to collisions/pollution)",
            "(assignment_expression
               left: (member_expression
                        object: (identifier) @obj
                        (#eq? @obj \"Object\")
                        property: (property_identifier) @prop
                        (#eq? @prop \"prototype\"))) @vuln",
            Severity::Medium,
        ),
    );
    assert(pattern_models(v@) =~= javascript_table());
    v
}

/// The patterns of C sources.
pub open spec fn c_table() -> Seq<PatternModel> {
    seq![
        model(
            "strcpy_call"@,
            "strcpy() usage"@,
            "(call_expression function: (identifier) @id (#eq? @id \"strcpy\")) @vuln"@,
            Severity::High,
        ),
        model(
            "strcat_call"@,
            "strcat() usage"@,
            "(call_expression function: (identifier) @id (#eq? @id \"strcat\")) @vuln"@,
            Severity::High,
        ),
        model(
            "sprintf_call"@,
            "sprintf() (no length limit)"@,
            "(call_expression function: (identifier) @id (#eq? @id \"sprintf\")) @vuln"@,
            Severity::High,
        ),
        model(
            "gets_call"@,
            "gets() usage"@,
            "(call_expression function: (identifier) @id (#eq? @id \"gets\")) @vuln"@,
            Severity::High,
        ),
        model(
            "scanf_with_percent_s"@,
            "scanf(\"%s\") without length specifier"@,
            "(call_expression function: (identifier) @id (#eq? @id \"scanf\") arguments: (argument_list (string_literal) @fmt (#match? @fmt \".*%s.*\"))) @vuln"@,
            Severity::High,
        ),
        model(
            "system_call"@,
            "system() shell execution"@,
            "(call_expression function: (identifier) @id (#eq? @id \"system\")) @vuln"@,
            Severity::Medium,
        ),
    ]
}

fn c_patterns() -> (v: Vec<Pattern>)
    ensures
        pattern_models(v@) == c_table(),
{
    let mut v: Vec<Pattern> = Vec::new();
    v.push(
        pattern(
            "strcpy_call",
            "strcpy() usage",
            "(call_expression function: (identifier) @id (#eq? @id \"strcpy\")) @vuln",
            Severity::High,
        ),
    );
    v.push(
        pattern(
            "strcat_call",
            "strcat() usage",
            "(call_expression function: (identifier) @id (#eq? @id \"strcat\")) @vuln",
            Severity::High,
        ),
    );
    v.push(
        pattern(
            "sprintf_call",
            "sprintf() (no length limit)",
            "(call_expression function: (identifier) @id (#eq? @id \"sprintf\")) @vuln",
            Severity::High,
        ),
    );
    v.push(
        pattern(
            "gets_call",
            "gets() usage",
            "(call_expression function: (identifier) @id (#eq? @id \"gets\")) @vuln",
            Severity::High,
        ),
    );
    v.push(
        pattern(
            "scanf_with_percent_s",
            "scanf(\"%s\") without length specifier",
            "(call_expression function: (identifier) @id (#eq? @id \"scanf\") arguments: (argument_list (string_literal) @fmt (#match? @fmt \".*%s.*\"))) @vuln",
            Severity::High,
        ),
    );
    v.push(
        pattern(
            "system_call",
            "system() shell execution",
            "(call_expression function: (identifier) @id (#eq? @id \"system\")) @vuln",
            Severity::Medium,
        ),
    );
    assert(pattern_models(v@) =~= c_table());
    v
}

/// The patterns of C++ sources.
pub open spec fn cpp_table() -> Seq<PatternModel> {
    seq![
        model(
            "strcpy_call"@,
            "strcpy() usage"@,
            "(call_expression function: (identifier) @id (#eq? @id \"strcpy\")) @vuln"@,
            Severity::High,
        ),
        model(
            "strcat_call"@,
            "strcat() usage"@,
            "(call_expression function: (identifier) @id (#eq? @id \"strcat\")) @vuln"@,
            Severity::High,
        ),
        model(
            "sprintf_call"@,
            "sprintf() (no length limit)"@,
            "(call_expression function: (identifier) @id (#eq? @id \"sprintf\")) @vuln"@,
            Severity::High,
        ),
        model(
            "gets_call"@,
            "gets() usage"@,
            "(call_expression function: (identifier) @id (#eq? @id \"gets\")) @vuln"@,
            Severity::High,
        ),
        model(
            "system_call"@,
            "system() shell execution"@,
            "(call_expression function: (identifier) @id (#eq? @id \"system\")) @vuln"@,
            Severity::Medium,
        ),
        model(
            "reinterpret_cast"@,
            "reinterpret_cast usage"@,
            "(reinterpret_cast_expression) @vuln"@,
            Severity::Medium,
        ),
    ]
}

fn cpp_patterns() -> (v: Vec<Pattern>)
    ensures
        pattern_models(v@) == cpp_table(),
{
    let mut v: Vec<Pattern> = Vec::new();
    v.push(
        pattern(
            "strcpy_call",
            "strcpy() usage",
            "(call_expression function: (identifier) @id (#eq? @id \"strcpy\")) @vuln",
            Severity::High,
        ),
    );
    v.push(
        pattern(
            "strcat_call",
            "strcat() usage",
            "(call_expression function: (identifier) @id (#eq? @id \"strcat\")) @vuln",
            Severity::High,
        ),
    );
    v.push(
        pattern(
            "sprintf_call",
            "sprintf() (no length limit)",
            "(call_expression function: (identifier) @id (#eq? @id \"sprintf\")) @vuln",
            Severity::High,
        ),
    );
    v.push(
        pattern(
            "gets_call",
            "gets() usage",
            "(call_expression function: (identifier) @id (#eq? @id \"gets\")) @vuln",
            Severity::High,
        ),
    );
    v.push(
        pattern(
            "system_call",
            "system() shell execution",
            "(call_expression function: (identifier) @id (#eq? @id \"system\")) @vuln",
            Severity::Medium,
        ),
    );
    v.push(
        pattern(
            "reinterpret_cast",
            "reinterpret_cast usage",
            "(reinterpret_cast_expression) @vuln",
            Severity::Medium,
        ),
    );
    assert(pattern_models(v@) =~= cpp_table());
    v
}

/// The patterns of Java sources.
pub open spec fn java_table() -> Seq<PatternModel> {
    seq![
        model(
            "runtime_exec"@,
            "Runtime.getRuntime().exec(...) – arbitrary-command execution"@,
            "(method_invocation object: (method_invocation name: (identifier) @n (#eq? @n \"getRuntime\")) name: (identifier) @id (#eq? @id \"exec\")) @vuln"@,
            Severity::High,
        ),
        model(
            "class_for_name"@,
            "Dynamic reflection via Class.forName(...)"@,
            "(method_invocation object: (identifier) @c (#eq? @c \"Class\") name: (identifier) @id (#eq? @id \"forName\")) @vuln"@,
            Severity::Medium,
        ),
        model(
            "object_deserialization"@,
            "java.io.ObjectInputStream#readObject() deserialization"@,
            "(method_invocation object: (identifier) @o (#eq? @o \"ObjectInputStream\") name: (identifier) @id (#eq? @id \"readObject\")) @vuln"@,
            Severity::High,
        ),
        model(
            "insecure_random"@,
            "java.util.Random used where SecureRandom is expected"@,
            "(object_creation_expression type: (identifier) @t (#eq? @t \"Random\")) @vuln"@,
            Severity::Medium,
        ),
        model(
            "thread_stop"@,
            "Deprecated Thread.stop() invocation"@,
            "(method_invocation name: (identifier) @id (#eq? @id \"stop\") object: (identifier) @obj (#eq? @obj \"Thread\")) @vuln"@,
            Severity::Low,
        ),
        model(
            "sql_concat"@,
            "SQL built with string concatenation"@,
            "(method_invocation name: (identifier) @id (#match? @id \"execute(Query|Update)?\") arguments: (argument_list (binary_expression) @concat)) @vuln"@,
            Severity::Medium,
        ),
    ]
}

fn java_patterns() -> (v: Vec<Pattern>)
    ensures
        pattern_models(v@) == java_table(),
{
    let mut v: Vec<Pattern> = Vec::new();
    v.push(
        pattern(
            "runtime_exec",
            "Runtime.getRuntime().exec(...) – arbitrary-command execution",
            "(method_invocation object: (method_invocation name: (identifier) @n (#eq? @n \"getRuntime\")) name: (identifier) @id (#eq? @id \"exec\")) @vuln",
            Severity::High,
        ),
    );
    v.push(
        pattern(
            "class_for_name",
            "Dynamic reflection via Class.forName(...)",
            "(method_invocation object: (identifier) @c (#eq? @c \"Class\") name: (identifier) @id (#eq? @id \"forName\")) @vuln",
            Severity::Medium,
        ),
    );
    v.push(
        pattern(
            "object_deserialization",
            "java.io.ObjectInputStream#readObject() deserialization",
            "(method_invocation object: (identifier) @o (#eq? @o \"ObjectInputStream\") name: (identifier) @id (#eq? @id \"readObject\")) @vuln",
            Severity::High,
        ),
    );
    v.push(
        pattern(
            "insecure_random",
            "java.util.Random used where SecureRandom is expected",
            "(object_creation_expression type: (identifier) @t (#eq? @t \"Random\")) @vuln",
            Severity::Medium,
        ),
    );
    v.push(
        pattern(
            "thread_stop",
            "Deprecated Thread.stop() invocation",
            "(method_invocation name: (identifier) @id (#eq? @id \"stop\") object: (identifier) @obj (#eq? @obj \"Thread\")) @vuln",
            Severity::Low,
        ),
    );
    v.push(
        pattern(
            "sql_concat",
            "SQL built with string concatenation",
            "(method_invocation name: (identifier) @id (#match? @id \"execute(Query|Update)?\") arguments: (argument_list (binary_expression) @concat)) @vuln",
            Severity::Medium,
        ),
    );
    assert(pattern_models(v@) =~= java_table());
    v
}

/// The patterns of Go sources.
pub open spec fn go_table() -> Seq<PatternModel> {
    seq![
        model(
            "exec_command"@,
            "os/exec Command construction"@,
            "(call_expression function: (selector_expression field: (field_identifier) @f (#eq? @f \"Command\"))) @vuln"@,
            Severity::Medium,
        ),
        model(
            "http_insecure_tls"@,
            "&http.Transport{TLSClientConfig: &tls.Config{InsecureSkipVerify: true}}"@,
            "(composite_literal type: (selector_expression field: (field_identifier) @t (#eq? @t \"Transport\")) body: (literal_value (keyed_element key: (identifier) @k (#eq? @k \"TLSClientConfig\") value: (composite_literal body: (literal_value (keyed_element key: (identifier) @ik (#eq? @ik \"InsecureSkipVerify\") value: (true)))))) @vuln"@,
            Severity::High,
        ),
        model(
            "unsafe_pointer"@,
            "Use of unsafe.Pointer"@,
            "(qualified_type type: (selector_expression field: (field_identifier) @f (#eq? @f \"Pointer\"))) @vuln"@,
            Severity::High,
        ),
        model(
            "md5_sha1"@,
            "crypto/md5 or crypto/sha1 usage"@,
            "(call_expression function: (selector_expression object: (identifier) @pkg (#match? @pkg \"md5|sha1\"))) @vuln"@,
            Severity::Medium,
        ),
        model(
            "hardcoded_secret"@,
            "Hard-coded string that looks like an API key/token"@,
            "(interpreted_string_literal) @s (#match? @s \"(?i)(api|secret|token|password)[=:]?[ \\t]*[A-Za-z0-9_\\-]{8,}\")"@,
            Severity::Low,
        ),
    ]
}

fn go_patterns() -> (v: Vec<Pattern>)
    ensures
        pattern_models(v@) == go_table(),
{
    let mut v: Vec<Pattern> = Vec::new();
    v.push(
        pattern(
            "exec_command",
            "os/exec Command construction",
            "(call_expression function: (selector_expression field: (field_identifier) @f (#eq? @f \"Command\"))) @vuln",
            Severity::Medium,
        ),
    );
    v.push(
        pattern(
            "http_insecure_tls",
            "&http.Transport{TLSClientConfig: &tls.Config{InsecureSkipVerify: true}}",
            "(composite_literal type: (selector_expression field: (field_identifier) @t (#eq? @t \"Transport\")) body: (literal_value (keyed_element key: (identifier) @k (#eq? @k \"TLSClientConfig\") value: (composite_literal body: (literal_value (keyed_element key: (identifier) @ik (#eq? @ik \"InsecureSkipVerify\") value: (true)))))) @vuln",
            Severity::High,
        ),
    );
    v.push(
        pattern(
            "unsafe_pointer",
            "Use of unsafe.Pointer",
            "(qualified_type type: (selector_expression field: (field_identifier) @f (#eq? @f \"Pointer\"))) @vuln",
            Severity::High,
        ),
    );
    v.push(
        pattern(
            "md5_sha1",
            "crypto/md5 or crypto/sha1 usage",
            "(call_expression function: (selector_expression object: (identifier) @pkg (#match? @pkg \"md5|sha1\"))) @vuln",
            Severity::Medium,
        ),
    );
    v.push(
        pattern(
            "hardcoded_secret",
            "Hard-coded string that looks like an API key/token",
            "(interpreted_string_literal) @s (#match? @s \"(?i)(api|secret|token|password)[=:]?[ \\t]*[A-Za-z0-9_\\-]{8,}\")",
            Severity::Low,
        ),
    );
    assert(pattern_models(v@) =~= go_table());
    v
}

/// The patterns of PHP sources.
pub open spec fn php_table() -> Seq<PatternModel> {
    seq![
        model(
            "eval_call"@,
            "eval($code) execution"@,
            "(function_call_expression function: (name) @n (#eq? @n \"eval\")) @vuln"@,
            Severity::High,
        ),
        model(
            "preg_replace_e"@,
            "preg_replace with deprecated /e modifier"@,
            "(function_call_expression function: (name) @n (#eq? @n \"preg_replace\") arguments: (arguments (string) @pat (#match? @pat \"/.*e.*$/\"))) @vuln"@,
            Severity::High,
        ),
        model(
            "create_function"@,
            "create_function(...) anonymous eval-like"@,
            "(function_call_expression function: (name) @n (#eq? @n \"create_function\")) @vuln"@,
            Severity::Medium,
        ),
        model(
            "unserialize_call"@,
            "unserialize(...) on user input"@,
            "(function_call_expression function: (name) @n (#eq? @n \"unserialize\")) @vuln"@,
            Severity::High,
        ),
        model(
            "mysql_query_concat"@,
            "mysql_query with concatenated SQL"@,
            "(function_call_expression function: (name) @n (#eq? @n \"mysql_query\") arguments: (arguments (binary_expression) @concat)) @vuln"@,
            Severity::Medium,
        ),
        model(
            "system_call"@,
            "system()/shell_exec()/exec() command execution"@,
            "(function_call_expression function: (name) @n (#match? @n \"system|shell_exec|exec|passthru\")) @vuln"@,
            Severity::Medium,
        ),
    ]
}

fn php_patterns() -> (v: Vec<Pattern>)
    ensures
        pattern_models(v@) == php_table(),
{
    let mut v: Vec<Pattern> = Vec::new();
    v.push(
        pattern(
            "eval_call",
            "eval($code) execution",
            "(function_call_expression function: (name) @n (#eq? @n \"eval\")) @vuln",
            Severity::High,
        ),
    );
    v.push(
        pattern(
            "preg_replace_e",
            "preg_replace with deprecated /e modifier",
            "(function_call_expression function: (name) @n (#eq? @n \"preg_replace\") arguments: (arguments (string) @pat (#match? @pat \"/.*e.*$/\"))) @vuln",
            Severity::High,
        ),
    );
    v.push(
        pattern(
            "create_function",
            "create_function(...) anonymous eval-like",
            "(function_call_expression function: (name) @n (#eq? @n \"create_function\")) @vuln",
            Severity::Medium,
        ),
    );
    v.push(
        pattern(
            "unserialize_call",
            "unserialize(...) on user input",
            "(function_call_expression function: (name) @n (#eq? @n \"unserialize\")) @vuln",
            Severity::High,
        ),
    );
    v.push(
        pattern(
            "mysql_query_concat",
            "mysql_query with concatenated SQL",
            "(function_call_expression function: (name) @n (#eq? @n \"mysql_query\") arguments: (arguments (binary_expression) @concat)) @vuln",
            Severity::Medium,
        ),
    );
    v.push(
        pattern(
            "system_call",
            "system()/shell_exec()/exec() command execution",
            "(function_call_expression function: (name) @n (#match? @n \"system|shell_exec|exec|passthru\")) @vuln",
            Severity::Medium,
        ),
    );
    assert(pattern_models(v@) =~= php_table());
    v
}

/// The patterns of Python sources.
pub open spec fn python_table() -> Seq<PatternModel> {
    seq![
        model(
            "eval_call"@,
            "eval() on dynamic input"@,
            "(call function: (identifier) @id (#eq? @id \"eval\")) @vuln"@,
            Severity::High,
        ),
        model(
            "exec_call"@,
            "exec(...) execution of dynamic code"@,
            "(call function: (identifier) @id (#eq? @id \"exec\")) @vuln"@,
            Severity::High,
        ),
        model(
            "subprocess_shell_true"@,
            "subprocess.* with shell=True"@,
            "(call function: (attribute object: (identifier) @pkg (#eq? @pkg \"subprocess\")) arguments: (argument_list . (keyword_argument name: (identifier) @k (#eq? @k \"shell\")) (true) @val)) @vuln"@,
            Severity::Medium,
        ),
    ]
}

fn python_patterns() -> (v: Vec<Pattern>)
    ensures
        pattern_models(v@) == python_table(),
{
    let mut v: Vec<Pattern> = Vec::new();
    v.push(
        pattern(
            "eval_call",
            "eval() on dynamic input",
            "(call function: (identifier) @id (#eq? @id \"eval\")) @vuln",
            Severity::High,
        ),
    );
    v.push(
        pattern(
            "exec_call",
            "exec(...) execution of dynamic code",
            "(call function: (identifier) @id (#eq? @id \"exec\")) @vuln",
            Severity::High,
        ),
    );
    v.push(
        pattern(
            "subprocess_shell_true",
            "subprocess.* with shell=True",
            "(call function: (attribute object: (identifier) @pkg (#eq? @pkg \"subprocess\")) arguments: (argument_list . (keyword_argument name: (identifier) @k (#eq? @k \"shell\")) (true) @val)) @vuln",
            Severity::Medium,
        ),
    );
    assert(pattern_models(v@) =~= python_table());
    v
}

/// The patterns of Ruby sources.
pub open spec fn ruby_table() -> Seq<PatternModel> {
    seq![
        model(
            "eval_call"@,
            "Kernel#eval usage"@,
            r#"
          (call
            (identifier) @id
            (#eq? @id "eval")
          ) @vuln
        "#@,
            Severity::High,
        ),
        model(
            "instance_eval_call"@,
            "Object#instance_eval usage"@,
            r#"
          (call
            (identifier) @id
            (#eq? @id "instance_eval")
          ) @vuln
        "#@,
            Severity::High,
        ),
        model(
            "class_eval_call"@,
            "Module#class_eval / module_eval usage"@,
            r#"
          (call
            (identifier) @id
            (#match? @id "^(class_eval|module_eval)$")
          ) @vuln
        "#@,
            Severity::High,
        ),
        model(
            "system_exec_interp"@,
            "system/exec with string interpolation"@,
            r#"
          (call
            method: (identifier) @m
            (#match? @m "^(system|exec)$")
            arguments: (argument_list
              (string
                (interpolation)+ @vuln
              )
            )
          )
        "#@,
            Severity::High,
        ),
        model(
            "backtick_command"@,
            "Back-tick shell execution"@,
            r#"(shell_command) @vuln"#@,
            Severity::High,
        ),
        model(
            "yaml_load"@,
            "YAML.load / Psych.load (arbitrary object deserialisation)"@,
            r#"
          (call
            receiver: (constant) @recv
            (#match? @recv "^(YAML|Psych)$")
            method: (identifier) @m
            (#eq? @m "load")
          ) @vuln
        "#@,
            Severity::High,
        ),
        model(
            "marshal_load"@,
            "Marshal.load usage"@,
            r#"
          (call
            receiver: (constant) @recv
            (#eq? @recv "Marshal")
            method: (identifier) @m
            (#eq? @m "load")
          ) @vuln
        "#@,
            Severity::High,
        ),
        model(
            "send_dynamic"@,
            "send() with dynamic first argument (not a literal symbol)"@,
            r#"
          (call
            method: (identifier) @m
            (#eq? @m "send")
            arguments: (argument_list
              [
                (identifier)                ; send(method_name_var, …)
                (string (interpolation)+)   ; send("user_#{role}", …)
              ] @vuln
            )
          )
        "#@,
            Severity::Medium,
        ),
        model(
            "constantize_call"@,
            "ActiveSupport constantize / safe_constantize on tainted data"@,
            r#"
          (call
            method: (identifier) @m
            (#match? @m "^(constantize|safe_constantize)$")
          ) @vuln
        "#@,
            Severity::Medium,
        ),
        model(
            "open_uri_http"@,
            "Kernel#open with HTTP(S) URL (open-uri auto-follow)"@,
            r#"
          (call
            method: (identifier) @m
            (#eq? @m "open")
            arguments: (argument_list
              (string) @url
              (#match? @url "^\"https?://")
            )
          ) @vuln
        "#@,
            Severity::Medium,
        ),
    ]
}

fn ruby_patterns() -> (v: Vec<Pattern>)
    ensures
        pattern_models(v@) == ruby_table(),
{
    let mut v: Vec<Pattern> = Vec::new();
    v.push(
        pattern(
            "eval_call",
            "Kernel#eval usage",
            r#"
          (call
            (identifier) @id
            (#eq? @id "eval")
          ) @vuln
        "#,
            Severity::High,
        ),
    );
    v.push(
        pattern(
            "instance_eval_call",
            "Object#instance_eval usage",
            r#"
          (call
            (identifier) @id
            (#eq? @id "instance_eval")
          ) @vuln
        "#,
            Severity::High,
        ),
    );
    v.push(
        pattern(
            "class_eval_call",
            "Module#class_eval / module_eval usage",
            r#"
          (call
            (identifier) @id
            (#match? @id "^(class_eval|module_eval)$")
          ) @vuln
        "#,
            Severity::High,
        ),
    );
    v.push(
        pattern(
            "system_exec_interp",
            "system/exec with string interpolation",
            r#"
          (call
            method: (identifier) @m
            (#match? @m "^(system|exec)$")
            arguments: (argument_list
              (string
                (interpolation)+ @vuln
              )
            )
          )
        "#,
            Severity::High,
        ),
    );
    v.push(
        pattern(
            "backtick_command",
            "Back-tick shell execution",
            r#"(shell_command) @vuln"#,
            Severity::High,
        ),
    );
    v.push(
        pattern(
            "yaml_load",
            "YAML.load / Psych.load (arbitrary object deserialisation)",
            r#"
          (call
            receiver: (constant) @recv
            (#match? @recv "^(YAML|Psych)$")
            method: (identifier) @m
            (#eq? @m "load")
          ) @vuln
        "#,
            Severity::High,
        ),
    );
    v.push(
        pattern(
            "marshal_load",
            "Marshal.load usage",
            r#"
          (call
            receiver: (constant) @recv
            (#eq? @recv "Marshal")
            method: (identifier) @m
            (#eq? @m "load")
          ) @vuln
        "#,
            Severity::High,
        ),
    );
    v.push(
        pattern(
            "send_dynamic",
            "send() with dynamic first argument (not a literal symbol)",
            r#"
          (call
            method: (identifier) @m
            (#eq? @m "send")
            arguments: (argument_list
              [
                (identifier)                ; send(method_name_var, …)
                (string (interpolation)+)   ; send("user_#{role}", …)
              ] @vuln
            )
          )
        "#,
            Severity::Medium,
        ),
    );
    v.push(
        pattern(
            "constantize_call",
            "ActiveSupport constantize / safe_constantize on tainted data",
            r#"
          (call
            method: (identifier) @m
            (#match? @m "^(constantize|safe_constantize)$")
          ) @vuln
        "#,
            Severity::Medium,
        ),
    );
    v.push(
        pattern(
            "open_uri_http",
            "Kernel#open with HTTP(S) URL (open-uri auto-follow)",
            r#"
          (call
            method: (identifier) @m
            (#eq? @m "open")
            arguments: (argument_list
              (string) @url
              (#match? @url "^\"https?://")
            )
          ) @vuln
        "#,
            Severity::Medium,
        ),
    );
    assert(pattern_models(v@) =~= ruby_table());
    v
}

/// The patterns of a language key, which is already lower-cased. Unknown
/// keys have none.
pub open spec fn pattern_table(key: Seq<char>) -> Seq<PatternModel> {
    if key == "rust"@ {
        rust_table()
    }     else if key == "typescript"@ || key == "ts"@ || key == "tsx"@ {
        typescript_table()
    }     else if key == "javascript"@ || key == "js"@ {
        javascript_table()
    }     else if key == "c"@ {
        c_table()
    }     else if key == "cpp"@ || key == "c++"@ {
        cpp_table()
    }     else if key == "java"@ {
        java_table()
    }     else if key == "go"@ {
        go_table()
    }     else if key == "php"@ {
        php_table()
    }     else if key == "python"@ || key == "py"@ {
        python_table()
    }     else if key == "ruby"@ || key == "rb"@ {
        ruby_table()
    } else {
        Seq::empty()
    }
}

/// All patterns of the language, whatever the case of the letters of its
/// key. An unknown language has none.
pub fn load(lang: &str) -> (v: Vec<Pattern>)
    ensures
        pattern_models(v@) == pattern_table(lower_ascii(lang@)),
{
    let key = lower_chars(lang);
    if chars_are(&key, "rust") {
        rust_patterns()
    }     else if chars_are(&key, "typescript") || chars_are(&key, "ts") || chars_are(&key, "tsx") {
        typescript_patterns()
    }     else if chars_are(&key, "javascript") || chars_are(&key, "js") {
        javascript_patterns()
    }     else if chars_are(&key, "c") {
        c_patterns()
    }     else if chars_are(&key, "cpp") || chars_are(&key, "c++") {
        cpp_patterns()
    }     else if chars_are(&key, "java") {
        java_patterns()
    }     else if chars_are(&key, "go") {
        go_patterns()
    }     else if chars_are(&key, "php") {
        php_patterns()
    }     else if chars_are(&key, "python") || chars_are(&key, "py") {
        python_patterns()
    }     else if chars_are(&key, "ruby") || chars_are(&key, "rb") {
        ruby_patterns()
    } else {
        let v: Vec<Pattern> = Vec::new();
        assert(pattern_models(v@) =~= Seq::<PatternModel>::empty());
        v
    }
}

} // verus!
