//! The recursive-descent parser: consumes the token sequence with a monotonic
//! cursor and produces one `Program` root, or the full list of parse errors
//! found. Parsing a macro definition registers it in the parser's macro
//! table; a quasiquote defers its expression into the template table and
//! leaves an opaque handle in the tree.
//!
//! The whole behaviour is specified by the `spec_parse_*` functions, a
//! recursive model of the grammar over [`ParserV`] states; [`Parser::parse`]
//! is proved to return exactly what the model says. A failed top-level form
//! records its error and parsing resumes at whatever position the failed
//! attempt left behind, with no resynchronization, so one call reports every
//! error found in order of discovery.

use vstd::prelude::*;
use vstd::string::StringExecFns;

use crate::ast::ast_view;
use crate::ast::asts_view;
use crate::ast::lemma_asts_view;
use crate::ast::ASTNode;
use crate::ast::AstV;
use crate::parser_error::ParseError;
use crate::parser_error::ParseErrorV;
use crate::parser_error::ParseResult;
use crate::token::Token;
use crate::token::TokenType;
use crate::token::TokenTypeV;
use crate::token::TokenV;

verus! {

/// One entry of the macro table: the macro's name, its parameter symbols and
/// its body forms. The first definition of a name wins; a later definition of
/// the same name is a no-op.
#[derive(Debug, PartialEq)]
pub struct MacroEntry {
    pub name: String,
    pub params: Vec<ASTNode>,
    pub body: Vec<ASTNode>,
}

/// The mathematical value of a [`MacroEntry`].
#[verifier::ext_equal]
pub struct MacroEntryV {
    pub name: Seq<char>,
    pub params: Seq<AstV>,
    pub body: Seq<AstV>,
}

impl DeepView for MacroEntry {
    type V = MacroEntryV;

    open spec fn deep_view(&self) -> MacroEntryV {
        MacroEntryV {
            name: self.name@,
            params: asts_view(self.params@),
            body: asts_view(self.body@),
        }
    }
}

/// The parser's state: the token sequence (never mutated), the cursor, the
/// two auxiliary tables, and the errors found so far.
#[verifier::ext_equal]
pub struct ParserV {
    pub tokens: Seq<TokenV>,
    pub current: nat,
    pub macros: Seq<MacroEntryV>,
    pub template: Seq<AstV>,
    pub errors: Seq<ParseErrorV>,
}

/// Whether the cursor has consumed the whole token sequence.
pub open spec fn at_end(s: ParserV) -> bool {
    s.current >= s.tokens.len()
}

/// The token under the cursor.
pub open spec fn cur(s: ParserV) -> TokenV {
    s.tokens[s.current as int]
}

/// The token after the one under the cursor.
pub open spec fn cur_next(s: ParserV) -> TokenV {
    s.tokens[s.current as int + 1]
}

/// The state with one more token consumed; at the end, unchanged.
pub open spec fn adv(s: ParserV) -> ParserV {
    if at_end(s) {
        s
    } else {
        ParserV { current: s.current + 1, ..s }
    }
}

/// How many tokens remain under the cursor.
pub open spec fn remaining(s: ParserV) -> nat {
    if s.current <= s.tokens.len() {
        (s.tokens.len() - s.current) as nat
    } else {
        0
    }
}

/// A state forced to have progressed past `s0`: the identity wherever
/// parsing made progress over the same tokens. It keeps the recursion of the
/// model visibly well-founded; the parser never changes the tokens and always
/// progresses, so the forced case never describes it.
pub open spec fn bump(s0: ParserV, s: ParserV) -> ParserV {
    if s.tokens == s0.tokens && s.current > s0.current {
        s
    } else {
        ParserV { tokens: s0.tokens, current: s0.current + 1, ..s }
    }
}

/// The error recorded for `msg`: positioned at the lookahead token, or at
/// line 0, column 0 when the input is exhausted.
pub open spec fn spec_error_at(s: ParserV, msg: Seq<char>) -> ParseErrorV {
    if !at_end(s) {
        ParseErrorV { message: msg, line: cur(s).line, column: cur(s).column }
    } else {
        ParseErrorV { message: msg, line: 0, column: 0 }
    }
}

/// Whether the macro table holds an entry named `name`.
pub open spec fn spec_macro_defined(macros: Seq<MacroEntryV>, name: Seq<char>) -> bool {
    exists|i: int| 0 <= i < macros.len() && macros[i].name == name
}

/// Registers a macro: the first definition of a name wins, a later one is a
/// no-op.
pub open spec fn spec_register_macro(
    macros: Seq<MacroEntryV>,
    name: Seq<char>,
    params: Seq<AstV>,
    body: Seq<AstV>,
) -> Seq<MacroEntryV> {
    if spec_macro_defined(macros, name) {
        macros
    } else {
        macros.push(MacroEntryV { name, params, body })
    }
}

/// The first macro entry named `name`, front to back.
pub open spec fn spec_find_macro(macros: Seq<MacroEntryV>, name: Seq<char>) -> Option<MacroEntryV>
    decreases macros.len(),
{
    if macros.len() == 0 {
        None
    } else if macros[0].name == name {
        Some(macros[0])
    } else {
        spec_find_macro(macros.drop_first(), name)
    }
}

/// The model of `parse_symbol`: consumes one token and yields its name when
/// it is a symbol, the error otherwise.
pub open spec fn spec_parse_symbol(s: ParserV) -> (ParserV, Result<Seq<char>, ParseErrorV>) {
    if at_end(s) {
        (s, Err(spec_error_at(s, "Expected symbol"@)))
    } else {
        let s2 = adv(s);
        match cur(s).token_type {
            TokenTypeV::Symbol(name) => (s2, Ok(name)),
            _ => (s2, Err(spec_error_at(s2, "Expected symbol"@))),
        }
    }
}

/// The model of `parse_reader_macro`: unquote and splice are recognized but
/// not supported yet, so each fails with a dedicated error rather than
/// aborting.
pub open spec fn spec_parse_reader_macro(s: ParserV, reader: Seq<char>) -> (
    ParserV,
    Result<AstV, ParseErrorV>,
) {
    if reader == ","@ {
        (s, Err(spec_error_at(s, "Unsupported construct: unquote"@)))
    } else if reader == "@"@ {
        (s, Err(spec_error_at(s, "Unsupported construct: splice"@)))
    } else {
        (s, Err(spec_error_at(s, "Unsupported construct: reader macro"@)))
    }
}

/// The model of `parse_atom`: consumes one token and maps it to its literal
/// or symbol node; a quote token recursively wraps the next expression.
pub open spec fn spec_parse_atom(s: ParserV) -> (ParserV, Result<AstV, ParseErrorV>)
    decreases remaining(s), 1int,
{
    if at_end(s) {
        (s, Err(spec_error_at(s, "Unexpected end of input"@)))
    } else {
        let s2 = adv(s);
        match cur(s).token_type {
            TokenTypeV::Int32(v) => (s2, Ok(AstV::Int32(v))),
            TokenTypeV::Float32(x) => (s2, Ok(AstV::Float32(x))),
            TokenTypeV::Bool(b) => (s2, Ok(AstV::Bool(b))),
            TokenTypeV::Symbol(x) => (s2, Ok(AstV::Symbol(x))),
            TokenTypeV::Keyword(x) => (s2, Ok(AstV::Keyword(x))),
            TokenTypeV::String(x) => (s2, Ok(AstV::StringLiteral(x))),
            TokenTypeV::Character(c) => (s2, Ok(AstV::Character(c))),
            TokenTypeV::Quote => {
                let (s3, r) = spec_parse_expression(s2);
                match r {
                    Ok(e) => (s3, Ok(AstV::Quote(Box::new(e)))),
                    Err(e) => (s3, Err(e)),
                }
            },
            TokenTypeV::ReaderMacro(v) => spec_parse_reader_macro(s2, v),
            _ => (s2, Err(spec_error_at(s2, "Unexpected token"@))),
        }
    }
}

/// The model of `parse_expression`: a `(` opens a list; anything else is an
/// atom.
pub open spec fn spec_parse_expression(s: ParserV) -> (ParserV, Result<AstV, ParseErrorV>)
    decreases remaining(s), 2int,
{
    if !at_end(s) && cur(s).token_type is LeftParen {
        spec_parse_list(adv(s))
    } else {
        spec_parse_atom(s)
    }
}

/// The model of the element loop of `parse_list`: elements until a `)` or the
/// end of input. Inside a list, `def` builds a variable binding, the keyword
/// atom `:quote` wraps the next expression, and a quasiquote marker defers
/// the next expression into the template table.
pub open spec fn spec_list_elems(s: ParserV) -> (ParserV, Result<Seq<AstV>, ParseErrorV>)
    decreases remaining(s), 3int,
{
    if at_end(s) || cur(s).token_type is RightParen {
        (s, Ok(Seq::empty()))
    } else if cur(s).token_type is Var {
        let s1 = adv(s);
        let (s2, rname) = spec_parse_symbol(s1);
        match rname {
            Err(e) => (s2, Err(e)),
            Ok(name) => {
                let (s3, rdef) = spec_parse_definition(s2, name);
                match rdef {
                    Err(e) => (s3, Err(e)),
                    Ok(node) => {
                        let (s4, rrest) = spec_list_elems(bump(s, s3));
                        match rrest {
                            Err(e) => (s4, Err(e)),
                            Ok(rest) => (s4, Ok(seq![node] + rest)),
                        }
                    },
                }
            },
        }
    } else if cur(s).token_type matches TokenTypeV::Keyword(k) && k == "quote"@ {
        let s1 = adv(s);
        let (s2, r) = spec_parse_expression(s1);
        match r {
            Err(e) => (s2, Err(e)),
            Ok(e) => {
                let (s3, rrest) = spec_list_elems(bump(s, s2));
                match rrest {
                    Err(e2) => (s3, Err(e2)),
                    Ok(rest) => (s3, Ok(seq![AstV::Quote(Box::new(e))] + rest)),
                }
            },
        }
    } else if cur(s).token_type matches TokenTypeV::ReaderMacro(m) && m == "`"@ {
        let s1 = adv(s);
        let (s2, r) = spec_parse_macro_template(s1);
        match r {
            Err(e) => (s2, Err(e)),
            Ok(t) => {
                let (s3, rrest) = spec_list_elems(bump(s, s2));
                match rrest {
                    Err(e2) => (s3, Err(e2)),
                    Ok(rest) => (s3, Ok(seq![AstV::Quote(Box::new(t))] + rest)),
                }
            },
        }
    } else {
        let (s2, r) = spec_parse_expression(s);
        match r {
            Err(e) => (s2, Err(e)),
            Ok(node) => {
                let (s3, rrest) = spec_list_elems(bump(s, s2));
                match rrest {
                    Err(e2) => (s3, Err(e2)),
                    Ok(rest) => (s3, Ok(seq![node] + rest)),
                }
            },
        }
    }
}

/// The model of `parse_list`: the elements, then the closing `)`. A list of
/// exactly one variable binding collapses to that binding: a definition is
/// not wrapped in an extra list layer.
pub open spec fn spec_parse_list(s: ParserV) -> (ParserV, Result<AstV, ParseErrorV>)
    decreases remaining(s), 4int,
{
    let (s2, r) = spec_list_elems(s);
    match r {
        Err(e) => (s2, Err(e)),
        Ok(elems) => {
            if !(!at_end(s2) && cur(s2).token_type is RightParen) {
                (s2, Err(spec_error_at(s2, "Expected ')' at the end of list"@)))
            } else {
                let s3 = adv(s2);
                if elems.len() == 1 && elems[0] is Variable {
                    (s3, Ok(elems[0]))
                } else {
                    (s3, Ok(AstV::List(elems)))
                }
            }
        },
    }
}

/// The model of `parse_definition`: after `def <name>`, either a nested
/// `(fn (<params>) <body>)` function literal or a bare atom value, wrapped in
/// a `Variable` binding.
pub open spec fn spec_parse_definition(s: ParserV, name: Seq<char>) -> (
    ParserV,
    Result<AstV, ParseErrorV>,
)
    decreases remaining(s), 2int,
{
    if !at_end(s) && cur(s).token_type is LeftParen {
        let s1 = adv(s);
        if !at_end(s1) && cur(s1).token_type is Func {
            let s2 = adv(s1);
            let (s3, r) = spec_parse_function_definition(s2);
            match r {
                Ok(ast) => (s3, Ok(AstV::Variable(name, Box::new(ast)))),
                Err(e) => (s3, Err(e)),
            }
        } else {
            (s1, Err(spec_error_at(s1, "Expected 'fn' after '('"@)))
        }
    } else {
        let (s2, r) = spec_parse_atom(s);
        match r {
            Ok(ast) => (s2, Ok(AstV::Variable(name, Box::new(ast)))),
            Err(e) => (s2, Err(e)),
        }
    }
}

/// The model of the body loop shared by function and macro definitions:
/// expressions until a `)` or the end of input.
pub open spec fn spec_body_elems(s: ParserV) -> (ParserV, Result<Seq<AstV>, ParseErrorV>)
    decreases remaining(s), 3int,
{
    if at_end(s) || cur(s).token_type is RightParen {
        (s, Ok(Seq::empty()))
    } else {
        let (s1, r) = spec_parse_expression(s);
        match r {
            Err(e) => (s1, Err(e)),
            Ok(e) => {
                let (s2, rrest) = spec_body_elems(bump(s, s1));
                match rrest {
                    Err(e2) => (s2, Err(e2)),
                    Ok(rest) => (s2, Ok(seq![e] + rest)),
                }
            },
        }
    }
}

/// The model of `parse_function_definition`: the parameter list, then the
/// body forms, then the closing `)`.
pub open spec fn spec_parse_function_definition(s: ParserV) -> (ParserV, Result<AstV, ParseErrorV>)
    decreases remaining(s), 4int,
{
    let (s1, r) = spec_parse_arg_list(s);
    match r {
        Err(e) => (s1, Err(e)),
        Ok(params) => {
            let (s2, r2) = spec_body_elems(bump(s, s1));
            match r2 {
                Err(e) => (s2, Err(e)),
                Ok(body) => {
                    if !(!at_end(s2) && cur(s2).token_type is RightParen) {
                        (s2, Err(spec_error_at(s2, "Expected ')' to close function body"@)))
                    } else {
                        (adv(s2), Ok(AstV::FuncDef(params, body)))
                    }
                },
            }
        },
    }
}

/// The model of the symbol loop of `parse_arg_list`: bare symbols until a `)`
/// or the end of input.
pub open spec fn spec_args(s: ParserV) -> (ParserV, Result<Seq<AstV>, ParseErrorV>)
    decreases remaining(s),
{
    if at_end(s) || cur(s).token_type is RightParen {
        (s, Ok(Seq::empty()))
    } else {
        let (s1, r) = spec_parse_symbol(s);
        match r {
            Err(e) => (s1, Err(e)),
            Ok(name) => {
                let (s2, rrest) = spec_args(s1);
                match rrest {
                    Err(e2) => (s2, Err(e2)),
                    Ok(rest) => (s2, Ok(seq![AstV::Symbol(name)] + rest)),
                }
            },
        }
    }
}

/// The model of `parse_arg_list`: a literal `(`, zero or more bare symbols,
/// then `)`.
pub open spec fn spec_parse_arg_list(s: ParserV) -> (ParserV, Result<Seq<AstV>, ParseErrorV>) {
    if !(!at_end(s) && cur(s).token_type is LeftParen) {
        (s, Err(spec_error_at(s, "Expected '(' to start argument list"@)))
    } else {
        let (s2, r) = spec_args(adv(s));
        match r {
            Err(e) => (s2, Err(e)),
            Ok(params) => {
                if !(!at_end(s2) && cur(s2).token_type is RightParen) {
                    (s2, Err(spec_error_at(s2, "Expected ')' to close argument list"@)))
                } else {
                    (adv(s2), Ok(params))
                }
            },
        }
    }
}

/// The model of `parse_macro_template`: parses one expression, defers it into
/// the template table under the next free handle, and yields the handle.
/// Handles are the table's indices, so they are never reused within a parse.
pub open spec fn spec_parse_macro_template(s: ParserV) -> (ParserV, Result<AstV, ParseErrorV>)
    decreases remaining(s), 3int,
{
    let (s1, r) = spec_parse_expression(s);
    match r {
        Err(e) => (s1, Err(e)),
        Ok(ast) => {
            let id = s1.template.len();
            let s2 = ParserV { template: s1.template.push(ast), ..s1 };
            (s2, Ok(AstV::MacroTemplate(id)))
        },
    }
}

/// The model of `parse_macro_definition`: after `( macro <name>`, the
/// parameter list, the body forms and the closing `)`; on success the triple
/// is registered in the macro table (first definition wins) and a lightweight
/// `MacroDef` reference node is produced.
pub open spec fn spec_parse_macro_definition(s: ParserV, name: Seq<char>) -> (
    ParserV,
    Result<AstV, ParseErrorV>,
) {
    let (s1, r) = spec_parse_arg_list(s);
    match r {
        Err(e) => (s1, Err(e)),
        Ok(params) => {
            let (s2, r2) = spec_body_elems(s1);
            match r2 {
                Err(e) => (s2, Err(e)),
                Ok(body) => {
                    if !(!at_end(s2) && cur(s2).token_type is RightParen) {
                        (s2, Err(spec_error_at(s2, "Expected ')' to close macro body"@)))
                    } else {
                        let s3 = adv(s2);
                        let s4 = ParserV {
                            macros: spec_register_macro(s3.macros, name, params, body),
                            ..s3
                        };
                        (s4, Ok(AstV::MacroDef(name)))
                    }
                },
            }
        },
    }
}

/// The model of the top-level loop of `parse`: one node per top-level form,
/// recognizing `( macro ...)` definitions by two tokens of lookahead; a
/// failed form records its error and the loop resumes at whatever position
/// the failure left behind.
pub open spec fn spec_program(s: ParserV) -> (ParserV, Seq<AstV>)
    decreases remaining(s),
{
    if at_end(s) {
        (s, Seq::empty())
    } else if cur(s).token_type is LeftParen && s.current + 1 < s.tokens.len()
        && cur_next(s).token_type is Macro {
        let s1 = adv(adv(s));
        let (s2, rname) = spec_parse_symbol(s1);
        match rname {
            Err(e) => {
                let s3 = ParserV { errors: s2.errors.push(e), ..s2 };
                spec_program(bump(s, s3))
            },
            Ok(name) => {
                let (s3, rdef) = spec_parse_macro_definition(s2, name);
                match rdef {
                    Ok(node) => {
                        let (s4, nodes) = spec_program(bump(s, s3));
                        (s4, seq![node] + nodes)
                    },
                    Err(e) => {
                        let s4 = ParserV { errors: s3.errors.push(e), ..s3 };
                        spec_program(bump(s, s4))
                    },
                }
            },
        }
    } else {
        let (s2, r) = spec_parse_expression(s);
        match r {
            Ok(node) => {
                let (s3, nodes) = spec_program(bump(s, s2));
                (s3, seq![node] + nodes)
            },
            Err(e) => {
                let s3 = ParserV { errors: s2.errors.push(e), ..s2 };
                spec_program(bump(s, s3))
            },
        }
    }
}

/// What `parse` returns: the `Program` root when no error was recorded,
/// otherwise every error, in order of discovery.
pub open spec fn spec_parse_result(s: ParserV) -> Result<AstV, Seq<ParseErrorV>> {
    let (s2, nodes) = spec_program(s);
    if s2.errors.len() == 0 {
        Ok(AstV::Program(nodes))
    } else {
        Err(s2.errors)
    }
}

/// The parser: the token vector (borrowed logically, never mutated), a
/// monotonic cursor, the macro and template tables populated as a side effect
/// of parsing, and the errors found so far. Created once per token stream and
/// consumed by a single [`Parser::parse`] call.
#[derive(Debug)]
pub struct Parser {
    tokens: Vec<Token>,
    current: usize,
    macros: Vec<MacroEntry>,
    template: Vec<ASTNode>,
    errors: Vec<ParseError>,
}

impl View for Parser {
    type V = ParserV;

    closed spec fn view(&self) -> ParserV {
        ParserV {
            tokens: self.tokens.deep_view(),
            current: self.current as nat,
            macros: self.macros.deep_view(),
            template: self.template.deep_view(),
            errors: self.errors.deep_view(),
        }
    }
}

impl Parser {
    /// A fresh parser over `tokens`: cursor at the start, both tables and the
    /// error list empty.
    pub fn new(tokens: Vec<Token>) -> (p: Self)
        ensures
            p@.tokens == tokens.deep_view(),
            p@.current == 0,
            p@.macros == Seq::<MacroEntryV>::empty(),
            p@.template == Seq::<AstV>::empty(),
            p@.errors == Seq::<ParseErrorV>::empty(),
    {
        let p = Parser {
            tokens,
            current: 0,
            macros: Vec::new(),
            template: Vec::new(),
            errors: Vec::new(),
        };
        proof {
            assert(p@.macros =~= Seq::<MacroEntryV>::empty());
            assert(p@.template =~= Seq::<AstV>::empty());
            assert(p@.errors =~= Seq::<ParseErrorV>::empty());
        }
        p
    }

    fn is_at_end(&self) -> (r: bool)
        ensures
            r == at_end(self@),
    {
        self.current >= self.tokens.len()
    }

    fn advance(&mut self)
        ensures
            final(self)@ == adv(old(self)@),
    {
        proof {
            assert(self@.tokens.len() == self.tokens@.len());
        }
        if self.current < self.tokens.len() {
            self.current = self.current + 1;
        }
    }

    /// The error for `message` at the lookahead token's position, or at line
    /// 0, column 0 when the input is exhausted.
    fn error(&self, message: &str) -> (e: ParseError)
        ensures
            e.deep_view() == spec_error_at(self@, message@),
    {
        if self.current < self.tokens.len() {
            let t = &self.tokens[self.current];
            ParseError::new(message, t.line, t.column)
        } else {
            ParseError::new(message, 0, 0)
        }
    }

    fn at_left_paren(&self) -> (r: bool)
        ensures
            r == (!at_end(self@) && cur(self@).token_type is LeftParen),
    {
        self.current < self.tokens.len() && match &self.tokens[self.current].token_type {
            TokenType::LeftParen => true,
            _ => false,
        }
    }

    fn at_right_paren(&self) -> (r: bool)
        ensures
            r == (!at_end(self@) && cur(self@).token_type is RightParen),
    {
        self.current < self.tokens.len() && match &self.tokens[self.current].token_type {
            TokenType::RightParen => true,
            _ => false,
        }
    }

    fn at_var(&self) -> (r: bool)
        ensures
            r == (!at_end(self@) && cur(self@).token_type is Var),
    {
        self.current < self.tokens.len() && match &self.tokens[self.current].token_type {
            TokenType::Var => true,
            _ => false,
        }
    }

    fn at_func(&self) -> (r: bool)
        ensures
            r == (!at_end(self@) && cur(self@).token_type is Func),
    {
        self.current < self.tokens.len() && match &self.tokens[self.current].token_type {
            TokenType::Func => true,
            _ => false,
        }
    }

    fn at_keyword_quote(&self) -> (r: bool)
        ensures
            r == (!at_end(self@) && (cur(self@).token_type matches TokenTypeV::Keyword(k) && k
                == "quote"@)),
    {
        self.current < self.tokens.len() && match &self.tokens[self.current].token_type {
            TokenType::Keyword(k) => *k == String::from_str("quote"),
            _ => false,
        }
    }

    fn at_backtick(&self) -> (r: bool)
        ensures
            r == (!at_end(self@) && (cur(self@).token_type matches TokenTypeV::ReaderMacro(m) && m
                == "`"@)),
    {
        self.current < self.tokens.len() && match &self.tokens[self.current].token_type {
            TokenType::ReaderMacro(m) => *m == String::from_str("`"),
            _ => false,
        }
    }

    /// The two-token lookahead that tells a `( macro ...)` definition apart
    /// from every other form.
    fn at_macro_form(&self) -> (r: bool)
        ensures
            r == (!at_end(self@) && cur(self@).token_type is LeftParen && self@.current + 1
                < self@.tokens.len() && cur_next(self@).token_type is Macro),
    {
        proof {
            assert(self@.tokens.len() == self.tokens@.len());
        }
        let n = self.tokens.len();
        if self.current < n && n - self.current >= 2 {
            let c0 = match &self.tokens[self.current].token_type {
                TokenType::LeftParen => true,
                _ => false,
            };
            let c1 = match &self.tokens[self.current + 1].token_type {
                TokenType::Macro => true,
                _ => false,
            };
            c0 && c1
        } else {
            false
        }
    }

    /// Consumes one token; yields its name when it is a symbol, the error
    /// otherwise.
    fn parse_symbol(&mut self) -> (r: Result<String, ParseError>)
        ensures
            ({
                let (s2, rs) = spec_parse_symbol(old(self)@);
                &&& final(self)@ == s2
                &&& final(self)@.tokens == old(self)@.tokens
                &&& old(self)@.current <= final(self)@.current
                &&& !at_end(old(self)@) ==> final(self)@.current > old(self)@.current
                &&& match (r, rs) {
                    (Ok(name), Ok(nv)) => name@ == nv,
                    (Err(e), Err(ev)) => e.deep_view() == ev,
                    _ => false,
                }
            }),
    {
        if self.is_at_end() {
            return Err(self.error("Expected symbol"));
        }
        match &self.tokens[self.current].token_type {
            TokenType::Symbol(name) => {
                let name = name.clone();
                self.advance();
                Ok(name)
            },
            _ => {
                self.advance();
                Err(self.error("Expected symbol"))
            },
        }
    }

    /// Unquote and splice are recognized but not supported yet: each fails
    /// with a dedicated error rather than aborting.
    fn parse_reader_macro(&mut self, reader: String) -> (r: ParseResult<ASTNode>)
        ensures
            ({
                let (s2, rs) = spec_parse_reader_macro(old(self)@, reader@);
                &&& final(self)@ == s2
                &&& match (r, rs) {
                    (Ok(n), Ok(nv)) => ast_view(n) == nv,
                    (Err(e), Err(ev)) => e.deep_view() == ev,
                    _ => false,
                }
            }),
    {
        if reader == String::from_str(",") {
            self.parse_macro_comma()
        } else if reader == String::from_str("@") {
            self.parse_macro_expand()
        } else {
            Err(self.error("Unsupported construct: reader macro"))
        }
    }

    /// The unquote placeholder: parsing it is not supported yet.
    fn parse_macro_comma(&mut self) -> (r: ParseResult<ASTNode>)
        ensures
            final(self)@ == old(self)@,
            r matches Err(e) && e.deep_view() == spec_error_at(
                old(self)@,
                "Unsupported construct: unquote"@,
            ),
    {
        Err(self.error("Unsupported construct: unquote"))
    }

    /// The splice placeholder: parsing it is not supported yet.
    fn parse_macro_expand(&mut self) -> (r: ParseResult<ASTNode>)
        ensures
            final(self)@ == old(self)@,
            r matches Err(e) && e.deep_view() == spec_error_at(
                old(self)@,
                "Unsupported construct: splice"@,
            ),
    {
        Err(self.error("Unsupported construct: splice"))
    }

    /// Consumes one token and maps it to its literal or symbol node; a quote
    /// token recursively wraps the next expression, as [`spec_parse_atom`]
    /// says.
    fn parse_atom(&mut self) -> (r: ParseResult<ASTNode>)
        ensures
            ({
                let (s2, rs) = spec_parse_atom(old(self)@);
                &&& final(self)@ == s2
                &&& final(self)@.tokens == old(self)@.tokens
                &&& old(self)@.current <= final(self)@.current
                &&& !at_end(old(self)@) ==> final(self)@.current > old(self)@.current
                &&& match (r, rs) {
                    (Ok(n), Ok(nv)) => ast_view(n) == nv,
                    (Err(e), Err(ev)) => e.deep_view() == ev,
                    _ => false,
                }
            }),
        decreases remaining(self@), 1int,
    {
        if self.is_at_end() {
            return Err(self.error("Unexpected end of input"));
        }
        match &self.tokens[self.current].token_type {
            TokenType::Int32(v) => {
                let node = ASTNode::Int32(*v);
                self.advance();
                Ok(node)
            },
            TokenType::Float32(x) => {
                let node = ASTNode::Float32(x.clone());
                self.advance();
                Ok(node)
            },
            TokenType::Bool(b) => {
                let node = ASTNode::Bool(*b);
                self.advance();
                Ok(node)
            },
            TokenType::Symbol(x) => {
                let node = ASTNode::Symbol(x.clone());
                self.advance();
                Ok(node)
            },
            TokenType::Keyword(x) => {
                let node = ASTNode::Keyword(x.clone());
                self.advance();
                Ok(node)
            },
            TokenType::String(x) => {
                let node = ASTNode::StringLiteral(x.clone());
                self.advance();
                Ok(node)
            },
            TokenType::Character(c) => {
                let node = ASTNode::Character(*c);
                self.advance();
                Ok(node)
            },
            TokenType::Quote => {
                self.advance();
                match self.parse_expression() {
                    Ok(e) => Ok(ASTNode::Quote(Box::new(e))),
                    Err(e) => Err(e),
                }
            },
            TokenType::ReaderMacro(m) => {
                let reader = m.clone();
                self.advance();
                self.parse_reader_macro(reader)
            },
            _ => {
                self.advance();
                Err(self.error("Unexpected token"))
            },
        }
    }

    /// A `(` opens a list; anything else is an atom, as
    /// [`spec_parse_expression`] says.
    fn parse_expression(&mut self) -> (r: ParseResult<ASTNode>)
        ensures
            ({
                let (s2, rs) = spec_parse_expression(old(self)@);
                &&& final(self)@ == s2
                &&& final(self)@.tokens == old(self)@.tokens
                &&& old(self)@.current <= final(self)@.current
                &&& !at_end(old(self)@) ==> final(self)@.current > old(self)@.current
                &&& match (r, rs) {
                    (Ok(n), Ok(nv)) => ast_view(n) == nv,
                    (Err(e), Err(ev)) => e.deep_view() == ev,
                    _ => false,
                }
            }),
        decreases remaining(self@), 2int,
    {
        if self.at_left_paren() {
            self.advance();
            self.parse_list()
        } else {
            self.parse_atom()
        }
    }

    /// The element loop of `parse_list`, as [`spec_list_elems`] says: parsed
    /// elements are appended to `elements` until a `)` or the end of input.
    fn parse_list_elements(&mut self, elements: &mut Vec<ASTNode>) -> (r: Result<(), ParseError>)
        ensures
            ({
                let (s2, rs) = spec_list_elems(old(self)@);
                &&& final(self)@ == s2
                &&& final(self)@.tokens == old(self)@.tokens
                &&& old(self)@.current <= final(self)@.current
                &&& match (r, rs) {
                    (Ok(()), Ok(elems)) => final(elements).deep_view() == old(
                        elements,
                    ).deep_view() + elems,
                    (Err(e), Err(ev)) => e.deep_view() == ev,
                    _ => false,
                }
            }),
        decreases remaining(self@), 3int,
    {
        let ghost s0 = self@;
        if self.at_right_paren() || self.is_at_end() {
            proof {
                assert(elements.deep_view() =~= old(elements).deep_view() + Seq::<
                    AstV,
                >::empty());
            }
            return Ok(());
        }
        if self.at_var() {
            self.advance();
            match self.parse_symbol() {
                Err(e) => Err(e),
                Ok(name) => match self.parse_definition(name) {
                    Err(e) => Err(e),
                    Ok(node) => {
                        let ghost nv = ast_view(node);
                        elements.push(node);
                        proof {
                            assert(elements.deep_view() =~= old(elements).deep_view() + seq![nv]);
                            assert(bump(s0, self@) == self@);
                        }
                        let r = self.parse_list_elements(elements);
                        proof {
                            if r is Ok {
                                let rest = spec_list_elems(bump(s0, spec_parse_definition(
                                    spec_parse_symbol(adv(s0)).0,
                                    spec_parse_symbol(adv(s0)).1->Ok_0,
                                ).0)).1->Ok_0;
                                assert(elements.deep_view() =~= old(elements).deep_view() + (
                                seq![nv] + rest));
                            }
                        }
                        r
                    },
                },
            }
        } else if self.at_keyword_quote() {
            self.advance();
            match self.parse_expression() {
                Err(e) => Err(e),
                Ok(e) => {
                    let node = ASTNode::Quote(Box::new(e));
                    let ghost nv = ast_view(node);
                    elements.push(node);
                    proof {
                        assert(elements.deep_view() =~= old(elements).deep_view() + seq![nv]);
                        assert(bump(s0, self@) == self@);
                    }
                    let r = self.parse_list_elements(elements);
                    proof {
                        if r is Ok {
                            let rest = spec_list_elems(bump(s0, spec_parse_expression(
                                adv(s0),
                            ).0)).1->Ok_0;
                            assert(elements.deep_view() =~= old(elements).deep_view() + (seq![nv]
                                + rest));
                        }
                    }
                    r
                },
            }
        } else if self.at_backtick() {
            self.advance();
            match self.parse_macro_template() {
                Err(e) => Err(e),
                Ok(t) => {
                    let node = ASTNode::Quote(Box::new(t));
                    let ghost nv = ast_view(node);
                    elements.push(node);
                    proof {
                        assert(elements.deep_view() =~= old(elements).deep_view() + seq![nv]);
                        assert(bump(s0, self@) == self@);
                    }
                    let r = self.parse_list_elements(elements);
                    proof {
                        if r is Ok {
                            let rest = spec_list_elems(bump(s0, spec_parse_macro_template(
                                adv(s0),
                            ).0)).1->Ok_0;
                            assert(elements.deep_view() =~= old(elements).deep_view() + (seq![nv]
                                + rest));
                        }
                    }
                    r
                },
            }
        } else {
            match self.parse_expression() {
                Err(e) => Err(e),
                Ok(node) => {
                    let ghost nv = ast_view(node);
                    elements.push(node);
                    proof {
                        assert(elements.deep_view() =~= old(elements).deep_view() + seq![nv]);
                        assert(bump(s0, self@) == self@);
                    }
                    let r = self.parse_list_elements(elements);
                    proof {
                        if r is Ok {
                            let rest = spec_list_elems(bump(s0, spec_parse_expression(
                                s0,
                            ).0)).1->Ok_0;
                            assert(elements.deep_view() =~= old(elements).deep_view() + (seq![nv]
                                + rest));
                        }
                    }
                    r
                },
            }
        }
    }

    /// The elements, then the closing `)`; a list of exactly one variable
    /// binding collapses to that binding, as [`spec_parse_list`] says.
    fn parse_list(&mut self) -> (r: ParseResult<ASTNode>)
        ensures
            ({
                let (s2, rs) = spec_parse_list(old(self)@);
                &&& final(self)@ == s2
                &&& final(self)@.tokens == old(self)@.tokens
                &&& old(self)@.current <= final(self)@.current
                &&& match (r, rs) {
                    (Ok(n), Ok(nv)) => ast_view(n) == nv,
                    (Err(e), Err(ev)) => e.deep_view() == ev,
                    _ => false,
                }
            }),
        decreases remaining(self@), 4int,
    {
        let mut elements: Vec<ASTNode> = Vec::new();
        match self.parse_list_elements(&mut elements) {
            Err(e) => {
                return Err(e);
            },
            Ok(()) => {},
        }
        proof {
            assert(elements.deep_view() =~= spec_list_elems(old(self)@).1->Ok_0);
        }
        if !self.at_right_paren() {
            return Err(self.error("Expected ')' at the end of list"));
        }
        self.advance();
        if elements.len() == 1 {
            let is_var = match &elements[0] {
                ASTNode::Variable(_, _) => true,
                _ => false,
            };
            if is_var {
                let e = elements.pop().unwrap();
                return Ok(e);
            }
            proof {
                lemma_asts_view(elements@);
                assert(asts_view(elements@) =~= elements.deep_view());
            }
            return Ok(ASTNode::List(elements));
        }
        proof {
            lemma_asts_view(elements@);
            assert(asts_view(elements@) =~= elements.deep_view());
        }
        Ok(ASTNode::List(elements))
    }

    /// After `def <name>`: a nested `(fn ...)` literal or a bare atom value,
    /// wrapped in a `Variable` binding, as [`spec_parse_definition`] says.
    fn parse_definition(&mut self, name: String) -> (r: ParseResult<ASTNode>)
        ensures
            ({
                let (s2, rs) = spec_parse_definition(old(self)@, name@);
                &&& final(self)@ == s2
                &&& final(self)@.tokens == old(self)@.tokens
                &&& old(self)@.current <= final(self)@.current
                &&& match (r, rs) {
                    (Ok(n), Ok(nv)) => ast_view(n) == nv,
                    (Err(e), Err(ev)) => e.deep_view() == ev,
                    _ => false,
                }
            }),
        decreases remaining(self@), 2int,
    {
        if self.at_left_paren() {
            self.advance();
            if self.at_func() {
                self.advance();
                match self.parse_function_definition() {
                    Ok(ast) => Ok(ASTNode::Variable(name, Box::new(ast))),
                    Err(e) => Err(e),
                }
            } else {
                Err(self.error("Expected 'fn' after '('"))
            }
        } else {
            match self.parse_atom() {
                Ok(ast) => Ok(ASTNode::Variable(name, Box::new(ast))),
                Err(e) => Err(e),
            }
        }
    }

    /// The body loop shared by function and macro definitions, as
    /// [`spec_body_elems`] says.
    fn parse_body_elements(&mut self, body: &mut Vec<ASTNode>) -> (r: Result<(), ParseError>)
        ensures
            ({
                let (s2, rs) = spec_body_elems(old(self)@);
                &&& final(self)@ == s2
                &&& final(self)@.tokens == old(self)@.tokens
                &&& old(self)@.current <= final(self)@.current
                &&& match (r, rs) {
                    (Ok(()), Ok(elems)) => final(body).deep_view() == old(body).deep_view()
                        + elems,
                    (Err(e), Err(ev)) => e.deep_view() == ev,
                    _ => false,
                }
            }),
        decreases remaining(self@), 3int,
    {
        let ghost s0 = self@;
        if self.at_right_paren() || self.is_at_end() {
            proof {
                assert(body.deep_view() =~= old(body).deep_view() + Seq::<AstV>::empty());
            }
            return Ok(());
        }
        match self.parse_expression() {
            Err(e) => Err(e),
            Ok(node) => {
                let ghost nv = ast_view(node);
                body.push(node);
                proof {
                    assert(body.deep_view() =~= old(body).deep_view() + seq![nv]);
                    assert(bump(s0, self@) == self@);
                }
                let r = self.parse_body_elements(body);
                proof {
                    if r is Ok {
                        let rest = spec_body_elems(bump(s0, spec_parse_expression(s0).0)).1->Ok_0;
                        assert(body.deep_view() =~= old(body).deep_view() + (seq![nv] + rest));
                    }
                }
                r
            },
        }
    }

    /// The parameter list, the body forms, then the closing `)`, as
    /// [`spec_parse_function_definition`] says.
    fn parse_function_definition(&mut self) -> (r: ParseResult<ASTNode>)
        ensures
            ({
                let (s2, rs) = spec_parse_function_definition(old(self)@);
                &&& final(self)@ == s2
                &&& final(self)@.tokens == old(self)@.tokens
                &&& old(self)@.current <= final(self)@.current
                &&& match (r, rs) {
                    (Ok(n), Ok(nv)) => ast_view(n) == nv,
                    (Err(e), Err(ev)) => e.deep_view() == ev,
                    _ => false,
                }
            }),
        decreases remaining(self@), 4int,
    {
        let ghost s0 = self@;
        let params = match self.parse_arg_list() {
            Ok(p) => p,
            Err(e) => {
                return Err(e);
            },
        };
        proof {
            assert(bump(s0, self@) == self@);
        }
        let mut body: Vec<ASTNode> = Vec::new();
        match self.parse_body_elements(&mut body) {
            Err(e) => {
                return Err(e);
            },
            Ok(()) => {},
        }
        proof {
            assert(body.deep_view() =~= spec_body_elems(bump(s0, spec_parse_arg_list(
                s0,
            ).0)).1->Ok_0);
        }
        if !self.at_right_paren() {
            return Err(self.error("Expected ')' to close function body"));
        }
        self.advance();
        let node = ASTNode::FuncDef(params, body);
        proof {
            lemma_asts_view(node->FuncDef_0@);
            lemma_asts_view(node->FuncDef_1@);
            assert(asts_view(node->FuncDef_0@) =~= node->FuncDef_0.deep_view());
            assert(asts_view(node->FuncDef_1@) =~= node->FuncDef_1.deep_view());
        }
        Ok(node)
    }

    /// The symbol loop of `parse_arg_list`, as [`spec_args`] says.
    fn parse_arg_elements(&mut self, params: &mut Vec<ASTNode>) -> (r: Result<(), ParseError>)
        ensures
            ({
                let (s2, rs) = spec_args(old(self)@);
                &&& final(self)@ == s2
                &&& final(self)@.tokens == old(self)@.tokens
                &&& old(self)@.current <= final(self)@.current
                &&& match (r, rs) {
                    (Ok(()), Ok(elems)) => final(params).deep_view() == old(params).deep_view()
                        + elems,
                    (Err(e), Err(ev)) => e.deep_view() == ev,
                    _ => false,
                }
            }),
        decreases remaining(self@),
    {
        let ghost s0 = self@;
        if self.at_right_paren() || self.is_at_end() {
            proof {
                assert(params.deep_view() =~= old(params).deep_view() + Seq::<AstV>::empty());
            }
            return Ok(());
        }
        match self.parse_symbol() {
            Err(e) => Err(e),
            Ok(name) => {
                let node = ASTNode::Symbol(name);
                let ghost nv = ast_view(node);
                params.push(node);
                proof {
                    assert(params.deep_view() =~= old(params).deep_view() + seq![nv]);
                }
                let r = self.parse_arg_elements(params);
                proof {
                    if r is Ok {
                        let rest = spec_args(spec_parse_symbol(s0).0).1->Ok_0;
                        assert(params.deep_view() =~= old(params).deep_view() + (seq![nv] + rest));
                    }
                }
                r
            },
        }
    }

    /// A literal `(`, zero or more bare symbols, then `)`, as
    /// [`spec_parse_arg_list`] says.
    fn parse_arg_list(&mut self) -> (r: ParseResult<Vec<ASTNode>>)
        ensures
            ({
                let (s2, rs) = spec_parse_arg_list(old(self)@);
                &&& final(self)@ == s2
                &&& final(self)@.tokens == old(self)@.tokens
                &&& old(self)@.current <= final(self)@.current
                &&& r is Ok ==> final(self)@.current > old(self)@.current
                &&& match (r, rs) {
                    (Ok(p), Ok(pv)) => p.deep_view() == pv,
                    (Err(e), Err(ev)) => e.deep_view() == ev,
                    _ => false,
                }
            }),
    {
        if !self.at_left_paren() {
            return Err(self.error("Expected '(' to start argument list"));
        }
        self.advance();
        let mut params: Vec<ASTNode> = Vec::new();
        match self.parse_arg_elements(&mut params) {
            Err(e) => {
                return Err(e);
            },
            Ok(()) => {},
        }
        proof {
            assert(params.deep_view() =~= spec_args(adv(old(self)@)).1->Ok_0);
        }
        if !self.at_right_paren() {
            return Err(self.error("Expected ')' to close argument list"));
        }
        self.advance();
        Ok(params)
    }

    /// Parses one expression, defers it into the template table under the
    /// next free handle, and yields the handle, as
    /// [`spec_parse_macro_template`] says.
    fn parse_macro_template(&mut self) -> (r: ParseResult<ASTNode>)
        ensures
            ({
                let (s2, rs) = spec_parse_macro_template(old(self)@);
                &&& final(self)@ == s2
                &&& final(self)@.tokens == old(self)@.tokens
                &&& old(self)@.current <= final(self)@.current
                &&& match (r, rs) {
                    (Ok(n), Ok(nv)) => ast_view(n) == nv,
                    (Err(e), Err(ev)) => e.deep_view() == ev,
                    _ => false,
                }
            }),
        decreases remaining(self@), 3int,
    {
        match self.parse_expression() {
            Err(e) => Err(e),
            Ok(ast) => {
                let id = self.template.len();
                let ghost av = ast_view(ast);
                self.template.push(ast);
                proof {
                    assert(self@.template =~= spec_parse_expression(
                        old(self)@,
                    ).0.template.push(av));
                    assert(self@ =~= ParserV {
                        template: spec_parse_expression(old(self)@).0.template.push(av),
                        ..spec_parse_expression(old(self)@).0
                    });
                }
                Ok(ASTNode::MacroTemplate(id))
            },
        }
    }

    /// Whether the macro table already holds an entry named `name`.
    fn macro_defined(&self, name: &String) -> (r: bool)
        ensures
            r == spec_macro_defined(self@.macros, name@),
    {
        let mut i: usize = 0;
        while i < self.macros.len()
            invariant
                i <= self.macros@.len(),
                self@.macros.len() == self.macros@.len(),
                forall|k: int| 0 <= k < i ==> self@.macros[k].name != name@,
            decreases self.macros@.len() - i,
        {
            if self.macros[i].name == *name {
                proof {
                    assert(self@.macros[i as int].name == name@);
                }
                return true;
            }
            i = i + 1;
        }
        false
    }

    /// After `( macro <name>`: the parameter list, the body forms and the
    /// closing `)`; on success the triple is registered in the macro table
    /// (first definition wins), as [`spec_parse_macro_definition`] says.
    fn parse_macro_definition(&mut self, name: String) -> (r: ParseResult<ASTNode>)
        ensures
            ({
                let (s2, rs) = spec_parse_macro_definition(old(self)@, name@);
                &&& final(self)@ == s2
                &&& final(self)@.tokens == old(self)@.tokens
                &&& old(self)@.current <= final(self)@.current
                &&& match (r, rs) {
                    (Ok(n), Ok(nv)) => ast_view(n) == nv,
                    (Err(e), Err(ev)) => e.deep_view() == ev,
                    _ => false,
                }
            }),
    {
        let ghost s0 = self@;
        let params = match self.parse_arg_list() {
            Ok(p) => p,
            Err(e) => {
                return Err(e);
            },
        };
        let mut body: Vec<ASTNode> = Vec::new();
        match self.parse_body_elements(&mut body) {
            Err(e) => {
                return Err(e);
            },
            Ok(()) => {},
        }
        proof {
            assert(body.deep_view() =~= spec_body_elems(spec_parse_arg_list(s0).0).1->Ok_0);
        }
        if !self.at_right_paren() {
            return Err(self.error("Expected ')' to close macro body"));
        }
        self.advance();
        let ghost s3 = self@;
        let ghost pv = params.deep_view();
        let ghost bv = body.deep_view();
        let result_name = name.clone();
        if !self.macro_defined(&name) {
            let entry = MacroEntry { name, params, body };
            proof {
                assert(entry.deep_view() =~= MacroEntryV { name: name@, params: pv, body: bv })
                    by {
                    lemma_asts_view(entry.params@);
                    lemma_asts_view(entry.body@);
                    assert(asts_view(entry.params@) =~= entry.params.deep_view());
                    assert(asts_view(entry.body@) =~= entry.body.deep_view());
                };
            }
            self.macros.push(entry);
            proof {
                assert(self@.macros =~= s3.macros.push(
                    MacroEntryV { name: name@, params: pv, body: bv },
                ));
                assert(self@ =~= ParserV {
                    macros: spec_register_macro(s3.macros, name@, pv, bv),
                    ..s3
                });
            }
        } else {
            proof {
                assert(self@ =~= ParserV {
                    macros: spec_register_macro(s3.macros, name@, pv, bv),
                    ..s3
                });
            }
        }
        Ok(ASTNode::MacroDef(result_name))
    }

    /// The top-level loop: one node per top-level form; a failed form records
    /// its error and the loop resumes where the failure left the cursor, as
    /// [`spec_program`] says.
    fn parse_program(&mut self, nodes: &mut Vec<ASTNode>)
        ensures
            ({
                let (s2, ns) = spec_program(old(self)@);
                &&& final(self)@ == s2
                &&& final(nodes).deep_view() == old(nodes).deep_view() + ns
            }),
        decreases remaining(self@),
    {
        let ghost s0 = self@;
        if self.is_at_end() {
            proof {
                assert(nodes.deep_view() =~= old(nodes).deep_view() + Seq::<AstV>::empty());
            }
            return ;
        }
        if self.at_macro_form() {
            self.advance();
            self.advance();
            match self.parse_symbol() {
                Ok(name) => {
                    match self.parse_macro_definition(name) {
                        Ok(node) => {
                            let ghost nv = ast_view(node);
                            nodes.push(node);
                            proof {
                                assert(nodes.deep_view() =~= old(nodes).deep_view() + seq![nv]);
                                assert(bump(s0, self@) == self@);
                            }
                            self.parse_program(nodes);
                            proof {
                                let (s2x, rname) = spec_parse_symbol(adv(adv(s0)));
                                let rest = spec_program(bump(s0, spec_parse_macro_definition(
                                    s2x,
                                    rname->Ok_0,
                                ).0)).1;
                                assert(nodes.deep_view() =~= old(nodes).deep_view() + (seq![nv]
                                    + rest));
                            }
                        },
                        Err(err) => {
                            let ghost ev = err.deep_view();
                            self.errors.push(err);
                            proof {
                                let (s3, _) = spec_parse_macro_definition(
                                    spec_parse_symbol(adv(adv(s0))).0,
                                    spec_parse_symbol(adv(adv(s0))).1->Ok_0,
                                );
                                assert(self@.errors =~= s3.errors.push(ev));
                                assert(self@ =~= ParserV { errors: s3.errors.push(ev), ..s3 });
                                assert(bump(s0, self@) == self@);
                            }
                            self.parse_program(nodes);
                        },
                    }
                },
                Err(err) => {
                    let ghost ev = err.deep_view();
                    self.errors.push(err);
                    proof {
                        let (s2x, _) = spec_parse_symbol(adv(adv(s0)));
                        assert(self@.errors =~= s2x.errors.push(ev));
                        assert(self@ =~= ParserV { errors: s2x.errors.push(ev), ..s2x });
                        assert(bump(s0, self@) == self@);
                    }
                    self.parse_program(nodes);
                },
            }
        } else {
            match self.parse_expression() {
                Ok(node) => {
                    let ghost nv = ast_view(node);
                    nodes.push(node);
                    proof {
                        assert(nodes.deep_view() =~= old(nodes).deep_view() + seq![nv]);
                        assert(bump(s0, self@) == self@);
                    }
                    self.parse_program(nodes);
                    proof {
                        let rest = spec_program(bump(s0, spec_parse_expression(s0).0)).1;
                        assert(nodes.deep_view() =~= old(nodes).deep_view() + (seq![nv] + rest));
                    }
                },
                Err(err) => {
                    let ghost ev = err.deep_view();
                    self.errors.push(err);
                    proof {
                        let (s2x, _) = spec_parse_expression(s0);
                        assert(self@.errors =~= s2x.errors.push(ev));
                        assert(self@ =~= ParserV { errors: s2x.errors.push(ev), ..s2x });
                        assert(bump(s0, self@) == self@);
                    }
                    self.parse_program(nodes);
                },
            }
        }
    }

    /// A copy of the errors found so far, in order of discovery.
    fn clone_errors(&self) -> (r: Vec<ParseError>)
        ensures
            r.deep_view() == self@.errors,
    {
        let mut r: Vec<ParseError> = Vec::new();
        let mut i: usize = 0;
        proof {
            assert(r.deep_view() =~= self@.errors.subrange(0, 0));
        }
        while i < self.errors.len()
            invariant
                i <= self.errors@.len(),
                self@.errors.len() == self.errors@.len(),
                r.deep_view() == self@.errors.subrange(0, i as int),
            decreases self.errors@.len() - i,
        {
            let e = &self.errors[i];
            let copy = ParseError { message: e.message.clone(), line: e.line, column: e.column };
            r.push(copy);
            proof {
                assert(r.deep_view() =~= self@.errors.subrange(0, i as int).push(
                    self@.errors[i as int],
                ));
                assert(self@.errors.subrange(0, i as int).push(self@.errors[i as int])
                    =~= self@.errors.subrange(0, i as int + 1));
            }
            i = i + 1;
        }
        proof {
            assert(self@.errors.subrange(0, self@.errors.len() as int) =~= self@.errors);
        }
        r
    }

    /// Parses the whole token stream: one node per top-level form. Returns
    /// the completed `Program` root when no error was found, otherwise every
    /// error in order of discovery — exactly [`spec_parse_result`] of the
    /// parser's state.
    pub fn parse(&mut self) -> (r: Result<ASTNode, Vec<ParseError>>)
        ensures
            ({
                let (s2, ns) = spec_program(old(self)@);
                &&& final(self)@ == s2
                &&& match (r, spec_parse_result(old(self)@)) {
                    (Ok(node), Ok(nv)) => ast_view(node) == nv,
                    (Err(errs), Err(ev)) => errs.deep_view() == ev,
                    _ => false,
                }
            }),
    {
        let mut nodes: Vec<ASTNode> = Vec::new();
        self.parse_program(&mut nodes);
        proof {
            assert(nodes.deep_view() =~= spec_program(old(self)@).1);
        }
        if self.errors.len() == 0 {
            let node = ASTNode::Program(nodes);
            proof {
                lemma_asts_view(node->Program_0@);
                assert(asts_view(node->Program_0@) =~= node->Program_0.deep_view());
            }
            Ok(node)
        } else {
            Err(self.clone_errors())
        }
    }

    /// The first macro entry named `name` from position `i` on, front to
    /// back.
    fn find_macro_at(&self, name: &String, i: usize) -> (r: Option<&MacroEntry>)
        requires
            i <= self@.macros.len(),
        ensures
            match r {
                Some(m) => spec_find_macro(self@.macros.skip(i as int), name@) == Some(
                    m.deep_view(),
                ),
                None => spec_find_macro(self@.macros.skip(i as int), name@) is None,
            },
        decreases self@.macros.len() - i,
    {
        if i >= self.macros.len() {
            proof {
                assert(self@.macros.skip(i as int) =~= Seq::<MacroEntryV>::empty());
            }
            return None;
        }
        proof {
            assert(self@.macros.skip(i as int)[0] == self@.macros[i as int]);
        }
        if self.macros[i].name == *name {
            Some(&self.macros[i])
        } else {
            let r = self.find_macro_at(name, i + 1);
            proof {
                assert(self@.macros.skip(i as int).drop_first() =~= self@.macros.skip(
                    i as int + 1,
                ));
            }
            r
        }
    }

    /// The macro registered under `name`, if any: the first definition, which
    /// wins over any later one.
    pub fn get_macro(&self, name: &String) -> (r: Option<&MacroEntry>)
        ensures
            match r {
                Some(m) => spec_find_macro(self@.macros, name@) == Some(m.deep_view()),
                None => spec_find_macro(self@.macros, name@) is None,
            },
    {
        let r = self.find_macro_at(name, 0);
        proof {
            assert(self@.macros.skip(0) =~= self@.macros);
        }
        r
    }

    /// The deferred template registered under handle `id`, if any.
    pub fn get_template(&self, id: usize) -> (r: Option<&ASTNode>)
        ensures
            match r {
                Some(t) => id < self@.template.len() && t.deep_view() == self@.template[id as int],
                None => id >= self@.template.len(),
            },
    {
        if id < self.template.len() {
            Some(&self.template[id])
        } else {
            None
        }
    }
}

/// Law: the first definition of a macro name wins. Registering a second
/// definition under a name that the table already holds, whatever its
/// parameters and body, leaves the table exactly as the first registration
/// left it.
pub proof fn lemma_macro_first_definition_wins(
    macros: Seq<MacroEntryV>,
    name: Seq<char>,
    params1: Seq<AstV>,
    body1: Seq<AstV>,
    params2: Seq<AstV>,
    body2: Seq<AstV>,
)
    ensures
        spec_register_macro(
            spec_register_macro(macros, name, params1, body1),
            name,
            params2,
            body2,
        ) == spec_register_macro(macros, name, params1, body1),
{
    let m1 = spec_register_macro(macros, name, params1, body1);
    if !spec_macro_defined(macros, name) {
        assert(m1[macros.len() as int].name == name);
        assert(spec_macro_defined(m1, name));
    }
}

} // verus!
