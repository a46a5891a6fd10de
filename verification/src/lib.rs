//! Front end of a small Lisp-family language.
//!
//! The pipeline, leaves first: a token model ([`token`]), a lexical scanner
//! ([`scanner`]) that turns source text into tokens or a full list of lexical
//! errors, an abstract syntax tree ([`ast`]), a recursive-descent parser
//! ([`parser`]) that builds one `Program` root and registers macro and
//! quasiquote definitions in tables it owns, and the instruction set of the
//! register virtual machine that compiled programs target ([`opcode`]), with
//! its fixed four-byte big-endian tag encoding.
//!
//! The scanner and the parser are specified by recursive models of the
//! lexical grammar and of the expression grammar, and both are proved to
//! return exactly what their model says, for every input.

pub mod ast;
pub mod opcode;
pub mod parser;
pub mod parser_error;
pub mod scanner;
pub mod text;
pub mod token;
