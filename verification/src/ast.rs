//! The abstract syntax tree: a closed recursive set of node variants for
//! literals, symbols, lists, definitions and macro constructs. Each node
//! exclusively owns its children; the tree has no cycles and no shared
//! ownership.

use vstd::prelude::*;

verus! {

broadcast use vstd::std_specs::vec::group_vec_axioms, vstd::seq::axiom_seq_index_decreases;

/// A node of the abstract syntax tree.
///
/// A `Program` node only ever stands at the root of a tree. A `Float32`
/// literal carries the source text of the number. A `MacroDef` records only
/// the macro's name: the definition itself lives in the parser's macro table.
/// A `MacroTemplate` is an opaque handle into the parser's deferred-template
/// table, produced by a quasiquote. `MacroComma` and `MacroListExpand` are
/// the unquote and splice placeholders awaiting a macro-expansion pass.
#[derive(Debug, PartialEq)]
pub enum ASTNode {
    Program(Vec<ASTNode>),
    Int32(i32),
    Float32(String),
    Bool(bool),
    Nil,
    Symbol(String),
    Keyword(String),
    StringLiteral(String),
    Character(char),
    List(Vec<ASTNode>),
    Quote(Box<ASTNode>),
    Variable(String, Box<ASTNode>),
    FuncDef(Vec<ASTNode>, Vec<ASTNode>),
    MacroDef(String),
    MacroTemplate(usize),
    MacroComma(Box<ASTNode>),
    MacroListExpand(Box<ASTNode>),
}

/// The mathematical value of an [`ASTNode`]: the same variants over character
/// sequences and sequences of child values.
#[verifier::ext_equal]
pub enum AstV {
    Program(Seq<AstV>),
    Int32(i32),
    Float32(Seq<char>),
    Bool(bool),
    Nil,
    Symbol(Seq<char>),
    Keyword(Seq<char>),
    StringLiteral(Seq<char>),
    Character(char),
    List(Seq<AstV>),
    Quote(Box<AstV>),
    Variable(Seq<char>, Box<AstV>),
    FuncDef(Seq<AstV>, Seq<AstV>),
    MacroDef(Seq<char>),
    MacroTemplate(nat),
    MacroComma(Box<AstV>),
    MacroListExpand(Box<AstV>),
}

/// The mathematical value of an [`ASTNode`], child by child.
pub open spec fn ast_view(node: ASTNode) -> AstV
    decreases node,
{
    match node {
        ASTNode::Program(es) => AstV::Program(asts_view(es@)),
        ASTNode::Int32(v) => AstV::Int32(v),
        ASTNode::Float32(s) => AstV::Float32(s@),
        ASTNode::Bool(b) => AstV::Bool(b),
        ASTNode::Nil => AstV::Nil,
        ASTNode::Symbol(s) => AstV::Symbol(s@),
        ASTNode::Keyword(s) => AstV::Keyword(s@),
        ASTNode::StringLiteral(s) => AstV::StringLiteral(s@),
        ASTNode::Character(c) => AstV::Character(c),
        ASTNode::List(es) => AstV::List(asts_view(es@)),
        ASTNode::Quote(b) => AstV::Quote(Box::new(ast_view(*b))),
        ASTNode::Variable(name, b) => AstV::Variable(name@, Box::new(ast_view(*b))),
        ASTNode::FuncDef(params, body) => AstV::FuncDef(asts_view(params@), asts_view(body@)),
        ASTNode::MacroDef(name) => AstV::MacroDef(name@),
        ASTNode::MacroTemplate(id) => AstV::MacroTemplate(id as nat),
        ASTNode::MacroComma(b) => AstV::MacroComma(Box::new(ast_view(*b))),
        ASTNode::MacroListExpand(b) => AstV::MacroListExpand(Box::new(ast_view(*b))),
    }
}

/// The mathematical values of a sequence of nodes, in order.
pub open spec fn asts_view(s: Seq<ASTNode>) -> Seq<AstV>
    decreases s,
{
    if s.len() == 0 {
        Seq::empty()
    } else {
        seq![ast_view(s[0])] + asts_view(s.drop_first())
    }
}

/// [`asts_view`] maps [`ast_view`] over the sequence, position by position.
pub proof fn lemma_asts_view(s: Seq<ASTNode>)
    ensures
        asts_view(s).len() == s.len(),
        forall|i: int| 0 <= i < s.len() ==> asts_view(s)[i] == ast_view(#[trigger] s[i]),
    decreases s.len(),
{
    if s.len() > 0 {
        lemma_asts_view(s.drop_first());
        assert forall|i: int| 0 <= i < s.len() implies asts_view(s)[i] == ast_view(
            #[trigger] s[i],
        ) by {
            if i > 0 {
                assert(s.drop_first()[i - 1] == s[i]);
                assert(asts_view(s)[i] == asts_view(s.drop_first())[i - 1]);
            }
        }
    }
}

impl DeepView for ASTNode {
    type V = AstV;

    open spec fn deep_view(&self) -> AstV {
        ast_view(*self)
    }
}

} // verus!
