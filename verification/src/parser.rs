//! Predictive tree builder for the classified token stream.
//!
//! Every syntax node starts `Unpredicted` and commits to exactly one family
//! on the first token it is offered; committed families then route further
//! tokens through their own continuation logic: a block fills child
//! expressions until its closing bracket, a tuple fills child statements
//! until its closing bracket (a comma between two elements is consumed as a
//! separator), a unary operator fills its operand, an `if` consumes a
//! following `else`, an `upload` consumes a following `from`.  Promotion of
//! a closed operand plus a trailing infix operator into a binary-operator
//! node is deliberately not performed: the driver opens a fresh sibling node
//! instead, so a trailing operator commits a new unary node.  The whole
//! behaviour is the spec function `expand_spec` and the driver fold
//! `parse_run_spec`.
use vstd::prelude::*;
use crate::lexer::BlockSymbol;
use crate::lexer::FANGrammarToken;
use crate::lexer::FANReserved;
use crate::lexer::GTokV;
use crate::lexer::Operational;
use crate::lexer::gtoks_view;

verus! {

// ---------------------------------------------------------------------------
// Tree types
// ---------------------------------------------------------------------------

#[derive(Debug)]
pub struct TypeTemplate {}

#[derive(Debug)]
pub struct SingleName(String, Option<TypeTemplate>);

#[derive(Debug)]
pub enum Name {
    SingleName(SingleName),
    NamespaceName(Vec<SingleName>),
}

#[derive(Debug)]
pub struct Tuple {
    tuple: Vec<Statement>,
    closed: bool,
}

#[derive(Debug)]
pub enum Literal {
    /// Char
    Char(char),
    /// String
    String(String),
    /// castable to digital without a remainder of letters
    Digital(String),
    /// any numeric lexeme whose exact type is identified later
    NumericalLexem(String),
    /// the null literal
    NULL,
}

#[derive(Debug)]
pub struct Block {
    block: Vec<Expression>,
    closed: bool,
}

#[derive(Debug)]
pub enum Statement {
    /// char, string, digital or other numeric lexeme
    Literal(Literal),
    /// block of braced code
    Block(Box<Block>),
    /// variable or path to a name
    Name(Name),
    /// any expression in round brackets
    Tuple(Tuple),
}

#[derive(Debug)]
pub struct BinaryOperator {
    arg1: Expression,
    arg2: Expression,
    operator: Operational,
}

#[derive(Debug)]
pub struct UnaryOperator {
    arg: Expression,
    operator: Operational,
}

#[derive(Debug)]
pub enum ReturnableExp {
    Statement(Statement),
    FunctionCall(Statement, Tuple),
    AutomataCall,
    BinaryOperator(Box<BinaryOperator>),
    UnaryOperator(Box<UnaryOperator>),
    If,
    Match,
}

#[derive(Debug)]
pub enum ProceduralExp {
    For,
    While,
    Link,
}

#[derive(Debug)]
pub enum DefinitionExp {
    Function,
    Automata,
    AutomataState,
    Define,
}

#[derive(Debug)]
pub struct Imports {}

#[derive(Debug)]
pub enum ExpressionType {
    Import(Imports),
    Procedural(ProceduralExp),
    Returnable(ReturnableExp),
    Definition(DefinitionExp),
    Unpredicted,
}

#[derive(Debug)]
pub struct Expression {
    predict: ExpressionType,
    closed: bool,
}

#[derive(Debug)]
pub enum ParseError {
    Unexpected(FANGrammarToken),
}

pub struct Parser {}

// ---------------------------------------------------------------------------
// Spec mirror of the tree
// ---------------------------------------------------------------------------

pub ghost struct SingleNameV {
    pub name: Seq<char>,
    pub template: Option<TypeTemplate>,
}

pub ghost enum NameV {
    SingleName(SingleNameV),
    NamespaceName(Seq<SingleNameV>),
}

pub ghost enum LiteralV {
    Char(char),
    String(Seq<char>),
    Digital(Seq<char>),
    NumericalLexem(Seq<char>),
    NULL,
}

pub ghost struct TupleV {
    pub elems: Seq<StatementV>,
    pub closed: bool,
}

pub ghost struct BlockV {
    pub elems: Seq<ExpressionV>,
    pub closed: bool,
}

pub ghost enum StatementV {
    Literal(LiteralV),
    Block(Box<BlockV>),
    Name(NameV),
    Tuple(TupleV),
}

pub ghost struct BinaryOperatorV {
    pub arg1: Box<ExpressionV>,
    pub arg2: Box<ExpressionV>,
    pub operator: Seq<char>,
}

pub ghost struct UnaryOperatorV {
    pub arg: Box<ExpressionV>,
    pub operator: Seq<char>,
}

pub ghost enum ReturnableExpV {
    Statement(StatementV),
    FunctionCall(StatementV, TupleV),
    AutomataCall,
    BinaryOperator(Box<BinaryOperatorV>),
    UnaryOperator(Box<UnaryOperatorV>),
    If,
    Match,
}

pub ghost enum ExpressionTypeV {
    Import,
    Procedural(ProceduralExp),
    Returnable(ReturnableExpV),
    Definition(DefinitionExp),
    Unpredicted,
}

pub ghost struct ExpressionV {
    pub predict: ExpressionTypeV,
    pub closed: bool,
}

pub ghost enum ParseErrorV {
    Unexpected(GTokV),
}

/// The state of every node before its first token.
pub open spec fn unpredicted_v() -> ExpressionV {
    ExpressionV { predict: ExpressionTypeV::Unpredicted, closed: false }
}

// ---------------------------------------------------------------------------
// Views
// ---------------------------------------------------------------------------

pub closed spec fn single_name_view(n: SingleName) -> SingleNameV {
    SingleNameV { name: n.0@, template: n.1 }
}

pub closed spec fn name_view(n: Name) -> NameV {
    match n {
        Name::SingleName(s) => NameV::SingleName(single_name_view(s)),
        Name::NamespaceName(v) => NameV::NamespaceName(
            v@.map_values(|s: SingleName| single_name_view(s)),
        ),
    }
}

pub closed spec fn lit_view(l: Literal) -> LiteralV {
    match l {
        Literal::Char(c) => LiteralV::Char(c),
        Literal::String(s) => LiteralV::String(s@),
        Literal::Digital(s) => LiteralV::Digital(s@),
        Literal::NumericalLexem(s) => LiteralV::NumericalLexem(s@),
        Literal::NULL => LiteralV::NULL,
    }
}

pub closed spec fn expr_view(e: Expression) -> ExpressionV
    decreases e,
{
    ExpressionV { predict: etype_view(e.predict), closed: e.closed }
}

pub closed spec fn etype_view(p: ExpressionType) -> ExpressionTypeV
    decreases p,
{
    match p {
        ExpressionType::Import(_) => ExpressionTypeV::Import,
        ExpressionType::Procedural(x) => ExpressionTypeV::Procedural(x),
        ExpressionType::Returnable(r) => ExpressionTypeV::Returnable(ret_view(r)),
        ExpressionType::Definition(d) => ExpressionTypeV::Definition(d),
        ExpressionType::Unpredicted => ExpressionTypeV::Unpredicted,
    }
}

pub closed spec fn ret_view(r: ReturnableExp) -> ReturnableExpV
    decreases r,
{
    match r {
        ReturnableExp::Statement(s) => ReturnableExpV::Statement(stmt_view(s)),
        ReturnableExp::FunctionCall(s, tu) => ReturnableExpV::FunctionCall(
            stmt_view(s),
            tuple_view(tu),
        ),
        ReturnableExp::AutomataCall => ReturnableExpV::AutomataCall,
        ReturnableExp::BinaryOperator(b) => ReturnableExpV::BinaryOperator(
            Box::new(
                BinaryOperatorV {
                    arg1: Box::new(expr_view((*b).arg1)),
                    arg2: Box::new(expr_view((*b).arg2)),
                    operator: (*b).operator@,
                },
            ),
        ),
        ReturnableExp::UnaryOperator(u) => ReturnableExpV::UnaryOperator(
            Box::new(
                UnaryOperatorV { arg: Box::new(expr_view((*u).arg)), operator: (*u).operator@ },
            ),
        ),
        ReturnableExp::If => ReturnableExpV::If,
        ReturnableExp::Match => ReturnableExpV::Match,
    }
}

pub closed spec fn stmt_view(s: Statement) -> StatementV
    decreases s,
{
    match s {
        Statement::Literal(l) => StatementV::Literal(lit_view(l)),
        Statement::Block(b) => StatementV::Block(Box::new(block_view(*b))),
        Statement::Name(n) => StatementV::Name(name_view(n)),
        Statement::Tuple(tu) => StatementV::Tuple(tuple_view(tu)),
    }
}

pub closed spec fn block_view(b: Block) -> BlockV
    decreases b,
{
    BlockV { elems: exprs_view(b.block@), closed: b.closed }
}

pub closed spec fn tuple_view(t: Tuple) -> TupleV
    decreases t,
{
    TupleV { elems: stmts_view(t.tuple@), closed: t.closed }
}

pub closed spec fn exprs_view(s: Seq<Expression>) -> Seq<ExpressionV>
    decreases s,
{
    if s.len() == 0 {
        Seq::empty()
    } else {
        exprs_view(s.drop_last()).push(expr_view(s.last()))
    }
}

pub closed spec fn stmts_view(s: Seq<Statement>) -> Seq<StatementV>
    decreases s,
{
    if s.len() == 0 {
        Seq::empty()
    } else {
        stmts_view(s.drop_last()).push(stmt_view(s.last()))
    }
}

impl View for Expression {
    type V = ExpressionV;

    closed spec fn view(&self) -> ExpressionV {
        expr_view(*self)
    }
}

impl View for ParseError {
    type V = ParseErrorV;

    open spec fn view(&self) -> ParseErrorV {
        match *self {
            ParseError::Unexpected(ref t) => ParseErrorV::Unexpected(t@),
        }
    }
}

pub broadcast proof fn lemma_exprs_view_len(s: Seq<Expression>)
    ensures
        #[trigger] exprs_view(s).len() == s.len(),
    decreases s,
{
    if s.len() > 0 {
        lemma_exprs_view_len(s.drop_last());
    }
}

pub broadcast proof fn lemma_stmts_view_len(s: Seq<Statement>)
    ensures
        #[trigger] stmts_view(s).len() == s.len(),
    decreases s,
{
    if s.len() > 0 {
        lemma_stmts_view_len(s.drop_last());
    }
}

proof fn lemma_exprs_view_push(s: Seq<Expression>, x: Expression)
    ensures
        exprs_view(s.push(x)) == exprs_view(s).push(expr_view(x)),
{
    assert(s.push(x).drop_last() =~= s);
    assert(s.push(x).last() == x);
}

proof fn lemma_stmts_view_push(s: Seq<Statement>, x: Statement)
    ensures
        stmts_view(s.push(x)) == stmts_view(s).push(stmt_view(x)),
{
    assert(s.push(x).drop_last() =~= s);
    assert(s.push(x).last() == x);
}

/// Replacing the last element commutes with taking views.
proof fn lemma_exprs_view_update_last(s: Seq<Expression>, x: Expression)
    requires
        s.len() > 0,
    ensures
        exprs_view(s.drop_last().push(x)) == exprs_view(s).update(s.len() - 1, expr_view(x)),
{
    lemma_exprs_view_push(s.drop_last(), x);
    lemma_exprs_view_len(s);
    lemma_exprs_view_len(s.drop_last());
    assert(exprs_view(s).update(s.len() - 1, expr_view(x)) =~= exprs_view(s.drop_last()).push(
        expr_view(x),
    ));
}

proof fn lemma_stmts_view_update_last(s: Seq<Statement>, x: Statement)
    requires
        s.len() > 0,
    ensures
        stmts_view(s.drop_last().push(x)) == stmts_view(s).update(s.len() - 1, stmt_view(x)),
{
    lemma_stmts_view_push(s.drop_last(), x);
    lemma_stmts_view_len(s);
    lemma_stmts_view_len(s.drop_last());
    assert(stmts_view(s).update(s.len() - 1, stmt_view(x)) =~= stmts_view(s.drop_last()).push(
        stmt_view(x),
    ));
}

// ---------------------------------------------------------------------------
// Spec machine
// ---------------------------------------------------------------------------

/// First-token commitment: the one family a fresh node takes, or the exact
/// tokens on which a fresh node fails (`else`, `from`, an index bracket, any
/// closing bracket, a break marker).
pub open spec fn commit_spec(t: GTokV) -> Result<ExpressionV, ParseErrorV> {
    match t {
        GTokV::Name(n) => Ok(
            ExpressionV {
                predict: ExpressionTypeV::Returnable(
                    ReturnableExpV::Statement(
                        StatementV::Name(
                            NameV::SingleName(SingleNameV { name: n, template: None }),
                        ),
                    ),
                ),
                closed: false,
            },
        ),
        GTokV::Digital(d) => Ok(
            ExpressionV {
                predict: ExpressionTypeV::Returnable(
                    ReturnableExpV::Statement(StatementV::Literal(LiteralV::Digital(d))),
                ),
                closed: false,
            },
        ),
        GTokV::NumericalLexem(x) => Ok(
            ExpressionV {
                predict: ExpressionTypeV::Returnable(
                    ReturnableExpV::Statement(StatementV::Literal(LiteralV::NumericalLexem(x))),
                ),
                closed: false,
            },
        ),
        GTokV::CharLiteral(c) => Ok(
            ExpressionV {
                predict: ExpressionTypeV::Returnable(
                    ReturnableExpV::Statement(StatementV::Literal(LiteralV::Char(c))),
                ),
                closed: false,
            },
        ),
        GTokV::StringLiteral(s) => Ok(
            ExpressionV {
                predict: ExpressionTypeV::Returnable(
                    ReturnableExpV::Statement(StatementV::Literal(LiteralV::String(s))),
                ),
                closed: false,
            },
        ),
        GTokV::Reserved(rw) => match rw {
            FANReserved::NULL => Ok(
                ExpressionV {
                    predict: ExpressionTypeV::Returnable(
                        ReturnableExpV::Statement(StatementV::Literal(LiteralV::NULL)),
                    ),
                    closed: false,
                },
            ),
            FANReserved::AutomataDeclare => Ok(
                ExpressionV {
                    predict: ExpressionTypeV::Definition(DefinitionExp::Automata),
                    closed: false,
                },
            ),
            FANReserved::StateDeclare => Ok(
                ExpressionV {
                    predict: ExpressionTypeV::Definition(DefinitionExp::AutomataState),
                    closed: false,
                },
            ),
            FANReserved::LocVarDeclare => Ok(
                ExpressionV {
                    predict: ExpressionTypeV::Definition(DefinitionExp::Define),
                    closed: false,
                },
            ),
            FANReserved::LinkDeclare => Ok(
                ExpressionV {
                    predict: ExpressionTypeV::Procedural(ProceduralExp::Link),
                    closed: false,
                },
            ),
            FANReserved::If => Ok(
                ExpressionV {
                    predict: ExpressionTypeV::Returnable(ReturnableExpV::If),
                    closed: false,
                },
            ),
            FANReserved::For => Ok(
                ExpressionV {
                    predict: ExpressionTypeV::Procedural(ProceduralExp::For),
                    closed: false,
                },
            ),
            FANReserved::While => Ok(
                ExpressionV {
                    predict: ExpressionTypeV::Procedural(ProceduralExp::While),
                    closed: false,
                },
            ),
            FANReserved::Upload => Ok(
                ExpressionV { predict: ExpressionTypeV::Import, closed: false },
            ),
            FANReserved::From => Err(ParseErrorV::Unexpected(t)),
            FANReserved::Else => Err(ParseErrorV::Unexpected(t)),
        },
        GTokV::BlockSymbol(b) => match b {
            BlockSymbol::BlockBracketOpen => Ok(
                ExpressionV {
                    predict: ExpressionTypeV::Returnable(
                        ReturnableExpV::Statement(
                            StatementV::Block(
                                Box::new(BlockV { elems: Seq::empty(), closed: false }),
                            ),
                        ),
                    ),
                    closed: false,
                },
            ),
            BlockSymbol::TupleBracketOpen => Ok(
                ExpressionV {
                    predict: ExpressionTypeV::Returnable(
                        ReturnableExpV::Statement(
                            StatementV::Tuple(TupleV { elems: Seq::empty(), closed: false }),
                        ),
                    ),
                    closed: false,
                },
            ),
            _ => Err(ParseErrorV::Unexpected(t)),
        },
        GTokV::Operational(o) => Ok(
            ExpressionV {
                predict: ExpressionTypeV::Returnable(
                    ReturnableExpV::UnaryOperator(
                        Box::new(
                            UnaryOperatorV { arg: Box::new(unpredicted_v()), operator: o },
                        ),
                    ),
                ),
                closed: false,
            },
        ),
        GTokV::TokBrk => Err(ParseErrorV::Unexpected(t)),
    }
}

/// Continuation of a block that is being filled: its matching close bracket
/// closes it; any other token starts a fresh child via `commit_spec`.
pub open spec fn block_tail_spec(b: BlockV, t: GTokV) -> Result<(BlockV, bool), ParseErrorV> {
    if t == GTokV::BlockSymbol(BlockSymbol::BlockBracketClose) {
        Ok((BlockV { elems: b.elems, closed: true }, true))
    } else {
        match commit_spec(t) {
            Err(er) => Err(er),
            Ok(e2) => Ok((BlockV { elems: b.elems.push(e2), closed: false }, true)),
        }
    }
}

/// Continuation of a tuple that is being filled: its close bracket closes
/// it, a comma between elements is consumed, and any other token must commit
/// to a statement, the only element a tuple holds.
pub open spec fn tuple_tail_spec(tu: TupleV, t: GTokV) -> Result<(TupleV, bool), ParseErrorV> {
    if t == GTokV::BlockSymbol(BlockSymbol::TupleBracketClose) {
        Ok((TupleV { elems: tu.elems, closed: true }, true))
    } else if t == GTokV::Operational(","@) {
        Ok((tu, true))
    } else {
        match commit_spec(t) {
            Err(er) => Err(er),
            Ok(e2) => match e2.predict {
                ExpressionTypeV::Returnable(ReturnableExpV::Statement(s)) => Ok(
                    (TupleV { elems: tu.elems.push(s), closed: false }, true),
                ),
                _ => Err(ParseErrorV::Unexpected(t)),
            },
        }
    }
}

/// What one token does to one node: commitment when `Unpredicted`, else the
/// committed family's own continuation; `false` means the node rejected the
/// token and the driver must open a sibling.
pub open spec fn expand_spec(e: ExpressionV, t: GTokV) -> Result<(ExpressionV, bool), ParseErrorV>
    decreases e,
{
    match e.predict {
        ExpressionTypeV::Unpredicted => match commit_spec(t) {
            Ok(e2) => Ok((e2, true)),
            Err(er) => Err(er),
        },
        ExpressionTypeV::Import => if t == GTokV::Reserved(FANReserved::From) {
            Ok((e, true))
        } else {
            Ok((e, false))
        },
        ExpressionTypeV::Procedural(_) => Ok((e, false)),
        ExpressionTypeV::Definition(_) => Ok((e, false)),
        ExpressionTypeV::Returnable(ret) => match ret {
            ReturnableExpV::If => if t == GTokV::Reserved(FANReserved::Else) {
                Ok((e, true))
            } else {
                Ok((e, false))
            },
            ReturnableExpV::Match => Ok((e, false)),
            ReturnableExpV::AutomataCall => Ok((e, false)),
            ReturnableExpV::FunctionCall(_, _) => Ok((e, false)),
            ReturnableExpV::BinaryOperator(_) => Ok((e, false)),
            ReturnableExpV::UnaryOperator(u) => match expand_spec(*u.arg, t) {
                Err(er) => Err(er),
                Ok((a2, acc)) => Ok(
                    (
                        ExpressionV {
                            predict: ExpressionTypeV::Returnable(
                                ReturnableExpV::UnaryOperator(
                                    Box::new(
                                        UnaryOperatorV {
                                            arg: Box::new(a2),
                                            operator: u.operator,
                                        },
                                    ),
                                ),
                            ),
                            closed: e.closed,
                        },
                        acc,
                    ),
                ),
            },
            ReturnableExpV::Statement(s) => match expand_stmt_spec(s, t) {
                Err(er) => Err(er),
                Ok((s2, acc)) => Ok(
                    (
                        ExpressionV {
                            predict: ExpressionTypeV::Returnable(ReturnableExpV::Statement(s2)),
                            closed: e.closed,
                        },
                        acc,
                    ),
                ),
            },
        },
    }
}

pub open spec fn expand_stmt_spec(s: StatementV, t: GTokV) -> Result<
    (StatementV, bool),
    ParseErrorV,
>
    decreases s,
{
    match s {
        StatementV::Literal(_) => Ok((s, false)),
        StatementV::Name(_) => Ok((s, false)),
        StatementV::Block(b) => match expand_block_spec(*b, t) {
            Err(er) => Err(er),
            Ok((b2, acc)) => Ok((StatementV::Block(Box::new(b2)), acc)),
        },
        StatementV::Tuple(tu) => match expand_tuple_spec(tu, t) {
            Err(er) => Err(er),
            Ok((t2, acc)) => Ok((StatementV::Tuple(t2), acc)),
        },
    }
}

pub open spec fn expand_block_spec(b: BlockV, t: GTokV) -> Result<(BlockV, bool), ParseErrorV>
    decreases b,
{
    if b.closed {
        Ok((b, false))
    } else if b.elems.len() > 0 {
        match expand_spec(b.elems.last(), t) {
            Err(er) => Err(er),
            Ok((c2, acc)) => {
                let b2 = BlockV { elems: b.elems.update(b.elems.len() - 1, c2), closed: false };
                if acc {
                    Ok((b2, true))
                } else {
                    block_tail_spec(b2, t)
                }
            },
        }
    } else {
        block_tail_spec(b, t)
    }
}

pub open spec fn expand_tuple_spec(tu: TupleV, t: GTokV) -> Result<(TupleV, bool), ParseErrorV>
    decreases tu,
{
    if tu.closed {
        Ok((tu, false))
    } else if tu.elems.len() > 0 {
        match expand_stmt_spec(tu.elems.last(), t) {
            Err(er) => Err(er),
            Ok((s2, acc)) => {
                let t2 = TupleV { elems: tu.elems.update(tu.elems.len() - 1, s2), closed: false };
                if acc {
                    Ok((t2, true))
                } else {
                    tuple_tail_spec(t2, t)
                }
            },
        }
    } else {
        tuple_tail_spec(tu, t)
    }
}

/// One token of the driver: offer it to the last node; on rejection commit a
/// fresh node and push it.
pub open spec fn parse_step_spec(exprs: Seq<ExpressionV>, t: GTokV) -> Result<
    Seq<ExpressionV>,
    ParseErrorV,
> {
    if exprs.len() > 0 {
        match expand_spec(exprs.last(), t) {
            Err(er) => Err(er),
            Ok((e2, acc)) => {
                let upd = exprs.update(exprs.len() - 1, e2);
                if acc {
                    Ok(upd)
                } else {
                    match commit_spec(t) {
                        Err(er) => Err(er),
                        Ok(ne) => Ok(upd.push(ne)),
                    }
                }
            },
        }
    } else {
        match commit_spec(t) {
            Err(er) => Err(er),
            Ok(ne) => Ok(exprs.push(ne)),
        }
    }
}

pub open spec fn parse_run_spec(toks: Seq<GTokV>, exprs: Seq<ExpressionV>) -> Result<
    Seq<ExpressionV>,
    ParseErrorV,
>
    decreases toks.len(),
{
    if toks.len() == 0 {
        Ok(exprs)
    } else {
        match parse_step_spec(exprs, toks[0]) {
            Err(er) => Err(er),
            Ok(x2) => parse_run_spec(toks.subrange(1, toks.len() as int), x2),
        }
    }
}

/// The contract of `Parser::parse`: the driver fold over the whole stream.
pub open spec fn parse_spec(toks: Seq<GTokV>) -> Result<Seq<ExpressionV>, ParseErrorV> {
    parse_run_spec(toks, Seq::empty())
}


// ---------------------------------------------------------------------------
// Executable builder
// ---------------------------------------------------------------------------

impl Default for Expression {
    /// A fresh, uncommitted node.
    fn default() -> (r: Self)
        ensures
            r@ == unpredicted_v(),
    {
        Expression { predict: ExpressionType::Unpredicted, closed: false }
    }
}

impl Default for ExpressionType {
    fn default() -> (r: Self)
        ensures
            etype_view(r) == ExpressionTypeV::Unpredicted,
    {
        ExpressionType::Unpredicted
    }
}

impl Default for Block {
    /// An empty, still open block.
    fn default() -> (r: Self)
        ensures
            block_view(r) == (BlockV { elems: Seq::<ExpressionV>::empty(), closed: false }),
    {
        let r = Block { block: Vec::new(), closed: false };
        proof {
            assert(exprs_view(Seq::<Expression>::empty()) =~= Seq::<ExpressionV>::empty());
        }
        r
    }
}

impl Default for Tuple {
    /// An empty, still open tuple.
    fn default() -> (r: Self)
        ensures
            tuple_view(r) == (TupleV { elems: Seq::<StatementV>::empty(), closed: false }),
    {
        let r = Tuple { tuple: Vec::new(), closed: false };
        proof {
            assert(stmts_view(Seq::<Statement>::empty()) =~= Seq::<StatementV>::empty());
        }
        r
    }
}

impl Default for Imports {
    fn default() -> (r: Self) {
        Imports {  }
    }
}

impl Block {
    /// Whether this block has seen its matching closing bracket.
    pub fn is_closed(&self) -> (r: bool)
        ensures
            r == block_view(*self).closed,
    {
        self.closed
    }
}

impl Tuple {
    /// Whether this tuple has seen its matching closing bracket.
    pub fn is_closed(&self) -> (r: bool)
        ensures
            r == tuple_view(*self).closed,
    {
        self.closed
    }
}

impl Expression {
    /// Read access to the family this node has committed to.
    pub fn predict(&self) -> (r: &ExpressionType)
        ensures
            etype_view(*r) == self@.predict,
    {
        &self.predict
    }

    /// First-token commitment of a fresh node: exactly one family, or the
    /// enumerated `Unexpected` failures.
    pub fn commit(t: &FANGrammarToken) -> (r: Result<Expression, ParseError>)
        ensures
            match r {
                Ok(e) => commit_spec(t@) == Ok::<ExpressionV, ParseErrorV>(e@),
                Err(er) => commit_spec(t@) == Err::<ExpressionV, ParseErrorV>(er@),
            },
    {
        match t {
            FANGrammarToken::Name(n) => {
                let r0 = Expression {
                    predict: ExpressionType::Returnable(
                        ReturnableExp::Statement(
                            Statement::Name(Name::SingleName(SingleName(n.clone(), None))),
                        ),
                    ),
                    closed: false,
                };
                proof {
                    assert(r0@ == expr_view(r0));
                    assert(expr_view(r0).predict == etype_view(r0.predict));
                    assert(commit_spec(t@) == Ok::<ExpressionV, ParseErrorV>(r0@));
                }
                Ok(r0)
            },
            FANGrammarToken::Digital(d) => {
                let r0 = Expression {
                    predict: ExpressionType::Returnable(
                        ReturnableExp::Statement(Statement::Literal(Literal::Digital(d.clone()))),
                    ),
                    closed: false,
                };
                proof {
                    assert(r0@ == expr_view(r0));
                    assert(expr_view(r0).predict == etype_view(r0.predict));
                    assert(commit_spec(t@) == Ok::<ExpressionV, ParseErrorV>(r0@));
                }
                Ok(r0)
            },
            FANGrammarToken::NumericalLexem(x) => {
                let r0 = Expression {
                    predict: ExpressionType::Returnable(
                        ReturnableExp::Statement(
                            Statement::Literal(Literal::NumericalLexem(x.clone())),
                        ),
                    ),
                    closed: false,
                };
                proof {
                    assert(r0@ == expr_view(r0));
                    assert(expr_view(r0).predict == etype_view(r0.predict));
                    assert(commit_spec(t@) == Ok::<ExpressionV, ParseErrorV>(r0@));
                }
                Ok(r0)
            },
            FANGrammarToken::CharLiteral(c) => {
                let r0 = Expression {
                    predict: ExpressionType::Returnable(
                        ReturnableExp::Statement(Statement::Literal(Literal::Char(*c))),
                    ),
                    closed: false,
                };
                proof {
                    assert(r0@ == expr_view(r0));
                    assert(expr_view(r0).predict == etype_view(r0.predict));
                    assert(commit_spec(t@) == Ok::<ExpressionV, ParseErrorV>(r0@));
                }
                Ok(r0)
            },
            FANGrammarToken::StringLiteral(s) => {
                let r0 = Expression {
                    predict: ExpressionType::Returnable(
                        ReturnableExp::Statement(Statement::Literal(Literal::String(s.clone()))),
                    ),
                    closed: false,
                };
                proof {
                    assert(r0@ == expr_view(r0));
                    assert(expr_view(r0).predict == etype_view(r0.predict));
                    assert(commit_spec(t@) == Ok::<ExpressionV, ParseErrorV>(r0@));
                }
                Ok(r0)
            },
            FANGrammarToken::Reserved(rw) => match rw {
                FANReserved::NULL => {
                    let r0 = Expression {
                        predict: ExpressionType::Returnable(
                            ReturnableExp::Statement(Statement::Literal(Literal::NULL)),
                        ),
                        closed: false,
                    };
                    proof {
                        assert(r0@ == expr_view(r0));
                        assert(expr_view(r0).predict == etype_view(r0.predict));
                        assert(commit_spec(t@) == Ok::<ExpressionV, ParseErrorV>(r0@));
                    }
                    Ok(r0)
                },
                FANReserved::AutomataDeclare => {
                    let r0 = Expression {
                        predict: ExpressionType::Definition(DefinitionExp::Automata),
                        closed: false,
                    };
                    proof {
                        assert(r0@ == expr_view(r0));
                        assert(expr_view(r0).predict == etype_view(r0.predict));
                        assert(commit_spec(t@) == Ok::<ExpressionV, ParseErrorV>(r0@));
                    }
                    Ok(r0)
                },
                FANReserved::StateDeclare => {
                    let r0 = Expression {
                        predict: ExpressionType::Definition(DefinitionExp::AutomataState),
                        closed: false,
                    };
                    proof {
                        assert(r0@ == expr_view(r0));
                        assert(expr_view(r0).predict == etype_view(r0.predict));
                        assert(commit_spec(t@) == Ok::<ExpressionV, ParseErrorV>(r0@));
                    }
                    Ok(r0)
                },
                FANReserved::LocVarDeclare => {
                    let r0 = Expression {
                        predict: ExpressionType::Definition(DefinitionExp::Define),
                        closed: false,
                    };
                    proof {
                        assert(r0@ == expr_view(r0));
                        assert(expr_view(r0).predict == etype_view(r0.predict));
                        assert(commit_spec(t@) == Ok::<ExpressionV, ParseErrorV>(r0@));
                    }
                    Ok(r0)
                },
                FANReserved::LinkDeclare => {
                    let r0 = Expression {
                        predict: ExpressionType::Procedural(ProceduralExp::Link),
                        closed: false,
                    };
                    proof {
                        assert(r0@ == expr_view(r0));
                        assert(expr_view(r0).predict == etype_view(r0.predict));
                        assert(commit_spec(t@) == Ok::<ExpressionV, ParseErrorV>(r0@));
                    }
                    Ok(r0)
                },
                FANReserved::If => {
                    let r0 = Expression {
                        predict: ExpressionType::Returnable(ReturnableExp::If),
                        closed: false,
                    };
                    proof {
                        assert(r0@ == expr_view(r0));
                        assert(expr_view(r0).predict == etype_view(r0.predict));
                        assert(commit_spec(t@) == Ok::<ExpressionV, ParseErrorV>(r0@));
                    }
                    Ok(r0)
                },
                FANReserved::For => {
                    let r0 = Expression {
                        predict: ExpressionType::Procedural(ProceduralExp::For),
                        closed: false,
                    };
                    proof {
                        assert(r0@ == expr_view(r0));
                        assert(expr_view(r0).predict == etype_view(r0.predict));
                        assert(commit_spec(t@) == Ok::<ExpressionV, ParseErrorV>(r0@));
                    }
                    Ok(r0)
                },
                FANReserved::While => {
                    let r0 = Expression {
                        predict: ExpressionType::Procedural(ProceduralExp::While),
                        closed: false,
                    };
                    proof {
                        assert(r0@ == expr_view(r0));
                        assert(expr_view(r0).predict == etype_view(r0.predict));
                        assert(commit_spec(t@) == Ok::<ExpressionV, ParseErrorV>(r0@));
                    }
                    Ok(r0)
                },
                FANReserved::Upload => {
                    let r0 = Expression {
                        predict: ExpressionType::Import(Imports {  }),
                        closed: false,
                    };
                    proof {
                        assert(r0@ == expr_view(r0));
                        assert(expr_view(r0).predict == etype_view(r0.predict));
                        assert(commit_spec(t@) == Ok::<ExpressionV, ParseErrorV>(r0@));
                    }
                    Ok(r0)
                },
                FANReserved::From => Err(ParseError::Unexpected(t.duplicate())),
                FANReserved::Else => Err(ParseError::Unexpected(t.duplicate())),
            },
            FANGrammarToken::BlockSymbol(b) => match b {
                BlockSymbol::BlockBracketOpen => {
                    let v: Vec<Expression> = Vec::new();
                    proof {
                        assert(exprs_view(v@) =~= Seq::<ExpressionV>::empty());
                    }
                    let blk = Block { block: v, closed: false };
                    let ghost blkv = block_view(blk);
                    let bx = Box::new(blk);
                    proof {
                        assert(block_view(*bx) == blkv);
                    }
                    let st = Statement::Block(bx);
                    proof {
                        assert(stmt_view(st) == StatementV::Block(Box::new(blkv)));
                        assert(blkv == (BlockV { elems: Seq::<ExpressionV>::empty(), closed: false }));
                    }
                    let r0 = Expression {
                        predict: ExpressionType::Returnable(
                            ReturnableExp::Statement(st),
                        ),
                        closed: false,
                    };
                    proof {
                        assert(commit_spec(t@) == Ok::<ExpressionV, ParseErrorV>(r0@));
                    }
                    Ok(r0)
                },
                BlockSymbol::TupleBracketOpen => {
                    let v: Vec<Statement> = Vec::new();
                    proof {
                        assert(stmts_view(v@) =~= Seq::<StatementV>::empty());
                    }
                    let tup = Tuple { tuple: v, closed: false };
                    let ghost tupv = tuple_view(tup);
                    let st = Statement::Tuple(tup);
                    proof {
                        assert(stmt_view(st) == StatementV::Tuple(tupv));
                        assert(tupv == (TupleV { elems: Seq::<StatementV>::empty(), closed: false }));
                    }
                    let r0 = Expression {
                        predict: ExpressionType::Returnable(
                            ReturnableExp::Statement(st),
                        ),
                        closed: false,
                    };
                    proof {
                        assert(r0@ == expr_view(r0));
                        assert(expr_view(r0).predict == etype_view(r0.predict));
                        assert(commit_spec(t@) == Ok::<ExpressionV, ParseErrorV>(r0@));
                    }
                    Ok(r0)
                },
                _ => Err(ParseError::Unexpected(t.duplicate())),
            },
            FANGrammarToken::Operational(o) => {
                let r0 = Expression {
                    predict: ExpressionType::Returnable(
                        ReturnableExp::UnaryOperator(
                            Box::new(
                                UnaryOperator {
                                    arg: Expression {
                                        predict: ExpressionType::Unpredicted,
                                        closed: false,
                                    },
                                    operator: o.duplicate(),
                                },
                            ),
                        ),
                    ),
                    closed: false,
                };
                proof {
                    assert(r0@ == expr_view(r0));
                    assert(expr_view(r0).predict == etype_view(r0.predict));
                    assert(commit_spec(t@) == Ok::<ExpressionV, ParseErrorV>(r0@));
                }
                Ok(r0)
            },
            FANGrammarToken::TokBrk => Err(ParseError::Unexpected(t.duplicate())),
        }
    }
}

fn expand_expr(e: Expression, t: &FANGrammarToken) -> (r: Result<(Expression, bool), ParseError>)
    ensures
        match r {
            Ok(p) => expand_spec(e@, t@) == Ok::<(ExpressionV, bool), ParseErrorV>((p.0@, p.1)),
            Err(er) => expand_spec(e@, t@) == Err::<(ExpressionV, bool), ParseErrorV>(er@),
        },
    decreases e,
{
    let Expression { predict, closed } = e;
    match predict {
        ExpressionType::Unpredicted => match Expression::commit(t) {
            Ok(e2) => Ok((e2, true)),
            Err(er) => Err(er),
        },
        ExpressionType::Import(im) => {
            let acc = matches!(t, FANGrammarToken::Reserved(FANReserved::From));
            Ok((Expression { predict: ExpressionType::Import(im), closed }, acc))
        },
        ExpressionType::Procedural(p) => Ok(
            (Expression { predict: ExpressionType::Procedural(p), closed }, false),
        ),
        ExpressionType::Definition(d) => Ok(
            (Expression { predict: ExpressionType::Definition(d), closed }, false),
        ),
        ExpressionType::Returnable(ret) => match ret {
            ReturnableExp::If => {
                let acc = matches!(t, FANGrammarToken::Reserved(FANReserved::Else));
                Ok((Expression { predict: ExpressionType::Returnable(ReturnableExp::If), closed }, acc))
            },
            ReturnableExp::Match => Ok(
                (Expression { predict: ExpressionType::Returnable(ReturnableExp::Match), closed }, false),
            ),
            ReturnableExp::AutomataCall => Ok(
                (
                    Expression {
                        predict: ExpressionType::Returnable(ReturnableExp::AutomataCall),
                        closed,
                    },
                    false,
                ),
            ),
            ReturnableExp::FunctionCall(s, tu) => Ok(
                (
                    Expression {
                        predict: ExpressionType::Returnable(ReturnableExp::FunctionCall(s, tu)),
                        closed,
                    },
                    false,
                ),
            ),
            ReturnableExp::BinaryOperator(b) => Ok(
                (
                    Expression {
                        predict: ExpressionType::Returnable(ReturnableExp::BinaryOperator(b)),
                        closed,
                    },
                    false,
                ),
            ),
            ReturnableExp::UnaryOperator(u) => {
                let UnaryOperator { arg, operator } = *u;
                match expand_expr(arg, t) {
                    Err(er) => Err(er),
                    Ok((a2, acc)) => Ok(
                        (
                            Expression {
                                predict: ExpressionType::Returnable(
                                    ReturnableExp::UnaryOperator(
                                        Box::new(UnaryOperator { arg: a2, operator }),
                                    ),
                                ),
                                closed,
                            },
                            acc,
                        ),
                    ),
                }
            },
            ReturnableExp::Statement(s) => match expand_stmt(s, t) {
                Err(er) => Err(er),
                Ok((s2, acc)) => Ok(
                    (
                        Expression {
                            predict: ExpressionType::Returnable(ReturnableExp::Statement(s2)),
                            closed,
                        },
                        acc,
                    ),
                ),
            },
        },
    }
}

fn expand_stmt(s: Statement, t: &FANGrammarToken) -> (r: Result<(Statement, bool), ParseError>)
    ensures
        match r {
            Ok(p) => expand_stmt_spec(stmt_view(s), t@) == Ok::<(StatementV, bool), ParseErrorV>(
                (stmt_view(p.0), p.1),
            ),
            Err(er) => expand_stmt_spec(stmt_view(s), t@) == Err::<
                (StatementV, bool),
                ParseErrorV,
            >(er@),
        },
    decreases s,
{
    match s {
        Statement::Literal(l) => Ok((Statement::Literal(l), false)),
        Statement::Name(n) => Ok((Statement::Name(n), false)),
        Statement::Block(b) => {
            match expand_block(*b, t) {
                Err(er) => Err(er),
                Ok((b2, acc)) => Ok((Statement::Block(Box::new(b2)), acc)),
            }
        },
        Statement::Tuple(tu) => {
            match expand_tuple(tu, t) {
                Err(er) => Err(er),
                Ok((t2, acc)) => Ok((Statement::Tuple(t2), acc)),
            }
        },
    }
}

fn expand_block(b: Block, t: &FANGrammarToken) -> (r: Result<(Block, bool), ParseError>)
    ensures
        match r {
            Ok(p) => expand_block_spec(block_view(b), t@) == Ok::<(BlockV, bool), ParseErrorV>(
                (block_view(p.0), p.1),
            ),
            Err(er) => expand_block_spec(block_view(b), t@) == Err::<(BlockV, bool), ParseErrorV>(
                er@,
            ),
        },
    decreases b,
{
    let ghost bv = block_view(b);
    let Block { mut block, closed } = b;
    let ghost elems0 = block@;
    if closed {
        return Ok((Block { block, closed }, false));
    }
    proof {
        lemma_exprs_view_len(elems0);
    }
    if block.len() > 0 {
        let child = block.pop().unwrap();
        match expand_expr(child, t) {
            Err(er) => {
                return Err(er);
            },
            Ok((c2, acc)) => {
                block.push(c2);
                proof {
                    assert(block@ =~= elems0.drop_last().push(c2));
                    lemma_exprs_view_update_last(elems0, c2);
                }
                if acc {
                    return Ok((Block { block, closed: false }, true));
                }
            },
        }
    }
    let ghost tailv = BlockV { elems: exprs_view(block@), closed: false };
    proof {
        assert(expand_block_spec(bv, t@) == block_tail_spec(tailv, t@));
    }
    if matches!(t, FANGrammarToken::BlockSymbol(BlockSymbol::BlockBracketClose)) {
        Ok((Block { block, closed: true }, true))
    } else {
        match Expression::commit(t) {
            Err(er) => Err(er),
            Ok(ne) => {
                proof {
                    lemma_exprs_view_push(block@, ne);
                }
                block.push(ne);
                Ok((Block { block, closed: false }, true))
            },
        }
    }
}

fn expand_tuple(tu: Tuple, t: &FANGrammarToken) -> (r: Result<(Tuple, bool), ParseError>)
    ensures
        match r {
            Ok(p) => expand_tuple_spec(tuple_view(tu), t@) == Ok::<(TupleV, bool), ParseErrorV>(
                (tuple_view(p.0), p.1),
            ),
            Err(er) => expand_tuple_spec(tuple_view(tu), t@) == Err::<(TupleV, bool), ParseErrorV>(
                er@,
            ),
        },
    decreases tu,
{
    let ghost tv = tuple_view(tu);
    let Tuple { mut tuple, closed } = tu;
    let ghost elems0 = tuple@;
    if closed {
        return Ok((Tuple { tuple, closed }, false));
    }
    proof {
        lemma_stmts_view_len(elems0);
    }
    if tuple.len() > 0 {
        let child = tuple.pop().unwrap();
        match expand_stmt(child, t) {
            Err(er) => {
                return Err(er);
            },
            Ok((s2, acc)) => {
                tuple.push(s2);
                proof {
                    assert(tuple@ =~= elems0.drop_last().push(s2));
                    lemma_stmts_view_update_last(elems0, s2);
                }
                if acc {
                    return Ok((Tuple { tuple, closed: false }, true));
                }
            },
        }
    }
    let ghost tailv = TupleV { elems: stmts_view(tuple@), closed: false };
    proof {
        assert(expand_tuple_spec(tv, t@) == tuple_tail_spec(tailv, t@));
    }
    if matches!(t, FANGrammarToken::BlockSymbol(BlockSymbol::TupleBracketClose)) {
        return Ok((Tuple { tuple, closed: true }, true));
    }
    let is_comma = match t {
        FANGrammarToken::Operational(o) => o.is_lexeme(","),
        _ => false,
    };
    if is_comma {
        return Ok((Tuple { tuple, closed: false }, true));
    }
    match Expression::commit(t) {
        Err(er) => Err(er),
        Ok(ne) => {
            let Expression { predict: np, closed: _nc } = ne;
            match np {
                ExpressionType::Returnable(ReturnableExp::Statement(s)) => {
                    proof {
                        lemma_stmts_view_push(tuple@, s);
                    }
                    tuple.push(s);
                    Ok((Tuple { tuple, closed: false }, true))
                },
                _ => Err(ParseError::Unexpected(t.duplicate())),
            }
        },
    }
}

/// One node of a growing tree, driven by `Expandable::expand`.
pub trait Expandable: View<V = ExpressionV> {
    /// Offers one token to the node.  The node steps as `expand_spec` says,
    /// and the result reports whether the token was consumed; after an error
    /// the node is reset to a fresh uncommitted state.
    fn expand(&mut self, t: &FANGrammarToken) -> (r: Result<bool, ParseError>)
        ensures
            match r {
                Ok(acc) => expand_spec(old(self)@, t@) == Ok::<(ExpressionV, bool), ParseErrorV>(
                    (final(self)@, acc),
                ),
                Err(er) => expand_spec(old(self)@, t@) == Err::<
                    (ExpressionV, bool),
                    ParseErrorV,
                >(er@) && final(self)@ == unpredicted_v(),
            },
    ;
}

impl Expandable for Expression {
    fn expand(&mut self, t: &FANGrammarToken) -> (r: Result<bool, ParseError>) {
        let mut tmp = Expression { predict: ExpressionType::Unpredicted, closed: false };
        core::mem::swap(&mut tmp, self);
        match expand_expr(tmp, t) {
            Ok((e2, acc)) => {
                *self = e2;
                Ok(acc)
            },
            Err(er) => Err(er),
        }
    }
}

impl Parser {
    /// Drives the predictive builder over a classified token stream: each
    /// token goes to the most recently opened node, and a rejected token
    /// opens a fresh sibling node committed by that token.
    #[verifier::loop_isolation(false)]
    pub fn parse(tokens: Vec<FANGrammarToken>) -> (r: Result<(), ParseError>)
        ensures
            match r {
                Ok(_) => parse_spec(gtoks_view(tokens@)) is Ok,
                Err(er) => parse_spec(gtoks_view(tokens@)) == Err::<Seq<ExpressionV>, ParseErrorV>(
                    er@,
                ),
            },
    {
        let ghost tv = gtoks_view(tokens@);
        let mut expressions: Vec<Expression> = Vec::new();
        let mut i: usize = 0;
        proof {
            assert(exprs_view(Seq::<Expression>::empty()) =~= Seq::<ExpressionV>::empty());
            assert(tv.subrange(0, tv.len() as int) =~= tv);
        }
        while i < tokens.len()
            invariant
                i <= tokens.len(),
                parse_run_spec(tv, Seq::empty()) == parse_run_spec(
                    tv.subrange(i as int, tv.len() as int),
                    exprs_view(expressions@),
                ),
            decreases tokens.len() - i,
        {
            let ghost seg = tv.subrange(i as int, tv.len() as int);
            let ghost xs0 = exprs_view(expressions@);
            let ghost elems0 = expressions@;
            proof {
                assert(seg.len() > 0);
                assert(seg[0] == tv[i as int]);
                assert(seg.subrange(1, seg.len() as int) =~= tv.subrange(
                    i as int + 1,
                    tv.len() as int,
                ));
                lemma_exprs_view_len(elems0);
            }
            let tok = &tokens[i];
            let accepted: bool = if expressions.len() > 0 {
                let laste = expressions.pop().unwrap();
                match expand_expr(laste, tok) {
                    Err(er) => {
                        proof {
                            assert(parse_step_spec(xs0, tv[i as int]) == Err::<
                                Seq<ExpressionV>,
                                ParseErrorV,
                            >(er@));
                        }
                        return Err(er);
                    },
                    Ok((e2, acc)) => {
                        expressions.push(e2);
                        proof {
                            assert(expressions@ =~= elems0.drop_last().push(e2));
                            lemma_exprs_view_update_last(elems0, e2);
                        }
                        acc
                    },
                }
            } else {
                false
            };
            if !accepted {
                match Expression::commit(tok) {
                    Err(er) => {
                        proof {
                            assert(parse_step_spec(xs0, tv[i as int]) == Err::<
                                Seq<ExpressionV>,
                                ParseErrorV,
                            >(er@));
                        }
                        return Err(er);
                    },
                    Ok(ne) => {
                        proof {
                            lemma_exprs_view_push(expressions@, ne);
                        }
                        expressions.push(ne);
                    },
                }
            }
            proof {
                assert(parse_step_spec(xs0, tv[i as int]) == Ok::<Seq<ExpressionV>, ParseErrorV>(
                    exprs_view(expressions@),
                ));
            }
            i += 1;
        }
        proof {
            assert(tv.subrange(tv.len() as int, tv.len() as int) =~= Seq::<GTokV>::empty());
        }
        Ok(())
    }
}

} // verus!
