//! Character-level tokenizer for the automata description language.
//!
//! A line of text is scanned left to right while a stack of open
//! literal/comment contexts is threaded across lines.  The scan produces raw
//! flagged tokens (identifier runs, one-character operator runs, literal
//! content, break markers); a second pass classifies them into the grammar
//! vocabulary (names, digit literals, reserved words, brackets, operators
//! with two-step maximal munch).  The whole behaviour is modelled by the
//! spec-level state machine `lex_step` / `lex_run` and its classifier fold
//! `classify_run`, and every public function is proved against that model.
use vstd::prelude::*;
use vstd::string::StrSliceExecFns;
use vstd::string::StringExecFns;

verus! {

// ---------------------------------------------------------------------------
// Character classes
// ---------------------------------------------------------------------------

/// Whether `char::is_alphanumeric` accepts the character; the Unicode tables
/// behind it are not restated here.
pub uninterp spec fn char_alphanumeric(c: char) -> bool;

/// Whether `char::is_numeric` accepts the character.
pub uninterp spec fn char_numeric(c: char) -> bool;

/// Relies on char::is_alphanumeric: the result depends on the character alone.
#[verifier::external_body]
fn exec_char_alphanumeric(c: char) -> (r: bool)
    ensures
        r == char_alphanumeric(c),
{
    c.is_alphanumeric()
}

/// Relies on char::is_numeric: the result depends on the character alone.
#[verifier::external_body]
fn exec_char_numeric(c: char) -> (r: bool)
    ensures
        r == char_numeric(c),
{
    c.is_numeric()
}

/// Relies on str's PartialEq: two string slices are equal exactly when their
/// character sequences are.
#[verifier::external_body]
fn str_eq(a: &str, b: &str) -> (r: bool)
    ensures
        r == (a@ == b@),
{
    a == b
}

/// Relies on String::push: appends the given character at the end.
#[verifier::external_body]
fn push_char(s: &mut String, c: char)
    ensures
        final(s)@ == old(s)@.push(c),
{
    s.push(c);
}

/// The ASCII whitespace characters: space, tab, line feed, form feed,
/// carriage return.
pub open spec fn ws_char(c: char) -> bool {
    c == ' ' || c == '\t' || c == '\n' || c == '\u{000C}' || c == '\r'
}

fn is_ws(c: char) -> (r: bool)
    ensures
        r == ws_char(c),
{
    c == ' ' || c == '\t' || c == '\n' || c == '\u{000C}' || c == '\r'
}

/// A character that may extend an identifier run.
pub open spec fn word_char(c: char) -> bool {
    char_alphanumeric(c) || c == '_'
}

#[verifier::loop_isolation(false)]
fn chars_to_string(v: &Vec<char>) -> (r: String)
    ensures
        r@ == v@,
{
    let mut s = String::new();
    let mut i: usize = 0;
    while i < v.len()
        invariant
            i <= v.len(),
            s@ == v@.subrange(0, i as int),
        decreases v.len() - i,
    {
        push_char(&mut s, v[i]);
        i += 1;
        proof {
            assert(v@.subrange(0, i as int) =~= v@.subrange(0, i as int - 1).push(v@[i - 1]));
        }
    }
    proof {
        assert(v@.subrange(0, v@.len() as int) =~= v@);
    }
    s
}

// ---------------------------------------------------------------------------
// Public vocabulary types
// ---------------------------------------------------------------------------

#[derive(Debug, Clone, Copy, PartialEq, Eq)]
pub enum StringLiteralType {
    Char,
    String,
}

#[derive(Debug, Clone, Copy, PartialEq, Eq)]
pub enum TokenFlag {
    Literal,
    StringLiteral(StringLiteralType),
    Operational,
    TokBrk,
}

impl TokenFlag {
    pub fn is_literal(c: char) -> (r: bool)
        ensures
            r == word_char(c),
    {
        exec_char_alphanumeric(c) || c == '_'
    }
}

type Token = (TokenFlag, String);

type TokenLine = Vec<Token>;

#[derive(Debug, Clone, Copy, PartialEq, Eq)]
pub enum LexError {
    UnknownError,
    InvalidCharLiteralValue,
    InvalidOperatorToken,
    LiteralEndNotFound,
}

#[derive(Debug, Clone, Copy, PartialEq, Eq)]
pub enum BlockSymbol {
    BlockBracketOpen,
    BlockBracketClose,
    TupleBracketOpen,
    TupleBracketClose,
    IndexBracketOpen,
    IndexBracketClose,
}

/// The bracket classification of a single character.
pub open spec fn block_symbol_of(c: char) -> Option<BlockSymbol> {
    if c == '{' {
        Some(BlockSymbol::BlockBracketOpen)
    } else if c == '}' {
        Some(BlockSymbol::BlockBracketClose)
    } else if c == '(' {
        Some(BlockSymbol::TupleBracketOpen)
    } else if c == ')' {
        Some(BlockSymbol::TupleBracketClose)
    } else if c == '[' {
        Some(BlockSymbol::IndexBracketOpen)
    } else if c == ']' {
        Some(BlockSymbol::IndexBracketClose)
    } else {
        None
    }
}

impl BlockSymbol {
    pub fn try_from<'a>(c: &'a char) -> (r: Option<Self>)
        ensures
            r == block_symbol_of(*c),
    {
        match *c {
            '{' => Some(Self::BlockBracketOpen),
            '}' => Some(Self::BlockBracketClose),
            '(' => Some(Self::TupleBracketOpen),
            ')' => Some(Self::TupleBracketClose),
            '[' => Some(Self::IndexBracketOpen),
            ']' => Some(Self::IndexBracketClose),
            _ => None,
        }
    }
}

#[derive(Debug, Clone, Copy, PartialEq, Eq)]
pub enum FANReserved {
    AutomataDeclare,
    StateDeclare,
    LocVarDeclare,
    LinkDeclare,
    NULL,
    If,
    Else,
    For,
    While,
    Upload,
    From,
}

/// The reserved-word classification of an identifier run.
pub open spec fn reserved_of(s: Seq<char>) -> Option<FANReserved> {
    if s == "automata"@ {
        Some(FANReserved::AutomataDeclare)
    } else if s == "state"@ {
        Some(FANReserved::StateDeclare)
    } else if s == "let"@ {
        Some(FANReserved::LocVarDeclare)
    } else if s == "link"@ {
        Some(FANReserved::LinkDeclare)
    } else if s == "NULL"@ || s == "null"@ || s == "Null"@ {
        Some(FANReserved::NULL)
    } else if s == "if"@ {
        Some(FANReserved::If)
    } else if s == "else"@ {
        Some(FANReserved::Else)
    } else if s == "for"@ {
        Some(FANReserved::For)
    } else if s == "while"@ {
        Some(FANReserved::While)
    } else if s == "upload"@ {
        Some(FANReserved::Upload)
    } else if s == "from"@ {
        Some(FANReserved::From)
    } else {
        None
    }
}

impl FANReserved {
    pub fn try_from<'a>(s: &'a str) -> (r: Option<Self>)
        ensures
            r == reserved_of(s@),
    {
        if str_eq(s, "automata") {
            Some(Self::AutomataDeclare)
        } else if str_eq(s, "state") {
            Some(Self::StateDeclare)
        } else if str_eq(s, "let") {
            Some(Self::LocVarDeclare)
        } else if str_eq(s, "link") {
            Some(Self::LinkDeclare)
        } else if str_eq(s, "NULL") || str_eq(s, "null") || str_eq(s, "Null") {
            Some(Self::NULL)
        } else if str_eq(s, "if") {
            Some(Self::If)
        } else if str_eq(s, "else") {
            Some(Self::Else)
        } else if str_eq(s, "for") {
            Some(Self::For)
        } else if str_eq(s, "while") {
            Some(Self::While)
        } else if str_eq(s, "upload") {
            Some(Self::Upload)
        } else if str_eq(s, "from") {
            Some(Self::From)
        } else {
            None
        }
    }
}

/// The fixed operator lexeme table; merging never builds anything outside it.
pub open spec fn op_in_table(s: Seq<char>) -> bool {
    ||| s == "="@
    ||| s == "+="@
    ||| s == "-="@
    ||| s == "/="@
    ||| s == "*="@
    ||| s == "+"@
    ||| s == "-"@
    ||| s == "*"@
    ||| s == "/"@
    ||| s == "&"@
    ||| s == "->"@
    ||| s == "^"@
    ||| s == ":"@
    ||| s == "::"@
    ||| s == "."@
    ||| s == ","@
    ||| s == "%"@
    ||| s == "~"@
    ||| s == "=="@
    ||| s == "!="@
    ||| s == ";"@
    ||| s == "&&"@
    ||| s == "|"@
    ||| s == "||"@
    ||| s == "<"@
    ||| s == ">"@
    ||| s == ">="@
    ||| s == "<="@
    ||| s == "\\"@
}

fn op_str_in_table(s: &str) -> (r: bool)
    ensures
        r == op_in_table(s@),
{
    str_eq(s, "=") || str_eq(s, "+=") || str_eq(s, "-=") || str_eq(s, "/=") || str_eq(s, "*=")
        || str_eq(s, "+") || str_eq(s, "-") || str_eq(s, "*") || str_eq(s, "/") || str_eq(s, "&")
        || str_eq(s, "->") || str_eq(s, "^") || str_eq(s, ":") || str_eq(s, "::") || str_eq(s, ".")
        || str_eq(s, ",") || str_eq(s, "%") || str_eq(s, "~") || str_eq(s, "==") || str_eq(s, "!=")
        || str_eq(s, ";") || str_eq(s, "&&") || str_eq(s, "|") || str_eq(s, "||") || str_eq(s, "<")
        || str_eq(s, ">") || str_eq(s, ">=") || str_eq(s, "<=") || str_eq(s, "\\")
}

#[derive(Debug, Clone, PartialEq, Eq)]
pub struct Operational(String);

impl View for Operational {
    type V = Seq<char>;

    closed spec fn view(&self) -> Seq<char> {
        self.0@
    }
}

impl Operational {
    /// Attempts the two-token maximal munch: the concatenation of this
    /// operator's lexeme and `s` is accepted exactly when the table holds it.
    pub fn try_expand<'a>(&self, s: &'a str) -> (r: Option<Self>)
        ensures
            match r {
                Some(y) => y@ == self@ + s@ && op_in_table(self@ + s@),
                None => !op_in_table(self@ + s@),
            },
    {
        let n: String = self.0.clone().concat(s);
        if op_str_in_table(n.as_str()) {
            Some(Operational(n))
        } else {
            None
        }
    }

    /// Whether this operator's lexeme is exactly `s`.
    pub fn is_lexeme(&self, s: &str) -> (r: bool)
        ensures
            r == (self@ == s@),
    {
        str_eq(self.0.as_str(), s)
    }

    /// The operator's lexeme.
    pub fn lexeme(&self) -> (r: &str)
        ensures
            r@ == self@,
    {
        self.0.as_str()
    }

    pub(crate) fn duplicate(&self) -> (r: Self)
        ensures
            r@ == self@,
    {
        Operational(self.0.clone())
    }
}

#[derive(Debug, Clone, PartialEq, Eq)]
pub enum FANGrammarToken {
    Name(String),
    Digital(String),
    NumericalLexem(String),
    CharLiteral(char),
    StringLiteral(String),
    Reserved(FANReserved),
    BlockSymbol(BlockSymbol),
    Operational(Operational),
    TokBrk,
}

/// Spec-level image of a classified grammar token.
pub ghost enum GTokV {
    Name(Seq<char>),
    Digital(Seq<char>),
    NumericalLexem(Seq<char>),
    CharLiteral(char),
    StringLiteral(Seq<char>),
    Reserved(FANReserved),
    BlockSymbol(BlockSymbol),
    Operational(Seq<char>),
    TokBrk,
}

impl View for FANGrammarToken {
    type V = GTokV;

    open spec fn view(&self) -> GTokV {
        match *self {
            FANGrammarToken::Name(ref s) => GTokV::Name(s@),
            FANGrammarToken::Digital(ref s) => GTokV::Digital(s@),
            FANGrammarToken::NumericalLexem(ref s) => GTokV::NumericalLexem(s@),
            FANGrammarToken::CharLiteral(c) => GTokV::CharLiteral(c),
            FANGrammarToken::StringLiteral(ref s) => GTokV::StringLiteral(s@),
            FANGrammarToken::Reserved(r) => GTokV::Reserved(r),
            FANGrammarToken::BlockSymbol(b) => GTokV::BlockSymbol(b),
            FANGrammarToken::Operational(ref o) => GTokV::Operational(o@),
            FANGrammarToken::TokBrk => GTokV::TokBrk,
        }
    }
}

impl FANGrammarToken {
    /// A structural copy whose view is provably the same.
    pub fn duplicate(&self) -> (r: Self)
        ensures
            r@ == self@,
    {
        match self {
            FANGrammarToken::Name(s) => FANGrammarToken::Name(s.clone()),
            FANGrammarToken::Digital(s) => FANGrammarToken::Digital(s.clone()),
            FANGrammarToken::NumericalLexem(s) => FANGrammarToken::NumericalLexem(s.clone()),
            FANGrammarToken::CharLiteral(c) => FANGrammarToken::CharLiteral(*c),
            FANGrammarToken::StringLiteral(s) => FANGrammarToken::StringLiteral(s.clone()),
            FANGrammarToken::Reserved(r) => FANGrammarToken::Reserved(*r),
            FANGrammarToken::BlockSymbol(b) => FANGrammarToken::BlockSymbol(*b),
            FANGrammarToken::Operational(o) => FANGrammarToken::Operational(o.duplicate()),
            FANGrammarToken::TokBrk => FANGrammarToken::TokBrk,
        }
    }
}

#[derive(Debug, Clone)]
pub struct Lexer {}

#[derive(Debug, PartialEq)]
pub struct LexStackItem {
    kind: LexStackItemType,
    data: Vec<char>,
}

#[derive(Debug, Clone, Copy, PartialEq, Eq)]
pub enum LexStackItemType {
    StringLiteral(StringLiteralType),
    Comment,
}

/// The context opened by a delimiter character, if any.
pub open spec fn ctx_kind_of(c: char) -> Option<LexStackItemType> {
    if c == '"' {
        Some(LexStackItemType::StringLiteral(StringLiteralType::String))
    } else if c == '\'' {
        Some(LexStackItemType::StringLiteral(StringLiteralType::Char))
    } else if c == '#' {
        Some(LexStackItemType::Comment)
    } else {
        None
    }
}

impl LexStackItemType {
    pub fn try_from<'a>(c: &'a char) -> (r: Option<Self>)
        ensures
            r == ctx_kind_of(*c),
    {
        match *c {
            '"' => Some(Self::StringLiteral(StringLiteralType::String)),
            '\'' => Some(Self::StringLiteral(StringLiteralType::Char)),
            '#' => Some(Self::Comment),
            _ => None,
        }
    }
}

// ---------------------------------------------------------------------------
// Spec model of the per-line machine
// ---------------------------------------------------------------------------

/// Spec-level image of one open literal/comment context.
pub ghost struct CtxV {
    pub kind: LexStackItemType,
    pub data: Seq<char>,
}

impl View for LexStackItem {
    type V = CtxV;

    closed spec fn view(&self) -> CtxV {
        CtxV { kind: self.kind, data: self.data@ }
    }
}

/// Spec-level image of one raw flagged token.
pub ghost struct RawTokV {
    pub flag: TokenFlag,
    pub text: Seq<char>,
}

/// Spec-level state while scanning one line.
pub ghost struct LineStateV {
    pub toks: Seq<RawTokV>,
    pub stack: Seq<CtxV>,
}

pub open spec fn stack_view(s: Seq<LexStackItem>) -> Seq<CtxV> {
    s.map_values(|x: LexStackItem| x@)
}

pub open spec fn raw_view(s: Seq<(TokenFlag, Vec<char>)>) -> Seq<RawTokV> {
    s.map_values(|p: (TokenFlag, Vec<char>)| RawTokV { flag: p.0, text: p.1@ })
}

pub open spec fn toks_view(s: Seq<Token>) -> Seq<RawTokV> {
    s.map_values(|p: Token| RawTokV { flag: p.0, text: p.1@ })
}

pub open spec fn gtoks_view(s: Seq<FANGrammarToken>) -> Seq<GTokV> {
    s.map_values(|t: FANGrammarToken| t@)
}

/// The closing delimiter of a literal kind.
pub open spec fn delim_of(t: StringLiteralType) -> char {
    match t {
        StringLiteralType::Char => '\'',
        StringLiteralType::String => '"',
    }
}

/// One character of the tokenizer: routes the character into the innermost
/// open context, or extends/opens raw tokens when no context is open.
pub open spec fn lex_step(st: LineStateV, c: char) -> Result<LineStateV, LexError> {
    if st.stack.len() > 0 {
        let top = st.stack.last();
        match top.kind {
            LexStackItemType::StringLiteral(lt) => {
                if c == delim_of(lt) {
                    if top.data.len() > 0 && top.data.last() == '\\' {
                        Ok(
                            LineStateV {
                                toks: st.toks,
                                stack: st.stack.update(
                                    st.stack.len() - 1,
                                    CtxV { kind: top.kind, data: top.data.push(c) },
                                ),
                            },
                        )
                    } else {
                        Ok(
                            LineStateV {
                                toks: st.toks.push(
                                    RawTokV { flag: TokenFlag::StringLiteral(lt), text: top.data },
                                ),
                                stack: st.stack.drop_last(),
                            },
                        )
                    }
                } else {
                    match lt {
                        StringLiteralType::Char => {
                            if top.data.len() == 0 || (top.data.len() == 1 && top.data.last()
                                == '\\') {
                                Ok(
                                    LineStateV {
                                        toks: st.toks,
                                        stack: st.stack.update(
                                            st.stack.len() - 1,
                                            CtxV { kind: top.kind, data: seq![c] },
                                        ),
                                    },
                                )
                            } else {
                                Err(LexError::InvalidCharLiteralValue)
                            }
                        },
                        StringLiteralType::String => Ok(
                            LineStateV {
                                toks: st.toks,
                                stack: st.stack.update(
                                    st.stack.len() - 1,
                                    CtxV { kind: top.kind, data: top.data.push(c) },
                                ),
                            },
                        ),
                    }
                }
            },
            LexStackItemType::Comment => Ok(st),
        }
    } else {
        if ws_char(c) {
            if st.toks.len() == 0 || st.toks.last().flag is TokBrk {
                Ok(st)
            } else {
                Ok(
                    LineStateV {
                        toks: st.toks.push(RawTokV { flag: TokenFlag::TokBrk, text: seq![' '] }),
                        stack: st.stack,
                    },
                )
            }
        } else {
            match ctx_kind_of(c) {
                Some(k) => Ok(
                    LineStateV {
                        toks: st.toks,
                        stack: st.stack.push(CtxV { kind: k, data: Seq::empty() }),
                    },
                ),
                None => {
                    if st.toks.len() > 0 && st.toks.last().flag is Literal {
                        if word_char(c) {
                            let lastt = st.toks.last();
                            Ok(
                                LineStateV {
                                    toks: st.toks.update(
                                        st.toks.len() - 1,
                                        RawTokV { flag: lastt.flag, text: lastt.text.push(c) },
                                    ),
                                    stack: st.stack,
                                },
                            )
                        } else {
                            Ok(
                                LineStateV {
                                    toks: st.toks.push(
                                        RawTokV { flag: TokenFlag::Operational, text: seq![c] },
                                    ),
                                    stack: st.stack,
                                },
                            )
                        }
                    } else {
                        if word_char(c) {
                            Ok(
                                LineStateV {
                                    toks: st.toks.push(
                                        RawTokV { flag: TokenFlag::Literal, text: seq![c] },
                                    ),
                                    stack: st.stack,
                                },
                            )
                        } else {
                            Ok(
                                LineStateV {
                                    toks: st.toks.push(
                                        RawTokV { flag: TokenFlag::Operational, text: seq![c] },
                                    ),
                                    stack: st.stack,
                                },
                            )
                        }
                    }
                },
            }
        }
    }
}

/// Runs `lex_step` over the characters of `line`, stopping at the first error.
pub open spec fn lex_run(line: Seq<char>, st: LineStateV) -> Result<LineStateV, LexError>
    decreases line.len(),
{
    if line.len() == 0 {
        Ok(st)
    } else {
        match lex_step(st, line[0]) {
            Ok(st2) => lex_run(line.subrange(1, line.len() as int), st2),
            Err(e) => Err(e),
        }
    }
}

pub open spec fn has_comment(stack: Seq<CtxV>) -> bool {
    exists|i: int| 0 <= i < stack.len() && stack[i].kind is Comment
}

/// The whole per-line contract: scan the characters, close a trailing line
/// comment, and reject any comment context that survived.
pub open spec fn split_line_spec(line: Seq<char>, stack0: Seq<CtxV>) -> Result<
    (Seq<RawTokV>, Seq<CtxV>),
    LexError,
> {
    match lex_run(line, LineStateV { toks: Seq::empty(), stack: stack0 }) {
        Err(e) => Err(e),
        Ok(st) => {
            let stack1 = if st.stack.len() > 0 && st.stack.last().kind is Comment {
                st.stack.drop_last()
            } else {
                st.stack
            };
            if has_comment(stack1) {
                Err(LexError::UnknownError)
            } else {
                Ok((st.toks, stack1))
            }
        },
    }
}

// ---------------------------------------------------------------------------
// Spec model of the classifier
// ---------------------------------------------------------------------------

pub open spec fn all_numeric(s: Seq<char>) -> bool {
    forall|i: int| 0 <= i < s.len() ==> char_numeric(s[i])
}

/// Classifies one raw token on top of the already classified prefix.  An
/// empty raw token is skipped, except an empty char-literal body, which is
/// rejected: a char literal must hold exactly one value, never zero.
pub open spec fn classify_step(acc: Seq<GTokV>, t: RawTokV) -> Result<Seq<GTokV>, LexError> {
    if t.text.len() == 0 {
        match t.flag {
            TokenFlag::StringLiteral(StringLiteralType::Char) => Err(
                LexError::InvalidCharLiteralValue,
            ),
            _ => Ok(acc),
        }
    } else {
        match t.flag {
            TokenFlag::Literal => {
                match reserved_of(t.text) {
                    Some(r) => Ok(acc.push(GTokV::Reserved(r))),
                    None => {
                        if char_numeric(t.text[0]) {
                            if all_numeric(t.text) {
                                Ok(acc.push(GTokV::Digital(t.text)))
                            } else {
                                Ok(acc.push(GTokV::NumericalLexem(t.text)))
                            }
                        } else {
                            Ok(acc.push(GTokV::Name(t.text)))
                        }
                    },
                }
            },
            TokenFlag::Operational => {
                let can_merge = acc.len() > 0 && match acc.last() {
                    GTokV::Operational(p) => op_in_table(p + t.text),
                    _ => false,
                };
                if can_merge {
                    let merged = match acc.last() {
                        GTokV::Operational(p) => p + t.text,
                        _ => t.text,
                    };
                    Ok(acc.update(acc.len() - 1, GTokV::Operational(merged)))
                } else if t.text.len() > 1 {
                    Err(LexError::InvalidOperatorToken)
                } else {
                    match block_symbol_of(t.text[0]) {
                        Some(b) => Ok(acc.push(GTokV::BlockSymbol(b))),
                        None => {
                            if op_in_table(t.text) {
                                Ok(acc.push(GTokV::Operational(t.text)))
                            } else {
                                Err(LexError::InvalidOperatorToken)
                            }
                        },
                    }
                }
            },
            TokenFlag::StringLiteral(lt) => {
                match lt {
                    StringLiteralType::Char => Ok(acc.push(GTokV::CharLiteral(t.text[0]))),
                    StringLiteralType::String => Ok(acc.push(GTokV::StringLiteral(t.text))),
                }
            },
            TokenFlag::TokBrk => Ok(acc.push(GTokV::TokBrk)),
        }
    }
}

pub open spec fn classify_run(toks: Seq<RawTokV>, acc: Seq<GTokV>) -> Result<Seq<GTokV>, LexError>
    decreases toks.len(),
{
    if toks.len() == 0 {
        Ok(acc)
    } else {
        match classify_step(acc, toks[0]) {
            Ok(a2) => classify_run(toks.subrange(1, toks.len() as int), a2),
            Err(e) => Err(e),
        }
    }
}

/// Break markers are internal: they are removed from a line's final output.
pub open spec fn drop_breaks(s: Seq<GTokV>) -> Seq<GTokV> {
    s.filter(|g: GTokV| !(g is TokBrk))
}

/// The contract of `Lexer::lex_line`: raw tokens, then classification, then
/// break removal, with the context stack threaded through.
pub open spec fn lex_line_spec(line: Seq<char>, stack0: Seq<CtxV>) -> Result<
    (Seq<GTokV>, Seq<CtxV>),
    LexError,
> {
    match split_line_spec(line, stack0) {
        Err(e) => Err(e),
        Ok((toks, stack1)) => match classify_run(toks, Seq::empty()) {
            Err(e) => Err(e),
            Ok(gs) => Ok((drop_breaks(gs), stack1)),
        },
    }
}

pub open spec fn lines_view(s: Seq<String>) -> Seq<Seq<char>> {
    s.map_values(|l: String| l@)
}

pub open spec fn gtok_lines_view(s: Seq<Vec<FANGrammarToken>>) -> Seq<Seq<GTokV>> {
    s.map_values(|v: Vec<FANGrammarToken>| gtoks_view(v@))
}

/// Folds `lex_line_spec` over the lines, keeping non-empty outputs in order.
pub open spec fn buf_run(lines: Seq<Seq<char>>, stack: Seq<CtxV>, acc: Seq<Seq<GTokV>>) -> Result<
    (Seq<Seq<GTokV>>, Seq<CtxV>),
    LexError,
>
    decreases lines.len(),
{
    if lines.len() == 0 {
        Ok((acc, stack))
    } else {
        match lex_line_spec(lines[0], stack) {
            Err(e) => Err(e),
            Ok((gs, st2)) => buf_run(
                lines.subrange(1, lines.len() as int),
                st2,
                if gs.len() > 0 {
                    acc.push(gs)
                } else {
                    acc
                },
            ),
        }
    }
}

/// The contract of `Lexer::lex_buf`: every line in order under one shared
/// context stack; a context still open at end of input is a lexical error.
pub open spec fn lex_buf_spec(lines: Seq<Seq<char>>) -> Result<Seq<Seq<GTokV>>, LexError> {
    match buf_run(lines, Seq::empty(), Seq::empty()) {
        Err(e) => Err(e),
        Ok((r, s)) => if s.len() > 0 {
            Err(LexError::LiteralEndNotFound)
        } else {
            Ok(r)
        },
    }
}

// ---------------------------------------------------------------------------
// Executable tokenizer
// ---------------------------------------------------------------------------

fn lex_step_exec(toks: &mut Vec<(TokenFlag, Vec<char>)>, stack: &mut Vec<LexStackItem>, c: char)
    -> (r: Result<(), LexError>)
    ensures
        match r {
            Ok(_) => lex_step(
                LineStateV { toks: raw_view(old(toks)@), stack: stack_view(old(stack)@) },
                c,
            ) == Ok::<LineStateV, LexError>(
                LineStateV { toks: raw_view(final(toks)@), stack: stack_view(final(stack)@) },
            ),
            Err(e) => lex_step(
                LineStateV { toks: raw_view(old(toks)@), stack: stack_view(old(stack)@) },
                c,
            ) == Err::<LineStateV, LexError>(e),
        },
{
    let ghost st0 = LineStateV { toks: raw_view(toks@), stack: stack_view(stack@) };
    if stack.len() > 0 {
        let mut top = stack.pop().unwrap();
        proof {
            assert(st0.stack.last() == top@);
        }
        match top.kind {
            LexStackItemType::StringLiteral(lt) => {
                let delim = if matches!(lt, StringLiteralType::Char) {
                    '\''
                } else {
                    '"'
                };
                proof {
                    assert(delim == delim_of(lt));
                }
                if c == delim {
                    let n = top.data.len();
                    if n > 0 && top.data[n - 1] == '\\' {
                        top.data.push(c);
                        stack.push(top);
                        proof {
                            assert(stack_view(stack@) =~= st0.stack.update(
                                st0.stack.len() - 1,
                                CtxV { kind: st0.stack.last().kind, data: st0.stack.last().data.push(c) },
                            ));
                            assert(raw_view(toks@) =~= st0.toks);
                        }
                    } else {
                        toks.push((TokenFlag::StringLiteral(lt), top.data));
                        proof {
                            assert(stack_view(stack@) =~= st0.stack.drop_last());
                            assert(raw_view(toks@) =~= st0.toks.push(
                                RawTokV {
                                    flag: TokenFlag::StringLiteral(lt),
                                    text: st0.stack.last().data,
                                },
                            ));
                        }
                    }
                } else {
                    if matches!(lt, StringLiteralType::Char) {
                        let n = top.data.len();
                        if n == 0 || (n == 1 && top.data[0] == '\\') {
                            let mut d: Vec<char> = Vec::new();
                            d.push(c);
                            top.data = d;
                            stack.push(top);
                            proof {
                                assert(d@ =~= seq![c]);
                                assert(stack_view(stack@) =~= st0.stack.update(
                                    st0.stack.len() - 1,
                                    CtxV { kind: st0.stack.last().kind, data: seq![c] },
                                ));
                                assert(raw_view(toks@) =~= st0.toks);
                            }
                        } else {
                            return Err(LexError::InvalidCharLiteralValue);
                        }
                    } else {
                        top.data.push(c);
                        stack.push(top);
                        proof {
                            assert(stack_view(stack@) =~= st0.stack.update(
                                st0.stack.len() - 1,
                                CtxV { kind: st0.stack.last().kind, data: st0.stack.last().data.push(c) },
                            ));
                            assert(raw_view(toks@) =~= st0.toks);
                        }
                    }
                }
            },
            LexStackItemType::Comment => {
                stack.push(top);
                proof {
                    assert(stack_view(stack@) =~= st0.stack);
                    assert(raw_view(toks@) =~= st0.toks);
                }
            },
        }
    } else {
        if is_ws(c) {
            let tl = toks.len();
            if tl == 0 || matches!(toks[tl - 1].0, TokenFlag::TokBrk) {
                proof {
                    assert(tl > 0 ==> st0.toks.last().flag is TokBrk);
                }
            } else {
                let mut sp: Vec<char> = Vec::new();
                sp.push(' ');
                toks.push((TokenFlag::TokBrk, sp));
                proof {
                    assert(sp@ =~= seq![' ']);
                    assert(raw_view(toks@) =~= st0.toks.push(
                        RawTokV { flag: TokenFlag::TokBrk, text: seq![' '] },
                    ));
                }
            }
        } else {
            match LexStackItemType::try_from(&c) {
                Some(k) => {
                    stack.push(LexStackItem { kind: k, data: Vec::new() });
                    proof {
                        assert(stack_view(stack@) =~= st0.stack.push(
                            CtxV { kind: k, data: Seq::empty() },
                        ));
                        assert(raw_view(toks@) =~= st0.toks);
                    }
                },
                None => {
                    let tl = toks.len();
                    let word = TokenFlag::is_literal(c);
                    if tl > 0 && matches!(toks[tl - 1].0, TokenFlag::Literal) {
                        if word {
                            let mut last = toks.pop().unwrap();
                            last.1.push(c);
                            toks.push(last);
                            proof {
                                assert(raw_view(toks@) =~= st0.toks.update(
                                    st0.toks.len() - 1,
                                    RawTokV {
                                        flag: st0.toks.last().flag,
                                        text: st0.toks.last().text.push(c),
                                    },
                                ));
                                assert(stack_view(stack@) =~= st0.stack);
                            }
                        } else {
                            let mut d: Vec<char> = Vec::new();
                            d.push(c);
                            toks.push((TokenFlag::Operational, d));
                            proof {
                                assert(raw_view(toks@) =~= st0.toks.push(
                                    RawTokV { flag: TokenFlag::Operational, text: seq![c] },
                                ));
                                assert(stack_view(stack@) =~= st0.stack);
                            }
                        }
                    } else {
                        let mut d: Vec<char> = Vec::new();
                        d.push(c);
                        if word {
                            toks.push((TokenFlag::Literal, d));
                            proof {
                                assert(raw_view(toks@) =~= st0.toks.push(
                                    RawTokV { flag: TokenFlag::Literal, text: seq![c] },
                                ));
                                assert(stack_view(stack@) =~= st0.stack);
                            }
                        } else {
                            toks.push((TokenFlag::Operational, d));
                            proof {
                                assert(raw_view(toks@) =~= st0.toks.push(
                                    RawTokV { flag: TokenFlag::Operational, text: seq![c] },
                                ));
                                assert(stack_view(stack@) =~= st0.stack);
                            }
                        }
                    }
                },
            }
        }
    }
    Ok(())
}

impl Lexer {
    /// Scans one line into raw flagged tokens, mutating the carried context
    /// stack.  On an error the stack is left unspecified; the caller aborts.
    #[verifier::loop_isolation(false)]
    pub fn split_line<'a>(line: &'a str, stack: &mut Vec<LexStackItem>) -> (r: Result<
        TokenLine,
        LexError,
    >)
        ensures
            match r {
                Ok(toks) => split_line_spec(line@, stack_view(old(stack)@)) == Ok::<
                    (Seq<RawTokV>, Seq<CtxV>),
                    LexError,
                >((toks_view(toks@), stack_view(final(stack)@))),
                Err(e) => split_line_spec(line@, stack_view(old(stack)@)) == Err::<
                    (Seq<RawTokV>, Seq<CtxV>),
                    LexError,
                >(e),
            },
    {
        let ghost st0 = LineStateV { toks: Seq::empty(), stack: stack_view(stack@) };
        let n = line.unicode_len();
        let mut raw: Vec<(TokenFlag, Vec<char>)> = Vec::new();
        let mut i: usize = 0;
        proof {
            assert(raw_view(raw@) =~= Seq::<RawTokV>::empty());
            assert(line@.subrange(0, n as int) =~= line@);
        }
        while i < n
            invariant
                i <= n,
                n == line@.len(),
                lex_run(line@, st0) == lex_run(
                    line@.subrange(i as int, n as int),
                    LineStateV { toks: raw_view(raw@), stack: stack_view(stack@) },
                ),
            decreases n - i,
        {
            let c = line.get_char(i);
            let ghost pre = LineStateV { toks: raw_view(raw@), stack: stack_view(stack@) };
            let ghost seg = line@.subrange(i as int, n as int);
            proof {
                assert(seg.len() > 0);
                assert(seg[0] == line@[i as int]);
                assert(seg.subrange(1, seg.len() as int) =~= line@.subrange(i as int + 1, n as int));
            }
            match lex_step_exec(&mut raw, stack, c) {
                Ok(_) => {},
                Err(e) => {
                    proof {
                        assert(lex_run(seg, pre) == Err::<LineStateV, LexError>(e));
                        assert(st0 == LineStateV {
                            toks: Seq::<RawTokV>::empty(),
                            stack: stack_view(old(stack)@),
                        });
                    }
                    return Err(e);
                },
            }
            i += 1;
        }
        proof {
            assert(line@.subrange(n as int, n as int) =~= Seq::<char>::empty());
            assert(lex_run(line@, st0) == Ok::<LineStateV, LexError>(
                LineStateV { toks: raw_view(raw@), stack: stack_view(stack@) },
            ));
        }
        let ghost endst = LineStateV { toks: raw_view(raw@), stack: stack_view(stack@) };
        // a line comment never survives the end of its line
        if stack.len() > 0 {
            let li = stack.len() - 1;
            if matches!(stack[li].kind, LexStackItemType::Comment) {
                stack.pop();
                proof {
                    assert(stack_view(stack@) =~= endst.stack.drop_last());
                }
            }
        }
        let ghost stack1 = if endst.stack.len() > 0 && endst.stack.last().kind is Comment {
            endst.stack.drop_last()
        } else {
            endst.stack
        };
        proof {
            assert(stack_view(stack@) =~= stack1);
        }
        // a comment context anywhere deeper is an internal invariant breach
        let mut j: usize = 0;
        let mut found = false;
        while j < stack.len()
            invariant
                j <= stack.len(),
                stack_view(stack@) == stack1,
                found <==> exists|k: int|
                    0 <= k < j && #[trigger] stack1[k].kind is Comment,
            decreases stack.len() - j,
        {
            if matches!(stack[j].kind, LexStackItemType::Comment) {
                found = true;
                proof {
                    assert(stack1[j as int].kind is Comment);
                }
            }
            j += 1;
        }
        if found {
            return Err(LexError::UnknownError);
        }
        proof {
            assert(!has_comment(stack1));
        }
        let mut out: TokenLine = Vec::new();
        let mut k: usize = 0;
        proof {
            assert(toks_view(out@) =~= raw_view(raw@).subrange(0, 0));
        }
        while k < raw.len()
            invariant
                k <= raw.len(),
                toks_view(out@) == raw_view(raw@).subrange(0, k as int),
            decreases raw.len() - k,
        {
            let p = &raw[k];
            let s = chars_to_string(&p.1);
            out.push((p.0, s));
            proof {
                assert(toks_view(out@) =~= raw_view(raw@).subrange(0, k as int + 1));
            }
            k += 1;
        }
        proof {
            assert(raw_view(raw@).subrange(0, raw@.len() as int) =~= raw_view(raw@));
        }
        Ok(out)
    }
}


// ---------------------------------------------------------------------------
// Executable classifier and drivers
// ---------------------------------------------------------------------------

#[verifier::loop_isolation(false)]
fn all_numeric_exec(text: &String) -> (r: bool)
    ensures
        r == all_numeric(text@),
{
    let s = text.as_str();
    let n = s.unicode_len();
    let mut i: usize = 0;
    while i < n
        invariant
            i <= n,
            n == text@.len(),
            s@ == text@,
            forall|k: int| 0 <= k < i ==> char_numeric(text@[k]),
        decreases n - i,
    {
        let c = s.get_char(i);
        if !exec_char_numeric(c) {
            proof {
                assert(!char_numeric(text@[i as int]));
            }
            return false;
        }
        i += 1;
    }
    true
}

fn classify_push(lexems: &mut Vec<FANGrammarToken>, flag: TokenFlag, text: &String) -> (r: Result<
    (),
    LexError,
>)
    ensures
        match r {
            Ok(_) => classify_step(gtoks_view(old(lexems)@), RawTokV { flag, text: text@ }) == Ok::<
                Seq<GTokV>,
                LexError,
            >(gtoks_view(final(lexems)@)),
            Err(e) => classify_step(gtoks_view(old(lexems)@), RawTokV { flag, text: text@ })
                == Err::<Seq<GTokV>, LexError>(e),
        },
{
    let ghost acc0 = gtoks_view(lexems@);
    if text.as_str().is_empty() {
        if matches!(flag, TokenFlag::StringLiteral(StringLiteralType::Char)) {
            return Err(LexError::InvalidCharLiteralValue);
        }
        return Ok(());
    }
    match flag {
        TokenFlag::Literal => {
            match FANReserved::try_from(text.as_str()) {
                Some(rsv) => {
                    lexems.push(FANGrammarToken::Reserved(rsv));
                    proof {
                        assert(gtoks_view(lexems@) =~= acc0.push(GTokV::Reserved(rsv)));
                    }
                },
                None => {
                    let c0 = text.as_str().get_char(0);
                    if exec_char_numeric(c0) {
                        if all_numeric_exec(text) {
                            lexems.push(FANGrammarToken::Digital(text.clone()));
                            proof {
                                assert(gtoks_view(lexems@) =~= acc0.push(GTokV::Digital(text@)));
                            }
                        } else {
                            lexems.push(FANGrammarToken::NumericalLexem(text.clone()));
                            proof {
                                assert(gtoks_view(lexems@) =~= acc0.push(
                                    GTokV::NumericalLexem(text@),
                                ));
                            }
                        }
                    } else {
                        lexems.push(FANGrammarToken::Name(text.clone()));
                        proof {
                            assert(gtoks_view(lexems@) =~= acc0.push(GTokV::Name(text@)));
                        }
                    }
                },
            }
        },
        TokenFlag::Operational => {
            let mut merged = false;
            if lexems.len() > 0 {
                let top = lexems.pop().unwrap();
                proof {
                    assert(top@ == acc0.last());
                }
                match top {
                    FANGrammarToken::Operational(op) => {
                        match op.try_expand(text.as_str()) {
                            Some(y) => {
                                lexems.push(FANGrammarToken::Operational(y));
                                merged = true;
                                proof {
                                    assert(gtoks_view(lexems@) =~= acc0.update(
                                        acc0.len() - 1,
                                        GTokV::Operational(op@ + text@),
                                    ));
                                }
                            },
                            None => {
                                lexems.push(FANGrammarToken::Operational(op));
                                proof {
                                    assert(gtoks_view(lexems@) =~= acc0);
                                }
                            },
                        }
                    },
                    other => {
                        lexems.push(other);
                        proof {
                            assert(gtoks_view(lexems@) =~= acc0);
                        }
                    },
                }
            }
            if !merged {
                let tlen = text.as_str().unicode_len();
                if tlen > 1 {
                    return Err(LexError::InvalidOperatorToken);
                }
                let c0 = text.as_str().get_char(0);
                match BlockSymbol::try_from(&c0) {
                    Some(bs) => {
                        lexems.push(FANGrammarToken::BlockSymbol(bs));
                        proof {
                            assert(gtoks_view(lexems@) =~= acc0.push(GTokV::BlockSymbol(bs)));
                        }
                    },
                    None => {
                        match Operational(String::new()).try_expand(text.as_str()) {
                            Some(op) => {
                                proof {
                                    assert(Seq::<char>::empty() + text@ =~= text@);
                                }
                                lexems.push(FANGrammarToken::Operational(op));
                                proof {
                                    assert(gtoks_view(lexems@) =~= acc0.push(
                                        GTokV::Operational(text@),
                                    ));
                                }
                            },
                            None => {
                                proof {
                                    assert(Seq::<char>::empty() + text@ =~= text@);
                                }
                                return Err(LexError::InvalidOperatorToken);
                            },
                        }
                    },
                }
            }
        },
        TokenFlag::StringLiteral(lt) => {
            match lt {
                StringLiteralType::Char => {
                    let c0 = text.as_str().get_char(0);
                    lexems.push(FANGrammarToken::CharLiteral(c0));
                    proof {
                        assert(gtoks_view(lexems@) =~= acc0.push(GTokV::CharLiteral(text@[0])));
                    }
                },
                StringLiteralType::String => {
                    lexems.push(FANGrammarToken::StringLiteral(text.clone()));
                    proof {
                        assert(gtoks_view(lexems@) =~= acc0.push(GTokV::StringLiteral(text@)));
                    }
                },
            }
        },
        TokenFlag::TokBrk => {
            lexems.push(FANGrammarToken::TokBrk);
            proof {
                assert(gtoks_view(lexems@) =~= acc0.push(GTokV::TokBrk));
            }
        },
    }
    Ok(())
}

/// Removing a break marker commutes with extending the classified sequence.
proof fn lemma_filter_push(s: Seq<GTokV>, g: GTokV)
    ensures
        drop_breaks(s.push(g)) == if !(g is TokBrk) {
            drop_breaks(s).push(g)
        } else {
            drop_breaks(s)
        },
{
    reveal(Seq::filter);
    assert(s.push(g).drop_last() =~= s);
    assert(s.push(g).last() == g);
}

impl Lexer {
    /// Tokenizes and classifies one line: raw scan, grammar classification
    /// with two-step operator merging, then break-marker removal.
    #[verifier::loop_isolation(false)]
    pub fn lex_line<'a>(line: &'a str, stack: &mut Vec<LexStackItem>) -> (r: Result<
        Vec<FANGrammarToken>,
        LexError,
    >)
        ensures
            match r {
                Ok(gs) => lex_line_spec(line@, stack_view(old(stack)@)) == Ok::<
                    (Seq<GTokV>, Seq<CtxV>),
                    LexError,
                >((gtoks_view(gs@), stack_view(final(stack)@))),
                Err(e) => lex_line_spec(line@, stack_view(old(stack)@)) == Err::<
                    (Seq<GTokV>, Seq<CtxV>),
                    LexError,
                >(e),
            },
    {
        let toks = match Self::split_line(line, stack) {
            Ok(t) => t,
            Err(e) => {
                return Err(e);
            },
        };
        let ghost rv = toks_view(toks@);
        let mut lexems: Vec<FANGrammarToken> = Vec::new();
        let mut k: usize = 0;
        proof {
            assert(gtoks_view(lexems@) =~= Seq::<GTokV>::empty());
            assert(rv.subrange(0, rv.len() as int) =~= rv);
        }
        while k < toks.len()
            invariant
                k <= toks.len(),
                classify_run(rv, Seq::empty()) == classify_run(
                    rv.subrange(k as int, rv.len() as int),
                    gtoks_view(lexems@),
                ),
            decreases toks.len() - k,
        {
            let ghost seg = rv.subrange(k as int, rv.len() as int);
            let ghost acc = gtoks_view(lexems@);
            proof {
                assert(seg.len() > 0);
                assert(seg[0] == rv[k as int]);
                assert(seg.subrange(1, seg.len() as int) =~= rv.subrange(
                    k as int + 1,
                    rv.len() as int,
                ));
            }
            let p = &toks[k];
            proof {
                assert(RawTokV { flag: p.0, text: p.1@ } == rv[k as int]);
            }
            match classify_push(&mut lexems, p.0, &p.1) {
                Ok(_) => {},
                Err(e) => {
                    proof {
                        assert(classify_run(seg, acc) == Err::<Seq<GTokV>, LexError>(e));
                    }
                    return Err(e);
                },
            }
            k += 1;
        }
        proof {
            assert(rv.subrange(rv.len() as int, rv.len() as int) =~= Seq::<RawTokV>::empty());
            assert(classify_run(rv, Seq::empty()) == Ok::<Seq<GTokV>, LexError>(
                gtoks_view(lexems@),
            ));
        }
        let ghost cls = gtoks_view(lexems@);
        let mut out: Vec<FANGrammarToken> = Vec::new();
        let mut j: usize = 0;
        proof {
            reveal(Seq::filter);
            assert(cls.subrange(0, 0) =~= Seq::<GTokV>::empty());
            assert(gtoks_view(out@) =~= drop_breaks(cls.subrange(0, 0)));
        }
        while j < lexems.len()
            invariant
                j <= lexems.len(),
                gtoks_view(out@) == drop_breaks(cls.subrange(0, j as int)),
            decreases lexems.len() - j,
        {
            let ghost pref = cls.subrange(0, j as int);
            let t = &lexems[j];
            if !matches!(t, FANGrammarToken::TokBrk) {
                out.push(t.duplicate());
            }
            proof {
                assert(cls.subrange(0, j as int + 1) =~= pref.push(t@));
                lemma_filter_push(pref, t@);
                if !(t@ is TokBrk) {
                    assert(gtoks_view(out@) =~= drop_breaks(pref).push(t@));
                }
                assert(gtoks_view(out@) == drop_breaks(cls.subrange(0, j as int + 1)));
            }
            j += 1;
        }
        proof {
            assert(cls.subrange(0, cls.len() as int) =~= cls);
        }
        Ok(out)
    }

    /// Lexes an ordered buffer of lines under one shared context stack;
    /// a literal still open after the last line is an error.
    #[verifier::loop_isolation(false)]
    pub fn lex_buf(data: &Vec<String>) -> (r: Result<Vec<Vec<FANGrammarToken>>, LexError>)
        ensures
            match r {
                Ok(out) => lex_buf_spec(lines_view(data@)) == Ok::<Seq<Seq<GTokV>>, LexError>(
                    gtok_lines_view(out@),
                ),
                Err(e) => lex_buf_spec(lines_view(data@)) == Err::<Seq<Seq<GTokV>>, LexError>(e),
            },
    {
        let ghost lv = lines_view(data@);
        let mut stack: Vec<LexStackItem> = Vec::new();
        let mut out: Vec<Vec<FANGrammarToken>> = Vec::new();
        let mut i: usize = 0;
        proof {
            assert(stack_view(stack@) =~= Seq::<CtxV>::empty());
            assert(gtok_lines_view(out@) =~= Seq::<Seq<GTokV>>::empty());
            assert(lv.subrange(0, lv.len() as int) =~= lv);
        }
        while i < data.len()
            invariant
                i <= data.len(),
                buf_run(lv, Seq::empty(), Seq::empty()) == buf_run(
                    lv.subrange(i as int, lv.len() as int),
                    stack_view(stack@),
                    gtok_lines_view(out@),
                ),
            decreases data.len() - i,
        {
            let ghost seg = lv.subrange(i as int, lv.len() as int);
            let ghost acc = gtok_lines_view(out@);
            let ghost stv = stack_view(stack@);
            proof {
                assert(seg.len() > 0);
                assert(seg[0] == lv[i as int]);
                assert(seg.subrange(1, seg.len() as int) =~= lv.subrange(
                    i as int + 1,
                    lv.len() as int,
                ));
            }
            let s = match Self::lex_line(data[i].as_str(), &mut stack) {
                Ok(s) => s,
                Err(e) => {
                    proof {
                        assert(buf_run(seg, stv, acc) == Err::<
                            (Seq<Seq<GTokV>>, Seq<CtxV>),
                            LexError,
                        >(e));
                    }
                    return Err(e);
                },
            };
            if s.len() > 0 {
                out.push(s);
                proof {
                    assert(gtok_lines_view(out@) =~= acc.push(gtoks_view(out@.last()@)));
                }
            }
            i += 1;
        }
        proof {
            assert(lv.subrange(lv.len() as int, lv.len() as int) =~= Seq::<Seq<char>>::empty());
        }
        if stack.len() > 0 {
            return Err(LexError::LiteralEndNotFound);
        }
        Ok(out)
    }
}

} // verus!
