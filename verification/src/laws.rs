//! Proved laws of the tokenizer, classifier and tree builder, stated over
//! the spec-level machines of `lexer` and `parser`.
use vstd::prelude::*;
use crate::lexer::CtxV;
use crate::lexer::FANReserved;
use crate::lexer::GTokV;
use crate::lexer::LexError;
use crate::lexer::LexStackItemType;
use crate::lexer::LineStateV;
use crate::lexer::RawTokV;
use crate::lexer::StringLiteralType;
use crate::lexer::TokenFlag;
use crate::lexer::all_numeric;
use crate::lexer::block_symbol_of;
use crate::lexer::char_numeric;
use crate::lexer::classify_run;
use crate::lexer::classify_step;
use crate::lexer::ctx_kind_of;
use crate::lexer::drop_breaks;
use crate::lexer::has_comment;
use crate::lexer::lex_line_spec;
use crate::lexer::lex_run;
use crate::lexer::lex_step;
use crate::lexer::op_in_table;
use crate::lexer::reserved_of;
use crate::lexer::split_line_spec;
use crate::lexer::ws_char;
use crate::parser::ExpressionV;
use crate::parser::ParseErrorV;
use crate::parser::expand_spec;
use crate::parser::unpredicted_v;

verus! {

/// Running the scanner over a concatenation runs it over each part in turn.
pub proof fn lemma_run_append(a: Seq<char>, b: Seq<char>, st: LineStateV)
    ensures
        lex_run(a + b, st) == (match lex_run(a, st) {
            Ok(m) => lex_run(b, m),
            Err(e) => Err(e),
        }),
    decreases a.len(),
{
    if a.len() == 0 {
        assert(a + b =~= b);
    } else {
        assert((a + b)[0] == a[0]);
        match lex_step(st, a[0]) {
            Ok(m) => {
                assert((a + b).subrange(1, (a + b).len() as int) =~= a.subrange(
                    1,
                    a.len() as int,
                ) + b);
                lemma_run_append(a.subrange(1, a.len() as int), b, m);
            },
            Err(_) => {},
        }
    }
}

/// Inside an open string literal, every character other than the delimiter
/// and the escape marker is appended verbatim to the buffer.
proof fn lemma_string_fill(mid: Seq<char>, st: LineStateV)
    requires
        st.stack.len() > 0,
        st.stack.last().kind == LexStackItemType::StringLiteral(StringLiteralType::String),
        forall|i: int| 0 <= i < mid.len() ==> mid[i] != '"' && mid[i] != '\\',
    ensures
        lex_run(mid, st) == Ok::<LineStateV, LexError>(
            LineStateV {
                toks: st.toks,
                stack: st.stack.update(
                    st.stack.len() - 1,
                    CtxV { kind: st.stack.last().kind, data: st.stack.last().data + mid },
                ),
            },
        ),
    decreases mid.len(),
{
    let top = st.stack.last();
    if mid.len() == 0 {
        assert(top.data + mid =~= top.data);
        assert(st.stack.update(st.stack.len() - 1, CtxV { kind: top.kind, data: top.data })
            =~= st.stack);
    } else {
        let c = mid[0];
        let st2 = LineStateV {
            toks: st.toks,
            stack: st.stack.update(
                st.stack.len() - 1,
                CtxV { kind: top.kind, data: top.data.push(c) },
            ),
        };
        assert(lex_step(st, c) == Ok::<LineStateV, LexError>(st2));
        lemma_string_fill(mid.subrange(1, mid.len() as int), st2);
        assert(top.data.push(c) + mid.subrange(1, mid.len() as int) =~= top.data + mid);
        assert(st2.stack.update(
            st2.stack.len() - 1,
            CtxV { kind: top.kind, data: top.data + mid },
        ) =~= st.stack.update(st.stack.len() - 1, CtxV { kind: top.kind, data: top.data + mid }));
    }
}

/// A balanced, unescaped string literal on one line tokenizes to exactly one
/// literal-content token whose text is precisely the characters between the
/// delimiters, and leaves no open context behind.
pub proof fn lemma_string_literal_round_trip(mid: Seq<char>)
    requires
        forall|i: int| 0 <= i < mid.len() ==> mid[i] != '"' && mid[i] != '\\',
    ensures
        split_line_spec(seq!['"'] + mid + seq!['"'], Seq::empty()) == Ok::<
            (Seq<RawTokV>, Seq<CtxV>),
            LexError,
        >(
            (
                seq![
                    RawTokV {
                        flag: TokenFlag::StringLiteral(StringLiteralType::String),
                        text: mid,
                    },
                ],
                Seq::empty(),
            ),
        ),
{
    reveal_with_fuel(lex_run, 6);
    let st0 = LineStateV { toks: Seq::empty(), stack: Seq::empty() };
    let line = seq!['"'] + mid + seq!['"'];
    let opened = CtxV {
        kind: LexStackItemType::StringLiteral(StringLiteralType::String),
        data: Seq::empty(),
    };
    let st1 = LineStateV { toks: Seq::empty(), stack: seq![opened] };
    assert(ctx_kind_of('"') == Some(LexStackItemType::StringLiteral(StringLiteralType::String)));
    assert(lex_step(st0, '"') == Ok::<LineStateV, LexError>(
        LineStateV { toks: st0.toks, stack: st0.stack.push(opened) },
    ));
    assert(st0.stack.push(opened) =~= seq![opened]);
    assert(line =~= seq!['"'] + (mid + seq!['"']));
    lemma_run_append(seq!['"'], mid + seq!['"'], st0);
    assert(seq!['"'].subrange(1, 1) =~= Seq::<char>::empty());
    assert(lex_run(seq!['"'], st0) == Ok::<LineStateV, LexError>(st1));
    lemma_run_append(mid, seq!['"'], st1);
    lemma_string_fill(mid, st1);
    let filled = CtxV {
        kind: LexStackItemType::StringLiteral(StringLiteralType::String),
        data: mid,
    };
    let st2 = LineStateV { toks: Seq::empty(), stack: seq![filled] };
    assert(Seq::<char>::empty() + mid =~= mid);
    assert(seq![opened].update(0, filled) =~= seq![filled]);
    assert(lex_run(mid, st1) == Ok::<LineStateV, LexError>(st2));
    let closed = LineStateV {
        toks: seq![
            RawTokV { flag: TokenFlag::StringLiteral(StringLiteralType::String), text: mid },
        ],
        stack: Seq::empty(),
    };
    assert(st2.stack.last() == filled);
    assert(mid.len() > 0 ==> mid.last() != '\\');
    assert(lex_step(st2, '"') == Ok::<LineStateV, LexError>(
        LineStateV {
            toks: st2.toks.push(
                RawTokV { flag: TokenFlag::StringLiteral(StringLiteralType::String), text: mid },
            ),
            stack: st2.stack.drop_last(),
        },
    ));
    assert(st2.toks.push(
        RawTokV { flag: TokenFlag::StringLiteral(StringLiteralType::String), text: mid },
    ) =~= closed.toks);
    assert(st2.stack.drop_last() =~= Seq::<CtxV>::empty());
    assert(seq!['"'].subrange(1, 1) =~= Seq::<char>::empty());
    assert(lex_run(seq!['"'], st2) == Ok::<LineStateV, LexError>(closed));
    assert(lex_run(line, st0) == Ok::<LineStateV, LexError>(closed));
    assert(!has_comment(closed.stack));
}

/// The classified image of a balanced, unescaped string literal is exactly
/// one `StringLiteral` token holding the text between the delimiters.
pub proof fn lemma_string_literal_classified(mid: Seq<char>)
    requires
        mid.len() > 0,
        forall|i: int| 0 <= i < mid.len() ==> mid[i] != '"' && mid[i] != '\\',
    ensures
        lex_line_spec(seq!['"'] + mid + seq!['"'], Seq::empty()) == Ok::<
            (Seq<GTokV>, Seq<CtxV>),
            LexError,
        >((seq![GTokV::StringLiteral(mid)], Seq::empty())),
{
    lemma_string_literal_round_trip(mid);
    let tok = RawTokV { flag: TokenFlag::StringLiteral(StringLiteralType::String), text: mid };
    reveal_with_fuel(classify_run, 3);
    assert(seq![tok].subrange(1, 1) =~= Seq::<RawTokV>::empty());
    assert(classify_step(Seq::empty(), tok) == Ok::<Seq<GTokV>, LexError>(
        Seq::empty().push(GTokV::StringLiteral(mid)),
    ));
    assert(classify_run(seq![tok], Seq::empty()) == Ok::<Seq<GTokV>, LexError>(
        Seq::empty().push(GTokV::StringLiteral(mid)),
    ));
    reveal(Seq::filter);
    let gs = Seq::<GTokV>::empty().push(GTokV::StringLiteral(mid));
    assert(gs.drop_last() =~= Seq::<GTokV>::empty());
    assert(drop_breaks(gs) =~= seq![GTokV::StringLiteral(mid)]);
}

/// A char literal holding exactly one ordinary character closes cleanly into
/// one literal-content token.
pub proof fn lemma_char_literal_single(c: char)
    requires
        c != '\'' && c != '\\',
    ensures
        split_line_spec(seq!['\'', c, '\''], Seq::empty()) == Ok::<
            (Seq<RawTokV>, Seq<CtxV>),
            LexError,
        >(
            (
                seq![
                    RawTokV {
                        flag: TokenFlag::StringLiteral(StringLiteralType::Char),
                        text: seq![c],
                    },
                ],
                Seq::empty(),
            ),
        ),
{
    reveal_with_fuel(lex_run, 6);
    let st0 = LineStateV { toks: Seq::empty(), stack: Seq::empty() };
    let line = seq!['\'', c, '\''];
    let opened = CtxV {
        kind: LexStackItemType::StringLiteral(StringLiteralType::Char),
        data: Seq::empty(),
    };
    let st1 = LineStateV { toks: Seq::empty(), stack: seq![opened] };
    assert(lex_step(st0, '\'') == Ok::<LineStateV, LexError>(
        LineStateV { toks: st0.toks, stack: st0.stack.push(opened) },
    ));
    assert(st0.stack.push(opened) =~= seq![opened]);
    let filled = CtxV { kind: LexStackItemType::StringLiteral(StringLiteralType::Char), data: seq![c] };
    let st2 = LineStateV { toks: Seq::empty(), stack: seq![filled] };
    assert(seq![opened].update(0, filled) =~= seq![filled]);
    assert(lex_step(st1, c) == Ok::<LineStateV, LexError>(st2));
    let fin = LineStateV {
        toks: seq![
            RawTokV { flag: TokenFlag::StringLiteral(StringLiteralType::Char), text: seq![c] },
        ],
        stack: Seq::empty(),
    };
    assert(seq![c].last() == c);
    assert(lex_step(st2, '\'') == Ok::<LineStateV, LexError>(
        LineStateV {
            toks: st2.toks.push(
                RawTokV { flag: TokenFlag::StringLiteral(StringLiteralType::Char), text: seq![c] },
            ),
            stack: st2.stack.drop_last(),
        },
    ));
    assert(st2.toks.push(
        RawTokV { flag: TokenFlag::StringLiteral(StringLiteralType::Char), text: seq![c] },
    ) =~= fin.toks);
    assert(st2.stack.drop_last() =~= Seq::<CtxV>::empty());
    assert(line[0] == '\'' && line[1] == c && line[2] == '\'');
    assert(line.subrange(1, 3)[0] == c);
    assert(line.subrange(1, 3).subrange(1, 2) =~= line.subrange(2, 3));
    assert(line.subrange(2, 3)[0] == '\'');
    assert(line.subrange(2, 3).subrange(1, 1) =~= Seq::<char>::empty());
    assert(lex_run(line.subrange(2, 3), st2) == Ok::<LineStateV, LexError>(fin));
    assert(lex_run(line.subrange(1, 3), st1) == Ok::<LineStateV, LexError>(fin));
    assert(lex_run(line, st0) == Ok::<LineStateV, LexError>(fin));
    assert(!has_comment(fin.stack));
}

/// A char literal fed a second ordinary character before its closing
/// delimiter fails with `InvalidCharLiteralValue`, whatever follows.
pub proof fn lemma_char_literal_two_values(c1: char, c2: char, rest: Seq<char>)
    requires
        c1 != '\'' && c1 != '\\',
        c2 != '\'',
    ensures
        split_line_spec(seq!['\'', c1, c2] + rest, Seq::empty()) == Err::<
            (Seq<RawTokV>, Seq<CtxV>),
            LexError,
        >(LexError::InvalidCharLiteralValue),
{
    reveal_with_fuel(lex_run, 6);
    let st0 = LineStateV { toks: Seq::empty(), stack: Seq::empty() };
    let pre = seq!['\'', c1, c2];
    let opened = CtxV {
        kind: LexStackItemType::StringLiteral(StringLiteralType::Char),
        data: Seq::empty(),
    };
    let st1 = LineStateV { toks: Seq::empty(), stack: seq![opened] };
    assert(lex_step(st0, '\'') == Ok::<LineStateV, LexError>(
        LineStateV { toks: st0.toks, stack: st0.stack.push(opened) },
    ));
    assert(st0.stack.push(opened) =~= seq![opened]);
    let filled = CtxV {
        kind: LexStackItemType::StringLiteral(StringLiteralType::Char),
        data: seq![c1],
    };
    let st2 = LineStateV { toks: Seq::empty(), stack: seq![filled] };
    assert(seq![opened].update(0, filled) =~= seq![filled]);
    assert(lex_step(st1, c1) == Ok::<LineStateV, LexError>(st2));
    assert(seq![c1].len() == 1 && seq![c1].last() == c1);
    assert(lex_step(st2, c2) == Err::<LineStateV, LexError>(LexError::InvalidCharLiteralValue));
    assert(pre[0] == '\'' && pre[1] == c1 && pre[2] == c2);
    assert(pre.subrange(1, 3)[0] == c1);
    assert(pre.subrange(1, 3).subrange(1, 2) =~= pre.subrange(2, 3));
    assert(pre.subrange(2, 3)[0] == c2);
    assert(lex_run(pre.subrange(2, 3), st2) == Err::<LineStateV, LexError>(
        LexError::InvalidCharLiteralValue,
    ));
    assert(lex_run(pre.subrange(1, 3), st1) == Err::<LineStateV, LexError>(
        LexError::InvalidCharLiteralValue,
    ));
    assert(lex_run(pre, st0) == Err::<LineStateV, LexError>(LexError::InvalidCharLiteralValue));
    lemma_run_append(pre, rest, st0);
}

/// Outside any literal, whitespace after a break marker (or before any token
/// at all) changes nothing.
pub proof fn lemma_break_dedup(st: LineStateV, c: char)
    requires
        ws_char(c),
        st.stack.len() == 0,
        st.toks.len() == 0 || st.toks.last().flag is TokBrk,
    ensures
        lex_step(st, c) == Ok::<LineStateV, LexError>(st),
{
}

proof fn lemma_ws_noop(w: Seq<char>, st: LineStateV)
    requires
        st.stack.len() == 0,
        st.toks.len() == 0 || st.toks.last().flag is TokBrk,
        forall|i: int| 0 <= i < w.len() ==> ws_char(w[i]),
    ensures
        lex_run(w, st) == Ok::<LineStateV, LexError>(st),
    decreases w.len(),
{
    if w.len() > 0 {
        lemma_ws_noop(w.subrange(1, w.len() as int), st);
    }
}

/// A run of consecutive whitespace has exactly the effect of a single space:
/// at most one break marker.
pub proof fn lemma_whitespace_run(w: Seq<char>, st: LineStateV)
    requires
        w.len() >= 1,
        forall|i: int| 0 <= i < w.len() ==> ws_char(w[i]),
        st.stack.len() == 0,
    ensures
        lex_run(w, st) == lex_run(seq![' '], st),
{
    reveal_with_fuel(lex_run, 3);
    assert(seq![' '].subrange(1, 1) =~= Seq::<char>::empty());
    assert(ws_char(w[0]));
    if st.toks.len() == 0 || st.toks.last().flag is TokBrk {
        lemma_ws_noop(w, st);
    } else {
        let st1 = LineStateV {
            toks: st.toks.push(RawTokV { flag: TokenFlag::TokBrk, text: seq![' '] }),
            stack: st.stack,
        };
        assert(lex_step(st, w[0]) == Ok::<LineStateV, LexError>(st1));
        assert(lex_step(st, ' ') == Ok::<LineStateV, LexError>(st1));
        lemma_ws_noop(w.subrange(1, w.len() as int), st1);
    }
}

/// Break markers never appear in a line's classified output.
pub proof fn lemma_no_breaks_in_output(line: Seq<char>, stack0: Seq<CtxV>)
    ensures
        lex_line_spec(line, stack0) matches Ok(r) ==> forall|i: int|
            0 <= i < r.0.len() ==> !(#[trigger] r.0[i] is TokBrk),
{
    match lex_line_spec(line, stack0) {
        Ok(r) => {
            match split_line_spec(line, stack0) {
                Ok((toks, _)) => {
                    match classify_run(toks, Seq::empty()) {
                        Ok(gs) => {
                            assert(r.0 == drop_breaks(gs));
                            assert forall|i: int| 0 <= i < r.0.len() implies !(#[trigger] r.0[i]
                                is TokBrk) by {
                                gs.lemma_filter_pred(|g: GTokV| !(g is TokBrk), i);
                            }
                        },
                        Err(_) => {},
                    }
                },
                Err(_) => {},
            }
        },
        Err(_) => {},
    }
}

/// Every operator lexeme in the table is one or two characters wide.
pub proof fn lemma_op_table_width(s: Seq<char>)
    requires
        op_in_table(s),
    ensures
        1 <= s.len() <= 2,
{
    reveal_strlit("=");
    reveal_strlit("+=");
    reveal_strlit("-=");
    reveal_strlit("/=");
    reveal_strlit("*=");
    reveal_strlit("+");
    reveal_strlit("-");
    reveal_strlit("*");
    reveal_strlit("/");
    reveal_strlit("&");
    reveal_strlit("->");
    reveal_strlit("^");
    reveal_strlit(":");
    reveal_strlit("::");
    reveal_strlit(".");
    reveal_strlit(",");
    reveal_strlit("%");
    reveal_strlit("~");
    reveal_strlit("==");
    reveal_strlit("!=");
    reveal_strlit(";");
    reveal_strlit("&&");
    reveal_strlit("|");
    reveal_strlit("||");
    reveal_strlit("<");
    reveal_strlit(">");
    reveal_strlit(">=");
    reveal_strlit("<=");
    reveal_strlit("\\");
}

/// Whether every operator token of a classified sequence is a table entry.
pub open spec fn ops_from_table(gs: Seq<GTokV>) -> bool {
    forall|i: int| 0 <= i < gs.len() ==> (#[trigger] gs[i] matches GTokV::Operational(o)
        ==> op_in_table(o))
}

proof fn lemma_ops_push(acc: Seq<GTokV>, g: GTokV)
    requires
        ops_from_table(acc),
        g matches GTokV::Operational(o) ==> op_in_table(o),
    ensures
        ops_from_table(acc.push(g)),
{
    assert forall|i: int| 0 <= i < acc.push(g).len() implies (#[trigger] acc.push(g)[i]
        matches GTokV::Operational(o) ==> op_in_table(o)) by {
        if i < acc.len() {
            assert(acc.push(g)[i] == acc[i]);
            assert(acc[i] matches GTokV::Operational(o) ==> op_in_table(o));
        } else {
            assert(acc.push(g)[i] == g);
        }
    }
}

proof fn lemma_ops_update_last(acc: Seq<GTokV>, g: GTokV)
    requires
        ops_from_table(acc),
        acc.len() > 0,
        g matches GTokV::Operational(o) ==> op_in_table(o),
    ensures
        ops_from_table(acc.update(acc.len() - 1, g)),
{
    let a2 = acc.update(acc.len() - 1, g);
    assert forall|i: int| 0 <= i < a2.len() implies (#[trigger] a2[i]
        matches GTokV::Operational(o) ==> op_in_table(o)) by {
        if i < acc.len() - 1 {
            assert(a2[i] == acc[i]);
            assert(acc[i] matches GTokV::Operational(o) ==> op_in_table(o));
        } else {
            assert(a2[i] == g);
        }
    }
}

proof fn lemma_classify_step_ops(acc: Seq<GTokV>, t: RawTokV)
    requires
        ops_from_table(acc),
    ensures
        classify_step(acc, t) matches Ok(a2) ==> ops_from_table(a2),
{
    if t.text.len() == 0 {
    } else {
        match t.flag {
            TokenFlag::Literal => {
                match reserved_of(t.text) {
                    Some(r) => {
                        lemma_ops_push(acc, GTokV::Reserved(r));
                    },
                    None => {
                        if char_numeric(t.text[0]) {
                            if all_numeric(t.text) {
                                lemma_ops_push(acc, GTokV::Digital(t.text));
                            } else {
                                lemma_ops_push(acc, GTokV::NumericalLexem(t.text));
                            }
                        } else {
                            lemma_ops_push(acc, GTokV::Name(t.text));
                        }
                    },
                }
            },
            TokenFlag::Operational => {
                let can_merge = acc.len() > 0 && match acc.last() {
                    GTokV::Operational(p) => op_in_table(p + t.text),
                    _ => false,
                };
                if can_merge {
                    let m = match acc.last() {
                        GTokV::Operational(p) => p + t.text,
                        _ => t.text,
                    };
                    assert(acc.last() == acc[acc.len() - 1]);
                    lemma_ops_update_last(acc, GTokV::Operational(m));
                } else if t.text.len() > 1 {
                } else {
                    match block_symbol_of(t.text[0]) {
                        Some(b) => {
                            lemma_ops_push(acc, GTokV::BlockSymbol(b));
                        },
                        None => {
                            if op_in_table(t.text) {
                                lemma_ops_push(acc, GTokV::Operational(t.text));
                            }
                        },
                    }
                }
            },
            TokenFlag::StringLiteral(lt) => {
                match lt {
                    StringLiteralType::Char => {
                        lemma_ops_push(acc, GTokV::CharLiteral(t.text[0]));
                    },
                    StringLiteralType::String => {
                        lemma_ops_push(acc, GTokV::StringLiteral(t.text));
                    },
                }
            },
            TokenFlag::TokBrk => {
                lemma_ops_push(acc, GTokV::TokBrk);
            },
        }
    }
}

/// The operator merge is maximal yet exactly two tokens wide: every operator
/// the classifier emits is an entry of the fixed table, hence never more
/// than two characters, so no three single-character tokens ever fuse.
pub proof fn lemma_classifier_operators_valid(toks: Seq<RawTokV>, acc: Seq<GTokV>)
    requires
        ops_from_table(acc),
    ensures
        classify_run(toks, acc) matches Ok(gs) ==> ops_from_table(gs) && forall|i: int|
            0 <= i < gs.len() ==> (#[trigger] gs[i] matches GTokV::Operational(o) ==> o.len()
                <= 2),
    decreases toks.len(),
{
    if toks.len() > 0 {
        lemma_classify_step_ops(acc, toks[0]);
        match classify_step(acc, toks[0]) {
            Ok(a2) => {
                lemma_classifier_operators_valid(toks.subrange(1, toks.len() as int), a2);
            },
            Err(_) => {},
        }
    }
    match classify_run(toks, acc) {
        Ok(gs) => {
            assert forall|i: int| 0 <= i < gs.len() implies (#[trigger] gs[i]
                matches GTokV::Operational(o) ==> o.len() <= 2) by {
                match gs[i] {
                    GTokV::Operational(o) => {
                        assert(op_in_table(o));
                        lemma_op_table_width(o);
                    },
                    _ => {},
                }
            }
        },
        Err(_) => {},
    }
}

/// Inside a line comment every further character of the line is discarded.
proof fn lemma_comment_eats(rest: Seq<char>, st: LineStateV)
    requires
        st.stack.len() > 0,
        st.stack.last().kind is Comment,
    ensures
        lex_run(rest, st) == Ok::<LineStateV, LexError>(st),
    decreases rest.len(),
{
    if rest.len() > 0 {
        lemma_comment_eats(rest.subrange(1, rest.len() as int), st);
    }
}

/// A line comment started outside any literal swallows the rest of its line
/// and leaves the carried context stack exactly as it was: the next line's
/// tokenization cannot be affected, whatever follows the marker.
pub proof fn lemma_comment_isolated(line: Seq<char>, rest: Seq<char>, stack0: Seq<CtxV>)
    requires
        lex_run(line, LineStateV { toks: Seq::empty(), stack: stack0 }) matches Ok(m) && m.stack.len()
            == 0,
    ensures
        split_line_spec(line + seq!['#'] + rest, stack0) == split_line_spec(line, stack0),
{
    let st0 = LineStateV { toks: Seq::empty(), stack: stack0 };
    let m = lex_run(line, st0)->Ok_0;
    assert(line + seq!['#'] + rest =~= line + (seq!['#'] + rest));
    lemma_run_append(line, seq!['#'] + rest, st0);
    let com = CtxV { kind: LexStackItemType::Comment, data: Seq::empty() };
    let m2 = LineStateV { toks: m.toks, stack: m.stack.push(com) };
    assert(ctx_kind_of('#') == Some(LexStackItemType::Comment));
    assert((seq!['#'] + rest)[0] == '#');
    assert(lex_step(m, '#') == Ok::<LineStateV, LexError>(m2));
    assert((seq!['#'] + rest).subrange(1, (seq!['#'] + rest).len() as int) =~= rest);
    lemma_comment_eats(rest, m2);
    assert(lex_run(seq!['#'] + rest, m) == Ok::<LineStateV, LexError>(m2));
    assert(m2.stack.last().kind is Comment);
    assert(m2.stack.drop_last() =~= m.stack);
    assert(!has_comment(m.stack));
}

/// A bare `else` or `from` as the very first token of a fresh node always
/// fails with `Unexpected`, whatever stands around it.
pub proof fn lemma_leading_else_from_rejected(rw: FANReserved)
    requires
        rw == FANReserved::Else || rw == FANReserved::From,
    ensures
        expand_spec(unpredicted_v(), GTokV::Reserved(rw)) == Err::<
            (ExpressionV, bool),
            ParseErrorV,
        >(ParseErrorV::Unexpected(GTokV::Reserved(rw))),
{
}

} // verus!
