//! Properties of the engine that span its operations.

use vstd::prelude::*;
use super::functions::{FunctionId, ID_OPEN_BRACKET};
use super::text::is_ascii_digit;
use super::model::{
    add_constant, arg_count, build_history, build_top, builder_init, close_loop, constant_pos,
    constant_value, delete_input, eval, eval_error, eval_input, exp_string, expression_eval,
    expression_str, fill_args, finish, first_bracket, fresh_op, functor_id, insert_by_key,
    is_binary_id, is_decimal, is_known_op, is_operand_char, join_texts, memory_recover,
    memory_store, node_idx, node_str, op_name, op_prec, outcome_reply, perform_exp_input,
    positions_within, unit_entry, close_bracket, node_prec,
    push_functor, push_into, push_operand, push_temp_input, put_functor, put_token, replay, reset,
    reset_temp, set_constant, sort_by_key, table_lookup, tokenize, tokenize_state, unit_entries,
    BuilderModel, CalcModel, ExecFn, Node, ParseFn, EXP_UNIT_NAME_ADD, EXP_UNIT_NAME_CLOSE_BRK,
    EXP_UNIT_NAME_COS, EXP_UNIT_NAME_DIV, EXP_UNIT_NAME_INV, EXP_UNIT_NAME_MUL,
    EXP_UNIT_NAME_OPEN_BRK, EXP_UNIT_NAME_SIN, EXP_UNIT_NAME_SQR, EXP_UNIT_NAME_SQRT,
    EXP_UNIT_NAME_SUB, EXP_UNIT_NAME_TAN,
};
use super::calculator::{lemma_push_functor_count, lemma_replay_count};

verus! {

/// The chars of `ss`, one piece after the other.
pub open spec fn flatten(ss: Seq<Seq<char>>) -> Seq<char>
    decreases ss.len(),
{
    if ss.len() == 0 {
        Seq::empty()
    } else {
        flatten(ss.drop_last()) + ss.last()
    }
}

proof fn lemma_flatten_push(ss: Seq<Seq<char>>, s: Seq<char>)
    ensures
        flatten(ss.push(s)) == flatten(ss) + s,
{
    assert(ss.push(s).drop_last() =~= ss);
}

proof fn lemma_tokenize_state(s: Seq<char>)
    ensures
        flatten(tokenize_state(s).0) + tokenize_state(s).1 == s,
        forall|i: int| 0 <= i < tokenize_state(s).0.len() ==> #[trigger] tokenize_state(s).0[i].len() > 0,
    decreases s.len(),
{
    if s.len() > 0 {
        let prev = tokenize_state(s.drop_last());
        lemma_tokenize_state(s.drop_last());
        let c = s.last();
        let done = if prev.1.len() > 0 {
            prev.0.push(prev.1)
        } else {
            prev.0
        };
        lemma_flatten_push(prev.0, prev.1);
        lemma_flatten_push(done, seq![c]);
        if prev.1.len() == 0 {
            assert(flatten(prev.0) + prev.1 =~= flatten(prev.0));
        }
        assert(s.drop_last().push(c) =~= s);
        assert(flatten(prev.0) + prev.1.push(c) =~= (flatten(prev.0) + prev.1).push(c));
        assert((flatten(done) + seq![c]) + Seq::<char>::empty() =~= (flatten(prev.0) + prev.1).push(c));
    }
}

/// Tokenizing loses and adds nothing: the tokens, joined, are the input,
/// and no token is empty.
pub proof fn law_tokenize_keeps_text(s: Seq<char>)
    ensures
        flatten(tokenize(s)) == s,
        forall|i: int| 0 <= i < tokenize(s).len() ==> #[trigger] tokenize(s)[i].len() > 0,
{
    lemma_tokenize_state(s);
    let st = tokenize_state(s);
    if st.1.len() > 0 {
        lemma_flatten_push(st.0, st.1);
    } else {
        assert(flatten(st.0) + st.1 =~= flatten(st.0));
    }
}

/// An error inside an operand is the error of the whole unit: the first
/// failing operand, from the left, decides it.
pub proof fn law_error_propagates(ef: ExecFn, n: Node)
    ensures
        n matches Node::Binary { left: Some(l), right: Some(r), .. } ==> (eval(ef, *l) is Err
            ==> eval(ef, n) == eval(ef, *l)) && (eval(ef, *l) is Ok && eval(ef, *r) is Err ==> eval(
            ef,
            n,
        ) == eval(ef, *r)),
        n matches Node::Unary { arg: Some(a), .. } ==> (eval(ef, *a) is Err ==> eval(ef, n) == eval(
            ef,
            *a,
        )),
{
}

/// A bracket is transparent to evaluation, and shows what it encloses
/// between "(" and ")".
pub proof fn law_bracket_transparent(ef: ExecFn, a: Node, idx: int)
    ensures
        ({
            let b = Node::Unary { id: ID_OPEN_BRACKET, prec: 999, idx, arg: Some(Box::new(a)) };
            &&& eval(ef, b) == eval(ef, a)
            &&& node_str(b) == "("@ + node_str(a) + ")"@
        }),
{
}

/// Every token that the builder takes counts once.
pub proof fn law_token_counted(m: BuilderModel, token: Seq<char>, prefer_eval: bool, pf: ParseFn, ef: ExecFn)
    ensures
        push_operand(m, token, pf).0.token_count == m.token_count + 1,
        push_functor(m, token, prefer_eval, ef).0.token_count == m.token_count + 1,
{
    lemma_push_functor_count(m, token, prefer_eval, ef);
}


/// Each operator's symbol names it, and none is the closing bracket.
pub proof fn lemma_op_names(id: FunctionId)
    requires
        is_known_op(id),
    ensures
        functor_id(op_name(id)) == Some(id),
        op_name(id) != EXP_UNIT_NAME_CLOSE_BRK@,
        op_name(id).len() > 0,
        !(op_name(id).len() == 1 && is_operand_char(op_name(id)[0])),
{
    reveal_strlit("+");
    reveal_strlit("\u{2212}");
    reveal_strlit("\u{d7}");
    reveal_strlit("\u{f7}");
    reveal_strlit("sin");
    reveal_strlit("cos");
    reveal_strlit("tan");
    reveal_strlit("\u{215f}");
    reveal_strlit("\u{b2}");
    reveal_strlit("\u{221a}");
    reveal_strlit("(");
    reveal_strlit(")");
    assert(EXP_UNIT_NAME_ADD@[0] == '+');
    assert(EXP_UNIT_NAME_SUB@[0] == '\u{2212}');
    assert(EXP_UNIT_NAME_MUL@[0] == '\u{d7}');
    assert(EXP_UNIT_NAME_DIV@[0] == '\u{f7}');
    assert(EXP_UNIT_NAME_SIN@[0] == 's');
    assert(EXP_UNIT_NAME_COS@[0] == 'c');
    assert(EXP_UNIT_NAME_TAN@[0] == 't');
    assert(EXP_UNIT_NAME_INV@[0] == '\u{215f}');
    assert(EXP_UNIT_NAME_SQR@[0] == '\u{b2}');
    assert(EXP_UNIT_NAME_SQRT@[0] == '\u{221a}');
    assert(EXP_UNIT_NAME_OPEN_BRK@[0] == '(');
    assert(EXP_UNIT_NAME_CLOSE_BRK@[0] == ')');
    reveal_with_fuel(table_lookup, 12);
}

pub open spec fn leaf(idx: int, text: Seq<char>) -> Node {
    Node::Const { idx, text }
}

pub open spec fn binary(id: FunctionId, idx: int, l: Node, r: Node) -> Node {
    Node::Binary { id, prec: op_prec(id), idx, left: Some(Box::new(l)), right: Some(Box::new(r)) }
}

/// Reading "a o b" into a fresh builder, then finishing: the expression is
/// `o` applied to the two numbers, the first on its left (or the error of
/// that application); its value is that of `o` on the two numbers; and the
/// builder's text before finishing is the input's.
pub proof fn law_infix_binary(
    a: Seq<char>,
    id: FunctionId,
    b: Seq<char>,
    prefer_eval: bool,
    pf: ParseFn,
    ef: ExecFn,
    va: Seq<char>,
    vb: Seq<char>,
)
    requires
        is_binary_id(id),
        pf(a) == Some(va),
        pf(b) == Some(vb),
    ensures
        ({
            let m1 = push_operand(builder_init(), a, pf).0;
            let m2 = push_functor(m1, op_name(id), prefer_eval, ef);
            let m3 = push_operand(m2.0, b, pf).0;
            let fin = finish(m3, ef);
            let root = binary(id, 2, leaf(1, va), leaf(3, vb));
            &&& m2.1 == Ok::<Option<Seq<char>>, Seq<char>>(None)
            &&& fin.1 == match ef(id, va, vb) {
                Ok(_) => Ok::<Option<Node>, Seq<char>>(Some(root)),
                Err(e) => Err(e),
            }
            &&& expression_eval(ef, Some(root)) == ef(id, va, vb)
            &&& exp_string(m3) == va + op_name(id) + vb
        }),
{
    lemma_op_names(id);
    let m1 = push_operand(builder_init(), a, pf).0;
    let m2 = push_functor(m1, op_name(id), prefer_eval, ef);
    let m3 = push_operand(m2.0, b, pf).0;
    let op = fresh_op(id, 2);
    assert(m1.operands =~= seq![leaf(1, va)]);
    assert(m1.operators.len() == 0);
    assert(m2.0.operators =~= seq![op]);
    assert(m2.1 == Ok::<Option<Seq<char>>, Seq<char>>(None));
    assert(m3.operands =~= seq![leaf(1, va), leaf(3, vb)]);
    assert(m3.operators =~= seq![op]);
    let root = binary(id, 2, leaf(1, va), leaf(3, vb));
    assert(fill_args(op, m3.operands, -1, 2) == (Some(root), Seq::<Node>::empty())) by {
        reveal_with_fuel(fill_args, 3);
        assert(m3.operands.drop_last() =~= seq![leaf(1, va)]);
        assert(m3.operands.drop_last().drop_last() =~= Seq::<Node>::empty());
    }
    let step = build_top(m3, -1, ef);
    assert(eval(ef, root) == ef(id, va, vb)) by {
        reveal_with_fuel(eval, 2);
    }
    assert(step.0.operators.len() == 0);
    assert(step.0.operands =~= seq![root]);
    assert(finish(step.0, ef).1 == Ok::<Option<Node>, Seq<char>>(Some(root)));
    reveal_with_fuel(sort_by_key, 4);
    reveal_with_fuel(insert_by_key, 4);
    reveal_with_fuel(join_texts, 4);
    assert(unit_entries(m3) =~= seq![(1int, va), (3int, vb), (2int, op_name(id))]);
    assert(sort_by_key(unit_entries(m3)) =~= seq![
        (1int, va),
        (2int, op_name(id)),
        (3int, vb),
    ]);
    assert(join_texts(seq![(1int, va), (2int, op_name(id)), (3int, vb)]) =~= va
        + op_name(id) + vb);
    assert(finish(m3, ef).1 == match ef(id, va, vb) {
        Ok(_) => Ok::<Option<Node>, Seq<char>>(Some(root)),
        Err(e) => Err(e),
    });
    assert(expression_eval(ef, Some(root)) == ef(id, va, vb));
    assert(exp_string(m3) == va + op_name(id) + vb);
}


pub open spec fn finished(root: Node, ef: ExecFn) -> Result<Option<Node>, Seq<char>> {
    match eval(ef, root) {
        Ok(_) => Ok(Some(root)),
        Err(e) => Err(e),
    }
}

/// Reading "a o1 b o2 c" into a fresh builder, then finishing: the operator
/// that binds tighter, or the first of two that bind alike, is applied first
/// (or the first error of evaluating the result is answered).
pub proof fn law_precedence(
    a: Seq<char>,
    o1: FunctionId,
    b: Seq<char>,
    o2: FunctionId,
    c: Seq<char>,
    p1: bool,
    p2: bool,
    pf: ParseFn,
    ef: ExecFn,
    va: Seq<char>,
    vb: Seq<char>,
    vc: Seq<char>,
)
    requires
        is_binary_id(o1),
        is_binary_id(o2),
        pf(a) == Some(va),
        pf(b) == Some(vb),
        pf(c) == Some(vc),
    ensures
        ({
            let m1 = push_operand(builder_init(), a, pf).0;
            let m2 = push_functor(m1, op_name(o1), p1, ef).0;
            let m3 = push_operand(m2, b, pf).0;
            let m4 = push_functor(m3, op_name(o2), p2, ef).0;
            let m5 = push_operand(m4, c, pf).0;
            let root = if op_prec(o1) <= op_prec(o2) {
                binary(o2, 4, binary(o1, 2, leaf(1, va), leaf(3, vb)), leaf(5, vc))
            } else {
                binary(o1, 2, leaf(1, va), binary(o2, 4, leaf(3, vb), leaf(5, vc)))
            };
            finish(m5, ef).1 == finished(root, ef)
        }),
{
    lemma_op_names(o1);
    lemma_op_names(o2);
    let m1 = push_operand(builder_init(), a, pf).0;
    let m2 = push_functor(m1, op_name(o1), p1, ef).0;
    let m3 = push_operand(m2, b, pf).0;
    let m4 = push_functor(m3, op_name(o2), p2, ef).0;
    let m5 = push_operand(m4, c, pf).0;
    let f1 = fresh_op(o1, 2);
    let f2 = fresh_op(o2, 4);
    let la = leaf(1, va);
    let lb = leaf(3, vb);
    let lc = leaf(5, vc);
    assert(m2.operators =~= seq![f1]);
    assert(m3.operands =~= seq![la, lb]);
    if op_prec(o1) <= op_prec(o2) {
        let x = binary(o1, 2, la, lb);
        assert(fill_args(f1, m3.operands, -1, 2) == (Some(x), Seq::<Node>::empty())) by {
            reveal_with_fuel(fill_args, 3);
            assert(m3.operands.drop_last() =~= seq![la]);
            assert(m3.operands.drop_last().drop_last() =~= Seq::<Node>::empty());
        }
        assert(m4.operators =~= seq![f2]);
        assert(m4.operands =~= seq![x]);
        assert(m5.operands =~= seq![x, lc]);
        let root = binary(o2, 4, x, lc);
        assert(fill_args(f2, m5.operands, -1, 2) == (Some(root), Seq::<Node>::empty())) by {
            reveal_with_fuel(fill_args, 3);
            assert(m5.operands.drop_last() =~= seq![x]);
            assert(m5.operands.drop_last().drop_last() =~= Seq::<Node>::empty());
        }
        let step = build_top(m5, -1, ef);
        assert(step.0.operands =~= seq![root]);
        assert(step.0.operators.len() == 0);
        assert(finish(step.0, ef).1 == Ok::<Option<Node>, Seq<char>>(Some(root)));
        assert(finish(m5, ef).1 == finished(root, ef));
    } else {
        assert(m4.operators =~= seq![f1, f2]);
        assert(m5.operands =~= seq![la, lb, lc]);
        let y = binary(o2, 4, lb, lc);
        assert(fill_args(f2, m5.operands, -1, 2) == (Some(y), seq![la])) by {
            reveal_with_fuel(fill_args, 3);
            assert(m5.operands.drop_last() =~= seq![la, lb]);
            assert(m5.operands.drop_last().drop_last() =~= seq![la]);
        }
        let s1 = build_top(m5, -1, ef);
        assert(s1.0.operands =~= seq![la, y]);
        assert(s1.0.operators =~= seq![f1]);
        let root = binary(o1, 2, la, y);
        assert(fill_args(f1, s1.0.operands, -1, 2) == (Some(root), Seq::<Node>::empty())) by {
            reveal_with_fuel(fill_args, 3);
            assert(s1.0.operands.drop_last() =~= seq![la]);
            assert(s1.0.operands.drop_last().drop_last() =~= Seq::<Node>::empty());
        }
        let s2 = build_top(s1.0, -1, ef);
        assert(s2.0.operands =~= seq![root]);
        assert(s2.0.operators.len() == 0);
        assert(finish(s2.0, ef).1 == Ok::<Option<Node>, Seq<char>>(Some(root)));
        assert(eval(ef, root) == (match eval(ef, y) {
            Err(e) => Err(e),
            Ok(v) => ef(o1, va, v),
        })) by {
            reveal_with_fuel(eval, 2);
        }
        assert(finish(s1.0, ef).1 == finished(root, ef));
        assert(finish(m5, ef).1 == finished(root, ef));
    }
}


/// A digit or a dot typed on the keypad extends the operand being typed,
/// which is shown; nothing else changes but the last result, which is
/// dropped.
pub proof fn law_typing_extends_operand(c: CalcModel, d: char, pf: ParseFn, ef: ExecFn)
    requires
        is_operand_char(d),
    ensures
        ({
            let step = perform_exp_input(c, seq![d], pf, ef);
            &&& step.1 == Ok::<Option<Seq<char>>, Seq<char>>(Some(c.operand_token.push(d)))
            &&& step.0 == CalcModel {
                operand_token: c.operand_token.push(d),
                last_result: seq![],
                last_immediate: c.operand_token.push(d),
                cached_history: seq![],
                ..c
            }
        }),
{
}

proof fn lemma_constant_pos_update(cs: Seq<(Seq<char>, Seq<char>)>, name: Seq<char>, v: Seq<char>)
    requires
        constant_pos(cs, name) >= 0,
    ensures
        constant_pos(cs.update(constant_pos(cs, name), (name, v)), name) == constant_pos(cs, name),
    decreases cs.len(),
{
    lemma_constant_pos_bounds(cs.drop_last(), name);
    if cs.last().0 != name {
        lemma_constant_pos_update(cs.drop_last(), name, v);
        assert(cs.update(constant_pos(cs, name), (name, v)).drop_last() =~= cs.drop_last().update(
            constant_pos(cs, name),
            (name, v),
        ));
    }
}

proof fn lemma_constant_pos_other(
    cs: Seq<(Seq<char>, Seq<char>)>,
    p: int,
    name: Seq<char>,
    v: Seq<char>,
    other: Seq<char>,
)
    requires
        0 <= p < cs.len(),
        cs[p].0 == name,
        other != name,
    ensures
        constant_pos(cs.update(p, (name, v)), other) == constant_pos(cs, other),
    decreases cs.len(),
{
    if p < cs.len() - 1 {
        lemma_constant_pos_other(cs.drop_last(), p, name, v, other);
        assert(cs.update(p, (name, v)).drop_last() =~= cs.drop_last().update(p, (name, v)));
    } else {
        assert(cs.update(p, (name, v)).drop_last() =~= cs.drop_last());
    }
}

proof fn lemma_constant_pos_bounds(cs: Seq<(Seq<char>, Seq<char>)>, name: Seq<char>)
    ensures
        -1 <= constant_pos(cs, name) < cs.len(),
        constant_pos(cs, name) >= 0 ==> cs[constant_pos(cs, name)].0 == name,
    decreases cs.len(),
{
    if cs.len() > 0 {
        lemma_constant_pos_bounds(cs.drop_last(), name);
    }
}

/// A constant set by name reads back its value, and leaves every other
/// constant as it was.
pub proof fn law_constant_set_get(
    cs: Seq<(Seq<char>, Seq<char>)>,
    name: Seq<char>,
    value: Seq<char>,
    other: Seq<char>,
)
    ensures
        constant_value(set_constant(cs, name, value), name) == Some(value),
        other != name ==> constant_value(set_constant(cs, name, value), other) == constant_value(
            cs,
            other,
        ),
{
    lemma_constant_pos_bounds(cs, name);
    lemma_constant_pos_bounds(cs, other);
    let p = constant_pos(cs, name);
    if p >= 0 {
        lemma_constant_pos_update(cs, name, value);
        if other != name {
            lemma_constant_pos_other(cs, p, name, value, other);
            lemma_constant_pos_bounds(cs.update(p, (name, value)), other);
        }
    } else {
        assert(cs.push((name, value)).drop_last() =~= cs);
    }
}

/// Typing the name of a constant shows its value, which becomes the
/// operand being typed.
pub proof fn law_constant_input(c: CalcModel, name: Seq<char>, value: Seq<char>, pf: ParseFn, ef: ExecFn)
    requires
        name.len() > 0,
        !(name.len() == 1 && is_operand_char(name[0])),
    ensures
        ({
            let step = perform_exp_input(add_constant(c, name, value), name, pf, ef);
            &&& step.1 == Ok::<Option<Seq<char>>, Seq<char>>(Some(value))
            &&& step.0.operand_token == value
            &&& step.0.builder == c.builder
            &&& step.0.input_tokens == c.input_tokens
        }),
{
    law_constant_set_get(c.constants, name, value, name);
}

/// Memory store, then memory recall, gives back the last number shown.
pub proof fn law_memory_round_trip(c: CalcModel)
    requires
        is_decimal(c.last_immediate),
    ensures
        memory_recover(memory_store(c).0).1 == Ok::<Option<Seq<char>>, Seq<char>>(Some(c.last_immediate)),
        memory_recover(memory_store(c).0).0.operand_token == c.last_immediate,
{
}

/// Clear answers "0", forgets the expression, and keeps the memory and the
/// constants.
pub proof fn law_clear(c: CalcModel)
    ensures
        reset(c).1 == Ok::<Option<Seq<char>>, Seq<char>>(Some("0"@)),
        build_history(reset(c).0) == Seq::<char>::empty(),
        reset(c).0.memory == c.memory,
        reset(c).0.constants == c.constants,
        reset(c).0.input_tokens.len() == 0,
{
    assert(unit_entries(builder_init()) =~= seq![]);
    assert(build_history(reset(c).0) =~= Seq::<char>::empty());
}


/// Evaluation always succeeds in answering: either the value, which is
/// then the last result, with the expression forgotten; or nothing, when
/// the expression could not be evaluated, and then what was typed is kept.
pub proof fn law_eval_outcome(c: CalcModel, pf: ParseFn, ef: ExecFn)
    ensures
        ({
            let step = eval_input(c, pf, ef);
            &&& step.1 is Ok
            &&& step.1 == Ok::<Option<Seq<char>>, Seq<char>>(None) ==> {
                &&& step.0.input_tokens == c.input_tokens
                &&& step.0.operand_token == c.operand_token
                &&& step.0.last_result == c.last_result
                &&& step.0.memory == c.memory
                &&& step.0.constants == c.constants
            }
            &&& step.1 matches Ok(Some(v)) ==> {
                &&& step.0.last_result == v
                &&& step.0.input_tokens.len() == 0
                &&& step.0.operand_token.len() == 0
                &&& step.0.builder == builder_init()
            }
        }),
{
    let temp = c.operand_token.len() > 0;
    let c1 = if temp {
        CalcModel {
            builder: push_operand(c.builder, c.operand_token, pf).0,
            input_tokens: c.input_tokens.push(c.operand_token),
            operand_token: seq![],
            ..c
        }
    } else {
        c
    };
    let fin = finish(c1.builder, ef);
    let c2 = CalcModel { builder: fin.0, ..c1 };
    let e1 = CalcModel { builder: builder_init(), ..c2 };
    let e2 = if temp {
        CalcModel {
            operand_token: e1.input_tokens.last(),
            input_tokens: e1.input_tokens.drop_last(),
            ..e1
        }
    } else {
        e1
    };
    if temp {
        assert(e1.input_tokens.drop_last() =~= c.input_tokens);
    }
    lemma_replay_count(e2, e2.input_tokens, pf, ef);
    assert(eval_error(c2, temp, pf, ef) == replay(e2, e2.input_tokens, pf, ef).0);
    let r = eval_error(c2, temp, pf, ef);
    assert(r.input_tokens == c.input_tokens);
    assert(r.operand_token == c.operand_token);
    assert(r.last_result == c.last_result);
    let step = eval_input(c, pf, ef);
    assert(step.1 is Ok);
    if step.1 == Ok::<Option<Seq<char>>, Seq<char>>(None) {
        assert(step.0 == r);
    }
}

/// A digit typed into a non-empty operand, then deleted, leaves the
/// operand as it was, and shows it.
pub proof fn law_type_then_delete(c: CalcModel, d: char, pf: ParseFn, ef: ExecFn)
    requires
        is_operand_char(d),
        c.operand_token.len() > 0,
    ensures
        ({
            let typed = perform_exp_input(c, seq![d], pf, ef).0;
            let del = delete_input(typed, pf, ef);
            &&& del.1 == Ok::<Option<Seq<char>>, Seq<char>>(Some(c.operand_token))
            &&& del.0.operand_token == c.operand_token
            &&& del.0.builder == c.builder
            &&& del.0.input_tokens == c.input_tokens
        }),
{
    assert(c.operand_token.push(d).drop_last() =~= c.operand_token);
}


/// On the keypad, a digit, an operator of two operands, a digit, and "=":
/// the history shows the input as typed, and "=" answers the operator
/// applied to the two numbers (nothing when that fails); after success the
/// history shows the evaluated expression followed by " =", and the value
/// is the last result.
pub proof fn law_keypad_binary(
    c: CalcModel,
    d1: char,
    id: FunctionId,
    d2: char,
    pf: ParseFn,
    ef: ExecFn,
    v1: Seq<char>,
    v2: Seq<char>,
)
    requires
        c.builder == builder_init(),
        c.operand_token.len() == 0,
        c.last_result.len() == 0,
        c.input_tokens.len() == 0,
        !c.need_sync_tokens,
        constant_value(c.constants, op_name(id)) is None,
        is_ascii_digit(d1),
        is_ascii_digit(d2),
        is_binary_id(id),
        pf(seq![d1]) == Some(v1),
        pf(seq![d2]) == Some(v2),
    ensures
        ({
            let s1 = perform_exp_input(c, seq![d1], pf, ef).0;
            let s2 = perform_exp_input(s1, op_name(id), pf, ef).0;
            let s3 = perform_exp_input(s2, seq![d2], pf, ef).0;
            let e = eval_input(s3, pf, ef);
            &&& build_history(s3) == v1 + op_name(id) + seq![d2]
            &&& e.1 == match ef(id, v1, v2) {
                Ok(v) => Ok::<Option<Seq<char>>, Seq<char>>(Some(v)),
                Err(_) => Ok(None),
            }
            &&& ef(id, v1, v2) matches Ok(v) ==> {
                &&& build_history(e.0) == v1 + op_name(id) + v2 + " ="@
                &&& e.0.last_result == v
            }
        }),
{
    lemma_op_names(id);
    let name = op_name(id);
    let s1 = perform_exp_input(c, seq![d1], pf, ef).0;
    assert(s1.operand_token =~= seq![d1]);
    assert(s1.builder == builder_init());
    assert(is_decimal(seq![d1]));
    let t1 = push_temp_input(s1, pf, ef);
    let la = leaf(1, v1);
    assert(t1.builder.operands =~= seq![la]);
    assert(t1.builder.operators.len() == 0);
    assert(t1.builder.token_count == 1);
    assert(!t1.need_sync_tokens);
    let f = fresh_op(id, 2);
    let pfn = put_functor(t1, name, ef);
    assert(pfn.0.builder.operators =~= seq![f]);
    assert(pfn.1 == Ok::<Option<Seq<char>>, Seq<char>>(None));
    let s2 = perform_exp_input(s1, name, pf, ef).0;
    assert(s2.builder == pfn.0.builder);
    assert(s2.operand_token.len() == 0);
    assert(s2.last_result.len() == 0);
    let s3 = perform_exp_input(s2, seq![d2], pf, ef).0;
    assert(s3.operand_token =~= seq![d2]);
    assert(s3.builder == s2.builder);
    reveal_with_fuel(sort_by_key, 4);
    reveal_with_fuel(insert_by_key, 4);
    reveal_with_fuel(join_texts, 4);
    assert(unit_entries(s3.builder) =~= seq![(1int, v1), (2int, name)]);
    assert(sort_by_key(unit_entries(s3.builder)) =~= seq![(1int, v1), (2int, name)]);
    assert(exp_string(s3.builder) =~= v1 + name);
    // "="
    let b4 = push_operand(s3.builder, s3.operand_token, pf).0;
    let lb = leaf(3, v2);
    assert(b4.operands =~= seq![la, lb]);
    assert(b4.operators =~= seq![f]);
    let root = binary(id, 2, la, lb);
    assert(fill_args(f, b4.operands, -1, 2) == (Some(root), Seq::<Node>::empty())) by {
        reveal_with_fuel(fill_args, 3);
        assert(b4.operands.drop_last() =~= seq![la]);
        assert(b4.operands.drop_last().drop_last() =~= Seq::<Node>::empty());
    }
    assert(eval(ef, root) == ef(id, v1, v2)) by {
        reveal_with_fuel(eval, 2);
    }
    let step = build_top(b4, -1, ef);
    assert(step.0.operands =~= seq![root]);
    assert(step.0.operators.len() == 0);
    assert(finish(step.0, ef).1 == Ok::<Option<Node>, Seq<char>>(Some(root)));
    assert(node_str(root) == v1 + name + v2) by {
        reveal_with_fuel(node_str, 2);
    }
    assert(expression_str(Some(root)) + " ="@ =~= v1 + name + v2 + " ="@);
}


/// After "=" succeeds with a decimal number, an operator typed next takes
/// that number as its left operand.
pub proof fn law_result_feeds_next(
    c: CalcModel,
    id: FunctionId,
    pf: ParseFn,
    ef: ExecFn,
    v: Seq<char>,
    w: Seq<char>,
)
    requires
        eval_input(c, pf, ef).1 == Ok::<Option<Seq<char>>, Seq<char>>(Some(v)),
        is_decimal(v),
        pf(v) == Some(w),
        is_binary_id(id),
        constant_value(c.constants, op_name(id)) is None,
    ensures
        ({
            let next = perform_exp_input(eval_input(c, pf, ef).0, op_name(id), pf, ef);
            &&& next.0.builder.operands == seq![leaf(1, w)]
            &&& next.0.builder.operators == seq![fresh_op(id, 2)]
            &&& next.0.last_result.len() == 0
            &&& next.1 == Ok::<Option<Seq<char>>, Seq<char>>(None)
        }),
{
    law_eval_outcome(c, pf, ef);
    lemma_op_names(id);
    let e = eval_input(c, pf, ef).0;
    assert(e.constants == c.constants);
    let t1 = push_temp_input(e, pf, ef);
    assert(t1.builder.operands =~= seq![leaf(1, w)]);
    assert(t1.builder.operators.len() == 0);
    assert(t1.last_result.len() == 0);
    let pfn = put_functor(t1, op_name(id), ef);
    assert(pfn.0.builder.operators =~= seq![fresh_op(id, 2)]);
}

pub open spec fn bracket(idx: int, inner: Node) -> Node {
    Node::Unary { id: ID_OPEN_BRACKET, prec: 999, idx, arg: Some(Box::new(inner)) }
}

/// Reading "( a o b )" into a fresh builder: the closing bracket answers
/// the value of "a o b"; when that succeeds, the builder holds the bracket
/// around "a o b" and no operator.
pub proof fn law_brackets_group(
    a: Seq<char>,
    id: FunctionId,
    b: Seq<char>,
    pf: ParseFn,
    ef: ExecFn,
    va: Seq<char>,
    vb: Seq<char>,
)
    requires
        is_binary_id(id),
        pf(a) == Some(va),
        pf(b) == Some(vb),
    ensures
        ({
            let m1 = push_functor(builder_init(), "("@, false, ef).0;
            let m2 = push_operand(m1, a, pf).0;
            let m3 = push_functor(m2, op_name(id), true, ef).0;
            let m4 = push_operand(m3, b, pf).0;
            let m5 = push_functor(m4, ")"@, true, ef);
            let x = binary(id, 3, leaf(2, va), leaf(4, vb));
            &&& m5.1 == outcome_reply(ef(id, va, vb))
            &&& ef(id, va, vb) is Ok ==> m5.0.operands == seq![bracket(1, x)] && m5.0.operators.len()
                == 0
        }),
{
    lemma_op_names(id);
    lemma_op_names(ID_OPEN_BRACKET);
    reveal_strlit("(");
    reveal_strlit(")");
    assert(EXP_UNIT_NAME_OPEN_BRK@ == "("@);
    assert(EXP_UNIT_NAME_CLOSE_BRK@ == ")"@);
    let fb = fresh_op(ID_OPEN_BRACKET, 1);
    let m1 = push_functor(builder_init(), "("@, false, ef).0;
    assert(op_name(ID_OPEN_BRACKET) == "("@);
    assert(m1.operators =~= seq![fb]);
    assert(m1.operands.len() == 0);
    let m2 = push_operand(m1, a, pf).0;
    let la = leaf(2, va);
    assert(m2.operands =~= seq![la]);
    let f = fresh_op(id, 3);
    let m3 = push_functor(m2, op_name(id), true, ef).0;
    assert(m3.operators =~= seq![fb, f]);
    let m4 = push_operand(m3, b, pf).0;
    let lb = leaf(4, vb);
    assert(m4.operands =~= seq![la, lb]);
    assert(m4.token_count == 4);
    let k = BuilderModel { token_count: 5, last_op_count: 1, ..m4 };
    assert(first_bracket(k.operators) == 1) by {
        assert(k.operators[0] == fb);
    }
    let x = binary(id, 3, la, lb);
    assert(fill_args(f, k.operands, 1, 2) == (Some(x), Seq::<Node>::empty())) by {
        reveal_with_fuel(fill_args, 3);
        assert(k.operands.drop_last() =~= seq![la]);
        assert(k.operands.drop_last().drop_last() =~= Seq::<Node>::empty());
    }
    assert(eval(ef, x) == ef(id, va, vb)) by {
        reveal_with_fuel(eval, 2);
    }
    let s1 = build_top(k, 1, ef);
    assert(s1.0.operands =~= seq![x]);
    assert(s1.0.operators =~= seq![fb]);
    let bx = bracket(1, x);
    assert(fill_args(fb, s1.0.operands, 1, 1) == (Some(bx), Seq::<Node>::empty())) by {
        reveal_with_fuel(fill_args, 2);
        assert(s1.0.operands.drop_last() =~= Seq::<Node>::empty());
    }
    assert(eval(ef, bx) == eval(ef, x));
    let s2 = build_top(s1.0, 1, ef);
    assert(s2.0.operands =~= seq![bx]);
    assert(s2.0.operators.len() == 0);
    assert(close_loop(s1.0, 1, ef) == s2);
    assert(close_loop(k, 1, ef) == (if s1.1 is Err { s1 } else { s2 }));
}


/// An operator waiting for its operands: it holds none yet.
pub open spec fn waiting(n: Node) -> bool {
    match n {
        Node::Const { .. } => false,
        Node::Unary { arg, .. } => arg is None,
        Node::Binary { left, right, .. } => left is None && right is None,
    }
}

/// A unit that holds all its operands, and so do they.
pub open spec fn complete(n: Node) -> bool
    decreases n,
{
    match n {
        Node::Const { .. } => true,
        Node::Unary { arg, .. } => match arg {
            Some(a) => complete(*a),
            None => false,
        },
        Node::Binary { left, right, .. } => match (left, right) {
            (Some(l), Some(r)) => complete(*l) && complete(*r),
            _ => false,
        },
    }
}

/// The operand slots of `n` still empty.
pub open spec fn open_slots(n: Node) -> int {
    match n {
        Node::Const { .. } => 0,
        Node::Unary { arg, .. } => if arg is None {
            1
        } else {
            0
        },
        Node::Binary { left, right, .. } => (if left is None {
            1int
        } else {
            0
        }) + (if right is None {
            1int
        } else {
            0
        }),
    }
}

/// The operands that `n` holds are complete, and its empty slots are the
/// ones filled last (a left operand only after the right one).
pub open spec fn partly_built(n: Node) -> bool {
    match n {
        Node::Const { .. } => false,
        Node::Unary { arg, .. } => match arg {
            Some(a) => complete(*a),
            None => true,
        },
        Node::Binary { left, right, .. } => match (left, right) {
            (None, None) => true,
            (None, Some(r)) => complete(*r),
            (Some(l), Some(r)) => complete(*l) && complete(*r),
            (Some(_), None) => false,
        },
    }
}

/// The builder's invariant: every waiting operator holds no operand, and
/// every unit on the operand stack is complete.
pub open spec fn builder_wf(m: BuilderModel) -> bool {
    &&& forall|i: int| 0 <= i < m.operators.len() ==> waiting(#[trigger] m.operators[i])
    &&& forall|i: int| 0 <= i < m.operands.len() ==> complete(#[trigger] m.operands[i])
}

proof fn lemma_fill_args_complete(op: Node, operands: Seq<Node>, lower: int, args: int)
    requires
        partly_built(op),
        open_slots(op) == args,
        forall|i: int| 0 <= i < operands.len() ==> complete(#[trigger] operands[i]),
    ensures
        fill_args(op, operands, lower, args).0 matches Some(n) ==> complete(n),
        forall|i: int|
            0 <= i < fill_args(op, operands, lower, args).1.len() ==> complete(
                #[trigger] fill_args(op, operands, lower, args).1[i],
            ),
    decreases args,
{
    if args > 0 && operands.len() > 0 {
        let o = operands.last();
        assert(complete(o));
        let rest = operands.drop_last();
        assert forall|i: int| 0 <= i < rest.len() implies complete(#[trigger] rest[i]) by {
            assert(rest[i] == operands[i]);
        }
        if !(lower >= 0 && node_idx(o) <= lower) {
            lemma_fill_args_complete(push_into(op, o), rest, lower, args - 1);
        }
    }
}

proof fn lemma_build_top_wf(m: BuilderModel, lower: int, ef: ExecFn)
    requires
        builder_wf(m),
        m.operators.len() > 0,
    ensures
        builder_wf(build_top(m, lower, ef).0),
{
    let op = m.operators.last();
    assert(waiting(op));
    lemma_fill_args_complete(op, m.operands, lower, arg_count(op));
    let r = build_top(m, lower, ef).0;
    assert forall|i: int| 0 <= i < r.operators.len() implies waiting(#[trigger] r.operators[i]) by {
        assert(r.operators[i] == m.operators[i]);
    }
}

proof fn lemma_close_loop_wf(m: BuilderModel, lower: int, ef: ExecFn)
    requires
        builder_wf(m),
    ensures
        builder_wf(close_loop(m, lower, ef).0),
    decreases m.operators.len(),
{
    if m.operators.len() > 0 {
        lemma_build_top_wf(m, lower, ef);
        lemma_close_loop_wf(build_top(m, lower, ef).0, lower, ef);
    }
}

proof fn lemma_finish_wf(m: BuilderModel, ef: ExecFn)
    requires
        builder_wf(m),
    ensures
        builder_wf(finish(m, ef).0),
        finish(m, ef).1 matches Ok(Some(root)) ==> complete(root),
    decreases m.operators.len(),
{
    if m.operators.len() > 0 {
        lemma_build_top_wf(m, -1, ef);
        lemma_finish_wf(build_top(m, -1, ef).0, ef);
    } else if m.operands.len() == 1 {
        assert(complete(m.operands[0]));
    }
}

/// From its first state on, the builder keeps its invariant: an operator
/// waits holding no operand, and every unit built holds all its operands;
/// so a finished expression holds all of them.
pub proof fn law_builder_wf(
    m: BuilderModel,
    name: Seq<char>,
    token: Seq<char>,
    prefer_eval: bool,
    pf: ParseFn,
    ef: ExecFn,
)
    requires
        builder_wf(m),
    ensures
        builder_wf(builder_init()),
        builder_wf(push_operand(m, token, pf).0),
        builder_wf(push_functor(m, name, prefer_eval, ef).0),
        builder_wf(finish(m, ef).0),
        finish(m, ef).1 matches Ok(Some(root)) ==> complete(root),
{
    let p = push_operand(m, token, pf).0;
    assert forall|i: int| 0 <= i < p.operands.len() implies complete(#[trigger] p.operands[i]) by {
        if i < m.operands.len() {
            assert(p.operands[i] == m.operands[i]);
        }
    }
    lemma_finish_wf(m, ef);
    let m1 = BuilderModel { token_count: m.token_count + 1, ..m };
    if name == EXP_UNIT_NAME_CLOSE_BRK@ {
        lemma_close_loop_wf(BuilderModel { last_op_count: 1, ..m1 }, first_bracket(m.operators), ef);
    } else if let Some(id) = functor_id(name) {
        let op = fresh_op(id, m1.token_count);
        let m2 = BuilderModel { last_op_count: arg_count(op), ..m1 };
        let pushed = BuilderModel { operators: m2.operators.push(op), ..m2 };
        assert(builder_wf(pushed)) by {
            assert forall|i: int| 0 <= i < pushed.operators.len() implies waiting(#[trigger] pushed.operators[i]) by {
                if i < m.operators.len() {
                    assert(pushed.operators[i] == m.operators[i]);
                }
            }
        }
        lemma_build_top_wf(pushed, -1, ef);
        if m2.operators.len() > 0 {
            lemma_build_top_wf(m2, -1, ef);
            let step = build_top(m2, -1, ef);
            let after = BuilderModel { operators: step.0.operators.push(op), ..step.0 };
            assert(builder_wf(after)) by {
                assert forall|i: int| 0 <= i < after.operators.len() implies waiting(#[trigger] after.operators[i]) by {
                    if i < step.0.operators.len() {
                        assert(after.operators[i] == step.0.operators[i]);
                    }
                }
            }
        }
    }
}


proof fn lemma_put_token_wf(c: CalcModel, token: Seq<char>, pf: ParseFn, ef: ExecFn)
    requires
        builder_wf(c.builder),
        positions_within(c.builder),
    ensures
        builder_wf(put_token(c, token, pf, ef).0.builder),
        builder_wf(put_functor(c, token, ef).0.builder),
        positions_within(put_token(c, token, pf, ef).0.builder),
        positions_within(put_functor(c, token, ef).0.builder),
{
    law_builder_wf(c.builder, token, token, c.is_operand_last, pf, ef);
    law_positions_within(c.builder, token, token, c.is_operand_last, pf, ef);
}

proof fn lemma_replay_wf(c: CalcModel, tokens: Seq<Seq<char>>, pf: ParseFn, ef: ExecFn)
    requires
        builder_wf(c.builder),
        positions_within(c.builder),
    ensures
        builder_wf(replay(c, tokens, pf, ef).0.builder),
        positions_within(replay(c, tokens, pf, ef).0.builder),
    decreases tokens.len(),
{
    if tokens.len() > 0 {
        lemma_replay_wf(c, tokens.drop_last(), pf, ef);
        lemma_put_token_wf(replay(c, tokens.drop_last(), pf, ef).0, tokens.last(), pf, ef);
    }
}

/// Both invariants of the builder: the shape of what it holds, and the
/// positions of its units.
pub open spec fn calc_builder_wf(c: CalcModel) -> bool {
    builder_wf(c.builder) && positions_within(c.builder)
}

/// The calculator keeps its builder's invariants through every input and
/// every feature key.
pub proof fn law_calculator_wf(c: CalcModel, input: Seq<char>, pf: ParseFn, ef: ExecFn)
    requires
        calc_builder_wf(c),
    ensures
        calc_builder_wf(perform_exp_input(c, input, pf, ef).0),
        calc_builder_wf(eval_input(c, pf, ef).0),
        calc_builder_wf(delete_input(c, pf, ef).0),
        calc_builder_wf(reset(c).0),
        calc_builder_wf(reset_temp(c, ef).0),
        calc_builder_wf(memory_store(c).0),
        calc_builder_wf(memory_recover(c).0),
{
    law_builder_wf(c.builder, input, input, false, pf, ef);
    law_positions_within(c.builder, input, input, false, pf, ef);
    // keypad input
    let c0 = CalcModel { cached_history: seq![], ..c };
    let c1 = if c0.last_result.len() > 0 {
        CalcModel { operand_token: c0.last_result, last_result: seq![], ..c0 }
    } else {
        c0
    };
    lemma_put_token_wf(c1, c1.operand_token, pf, ef);
    let t = push_temp_input(c0, pf, ef);
    assert(builder_wf(t.builder));
    lemma_put_token_wf(t, input, pf, ef);
    // evaluation
    let temp = c.operand_token.len() > 0;
    let b1 = if temp {
        push_operand(c.builder, c.operand_token, pf).0
    } else {
        c.builder
    };
    law_builder_wf(c.builder, input, c.operand_token, false, pf, ef);
    law_builder_wf(b1, input, input, false, pf, ef);
    law_builder_wf(builder_init(), input, input, false, pf, ef);
    law_positions_within(c.builder, input, c.operand_token, false, pf, ef);
    law_positions_within(b1, input, input, false, pf, ef);
    law_positions_within(builder_init(), input, input, false, pf, ef);
    let e1 = CalcModel { builder: builder_init(), ..c };
    lemma_replay_wf(e1, e1.input_tokens, pf, ef);
    lemma_replay_wf(CalcModel { input_tokens: e1.input_tokens.push(c.operand_token).drop_last(), operand_token: c.operand_token, ..e1 }, e1.input_tokens.push(c.operand_token).drop_last(), pf, ef);
    assert(e1.input_tokens.push(c.operand_token).drop_last() =~= c.input_tokens);
    // deletion
    lemma_replay_wf(CalcModel { operand_token: c.operand_token.drop_last(), ..e1 }, e1.input_tokens, pf, ef);
    lemma_replay_wf(CalcModel { input_tokens: c.input_tokens.drop_last(), ..e1 }, c.input_tokens.drop_last(), pf, ef);
}


/// No name stands for two constants.
pub open spec fn names_distinct(cs: Seq<(Seq<char>, Seq<char>)>) -> bool {
    forall|i: int, j: int| 0 <= i < j < cs.len() ==> (#[trigger] cs[i]).0 != (#[trigger] cs[j]).0
}

proof fn lemma_constant_pos_absent(cs: Seq<(Seq<char>, Seq<char>)>, name: Seq<char>)
    requires
        constant_pos(cs, name) == -1,
    ensures
        forall|i: int| 0 <= i < cs.len() ==> (#[trigger] cs[i]).0 != name,
    decreases cs.len(),
{
    if cs.len() > 0 {
        lemma_constant_pos_absent(cs.drop_last(), name);
        assert forall|i: int| 0 <= i < cs.len() implies (#[trigger] cs[i]).0 != name by {
            if i < cs.len() - 1 {
                assert(cs[i] == cs.drop_last()[i]);
            }
        }
    }
}

/// Setting constants keeps every name standing for one constant at most.
pub proof fn law_constant_names_distinct(
    cs: Seq<(Seq<char>, Seq<char>)>,
    name: Seq<char>,
    value: Seq<char>,
)
    requires
        names_distinct(cs),
    ensures
        names_distinct(set_constant(cs, name, value)),
{
    lemma_constant_pos_bounds(cs, name);
    if constant_pos(cs, name) < 0 {
        lemma_constant_pos_absent(cs, name);
        let r = cs.push((name, value));
        assert forall|i: int, j: int| 0 <= i < j < r.len() implies (#[trigger] r[i]).0 != (
        #[trigger] r[j]).0 by {
            if j < cs.len() {
                assert(r[i] == cs[i] && r[j] == cs[j]);
            } else {
                assert(r[i] == cs[i]);
            }
        }
    }
}

// ---------------------------------------------------------------------------
// Positions
// ---------------------------------------------------------------------------

proof fn lemma_fill_args_within(op: Node, operands: Seq<Node>, lower: int, args: int, k: int)
    requires
        forall|i: int| 0 <= i < operands.len() ==> node_idx(#[trigger] operands[i]) <= k,
    ensures
        fill_args(op, operands, lower, args).0 matches Some(n) ==> node_idx(n) == node_idx(op),
        forall|i: int|
            0 <= i < fill_args(op, operands, lower, args).1.len() ==> node_idx(
                #[trigger] fill_args(op, operands, lower, args).1[i],
            ) <= k,
    decreases args,
{
    if args > 0 && operands.len() > 0 {
        let rest = operands.drop_last();
        assert forall|i: int| 0 <= i < rest.len() implies node_idx(#[trigger] rest[i]) <= k by {
            assert(rest[i] == operands[i]);
        }
        if !(lower >= 0 && node_idx(operands.last()) <= lower) {
            let o = operands.last();
            assert(node_idx(push_into(op, o)) == node_idx(op));
            lemma_fill_args_within(push_into(op, o), rest, lower, args - 1, k);
        }
    }
}

proof fn lemma_build_top_within(m: BuilderModel, lower: int, ef: ExecFn)
    requires
        positions_within(m),
        m.operators.len() > 0,
    ensures
        positions_within(build_top(m, lower, ef).0),
        build_top(m, lower, ef).0.token_count == m.token_count,
{
    let op = m.operators.last();
    assert(node_idx(m.operators[m.operators.len() - 1]) <= m.token_count);
    lemma_fill_args_within(op, m.operands, lower, arg_count(op), m.token_count);
    let r = build_top(m, lower, ef).0;
    assert forall|i: int| 0 <= i < r.operators.len() implies node_idx(#[trigger] r.operators[i])
        <= r.token_count by {
        assert(r.operators[i] == m.operators[i]);
    }
}

proof fn lemma_close_loop_within(m: BuilderModel, lower: int, ef: ExecFn)
    requires
        positions_within(m),
    ensures
        positions_within(close_loop(m, lower, ef).0),
    decreases m.operators.len(),
{
    if m.operators.len() > 0 {
        lemma_build_top_within(m, lower, ef);
        lemma_close_loop_within(build_top(m, lower, ef).0, lower, ef);
    }
}

proof fn lemma_finish_within(m: BuilderModel, ef: ExecFn)
    requires
        positions_within(m),
    ensures
        positions_within(finish(m, ef).0),
    decreases m.operators.len(),
{
    if m.operators.len() > 0 {
        lemma_build_top_within(m, -1, ef);
        lemma_finish_within(build_top(m, -1, ef).0, ef);
    }
}

/// Every unit that the builder holds stands at a position already counted:
/// true of a fresh builder, and kept by every token and by finishing.
pub proof fn law_positions_within(
    m: BuilderModel,
    name: Seq<char>,
    token: Seq<char>,
    prefer_eval: bool,
    pf: ParseFn,
    ef: ExecFn,
)
    requires
        positions_within(m),
    ensures
        positions_within(builder_init()),
        positions_within(push_operand(m, token, pf).0),
        positions_within(push_functor(m, name, prefer_eval, ef).0),
        positions_within(close_bracket(m, ef).0),
        positions_within(finish(m, ef).0),
{
    let p = push_operand(m, token, pf).0;
    assert forall|i: int| 0 <= i < p.operands.len() implies node_idx(#[trigger] p.operands[i])
        <= p.token_count by {
        if i < m.operands.len() {
            assert(p.operands[i] == m.operands[i]);
        }
    }
    lemma_close_loop_within(m, first_bracket(m.operators), ef);
    lemma_finish_within(m, ef);
    let m1 = BuilderModel { token_count: m.token_count + 1, ..m };
    assert(positions_within(m1));
    if name == EXP_UNIT_NAME_CLOSE_BRK@ {
        lemma_close_loop_within(BuilderModel { last_op_count: 1, ..m1 }, first_bracket(m1.operators), ef);
    } else if let Some(id) = functor_id(name) {
        let op = fresh_op(id, m1.token_count);
        let m2 = BuilderModel { last_op_count: arg_count(op), ..m1 };
        let pushed = BuilderModel { operators: m2.operators.push(op), ..m2 };
        assert(node_idx(op) == m1.token_count);
        assert forall|i: int| 0 <= i < pushed.operators.len() implies node_idx(
            #[trigger] pushed.operators[i],
        ) <= pushed.token_count by {
            if i < m2.operators.len() {
                assert(pushed.operators[i] == m2.operators[i]);
            }
        }
        if prefer_eval && arg_count(op) == 1 && id != ID_OPEN_BRACKET {
            lemma_build_top_within(pushed, -1, ef);
        } else if m2.operators.len() > 0 && id != ID_OPEN_BRACKET && node_prec(m2.operators.last())
            <= op_prec(id) {
            lemma_build_top_within(m2, -1, ef);
            let step = build_top(m2, -1, ef);
            let r = BuilderModel { operators: step.0.operators.push(op), ..step.0 };
            assert forall|i: int| 0 <= i < r.operators.len() implies node_idx(
                #[trigger] r.operators[i],
            ) <= r.token_count by {
                if i < step.0.operators.len() {
                    assert(r.operators[i] == step.0.operators[i]);
                }
            }
        }
    }
}

proof fn lemma_insert_keys_below(s: Seq<(int, Seq<char>)>, x: (int, Seq<char>), k: int)
    requires
        forall|i: int| 0 <= i < s.len() ==> (#[trigger] s[i]).0 < k,
        x.0 < k,
    ensures
        forall|i: int| 0 <= i < insert_by_key(s, x).len() ==> (#[trigger] insert_by_key(s, x)[i]).0 < k,
    decreases s.len(),
{
    if !(s.len() == 0 || s.last().0 <= x.0) {
        let rest = s.drop_last();
        assert forall|i: int| 0 <= i < rest.len() implies (#[trigger] rest[i]).0 < k by {
            assert(rest[i] == s[i]);
        }
        lemma_insert_keys_below(rest, x, k);
        let r = insert_by_key(rest, x);
        assert forall|i: int| 0 <= i < r.push(s.last()).len() implies (#[trigger] r.push(
            s.last(),
        )[i]).0 < k by {
            if i < r.len() {
                assert(r.push(s.last())[i] == r[i]);
            }
        }
    }
}

proof fn lemma_sort_keys_below(s: Seq<(int, Seq<char>)>, k: int)
    requires
        forall|i: int| 0 <= i < s.len() ==> (#[trigger] s[i]).0 < k,
    ensures
        forall|i: int| 0 <= i < sort_by_key(s).len() ==> (#[trigger] sort_by_key(s)[i]).0 < k,
    decreases s.len(),
{
    if s.len() > 0 {
        let rest = s.drop_last();
        assert forall|i: int| 0 <= i < rest.len() implies (#[trigger] rest[i]).0 < k by {
            assert(rest[i] == s[i]);
        }
        lemma_sort_keys_below(rest, k);
        lemma_insert_keys_below(sort_by_key(rest), s.last(), k);
    }
}

/// An entry whose key is above every other's comes last, wherever it stood.
proof fn lemma_sort_greatest_last(a: Seq<(int, Seq<char>)>, x: (int, Seq<char>), b: Seq<(int, Seq<char>)>)
    requires
        forall|i: int| 0 <= i < (a + b).len() ==> (#[trigger] (a + b)[i]).0 < x.0,
    ensures
        sort_by_key(a.push(x) + b) == sort_by_key(a + b).push(x),
    decreases b.len(),
{
    if b.len() == 0 {
        assert(a.push(x) + b =~= a.push(x));
        assert(a + b =~= a);
        assert((a.push(x) + b).drop_last() =~= a);
        lemma_sort_keys_below(a, x.0);
        let sa = sort_by_key(a);
        if sa.len() > 0 {
            assert(sa.last() == sa[sa.len() - 1]);
        }
    } else {
        let b1 = b.drop_last();
        let y = b.last();
        assert((a.push(x) + b).drop_last() =~= a.push(x) + b1);
        assert((a.push(x) + b).last() == y);
        assert((a + b).drop_last() =~= a + b1);
        assert((a + b).last() == y);
        assert((a + b)[(a + b).len() - 1] == y);
        assert forall|i: int| 0 <= i < (a + b1).len() implies (#[trigger] (a + b1)[i]).0 < x.0 by {
            assert((a + b1)[i] == (a + b)[i]);
        }
        lemma_sort_greatest_last(a, x, b1);
        let s1 = sort_by_key(a + b1);
        assert(s1.push(x).drop_last() =~= s1);
    }
}

/// A number read by the builder is written at the end of its text: the
/// text grows by the number's text, or stays as it was when the token is
/// no number.
pub proof fn law_operand_appends_text(m: BuilderModel, token: Seq<char>, pf: ParseFn)
    requires
        positions_within(m),
    ensures
        exp_string(push_operand(m, token, pf).0) == match pf(token) {
            Some(v) => exp_string(m) + v,
            None => exp_string(m),
        },
{
    let p = push_operand(m, token, pf).0;
    let a = m.operands.map_values(|n: Node| unit_entry(n));
    let b = m.operators.map_values(|n: Node| unit_entry(n));
    assert(unit_entries(m) =~= a + b);
    match pf(token) {
        None => {
            assert(unit_entries(p) =~= unit_entries(m));
        },
        Some(v) => {
            let c = Node::Const { idx: m.token_count + 1, text: v };
            let x = unit_entry(c);
            assert(unit_entries(p) =~= a.push(x) + b);
            assert forall|i: int| 0 <= i < (a + b).len() implies (#[trigger] (a + b)[i]).0 < x.0 by {
                if i < a.len() {
                    assert((a + b)[i] == a[i]);
                    assert(node_idx(m.operands[i]) <= m.token_count);
                } else {
                    assert((a + b)[i] == b[i - a.len()]);
                    assert(node_idx(m.operators[i - a.len()]) <= m.token_count);
                }
            }
            lemma_sort_greatest_last(a, x, b);
            let s = sort_by_key(a + b);
            assert(s.push(x).drop_last() =~= s);
        },
    }
}

} // verus!
