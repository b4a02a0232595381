//! What the keys answer: laws stated over the caller's arithmetic, the
//! operators' symbols and their priorities.

use vstd::prelude::*;
use super::functions::{
    FunctionId, ID_ADD, ID_COS, ID_DIV, ID_INV, ID_MUL, ID_OPEN_BRACKET, ID_SIN, ID_SQR, ID_SQRT,
    ID_SUB, ID_TAN, PRIODITY_ADDITIVE, PRIODITY_MULTIPLICATIVE, PRIODITY_UNARY_OP,
};
use super::calculator::{feature_effect, Feature};
use super::laws::{binary, leaf, lemma_op_names};
use super::model::{
    arg_count, build_top, builder_init, constant_value, delete_input, eval, eval_immediate, eval_input,
    expression_eval, fill_args, finish, fresh_op, functor_id, is_decimal, is_operand_char,
    last_shown, node_prec, op_name, op_prec, outcome_reply, perform_exp_input, push_functor, push_operand,
    push_temp_input, put_functor, put_token, replay, unsigned_part, BuilderModel,
    CalcModel, ExecFn, Node, ParseFn, Reply, EXP_UNIT_NAME_ADD, EXP_UNIT_NAME_CLOSE_BRK, EXP_UNIT_NAME_COS,
    EXP_UNIT_NAME_DIV, EXP_UNIT_NAME_INV, EXP_UNIT_NAME_MUL, EXP_UNIT_NAME_SIN, EXP_UNIT_NAME_SQR,
    EXP_UNIT_NAME_SQRT, EXP_UNIT_NAME_SUB, EXP_UNIT_NAME_TAN,
};
use super::text::is_ascii_digit;

verus! {

/// `name` is the key of `id`, an operator of two operands that binds
/// loosely: addition or subtraction.
pub open spec fn additive_key(id: FunctionId, name: Seq<char>) -> bool {
    ||| id == ID_ADD && name == EXP_UNIT_NAME_ADD@
    ||| id == ID_SUB && name == EXP_UNIT_NAME_SUB@
}

/// `name` is the key of `id`, an operator of two operands that binds
/// tightly: multiplication or division.
pub open spec fn multiplicative_key(id: FunctionId, name: Seq<char>) -> bool {
    ||| id == ID_MUL && name == EXP_UNIT_NAME_MUL@
    ||| id == ID_DIV && name == EXP_UNIT_NAME_DIV@
}

/// `name` is the key of `id`, a function of one argument.
pub open spec fn function_key(id: FunctionId, name: Seq<char>) -> bool {
    ||| id == ID_SIN && name == EXP_UNIT_NAME_SIN@
    ||| id == ID_COS && name == EXP_UNIT_NAME_COS@
    ||| id == ID_TAN && name == EXP_UNIT_NAME_TAN@
    ||| id == ID_SQR && name == EXP_UNIT_NAME_SQR@
    ||| id == ID_SQRT && name == EXP_UNIT_NAME_SQRT@
    ||| id == ID_INV && name == EXP_UNIT_NAME_INV@
}

/// Each key stands for its operator, which binds as its kind does:
/// multiplication and division tighter than addition and subtraction, and
/// a function tighter than both.
pub proof fn law_key_priority(id: FunctionId, name: Seq<char>)
    requires
        additive_key(id, name) || multiplicative_key(id, name) || function_key(id, name),
    ensures
        functor_id(name) == Some(id),
        additive_key(id, name) ==> op_prec(id) == PRIODITY_ADDITIVE,
        multiplicative_key(id, name) ==> op_prec(id) == PRIODITY_MULTIPLICATIVE,
        function_key(id, name) ==> op_prec(id) == PRIODITY_UNARY_OP,
        PRIODITY_UNARY_OP < PRIODITY_MULTIPLICATIVE < PRIODITY_ADDITIVE,
{
    lemma_op_names(id);
}

/// An operator applies its own arithmetic, once its operands have values:
/// a function of one argument `id` gives `id` on its argument's value, an
/// operator of two operands `id` gives `id` on the left and the right
/// value, and the first error among the operands is the answer.
pub proof fn law_operator_applies_itself(ef: ExecFn, n: Node)
    ensures
        n matches Node::Unary { id, arg: Some(a), .. } ==> id != ID_OPEN_BRACKET ==> eval(ef, n)
            == match eval(ef, *a) {
            Ok(v) => ef(id, v, Seq::empty()),
            Err(e) => Err(e),
        },
        n matches Node::Binary { id, left: Some(l), right: Some(r), .. } ==> eval(ef, n) == match (
            eval(ef, *l),
            eval(ef, *r),
        ) {
            (Ok(x), Ok(y)) => ef(id, x, y),
            (Err(e), _) => Err(e),
            (Ok(_), Err(e)) => Err(e),
        },
{
}

/// The value of the last unit built is that of the number read last.
pub proof fn law_immediate_is_last_number(m: BuilderModel, token: Seq<char>, pf: ParseFn, ef: ExecFn, v: Seq<char>)
    requires
        pf(token) == Some(v),
    ensures
        eval_immediate(push_operand(m, token, pf).0, ef) == Ok::<Seq<char>, Seq<char>>(v),
{
}

/// What is shown after replaying replies is the last text among them:
/// nothing of none, a reply with a text shows it, any other reply leaves
/// what was shown before.
pub proof fn law_last_shown(rs: Seq<Reply>, r: Reply)
    ensures
        last_shown(Seq::<Reply>::empty()) is None,
        last_shown(rs.push(r)) == match r {
            Ok(Some(v)) => Some(v),
            _ => last_shown(rs),
        },
{
    assert(rs.push(r).drop_last() =~= rs);
}

/// Keys of operators are no digits.
proof fn lemma_key_not_typed(id: FunctionId, name: Seq<char>)
    requires
        additive_key(id, name) || multiplicative_key(id, name) || function_key(id, name),
    ensures
        !(name.len() == 1 && is_operand_char(name[0])),
        name.len() > 0,
        functor_id(name) == Some(id),
        name == op_name(id),
        name != EXP_UNIT_NAME_CLOSE_BRK@,
{
    lemma_op_names(id);
}

/// After an operator of two operands is typed, whatever it answered, the
/// calculator no longer counts an operand as the last input: a function
/// typed next waits for its own argument.
pub proof fn law_binary_key_awaits_operand(c: CalcModel, id: FunctionId, name: Seq<char>, pf: ParseFn, ef: ExecFn)
    requires
        additive_key(id, name) || multiplicative_key(id, name),
        constant_value(c.constants, name) is None,
    ensures
        !perform_exp_input(c, name, pf, ef).0.is_operand_last,
{
    lemma_key_not_typed(id, name);
    let c0 = CalcModel { cached_history: seq![], ..c };
    let t = push_temp_input(c0, pf, ef);
    let m = t.builder;
    let m1 = BuilderModel { token_count: m.token_count + 1, ..m };
    let op = fresh_op(id, m1.token_count);
    let m2 = BuilderModel { last_op_count: arg_count(op), ..m1 };
    assert(m2.last_op_count == 2);
    if m2.operators.len() > 0 {
        assert(build_top(m2, -1, ef).0.last_op_count == 2);
    }
    assert(push_functor(m, name, t.is_operand_last, ef).0.last_op_count == 2);
}

/// A function typed right after a number is applied to it at once: it
/// answers its own arithmetic on that number.
pub proof fn law_function_key_applies_at_once(
    c: CalcModel,
    d: char,
    id: FunctionId,
    name: Seq<char>,
    pf: ParseFn,
    ef: ExecFn,
    v: Seq<char>,
)
    requires
        c.operand_token.len() == 0,
        is_ascii_digit(d),
        function_key(id, name),
        constant_value(c.constants, name) is None,
        pf(seq![d]) == Some(v),
    ensures
        perform_exp_input(perform_exp_input(c, seq![d], pf, ef).0, name, pf, ef).1 == outcome_reply(
            ef(id, v, Seq::empty()),
        ),
{
    lemma_key_not_typed(id, name);
    let s1 = perform_exp_input(c, seq![d], pf, ef).0;
    assert(s1.operand_token =~= seq![d]);
    assert(s1.last_result.len() == 0);
    assert(is_decimal(seq![d]));
    let c0 = CalcModel { cached_history: seq![], ..s1 };
    let t = push_temp_input(c0, pf, ef);
    let b = c.builder;
    let l = leaf(b.token_count + 1, v);
    assert(t.builder.operands == b.operands.push(l));
    assert(t.builder.operators == b.operators);
    assert(t.builder.token_count == b.token_count + 1);
    assert(t.is_operand_last);
    let op = fresh_op(id, b.token_count + 2);
    let m1 = BuilderModel { token_count: b.token_count + 2, last_op_count: 1, ..t.builder };
    let pushed = BuilderModel { operators: m1.operators.push(op), ..m1 };
    let node = Node::Unary { id, prec: op_prec(id), idx: b.token_count + 2, arg: Some(Box::new(l)) };
    assert(fill_args(op, pushed.operands, -1, 1) == (Some(node), b.operands)) by {
        reveal_with_fuel(fill_args, 2);
        assert(pushed.operands.drop_last() =~= b.operands);
    }
    assert(eval(ef, node) == ef(id, v, Seq::empty())) by {
        reveal_with_fuel(eval, 2);
    }
    assert(push_functor(t.builder, name, true, ef).1 == outcome_reply(ef(id, v, Seq::empty())));
}

/// The state after the keys "d1 n1 d2" from an empty expression.
proof fn lemma_keys_number_op_digit(
    c: CalcModel,
    d1: char,
    o1: FunctionId,
    n1: Seq<char>,
    d2: char,
    pf: ParseFn,
    ef: ExecFn,
    v1: Seq<char>,
)
    requires
        c.builder == builder_init(),
        c.operand_token.len() == 0,
        is_ascii_digit(d1),
        is_ascii_digit(d2),
        additive_key(o1, n1) || multiplicative_key(o1, n1),
        constant_value(c.constants, n1) is None,
        pf(seq![d1]) == Some(v1),
    ensures
        ({
            let s1 = perform_exp_input(c, seq![d1], pf, ef).0;
            let s2 = perform_exp_input(s1, n1, pf, ef).0;
            let s3 = perform_exp_input(s2, seq![d2], pf, ef).0;
            &&& s3.builder == BuilderModel {
                token_count: 2,
                last_op_count: 2,
                operands: seq![leaf(1, v1)],
                operators: seq![fresh_op(o1, 2)],
            }
            &&& s3.operand_token == seq![d2]
            &&& s3.last_result.len() == 0
            &&& s3.constants == c.constants
            &&& !s3.is_operand_last
            &&& !c.need_sync_tokens ==> !s3.need_sync_tokens && s3.input_tokens == c.input_tokens.push(
                seq![d1],
            ).push(n1)
        }),
{
    lemma_key_not_typed(o1, n1);
    let s1 = perform_exp_input(c, seq![d1], pf, ef).0;
    assert(s1.operand_token =~= seq![d1]);
    assert(is_decimal(seq![d1]));
    let c0 = CalcModel { cached_history: seq![], ..s1 };
    let t = push_temp_input(c0, pf, ef);
    assert(t.builder.operands =~= seq![leaf(1, v1)]);
    assert(t.builder.operators.len() == 0);
    assert(!c.need_sync_tokens ==> t.input_tokens == c.input_tokens.push(seq![d1]));
    let pfn = put_functor(t, n1, ef);
    assert(pfn.0.builder.operators =~= seq![fresh_op(o1, 2)]);
    assert(pfn.1 == Ok::<Option<Seq<char>>, Seq<char>>(None));
    let s2 = perform_exp_input(s1, n1, pf, ef).0;
    assert(s2.builder == pfn.0.builder);
    let s3 = perform_exp_input(s2, seq![d2], pf, ef).0;
    assert(s3.operand_token =~= seq![d2]);
    assert(s3.builder =~= BuilderModel {
        token_count: 2,
        last_op_count: 2,
        operands: seq![leaf(1, v1)],
        operators: seq![fresh_op(o1, 2)],
    });
}

/// The state after the keys "d1 n1 d2 n2" from an empty expression, where
/// `n2` binds tighter than `n1`: nothing is reduced yet.
proof fn lemma_keys_waiting_pair(
    c: CalcModel,
    d1: char,
    o1: FunctionId,
    n1: Seq<char>,
    d2: char,
    o2: FunctionId,
    n2: Seq<char>,
    pf: ParseFn,
    ef: ExecFn,
    v1: Seq<char>,
    v2: Seq<char>,
)
    requires
        c.builder == builder_init(),
        c.operand_token.len() == 0,
        is_ascii_digit(d1),
        is_ascii_digit(d2),
        additive_key(o1, n1),
        multiplicative_key(o2, n2),
        constant_value(c.constants, n1) is None,
        constant_value(c.constants, n2) is None,
        pf(seq![d1]) == Some(v1),
        pf(seq![d2]) == Some(v2),
    ensures
        ({
            let s1 = perform_exp_input(c, seq![d1], pf, ef).0;
            let s2 = perform_exp_input(s1, n1, pf, ef).0;
            let s3 = perform_exp_input(s2, seq![d2], pf, ef).0;
            let s4 = perform_exp_input(s3, n2, pf, ef);
            &&& s4.1 == Ok::<Option<Seq<char>>, Seq<char>>(None)
            &&& s4.0.builder == BuilderModel {
                token_count: 4,
                last_op_count: 2,
                operands: seq![leaf(1, v1), leaf(3, v2)],
                operators: seq![fresh_op(o1, 2), fresh_op(o2, 4)],
            }
            &&& s4.0.operand_token.len() == 0
            &&& s4.0.last_result.len() == 0
            &&& s4.0.constants == c.constants
            &&& !c.need_sync_tokens ==> !s4.0.need_sync_tokens && s4.0.input_tokens
                == c.input_tokens.push(seq![d1]).push(n1).push(seq![d2]).push(n2)
        }),
{
    lemma_keys_number_op_digit(c, d1, o1, n1, d2, pf, ef, v1);
    lemma_key_not_typed(o2, n2);
    let s1 = perform_exp_input(c, seq![d1], pf, ef).0;
    let s2 = perform_exp_input(s1, n1, pf, ef).0;
    let s3 = perform_exp_input(s2, seq![d2], pf, ef).0;
    assert(is_decimal(seq![d2]));
    let c0 = CalcModel { cached_history: seq![], ..s3 };
    let t = push_temp_input(c0, pf, ef);
    assert(t.builder.operands =~= seq![leaf(1, v1), leaf(3, v2)]);
    assert(t.builder.operators =~= seq![fresh_op(o1, 2)]);
    assert(t.builder.token_count == 3);
    let pfn = put_functor(t, n2, ef);
    assert(node_prec(fresh_op(o1, 2)) == op_prec(o1));
    assert(pfn.0.builder.operators =~= seq![fresh_op(o1, 2), fresh_op(o2, 4)]);
    assert(pfn.1 == Ok::<Option<Seq<char>>, Seq<char>>(None));
    let s4 = perform_exp_input(s3, n2, pf, ef);
    assert(s4.0.builder =~= BuilderModel {
        token_count: 4,
        last_op_count: 2,
        operands: seq![leaf(1, v1), leaf(3, v2)],
        operators: seq![fresh_op(o1, 2), fresh_op(o2, 4)],
    });
}

/// On the keypad, "a o1 b o2 c =" where `o2` multiplies or divides and `o1`
/// adds or subtracts: `o2` applies first, to "b" and "c", and `o1` then
/// applies to "a" and that value; "=" shows the result, or nothing when
/// one of the two fails.
pub proof fn law_keypad_tighter_operator_first(
    c: CalcModel,
    d1: char,
    o1: FunctionId,
    n1: Seq<char>,
    d2: char,
    o2: FunctionId,
    n2: Seq<char>,
    d3: char,
    pf: ParseFn,
    ef: ExecFn,
    v1: Seq<char>,
    v2: Seq<char>,
    v3: Seq<char>,
)
    requires
        c.builder == builder_init(),
        c.operand_token.len() == 0,
        is_ascii_digit(d1),
        is_ascii_digit(d2),
        is_ascii_digit(d3),
        additive_key(o1, n1),
        multiplicative_key(o2, n2),
        constant_value(c.constants, n1) is None,
        constant_value(c.constants, n2) is None,
        pf(seq![d1]) == Some(v1),
        pf(seq![d2]) == Some(v2),
        pf(seq![d3]) == Some(v3),
    ensures
        ({
            let s1 = perform_exp_input(c, seq![d1], pf, ef).0;
            let s2 = perform_exp_input(s1, n1, pf, ef).0;
            let s3 = perform_exp_input(s2, seq![d2], pf, ef).0;
            let s4 = perform_exp_input(s3, n2, pf, ef).0;
            let s5 = perform_exp_input(s4, seq![d3], pf, ef).0;
            eval_input(s5, pf, ef).1 == match ef(o2, v2, v3) {
                Ok(w) => match ef(o1, v1, w) {
                    Ok(v) => Ok::<Option<Seq<char>>, Seq<char>>(Some(v)),
                    Err(_) => Ok(None),
                },
                Err(_) => Ok(None),
            }
        }),
{
    lemma_keys_waiting_pair(c, d1, o1, n1, d2, o2, n2, pf, ef, v1, v2);
    let s1 = perform_exp_input(c, seq![d1], pf, ef).0;
    let s2 = perform_exp_input(s1, n1, pf, ef).0;
    let s3 = perform_exp_input(s2, seq![d2], pf, ef).0;
    let s4 = perform_exp_input(s3, n2, pf, ef).0;
    let s5 = perform_exp_input(s4, seq![d3], pf, ef).0;
    assert(s5.operand_token =~= seq![d3]);
    assert(s5.builder == s4.builder);
    let la = leaf(1, v1);
    let lb = leaf(3, v2);
    let lc = leaf(5, v3);
    let f1 = fresh_op(o1, 2);
    let f2 = fresh_op(o2, 4);
    let b6 = push_operand(s5.builder, s5.operand_token, pf).0;
    assert(b6.operands =~= seq![la, lb, lc]);
    assert(b6.operators =~= seq![f1, f2]);
    let y = binary(o2, 4, lb, lc);
    assert(fill_args(f2, b6.operands, -1, 2) == (Some(y), seq![la])) by {
        reveal_with_fuel(fill_args, 3);
        assert(b6.operands.drop_last() =~= seq![la, lb]);
        assert(b6.operands.drop_last().drop_last() =~= seq![la]);
    }
    assert(eval(ef, y) == ef(o2, v2, v3)) by {
        reveal_with_fuel(eval, 2);
    }
    let st1 = build_top(b6, -1, ef);
    assert(st1.0.operands =~= seq![la, y]);
    assert(st1.0.operators =~= seq![f1]);
    let root = binary(o1, 2, la, y);
    assert(fill_args(f1, st1.0.operands, -1, 2) == (Some(root), Seq::<Node>::empty())) by {
        reveal_with_fuel(fill_args, 3);
        assert(st1.0.operands.drop_last() =~= seq![la]);
        assert(st1.0.operands.drop_last().drop_last() =~= Seq::<Node>::empty());
    }
    assert(eval(ef, root) == match ef(o2, v2, v3) {
        Ok(w) => ef(o1, v1, w),
        Err(e) => Err(e),
    }) by {
        reveal_with_fuel(eval, 2);
    }
    let st2 = build_top(st1.0, -1, ef);
    assert(st2.0.operands =~= seq![root]);
    assert(st2.0.operators.len() == 0);
    assert(finish(st2.0, ef).1 == Ok::<Option<Node>, Seq<char>>(Some(root)));
    assert(expression_eval(ef, Some(root)) == eval(ef, root));
    assert(st1.1 == outcome_reply(ef(o2, v2, v3)));
    assert(st2.1 == outcome_reply(eval(ef, root)));
    let fin = finish(b6, ef);
    if ef(o2, v2, v3) is Err {
        assert(fin.1 is Err);
    } else if eval(ef, root) is Err {
        assert(finish(st1.0, ef).1 is Err);
        assert(fin.1 is Err);
    } else {
        assert(finish(st1.0, ef).1 == Ok::<Option<Node>, Seq<char>>(Some(root)));
        assert(fin.1 == Ok::<Option<Node>, Seq<char>>(Some(root)));
    }
}

/// Keys of operators of two operands are no numbers.
proof fn lemma_binary_key_not_decimal(id: FunctionId, name: Seq<char>)
    requires
        additive_key(id, name) || multiplicative_key(id, name),
    ensures
        !is_decimal(name),
{
    reveal_strlit("+");
    reveal_strlit("\u{2212}");
    reveal_strlit("\u{d7}");
    reveal_strlit("\u{f7}");
    assert(name.len() == 1);
    let d = unsigned_part(name);
    if d.len() > 0 {
        assert(d == name);
        assert(!(is_ascii_digit(d[0]) || d[0] == '.'));
    }
}

/// On the keypad, "a o1 b o2 d" where `o2` binds tighter than `o1`, then
/// "DEL": deleting the only digit of the operand being typed shows the
/// number typed before the last operator.
pub proof fn law_keypad_delete_shows_previous_number(
    c: CalcModel,
    d1: char,
    o1: FunctionId,
    n1: Seq<char>,
    d2: char,
    o2: FunctionId,
    n2: Seq<char>,
    d: char,
    pf: ParseFn,
    ef: ExecFn,
    v1: Seq<char>,
    v2: Seq<char>,
)
    requires
        c.builder == builder_init(),
        c.operand_token.len() == 0,
        c.input_tokens.len() == 0,
        !c.need_sync_tokens,
        is_ascii_digit(d1),
        is_ascii_digit(d2),
        is_ascii_digit(d),
        additive_key(o1, n1),
        multiplicative_key(o2, n2),
        constant_value(c.constants, n1) is None,
        constant_value(c.constants, n2) is None,
        pf(seq![d1]) == Some(v1),
        pf(seq![d2]) == Some(v2),
    ensures
        ({
            let s1 = perform_exp_input(c, seq![d1], pf, ef).0;
            let s2 = perform_exp_input(s1, n1, pf, ef).0;
            let s3 = perform_exp_input(s2, seq![d2], pf, ef).0;
            let s4 = perform_exp_input(s3, n2, pf, ef).0;
            let s5 = perform_exp_input(s4, seq![d], pf, ef).0;
            delete_input(s5, pf, ef).1 == Ok::<Option<Seq<char>>, Seq<char>>(Some(seq![d2]))
        }),
{
    lemma_keys_waiting_pair(c, d1, o1, n1, d2, o2, n2, pf, ef, v1, v2);
    lemma_key_not_typed(o1, n1);
    lemma_key_not_typed(o2, n2);
    lemma_binary_key_not_decimal(o1, n1);
    lemma_binary_key_not_decimal(o2, n2);
    assert(is_decimal(seq![d1]));
    assert(is_decimal(seq![d2]));
    let s1 = perform_exp_input(c, seq![d1], pf, ef).0;
    let s2 = perform_exp_input(s1, n1, pf, ef).0;
    let s3 = perform_exp_input(s2, seq![d2], pf, ef).0;
    let s4 = perform_exp_input(s3, n2, pf, ef).0;
    let s5 = perform_exp_input(s4, seq![d], pf, ef).0;
    assert(s5.operand_token =~= seq![d]);
    let toks = seq![seq![d1], n1, seq![d2], n2];
    assert(s5.input_tokens =~= toks);
    let c1 = CalcModel { operand_token: s5.operand_token.drop_last(), ..s5 };
    assert(c1.operand_token.len() == 0);
    let cc = CalcModel { builder: builder_init(), ..c1 };
    let q1 = put_token(cc, seq![d1], pf, ef);
    let q2 = put_token(q1.0, n1, pf, ef);
    let q3 = put_token(q2.0, seq![d2], pf, ef);
    let q4 = put_token(q3.0, n2, pf, ef);
    assert(q1.1 == Ok::<Option<Seq<char>>, Seq<char>>(Some(seq![d1])));
    assert(q1.0.builder.operands =~= seq![leaf(1, v1)]);
    assert(q1.0.builder.operators.len() == 0);
    assert(q2.1 == Ok::<Option<Seq<char>>, Seq<char>>(None));
    assert(q2.0.builder.operators =~= seq![fresh_op(o1, 2)]);
    assert(q3.1 == Ok::<Option<Seq<char>>, Seq<char>>(Some(seq![d2])));
    assert(q3.0.builder.operators =~= seq![fresh_op(o1, 2)]);
    assert(node_prec(fresh_op(o1, 2)) == op_prec(o1));
    assert(q4.1 == Ok::<Option<Seq<char>>, Seq<char>>(None));
    assert(q4.0.operand_token.len() == 0);
    assert(toks.take(1).drop_last() =~= Seq::<Seq<char>>::empty());
    assert(toks.take(2).drop_last() =~= toks.take(1));
    assert(toks.take(3).drop_last() =~= toks.take(2));
    assert(toks.drop_last() =~= toks.take(3));
    assert(toks.take(1).last() == seq![d1]);
    assert(toks.take(2).last() == n1);
    assert(toks.take(3).last() == seq![d2]);
    assert(toks.last() == n2);
    assert(replay(cc, Seq::<Seq<char>>::empty(), pf, ef) == (cc, Seq::<Reply>::empty()));
    assert(Seq::<Reply>::empty().push(q1.1) =~= seq![q1.1]);
    assert(replay(cc, toks.take(1), pf, ef) == (q1.0, seq![q1.1]));
    assert(seq![q1.1].push(q2.1) =~= seq![q1.1, q2.1]);
    assert(replay(cc, toks.take(2), pf, ef) == (q2.0, seq![q1.1, q2.1]));
    assert(seq![q1.1, q2.1].push(q3.1) =~= seq![q1.1, q2.1, q3.1]);
    assert(replay(cc, toks.take(3), pf, ef) == (q3.0, seq![q1.1, q2.1, q3.1]));
    let rs = seq![q1.1, q2.1, q3.1, q4.1];
    assert(seq![q1.1, q2.1, q3.1].push(q4.1) =~= rs);
    assert(replay(cc, toks, pf, ef) == (q4.0, rs));
    assert(rs.drop_last() =~= seq![q1.1, q2.1, q3.1]);
    assert(last_shown(seq![q1.1, q2.1, q3.1]) == Some(seq![d2]));
    assert(last_shown(rs) == Some(seq![d2]));
}

/// The state after the keys "d1 n1 d2 n2" from an empty expression, where
/// `n1` binds tighter than `n2`: "d1 n1 d2" is reduced.
proof fn lemma_keys_reduced_pair(
    c: CalcModel,
    d1: char,
    o1: FunctionId,
    n1: Seq<char>,
    d2: char,
    o2: FunctionId,
    n2: Seq<char>,
    pf: ParseFn,
    ef: ExecFn,
    v1: Seq<char>,
    v2: Seq<char>,
)
    requires
        c.builder == builder_init(),
        c.operand_token.len() == 0,
        is_ascii_digit(d1),
        is_ascii_digit(d2),
        multiplicative_key(o1, n1),
        additive_key(o2, n2),
        constant_value(c.constants, n1) is None,
        constant_value(c.constants, n2) is None,
        pf(seq![d1]) == Some(v1),
        pf(seq![d2]) == Some(v2),
    ensures
        ({
            let s1 = perform_exp_input(c, seq![d1], pf, ef).0;
            let s2 = perform_exp_input(s1, n1, pf, ef).0;
            let s3 = perform_exp_input(s2, seq![d2], pf, ef).0;
            let s4 = perform_exp_input(s3, n2, pf, ef).0;
            &&& s4.builder == BuilderModel {
                token_count: 4,
                last_op_count: 2,
                operands: seq![binary(o1, 2, leaf(1, v1), leaf(3, v2))],
                operators: seq![fresh_op(o2, 4)],
            }
            &&& !s4.is_operand_last
            &&& s4.operand_token.len() == 0
            &&& s4.last_result.len() == 0
            &&& s4.constants == c.constants
        }),
{
    lemma_keys_number_op_digit(c, d1, o1, n1, d2, pf, ef, v1);
    lemma_key_not_typed(o2, n2);
    let s1 = perform_exp_input(c, seq![d1], pf, ef).0;
    let s2 = perform_exp_input(s1, n1, pf, ef).0;
    let s3 = perform_exp_input(s2, seq![d2], pf, ef).0;
    assert(is_decimal(seq![d2]));
    let la = leaf(1, v1);
    let lb = leaf(3, v2);
    let f1 = fresh_op(o1, 2);
    let f2 = fresh_op(o2, 4);
    let c0 = CalcModel { cached_history: seq![], ..s3 };
    let t = push_temp_input(c0, pf, ef);
    assert(t.builder.operands =~= seq![la, lb]);
    assert(t.builder.operators =~= seq![f1]);
    assert(t.builder.token_count == 3);
    let m2 = BuilderModel { token_count: 4, last_op_count: 2, ..t.builder };
    assert(node_prec(f1) == op_prec(o1));
    let x = binary(o1, 2, la, lb);
    assert(fill_args(f1, m2.operands, -1, 2) == (Some(x), Seq::<Node>::empty())) by {
        reveal_with_fuel(fill_args, 3);
        assert(m2.operands.drop_last() =~= seq![la]);
        assert(m2.operands.drop_last().drop_last() =~= Seq::<Node>::empty());
    }
    let st = build_top(m2, -1, ef);
    assert(st.0.operands =~= seq![x]);
    assert(st.0.operators.len() == 0);
    let pfn = put_functor(t, n2, ef);
    assert(pfn.0.builder =~= BuilderModel {
        token_count: 4,
        last_op_count: 2,
        operands: seq![x],
        operators: seq![f2],
    });
    assert(!pfn.0.is_operand_last);
}

/// The state after a function key typed when an operator waits, then a
/// digit: the function waits on top of the operator.
proof fn lemma_keys_function_waits(
    s4: CalcModel,
    x: Node,
    o2: FunctionId,
    n2: Seq<char>,
    f: FunctionId,
    nf: Seq<char>,
    d3: char,
    pf: ParseFn,
    ef: ExecFn,
)
    requires
        s4.builder == (BuilderModel {
            token_count: 4,
            last_op_count: 2,
            operands: seq![x],
            operators: seq![fresh_op(o2, 4)],
        }),
        !s4.is_operand_last,
        s4.operand_token.len() == 0,
        s4.last_result.len() == 0,
        additive_key(o2, n2),
        function_key(f, nf),
        is_ascii_digit(d3),
        constant_value(s4.constants, nf) is None,
    ensures
        ({
            let s5 = perform_exp_input(s4, nf, pf, ef).0;
            let s6 = perform_exp_input(s5, seq![d3], pf, ef).0;
            &&& s6.builder == BuilderModel {
                token_count: 5,
                last_op_count: 1,
                operands: seq![x],
                operators: seq![fresh_op(o2, 4), fresh_op(f, 5)],
            }
            &&& s6.operand_token == seq![d3]
        }),
{
    lemma_key_not_typed(o2, n2);
    lemma_key_not_typed(f, nf);
    let f2 = fresh_op(o2, 4);
    let g = fresh_op(f, 5);
    let u0 = CalcModel { cached_history: seq![], ..s4 };
    assert(push_temp_input(u0, pf, ef) == u0);
    assert(node_prec(f2) == op_prec(o2));
    let s5 = perform_exp_input(s4, nf, pf, ef).0;
    assert(s5.builder =~= BuilderModel {
        token_count: 5,
        last_op_count: 1,
        operands: seq![x],
        operators: seq![f2, g],
    });
    assert(s5.operand_token.len() == 0);
    assert(s5.operand_token.push(d3) =~= seq![d3]);
    let s6 = perform_exp_input(s5, seq![d3], pf, ef).0;
    assert(s6.operand_token =~= seq![d3]);
}

/// On the keypad, "a o1 b o2 f c =" where `o1` multiplies or divides, `o2`
/// adds or subtracts and `f` is a function of one argument: `o1` applies to
/// "a" and "b" when `o2` is typed; `f`, typed after an operator, waits for
/// "c" and applies to it; and `o2` applies to those two values. "=" shows
/// the result, or nothing when one of the three fails.
pub proof fn law_keypad_function_after_operator(
    c: CalcModel,
    d1: char,
    o1: FunctionId,
    n1: Seq<char>,
    d2: char,
    o2: FunctionId,
    n2: Seq<char>,
    f: FunctionId,
    nf: Seq<char>,
    d3: char,
    pf: ParseFn,
    ef: ExecFn,
    v1: Seq<char>,
    v2: Seq<char>,
    v3: Seq<char>,
)
    requires
        c.builder == builder_init(),
        c.operand_token.len() == 0,
        is_ascii_digit(d1),
        is_ascii_digit(d2),
        is_ascii_digit(d3),
        multiplicative_key(o1, n1),
        additive_key(o2, n2),
        function_key(f, nf),
        constant_value(c.constants, n1) is None,
        constant_value(c.constants, n2) is None,
        constant_value(c.constants, nf) is None,
        pf(seq![d1]) == Some(v1),
        pf(seq![d2]) == Some(v2),
        pf(seq![d3]) == Some(v3),
    ensures
        ({
            let s1 = perform_exp_input(c, seq![d1], pf, ef).0;
            let s2 = perform_exp_input(s1, n1, pf, ef).0;
            let s3 = perform_exp_input(s2, seq![d2], pf, ef).0;
            let s4 = perform_exp_input(s3, n2, pf, ef).0;
            let s5 = perform_exp_input(s4, nf, pf, ef).0;
            let s6 = perform_exp_input(s5, seq![d3], pf, ef).0;
            eval_input(s6, pf, ef).1 == match (ef(o1, v1, v2), ef(f, v3, Seq::empty())) {
                (Ok(w1), Ok(w2)) => match ef(o2, w1, w2) {
                    Ok(v) => Ok::<Option<Seq<char>>, Seq<char>>(Some(v)),
                    Err(_) => Ok(None),
                },
                _ => Ok(None),
            }
        }),
{
    lemma_keys_reduced_pair(c, d1, o1, n1, d2, o2, n2, pf, ef, v1, v2);
    let s1 = perform_exp_input(c, seq![d1], pf, ef).0;
    let s2 = perform_exp_input(s1, n1, pf, ef).0;
    let s3 = perform_exp_input(s2, seq![d2], pf, ef).0;
    let s4 = perform_exp_input(s3, n2, pf, ef).0;
    let x = binary(o1, 2, leaf(1, v1), leaf(3, v2));
    lemma_keys_function_waits(s4, x, o2, n2, f, nf, d3, pf, ef);
    let s5 = perform_exp_input(s4, nf, pf, ef).0;
    let s6 = perform_exp_input(s5, seq![d3], pf, ef).0;
    assert(eval(ef, x) == ef(o1, v1, v2)) by {
        reveal_with_fuel(eval, 2);
    }
    let f2 = fresh_op(o2, 4);
    let g = fresh_op(f, 5);
    let lc = leaf(6, v3);
    let b7 = push_operand(s6.builder, s6.operand_token, pf).0;
    assert(b7.operands =~= seq![x, lc]);
    assert(b7.operators =~= seq![f2, g]);
    let y = Node::Unary { id: f, prec: op_prec(f), idx: 5, arg: Some(Box::new(lc)) };
    assert(fill_args(g, b7.operands, -1, 1) == (Some(y), seq![x])) by {
        reveal_with_fuel(fill_args, 2);
        assert(b7.operands.drop_last() =~= seq![x]);
    }
    assert(eval(ef, y) == ef(f, v3, Seq::empty())) by {
        reveal_with_fuel(eval, 2);
    }
    let st1 = build_top(b7, -1, ef);
    assert(st1.0.operands =~= seq![x, y]);
    assert(st1.0.operators =~= seq![f2]);
    let root = binary(o2, 4, x, y);
    assert(fill_args(f2, st1.0.operands, -1, 2) == (Some(root), Seq::<Node>::empty())) by {
        reveal_with_fuel(fill_args, 3);
        assert(st1.0.operands.drop_last() =~= seq![x]);
        assert(st1.0.operands.drop_last().drop_last() =~= Seq::<Node>::empty());
    }
    assert(eval(ef, root) == match (ef(o1, v1, v2), ef(f, v3, Seq::empty())) {
        (Ok(w1), Ok(w2)) => ef(o2, w1, w2),
        (Err(e), _) => Err(e),
        (Ok(_), Err(e)) => Err(e),
    }) by {
        reveal_with_fuel(eval, 2);
    }
    let st2 = build_top(st1.0, -1, ef);
    assert(st2.0.operands =~= seq![root]);
    assert(st2.0.operators.len() == 0);
    assert(finish(st2.0, ef).1 == Ok::<Option<Node>, Seq<char>>(Some(root)));
    assert(expression_eval(ef, Some(root)) == eval(ef, root));
    assert(st1.1 == outcome_reply(ef(f, v3, Seq::empty())));
    assert(st2.1 == outcome_reply(eval(ef, root)));
    let fin = finish(b7, ef);
    if ef(f, v3, Seq::empty()) is Err {
        assert(fin.1 is Err);
    } else if eval(ef, root) is Err {
        assert(finish(st1.0, ef).1 is Err);
        assert(fin.1 is Err);
    } else {
        assert(finish(st1.0, ef).1 == Ok::<Option<Node>, Seq<char>>(Some(root)));
        assert(fin.1 == Ok::<Option<Node>, Seq<char>>(Some(root)));
    }
}

/// On the keypad, "a o1 b o2 d" where `o2` binds tighter than `o1`, then
/// "CE": the operand being typed is dropped, and the value of the last
/// number handed to the expression, "b", is shown.
pub proof fn law_keypad_clear_entry_shows_last_number(
    c: CalcModel,
    d1: char,
    o1: FunctionId,
    n1: Seq<char>,
    d2: char,
    o2: FunctionId,
    n2: Seq<char>,
    d: char,
    pf: ParseFn,
    ef: ExecFn,
    v1: Seq<char>,
    v2: Seq<char>,
)
    requires
        c.builder == builder_init(),
        c.operand_token.len() == 0,
        is_ascii_digit(d1),
        is_ascii_digit(d2),
        is_ascii_digit(d),
        additive_key(o1, n1),
        multiplicative_key(o2, n2),
        constant_value(c.constants, n1) is None,
        constant_value(c.constants, n2) is None,
        pf(seq![d1]) == Some(v1),
        pf(seq![d2]) == Some(v2),
    ensures
        ({
            let s1 = perform_exp_input(c, seq![d1], pf, ef).0;
            let s2 = perform_exp_input(s1, n1, pf, ef).0;
            let s3 = perform_exp_input(s2, seq![d2], pf, ef).0;
            let s4 = perform_exp_input(s3, n2, pf, ef).0;
            let s5 = perform_exp_input(s4, seq![d], pf, ef).0;
            let ce = feature_effect(s5, Feature::CE, pf, ef);
            &&& ce.1 == Ok::<Option<Seq<char>>, Seq<char>>(Some(v2))
            &&& ce.0.operand_token.len() == 0
            &&& ce.0.builder == s4.builder
        }),
{
    lemma_keys_waiting_pair(c, d1, o1, n1, d2, o2, n2, pf, ef, v1, v2);
    let s1 = perform_exp_input(c, seq![d1], pf, ef).0;
    let s2 = perform_exp_input(s1, n1, pf, ef).0;
    let s3 = perform_exp_input(s2, seq![d2], pf, ef).0;
    let s4 = perform_exp_input(s3, n2, pf, ef).0;
    let s5 = perform_exp_input(s4, seq![d], pf, ef).0;
    assert(s5.builder == s4.builder);
    assert(s5.builder.operands.last() == leaf(3, v2));
}

} // verus!
