//! The mathematical model of the engine: expression units as trees, the
//! expression builder and the calculator as states, and the effect of each
//! of their operations as a function of state and input.
//!
//! Arithmetic enters the model only through the two functions `ef`
//! (apply an operator) and `pf` (read a number); see `numbers`.

use vstd::prelude::*;
use super::functions::{
    FunctionId, ID_ADD, ID_COS, ID_DIV, ID_INV, ID_MUL, ID_OPEN_BRACKET, ID_SIN, ID_SQR, ID_SQRT,
    ID_SUB, ID_TAN, PRIODITY_ADDITIVE, PRIODITY_BRACKET, PRIODITY_MULTIPLICATIVE, PRIODITY_UNARY_OP,
};
use super::text::{is_alphanumeric_char, is_ascii_digit};

verus! {

pub const EXP_UNIT_NAME_CONSTANT: &'static str = "constant";
pub const EXP_UNIT_NAME_ADD: &'static str = "+";
pub const EXP_UNIT_NAME_SUB: &'static str = "\u{2212}";
pub const EXP_UNIT_NAME_MUL: &'static str = "\u{d7}";
pub const EXP_UNIT_NAME_DIV: &'static str = "\u{f7}";
pub const EXP_UNIT_NAME_SIN: &'static str = "sin";
pub const EXP_UNIT_NAME_COS: &'static str = "cos";
pub const EXP_UNIT_NAME_TAN: &'static str = "tan";
pub const EXP_UNIT_NAME_INV: &'static str = "\u{215f}";
pub const EXP_UNIT_NAME_SQR: &'static str = "\u{b2}";
pub const EXP_UNIT_NAME_SQRT: &'static str = "\u{221a}";
pub const EXP_UNIT_NAME_OPEN_BRK: &'static str = "(";
pub const EXP_UNIT_NAME_CLOSE_BRK: &'static str = ")";

/// Reply of an input to the builder or the calculator: the text to show,
/// if any, or an error message.
pub type Reply = Result<Option<Seq<char>>, Seq<char>>;

/// Result of evaluating a unit: the number's text or an error message.
pub type Outcome = Result<Seq<char>, Seq<char>>;

/// Applying an operator to numbers (see `numbers::exec_oracle`).
pub type ExecFn = spec_fn(FunctionId, Seq<char>, Seq<char>) -> Outcome;

/// Reading a number (see `numbers::parse_oracle`).
pub type ParseFn = spec_fn(Seq<char>) -> Option<Seq<char>>;

pub open spec fn outcome_reply(o: Outcome) -> Reply {
    match o {
        Ok(v) => Ok(Some(v)),
        Err(e) => Err(e),
    }
}

// ---------------------------------------------------------------------------
// Units
// ---------------------------------------------------------------------------

/// A unit of an expression: a number, or an operator with the operands that
/// it holds so far. `idx` is the unit's position in the input.
pub enum Node {
    Const { idx: int, text: Seq<char> },
    Unary { id: FunctionId, prec: int, idx: int, arg: Option<Box<Node>> },
    Binary {
        id: FunctionId,
        prec: int,
        idx: int,
        left: Option<Box<Node>>,
        right: Option<Box<Node>>,
    },
}

pub open spec fn is_binary_id(id: FunctionId) -> bool {
    id == ID_ADD || id == ID_SUB || id == ID_MUL || id == ID_DIV
}

pub open spec fn is_unary_id(id: FunctionId) -> bool {
    id == ID_SIN || id == ID_COS || id == ID_TAN || id == ID_SQR || id == ID_SQRT || id == ID_INV
        || id == ID_OPEN_BRACKET
}

pub open spec fn is_known_op(id: FunctionId) -> bool {
    is_binary_id(id) || is_unary_id(id)
}

/// The symbol of an operator.
pub open spec fn op_name(id: FunctionId) -> Seq<char> {
    if id == ID_ADD {
        EXP_UNIT_NAME_ADD@
    } else if id == ID_SUB {
        EXP_UNIT_NAME_SUB@
    } else if id == ID_MUL {
        EXP_UNIT_NAME_MUL@
    } else if id == ID_DIV {
        EXP_UNIT_NAME_DIV@
    } else if id == ID_SIN {
        EXP_UNIT_NAME_SIN@
    } else if id == ID_COS {
        EXP_UNIT_NAME_COS@
    } else if id == ID_TAN {
        EXP_UNIT_NAME_TAN@
    } else if id == ID_INV {
        EXP_UNIT_NAME_INV@
    } else if id == ID_SQR {
        EXP_UNIT_NAME_SQR@
    } else if id == ID_SQRT {
        EXP_UNIT_NAME_SQRT@
    } else if id == ID_OPEN_BRACKET {
        EXP_UNIT_NAME_OPEN_BRK@
    } else {
        Seq::empty()
    }
}

/// The priority of an operator: the smaller, the tighter it binds.
pub open spec fn op_prec(id: FunctionId) -> int {
    if id == ID_ADD || id == ID_SUB {
        PRIODITY_ADDITIVE as int
    } else if id == ID_MUL || id == ID_DIV {
        PRIODITY_MULTIPLICATIVE as int
    } else if id == ID_OPEN_BRACKET {
        PRIODITY_BRACKET as int
    } else {
        PRIODITY_UNARY_OP as int
    }
}

/// The operators that a name stands for, in the order they are looked up.
pub open spec fn op_table() -> Seq<(Seq<char>, FunctionId)> {
    seq![
        (EXP_UNIT_NAME_ADD@, ID_ADD),
        (EXP_UNIT_NAME_SUB@, ID_SUB),
        (EXP_UNIT_NAME_MUL@, ID_MUL),
        (EXP_UNIT_NAME_DIV@, ID_DIV),
        (EXP_UNIT_NAME_SIN@, ID_SIN),
        (EXP_UNIT_NAME_COS@, ID_COS),
        (EXP_UNIT_NAME_TAN@, ID_TAN),
        (EXP_UNIT_NAME_INV@, ID_INV),
        (EXP_UNIT_NAME_SQR@, ID_SQR),
        (EXP_UNIT_NAME_SQRT@, ID_SQRT),
        (EXP_UNIT_NAME_OPEN_BRK@, ID_OPEN_BRACKET),
    ]
}

/// The first entry of `t` named `name`.
pub open spec fn table_lookup(t: Seq<(Seq<char>, FunctionId)>, name: Seq<char>) -> Option<
    FunctionId,
>
    decreases t.len(),
{
    if t.len() == 0 {
        None
    } else if t[0].0 == name {
        Some(t[0].1)
    } else {
        table_lookup(t.drop_first(), name)
    }
}

/// The operator that `name` stands for, if any.
pub open spec fn functor_id(name: Seq<char>) -> Option<FunctionId> {
    table_lookup(op_table(), name)
}

/// A fresh operator unit, holding no operand.
pub open spec fn fresh_op(id: FunctionId, idx: int) -> Node {
    if is_binary_id(id) {
        Node::Binary { id, prec: op_prec(id), idx, left: None, right: None }
    } else {
        Node::Unary { id, prec: op_prec(id), idx, arg: None }
    }
}

pub open spec fn node_idx(n: Node) -> int {
    match n {
        Node::Const { idx, .. } => idx,
        Node::Unary { idx, .. } => idx,
        Node::Binary { idx, .. } => idx,
    }
}

pub open spec fn set_node_idx(n: Node, i: int) -> Node {
    match n {
        Node::Const { idx, text } => Node::Const { idx: i, text },
        Node::Unary { id, prec, idx, arg } => Node::Unary { id, prec, idx: i, arg },
        Node::Binary { id, prec, idx, left, right } => Node::Binary {
            id,
            prec,
            idx: i,
            left,
            right,
        },
    }
}

/// The operator id of an operator unit (none for a number).
pub open spec fn node_op_id(n: Node) -> Option<FunctionId> {
    match n {
        Node::Const { .. } => None,
        Node::Unary { id, .. } => Some(id),
        Node::Binary { id, .. } => Some(id),
    }
}

pub open spec fn node_prec(n: Node) -> int {
    match n {
        Node::Const { .. } => 0,
        Node::Unary { prec, .. } => prec,
        Node::Binary { prec, .. } => prec,
    }
}

pub open spec fn node_name(n: Node) -> Seq<char> {
    match n {
        Node::Const { .. } => EXP_UNIT_NAME_CONSTANT@,
        Node::Unary { id, .. } => op_name(id),
        Node::Binary { id, .. } => op_name(id),
    }
}

pub open spec fn arg_count(n: Node) -> int {
    match n {
        Node::Const { .. } => 0,
        Node::Unary { .. } => 1,
        Node::Binary { .. } => 2,
    }
}

/// An operator unit takes `o` as its next operand: a one-argument operator
/// into its only slot, a two-argument one first as its right operand and
/// then as its left one; a full unit, or a number, drops it.
pub open spec fn push_into(n: Node, o: Node) -> Node {
    match n {
        Node::Const { .. } => n,
        Node::Unary { id, prec, idx, arg } => if arg is None {
            Node::Unary { id, prec, idx, arg: Some(Box::new(o)) }
        } else {
            n
        },
        Node::Binary { id, prec, idx, left, right } => if right is None {
            Node::Binary { id, prec, idx, left, right: Some(Box::new(o)) }
        } else if left is None {
            Node::Binary { id, prec, idx, left: Some(Box::new(o)), right }
        } else {
            n
        },
    }
}

/// The code that taking an operand answers: the slot filled (0 left or
/// only, 1 right), or -1 when the operand was dropped.
pub open spec fn push_into_code(n: Node) -> int {
    match n {
        Node::Const { .. } => -1,
        Node::Unary { arg, .. } => if arg is None {
            0
        } else {
            -1
        },
        Node::Binary { left, right, .. } => if right is None {
            1
        } else if left is None {
            0
        } else {
            -1
        },
    }
}

/// The value of a unit: a number is its own value; an operator applies its
/// arithmetic to the values of its operands, left to right, after the first
/// error among them; a bracket passes its operand's value on; a missing
/// operand is an error.
pub open spec fn eval(ef: ExecFn, n: Node) -> Outcome
    decreases n,
{
    match n {
        Node::Const { text, .. } => Ok(text),
        Node::Unary { id, arg, .. } => match arg {
            None => Err("Missing operand"@),
            Some(a) => match eval(ef, *a) {
                Err(e) => Err(e),
                Ok(v) => if id == ID_OPEN_BRACKET {
                    Ok(v)
                } else {
                    ef(id, v, Seq::empty())
                },
            },
        },
        Node::Binary { id, left, right, .. } => match left {
            None => Err("Missing operand"@),
            Some(l) => match right {
                None => Err("Missing operand"@),
                Some(r) => match eval(ef, *l) {
                    Err(e) => Err(e),
                    Ok(v1) => match eval(ef, *r) {
                        Err(e) => Err(e),
                        Ok(v2) => ef(id, v1, v2),
                    },
                },
            },
        },
    }
}

pub open spec fn is_bracket_name(s: Seq<char>) -> bool {
    s == EXP_UNIT_NAME_OPEN_BRK@
}

/// The text of a unit, as the calculator displays it.
pub open spec fn node_str(n: Node) -> Seq<char>
    decreases n,
{
    match n {
        Node::Const { text, .. } => text,
        Node::Unary { id, arg, .. } => if id == ID_OPEN_BRACKET {
            match arg {
                None => "("@,
                Some(a) => "("@ + node_str(*a) + ")"@,
            }
        } else if id == ID_SQR {
            match arg {
                None => op_name(id),
                Some(a) => node_str(*a) + op_name(id),
            }
        } else {
            match arg {
                None => op_name(id),
                Some(a) => if is_bracket_name(node_name(*a)) {
                    op_name(id) + node_str(*a)
                } else {
                    op_name(id) + "("@ + node_str(*a) + ")"@
                },
            }
        },
        Node::Binary { id, left, right, .. } => match left {
            None => op_name(id),
            Some(l) => match right {
                None => node_str(*l) + op_name(id),
                Some(r) => node_str(*l) + op_name(id) + node_str(*r),
            },
        },
    }
}

/// The value of a finished expression (its root, if any).
pub open spec fn expression_eval(ef: ExecFn, root: Option<Node>) -> Outcome {
    match root {
        None => Err("Empty expression"@),
        Some(n) => eval(ef, n),
    }
}

/// The text of a finished expression.
pub open spec fn expression_str(root: Option<Node>) -> Seq<char> {
    match root {
        None => Seq::empty(),
        Some(n) => node_str(n),
    }
}

// ---------------------------------------------------------------------------
// The expression builder
// ---------------------------------------------------------------------------

/// State of the expression builder: how many tokens it has taken, how many
/// operands the last token takes, the stack of units built so far, and the
/// stack of operators still waiting for their operands.
#[verifier::ext_equal]
pub struct BuilderModel {
    pub token_count: int,
    pub last_op_count: int,
    pub operands: Seq<Node>,
    pub operators: Seq<Node>,
}

pub open spec fn builder_init() -> BuilderModel {
    BuilderModel { token_count: 0, last_op_count: -2, operands: seq![], operators: seq![] }
}

/// Every unit that the builder holds stands at a position already counted.
pub open spec fn positions_within(m: BuilderModel) -> bool {
    &&& forall|i: int| 0 <= i < m.operands.len() ==> node_idx(#[trigger] m.operands[i]) <= m.token_count
    &&& forall|i: int| 0 <= i < m.operators.len() ==> node_idx(#[trigger] m.operators[i]) <= m.token_count
}

/// Moves up to `args` units from the top of `operands` into `op`. A unit at
/// or below `lower` (when `lower >= 0`), or a missing one, is an error, after
/// which the units taken so far are lost; `None` marks that error.
pub open spec fn fill_args(op: Node, operands: Seq<Node>, lower: int, args: int) -> (
    Option<Node>,
    Seq<Node>,
)
    decreases args,
{
    if args <= 0 {
        (Some(op), operands)
    } else if operands.len() == 0 {
        (None, operands)
    } else if lower >= 0 && node_idx(operands.last()) <= lower {
        (None, operands.drop_last())
    } else {
        fill_args(push_into(op, operands.last()), operands.drop_last(), lower, args - 1)
    }
}

/// Reduces the top operator: it takes its operands from the operand stack
/// and, evaluated, goes there itself; the reply is its value.
pub open spec fn build_top(m: BuilderModel, lower: int, ef: ExecFn) -> (BuilderModel, Reply) {
    let op = m.operators.last();
    let ops = m.operators.drop_last();
    let filled = fill_args(op, m.operands, lower, arg_count(op));
    match filled.0 {
        None => (BuilderModel { operators: ops, operands: filled.1, ..m }, Err("Invalid expression"@)),
        Some(node) => (
            BuilderModel { operators: ops, operands: filled.1.push(node), ..m },
            outcome_reply(eval(ef, node)),
        ),
    }
}

/// The position of the first (bottom-most) open bracket on `ops`, or -1.
pub open spec fn first_bracket(ops: Seq<Node>) -> int
    decreases ops.len(),
{
    if ops.len() == 0 {
        -1
    } else if node_op_id(ops[0]) == Some(ID_OPEN_BRACKET) {
        node_idx(ops[0])
    } else {
        first_bracket(ops.drop_first())
    }
}

/// Reduces operators until an open bracket has been reduced, an error
/// occurs, or none is left (an error too).
pub open spec fn close_loop(m: BuilderModel, lower: int, ef: ExecFn) -> (BuilderModel, Reply)
    decreases m.operators.len(),
{
    if m.operators.len() == 0 {
        (m, Err("Missing open bracket"@))
    } else {
        let top_id = node_op_id(m.operators.last());
        let step = build_top(m, lower, ef);
        if step.1 is Err || top_id == Some(ID_OPEN_BRACKET) {
            step
        } else {
            close_loop(step.0, lower, ef)
        }
    }
}

/// A closing bracket: reduces back to the first open bracket on the stack.
pub open spec fn close_bracket(m: BuilderModel, ef: ExecFn) -> (BuilderModel, Reply) {
    close_loop(m, first_bracket(m.operators), ef)
}

/// The builder takes the operator token `name`; `prefer_eval` asks that a
/// one-argument function be applied at once to the operand before it.
pub open spec fn push_functor(m: BuilderModel, name: Seq<char>, prefer_eval: bool, ef: ExecFn) -> (
    BuilderModel,
    Reply,
) {
    let m1 = BuilderModel { token_count: m.token_count + 1, ..m };
    if name == EXP_UNIT_NAME_CLOSE_BRK@ {
        close_bracket(BuilderModel { last_op_count: 1, ..m1 }, ef)
    } else {
        match functor_id(name) {
            None => (BuilderModel { last_op_count: -1, ..m1 }, Err("No functor found"@)),
            Some(id) => {
                let op = fresh_op(id, m1.token_count);
                let m2 = BuilderModel { last_op_count: arg_count(op), ..m1 };
                let pushed = BuilderModel { operators: m2.operators.push(op), ..m2 };
                if prefer_eval && arg_count(op) == 1 && id != ID_OPEN_BRACKET {
                    build_top(pushed, -1, ef)
                } else if m2.operators.len() == 0 || id == ID_OPEN_BRACKET {
                    (pushed, Ok(None))
                } else if node_prec(m2.operators.last()) <= op_prec(id) {
                    let step = build_top(m2, -1, ef);
                    (BuilderModel { operators: step.0.operators.push(op), ..step.0 }, step.1)
                } else {
                    (pushed, Ok(None))
                }
            },
        }
    }
}

/// The builder takes the operand token `token`; answers whether it was read
/// as a number.
pub open spec fn push_operand(m: BuilderModel, token: Seq<char>, pf: ParseFn) -> (
    BuilderModel,
    bool,
) {
    let m1 = BuilderModel { token_count: m.token_count + 1, last_op_count: 1, ..m };
    match pf(token) {
        None => (m1, false),
        Some(v) => (
            BuilderModel {
                operands: m1.operands.push(Node::Const { idx: m1.token_count, text: v }),
                ..m1
            },
            true,
        ),
    }
}

/// Reduces every operator; then exactly one unit must be left, which
/// becomes the root of the finished expression.
pub open spec fn finish(m: BuilderModel, ef: ExecFn) -> (BuilderModel, Result<Option<Node>, Seq<char>>)
    decreases m.operators.len(),
{
    if m.operators.len() > 0 {
        let step = build_top(m, -1, ef);
        match step.1 {
            Err(e) => (step.0, Err(e)),
            Ok(_) => finish(step.0, ef),
        }
    } else if m.operands.len() != 1 {
        (m, Err("Invalid expression"@))
    } else {
        (BuilderModel { operands: seq![], ..m }, Ok(Some(m.operands[0])))
    }
}

/// The value of the last unit built.
pub open spec fn eval_immediate(m: BuilderModel, ef: ExecFn) -> Outcome {
    if m.operands.len() == 0 {
        Err("Incomplete expression"@)
    } else {
        eval(ef, m.operands.last())
    }
}

/// Inserts `x` into `s` after every entry whose key is at most `x`'s.
pub open spec fn insert_by_key(s: Seq<(int, Seq<char>)>, x: (int, Seq<char>)) -> Seq<
    (int, Seq<char>),
>
    decreases s.len(),
{
    if s.len() == 0 || s.last().0 <= x.0 {
        s.push(x)
    } else {
        insert_by_key(s.drop_last(), x).push(s.last())
    }
}

/// `s` sorted by key, entries with equal keys in their order in `s`.
pub open spec fn sort_by_key(s: Seq<(int, Seq<char>)>) -> Seq<(int, Seq<char>)>
    decreases s.len(),
{
    if s.len() == 0 {
        s
    } else {
        insert_by_key(sort_by_key(s.drop_last()), s.last())
    }
}

/// The texts of the entries of `s`, joined.
pub open spec fn join_texts(s: Seq<(int, Seq<char>)>) -> Seq<char>
    decreases s.len(),
{
    if s.len() == 0 {
        Seq::empty()
    } else {
        join_texts(s.drop_last()) + s.last().1
    }
}

pub open spec fn unit_entry(n: Node) -> (int, Seq<char>) {
    (node_idx(n), node_str(n))
}

/// The units of the builder, operands then operators, as (position, text).
pub open spec fn unit_entries(m: BuilderModel) -> Seq<(int, Seq<char>)> {
    (m.operands + m.operators).map_values(|n: Node| unit_entry(n))
}

/// The text of everything the builder holds, in input order.
pub open spec fn exp_string(m: BuilderModel) -> Seq<char> {
    join_texts(sort_by_key(unit_entries(m)))
}

// ---------------------------------------------------------------------------
// Tokens
// ---------------------------------------------------------------------------

/// Chars that continue a word token.
pub open spec fn is_word_char(c: char) -> bool {
    is_alphanumeric_char(c) || c == '.'
}

/// The tokens completed after reading `s`, and the word token in progress.
pub open spec fn tokenize_state(s: Seq<char>) -> (Seq<Seq<char>>, Seq<char>)
    decreases s.len(),
{
    if s.len() == 0 {
        (seq![], seq![])
    } else {
        let prev = tokenize_state(s.drop_last());
        let c = s.last();
        if is_word_char(c) {
            (prev.0, prev.1.push(c))
        } else {
            let done = if prev.1.len() > 0 {
                prev.0.push(prev.1)
            } else {
                prev.0
            };
            (done.push(seq![c]), seq![])
        }
    }
}

/// `s` split into maximal runs of word chars and single other chars.
pub open spec fn tokenize(s: Seq<char>) -> Seq<Seq<char>> {
    let st = tokenize_state(s);
    if st.1.len() > 0 {
        st.0.push(st.1)
    } else {
        st.0
    }
}

pub open spec fn is_sign(c: char) -> bool {
    c == '-' || c == '+'
}

/// `s` without its leading sign, if it has one.
pub open spec fn unsigned_part(s: Seq<char>) -> Seq<char> {
    if s.len() > 0 && is_sign(s[0]) {
        s.drop_first()
    } else {
        s
    }
}

/// A decimal number: an optional sign, then digits with at most one dot,
/// which is not the first of them; at least one char after the sign.
pub open spec fn is_decimal(s: Seq<char>) -> bool {
    let d = unsigned_part(s);
    &&& d.len() > 0
    &&& d[0] != '.'
    &&& forall|i: int| 0 <= i < d.len() ==> is_ascii_digit(#[trigger] d[i]) || d[i] == '.'
    &&& forall|i: int, j: int| 0 <= i < j < d.len() && #[trigger] d[i] == '.' ==> #[trigger] d[j] != '.'
}

// ---------------------------------------------------------------------------
// The calculator
// ---------------------------------------------------------------------------

/// State of the calculator.
#[verifier::ext_equal]
pub struct CalcModel {
    pub builder: BuilderModel,
    /// Named constants, each name at most once.
    pub constants: Seq<(Seq<char>, Seq<char>)>,
    /// The operand being typed.
    pub operand_token: Seq<char>,
    /// The result of the last evaluation, until something else is typed.
    pub last_result: Seq<char>,
    /// The last text shown.
    pub last_immediate: Seq<char>,
    /// The expression last evaluated, followed by " =".
    pub cached_history: Seq<char>,
    /// The tokens of the expression being built.
    pub input_tokens: Seq<Seq<char>>,
    pub memory: Option<Seq<char>>,
    pub is_operand_last: bool,
    pub need_sync_tokens: bool,
}

pub open spec fn calc_init() -> CalcModel {
    CalcModel {
        builder: builder_init(),
        constants: seq![],
        operand_token: seq![],
        last_result: "0"@,
        last_immediate: seq![],
        cached_history: seq![],
        input_tokens: seq![],
        memory: None,
        is_operand_last: false,
        need_sync_tokens: false,
    }
}

/// The position of the entry named `name` in `cs`, or -1.
pub open spec fn constant_pos(cs: Seq<(Seq<char>, Seq<char>)>, name: Seq<char>) -> int
    decreases cs.len(),
{
    if cs.len() == 0 {
        -1
    } else if cs.last().0 == name {
        cs.len() - 1
    } else {
        constant_pos(cs.drop_last(), name)
    }
}

/// The value of the constant `name`, if any.
pub open spec fn constant_value(cs: Seq<(Seq<char>, Seq<char>)>, name: Seq<char>) -> Option<
    Seq<char>,
> {
    let p = constant_pos(cs, name);
    if p < 0 {
        None
    } else {
        Some(cs[p].1)
    }
}

/// `cs` with the constant `name` set to `value`.
pub open spec fn set_constant(
    cs: Seq<(Seq<char>, Seq<char>)>,
    name: Seq<char>,
    value: Seq<char>,
) -> Seq<(Seq<char>, Seq<char>)> {
    let p = constant_pos(cs, name);
    if p < 0 {
        cs.push((name, value))
    } else {
        cs.update(p, (name, value))
    }
}

pub open spec fn add_constant(c: CalcModel, name: Seq<char>, value: Seq<char>) -> CalcModel {
    CalcModel { constants: set_constant(c.constants, name, value), ..c }
}

/// Hands an operator token to the builder.
pub open spec fn put_functor(c: CalcModel, token: Seq<char>, ef: ExecFn) -> (CalcModel, Reply) {
    let step = push_functor(c.builder, token, c.is_operand_last, ef);
    match step.1 {
        Ok(Some(_)) => (
            CalcModel {
                builder: step.0,
                need_sync_tokens: true,
                is_operand_last: step.0.last_op_count == 1,
                ..c
            },
            step.1,
        ),
        _ => (CalcModel { builder: step.0, is_operand_last: false, ..c }, step.1),
    }
}

/// Hands a token to the builder: a decimal number as an operand, anything
/// else as an operator.
pub open spec fn put_token(c: CalcModel, token: Seq<char>, pf: ParseFn, ef: ExecFn) -> (
    CalcModel,
    Reply,
) {
    if is_decimal(token) {
        let step = push_operand(c.builder, token, pf);
        (CalcModel { builder: step.0, is_operand_last: true, ..c }, Ok(Some(token)))
    } else {
        put_functor(c, token, ef)
    }
}

/// Records the token `tok` as input; after a reduction, the input is
/// instead read back from the builder's text.
pub open spec fn record_token(c: CalcModel, tok: Seq<char>) -> CalcModel {
    if c.need_sync_tokens {
        CalcModel {
            input_tokens: tokenize(exp_string(c.builder)),
            need_sync_tokens: false,
            ..c
        }
    } else {
        CalcModel { input_tokens: c.input_tokens.push(tok), ..c }
    }
}

/// Hands the operand being typed (or else the last result) to the builder.
/// The number that an operator typed next takes as its left operand: the
/// last result, or else the operand being typed (empty when there is none).
pub open spec fn pending_operand(c: CalcModel) -> Seq<char> {
    if c.last_result.len() > 0 {
        c.last_result
    } else {
        c.operand_token
    }
}

pub open spec fn push_temp_input(c: CalcModel, pf: ParseFn, ef: ExecFn) -> CalcModel {
    let c1 = if c.last_result.len() > 0 {
        CalcModel { operand_token: c.last_result, last_result: seq![], ..c }
    } else {
        c
    };
    if c1.operand_token.len() > 0 {
        let c2 = put_token(c1, c1.operand_token, pf, ef).0;
        CalcModel { operand_token: seq![], ..record_token(c2, c1.operand_token) }
    } else {
        c1
    }
}

pub open spec fn expression_op_input(c: CalcModel, op: Seq<char>, pf: ParseFn, ef: ExecFn) -> (
    CalcModel,
    Reply,
) {
    let c1 = push_temp_input(c, pf, ef);
    let step = put_functor(c1, op, ef);
    (record_token(step.0, op), step.1)
}

/// Chars that are typed into the operand.
pub open spec fn is_operand_char(ch: char) -> bool {
    is_ascii_digit(ch) || ch == '.'
}

/// The calculator takes the keypad input `input`: a digit or a dot extends
/// the operand being typed; the name of a constant replaces it with the
/// constant's value; anything else is an operator.
pub open spec fn perform_exp_input(c: CalcModel, input: Seq<char>, pf: ParseFn, ef: ExecFn) -> (
    CalcModel,
    Reply,
) {
    if input.len() == 0 {
        (c, Err("Empty input"@))
    } else {
        let c0 = CalcModel { cached_history: seq![], ..c };
        let step = if input.len() == 1 && is_operand_char(input[0]) {
            let t = c0.operand_token.push(input[0]);
            (CalcModel { last_result: seq![], operand_token: t, ..c0 }, Ok(Some(t)))
        } else {
            match constant_value(c0.constants, input) {
                Some(v) => (CalcModel { operand_token: v, last_result: seq![], ..c0 }, Ok(Some(v))),
                None => expression_op_input(c0, input, pf, ef),
            }
        };
        match step.1 {
            Ok(Some(v)) => (CalcModel { last_immediate: v, ..step.0 }, step.1),
            _ => step,
        }
    }
}

/// Hands `tokens` to the builder one by one; the replies in order.
pub open spec fn replay(c: CalcModel, tokens: Seq<Seq<char>>, pf: ParseFn, ef: ExecFn) -> (
    CalcModel,
    Seq<Reply>,
)
    decreases tokens.len(),
{
    if tokens.len() == 0 {
        (c, seq![])
    } else {
        let prev = replay(c, tokens.drop_last(), pf, ef);
        let step = put_token(prev.0, tokens.last(), pf, ef);
        (step.0, prev.1.push(step.1))
    }
}

/// After a failed evaluation: rebuild the expression from the input tokens,
/// giving the operand just handed over back to the typing.
pub open spec fn eval_error(c: CalcModel, temp_token_updated: bool, pf: ParseFn, ef: ExecFn) -> CalcModel {
    let c1 = CalcModel { builder: builder_init(), ..c };
    let c2 = if temp_token_updated {
        CalcModel {
            operand_token: c1.input_tokens.last(),
            input_tokens: c1.input_tokens.drop_last(),
            ..c1
        }
    } else {
        c1
    };
    replay(c2, c2.input_tokens, pf, ef).0
}

/// Evaluation ("="): finishes the expression and shows its value, which
/// the next input may take as its first operand.
pub open spec fn eval_input(c: CalcModel, pf: ParseFn, ef: ExecFn) -> (CalcModel, Reply) {
    let temp = c.operand_token.len() > 0;
    let c1 = if temp {
        CalcModel {
            builder: push_operand(c.builder, c.operand_token, pf).0,
            input_tokens: c.input_tokens.push(c.operand_token),
            operand_token: seq![],
            ..c
        }
    } else {
        c
    };
    let fin = finish(c1.builder, ef);
    let c2 = CalcModel { builder: fin.0, ..c1 };
    match fin.1 {
        Ok(root) => match expression_eval(ef, root) {
            Ok(v) => (
                CalcModel {
                    last_result: v,
                    last_immediate: v,
                    builder: builder_init(),
                    cached_history: expression_str(root) + " ="@,
                    operand_token: seq![],
                    input_tokens: seq![],
                    ..c2
                },
                Ok(Some(v)),
            ),
            Err(_) => (eval_error(c2, temp, pf, ef), Ok(None)),
        },
        Err(_) => (eval_error(c2, temp, pf, ef), Ok(None)),
    }
}

/// The last shown text among `rs`.
pub open spec fn last_shown(rs: Seq<Reply>) -> Option<Seq<char>>
    decreases rs.len(),
{
    if rs.len() == 0 {
        None
    } else {
        match rs.last() {
            Ok(Some(v)) => Some(v),
            _ => last_shown(rs.drop_last()),
        }
    }
}

/// Rebuilds the expression from the input tokens after a deletion.
pub open spec fn recalculate(c: CalcModel, pf: ParseFn, ef: ExecFn) -> (CalcModel, Reply) {
    let c1 = CalcModel { builder: builder_init(), ..c };
    let rp = replay(c1, c1.input_tokens, pf, ef);
    if rp.0.operand_token.len() == 0 {
        match last_shown(rp.1) {
            Some(v) => (rp.0, Ok(Some(v))),
            None => (rp.0, Ok(Some("0"@))),
        }
    } else {
        (rp.0, Ok(Some(rp.0.operand_token)))
    }
}

/// Deletion ("DEL"): the last char typed, or else the last input token.
pub open spec fn delete_input(c: CalcModel, pf: ParseFn, ef: ExecFn) -> (CalcModel, Reply) {
    if c.operand_token.len() > 0 {
        let c1 = CalcModel { operand_token: c.operand_token.drop_last(), ..c };
        if c1.operand_token.len() == 0 {
            recalculate(c1, pf, ef)
        } else {
            (c1, Ok(Some(c1.operand_token)))
        }
    } else if c.input_tokens.len() == 0 {
        (c, Ok(None))
    } else {
        recalculate(CalcModel { input_tokens: c.input_tokens.drop_last(), ..c }, pf, ef)
    }
}

/// Clear ("C"): everything but the memory and the constants.
pub open spec fn reset(c: CalcModel) -> (CalcModel, Reply) {
    (
        CalcModel {
            last_result: "0"@,
            last_immediate: "0"@,
            operand_token: seq![],
            input_tokens: seq![],
            builder: builder_init(),
            cached_history: seq![],
            is_operand_last: false,
            need_sync_tokens: false,
            ..c
        },
        Ok(Some("0"@)),
    )
}

/// Clear entry ("CE"): drops the operand being typed; shows the value of
/// the last unit built.
pub open spec fn reset_temp(c: CalcModel, ef: ExecFn) -> (CalcModel, Reply) {
    (
        CalcModel { operand_token: seq![], last_result: seq![], ..c },
        outcome_reply(eval_immediate(c.builder, ef)),
    )
}

/// Memory store ("MS"): keeps the last text shown, if it is a decimal
/// number.
pub open spec fn memory_store(c: CalcModel) -> (CalcModel, Reply) {
    if c.last_immediate.len() > 0 && is_decimal(c.last_immediate) {
        (CalcModel { memory: Some(c.last_immediate), ..c }, Ok(None))
    } else {
        (c, Ok(None))
    }
}

/// Memory recall ("MR"): the stored number becomes the operand being typed.
pub open spec fn memory_recover(c: CalcModel) -> (CalcModel, Reply) {
    match c.memory {
        Some(v) => (CalcModel { operand_token: v, ..c }, Ok(Some(v))),
        None => (c, Ok(None)),
    }
}

/// The text of the expression: the one last evaluated, or else the one
/// being built followed by the operand being typed.
pub open spec fn build_history(c: CalcModel) -> Seq<char> {
    if c.cached_history.len() == 0 {
        exp_string(c.builder) + c.operand_token
    } else {
        c.cached_history
    }
}

/// Room for the tokens that one input may hand to the builder (its token
/// counter is an `i32`).
pub open spec fn has_room(c: CalcModel) -> bool {
    &&& c.builder.token_count + 3 < i32::MAX
    &&& c.input_tokens.len() + 3 < i32::MAX
}

} // verus!
