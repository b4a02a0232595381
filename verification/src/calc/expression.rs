//! Expression units, the operator table, and the operator-precedence
//! expression builder.

use vstd::prelude::*;
use super::functions::{
    FunctionId, ID_ADD, ID_COS, ID_DIV, ID_INV, ID_MUL, ID_OPEN_BRACKET, ID_SIN, ID_SQR, ID_SQRT,
    ID_SUB, ID_TAN, PRIODITY_ADDITIVE, PRIODITY_BRACKET, PRIODITY_MULTIPLICATIVE, PRIODITY_UNARY_OP,
};
use super::model::{
    build_top, close_bracket, close_loop, exp_string, finish, first_bracket, push_functor,
    push_operand, builder_init, fill_args, unit_entries, sort_by_key, insert_by_key, join_texts,
    tokenize, tokenize_state, is_decimal, unsigned_part, eval_immediate, BuilderModel, Reply, arg_count, eval, expression_eval, expression_str, fresh_op, is_known_op, node_idx, node_name, node_op_id, node_prec, node_str, op_name, op_prec, op_table,
    positions_within, push_into, push_into_code, set_node_idx, table_lookup, functor_id, Node,
    EXP_UNIT_NAME_ADD, EXP_UNIT_NAME_CLOSE_BRK, EXP_UNIT_NAME_CONSTANT, EXP_UNIT_NAME_COS, EXP_UNIT_NAME_DIV,
    EXP_UNIT_NAME_INV, EXP_UNIT_NAME_MUL, EXP_UNIT_NAME_OPEN_BRK, EXP_UNIT_NAME_SIN,
    EXP_UNIT_NAME_SQR, EXP_UNIT_NAME_SQRT, EXP_UNIT_NAME_SUB, EXP_UNIT_NAME_TAN,
};
use super::numbers::{
    apply_operator, exec_oracle, exec_ready, outcome_view, parse_oracle, parse_ready, read_number,
};
use super::laws::{law_operand_appends_text, law_positions_within};
use super::text::{
    char_is_alphanumeric, char_is_ascii_digit, char_to_string, is_ascii_digit, join, push_char,
    string_is_empty,
};

verus! {

// ---------------------------------------------------------------------------
// Units
// ---------------------------------------------------------------------------

/// What every unit has: its position in the input (-1 until placed).
pub struct ExpUnitBase {
    pub exp_idx: i32,
}

impl ExpUnitBase {
    pub fn new() -> (r: Self)
        ensures
            r.exp_idx == -1,
    {
        Self { exp_idx: -1 }
    }
}

/// What every operator has: which operator it is and how tightly it binds.
pub struct ExpOpBase {
    pub unitbase: ExpUnitBase,
    pub id: FunctionId,
    pub precedence: i32,
}

/// A number, carried as the text that displays it.
pub struct ConstantUnit {
    pub unitbase: ExpUnitBase,
    pub value: String,
}

impl ConstantUnit {
    pub fn new(value: String) -> (r: Self)
        ensures
            r.unitbase.exp_idx == -1,
            r.value@ == value@,
    {
        Self { unitbase: ExpUnitBase::new(), value }
    }
}

/// An operator of two operands, `_1` on its left and `_2` on its right.
pub struct BinaryFunctionBase {
    pub unitbase: ExpOpBase,
    pub _1: Option<Box<ExpNode>>,
    pub _2: Option<Box<ExpNode>>,
}

/// An operator (or function, or bracket) of one operand `_1`.
pub struct UnaryFunctionBase {
    pub unitbase: ExpOpBase,
    pub _1: Option<Box<ExpNode>>,
}

/// A unit of an expression.
pub enum ExpNode {
    Constant(ConstantUnit),
    Unary(UnaryFunctionBase),
    Binary(BinaryFunctionBase),
}

pub open spec fn opt_node_view(o: Option<Box<ExpNode>>) -> Option<Box<Node>>
    decreases o,
{
    match o {
        Some(b) => Some(Box::new(node_view(*b))),
        None => None,
    }
}

pub open spec fn node_view(n: ExpNode) -> Node
    decreases n,
{
    match n {
        ExpNode::Constant(c) => Node::Const { idx: c.unitbase.exp_idx as int, text: c.value@ },
        ExpNode::Unary(u) => Node::Unary {
            id: u.unitbase.id,
            prec: u.unitbase.precedence as int,
            idx: u.unitbase.unitbase.exp_idx as int,
            arg: match u._1 {
                Some(b) => Some(Box::new(node_view(*b))),
                None => None,
            },
        },
        ExpNode::Binary(b) => Node::Binary {
            id: b.unitbase.id,
            prec: b.unitbase.precedence as int,
            idx: b.unitbase.unitbase.exp_idx as int,
            left: match b._1 {
                Some(x) => Some(Box::new(node_view(*x))),
                None => None,
            },
            right: match b._2 {
                Some(x) => Some(Box::new(node_view(*x))),
                None => None,
            },
        },
    }
}

impl View for ExpNode {
    type V = Node;

    open spec fn view(&self) -> Node {
        node_view(*self)
    }
}

impl UnaryFunctionBase {
    pub fn new(id: FunctionId, precedence: i32) -> (r: Self)
        ensures
            ExpNode::Unary(r)@ == (Node::Unary { id, prec: precedence as int, idx: -1, arg: None }),
    {
        Self {
            unitbase: ExpOpBase { unitbase: ExpUnitBase::new(), id, precedence },
            _1: None,
        }
    }

    /// Takes `operand` into the empty slot; answers 0, or -1 (and drops the
    /// operand) when the slot is full.
    pub fn push_operand(&mut self, operand: ExpNode) -> (r: i32)
        ensures
            ExpNode::Unary(*final(self))@ == push_into(ExpNode::Unary(*old(self))@, operand@),
            r == push_into_code(ExpNode::Unary(*old(self))@),
    {
        if self._1.is_none() {
            self._1 = Some(Box::new(operand));
            return 0;
        }
        -1
    }

    pub fn arg_count(&self) -> (r: i32)
        ensures
            r == 1,
    {
        1
    }

    pub fn get_op_base(&self) -> (r: &ExpOpBase)
        ensures
            r == self.unitbase,
    {
        &self.unitbase
    }
}

impl BinaryFunctionBase {
    pub fn new(id: FunctionId, precedence: i32) -> (r: Self)
        ensures
            ExpNode::Binary(r)@ == (Node::Binary {
                id,
                prec: precedence as int,
                idx: -1,
                left: None,
                right: None,
            }),
    {
        Self {
            unitbase: ExpOpBase { unitbase: ExpUnitBase::new(), id, precedence },
            _1: None,
            _2: None,
        }
    }

    /// Takes `operand` as the right operand, or else as the left one;
    /// answers the slot (1 right, 0 left), or -1 when both are full.
    pub fn push_operand(&mut self, operand: ExpNode) -> (r: i32)
        ensures
            ExpNode::Binary(*final(self))@ == push_into(ExpNode::Binary(*old(self))@, operand@),
            r == push_into_code(ExpNode::Binary(*old(self))@),
    {
        if self._2.is_none() {
            self._2 = Some(Box::new(operand));
            return 1;
        }
        if self._1.is_none() {
            self._1 = Some(Box::new(operand));
            return 0;
        }
        -1
    }

    pub fn arg_count(&self) -> (r: i32)
        ensures
            r == 2,
    {
        2
    }

    pub fn get_op_base(&self) -> (r: &ExpOpBase)
        ensures
            r == self.unitbase,
    {
        &self.unitbase
    }
}

/// The symbol of an operator.
pub fn op_symbol(id: FunctionId) -> (r: &'static str)
    ensures
        r@ == op_name(id),
{
    if id == ID_ADD {
        EXP_UNIT_NAME_ADD
    } else if id == ID_SUB {
        EXP_UNIT_NAME_SUB
    } else if id == ID_MUL {
        EXP_UNIT_NAME_MUL
    } else if id == ID_DIV {
        EXP_UNIT_NAME_DIV
    } else if id == ID_SIN {
        EXP_UNIT_NAME_SIN
    } else if id == ID_COS {
        EXP_UNIT_NAME_COS
    } else if id == ID_TAN {
        EXP_UNIT_NAME_TAN
    } else if id == ID_INV {
        EXP_UNIT_NAME_INV
    } else if id == ID_SQR {
        EXP_UNIT_NAME_SQR
    } else if id == ID_SQRT {
        EXP_UNIT_NAME_SQRT
    } else if id == ID_OPEN_BRACKET {
        EXP_UNIT_NAME_OPEN_BRK
    } else {
        proof {
            reveal_strlit("");
        }
        ""
    }
}

impl ExpNode {
    pub fn op_id(&self) -> (r: Option<FunctionId>)
        ensures
            r == node_op_id(self@),
    {
        match self {
            ExpNode::Constant(_) => None,
            ExpNode::Unary(u) => Some(u.unitbase.id),
            ExpNode::Binary(b) => Some(b.unitbase.id),
        }
    }

    pub fn op_precedence(&self) -> (r: i32)
        ensures
            r == node_prec(self@),
    {
        match self {
            ExpNode::Constant(_) => 0,
            ExpNode::Unary(u) => u.unitbase.precedence,
            ExpNode::Binary(b) => b.unitbase.precedence,
        }
    }

    pub fn operand_count(&self) -> (r: i32)
        ensures
            r == arg_count(self@),
    {
        match self {
            ExpNode::Constant(_) => 0,
            ExpNode::Unary(u) => u.arg_count(),
            ExpNode::Binary(b) => b.arg_count(),
        }
    }

    pub fn take_operand(&mut self, operand: ExpNode) -> (r: i32)
        ensures
            final(self)@ == push_into(old(self)@, operand@),
            r == push_into_code(old(self)@),
    {
        match self {
            ExpNode::Constant(_) => -1,
            ExpNode::Unary(u) => u.push_operand(operand),
            ExpNode::Binary(b) => b.push_operand(operand),
        }
    }

    pub fn unit_name(&self) -> (r: &'static str)
        ensures
            r@ == node_name(self@),
    {
        match self {
            ExpNode::Constant(_) => EXP_UNIT_NAME_CONSTANT,
            ExpNode::Unary(u) => op_symbol(u.unitbase.id),
            ExpNode::Binary(b) => op_symbol(b.unitbase.id),
        }
    }

    pub fn unit_idx(&self) -> (r: i32)
        ensures
            r == node_idx(self@),
    {
        match self {
            ExpNode::Constant(c) => c.unitbase.exp_idx,
            ExpNode::Unary(u) => u.unitbase.unitbase.exp_idx,
            ExpNode::Binary(b) => b.unitbase.unitbase.exp_idx,
        }
    }

    pub fn set_unit_idx(&mut self, idx: i32)
        ensures
            final(self)@ == set_node_idx(old(self)@, idx as int),
    {
        match self {
            ExpNode::Constant(c) => {
                c.unitbase.exp_idx = idx;
            },
            ExpNode::Unary(u) => {
                u.unitbase.unitbase.exp_idx = idx;
            },
            ExpNode::Binary(b) => {
                b.unitbase.unitbase.exp_idx = idx;
            },
        }
    }

    /// Evaluates the unit; `exec` does the arithmetic.
    pub fn evaluate<E: Fn(FunctionId, String, String) -> Result<String, String>>(
        &self,
        exec: &E,
    ) -> (r: Result<String, String>)
        requires
            exec_ready(exec),
        ensures
            outcome_view(r) == eval(exec_oracle(exec), self@),
        decreases self,
    {
        match self {
            ExpNode::Constant(c) => Ok(c.value.clone()),
            ExpNode::Unary(u) => match &u._1 {
                None => Err(String::from_str("Missing operand")),
                Some(a) => match a.evaluate(exec) {
                    Err(e) => Err(e),
                    Ok(v) => if u.unitbase.id == ID_OPEN_BRACKET {
                        Ok(v)
                    } else {
                        apply_operator(exec, u.unitbase.id, v, String::new())
                    },
                },
            },
            ExpNode::Binary(b) => match &b._1 {
                None => Err(String::from_str("Missing operand")),
                Some(l) => match &b._2 {
                    None => Err(String::from_str("Missing operand")),
                    Some(r) => match l.evaluate(exec) {
                        Err(e) => Err(e),
                        Ok(v1) => match r.evaluate(exec) {
                            Err(e) => Err(e),
                            Ok(v2) => apply_operator(exec, b.unitbase.id, v1, v2),
                        },
                    },
                },
            },
        }
    }

    /// The text of the unit.
    pub fn text(&self) -> (r: String)
        ensures
            r@ == node_str(self@),
        decreases self,
    {
        match self {
            ExpNode::Constant(c) => c.value.clone(),
            ExpNode::Unary(u) => {
                let id = u.unitbase.id;
                let name = String::from_str(op_symbol(id));
                if id == ID_OPEN_BRACKET {
                    match &u._1 {
                        None => String::from_str("("),
                        Some(a) => {
                            let inner = join(&String::from_str("("), &a.text());
                            join(&inner, &String::from_str(")"))
                        },
                    }
                } else if id == ID_SQR {
                    match &u._1 {
                        None => name,
                        Some(a) => join(&a.text(), &name),
                    }
                } else {
                    match &u._1 {
                        None => name,
                        Some(a) => {
                            let a_name = String::from_str(a.unit_name());
                            let brk = String::from_str(EXP_UNIT_NAME_OPEN_BRK);
                            if a_name == brk {
                                join(&name, &a.text())
                            } else {
                                let head = join(&name, &String::from_str("("));
                                let body = join(&head, &a.text());
                                join(&body, &String::from_str(")"))
                            }
                        },
                    }
                }
            },
            ExpNode::Binary(b) => {
                let name = String::from_str(op_symbol(b.unitbase.id));
                match &b._1 {
                    None => name,
                    Some(l) => match &b._2 {
                        None => join(&l.text(), &name),
                        Some(r) => {
                            let head = join(&l.text(), &name);
                            join(&head, &r.text())
                        },
                    },
                }
            },
        }
    }
}

// ---------------------------------------------------------------------------
// The common interface of units
// ---------------------------------------------------------------------------

/// What every unit of an expression offers.
pub trait ExpUnit {
    spec fn unit_model(&self) -> Node;

    fn to_string(&self) -> (r: String)
        ensures
            r@ == node_str(self.unit_model()),
    ;

    fn exp_name(&self) -> (r: &'static str)
        ensures
            r@ == node_name(self.unit_model()),
    ;

    fn get_exp_unit_base(&self) -> (r: &ExpUnitBase)
        ensures
            r.exp_idx == node_idx(self.unit_model()),
    ;

    fn get_exp_idx(&self) -> (r: i32)
        ensures
            r == node_idx(self.unit_model()),
    {
        self.get_exp_unit_base().exp_idx
    }

    fn set_exp_idx(&mut self, idx: i32)
        ensures
            final(self).unit_model() == set_node_idx(old(self).unit_model(), idx as int),
    ;
}

impl ExpUnit for ConstantUnit {
    open spec fn unit_model(&self) -> Node {
        ExpNode::Constant(*self)@
    }

    fn to_string(&self) -> (r: String) {
        self.value.clone()
    }

    fn exp_name(&self) -> (r: &'static str) {
        EXP_UNIT_NAME_CONSTANT
    }

    fn get_exp_unit_base(&self) -> (r: &ExpUnitBase) {
        &self.unitbase
    }

    fn set_exp_idx(&mut self, idx: i32) {
        self.unitbase.exp_idx = idx;
    }
}

impl ExpUnit for ExpNode {
    open spec fn unit_model(&self) -> Node {
        self@
    }

    fn to_string(&self) -> (r: String) {
        self.text()
    }

    fn exp_name(&self) -> (r: &'static str) {
        self.unit_name()
    }

    fn get_exp_unit_base(&self) -> (r: &ExpUnitBase) {
        match self {
            ExpNode::Constant(c) => &c.unitbase,
            ExpNode::Unary(u) => &u.unitbase.unitbase,
            ExpNode::Binary(b) => &b.unitbase.unitbase,
        }
    }

    fn set_exp_idx(&mut self, idx: i32) {
        self.set_unit_idx(idx);
    }
}

/// A unit that can be evaluated.
pub trait ExcutableUnit: ExpUnit {
    /// Evaluates the unit; `exec` does the arithmetic.
    fn execute<E: Fn(FunctionId, String, String) -> Result<String, String>>(&self, exec: &E) -> (r:
        Result<String, String>)
        requires
            exec_ready(exec),
        ensures
            outcome_view(r) == eval(exec_oracle(exec), self.unit_model()),
    ;
}

impl ExcutableUnit for ConstantUnit {
    fn execute<E: Fn(FunctionId, String, String) -> Result<String, String>>(&self, exec: &E) -> (r:
        Result<String, String>) {
        Ok(self.value.clone())
    }
}

impl ExcutableUnit for ExpNode {
    fn execute<E: Fn(FunctionId, String, String) -> Result<String, String>>(&self, exec: &E) -> (r:
        Result<String, String>) {
        self.evaluate(exec)
    }
}

/// A unit that is an operator: it takes operands.
pub trait ExpOpUnit: ExcutableUnit {
    fn get_op_base(&self) -> (r: &ExpOpBase)
        requires
            node_op_id(self.unit_model()) is Some,
        ensures
            node_op_id(self.unit_model()) == Some(r.id),
            node_prec(self.unit_model()) == r.precedence as int,
            node_idx(self.unit_model()) == r.unitbase.exp_idx as int,
    ;

    fn push_operand(&mut self, operand: ExpNode) -> (r: i32)
        ensures
            final(self).unit_model() == push_into(old(self).unit_model(), operand@),
            r == push_into_code(old(self).unit_model()),
    ;

    fn arg_count(&self) -> (r: i32)
        ensures
            r == arg_count(self.unit_model()),
    ;

    /// The operator as a unit of an expression.
    fn as_excutable_unit(self) -> (r: ExpNode)
        ensures
            r@ == self.unit_model(),
    ;
}

impl ExpOpUnit for ExpNode {
    fn get_op_base(&self) -> (r: &ExpOpBase) {
        match self {
            ExpNode::Unary(u) => u.get_op_base(),
            ExpNode::Binary(b) => b.get_op_base(),
            ExpNode::Constant(_) => vstd::pervasive::unreached(),
        }
    }

    fn push_operand(&mut self, operand: ExpNode) -> (r: i32) {
        self.take_operand(operand)
    }

    fn arg_count(&self) -> (r: i32) {
        self.operand_count()
    }

    fn as_excutable_unit(self) -> (r: ExpNode) {
        self
    }
}

// ---------------------------------------------------------------------------
// The operators
// ---------------------------------------------------------------------------

/// The bracket: collects the value of what it encloses.
pub struct CollectOperator {
    pub base: UnaryFunctionBase,
}

impl CollectOperator {
    pub fn new() -> (r: Self)
        ensures
            ExpNode::Unary(r.base)@ == fresh_op(ID_OPEN_BRACKET, -1),
            r.base.unitbase.id == ID_OPEN_BRACKET,
            r.base.unitbase.precedence == PRIODITY_BRACKET,
    {
        Self { base: UnaryFunctionBase::new(ID_OPEN_BRACKET, PRIODITY_BRACKET) }
    }
}

/// The sine.
pub struct SinFunc {
    pub base: UnaryFunctionBase,
}

impl SinFunc {
    pub fn new() -> (r: Self)
        ensures
            ExpNode::Unary(r.base)@ == fresh_op(ID_SIN, -1),
            r.base.unitbase.id == ID_SIN,
            r.base.unitbase.precedence == PRIODITY_UNARY_OP,
    {
        Self { base: UnaryFunctionBase::new(ID_SIN, PRIODITY_UNARY_OP) }
    }
}

/// The cosine.
pub struct CosFunc {
    pub base: UnaryFunctionBase,
}

impl CosFunc {
    pub fn new() -> (r: Self)
        ensures
            ExpNode::Unary(r.base)@ == fresh_op(ID_COS, -1),
            r.base.unitbase.id == ID_COS,
            r.base.unitbase.precedence == PRIODITY_UNARY_OP,
    {
        Self { base: UnaryFunctionBase::new(ID_COS, PRIODITY_UNARY_OP) }
    }
}

/// The tangent.
pub struct TanFunc {
    pub base: UnaryFunctionBase,
}

impl TanFunc {
    pub fn new() -> (r: Self)
        ensures
            ExpNode::Unary(r.base)@ == fresh_op(ID_TAN, -1),
            r.base.unitbase.id == ID_TAN,
            r.base.unitbase.precedence == PRIODITY_UNARY_OP,
    {
        Self { base: UnaryFunctionBase::new(ID_TAN, PRIODITY_UNARY_OP) }
    }
}

/// The square.
pub struct SquareFunc {
    pub base: UnaryFunctionBase,
}

impl SquareFunc {
    pub fn new() -> (r: Self)
        ensures
            ExpNode::Unary(r.base)@ == fresh_op(ID_SQR, -1),
            r.base.unitbase.id == ID_SQR,
            r.base.unitbase.precedence == PRIODITY_UNARY_OP,
    {
        Self { base: UnaryFunctionBase::new(ID_SQR, PRIODITY_UNARY_OP) }
    }
}

/// The square root.
pub struct SqrtFunc {
    pub base: UnaryFunctionBase,
}

impl SqrtFunc {
    pub fn new() -> (r: Self)
        ensures
            ExpNode::Unary(r.base)@ == fresh_op(ID_SQRT, -1),
            r.base.unitbase.id == ID_SQRT,
            r.base.unitbase.precedence == PRIODITY_UNARY_OP,
    {
        Self { base: UnaryFunctionBase::new(ID_SQRT, PRIODITY_UNARY_OP) }
    }
}

/// The inverse.
pub struct InvFunc {
    pub base: UnaryFunctionBase,
}

impl InvFunc {
    pub fn new() -> (r: Self)
        ensures
            ExpNode::Unary(r.base)@ == fresh_op(ID_INV, -1),
            r.base.unitbase.id == ID_INV,
            r.base.unitbase.precedence == PRIODITY_UNARY_OP,
    {
        Self { base: UnaryFunctionBase::new(ID_INV, PRIODITY_UNARY_OP) }
    }
}

/// The addition.
pub struct AddOperator {
    pub base: BinaryFunctionBase,
}

impl AddOperator {
    pub fn new() -> (r: Self)
        ensures
            ExpNode::Binary(r.base)@ == fresh_op(ID_ADD, -1),
            r.base.unitbase.id == ID_ADD,
            r.base.unitbase.precedence == PRIODITY_ADDITIVE,
    {
        Self { base: BinaryFunctionBase::new(ID_ADD, PRIODITY_ADDITIVE) }
    }
}

/// The subtraction.
pub struct SubOperator {
    pub base: BinaryFunctionBase,
}

impl SubOperator {
    pub fn new() -> (r: Self)
        ensures
            ExpNode::Binary(r.base)@ == fresh_op(ID_SUB, -1),
            r.base.unitbase.id == ID_SUB,
            r.base.unitbase.precedence == PRIODITY_ADDITIVE,
    {
        Self { base: BinaryFunctionBase::new(ID_SUB, PRIODITY_ADDITIVE) }
    }
}

/// The multiplication.
pub struct MulOperator {
    pub base: BinaryFunctionBase,
}

impl MulOperator {
    pub fn new() -> (r: Self)
        ensures
            ExpNode::Binary(r.base)@ == fresh_op(ID_MUL, -1),
            r.base.unitbase.id == ID_MUL,
            r.base.unitbase.precedence == PRIODITY_MULTIPLICATIVE,
    {
        Self { base: BinaryFunctionBase::new(ID_MUL, PRIODITY_MULTIPLICATIVE) }
    }
}

/// The division.
pub struct DivOperator {
    pub base: BinaryFunctionBase,
}

impl DivOperator {
    pub fn new() -> (r: Self)
        ensures
            ExpNode::Binary(r.base)@ == fresh_op(ID_DIV, -1),
            r.base.unitbase.id == ID_DIV,
            r.base.unitbase.precedence == PRIODITY_MULTIPLICATIVE,
    {
        Self { base: BinaryFunctionBase::new(ID_DIV, PRIODITY_MULTIPLICATIVE) }
    }
}

/// A fresh unit of the operator `id`.
pub fn make_op(id: FunctionId) -> (r: ExpNode)
    requires
        is_known_op(id),
    ensures
        r@ == fresh_op(id, -1),
{
    if id == ID_OPEN_BRACKET {
        ExpNode::Unary(CollectOperator::new().base)
    } else if id == ID_SIN {
        ExpNode::Unary(SinFunc::new().base)
    } else if id == ID_COS {
        ExpNode::Unary(CosFunc::new().base)
    } else if id == ID_TAN {
        ExpNode::Unary(TanFunc::new().base)
    } else if id == ID_SQR {
        ExpNode::Unary(SquareFunc::new().base)
    } else if id == ID_SQRT {
        ExpNode::Unary(SqrtFunc::new().base)
    } else if id == ID_INV {
        ExpNode::Unary(InvFunc::new().base)
    } else if id == ID_ADD {
        ExpNode::Binary(AddOperator::new().base)
    } else if id == ID_SUB {
        ExpNode::Binary(SubOperator::new().base)
    } else if id == ID_MUL {
        ExpNode::Binary(MulOperator::new().base)
    } else if id == ID_DIV {
        ExpNode::Binary(DivOperator::new().base)
    } else {
        ExpNode::Binary(DivOperator::new().base)
    }
}

/// The table of operators by name.
pub struct ExpOpLib {
    op_creator_map: Vec<(String, FunctionId)>,
}

pub open spec fn table_view(t: Seq<(String, FunctionId)>) -> Seq<(Seq<char>, FunctionId)> {
    t.map_values(|e: (String, FunctionId)| (e.0@, e.1))
}

pub proof fn lemma_functor_known(name: Seq<char>)
    ensures
        functor_id(name) matches Some(id) ==> is_known_op(id),
{
    reveal_with_fuel(table_lookup, 12);
}

impl ExpOpLib {
    pub closed spec fn wf(&self) -> bool {
        table_view(self.op_creator_map@) == op_table()
    }

    pub fn new() -> (r: Self)
        ensures
            r.wf(),
    {
        let mut op_creator_map: Vec<(String, FunctionId)> = Vec::new();
        op_creator_map.push((String::from_str(EXP_UNIT_NAME_ADD), ID_ADD));
        op_creator_map.push((String::from_str(EXP_UNIT_NAME_SUB), ID_SUB));
        op_creator_map.push((String::from_str(EXP_UNIT_NAME_MUL), ID_MUL));
        op_creator_map.push((String::from_str(EXP_UNIT_NAME_DIV), ID_DIV));
        op_creator_map.push((String::from_str(EXP_UNIT_NAME_SIN), ID_SIN));
        op_creator_map.push((String::from_str(EXP_UNIT_NAME_COS), ID_COS));
        op_creator_map.push((String::from_str(EXP_UNIT_NAME_TAN), ID_TAN));
        op_creator_map.push((String::from_str(EXP_UNIT_NAME_INV), ID_INV));
        op_creator_map.push((String::from_str(EXP_UNIT_NAME_SQR), ID_SQR));
        op_creator_map.push((String::from_str(EXP_UNIT_NAME_SQRT), ID_SQRT));
        op_creator_map.push((String::from_str(EXP_UNIT_NAME_OPEN_BRK), ID_OPEN_BRACKET));
        assert(table_view(op_creator_map@) =~= op_table());
        Self { op_creator_map }
    }

    /// A fresh unit of the operator named `name`, if there is one.
    pub fn get_functor(&self, name: &String) -> (r: Option<ExpNode>)
        requires
            self.wf(),
        ensures
            match functor_id(name@) {
                Some(id) => r is Some && r->0@ == fresh_op(id, -1),
                None => r is None,
            },
    {
        let ghost t = table_view(self.op_creator_map@);
        let mut i: usize = 0;
        assert(t.subrange(0, t.len() as int) =~= t);
        while i < self.op_creator_map.len()
            invariant
                self.wf(),
                t == table_view(self.op_creator_map@),
                0 <= i <= t.len(),
                table_lookup(t.subrange(i as int, t.len() as int), name@) == functor_id(name@),
            decreases t.len() - i,
        {
            assert(t.subrange(i as int, t.len() as int).drop_first() =~= t.subrange(
                i + 1,
                t.len() as int,
            ));
            if self.op_creator_map[i].0 == *name {
                let id = self.op_creator_map[i].1;
                proof {
                    lemma_functor_known(name@);
                }
                return Some(make_op(id));
            }
            i = i + 1;
        }
        None
    }
}

// ---------------------------------------------------------------------------
// Finished expressions
// ---------------------------------------------------------------------------

/// A finished expression: the tree of all its units.
pub struct Expression {
    pub root: Option<Box<ExpNode>>,
}

impl Expression {
    pub open spec fn root_model(&self) -> Option<Node> {
        match self.root {
            Some(b) => Some(node_view(*b)),
            None => None,
        }
    }

    /// Evaluates the expression; `exec` does the arithmetic.
    pub fn execute<E: Fn(FunctionId, String, String) -> Result<String, String>>(
        &self,
        exec: &E,
    ) -> (r: Result<String, String>)
        requires
            exec_ready(exec),
        ensures
            outcome_view(r) == expression_eval(exec_oracle(exec), self.root_model()),
    {
        match &self.root {
            None => Err(String::from_str("Empty expression")),
            Some(n) => n.evaluate(exec),
        }
    }

    pub fn to_string(&self) -> (r: String)
        ensures
            r@ == expression_str(self.root_model()),
    {
        match &self.root {
            None => String::new(),
            Some(n) => n.text(),
        }
    }
}

// ---------------------------------------------------------------------------
// The expression builder
// ---------------------------------------------------------------------------

pub open spec fn reply_view(r: Result<Option<String>, String>) -> Reply {
    match r {
        Ok(Some(v)) => Ok(Some(v@)),
        Ok(None) => Ok(None),
        Err(e) => Err(e@),
    }
}

pub open spec fn nodes_view(s: Seq<ExpNode>) -> Seq<Node> {
    s.map_values(|n: ExpNode| n@)
}

/// Builds an expression tree from tokens given in input order, by operator
/// precedence: numbers wait on the operand stack, operators on the
/// operator stack until an operator that binds less tightly, a closing
/// bracket, or the end reduces them.
pub struct ExpressionBuilder {
    token_count: i32,
    last_op_count: i32,
    operand_stack: Vec<ExpNode>,
    operator_stack: Vec<ExpNode>,
}

impl View for ExpressionBuilder {
    type V = BuilderModel;

    closed spec fn view(&self) -> BuilderModel {
        BuilderModel {
            token_count: self.token_count as int,
            last_op_count: self.last_op_count as int,
            operands: nodes_view(self.operand_stack@),
            operators: nodes_view(self.operator_stack@),
        }
    }
}

impl ExpressionBuilder {
    /// The builder's invariant: every unit it holds stands at a position
    /// already counted. A fresh builder has it, and every operation keeps it.
    pub open spec fn wf(&self) -> bool {
        positions_within(self@)
    }

    pub fn new() -> (r: Self)
        ensures
            r@ == builder_init(),
            r.wf(),
    {
        let r = Self {
            token_count: 0,
            last_op_count: -2,
            operator_stack: Vec::new(),
            operand_stack: Vec::new(),
        };
        assert(r@ =~= builder_init());
        r
    }

    fn push_op(&mut self, op: ExpNode)
        ensures
            final(self)@ == (BuilderModel { operators: old(self)@.operators.push(op@), ..old(self)@ }),
    {
        self.operator_stack.push(op);
        assert(nodes_view(self.operator_stack@) =~= nodes_view(old(self).operator_stack@).push(op@));
    }

    /// The precedence of the top operator, if any.
    fn top_precedence(&self) -> (r: Option<i32>)
        ensures
            self@.operators.len() == 0 ==> r is None,
            self@.operators.len() > 0 ==> r == Some(node_prec(self@.operators.last()) as i32),
    {
        let n = self.operator_stack.len();
        if n == 0 {
            None
        } else {
            Some(self.operator_stack[n - 1].op_precedence())
        }
    }

    /// The operator id of the top operator, if any.
    fn top_id(&self) -> (r: Option<FunctionId>)
        requires
            self@.operators.len() > 0,
        ensures
            r == node_op_id(self@.operators.last()),
    {
        let n = self.operator_stack.len();
        self.operator_stack[n - 1].op_id()
    }

    /// Reduces the top operator; see `model::build_top`.
    fn build_top_op_tree<E: Fn(FunctionId, String, String) -> Result<String, String>>(
        &mut self,
        lower_bound_idx: i32,
        exec: &E,
    ) -> (r: Result<Option<String>, String>)
        requires
            old(self)@.operators.len() > 0,
            exec_ready(exec),
        ensures
            final(self)@ == build_top(old(self)@, lower_bound_idx as int, exec_oracle(exec)).0,
            reply_view(r) == build_top(old(self)@, lower_bound_idx as int, exec_oracle(exec)).1,
    {
        let ghost m = self@;
        let mut op = self.operator_stack.pop().unwrap();
        assert(nodes_view(self.operator_stack@) =~= m.operators.drop_last());
        let ghost op0 = op@;
        let mut args = op.operand_count();
        while args > 0
            invariant
                0 <= args <= 2,
                exec_ready(exec),
                self.token_count == old(self).token_count,
                self.last_op_count == old(self).last_op_count,
                nodes_view(self.operator_stack@) == m.operators.drop_last(),
                m.operators.len() > 0,
                m == old(self)@,
                op0 == m.operators.last(),
                fill_args(op@, nodes_view(self.operand_stack@), lower_bound_idx as int, args as int)
                    == fill_args(op0, m.operands, lower_bound_idx as int, arg_count(op0)),
            decreases args,
        {
            if self.operand_stack.len() == 0 {
                assert(fill_args(op@, nodes_view(self.operand_stack@), lower_bound_idx as int, args as int).0 is None);
                assert(self@ =~= build_top(m, lower_bound_idx as int, exec_oracle(exec)).0);
                return Err(String::from_str("Invalid expression"));
            }
            let ghost before = nodes_view(self.operand_stack@);
            let operand = self.operand_stack.pop().unwrap();
            assert(nodes_view(self.operand_stack@) =~= before.drop_last());
            if lower_bound_idx >= 0 && operand.unit_idx() <= lower_bound_idx {
                assert(self@ =~= build_top(m, lower_bound_idx as int, exec_oracle(exec)).0);
                return Err(String::from_str("Invalid expression"));
            }
            op.take_operand(operand);
            args -= 1;
        }
        let imediate_result = op.evaluate(exec);
        let ghost before = nodes_view(self.operand_stack@);
        self.operand_stack.push(op);
        assert(nodes_view(self.operand_stack@) =~= before.push(op@));
        match imediate_result {
            Ok(v) => Ok(Some(v)),
            Err(e) => Err(e),
        }
    }

    /// The position of the first (bottom-most) open bracket waiting.
    fn first_bracket_idx(&self) -> (r: i32)
        ensures
            r as int == first_bracket(self@.operators),
    {
        let ghost ops = self@.operators;
        let mut i: usize = 0;
        assert(ops.subrange(0, ops.len() as int) =~= ops);
        while i < self.operator_stack.len()
            invariant
                ops == self@.operators,
                0 <= i <= ops.len(),
                first_bracket(ops.subrange(i as int, ops.len() as int)) == first_bracket(ops),
            decreases ops.len() - i,
        {
            assert(ops.subrange(i as int, ops.len() as int).drop_first() =~= ops.subrange(
                i + 1,
                ops.len() as int,
            ));
            let id = self.operator_stack[i].op_id();
            if let Some(x) = id {
                if x == ID_OPEN_BRACKET {
                    return self.operator_stack[i].unit_idx();
                }
            }
            i = i + 1;
        }
        -1
    }

    /// A closing bracket: reduces back to the first open bracket waiting;
    /// see `model::close_bracket`.
    pub fn build_tree_inside_bracket<E: Fn(FunctionId, String, String) -> Result<String, String>>(
        &mut self,
        exec: &E,
    ) -> (r: Result<Option<String>, String>)
        requires
            exec_ready(exec),
        ensures
            final(self)@ == close_bracket(old(self)@, exec_oracle(exec)).0,
            reply_view(r) == close_bracket(old(self)@, exec_oracle(exec)).1,
            old(self).wf() ==> final(self).wf(),
    {
        proof {
            if old(self).wf() {
                law_positions_within(old(self)@, seq![], seq![], false, |t: Seq<char>| None, exec_oracle(exec));
            }
        }
        let lower_bound_idx = self.first_bracket_idx();
        let ghost goal = close_bracket(old(self)@, exec_oracle(exec));
        while self.operator_stack.len() > 0
            invariant
                exec_ready(exec),
                goal == close_bracket(old(self)@, exec_oracle(exec)),
                old(self).wf() ==> positions_within(goal.0),
                close_loop(self@, lower_bound_idx as int, exec_oracle(exec)) == goal,
            decreases self@.operators.len(),
        {
            let ghost before = self@;
            let ghost step = build_top(before, lower_bound_idx as int, exec_oracle(exec));
            assert(close_loop(before, lower_bound_idx as int, exec_oracle(exec)) == (if step.1 is Err
                || node_op_id(before.operators.last()) == Some(ID_OPEN_BRACKET) {
                step
            } else {
                close_loop(step.0, lower_bound_idx as int, exec_oracle(exec))
            }));
            let id = self.top_id();
            let x = self.build_top_op_tree(lower_bound_idx, exec);
            if x.is_err() {
                return x;
            }
            if id == Some(ID_OPEN_BRACKET) {
                return x;
            }
        }
        Err(String::from_str("Missing open bracket"))
    }

    /// Takes an operator token; see `model::push_functor`.
    pub fn push_functor<E: Fn(FunctionId, String, String) -> Result<String, String>>(
        &mut self,
        name: String,
        prefer_eval: bool,
        exec: &E,
    ) -> (r: Result<Option<String>, String>)
        requires
            old(self)@.token_count < i32::MAX,
            exec_ready(exec),
        ensures
            final(self)@ == push_functor(old(self)@, name@, prefer_eval, exec_oracle(exec)).0,
            reply_view(r) == push_functor(old(self)@, name@, prefer_eval, exec_oracle(exec)).1,
            old(self).wf() ==> final(self).wf(),
    {
        proof {
            if old(self).wf() {
                law_positions_within(old(self)@, name@, seq![], prefer_eval, |t: Seq<char>| None, exec_oracle(exec));
            }
        }
        self.token_count += 1;
        let close = String::from_str(EXP_UNIT_NAME_CLOSE_BRK);
        if name == close {
            self.last_op_count = 1;
            return self.build_tree_inside_bracket(exec);
        }
        let lib = ExpOpLib::new();
        let op_opt = lib.get_functor(&name);
        if op_opt.is_none() {
            self.last_op_count = -1;
            return Err(String::from_str("No functor found"));
        }
        let mut op = op_opt.unwrap();
        op.set_unit_idx(self.token_count);
        self.last_op_count = op.operand_count();
        let op_is_bracket = op.op_id() == Some(ID_OPEN_BRACKET);
        let op_prec = op.op_precedence();
        if prefer_eval && op.operand_count() == 1 && !op_is_bracket {
            self.push_op(op);
            return self.build_top_op_tree(-1, exec);
        }
        match self.top_precedence() {
            Some(top_prec) => {
                if op_is_bracket {
                    self.push_op(op);
                    return Ok(None);
                }
                if top_prec <= op_prec {
                    let x = self.build_top_op_tree(-1, exec);
                    self.push_op(op);
                    return x;
                }
                self.push_op(op);
                Ok(None)
            },
            None => {
                self.push_op(op);
                Ok(None)
            },
        }
    }

    /// Takes an operand token; answers whether `parse` read it as a number
    /// (only then is it placed); see `model::push_operand`.
    pub fn push_operand<P: Fn(String) -> Option<String>>(&mut self, token: String, parse: &P) -> (r: bool)
        requires
            old(self)@.token_count < i32::MAX,
            parse_ready(parse),
        ensures
            final(self)@ == push_operand(old(self)@, token@, parse_oracle(parse)).0,
            r == push_operand(old(self)@, token@, parse_oracle(parse)).1,
            old(self).wf() ==> final(self).wf(),
            old(self).wf() ==> exp_string(final(self)@) == match parse_oracle(parse)(token@) {
                Some(v) => exp_string(old(self)@) + v,
                None => exp_string(old(self)@),
            },
    {
        proof {
            if old(self).wf() {
                law_positions_within(old(self)@, seq![], token@, false, parse_oracle(parse), |id: FunctionId, a: Seq<char>, b: Seq<char>| Err(seq![]));
                law_operand_appends_text(old(self)@, token@, parse_oracle(parse));
            }
        }
        self.token_count += 1;
        self.last_op_count = 1;
        match read_number(parse, token) {
            None => false,
            Some(value) => {
                let mut operand = ExpNode::Constant(ConstantUnit::new(value));
                operand.set_unit_idx(self.token_count);
                let ghost before = nodes_view(self.operand_stack@);
                self.operand_stack.push(operand);
                assert(nodes_view(self.operand_stack@) =~= before.push(operand@));
                true
            },
        }
    }

    /// Reduces everything; see `model::finish`.
    pub fn finish<E: Fn(FunctionId, String, String) -> Result<String, String>>(&mut self, exec: &E) -> (r:
        Result<Expression, String>)
        requires
            exec_ready(exec),
        ensures
            final(self)@ == finish(old(self)@, exec_oracle(exec)).0,
            old(self).wf() ==> final(self).wf(),
            match r {
                Ok(e) => finish(old(self)@, exec_oracle(exec)).1 == Ok::<Option<Node>, Seq<char>>(e.root_model()),
                Err(s) => finish(old(self)@, exec_oracle(exec)).1 == Err::<Option<Node>, Seq<char>>(s@),
            },
    {
        proof {
            if old(self).wf() {
                law_positions_within(old(self)@, seq![], seq![], false, |t: Seq<char>| None, exec_oracle(exec));
            }
        }
        let ghost goal = finish(old(self)@, exec_oracle(exec));
        while self.operator_stack.len() > 0
            invariant
                exec_ready(exec),
                goal == finish(old(self)@, exec_oracle(exec)),
                old(self).wf() ==> positions_within(goal.0),
                finish(self@, exec_oracle(exec)) == goal,
            decreases self@.operators.len(),
        {
            let ghost before = self@;
            let ghost step = build_top(before, -1, exec_oracle(exec));
            assert(finish(before, exec_oracle(exec)) == (match step.1 {
                Err(e) => (step.0, Err(e)),
                Ok(_) => finish(step.0, exec_oracle(exec)),
            }));
            let x = self.build_top_op_tree(-1, exec);
            match x {
                Err(e) => {
                    return Err(e);
                },
                Ok(_) => {},
            }
        }
        if self.operand_stack.len() != 1 {
            return Err(String::from_str("Invalid expression"));
        }
        let ghost before = nodes_view(self.operand_stack@);
        let root = self.operand_stack.pop().unwrap();
        assert(nodes_view(self.operand_stack@) =~= seq![]);
        assert(self@ =~= goal.0);
        Ok(Expression { root: Some(Box::new(root)) })
    }

    /// The value of the last unit built; see `model::eval_immediate`.
    pub fn eval_immediate<E: Fn(FunctionId, String, String) -> Result<String, String>>(
        &mut self,
        exec: &E,
    ) -> (r: Result<String, String>)
        requires
            exec_ready(exec),
        ensures
            final(self)@ == old(self)@,
            outcome_view(r) == eval_immediate(old(self)@, exec_oracle(exec)),
    {
        let n = self.operand_stack.len();
        if n == 0 {
            Err(String::from_str("Incomplete expression"))
        } else {
            self.operand_stack[n - 1].evaluate(exec)
        }
    }

    /// Whether fewer than `bound` tokens have been taken; taking a token
    /// requires fewer than `i32::MAX`.
    pub fn token_count_below(&self, bound: i32) -> (r: bool)
        ensures
            r == (self@.token_count < bound),
    {
        self.token_count < bound
    }

    /// How many operands the last token takes (1 after an operand or a
    /// closing bracket, -1 after an unknown operator).
    pub fn get_last_exp_token_arg_count(&self) -> (r: i32)
        ensures
            r == self@.last_op_count,
    {
        self.last_op_count
    }

    /// The text of everything the builder holds, in input order; see
    /// `model::exp_string`.
    pub fn to_exp_string(&self) -> (r: String)
        ensures
            r@ == exp_string(self@),
    {
        let ghost entries = unit_entries(self@);
        let ghost nops = self@.operands.len();
        let mut sorted: Vec<(i32, String)> = Vec::new();
        let mut i: usize = 0;
        assert(entries.take(0) =~= seq![]);
        while i < self.operand_stack.len()
            invariant
                entries == unit_entries(self@),
                nops == self@.operands.len(),
                0 <= i <= nops,
                entries_view(sorted@) == sort_by_key(entries.take(i as int)),
            decreases nops - i,
        {
            let n = &self.operand_stack[i];
            let e = (n.unit_idx(), n.text());
            proof {
                lemma_sort_step(entries, i as int);
                assert(entries[i as int] == (e.0 as int, e.1@));
            }
            insert_entry(&mut sorted, e);
            i = i + 1;
        }
        let mut j: usize = 0;
        while j < self.operator_stack.len()
            invariant
                entries == unit_entries(self@),
                nops == self@.operands.len(),
                entries.len() == nops + self@.operators.len(),
                0 <= j <= self@.operators.len(),
                entries_view(sorted@) == sort_by_key(entries.take(nops + j)),
            decreases self@.operators.len() - j,
        {
            let n = &self.operator_stack[j];
            let e = (n.unit_idx(), n.text());
            proof {
                lemma_sort_step(entries, nops + j);
                assert(entries[nops + j] == (e.0 as int, e.1@));
            }
            insert_entry(&mut sorted, e);
            j = j + 1;
        }
        assert(entries.take(entries.len() as int) =~= entries);
        let ghost all = entries_view(sorted@);
        let mut exp_str = String::new();
        let mut k: usize = 0;
        assert(all.take(0) =~= seq![]);
        while k < sorted.len()
            invariant
                all == entries_view(sorted@),
                0 <= k <= all.len(),
                exp_str@ == join_texts(all.take(k as int)),
            decreases all.len() - k,
        {
            assert(all.take(k + 1).drop_last() =~= all.take(k as int));
            exp_str.append(sorted[k].1.as_str());
            k = k + 1;
        }
        assert(all.take(all.len() as int) =~= all);
        exp_str
    }

    /// `input` split into maximal runs of alphanumeric chars and dots, and
    /// single other chars; see `model::tokenize`.
    pub fn tokenize(input: String) -> (r: Vec<String>)
        ensures
            strings_view(r@) == tokenize(input@),
    {
        let mut tokens: Vec<String> = Vec::new();
        let mut token = String::new();
        let s = input.as_str();
        let n = s.unicode_len();
        let mut i: usize = 0;
        assert(input@.take(0) =~= seq![]);
        while i < n
            invariant
                n == input@.len(),
                s@ == input@,
                0 <= i <= n,
                (strings_view(tokens@), token@) == tokenize_state(input@.take(i as int)),
            decreases n - i,
        {
            let c = s.get_char(i);
            assert(input@.take(i + 1).drop_last() =~= input@.take(i as int));
            assert(input@.take(i + 1).last() == c);
            let ghost prev_tokens = strings_view(tokens@);
            if char_is_alphanumeric(c) || c == '.' {
                push_char(&mut token, c);
            } else {
                if !string_is_empty(&token) {
                    tokens.push(token);
                    assert(strings_view(tokens@) =~= prev_tokens.push(token@));
                    token = String::new();
                }
                let ghost mid = strings_view(tokens@);
                tokens.push(char_to_string(c));
                assert(strings_view(tokens@) =~= mid.push(seq![c]));
            }
            i = i + 1;
        }
        assert(input@.take(n as int) =~= input@);
        if !string_is_empty(&token) {
            let ghost prev_tokens = strings_view(tokens@);
            tokens.push(token.clone());
            assert(strings_view(tokens@) =~= prev_tokens.push(token@));
        }
        tokens
    }

    /// Whether `s` is a decimal number; see `model::is_decimal`.
    pub fn is_decimal(s: &str) -> (r: bool)
        ensures
            r == is_decimal(s@),
    {
        let n = s.unicode_len();
        if n == 0 {
            return false;
        }
        let first = s.get_char(0);
        let mut start: usize = 0;
        if first == '-' || first == '+' {
            if n == 1 {
                return false;
            }
            start = 1;
        }
        let ghost d = unsigned_part(s@);
        assert(d =~= s@.subrange(start as int, n as int));
        let mut has_dot = false;
        let mut i: usize = start;
        while i < n
            invariant
                n == s@.len(),
                start <= i <= n,
                start < n,
                d == s@.subrange(start as int, n as int),
                d == unsigned_part(s@),
                i > start ==> d[0] != '.',
                forall|k: int| 0 <= k < i - start ==> is_ascii_digit(#[trigger] d[k]) || d[k] == '.',
                forall|a: int, b: int| 0 <= a < b < i - start && #[trigger] d[a] == '.' ==> #[trigger] d[b] != '.',
                has_dot <==> exists|k: int| 0 <= k < i - start && #[trigger] d[k] == '.',
            decreases n - i,
        {
            let c = s.get_char(i);
            assert(d[i - start] == c);
            if c == '.' {
                if has_dot {
                    return false;
                }
                has_dot = true;
                if i == start {
                    return false;
                }
            } else if !char_is_ascii_digit(c) {
                return false;
            }
            i = i + 1;
        }
        true
    }
}

pub open spec fn entries_view(v: Seq<(i32, String)>) -> Seq<(int, Seq<char>)> {
    v.map_values(|e: (i32, String)| (e.0 as int, e.1@))
}

pub open spec fn strings_view(v: Seq<String>) -> Seq<Seq<char>> {
    v.map_values(|s: String| s@)
}

proof fn lemma_sort_step(s: Seq<(int, Seq<char>)>, i: int)
    requires
        0 <= i < s.len(),
    ensures
        sort_by_key(s.take(i + 1)) == insert_by_key(sort_by_key(s.take(i)), s[i]),
{
    assert(s.take(i + 1).drop_last() =~= s.take(i));
}

proof fn lemma_insert_at(s: Seq<(int, Seq<char>)>, x: (int, Seq<char>), p: int)
    requires
        0 <= p <= s.len(),
        forall|j: int| p <= j < s.len() ==> (#[trigger] s[j]).0 > x.0,
        p == 0 || s[p - 1].0 <= x.0,
    ensures
        insert_by_key(s, x) == s.take(p).push(x) + s.skip(p),
    decreases s.len(),
{
    if p == s.len() {
        assert(s.skip(p) =~= seq![]);
        assert(s.take(p) =~= s);
        assert(s.take(p).push(x) + s.skip(p) =~= s.push(x));
    } else {
        lemma_insert_at(s.drop_last(), x, p);
        assert(s.drop_last().take(p) =~= s.take(p));
        assert(s.drop_last().skip(p).push(s.last()) =~= s.skip(p));
        assert((s.take(p).push(x) + s.drop_last().skip(p)).push(s.last()) =~= s.take(p).push(x)
            + s.skip(p));
    }
}

/// Inserts `e` after every entry whose key is at most `e`'s.
fn insert_entry(v: &mut Vec<(i32, String)>, e: (i32, String))
    ensures
        entries_view(final(v)@) == insert_by_key(entries_view(old(v)@), (e.0 as int, e.1@)),
{
    let ghost s = entries_view(v@);
    let mut p = v.len();
    while p > 0 && v[p - 1].0 > e.0
        invariant
            s == entries_view(v@),
            0 <= p <= s.len(),
            forall|j: int| p <= j < s.len() ==> (#[trigger] s[j]).0 > e.0,
        decreases p,
    {
        p = p - 1;
    }
    proof {
        lemma_insert_at(s, (e.0 as int, e.1@), p as int);
    }
    let ghost ev = (e.0 as int, e.1@);
    v.insert(p, e);
    assert(entries_view(v@) =~= s.take(p as int).push(ev) + s.skip(p as int));
}

} // verus!
