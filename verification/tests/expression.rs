use lib::calc::expression::{
    ExcutableUnit, ExpNode, ExpOpLib, ExpOpUnit, ExpUnit, ExpUnitBase, Expression,
    ExpressionBuilder, SinFunc, UnaryFunctionBase, AddOperator, CollectOperator, ConstantUnit,
};
use lib::calc::functions::{ID_ADD, ID_OPEN_BRACKET, ID_SIN, PRIODITY_UNARY_OP};

fn parse(token: String) -> Option<String> {
    token.parse::<f64>().ok().map(|v| v.to_string())
}

fn exec(id: usize, a: String, b: String) -> Result<String, String> {
    let x: f64 = a.parse().map_err(|_| "Not a number".to_string())?;
    let y: f64 = if b.is_empty() { 0.0 } else { b.parse().map_err(|_| "Not a number".to_string())? };
    let r = match id {
        0 => x + y,
        1 => x - y,
        2 => x * y,
        3 => {
            if y == 0.0 {
                return Err("Division by zero".to_string());
            }
            x / y
        }
        6 => x.sqrt(),
        9 => x.sin(),
        10 => x.cos(),
        11 => x.tan(),
        15 => x * x,
        16 => 1.0 / x,
        _ => return Err("No functor found".to_string()),
    };
    Ok(r.to_string())
}

fn strings(v: &[&str]) -> Vec<String> {
    v.iter().map(|s| s.to_string()).collect()
}

#[test]
fn unit_base_starts_unplaced() {
    assert_eq!(ExpUnitBase::new().exp_idx, -1);
}

#[test]
fn is_decimal_accepts_signed_numbers_with_one_inner_dot() {
    for s in ["0", "12", "-3", "+4", "1.5", "10.", "-0.25"] {
        assert!(ExpressionBuilder::is_decimal(s), "{}", s);
    }
    for s in ["", "+", "-", ".5", "-.5", "1.2.3", "1a", "++1", "1-", "\u{2212}1"] {
        assert!(!ExpressionBuilder::is_decimal(s), "{}", s);
    }
}

#[test]
fn tokenize_splits_words_and_symbols() {
    assert_eq!(
        ExpressionBuilder::tokenize("12+sin(3.5)".to_string()),
        strings(&["12", "+", "sin", "(", "3.5", ")"])
    );
    assert_eq!(ExpressionBuilder::tokenize("".to_string()), Vec::<String>::new());
    assert_eq!(
        ExpressionBuilder::tokenize("((".to_string()),
        strings(&["(", "("])
    );
    assert_eq!(
        ExpressionBuilder::tokenize("2\u{d7}(3+4)".to_string()),
        strings(&["2", "\u{d7}", "(", "3", "+", "4", ")"])
    );
}

#[test]
fn tokenize_keeps_the_text() {
    for s in ["1+2", "sin(30)\u{d7}2", "  a b", "3\u{b2}", ""] {
        let tokens = ExpressionBuilder::tokenize(s.to_string());
        assert_eq!(tokens.concat(), s);
        assert!(tokens.iter().all(|t| !t.is_empty()));
    }
}

#[test]
fn builder_reads_infix_binary() {
    let mut b = ExpressionBuilder::new();
    assert!(b.push_operand("1.5".to_string(), &parse));
    assert_eq!(b.push_functor("+".to_string(), true, &exec), Ok(None));
    assert!(b.push_operand("2".to_string(), &parse));
    assert_eq!(b.to_exp_string(), "1.5+2");
    assert_eq!(b.get_last_exp_token_arg_count(), 1);
    let e = b.finish(&exec).ok().unwrap();
    assert_eq!(e.to_string(), "1.5+2");
    assert_eq!(e.execute(&exec), Ok("3.5".to_string()));
}

#[test]
fn builder_precedence() {
    let mut b = ExpressionBuilder::new();
    let _ = b.push_operand("2".to_string(), &parse);
    let _ = b.push_functor("\u{d7}".to_string(), true, &exec);
    let _ = b.push_operand("3".to_string(), &parse);
    // the multiplication is reduced when the addition comes
    assert_eq!(b.push_functor("+".to_string(), true, &exec), Ok(Some("6".to_string())));
    let _ = b.push_operand("4".to_string(), &parse);
    let e = b.finish(&exec).ok().unwrap();
    assert_eq!(e.execute(&exec), Ok("10".to_string()));

    let mut b = ExpressionBuilder::new();
    let _ = b.push_operand("2".to_string(), &parse);
    let _ = b.push_functor("+".to_string(), true, &exec);
    let _ = b.push_operand("3".to_string(), &parse);
    assert_eq!(b.push_functor("\u{d7}".to_string(), true, &exec), Ok(None));
    let _ = b.push_operand("4".to_string(), &parse);
    let e = b.finish(&exec).ok().unwrap();
    assert_eq!(e.execute(&exec), Ok("14".to_string()));
    assert_eq!(e.to_string(), "2+3\u{d7}4");
}

#[test]
fn builder_brackets_group() {
    let mut b = ExpressionBuilder::new();
    assert_eq!(b.push_functor("(".to_string(), false, &exec), Ok(None));
    let _ = b.push_operand("2".to_string(), &parse);
    assert_eq!(b.push_functor("\u{2212}".to_string(), true, &exec), Ok(None));
    let _ = b.push_operand("5".to_string(), &parse);
    assert_eq!(b.push_functor(")".to_string(), true, &exec), Ok(Some("-3".to_string())));
    assert_eq!(b.get_last_exp_token_arg_count(), 1);
    assert_eq!(b.to_exp_string(), "(2\u{2212}5)");
    assert_eq!(b.eval_immediate(&exec), Ok("-3".to_string()));
}

#[test]
fn builder_errors() {
    let mut b = ExpressionBuilder::new();
    assert_eq!(b.finish(&exec).err(), Some("Invalid expression".to_string()));
    let mut b = ExpressionBuilder::new();
    assert_eq!(b.push_functor(")".to_string(), false, &exec), Err("Missing open bracket".to_string()));
    let mut b = ExpressionBuilder::new();
    assert_eq!(b.push_functor("mod".to_string(), false, &exec), Err("No functor found".to_string()));
    assert_eq!(b.get_last_exp_token_arg_count(), -1);
    let mut b = ExpressionBuilder::new();
    assert_eq!(b.eval_immediate(&exec), Err("Incomplete expression".to_string()));
    assert!(!b.push_operand("x1".to_string(), &parse));
    // an operator with a missing operand
    let mut b = ExpressionBuilder::new();
    let _ = b.push_functor("+".to_string(), false, &exec);
    let _ = b.push_operand("1".to_string(), &parse);
    assert_eq!(b.finish(&exec).err(), Some("Invalid expression".to_string()));
    // empty brackets
    let mut b = ExpressionBuilder::new();
    let _ = b.push_functor("(".to_string(), false, &exec);
    assert_eq!(b.push_functor(")".to_string(), false, &exec), Err("Invalid expression".to_string()));
}

#[test]
fn builder_division_by_zero() {
    let mut b = ExpressionBuilder::new();
    let _ = b.push_operand("1".to_string(), &parse);
    let _ = b.push_functor("\u{f7}".to_string(), true, &exec);
    let _ = b.push_operand("0".to_string(), &parse);
    assert_eq!(b.push_functor("+".to_string(), true, &exec), Err("Division by zero".to_string()));
    let _ = b.push_operand("2".to_string(), &parse);
    assert_eq!(b.finish(&exec).err(), Some("Division by zero".to_string()));
}

#[test]
fn prefix_function_waits_for_its_operand() {
    let mut b = ExpressionBuilder::new();
    assert_eq!(b.push_functor("sin".to_string(), false, &exec), Ok(None));
    let _ = b.push_operand("0".to_string(), &parse);
    assert_eq!(b.to_exp_string(), "sin0");
    let e = b.finish(&exec).ok().unwrap();
    assert_eq!(e.to_string(), "sin(0)");
    assert_eq!(e.execute(&exec), Ok("0".to_string()));
}

#[test]
fn op_lib_finds_operators_by_name() {
    let lib = ExpOpLib::new();
    let op = lib.get_functor(&"sin".to_string()).unwrap();
    assert_eq!(op.get_op_base().id, ID_SIN);
    assert_eq!(op.get_op_base().precedence, PRIODITY_UNARY_OP);
    assert_eq!(op.get_exp_idx(), -1);
    assert_eq!(op.exp_name(), "sin");
    assert!(lib.get_functor(&"sinh".to_string()).is_none());
    assert!(lib.get_functor(&")".to_string()).is_none());
}

#[test]
fn units_take_operands_right_then_left() {
    let mut add = ExpNode::Binary(AddOperator::new().base);
    assert_eq!(add.arg_count(), 2);
    assert_eq!(add.to_string(), "+");
    assert_eq!(add.push_operand(ExpNode::Constant(ConstantUnit::new("2".to_string()))), 1);
    assert_eq!(add.to_string(), "+");
    assert_eq!(add.execute(&exec), Err("Missing operand".to_string()));
    assert_eq!(add.push_operand(ExpNode::Constant(ConstantUnit::new("1".to_string()))), 0);
    assert_eq!(add.to_string(), "1+2");
    assert_eq!(add.push_operand(ExpNode::Constant(ConstantUnit::new("7".to_string()))), -1);
    assert_eq!(add.execute(&exec), Ok("3".to_string()));
    let unit = add.as_excutable_unit();
    assert_eq!(unit.get_op_base().id, ID_ADD);
}

#[test]
fn units_render() {
    let mut sin = ExpNode::Unary(SinFunc::new().base);
    assert_eq!(sin.to_string(), "sin");
    let mut brk = ExpNode::Unary(CollectOperator::new().base);
    assert_eq!(brk.to_string(), "(");
    assert_eq!(brk.get_op_base().id, ID_OPEN_BRACKET);
    let _ = brk.push_operand(ExpNode::Constant(ConstantUnit::new("5".to_string())));
    assert_eq!(brk.to_string(), "(5)");
    let _ = sin.push_operand(brk);
    assert_eq!(sin.to_string(), "sin(5)");
    let mut cos = ExpNode::Unary(UnaryFunctionBase::new(10, PRIODITY_UNARY_OP));
    let _ = cos.push_operand(ExpNode::Constant(ConstantUnit::new("0".to_string())));
    assert_eq!(cos.to_string(), "cos(0)");
    assert_eq!(cos.execute(&exec), Ok("1".to_string()));
    let mut c = ConstantUnit::new("4".to_string());
    c.set_exp_idx(3);
    assert_eq!(c.get_exp_idx(), 3);
    assert_eq!(c.exp_name(), "constant");
    assert_eq!(c.execute(&exec), Ok("4".to_string()));
}

#[test]
fn empty_expression() {
    let e = Expression { root: None };
    assert_eq!(e.to_string(), "");
    assert_eq!(e.execute(&exec), Err("Empty expression".to_string()));
}

#[test]
fn bracket_is_transparent() {
    let mut b = ExpressionBuilder::new();
    let _ = b.push_functor("(".to_string(), false, &exec);
    let _ = b.push_operand("0.5".to_string(), &parse);
    assert_eq!(b.push_functor(")".to_string(), true, &exec), Ok(Some("0.5".to_string())));
    let e = b.finish(&exec).ok().unwrap();
    assert_eq!(e.to_string(), "(0.5)");
    assert_eq!(e.execute(&exec), Ok("0.5".to_string()));
}

#[test]
fn finished_expressions_hold_all_operands() {
    let mut b = ExpressionBuilder::new();
    for (t, is_op) in [("2", false), ("\u{d7}", true), ("(", true), ("1", false), ("+", true), ("3", false), (")", true), ("\u{b2}", true)] {
        if is_op {
            let _ = b.push_functor(t.to_string(), true, &exec);
        } else {
            let _ = b.push_operand(t.to_string(), &parse);
        }
    }
    assert_eq!(b.to_exp_string(), "2\u{d7}(1+3)\u{b2}");
    let e = b.finish(&exec).ok().unwrap();
    assert_eq!(e.execute(&exec), Ok("32".to_string()));
}

#[test]
fn operand_text_goes_last() {
    let mut b = ExpressionBuilder::new();
    assert!(b.push_operand("4".to_string(), &parse));
    assert_eq!(b.push_functor("×".to_string(), true, &exec), Ok(None));
    assert_eq!(b.push_functor("(".to_string(), true, &exec), Ok(None));
    assert_eq!(b.to_exp_string(), "4×(");
    assert!(!b.push_operand("x".to_string(), &parse));
    assert_eq!(b.to_exp_string(), "4×(");
    assert!(b.push_operand("007.50".to_string(), &parse));
    assert_eq!(b.to_exp_string(), "4×(7.5");
}
