use lib::calc::calculator::{Calculator, Feature};

fn parse(token: String) -> Option<String> {
    token.parse::<f64>().ok().map(|v| v.to_string())
}

fn exec(id: usize, a: String, b: String) -> Result<String, String> {
    let x: f64 = a.parse().map_err(|_| "Not a number".to_string())?;
    let y: f64 = if b.is_empty() { 0.0 } else { b.parse().map_err(|_| "Not a number".to_string())? };
    let r = match id {
        0 => x + y,
        1 => x - y,
        2 => x * y,
        3 => {
            if y == 0.0 {
                return Err("Division by zero".to_string());
            }
            x / y
        }
        6 => x.sqrt(),
        9 => x.sin(),
        10 => x.cos(),
        11 => x.tan(),
        15 => x * x,
        16 => 1.0 / x,
        _ => return Err("No functor found".to_string()),
    };
    Ok(r.to_string())
}

fn input(c: &mut Calculator, s: &str) -> Result<Option<String>, String> {
    assert!(c.has_room());
    c.perform_exp_input(s.to_string(), &parse, &exec)
}

fn feature(c: &mut Calculator, f: Feature) -> Result<Option<String>, String> {
    assert!(c.has_room());
    c.perform_feature(&f, &parse, &exec)
}

fn some(s: &str) -> Result<Option<String>, String> {
    Ok(Some(s.to_string()))
}

#[test]
fn keypad_binary_evaluates() {
    let mut c = Calculator::new();
    assert_eq!(input(&mut c, "1"), some("1"));
    assert_eq!(input(&mut c, "+"), Ok(None));
    assert_eq!(input(&mut c, "2"), some("2"));
    assert_eq!(c.build_history(), "1+2");
    assert_eq!(feature(&mut c, Feature::Eval), some("3"));
    assert_eq!(c.build_history(), "1+2 =");
}

#[test]
fn digits_accumulate() {
    let mut c = Calculator::new();
    assert_eq!(input(&mut c, "1"), some("1"));
    assert_eq!(input(&mut c, "2"), some("12"));
    assert_eq!(input(&mut c, "."), some("12."));
    assert_eq!(input(&mut c, "5"), some("12.5"));
    assert_eq!(c.build_history(), "12.5");
}

#[test]
fn multiplication_binds_tighter() {
    let mut c = Calculator::new();
    for s in ["2", "+", "3", "\u{d7}", "4"] {
        let _ = input(&mut c, s);
    }
    assert_eq!(feature(&mut c, Feature::Eval), some("14"));
    assert_eq!(c.build_history(), "2+3\u{d7}4 =");

    let mut c = Calculator::new();
    for s in ["2", "\u{d7}", "3", "+", "4"] {
        let _ = input(&mut c, s);
    }
    assert_eq!(feature(&mut c, Feature::Eval), some("10"));
}

#[test]
fn equal_priority_is_left_to_right() {
    let mut c = Calculator::new();
    for s in ["8", "\u{2212}", "3", "\u{2212}", "2"] {
        let _ = input(&mut c, s);
    }
    assert_eq!(feature(&mut c, Feature::Eval), some("3"));
}

#[test]
fn brackets_group() {
    let mut c = Calculator::new();
    assert_eq!(input(&mut c, "2"), some("2"));
    assert_eq!(input(&mut c, "\u{d7}"), Ok(None));
    assert_eq!(input(&mut c, "("), Ok(None));
    assert_eq!(input(&mut c, "3"), some("3"));
    assert_eq!(input(&mut c, "+"), Ok(None));
    assert_eq!(input(&mut c, "4"), some("4"));
    assert_eq!(input(&mut c, ")"), some("7"));
    assert_eq!(c.build_history(), "2\u{d7}(3+4)");
    assert_eq!(feature(&mut c, Feature::Eval), some("14"));
    assert_eq!(c.build_history(), "2\u{d7}(3+4) =");
}

#[test]
fn function_applies_at_once_after_operand() {
    let mut c = Calculator::new();
    assert_eq!(input(&mut c, "9"), some("9"));
    assert_eq!(input(&mut c, "\u{221a}"), some("3"));
    assert_eq!(c.build_history(), "\u{221a}(9)");
    assert_eq!(feature(&mut c, Feature::Eval), some("3"));
    assert_eq!(c.build_history(), "\u{221a}(9) =");
}

#[test]
fn square_and_inverse() {
    let mut c = Calculator::new();
    assert_eq!(input(&mut c, "3"), some("3"));
    assert_eq!(input(&mut c, "\u{b2}"), some("9"));
    assert_eq!(feature(&mut c, Feature::Eval), some("9"));
    assert_eq!(c.build_history(), "3\u{b2} =");

    let mut c = Calculator::new();
    assert_eq!(input(&mut c, "4"), some("4"));
    assert_eq!(input(&mut c, "\u{215f}"), some("0.25"));
}

#[test]
fn division_by_zero_answers_nothing_and_keeps_input() {
    let mut c = Calculator::new();
    for s in ["1", "\u{f7}", "0"] {
        let _ = input(&mut c, s);
    }
    assert_eq!(feature(&mut c, Feature::Eval), Ok(None));
    assert_eq!(c.build_history(), "1\u{f7}0");
    // the operand given back can still be deleted
    assert_eq!(feature(&mut c, Feature::DEL), some("1"));
    assert_eq!(c.build_history(), "1\u{f7}");
    assert_eq!(input(&mut c, "4"), some("4"));
    assert_eq!(feature(&mut c, Feature::Eval), some("0.25"));
}

#[test]
fn incomplete_expression_answers_nothing() {
    let mut c = Calculator::new();
    let _ = input(&mut c, "5");
    let _ = input(&mut c, "+");
    assert_eq!(feature(&mut c, Feature::Eval), Ok(None));
    assert_eq!(c.build_history(), "5+");
}

#[test]
fn result_is_the_next_first_operand() {
    let mut c = Calculator::new();
    for s in ["6", "\u{d7}", "7"] {
        let _ = input(&mut c, s);
    }
    assert_eq!(feature(&mut c, Feature::Eval), some("42"));
    assert_eq!(input(&mut c, "+"), Ok(None));
    assert_eq!(input(&mut c, "1"), some("1"));
    assert_eq!(c.build_history(), "42+1");
    assert_eq!(feature(&mut c, Feature::Eval), some("43"));
}

#[test]
fn typing_after_result_starts_a_new_number() {
    let mut c = Calculator::new();
    for s in ["6", "+", "1"] {
        let _ = input(&mut c, s);
    }
    assert_eq!(feature(&mut c, Feature::Eval), some("7"));
    assert_eq!(input(&mut c, "2"), some("2"));
    assert_eq!(feature(&mut c, Feature::Eval), some("2"));
}

#[test]
fn empty_input_is_refused() {
    let mut c = Calculator::new();
    assert_eq!(input(&mut c, ""), Err("Empty input".to_string()));
}

#[test]
fn unknown_operator_is_refused() {
    let mut c = Calculator::new();
    let _ = input(&mut c, "3");
    assert_eq!(input(&mut c, "%"), Err("No functor found".to_string()));
}

#[test]
fn unmatched_closing_bracket_is_refused() {
    let mut c = Calculator::new();
    let _ = input(&mut c, "3");
    assert_eq!(input(&mut c, ")"), Err("Missing open bracket".to_string()));
}

#[test]
fn clear_answers_zero_and_keeps_memory() {
    let mut c = Calculator::new();
    let _ = input(&mut c, "5");
    assert_eq!(feature(&mut c, Feature::MS), Ok(None));
    let _ = input(&mut c, "+");
    assert_eq!(feature(&mut c, Feature::C), some("0"));
    assert_eq!(c.reset(), some("0"));
    assert_eq!(c.build_history(), "");
    assert_eq!(feature(&mut c, Feature::MR), some("5"));
    assert_eq!(c.build_history(), "5");
    assert_eq!(feature(&mut c, Feature::Eval), some("5"));
}

#[test]
fn memory_recall_when_empty_answers_nothing() {
    let mut c = Calculator::new();
    assert_eq!(feature(&mut c, Feature::MR), Ok(None));
}

#[test]
fn memory_keeps_decimal_results_only() {
    let mut c = Calculator::new();
    for s in ["2", "\u{d7}", "3"] {
        let _ = input(&mut c, s);
    }
    assert_eq!(feature(&mut c, Feature::Eval), some("6"));
    assert_eq!(feature(&mut c, Feature::MS), Ok(None));
    assert_eq!(feature(&mut c, Feature::C), some("0"));
    assert_eq!(feature(&mut c, Feature::MR), some("6"));

    // the value a function shows is stored too
    let mut c = Calculator::new();
    let _ = input(&mut c, "9");
    assert_eq!(feature(&mut c, Feature::MS), Ok(None));
    assert_eq!(input(&mut c, "sin"), some("0.4121184852417566"));
    assert_eq!(feature(&mut c, Feature::MS), Ok(None));
    assert_eq!(feature(&mut c, Feature::MR), some("0.4121184852417566"));

    // "NaN" is no decimal number: the memory keeps what it had
    let mut c = Calculator::new();
    c.add_constant("m".to_string(), "-4".to_string());
    let _ = input(&mut c, "7");
    assert_eq!(feature(&mut c, Feature::MS), Ok(None));
    assert_eq!(input(&mut c, "m"), some("-4"));
    assert_eq!(input(&mut c, "\u{221a}"), some("NaN"));
    assert_eq!(feature(&mut c, Feature::MS), Ok(None));
    assert_eq!(feature(&mut c, Feature::MR), some("7"));
}

#[test]
fn clear_entry_drops_operand_and_shows_last_unit() {
    let mut c = Calculator::new();
    for s in ["1", "+", "2"] {
        let _ = input(&mut c, s);
    }
    assert_eq!(feature(&mut c, Feature::CE), some("1"));
    assert_eq!(c.build_history(), "1+");
    let mut c = Calculator::new();
    assert_eq!(feature(&mut c, Feature::CE), Err("Incomplete expression".to_string()));
}

#[test]
fn delete_removes_last_char_then_last_token() {
    let mut c = Calculator::new();
    for s in ["1", "+", "2", "3"] {
        let _ = input(&mut c, s);
    }
    assert_eq!(feature(&mut c, Feature::DEL), some("2"));
    assert_eq!(feature(&mut c, Feature::DEL), some("1"));
    assert_eq!(c.build_history(), "1+");
    assert_eq!(feature(&mut c, Feature::DEL), some("1"));
    assert_eq!(c.build_history(), "1");
    assert_eq!(feature(&mut c, Feature::DEL), some("0"));
    assert_eq!(feature(&mut c, Feature::DEL), Ok(None));
}

#[test]
fn constants_read_back() {
    let mut c = Calculator::new();
    c.add_constant("pi".to_string(), "3.14".to_string());
    assert_eq!(input(&mut c, "pi"), some("3.14"));
    let _ = input(&mut c, "\u{d7}");
    let _ = input(&mut c, "2");
    assert_eq!(feature(&mut c, Feature::Eval), some("6.28"));
    c.add_constant("pi".to_string(), "3".to_string());
    assert_eq!(input(&mut c, "pi"), some("3"));
}

#[test]
fn mixed_priorities_group_as_built() {
    // a waiting operator is reduced by the next one only once: the
    // subtraction after "2×3" takes "2×3" but leaves the first one waiting
    let mut c = Calculator::new();
    for s in ["1", "\u{2212}", "2", "\u{d7}", "3", "\u{2212}", "4"] {
        let _ = input(&mut c, s);
    }
    assert_eq!(c.build_history(), "1\u{2212}2\u{d7}3\u{2212}4");
    assert_eq!(feature(&mut c, Feature::Eval), some("-1"));
    assert_eq!(c.build_history(), "1\u{2212}2\u{d7}3\u{2212}4 =");
}

#[test]
fn fresh_calculator_starts_from_zero() {
    // the last result of a fresh calculator is "0": an operator first
    // takes it as its left operand
    let mut c = Calculator::new();
    assert_eq!(input(&mut c, "+"), Ok(None));
    assert_eq!(input(&mut c, "5"), some("5"));
    assert_eq!(c.build_history(), "0+5");
    assert_eq!(feature(&mut c, Feature::Eval), some("5"));
}
