//! The calculator: the keypad's input state machine around the expression
//! builder.

use vstd::prelude::*;
use super::expression::{reply_view, strings_view, ExpressionBuilder};
use super::functions::FunctionId;
use super::model::{
    add_constant, build_history, build_top, first_bracket, builder_init, calc_init, close_loop,
    constant_pos, constant_value, delete_input, eval_error, eval_input, finish,
    has_room, is_decimal, last_shown, memory_recover, memory_store,
    pending_operand, perform_exp_input, push_functor, push_operand, push_temp_input, put_functor, put_token,
    recalculate, record_token, replay, reset, reset_temp, set_constant, tokenize,
    expression_op_input, BuilderModel, CalcModel, ExecFn, ParseFn, Reply,
};
use super::numbers::{exec_oracle, exec_ready, option_view, parse_oracle, parse_ready};
use super::text::{char_is_ascii_digit, join, pop_char, push_char, string_is_empty};

verus! {

/// The keys of the calculator that are no input to the expression.
pub enum Feature {
    /// Clear entry.
    CE,
    /// Clear.
    C,
    /// Memory store.
    MS,
    /// Memory recall.
    MR,
    /// Delete the last input.
    DEL,
    /// Evaluate ("=").
    Eval,
}

/// The effect of a feature key.
pub open spec fn feature_effect(c: CalcModel, f: Feature, pf: ParseFn, ef: ExecFn) -> (
    CalcModel,
    Reply,
) {
    match f {
        Feature::CE => reset_temp(c, ef),
        Feature::C => reset(c),
        Feature::MS => memory_store(c),
        Feature::MR => memory_recover(c),
        Feature::Eval => eval_input(c, pf, ef),
        Feature::DEL => delete_input(c, pf, ef),
    }
}

pub open spec fn constants_view(v: Seq<(String, String)>) -> Seq<(Seq<char>, Seq<char>)> {
    v.map_values(|e: (String, String)| (e.0@, e.1@))
}

pub open spec fn replies_view(v: Seq<Result<Option<String>, String>>) -> Seq<Reply> {
    v.map_values(|r: Result<Option<String>, String>| reply_view(r))
}

proof fn lemma_close_loop_count(m: BuilderModel, lower: int, ef: ExecFn)
    ensures
        close_loop(m, lower, ef).0.token_count == m.token_count,
    decreases m.operators.len(),
{
    if m.operators.len() > 0 {
        lemma_close_loop_count(build_top(m, lower, ef).0, lower, ef);
    }
}

pub(crate) proof fn lemma_push_functor_count(m: BuilderModel, token: Seq<char>, prefer_eval: bool, ef: ExecFn)
    ensures
        push_functor(m, token, prefer_eval, ef).0.token_count == m.token_count + 1,
{
    let m1 = BuilderModel { token_count: m.token_count + 1, last_op_count: 1, ..m };
    lemma_close_loop_count(m1, first_bracket(m1.operators), ef);
}

/// Every token handed to the builder counts once.
pub(crate) proof fn lemma_put_token_count(c: CalcModel, token: Seq<char>, pf: ParseFn, ef: ExecFn)
    ensures
        put_token(c, token, pf, ef).0.builder.token_count == c.builder.token_count + 1,
        put_functor(c, token, ef).0.builder.token_count == c.builder.token_count + 1,
{
    let m1 = BuilderModel { token_count: c.builder.token_count + 1, last_op_count: 1, ..c.builder };
    lemma_close_loop_count(m1, first_bracket(m1.operators), ef);
}

pub(crate) proof fn lemma_replay_count(c: CalcModel, tokens: Seq<Seq<char>>, pf: ParseFn, ef: ExecFn)
    ensures
        replay(c, tokens, pf, ef).0.builder.token_count == c.builder.token_count + tokens.len(),
        replay(c, tokens, pf, ef).0.input_tokens == c.input_tokens,
        replay(c, tokens, pf, ef).0.operand_token == c.operand_token,
        replay(c, tokens, pf, ef).0.last_result == c.last_result,
        replay(c, tokens, pf, ef).0.memory == c.memory,
        replay(c, tokens, pf, ef).0.constants == c.constants,
        replay(c, tokens, pf, ef).1.len() == tokens.len(),
    decreases tokens.len(),
{
    if tokens.len() > 0 {
        lemma_replay_count(c, tokens.drop_last(), pf, ef);
        lemma_put_token_count(replay(c, tokens.drop_last(), pf, ef).0, tokens.last(), pf, ef);
    }
}

proof fn lemma_constant_pos(cs: Seq<(Seq<char>, Seq<char>)>, name: Seq<char>)
    ensures
        -1 <= constant_pos(cs, name) < cs.len(),
        constant_pos(cs, name) >= 0 ==> cs[constant_pos(cs, name)].0 == name,
    decreases cs.len(),
{
    if cs.len() > 0 {
        lemma_constant_pos(cs.drop_last(), name);
    }
}

/// A pocket calculator: keypad inputs build an expression, feature keys
/// clear, store, recall, delete and evaluate.
pub struct Calculator {
    evaluator: ExpressionBuilder,
    constants_map: Vec<(String, String)>,
    operand_token: String,
    last_result: String,
    last_immediate: String,
    cached_history: String,
    input_tokens: Vec<String>,
    memory: Option<String>,
    is_operand_last: bool,
    need_sync_tokens: bool,
}

impl View for Calculator {
    type V = CalcModel;

    closed spec fn view(&self) -> CalcModel {
        CalcModel {
            builder: self.evaluator@,
            constants: constants_view(self.constants_map@),
            operand_token: self.operand_token@,
            last_result: self.last_result@,
            last_immediate: self.last_immediate@,
            cached_history: self.cached_history@,
            input_tokens: strings_view(self.input_tokens@),
            memory: option_view(self.memory),
            is_operand_last: self.is_operand_last,
            need_sync_tokens: self.need_sync_tokens,
        }
    }
}

impl Calculator {
    pub fn new() -> (r: Self)
        ensures
            r@ == calc_init(),
    {
        let r = Self {
            evaluator: ExpressionBuilder::new(),
            constants_map: Vec::new(),
            operand_token: String::new(),
            input_tokens: Vec::new(),
            last_result: String::from_str("0"),
            cached_history: String::new(),
            last_immediate: String::new(),
            memory: None,
            is_operand_last: false,
            need_sync_tokens: false,
        };
        assert(r@ =~= calc_init());
        r
    }

    /// Whether there is room for one more input (the builder counts its
    /// tokens in an `i32`); every input requires it.
    pub fn has_room(&self) -> (r: bool)
        ensures
            r == has_room(self@),
    {
        self.evaluator.token_count_below(i32::MAX - 3) && self.input_tokens.len() < (i32::MAX - 3) as usize
    }

    /// A digit or a dot extends the operand being typed.
    fn expression_operand_input(&mut self, c: char) -> (r: Result<Option<String>, String>)
        ensures
            final(self)@ == (CalcModel {
                last_result: seq![],
                operand_token: old(self)@.operand_token.push(c),
                ..old(self)@
            }),
            reply_view(r) == Ok::<Option<Seq<char>>, Seq<char>>(Some(old(self)@.operand_token.push(c))),
    {
        if !string_is_empty(&self.last_result) {
            // the first operand of a new expression drops the last result
            self.last_result = String::new();
        }
        push_char(&mut self.operand_token, c);
        assert(self@ =~= CalcModel {
            last_result: seq![],
            operand_token: old(self)@.operand_token.push(c),
            ..old(self)@
        });
        Ok(Some(self.operand_token.clone()))
    }

    /// The value of a constant replaces the operand being typed.
    fn expression_constant_input(&mut self, const_val: &String) -> (r: Result<Option<String>, String>)
        ensures
            final(self)@ == (CalcModel { operand_token: const_val@, last_result: seq![], ..old(self)@ }),
            reply_view(r) == Ok::<Option<Seq<char>>, Seq<char>>(Some(const_val@)),
    {
        self.operand_token = String::new();
        self.last_result = String::new();
        self.operand_token = const_val.clone();
        assert(self@ =~= CalcModel { operand_token: const_val@, last_result: seq![], ..old(self)@ });
        Ok(Some(self.operand_token.clone()))
    }

    fn put_functor<E: Fn(FunctionId, String, String) -> Result<String, String>>(
        &mut self,
        token: String,
        exec: &E,
    ) -> (r: Result<Option<String>, String>)
        requires
            old(self)@.builder.token_count < i32::MAX,
            exec_ready(exec),
        ensures
            final(self)@ == put_functor(old(self)@, token@, exec_oracle(exec)).0,
            reply_view(r) == put_functor(old(self)@, token@, exec_oracle(exec)).1,
    {
        let res = self.evaluator.push_functor(token, self.is_operand_last, exec);
        self.is_operand_last = match &res {
            Ok(Some(_)) => {
                self.need_sync_tokens = true;
                self.evaluator.get_last_exp_token_arg_count() == 1
            },
            _ => false,
        };
        proof {
            let goal = put_functor(old(self)@, token@, exec_oracle(exec));
            assert(self@ =~= goal.0);
        }
        res
    }

    fn put_token<
        P: Fn(String) -> Option<String>,
        E: Fn(FunctionId, String, String) -> Result<String, String>,
    >(&mut self, token: String, parse: &P, exec: &E) -> (r: Result<Option<String>, String>)
        requires
            old(self)@.builder.token_count < i32::MAX,
            parse_ready(parse),
            exec_ready(exec),
        ensures
            final(self)@ == put_token(old(self)@, token@, parse_oracle(parse), exec_oracle(exec)).0,
            reply_view(r) == put_token(old(self)@, token@, parse_oracle(parse), exec_oracle(exec)).1,
    {
        if ExpressionBuilder::is_decimal(token.as_str()) {
            let _ = self.evaluator.push_operand(token.clone(), parse);
            self.is_operand_last = true;
            proof {
                let goal = put_token(old(self)@, token@, parse_oracle(parse), exec_oracle(exec));
                assert(self@ =~= goal.0);
            }
            Ok(Some(token))
        } else {
            self.put_functor(token, exec)
        }
    }

    /// Records `tok` as input, or, after a reduction, reads the input back
    /// from the builder's text.
    fn record_token(&mut self, tok: &String)
        ensures
            final(self)@ == record_token(old(self)@, tok@),
    {
        if self.need_sync_tokens {
            self.input_tokens = ExpressionBuilder::tokenize(self.evaluator.to_exp_string());
            self.need_sync_tokens = false;
        } else {
            let ghost before = strings_view(self.input_tokens@);
            self.input_tokens.push(tok.clone());
            assert(strings_view(self.input_tokens@) =~= before.push(tok@));
        }
        assert(self@ =~= record_token(old(self)@, tok@));
    }

    /// Hands the pending operand (see `pending_operand`) to the builder as
    /// a token, and answers it; `None` when there is none.
    fn push_temp_input<
        P: Fn(String) -> Option<String>,
        E: Fn(FunctionId, String, String) -> Result<String, String>,
    >(&mut self, parse: &P, exec: &E) -> (r: Option<String>)
        requires
            old(self)@.builder.token_count < i32::MAX,
            parse_ready(parse),
            exec_ready(exec),
        ensures
            final(self)@ == push_temp_input(old(self)@, parse_oracle(parse), exec_oracle(exec)),
            final(self)@.builder.token_count <= old(self)@.builder.token_count + 1,
            option_view(r) == (if pending_operand(old(self)@).len() == 0 {
                None
            } else {
                Some(pending_operand(old(self)@))
            }),
    {
        let mut put_str: Option<String> = None;
        if !string_is_empty(&self.last_result) {
            self.operand_token = self.last_result.clone();
            self.last_result = String::new();
        }
        let ghost c1 = self@;
        if !string_is_empty(&self.operand_token) {
            let tok = self.operand_token.clone();
            let _ = self.put_token(tok.clone(), parse, exec);
            proof {
                lemma_put_token_count(c1, tok@, parse_oracle(parse), exec_oracle(exec));
            }
            put_str = Some(tok.clone());
            self.record_token(&tok);
            self.operand_token = String::new();
        }
        proof {
            assert(c1 =~= (if old(self)@.last_result.len() > 0 {
                CalcModel { operand_token: old(self)@.last_result, last_result: seq![], ..old(self)@ }
            } else {
                old(self)@
            }));
            assert(self@ =~= push_temp_input(old(self)@, parse_oracle(parse), exec_oracle(exec)));
        }
        put_str
    }

    fn expression_op_input<
        P: Fn(String) -> Option<String>,
        E: Fn(FunctionId, String, String) -> Result<String, String>,
    >(&mut self, op_name: &String, parse: &P, exec: &E) -> (r: Result<Option<String>, String>)
        requires
            old(self)@.builder.token_count + 1 < i32::MAX,
            parse_ready(parse),
            exec_ready(exec),
        ensures
            final(self)@ == expression_op_input(old(self)@, op_name@, parse_oracle(parse), exec_oracle(exec)).0,
            reply_view(r) == expression_op_input(old(self)@, op_name@, parse_oracle(parse), exec_oracle(exec)).1,
    {
        let _ = self.push_temp_input(parse, exec);
        let res = self.put_functor(op_name.clone(), exec);
        self.record_token(op_name);
        res
    }

    /// The text of the expression: the one last evaluated, or else the one
    /// being built followed by the operand being typed.
    pub fn build_history(&self) -> (r: String)
        ensures
            r@ == build_history(self@),
    {
        if string_is_empty(&self.cached_history) {
            let history = self.evaluator.to_exp_string();
            join(&history, &self.operand_token)
        } else {
            self.cached_history.clone()
        }
    }

    /// The position of the constant `name`, if any.
    fn constant_position(&self, name: &String) -> (r: Option<usize>)
        ensures
            match r {
                Some(p) => p as int == constant_pos(self@.constants, name@) && p < self@.constants.len()
                    && self@.constants[p as int].0 == name@,
                None => constant_pos(self@.constants, name@) == -1,
            },
    {
        let ghost cs = self@.constants;
        proof {
            lemma_constant_pos(cs, name@);
        }
        let mut i = self.constants_map.len();
        assert(cs.take(i as int) =~= cs);
        while i > 0
            invariant
                cs == self@.constants,
                0 <= i <= cs.len(),
                constant_pos(cs.take(i as int), name@) == constant_pos(cs, name@),
            decreases i,
        {
            assert(cs.take(i as int).drop_last() =~= cs.take(i - 1));
            if self.constants_map[i - 1].0 == *name {
                return Some(i - 1);
            }
            i = i - 1;
        }
        None
    }

    /// Sets the constant `name` to `value`.
    pub fn add_constant(&mut self, name: String, value: String)
        ensures
            final(self)@ == add_constant(old(self)@, name@, value@),
    {
        let ghost cs = self@.constants;
        match self.constant_position(&name) {
            Some(p) => {
                self.constants_map.set(p, (name, value));
                assert(constants_view(self.constants_map@) =~= set_constant(cs, name@, value@));
            },
            None => {
                self.constants_map.push((name, value));
                assert(constants_view(self.constants_map@) =~= set_constant(cs, name@, value@));
            },
        }
        assert(self@ =~= add_constant(old(self)@, name@, value@));
    }

    /// Takes the keypad input `input`; see `model::perform_exp_input`.
    pub fn perform_exp_input<
        P: Fn(String) -> Option<String>,
        E: Fn(FunctionId, String, String) -> Result<String, String>,
    >(&mut self, input: String, parse: &P, exec: &E) -> (r: Result<Option<String>, String>)
        requires
            has_room(old(self)@),
            parse_ready(parse),
            exec_ready(exec),
        ensures
            final(self)@ == perform_exp_input(old(self)@, input@, parse_oracle(parse), exec_oracle(exec)).0,
            reply_view(r) == perform_exp_input(old(self)@, input@, parse_oracle(parse), exec_oracle(exec)).1,
    {
        if string_is_empty(&input) {
            return Err(String::from_str("Empty input"));
        }
        self.cached_history = String::new();
        let ghost c0 = self@;
        let immediate_result: Result<Option<String>, String>;
        let n = input.as_str().unicode_len();
        let mut single_operand_char = false;
        if n == 1 {
            let c = input.as_str().get_char(0);
            if char_is_ascii_digit(c) || c == '.' {
                single_operand_char = true;
            }
        }
        if single_operand_char {
            let c = input.as_str().get_char(0);
            immediate_result = self.expression_operand_input(c);
        } else {
            match self.constant_position(&input) {
                Some(p) => {
                    let value = self.constants_map[p].1.clone();
                    proof {
                        assert(constant_value(c0.constants, input@) == Some(value@));
                    }
                    immediate_result = self.expression_constant_input(&value);
                },
                None => {
                    immediate_result = self.expression_op_input(&input, parse, exec);
                },
            }
        }
        match &immediate_result {
            Ok(Some(v)) => {
                self.last_immediate = v.clone();
            },
            _ => {},
        }
        proof {
            let goal = perform_exp_input(old(self)@, input@, parse_oracle(parse), exec_oracle(exec));
            assert(c0 =~= CalcModel { cached_history: seq![], ..old(self)@ });
            assert(self@ =~= goal.0);
        }
        immediate_result
    }

    /// Takes a feature key; see `feature_effect`.
    pub fn perform_feature<
        P: Fn(String) -> Option<String>,
        E: Fn(FunctionId, String, String) -> Result<String, String>,
    >(&mut self, feature: &Feature, parse: &P, exec: &E) -> (r: Result<Option<String>, String>)
        requires
            match *feature {
                Feature::Eval | Feature::DEL => has_room(old(self)@),
                _ => true,
            },
            parse_ready(parse),
            exec_ready(exec),
        ensures
            final(self)@ == feature_effect(old(self)@, *feature, parse_oracle(parse), exec_oracle(exec)).0,
            reply_view(r) == feature_effect(old(self)@, *feature, parse_oracle(parse), exec_oracle(exec)).1,
    {
        match feature {
            Feature::CE => self.reset_temp(exec),
            Feature::C => self.reset(),
            Feature::MS => self.memory_store(),
            Feature::MR => self.memory_recover(),
            Feature::Eval => self.eval(parse, exec),
            Feature::DEL => self.delete_input(parse, exec),
        }
    }

    /// Hands `tokens` to the builder one by one; the replies in order.
    fn replay_tokens<
        P: Fn(String) -> Option<String>,
        E: Fn(FunctionId, String, String) -> Result<String, String>,
    >(&mut self, tokens: &Vec<String>, parse: &P, exec: &E) -> (r: Vec<Result<Option<String>, String>>)
        requires
            old(self)@.builder.token_count + tokens@.len() < i32::MAX,
            parse_ready(parse),
            exec_ready(exec),
        ensures
            final(self)@ == replay(old(self)@, strings_view(tokens@), parse_oracle(parse), exec_oracle(exec)).0,
            replies_view(r@) == replay(old(self)@, strings_view(tokens@), parse_oracle(parse), exec_oracle(exec)).1,
    {
        let ghost tv = strings_view(tokens@);
        let ghost pf = parse_oracle(parse);
        let ghost ef = exec_oracle(exec);
        let mut results: Vec<Result<Option<String>, String>> = Vec::new();
        let mut i: usize = 0;
        assert(tv.take(0) =~= seq![]);
        assert(replies_view(results@) =~= seq![]);
        while i < tokens.len()
            invariant
                tv == strings_view(tokens@),
                pf == parse_oracle(parse),
                ef == exec_oracle(exec),
                parse_ready(parse),
                exec_ready(exec),
                0 <= i <= tv.len(),
                old(self)@.builder.token_count + tv.len() < i32::MAX,
                self@ == replay(old(self)@, tv.take(i as int), pf, ef).0,
                replies_view(results@) == replay(old(self)@, tv.take(i as int), pf, ef).1,
                self@.builder.token_count == old(self)@.builder.token_count + i,
            decreases tv.len() - i,
        {
            assert(tv.take(i + 1).drop_last() =~= tv.take(i as int));
            let ghost before = self@;
            let r = self.put_token(tokens[i].clone(), parse, exec);
            proof {
                lemma_put_token_count(before, tv[i as int], pf, ef);
            }
            let ghost rs = replies_view(results@);
            results.push(r);
            assert(replies_view(results@) =~= rs.push(reply_view(r)));
            i = i + 1;
        }
        assert(tv.take(tv.len() as int) =~= tv);
        results
    }

    /// After a failed evaluation, rebuilds the expression from the input
    /// tokens; see `model::eval_error`.
    fn eval_error<
        P: Fn(String) -> Option<String>,
        E: Fn(FunctionId, String, String) -> Result<String, String>,
    >(&mut self, temp_token_updated: bool, parse: &P, exec: &E) -> (r: Result<Option<String>, String>)
        requires
            old(self)@.input_tokens.len() + 1 < i32::MAX,
            temp_token_updated ==> old(self)@.input_tokens.len() > 0,
            parse_ready(parse),
            exec_ready(exec),
        ensures
            final(self)@ == eval_error(old(self)@, temp_token_updated, parse_oracle(parse), exec_oracle(exec)),
            reply_view(r) == Ok::<Option<Seq<char>>, Seq<char>>(None),
    {
        // the evaluation may have damaged the builder: start it afresh
        self.evaluator = ExpressionBuilder::new();
        // give the operand handed over back to the typing
        if temp_token_updated {
            let ghost before = strings_view(self.input_tokens@);
            self.operand_token = self.input_tokens.pop().unwrap();
            assert(strings_view(self.input_tokens@) =~= before.drop_last());
        }
        let x = self.input_tokens.clone();
        assert(strings_view(x@) == self@.input_tokens);
        let _ = self.replay_tokens(&x, parse, exec);
        // nothing happened, as far as the caller sees
        Ok(None)
    }

    /// Evaluation ("="); see `model::eval_input`.
    fn eval<
        P: Fn(String) -> Option<String>,
        E: Fn(FunctionId, String, String) -> Result<String, String>,
    >(&mut self, parse: &P, exec: &E) -> (r: Result<Option<String>, String>)
        requires
            has_room(old(self)@),
            parse_ready(parse),
            exec_ready(exec),
        ensures
            final(self)@ == eval_input(old(self)@, parse_oracle(parse), exec_oracle(exec)).0,
            reply_view(r) == eval_input(old(self)@, parse_oracle(parse), exec_oracle(exec)).1,
    {
        let ghost pf = parse_oracle(parse);
        let ghost ef = exec_oracle(exec);
        let mut temp_token_updated = false;
        if !string_is_empty(&self.operand_token) {
            let _ = self.evaluator.push_operand(self.operand_token.clone(), parse);
            let ghost before = strings_view(self.input_tokens@);
            self.input_tokens.push(self.operand_token.clone());
            assert(strings_view(self.input_tokens@) =~= before.push(self.operand_token@));
            self.operand_token = String::new();
            temp_token_updated = true;
        }
        let ghost c1 = self@;
        assert(c1 =~= (if old(self)@.operand_token.len() > 0 {
            CalcModel {
                builder: push_operand(old(self)@.builder, old(self)@.operand_token, pf).0,
                input_tokens: old(self)@.input_tokens.push(old(self)@.operand_token),
                operand_token: seq![],
                ..old(self)@
            }
        } else {
            old(self)@
        }));
        let res = self.evaluator.finish(exec);
        let ghost c2 = self@;
        assert(c2 =~= CalcModel { builder: finish(c1.builder, ef).0, ..c1 });
        match res {
            Ok(e) => {
                // the value is kept as the first operand of the next expression
                let vr = e.execute(exec);
                match vr {
                    Ok(v) => {
                        self.last_result = v.clone();
                        self.last_immediate = self.last_result.clone();
                        // a fresh builder for the next expression
                        self.evaluator = ExpressionBuilder::new();
                        let text = e.to_string();
                        self.cached_history = join(&text, &String::from_str(" ="));
                        self.operand_token = String::new();
                        self.input_tokens = Vec::new();
                        proof {
                            let goal = eval_input(old(self)@, pf, ef);
                            assert(strings_view(self.input_tokens@) =~= seq![]);
                            assert(self@ =~= goal.0);
                        }
                        Ok(Some(self.last_result.clone()))
                    },
                    Err(s) => self.eval_error(temp_token_updated, parse, exec),
                }
            },
            Err(s) => self.eval_error(temp_token_updated, parse, exec),
        }
    }

    /// Rebuilds the expression from the input tokens after a deletion; see
    /// `model::recalculate`.
    fn recaculate_after_delete<
        P: Fn(String) -> Option<String>,
        E: Fn(FunctionId, String, String) -> Result<String, String>,
    >(&mut self, parse: &P, exec: &E) -> (r: Result<Option<String>, String>)
        requires
            old(self)@.input_tokens.len() + 1 < i32::MAX,
            parse_ready(parse),
            exec_ready(exec),
        ensures
            final(self)@ == recalculate(old(self)@, parse_oracle(parse), exec_oracle(exec)).0,
            reply_view(r) == recalculate(old(self)@, parse_oracle(parse), exec_oracle(exec)).1,
    {
        let ghost pf = parse_oracle(parse);
        let ghost ef = exec_oracle(exec);
        // the builder is one step ahead: start it afresh
        self.evaluator = ExpressionBuilder::new();
        let x = self.input_tokens.clone();
        assert(strings_view(x@) == self@.input_tokens);
        let ghost c1 = self@;
        let results = self.replay_tokens(&x, parse, exec);
        proof {
            lemma_replay_count(c1, c1.input_tokens, pf, ef);
        }
        if string_is_empty(&self.operand_token) {
            let ghost rs = replies_view(results@);
            let mut i = results.len();
            assert(rs.take(i as int) =~= rs);
            proof {
                assert(c1 =~= CalcModel { builder: builder_init(), ..old(self)@ });
            }
            while i > 0
                invariant
                    rs == replies_view(results@),
                    pf == parse_oracle(parse),
                    ef == exec_oracle(exec),
                    self@.operand_token.len() == 0,
                    recalculate(old(self)@, pf, ef) == (self@, match last_shown(rs) {
                        Some(v) => Ok(Some(v)),
                        None => Ok::<Option<Seq<char>>, Seq<char>>(Some("0"@)),
                    }),
                    0 <= i <= rs.len(),
                    last_shown(rs.take(i as int)) == last_shown(rs),
                decreases i,
            {
                assert(rs.take(i as int).drop_last() =~= rs.take(i - 1));
                match &results[i - 1] {
                    Ok(Some(v)) => {
                        return Ok(Some(v.clone()));
                    },
                    _ => {},
                }
                i = i - 1;
            }
            Ok(Some(String::from_str("0")))
        } else {
            // the operand being typed is what to show
            Ok(Some(self.operand_token.clone()))
        }
    }

    /// Deletion ("DEL"); see `model::delete_input`.
    fn delete_input<
        P: Fn(String) -> Option<String>,
        E: Fn(FunctionId, String, String) -> Result<String, String>,
    >(&mut self, parse: &P, exec: &E) -> (r: Result<Option<String>, String>)
        requires
            has_room(old(self)@),
            parse_ready(parse),
            exec_ready(exec),
        ensures
            final(self)@ == delete_input(old(self)@, parse_oracle(parse), exec_oracle(exec)).0,
            reply_view(r) == delete_input(old(self)@, parse_oracle(parse), exec_oracle(exec)).1,
    {
        // first try the last char of the operand being typed...
        match pop_char(&mut self.operand_token) {
            Some(_) => {
                if string_is_empty(&self.operand_token) {
                    self.recaculate_after_delete(parse, exec)
                } else {
                    Ok(Some(self.operand_token.clone()))
                }
            },
            None => {
                // ...else the last input token
                if self.input_tokens.len() == 0 {
                    return Ok(None);
                }
                let ghost before = strings_view(self.input_tokens@);
                self.input_tokens.pop();
                assert(strings_view(self.input_tokens@) =~= before.drop_last());
                self.recaculate_after_delete(parse, exec)
            },
        }
    }

    /// Clear ("C"); see `model::reset`.
    pub fn reset(&mut self) -> (r: Result<Option<String>, String>)
        ensures
            final(self)@ == reset(old(self)@).0,
            reply_view(r) == reset(old(self)@).1,
    {
        self.last_result = String::from_str("0");
        self.last_immediate = String::from_str("0");
        self.operand_token = String::new();
        self.input_tokens = Vec::new();
        self.evaluator = ExpressionBuilder::new();
        self.cached_history = String::new();
        self.is_operand_last = false;
        self.need_sync_tokens = false;
        assert(strings_view(self.input_tokens@) =~= seq![]);
        assert(self@ =~= reset(old(self)@).0);
        Ok(Some(self.last_result.clone()))
    }

    /// Clear entry ("CE"); see `model::reset_temp`.
    fn reset_temp<E: Fn(FunctionId, String, String) -> Result<String, String>>(&mut self, exec: &E) -> (r:
        Result<Option<String>, String>)
        requires
            exec_ready(exec),
        ensures
            final(self)@ == reset_temp(old(self)@, exec_oracle(exec)).0,
            reply_view(r) == reset_temp(old(self)@, exec_oracle(exec)).1,
    {
        self.operand_token = String::new();
        self.last_result = String::new();
        let r = match self.evaluator.eval_immediate(exec) {
            Ok(v) => Ok(Some(v)),
            Err(e) => Err(e),
        };
        assert(self@ =~= reset_temp(old(self)@, exec_oracle(exec)).0);
        r
    }

    /// Memory store ("MS"); see `model::memory_store`.
    fn memory_store(&mut self) -> (r: Result<Option<String>, String>)
        ensures
            final(self)@ == memory_store(old(self)@).0,
            reply_view(r) == memory_store(old(self)@).1,
    {
        if string_is_empty(&self.last_immediate) {
            return Ok(None);
        }
        if ExpressionBuilder::is_decimal(self.last_immediate.as_str()) {
            self.memory = Some(self.last_immediate.clone());
        }
        assert(self@ =~= memory_store(old(self)@).0);
        Ok(None)
    }

    /// Memory recall ("MR"); see `model::memory_recover`.
    fn memory_recover(&mut self) -> (r: Result<Option<String>, String>)
        ensures
            final(self)@ == memory_recover(old(self)@).0,
            reply_view(r) == memory_recover(old(self)@).1,
    {
        match self.memory.clone() {
            Some(v) => {
                self.operand_token = v.clone();
                assert(self@ =~= memory_recover(old(self)@).0);
                Ok(Some(v))
            },
            None => Ok(None),
        }
    }
}

} // verus!
