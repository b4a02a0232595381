//! The arithmetic that the engine leaves to its caller.
//!
//! A number is carried through the engine as the text that displays it.
//! Two caller-supplied functions do the numeric work:
//! * `parse(token)` reads a token as a number and answers the text of that
//!   number (`None` when the token is no number);
//! * `exec(id, a, b)` applies the operator `id` to the numbers displayed by
//!   `a` and `b` (`b` is empty for one-argument operators) and answers the
//!   text of the result, or an error message.
//!
//! The engine's contracts hold for every pair of such functions that may be
//! called on any arguments and that answer equal questions equally (which
//! is all they need to be to stand for arithmetic).

use vstd::prelude::*;
use super::functions::FunctionId;

verus! {

pub open spec fn outcome_view(r: Result<String, String>) -> Result<Seq<char>, Seq<char>> {
    match r {
        Ok(v) => Ok(v@),
        Err(e) => Err(e@),
    }
}

pub open spec fn option_view(r: Option<String>) -> Option<Seq<char>> {
    match r {
        Some(v) => Some(v@),
        None => None,
    }
}

/// `exec` can be called on any arguments, and its answer depends on the
/// operator and on the texts of its arguments alone.
pub open spec fn exec_ready<E: Fn(FunctionId, String, String) -> Result<String, String>>(
    exec: &E,
) -> bool {
    &&& forall|id: FunctionId, a: String, b: String| #[trigger] call_requires(*exec, (id, a, b))
    &&& forall|
        id: FunctionId,
        a1: String,
        b1: String,
        a2: String,
        b2: String,
        r1: Result<String, String>,
        r2: Result<String, String>,
    |
        #[trigger] call_ensures(*exec, (id, a1, b1), r1) && #[trigger] call_ensures(
            *exec,
            (id, a2, b2),
            r2,
        ) && a1@ == a2@ && b1@ == b2@ ==> outcome_view(r1) == outcome_view(r2)
}

/// `parse` can be called on any token, and its answer depends on the text
/// of the token alone.
pub open spec fn parse_ready<P: Fn(String) -> Option<String>>(parse: &P) -> bool {
    &&& forall|t: String| #[trigger] call_requires(*parse, (t,))
    &&& forall|t1: String, t2: String, r1: Option<String>, r2: Option<String>|
        #[trigger] call_ensures(*parse, (t1,), r1) && #[trigger] call_ensures(*parse, (t2,), r2)
            && t1@ == t2@ ==> option_view(r1) == option_view(r2)
}

/// What `exec` answers for the operator `id` on the texts `a` and `b`.
pub open spec fn exec_answer<E: Fn(FunctionId, String, String) -> Result<String, String>>(
    exec: &E,
    id: FunctionId,
    a: Seq<char>,
    b: Seq<char>,
) -> Result<Seq<char>, Seq<char>> {
    let t = choose|t: (String, String, Result<String, String>)|
        t.0@ == a && t.1@ == b && #[trigger] call_ensures(*exec, (id, t.0, t.1), t.2);
    outcome_view(t.2)
}

/// What `parse` answers for a token with the text `t`.
pub open spec fn parse_answer<P: Fn(String) -> Option<String>>(parse: &P, t: Seq<char>) -> Option<
    Seq<char>,
> {
    let w = choose|w: (String, Option<String>)| w.0@ == t && #[trigger] call_ensures(*parse, (w.0,), w.1);
    option_view(w.1)
}

/// The arithmetic of `exec` as a mathematical function.
pub open spec fn exec_oracle<E: Fn(FunctionId, String, String) -> Result<String, String>>(
    exec: &E,
) -> spec_fn(FunctionId, Seq<char>, Seq<char>) -> Result<Seq<char>, Seq<char>> {
    |id: FunctionId, a: Seq<char>, b: Seq<char>| exec_answer(exec, id, a, b)
}

/// The number reading of `parse` as a mathematical function.
pub open spec fn parse_oracle<P: Fn(String) -> Option<String>>(parse: &P) -> spec_fn(
    Seq<char>,
) -> Option<Seq<char>> {
    |t: Seq<char>| parse_answer(parse, t)
}

proof fn lemma_exec_answer<E: Fn(FunctionId, String, String) -> Result<String, String>>(
    exec: &E,
    id: FunctionId,
    a: String,
    b: String,
    r: Result<String, String>,
)
    requires
        exec_ready(exec),
        call_ensures(*exec, (id, a, b), r),
    ensures
        exec_answer(exec, id, a@, b@) == outcome_view(r),
{
    let w = (a, b, r);
    assert(w.0@ == a@ && w.1@ == b@ && call_ensures(*exec, (id, w.0, w.1), w.2));
    let t = choose|t: (String, String, Result<String, String>)|
        t.0@ == a@ && t.1@ == b@ && #[trigger] call_ensures(*exec, (id, t.0, t.1), t.2);
    assert(call_ensures(*exec, (id, t.0, t.1), t.2));
}

proof fn lemma_parse_answer<P: Fn(String) -> Option<String>>(
    parse: &P,
    t: String,
    r: Option<String>,
)
    requires
        parse_ready(parse),
        call_ensures(*parse, (t,), r),
    ensures
        parse_answer(parse, t@) == option_view(r),
{
    let w = (t, r);
    assert(w.0@ == t@ && call_ensures(*parse, (w.0,), w.1));
    let x = choose|x: (String, Option<String>)| x.0@ == t@ && #[trigger] call_ensures(*parse, (x.0,), x.1);
    assert(call_ensures(*parse, (x.0,), x.1));
}

/// Applies the operator `id` to the numbers displayed by `a` and `b`.
pub fn apply_operator<E: Fn(FunctionId, String, String) -> Result<String, String>>(
    exec: &E,
    id: FunctionId,
    a: String,
    b: String,
) -> (r: Result<String, String>)
    requires
        exec_ready(exec),
    ensures
        outcome_view(r) == (exec_oracle(exec))(id, a@, b@),
{
    let ghost ga = a;
    let ghost gb = b;
    let r = exec(id, a, b);
    proof {
        lemma_exec_answer(exec, id, ga, gb, r);
    }
    r
}

/// Reads `token` as a number; answers the text of that number.
pub fn read_number<P: Fn(String) -> Option<String>>(parse: &P, token: String) -> (r: Option<
    String,
>)
    requires
        parse_ready(parse),
    ensures
        option_view(r) == (parse_oracle(parse))(token@),
{
    let ghost gt = token;
    let r = parse(token);
    proof {
        lemma_parse_answer(parse, gt, r);
    }
    r
}

} // verus!
