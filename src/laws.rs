use vstd::prelude::*;

use crate::errors::ErrorType;
use crate::executor::{
    EvalState, assign, empty_state, eval_from, eval_step, evaluate_postfix, has_var,
    unique_names, var_index,
};
use crate::shunting_yard::{
    close_parenthesis, drain, pop_for_binary, pops_before, shunt, shunt_step, to_postfix,
};
use crate::tokens::{TokenModel, TokenOperator, TokenType};

verus! {

/// Tokens whose evaluation pushes a value: numbers, operators, function
/// calls and variable references.
pub open spec fn pushes_value(t: TokenType) -> bool {
    match t {
        TokenType::Number | TokenType::Operator(_) | TokenType::Function(_)
        | TokenType::Variable => true,
        _ => false,
    }
}

/// The number of value-pushing tokens among the first `k` of `ts` that
/// follow the last `;` among them.
pub open spec fn pushes_in_statement(ts: Seq<TokenModel>, k: int) -> nat
    decreases k,
{
    if k <= 0 || k > ts.len() {
        0
    } else if ts[k - 1].0 == TokenType::EndOfExpression {
        0
    } else if pushes_value(ts[k - 1].0) {
        pushes_in_statement(ts, k - 1) + 1
    } else {
        pushes_in_statement(ts, k - 1)
    }
}

/// The number of tokens that a successful evaluation of `ts` goes through:
/// all of them, but a final `;`.
pub open spec fn evaluated_prefix(ts: Seq<TokenModel>) -> int {
    if ts.len() > 0 && ts.last().0 == TokenType::EndOfExpression {
        ts.len() - 1
    } else {
        ts.len() as int
    }
}

/// One evaluation step: a `;` empties the operand stack and the history and
/// keeps the variable table; a value-pushing token appends to the history
/// exactly the value it leaves on top of the stack; an assignment leaves the
/// history as it was.
pub proof fn law_step_history(ts: Seq<TokenModel>, i: int, st: EvalState)
    requires
        0 <= i < ts.len(),
        eval_step(ts, i, st) is Ok,
    ensures
        ({
            let next = eval_step(ts, i, st)->Ok_0;
            &&& ts[i].0 == TokenType::EndOfExpression ==> next.stack.len() == 0
                && next.history.len() == 0 && next.vars == st.vars
            &&& pushes_value(ts[i].0) ==> next.stack.len() > 0 && next.history == st.history.push(
                next.stack.last(),
            )
            &&& ts[i].0 == TokenType::Name ==> next.history == st.history && next.stack
                == st.stack
        }),
{
}

/// One evaluation step never removes a name from the variable table.
pub proof fn law_step_keeps_variables(ts: Seq<TokenModel>, i: int, st: EvalState, name: Seq<char>)
    requires
        0 <= i < ts.len(),
        eval_step(ts, i, st) is Ok,
        has_var(st.vars, name),
    ensures
        has_var(eval_step(ts, i, st)->Ok_0.vars, name),
{
    let next = eval_step(ts, i, st)->Ok_0;
    let k = var_index(st.vars, name);
    assert(next.vars[k].0 == name);
}

proof fn lemma_history_length(ts: Seq<TokenModel>, i: int, st: EvalState)
    requires
        0 <= i <= ts.len(),
        eval_from(ts, i, st) is Ok,
        i <= evaluated_prefix(ts),
        st.history.len() == pushes_in_statement(ts, i),
    ensures
        eval_from(ts, i, st)->Ok_0.1.history.len() == pushes_in_statement(
            ts,
            evaluated_prefix(ts),
        ),
    decreases ts.len() - i,
{
    if i == ts.len() || (ts[i].0 == TokenType::EndOfExpression && i == ts.len() - 1) {
    } else {
        law_step_history(ts, i, st);
        let next = eval_step(ts, i, st)->Ok_0;
        assert(next.history.len() == pushes_in_statement(ts, i + 1));
        lemma_history_length(ts, i + 1, next);
    }
}

/// After a successful evaluation, the history holds one value for each
/// number, operator, function call and variable reference of the last
/// statement, the `;` before it having emptied it.
pub proof fn law_history_length(ts: Seq<TokenModel>)
    requires
        evaluate_postfix(ts) is Ok,
    ensures
        evaluate_postfix(ts)->Ok_0.1.history.len() == pushes_in_statement(
            ts,
            evaluated_prefix(ts),
        ),
{
    lemma_history_length(ts, 0, empty_state());
}

/// The variable table is never reset: a name in the table at any point of
/// a successful evaluation is still in it at the end.
pub proof fn law_variables_persist(ts: Seq<TokenModel>, i: int, st: EvalState, name: Seq<char>)
    requires
        0 <= i <= ts.len(),
        eval_from(ts, i, st) is Ok,
        has_var(st.vars, name),
    ensures
        has_var(eval_from(ts, i, st)->Ok_0.1.vars, name),
    decreases ts.len() - i,
{
    if i == ts.len() || (ts[i].0 == TokenType::EndOfExpression && i == ts.len() - 1) {
    } else {
        law_step_keeps_variables(ts, i, st, name);
        law_variables_persist(ts, i + 1, eval_step(ts, i, st)->Ok_0, name);
    }
}

/// The state after evaluating the first `k` tokens of `ts` from a fresh
/// state.
pub open spec fn state_before(ts: Seq<TokenModel>, k: int) -> Result<EvalState, ErrorType>
    decreases k,
{
    if k <= 0 {
        Ok(empty_state())
    } else {
        match state_before(ts, k - 1) {
            Ok(st) => eval_step(ts, k - 1, st),
            Err(e) => Err(e),
        }
    }
}

/// No `;` stands among the tokens of `ts` in `[j, k)`.
pub open spec fn in_statement(ts: Seq<TokenModel>, j: int, k: int) -> bool {
    forall|m: int| j <= m < k ==> ts[m].0 != TokenType::EndOfExpression
}

proof fn lemma_run(ts: Seq<TokenModel>, k: int)
    requires
        evaluate_postfix(ts) is Ok,
        0 <= k <= evaluated_prefix(ts),
    ensures
        state_before(ts, k) is Ok,
        eval_from(ts, k, state_before(ts, k)->Ok_0) == evaluate_postfix(ts),
    decreases k,
{
    if k > 0 {
        lemma_run(ts, k - 1);
    }
}

proof fn lemma_final_state(ts: Seq<TokenModel>)
    requires
        evaluate_postfix(ts) is Ok,
    ensures
        state_before(ts, evaluated_prefix(ts)) is Ok,
        evaluate_postfix(ts)->Ok_0.1 == state_before(ts, evaluated_prefix(ts))->Ok_0,
{
    lemma_run(ts, evaluated_prefix(ts));
}

proof fn lemma_state_history_length(ts: Seq<TokenModel>, k: int)
    requires
        0 <= k <= ts.len(),
        state_before(ts, k) is Ok,
    ensures
        state_before(ts, k)->Ok_0.history.len() == pushes_in_statement(ts, k),
    decreases k,
{
    if k > 0 {
        lemma_state_history_length(ts, k - 1);
        law_step_history(ts, k - 1, state_before(ts, k - 1)->Ok_0);
    }
}

proof fn lemma_history_entry(ts: Seq<TokenModel>, j: int, k: int)
    requires
        0 <= j < k <= ts.len(),
        state_before(ts, k) is Ok,
        pushes_value(ts[j].0),
        in_statement(ts, j, k),
    ensures
        state_before(ts, j + 1) is Ok,
        pushes_in_statement(ts, j) < pushes_in_statement(ts, k),
        state_before(ts, k)->Ok_0.history[pushes_in_statement(ts, j) as int] == state_before(
            ts,
            j + 1,
        )->Ok_0.stack.last(),
    decreases k,
{
    lemma_state_history_length(ts, k - 1);
    law_step_history(ts, k - 1, state_before(ts, k - 1)->Ok_0);
    if k > j + 1 {
        lemma_history_entry(ts, j, k - 1);
    }
}

/// After a successful evaluation, the history holds exactly the values
/// pushed by the last statement, in push order: one per number, operator,
/// function call and variable reference of that statement, and the one of
/// the value-pushing token at index `j` is the value that token left on top
/// of the stack.
pub proof fn law_history_contents(ts: Seq<TokenModel>, j: int)
    requires
        evaluate_postfix(ts) is Ok,
        0 <= j < evaluated_prefix(ts),
        pushes_value(ts[j].0),
        in_statement(ts, j, evaluated_prefix(ts)),
    ensures
        ({
            let history = evaluate_postfix(ts)->Ok_0.1.history;
            &&& history.len() == pushes_in_statement(ts, evaluated_prefix(ts))
            &&& state_before(ts, j + 1) is Ok
            &&& pushes_in_statement(ts, j) < history.len()
            &&& history[pushes_in_statement(ts, j) as int] == state_before(ts, j + 1)->Ok_0.stack.last()
        }),
{
    lemma_final_state(ts);
    lemma_state_history_length(ts, evaluated_prefix(ts));
    lemma_history_entry(ts, j, evaluated_prefix(ts));
}

proof fn lemma_assign_unique(vars: Seq<(Seq<char>, i64)>, name: Seq<char>, v: i64)
    requires
        unique_names(vars),
    ensures
        unique_names(assign(vars, name, v)),
{
    let w = assign(vars, name, v);
    if has_var(vars, name) {
        assert forall|a: int, b: int| 0 <= a < b < w.len() implies w[a].0 != w[b].0 by {
            assert(w[a].0 == vars[a].0 && w[b].0 == vars[b].0);
        }
    } else {
        assert forall|a: int, b: int| 0 <= a < b < w.len() implies w[a].0 != w[b].0 by {
            if b == vars.len() {
                assert(vars[a].0 != name);
            }
        }
    }
}

proof fn lemma_unique_names(ts: Seq<TokenModel>, k: int)
    requires
        0 <= k <= ts.len(),
        state_before(ts, k) is Ok,
    ensures
        unique_names(state_before(ts, k)->Ok_0.vars),
    decreases k,
{
    if k > 0 {
        lemma_unique_names(ts, k - 1);
        let st = state_before(ts, k - 1)->Ok_0;
        if st.stack.len() > 0 {
            lemma_assign_unique(st.vars, ts[k - 1].1, st.stack[st.stack.len() - 1]);
        }
    } else {
        assert(unique_names(empty_state().vars));
    }
}

/// The variable table through an evaluation: its names stay distinct; only
/// an assignment to a value on the stack changes it, overwriting the entry
/// of that name in place or appending a new one; every other token,
/// a `;` included, keeps it as it was.
pub proof fn law_variable_table(ts: Seq<TokenModel>, k: int)
    requires
        0 <= k < ts.len(),
        state_before(ts, k + 1) is Ok,
    ensures
        state_before(ts, k) is Ok,
        ({
            let before = state_before(ts, k)->Ok_0;
            let after = state_before(ts, k + 1)->Ok_0;
            &&& unique_names(after.vars)
            &&& ts[k].0 == TokenType::Name && before.stack.len() > 0 ==> after.vars == assign(
                before.vars,
                ts[k].1,
                before.stack.last(),
            )
            &&& !(ts[k].0 == TokenType::Name && before.stack.len() > 0) ==> after.vars
                == before.vars
        }),
{
    lemma_unique_names(ts, k + 1);
}

/// After a successful evaluation, the variable table is the one reached
/// after the last token evaluated, and its names are distinct.
pub proof fn law_final_variable_table(ts: Seq<TokenModel>)
    requires
        evaluate_postfix(ts) is Ok,
    ensures
        state_before(ts, evaluated_prefix(ts)) is Ok,
        evaluate_postfix(ts)->Ok_0.1.vars == state_before(ts, evaluated_prefix(ts))->Ok_0.vars,
        unique_names(evaluate_postfix(ts)->Ok_0.1.vars),
{
    lemma_final_state(ts);
    lemma_unique_names(ts, evaluated_prefix(ts));
}

/// `t` is a binary operator token for `op`.
pub open spec fn binary_token(t: TokenModel, op: TokenOperator) -> bool {
    t.0 == TokenType::Operator(op) && !op.unary
}

proof fn lemma_shunt_unfold(ts: Seq<TokenModel>, out: Seq<TokenModel>, stack: Seq<TokenModel>)
    requires
        ts.len() > 0,
        shunt_step(ts[0], out, stack) is Ok,
    ensures
        shunt(ts, out, stack) == shunt(
            ts.drop_first(),
            shunt_step(ts[0], out, stack)->Ok_0.0,
            shunt_step(ts[0], out, stack)->Ok_0.1,
        ),
{
}

/// With three number operands `a`, `b`, `c` and binary operators `o1`
/// (for `op1`) and `o2` (for `op2`) where `op1` does not bind before `op2`,
/// `a o1 b o2 c` and `a o1 (b o2 c)` have the same postfix sequence, and so
/// the same value.
pub proof fn law_parentheses_on_right(
    a: TokenModel,
    o1: TokenModel,
    b: TokenModel,
    o2: TokenModel,
    c: TokenModel,
    lp: TokenModel,
    rp: TokenModel,
    op1: TokenOperator,
    op2: TokenOperator,
)
    requires
        a.0 == TokenType::Number,
        b.0 == TokenType::Number,
        c.0 == TokenType::Number,
        binary_token(o1, op1),
        binary_token(o2, op2),
        lp.0 == TokenType::LeftParenthesis,
        rp.0 == TokenType::RightParenthesis,
        !pops_before(op1, op2),
    ensures
        to_postfix(seq![a, o1, b, o2, c]) == Ok::<Seq<TokenModel>, ErrorType>(seq![a, b, c, o2, o1]),
        to_postfix(seq![a, o1, lp, b, o2, c, rp]) == to_postfix(seq![a, o1, b, o2, c]),
{
    let e: Seq<TokenModel> = seq![];
    assert(e.push(o1) =~= seq![o1]);
    assert(seq![o1].push(o2) =~= seq![o1, o2]);
    assert(seq![o1].push(lp) =~= seq![o1, lp]);
    assert(seq![o1, lp].push(o2) =~= seq![o1, lp, o2]);
    assert(e.push(a) =~= seq![a]);
    assert(seq![a].push(b) =~= seq![a, b]);
    assert(seq![a, b].push(c) =~= seq![a, b, c]);
    assert(seq![a, b, c].push(o2) =~= seq![a, b, c, o2]);
    assert(seq![a, b, c, o2].push(o1) =~= seq![a, b, c, o2, o1]);
    let plain = seq![a, o1, b, o2, c];
    lemma_shunt_unfold(plain, e, e);
    lemma_shunt_unfold(plain.drop_first(), seq![a], e);
    assert(pop_for_binary(op1, seq![a], e) == (seq![a], e));
    lemma_shunt_unfold(plain.drop_first().drop_first(), seq![a], seq![o1]);
    assert(pop_for_binary(op2, seq![a, b], seq![o1]) == (seq![a, b], seq![o1])) by {
        assert(seq![o1].last() == o1);
    }
    assert(shunt_step(o2, seq![a, b], seq![o1]) == Ok::<(Seq<TokenModel>, Seq<TokenModel>), ErrorType>((seq![a, b], seq![o1, o2])));
    lemma_shunt_unfold(plain.drop_first().drop_first().drop_first(), seq![a, b], seq![o1]);
    lemma_shunt_unfold(plain.drop_first().drop_first().drop_first().drop_first(), seq![a, b], seq![o1, o2]);
    assert(plain.drop_first().drop_first().drop_first().drop_first().drop_first() =~= e);
    reveal_with_fuel(drain, 3);
    assert(seq![o1, o2].drop_last() =~= seq![o1]);
    assert(seq![o1].drop_last() =~= e);
    assert(drain(seq![a, b, c], seq![o1, o2]) == Ok::<Seq<TokenModel>, ErrorType>(seq![a, b, c, o2, o1]));
    assert(to_postfix(plain) == Ok::<Seq<TokenModel>, ErrorType>(seq![a, b, c, o2, o1]));

    let grouped = seq![a, o1, lp, b, o2, c, rp];
    lemma_shunt_unfold(grouped, e, e);
    let g1 = grouped.drop_first();
    lemma_shunt_unfold(g1, seq![a], e);
    let g2 = g1.drop_first();
    lemma_shunt_unfold(g2, seq![a], seq![o1]);
    let g3 = g2.drop_first();
    lemma_shunt_unfold(g3, seq![a], seq![o1, lp]);
    let g4 = g3.drop_first();
    assert(pop_for_binary(op2, seq![a, b], seq![o1, lp]) == (seq![a, b], seq![o1, lp])) by {
        assert(seq![o1, lp].last() == lp);
    }
    lemma_shunt_unfold(g4, seq![a, b], seq![o1, lp]);
    let g5 = g4.drop_first();
    lemma_shunt_unfold(g5, seq![a, b], seq![o1, lp, o2]);
    let g6 = g5.drop_first();
    reveal_with_fuel(close_parenthesis, 2);
    assert(seq![o1, lp, o2].drop_last() =~= seq![o1, lp]);
    assert(seq![o1, lp].drop_last() =~= seq![o1]);
    assert(close_parenthesis(seq![a, b, c], seq![o1, lp, o2]) == Ok::<(Seq<TokenModel>, Seq<TokenModel>), ErrorType>((seq![a, b, c, o2], seq![o1])));
    lemma_shunt_unfold(g6, seq![a, b, c], seq![o1, lp, o2]);
    assert(g6.drop_first() =~= e);
    assert(drain(seq![a, b, c, o2], seq![o1]) == Ok::<Seq<TokenModel>, ErrorType>(seq![a, b, c, o2, o1]));
}

/// With three number operands `a`, `b`, `c` and binary operators `o1`
/// (for `op1`) and `o2` (for `op2`) where `op1` binds before `op2`,
/// `a o1 b o2 c` and `(a o1 b) o2 c` have the same postfix sequence, and so
/// the same value.
pub proof fn law_parentheses_on_left(
    a: TokenModel,
    o1: TokenModel,
    b: TokenModel,
    o2: TokenModel,
    c: TokenModel,
    lp: TokenModel,
    rp: TokenModel,
    op1: TokenOperator,
    op2: TokenOperator,
)
    requires
        a.0 == TokenType::Number,
        b.0 == TokenType::Number,
        c.0 == TokenType::Number,
        binary_token(o1, op1),
        binary_token(o2, op2),
        lp.0 == TokenType::LeftParenthesis,
        rp.0 == TokenType::RightParenthesis,
        pops_before(op1, op2),
    ensures
        to_postfix(seq![a, o1, b, o2, c]) == Ok::<Seq<TokenModel>, ErrorType>(seq![a, b, o1, c, o2]),
        to_postfix(seq![lp, a, o1, b, rp, o2, c]) == to_postfix(seq![a, o1, b, o2, c]),
{
    let e: Seq<TokenModel> = seq![];
    assert(e.push(o1) =~= seq![o1]);
    assert(e.push(o2) =~= seq![o2]);
    assert(e.push(lp) =~= seq![lp]);
    assert(seq![lp].push(o1) =~= seq![lp, o1]);
    assert(seq![lp, o1].drop_last() =~= seq![lp]);
    assert(seq![lp].drop_last() =~= e);
    assert(seq![o1].drop_last() =~= e);
    assert(seq![o2].drop_last() =~= e);
    assert(e.push(a) =~= seq![a]);
    assert(seq![a].push(b) =~= seq![a, b]);
    assert(seq![a, b].push(o1) =~= seq![a, b, o1]);
    assert(seq![a, b, o1].push(c) =~= seq![a, b, o1, c]);
    assert(seq![a, b, o1, c].push(o2) =~= seq![a, b, o1, c, o2]);
    reveal_with_fuel(pop_for_binary, 2);
    reveal_with_fuel(drain, 2);
    reveal_with_fuel(close_parenthesis, 2);

    let plain = seq![a, o1, b, o2, c];
    lemma_shunt_unfold(plain, e, e);
    let rest1 = plain.drop_first();
    lemma_shunt_unfold(rest1, seq![a], e);
    let rest2 = rest1.drop_first();
    lemma_shunt_unfold(rest2, seq![a], seq![o1]);
    let rest3 = rest2.drop_first();
    assert(pop_for_binary(op2, seq![a, b], seq![o1]) == (seq![a, b, o1], e));
    lemma_shunt_unfold(rest3, seq![a, b], seq![o1]);
    let rest4 = rest3.drop_first();
    lemma_shunt_unfold(rest4, seq![a, b, o1], seq![o2]);
    assert(rest4.drop_first() =~= e);
    assert(drain(seq![a, b, o1, c], seq![o2]) == Ok::<Seq<TokenModel>, ErrorType>(seq![a, b, o1, c, o2]));

    let grouped = seq![lp, a, o1, b, rp, o2, c];
    lemma_shunt_unfold(grouped, e, e);
    let g1 = grouped.drop_first();
    lemma_shunt_unfold(g1, e, seq![lp]);
    let g2 = g1.drop_first();
    lemma_shunt_unfold(g2, seq![a], seq![lp]);
    let g3 = g2.drop_first();
    lemma_shunt_unfold(g3, seq![a], seq![lp, o1]);
    let g4 = g3.drop_first();
    assert(close_parenthesis(seq![a, b], seq![lp, o1]) == Ok::<(Seq<TokenModel>, Seq<TokenModel>), ErrorType>((seq![a, b, o1], e)));
    lemma_shunt_unfold(g4, seq![a, b], seq![lp, o1]);
    let g5 = g4.drop_first();
    lemma_shunt_unfold(g5, seq![a, b, o1], e);
    let g6 = g5.drop_first();
    lemma_shunt_unfold(g6, seq![a, b, o1], seq![o2]);
    assert(g6.drop_first() =~= e);
}

} // verus!
