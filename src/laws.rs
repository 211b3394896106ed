//! Properties of the grammar that relate several rules or calls.
use vstd::prelude::*;
use crate::ast::{ExprV, StmtV};
use crate::grammar::{
    spec_arguments, spec_body, spec_expression, spec_function, spec_if, spec_local,
    spec_parameters, spec_parse, spec_program, spec_return, spec_statement, ErrorKind, Step,
};
use crate::token::{is_identifier, is_keyword, is_operand, is_syntax, TokenV};

verus! {

/// `stmts` are parsed one after another from `from`, the k-th starting at
/// `cuts[k]` and ending where the next starts, the last one at `to`.
pub open spec fn tiles(toks: Seq<TokenV>, stmts: Seq<StmtV>, cuts: Seq<int>, from: int, to: int) -> bool {
    &&& cuts.len() == stmts.len() + 1
    &&& cuts[0] == from
    &&& cuts.last() == to
    &&& forall|k: int|
        0 <= k < stmts.len() ==> #[trigger] spec_statement(toks, cuts[k]) == Step::Matched(
            stmts[k],
            cuts[k + 1],
        )
}

/// Parsing is a function of the token values: equal token sequences give
/// equal results, trees or errors.
pub proof fn lemma_parse_deterministic(a: Seq<TokenV>, b: Seq<TokenV>)
    requires
        a == b,
    ensures
        spec_parse(a) == spec_parse(b),
{
}

proof fn lemma_program_tiles(toks: Seq<TokenV>, p: int, acc: Seq<StmtV>, cuts: Seq<int>) -> (all: Seq<
    int,
>)
    requires
        0 <= p <= toks.len(),
        spec_program(toks, p, acc) is Ok,
        tiles(toks, acc, cuts, 0, p),
    ensures
        tiles(toks, spec_program(toks, p, acc)->Ok_0, all, 0, toks.len() as int),
    decreases toks.len() - p,
{
    if p >= toks.len() {
        cuts
    } else {
        match spec_statement(toks, p) {
            Step::Matched(s, q) => {
                let acc2 = acc.push(s);
                let cuts2 = cuts.push(q);
                assert forall|k: int| 0 <= k < acc2.len() implies #[trigger] spec_statement(
                    toks,
                    cuts2[k],
                ) == Step::Matched(acc2[k], cuts2[k + 1]) by {
                    if k < acc.len() {
                        assert(spec_statement(toks, cuts[k]) == Step::Matched(acc[k], cuts[k + 1]));
                    }
                }
                lemma_program_tiles(toks, q, acc2, cuts2)
            },
            _ => cuts,
        }
    }
}

/// A successful parse consumes the whole token sequence: its statements are
/// parsed one after another from the first token, and the last one ends
/// exactly at the end of the sequence.
pub proof fn lemma_total_consumption(toks: Seq<TokenV>)
    requires
        spec_parse(toks) is Ok,
    ensures
        exists|cuts: Seq<int>| tiles(toks, spec_parse(toks)->Ok_0, cuts, 0, toks.len() as int),
{
    let cuts = lemma_program_tiles(toks, 0, seq![], seq![0]);
}

/// Where the k-th parameter of a list that starts at `start` stands.
pub open spec fn parameter_slot(start: int, k: int) -> int {
    start + 2 * k
}

/// Where the comma after the k-th parameter of a list that starts at
/// `start` stands.
pub open spec fn comma_slot(start: int, k: int) -> int {
    start + 2 * k + 1
}

/// The identifiers `ps`, in order and separated by commas, stand from
/// `start` on, and the closing parenthesis at `close` ends the list.
pub open spec fn parameter_list(toks: Seq<TokenV>, start: int, ps: Seq<TokenV>, close: int) -> bool {
    &&& close == close_slot(start, ps.len() as int)
    &&& is_syntax(toks, close, ")"@)
    &&& forall|k: int|
        0 <= k < ps.len() ==> is_identifier(toks, #[trigger] parameter_slot(start, k))
            && toks[parameter_slot(start, k)] == ps[k]
    &&& forall|k: int| 0 <= k < ps.len() - 1 ==> is_syntax(toks, #[trigger] comma_slot(start, k), ","@)
}

proof fn lemma_parameters_shape(toks: Seq<TokenV>, start: int, p: int, acc: Seq<TokenV>)
    requires
        0 <= start,
        spec_parameters(toks, p, acc) is Matched,
        acc.len() == 0 ==> p == start,
        acc.len() > 0 ==> p == start + 2 * acc.len() - 1,
        forall|k: int|
            0 <= k < acc.len() ==> is_identifier(toks, #[trigger] parameter_slot(start, k))
                && toks[parameter_slot(start, k)] == acc[k],
        forall|k: int| 0 <= k < acc.len() - 1 ==> is_syntax(toks, #[trigger] comma_slot(start, k), ","@),
    ensures
        parameter_list(
            toks,
            start,
            spec_parameters(toks, p, acc)->Matched_0,
            spec_parameters(toks, p, acc)->Matched_1 - 1,
        ),
    decreases toks.len() - p,
{
    if is_syntax(toks, p, ")"@) {
    } else {
        let q = if acc.len() > 0 { p + 1 } else { p };
        let acc2 = acc.push(toks[q]);
        assert(q == parameter_slot(start, acc.len() as int));
        assert forall|k: int| 0 <= k < acc2.len() implies is_identifier(
            toks,
            #[trigger] parameter_slot(start, k),
        ) && toks[parameter_slot(start, k)] == acc2[k] by {}
        assert forall|k: int| 0 <= k < acc2.len() - 1 implies is_syntax(
            toks,
            #[trigger] comma_slot(start, k),
            ","@,
        ) by {
            if k == acc.len() - 1 {
                assert(comma_slot(start, k) == p);
            }
        }
        lemma_parameters_shape(toks, start, q + 1, acc2);
    }
}

proof fn lemma_body_tiles(
    toks: Seq<TokenV>,
    p: int,
    acc: Seq<StmtV>,
    cuts: Seq<int>,
    from: int,
    in_function: bool,
) -> (all: Seq<int>)
    requires
        0 <= p <= toks.len(),
        spec_body(toks, p, acc, in_function) is Matched,
        tiles(toks, acc, cuts, from, p),
    ensures
        ({
            let (b, j) = (
                spec_body(toks, p, acc, in_function)->Matched_0,
                spec_body(toks, p, acc, in_function)->Matched_1,
            );
            is_keyword(toks, j - 1, "end"@) && tiles(toks, b, all, from, j - 1)
        }),
    decreases toks.len() - p,
{
    if is_keyword(toks, p, "end"@) {
        cuts
    } else {
        match spec_statement(toks, p) {
            Step::Matched(s, q) => {
                let acc2 = acc.push(s);
                let cuts2 = cuts.push(q);
                assert forall|k: int| 0 <= k < acc2.len() implies #[trigger] spec_statement(
                    toks,
                    cuts2[k],
                ) == Step::Matched(acc2[k], cuts2[k + 1]) by {
                    if k < acc.len() {
                        assert(spec_statement(toks, cuts[k]) == Step::Matched(acc[k], cuts[k + 1]));
                    }
                }
                lemma_body_tiles(toks, q, acc2, cuts2, from, in_function)
            },
            _ => cuts,
        }
    }
}

/// Where the closing parenthesis of a list of `n` parameters that starts
/// at `start` stands.
pub open spec fn close_slot(start: int, n: int) -> int {
    if n == 0 {
        start
    } else {
        start + 2 * n - 1
    }
}

/// A program that parses to one function declaration has that declaration's
/// name after `function`, its parameters in source order at every other
/// position from the open parenthesis on (so as many as the source lists),
/// and its body statements parsed one after another, in source order, from
/// after the closing parenthesis to the final `end`.
pub proof fn lemma_function_shape(toks: Seq<TokenV>)
    requires
        spec_parse(toks) is Ok,
        spec_parse(toks)->Ok_0.len() == 1,
        spec_parse(toks)->Ok_0[0] is Function,
    ensures
        ({
            let d = spec_parse(toks)->Ok_0[0];
            let close = close_slot(3, d->Function_parameters.len() as int);
            &&& is_keyword(toks, 0, "function"@)
            &&& toks[1] == d->Function_name
            &&& is_syntax(toks, 2, "("@)
            &&& parameter_list(toks, 3, d->Function_parameters, close)
            &&& is_keyword(toks, toks.len() - 1, "end"@)
            &&& exists|cuts: Seq<int>|
                #[trigger] tiles(toks, d->Function_body, cuts, close + 1, toks.len() - 1)
        }),
{
    let stmts = spec_parse(toks)->Ok_0;
    let cuts = lemma_program_tiles(toks, 0, seq![], seq![0]);
    assert(spec_statement(toks, cuts[0]) == Step::Matched(stmts[0], cuts[1]));
    let d = stmts[0];
    assert(spec_function(toks, 0) == Step::Matched(d, toks.len() as int));
    lemma_parameters_shape(toks, 3, 3, seq![]);
    let j = spec_parameters(toks, 3, seq![])->Matched_1;
    assert(d->Function_parameters == spec_parameters(toks, 3, seq![])->Matched_0);
    assert(j - 1 == close_slot(3, d->Function_parameters.len() as int));
    let all = lemma_body_tiles(toks, j, seq![], seq![j], j, true);
    assert(d->Function_body == spec_body(toks, j, seq![], true)->Matched_0);
    let close = close_slot(3, d->Function_parameters.len() as int);
    assert(tiles(toks, d->Function_body, all, close + 1, toks.len() - 1));
}

/// `r` matched, ending strictly after `i` and no later than `len`.
pub open spec fn progresses<T>(r: Step<T>, i: int, len: int) -> bool {
    r matches Step::Matched(_, j) ==> i < j <= len
}

/// An expression that parses ends strictly after where it starts, and
/// within the tokens.
pub proof fn lemma_expression_progress(toks: Seq<TokenV>, i: int)
    ensures
        progresses(spec_expression(toks, i), i, toks.len() as int),
    decreases toks.len() - i, 1int,
{
    if is_operand(toks, i) && is_syntax(toks, i + 1, "("@) {
        lemma_arguments_progress(toks, i + 2, seq![]);
    }
}

proof fn lemma_arguments_progress(toks: Seq<TokenV>, p: int, acc: Seq<ExprV>)
    requires
        0 <= p <= toks.len(),
    ensures
        progresses(spec_arguments(toks, p, acc), p, toks.len() as int),
    decreases toks.len() - p, 2int,
{
    if is_syntax(toks, p, ")"@) {
    } else if acc.len() > 0 && !is_syntax(toks, p, ","@) {
    } else {
        let q = if acc.len() > 0 { p + 1 } else { p };
        if 0 <= q < toks.len() {
            lemma_expression_progress(toks, q);
            if let Step::Matched(e, r) = spec_expression(toks, q) {
                lemma_arguments_progress(toks, r, acc.push(e));
            }
        }
    }
}

proof fn lemma_parameters_progress(toks: Seq<TokenV>, p: int, acc: Seq<TokenV>)
    requires
        0 <= p <= toks.len(),
    ensures
        progresses(spec_parameters(toks, p, acc), p, toks.len() as int),
    decreases toks.len() - p,
{
    if is_syntax(toks, p, ")"@) {
    } else if acc.len() > 0 && !is_syntax(toks, p, ","@) {
    } else {
        let q = if acc.len() > 0 { p + 1 } else { p };
        if is_identifier(toks, q) {
            lemma_parameters_progress(toks, q + 1, acc.push(toks[q]));
        }
    }
}

proof fn lemma_body_progress(toks: Seq<TokenV>, p: int, acc: Seq<StmtV>, in_function: bool)
    requires
        0 <= p <= toks.len(),
    ensures
        progresses(spec_body(toks, p, acc, in_function), p, toks.len() as int),
    decreases toks.len() - p, 6int,
{
    if !is_keyword(toks, p, "end"@) {
        lemma_statement_progress(toks, p);
        if let Step::Matched(s, q) = spec_statement(toks, p) {
            lemma_body_progress(toks, q, acc.push(s), in_function);
        }
    }
}

proof fn lemma_if_progress(toks: Seq<TokenV>, i: int)
    requires
        0 <= i <= toks.len(),
    ensures
        progresses(spec_if(toks, i), i, toks.len() as int),
    decreases toks.len() - i, 4int,
{
    if is_keyword(toks, i, "if"@) {
        lemma_expression_progress(toks, i + 1);
        if let Step::Matched(e, j) = spec_expression(toks, i + 1) {
            if is_keyword(toks, j, "then"@) && j > i {
                lemma_body_progress(toks, j + 1, seq![], false);
            }
        }
    }
}

proof fn lemma_function_progress(toks: Seq<TokenV>, i: int)
    requires
        0 <= i <= toks.len(),
    ensures
        progresses(spec_function(toks, i), i, toks.len() as int),
    decreases toks.len() - i, 4int,
{
    if is_keyword(toks, i, "function"@) && is_identifier(toks, i + 1) && is_syntax(
        toks,
        i + 2,
        "("@,
    ) {
        lemma_parameters_progress(toks, i + 3, seq![]);
        if let Step::Matched(ps, j) = spec_parameters(toks, i + 3, seq![]) {
            lemma_body_progress(toks, j, seq![], true);
        }
    }
}

/// A statement that parses ends strictly after where it starts, and within
/// the tokens.
pub proof fn lemma_statement_progress(toks: Seq<TokenV>, i: int)
    requires
        0 <= i <= toks.len(),
    ensures
        progresses(spec_statement(toks, i), i, toks.len() as int),
    decreases toks.len() - i, 5int,
{
    lemma_if_progress(toks, i);
    lemma_expression_progress(toks, i);
    if i + 1 <= toks.len() {
        lemma_expression_progress(toks, i + 1);
    }
    if i + 2 <= toks.len() {
        lemma_expression_progress(toks, i + 2);
    }
    lemma_function_progress(toks, i);
}

proof fn lemma_program_prefix(toks: Seq<TokenV>, stmts: Seq<StmtV>, cuts: Seq<int>, p: int, i: int)
    requires
        tiles(toks, stmts, cuts, 0, p),
        0 <= i <= stmts.len(),
        0 <= cuts[i] <= toks.len(),
        spec_parse(toks) == spec_program(toks, cuts[i], stmts.take(i)),
    ensures
        spec_parse(toks) == spec_program(toks, p, stmts),
    decreases stmts.len() - i,
{
    if i == stmts.len() {
        assert(stmts.take(i) =~= stmts);
    } else {
        assert(spec_statement(toks, cuts[i]) == Step::Matched(stmts[i], cuts[i + 1]));
        lemma_statement_progress(toks, cuts[i]);
        assert(stmts.take(i).push(stmts[i]) =~= stmts.take(i + 1));
        lemma_program_prefix(toks, stmts, cuts, p, i + 1);
    }
}

/// No recovery: where the statements parsed so far end at a token at which
/// the next statement is malformed, the whole parse fails with that
/// statement's error and position.
pub proof fn lemma_failure_aborts_parse(toks: Seq<TokenV>, stmts: Seq<StmtV>, cuts: Seq<int>, p: int)
    requires
        tiles(toks, stmts, cuts, 0, p),
        0 <= p < toks.len(),
        spec_statement(toks, p) is Failed,
    ensures
        spec_parse(toks) == Err::<Seq<StmtV>, (int, ErrorKind)>(
            (spec_statement(toks, p)->Failed_0, spec_statement(toks, p)->Failed_1),
        ),
{
    assert(stmts.take(0) =~= seq![]);
    lemma_program_prefix(toks, stmts, cuts, p, 0);
}

/// In a call's argument list, after at least one argument, a token that is
/// neither `)` nor `,`, or the end of the tokens, is where the call fails:
/// a comma was expected there.
pub proof fn lemma_missing_comma(toks: Seq<TokenV>, p: int, acc: Seq<ExprV>)
    requires
        acc.len() > 0,
        !is_syntax(toks, p, ")"@),
        !is_syntax(toks, p, ","@),
    ensures
        spec_arguments(toks, p, acc) == Step::<Seq<ExprV>>::Failed(p, ErrorKind::CommaBetweenArguments),
{
}

/// A call whose argument list fails fails with the same error.
pub proof fn lemma_call_failure_propagates(toks: Seq<TokenV>, i: int)
    requires
        is_operand(toks, i),
        is_syntax(toks, i + 1, "("@),
        spec_arguments(toks, i + 2, seq![]) is Failed,
    ensures
        spec_expression(toks, i) == Step::<ExprV>::Failed(
            spec_arguments(toks, i + 2, seq![])->Failed_0,
            spec_arguments(toks, i + 2, seq![])->Failed_1,
        ),
{
}

/// An expression statement whose expression fails fails with the same
/// error: the statement rules tried after it do not get the tokens.
pub proof fn lemma_expression_failure_propagates(toks: Seq<TokenV>, i: int)
    requires
        is_operand(toks, i),
        spec_expression(toks, i) is Failed,
    ensures
        spec_statement(toks, i) == Step::<StmtV>::Failed(
            spec_expression(toks, i)->Failed_0,
            spec_expression(toks, i)->Failed_1,
        ),
{
}

proof fn lemma_parameters_from_list(toks: Seq<TokenV>, start: int, ps: Seq<TokenV>, n: int)
    requires
        0 <= start,
        parameter_list(toks, start, ps, close_slot(start, ps.len() as int)),
        0 <= n <= ps.len(),
    ensures
        spec_parameters(toks, close_slot(start, n), ps.take(n)) == Step::Matched(
            ps,
            close_slot(start, ps.len() as int) + 1,
        ),
    decreases ps.len() - n,
{
    reveal_strlit(",");
    reveal_strlit(")");
    let p = close_slot(start, n);
    if n == ps.len() {
        assert(ps.take(n) =~= ps);
    } else {
        let q = parameter_slot(start, n);
        assert(is_identifier(toks, q) && toks[q] == ps[n]);
        if n > 0 {
            assert(p == comma_slot(start, n - 1));
            assert(is_syntax(toks, p, ","@));
            assert(","@[0] != ")"@[0]);
        }
        assert(ps.take(n).push(toks[q]) =~= ps.take(n + 1));
        lemma_parameters_from_list(toks, start, ps, n + 1);
    }
}

proof fn lemma_end_starts_no_statement(toks: Seq<TokenV>, p: int)
    requires
        is_keyword(toks, p, "end"@),
    ensures
        spec_statement(toks, p) is NoMatch,
{
    reveal_strlit("end");
    reveal_strlit("if");
    reveal_strlit("return");
    reveal_strlit("function");
    reveal_strlit("local");
    assert("end"@.len() != "if"@.len());
    assert("end"@.len() != "return"@.len());
    assert("end"@.len() != "function"@.len());
    assert("end"@.len() != "local"@.len());
    assert(spec_if(toks, p) is NoMatch);
    assert(spec_return(toks, p) is NoMatch);
    assert(spec_function(toks, p) is NoMatch);
    assert(spec_local(toks, p) is NoMatch);
}

proof fn lemma_body_from_tiles(
    toks: Seq<TokenV>,
    body: Seq<StmtV>,
    cuts: Seq<int>,
    from: int,
    e: int,
    in_function: bool,
    k: int,
)
    requires
        tiles(toks, body, cuts, from, e),
        is_keyword(toks, e, "end"@),
        0 <= k <= body.len(),
        0 <= cuts[k] <= toks.len(),
    ensures
        spec_body(toks, cuts[k], body.take(k), in_function) == Step::Matched(body, e + 1),
    decreases body.len() - k,
{
    if k == body.len() {
        assert(body.take(k) =~= body);
    } else {
        assert(spec_statement(toks, cuts[k]) == Step::Matched(body[k], cuts[k + 1]));
        if is_keyword(toks, cuts[k], "end"@) {
            lemma_end_starts_no_statement(toks, cuts[k]);
        }
        lemma_statement_progress(toks, cuts[k]);
        assert(body.take(k).push(body[k]) =~= body.take(k + 1));
        lemma_body_from_tiles(toks, body, cuts, from, e, in_function, k + 1);
    }
}

/// Where `function`, a name, `(`, the identifiers `ps` separated by commas,
/// `)`, statements `body` parsed one after another, and `end` follow each
/// other from `i` on, the function rule gives the declaration of that name
/// with exactly the parameters `ps` and the statements `body`, in source
/// order, and ends after the `end`.
pub proof fn lemma_function_from_parts(
    toks: Seq<TokenV>,
    i: int,
    ps: Seq<TokenV>,
    body: Seq<StmtV>,
    cuts: Seq<int>,
    e: int,
)
    requires
        0 <= i,
        is_keyword(toks, i, "function"@),
        is_identifier(toks, i + 1),
        is_syntax(toks, i + 2, "("@),
        parameter_list(toks, i + 3, ps, close_slot(i + 3, ps.len() as int)),
        tiles(toks, body, cuts, close_slot(i + 3, ps.len() as int) + 1, e),
        is_keyword(toks, e, "end"@),
    ensures
        spec_function(toks, i) == Step::Matched(
            StmtV::Function { name: toks[i + 1], parameters: ps, body },
            e + 1,
        ),
{
    let close = close_slot(i + 3, ps.len() as int);
    assert(ps.take(0) =~= seq![]);
    lemma_parameters_from_list(toks, i + 3, ps, 0);
    assert(body.take(0) =~= seq![]);
    lemma_body_from_tiles(toks, body, cuts, close + 1, e, true, 0);
}

/// A program made of one function declaration laid out as above, up to its
/// final `end`, parses to exactly that one declaration: its parameter list
/// is `ps` and its body is `body`, both in source order.
pub proof fn lemma_parse_single_function(toks: Seq<TokenV>, ps: Seq<TokenV>, body: Seq<StmtV>, cuts: Seq<int>)
    requires
        is_keyword(toks, 0, "function"@),
        is_identifier(toks, 1),
        is_syntax(toks, 2, "("@),
        parameter_list(toks, 3, ps, close_slot(3, ps.len() as int)),
        tiles(toks, body, cuts, close_slot(3, ps.len() as int) + 1, toks.len() - 1),
        is_keyword(toks, toks.len() - 1, "end"@),
    ensures
        spec_parse(toks) == Ok::<Seq<StmtV>, (int, ErrorKind)>(
            seq![StmtV::Function { name: toks[1], parameters: ps, body }],
        ),
{
    reveal_strlit("function");
    reveal_strlit("if");
    reveal_strlit("return");
    lemma_function_from_parts(toks, 0, ps, body, cuts, toks.len() - 1);
    assert("function"@.len() != "if"@.len());
    assert("function"@.len() != "return"@.len());
    assert(spec_if(toks, 0) is NoMatch);
    assert(spec_return(toks, 0) is NoMatch);
    let d = StmtV::Function { name: toks[1], parameters: ps, body };
    assert(spec_statement(toks, 0) == Step::Matched(d, toks.len() as int));
    assert(seq![].push(d) =~= seq![d]);
    assert(spec_program(toks, toks.len() as int, seq![d]) == Ok::<Seq<StmtV>, (int, ErrorKind)>(
        seq![d],
    ));
    assert(spec_program(toks, 0, seq![]) == spec_program(toks, toks.len() as int, seq![].push(d)));
}

} // verus!
