//! The plan builder: classified tokens become an ordered list of operations,
//! and a plan is executed into one output string.

use crate::accumulator::TemplateAccumulator;
use crate::classify::{classify, ValueKind};
use crate::errors::Error;
use crate::parser::{parse_template, tokens_of, unterminated_message};
use crate::renderable::Renderable;
use crate::shape::{block_yields, BlockShape};
use crate::syntax::{parse_fragment, refuses};
use crate::template::{segments_of, Segment, TemplateData};
use crate::text::{concat_all, views_of};
use vstd::prelude::*;
use vstd::string::*;

verus! {

/// The mathematical value of an operation.
pub enum Step {
    /// Append this text to the output.
    Literal(Seq<char>),
    /// Run this code for its effect; it adds nothing to the output.
    Statement(Seq<char>),
    /// Evaluate this code and append the string form of its value.
    Expression(Seq<char>),
}

/// One operation of a plan.
#[derive(Debug, Clone, PartialEq, Eq)]
pub enum Operation {
    /// Append the text to the output.
    EmitLiteral(String),
    /// Run the code for its effect.
    ExecuteStatement(String),
    /// Evaluate the code and append the string form of its value.
    EmitExpression(String),
}

impl View for Operation {
    type V = Step;

    open spec fn view(&self) -> Step {
        match self {
            Operation::EmitLiteral(text) => Step::Literal(text@),
            Operation::ExecuteStatement(code) => Step::Statement(code@),
            Operation::EmitExpression(code) => Step::Expression(code@),
        }
    }
}

/// The views of a vector of operations, in order.
pub open spec fn steps_of(plan: Seq<Operation>) -> Seq<Step> {
    plan.map_values(|op: Operation| op@)
}

/// The operation for the code fragment `code` whose parsed form is `block`:
/// none for an empty block, an expression where the block yields a value,
/// a statement where it does not.
pub open spec fn fragment_step(code: Seq<char>, block: BlockShape) -> Option<Step> {
    if block.stmts.len() == 0 {
        None
    } else if block_yields(block) {
        Some(Step::Expression(code))
    } else {
        Some(Step::Statement(code))
    }
}

/// The plan for a token sequence, where `parsed` holds for each code token
/// its parsed form, or `None` where the host grammar refused it; or the index
/// of the first code token that was refused.
///
/// The operations stand in the order of the tokens: a literal for each text
/// token, and for each code token the operation of its parsed form, if any.
/// What `parsed` holds at the place of a text token is not read.
pub open spec fn plan_with(tokens: Seq<Segment>, parsed: Seq<Option<BlockShape>>) -> Result<
    Seq<Step>,
    int,
>
    decreases tokens.len(),
{
    if tokens.len() == 0 {
        Ok(Seq::empty())
    } else {
        match plan_with(tokens.drop_last(), parsed) {
            Err(index) => Err(index),
            Ok(steps) => match tokens.last() {
                Segment::Text(text) => Ok(steps.push(Step::Literal(text))),
                Segment::Code(code) => match parsed[tokens.len() - 1] {
                    None => Err(tokens.len() - 1),
                    Some(block) => match fragment_step(code, block) {
                        Some(step) => Ok(steps.push(step)),
                        None => Ok(steps),
                    },
                },
            },
        }
    }
}

/// Whether `r` is what building the plan of `tokens` returns where the host
/// grammar gave `parsed`: the plan, or a syntax error that names the first
/// fragment that was refused.
pub open spec fn compiled(
    tokens: Seq<Segment>,
    parsed: Seq<Option<BlockShape>>,
    r: Result<Vec<Operation>, Error>,
) -> bool {
    match plan_with(tokens, parsed) {
        Ok(steps) => r matches Ok(plan) && steps_of(plan@) == steps,
        Err(index) => {
            &&& 0 <= index < tokens.len()
            &&& r matches Err(Error::InvalidSyntax(msg))
            &&& refuses(msg@, tokens[index].text())
        },
    }
}

/// Whether `r` is what building the plan of `tokens` returns for some answer
/// of the host grammar to each of its code tokens.
pub open spec fn compiles(tokens: Seq<Segment>, r: Result<Vec<Operation>, Error>) -> bool {
    exists|parsed: Seq<Option<BlockShape>>|
        parsed.len() == tokens.len() && #[trigger] compiled(tokens, parsed, r)
}

/// Whether every token of `tokens` is literal text.
pub open spec fn all_text(tokens: Seq<Segment>) -> bool {
    forall|i: int| 0 <= i < tokens.len() ==> #[trigger] tokens[i] is Text
}

/// One literal for each token, in order.
pub open spec fn literals_of(tokens: Seq<Segment>) -> Seq<Step> {
    tokens.map_values(|g: Segment| Step::Literal(g.text()))
}

/// The operation for one parsed code fragment.
pub fn operation_for(code: &str, block: &BlockShape) -> (r: Option<Operation>)
    ensures
        match fragment_step(code@, *block) {
            Some(step) => r matches Some(op) && op@ == step,
            None => r is None,
        },
{
    if block.stmts.len() == 0 {
        return None;
    }
    match classify(block) {
        ValueKind::ProducesValue => Some(Operation::EmitExpression(String::from_str(code))),
        ValueKind::NoValue => Some(Operation::ExecuteStatement(String::from_str(code))),
    }
}

/// Once a code token has been refused, the plan of every longer token
/// sequence fails at that same token.
pub proof fn lemma_plan_error_stays(
    tokens: Seq<Segment>,
    parsed: Seq<Option<BlockShape>>,
    n: int,
)
    requires
        0 <= n <= tokens.len(),
        plan_with(tokens.take(n), parsed) is Err,
    ensures
        plan_with(tokens, parsed) == plan_with(tokens.take(n), parsed),
    decreases tokens.len() - n,
{
    if n == tokens.len() {
        assert(tokens.take(n) =~= tokens);
    } else {
        assert(tokens.take(n + 1).drop_last() =~= tokens.take(n));
        lemma_plan_error_stays(tokens, parsed, n + 1);
    }
}

/// A token sequence has a plan exactly where none of its code tokens was
/// refused; where one was, the plan fails at the first of them.
pub proof fn lemma_plan_fails_at_first_refusal(
    tokens: Seq<Segment>,
    parsed: Seq<Option<BlockShape>>,
)
    ensures
        match plan_with(tokens, parsed) {
            Ok(_) => forall|i: int|
                0 <= i < tokens.len() && #[trigger] tokens[i] is Code ==> parsed[i] is Some,
            Err(index) => {
                &&& 0 <= index < tokens.len()
                &&& tokens[index] is Code
                &&& parsed[index] is None
                &&& forall|i: int|
                    0 <= i < index && #[trigger] tokens[i] is Code ==> parsed[i] is Some
            },
        },
    decreases tokens.len(),
{
    if tokens.len() > 0 {
        lemma_plan_fails_at_first_refusal(tokens.drop_last(), parsed);
        assert forall|i: int| 0 <= i < tokens.len() - 1 implies tokens.drop_last()[i]
            == tokens[i] by {}
    }
}

/// Where every token is literal text the host grammar is never asked: the
/// plan is one literal for each token, whatever `parsed` holds.
pub proof fn lemma_plan_of_literals(tokens: Seq<Segment>, parsed: Seq<Option<BlockShape>>)
    requires
        all_text(tokens),
    ensures
        plan_with(tokens, parsed) == Ok::<Seq<Step>, int>(literals_of(tokens)),
    decreases tokens.len(),
{
    if tokens.len() == 0 {
        assert(literals_of(tokens) =~= Seq::<Step>::empty());
    } else {
        let front = tokens.drop_last();
        assert forall|i: int| 0 <= i < front.len() implies #[trigger] front[i] is Text by {
            assert(front[i] == tokens[i]);
        }
        lemma_plan_of_literals(front, parsed);
        assert(tokens.last() == tokens[tokens.len() - 1]);
        assert(literals_of(tokens) =~= literals_of(front).push(
            Step::Literal(tokens.last().text()),
        ));
    }
}

/// Builds the plan for a token sequence from what the host grammar gave for
/// each token: `parsed` holds, at the place of each code token, its parsed
/// form, or `None` where it was refused. The plan is in source order. It
/// fails, with no plan at all, with the index of the first code token that
/// was refused.
pub fn plan_from(tmp: &Vec<TemplateData>, parsed: &Vec<Option<BlockShape>>) -> (r: Result<
    Vec<Operation>,
    usize,
>)
    requires
        parsed@.len() == tmp@.len(),
    ensures
        match plan_with(segments_of(tmp@), parsed@) {
            Ok(steps) => r matches Ok(plan) && steps_of(plan@) == steps,
            Err(index) => r == Err::<Vec<Operation>, usize>(index as usize) && 0 <= index
                < tmp.len(),
        },
{
    let ghost tokens = segments_of(tmp@);
    let mut plan: Vec<Operation> = Vec::with_capacity(tmp.len());
    let mut i: usize = 0;
    assert(tokens.take(0) =~= Seq::<Segment>::empty());
    assert(steps_of(plan@) =~= Seq::<Step>::empty());
    while i < tmp.len()
        invariant
            i <= tmp.len(),
            parsed@.len() == tmp@.len(),
            tokens == segments_of(tmp@),
            plan_with(tokens.take(i as int), parsed@) == Ok::<Seq<Step>, int>(steps_of(plan@)),
        decreases tmp.len() - i,
    {
        let ghost before = steps_of(plan@);
        assert(tokens.take(i + 1).drop_last() =~= tokens.take(i as int));
        assert(tokens.take(i + 1).last() == tmp@[i as int]@);
        match &tmp[i] {
            TemplateData::String(text) => {
                plan.push(Operation::EmitLiteral(text.clone()));
                assert(steps_of(plan@) =~= before.push(Step::Literal(text@)));
            },
            TemplateData::Code(code) => {
                match &parsed[i] {
                    Some(block) => {
                        match operation_for(code.as_str(), block) {
                            Some(op) => {
                                plan.push(op);
                                assert(steps_of(plan@) =~= before.push(op@));
                            },
                            None => {},
                        }
                    },
                    None => {
                        proof {
                            assert(plan_with(tokens.take(i + 1), parsed@) == Err::<Seq<Step>, int>(
                                i as int,
                            ));
                            lemma_plan_error_stays(tokens, parsed@, i + 1);
                        }
                        return Err(i);
                    },
                }
            },
        }
        i += 1;
    }
    assert(tokens.take(tmp.len() as int) =~= tokens);
    Ok(plan)
}

/// Builds the plan for a token sequence, in source order. The host grammar
/// is asked for each code token in turn, up to the first that it refuses;
/// the result is what `plan_from` gives for its answers. So it fails, with no
/// plan at all, at the first code fragment that the host grammar refuses,
/// with an error that names that fragment. Where no token is code, the plan
/// is owed: one literal for each token.
pub fn compile_template(tmp: &Vec<TemplateData>) -> (r: Result<Vec<Operation>, Error>)
    ensures
        compiles(segments_of(tmp@), r),
        all_text(segments_of(tmp@)) ==> (r matches Ok(plan) && steps_of(plan@) == literals_of(
            segments_of(tmp@),
        )),
{
    let ghost tokens = segments_of(tmp@);
    let mut parsed: Vec<Option<BlockShape>> = Vec::with_capacity(tmp.len());
    let mut i: usize = 0;
    while i < tmp.len()
        invariant
            i <= tmp.len(),
            parsed@.len() == i,
            tokens == segments_of(tmp@),
            forall|j: int| 0 <= j < i && #[trigger] tokens[j] is Code ==> parsed@[j] is Some,
        decreases tmp.len() - i,
    {
        assert(tokens[i as int] == tmp@[i as int]@);
        match &tmp[i] {
            TemplateData::String(_) => {
                parsed.push(None);
            },
            TemplateData::Code(code) => {
                match parse_fragment(code.as_str()) {
                    Ok(block) => {
                        parsed.push(Some(block));
                    },
                    Err(e) => {
                        proof {
                            let rest = Seq::new(
                                (tmp.len() - i) as nat,
                                |k: int| None::<BlockShape>,
                            );
                            let answers = parsed@ + rest;
                            lemma_plan_fails_at_first_refusal(tokens, answers);
                            assert(tokens[i as int] is Code);
                            assert(answers[i as int] is None);
                            assert(forall|j: int|
                                0 <= j < i ==> answers[j] == #[trigger] parsed@[j]);
                            assert(plan_with(tokens, answers) == Err::<Seq<Step>, int>(i as int));
                            assert(tokens[i as int].text() == code@);
                            assert(compiled(tokens, answers, Err::<Vec<Operation>, Error>(e)));
                        }
                        return Err(e);
                    },
                }
            },
        }
        i += 1;
    }
    proof {
        lemma_plan_fails_at_first_refusal(tokens, parsed@);
        if all_text(tokens) {
            lemma_plan_of_literals(tokens, parsed@);
        }
    }
    match plan_from(tmp, &parsed) {
        Ok(plan) => {
            assert(compiled(tokens, parsed@, Ok::<Vec<Operation>, Error>(plan)));
            Ok(plan)
        },
        Err(_) => vstd::pervasive::unreached(),
    }
}

/// Whether `r` is what building a plan from the source `s` returns:
/// segmentation first, then the plan of the tokens. A source with a fragment
/// that is never closed gives a parse error and no plan.
pub open spec fn builds(s: Seq<char>, r: Result<Vec<Operation>, Error>) -> bool {
    match tokens_of(s) {
        Err(offset) => r matches Err(Error::ParseError(msg)) && msg@ == unterminated_message(
            offset,
        ),
        Ok(tokens) => compiles(tokens, r),
    }
}

/// Builds the plan for a template source. A source that cannot be segmented,
/// or a fragment that cannot be parsed, gives an error and no plan.
pub fn build_plan(source: &str) -> (r: Result<Vec<Operation>, Error>)
    ensures
        builds(source@, r),
{
    match parse_template(source) {
        Ok(tokens) => compile_template(&tokens),
        Err(e) => Err(e),
    }
}

/// How many values a plan asks for: one for each expression.
pub open spec fn expression_count(steps: Seq<Step>) -> nat
    decreases steps.len(),
{
    if steps.len() == 0 {
        0
    } else {
        expression_count(steps.drop_last()) + match steps.last() {
            Step::Expression(_) => 1nat,
            _ => 0nat,
        }
    }
}

/// The fragments that a plan puts out, in order, where `values` holds the
/// string forms of its expressions in the order of the plan: the text of
/// each literal, and for each expression its value. A statement puts out
/// nothing.
pub open spec fn fragments(steps: Seq<Step>, values: Seq<Seq<char>>) -> Seq<Seq<char>>
    decreases steps.len(),
{
    if steps.len() == 0 {
        Seq::empty()
    } else {
        let before = fragments(steps.drop_last(), values);
        match steps.last() {
            Step::Literal(text) => before.push(text),
            Step::Statement(_) => before,
            Step::Expression(_) => before.push(values[expression_count(steps.drop_last()) as int]),
        }
    }
}

/// The output of a plan: its fragments, one after the other. There is none
/// where the number of values is not the number of expressions.
pub open spec fn output(steps: Seq<Step>, values: Seq<Seq<char>>) -> Option<Seq<char>> {
    if expression_count(steps) == values.len() {
        Some(concat_all(fragments(steps, values)))
    } else {
        None
    }
}

/// The message of the error for a plan that is run with too few or too many
/// values.
pub open spec fn value_count_message() -> Seq<char> {
    "The number of values does not match the number of expressions"@
}

/// Whether `r` is what executing the plan `steps` with `values` returns: the
/// output where there is one, and a render error where there is none.
pub open spec fn renders(steps: Seq<Step>, values: Seq<Seq<char>>, r: Result<String, Error>) -> bool {
    match output(steps, values) {
        Some(text) => r matches Ok(s) && s@ == text,
        None => r matches Err(Error::RenderError(msg)) && msg@ == value_count_message(),
    }
}

/// The number of expressions in a plan.
pub fn count_expressions(plan: &Vec<Operation>) -> (n: usize)
    ensures
        n == expression_count(steps_of(plan@)),
{
    let ghost steps = steps_of(plan@);
    let mut n: usize = 0;
    let mut i: usize = 0;
    assert(steps.take(0) =~= Seq::<Step>::empty());
    while i < plan.len()
        invariant
            i <= plan.len(),
            n <= i,
            steps == steps_of(plan@),
            n == expression_count(steps.take(i as int)),
        decreases plan.len() - i,
    {
        assert(steps.take(i + 1).drop_last() =~= steps.take(i as int));
        assert(steps.take(i + 1).last() == plan@[i as int]@);
        match &plan[i] {
            Operation::EmitExpression(_) => {
                n += 1;
            },
            _ => {},
        }
        i += 1;
    }
    assert(steps.take(plan.len() as int) =~= steps);
    n
}

/// Executes a plan. `values` holds the string form of the value of each
/// expression of the plan, in the order of the plan, as the host evaluated
/// them against the bound context. The output is the literals and the values
/// in plan order. A plan run with a wrong number of values fails, and puts
/// out nothing.
pub fn render_plan(plan: &Vec<Operation>, values: &Vec<String>) -> (r: Result<String, Error>)
    ensures
        renders(steps_of(plan@), views_of(values@), r),
{
    if count_expressions(plan) != values.len() {
        return Err(
            Error::RenderError(
                String::from_str("The number of values does not match the number of expressions"),
            ),
        );
    }
    let ghost steps = steps_of(plan@);
    let ghost given = views_of(values@);
    let mut acc = TemplateAccumulator::with_capacity(plan.len());
    let mut used: usize = 0;
    let mut i: usize = 0;
    assert(steps.take(0) =~= Seq::<Step>::empty());
    while i < plan.len()
        invariant
            i <= plan.len(),
            steps == steps_of(plan@),
            given == views_of(values@),
            expression_count(steps) == values.len(),
            used == expression_count(steps.take(i as int)),
            acc@ == fragments(steps.take(i as int), given),
        decreases plan.len() - i,
    {
        assert(steps.take(i + 1).drop_last() =~= steps.take(i as int));
        assert(steps.take(i + 1).last() == plan@[i as int]@);
        proof {
            lemma_expression_count_prefix(steps, i + 1);
        }
        match &plan[i] {
            Operation::EmitLiteral(text) => {
                acc.push(text.as_str());
            },
            Operation::ExecuteStatement(_) => {},
            Operation::EmitExpression(_) => {
                acc.push(values[used].as_str());
                used += 1;
            },
        }
        i += 1;
    }
    assert(steps.take(plan.len() as int) =~= steps);
    Ok(acc.render())
}

/// A prefix of a plan asks for no more values than the whole plan.
pub proof fn lemma_expression_count_prefix(steps: Seq<Step>, n: int)
    requires
        0 <= n <= steps.len(),
    ensures
        expression_count(steps.take(n)) <= expression_count(steps),
    decreases steps.len() - n,
{
    if n == steps.len() {
        assert(steps.take(n) =~= steps);
    } else {
        assert(steps.take(n + 1).drop_last() =~= steps.take(n));
        lemma_expression_count_prefix(steps, n + 1);
    }
}

/// Rendering is a function of the plan and the values alone: two runs of one
/// plan with the same values end alike, both with the same output to the
/// last character or both with the same error.
pub proof fn lemma_render_is_deterministic(
    steps: Seq<Step>,
    values: Seq<Seq<char>>,
    first: Result<String, Error>,
    second: Result<String, Error>,
)
    requires
        renders(steps, values, first),
        renders(steps, values, second),
    ensures
        first is Ok <==> second is Ok,
        first matches Ok(a) ==> second matches Ok(b) && a@ == b@,
        first matches Err(e) ==> second matches Err(f) && e.display() == f.display(),
{
}

} // verus!
