//! The determinant endpoint: parse a symbolic expression with savage, insist
//! that it is a matrix, turn the outcome of evaluating its determinant into a
//! result, and that result into an answer. The evaluation itself is left to
//! the caller: savage's evaluator panics on some matrices (a zero raised to a
//! negative power divides by zero), and only the caller can contain that.
use vstd::prelude::*;
use vstd::string::{StrSliceExecFns, StringExecFns};
use savage_core::expression::Expression;

verus! {

#[verifier::external_type_specification]
#[verifier::external_body]
pub struct ExExpression(savage_core::expression::Expression);

/// Why no determinant could be given.
#[derive(Debug)]
pub enum ComputeMatrixDeterminantError {
    /// The source is not an expression; the parser's diagnostics.
    ParseError(String),
    /// The source is an expression but not a matrix.
    InputNotMatrix,
    /// The source is longer than `MAX_SOURCE_LEN` characters or nests brackets
    /// deeper than `MAX_NESTING`; it is not handed to the parser.
    InputTooComplex,
    /// Evaluating the determinant failed; the evaluator's diagnostics.
    CalculationError(String),
}

/// The body of a determinant request.
pub struct MatrixDeterminantRequest {
    pub value: String,
}

/// The answer to a determinant request.
pub enum MatrixDeterminantResponse {
    Value { value: String },
    Failure { error_reason: String },
}

/// Whether savage's expression grammar accepts a source text.
pub uninterp spec fn parses_as_expression(source: Seq<char>) -> bool;

/// Whether the expression that savage parses from a source text is a matrix.
pub uninterp spec fn parses_as_matrix(source: Seq<char>) -> bool;

/// The longest source text, in characters, that is handed to the parser.
pub const MAX_SOURCE_LEN: usize = 4096;

/// The deepest nesting of brackets and parentheses handed to the parser.
pub const MAX_NESTING: usize = 64;

/// Nesting after reading one more character: `(` and `[` open a level, `)` and
/// `]` close one; a closer with no level open changes nothing.
pub open spec fn nesting_step(depth: nat, c: char) -> nat {
    if c == '(' || c == '[' {
        depth + 1
    } else if (c == ')' || c == ']') && depth > 0 {
        (depth - 1) as nat
    } else {
        depth
    }
}

/// Number of levels open after reading all of `s`.
pub open spec fn open_levels(s: Seq<char>) -> nat
    decreases s.len(),
{
    if s.len() == 0 {
        0
    } else {
        nesting_step(open_levels(s.drop_last()), s.last())
    }
}

/// The deepest nesting reached anywhere in `s`.
pub open spec fn nesting_depth(s: Seq<char>) -> nat
    decreases s.len(),
{
    if s.len() == 0 {
        0
    } else {
        let before = nesting_depth(s.drop_last());
        let now = open_levels(s);
        if before >= now {
            before
        } else {
            now
        }
    }
}

/// Whether a source text is small and shallow enough to be parsed: savage's
/// parser recurses once per bracket level without a limit, and the trees it
/// builds are taken apart recursively, so unbounded input could exhaust the
/// stack.
pub open spec fn admissible_source(s: Seq<char>) -> bool {
    s.len() <= MAX_SOURCE_LEN && nesting_depth(s) <= MAX_NESTING
}

proof fn lemma_nesting_monotone(s: Seq<char>, i: int, j: int)
    requires
        0 <= i <= j <= s.len(),
    ensures
        nesting_depth(s.take(i)) <= nesting_depth(s.take(j)),
    decreases j - i,
{
    if i < j {
        lemma_nesting_monotone(s, i, j - 1);
        assert(s.take(j).drop_last() =~= s.take(j - 1));
    }
}

/// Whether `source` may be handed to the parser.
pub fn is_admissible_source(source: &str) -> (r: bool)
    ensures
        r == admissible_source(source@),
{
    let len = source.unicode_len();
    if len > MAX_SOURCE_LEN {
        return false;
    }
    let mut open: usize = 0;
    let mut deepest: usize = 0;
    for i in 0..len
        invariant
            len == source@.len(),
            len <= MAX_SOURCE_LEN,
            open == open_levels(source@.take(i as int)),
            deepest == nesting_depth(source@.take(i as int)),
            open <= deepest <= MAX_NESTING,
    {
        let c = source.get_char(i);
        proof {
            assert(source@.take(i + 1).drop_last() =~= source@.take(i as int));
            assert(source@.take(i + 1).last() == c);
        }
        if c == '(' || c == '[' {
            open = open + 1;
        } else if (c == ')' || c == ']') && open > 0 {
            open = open - 1;
        }
        if open > deepest {
            deepest = open;
        }
        if deepest > MAX_NESTING {
            proof {
                lemma_nesting_monotone(source@, i + 1, len as int);
                assert(source@.take(len as int) =~= source@);
            }
            return false;
        }
    }
    assert(source@.take(len as int) =~= source@);
    true
}

/// Relies on savage's `FromStr for Expression`, a parser whose outcome depends
/// on the text alone, and on the variants of `Expression`: the flag says
/// whether the parsed expression is `Expression::Matrix`. A failure is rendered
/// with its `Debug` form. The parser recurses once per level of brackets with
/// no limit of its own, so only admissible text is handed to it.
#[verifier::external_body]
fn parse_expression(source: &str) -> (r: Result<(Expression, bool), String>)
    requires
        admissible_source(source@),
    ensures
        r is Ok <==> parses_as_expression(source@),
        r matches Ok((_, matrix)) ==> matrix == parses_as_matrix(source@),
{
    match source.parse::<Expression>() {
        Ok(expression) => {
            let matrix = matches!(expression, Expression::Matrix(_));
            Ok((expression, matrix))
        },
        Err(err) => Err(format!("{:?}", err)),
    }
}

/// The matrix written in `source`, ready for evaluation. Text that is too long
/// or too deeply nested gives `InputTooComplex` and is not parsed; text that
/// does not parse gives `ParseError` with the parser's diagnostics; a parsed
/// expression that is not a matrix gives `InputNotMatrix`.
pub fn parse_matrix(source: &str) -> (r: Result<Expression, ComputeMatrixDeterminantError>)
    ensures
        r matches Err(ComputeMatrixDeterminantError::InputTooComplex) <==> !admissible_source(
            source@,
        ),
        r matches Err(ComputeMatrixDeterminantError::ParseError(_)) <==> admissible_source(
            source@,
        ) && !parses_as_expression(source@),
        r matches Err(ComputeMatrixDeterminantError::InputNotMatrix) <==> admissible_source(
            source@,
        ) && parses_as_expression(source@) && !parses_as_matrix(source@),
        r is Ok <==> admissible_source(source@) && parses_as_expression(source@)
            && parses_as_matrix(source@),
        !(r matches Err(ComputeMatrixDeterminantError::CalculationError(_))),
{
    if !is_admissible_source(source) {
        return Err(ComputeMatrixDeterminantError::InputTooComplex);
    }
    match parse_expression(source) {
        Err(message) => Err(ComputeMatrixDeterminantError::ParseError(message)),
        Ok((expression, matrix)) => {
            if matrix {
                Ok(expression)
            } else {
                Err(ComputeMatrixDeterminantError::InputNotMatrix)
            }
        },
    }
}

/// The outcome of a determinant request, given the outcome of evaluating the
/// determinant of a parsed matrix: its printed value, or the evaluator's
/// diagnostics, which become a `CalculationError`.
pub fn determinant_result(evaluation: Result<String, String>) -> (r: Result<
    String,
    ComputeMatrixDeterminantError,
>)
    ensures
        evaluation matches Ok(v) ==> r matches Ok(w) && w@ == v@,
        evaluation matches Err(m) ==> r matches Err(
            ComputeMatrixDeterminantError::CalculationError(e),
        ) && e@ == m@,
{
    match evaluation {
        Ok(value) => Ok(value),
        Err(message) => Err(ComputeMatrixDeterminantError::CalculationError(message)),
    }
}

impl ComputeMatrixDeterminantError {
    /// The message shown to a user.
    pub fn message(&self) -> (r: String)
        ensures
            r@ == message_spec(*self),
    {
        match self {
            ComputeMatrixDeterminantError::ParseError(e) => "Parse error: '".to_owned().concat(
                e.as_str(),
            ).concat("'"),
            ComputeMatrixDeterminantError::InputNotMatrix => "Input is not a matrix".to_owned(),
            ComputeMatrixDeterminantError::InputTooComplex => "Input is too large or too deeply nested".to_owned(),
            ComputeMatrixDeterminantError::CalculationError(e) => "Calculation error: '".to_owned().concat(
                e.as_str(),
            ).concat("'"),
        }
    }
}

/// The message of an error, as a sequence of characters.
pub open spec fn message_spec(error: ComputeMatrixDeterminantError) -> Seq<char> {
    match error {
        ComputeMatrixDeterminantError::ParseError(e) => "Parse error: '"@ + e@ + "'"@,
        ComputeMatrixDeterminantError::InputNotMatrix => "Input is not a matrix"@,
        ComputeMatrixDeterminantError::InputTooComplex => "Input is too large or too deeply nested"@,
        ComputeMatrixDeterminantError::CalculationError(e) => "Calculation error: '"@ + e@ + "'"@,
    }
}

/// The answer to a determinant request: the determinant's text, or the
/// message of the error.
pub fn determinant_response(result: Result<String, ComputeMatrixDeterminantError>) -> (r:
    MatrixDeterminantResponse)
    ensures
        result matches Ok(v) ==> r matches MatrixDeterminantResponse::Value { value } && value@
            == v@,
        result matches Err(e) ==> r matches MatrixDeterminantResponse::Failure {
            error_reason,
        } && error_reason@ == message_spec(e),
{
    match result {
        Ok(value) => MatrixDeterminantResponse::Value { value },
        Err(err) => MatrixDeterminantResponse::Failure { error_reason: err.message() },
    }
}

} // verus!
