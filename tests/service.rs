use axum_shuttle_demo::dictionary::{
    definition_uri, displayed_headword, first_definition, Definition, EntryMetadata,
    GetDefinitionError, HeadwordInformation,
};
use axum_shuttle_demo::matrix_determinant::{
    determinant_response, determinant_result, is_admissible_source, parse_matrix,
    ComputeMatrixDeterminantError, MatrixDeterminantResponse, MAX_NESTING, MAX_SOURCE_LEN,
};
use savage_core::expression::Expression;
use savage_core::functions::function_expression;
use axum_shuttle_demo::pages::{definition_page, index_page, page, HEAD_HTML_TAG};

fn definition(id: &str) -> Definition {
    Definition {
        meta: EntryMetadata { id: id.to_string(), offensive: false },
        headword_information: HeadwordInformation { head_word: id.to_string() },
        short_definition: vec![format!("meaning of {}", id)],
        family: "noun".to_string(),
    }
}

#[test]
fn lookup_address_holds_word_and_key() {
    let uri = definition_uri("apple", Some("k3y")).unwrap();
    assert_eq!(
        uri,
        "https://dictionaryapi.com/api/v3/references/collegiate/json/apple?key=k3y"
    );
}

#[test]
fn lookup_without_key_fails() {
    assert_eq!(definition_uri("apple", None), Err(GetDefinitionError::NoApiKey));
}

#[test]
fn first_entry_is_chosen() {
    let d = first_definition(vec![definition("one"), definition("two")]).unwrap();
    assert_eq!(d.meta.id, "one");
    assert_eq!(d.short_definition, vec!["meaning of one".to_string()]);
}

#[test]
fn empty_answer_has_no_results() {
    assert!(matches!(first_definition(Vec::new()), Err(GetDefinitionError::NoResults)));
}

#[test]
fn headword_keeps_spaces_and_alphanumerics() {
    assert_eq!(displayed_headword("ap*ple pie"), "apple pie");
    assert_eq!(displayed_headword("héllo, wörld 42!"), "héllo wörld 42");
    assert_eq!(displayed_headword("<script>"), "script");
    assert_eq!(displayed_headword(""), "");
}

#[test]
fn definition_page_lists_definitions() {
    let p = definition_page("ap*ple", &vec!["a fruit".to_string(), "a tree".to_string()]);
    let expected = format!(
        "<!DOCTYPE html>\n<html lang=en>\n{}\n<body>\n<h1>apple</h1>\n<p>a fruit</p><p>a tree</p>\n</body>\n</html>",
        HEAD_HTML_TAG
    );
    assert_eq!(p, expected);
}

#[test]
fn page_wraps_body() {
    let p = page("x");
    assert!(p.starts_with("<!DOCTYPE html>\n<html lang=en>\n<head>"));
    assert!(p.ends_with("</head>\n<body>\nx\n</body>\n</html>"));
}

#[test]
fn index_page_renders_markdown() {
    let p = index_page("# Title\n\nSome *text*.");
    assert!(p.contains("<h1>Title</h1>"));
    assert!(p.contains("<em>text</em>"));
    assert!(!p.contains("# Title"));
}

fn evaluate_determinant(matrix: Expression) -> Result<String, String> {
    let det = function_expression("det").unwrap();
    Expression::FunctionValue(Box::new(det), vec![matrix])
        .evaluate(Default::default())
        .map(|v| v.to_string())
        .map_err(|e| format!("{:?}", e))
}

fn compute(source: &str) -> Result<String, ComputeMatrixDeterminantError> {
    let matrix = parse_matrix(source)?;
    determinant_result(evaluate_determinant(matrix))
}

#[test]
fn determinant_of_two_by_two_matrix() {
    assert_eq!(compute("[[1, 2], [3, 4]]").unwrap(), "-2");
}

#[test]
fn determinant_of_one_by_one_matrix() {
    assert_eq!(compute("[[5]]").unwrap(), "5");
}

#[test]
fn determinant_rejects_unparsable_text() {
    assert!(matches!(parse_matrix("[[1, 2"), Err(ComputeMatrixDeterminantError::ParseError(_))));
}

#[test]
fn determinant_rejects_non_matrix() {
    assert!(matches!(parse_matrix("1"), Err(ComputeMatrixDeterminantError::InputNotMatrix)));
    assert!(matches!(parse_matrix("1 + 2"), Err(ComputeMatrixDeterminantError::InputNotMatrix)));
}

#[test]
fn determinant_of_non_square_matrix_fails_to_evaluate() {
    assert!(matches!(
        compute("[[1, 2, 3], [4, 5, 6]]"),
        Err(ComputeMatrixDeterminantError::CalculationError(_))
    ));
}

#[test]
fn admissible_sources() {
    assert!(is_admissible_source(""));
    assert!(is_admissible_source("[[1, 2], [3, 4]]"));
    assert!(is_admissible_source(&"(".repeat(MAX_NESTING)));
    assert!(!is_admissible_source(&"[".repeat(MAX_NESTING + 1)));
    assert!(is_admissible_source(&"()".repeat(MAX_SOURCE_LEN / 2)));
    assert!(!is_admissible_source(&"1".repeat(MAX_SOURCE_LEN + 1)));
    let stray = format!("{}{}", "]".repeat(10), "[".repeat(MAX_NESTING));
    assert!(is_admissible_source(&stray));
}

#[test]
fn deeply_nested_source_is_not_parsed() {
    let deep = format!("{}1{}", "(".repeat(300_000), ")".repeat(300_000));
    assert!(matches!(parse_matrix(&deep), Err(ComputeMatrixDeterminantError::InputTooComplex)));
    let nested = format!("{}1{}", "[".repeat(MAX_NESTING + 1), "]".repeat(MAX_NESTING + 1));
    assert!(matches!(parse_matrix(&nested), Err(ComputeMatrixDeterminantError::InputTooComplex)));
    let long = vec!["1"; MAX_SOURCE_LEN].join("+");
    assert!(matches!(parse_matrix(&long), Err(ComputeMatrixDeterminantError::InputTooComplex)));
    assert_eq!(
        ComputeMatrixDeterminantError::InputTooComplex.message(),
        "Input is too large or too deeply nested"
    );
}

#[test]
fn evaluation_outcome_becomes_result() {
    assert_eq!(determinant_result(Ok("7".to_string())).unwrap(), "7");
    assert!(matches!(
        determinant_result(Err("bad".to_string())),
        Err(ComputeMatrixDeterminantError::CalculationError(m)) if m == "bad"
    ));
}

#[test]
fn error_messages() {
    assert_eq!(
        ComputeMatrixDeterminantError::ParseError("x".to_string()).message(),
        "Parse error: 'x'"
    );
    assert_eq!(
        ComputeMatrixDeterminantError::CalculationError("y".to_string()).message(),
        "Calculation error: 'y'"
    );
    assert_eq!(ComputeMatrixDeterminantError::InputNotMatrix.message(), "Input is not a matrix");
}

#[test]
fn determinant_responses() {
    let ok = determinant_response(compute("[[2, 0], [0, 3]]"));
    assert!(matches!(ok, MatrixDeterminantResponse::Value { value } if value == "6"));
    let bad = determinant_response(compute("[["));
    assert!(matches!(bad, MatrixDeterminantResponse::Failure { error_reason } if error_reason.starts_with("Parse error: '")));
    let scalar = determinant_response(compute("1"));
    assert!(matches!(scalar, MatrixDeterminantResponse::Failure { error_reason } if error_reason == "Input is not a matrix"));
}
