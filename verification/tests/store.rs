use edgeflow::store::{
    artifact_relative_path, default_artifact_location, extract_eq_value, parse_mv_filter,
    parse_tag_filter, placeholders, run_artifact_uri,
};

fn pair(k: &str, v: &str) -> Option<(String, String)> {
    Some((k.to_string(), v.to_string()))
}

#[test]
fn tag_filter_with_backticks_or_quotes() {
    assert_eq!(parse_tag_filter("tag.`mlflow.runName` = 'iris'"), pair("mlflow.runName", "iris"));
    assert_eq!(parse_tag_filter("  tag.'k'='v'  "), pair("k", "v"));
    assert_eq!(parse_tag_filter("tag.`a b` =  'x y' "), pair("a b", "x y"));
    assert_eq!(parse_tag_filter("tag.`k` = ''"), pair("k", ""));
    assert_eq!(parse_tag_filter("\t tag.`it's` \n=\u{a0}'a = 'b'\r"), pair("it's", "a = 'b"));
}

#[test]
fn tag_filter_rejects_other_forms() {
    assert_eq!(parse_tag_filter("params.k = 'v'"), None);
    assert_eq!(parse_tag_filter("tag.k = 'v'"), None);
    assert_eq!(parse_tag_filter("tag.`k = 'v'"), None);
    assert_eq!(parse_tag_filter("tag.`k` != 'v'"), None);
    assert_eq!(parse_tag_filter("tag.`k` = v"), None);
    assert_eq!(parse_tag_filter("tag.`k` = '"), None);
}

#[test]
fn model_version_filters() {
    assert_eq!(
        parse_mv_filter("name = 'iris-classifier'"),
        (Some("iris-classifier".to_string()), None)
    );
    assert_eq!(
        parse_mv_filter("name = 'iris' and run_id = 'abc123'"),
        (Some("iris".to_string()), Some("abc123".to_string()))
    );
    assert_eq!(parse_mv_filter(""), (None, None));
    assert_eq!(
        parse_mv_filter("name = 'x run_id = ' and run_id = 'r'"),
        (Some("x run_id = ".to_string()), Some(" and run_id = ".to_string()))
    );
    assert_eq!(extract_eq_value("name = 'unterminated", "name"), None);
    assert_eq!(extract_eq_value("run_id = 'x'", "run_id"), Some("x".to_string()));
}

#[test]
fn placeholder_lists() {
    assert_eq!(placeholders(0), "");
    assert_eq!(placeholders(1), "?");
    assert_eq!(placeholders(3), "?,?,?");
}

#[test]
fn artifact_locations() {
    let loc = default_artifact_location("42");
    assert_eq!(loc, "mlflow-artifacts:/42");
    let uri = run_artifact_uri(&loc, "r1");
    assert_eq!(uri, "mlflow-artifacts:/42/r1/artifacts");
    assert_eq!(artifact_relative_path(&uri), "42/r1/artifacts");
    assert_eq!(artifact_relative_path("/abs/path"), "/abs/path");
}
