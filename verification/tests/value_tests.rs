use sheet_cleaner::value::CellError;
use sheet_cleaner::value::CellValue;
use sheet_cleaner::value::normalize;

/// The rendering the surrounding binary produces for floating-point cells
/// before handing them to the library: no trailing `.0` for integral values.
fn render_float(f: f64) -> String {
    if f.fract() == 0.0 {
        format!("{:.0}", f)
    } else {
        f.to_string()
    }
}

#[test]
fn normalize_is_deterministic() {
    let values = vec![
        CellValue::Empty,
        CellValue::Text("abc".to_string()),
        CellValue::Int(-42),
        CellValue::Float(render_float(5.0)),
        CellValue::Bool(true),
        CellValue::DateTime(render_float(44197.5)),
        CellValue::DateTimeIso("2021-01-01T00:00:00".to_string()),
        CellValue::DurationIso("PT1H".to_string()),
        CellValue::Error(CellError::NA),
    ];
    for v in &values {
        assert_eq!(normalize(v), normalize(v));
    }
}

#[test]
fn normalize_floats() {
    assert_eq!(normalize(&CellValue::Float(render_float(5.0))), "5");
    assert_eq!(normalize(&CellValue::Float(render_float(5.5))), "5.5");
    assert_eq!(normalize(&CellValue::Float(render_float(-2.0))), "-2");
}

#[test]
fn normalize_booleans_and_empty() {
    assert_eq!(normalize(&CellValue::Bool(true)), "true");
    assert_eq!(normalize(&CellValue::Bool(false)), "false");
    assert_eq!(normalize(&CellValue::Empty), "");
}

#[test]
fn normalize_integers() {
    assert_eq!(normalize(&CellValue::Int(0)), "0");
    assert_eq!(normalize(&CellValue::Int(12345)), "12345");
    assert_eq!(normalize(&CellValue::Int(-7)), "-7");
    assert_eq!(normalize(&CellValue::Int(i64::MAX)), "9223372036854775807");
    assert_eq!(normalize(&CellValue::Int(i64::MIN)), "-9223372036854775808");
}

#[test]
fn normalize_texts_unchanged() {
    assert_eq!(normalize(&CellValue::Text(" x ".to_string())), " x ");
    assert_eq!(
        normalize(&CellValue::DateTimeIso("2021-01-01".to_string())),
        "2021-01-01"
    );
    assert_eq!(normalize(&CellValue::DurationIso("PT5M".to_string())), "PT5M");
    assert_eq!(normalize(&CellValue::DateTime("44197".to_string())), "44197");
}

#[test]
fn normalize_error_tags() {
    assert_eq!(normalize(&CellValue::Error(CellError::Div0)), "Div0");
    assert_eq!(normalize(&CellValue::Error(CellError::NA)), "NA");
    assert_eq!(normalize(&CellValue::Error(CellError::Name)), "Name");
    assert_eq!(normalize(&CellValue::Error(CellError::Null)), "Null");
    assert_eq!(normalize(&CellValue::Error(CellError::Num)), "Num");
    assert_eq!(normalize(&CellValue::Error(CellError::Ref)), "Ref");
    assert_eq!(normalize(&CellValue::Error(CellError::Value)), "Value");
    assert_eq!(
        normalize(&CellValue::Error(CellError::GettingData)),
        "GettingData"
    );
}
