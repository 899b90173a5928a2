use api_ict::json::Json;
use api_ict::level::parse_year;
use api_ict::module::{get_modules, ModuleError, ModuleSummary};

fn text(s: &str) -> Json {
    Json::Str(s.to_string())
}

fn object(entries: Vec<(&str, Json)>) -> Json {
    Json::Object(entries.into_iter().map(|(k, v)| (k.to_string(), v)).collect())
}

fn mapping(number: &str, row_version: i64, version: i64, title: &str, level: &str) -> Json {
    object(vec![
        (
            "beembk_Modul",
            object(vec![
                ("beembk_modulnummer", text(number)),
                ("versionnumber", Json::Number(Some(row_version))),
                ("beembk_version", Json::Number(Some(version))),
                ("beembk_modultitel", text(title)),
                ("beembk_modultitel_fr", text(&format!("{} (fr)", title))),
                ("beembk_objektbeschreibung", text("Beschreibung")),
                ("modifiedon", text("2024-02-01T00:00:00Z")),
                ("createdon", text("2020-01-01T00:00:00Z")),
            ]),
        ),
        ("beembk_Level", object(vec![("beembk_levelname", text(level))])),
        (
            "beembk_Lernort",
            object(vec![
                ("beembk_lernortname", text("Berufsfachschule")),
                ("beembk_lernortname_fr", text("Ecole professionnelle")),
            ]),
        ),
    ])
}

fn summaries(rows: &Vec<Json>, lang: &str, year: Option<&str>) -> Vec<ModuleSummary> {
    get_modules(rows, lang, &year.map(|y| y.to_string())).expect("pattern compiles")
}

#[test]
fn year_of_numbered_level_label() {
    assert_eq!(parse_year("4. Lehrjahr"), Ok(4));
}

#[test]
fn year_of_label_without_digits_is_zero() {
    assert_eq!(parse_year("Lehrjahr"), Ok(0));
}

#[test]
fn year_takes_only_the_leading_digit_run() {
    assert_eq!(parse_year("12abc 7"), Ok(12));
    assert_eq!(parse_year("Jahr 3"), Ok(0));
    assert_eq!(parse_year(""), Ok(0));
}

#[test]
fn year_of_overlong_digit_run_is_zero() {
    assert_eq!(parse_year("99999999999999999999. Lehrjahr"), Ok(0));
}

#[test]
fn one_summary_per_number_with_highest_row_version() {
    let rows = vec![
        mapping("431", 1, 1, "Alt", "1. Lehrjahr"),
        mapping("431", 3, 3, "Neu", "1. Lehrjahr"),
        mapping("431", 2, 2, "Mittel", "1. Lehrjahr"),
        mapping("106", 5, 2, "Datenbank", "2. Lehrjahr"),
    ];
    let out = summaries(&rows, "de", None);
    assert_eq!(out.len(), 2);
    assert_eq!(out[0].number, 431);
    assert_eq!(out[0].name, "Neu");
    assert_eq!(out[0].version, 3);
    assert_eq!(out[0].year, 1);
    assert_eq!(out[0].module_type, "Berufsfachschule");
    assert_eq!(out[0].description, "Beschreibung");
    assert_eq!(out[0].last_modified, "2024-02-01T00:00:00Z");
    assert_eq!(out[0].creation_date, "2020-01-01T00:00:00Z");
    assert_eq!(out[1].number, 106);
    assert_eq!(out[1].year, 2);
}

#[test]
fn equal_versions_keep_the_first_row() {
    let rows = vec![
        mapping("117", 1, 4, "Erste", "1. Lehrjahr"),
        mapping("117", 9, 4, "Zweite", "1. Lehrjahr"),
    ];
    let out = summaries(&rows, "de", None);
    assert_eq!(out.len(), 1);
    assert_eq!(out[0].name, "Erste");
}

#[test]
fn reported_version_is_the_group_maximum() {
    let rows = vec![
        mapping("431", 2, 1, "Alt", "1. Lehrjahr"),
        mapping("431", 1, 5, "Neu", "1. Lehrjahr"),
    ];
    let out = summaries(&rows, "de", None);
    assert_eq!(out.len(), 1);
    assert_eq!(out[0].version, 5);
    assert_eq!(out[0].name, "Neu");
}

#[test]
fn rows_without_a_numeric_module_number_are_skipped() {
    let rows = vec![
        mapping("abc", 1, 1, "Kaputt", "1. Lehrjahr"),
        mapping("+0042", 1, 1, "Zweiundvierzig", "3. Lehrjahr"),
        object(vec![("beembk_Level", object(vec![]))]),
    ];
    let out = summaries(&rows, "de", None);
    assert_eq!(out.len(), 1);
    assert_eq!(out[0].number, 42);
}

#[test]
fn year_filter_keeps_matching_modules() {
    let rows = vec![
        mapping("100", 1, 1, "A", "1. Lehrjahr"),
        mapping("200", 1, 1, "B", "3. Lehrjahr"),
        mapping("300", 1, 1, "C", "Lehrjahr"),
    ];
    let out = summaries(&rows, "de", Some("3"));
    assert_eq!(out.len(), 1);
    assert_eq!(out[0].number, 200);
}

#[test]
fn unparsable_year_filter_reads_as_zero() {
    let rows = vec![
        mapping("100", 1, 1, "A", "1. Lehrjahr"),
        mapping("300", 1, 1, "C", "Lehrjahr"),
    ];
    let out = summaries(&rows, "de", Some("drei"));
    assert_eq!(out.len(), 1);
    assert_eq!(out[0].number, 300);
}

#[test]
fn list_view_projects_the_requested_language() {
    let rows = vec![mapping("100", 1, 1, "Titel", "1. Lehrjahr")];
    let out = summaries(&rows, "fr", None);
    assert_eq!(out[0].name, "Titel (fr)");
    assert_eq!(out[0].module_type, "Ecole professionnelle");
    assert_eq!(out[0].description, "");
}

#[test]
fn list_view_drops_modules_in_an_unsupported_language() {
    let rows = vec![mapping("100", 1, 1, "Titel", "1. Lehrjahr")];
    assert_eq!(get_modules(&rows, "en", &None), Ok(vec![]));
}

#[test]
fn empty_upstream_gives_empty_list() {
    assert_eq!(get_modules(&vec![], "de", &None), Ok(vec![]));
}

#[test]
fn module_errors_are_distinct() {
    assert_ne!(ModuleError::NotFound, ModuleError::UnsupportedLanguage);
    assert_ne!(ModuleError::NotFound, ModuleError::InvalidPattern);
}
