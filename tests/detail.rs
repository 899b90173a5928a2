use api_ict::detail::{get_module, get_module_detail, latest_row, ModuleDetail};
use api_ict::json::Json;
use api_ict::module::ModuleError;
use api_ict::objective::{detail_belongs, get_module_objectives};

fn text(s: &str) -> Json {
    Json::Str(s.to_string())
}

fn object(entries: Vec<(&str, Json)>) -> Json {
    Json::Object(entries.into_iter().map(|(k, v)| (k.to_string(), v)).collect())
}

fn module_row(row_version: i64, version: i64, title: &str, pdf: &str) -> Json {
    object(vec![
        ("beembk_modulnummer", text("88601")),
        ("versionnumber", Json::Number(Some(row_version))),
        ("beembk_version", Json::Number(Some(version))),
        ("beembk_modultitel", text(title)),
        ("beembk_objektbeschreibung", text(&format!("{} beschrieben", title))),
        ("beembk_kompetenz", text(&format!("{} kompetent", title))),
        ("beembk_pdfname_de", text(pdf)),
        ("modifiedon", text(&format!("2024-0{}-01", version))),
        ("createdon", text("2020-01-01")),
    ])
}

fn mapping_row(row_version: i64, level: &str, site: &str) -> Json {
    object(vec![
        ("versionnumber", Json::Number(Some(row_version))),
        ("beembk_Level", object(vec![("beembk_levelname", text(level))])),
        ("beembk_Lernort", object(vec![("beembk_lernortname", text(site))])),
    ])
}

fn objective(name: &str) -> Json {
    object(vec![("beembk_handlungsziel", text(name)), ("beembk_handlungsziel_fr", text("objectif"))])
}

fn detail(nr: &str, label: &str) -> Json {
    object(vec![("beembk_hanoknr", text(nr)), ("beembk_hanok", text(label))])
}

fn resolve(lang: &str, modules: &Vec<Json>) -> Result<ModuleDetail, ModuleError> {
    let mappings = vec![mapping_row(1, "2. Lehrjahr", "Betrieb")];
    let objectives = vec![objective("Planen"), objective("Umsetzen")];
    let details = vec![detail("88601.1.1", "Kennt"), detail("88601.2.1", "Kann")];
    get_module("88601", lang, modules, &mappings, &objectives, &details)
}

#[test]
fn detail_view_returns_the_highest_version() {
    let modules = vec![module_row(1, 1, "Version eins", "v1.pdf"), module_row(2, 2, "Version zwei", "v2.pdf")];
    let d = resolve("de", &modules).unwrap();
    assert_eq!(d.number, 88601);
    assert_eq!(d.name, "Version zwei");
    assert_eq!(d.description, "Version zwei beschrieben");
    assert_eq!(d.competence, "Version zwei kompetent");
    assert_eq!(d.version, 2);
    assert_eq!(d.last_modified, "2024-02-01");
    assert_eq!(d.creation_date, "2020-01-01");
    assert_eq!(d.pdf, "https://www.modulbaukasten.ch/Module/v2.pdf");
    assert_eq!(d.year, 2);
    assert_eq!(d.module_type, "Betrieb");
    assert_eq!(d.objectives.len(), 2);
    assert_eq!(d.objectives[0].name, "Planen");
    assert_eq!(d.objectives[0].details, vec!["Kennt 88601.1.1".to_string()]);
    assert_eq!(d.objectives[1].details, vec!["Kann 88601.2.1".to_string()]);
}

#[test]
fn detail_view_of_unknown_module_is_not_found() {
    let err = resolve("de", &vec![]).unwrap_err();
    assert_eq!(err, ModuleError::NotFound);
    assert_eq!(err.status_code(), 404);
    assert_eq!(err.message(), "Module not found");
}

#[test]
fn detail_view_ranks_modules_by_published_version() {
    let modules = vec![module_row(2, 1, "Alt", "a.pdf"), module_row(1, 3, "Neu", "b.pdf")];
    let d = resolve("de", &modules).unwrap();
    assert_eq!(d.version, 3);
    assert_eq!(d.name, "Neu");
}

#[test]
fn detail_view_without_mapping_rows_is_not_found() {
    let modules = vec![module_row(1, 1, "Eins", "a.pdf")];
    let r = get_module("88601", "de", &modules, &vec![], &vec![], &vec![]);
    assert_eq!(r, Err(ModuleError::NotFound));
}

#[test]
fn detail_view_in_unsupported_language_is_its_own_error() {
    let modules = vec![module_row(1, 1, "Eins", "a.pdf")];
    let err = resolve("en", &modules).unwrap_err();
    assert_eq!(err, ModuleError::UnsupportedLanguage);
    assert_eq!(err.status_code(), 500);
    assert_eq!(err.message(), "Error fetching module");
}

#[test]
fn detail_view_in_french_has_no_german_fallback() {
    let modules = vec![module_row(1, 1, "Eins", "a.pdf")];
    let mappings = vec![mapping_row(1, "1. Lehrjahr", "Betrieb")];
    let d = get_module("88601", "fr", &modules, &mappings, &vec![objective("Planen")], &vec![]).unwrap();
    assert_eq!(d.name, "");
    assert_eq!(d.module_type, "");
    assert_eq!(d.pdf, "https://www.modulbaukasten.ch/Module/");
    assert_eq!(d.objectives[0].name, "objectif");
}

#[test]
fn latest_row_picks_first_of_highest() {
    let rows = vec![mapping_row(2, "", ""), mapping_row(5, "", ""), mapping_row(5, "", ""), mapping_row(1, "", "")];
    assert_eq!(latest_row(&rows, "versionnumber"), Ok(1));
    assert_eq!(latest_row(&vec![], "versionnumber"), Err(ModuleError::NotFound));
}

#[test]
fn placement_comes_from_highest_mapping_row() {
    let rows = vec![mapping_row(1, "1. Lehrjahr", "Schule"), mapping_row(7, "3. Lehrjahr", "Betrieb")];
    let p = get_module_detail(&rows, "de").unwrap();
    assert_eq!(p.year, 3);
    assert_eq!(p.module_type, "Betrieb");
    assert_eq!(get_module_detail(&rows, "xx"), Err(ModuleError::UnsupportedLanguage));
    assert_eq!(get_module_detail(&vec![], "xx"), Err(ModuleError::NotFound));
}

#[test]
fn details_attach_to_objectives_by_position() {
    let objectives = vec![objective("Eins"), objective("Zwei")];
    let details = vec![detail("88601.1.1", "A"), detail("88601.2.1", "B")];
    let out = get_module_objectives("88601", "de", &objectives, &details).unwrap();
    assert_eq!(out[0].details, vec!["A 88601.1.1".to_string()]);
    assert_eq!(out[1].details, vec!["B 88601.2.1".to_string()]);
}

#[test]
fn details_keep_upstream_order_and_drop_strays() {
    let objectives = vec![objective("Eins")];
    let details = vec![
        detail("88601.1.2", "Zweites"),
        detail("88601.10.1", "Fremd"),
        detail("88601.1.1", "Erstes"),
        detail("88601.3.1", "Ohne Ziel"),
        object(vec![("beembk_hanok", text("Ohne Nummer"))]),
    ];
    let out = get_module_objectives("88601", "de", &objectives, &details).unwrap();
    assert_eq!(out.len(), 1);
    assert_eq!(out[0].name, "Eins");
    assert_eq!(out[0].details, vec!["Zweites 88601.1.2".to_string(), "Erstes 88601.1.1".to_string()]);
}

#[test]
fn objectives_in_unsupported_language_fail() {
    assert_eq!(get_module_objectives("88601", "en", &vec![], &vec![]), Err(ModuleError::UnsupportedLanguage));
}

#[test]
fn detail_prefix_respects_segments() {
    assert!(detail_belongs("88601.1.1", "88601", 1));
    assert!(detail_belongs("88601.1", "88601", 1));
    assert!(!detail_belongs("88601.10.1", "88601", 1));
    assert!(detail_belongs("88601.10.1", "88601", 10));
    assert!(!detail_belongs("88602.1.1", "88601", 1));
    assert!(!detail_belongs("88601", "88601", 1));
}
