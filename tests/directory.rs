use api_ict::documentation::get_documentation;
use api_ict::json::Json;
use api_ict::job::{get_api_id, get_jobs, job_catalog, job_filter, JobNotFound};
use api_ict::language::Language;
use api_ict::route::QueryParams;
use api_ict::upstream::{details_url, mappings_url, module_url, objectives_url, placement_url};

#[test]
fn api_id_of_known_job() {
    assert_eq!(get_api_id("88601"), Ok(Some("4f50e7f3-6b82-eb11-a812-0022486f6f83".to_string())));
}

#[test]
fn api_id_of_duplicated_job_is_the_first() {
    assert_eq!(get_api_id("88614"), Ok(Some("03a95323-bf92-eb11-b1ac-000d3a831ef4".to_string())));
}

#[test]
fn api_id_of_empty_job_is_none() {
    assert_eq!(get_api_id(""), Ok(None));
}

#[test]
fn api_id_of_unknown_job_fails() {
    assert_eq!(get_api_id("12345"), Err(JobNotFound));
}

#[test]
fn unknown_job_does_not_narrow_the_list() {
    assert_eq!(job_filter(&Some("12345".to_string())), None);
    assert_eq!(job_filter(&None), None);
    assert_eq!(job_filter(&Some("88605".to_string())), Some("f1e7a970-6f82-eb11-a812-0022486f6f83".to_string()));
}

#[test]
fn job_list_is_localised() {
    let jobs = get_jobs("fr");
    assert_eq!(jobs.len(), 12);
    assert_eq!(jobs[0].id, "69201");
    assert_eq!(jobs[0].name, "Développeuse/Développeur de business numérique CFC (dès 2023)");
    let de = get_jobs("de");
    assert_eq!(de[11].name, "ICT-Fachfrau/ICT-Fachmann EFZ");
    let it = get_jobs("it");
    assert_eq!(it[1].name, "Informatico/a AFC Sviluppo di applicazioni");
}

#[test]
fn job_list_in_unknown_language_has_empty_names() {
    let jobs = get_jobs("en");
    assert_eq!(jobs.len(), job_catalog().len());
    assert!(jobs.iter().all(|j| j.name.is_empty()));
    assert_eq!(jobs[1].id, "88601");
}

#[test]
fn languages_are_exactly_three() {
    assert_eq!(Language::parse("de"), Some(Language::De));
    assert_eq!(Language::parse("fr"), Some(Language::Fr));
    assert_eq!(Language::parse("it"), Some(Language::It));
    assert_eq!(Language::parse("DE"), None);
    assert_eq!(Language::parse(""), None);
    assert_eq!(Language::Fr.keys().title, "beembk_modultitel_fr");
    assert_eq!(Language::De.keys().pdf, "beembk_pdfname_de");
}

#[test]
fn query_language_falls_back_to_default() {
    let q = QueryParams { lang: None, year: None, job_id: None };
    assert_eq!(q.language("de"), "de");
    let q = QueryParams { lang: Some("it".to_string()), year: None, job_id: None };
    assert_eq!(q.language("de"), "it");
}

#[test]
fn upstream_queries() {
    assert_eq!(
        mappings_url(&None),
        "https://ictbb.crm17.dynamics.com/api/data/v9.1/beembk_modulmappings?$expand=beembk_Lernort,beembk_Modul,beembk_Modultyp,beembk_Level"
    );
    assert_eq!(
        mappings_url(&Some("abc".to_string())),
        "https://ictbb.crm17.dynamics.com/api/data/v9.1/beembk_modulmappings?$filter=beembk_Abschluss/beembk_abschlussid%20eq%20%27abc%27&$expand=beembk_Lernort,beembk_Modul,beembk_Modultyp,beembk_Level"
    );
    assert_eq!(
        module_url("88601"),
        "https://ictbb.crm17.dynamics.com/api/data/v9.1/beembk_moduls?$filter=contains(beembk_modulnummer,'88601')"
    );
    assert_eq!(
        placement_url("88601"),
        "https://ictbb.crm17.dynamics.com/api/data/v9.1/beembk_modulmappings?$filter=beembk_Modul/beembk_modulnummer%20eq%20'88601'&$expand=beembk_Lernort,beembk_Modul,beembk_Modultyp,beembk_Level"
    );
    assert_eq!(
        objectives_url("88601"),
        "https://ictbb.crm17.dynamics.com/api/data/v9.1/beembk_handlungsziels?$filter=startswith(beembk_handlungszielnr,'88601')"
    );
    assert_eq!(
        details_url("88601"),
        "https://ictbb.crm17.dynamics.com/api/data/v9.1/beembk_handlungsnotwendigeskenntnises?$filter=startswith(beembk_hanoknr,'88601')"
    );
}

#[test]
fn documentation_lists_the_endpoints() {
    let doc = get_documentation();
    assert_eq!(doc.text_at("description"), "This API allows you to list all ICT modules.");
    let endpoints = match doc.get("endpoints") {
        Some(Json::Array(items)) => items,
        _ => panic!("endpoints missing"),
    };
    let urls: Vec<&str> = endpoints.iter().map(|e| e.text_at("url")).collect();
    assert_eq!(urls, vec!["/", "/jobs", "/modules", "/modules/{moduleId}"]);
    assert!(endpoints.iter().all(|e| e.text_at("method") == "GET"));
    let params: Vec<&str> = match endpoints[2].get("parameters") {
        Some(Json::Array(ps)) => ps.iter().map(|p| p.as_str().unwrap()).collect(),
        _ => panic!("parameters missing"),
    };
    assert_eq!(params, vec!["job_id", "lang", "year"]);
    assert!(endpoints[0].get("parameters").is_none());
}
