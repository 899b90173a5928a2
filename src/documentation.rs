//! The description of the HTTP surface, served at its root.

use vstd::prelude::*;
use vstd::string::*;

use crate::json::{as_text, Json};

verus! {

/// Whether `j` is the string `t`.
pub open spec fn is_text(j: Json, t: Seq<char>) -> bool {
    as_text(j) == Some(t)
}

/// Whether `j` is an array of the strings `ts`, in order.
pub open spec fn is_text_list(j: Json, ts: Seq<Seq<char>>) -> bool {
    match j {
        Json::Array(items) => items@.len() == ts.len() && forall|i: int|
            0 <= i < ts.len() ==> is_text(#[trigger] items@[i], ts[i]),
        _ => false,
    }
}

/// Whether `j` describes a `GET` endpoint at `url`, with the query
/// parameters `params` where it has any.
pub open spec fn is_endpoint(j: Json, url: Seq<char>, params: Option<Seq<Seq<char>>>) -> bool {
    match j {
        Json::Object(es) => {
            &&& es@.len() == if params is Some { 3int } else { 2int }
            &&& es@[0].0@ == "url"@ && is_text(es@[0].1, url)
            &&& es@[1].0@ == "method"@ && is_text(es@[1].1, "GET"@)
            &&& match params {
                Some(ps) => es@[2].0@ == "parameters"@ && is_text_list(es@[2].1, ps),
                None => true,
            }
        },
        _ => false,
    }
}

/// The description of the HTTP surface.
pub open spec fn is_documentation(j: Json) -> bool {
    match j {
        Json::Object(es) => {
            &&& es@.len() == 2
            &&& es@[0].0@ == "description"@
            &&& is_text(es@[0].1, "This API allows you to list all ICT modules."@)
            &&& es@[1].0@ == "endpoints"@
            &&& match es@[1].1 {
                Json::Array(items) => {
                    &&& items@.len() == 4
                    &&& is_endpoint(items@[0], "/"@, None)
                    &&& is_endpoint(items@[1], "/jobs"@, None)
                    &&& is_endpoint(items@[2], "/modules"@, Some(seq!["job_id"@, "lang"@, "year"@]))
                    &&& is_endpoint(items@[3], "/modules/{moduleId}"@, Some(seq!["lang"@, "year"@]))
                },
                _ => false,
            }
        },
        _ => false,
    }
}

fn text(s: &str) -> (r: Json)
    ensures
        is_text(r, s@),
{
    Json::Str(String::from_str(s))
}

fn endpoint(url: &str, params: Option<Vec<Json>>, Ghost(names): Ghost<Seq<Seq<char>>>) -> (r: Json)
    requires
        params matches Some(ps) ==> is_text_list(Json::Array(ps), names),
    ensures
        is_endpoint(r, url@, if params is Some { Some(names) } else { None }),
{
    let mut es: Vec<(String, Json)> = Vec::new();
    es.push((String::from_str("url"), text(url)));
    es.push((String::from_str("method"), text("GET")));
    match params {
        Some(ps) => {
            es.push((String::from_str("parameters"), Json::Array(ps)));
        },
        None => {},
    }
    Json::Object(es)
}

/// The description of the HTTP surface: its purpose and, for each endpoint,
/// its path, its method and its query parameters.
pub fn get_documentation() -> (r: Json)
    ensures
        is_documentation(r),
{
    let mut list_params: Vec<Json> = Vec::new();
    list_params.push(text("job_id"));
    list_params.push(text("lang"));
    list_params.push(text("year"));
    let mut detail_params: Vec<Json> = Vec::new();
    detail_params.push(text("lang"));
    detail_params.push(text("year"));
    let ghost list_names = seq!["job_id"@, "lang"@, "year"@];
    let ghost detail_names = seq!["lang"@, "year"@];
    let root = endpoint("/", None, Ghost(Seq::empty()));
    let jobs = endpoint("/jobs", None, Ghost(Seq::empty()));
    let list = endpoint("/modules", Some(list_params), Ghost(list_names));
    let detail = endpoint("/modules/{moduleId}", Some(detail_params), Ghost(detail_names));
    let mut endpoints: Vec<Json> = Vec::new();
    endpoints.push(root);
    endpoints.push(jobs);
    endpoints.push(list);
    endpoints.push(detail);
    let mut es: Vec<(String, Json)> = Vec::new();
    es.push((String::from_str("description"), text("This API allows you to list all ICT modules.")));
    es.push((String::from_str("endpoints"), Json::Array(endpoints)));
    Json::Object(es)
}

} // verus!
