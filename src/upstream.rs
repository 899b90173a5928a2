//! The queries sent to the upstream catalogue. Identifiers are placed into
//! the filter expressions as they are given.

use vstd::prelude::*;
use vstd::string::*;

use crate::text::opt_text;

verus! {

/// The root of the upstream catalogue's data API.
pub const API_BASE: &'static str = "https://ictbb.crm17.dynamics.com/api/data/v9.1/";

/// The related entities that a mapping row carries with it.
pub const MAPPING_EXPAND: &'static str = "$expand=beembk_Lernort,beembk_Modul,beembk_Modultyp,beembk_Level";

/// The query for the mapping rows of all modules, or of one job's modules.
pub open spec fn mappings_query(api_id: Option<Seq<char>>) -> Seq<char> {
    match api_id {
        Some(id) => API_BASE@ + "beembk_modulmappings?$filter=beembk_Abschluss/beembk_abschlussid%20eq%20%27"@
            + id + "%27&"@ + MAPPING_EXPAND@,
        None => API_BASE@ + "beembk_modulmappings?"@ + MAPPING_EXPAND@,
    }
}

/// The query for the module rows whose number contains `id`.
pub open spec fn module_query(id: Seq<char>) -> Seq<char> {
    API_BASE@ + "beembk_moduls?$filter=contains(beembk_modulnummer,'"@ + id + "')"@
}

/// The query for the mapping rows of module `id`.
pub open spec fn placement_query(id: Seq<char>) -> Seq<char> {
    API_BASE@ + "beembk_modulmappings?$filter=beembk_Modul/beembk_modulnummer%20eq%20'"@ + id
        + "'&"@ + MAPPING_EXPAND@
}

/// The query for the objectives whose number starts with `id`.
pub open spec fn objectives_query(id: Seq<char>) -> Seq<char> {
    API_BASE@ + "beembk_handlungsziels?$filter=startswith(beembk_handlungszielnr,'"@ + id + "')"@
}

/// The query for the objective details whose number starts with `id`.
pub open spec fn details_query(id: Seq<char>) -> Seq<char> {
    API_BASE@ + "beembk_handlungsnotwendigeskenntnises?$filter=startswith(beembk_hanoknr,'"@ + id
        + "')"@
}

/// The query for the mapping rows of all modules, or of the job that the
/// upstream knows as `api_id`.
pub fn mappings_url(api_id: &Option<String>) -> (r: String)
    ensures
        r@ == mappings_query(opt_text(*api_id)),
{
    let mut url = String::from_str(API_BASE);
    match api_id {
        Some(id) => {
            url.append("beembk_modulmappings?$filter=beembk_Abschluss/beembk_abschlussid%20eq%20%27");
            url.append(id.as_str());
            url.append("%27&");
        },
        None => {
            url.append("beembk_modulmappings?");
        },
    }
    url.append(MAPPING_EXPAND);
    url
}

/// The query for the module rows whose number contains `id`.
pub fn module_url(id: &str) -> (r: String)
    ensures
        r@ == module_query(id@),
{
    let mut url = String::from_str(API_BASE);
    url.append("beembk_moduls?$filter=contains(beembk_modulnummer,'");
    url.append(id);
    url.append("')");
    url
}

/// The query for the mapping rows of module `id`.
pub fn placement_url(id: &str) -> (r: String)
    ensures
        r@ == placement_query(id@),
{
    let mut url = String::from_str(API_BASE);
    url.append("beembk_modulmappings?$filter=beembk_Modul/beembk_modulnummer%20eq%20'");
    url.append(id);
    url.append("'&");
    url.append(MAPPING_EXPAND);
    url
}

/// The query for the objectives whose number starts with `id`.
pub fn objectives_url(id: &str) -> (r: String)
    ensures
        r@ == objectives_query(id@),
{
    let mut url = String::from_str(API_BASE);
    url.append("beembk_handlungsziels?$filter=startswith(beembk_handlungszielnr,'");
    url.append(id);
    url.append("')");
    url
}

/// The query for the objective details whose number starts with `id`.
pub fn details_url(id: &str) -> (r: String)
    ensures
        r@ == details_query(id@),
{
    let mut url = String::from_str(API_BASE);
    url.append("beembk_handlungsnotwendigeskenntnises?$filter=startswith(beembk_hanoknr,'");
    url.append(id);
    url.append("')");
    url
}

} // verus!
