//! The detail view of one module.

use vstd::prelude::*;
use vstd::string::*;

use crate::json::{index, int_or_zero_of, text_or_empty, Json};
use crate::language::{keys_of, language_of, Language};
use crate::level::{parse_year, regex_compiles, LEADING_DIGITS};
use crate::module::{
    row_year, ModuleError, CREATED, MODIFIED, NUMBER, ROW_VERSION, SITE, VERSION,
};
use crate::objective::{get_module_objectives, objectives_of, Objective, ObjectiveView};
use crate::text::{int_or_zero, parse_i64};

verus! {

/// Where the PDF documents of the modules are published.
pub const PDF_BASE: &'static str = "https://www.modulbaukasten.ch/Module/";

/// The year of study and the type (learning site) of a module.
#[derive(Debug, Clone, PartialEq, Eq)]
pub struct Placement {
    pub year: i64,
    pub module_type: String,
}

/// A module as the detail view shows it.
#[derive(Debug, Clone, PartialEq, Eq)]
pub struct ModuleDetail {
    pub number: i64,
    pub name: String,
    pub description: String,
    pub year: i64,
    pub module_type: String,
    pub version: i64,
    pub last_modified: String,
    pub creation_date: String,
    pub pdf: String,
    pub competence: String,
    pub objectives: Vec<Objective>,
}

/// What a `ModuleDetail` holds, with its strings as characters.
pub struct ModuleDetailView {
    pub number: i64,
    pub name: Seq<char>,
    pub description: Seq<char>,
    pub year: i64,
    pub module_type: Seq<char>,
    pub version: i64,
    pub last_modified: Seq<char>,
    pub creation_date: Seq<char>,
    pub pdf: Seq<char>,
    pub competence: Seq<char>,
    pub objectives: Seq<ObjectiveView>,
}

impl View for ModuleDetail {
    type V = ModuleDetailView;

    open spec fn view(&self) -> ModuleDetailView {
        ModuleDetailView {
            number: self.number,
            name: self.name@,
            description: self.description@,
            year: self.year,
            module_type: self.module_type@,
            version: self.version,
            last_modified: self.last_modified@,
            creation_date: self.creation_date@,
            pdf: self.pdf@,
            competence: self.competence@,
            objectives: self.objectives@.map_values(|o: Objective| o@),
        }
    }
}

/// The version of a row, read from its member `key`.
pub open spec fn rank(row: Json, key: Seq<char>) -> i64 {
    int_or_zero_of(index(row, key))
}

/// Whether `k` is the first of the rows with the highest version under `key`.
pub open spec fn is_first_highest(rows: Seq<Json>, key: Seq<char>, k: int) -> bool {
    &&& 0 <= k < rows.len()
    &&& forall|m: int| 0 <= m < rows.len() ==> rank(#[trigger] rows[m], key) <= rank(rows[k], key)
    &&& forall|m: int| 0 <= m < k ==> rank(#[trigger] rows[m], key) < rank(rows[k], key)
}

/// The first of the rows with the highest version under `key`.
pub open spec fn first_highest(rows: Seq<Json>, key: Seq<char>) -> int {
    choose|k: int| is_first_highest(rows, key, k)
}

proof fn lemma_first_highest_unique(rows: Seq<Json>, key: Seq<char>, k: int)
    requires
        is_first_highest(rows, key, k),
    ensures
        first_highest(rows, key) == k,
{
    let j = first_highest(rows, key);
    assert(is_first_highest(rows, key, j));
    if j < k {
        assert(rank(rows[j], key) < rank(rows[k], key));
    } else if k < j {
        assert(rank(rows[k], key) < rank(rows[j], key));
    }
}

/// The placement that a mapping row gives in language `lang`.
pub open spec fn placement_of(row: Json, lang: Language) -> (i64, Seq<char>) {
    (row_year(row), text_or_empty(index(index(row, SITE@), keys_of(lang).site@)))
}

/// What the placement lookup yields for the mapping rows of a module.
pub open spec fn placement_result(mappings: Seq<Json>, code: Seq<char>) -> Result<
    (i64, Seq<char>),
    ModuleError,
> {
    if mappings.len() == 0 {
        Err(ModuleError::NotFound)
    } else if !regex_compiles(LEADING_DIGITS@) {
        Err(ModuleError::InvalidPattern)
    } else {
        match language_of(code) {
            Some(l) => Ok(placement_of(mappings[first_highest(mappings, ROW_VERSION@)], l)),
            None => Err(ModuleError::UnsupportedLanguage),
        }
    }
}

/// The detail view that a module row, a placement and the objectives give.
pub open spec fn detail_view(
    module: Json,
    lang: Language,
    placement: (i64, Seq<char>),
    objectives: Seq<ObjectiveView>,
) -> ModuleDetailView {
    let keys = keys_of(lang);
    ModuleDetailView {
        number: int_or_zero(text_or_empty(index(module, NUMBER@))) as i64,
        name: text_or_empty(index(module, keys.title@)),
        description: text_or_empty(index(module, keys.description@)),
        year: placement.0,
        module_type: placement.1,
        version: int_or_zero_of(index(module, VERSION@)),
        last_modified: text_or_empty(index(module, MODIFIED@)),
        creation_date: text_or_empty(index(module, CREATED@)),
        pdf: PDF_BASE@ + text_or_empty(index(module, keys.pdf@)),
        competence: text_or_empty(index(module, keys.competence@)),
        objectives: objectives,
    }
}

/// The detail view of module `id` in language `code`, from the module rows
/// that match it, its mapping rows, its objectives and their details.
pub open spec fn module_detail(
    id: Seq<char>,
    code: Seq<char>,
    modules: Seq<Json>,
    mappings: Seq<Json>,
    objectives: Seq<Json>,
    details: Seq<Json>,
) -> Result<ModuleDetailView, ModuleError> {
    if modules.len() == 0 {
        Err(ModuleError::NotFound)
    } else {
        match placement_result(mappings, code) {
            Err(e) => Err(e),
            Ok(p) => {
                let lang = language_of(code)->Some_0;
                Ok(
                    detail_view(
                        modules[first_highest(modules, VERSION@)],
                        lang,
                        p,
                        objectives_of(objectives, details, id, keys_of(lang)),
                    ),
                )
            },
        }
    }
}

/// A detail request in a language that is not supported never yields a
/// module, in another language or any other; once the module and its mapping
/// rows are found and the digit pattern compiles, the error is the
/// unsupported-language one.
pub proof fn lemma_unsupported_language_fails(
    id: Seq<char>,
    code: Seq<char>,
    modules: Seq<Json>,
    mappings: Seq<Json>,
    objectives: Seq<Json>,
    details: Seq<Json>,
)
    requires
        language_of(code) is None,
    ensures
        module_detail(id, code, modules, mappings, objectives, details) is Err,
        modules.len() > 0 && mappings.len() > 0 && regex_compiles(LEADING_DIGITS@) ==> module_detail(
            id,
            code,
            modules,
            mappings,
            objectives,
            details,
        ) == Err::<ModuleDetailView, ModuleError>(ModuleError::UnsupportedLanguage),
{
}

/// The first of the rows with the highest version under `key`; no rows
/// means that the module was not found.
pub fn latest_row(rows: &Vec<Json>, key: &str) -> (r: Result<usize, ModuleError>)
    ensures
        r is Err <==> rows@.len() == 0,
        r matches Err(e) ==> e == ModuleError::NotFound,
        r matches Ok(k) ==> is_first_highest(rows@, key@, k as int) && k == first_highest(
            rows@,
            key@,
        ),
{
    if rows.len() == 0 {
        return Err(ModuleError::NotFound);
    }
    let mut best: usize = 0;
    let mut best_rank = rows[0].int_at(key);
    let mut i: usize = 1;
    while i < rows.len()
        invariant
            1 <= i <= rows@.len(),
            best < i,
            best_rank == rank(rows@[best as int], key@),
            forall|m: int| 0 <= m < i ==> rank(#[trigger] rows@[m], key@) <= best_rank,
            forall|m: int| 0 <= m < best ==> rank(#[trigger] rows@[m], key@) < best_rank,
        decreases rows.len() - i,
    {
        let r = rows[i].int_at(key);
        if r > best_rank {
            best = i;
            best_rank = r;
        }
        i = i + 1;
    }
    proof {
        lemma_first_highest_unique(rows@, key@, best as int);
    }
    Ok(best)
}

/// The year of study and the type of a module, from its mapping rows: the
/// first row with the highest row version counts.
pub fn get_module_detail(mappings: &Vec<Json>, language: &str) -> (r: Result<Placement, ModuleError>)
    ensures
        match placement_result(mappings@, language@) {
            Ok(p) => r matches Ok(q) && q.year == p.0 && q.module_type@ == p.1,
            Err(e) => r == Err::<Placement, ModuleError>(e),
        },
{
    let k = match latest_row(mappings, ROW_VERSION) {
        Ok(k) => k,
        Err(e) => {
            return Err(e);
        },
    };
    let row = &mappings[k];
    let year = match parse_year(row.text_at2(crate::module::LEVEL, crate::module::LEVEL_NAME)) {
        Ok(y) => y,
        Err(_) => {
            return Err(ModuleError::InvalidPattern);
        },
    };
    let keys = match Language::parse(language) {
        Some(l) => l.keys(),
        None => {
            return Err(ModuleError::UnsupportedLanguage);
        },
    };
    Ok(Placement { year, module_type: String::from_str(row.text_at2(SITE, keys.site)) })
}

/// The detail view built from a module row, its placement and its
/// objectives; an unsupported language is an error.
pub fn assemble_module(
    module: &Json,
    language: &str,
    placement: Placement,
    objectives: Vec<Objective>,
) -> (r: Result<ModuleDetail, ModuleError>)
    ensures
        r is Err <==> language_of(language@) is None,
        r matches Err(e) ==> e == ModuleError::UnsupportedLanguage,
        r matches Ok(d) ==> d@ == detail_view(
            *module,
            language_of(language@)->Some_0,
            (placement.year, placement.module_type@),
            objectives@.map_values(|o: Objective| o@),
        ),
{
    let keys = match Language::parse(language) {
        Some(l) => l.keys(),
        None => {
            return Err(ModuleError::UnsupportedLanguage);
        },
    };
    let number = match parse_i64(module.text_at(NUMBER)) {
        Some(v) => v,
        None => 0,
    };
    let mut pdf = String::from_str(PDF_BASE);
    pdf.append(module.text_at(keys.pdf));
    Ok(
        ModuleDetail {
            number,
            name: String::from_str(module.text_at(keys.title)),
            description: String::from_str(module.text_at(keys.description)),
            year: placement.year,
            module_type: placement.module_type,
            version: module.int_at(VERSION),
            last_modified: String::from_str(module.text_at(MODIFIED)),
            creation_date: String::from_str(module.text_at(CREATED)),
            pdf,
            competence: String::from_str(module.text_at(keys.competence)),
            objectives,
        },
    )
}

/// The detail view of module `module_id` in `language`, from the module rows
/// that match it (the first with the highest version counts), its
/// mapping rows, its objectives and their details. No module rows or no
/// mapping rows mean that the module was not found; an unsupported language
/// is an error of its own.
pub fn get_module(
    module_id: &str,
    language: &str,
    modules: &Vec<Json>,
    mappings: &Vec<Json>,
    objectives: &Vec<Json>,
    details: &Vec<Json>,
) -> (r: Result<ModuleDetail, ModuleError>)
    ensures
        match module_detail(module_id@, language@, modules@, mappings@, objectives@, details@) {
            Ok(v) => r matches Ok(d) && d@ == v,
            Err(e) => r == Err::<ModuleDetail, ModuleError>(e),
        },
{
    let k = match latest_row(modules, VERSION) {
        Ok(k) => k,
        Err(e) => {
            return Err(e);
        },
    };
    let placement = match get_module_detail(mappings, language) {
        Ok(p) => p,
        Err(e) => {
            return Err(e);
        },
    };
    let found = match get_module_objectives(module_id, language, objectives, details) {
        Ok(o) => o,
        Err(e) => {
            return Err(e);
        },
    };
    assemble_module(&modules[k], language, placement, found)
}

} // verus!
