//! Module resolution: from upstream rows to localised module summaries and
//! details.

use vstd::prelude::*;
use vstd::string::*;

use crate::json::{as_text, index, int_or_zero_of, text_or_empty, Json};
use crate::language::{keys_of, language_of, FieldKeys, Language};
use crate::level::{parse_year, regex_compiles, year_of_label, LEADING_DIGITS};
use crate::text::{int_or_zero, parse_i64, parse_int};

verus! {

/// The member of a mapping row that holds the module.
pub const MODULE: &'static str = "beembk_Modul";
/// The module number, as a string.
pub const NUMBER: &'static str = "beembk_modulnummer";
/// The row version by which the mapping rows of one module are ranked.
pub const ROW_VERSION: &'static str = "versionnumber";
/// The module's published version, by which the versions of one module
/// are ranked.
pub const VERSION: &'static str = "beembk_version";
pub const MODIFIED: &'static str = "modifiedon";
pub const CREATED: &'static str = "createdon";
/// The member of a mapping row that holds the level.
pub const LEVEL: &'static str = "beembk_Level";
pub const LEVEL_NAME: &'static str = "beembk_levelname";
/// The member of a mapping row that holds the learning site.
pub const SITE: &'static str = "beembk_Lernort";

/// Why a module could not be resolved.
#[derive(Debug, Clone, Copy, PartialEq, Eq, Structural)]
pub enum ModuleError {
    /// No upstream row matches the module.
    NotFound,
    /// The language code is none of the supported ones.
    UnsupportedLanguage,
    /// The regex engine refused the pattern of leading digits.
    InvalidPattern,
}

/// A module as the list view shows it.
#[derive(Debug, Clone, PartialEq, Eq)]
pub struct ModuleSummary {
    pub number: i64,
    pub name: String,
    pub description: String,
    pub year: i64,
    pub version: i64,
    pub last_modified: String,
    pub creation_date: String,
    pub module_type: String,
}

/// What a `ModuleSummary` holds, with its strings as characters.
pub struct ModuleSummaryView {
    pub number: i64,
    pub name: Seq<char>,
    pub description: Seq<char>,
    pub year: i64,
    pub version: i64,
    pub last_modified: Seq<char>,
    pub creation_date: Seq<char>,
    pub module_type: Seq<char>,
}

impl View for ModuleSummary {
    type V = ModuleSummaryView;

    open spec fn view(&self) -> ModuleSummaryView {
        ModuleSummaryView {
            number: self.number,
            name: self.name@,
            description: self.description@,
            year: self.year,
            version: self.version,
            last_modified: self.last_modified@,
            creation_date: self.creation_date@,
            module_type: self.module_type@,
        }
    }
}

/// A module number written as a string.
pub open spec fn number_of(text: Seq<char>) -> Option<i64> {
    match parse_int(text) {
        Some(v) => Some(v as i64),
        None => None,
    }
}

/// The number of the module of a mapping row, where it has one.
pub open spec fn row_number(row: Json) -> Option<i64> {
    match as_text(index(index(row, MODULE@), NUMBER@)) {
        Some(t) => number_of(t),
        None => None,
    }
}

/// The published version of the module of a mapping row, by which the rows
/// of one module are ranked.
pub open spec fn row_version(row: Json) -> i64 {
    int_or_zero_of(index(index(row, MODULE@), VERSION@))
}

/// The module numbers of `rows`, each once, in the order of first appearance.
pub open spec fn numbers_in(rows: Seq<Json>) -> Seq<i64>
    decreases rows.len(),
{
    if rows.len() == 0 {
        Seq::empty()
    } else {
        let earlier = numbers_in(rows.drop_last());
        match row_number(rows.last()) {
            Some(n) => if earlier.contains(n) {
                earlier
            } else {
                earlier.push(n)
            },
            None => earlier,
        }
    }
}

/// Whether, among the first `len` rows, `k` is the row that stands for module
/// `n`: of the rows of that module it has the highest version, and it is
/// the first that has it.
pub open spec fn is_latest_in(rows: Seq<Json>, len: int, n: i64, k: int) -> bool {
    &&& 0 <= k < len <= rows.len()
    &&& row_number(rows[k]) == Some(n)
    &&& forall|m: int|
        0 <= m < len && row_number(#[trigger] rows[m]) == Some(n) ==> row_version(rows[m]) <= row_version(
            rows[k],
        )
    &&& forall|m: int|
        0 <= m < k && row_number(#[trigger] rows[m]) == Some(n) ==> row_version(rows[m]) < row_version(
            rows[k],
        )
}

pub open spec fn is_latest(rows: Seq<Json>, n: i64, k: int) -> bool {
    is_latest_in(rows, rows.len() as int, n, k)
}

/// The row that stands for module `n`.
pub open spec fn latest_of(rows: Seq<Json>, n: i64) -> int {
    choose|k: int| #[trigger] is_latest(rows, n, k)
}

/// The year of study of the level of a mapping row.
pub open spec fn row_year(row: Json) -> i64 {
    year_of_label(text_or_empty(index(index(row, LEVEL@), LEVEL_NAME@)))
}

/// Whether a module of `year` passes the year filter.
pub open spec fn year_wanted(filter: Option<Seq<char>>, year: i64) -> bool {
    match filter {
        Some(f) => year == int_or_zero(f),
        None => true,
    }
}

/// The summary that a mapping row gives of module `n`.
pub open spec fn summary_view(row: Json, n: i64, year: i64, keys: FieldKeys) -> ModuleSummaryView {
    let module = index(row, MODULE@);
    ModuleSummaryView {
        number: n,
        name: text_or_empty(index(module, keys.title@)),
        description: text_or_empty(index(module, keys.description@)),
        year: year,
        version: int_or_zero_of(index(module, VERSION@)),
        last_modified: text_or_empty(index(module, MODIFIED@)),
        creation_date: text_or_empty(index(module, CREATED@)),
        module_type: text_or_empty(index(index(row, SITE@), keys.site@)),
    }
}

/// The summaries of the modules `ns` that pass the language and year
/// filters, each drawn from the row that stands for it.
pub open spec fn listed(
    rows: Seq<Json>,
    ns: Seq<i64>,
    lang: Option<Language>,
    filter: Option<Seq<char>>,
) -> Seq<ModuleSummaryView>
    decreases ns.len(),
{
    if ns.len() == 0 {
        Seq::empty()
    } else {
        let earlier = listed(rows, ns.drop_last(), lang, filter);
        let n = ns.last();
        let row = rows[latest_of(rows, n)];
        match lang {
            Some(l) => if year_wanted(filter, row_year(row)) {
                earlier.push(summary_view(row, n, row_year(row), keys_of(l)))
            } else {
                earlier
            },
            None => earlier,
        }
    }
}

/// The list view of `rows` in the language `code`, filtered by year.
pub open spec fn module_list(
    rows: Seq<Json>,
    code: Seq<char>,
    filter: Option<Seq<char>>,
) -> Seq<ModuleSummaryView> {
    listed(rows, numbers_in(rows), language_of(code), filter)
}

proof fn lemma_push_contains(s: Seq<i64>, x: i64, n: i64)
    ensures
        s.push(x).contains(n) <==> (s.contains(n) || x == n),
{
    if s.contains(n) {
        let i = choose|i: int| 0 <= i < s.len() && s[i] == n;
        assert(s.push(x)[i] == n);
    }
    if x == n {
        assert(s.push(x)[s.len() as int] == n);
    }
    if s.push(x).contains(n) {
        let i = choose|i: int| 0 <= i < s.len() + 1 && s.push(x)[i] == n;
        if i < s.len() {
            assert(s[i] == n);
        }
    }
}

/// A module number is listed exactly when some row carries it.
pub proof fn lemma_numbers_in_contains(rows: Seq<Json>, n: i64)
    ensures
        numbers_in(rows).contains(n) <==> exists|m: int|
            0 <= m < rows.len() && row_number(#[trigger] rows[m]) == Some(n),
    decreases rows.len(),
{
    if rows.len() > 0 {
        let init = rows.drop_last();
        lemma_numbers_in_contains(init, n);
        if let Some(x) = row_number(rows.last()) {
            lemma_push_contains(numbers_in(init), x, n);
        }
        if exists|m: int| 0 <= m < init.len() && row_number(#[trigger] init[m]) == Some(n) {
            let m = choose|m: int| 0 <= m < init.len() && row_number(#[trigger] init[m]) == Some(n);
            assert(rows[m] == init[m]);
        }
        if exists|m: int| 0 <= m < rows.len() && row_number(#[trigger] rows[m]) == Some(n) {
            let m = choose|m: int| 0 <= m < rows.len() && row_number(#[trigger] rows[m]) == Some(n);
            if m < rows.len() - 1 {
                assert(init[m] == rows[m]);
            }
        }
    }
}

/// No module number is listed twice.
pub proof fn lemma_numbers_in_distinct(rows: Seq<Json>)
    ensures
        numbers_in(rows).no_duplicates(),
    decreases rows.len(),
{
    if rows.len() > 0 {
        lemma_numbers_in_distinct(rows.drop_last());
    }
}

/// At most one row stands for a module.
pub proof fn lemma_latest_unique(rows: Seq<Json>, len: int, n: i64, k1: int, k2: int)
    requires
        is_latest_in(rows, len, n, k1),
        is_latest_in(rows, len, n, k2),
    ensures
        k1 == k2,
{
    if k1 < k2 {
        assert(row_version(rows[k1]) < row_version(rows[k2]));
        assert(row_version(rows[k2]) <= row_version(rows[k1]));
    } else if k2 < k1 {
        assert(row_version(rows[k2]) < row_version(rows[k1]));
        assert(row_version(rows[k1]) <= row_version(rows[k2]));
    }
}

/// Every module that some row carries has a row that stands for it.
pub proof fn lemma_latest_exists(rows: Seq<Json>, len: int, n: i64)
    requires
        0 <= len <= rows.len(),
        exists|m: int| 0 <= m < len && row_number(#[trigger] rows[m]) == Some(n),
    ensures
        exists|k: int| #[trigger] is_latest_in(rows, len, n, k),
    decreases len,
{
    if exists|m: int| 0 <= m < len - 1 && row_number(#[trigger] rows[m]) == Some(n) {
        lemma_latest_exists(rows, len - 1, n);
        let k = choose|k: int| #[trigger] is_latest_in(rows, len - 1, n, k);
        if row_number(rows[len - 1]) == Some(n) && row_version(rows[len - 1]) > row_version(rows[k]) {
            assert(is_latest_in(rows, len, n, len - 1));
        } else {
            assert(is_latest_in(rows, len, n, k));
        }
    } else {
        assert(is_latest_in(rows, len, n, len - 1));
    }
}

spec fn has_latest(rows: Seq<Json>, n: i64) -> bool {
    exists|k: int| #[trigger] is_latest(rows, n, k)
}

proof fn lemma_listed(rows: Seq<Json>, ns: Seq<i64>, lang: Option<Language>, filter: Option<Seq<char>>)
    requires
        forall|q: int| 0 <= q < ns.len() ==> has_latest(rows, #[trigger] ns[q]),
    ensures
        forall|i: int|
            0 <= i < listed(rows, ns, lang, filter).len() ==> {
                let v = #[trigger] listed(rows, ns, lang, filter)[i];
                &&& ns.contains(v.number)
                &&& is_latest(rows, v.number, latest_of(rows, v.number))
                &&& v.version == int_or_zero_of(
                    index(index(rows[latest_of(rows, v.number)], MODULE@), VERSION@),
                )
            },
        ns.no_duplicates() ==> forall|i: int, j: int|
            0 <= i < j < listed(rows, ns, lang, filter).len() ==> (#[trigger] listed(
                rows,
                ns,
                lang,
                filter,
            )[i]).number != (#[trigger] listed(rows, ns, lang, filter)[j]).number,
    decreases ns.len(),
{
    if ns.len() > 0 {
        let init = ns.drop_last();
        assert forall|q: int| 0 <= q < init.len() implies has_latest(rows, #[trigger] init[q]) by {
            assert(init[q] == ns[q]);
        }
        lemma_listed(rows, init, lang, filter);
        let earlier = listed(rows, init, lang, filter);
        let n = ns.last();
        assert(ns[ns.len() - 1] == n);
        assert(has_latest(rows, ns[ns.len() - 1]));
        let all = listed(rows, ns, lang, filter);
        assert forall|i: int| 0 <= i < earlier.len() implies ns.contains(
            #[trigger] earlier[i].number,
        ) by {
            let q = choose|q: int| 0 <= q < init.len() && init[q] == earlier[i].number;
            assert(ns[q] == init[q]);
        }
        assert(ns.contains(n));
        if ns.no_duplicates() {
            assert(init.no_duplicates());
            assert forall|i: int| 0 <= i < earlier.len() implies (#[trigger] earlier[i]).number
                != n by {
                let q = choose|q: int| 0 <= q < init.len() && init[q] == earlier[i].number;
                assert(ns[q] == init[q]);
            }
        }
        assert(all.len() == earlier.len() || all.len() == earlier.len() + 1);
        assert forall|i: int| 0 <= i < earlier.len() implies all[i] == earlier[i] by {}
    }
}

/// Whether row `k` carries the module of `v` and gives `v` its version, and
/// no row of that module has a higher version.
pub open spec fn drawn_from(rows: Seq<Json>, v: ModuleSummaryView, k: int) -> bool {
    &&& 0 <= k < rows.len()
    &&& row_number(rows[k]) == Some(v.number)
    &&& v.version == row_version(rows[k])
    &&& forall|m: int|
        0 <= m < rows.len() && row_number(#[trigger] rows[m]) == Some(v.number) ==> row_version(
            rows[m],
        ) <= v.version
}

/// Whether some row is the one that `v` is drawn from.
pub open spec fn has_source(rows: Seq<Json>, v: ModuleSummaryView) -> bool {
    exists|k: int| #[trigger] drawn_from(rows, v, k)
}

/// In a list view each module number appears at most once, and the summary
/// of a number carries the highest version among the rows of that number,
/// and is drawn from a row that has it.
pub proof fn lemma_one_summary_per_number(rows: Seq<Json>, code: Seq<char>, filter: Option<Seq<char>>)
    ensures
        forall|i: int, j: int|
            0 <= i < j < module_list(rows, code, filter).len() ==> (#[trigger] module_list(
                rows,
                code,
                filter,
            )[i]).number != (#[trigger] module_list(rows, code, filter)[j]).number,
        forall|i: int|
            0 <= i < module_list(rows, code, filter).len() ==> has_source(
                rows,
                #[trigger] module_list(rows, code, filter)[i],
            ),
{
    let ns = numbers_in(rows);
    assert forall|q: int| 0 <= q < ns.len() implies has_latest(rows, #[trigger] ns[q]) by {
        lemma_numbers_in_contains(rows, ns[q]);
        assert(ns.contains(ns[q]));
        lemma_latest_exists(rows, rows.len() as int, ns[q]);
        let k = choose|k: int| #[trigger] is_latest_in(rows, rows.len() as int, ns[q], k);
        assert(is_latest(rows, ns[q], k));
    }
    lemma_numbers_in_distinct(rows);
    lemma_listed(rows, ns, language_of(code), filter);
    let list = module_list(rows, code, filter);
    assert forall|i: int| 0 <= i < list.len() implies has_source(rows, #[trigger] list[i]) by {
        let v = list[i];
        let k = latest_of(rows, v.number);
        assert(is_latest(rows, v.number, k));
        assert(drawn_from(rows, v, k));
    }
}

/// The number of the module of a mapping row.
fn module_number(row: &Json) -> (r: Option<i64>)
    ensures
        r == row_number(*row),
{
    match row.get(MODULE) {
        Some(m) => match m.get(NUMBER) {
            Some(v) => match v.as_str() {
                Some(t) => parse_i64(t),
                None => None,
            },
            None => None,
        },
        None => None,
    }
}

/// The summary that a mapping row gives of module `number`.
fn summarize(row: &Json, number: i64, year: i64, keys: FieldKeys) -> (r: ModuleSummary)
    ensures
        r@ == summary_view(*row, number, year, keys),
{
    let empty = Json::Null;
    let module = match row.get(MODULE) {
        Some(m) => m,
        None => &empty,
    };
    ModuleSummary {
        number,
        name: String::from_str(module.text_at(keys.title)),
        description: String::from_str(module.text_at(keys.description)),
        year,
        version: module.int_at(VERSION),
        last_modified: String::from_str(module.text_at(MODIFIED)),
        creation_date: String::from_str(module.text_at(CREATED)),
        module_type: String::from_str(row.text_at2(SITE, keys.site)),
    }
}

/// The list view: one summary for each module number that `rows` carry, in
/// the order of first appearance, drawn from the first row of that number
/// with the highest version, and kept where the language is supported
/// and the year passes `year` (a year that does not parse reads as zero).
pub fn get_modules(rows: &Vec<Json>, language: &str, year: &Option<String>) -> (r: Result<
    Vec<ModuleSummary>,
    ModuleError,
>)
    ensures
        r is Err <==> (!regex_compiles(LEADING_DIGITS@) && numbers_in(rows@).len() > 0),
        r matches Err(e) ==> e == ModuleError::InvalidPattern,
        r matches Ok(out) ==> out@.map_values(|s: ModuleSummary| s@) == module_list(
            rows@,
            language@,
            match year {
                Some(y) => Some(y@),
                None => None,
            },
        ),
{
    let ghost filter = match year {
        Some(y) => Some(y@),
        None => None,
    };
    // The module numbers in order of first appearance, and for each the
    // index of the row that stands for it so far.
    let mut numbers: Vec<i64> = Vec::new();
    let mut latest: Vec<usize> = Vec::new();
    let mut i: usize = 0;
    while i < rows.len()
        invariant
            i <= rows@.len(),
            numbers@ == numbers_in(rows@.take(i as int)),
            latest@.len() == numbers@.len(),
            forall|j: int|
                0 <= j < numbers@.len() ==> is_latest_in(
                    rows@,
                    i as int,
                    #[trigger] numbers@[j],
                    latest@[j] as int,
                ),
        decreases rows.len() - i,
    {
        let row = &rows[i];
        proof {
            assert(rows@.take(i + 1).drop_last() =~= rows@.take(i as int));
            assert(rows@.take(i + 1).last() == rows@[i as int]);
            lemma_numbers_in_distinct(rows@.take(i as int));
        }
        match module_number(row) {
            Some(n) => {
                let rank = row.int_at2(MODULE, VERSION);
                let mut j: usize = 0;
                while j < numbers.len() && numbers[j] != n
                    invariant
                        j <= numbers@.len(),
                        forall|q: int| 0 <= q < j ==> numbers@[q] != n,
                    decreases numbers.len() - j,
                {
                    j = j + 1;
                }
                if j < numbers.len() {
                    proof {
                        assert(numbers@[j as int] == n);
                        assert(is_latest_in(rows@, i as int, numbers@[j as int], latest@[j as int] as int));
                    }
                    let best = latest[j];
                    let best_rank = rows[best].int_at2(MODULE, VERSION);
                    if rank > best_rank {
                        latest.set(j, i);
                    }
                    proof {
                        assert forall|q: int| 0 <= q < numbers@.len() implies is_latest_in(
                            rows@,
                            i + 1,
                            #[trigger] numbers@[q],
                            latest@[q] as int,
                        ) by {
                            if q != j {
                                assert(numbers@[q] != n);
                            }
                        }
                    }
                } else {
                    proof {
                        lemma_numbers_in_contains(rows@.take(i as int), n);
                        if !numbers@.contains(n) {
                            assert forall|m: int| 0 <= m < i implies row_number(
                                #[trigger] rows@[m],
                            ) != Some(n) by {
                                assert(rows@.take(i as int)[m] == rows@[m]);
                            }
                        }
                    }
                    numbers.push(n);
                    latest.push(i);
                    proof {
                        assert forall|q: int| 0 <= q < numbers@.len() implies is_latest_in(
                            rows@,
                            i + 1,
                            #[trigger] numbers@[q],
                            latest@[q] as int,
                        ) by {
                            if q < numbers@.len() - 1 {
                                assert(numbers@[q] != n);
                            }
                        }
                    }
                }
            },
            None => {},
        }
        i = i + 1;
    }
    proof {
        assert(rows@.take(rows@.len() as int) =~= rows@);
        lemma_numbers_in_distinct(rows@);
    }
    let lang = Language::parse(language);
    let wanted: Option<i64> = match year {
        Some(y) => match parse_i64(y.as_str()) {
            Some(v) => Some(v),
            None => Some(0),
        },
        None => None,
    };
    let mut out: Vec<ModuleSummary> = Vec::new();
    let mut j: usize = 0;
    while j < numbers.len()
        invariant
            j <= numbers@.len(),
            numbers@ == numbers_in(rows@),
            latest@.len() == numbers@.len(),
            forall|q: int|
                0 <= q < numbers@.len() ==> is_latest(rows@, #[trigger] numbers@[q], latest@[q] as int),
            lang == language_of(language@),
            filter == (match year {
                Some(y) => Some(y@),
                None => None::<Seq<char>>,
            }),
            match wanted {
                Some(w) => filter is Some && w == int_or_zero(filter->Some_0),
                None => filter is None,
            },
            regex_compiles(LEADING_DIGITS@) || j == 0,
            out@.map_values(|s: ModuleSummary| s@) == listed(rows@, numbers@.take(j as int), lang, filter),
        decreases numbers.len() - j,
    {
        let n = numbers[j];
        let k = latest[j];
        let row = &rows[k];
        proof {
            lemma_latest_unique(rows@, rows@.len() as int, n, k as int, latest_of(rows@, n));
            assert(numbers@.take(j + 1).drop_last() =~= numbers@.take(j as int));
            assert(numbers@.take(j + 1).last() == n);
        }
        let y = match parse_year(row.text_at2(LEVEL, LEVEL_NAME)) {
            Ok(y) => y,
            Err(_) => {
                return Err(ModuleError::InvalidPattern);
            },
        };
        let keep = match wanted {
            Some(w) => y == w,
            None => true,
        };
        match lang {
            Some(l) => {
                if keep {
                    let summary = summarize(row, n, y, l.keys());
                    let ghost before = out@;
                    out.push(summary);
                    proof {
                        assert(out@.map_values(|s: ModuleSummary| s@) =~= before.map_values(
                            |s: ModuleSummary| s@,
                        ).push(summary@));
                    }
                }
            },
            None => {},
        }
        j = j + 1;
    }
    proof {
        assert(numbers@.take(numbers@.len() as int) =~= numbers@);
    }
    Ok(out)
}

} // verus!
