//! The learning objectives of a module, each with the details that belong to
//! it by their dotted identifiers.

use vstd::prelude::*;
use vstd::string::*;

use crate::json::{as_text, index, text_or_empty, Json};
use crate::language::{keys_of, language_of, FieldKeys, Language};
use crate::module::ModuleError;
use crate::text::{decimal, decimal_string, starts_with};

verus! {

/// The member of a detail that holds its dotted identifier.
pub const DETAIL_NUMBER: &'static str = "beembk_hanoknr";

/// A learning objective with the details that belong to it.
#[derive(Debug, Clone, PartialEq, Eq)]
pub struct Objective {
    pub name: String,
    pub details: Vec<String>,
}

/// What an `Objective` holds, with its strings as characters.
pub struct ObjectiveView {
    pub name: Seq<char>,
    pub details: Seq<Seq<char>>,
}

impl View for Objective {
    type V = ObjectiveView;

    open spec fn view(&self) -> ObjectiveView {
        ObjectiveView { name: self.name@, details: self.details@.map_values(|s: String| s@) }
    }
}

/// Whether the identifier `nr` lies under objective `position` (counted from
/// one) of module `id`: it starts with `<id>.<position>` and goes on, if at
/// all, with a dot, so that `88601.1` takes in `88601.1.3` but not `88601.10`.
pub open spec fn belongs_to(nr: Seq<char>, id: Seq<char>, position: nat) -> bool {
    let p = id + "."@ + decimal(position);
    p.is_prefix_of(nr) && (nr.len() == p.len() || nr[p.len() as int] == '.')
}

/// The identifier of a detail.
pub open spec fn detail_number(d: Json) -> Option<Seq<char>> {
    as_text(index(d, DETAIL_NUMBER@))
}

/// The lines of the details, in their order, that lie under objective
/// `position` of module `id`: each is the detail's label, a space and its
/// identifier.
pub open spec fn details_under(
    details: Seq<Json>,
    id: Seq<char>,
    position: nat,
    label: Seq<char>,
) -> Seq<Seq<char>>
    decreases details.len(),
{
    if details.len() == 0 {
        Seq::empty()
    } else {
        let earlier = details_under(details.drop_last(), id, position, label);
        let d = details.last();
        match detail_number(d) {
            Some(nr) => if belongs_to(nr, id, position) {
                earlier.push(text_or_empty(index(d, label)) + " "@ + nr)
            } else {
                earlier
            },
            None => earlier,
        }
    }
}

/// Objective `i` (counted from zero) of `objectives`, with its details.
pub open spec fn objective_at(
    objectives: Seq<Json>,
    details: Seq<Json>,
    id: Seq<char>,
    keys: FieldKeys,
    i: int,
) -> ObjectiveView {
    ObjectiveView {
        name: text_or_empty(index(objectives[i], keys.objective@)),
        details: details_under(details, id, (i + 1) as nat, keys.detail@),
    }
}

/// The objectives of module `id` in their upstream order, each with its
/// details.
pub open spec fn objectives_of(
    objectives: Seq<Json>,
    details: Seq<Json>,
    id: Seq<char>,
    keys: FieldKeys,
) -> Seq<ObjectiveView> {
    Seq::new(objectives.len(), |i: int| objective_at(objectives, details, id, keys, i))
}

/// Whether the identifier `detail_nr` lies under objective `position`
/// (counted from one) of module `module_id`.
pub fn detail_belongs(detail_nr: &str, module_id: &str, position: usize) -> (r: bool)
    ensures
        r == belongs_to(detail_nr@, module_id@, position as nat),
{
    let mut prefix = String::from_str(module_id);
    prefix.append(".");
    let digits = decimal_string(position);
    prefix.append(digits.as_str());
    if !starts_with(detail_nr, prefix.as_str()) {
        return false;
    }
    let n = prefix.as_str().unicode_len();
    n == detail_nr.unicode_len() || detail_nr.get_char(n) == '.'
}

/// The lines of the details that lie under objective `position`.
fn lines_under(details: &Vec<Json>, module_id: &str, position: usize, label: &str) -> (r: Vec<
    String,
>)
    ensures
        r@.map_values(|s: String| s@) == details_under(details@, module_id@, position as nat, label@),
{
    let mut lines: Vec<String> = Vec::new();
    let mut t: usize = 0;
    while t < details.len()
        invariant
            t <= details@.len(),
            lines@.map_values(|s: String| s@) == details_under(
                details@.take(t as int),
                module_id@,
                position as nat,
                label@,
            ),
        decreases details.len() - t,
    {
        let d = &details[t];
        proof {
            assert(details@.take(t + 1).drop_last() =~= details@.take(t as int));
            assert(details@.take(t + 1).last() == *d);
        }
        match d.get(DETAIL_NUMBER) {
            Some(v) => match v.as_str() {
                Some(nr) => {
                    if detail_belongs(nr, module_id, position) {
                        let mut line = String::from_str(d.text_at(label));
                        line.append(" ");
                        line.append(nr);
                        let ghost before = lines@;
                        lines.push(line);
                        proof {
                            assert(lines@.map_values(|s: String| s@) =~= before.map_values(
                                |s: String| s@,
                            ).push(line@));
                        }
                    }
                },
                None => {},
            },
            None => {},
        }
        t = t + 1;
    }
    proof {
        assert(details@.take(details@.len() as int) =~= details@);
    }
    lines
}

/// The objectives of module `module_id` in `language`, each with the details
/// that lie under it; an unsupported language is an error.
pub fn get_module_objectives(
    module_id: &str,
    language: &str,
    objectives: &Vec<Json>,
    details: &Vec<Json>,
) -> (r: Result<Vec<Objective>, ModuleError>)
    ensures
        r is Err <==> language_of(language@) is None,
        r matches Err(e) ==> e == ModuleError::UnsupportedLanguage,
        r matches Ok(out) ==> out@.map_values(|o: Objective| o@) == objectives_of(
            objectives@,
            details@,
            module_id@,
            keys_of(language_of(language@)->Some_0),
        ),
{
    let keys = match Language::parse(language) {
        Some(l) => l.keys(),
        None => {
            return Err(ModuleError::UnsupportedLanguage);
        },
    };
    let mut out: Vec<Objective> = Vec::new();
    let mut i: usize = 0;
    while i < objectives.len()
        invariant
            i <= objectives@.len(),
            out@.len() == i,
            forall|q: int|
                0 <= q < i ==> (#[trigger] out@[q])@ == objective_at(
                    objectives@,
                    details@,
                    module_id@,
                    keys,
                    q,
                ),
        decreases objectives.len() - i,
    {
        let name = String::from_str(objectives[i].text_at(keys.objective));
        let lines = lines_under(details, module_id, i + 1, keys.detail);
        out.push(Objective { name, details: lines });
        i = i + 1;
    }
    proof {
        assert(out@.map_values(|o: Objective| o@) =~= objectives_of(
            objectives@,
            details@,
            module_id@,
            keys,
        ));
    }
    Ok(out)
}

} // verus!
