//! The supported languages and, for each, the upstream field names that hold
//! its texts.

use vstd::prelude::*;

use crate::text::str_eq;

verus! {

/// A language that the catalogue is localised into.
#[derive(Debug, Clone, Copy, PartialEq, Eq, Structural)]
pub enum Language {
    De,
    Fr,
    It,
}

/// The language that a code names: `de`, `fr` or `it`.
pub open spec fn language_of(code: Seq<char>) -> Option<Language> {
    if code == "de"@ {
        Some(Language::De)
    } else if code == "fr"@ {
        Some(Language::Fr)
    } else if code == "it"@ {
        Some(Language::It)
    } else {
        None
    }
}

/// The upstream field names that hold the texts of one language.
#[derive(Debug, Clone, Copy, PartialEq, Eq)]
pub struct FieldKeys {
    /// The name of a learning site, which is the module's type.
    pub site: &'static str,
    pub title: &'static str,
    pub description: &'static str,
    pub competence: &'static str,
    /// The file name of the module's PDF document.
    pub pdf: &'static str,
    /// The name of a learning objective.
    pub objective: &'static str,
    /// The label of an objective's detail.
    pub detail: &'static str,
}

/// The field names of each language.
pub open spec fn keys_of(lang: Language) -> FieldKeys {
    match lang {
        Language::De => FieldKeys {
            site: "beembk_lernortname",
            title: "beembk_modultitel",
            description: "beembk_objektbeschreibung",
            competence: "beembk_kompetenz",
            pdf: "beembk_pdfname_de",
            objective: "beembk_handlungsziel",
            detail: "beembk_hanok",
        },
        Language::Fr => FieldKeys {
            site: "beembk_lernortname_fr",
            title: "beembk_modultitel_fr",
            description: "beembk_objektbeschreibung_fr",
            competence: "beembk_kompetenz_fr",
            pdf: "beembk_pdfname_fr",
            objective: "beembk_handlungsziel_fr",
            detail: "beembk_hanok_fr",
        },
        Language::It => FieldKeys {
            site: "beembk_lernortname_it",
            title: "beembk_modultitel_it",
            description: "beembk_objektbeschreibung_it",
            competence: "beembk_kompetenz_it",
            pdf: "beembk_pdfname_it",
            objective: "beembk_handlungsziel_it",
            detail: "beembk_hanok_it",
        },
    }
}

impl Language {
    /// The language that `code` names; no other code is read as a language.
    pub fn parse(code: &str) -> (r: Option<Language>)
        ensures
            r == language_of(code@),
    {
        if str_eq(code, "de") {
            Some(Language::De)
        } else if str_eq(code, "fr") {
            Some(Language::Fr)
        } else if str_eq(code, "it") {
            Some(Language::It)
        } else {
            None
        }
    }

    /// The upstream field names of this language.
    pub fn keys(self) -> (r: FieldKeys)
        ensures
            r == keys_of(self),
    {
        match self {
            Language::De => FieldKeys {
                site: "beembk_lernortname",
                title: "beembk_modultitel",
                description: "beembk_objektbeschreibung",
                competence: "beembk_kompetenz",
                pdf: "beembk_pdfname_de",
                objective: "beembk_handlungsziel",
                detail: "beembk_hanok",
            },
            Language::Fr => FieldKeys {
                site: "beembk_lernortname_fr",
                title: "beembk_modultitel_fr",
                description: "beembk_objektbeschreibung_fr",
                competence: "beembk_kompetenz_fr",
                pdf: "beembk_pdfname_fr",
                objective: "beembk_handlungsziel_fr",
                detail: "beembk_hanok_fr",
            },
            Language::It => FieldKeys {
                site: "beembk_lernortname_it",
                title: "beembk_modultitel_it",
                description: "beembk_objektbeschreibung_it",
                competence: "beembk_kompetenz_it",
                pdf: "beembk_pdfname_it",
                objective: "beembk_handlungsziel_it",
                detail: "beembk_hanok_it",
            },
        }
    }
}

} // verus!
