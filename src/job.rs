//! The directory of training jobs: their identifiers, the identifiers by
//! which the upstream catalogue knows them, and their names.

use vstd::prelude::*;
use vstd::string::*;

use crate::language::{language_of, Language};
use crate::text::str_eq;

verus! {

/// A training job.
#[derive(Debug, Clone, Copy, PartialEq, Eq)]
pub struct Job {
    pub id: &'static str,
    /// The identifier by which the upstream catalogue knows the job.
    pub api_id: &'static str,
    pub name_de: &'static str,
    pub name_fr: &'static str,
    pub name_it: &'static str,
}

/// A job as the job list shows it.
#[derive(Debug, Clone, PartialEq, Eq)]
pub struct JobListing {
    pub id: String,
    pub name: String,
}

/// Reported for a job identifier that the directory does not hold.
#[derive(Debug, Clone, Copy, PartialEq, Eq, Structural)]
pub struct JobNotFound;

/// The jobs of the directory, in their order.
pub open spec fn catalog() -> Seq<Job> {
    seq![
        Job {
            id: "69201",
            api_id: "3b900e4d-1667-ed11-9562-000d3a83015d",
            name_de: "Entwickler/in digitales Business EFZ (ab 2023)",
            name_fr: "Développeuse/Développeur de business numérique CFC (dès 2023)",
            name_it: "Sviluppatrice/Sviluppatore business digitale AFC (dal 2023)",
        },
        Job {
            id: "88601",
            api_id: "4f50e7f3-6b82-eb11-a812-0022486f6f83",
            name_de: "Informatiker/in EFZ Applikationsentwicklung",
            name_fr: "Informaticien/ne CFC développement d'applications",
            name_it: "Informatico/a AFC Sviluppo di applicazioni",
        },
        Job {
            id: "88613",
            api_id: "13d8d40b-6d82-eb11-a812-0022486f6f83",
            name_de: "Informatiker/in EFZ Applikationsentwicklung (ab 2021)",
            name_fr: "Informaticien/ne CFC Développement d'applications (dès 2021)",
            name_it: "Informatico/a AFC Sviluppo di applicazioni (dal 2021)",
        },
        Job {
            id: "88612",
            api_id: "1eac87d6-6d82-eb11-a812-0022486f6f83",
            name_de: "Informatiker/in EFZ Plattformentwicklung (ab 2021)",
            name_fr: "Informaticien/ne CFC exploitation et infrastructure (dès 2021)",
            name_it: "Informatico/a AFC Gestione di infrastrutture (dal 2021)",
        },
        Job {
            id: "88614",
            api_id: "03a95323-bf92-eb11-b1ac-000d3a831ef4",
            name_de: "Informatiker/in EFZ Betriebsinformatik",
            name_fr: "Informaticien/ne CFC informatique d'entreprise",
            name_it: "Informatico/a AFC Informatica aziendale",
        },
        Job {
            id: "88614",
            api_id: "706fb04c-6e82-eb11-a812-0022486f6f83",
            name_de: "Betriebsinformatiker/in EFZ (ab 2021)",
            name_fr: "Informaticien/ne CFC Informatique d'entreprise (dès 2021)",
            name_it: "Informatico/a AFC Informatica aziendale (dal 2021)",
        },
        Job {
            id: "88603",
            api_id: "56567396-6e82-eb11-a812-0022486f6f83",
            name_de: "Informatiker/in EFZ Systemtechnik",
            name_fr: "Informaticien/ne CFC Technique des systèmes",
            name_it: "Informatico/a AFC Tecnica dei sistemi",
        },
        Job {
            id: "88609",
            api_id: "d1aa2e12-e592-eb11-b1ac-000d3a831ef4",
            name_de: "Gebäudeinformatiker/in EFZ Gebäudeautomation (ab 2021)",
            name_fr: "Informaticien/ne du bâtiment CFC automatisation des bâtiments (dès 2021)",
            name_it: "Informatico/a degli edifici domotica (dal 2021)",
        },
        Job {
            id: "88610",
            api_id: "2459e01c-e592-eb11-b1ac-000d3a831ef4",
            name_de: "Gebäudeinformatiker/in EFZ Kommunikation und Multimedia (ab 2021)",
            name_fr: "Informaticien/ne du bâtiment CFC communication et multimédia (dès 2021)",
            name_it: "Informatico/a degli edifici comunicazione e multimedia (dal 2021)",
        },
        Job {
            id: "88608",
            api_id: "a17098f7-6f82-eb11-a812-0022486f6f83",
            name_de: "Gebäudeinformatiker/in EFZ Planung (ab 2021)",
            name_fr: "Informaticien/ne du bâtiment CFC planification (dès 2021)",
            name_it: "Informatico/a degli edifici AFC progettazione (dal 2021)",
        },
        Job {
            id: "88606",
            api_id: "f2cb37d4-6e82-eb11-a812-0022486f6f83",
            name_de: "Mediamatiker/in EFZ (ab 2019)",
            name_fr: "Médiamaticien/ne CFC (dès 2019)",
            name_it: "Mediamatico/a AFC (dal 2019)",
        },
        Job {
            id: "88605",
            api_id: "f1e7a970-6f82-eb11-a812-0022486f6f83",
            name_de: "ICT-Fachfrau/ICT-Fachmann EFZ",
            name_fr: "Opératrice en informatique/Opérateur en informatique CFC",
            name_it: "Operatrice informatico/Operatore informatico AFC",
        },
    ]
}

/// The first of `jobs` with identifier `id`.
pub open spec fn find_job(jobs: Seq<Job>, id: Seq<char>) -> Option<Job>
    decreases jobs.len(),
{
    if jobs.len() == 0 {
        None
    } else if jobs[0].id@ == id {
        Some(jobs[0])
    } else {
        find_job(jobs.drop_first(), id)
    }
}

/// The name of a job in the language that `code` names, empty for any
/// other code.
pub open spec fn job_name(job: Job, code: Seq<char>) -> Seq<char> {
    match language_of(code) {
        Some(Language::De) => job.name_de@,
        Some(Language::Fr) => job.name_fr@,
        Some(Language::It) => job.name_it@,
        None => Seq::empty(),
    }
}

/// The jobs of the directory, in their order.
pub fn job_catalog() -> (r: Vec<Job>)
    ensures
        r@ == catalog(),
{
    let mut jobs: Vec<Job> = Vec::new();
    jobs.push(
        Job {
            id: "69201",
            api_id: "3b900e4d-1667-ed11-9562-000d3a83015d",
            name_de: "Entwickler/in digitales Business EFZ (ab 2023)",
            name_fr: "Développeuse/Développeur de business numérique CFC (dès 2023)",
            name_it: "Sviluppatrice/Sviluppatore business digitale AFC (dal 2023)",
        },
    );
    jobs.push(
        Job {
            id: "88601",
            api_id: "4f50e7f3-6b82-eb11-a812-0022486f6f83",
            name_de: "Informatiker/in EFZ Applikationsentwicklung",
            name_fr: "Informaticien/ne CFC développement d'applications",
            name_it: "Informatico/a AFC Sviluppo di applicazioni",
        },
    );
    jobs.push(
        Job {
            id: "88613",
            api_id: "13d8d40b-6d82-eb11-a812-0022486f6f83",
            name_de: "Informatiker/in EFZ Applikationsentwicklung (ab 2021)",
            name_fr: "Informaticien/ne CFC Développement d'applications (dès 2021)",
            name_it: "Informatico/a AFC Sviluppo di applicazioni (dal 2021)",
        },
    );
    jobs.push(
        Job {
            id: "88612",
            api_id: "1eac87d6-6d82-eb11-a812-0022486f6f83",
            name_de: "Informatiker/in EFZ Plattformentwicklung (ab 2021)",
            name_fr: "Informaticien/ne CFC exploitation et infrastructure (dès 2021)",
            name_it: "Informatico/a AFC Gestione di infrastrutture (dal 2021)",
        },
    );
    jobs.push(
        Job {
            id: "88614",
            api_id: "03a95323-bf92-eb11-b1ac-000d3a831ef4",
            name_de: "Informatiker/in EFZ Betriebsinformatik",
            name_fr: "Informaticien/ne CFC informatique d'entreprise",
            name_it: "Informatico/a AFC Informatica aziendale",
        },
    );
    jobs.push(
        Job {
            id: "88614",
            api_id: "706fb04c-6e82-eb11-a812-0022486f6f83",
            name_de: "Betriebsinformatiker/in EFZ (ab 2021)",
            name_fr: "Informaticien/ne CFC Informatique d'entreprise (dès 2021)",
            name_it: "Informatico/a AFC Informatica aziendale (dal 2021)",
        },
    );
    jobs.push(
        Job {
            id: "88603",
            api_id: "56567396-6e82-eb11-a812-0022486f6f83",
            name_de: "Informatiker/in EFZ Systemtechnik",
            name_fr: "Informaticien/ne CFC Technique des systèmes",
            name_it: "Informatico/a AFC Tecnica dei sistemi",
        },
    );
    jobs.push(
        Job {
            id: "88609",
            api_id: "d1aa2e12-e592-eb11-b1ac-000d3a831ef4",
            name_de: "Gebäudeinformatiker/in EFZ Gebäudeautomation (ab 2021)",
            name_fr: "Informaticien/ne du bâtiment CFC automatisation des bâtiments (dès 2021)",
            name_it: "Informatico/a degli edifici domotica (dal 2021)",
        },
    );
    jobs.push(
        Job {
            id: "88610",
            api_id: "2459e01c-e592-eb11-b1ac-000d3a831ef4",
            name_de: "Gebäudeinformatiker/in EFZ Kommunikation und Multimedia (ab 2021)",
            name_fr: "Informaticien/ne du bâtiment CFC communication et multimédia (dès 2021)",
            name_it: "Informatico/a degli edifici comunicazione e multimedia (dal 2021)",
        },
    );
    jobs.push(
        Job {
            id: "88608",
            api_id: "a17098f7-6f82-eb11-a812-0022486f6f83",
            name_de: "Gebäudeinformatiker/in EFZ Planung (ab 2021)",
            name_fr: "Informaticien/ne du bâtiment CFC planification (dès 2021)",
            name_it: "Informatico/a degli edifici AFC progettazione (dal 2021)",
        },
    );
    jobs.push(
        Job {
            id: "88606",
            api_id: "f2cb37d4-6e82-eb11-a812-0022486f6f83",
            name_de: "Mediamatiker/in EFZ (ab 2019)",
            name_fr: "Médiamaticien/ne CFC (dès 2019)",
            name_it: "Mediamatico/a AFC (dal 2019)",
        },
    );
    jobs.push(
        Job {
            id: "88605",
            api_id: "f1e7a970-6f82-eb11-a812-0022486f6f83",
            name_de: "ICT-Fachfrau/ICT-Fachmann EFZ",
            name_fr: "Opératrice en informatique/Opérateur en informatique CFC",
            name_it: "Operatrice informatico/Operatore informatico AFC",
        },
    );
    assert(jobs@ =~= catalog());
    jobs
}

/// The first of `jobs` with identifier `id`.
pub fn find_in(jobs: &Vec<Job>, id: &str) -> (r: Option<Job>)
    ensures
        r == find_job(jobs@, id@),
{
    let mut i: usize = 0;
    assert(jobs@.skip(0) =~= jobs@);
    while i < jobs.len()
        invariant
            i <= jobs@.len(),
            find_job(jobs@, id@) == find_job(jobs@.skip(i as int), id@),
        decreases jobs.len() - i,
    {
        assert(jobs@.skip(i as int).drop_first() =~= jobs@.skip(i + 1));
        assert(jobs@.skip(i as int)[0] == jobs@[i as int]);
        let job = jobs[i];
        if str_eq(job.id, id) {
            return Some(job);
        }
        i = i + 1;
    }
    None
}

/// The upstream identifier of job `job_id`: none for an empty identifier,
/// and an error for one that the directory does not hold.
pub fn get_api_id(job_id: &str) -> (r: Result<Option<String>, JobNotFound>)
    ensures
        job_id@.len() == 0 ==> r == Ok::<Option<String>, JobNotFound>(None),
        job_id@.len() > 0 ==> match find_job(catalog(), job_id@) {
            Some(job) => r matches Ok(Some(a)) && a@ == job.api_id@,
            None => r == Err::<Option<String>, JobNotFound>(JobNotFound),
        },
{
    if job_id.unicode_len() == 0 {
        return Ok(None);
    }
    let jobs = job_catalog();
    match find_in(&jobs, job_id) {
        Some(job) => Ok(Some(String::from_str(job.api_id))),
        None => Err(JobNotFound),
    }
}

/// The upstream identifier by which a list view is narrowed to a job: none
/// where no job is given or the directory does not hold it.
pub fn job_filter(job_id: &Option<String>) -> (r: Option<String>)
    ensures
        r matches Some(a) ==> (job_id matches Some(j) && a@ == find_job(catalog(), j@)->Some_0.api_id@),
        r is Some <==> (job_id matches Some(j) && j@.len() > 0 && find_job(catalog(), j@) is Some),
{
    match job_id {
        Some(j) => match get_api_id(j.as_str()) {
            Ok(found) => found,
            Err(_) => None,
        },
        None => None,
    }
}

/// The name of `job` in the language that `language` names, empty for any
/// other code.
pub fn name_in(job: &Job, language: &str) -> (r: &'static str)
    ensures
        r@ == job_name(*job, language@),
{
    proof {
        reveal_strlit("");
    }
    match Language::parse(language) {
        Some(Language::De) => job.name_de,
        Some(Language::Fr) => job.name_fr,
        Some(Language::It) => job.name_it,
        None => "",
    }
}

/// The jobs of the directory in their order, each with its name in
/// `language`.
pub fn get_jobs(language: &str) -> (r: Vec<JobListing>)
    ensures
        r@.len() == catalog().len(),
        forall|i: int|
            0 <= i < r@.len() ==> (#[trigger] r@[i]).id@ == catalog()[i].id@ && r@[i].name@
                == job_name(catalog()[i], language@),
{
    let jobs = job_catalog();
    let mut out: Vec<JobListing> = Vec::new();
    let mut i: usize = 0;
    while i < jobs.len()
        invariant
            jobs@ == catalog(),
            i <= jobs@.len(),
            out@.len() == i,
            forall|q: int|
                0 <= q < i ==> (#[trigger] out@[q]).id@ == catalog()[q].id@ && out@[q].name@
                    == job_name(catalog()[q], language@),
        decreases jobs.len() - i,
    {
        let job = &jobs[i];
        out.push(
            JobListing {
                id: String::from_str(job.id),
                name: String::from_str(name_in(job, language)),
            },
        );
        i = i + 1;
    }
    out
}

} // verus!
