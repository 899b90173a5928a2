//! What the HTTP surface reads from a request and answers on failure.

use vstd::prelude::*;
use vstd::string::*;

use crate::module::ModuleError;
use crate::text::opt_text;

verus! {

/// The query parameters of the list and detail requests.
#[derive(Debug, Clone, PartialEq, Eq)]
pub struct QueryParams {
    pub lang: Option<String>,
    pub year: Option<String>,
    pub job_id: Option<String>,
}

impl QueryParams {
    /// The language asked for, or `default` where the request names none.
    pub fn language(&self, default: &str) -> (r: String)
        ensures
            r@ == match opt_text(self.lang) {
                Some(l) => l,
                None => default@,
            },
    {
        match &self.lang {
            Some(l) => l.clone(),
            None => String::from_str(default),
        }
    }
}

impl ModuleError {
    /// The HTTP status of a failed detail request: 404 where the module was
    /// not found, 500 otherwise.
    pub fn status_code(&self) -> (r: u16)
        ensures
            r == (if *self == ModuleError::NotFound {
                404u16
            } else {
                500u16
            }),
    {
        match self {
            ModuleError::NotFound => 404,
            _ => 500,
        }
    }

    /// The error text of a failed detail request.
    pub fn message(&self) -> (r: &'static str)
        ensures
            r@ == (if *self == ModuleError::NotFound {
                "Module not found"@
            } else {
                "Error fetching module"@
            }),
    {
        match self {
            ModuleError::NotFound => "Module not found",
            _ => "Error fetching module",
        }
    }
}

} // verus!
