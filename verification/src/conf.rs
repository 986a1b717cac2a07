//! Persisted defaults and their merge with explicit invocation parameters.
//! The configuration file is read and parsed by the surrounding process;
//! this module holds the three optional fields and the precedence rule:
//! explicit parameters first, then the configuration, then the built-in
//! defaults.
use vstd::prelude::*;
use vstd::string::*;

verus! {

/// The persisted defaults: every field optional, read once at startup,
/// never mutated.
#[derive(Debug)]
pub struct Conf {
    pub out: Option<String>,
    pub template: Option<String>,
    pub jobs: Option<u8>,
}

impl Default for Conf {
    /// A configuration with nothing set.
    fn default() -> (c: Self)
        ensures
            c.out is None,
            c.template is None,
            c.jobs is None,
    {
        Conf { out: None, template: None, jobs: None }
    }
}

/// The explicit invocation parameters; a set field beats the
/// configuration and the defaults.
#[derive(Debug)]
pub struct Overrides {
    pub out: Option<String>,
    pub template: Option<String>,
    pub jobs: Option<u8>,
}

/// The settled run parameters after the merge.
#[derive(Debug)]
pub struct Settings {
    pub out: String,
    pub template: String,
    pub jobs: u8,
}

/// The default range literal: everything in range.
pub fn default_range() -> (r: String)
    ensures
        r@ == "~"@,
{
    String::from_str("~")
}

/// The default output root.
pub fn default_out() -> (r: String)
    ensures
        r@ == "/mnt/c/Users/Administrator/Downloads"@,
{
    String::from_str("/mnt/c/Users/Administrator/Downloads")
}

/// The default number of parallel download jobs.
pub fn default_jobs() -> (r: u8)
    ensures
        r == 8,
{
    8
}

/// The default filename template.
pub fn default_template() -> (r: String)
    ensures
        r@ == "{user_id}/{post_id}_{index}"@,
{
    String::from_str("{user_id}/{post_id}_{index}")
}

/// Merges explicit parameters with the persisted configuration: an
/// explicit value wins, a configured one comes second, and the built-in
/// default is last. The output root's last resort is the caller's
/// fallback, usually the platform download directory.
pub fn resolve(overrides: Overrides, conf: Conf, out_fallback: String) -> (s: Settings)
    ensures
        s.out@ == (match (overrides.out, conf.out) {
            (Some(o), _) => o@,
            (None, Some(c)) => c@,
            (None, None) => out_fallback@,
        }),
        s.template@ == (match (overrides.template, conf.template) {
            (Some(o), _) => o@,
            (None, Some(c)) => c@,
            (None, None) => "{user_id}/{post_id}_{index}"@,
        }),
        s.jobs == (match (overrides.jobs, conf.jobs) {
            (Some(o), _) => o,
            (None, Some(c)) => c,
            (None, None) => 8u8,
        }),
{
    let out = match overrides.out {
        Some(o) => o,
        None => match conf.out {
            Some(c) => c,
            None => out_fallback,
        },
    };
    let template = match overrides.template {
        Some(o) => o,
        None => match conf.template {
            Some(c) => c,
            None => default_template(),
        },
    };
    let jobs = match overrides.jobs {
        Some(o) => o,
        None => match conf.jobs {
            Some(c) => c,
            None => default_jobs(),
        },
    };
    Settings { out, template, jobs }
}

} // verus!
