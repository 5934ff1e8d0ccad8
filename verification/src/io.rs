//! The logger's configuration — where log lines and results go — and the
//! judgement of verification outcomes. The logger here decides paths and
//! prefixes; the process around the library does the actual printing and
//! file writing.

use vstd::prelude::*;

use crate::config::Test;
use crate::docker::Verification;

verus! {

/// Where log output goes: an optional prefix on stdout lines, an optional
/// results directory, an optional per-test log directory and file. Not a
/// writer itself: a description the surrounding process writes by.
#[derive(Clone, Debug)]
pub struct Logger {
    pub prefix: Option<String>,
    pub results_dir: Option<String>,
    pub log_dir: Option<String>,
    pub log_file: Option<String>,
    pub quiet: bool,
}

impl Logger {
    /// A logger that only prints.
    pub fn default() -> (r: Logger)
        ensures
            r.prefix is None,
            r.results_dir is None,
            r.log_dir is None,
            r.log_file is None,
            !r.quiet,
    {
        Logger { prefix: None, results_dir: None, log_dir: None, log_file: None, quiet: false }
    }

    /// A printing logger whose lines carry `prefix`.
    pub fn with_prefix(prefix: &str) -> (r: Logger)
        ensures
            r.prefix.deep_view() == Some(prefix@),
            r.results_dir is None,
            r.log_dir is None,
            r.log_file is None,
            !r.quiet,
    {
        Logger {
            prefix: Some(String::from_str(prefix)),
            results_dir: None,
            log_dir: None,
            log_file: None,
            quiet: false,
        }
    }

    /// A logger that also writes under `log_dir`, which doubles as the
    /// results directory.
    pub fn in_dir(log_dir: &str) -> (r: Logger)
        ensures
            r.prefix is None,
            r.results_dir.deep_view() == Some(log_dir@),
            r.log_dir.deep_view() == Some(log_dir@),
            r.log_file is None,
            !r.quiet,
    {
        Logger {
            prefix: None,
            results_dir: Some(String::from_str(log_dir)),
            log_dir: Some(String::from_str(log_dir)),
            log_file: None,
            quiet: false,
        }
    }

    /// Scopes this logger to one test: the prefix becomes the test's name,
    /// and the log directory descends into a subdirectory of that name.
    pub fn set_test(&mut self, test: &Test)
        ensures
            ({
                let name = match test.name {
                    Some(n) => n@,
                    None => Seq::<char>::empty(),
                };
                &&& final(self).prefix.deep_view() == Some(name)
                &&& match old(self).log_dir {
                    Some(d) => final(self).log_dir.deep_view() == Some(d@ + "/"@ + name),
                    None => final(self).log_dir is None,
                }
                &&& final(self).results_dir == old(self).results_dir
                &&& final(self).log_file == old(self).log_file
                &&& final(self).quiet == old(self).quiet
            }),
    {
        let name = match &test.name {
            Some(n) => n.clone(),
            None => String::new(),
        };
        match &self.log_dir {
            Some(d) => {
                let mut sub = d.clone();
                sub.append("/");
                sub.append(name.as_str());
                self.log_dir = Some(sub);
            },
            None => {
            },
        }
        self.prefix = Some(name);
    }

    /// Points `log` calls at a file under the log directory; without a log
    /// directory this is a no-op.
    pub fn set_log_file(&mut self, file_name: &str)
        ensures
            match old(self).log_dir {
                Some(d) => final(self).log_file.deep_view() == Some(d@ + "/"@ + file_name@),
                None => final(self).log_file == old(self).log_file,
            },
            final(self).log_dir == old(self).log_dir,
            final(self).results_dir == old(self).results_dir,
            final(self).prefix == old(self).prefix,
            final(self).quiet == old(self).quiet,
    {
        match &self.log_dir {
            Some(d) => {
                let mut f = d.clone();
                f.append("/");
                f.append(file_name);
                self.log_file = Some(f);
            },
            None => {
            },
        }
    }
}

/// The verdict on one verification: an error outranks a warning, which
/// outranks a pass.
#[derive(Clone, Copy, Debug, PartialEq, Eq, Structural)]
pub enum VerificationStatus {
    Pass,
    Warn,
    Error,
}

/// The status the summary reports for one verification.
pub fn verification_status(v: &Verification) -> (r: VerificationStatus)
    ensures
        (r == VerificationStatus::Error) <==> v.errors@.len() > 0,
        (r == VerificationStatus::Warn) <==> (v.errors@.len() == 0 && v.warnings@.len() > 0),
        (r == VerificationStatus::Pass) <==> (v.errors@.len() == 0 && v.warnings@.len() == 0),
{
    if v.errors.len() > 0 {
        VerificationStatus::Error
    } else if v.warnings.len() > 0 {
        VerificationStatus::Warn
    } else {
        VerificationStatus::Pass
    }
}

/// Whether a verify run succeeded: true exactly when no verification holds
/// an error. The process exits non-zero otherwise.
pub fn verify_succeeded(verifications: &Vec<Verification>) -> (r: bool)
    ensures
        r <==> (forall|i: int|
            0 <= i < verifications@.len() ==> #[trigger] verifications@[i].errors@.len() == 0),
{
    let mut i: usize = 0;
    while i < verifications.len()
        invariant
            0 <= i <= verifications@.len(),
            forall|j: int| 0 <= j < i ==> #[trigger] verifications@[j].errors@.len() == 0,
        decreases verifications@.len() - i,
    {
        if verifications[i].errors.len() > 0 {
            return false;
        }
        i = i + 1;
    }
    true
}

} // verus!
