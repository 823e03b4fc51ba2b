//! The run's configuration: which repositories, branches and authors to
//! harvest, and the credential for the summarization service. Loading and
//! storing it is I/O and lives outside the library; here stand the value
//! itself and the documented default it falls back to.

use vstd::prelude::*;

verus! {

/// The configuration value handed into the pipeline: repository paths,
/// branch names, author identities, and the optional service credential.
pub struct Profile {
    pub repo_path: Vec<String>,
    pub branches: Vec<String>,
    pub authors: Vec<String>,
    pub authorization: Option<String>,
}

/// The documented placeholder configuration: one sample entry per list and
/// a placeholder credential.
pub open spec fn is_default_profile(p: Profile) -> bool {
    &&& p.repo_path@.len() == 1 && p.repo_path@[0]@ == "/path/to/your/repo"@
    &&& p.branches@.len() == 1 && p.branches@[0]@ == "master"@
    &&& p.authors@.len() == 1 && p.authors@[0]@ == "your_name"@
    &&& p.authorization is Some && p.authorization->0@ == "Bearer your_token"@
}

impl Profile {
    /// The profile used when no stored configuration can be read.
    pub fn default_profile() -> (r: Profile)
        ensures
            is_default_profile(r),
    {
        let mut repo_path: Vec<String> = Vec::new();
        repo_path.push(String::from_str("/path/to/your/repo"));
        let mut branches: Vec<String> = Vec::new();
        branches.push(String::from_str("master"));
        let mut authors: Vec<String> = Vec::new();
        authors.push(String::from_str("your_name"));
        Profile {
            repo_path,
            branches,
            authors,
            authorization: Some(String::from_str("Bearer your_token")),
        }
    }

    /// How a failed load is absorbed: whatever went wrong, the run goes on
    /// with the default profile rather than failing.
    #[allow(unused_variables)]
    pub fn error_handler(error: String) -> (r: Profile)
        ensures
            is_default_profile(r),
    {
        Profile::default_profile()
    }
}

} // verus!
