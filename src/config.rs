//! What a run is asked to do.
use crate::version::Bump;
use vstd::prelude::*;
use vstd::string::StringExecFns;

verus! {

/// The settings of a bump run.
#[derive(Clone, Debug)]
pub struct Config {
    /// The prefix of version tags; `None` means no prefix.
    pub prefix: Option<String>,
    /// Where the repository is; `None` means find it from the environment.
    pub repository_path: Option<String>,
    /// Keep the new tag local.
    pub no_push: bool,
    /// The bump level to apply without asking; `None` means ask.
    pub level: Option<Bump>,
}

impl Default for Config {
    fn default() -> (r: Config)
        ensures
            r.prefix matches Some(p) && p@ == seq!['v'],
            r.repository_path is None,
            !r.no_push,
            r.level is None,
    {
        proof {
            reveal_strlit("v");
        }
        Config { prefix: Some(String::from_str("v")), repository_path: None, no_push: false, level: None }
    }
}

/// The prefix in force: the configured one, or none.
pub open spec fn prefix_of(c: Config) -> Seq<char> {
    match c.prefix {
        Some(p) => p@,
        None => Seq::empty(),
    }
}

impl Config {
    /// The tag prefix, empty when none is configured.
    pub fn tag_prefix(&self) -> (r: &str)
        ensures
            r@ == prefix_of(*self),
    {
        proof {
            reveal_strlit("");
        }
        match &self.prefix {
            Some(p) => p.as_str(),
            None => "",
        }
    }

    /// The glob that selects candidate tags: the prefix followed by `*`, or
    /// `None` to list every tag when no prefix is configured.
    pub fn tag_pattern(&self) -> (r: Option<String>)
        ensures
            self.prefix is None <==> r is None,
            r matches Some(g) ==> g@ == prefix_of(*self) + seq!['*'],
    {
        proof {
            reveal_strlit("*");
        }
        match &self.prefix {
            Some(p) => {
                let mut g = String::from_str(p.as_str());
                g.append("*");
                Some(g)
            },
            None => None,
        }
    }
}

} // verus!
