//! Runtime configuration: which environment the service runs in and the key
//! the narration backend presents. The boundary fills this from the process
//! environment.

use vstd::prelude::*;

verus! {

#[derive(Copy, Clone, Debug, PartialEq, Eq, Structural)]
pub enum RuntimeEnv {
    Development,
    Production,
}

#[derive(Clone, Debug)]
pub struct AppEnvironment {
    pub environment: RuntimeEnv,
    pub openai_api_key: String,
}

impl AppEnvironment {
    /// Development relaxes boundary concerns such as the canonical-domain
    /// redirect.
    pub fn is_development(&self) -> (r: bool)
        ensures
            r == (self.environment == RuntimeEnv::Development),
    {
        self.environment == RuntimeEnv::Development
    }
}

} // verus!
