use vstd::prelude::*;

verus! {

/// The concurrency limit used where none is given.
pub const DEFAULT_CONCURRENCY: usize = 10;

/// A setting that stops a run before any work starts.
#[derive(Clone, Copy, Debug, PartialEq, Eq, Structural)]
pub enum ConfigError {
    /// The API key is empty.
    EmptyApiKey,
    /// A concurrency limit of zero would never admit a job.
    ZeroConcurrency,
}

/// The settings of a run that the library reads.
pub struct Config {
    pub apikey: String,
    pub concurrency: usize,
}

impl Config {
    /// Checks the settings of a run: the API key must not be empty and the
    /// concurrency limit must be positive. An empty key is reported first.
    pub fn new(apikey: String, concurrency: usize) -> (r: Result<Config, ConfigError>)
        ensures
            r is Ok <==> apikey@.len() > 0 && concurrency > 0,
            apikey@.len() == 0 ==> r == Err::<Config, ConfigError>(ConfigError::EmptyApiKey),
            apikey@.len() > 0 && concurrency == 0 ==> r == Err::<Config, ConfigError>(
                ConfigError::ZeroConcurrency,
            ),
            r is Ok ==> r->Ok_0.apikey@ == apikey@ && r->Ok_0.concurrency == concurrency,
    {
        if apikey.as_str().is_empty() {
            Err(ConfigError::EmptyApiKey)
        } else if concurrency == 0 {
            Err(ConfigError::ZeroConcurrency)
        } else {
            Ok(Config { apikey, concurrency })
        }
    }
}

} // verus!
