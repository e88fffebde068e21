//! The configuration of the client, and the token that it shows.

use vstd::prelude::*;
use crate::error::CliError;
use crate::text::{string_view, text_view, trim, trimmed_end, trimmed_start};

verus! {

/// What is kept between two runs of the client.
#[derive(Debug)]
pub struct StoredConfig {
    pub token: Option<String>,
}

impl Default for StoredConfig {
    fn default() -> (r: StoredConfig)
        ensures
            r.token is None,
    {
        StoredConfig { token: None }
    }
}

/// What came of reading the file of the configuration.
#[derive(Debug)]
pub enum ConfigFile<E> {
    /// It was read.
    Read(StoredConfig),
    /// It does not exist.
    Missing,
    /// It could not be read, or not be understood: why.
    Failed(E),
}

/// The configuration, and the file that it is kept in, named by a `P`.
#[derive(Debug)]
pub struct ConfigStore<P> {
    pub path: P,
    pub config: StoredConfig,
}

/// What comes of a file of the configuration: what it holds, or an empty configuration where it
/// does not exist.
pub open spec fn loads<P, E>(path: P, file: ConfigFile<E>, r: Result<ConfigStore<P>, E>) -> bool {
    match file {
        ConfigFile::Read(config) => r == Ok::<ConfigStore<P>, E>(ConfigStore { path, config }),
        ConfigFile::Missing => r matches Ok(store) && store.path == path && store.config.token
            is None,
        ConfigFile::Failed(e) => r == Err::<ConfigStore<P>, E>(e),
    }
}

impl<P> ConfigStore<P> {
    /// The configuration in a file; an empty one where the file does not exist.
    pub fn load<E>(path: P, file: ConfigFile<E>) -> (r: Result<ConfigStore<P>, E>)
        ensures
            loads(path, file, r),
    {
        match file {
            ConfigFile::Read(config) => Ok(ConfigStore { path, config }),
            ConfigFile::Missing => Ok(ConfigStore { path, config: StoredConfig::default() }),
            ConfigFile::Failed(e) => Err(e),
        }
    }

    /// The stored token.
    pub fn token(&self) -> (r: Option<&str>)
        ensures
            text_view(r) == string_view(self.config.token),
    {
        match &self.config.token {
            Some(token) => Some(token.as_str()),
            None => None,
        }
    }

    /// Keeps a token, in place of any that was kept before.
    pub fn set_token(&mut self, token: String)
        ensures
            string_view(final(self).config.token) == Some(token@),
            final(self).path == old(self).path,
    {
        self.config.token = Some(token);
    }

    /// Keeps no token.
    pub fn clear_token(&mut self)
        ensures
            string_view(final(self).config.token) is None,
            final(self).path == old(self).path,
    {
        self.config.token = None;
    }
}

/// The file of the configuration: the one that the environment names, or else the usual one.
pub fn config_path<P>(named: Option<P>, usual: Option<P>) -> (r: Result<P, CliError>)
    ensures
        match (named, usual) {
            (Some(path), _) => r == Ok::<P, CliError>(path),
            (None, Some(path)) => r == Ok::<P, CliError>(path),
            (None, None) => r == Err::<P, CliError>(CliError::NoConfigDirectory),
        },
{
    match named {
        Some(path) => Ok(path),
        None => match usual {
            Some(path) => Ok(path),
            None => Err(CliError::NoConfigDirectory),
        },
    }
}

/// Where the token of a run comes from.
#[derive(Debug)]
pub enum TokenSource<P> {
    /// The environment holds it.
    Given(String),
    /// A file holds it.
    File(P),
    /// It is the stored one, if there is one.
    Stored,
}

/// Where the token of a run comes from: the environment holds the token itself, or else names a
/// file that holds it, or else the stored one counts.
pub fn token_source<P>(token: Option<String>, file: Option<P>) -> (r: TokenSource<P>)
    ensures
        match (token, file) {
            (Some(t), _) => r == TokenSource::<P>::Given(t),
            (None, Some(path)) => r == TokenSource::<P>::File(path),
            (None, None) => r is Stored,
        },
{
    match token {
        Some(t) => TokenSource::Given(t),
        None => match file {
            Some(path) => TokenSource::File(path),
            None => TokenSource::Stored,
        },
    }
}

/// The token in a file that holds one: all of it but the white space around it.
pub fn token_from_file(contents: &str) -> (r: String)
    ensures
        r@ == trimmed_end(trimmed_start(contents@)),
{
    trim(contents)
}

} // verus!
