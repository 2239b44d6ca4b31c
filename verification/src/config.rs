//! vaultpipe's configuration file: where it is and whether it parses.

use vstd::prelude::*;

verus! {

/// The text is a well-formed KDL document.
pub uninterp spec fn spec_kdl_document_parses(text: Seq<char>) -> bool;

#[verifier::external_type_specification]
#[verifier::external_body]
pub struct ExKdlError(kdl::KdlError);

/// The settings read from the configuration file (none yet).
#[derive(Debug)]
pub struct Config {}

/// Why the configuration could not be found or read.
#[derive(Debug)]
pub enum ConfigError {
    /// No configuration directory is known for the user.
    NoConfigDir,
    /// The configuration file's path is not valid Unicode.
    NonUnicodePath,
    /// The configuration file is not a KDL document.
    Parse(kdl::KdlError),
}

/// `xdg::BaseDirectories::with_prefix(prefix).get_config_file(name)`, with the
/// path turned into a `String` where it is valid Unicode. Which directory
/// it is depends on the user's environment (`XDG_CONFIG_HOME`, `HOME`), so
/// that is not stated; the path found is that directory joined with
/// `prefix/name`, so it ends with them.
#[verifier::external_body]
fn xdg_config_file(prefix: &str, name: &str) -> (r: Option<Option<String>>)
    requires
        prefix@.len() > 0,
        name@.len() > 0,
        forall|i: int| 0 <= i < prefix@.len() ==> prefix@[i] != '/',
        forall|i: int| 0 <= i < name@.len() ==> name@[i] != '/',
    ensures
        r matches Some(Some(p)) ==> (prefix@ + seq!['/'] + name@).is_suffix_of(p@),
{
    match xdg::BaseDirectories::with_prefix(prefix).get_config_file(name) {
        Some(path) => Some(path.into_os_string().into_string().ok()),
        None => None,
    }
}

/// `str::parse::<kdl::KdlDocument>`: succeeds exactly on well-formed KDL
/// documents. The document itself is not kept. The parser descends by
/// recursion into child blocks and comments; running out of stack on an
/// extremely deep document is, like running out of memory, not modelled.
#[verifier::external_body]
fn parse_kdl_document(text: &str) -> (r: Result<(), kdl::KdlError>)
    ensures
        r is Ok <==> spec_kdl_document_parses(text@),
{
    match text.parse::<kdl::KdlDocument>() {
        Ok(_) => Ok(()),
        Err(e) => Err(e),
    }
}

/// The configuration path taken from the user's configuration directory, as
/// looked up: none when there is no such directory, and an error when the
/// path is not valid Unicode.
pub fn config_path_from_default(default_path: Option<Option<String>>) -> (r: Result<String, ConfigError>)
    ensures
        match default_path {
            None => r matches Err(ConfigError::NoConfigDir),
            Some(None) => r matches Err(ConfigError::NonUnicodePath),
            Some(Some(p)) => r matches Ok(q) && q == p,
        },
{
    match default_path {
        None => Err(ConfigError::NoConfigDir),
        Some(None) => Err(ConfigError::NonUnicodePath),
        Some(Some(p)) => Ok(p),
    }
}

/// The configuration file to read: the one given, or else `config.kdl` in
/// vaultpipe's directory of the user's configuration directory.
pub fn config_file_path(file_name_candidate: Option<String>) -> (r: Result<String, ConfigError>)
    ensures
        file_name_candidate matches Some(name) ==> r matches Ok(p) && p == name,
        file_name_candidate is None ==> (r is Ok || r matches Err(ConfigError::NoConfigDir)
            || r matches Err(ConfigError::NonUnicodePath)),
        file_name_candidate is None ==> (r matches Ok(p) ==> ("vaultpipe"@ + seq!['/']
            + "config.kdl"@).is_suffix_of(p@)),
{
    match file_name_candidate {
        Some(file_name) => Ok(file_name),
        None => {
            proof {
                reveal_strlit("vaultpipe");
                reveal_strlit("config.kdl");
            }
            config_path_from_default(xdg_config_file("vaultpipe", "config.kdl"))
        },
    }
}

/// Reads the configuration from the file's contents, which must be a KDL
/// document.
pub fn parse_config(contents: &str) -> (r: Result<Config, ConfigError>)
    ensures
        r is Ok <==> spec_kdl_document_parses(contents@),
        r is Err ==> r matches Err(ConfigError::Parse(_)),
{
    match parse_kdl_document(contents) {
        Ok(()) => Ok(Config {}),
        Err(e) => Err(ConfigError::Parse(e)),
    }
}

} // verus!
