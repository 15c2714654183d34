//! The commands of the client and what is checked before one runs: API
//! commands need an API key, and commands that reach the API warn when no API
//! version was chosen. Also the options every list command takes and the
//! connection settings taken from the global options.
use vstd::prelude::*;
use crate::config::clone_opt;
use crate::options::{missing_arguments_message, missing_message, GlobalOptions};
use crate::styled::{Style, StyledStr};

verus! {

/// The resources the API commands work on.
#[derive(Clone, Copy, PartialEq, Eq, Debug, Structural)]
pub enum ApiCommand {
    Artifacts,
    ArtifactVersions,
    Bundles,
    BundleOverrides,
    Binaries,
    BinaryParts,
    BinarySignatures,
    CaCertificates,
    Cohorts,
    Devices,
    DeviceCertificates,
    Products,
    Releases,
    SigningKeys,
    Tunnels,
    Webhooks,
}

/// The top-level commands.
#[derive(Clone, Copy, PartialEq, Eq, Debug, Structural)]
pub enum CliCommands {
    /// A command on a resource of the API.
    ApiCommand(ApiCommand),
    /// Inspect the calling user's identity.
    Users,
    /// Upgrade the client.
    Upgrade,
    /// Manage the client's configuration.
    Config,
    /// Create X.509 certificates and private keys.
    X509,
}

/// What is shown before a command runs.
#[derive(Debug)]
pub struct Preflight {
    /// The error listing missing arguments; the command does not run when set.
    pub missing: Option<StyledStr>,
    /// The warning that no API version was chosen.
    pub warning: Option<StyledStr>,
}

/// The checks before a command: an API command needs an API key (else the
/// error listing `--api-key`), and API and user commands warn when no API
/// version was chosen; the other commands run without either.
pub fn preflight(command: CliCommands, options: &GlobalOptions) -> (p: Preflight)
    ensures
        match command {
            CliCommands::ApiCommand(_) => {
                &&& (options.api_key is None <==> p.missing is Some)
                &&& (p.missing matches Some(m) ==> m@ == missing_message(seq!["--api-key"@]))
                &&& (options.api_version is None <==> p.warning is Some)
            },
            CliCommands::Users => p.missing is None && (options.api_version is None <==> p.warning is Some),
            _ => p.missing is None && p.warning is None,
        },
        p.warning matches Some(w) ==> w@ == seq![
            (Some(Style::Warning), "warning: "@),
            (None::<Style>, "No API version specified. Using default version 2."@),
        ],
{
    match command {
        CliCommands::ApiCommand(_) => {
            let missing = options.missing_arguments();
            let m = missing_arguments_message(&missing);
            proof {
                if options.api_key is None {
                    assert(crate::text::views(missing@) =~= seq!["--api-key"@]);
                }
            }
            Preflight { missing: m, warning: options.api_version_warning() }
        },
        CliCommands::Users => Preflight { missing: None, warning: options.api_version_warning() },
        _ => Preflight { missing: None, warning: None },
    }
}

/// The options every list command takes.
#[derive(Debug)]
pub struct ListArgs {
    /// The length of a page.
    pub limit: Option<u8>,
    /// Ascending or descending order.
    pub order: Option<String>,
    /// A query in the API's search language.
    pub search: String,
    /// The cursor of the page to fetch.
    pub page: Option<String>,
}

/// The list parameters an API request carries.
#[derive(Debug)]
pub struct ListParams {
    pub limit: Option<u8>,
    pub order: Option<String>,
    pub search: String,
    pub page: Option<String>,
}

/// Building list parameters from the command line's list options.
pub trait ListExt: Sized {
    /// The parameters for the given options.
    fn from_args(args: &ListArgs) -> (r: Self);
}

impl ListExt for ListParams {
    /// The same limit, order, search and page.
    fn from_args(args: &ListArgs) -> (r: Self)
        ensures
            r.limit == args.limit,
            r.order == args.order,
            r.search == args.search,
            r.page == args.page,
    {
        ListParams {
            limit: args.limit,
            order: clone_opt(&args.order),
            search: args.search.clone(),
            page: clone_opt(&args.page),
        }
    }
}

/// The settings a connection to the API is made with.
#[derive(Debug)]
pub struct ApiOptions {
    pub api_key: String,
    pub endpoint: Option<String>,
    pub ca_bundle_path: Option<String>,
}

/// Building connection settings from the global options.
pub trait ApiExt: Sized {
    /// The settings for the given options, which hold an API key.
    fn from_options(options: &GlobalOptions) -> (r: Self)
        requires
            options.api_key is Some,
    ;
}

impl ApiExt for ApiOptions {
    /// The API key, the base URL as endpoint and the CA path as bundle path.
    fn from_options(options: &GlobalOptions) -> (r: Self)
        ensures
            Some(r.api_key) == options.api_key,
            r.endpoint == options.base_url,
            r.ca_bundle_path == options.ca_path,
    {
        let api_key = match &options.api_key {
            Some(k) => k.clone(),
            None => String::new(),
        };
        ApiOptions { api_key, endpoint: clone_opt(&options.base_url), ca_bundle_path: clone_opt(&options.ca_path) }
    }
}

} // verus!
