//! Verified core of the Peridio command line client: resource names (PRNs),
//! path normalisation, configuration migration, binary processing plans,
//! bundle archive bookkeeping and the messages shown to users.
pub mod text;
pub mod prn;
pub mod value_parser;
pub mod paths;
pub mod strmap;
pub mod styled;
pub mod config;
pub mod options;
pub mod binary;
pub mod upload;
pub mod binary_create;
pub mod digest;
pub mod bundle_format;
pub mod bundle_push;
pub mod profiles;
pub mod json;
pub mod bundle_create;
pub mod x509;
pub mod signing;
pub mod upgrade;
pub mod bundle_pull;
pub mod commands;
