//! Verified core of the sui-id identity provider: locale negotiation and
//! formatting, consent checks, the admin panel's and security pages' rules,
//! password-reset tokens and mails, refresh-token lookup, schema migration
//! planning, backup archives and command-line parsing.

pub mod admin;
pub mod backup;
pub mod cli;
pub mod consent;
pub mod forgot_password;
pub mod formatters;
pub mod i18n;
pub mod json_util;
pub mod migrations;
pub mod pages;
pub mod refresh_tokens;
pub mod step_up;
pub mod tar;
pub mod text;
