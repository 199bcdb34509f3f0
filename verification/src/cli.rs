//! The command-line surface as plain data, and the decisions the command
//! handlers make before any input or output happens.
//!
//! Argument parsing, prompting and printing belong to the unverified outer
//! layer, which hands the chosen command over as these types.

use vstd::prelude::*;
use crate::color::{lower_hex, normalize_color, strip_hash, valid_color_chars};
use crate::error::BiaoError;
use crate::models::{CreateLabelRequest, UpdateLabelRequest};

verus! {

/// The parsed command line: one command to run.
pub struct Args {
    pub command: Commands,
}

/// Every command the tool offers.
#[allow(inconsistent_fields)]
pub enum Commands {
    Auth { subcommand: Option<AuthSubcommands> },
    List,
    Get { name: String },
    Create { name: String, color: String, description: Option<String> },
    Update {
        name: String,
        new_name: Option<String>,
        color: Option<String>,
        description: Option<String>,
    },
    Delete { name: String, force: bool },
    Apply { file: String, dry_run: bool, skip_existing: bool },
    Template { subcommand: TemplateSubcommands },
    Completion { subcommand: CompletionSubcommands },
}

/// The template subcommands.
pub enum TemplateSubcommands {
    List,
    Show { name: String },
    Apply { name: String, dry_run: bool, skip_existing: bool },
}

/// The shells completions can be generated for.
pub enum CompletionSubcommands {
    Bash,
    Zsh,
    Fish,
    Elvish,
}

/// The authentication subcommands.
pub enum AuthSubcommands {
    Login,
    Logout,
    Status,
}

/// Whether a command needs the enclosing git repository resolved before it
/// runs; authentication, templates and completions do not.
pub fn needs_repository(command: &Commands) -> (r: bool)
    ensures
        r == !(command is Auth || command is Template || command is Completion),
{
    !(matches!(command, Commands::Auth { .. })
        || matches!(command, Commands::Template { .. })
        || matches!(command, Commands::Completion { .. }))
}

/// The word the authentication tool is handed for each subcommand; a missing
/// subcommand means login.
pub fn auth_subcommand_arg(subcommand: &Option<AuthSubcommands>) -> (r: &'static str)
    ensures
        match subcommand {
            Some(AuthSubcommands::Logout) => r@ == "logout"@,
            Some(AuthSubcommands::Status) => r@ == "status"@,
            _ => r@ == "login"@,
        },
{
    match subcommand {
        Some(AuthSubcommands::Logout) => "logout",
        Some(AuthSubcommands::Status) => "status",
        _ => "login",
    }
}

/// Builds a creation request from the command's arguments, normalizing the
/// color first; a malformed color is rejected before any remote call.
pub fn build_create_request(name: &str, color: &str, description: Option<String>) -> (r: Result<
    CreateLabelRequest,
    BiaoError,
>)
    ensures
        match r {
            Ok(req) => valid_color_chars(strip_hash(color@)) && req@.name == name@ && req@.color
                == lower_hex(strip_hash(color@)) && req@.description == description.deep_view(),
            Err(e) => !valid_color_chars(strip_hash(color@)) && e is InvalidInput,
        },
{
    let normalized = match normalize_color(color) {
        Ok(c) => c,
        Err(e) => {
            return Err(e);
        },
    };
    Ok(CreateLabelRequest { name: String::from_str(name), color: normalized, description })
}

/// Builds an update request from the command's arguments, normalizing the
/// color when one is given; a malformed color is rejected before any remote
/// call.
pub fn build_update_request(
    new_name: Option<String>,
    color: Option<String>,
    description: Option<String>,
) -> (r: Result<UpdateLabelRequest, BiaoError>)
    ensures
        match r {
            Ok(req) => req@.name == new_name.deep_view() && req@.description
                == description.deep_view() && (match color {
                Some(c) => valid_color_chars(strip_hash(c@)) && req@.color == Some(
                    lower_hex(strip_hash(c@)),
                ),
                None => req@.color is None,
            }),
            Err(e) => (match color {
                Some(c) => !valid_color_chars(strip_hash(c@)),
                None => false,
            }) && e is InvalidInput,
        },
{
    let normalized: Option<String> = match &color {
        Some(c) => match normalize_color(c.as_str()) {
            Ok(s) => Some(s),
            Err(e) => {
                return Err(e);
            },
        },
        None => None,
    };
    Ok(UpdateLabelRequest { name: new_name, color: normalized, description })
}

} // verus!
