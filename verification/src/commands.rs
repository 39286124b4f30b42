//! Command dispatch: one request in, one report out.
//!
//! The surrounding tool parses its arguments into a `Command`, hands it in
//! together with the repository, and receives a `Report` saying what to
//! print — or, for the search and transport collaborators, what external
//! action to take. All decisions are made here; the tool only renders and
//! executes.

use vstd::prelude::*;
use crate::category::valid_category;
use crate::text::lex_lt;
use crate::errors::MemoError;
use crate::gitops::{
    add_memo, archive_category, edit_memo, grep_args, list_archive_categories, list_categories,
    list_memos, memo_ref_names, remove_memos,
};
use crate::log::{ArchiveOutcome, RemoveOutcome};

verus! {

/// One request against the log.
pub enum Command {
    /// Append a record to a category.
    Add {
        /// The category appended to.
        category: String,
        /// The payload to record.
        message: String,
    },
    /// Read a category's records.
    List {
        /// The category read.
        category: String,
        /// Ask for the structured list-of-records form.
        json: bool,
    },
    /// Delete a category's pointer.
    Remove {
        /// The category removed.
        category: String,
    },
    /// List the live categories.
    Categories {
        /// Ask for the structured form.
        json: bool,
    },
    /// List the archived categories.
    ArchiveCategories {
        /// Ask for the structured form.
        json: bool,
    },
    /// Replace the newest record of a category.
    Edit {
        /// The category amended.
        category: String,
        /// The replacement payload.
        message: String,
    },
    /// Move a category's pointer into the archive namespace.
    Archive {
        /// The category archived.
        category: String,
    },
    /// Search the records for a pattern.
    Grep {
        /// The pattern handed to the search collaborator.
        pattern: String,
    },
    /// Transfer the memo pointers to a remote store.
    Push {
        /// The remote the transport collaborator sends to.
        remote: String,
    },
}

/// What a handled command asks the surrounding tool to show or do.
pub enum Report {
    /// A record was appended: its identifier, under this pointer.
    Recorded {
        /// The new head, in hexadecimal.
        oid: String,
        /// The pointer that was updated.
        refname: String,
    },
    /// A category's records, oldest first — each identifier with the first
    /// payload line — or `None` when no log exists for it.
    Memos {
        /// The category read.
        category: String,
        /// The records, or `None` for an absent log.
        records: Option<Vec<(String, String)>>,
        /// Whether the structured form was asked for.
        json: bool,
    },
    /// Whether a pointer was there to remove.
    Removed {
        /// The category.
        category: String,
        /// The pointer deleted, if it was there.
        refname: String,
        /// What happened.
        outcome: RemoveOutcome,
    },
    /// The live category names, each once, sorted.
    CategoryList {
        /// The names.
        names: Vec<String>,
        /// Whether the structured form was asked for.
        json: bool,
    },
    /// The archived category names, each once, sorted.
    ArchiveCategoryList {
        /// The names.
        names: Vec<String>,
        /// Whether the structured form was asked for.
        json: bool,
    },
    /// The newest record was replaced, or there was nothing to amend.
    Edited {
        /// The category.
        category: String,
        /// The pointer involved.
        refname: String,
        /// The replacement's identifier, or `None` when no log exists.
        new_oid: Option<String>,
    },
    /// Whether a pointer was there to archive.
    Archived {
        /// The category.
        category: String,
        /// The live pointer name.
        src: String,
        /// The archive pointer name.
        dst: String,
        /// What happened.
        outcome: ArchiveOutcome,
    },
    /// Arguments for the external search collaborator, or `None` when no
    /// memo pointer exists to search.
    Search {
        /// The argument list, pattern and pointer names included.
        args: Option<Vec<String>>,
    },
    /// The refspec for the external transport collaborator.
    Transfer {
        /// The remote to send to.
        remote: String,
        /// The refspec covering every memo pointer.
        refspec: String,
    },
}

/// The category a command names, where it names one.
pub open spec fn named_category(cmd: Command) -> Option<Seq<char>> {
    match cmd {
        Command::Add { category, .. } => Some(category@),
        Command::List { category, .. } => Some(category@),
        Command::Remove { category } => Some(category@),
        Command::Edit { category, .. } => Some(category@),
        Command::Archive { category } => Some(category@),
        Command::Categories { .. } => None,
        Command::ArchiveCategories { .. } => None,
        Command::Grep { .. } => None,
        Command::Push { .. } => None,
    }
}

/// What the report for a handled command says: the variant that answers the
/// request, with its fields tied to the request and to what the operations
/// promise of their results.
pub open spec fn report_matches(cmd: Command, rep: Report) -> bool {
    match cmd {
        Command::Add { category, .. } => rep matches Report::Recorded { oid, refname } && (
        refname@ == "refs/memo/"@ + category@ && oid@.len() == 40),
        Command::List { category, json } => rep matches Report::Memos {
            category: c,
            records,
            json: j,
        } && (c@ == category@ && j == json && (records matches Some(v) ==> v@.len() >= 1)),
        Command::Remove { category } => rep matches Report::Removed {
            category: c,
            refname,
            outcome: _,
        } && (c@ == category@ && refname@ == "refs/memo/"@ + category@),
        Command::Categories { json } => rep matches Report::CategoryList { names, json: j } && (j
            == json && (forall|a: int, b: int|
            0 <= a < b < names@.len() ==> lex_lt((#[trigger] names@[a])@, (#[trigger] names@[b])@))),
        Command::ArchiveCategories { json } => rep matches Report::ArchiveCategoryList {
            names,
            json: j,
        } && (j == json && (forall|a: int, b: int|
            0 <= a < b < names@.len() ==> lex_lt((#[trigger] names@[a])@, (#[trigger] names@[b])@))),
        Command::Edit { category, .. } => rep matches Report::Edited {
            category: c,
            refname,
            new_oid,
        } && (c@ == category@ && refname@ == "refs/memo/"@ + category@ && (new_oid matches Some(h)
            ==> h@.len() == 40)),
        Command::Archive { category } => rep matches Report::Archived {
            category: c,
            src,
            dst,
            outcome: _,
        } && (c@ == category@ && src@ == "refs/memo/"@ + category@ && dst@ == "refs/archive/"@
            + category@),
        Command::Grep { pattern } => rep matches Report::Search { args } && (args matches Some(v)
            ==> (v@.len() >= 4 && v@[0]@ == "log"@ && v@[1]@ == "--format=%s"@ && v@[2]@
            == "--grep"@ && v@[3]@ == pattern@)),
        Command::Push { remote } => rep matches Report::Transfer { remote: rm, refspec } && (rm@
            == remote@ && refspec@ == "refs/memo/*:refs/memo/*"@),
    }
}

/// Executes one command against the repository and says what to report.
/// Every operation validates its category before any store access.
pub fn handle_command(repo: &git2::Repository, cmd: &Command) -> (r: Result<Report, MemoError>)
    ensures
        r matches Ok(rep) ==> report_matches(*cmd, rep),
        r matches Err(e) ==> named_category(*cmd) matches Some(name) ==> (e matches
            MemoError::InvalidCategory { category: c } ==> (c@ == name && !valid_category(name))),
        named_category(*cmd) matches Some(name) ==> !valid_category(name) ==> (r matches Err(e)
            && e is InvalidCategory),
{
    match cmd {
        Command::Add { category, message } => {
            match add_memo(repo, category.as_str(), message.as_str(), None) {
                Ok(oid) => Ok(Report::Recorded {
                    oid,
                    refname: "refs/memo/".to_owned().concat(category.as_str()),
                }),
                Err(e) => Err(e),
            }
        },
        Command::List { category, json } => {
            match list_memos(repo, category.as_str()) {
                Ok(records) => Ok(Report::Memos { category: category.clone(), records, json: *json }),
                Err(e) => Err(e),
            }
        },
        Command::Remove { category } => {
            match remove_memos(repo, category.as_str()) {
                Ok(outcome) => Ok(Report::Removed {
                    category: category.clone(),
                    refname: "refs/memo/".to_owned().concat(category.as_str()),
                    outcome,
                }),
                Err(e) => Err(e),
            }
        },
        Command::Categories { json } => {
            match list_categories(repo) {
                Ok(names) => Ok(Report::CategoryList { names, json: *json }),
                Err(e) => Err(e),
            }
        },
        Command::ArchiveCategories { json } => {
            match list_archive_categories(repo) {
                Ok(names) => Ok(Report::ArchiveCategoryList { names, json: *json }),
                Err(e) => Err(e),
            }
        },
        Command::Edit { category, message } => {
            match edit_memo(repo, category.as_str(), message.as_str(), None) {
                Ok(new_oid) => Ok(Report::Edited {
                    category: category.clone(),
                    refname: "refs/memo/".to_owned().concat(category.as_str()),
                    new_oid,
                }),
                Err(e) => Err(e),
            }
        },
        Command::Archive { category } => {
            match archive_category(repo, category.as_str()) {
                Ok(outcome) => Ok(Report::Archived {
                    category: category.clone(),
                    src: "refs/memo/".to_owned().concat(category.as_str()),
                    dst: "refs/archive/".to_owned().concat(category.as_str()),
                    outcome,
                }),
                Err(e) => Err(e),
            }
        },
        Command::Grep { pattern } => {
            match memo_ref_names(repo) {
                Ok(refs) => Ok(Report::Search { args: grep_args(pattern.as_str(), &refs) }),
                Err(e) => Err(e),
            }
        },
        Command::Push { remote } => Ok(Report::Transfer {
            remote: remote.clone(),
            refspec: "refs/memo/*:refs/memo/*".to_owned(),
        }),
    }
}

/// Runs at most one command: with none given there is nothing to do, and
/// the surrounding tool shows its usage instead.
pub fn run(repo: &git2::Repository, cmd: Option<&Command>) -> (r: Result<Option<Report>, MemoError>)
    ensures
        cmd is None ==> (r matches Ok(rep) && rep is None),
        cmd matches Some(c) ==> (r matches Ok(rep) ==> (rep matches Some(rp) && report_matches(
            *c,
            rp,
        ))),
        cmd matches Some(c) ==> (r matches Err(e) ==> (named_category(*c) matches Some(name) ==> (
        e matches MemoError::InvalidCategory { category: cc } ==> (cc@ == name && !valid_category(
            name,
        ))))),
        cmd matches Some(c) ==> (named_category(*c) matches Some(name) ==> !valid_category(name)
            ==> (r matches Err(e) && e is InvalidCategory)),
{
    match cmd {
        None => Ok(None),
        Some(c) => {
            match handle_command(repo, c) {
                Ok(rep) => Ok(Some(rep)),
                Err(e) => Err(e),
            }
        },
    }
}

} // verus!
