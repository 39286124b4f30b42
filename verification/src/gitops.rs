//! The log operations against a Git repository.
//!
//! A Git repository realizes both stores: the object database is the content
//! store (commits are the chain nodes, content-addressed by their hash), and
//! the references under `refs/memo/` are the head pointers, with the
//! atomicity of reference updates supplying the compare-and-swap. Every call
//! into the repository goes through a small trusted wrapper; the protocol
//! around the calls — validation, identity resolution, the retry loop, chain
//! traversal, name listing — is verified.

use vstd::prelude::*;
use crate::category::{valid_category, validate_category};
use crate::controller::MAX_ATTEMPTS;
use crate::errors::MemoError;
use crate::identity::{resolve_identity, Identity};
use crate::log::{ArchiveOutcome, RemoveOutcome};
use crate::node::Timestamp;
use crate::text::{
    first_line, hex_string, lemma_spec_hex_len, lex_lt, spec_hex, str_eq, str_lt,
    str_starts_with, strip_prefix,
};

verus! {

/// The repository handle every operation works against.
#[verifier::external_type_specification]
#[verifier::external_body]
pub struct ExRepository(git2::Repository);

/// The error type the repository reports.
#[verifier::external_type_specification]
#[verifier::external_body]
pub struct ExGitError(git2::Error);

/// Relies on `git2::Error::message`: the store's own description of what
/// went wrong, preserved for the caller.
#[verifier::external_body]
fn error_message(e: &git2::Error) -> String {
    e.message().to_string()
}

/// Relies on `git2::Error::code`: true exactly for the codes that mean the
/// reference moved under a compare-and-swap (not fast-forward, modified,
/// locked, already exists) — the conflicts an append may retry.
#[verifier::external_body]
fn err_is_conflict(e: &git2::Error) -> bool {
    matches!(
        e.code(),
        git2::ErrorCode::NotFastForward
            | git2::ErrorCode::Modified
            | git2::ErrorCode::Locked
            | git2::ErrorCode::Exists
    )
}

/// Relies on `git2::Error::code`: true exactly for the not-found code, the
/// normal outcome of reading an absent reference.
#[verifier::external_body]
fn err_is_not_found(e: &git2::Error) -> bool {
    matches!(e.code(), git2::ErrorCode::NotFound)
}

/// Relies on `git2::Error::code`: true exactly for the already-exists code,
/// which a non-overwriting rename reports when the target is taken.
#[verifier::external_body]
fn err_is_exists(e: &git2::Error) -> bool {
    matches!(e.code(), git2::ErrorCode::Exists)
}

/// Turns a fatal store error into the library's error, keeping the cause.
fn store_failure(e: git2::Error) -> (r: MemoError)
    ensures
        r is StoreFailure,
{
    MemoError::StoreFailure { message: error_message(&e) }
}

/// Relies on `git2::Repository::refname_to_id` (`git_reference_name_to_id`):
/// the identifier the reference currently holds, as twenty raw hash bytes;
/// the not-found error when the reference is absent.
#[verifier::external_body]
fn git_refname_to_id(repo: &git2::Repository, refname: &str) -> (r: Result<Vec<u8>, git2::Error>)
    ensures
        r matches Ok(v) ==> v@.len() == 20,
{
    Ok(repo.refname_to_id(refname)?.as_bytes().to_vec())
}

/// Relies on `git2::Repository::head`, `Reference::peel_to_commit` and
/// `Commit::tree_id` for the checked-out tree, and on
/// `Repository::treebuilder` and `TreeBuilder::write` for the empty tree of
/// a repository without commits. Every chain node carries this tree.
#[verifier::external_body]
fn git_base_tree(repo: &git2::Repository) -> (r: Result<Vec<u8>, git2::Error>)
    ensures
        r matches Ok(v) ==> v@.len() == 20,
{
    match repo.head().ok().and_then(|h| h.peel_to_commit().ok()) {
        Some(c) => Ok(c.tree_id().as_bytes().to_vec()),
        None => Ok(repo.treebuilder(None)?.write()?.as_bytes().to_vec()),
    }
}

/// What a node's identifier is: the content hash the repository assigns to a
/// commit built from exactly these components. Identical components always
/// hash identically; nothing else enters the hash.
pub uninterp spec fn commit_oid_of(
    tree: Seq<u8>,
    author_name: Seq<char>,
    author_email: Seq<char>,
    secs: int,
    offset_min: int,
    message: Seq<char>,
    parent: Option<Seq<u8>>,
) -> Seq<u8>;

/// The raw bytes of an optional identifier.
pub open spec fn opt_bytes(p: Option<&Vec<u8>>) -> Option<Seq<u8>> {
    match p {
        Some(v) => Some(v@),
        None => None,
    }
}

/// Relies on `git2::Repository::commit` (`git_commit_create`): writes the
/// commit object and updates `refname` to it, refusing with a conflict code
/// when the reference does not currently equal the commit's first parent,
/// when a concurrent writer moves it before the write lands, or when a
/// racing create takes an absent name first. One narrow corner is weaker
/// than a full compare-and-swap: a reference deleted between the caller's
/// read and this call is recreated rather than refused. The resulting
/// identifier is the content hash of the commit's components; with an
/// explicit timestamp it is a function of the arguments alone. Relies on
/// `Signature::new`/`Signature::now` and `Time::new` for the author, and on
/// `Oid::from_bytes`, `Repository::find_tree` and `Repository::find_commit`
/// to resolve the tree and parent.
#[verifier::external_body]
fn git_commit_cas(
    repo: &git2::Repository,
    refname: &str,
    tree: &Vec<u8>,
    author_name: &str,
    author_email: &str,
    timestamp: Option<Timestamp>,
    message: &str,
    parent: Option<&Vec<u8>>,
) -> (r: Result<Vec<u8>, git2::Error>)
    ensures
        r matches Ok(v) ==> v@.len() == 20,
        r matches Ok(v) ==> timestamp matches Some(t) ==> v@ == commit_oid_of(
            tree@,
            author_name@,
            author_email@,
            t.secs as int,
            t.offset_min as int,
            message@,
            opt_bytes(parent),
        ),
{
    let sig = match &timestamp {
        Some(t) => git2::Signature::new(author_name, author_email, &git2::Time::new(t.secs, t.offset_min)),
        None => git2::Signature::now(author_name, author_email),
    }?;
    let tree = repo.find_tree(git2::Oid::from_bytes(tree)?)?;
    let parent = match parent {
        Some(p) => Some(repo.find_commit(git2::Oid::from_bytes(p)?)?),
        None => None,
    };
    let parents: Vec<&git2::Commit<'_>> = parent.iter().collect();
    Ok(repo.commit(Some(refname), &sig, &sig, message, &tree, &parents)?.as_bytes().to_vec())
}

/// Relies on `git2::Commit::amend` (`git_commit_amend`): writes a commit
/// with the same tree and parents as `old_head` but the new author and
/// message, and moves `refname` from `old_head` to it. A reference that no
/// longer points at `old_head` is refused — with a conflict code when the
/// final update loses the race, but with a generic code when the amend's own
/// up-front tip check catches the move first. Relies on `Oid::from_bytes`,
/// `Repository::find_commit`, `Commit::tree`, `Signature::new`/
/// `Signature::now` and `Time::new`.
#[verifier::external_body]
fn git_amend_head(
    repo: &git2::Repository,
    refname: &str,
    old_head: &Vec<u8>,
    author_name: &str,
    author_email: &str,
    timestamp: Option<Timestamp>,
    message: &str,
) -> (r: Result<Vec<u8>, git2::Error>)
    ensures
        r matches Ok(v) ==> v@.len() == 20,
{
    let sig = match &timestamp {
        Some(t) => git2::Signature::new(author_name, author_email, &git2::Time::new(t.secs, t.offset_min)),
        None => git2::Signature::now(author_name, author_email),
    }?;
    let commit = repo.find_commit(git2::Oid::from_bytes(old_head)?)?;
    let tree = commit.tree()?;
    let oid = commit.amend(Some(refname), Some(&sig), Some(&sig), None, Some(message), Some(&tree))?;
    Ok(oid.as_bytes().to_vec())
}

/// Relies on `git2::Repository::find_commit`, `Commit::message_bytes` and
/// `Commit::parent_id`: one stored node — its payload and, unless it is a
/// chain's first node, the identifier of its parent.
#[verifier::external_body]
fn git_commit_read(repo: &git2::Repository, oid: &Vec<u8>) -> (r: Result<
    (String, Option<Vec<u8>>),
    git2::Error,
>)
    ensures
        r matches Ok(t) ==> t.1 matches Some(p) ==> p@.len() == 20,
{
    let c = repo.find_commit(git2::Oid::from_bytes(oid)?)?;
    let message = String::from_utf8_lossy(c.message_bytes()).into_owned();
    let parent = match c.parent_id(0) {
        Ok(p) => Some(p.as_bytes().to_vec()),
        Err(_) => None,
    };
    Ok((message, parent))
}

/// Relies on `git2::Repository::find_reference` and `Reference::delete`:
/// removes the reference outright; reports `false`, deleting nothing, when
/// it is absent.
#[verifier::external_body]
fn git_ref_delete(repo: &git2::Repository, refname: &str) -> (r: Result<bool, git2::Error>)
{
    match repo.find_reference(refname) {
        Ok(mut reference) => {
            reference.delete()?;
            Ok(true)
        },
        Err(e) if e.code() == git2::ErrorCode::NotFound => Ok(false),
        Err(e) => Err(e),
    }
}

/// Relies on `git2::Repository::find_reference` and `Reference::rename`
/// without the force flag: atomically renames the reference, failing with
/// the already-exists code when the target name is taken; reports `false`,
/// renaming nothing, when the source is absent.
#[verifier::external_body]
fn git_ref_rename(repo: &git2::Repository, from: &str, to: &str) -> (r: Result<bool, git2::Error>)
{
    match repo.find_reference(from) {
        Ok(mut reference) => {
            reference.rename(to, false, "archive")?;
            Ok(true)
        },
        Err(e) if e.code() == git2::ErrorCode::NotFound => Ok(false),
        Err(e) => Err(e),
    }
}

/// Relies on `git2::Repository::references_glob` and `Reference::name`: the
/// full names of the references matching the glob, in the store's order. A
/// failure while iterating is propagated, never swallowed; a reference whose
/// name is not valid text is skipped, as the listing always did.
#[verifier::external_body]
fn git_list_refs(repo: &git2::Repository, glob: &str) -> (r: Result<Vec<String>, git2::Error>)
{
    let mut names: Vec<String> = Vec::new();
    for reference in repo.references_glob(glob)? {
        let reference = reference?;
        if let Ok(name) = reference.name() {
            names.push(name.to_string());
        }
    }
    Ok(names)
}

/// Relies on `git2::Repository::config` and `Config::get_string`: the
/// configured value of `key`, or `None` when it is unset or unreadable.
#[verifier::external_body]
fn git_config_get(repo: &git2::Repository, key: &str) -> (r: Result<Option<String>, git2::Error>)
{
    let config = repo.config()?;
    match config.get_string(key) {
        Ok(value) => Ok(Some(value)),
        Err(_) => Ok(None),
    }
}

/// The live pointer name of a category.
fn memo_refname(category: &str) -> (r: String)
    ensures
        r@ == "refs/memo/"@ + category@,
{
    "refs/memo/".to_owned().concat(category)
}

/// The archive pointer name of a category.
fn archive_refname(category: &str) -> (r: String)
    ensures
        r@ == "refs/archive/"@ + category@,
{
    "refs/archive/".to_owned().concat(category)
}

/// Resolves the author identity from the repository's configuration: the
/// configured name is required, the configured contact optional.
pub fn make_signature(repo: &git2::Repository) -> (r: Result<Identity, MemoError>)
    ensures
        r matches Ok(id) ==> id.wf(),
        r matches Err(e) ==> e is MissingIdentity || e is StoreFailure,
{
    let name = match git_config_get(repo, "user.name") {
        Ok(n) => n,
        Err(e) => {
            return Err(store_failure(e));
        },
    };
    let email = match git_config_get(repo, "user.email") {
        Ok(v) => v,
        Err(e) => {
            return Err(store_failure(e));
        },
    };
    resolve_identity(name, email)
}

/// Appends a record to `category`'s log in the repository: validates the
/// name, resolves the identity, then runs the construct-and-compare-and-swap
/// cycle against `refs/memo/<category>`, re-reading the head and rebuilding
/// the node after each conflict, up to the retry ceiling. Returns the new
/// head's identifier in hexadecimal.
pub fn add_memo(
    repo: &git2::Repository,
    category: &str,
    message: &str,
    timestamp: Option<Timestamp>,
) -> (r: Result<String, MemoError>)
    ensures
        !valid_category(category@) ==> (r matches Err(e) && e is InvalidCategory),
        r is Ok ==> valid_category(category@),
        r matches Ok(h) ==> h@.len() == 40,
        r matches Ok(h) ==> timestamp matches Some(t) ==> exists|
            tree: Seq<u8>,
            name: Seq<char>,
            email: Seq<char>,
            parent: Option<Seq<u8>>,
        |
            h@ == spec_hex(
                #[trigger] commit_oid_of(
                    tree,
                    name,
                    email,
                    t.secs as int,
                    t.offset_min as int,
                    message@,
                    parent,
                ),
            ),
        r matches Err(e) ==> e matches MemoError::RetryExhausted { refname, attempts } ==> (
        refname@ == "refs/memo/"@ + category@ && attempts == MAX_ATTEMPTS),
        r matches Err(e) ==> e matches MemoError::InvalidCategory { category: c } ==> (c@
            == category@ && !valid_category(category@)),
        r matches Err(e) ==> (e is InvalidCategory || e is MissingIdentity || e is RetryExhausted
            || e is StoreFailure),
{
    if let Err(_) = validate_category(category) {
        return Err(MemoError::InvalidCategory { category: category.to_owned() });
    }
    let refname = memo_refname(category);
    let author = match make_signature(repo) {
        Ok(a) => a,
        Err(e) => {
            return Err(e);
        },
    };
    let tree = match git_base_tree(repo) {
        Ok(t) => t,
        Err(e) => {
            return Err(store_failure(e));
        },
    };
    let mut attempts: u64 = 0;
    while attempts < MAX_ATTEMPTS
        invariant
            attempts <= MAX_ATTEMPTS,
            tree@.len() == 20,
            refname@ == "refs/memo/"@ + category@,
            valid_category(category@),
        decreases MAX_ATTEMPTS - attempts,
    {
        let parent = match git_refname_to_id(repo, refname.as_str()) {
            Ok(p) => Some(p),
            Err(e) => {
                if err_is_not_found(&e) {
                    None
                } else {
                    return Err(store_failure(e));
                }
            },
        };
        match git_commit_cas(
            repo,
            refname.as_str(),
            &tree,
            author.name.as_str(),
            author.email.as_str(),
            timestamp,
            message,
            parent.as_ref(),
        ) {
            Ok(oid) => {
                proof {
                    lemma_spec_hex_len(oid@);
                }
                return Ok(hex_string(&oid));
            },
            Err(e) => {
                if err_is_conflict(&e) {
                    attempts = attempts + 1;
                } else {
                    return Err(store_failure(e));
                }
            },
        }
    }
    Err(MemoError::RetryExhausted { refname, attempts: MAX_ATTEMPTS })
}

/// Reads the full history of `category` from the repository, oldest record
/// first: each record's identifier in hexadecimal with the first line of its
/// payload. `None` means the pointer is absent — no log exists — which is
/// distinguished from an existing, even empty-looking, log.
pub fn list_memos(repo: &git2::Repository, category: &str) -> (r: Result<
    Option<Vec<(String, String)>>,
    MemoError,
>)
    ensures
        !valid_category(category@) ==> (r matches Err(e) && e is InvalidCategory),
        r is Ok ==> valid_category(category@),
        r matches Ok(out) ==> out matches Some(v) ==> v@.len() >= 1,
        r matches Ok(out) ==> out matches Some(v) ==> forall|i: int|
            0 <= i < v@.len() ==> (#[trigger] v@[i]).0@.len() == 40,
        r matches Err(e) ==> e matches MemoError::InvalidCategory { category: c } ==> (c@
            == category@ && !valid_category(category@)),
        r matches Err(e) ==> (e is InvalidCategory || e is StoreFailure),
{
    if let Err(_) = validate_category(category) {
        return Err(MemoError::InvalidCategory { category: category.to_owned() });
    }
    let refname = memo_refname(category);
    let head = match git_refname_to_id(repo, refname.as_str()) {
        Ok(v) => v,
        Err(e) => {
            if err_is_not_found(&e) {
                return Ok(None);
            } else {
                return Err(store_failure(e));
            }
        },
    };
    let mut newest_first: Vec<(String, String)> = Vec::new();
    let mut cur = head;
    let mut more = true;
    let mut steps: usize = 0;
    while more
        invariant
            valid_category(category@),
            cur@.len() == 20,
            steps <= usize::MAX,
            newest_first@.len() + (if more { 1int } else { 0 }) >= 1,
            forall|i: int|
                0 <= i < newest_first@.len() ==> (#[trigger] newest_first@[i]).0@.len() == 40,
        decreases usize::MAX - steps,
    {
        if steps == usize::MAX {
            return Err(MemoError::StoreFailure { message: "memo chain is too long".to_owned() });
        }
        steps = steps + 1;
        let (message, parent) = match git_commit_read(repo, &cur) {
            Ok(t) => t,
            Err(e) => {
                return Err(store_failure(e));
            },
        };
        let hex = hex_string(&cur);
        proof {
            lemma_spec_hex_len(cur@);
        }
        newest_first.push((hex, first_line(message.as_str())));
        match parent {
            Some(p) => {
                cur = p;
            },
            None => {
                more = false;
            },
        }
    }
    let ghost walked = newest_first@;
    let out = reverse_records(newest_first);
    proof {
        assert forall|i: int| 0 <= i < out@.len() implies (#[trigger] out@[i]).0@.len() == 40 by {
            assert(out@[i] == walked[walked.len() - 1 - i]);
        }
    }
    Ok(Some(out))
}

/// Turns the walk's newest-first records into the reported oldest-first
/// order: exactly the same records, reversed.
fn reverse_records(v: Vec<(String, String)>) -> (r: Vec<(String, String)>)
    ensures
        r@ == v@.reverse(),
{
    let mut src = v;
    let ghost orig = src@;
    let mut out: Vec<(String, String)> = Vec::new();
    proof {
        assert(orig.take(orig.len() as int) =~= orig);
        assert(out@ =~= orig.skip(orig.len() as int).reverse());
    }
    loop
        invariant
            out@.len() <= orig.len(),
            src@ == orig.take(orig.len() - out@.len()),
            out@ == orig.skip(orig.len() - out@.len()).reverse(),
        ensures
            out@ == orig.reverse(),
        decreases src@.len(),
    {
        let ghost k = out@.len() as int;
        match src.pop() {
            Some(record) => {
                out.push(record);
                proof {
                    let m = orig.len() - k - 1;
                    assert(src@ =~= orig.take(m));
                    assert(out@ =~= orig.skip(m).reverse());
                }
            },
            None => {
                proof {
                    assert(out@ =~= orig.reverse());
                }
                break;
            },
        }
    }
    out
}

/// Replaces the newest record of `category` with one carrying the new
/// payload, in a single compare-and-swap that is deliberately not retried,
/// since blindly retrying could overwrite another writer's append. A
/// concurrent move of the pointer surfaces as `Conflict` when the store
/// reports a conflict code, and as `StoreFailure` when its up-front tip
/// check reports the race with a generic code; neither is retried. `None`
/// means there was nothing to amend, which is not an error.
pub fn edit_memo(
    repo: &git2::Repository,
    category: &str,
    message: &str,
    timestamp: Option<Timestamp>,
) -> (r: Result<Option<String>, MemoError>)
    ensures
        !valid_category(category@) ==> (r matches Err(e) && e is InvalidCategory),
        r is Ok ==> valid_category(category@),
        r matches Ok(out) ==> out matches Some(h) ==> h@.len() == 40,
        r matches Err(e) ==> e matches MemoError::InvalidCategory { category: c } ==> (c@
            == category@ && !valid_category(category@)),
        r matches Err(e) ==> (e is InvalidCategory || e is MissingIdentity || e is Conflict
            || e is StoreFailure),
{
    if let Err(_) = validate_category(category) {
        return Err(MemoError::InvalidCategory { category: category.to_owned() });
    }
    let refname = memo_refname(category);
    let head = match git_refname_to_id(repo, refname.as_str()) {
        Ok(v) => v,
        Err(e) => {
            if err_is_not_found(&e) {
                return Ok(None);
            } else {
                return Err(store_failure(e));
            }
        },
    };
    let author = match make_signature(repo) {
        Ok(a) => a,
        Err(e) => {
            return Err(e);
        },
    };
    match git_amend_head(
        repo,
        refname.as_str(),
        &head,
        author.name.as_str(),
        author.email.as_str(),
        timestamp,
        message,
    ) {
        Ok(oid) => {
            proof {
                lemma_spec_hex_len(oid@);
            }
            Ok(Some(hex_string(&oid)))
        },
        Err(e) => {
            if err_is_conflict(&e) {
                Err(MemoError::Conflict)
            } else {
                Err(store_failure(e))
            }
        },
    }
}

/// Moves `category`'s pointer from `refs/memo/` to `refs/archive/`, without
/// overwriting an existing archive. An absent live pointer is "nothing to
/// archive", not an error.
pub fn archive_category(repo: &git2::Repository, category: &str) -> (r: Result<
    ArchiveOutcome,
    MemoError,
>)
    ensures
        !valid_category(category@) ==> (r matches Err(e) && e is InvalidCategory),
        r is Ok ==> valid_category(category@),
        r matches Err(e) ==> e matches MemoError::AlreadyExists { refname } ==> refname@
            == "refs/archive/"@ + category@,
        r matches Err(e) ==> e matches MemoError::InvalidCategory { category: c } ==> (c@
            == category@ && !valid_category(category@)),
        r matches Err(e) ==> (e is InvalidCategory || e is AlreadyExists || e is StoreFailure),
{
    if let Err(_) = validate_category(category) {
        return Err(MemoError::InvalidCategory { category: category.to_owned() });
    }
    let src = memo_refname(category);
    let dst = archive_refname(category);
    match git_ref_rename(repo, src.as_str(), dst.as_str()) {
        Ok(true) => Ok(ArchiveOutcome::Archived),
        Ok(false) => Ok(ArchiveOutcome::NothingToArchive),
        Err(e) => {
            if err_is_exists(&e) {
                Err(MemoError::AlreadyExists { refname: dst })
            } else {
                Err(store_failure(e))
            }
        },
    }
}

/// Deletes `category`'s live pointer outright; the chain's records stay in
/// the object store. An absent pointer is a no-op, not an error.
pub fn remove_memos(repo: &git2::Repository, category: &str) -> (r: Result<
    RemoveOutcome,
    MemoError,
>)
    ensures
        !valid_category(category@) ==> (r matches Err(e) && e is InvalidCategory),
        r is Ok ==> valid_category(category@),
        r matches Err(e) ==> e matches MemoError::InvalidCategory { category: c } ==> (c@
            == category@ && !valid_category(category@)),
        r matches Err(e) ==> (e is InvalidCategory || e is StoreFailure),
{
    if let Err(_) = validate_category(category) {
        return Err(MemoError::InvalidCategory { category: category.to_owned() });
    }
    let refname = memo_refname(category);
    match git_ref_delete(repo, refname.as_str()) {
        Ok(true) => Ok(RemoveOutcome::Removed),
        Ok(false) => Ok(RemoveOutcome::NothingToRemove),
        Err(e) => Err(store_failure(e)),
    }
}

/// The full names of the live memo pointers, for the search and transport
/// collaborators: all the core owes them is this enumeration.
pub fn memo_ref_names(repo: &git2::Repository) -> (r: Result<Vec<String>, MemoError>)
    ensures
        r matches Err(e) ==> e is StoreFailure,
{
    match git_list_refs(repo, "refs/memo/*") {
        Ok(names) => Ok(names),
        Err(e) => Err(store_failure(e)),
    }
}

/// Whether some listed reference carries exactly this full name.
pub open spec fn listed(refs: Seq<String>, full: Seq<char>) -> bool {
    exists|j: int| 0 <= j < refs.len() && (#[trigger] refs[j])@ == full
}

/// Whether a name already stands in the output.
pub open spec fn has_name(out: Seq<String>, name: Seq<char>) -> bool {
    exists|i: int| 0 <= i < out.len() && (#[trigger] out[i])@ == name
}

/// Inserts `name` into the strictly sorted `out`, keeping it strictly
/// sorted; a name already present is left alone.
fn insert_name(out: &mut Vec<String>, name: String)
    requires
        forall|a: int, b: int|
            0 <= a < b < old(out)@.len() ==> lex_lt((#[trigger] old(out)@[a])@, (#[trigger] old(
                out,
            )@[b])@),
    ensures
        forall|a: int, b: int|
            0 <= a < b < final(out)@.len() ==> lex_lt((#[trigger] final(out)@[a])@, (
            #[trigger] final(out)@[b])@),
        has_name(final(out)@, name@),
        forall|s: Seq<char>| has_name(old(out)@, s) ==> has_name(final(out)@, s),
        forall|i: int|
            0 <= i < final(out)@.len() ==> (#[trigger] final(out)@[i])@ == name@ || has_name(
                old(out)@,
                final(out)@[i]@,
            ),
{
    let mut k: usize = 0;
    while k < out.len() && str_lt(out[k].as_str(), name.as_str())
        invariant
            k <= out@.len(),
            *out == *old(out),
            forall|j: int| 0 <= j < k ==> lex_lt((#[trigger] out@[j])@, name@),
        decreases out@.len() - k,
    {
        k = k + 1;
    }
    if k < out.len() && str_eq(out[k].as_str(), name.as_str()) {
        proof {
            assert(out@[k as int]@ == name@);
        }
        return ;
    }
    proof {
        if k < out@.len() {
            assert(!lex_lt(out@[k as int]@, name@));
            assert(out@[k as int]@ != name@);
            if !lex_lt(name@, out@[k as int]@) {
                crate::text::lemma_lex_total(out@[k as int]@, name@);
            }
            assert(lex_lt(name@, out@[k as int]@));
        }
    }
    let ghost pre = out@;
    out.insert(k, name);
    proof {
        assert forall|a: int, b: int| 0 <= a < b < out@.len() implies lex_lt(
            (#[trigger] out@[a])@,
            (#[trigger] out@[b])@,
        ) by {
            let ka = k as int;
            if a < ka && b == ka {
                assert(lex_lt(pre[a]@, out@[b]@));
            } else if a == ka && b > ka {
                if b - 1 == ka {
                    assert(lex_lt(out@[a]@, pre[b - 1]@));
                } else {
                    assert(lex_lt(pre[ka]@, pre[b - 1]@));
                    crate::text::lemma_lex_trans(out@[a]@, pre[ka]@, pre[b - 1]@);
                }
            } else if a < ka && b > ka {
                if b - 1 == a {
                } else {
                    assert(lex_lt(pre[a]@, pre[b - 1]@));
                }
            } else if b < ka {
                assert(lex_lt(pre[a]@, pre[b]@));
            } else {
                assert(lex_lt(pre[a - 1]@, pre[b - 1]@));
            }
        }
        assert(out@[k as int]@ == name@);
        assert forall|s: Seq<char>| has_name(pre, s) implies has_name(out@, s) by {
            let i = choose|i: int| 0 <= i < pre.len() && (#[trigger] pre[i])@ == s;
            if i < k as int {
                assert(out@[i]@ == s);
            } else {
                assert(out@[i + 1]@ == s);
            }
        }
        assert forall|i: int| 0 <= i < out@.len() implies (#[trigger] out@[i])@ == name@
            || has_name(pre, out@[i]@) by {
            if i < k as int {
                assert(pre[i]@ == out@[i]@);
            } else if i > k as int {
                assert(pre[i - 1]@ == out@[i]@);
            }
        }
    }
}

/// The category names among `refs` that stand under `prefix`, stripped of
/// it, in strictly increasing order with duplicates collapsed: exactly the
/// names `n` for which `prefix + n` is listed, each once, sorted.
pub fn category_names(refs: &Vec<String>, prefix: &str) -> (out: Vec<String>)
    ensures
        forall|i: int|
            0 <= i < out@.len() ==> listed(refs@, prefix@ + (#[trigger] out@[i])@),
        forall|j: int|
            0 <= j < refs@.len() && prefix@.is_prefix_of((#[trigger] refs@[j])@) ==> has_name(
                out@,
                refs@[j]@.skip(prefix@.len() as int),
            ),
        forall|a: int, b: int|
            0 <= a < b < out@.len() ==> lex_lt((#[trigger] out@[a])@, (#[trigger] out@[b])@),
{
    let mut out: Vec<String> = Vec::new();
    let mut j: usize = 0;
    while j < refs.len()
        invariant
            j <= refs@.len(),
            forall|i: int|
                0 <= i < out@.len() ==> listed(refs@, prefix@ + (#[trigger] out@[i])@),
            forall|j2: int|
                0 <= j2 < j && prefix@.is_prefix_of((#[trigger] refs@[j2])@) ==> has_name(
                    out@,
                    refs@[j2]@.skip(prefix@.len() as int),
                ),
            forall|a: int, b: int|
                0 <= a < b < out@.len() ==> lex_lt((#[trigger] out@[a])@, (#[trigger] out@[b])@),
        decreases refs@.len() - j,
    {
        if str_starts_with(refs[j].as_str(), prefix) {
            let name = strip_prefix(refs[j].as_str(), prefix);
            let ghost gname = name@;
            let ghost pre = out@;
            insert_name(&mut out, name);
            proof {
                assert(refs@[j as int]@ == prefix@ + gname) by {
                    assert(prefix@.is_prefix_of(refs@[j as int]@));
                    assert(prefix@ + refs@[j as int]@.skip(prefix@.len() as int) =~= refs@[j as int]@);
                }
                assert forall|i: int|
                    0 <= i < out@.len() implies listed(refs@, prefix@ + (#[trigger] out@[i])@) by {
                    if out@[i]@ == gname {
                        assert(refs@[j as int]@ == prefix@ + out@[i]@);
                    } else {
                        assert(has_name(pre, out@[i]@));
                        let i2 = choose|i2: int| 0 <= i2 < pre.len() && (#[trigger] pre[i2])@ == out@[i]@;
                        assert(listed(refs@, prefix@ + pre[i2]@));
                    }
                }
            }
        }
        j = j + 1;
    }
    out
}

/// Lists the known live categories: the names under the live prefix, each
/// once, in increasing order.
pub fn list_categories(repo: &git2::Repository) -> (r: Result<Vec<String>, MemoError>)
    ensures
        r matches Ok(v) ==> forall|a: int, b: int|
            0 <= a < b < v@.len() ==> lex_lt((#[trigger] v@[a])@, (#[trigger] v@[b])@),
        r matches Err(e) ==> e is StoreFailure,
{
    match git_list_refs(repo, "refs/memo/*") {
        Ok(refs) => Ok(category_names(&refs, "refs/memo/")),
        Err(e) => Err(store_failure(e)),
    }
}

/// Lists the archived categories: the names under the archive prefix, each
/// once, in increasing order.
pub fn list_archive_categories(repo: &git2::Repository) -> (r: Result<Vec<String>, MemoError>)
    ensures
        r matches Ok(v) ==> forall|a: int, b: int|
            0 <= a < b < v@.len() ==> lex_lt((#[trigger] v@[a])@, (#[trigger] v@[b])@),
        r matches Err(e) ==> e is StoreFailure,
{
    match git_list_refs(repo, "refs/archive/*") {
        Ok(refs) => Ok(category_names(&refs, "refs/archive/")),
        Err(e) => Err(store_failure(e)),
    }
}

/// The argument list handed to the search collaborator: the subject-line
/// log filter for `pattern` over exactly the given pointer names, or nothing
/// when no log exists to search.
pub fn grep_args(pattern: &str, refs: &Vec<String>) -> (r: Option<Vec<String>>)
    ensures
        r is Some <==> refs@.len() > 0,
        r matches Some(v) ==> {
            &&& v@.len() == 4 + refs@.len()
            &&& v@[0]@ == "log"@
            &&& v@[1]@ == "--format=%s"@
            &&& v@[2]@ == "--grep"@
            &&& v@[3]@ == pattern@
            &&& forall|i: int| 0 <= i < refs@.len() ==> (#[trigger] v@[4 + i])@ == refs@[i]@
        },
{
    if refs.len() == 0 {
        return None;
    }
    let mut args: Vec<String> = Vec::new();
    args.push("log".to_owned());
    args.push("--format=%s".to_owned());
    args.push("--grep".to_owned());
    args.push(pattern.to_owned());
    let mut i: usize = 0;
    while i < refs.len()
        invariant
            i <= refs@.len(),
            args@.len() == 4 + i,
            args@[0]@ == "log"@,
            args@[1]@ == "--format=%s"@,
            args@[2]@ == "--grep"@,
            args@[3]@ == pattern@,
            forall|k: int| 0 <= k < i ==> (#[trigger] args@[4 + k])@ == refs@[k]@,
        decreases refs@.len() - i,
    {
        args.push(refs[i].clone());
        i = i + 1;
    }
    Some(args)
}

} // verus!
