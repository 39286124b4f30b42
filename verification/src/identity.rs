//! Author identity: a required display name and an optional contact string,
//! resolved once per invocation from ambient configuration.

use vstd::prelude::*;
use crate::errors::MemoError;
use crate::text::{is_blank, spec_is_blank};

verus! {

/// A resolved author identity. The name component is never blank; a missing
/// contact is replaced by a fixed placeholder.
pub struct Identity {
    /// The author's display name.
    pub name: String,
    /// The author's contact string, or the placeholder.
    pub email: String,
}

impl Identity {
    /// The invariant every resolved identity satisfies: a non-blank name and
    /// a non-empty contact string.
    pub open spec fn wf(self) -> bool {
        &&& self.name@.len() > 0
        &&& !spec_is_blank(self.name@)
        &&& self.email@.len() > 0
    }
}

/// Whether a configured value counts as present: it exists and is not blank.
pub open spec fn spec_present(v: Option<Seq<char>>) -> bool {
    v matches Some(s) && !spec_is_blank(s)
}

/// The characters of an optional configured value.
pub open spec fn opt_view(v: Option<String>) -> Option<Seq<char>> {
    match v {
        Some(s) => Some(s@),
        None => None,
    }
}

/// The contact string an identity resolves to: the configured value when
/// present, the placeholder otherwise.
pub open spec fn spec_resolve_email(email: Option<Seq<char>>) -> Seq<char> {
    if spec_present(email) {
        email->0
    } else {
        "none"@
    }
}

/// Resolves the author identity from the configured name and contact.
///
/// The name is required: an absent or blank name is `MissingIdentity`. An
/// absent or blank contact is replaced by the placeholder `none`, as the log
/// records one contact string per record.
pub fn resolve_identity(name: Option<String>, email: Option<String>) -> (r: Result<
    Identity,
    MemoError,
>)
    ensures
        r is Ok <==> spec_present(opt_view(name)),
        r matches Ok(id) ==> {
            &&& id.wf()
            &&& id.name@ == name->0@
            &&& id.email@ == spec_resolve_email(opt_view(email))
        },
        r is Err ==> r->Err_0 is MissingIdentity,
{
    let name = match name {
        Some(n) => {
            if is_blank(n.as_str()) {
                return Err(MemoError::MissingIdentity);
            }
            n
        },
        None => {
            return Err(MemoError::MissingIdentity);
        },
    };
    let email = match email {
        Some(e) => {
            if is_blank(e.as_str()) {
                "none".to_owned()
            } else {
                e
            }
        },
        None => "none".to_owned(),
    };
    proof {
        reveal_strlit("none");
    }
    Ok(Identity { name, email })
}

} // verus!
