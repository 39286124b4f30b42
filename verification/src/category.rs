//! Category names and their validation.
//!
//! A category names one log. It must form a legal symbolic-reference path
//! under the fixed live prefix: no blank or control characters, no reserved
//! punctuation, no empty, dot-led or lock-suffixed path segment, and no
//! leading or trailing slash. Validation happens before any store access, so
//! an invalid name can never reach a pointer or the content store.

use vstd::prelude::*;
use crate::text::chars_of;

verus! {

/// Characters that may not appear anywhere in a category name: control
/// characters, blank space, and the punctuation reserved by symbolic
/// reference syntax.
pub open spec fn forbidden_char(c: char) -> bool {
    ||| (c as u32) < 0x20
    ||| (c as u32) == 0x7f
    ||| c == ' '
    ||| c == '~'
    ||| c == '^'
    ||| c == ':'
    ||| c == '?'
    ||| c == '*'
    ||| c == '['
    ||| c == '\\'
}

/// Whether a new path segment starts at position `i` of `s`.
pub open spec fn segment_start(s: Seq<char>, i: int) -> bool {
    i == 0 || s[i - 1] == '/'
}

/// Whether the five characters of `s` starting at `i` spell the reserved
/// lock suffix and end a path segment there.
pub open spec fn lock_suffix_at(s: Seq<char>, i: int) -> bool {
    &&& 0 <= i
    &&& i + 5 <= s.len()
    &&& s[i] == '.'
    &&& s[i + 1] == 'l'
    &&& s[i + 2] == 'o'
    &&& s[i + 3] == 'c'
    &&& s[i + 4] == 'k'
    &&& (i + 5 == s.len() || s[i + 5] == '/')
}

/// The naming constraint on categories.
pub open spec fn valid_category(s: Seq<char>) -> bool {
    &&& s.len() > 0
    &&& (forall|i: int| 0 <= i < s.len() ==> !forbidden_char(s[i]))
    &&& s[0] != '/'
    &&& s[s.len() - 1] != '/'
    &&& s[s.len() - 1] != '.'
    &&& (forall|i: int| 0 < i < s.len() ==> !(s[i - 1] == '/' && #[trigger] s[i] == '/'))
    &&& (forall|i: int| 0 <= i < s.len() - 1 ==> !(#[trigger] s[i] == '.' && s[i + 1] == '.'))
    &&& (forall|i: int| 0 <= i < s.len() - 1 ==> !(#[trigger] s[i] == '@' && s[i + 1] == '{'))
    &&& (forall|i: int| 0 <= i < s.len() && segment_start(s, i) ==> #[trigger] s[i] != '.')
    &&& (forall|i: int| !#[trigger] lock_suffix_at(s, i))
}

fn is_forbidden(c: char) -> (r: bool)
    ensures
        r == forbidden_char(c),
{
    (c as u32) < 0x20 || (c as u32) == 0x7f || c == ' ' || c == '~' || c == '^' || c == ':'
        || c == '?' || c == '*' || c == '[' || c == '\\'
}

fn category_chars_ok(v: &Vec<char>) -> (r: bool)
    ensures
        r == valid_category(v@),
{
    let n: usize = v.len();
    if n == 0 {
        return false;
    }
    if v[0] == '/' || v[n - 1] == '/' || v[n - 1] == '.' {
        return false;
    }
    let mut i: usize = 0;
    while i < n
        invariant
            n == v@.len(),
            0 < n,
            i <= n,
            forall|j: int| 0 <= j < i ==> !forbidden_char(v@[j]),
            forall|j: int| 0 < j < i ==> !(v@[j - 1] == '/' && #[trigger] v@[j] == '/'),
            forall|j: int| 0 <= j < i && j < n - 1 ==> !(#[trigger] v@[j] == '.' && v@[j + 1] == '.'),
            forall|j: int| 0 <= j < i && j < n - 1 ==> !(#[trigger] v@[j] == '@' && v@[j + 1] == '{'),
            forall|j: int| 0 <= j < i && segment_start(v@, j) ==> #[trigger] v@[j] != '.',
            forall|j: int| 0 <= j < i ==> !#[trigger] lock_suffix_at(v@, j),
        decreases n - i,
    {
        let c = v[i];
        if is_forbidden(c) {
            return false;
        }
        if i > 0 && v[i - 1] == '/' && c == '/' {
            return false;
        }
        if i + 1 < n && c == '.' && v[i + 1] == '.' {
            return false;
        }
        if i + 1 < n && c == '@' && v[i + 1] == '{' {
            return false;
        }
        if (i == 0 || v[i - 1] == '/') && c == '.' {
            return false;
        }
        if n - i >= 5 && c == '.' && v[i + 1] == 'l' && v[i + 2] == 'o' && v[i + 3] == 'c'
            && v[i + 4] == 'k' && (n - i == 5 || v[i + 5] == '/') {
            proof {
                assert(lock_suffix_at(v@, i as int));
            }
            return false;
        }
        i = i + 1;
    }
    proof {
        assert(forall|j: int| !#[trigger] lock_suffix_at(v@, j));
    }
    true
}

/// Checks a category name against the naming constraint. Returns `Ok` exactly
/// on the names the constraint admits, and a descriptive message otherwise.
/// No store is touched either way.
pub fn validate_category(name: &str) -> (r: Result<(), String>)
    ensures
        r is Ok <==> valid_category(name@),
        r is Err ==> r->Err_0@ == "Invalid category name: "@ + name@,
{
    let v = chars_of(name);
    if category_chars_ok(&v) {
        Ok(())
    } else {
        let msg = "Invalid category name: ".to_owned().concat(name);
        Err(msg)
    }
}

/// A category name that passed validation. Operations that have one in hand
/// can rely on the naming constraint without rechecking it.
pub struct Category {
    /// The validated name.
    pub name: String,
}

impl Category {
    /// The invariant carried by every constructed value.
    pub open spec fn wf(self) -> bool {
        valid_category(self.name@)
    }

    /// The name as a character sequence.
    pub open spec fn view(self) -> Seq<char> {
        self.name@
    }

    /// Validates `name` and wraps it; rejects exactly the names the
    /// constraint rejects.
    pub fn new(name: &str) -> (r: Result<Category, String>)
        ensures
            r is Ok <==> valid_category(name@),
            r is Ok ==> r->Ok_0.wf() && r->Ok_0@ == name@,
            r is Err ==> r->Err_0@ == "Invalid category name: "@ + name@,
    {
        match validate_category(name) {
            Ok(()) => Ok(Category { name: name.to_owned() }),
            Err(e) => Err(e),
        }
    }

    /// The category name.
    pub fn as_str(&self) -> (r: &str)
        ensures
            r@ == self@,
    {
        self.name.as_str()
    }
}

} // verus!
