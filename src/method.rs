use vstd::prelude::*;

verus! {

/// The HTTP methods a run can use.
#[derive(Clone, Copy, Debug, PartialEq, Eq)]
pub enum Method {
    Get,
    Post,
    Patch,
    Delete,
    Put,
}

/// `s` spells the lower-case word `w`, each letter in either case.
pub open spec fn eq_ignore_ascii_case(s: Seq<char>, w: Seq<char>) -> bool {
    &&& s.len() == w.len()
    &&& forall|i: int|
        0 <= i < s.len() ==> (#[trigger] s[i] == w[i] || ('a' <= w[i] && w[i] <= 'z' && s[i]
            as u32 + 32 == w[i] as u32))
}

/// The method that `s` names, in any mix of cases; `None` for any other text.
pub open spec fn method_of(s: Seq<char>) -> Option<Method> {
    if eq_ignore_ascii_case(s, "get"@) {
        Some(Method::Get)
    } else if eq_ignore_ascii_case(s, "post"@) {
        Some(Method::Post)
    } else if eq_ignore_ascii_case(s, "patch"@) {
        Some(Method::Patch)
    } else if eq_ignore_ascii_case(s, "delete"@) {
        Some(Method::Delete)
    } else if eq_ignore_ascii_case(s, "put"@) {
        Some(Method::Put)
    } else {
        None
    }
}

fn matches_word(s: &str, w: &str) -> (r: bool)
    ensures
        r == eq_ignore_ascii_case(s@, w@),
{
    let n = s.unicode_len();
    if n != w.unicode_len() {
        return false;
    }
    let mut i: usize = 0;
    while i < n
        invariant
            i <= n,
            n == s@.len(),
            n == w@.len(),
            forall|j: int|
                0 <= j < i ==> (#[trigger] s@[j] == w@[j] || ('a' <= w@[j] && w@[j] <= 'z' && s@[j]
                    as u32 + 32 == w@[j] as u32)),
        decreases n - i,
    {
        let c = s.get_char(i);
        let d = w.get_char(i);
        let same = c == d || ('a' <= d && d <= 'z' && (c as u32) + 32 == d as u32);
        if !same {
            return false;
        }
        i = i + 1;
    }
    true
}

/// Reads an HTTP method name, case aside: `get`, `post`, `patch`, `delete`
/// or `put`. Any other text is refused with `None`.
pub fn parse_method(method: &str) -> (r: Option<Method>)
    ensures
        r == method_of(method@),
{
    if matches_word(method, "get") {
        Some(Method::Get)
    } else if matches_word(method, "post") {
        Some(Method::Post)
    } else if matches_word(method, "patch") {
        Some(Method::Patch)
    } else if matches_word(method, "delete") {
        Some(Method::Delete)
    } else if matches_word(method, "put") {
        Some(Method::Put)
    } else {
        None
    }
}

} // verus!
