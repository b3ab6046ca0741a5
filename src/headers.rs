use vstd::prelude::*;
use reqwest::header::{HeaderMap, HeaderName, HeaderValue};

verus! {

#[verifier::external_type_specification]
#[verifier::external_body]
#[verifier::reject_recursive_types(T)]
pub struct ExHeaderMap<T>(HeaderMap<T>);

#[verifier::external_type_specification]
#[verifier::external_body]
pub struct ExHeaderValue(HeaderValue);

/// What a header map holds: each header name, in lower case, mapped to the
/// text of its first value.
pub uninterp spec fn header_entries(m: HeaderMap) -> Map<Seq<char>, Seq<char>>;

/// The most names a map built here is given: well below the point at which
/// `HeaderMap` refuses to grow.
pub const MAX_HEADERS: usize = 4096;

/// A character that `HeaderName` takes in a name: the token characters of
/// HTTP, and also the double quote, which its table admits.
pub open spec fn is_token_char(c: char) -> bool {
    ||| c == '!' || c == '"' || c == '#' || c == '$' || c == '%' || c == '&' || c == '\''
    ||| c == '*' || c == '+' || c == '-' || c == '.'
    ||| c == '^' || c == '_' || c == '`' || c == '|' || c == '~'
    ||| ('0' <= c && c <= '9')
    ||| ('A' <= c && c <= 'Z')
    ||| ('a' <= c && c <= 'z')
}

/// Text that `HeaderName` accepts: one to 65535 token characters.
pub open spec fn is_header_name(s: Seq<char>) -> bool {
    &&& 1 <= s.len() <= 65535
    &&& forall|i: int| 0 <= i < s.len() ==> is_token_char(#[trigger] s[i])
}

/// Text that `HeaderValue` accepts: no control character but the tab.
pub open spec fn is_header_value(s: Seq<char>) -> bool {
    forall|i: int|
        0 <= i < s.len() ==> (#[trigger] s[i] == '\t' || (s[i] as u32 >= 32 && s[i] as u32 != 127))
}

/// The map with no header.
pub open spec fn no_headers() -> Map<Seq<char>, Seq<char>> {
    Map::empty()
}

/// ASCII upper-case letters mapped to lower case, all else kept.
pub open spec fn lower_ascii(s: Seq<char>) -> Seq<char> {
    s.map_values(|c: char| if 'A' <= c && c <= 'Z' { ((c as u8) + 32u8) as char } else { c })
}

/// Why inserting one header failed.
#[derive(Clone, Copy, Debug, PartialEq, Eq)]
pub(crate) enum HeaderFault {
    Name,
    Value,
    Full,
}

/// Relies on `HeaderMap::new`: a map that holds nothing.
#[verifier::external_body]
fn new_header_map() -> (m: HeaderMap)
    ensures
        header_entries(m) == no_headers(),
{
    HeaderMap::new()
}

/// Relies on `HeaderName::from_bytes` (the name is lowered and checked against
/// the token table), `HeaderValue::from_str` (every byte at least 32 and not
/// 127, or a tab), and `HeaderMap::try_insert` (the name's earlier values are
/// replaced; it fails only when the table would outgrow its fixed maximum,
/// which no map of fewer than `MAX_HEADERS` names reaches).
#[verifier::external_body]
fn insert_header(m: &mut HeaderMap, name: &str, value: &str) -> (r: Result<(), HeaderFault>)
    ensures
        !is_header_name(name@) ==> r matches Err(HeaderFault::Name),
        is_header_name(name@) && !is_header_value(value@) ==> r matches Err(HeaderFault::Value),
        is_header_name(name@) && is_header_value(value@) && header_entries(*old(m)).dom().len()
            < MAX_HEADERS ==> r is Ok,
        r is Ok ==> header_entries(*final(m)) == header_entries(*old(m)).insert(
            lower_ascii(name@),
            value@,
        ),
        r is Err ==> header_entries(*final(m)) == header_entries(*old(m)),
        r matches Err(HeaderFault::Name) ==> !is_header_name(name@),
        r matches Err(HeaderFault::Value) ==> is_header_name(name@) && !is_header_value(value@),
        r matches Err(HeaderFault::Full) ==> is_header_name(name@) && is_header_value(value@),
{
    let name = match HeaderName::from_bytes(name.as_bytes()) {
        Ok(n) => n,
        Err(_) => return Err(HeaderFault::Name),
    };
    let value = match HeaderValue::from_str(value) {
        Ok(v) => v,
        Err(_) => return Err(HeaderFault::Value),
    };
    match m.try_insert(name, value) {
        Ok(_) => Ok(()),
        Err(_) => Err(HeaderFault::Full),
    }
}

/// `i` is the position of the first `=` in `s`.
pub open spec fn separator_at(s: Seq<char>, i: int) -> bool {
    &&& 0 <= i < s.len()
    &&& s[i] == '='
    &&& forall|j: int| 0 <= j < i ==> s[j] != '='
}

/// `s` cut at its first `=` into the key before it and the value after it;
/// `None` where `s` holds no `=`.
pub open spec fn split_header_spec(s: Seq<char>) -> Option<(Seq<char>, Seq<char>)> {
    if exists|i: int| separator_at(s, i) {
        let i = choose|i: int| separator_at(s, i);
        Some((s.subrange(0, i), s.subrange(i + 1, s.len() as int)))
    } else {
        None
    }
}

/// What is wrong with one `Key=Value` argument, if anything.
pub open spec fn entry_problem(s: Seq<char>) -> Option<HeaderProblem> {
    match split_header_spec(s) {
        None => Some(HeaderProblem::Format),
        Some((k, v)) => if v.len() == 0 {
            Some(HeaderProblem::Format)
        } else if !is_header_name(k) {
            Some(HeaderProblem::Name)
        } else if !is_header_value(v) {
            Some(HeaderProblem::Value)
        } else {
            None
        },
    }
}

/// The error text for argument `s` failing with `p`: it names the argument.
pub open spec fn problem_message(p: HeaderProblem, s: Seq<char>) -> Seq<char> {
    match p {
        HeaderProblem::Format => "Invalid header format (Key=Value): "@ + s,
        HeaderProblem::Name => "Invalid header name: "@ + s,
        HeaderProblem::Value => "Invalid header value: "@ + s,
        HeaderProblem::Full => "Too many headers: "@ + s,
    }
}

/// The headers that `args` describe, read in order, a later value for a
/// name replacing an earlier one; or the message for the first bad argument.
pub open spec fn headers_spec(args: Seq<Seq<char>>) -> Result<
    Map<Seq<char>, Seq<char>>,
    Seq<char>,
>
    decreases args.len(),
{
    if args.len() == 0 {
        Ok(no_headers())
    } else {
        match headers_spec(args.drop_last()) {
            Err(e) => Err(e),
            Ok(m) => {
                let s = args.last();
                match entry_problem(s) {
                    Some(p) => Err(problem_message(p, s)),
                    None => {
                        let (k, v) = split_header_spec(s).unwrap();
                        Ok(m.insert(lower_ascii(k), v))
                    },
                }
            },
        }
    }
}

/// The arguments' texts.
pub open spec fn arg_texts(args: Seq<String>) -> Seq<Seq<char>> {
    args.map_values(|s: String| s@)
}

/// Why a header argument was refused.
#[derive(Clone, Copy, Debug, PartialEq, Eq)]
pub enum HeaderProblem {
    /// No `=`, or nothing after it.
    Format,
    /// The key is not a valid header name.
    Name,
    /// The value holds a character a header value may not.
    Value,
    /// The map would hold too many names.
    Full,
}

/// Cuts `entry` at its first `=` into key and value.
pub fn split_header(entry: &str) -> (r: Option<(String, String)>)
    ensures
        r is None <==> split_header_spec(entry@) is None,
        r matches Some((k, v)) ==> split_header_spec(entry@) == Some((k@, v@)),
{
    let n = entry.unicode_len();
    let mut i: usize = 0;
    while i < n
        invariant
            i <= n,
            n == entry@.len(),
            forall|j: int| 0 <= j < i ==> entry@[j] != '=',
        decreases n - i,
    {
        if entry.get_char(i) == '=' {
            let key = String::from_str(entry.substring_char(0, i));
            let value = String::from_str(entry.substring_char(i + 1, n));
            proof {
                assert(separator_at(entry@, i as int));
                let c = choose|c: int| separator_at(entry@, c);
                assert(c == i as int);
            }
            return Some((key, value));
        }
        i = i + 1;
    }
    proof {
        assert forall|c: int| !separator_at(entry@, c) by {
            if separator_at(entry@, c) {
                assert(entry@[c] != '=');
            }
        }
    }
    None
}

/// The message for `entry` failing with `p`.
fn problem_text(p: HeaderProblem, entry: &str) -> (r: String)
    ensures
        r@ == problem_message(p, entry@),
{
    let prefix = match p {
        HeaderProblem::Format => "Invalid header format (Key=Value): ",
        HeaderProblem::Name => "Invalid header name: ",
        HeaderProblem::Value => "Invalid header value: ",
        HeaderProblem::Full => "Too many headers: ",
    };
    String::from_str(prefix).concat(entry)
}

proof fn lemma_error_persists(args: Seq<Seq<char>>, k: int)
    requires
        0 <= k <= args.len(),
        headers_spec(args.take(k)) is Err,
    ensures
        headers_spec(args) == headers_spec(args.take(k)),
    decreases args.len(),
{
    if k < args.len() {
        assert(args.drop_last().take(k) =~= args.take(k));
        lemma_error_persists(args.drop_last(), k);
    } else {
        assert(args.take(k) =~= args);
    }
}

proof fn lemma_headers_size(args: Seq<Seq<char>>)
    ensures
        headers_spec(args) matches Ok(m) ==> m.dom().finite() && m.dom().len() <= args.len(),
    decreases args.len(),
{
    if args.len() > 0 {
        lemma_headers_size(args.drop_last());
    }
}

/// Builds the header map that `header_args` describe, each argument being
/// `Key=Value` cut at its first `=`. The first argument with no `=`, an empty
/// value, a key that is not a header name or a value that is not a header
/// value makes the whole build fail with a message that names it.
pub fn get_headers(header_args: Vec<String>) -> (r: Result<HeaderMap, String>)
    ensures
        header_args.len() <= MAX_HEADERS ==> match r {
            Ok(m) => headers_spec(arg_texts(header_args@)) is Ok
                && headers_spec(arg_texts(header_args@))->Ok_0 == header_entries(m),
            Err(e) => headers_spec(arg_texts(header_args@)) is Err
                && headers_spec(arg_texts(header_args@))->Err_0 == e@,
        },
        r matches Ok(m) ==> headers_spec(arg_texts(header_args@)) is Ok
            && headers_spec(arg_texts(header_args@))->Ok_0 == header_entries(m),
{
    let ghost args = arg_texts(header_args@);
    let mut headers = new_header_map();
    let mut i: usize = 0;
    while i < header_args.len()
        invariant
            i <= header_args.len(),
            args == arg_texts(header_args@),
            headers_spec(args.take(i as int)) == Ok::<Map<Seq<char>, Seq<char>>, Seq<char>>(
                header_entries(headers),
            ),
        decreases header_args.len() - i,
    {
        let entry: &str = header_args[i].as_str();
        proof {
            assert(args.take(i + 1).drop_last() =~= args.take(i as int));
            assert(args.take(i + 1).last() == entry@);
            lemma_headers_size(args.take(i as int));
        }
        let problem = match split_header(entry) {
            None => Some(HeaderProblem::Format),
            Some((key, value)) => {
                if value.unicode_len() == 0 {
                    Some(HeaderProblem::Format)
                } else {
                    match insert_header(&mut headers, key.as_str(), value.as_str()) {
                        Ok(()) => None,
                        Err(HeaderFault::Name) => Some(HeaderProblem::Name),
                        Err(HeaderFault::Value) => Some(HeaderProblem::Value),
                        Err(HeaderFault::Full) => Some(HeaderProblem::Full),
                    }
                }
            },
        };
        if let Some(p) = problem {
            proof {
                if i < MAX_HEADERS {
                    assert(p != HeaderProblem::Full);
                    assert(entry_problem(entry@) == Some(p));
                    assert(headers_spec(args.take(i + 1)) == Err::<
                        Map<Seq<char>, Seq<char>>,
                        Seq<char>,
                    >(problem_message(p, entry@)));
                    lemma_error_persists(args, i + 1);
                }
            }
            return Err(problem_text(p, entry));
        }
        i = i + 1;
    }
    proof {
        assert(args.take(i as int) =~= args);
    }
    Ok(headers)
}

} // verus!
