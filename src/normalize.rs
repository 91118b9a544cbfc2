//! Canonicalizing submitted URLs before they are stored.

use vstd::prelude::*;
use vstd::string::StrSliceExecFns;
use vstd::string::StringExecFns;

verus! {

/// The four characters that mark a URL as already carrying a scheme.
pub open spec fn scheme_mark() -> Seq<char> {
    seq!['h', 't', 't', 'p']
}

/// The prefix prepended to a URL that carries no scheme.
pub open spec fn default_scheme() -> Seq<char> {
    seq!['h', 't', 't', 'p', ':', '/', '/']
}

/// `s` begins with `http`; false for anything shorter than four characters.
pub open spec fn has_scheme_mark(s: Seq<char>) -> bool {
    s.len() >= 4 && s.subrange(0, 4) == scheme_mark()
}

/// What a raw URL is stored as.
pub open spec fn normalized(s: Seq<char>) -> Seq<char> {
    if has_scheme_mark(s) {
        s
    } else {
        default_scheme() + s
    }
}

/// Whether `raw` begins with `http`, compared character by character and
/// never past the end of `raw`.
pub fn starts_with_scheme_mark(raw: &str) -> (r: bool)
    ensures
        r == has_scheme_mark(raw@),
{
    let n = raw.unicode_len();
    if n < 4 {
        return false;
    }
    let r = raw.get_char(0) == 'h' && raw.get_char(1) == 't' && raw.get_char(2) == 't'
        && raw.get_char(3) == 'p';
    assert(r == (raw@.subrange(0, 4) =~= scheme_mark()));
    r
}

/// Prefixes `http://` to a URL that does not begin with `http`; any other
/// URL is kept as it is. Total over all strings, the empty one included.
pub fn normalize(raw: &str) -> (r: String)
    ensures
        r@ == normalized(raw@),
        !has_scheme_mark(raw@) ==> r@ == default_scheme() + raw@,
        has_scheme_mark(raw@) ==> r@ == raw@,
{
    if starts_with_scheme_mark(raw) {
        String::from_str(raw)
    } else {
        let prefix = String::from_str("http://");
        proof {
            reveal_strlit("http://");
            assert(prefix@ =~= default_scheme());
        }
        prefix.concat(raw)
    }
}

} // verus!
