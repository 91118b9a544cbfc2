//! Random short codes over the alphanumeric alphabet.

use rand::Rng;
use vstd::prelude::*;

verus! {

/// Length of an automatically generated short code.
pub const CODE_LEN: usize = 6;

/// `c` is one of the 62 symbols `A-Z`, `a-z`, `0-9`.
pub open spec fn is_code_char(c: char) -> bool {
    ('A' <= c && c <= 'Z') || ('a' <= c && c <= 'z') || ('0' <= c && c <= '9')
}

/// `s` has the shape of a generated code: six alphanumeric characters.
pub open spec fn is_generated_code(s: Seq<char>) -> bool {
    &&& s.len() == CODE_LEN
    &&& forall|i: int| 0 <= i < s.len() ==> is_code_char(#[trigger] s[i])
}

/// Relies on rand's `Alphanumeric` distribution, sampled from the thread-local
/// generator: each sample is a byte of `A-Z`, `a-z` or `0-9`.
#[verifier::external_body]
fn draw_code_char() -> (c: char)
    ensures
        is_code_char(c),
{
    char::from(rand::thread_rng().sample(rand::distributions::Alphanumeric))
}

/// Relies on std's `String::push`: appends one character at the end.
#[verifier::external_body]
fn push_char(s: &mut String, c: char)
    ensures
        final(s)@ == old(s)@.push(c),
{
    s.push(c)
}

/// The code made of `draws`, in the order they were drawn.
pub fn code_from_draws(draws: &Vec<char>) -> (r: String)
    requires
        draws@.len() == CODE_LEN,
        forall|i: int| 0 <= i < draws@.len() ==> is_code_char(#[trigger] draws@[i]),
    ensures
        r@ == draws@,
        is_generated_code(r@),
{
    let mut code = String::new();
    let mut i: usize = 0;
    while i < draws.len()
        invariant
            i <= draws@.len(),
            code@ == draws@.subrange(0, i as int),
        decreases draws@.len() - i,
    {
        push_char(&mut code, draws[i]);
        assert(draws@.subrange(0, i + 1) =~= draws@.subrange(0, i as int).push(draws@[i as int]));
        i = i + 1;
    }
    assert(draws@.subrange(0, draws@.len() as int) =~= draws@);
    code
}

/// A fresh code of `CODE_LEN` characters, each drawn independently and
/// uniformly from the alphanumeric alphabet. Collisions with codes already in
/// use are not looked for here.
pub fn generate_code() -> (r: String)
    ensures
        is_generated_code(r@),
{
    let mut draws: Vec<char> = Vec::new();
    let mut i: usize = 0;
    while i < CODE_LEN
        invariant
            i <= CODE_LEN,
            draws@.len() == i,
            forall|j: int| 0 <= j < draws@.len() ==> is_code_char(#[trigger] draws@[j]),
        decreases CODE_LEN - i,
    {
        draws.push(draw_code_char());
        i = i + 1;
    }
    code_from_draws(&draws)
}

} // verus!
