//! Shortening and resolution over the mapping store.

use vstd::prelude::*;
use vstd::string::StringExecFns;
use crate::codegen::{generate_code, is_generated_code};
use crate::normalize::{normalize, normalized};
use crate::store::{
    codes_unique, lemma_insert_fresh_keeps_unique, lemma_lookup_some_iff_held, lookup, same_text,
    LinkRecord, LinkStore,
};

verus! {

/// The fields of a shortening form: the URL, and the code the caller asks
/// for (empty where a code is to be generated).
pub struct UrlFormParams {
    pub url: String,
    pub url_id: String,
}

/// What a shortening request comes to.
pub enum ShortenOutcome {
    /// The URL is now stored under this code.
    Assigned(String),
    /// The requested code is already taken; the URL as submitted is echoed.
    Conflict(String),
}

/// What the store is to be asked to do for a shortening request.
pub enum ShortenStep {
    /// Insert this record, then report its code.
    Insert(LinkRecord),
    /// Insert nothing; report a conflict, echoing this URL.
    Reject(String),
}

/// The code a request is given: the one asked for, or else the generated one.
pub open spec fn chosen_code(user_code: Seq<char>, generated: Seq<char>) -> Seq<char> {
    if user_code.len() == 0 {
        generated
    } else {
        user_code
    }
}

/// The decision of a shortening request, once the store has said whether a
/// record exists under the code asked for (`code_taken`) and, where no code
/// was asked for, a code has been generated. Only the code asked for is
/// checked, never the generated one.
pub fn assign(user_url: &str, user_code: &str, code_taken: bool, generated: &str) -> (r:
    ShortenStep)
    ensures
        code_taken <==> r is Reject,
        r is Reject ==> r->Reject_0@ == user_url@,
        r is Insert ==> r->Insert_0@ == (chosen_code(user_code@, generated@), normalized(
            user_url@)),
{
    if code_taken {
        return ShortenStep::Reject(user_url.to_owned());
    }
    let url = normalize(user_url);
    let code = if user_code.is_empty() {
        generated
    } else {
        user_code
    };
    ShortenStep::Insert(LinkRecord::new(code, url.as_str()))
}

/// The decision of a shortening request once the store has said whether a
/// record exists under the code asked for. A code is generated only where
/// none was asked for.
pub fn shorten_step(user_url: &str, user_code: &str, code_taken: bool) -> (r: ShortenStep)
    ensures
        code_taken <==> r is Reject,
        r is Reject ==> r->Reject_0@ == user_url@,
        r is Insert ==> r->Insert_0@.1 == normalized(user_url@),
        r is Insert && user_code@.len() > 0 ==> r->Insert_0@.0 == user_code@,
        r is Insert && user_code@.len() == 0 ==> is_generated_code(r->Insert_0@.0),
{
    if code_taken {
        return ShortenStep::Reject(user_url.to_owned());
    }
    if user_code.is_empty() {
        let generated = generate_code();
        assign(user_url, user_code, false, generated.as_str())
    } else {
        assign(user_url, user_code, false, "")
    }
}

/// Shortens `user_url` against `store`: where a record already exists under
/// `user_code`, nothing is inserted and the URL as submitted is echoed back;
/// else the normalized URL is inserted under `user_code`, or under a
/// generated code where `user_code` is empty, and that code is returned.
pub fn shorten(store: &mut LinkStore, user_url: &str, user_code: &str) -> (r: ShortenOutcome)
    ensures
        lookup(old(store)@, user_code@) is Some ==> {
            &&& r is Conflict
            &&& r->Conflict_0@ == user_url@
            &&& final(store)@ == old(store)@
        },
        lookup(old(store)@, user_code@) is None ==> {
            &&& r is Assigned
            &&& final(store)@ == old(store)@.push((r->Assigned_0@, normalized(user_url@)))
            &&& user_code@.len() > 0 ==> r->Assigned_0@ == user_code@
            &&& user_code@.len() == 0 ==> is_generated_code(r->Assigned_0@)
        },
        codes_unique(old(store)@) && user_code@.len() > 0 ==> codes_unique(final(store)@),
{
    proof {
        lemma_lookup_some_iff_held(store@, user_code@);
    }
    let ghost before = store@;
    let taken = store.find_by_code(user_code).is_some();
    match shorten_step(user_url, user_code, taken) {
        ShortenStep::Insert(rec) => {
            store.insert(rec.code.as_str(), rec.url.as_str());
            proof {
                if codes_unique(before) && user_code@.len() > 0 {
                    lemma_insert_fresh_keeps_unique(before, rec.code@, rec.url@);
                }
            }
            ShortenOutcome::Assigned(rec.code)
        },
        ShortenStep::Reject(url) => ShortenOutcome::Conflict(url),
    }
}

/// The URL stored under `code`, returned verbatim, or `None` where no record
/// holds `code`.
pub fn resolve(store: &LinkStore, code: &str) -> (r: Option<String>)
    ensures
        r is None <==> lookup(store@, code@) is None,
        r is Some ==> r->0@ == lookup(store@, code@)->0,
{
    match store.find_by_code(code) {
        Some(rec) => Some(rec.url),
        None => None,
    }
}

/// The three states a shortening form is shown in.
pub enum Feedback {
    /// No request has been made since the form was last shown.
    Neutral,
    /// The last request was given this code.
    Success(String),
    /// The last request asked for a code already taken; this is its URL.
    Conflict(String),
}

/// The session flag that marks a success: `1`.
pub open spec fn success_flag() -> Seq<char> {
    seq!['1']
}

/// The session flag that marks a conflict: `-1`.
pub open spec fn conflict_flag() -> Seq<char> {
    seq!['-', '1']
}

impl Feedback {
    /// The feedback that an outcome leaves for the next showing of the form.
    pub fn from_outcome(outcome: ShortenOutcome) -> (r: Feedback)
        ensures
            outcome is Assigned ==> r is Success && r->Success_0 == outcome->Assigned_0,
            outcome is Conflict ==> r is Conflict && r->Conflict_0 == outcome->Conflict_0,
    {
        match outcome {
            ShortenOutcome::Assigned(code) => Feedback::Success(code),
            ShortenOutcome::Conflict(url) => Feedback::Conflict(url),
        }
    }

    /// The session flag of this feedback: `1` for a success, `-1` for a
    /// conflict, `0` where neutral.
    pub fn flag(&self) -> (r: String)
        ensures
            self is Success ==> r@ == success_flag(),
            self is Conflict ==> r@ == conflict_flag(),
            self is Neutral ==> r@ == seq!['0'],
    {
        proof {
            reveal_strlit("1");
            reveal_strlit("-1");
            reveal_strlit("0");
        }
        match self {
            Feedback::Neutral => String::from_str("0"),
            Feedback::Success(_) => String::from_str("1"),
            Feedback::Conflict(_) => String::from_str("-1"),
        }
    }

    /// Reads the feedback back from its session values: the flag, the last
    /// URL and the last assigned code. A flag other than `1` or `-1`, absent
    /// ones included, reads as neutral.
    pub fn from_session(flag: &str, url: &str, code: &str) -> (r: Feedback)
        ensures
            flag@ == success_flag() ==> r is Success && r->Success_0@ == code@,
            flag@ == conflict_flag() ==> r is Conflict && r->Conflict_0@ == url@,
            flag@ != success_flag() && flag@ != conflict_flag() ==> r is Neutral,
    {
        proof {
            reveal_strlit("1");
            reveal_strlit("-1");
        }
        if same_text(flag, "1") {
            assert("1"@ =~= success_flag());
            Feedback::Success(code.to_owned())
        } else if same_text(flag, "-1") {
            assert("-1"@ =~= conflict_flag());
            Feedback::Conflict(url.to_owned())
        } else {
            assert("1"@ =~= success_flag());
            assert("-1"@ =~= conflict_flag());
            Feedback::Neutral
        }
    }
}

} // verus!
