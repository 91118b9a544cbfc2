//! The mapping store: link records from short code to target URL.

use vstd::prelude::*;
use vstd::string::StrSliceExecFns;

verus! {

/// A persisted `{code, url}` pair.
pub struct LinkRecord {
    pub code: String,
    pub url: String,
}

impl View for LinkRecord {
    type V = (Seq<char>, Seq<char>);

    open spec fn view(&self) -> (Seq<char>, Seq<char>) {
        (self.code@, self.url@)
    }
}

impl LinkRecord {
    pub fn new(code: &str, url: &str) -> (r: LinkRecord)
        ensures
            r@ == (code@, url@),
    {
        LinkRecord { code: code.to_owned(), url: url.to_owned() }
    }

    /// A copy of the record, sharing nothing with it.
    pub fn duplicate(&self) -> (r: LinkRecord)
        ensures
            r@ == self@,
    {
        LinkRecord { code: self.code.clone(), url: self.url.clone() }
    }
}

/// The URL that a lookup of `code` finds among `recs`, taken in insertion
/// order: the one of the earliest record under `code`, if any.
pub open spec fn lookup(recs: Seq<(Seq<char>, Seq<char>)>, code: Seq<char>) -> Option<Seq<char>>
    decreases recs.len(),
{
    if recs.len() == 0 {
        None
    } else if lookup(recs.drop_last(), code) is Some {
        lookup(recs.drop_last(), code)
    } else if recs.last().0 == code {
        Some(recs.last().1)
    } else {
        None
    }
}

/// Some record among `recs` is stored under `code`.
pub open spec fn holds_code(recs: Seq<(Seq<char>, Seq<char>)>, code: Seq<char>) -> bool {
    exists|i: int| 0 <= i < recs.len() && (#[trigger] recs[i]).0 == code
}

/// No two records among `recs` share a code.
pub open spec fn codes_unique(recs: Seq<(Seq<char>, Seq<char>)>) -> bool {
    forall|i: int, j: int|
        0 <= i < recs.len() && 0 <= j < recs.len() && i != j ==> (#[trigger] recs[i]).0 != (
        #[trigger] recs[j]).0
}

/// A lookup answers from the first records only, once one of them holds the code.
proof fn lemma_lookup_prefix(recs: Seq<(Seq<char>, Seq<char>)>, k: int, code: Seq<char>)
    requires
        0 <= k <= recs.len(),
        lookup(recs.subrange(0, k), code) is Some,
    ensures
        lookup(recs, code) == lookup(recs.subrange(0, k), code),
    decreases recs.len() - k,
{
    if k < recs.len() {
        let longer = recs.subrange(0, k + 1);
        assert(longer.drop_last() =~= recs.subrange(0, k));
        lemma_lookup_prefix(recs, k + 1, code);
    } else {
        assert(recs.subrange(0, k) =~= recs);
    }
}

/// A lookup finds something exactly when a record holds the code.
pub proof fn lemma_lookup_some_iff_held(recs: Seq<(Seq<char>, Seq<char>)>, code: Seq<char>)
    ensures
        lookup(recs, code) is Some <==> holds_code(recs, code),
    decreases recs.len(),
{
    if recs.len() > 0 {
        let prev = recs.drop_last();
        lemma_lookup_some_iff_held(prev, code);
        if holds_code(prev, code) {
            let i = choose|i: int| 0 <= i < prev.len() && (#[trigger] prev[i]).0 == code;
            assert(recs[i] == prev[i]);
        }
        if holds_code(recs, code) && !holds_code(prev, code) {
            let i = choose|i: int| 0 <= i < recs.len() && (#[trigger] recs[i]).0 == code;
            if i < prev.len() {
                assert(prev[i] == recs[i]);
            }
        }
    }
}

/// Round trip: once a record of `code` and `url` is inserted where no record
/// held `code`, a lookup of `code` finds exactly `url`.
pub proof fn lemma_insert_then_find(
    before: Seq<(Seq<char>, Seq<char>)>,
    code: Seq<char>,
    url: Seq<char>,
)
    requires
        lookup(before, code) is None,
    ensures
        lookup(before.push((code, url)), code) == Some(url),
{
    assert(before.push((code, url)).drop_last() =~= before);
}

/// Inserting a record never changes what a lookup finds for a code that was
/// already held, nor for any other code.
pub proof fn lemma_insert_keeps_lookups(
    before: Seq<(Seq<char>, Seq<char>)>,
    code: Seq<char>,
    url: Seq<char>,
    other: Seq<char>,
)
    requires
        other != code || lookup(before, other) is Some,
    ensures
        lookup(before.push((code, url)), other) == lookup(before, other),
{
    assert(before.push((code, url)).drop_last() =~= before);
}

/// A lookup of a code under which no record was ever inserted finds
/// nothing, however many other records were inserted before it.
pub proof fn lemma_never_inserted_is_absent(recs: Seq<(Seq<char>, Seq<char>)>, code: Seq<char>)
    requires
        forall|i: int| 0 <= i < recs.len() ==> (#[trigger] recs[i]).0 != code,
    ensures
        lookup(recs, code) is None,
{
    lemma_lookup_some_iff_held(recs, code);
}

/// Appending a record under a code that no record holds keeps codes unique.
pub proof fn lemma_insert_fresh_keeps_unique(
    before: Seq<(Seq<char>, Seq<char>)>,
    code: Seq<char>,
    url: Seq<char>,
)
    requires
        codes_unique(before),
        !holds_code(before, code),
    ensures
        codes_unique(before.push((code, url))),
{
    let after = before.push((code, url));
    assert forall|i: int, j: int|
        0 <= i < after.len() && 0 <= j < after.len() && i != j implies (#[trigger] after[i]).0
        != (#[trigger] after[j]).0 by {
        if i < before.len() && j < before.len() {
            assert(after[i] == before[i] && after[j] == before[j]);
        } else if i < before.len() {
            assert(after[i] == before[i]);
        } else if j < before.len() {
            assert(after[j] == before[j]);
        }
    }
}

/// Equality of two strings, character by character.
pub fn same_text(a: &str, b: &str) -> (r: bool)
    ensures
        r == (a@ == b@),
{
    let n = a.unicode_len();
    if n != b.unicode_len() {
        return false;
    }
    let mut i: usize = 0;
    while i < n
        invariant
            n == a@.len(),
            n == b@.len(),
            i <= n,
            a@.subrange(0, i as int) == b@.subrange(0, i as int),
        decreases n - i,
    {
        if a.get_char(i) != b.get_char(i) {
            assert(a@[i as int] != b@[i as int]);
            return false;
        }
        assert(a@.subrange(0, i + 1) =~= a@.subrange(0, i as int).push(a@[i as int]));
        assert(b@.subrange(0, i + 1) =~= b@.subrange(0, i as int).push(b@[i as int]));
        i = i + 1;
    }
    assert(a@ =~= a@.subrange(0, n as int));
    assert(b@ =~= b@.subrange(0, n as int));
    true
}

/// The mapping store: link records kept in insertion order. It does not
/// itself refuse a second record under a code already held; callers check
/// first.
pub struct LinkStore {
    records: Vec<LinkRecord>,
}

impl View for LinkStore {
    type V = Seq<(Seq<char>, Seq<char>)>;

    closed spec fn view(&self) -> Seq<(Seq<char>, Seq<char>)> {
        self.records@.map_values(|r: LinkRecord| r@)
    }
}

impl LinkStore {
    /// A store with no records.
    pub fn new() -> (r: LinkStore)
        ensures
            r@ == Seq::<(Seq<char>, Seq<char>)>::empty(),
    {
        let r = LinkStore { records: Vec::new() };
        assert(r@ =~= Seq::<(Seq<char>, Seq<char>)>::empty());
        r
    }

    /// Number of records held.
    pub fn len(&self) -> (r: usize)
        ensures
            r == self@.len(),
    {
        self.records.len()
    }

    /// Exact-match lookup of `code`: a copy of the earliest record under it,
    /// or `None` where no record holds it.
    pub fn find_by_code(&self, code: &str) -> (r: Option<LinkRecord>)
        ensures
            r is Some <==> holds_code(self@, code@),
            lookup(self@, code@) is None <==> r is None,
            r is Some ==> r->0@ == (code@, lookup(self@, code@)->0),
    {
        proof {
            lemma_lookup_some_iff_held(self@, code@);
        }
        let n = self.records.len();
        let mut i: usize = 0;
        while i < n
            invariant
                n == self.records@.len(),
                n == self@.len(),
                i <= n,
                lookup(self@.subrange(0, i as int), code@) is None,
            decreases n - i,
        {
            let rec = &self.records[i];
            if same_text(rec.code.as_str(), code) {
                proof {
                    let pre = self@.subrange(0, i + 1);
                    assert(pre.drop_last() =~= self@.subrange(0, i as int));
                    assert(pre.last() == self@[i as int]);
                    assert(self@[i as int] == rec@);
                    lemma_lookup_prefix(self@, i + 1, code@);
                }
                return Some(rec.duplicate());
            }
            proof {
                let pre = self@.subrange(0, i + 1);
                assert(pre.drop_last() =~= self@.subrange(0, i as int));
                assert(self@[i as int] == rec@);
            }
            i = i + 1;
        }
        assert(self@.subrange(0, n as int) =~= self@);
        None
    }

    /// Appends a record of `code` and `url`; records already held are kept
    /// as they are.
    pub fn insert(&mut self, code: &str, url: &str)
        ensures
            final(self)@ == old(self)@.push((code@, url@)),
    {
        let rec = LinkRecord::new(code, url);
        self.records.push(rec);
        assert(final(self)@ =~= old(self)@.push((code@, url@)));
    }
}

} // verus!
