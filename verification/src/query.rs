//! Decoding of URL query strings into the typed parameters of each route.

use crate::error::ErrorKind;
use crate::text::{is_unsigned, parse_unsigned, unsigned_value};
use vstd::prelude::*;
use vstd::string::StringExecFns;

verus! {

/// A decoded query: its key-value pairs in the order of the query string.
pub type Pairs = Seq<(Seq<char>, Seq<char>)>;

/// Query parameters of the greeting route.
#[derive(Clone, Debug, PartialEq, Eq)]
pub struct HelloData {
    pub name: String,
}

/// Query parameters of the numbered-list route.
#[derive(Clone, Debug, PartialEq, Eq)]
pub struct LinesData {
    pub n: usize,
}

/// Query parameters of the series route.
pub type MathData = LinesData;

/// The error of `serde_urlencoded::from_str`. Nothing is read from it: a
/// failure to read a query string is a decode failure, whatever its cause.
#[verifier::external_type_specification]
#[verifier::external_body]
pub struct ExUrlencodedError(serde_urlencoded::de::Error);

/// The pairs that `serde_urlencoded::from_str` reads from a query string as a
/// `Vec<(String, String)>`, percent-decoding included; `None` where it fails.
pub uninterp spec fn urlencoded_pairs(query: Seq<char>) -> Option<Pairs>;

/// The pairs of a vector of strings, each string taken by its characters.
pub open spec fn pairs_of(v: Seq<(String, String)>) -> Pairs {
    Seq::new(v.len(), |i: int| (v[i].0@, v[i].1@))
}

/// Calls `serde_urlencoded::from_str` to read a query string as a list of
/// pairs. Believed, not proved: the outcome is a function of the query
/// string alone, which `urlencoded_pairs` names, and an empty query string
/// reads as no pair at all.
#[verifier::external_body]
pub(crate) fn parse_pairs(query: &str) -> (r: Result<
    Vec<(String, String)>,
    serde_urlencoded::de::Error,
>)
    ensures
        match r {
            Ok(v) => urlencoded_pairs(query@) == Some(pairs_of(v@)),
            Err(_) => urlencoded_pairs(query@) is None,
        },
        query@.len() == 0 ==> r is Ok && r->Ok_0@.len() == 0,
{
    serde_urlencoded::from_str::<Vec<(String, String)>>(query)
}

/// Whether the pair at index `i` has the key `key`.
pub open spec fn has_key_at(pairs: Pairs, key: Seq<char>, i: int) -> bool {
    0 <= i < pairs.len() && pairs[i].0 == key
}

/// Whether no pair has the key `key`.
pub open spec fn key_absent(pairs: Pairs, key: Seq<char>) -> bool {
    forall|i: int| !has_key_at(pairs, key, i)
}

/// Whether two pairs or more have the key `key`.
pub open spec fn key_repeated(pairs: Pairs, key: Seq<char>) -> bool {
    exists|i: int, j: int| i != j && has_key_at(pairs, key, i) && has_key_at(pairs, key, j)
}

/// The value of a pair with the key `key`: the only one, where the key is
/// neither absent nor repeated.
pub open spec fn key_value(pairs: Pairs, key: Seq<char>) -> Seq<char> {
    pairs[choose|i: int| has_key_at(pairs, key, i)].1
}

/// Where a key stands among the pairs of a query.
#[derive(Clone, Copy, Debug, PartialEq, Eq, Structural)]
pub enum Found {
    /// No pair has the key.
    Absent,
    /// Exactly one pair has the key, at this index.
    Once(usize),
    /// Two pairs or more have the key.
    Repeated,
}

/// Looks the key up among the pairs.
pub fn find_key(pairs: &Vec<(String, String)>, key: &str) -> (r: Found)
    ensures
        match r {
            Found::Absent => key_absent(pairs_of(pairs@), key@),
            Found::Once(i) => {
                &&& has_key_at(pairs_of(pairs@), key@, i as int)
                &&& !key_repeated(pairs_of(pairs@), key@)
                &&& key_value(pairs_of(pairs@), key@) == pairs@[i as int].1@
            },
            Found::Repeated => key_repeated(pairs_of(pairs@), key@),
        },
{
    let wanted = String::from_str(key);
    let ghost p = pairs_of(pairs@);
    let mut found: Option<usize> = None;
    let mut i: usize = 0;
    while i < pairs.len()
        invariant
            i <= pairs.len(),
            p == pairs_of(pairs@),
            wanted@ == key@,
            match found {
                None => forall|k: int| 0 <= k < i ==> !has_key_at(p, key@, k),
                Some(at) => at < i && has_key_at(p, key@, at as int) && forall|k: int|
                    0 <= k < i && k != at ==> !has_key_at(p, key@, k),
            },
        decreases pairs.len() - i,
    {
        if pairs[i].0 == wanted {
            match found {
                Some(at) => {
                    assert(has_key_at(p, key@, at as int) && has_key_at(p, key@, i as int));
                    return Found::Repeated;
                },
                None => {
                    found = Some(i);
                },
            }
        }
        i = i + 1;
    }
    match found {
        None => Found::Absent,
        Some(at) => {
            assert(forall|k: int| has_key_at(p, key@, k) ==> k == at);
            Found::Once(at)
        },
    }
}

/// The name that a decoded query gives the greeting route: the value of the
/// key `name`, the empty string where the key is absent, and `None` where
/// the key is repeated. Other keys count for nothing.
pub open spec fn hello_name(pairs: Pairs) -> Option<Seq<char>> {
    if key_repeated(pairs, "name"@) {
        None
    } else if key_absent(pairs, "name"@) {
        Some(Seq::empty())
    } else {
        Some(key_value(pairs, "name"@))
    }
}

/// The count that a decoded query gives a route with the parameter `n`: the
/// number that the value of the key `n` writes, zero where the key is absent,
/// and `None` where the key is repeated or its value writes no `usize`.
pub open spec fn lines_count(pairs: Pairs) -> Option<nat> {
    if key_repeated(pairs, "n"@) {
        None
    } else if key_absent(pairs, "n"@) {
        Some(0)
    } else if is_unsigned(key_value(pairs, "n"@), usize::MAX as nat) {
        Some(unsigned_value(key_value(pairs, "n"@)))
    } else {
        None
    }
}

/// The name that the greeting route decodes from the outcome of reading a
/// query string into pairs.
pub open spec fn decoded_hello(pairs: Option<Pairs>) -> Result<Seq<char>, ErrorKind> {
    match pairs {
        Some(p) => match hello_name(p) {
            Some(name) => Ok(name),
            None => Err(ErrorKind::Malformed),
        },
        None => Err(ErrorKind::Malformed),
    }
}

/// The count that a route with the parameter `n` decodes from the outcome of
/// reading a query string into pairs.
pub open spec fn decoded_lines(pairs: Option<Pairs>) -> Result<nat, ErrorKind> {
    match pairs {
        Some(p) => match lines_count(p) {
            Some(n) => Ok(n),
            None => Err(ErrorKind::Malformed),
        },
        None => Err(ErrorKind::Malformed),
    }
}

impl View for HelloData {
    type V = Seq<char>;

    open spec fn view(&self) -> Seq<char> {
        self.name@
    }
}

impl View for LinesData {
    type V = nat;

    open spec fn view(&self) -> nat {
        self.n as nat
    }
}

/// The outcome of decoding the greeting route's parameters, as a
/// mathematical value.
pub open spec fn hello_view(r: Result<HelloData, ErrorKind>) -> Result<Seq<char>, ErrorKind> {
    match r {
        Ok(data) => Ok(data@),
        Err(e) => Err(e),
    }
}

/// The outcome of decoding the parameter `n`, as a mathematical value.
pub open spec fn lines_view(r: Result<LinesData, ErrorKind>) -> Result<nat, ErrorKind> {
    match r {
        Ok(data) => Ok(data@),
        Err(e) => Err(e),
    }
}

/// Fills the greeting route's parameters from the pairs of a query.
pub fn hello_from_pairs(pairs: &Vec<(String, String)>) -> (r: Result<HelloData, ErrorKind>)
    ensures
        hello_view(r) == decoded_hello(Some(pairs_of(pairs@))),
{
    match find_key(pairs, "name") {
        Found::Absent => Ok(HelloData { name: String::new() }),
        Found::Once(i) => Ok(HelloData { name: pairs[i].1.clone() }),
        Found::Repeated => Err(ErrorKind::Malformed),
    }
}

/// Fills the parameters of a route that takes `n` from the pairs of a query.
pub fn lines_from_pairs(pairs: &Vec<(String, String)>) -> (r: Result<LinesData, ErrorKind>)
    ensures
        lines_view(r) == decoded_lines(Some(pairs_of(pairs@))),
{
    match find_key(pairs, "n") {
        Found::Absent => Ok(LinesData { n: 0 }),
        Found::Once(i) => {
            match parse_unsigned(pairs[i].1.as_str()) {
                Some(v) => {
                    if v <= usize::MAX as u64 {
                        Ok(LinesData { n: v as usize })
                    } else {
                        Err(ErrorKind::Malformed)
                    }
                },
                None => Err(ErrorKind::Malformed),
            }
        },
        Found::Repeated => Err(ErrorKind::Malformed),
    }
}

/// Decodes the query string of the greeting route. An absent `name` never
/// fails: it decodes to the empty string.
pub fn decode_hello(query: &str) -> (r: Result<HelloData, ErrorKind>)
    ensures
        hello_view(r) == decoded_hello(urlencoded_pairs(query@)),
        query@.len() == 0 ==> hello_view(r) == Ok::<Seq<char>, ErrorKind>(Seq::empty()),
{
    match parse_pairs(query) {
        Ok(pairs) => {
            proof {
                if query@.len() == 0 {
                    assert(key_absent(pairs_of(pairs@), "name"@));
                    assert(!key_repeated(pairs_of(pairs@), "name"@));
                }
            }
            hello_from_pairs(&pairs)
        },
        Err(_) => Err(ErrorKind::Malformed),
    }
}

/// Decodes the query string of a route that takes `n`. An absent `n` never
/// fails: it decodes to zero.
pub fn decode_lines(query: &str) -> (r: Result<LinesData, ErrorKind>)
    ensures
        lines_view(r) == decoded_lines(urlencoded_pairs(query@)),
        query@.len() == 0 ==> lines_view(r) == Ok::<nat, ErrorKind>(0),
{
    match parse_pairs(query) {
        Ok(pairs) => {
            proof {
                if query@.len() == 0 {
                    assert(key_absent(pairs_of(pairs@), "n"@));
                    assert(!key_repeated(pairs_of(pairs@), "n"@));
                }
            }
            lines_from_pairs(&pairs)
        },
        Err(_) => Err(ErrorKind::Malformed),
    }
}

/// An absent parameter never fails decoding: where no pair has the key
/// `name`, the name is the empty string, and where none has the key `n`, the
/// count is zero, whatever else the query holds.
pub proof fn lemma_absent_parameter_defaults(pairs: Pairs)
    ensures
        key_absent(pairs, "name"@) ==> decoded_hello(Some(pairs)) == Ok::<Seq<char>, ErrorKind>(
            Seq::empty(),
        ),
        key_absent(pairs, "n"@) ==> decoded_lines(Some(pairs)) == Ok::<nat, ErrorKind>(0),
{
}

/// A count that is given once decodes if and only if its value writes a
/// `usize`: anything else is a decode failure.
pub proof fn lemma_malformed_count_fails(pairs: Pairs)
    requires
        !key_absent(pairs, "n"@),
        !key_repeated(pairs, "n"@),
    ensures
        decoded_lines(Some(pairs)) is Ok <==> is_unsigned(
            key_value(pairs, "n"@),
            usize::MAX as nat,
        ),
        decoded_lines(Some(pairs)) is Err ==> decoded_lines(Some(pairs))
            == Err::<nat, ErrorKind>(ErrorKind::Malformed),
{
}

/// A pair with another key changes nothing about a key: wherever it is put
/// among the pairs, the key is absent, repeated and valued as before.
pub proof fn lemma_other_key_is_ignored(
    pairs: Pairs,
    at: int,
    other: (Seq<char>, Seq<char>),
    key: Seq<char>,
)
    requires
        0 <= at <= pairs.len(),
        other.0 != key,
    ensures
        key_absent(pairs.insert(at, other), key) == key_absent(pairs, key),
        key_repeated(pairs.insert(at, other), key) == key_repeated(pairs, key),
        !key_absent(pairs, key) && !key_repeated(pairs, key) ==> key_value(
            pairs.insert(at, other),
            key,
        ) == key_value(pairs, key),
{
    let longer = pairs.insert(at, other);
    assert forall|i: int| has_key_at(pairs, key, i) implies has_key_at(
        longer,
        key,
        if i < at {
            i
        } else {
            i + 1
        },
    ) by {}
    assert forall|i: int| has_key_at(longer, key, i) implies has_key_at(
        pairs,
        key,
        if i < at {
            i
        } else {
            i - 1
        },
    ) by {}
    if !key_absent(pairs, key) {
        let i = choose|i: int| has_key_at(pairs, key, i);
        assert(has_key_at(longer, key, if i < at { i } else { i + 1 }));
    }
    if !key_absent(longer, key) {
        let i = choose|i: int| has_key_at(longer, key, i);
        assert(has_key_at(pairs, key, if i < at { i } else { i - 1 }));
    }
    if key_repeated(pairs, key) {
        let (i, j) = choose|i: int, j: int|
            i != j && has_key_at(pairs, key, i) && has_key_at(pairs, key, j);
        let i2 = if i < at { i } else { i + 1 };
        let j2 = if j < at { j } else { j + 1 };
        assert(i2 != j2 && has_key_at(longer, key, i2) && has_key_at(longer, key, j2));
    }
    if key_repeated(longer, key) {
        let (i, j) = choose|i: int, j: int|
            i != j && has_key_at(longer, key, i) && has_key_at(longer, key, j);
        let i2 = if i < at { i } else { i - 1 };
        let j2 = if j < at { j } else { j - 1 };
        assert(i2 != j2 && has_key_at(pairs, key, i2) && has_key_at(pairs, key, j2));
    }
    if !key_absent(pairs, key) && !key_repeated(pairs, key) {
        let i = choose|i: int| has_key_at(pairs, key, i);
        let k = choose|k: int| has_key_at(longer, key, k);
        let i2 = if i < at { i } else { i + 1 };
        assert(has_key_at(longer, key, i2));
        if k != i2 {
            assert(k != i2 && has_key_at(longer, key, k) && has_key_at(longer, key, i2));
        }
        assert(longer[i2].1 == pairs[i].1);
    }
}

/// Keys that a route does not know are ignored: a pair with any other key,
/// put anywhere among the pairs of a query, leaves what the greeting route
/// and the routes that take `n` decode as it was.
pub proof fn lemma_unknown_keys_are_ignored(
    pairs: Pairs,
    at: int,
    other: (Seq<char>, Seq<char>),
)
    requires
        0 <= at <= pairs.len(),
    ensures
        other.0 != "name"@ ==> decoded_hello(Some(pairs.insert(at, other))) == decoded_hello(
            Some(pairs),
        ),
        other.0 != "n"@ ==> decoded_lines(Some(pairs.insert(at, other))) == decoded_lines(
            Some(pairs),
        ),
{
    if other.0 != "name"@ {
        lemma_other_key_is_ignored(pairs, at, other, "name"@);
    }
    if other.0 != "n"@ {
        lemma_other_key_is_ignored(pairs, at, other, "n"@);
    }
}

} // verus!
