//! Strings as sequences of characters, and lists of strings as sets.

use vstd::prelude::*;

verus! {

/// The contents of a list of strings.
pub open spec fn texts(list: Seq<String>) -> Seq<Seq<char>> {
    list.map_values(|s: String| s@)
}

/// The strings that occur in a list.
pub open spec fn names(list: Seq<String>) -> Set<Seq<char>> {
    texts(list).to_set()
}

/// An optional string by its contents.
pub open spec fn opt_text(s: Option<String>) -> Option<Seq<char>> {
    match s {
        Some(t) => Some(t@),
        None => None,
    }
}

/// An optional list of strings by its contents.
pub open spec fn opt_texts(list: Option<Vec<String>>) -> Option<Seq<Seq<char>>> {
    match list {
        Some(l) => Some(texts(l@)),
        None => None,
    }
}

/// Lexicographic order of strings by code point.
pub open spec fn lex_le(a: Seq<char>, b: Seq<char>) -> bool
    decreases a.len(),
{
    if a.len() == 0 {
        true
    } else if b.len() == 0 {
        false
    } else if a[0] != b[0] {
        (a[0] as int) < (b[0] as int)
    } else {
        lex_le(a.skip(1), b.skip(1))
    }
}

pub open spec fn has_prefix(s: Seq<char>, prefix: Seq<char>) -> bool {
    prefix.len() <= s.len() && s.take(prefix.len() as int) == prefix
}

/// Whether two strings have the same characters.
pub(crate) fn same_text(a: &str, b: &str) -> (r: bool)
    ensures
        r == (a@ == b@),
{
    a.to_owned() == b.to_owned()
}

/// `str`'s `<=` from std: string slices are ordered by their bytes, which
/// orders them by code point.
#[verifier::external_body]
pub(crate) fn at_most(a: &str, b: &str) -> (r: bool)
    ensures
        r == lex_le(a@, b@),
{
    a <= b
}

/// `str::strip_prefix` from std: what follows the prefix, where the string
/// begins with it.
#[verifier::external_body]
pub(crate) fn without_prefix<'a>(s: &'a str, prefix: &str) -> (r: Option<&'a str>)
    ensures
        r is Some <==> has_prefix(s@, prefix@),
        r matches Some(rest) ==> rest@ == s@.skip(prefix@.len() as int),
{
    s.strip_prefix(prefix)
}

/// One string followed by another.
pub fn joined(a: &str, b: &str) -> (r: String)
    ensures
        r@ == a@ + b@,
{
    let s: String = a.to_owned();
    vstd::string::StringExecFns::concat(s, b)
}

pub fn duplicate_list(list: &Vec<String>) -> (r: Vec<String>)
    ensures
        r@ == list@,
{
    let mut r: Vec<String> = Vec::new();
    for i in 0..list.len()
        invariant
            r@ == list@.take(i as int),
    {
        r.push(list[i].clone());
        assert(list@.take(i as int).push(list@[i as int]) =~= list@.take(i + 1));
    }
    assert(list@.take(list@.len() as int) =~= list@);
    r
}

/// Whether a string occurs in a list.
pub fn contains_text(list: &Vec<String>, s: &str) -> (r: bool)
    ensures
        r == names(list@).contains(s@),
{
    for i in 0..list.len()
        invariant
            forall|j: int| 0 <= j < i ==> (#[trigger] texts(list@)[j]) != s@,
    {
        assert(texts(list@)[i as int] == list@[i as int]@);
        if same_text(list[i].as_str(), s) {
            return true;
        }
    }
    false
}

/// Adds a string to a list that holds nothing twice, unless it is there.
pub fn add_text(list: &mut Vec<String>, s: &String)
    requires
        texts(old(list)@).no_duplicates(),
    ensures
        texts(final(list)@).no_duplicates(),
        names(final(list)@) == names(old(list)@).insert(s@),
{
    let ghost before = texts(list@);
    if !contains_text(list, s.as_str()) {
        list.push(s.clone());
        assert(texts(list@) =~= before.push(s@));
        proof {
            before.lemma_push_to_set_commute(s@);
        }
    } else {
        assert(names(list@) =~= before.to_set().insert(s@));
    }
}

/// The strings of one list that do not occur in another, each once where the
/// first list holds each once.
pub fn missing_from(list: &Vec<String>, other: &Vec<String>) -> (r: Vec<String>)
    requires
        texts(list@).no_duplicates(),
    ensures
        texts(r@).no_duplicates(),
        names(r@) == names(list@).difference(names(other@)),
{
    let mut r: Vec<String> = Vec::new();
    assert(names(r@) =~= Set::empty());
    for i in 0..list.len()
        invariant
            texts(r@).no_duplicates(),
            forall|t: Seq<char>|
                names(r@).contains(t) <==> (texts(list@).take(i as int).contains(t)
                    && !names(other@).contains(t)),
    {
        let ghost before = names(r@);
        if !contains_text(other, list[i].as_str()) {
            add_text(&mut r, &list[i]);
        }
        assert forall|t: Seq<char>|
            names(r@).contains(t) <==> (texts(list@).take(i + 1).contains(t) && !names(
                other@,
            ).contains(t)) by {
            let sofar = texts(list@).take(i as int);
            let next = texts(list@).take(i + 1);
            assert(next =~= sofar.push(list@[i as int]@));
            if sofar.contains(t) {
                let k = choose|k: int| 0 <= k < sofar.len() && sofar[k] == t;
                assert(next[k] == t);
            }
            if t == list@[i as int]@ {
                assert(next[i as int] == t);
            }
        }
    }
    assert(texts(list@).take(list@.len() as int) =~= texts(list@));
    assert(names(r@) =~= names(list@).difference(names(other@)));
    r
}

/// The strings of a list, each once.
pub fn each_once(list: &Vec<String>) -> (r: Vec<String>)
    ensures
        texts(r@).no_duplicates(),
        names(r@) == names(list@),
{
    let mut r: Vec<String> = Vec::new();
    assert(names(r@) =~= texts(list@).take(0).to_set());
    for i in 0..list.len()
        invariant
            texts(r@).no_duplicates(),
            names(r@) == texts(list@).take(i as int).to_set(),
    {
        let ghost sofar = texts(list@).take(i as int);
        add_text(&mut r, &list[i]);
        assert(texts(list@).take(i + 1) =~= sofar.push(list@[i as int]@));
        proof {
            sofar.lemma_push_to_set_commute(list@[i as int]@);
        }
    }
    assert(texts(list@).take(list@.len() as int) =~= texts(list@));
    r
}

/// The order relates any two strings.
pub proof fn lex_total(a: Seq<char>, b: Seq<char>)
    ensures
        lex_le(a, b) || lex_le(b, a),
    decreases a.len(),
{
    if a.len() > 0 && b.len() > 0 && a[0] == b[0] {
        lex_total(a.skip(1), b.skip(1));
    }
}

/// The order is transitive.
pub proof fn lex_transitive(a: Seq<char>, b: Seq<char>, c: Seq<char>)
    requires
        lex_le(a, b),
        lex_le(b, c),
    ensures
        lex_le(a, c),
    decreases a.len(),
{
    if a.len() > 0 && b.len() > 0 && c.len() > 0 && a[0] == b[0] && b[0] == c[0] {
        lex_transitive(a.skip(1), b.skip(1), c.skip(1));
    }
}

/// Two strings that each come no later than the other are the same.
pub proof fn lex_antisymmetric(a: Seq<char>, b: Seq<char>)
    requires
        lex_le(a, b),
        lex_le(b, a),
    ensures
        a == b,
    decreases a.len(),
{
    if a.len() > 0 && b.len() > 0 {
        lex_antisymmetric(a.skip(1), b.skip(1));
        assert(a =~= seq![a[0]] + a.skip(1));
        assert(b =~= seq![b[0]] + b.skip(1));
    } else {
        assert(a =~= b);
    }
}

/// A prefix put before a string can be taken off again, and leaves the string.
pub proof fn prefix_comes_off(prefix: Seq<char>, s: Seq<char>)
    ensures
        has_prefix(prefix + s, prefix),
        (prefix + s).skip(prefix.len() as int) == s,
{
    assert((prefix + s).take(prefix.len() as int) =~= prefix);
    assert((prefix + s).skip(prefix.len() as int) =~= s);
}

/// A string that begins with a prefix is the prefix followed by the rest.
pub proof fn prefix_goes_back(prefix: Seq<char>, s: Seq<char>)
    requires
        has_prefix(s, prefix),
    ensures
        prefix + s.skip(prefix.len() as int) == s,
{
    assert(prefix + s.skip(prefix.len() as int) =~= s);
}

} // verus!
