use vstd::prelude::*;

use crate::cache::{first_match_at, Cache, CacheEntry, EntryView};

verus! {

/// Why a cache file could not be loaded.
#[derive(Debug, PartialEq, Eq, Structural)]
pub enum LoadError {
    /// The file is in neither the current nor the legacy format.
    Malformed,
}

/// A lower-case hexadecimal digit.
pub open spec fn hex_digit(n: u32) -> char {
    seq!['0', '1', '2', '3', '4', '5', '6', '7', '8', '9', 'a', 'b', 'c', 'd', 'e', 'f'][n as int]
}

/// How one character is written inside a JSON string literal: `"` and `\`
/// and the control characters are escaped, short forms where JSON has them,
/// `\u00xx` for the other ones; every other character stands as it is.
pub open spec fn escape_char(c: char) -> Seq<char> {
    if c == '"' {
        seq!['\\', '"']
    } else if c == '\\' {
        seq!['\\', '\\']
    } else if c == '\u{8}' {
        seq!['\\', 'b']
    } else if c == '\t' {
        seq!['\\', 't']
    } else if c == '\n' {
        seq!['\\', 'n']
    } else if c == '\u{c}' {
        seq!['\\', 'f']
    } else if c == '\r' {
        seq!['\\', 'r']
    } else if (c as u32) < 32 {
        seq!['\\', 'u', '0', '0', hex_digit((c as u32) / 16), hex_digit((c as u32) % 16)]
    } else {
        seq![c]
    }
}

/// The characters of `s`, each written as `escape_char` says.
pub open spec fn escaped(s: Seq<char>) -> Seq<char>
    decreases s.len(),
{
    if s.len() == 0 {
        Seq::empty()
    } else {
        escaped(s.drop_last()) + escape_char(s.last())
    }
}

/// The JSON string literal for `s`: its escaped characters between quotes.
pub open spec fn json_string_spec(s: Seq<char>) -> Seq<char> {
    seq!['"'] + escaped(s) + seq!['"']
}

/// The prompt-to-response mapping that serde_json reads from `text` as a flat
/// object of strings, or `None` when `text` is not such an object.
pub uninterp spec fn legacy_map_of(text: Seq<char>) -> Option<Map<Seq<char>, Seq<char>>>;

/// Relies on serde_json::to_string on a `str`: it writes the string literal
/// with serde_json's escapes, and cannot fail since it writes into memory.
#[verifier::external_body]
fn json_string(s: &str) -> (r: String)
    ensures
        r@ == json_string_spec(s@),
{
    serde_json::to_string(s).unwrap()
}

/// Relies on serde_json::from_str into a `HashMap<String, String>`: on
/// success, each key of the object read appears once, with its value.
#[verifier::external_body]
fn parse_legacy(text: &str) -> (r: Option<Vec<(String, String)>>)
    ensures
        r is Some <==> legacy_map_of(text@) is Some,
        r matches Some(v) ==> pairs_are_map(
            v@.map_values(|q: (String, String)| (q.0@, q.1@)),
            legacy_map_of(text@)->0,
        ),
{
    match serde_json::from_str::<std::collections::HashMap<String, String>>(text) {
        Ok(m) => Some(m.into_iter().collect()),
        Err(_) => None,
    }
}

/// `s` lists every key of `m` exactly once, each with its value, in some order.
pub open spec fn pairs_are_map(s: Seq<EntryView>, m: Map<Seq<char>, Seq<char>>) -> bool {
    &&& forall|i: int| 0 <= i < s.len() ==> #[trigger] m.contains_key(s[i].0) && m[s[i].0] == s[i].1
    &&& forall|k: Seq<char>| #[trigger] m.contains_key(k) ==> exists|i: int| 0 <= i < s.len() && s[i].0 == k
    &&& forall|i: int, j: int| 0 <= i < j < s.len() ==> s[i].0 != s[j].0
}

/// One entry in the current format.
pub open spec fn entry_json(e: EntryView) -> Seq<char> {
    "{\"prompt\":"@ + json_string_spec(e.0) + ",\"response\":"@ + json_string_spec(e.1) + "}"@
}

/// The entries in the current format, separated by commas.
pub open spec fn entries_json(s: Seq<EntryView>) -> Seq<char>
    decreases s.len(),
{
    if s.len() == 0 {
        Seq::empty()
    } else if s.len() == 1 {
        entry_json(s[0])
    } else {
        entries_json(s.drop_last()) + ","@ + entry_json(s.last())
    }
}

/// The whole file in the current format: an object whose `entries` field lists
/// the entries in order.
pub open spec fn cache_json(s: Seq<EntryView>) -> Seq<char> {
    "{\"entries\":["@ + entries_json(s) + "]}"@
}

/// Writes `cache` in the current file format, entries in their present order.
pub fn encode_cache(cache: &Cache) -> (r: String)
    ensures
        r@ == cache_json(cache@),
{
    let mut body = String::new();
    let mut i: usize = 0;
    while i < cache.entries.len()
        invariant
            i <= cache.entries.len(),
            body@ == entries_json(cache@.take(i as int)),
        decreases cache.entries.len() - i,
    {
        let e = &cache.entries[i];
        if i > 0 {
            body.append(",");
        }
        body.append("{\"prompt\":");
        let p = json_string(e.prompt.as_str());
        body.append(p.as_str());
        body.append(",\"response\":");
        let q = json_string(e.response.as_str());
        body.append(q.as_str());
        body.append("}");
        proof {
            let t = cache@.take(i as int + 1);
            assert(t.drop_last() =~= cache@.take(i as int));
            assert(t.last() == e@);
            if i == 0 {
                assert(cache@.take(0) =~= Seq::<EntryView>::empty());
            }
        }
        i += 1;
    }
    assert(cache@.take(cache.entries.len() as int) =~= cache@);
    let mut out = String::new();
    out.append("{\"entries\":[");
    out.append(body.as_str());
    out.append("]}");
    out
}

/// A cache holding `pairs` as entries, in the same order.
pub fn cache_from_pairs(pairs: &Vec<(String, String)>) -> (r: Cache)
    ensures
        r@ == pairs@.map_values(|q: (String, String)| (q.0@, q.1@)),
{
    let mut entries: Vec<CacheEntry> = Vec::new();
    let mut i: usize = 0;
    while i < pairs.len()
        invariant
            i <= pairs.len(),
            entries@.map_values(|e: CacheEntry| e@) =~= pairs@.take(i as int).map_values(
                |q: (String, String)| (q.0@, q.1@),
            ),
        decreases pairs.len() - i,
    {
        let prompt = pairs[i].0.clone();
        let response = pairs[i].1.clone();
        let ghost prev = entries@;
        entries.push(CacheEntry { prompt, response });
        assert(entries@.map_values(|e: CacheEntry| e@) =~= prev.map_values(|e: CacheEntry| e@).push(
            (pairs@[i as int].0@, pairs@[i as int].1@),
        ));
        assert(pairs@.take(i as int + 1) =~= pairs@.take(i as int).push(pairs@[i as int]));
        i += 1;
    }
    assert(pairs@.take(pairs.len() as int) =~= pairs@);
    Cache { entries }
}

/// Builds the cache from what was found at its path: `text` is the file's
/// content (`None` when there is no file) and `current` what reading it in the
/// current format gave (`None` when it is not in that format). An absent file
/// gives an empty cache; a file in the current format gives its entries as
/// they stand; otherwise the file is read in the legacy format, a flat object
/// from prompt to response, whose pairs become the entries in some order. A
/// file in neither format is an error, and so is a flat object with an
/// `entries` key: that is a file in the current format that failed to read.
pub fn load_cache(text: Option<String>, current: Option<Cache>) -> (r: Result<Cache, LoadError>)
    ensures
        text is None ==> (r matches Ok(c) && c@ == Seq::<EntryView>::empty()),
        text is Some && current is Some ==> (r matches Ok(c) && c@ == current->0@),
        text is Some && current is None ==> (r is Err <==> (legacy_map_of(text->0@) is None
            || legacy_map_of(text->0@)->0.contains_key("entries"@))),
        text is Some && current is None ==> (r matches Ok(c) ==> pairs_are_map(
            c@,
            legacy_map_of(text->0@)->0,
        )),
{
    match text {
        None => Ok(Cache::new()),
        Some(t) => match current {
            Some(c) => Ok(c),
            None => match parse_legacy(t.as_str()) {
                Some(pairs) => {
                    let cache = cache_from_pairs(&pairs);
                    let key = String::from_str("entries");
                    let found = cache.lookup(&key);
                    proof {
                        let m = legacy_map_of(t@)->0;
                        if m.contains_key("entries"@) {
                            let i = choose|i: int|
                                0 <= i < cache@.len() && cache@[i].0 == "entries"@;
                            assert(cache@[i].0 == key@);
                        }
                        if found is Some {
                            let i = choose|i: int|
                                first_match_at(cache@, key@, i) && found->0@ == #[trigger] cache@[i].1;
                            assert(m.contains_key(cache@[i].0));
                        }
                    }
                    if found.is_some() {
                        Err(LoadError::Malformed)
                    } else {
                        Ok(cache)
                    }
                },
                None => Err(LoadError::Malformed),
            },
        },
    }
}

} // verus!
