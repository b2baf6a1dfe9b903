use prompt_cache::cache::{Cache, CacheEntry};
use prompt_cache::store::{cache_from_pairs, encode_cache, load_cache, LoadError};

fn pairs_of(c: &Cache) -> Vec<(String, String)> {
    c.entries.iter().map(|e| (e.prompt.clone(), e.response.clone())).collect()
}

fn sample() -> Cache {
    let mut c = Cache::new();
    c.add_entry("first".to_string(), "one".to_string());
    c.add_entry("say \"hi\"\nthen stop".to_string(), "two\\three".to_string());
    c.add_entry("third".to_string(), "".to_string());
    c
}

#[test]
fn absent_file_gives_empty_cache() {
    let c = load_cache(None, None).unwrap();
    assert_eq!(c.len(), 0);
}

#[test]
fn current_format_is_taken_as_is() {
    let mut parsed = Cache::new();
    for i in 0..12 {
        parsed.entries.push(CacheEntry { prompt: format!("p{}", i), response: format!("r{}", i) });
    }
    let text = encode_cache(&parsed);
    let c = load_cache(Some(text), Some(parsed)).unwrap();
    assert_eq!(c.len(), 12);
    assert_eq!(c.entries[0].prompt, "p0");
    assert_eq!(c.entries[11].response, "r11");
}

#[test]
fn legacy_map_is_migrated() {
    let c = load_cache(Some("{\"a\": \"1\", \"b\": \"2\"}".to_string()), None).unwrap();
    let mut got = pairs_of(&c);
    got.sort();
    assert_eq!(got, vec![("a".to_string(), "1".to_string()), ("b".to_string(), "2".to_string())]);
    assert_eq!(c.lookup(&"a".to_string()), Some("1".to_string()));
    assert_eq!(c.lookup(&"b".to_string()), Some("2".to_string()));
}

#[test]
fn legacy_empty_object_gives_empty_cache() {
    let c = load_cache(Some("{}".to_string()), None).unwrap();
    assert_eq!(c.len(), 0);
}

#[test]
fn malformed_file_is_an_error() {
    let r = load_cache(Some("{\"entries\": 5}".to_string()), None);
    assert_eq!(r.unwrap_err(), LoadError::Malformed);
    assert!(load_cache(Some("[\"a\", \"b\"]".to_string()), None).is_err());
    assert!(load_cache(Some("not json".to_string()), None).is_err());
    assert!(load_cache(Some("{\"a\": 1}".to_string()), None).is_err());
    assert!(load_cache(Some("".to_string()), None).is_err());
}

#[test]
fn encoding_of_empty_cache() {
    assert_eq!(encode_cache(&Cache::new()), "{\"entries\":[]}");
}

#[test]
fn encoding_lists_entries_in_order_with_escapes() {
    let text = encode_cache(&sample());
    assert_eq!(
        text,
        "{\"entries\":[{\"prompt\":\"first\",\"response\":\"one\"},\
         {\"prompt\":\"say \\\"hi\\\"\\nthen stop\",\"response\":\"two\\\\three\"},\
         {\"prompt\":\"third\",\"response\":\"\"}]}"
    );
}

#[test]
fn encoding_reads_back_as_the_same_entries() {
    let c = sample();
    let text = encode_cache(&c);
    let v: serde_json::Value = serde_json::from_str(&text).unwrap();
    let list = v["entries"].as_array().unwrap();
    let back: Vec<(String, String)> = list
        .iter()
        .map(|e| {
            (e["prompt"].as_str().unwrap().to_string(), e["response"].as_str().unwrap().to_string())
        })
        .collect();
    assert_eq!(back, pairs_of(&c));
}

#[test]
fn pairs_become_entries_in_order() {
    let pairs = vec![
        ("z".to_string(), "26".to_string()),
        ("a".to_string(), "1".to_string()),
        ("z".to_string(), "again".to_string()),
    ];
    let c = cache_from_pairs(&pairs);
    assert_eq!(pairs_of(&c), pairs);
}

#[test]
fn entries_field_holding_a_string_is_malformed() {
    let r = load_cache(Some("{\"entries\": \"not-a-list\"}".to_string()), None);
    assert_eq!(r.unwrap_err(), LoadError::Malformed);
    let r = load_cache(Some("{\"a\": \"1\", \"entries\": \"x\"}".to_string()), None);
    assert_eq!(r.unwrap_err(), LoadError::Malformed);
}

#[test]
fn control_characters_are_escaped() {
    let mut c = Cache::new();
    c.add_entry("a\u{1}b\u{1f}".to_string(), "\t\r\u{8}\u{c}/é".to_string());
    assert_eq!(
        encode_cache(&c),
        "{\"entries\":[{\"prompt\":\"a\\u0001b\\u001f\",\"response\":\"\\t\\r\\b\\f/é\"}]}"
    );
}
