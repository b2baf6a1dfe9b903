use vstd::prelude::*;

verus! {

/// `pat` occurs in `s` as a contiguous run of characters.
pub open spec fn contains_spec(s: Seq<char>, pat: Seq<char>) -> bool {
    exists|i: int| 0 <= i <= s.len() - pat.len() && #[trigger] s.subrange(i, i + pat.len()) == pat
}

/// The code of `c` with ASCII upper-case letters mapped to lower case.
pub open spec fn ascii_lower(c: char) -> u32 {
    if 65 <= c as u32 && c as u32 <= 90 {
        (c as u32 + 32) as u32
    } else {
        c as u32
    }
}

/// `a` and `b` are equal once ASCII letters are folded to lower case.
pub open spec fn eq_ignore_ascii_case_spec(a: Seq<char>, b: Seq<char>) -> bool {
    a.len() == b.len() && forall|i: int| 0 <= i < a.len() ==> ascii_lower(a[i]) == ascii_lower(b[i])
}

/// The language that the markers found in `code` point to, tried in a fixed order.
pub open spec fn detected_language(code: Seq<char>) -> Seq<char> {
    if contains_spec(code, "#include"@) {
        "C++"@
    } else if contains_spec(code, "fn main()"@) {
        "Rust"@
    } else if contains_spec(code, "def "@) {
        "Python"@
    } else if contains_spec(code, "function"@) || contains_spec(code, "console.log"@) {
        "JavaScript"@
    } else if contains_spec(code, "public static void main"@) {
        "Java"@
    } else {
        "Unknown"@
    }
}

/// Relies on str::contains with a `&str` pattern: true when the pattern occurs
/// as a substring.
#[verifier::external_body]
fn has_substring(s: &str, pat: &str) -> (r: bool)
    ensures
        r == contains_spec(s@, pat@),
{
    s.contains(pat)
}

/// Relies on str::eq_ignore_ascii_case: equal after ASCII lower-casing of both.
#[verifier::external_body]
fn same_ignoring_ascii_case(a: &str, b: &str) -> (r: bool)
    ensures
        r == eq_ignore_ascii_case_spec(a@, b@),
{
    a.eq_ignore_ascii_case(b)
}

/// Guesses the language of `code_content` from characteristic markers.
pub fn extract_language_from_code(code_content: &str) -> (r: String)
    ensures
        r@ == detected_language(code_content@),
{
    if has_substring(code_content, "#include") {
        "C++".to_string()
    } else if has_substring(code_content, "fn main()") {
        "Rust".to_string()
    } else if has_substring(code_content, "def ") {
        "Python".to_string()
    } else if has_substring(code_content, "function") || has_substring(
        code_content,
        "console.log",
    ) {
        "JavaScript".to_string()
    } else if has_substring(code_content, "public static void main") {
        "Java".to_string()
    } else {
        "Unknown".to_string()
    }
}

/// Whether the detected language of `code_content` is `specified_language`,
/// ignoring ASCII case.
pub fn check_language(code_content: &str, specified_language: &str) -> (r: bool)
    ensures
        r == eq_ignore_ascii_case_spec(detected_language(code_content@), specified_language@),
{
    let detected = extract_language_from_code(code_content);
    same_ignoring_ascii_case(detected.as_str(), specified_language)
}

/// `language` names one of the supported languages, ignoring ASCII case.
pub open spec fn supported_spec(language: Seq<char>) -> bool {
    ||| eq_ignore_ascii_case_spec("Python"@, language)
    ||| eq_ignore_ascii_case_spec("Rust"@, language)
    ||| eq_ignore_ascii_case_spec("JavaScript"@, language)
    ||| eq_ignore_ascii_case_spec("C++"@, language)
    ||| eq_ignore_ascii_case_spec("Java"@, language)
}

/// Whether `language` is one of Python, Rust, JavaScript, C++ and Java, in any
/// ASCII case.
pub fn is_supported_language(language: &str) -> (r: bool)
    ensures
        r == supported_spec(language@),
{
    same_ignoring_ascii_case("Python", language) || same_ignoring_ascii_case("Rust", language)
        || same_ignoring_ascii_case("JavaScript", language) || same_ignoring_ascii_case(
        "C++",
        language,
    ) || same_ignoring_ascii_case("Java", language)
}

} // verus!
