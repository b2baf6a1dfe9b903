use prompt_cache::language::{check_language, extract_language_from_code, is_supported_language};
use prompt_cache::session::{build_prompt, plan_task, Task, TaskStep};

#[test]
fn detects_each_language() {
    assert_eq!(extract_language_from_code("#include <stdio.h>\nint main() {}"), "C++");
    assert_eq!(extract_language_from_code("fn main() { println!(\"x\"); }"), "Rust");
    assert_eq!(extract_language_from_code("def f(x):\n    return x"), "Python");
    assert_eq!(extract_language_from_code("function f() { return 1; }"), "JavaScript");
    assert_eq!(extract_language_from_code("console.log(1)"), "JavaScript");
    assert_eq!(extract_language_from_code("public static void main(String[] a) {}"), "Java");
    assert_eq!(extract_language_from_code("SELECT * FROM t"), "Unknown");
    assert_eq!(extract_language_from_code(""), "Unknown");
}

#[test]
fn earlier_markers_win() {
    assert_eq!(extract_language_from_code("#include x\nfn main() {}"), "C++");
    assert_eq!(extract_language_from_code("def x\nfunction y"), "Python");
    assert_eq!(extract_language_from_code("public static void main() { function }"), "JavaScript");
}

#[test]
fn language_check_ignores_ascii_case() {
    assert!(check_language("fn main() {}", "rust"));
    assert!(check_language("fn main() {}", "RUST"));
    assert!(!check_language("fn main() {}", "Python"));
    assert!(!check_language("fn main() {}", "Rus"));
    assert!(check_language("nothing here", "unknown"));
}

#[test]
fn supported_languages() {
    assert!(is_supported_language("Python"));
    assert!(is_supported_language("javascript"));
    assert!(is_supported_language("c++"));
    assert!(is_supported_language("JAVA"));
    assert!(is_supported_language("rust"));
    assert!(!is_supported_language("Go"));
    assert!(!is_supported_language(""));
    assert!(!is_supported_language("Rust "));
}

#[test]
fn prompts_for_each_task() {
    assert_eq!(
        build_prompt(&Task::Completion, "Rust", "fn a"),
        "You are working with Rust code. Your task is to complete the given code:\n\nfn a"
    );
    assert_eq!(
        build_prompt(&Task::Explanation, "Python", "def f"),
        "You are working with Python code. Your task is to explain the following code:\n\ndef f"
    );
    assert_eq!(
        build_prompt(&Task::Refactoring, "Java", "x"),
        "You are working with Java code. Your task is to provide refactoring suggestions for the following code:\n\nx"
    );
    assert_eq!(
        build_prompt(&Task::Help, "C++", "ignored"),
        "You are working with C++ code. Please provide a brief explanation on how to use the features of this AI Code Assistant, including code completion, code explanation, and refactoring suggestions."
    );
}

fn cached_cache() -> prompt_cache::cache::Cache {
    let mut c = prompt_cache::cache::Cache::new();
    c.add_entry(build_prompt(&Task::Explanation, "Rust", "fn main() {}"), "explained".to_string());
    c
}

#[test]
fn plan_rejects_mismatched_code() {
    let c = cached_cache();
    assert!(matches!(plan_task(&Task::Completion, "Python", "fn main() {}", &c), TaskStep::Mismatch));
}

#[test]
fn plan_uses_cached_response() {
    let c = cached_cache();
    match plan_task(&Task::Explanation, "rust", "fn main() {}", &c) {
        TaskStep::Ask(p) => assert_eq!(
            p,
            "You are working with rust code. Your task is to explain the following code:\n\nfn main() {}"
        ),
        _ => panic!("a prompt in another case is another key"),
    }
    match plan_task(&Task::Explanation, "Rust", "fn main() {}", &c) {
        TaskStep::Cached(r) => assert_eq!(r, "explained"),
        _ => panic!("expected the cached response"),
    }
}

#[test]
fn plan_asks_on_miss_and_help_skips_the_check() {
    let c = cached_cache();
    match plan_task(&Task::Help, "Java", "fn main() {}", &c) {
        TaskStep::Ask(p) => assert_eq!(p, build_prompt(&Task::Help, "Java", "")),
        _ => panic!("expected a request"),
    }
}
