use vstd::prelude::*;

use crate::cache::{lookup_spec, Cache};
use crate::language::{check_language, detected_language, eq_ignore_ascii_case_spec};

verus! {

/// What the assistant is asked to do with the code.
#[derive(Clone, Copy, Debug)]
pub enum Task {
    Completion,
    Explanation,
    Refactoring,
    Help,
}

/// The instruction that follows the language sentence of a prompt.
pub open spec fn instruction(task: Task) -> Seq<char> {
    match task {
        Task::Completion => "Your task is to complete the given code:\n\n"@,
        Task::Explanation => "Your task is to explain the following code:\n\n"@,
        Task::Refactoring => "Your task is to provide refactoring suggestions for the following code:\n\n"@,
        Task::Help => "Please provide a brief explanation on how to use the features of this AI Code Assistant, including code completion, code explanation, and refactoring suggestions."@,
    }
}

/// The full prompt for `task`: the language sentence, the instruction, and the
/// code for every task but `Help`, which does not look at the code.
pub open spec fn prompt_spec(task: Task, language: Seq<char>, code: Seq<char>) -> Seq<char> {
    let head = "You are working with "@ + language + " code. "@ + instruction(task);
    match task {
        Task::Help => head,
        _ => head + code,
    }
}

/// Renders the prompt sent for `task`; equal arguments give equal prompts, so
/// the prompt serves as the cache key.
pub fn build_prompt(task: &Task, language: &str, code: &str) -> (r: String)
    ensures
        r@ == prompt_spec(*task, language@, code@),
{
    let mut out = String::new();
    out.append("You are working with ");
    out.append(language);
    out.append(" code. ");
    match task {
        Task::Completion => {
            out.append("Your task is to complete the given code:\n\n");
            out.append(code);
        },
        Task::Explanation => {
            out.append("Your task is to explain the following code:\n\n");
            out.append(code);
        },
        Task::Refactoring => {
            out.append(
                "Your task is to provide refactoring suggestions for the following code:\n\n",
            );
            out.append(code);
        },
        Task::Help => {
            out.append(
                "Please provide a brief explanation on how to use the features of this AI Code Assistant, including code completion, code explanation, and refactoring suggestions.",
            );
        },
    }
    out
}

/// What the session does next for a request.
pub enum TaskStep {
    /// The code does not look like the chosen language: nothing is asked.
    Mismatch,
    /// The cache already holds a response for the prompt.
    Cached(String),
    /// The prompt must be sent; its response is then inserted under it.
    Ask(String),
}

/// Decides what to do for `task` on `code` in `language`: every task but
/// `Help` first checks the code's language; then the prompt is looked up in
/// the cache, and sent only when it is not there.
pub fn plan_task(task: &Task, language: &str, code: &str, cache: &Cache) -> (r: TaskStep)
    ensures
        !(*task is Help) && !eq_ignore_ascii_case_spec(detected_language(code@), language@)
            ==> r is Mismatch,
        (*task is Help || eq_ignore_ascii_case_spec(detected_language(code@), language@))
            ==> match lookup_spec(cache@, prompt_spec(*task, language@, code@)) {
            Some(x) => r matches TaskStep::Cached(y) && y@ == x,
            None => r matches TaskStep::Ask(p) && p@ == prompt_spec(*task, language@, code@),
        },
{
    let checked = match task {
        Task::Help => true,
        _ => check_language(code, language),
    };
    if !checked {
        return TaskStep::Mismatch;
    }
    let prompt = build_prompt(task, language, code);
    match cache.lookup(&prompt) {
        Some(response) => TaskStep::Cached(response),
        None => TaskStep::Ask(prompt),
    }
}

} // verus!
