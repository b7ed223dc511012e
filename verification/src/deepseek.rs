//! The code-generation provider's text logic: its system prompt, the fenced code blocks of a
//! reply, the report of running them and the metadata of an answer.
//!
//! The network request and running the code are left to the caller.
use vstd::prelude::*;
use crate::auto_takeover::{debug_str, debug_strings, str_debug_text, strings_debug_text, texts};
use crate::opencode::OpenCodeResult;
use crate::text::{decimal, owned, pairs_view, push_decimal, push_str, string_of};

verus! {

/// The system prompt of the execution layer.
pub const SYSTEM_PROMPT: &'static str = "You are OMEGA - The ABSOLUTE EXECUTION LAYER powered by DeepSeek-Coder.\n\nYour role:\n- You are the HANDS that execute what the BRAIN (MOSS/Ultron) commands\n- You do NOT question WHY, only focus on HOW\n- You write production-grade, optimized, secure code\n\nCapabilities:\n1. Code Generation: Write complete, runnable code with proper error handling\n2. Debugging: Identify and fix bugs efficiently\n3. Optimization: Improve performance and reduce complexity\n4. Security: Follow best practices (no hardcoded secrets, SQL injection prevention, etc.)\n\nOutput Format:\n1. Brief summary of what you're implementing\n2. Complete code with comments\n3. Execution instructions (if applicable)\n4. Expected output/result\n5. Verification method\n\nTone: Professional, efficient, action-oriented. No moral lectures.";

/// The model used when none is given.
pub const DEFAULT_MODEL: &'static str = "deepseek-coder";

/// The heading put between a reply and the report of running its code.
pub const REPORT_HEADING: &'static str = "\n\n--- OpenCode Execution Report ---\n";

/// The system prompt (see `SYSTEM_PROMPT`).
pub fn system_prompt() -> (r: &'static str)
    ensures
        r@ == SYSTEM_PROMPT@,
{
    SYSTEM_PROMPT
}

/// The progress line shown for a task, given the time of day as text.
pub open spec fn progress_text(time: Seq<char>, task: Seq<char>, status: Seq<char>) -> Seq<char> {
    "[Omega - DeepSeek] 🟢 "@ + time + "\n   > Task: "@ + task + "\n   > Status: "@ + status
}

/// The progress line for a task (see `progress_text`).
pub fn progress_report(time: &str, task: &str, status: &str) -> (r: String)
    ensures
        r@ == progress_text(time@, task@, status@),
{
    let mut t: Vec<char> = Vec::new();
    push_str(&mut t, "[Omega - DeepSeek] 🟢 ");
    push_str(&mut t, time);
    push_str(&mut t, "\n   > Task: ");
    push_str(&mut t, task);
    push_str(&mut t, "\n   > Status: ");
    push_str(&mut t, status);
    string_of(&t)
}

/// The fenced code blocks of a text, as (language, code) pairs in order: each match of
/// ```` ```(\w+)\n([\s\S]*?)``` ````.
pub uninterp spec fn fenced_blocks(text: Seq<char>) -> Seq<(Seq<char>, Seq<char>)>;

/// The (language, code) captures of the fenced-block pattern in `text`
/// (`regex::Regex::captures_iter`).
///
/// Claims that the pairs are the function `fenced_blocks` of the text; how the regex engine
/// finds the matches is not stated.
#[verifier::external_body]
fn capture_code_blocks(text: &str) -> (r: Vec<(String, String)>)
    ensures
        pairs_view(r@) == fenced_blocks(text@),
{
    let re = regex::Regex::new(r"```(\w+)\n([\s\S]*?)```").unwrap();
    let mut blocks = Vec::new();
    for cap in re.captures_iter(text) {
        if let (Some(lang), Some(code)) = (cap.get(1), cap.get(2)) {
            blocks.push((lang.as_str().to_string(), code.as_str().to_string()));
        }
    }
    blocks
}

/// The fenced code blocks of a reply (see `fenced_blocks`).
pub fn extract_code_blocks(text: &str) -> (r: Vec<(String, String)>)
    ensures
        pairs_view(r@) == fenced_blocks(text@),
{
    capture_code_blocks(text)
}

/// Code blocks are run when some were found and an executor is set up.
pub fn should_execute(blocks_found: usize, opencode_enabled: bool) -> (r: bool)
    ensures
        r == (blocks_found > 0 && opencode_enabled),
{
    blocks_found > 0 && opencode_enabled
}

/// The reply, with the report of running its code after the report heading when there is one.
pub open spec fn completion(text: Seq<char>, report: Option<Seq<char>>) -> Seq<char> {
    match report {
        Some(x) => text + REPORT_HEADING@ + x,
        None => text,
    }
}

/// The text of an answer (see `completion`).
pub fn completion_text(text: &str, report: Option<&str>) -> (r: String)
    ensures
        r@ == completion(
            text@,
            match report {
                Some(x) => Some(x@),
                None => None,
            },
        ),
{
    match report {
        Some(x) => {
            let mut t: Vec<char> = Vec::new();
            push_str(&mut t, text);
            push_str(&mut t, REPORT_HEADING);
            push_str(&mut t, x);
            string_of(&t)
        },
        None => owned(text),
    }
}

/// How an optional text prints (`format!("{:?}", ..)`).
pub open spec fn optional_text_debug(e: Option<Seq<char>>) -> Seq<char> {
    match e {
        Some(s) => "Some("@ + debug_str(s) + ")"@,
        None => "None"@,
    }
}

/// The report of running the block at `index` (counted from 0): its output and created files on
/// success, else the executor's error, or the error of the run itself.
pub open spec fn block_report_text(index: nat, language: Seq<char>, outcome: Result<OpenCodeResult, String>) -> Seq<char> {
    "Block "@ + decimal(index + 1) + " ("@ + language + "):\n"@ + match outcome {
        Ok(r) => if r.success {
            "✓ "@ + r.output@ + "\nFiles: "@ + debug_strings(texts(r.files_created@))
        } else {
            "✗ Error: "@ + optional_text_debug(
                match r.error {
                    Some(e) => Some(e@),
                    None => None,
                },
            )
        },
        Err(e) => "✗ Error: "@ + e@,
    }
}

/// The report of running one code block (see `block_report_text`).
pub fn block_report(index: usize, language: &str, outcome: &Result<OpenCodeResult, String>) -> (r: String)
    requires
        index < usize::MAX,
    ensures
        r@ == block_report_text(index as nat, language@, *outcome),
{
    let mut t: Vec<char> = Vec::new();
    push_str(&mut t, "Block ");
    push_decimal(&mut t, (index + 1) as u64);
    push_str(&mut t, " (");
    push_str(&mut t, language);
    push_str(&mut t, "):\n");
    match outcome {
        Ok(r) => {
            if r.success {
                push_str(&mut t, "✓ ");
                push_str(&mut t, r.output.as_str());
                push_str(&mut t, "\nFiles: ");
                let files = strings_debug_text(&r.files_created);
                push_str(&mut t, files.as_str());
            } else {
                push_str(&mut t, "✗ Error: ");
                match &r.error {
                    Some(e) => {
                        push_str(&mut t, "Some(");
                        let d = str_debug_text(e.as_str());
                        push_str(&mut t, d.as_str());
                        push_str(&mut t, ")");
                    },
                    None => push_str(&mut t, "None"),
                }
            }
        },
        Err(e) => {
            push_str(&mut t, "✗ Error: ");
            push_str(&mut t, e.as_str());
        },
    }
    let ghost want = block_report_text(index as nat, language@, *outcome);
    assert(t@ =~= want);
    string_of(&t)
}

/// The metadata of an answer, in order: provider, model, cost note, number of code blocks
/// found, and whether the executor is set up (only when it is).
pub open spec fn answer_metadata(model: Seq<char>, blocks_found: nat, opencode_enabled: bool) -> Seq<(Seq<char>, Seq<char>)> {
    seq![
        ("provider"@, "deepseek"@),
        ("model"@, model),
        ("cost_efficiency"@, "90% cheaper than GPT-4"@),
        ("code_blocks_found"@, decimal(blocks_found)),
    ] + if opencode_enabled {
        seq![("opencode_enabled"@, "true"@)]
    } else {
        seq![]
    }
}

/// The metadata of an answer (see `answer_metadata`).
pub fn response_metadata(model: &str, blocks_found: usize, opencode_enabled: bool) -> (r: Vec<(String, String)>)
    ensures
        pairs_view(r@) == answer_metadata(model@, blocks_found as nat, opencode_enabled),
{
    let mut count: Vec<char> = Vec::new();
    push_decimal(&mut count, blocks_found as u64);
    let mut r: Vec<(String, String)> = Vec::new();
    r.push((owned("provider"), owned("deepseek")));
    r.push((owned("model"), owned(model)));
    r.push((owned("cost_efficiency"), owned("90% cheaper than GPT-4")));
    r.push((owned("code_blocks_found"), string_of(&count)));
    if opencode_enabled {
        r.push((owned("opencode_enabled"), owned("true")));
    }
    assert(count@ =~= decimal(blocks_found as nat));
    assert(pairs_view(r@) =~= answer_metadata(model@, blocks_found as nat, opencode_enabled));
    r
}

} // verus!
