use o_sovereign::deepseek::{
    block_report, completion_text, extract_code_blocks, progress_report, response_metadata, should_execute,
    system_prompt, DEFAULT_MODEL,
};
use o_sovereign::opencode::OpenCodeResult;
use o_sovereign::providers::ProviderType;

fn result(success: bool, output: &str, error: Option<&str>, files: Vec<&str>) -> OpenCodeResult {
    OpenCodeResult {
        success,
        output: output.to_string(),
        error: error.map(|e| e.to_string()),
        files_created: files.into_iter().map(|f| f.to_string()).collect(),
        files_modified: vec![],
    }
}

#[test]
fn system_prompt_names_the_execution_layer() {
    let prompt = system_prompt();
    assert!(prompt.contains("OMEGA"));
    assert!(prompt.contains("DeepSeek-Coder"));
    assert!(prompt.contains("Code Generation"));
    assert!(prompt.ends_with("No moral lectures."));
    assert_eq!(DEFAULT_MODEL, "deepseek-coder");
}

#[test]
fn progress_report_lines() {
    let report = progress_report("12:00:00", "Write Python script", "In progress");
    assert!(report.contains("Omega"));
    assert!(report.contains("DeepSeek"));
    assert!(report.contains("Write Python script"));
    assert_eq!(report, "[Omega - DeepSeek] 🟢 12:00:00\n   > Task: Write Python script\n   > Status: In progress");
}

#[test]
fn fenced_code_blocks_are_extracted_in_order() {
    let text = "Here:\n```python\nprint(1)\n```\nthen ```rust\nfn main() {}\n```\nand ```\nno language\n```";
    let blocks = extract_code_blocks(text);
    assert_eq!(
        blocks,
        vec![
            ("python".to_string(), "print(1)\n".to_string()),
            ("rust".to_string(), "fn main() {}\n".to_string()),
        ]
    );
    assert!(extract_code_blocks("no code here").is_empty());
}

#[test]
fn code_runs_only_with_blocks_and_an_executor() {
    assert!(should_execute(2, true));
    assert!(!should_execute(0, true));
    assert!(!should_execute(3, false));
}

#[test]
fn answer_text_carries_the_report() {
    assert_eq!(completion_text("reply", None), "reply");
    assert_eq!(
        completion_text("reply", Some("Block 1")),
        "reply\n\n--- OpenCode Execution Report ---\nBlock 1"
    );
}

#[test]
fn block_reports() {
    let ok = Ok(result(true, "done", None, vec!["a.py"]));
    assert_eq!(block_report(0, "python", &ok), "Block 1 (python):\n✓ done\nFiles: [\"a.py\"]");
    let failed = Ok(result(false, "", Some("boom"), vec![]));
    assert_eq!(block_report(1, "rust", &failed), "Block 2 (rust):\n✗ Error: Some(\"boom\")");
    let silent = Ok(result(false, "", None, vec![]));
    assert_eq!(block_report(9, "go", &silent), "Block 10 (go):\n✗ Error: None");
    let err: Result<OpenCodeResult, String> = Err("disk full".to_string());
    assert_eq!(block_report(2, "go", &err), "Block 3 (go):\n✗ Error: disk full");
}

#[test]
fn answer_metadata_pairs() {
    let m = response_metadata("deepseek-coder", 2, true);
    let pairs: Vec<(&str, &str)> = m.iter().map(|(k, v)| (k.as_str(), v.as_str())).collect();
    assert_eq!(
        pairs,
        vec![
            ("provider", "deepseek"),
            ("model", "deepseek-coder"),
            ("cost_efficiency", "90% cheaper than GPT-4"),
            ("code_blocks_found", "2"),
            ("opencode_enabled", "true"),
        ]
    );
    assert_eq!(response_metadata("m", 0, false).len(), 4);
}

#[test]
fn provider_types_are_distinct() {
    let all = [
        ProviderType::OpenAI,
        ProviderType::Gemini,
        ProviderType::Claude,
        ProviderType::DeepSeek,
        ProviderType::SiliconFlow,
        ProviderType::OpenRouter,
    ];
    for i in 0..all.len() {
        for j in 0..all.len() {
            assert_eq!(all[i] == all[j], i == j);
        }
    }
}
