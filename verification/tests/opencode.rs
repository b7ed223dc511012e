use o_sovereign::opencode::{OpenCodeConfig, OpenCodeExecutor};

#[test]
fn executor_keeps_its_workspace() {
    let executor = OpenCodeExecutor::new(OpenCodeConfig::default());
    assert_eq!(executor.workspace(), &std::path::PathBuf::from("/tmp/opencode_workspace"));
    let config = OpenCodeConfig::default();
    assert!(!config.use_real_cli);
    assert!(config.cli_path.is_none());
}

#[test]
fn extensions_and_task_text() {
    assert_eq!(OpenCodeExecutor::file_extension("rust"), "rs");
    assert_eq!(OpenCodeExecutor::file_extension("c++"), "cpp");
    assert_eq!(OpenCodeExecutor::file_extension("js"), "js");
    assert_eq!(OpenCodeExecutor::file_extension("cobol"), "txt");
    assert_eq!(OpenCodeExecutor::task_file_text("T", "x=1", "python"), "T\n\n```python\nx=1\n```");
}

#[test]
fn tool_output_is_read() {
    let executor = OpenCodeExecutor::new(OpenCodeConfig::default());
    let out = "Starting\nCreated: src/a.rs\nfile was created  b.txt\nCreated:\n";
    assert_eq!(executor.extract_created_files(out), vec!["src/a.rs".to_string(), "b.txt".to_string(), "Created:".to_string()]);
    let r = executor.cli_result(true, out.to_string(), String::new());
    assert!(r.success && r.error.is_none());
    assert_eq!(r.files_created.len(), 3);
    let r = executor.cli_result(false, String::new(), "boom".to_string());
    assert_eq!(r.error.as_deref(), Some("boom"));
    let w = OpenCodeExecutor::filesystem_result("/w/generated_1.rs", "generated_1.rs".to_string(), "task");
    assert_eq!(w.output, "Successfully wrote code to: /w/generated_1.rs\nTask: task");
    assert_eq!(w.files_created, vec!["generated_1.rs".to_string()]);
}

#[test]
fn project_templates() {
    let rust = OpenCodeExecutor::project_files("demo", "rust");
    assert_eq!(rust[0].0, "Cargo.toml");
    assert!(rust[0].1.contains("name = \"demo\""));
    assert_eq!(rust[1].0, "src/main.rs");
    let py = OpenCodeExecutor::project_files("demo", "python");
    assert_eq!(py.len(), 2);
    let other = OpenCodeExecutor::project_files("demo", "zig");
    assert_eq!(other, vec![("README.md".to_string(), "# demo\n\nGenerated by O-Sovereign ACSA".to_string())]);
}
