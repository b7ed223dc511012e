//! The code executor: where generated code goes, what results of a run look like, and the
//! files a new project starts with.
//!
//! Writing files and running the command-line tool are left to the caller; the executor
//! decides names, texts and results.
use vstd::prelude::*;
use crate::opencode_connector::path_from;
use crate::text::{chars_of, has_sub, lines_of, owned, push_str, str_eq, string_of, vec_contains, vec_lines, vec_words, words_of};

verus! {

/// The result of running generated code.
pub struct OpenCodeResult {
    pub success: bool,
    pub output: String,
    pub error: Option<String>,
    pub files_created: Vec<String>,
    pub files_modified: Vec<String>,
}

/// Where and how generated code is run.
pub struct OpenCodeConfig {
    pub workspace: std::path::PathBuf,
    /// Whether to run the real command-line tool rather than writing files directly.
    pub use_real_cli: bool,
    pub cli_path: Option<std::path::PathBuf>,
}

impl Default for OpenCodeConfig {
    /// Files written directly into `/tmp/opencode_workspace`.
    fn default() -> (r: Self)
        ensures
            !r.use_real_cli,
            r.cli_path is None,
    {
        OpenCodeConfig { workspace: path_from("/tmp/opencode_workspace"), use_real_cli: false, cli_path: None }
    }
}

/// Runs generated code in a workspace.
pub struct OpenCodeExecutor {
    config: OpenCodeConfig,
}

/// The file extension for a language.
pub open spec fn extension_for(language: Seq<char>) -> Seq<char> {
    if language == "rust"@ {
        "rs"@
    } else if language == "python"@ {
        "py"@
    } else if language == "javascript"@ || language == "js"@ {
        "js"@
    } else if language == "typescript"@ || language == "ts"@ {
        "ts"@
    } else if language == "go"@ {
        "go"@
    } else if language == "java"@ {
        "java"@
    } else if language == "cpp"@ || language == "c++"@ {
        "cpp"@
    } else if language == "c"@ {
        "c"@
    } else {
        "txt"@
    }
}

/// The files a tool run reports as created: the last word of each line mentioning
/// `Created:` or `created`.
pub open spec fn created_files(lines: Seq<Seq<char>>) -> Seq<Seq<char>>
    decreases lines.len(),
{
    if lines.len() == 0 {
        seq![]
    } else {
        let rest = created_files(lines.drop_last());
        let line = lines.last();
        let words = words_of(line);
        if (has_sub(line, "Created:"@) || has_sub(line, "created"@)) && words.len() > 0 {
            rest.push(words.last())
        } else {
            rest
        }
    }
}

/// The files of a new project, with their contents, by language.
pub open spec fn project_files(name: Seq<char>, language: Seq<char>) -> Seq<(Seq<char>, Seq<char>)> {
    if language == "rust"@ {
        seq![
            ("Cargo.toml"@, "[package]\nname = \""@ + name + "\"\nversion = \"0.1.0\"\nedition = \"2021\"\n\n[dependencies]\n"@),
            ("src/main.rs"@, "fn main() {\n    println!(\"Hello from O-Sovereign!\");\n}\n"@),
        ]
    } else if language == "python"@ {
        seq![
            ("main.py"@, "# O-Sovereign Python Project\n\nprint('Hello from O-Sovereign!')\n"@),
            ("requirements.txt"@, "# Dependencies\n"@),
        ]
    } else {
        seq![("README.md"@, "# "@ + name + "\n\nGenerated by O-Sovereign ACSA"@)]
    }
}

impl OpenCodeExecutor {
    /// An executor with the given configuration.
    pub fn new(config: OpenCodeConfig) -> (r: Self)
        ensures
            r.config() == config,
    {
        OpenCodeExecutor { config }
    }

    /// The configuration.
    pub closed spec fn config(&self) -> OpenCodeConfig {
        self.config
    }

    /// The workspace directory.
    pub fn workspace(&self) -> (r: &std::path::PathBuf)
        ensures
            *r == self.config().workspace,
    {
        &self.config.workspace
    }

    /// The file extension for code in `language` (see `extension_for`).
    pub fn file_extension(language: &str) -> (r: &'static str)
        ensures
            r@ == extension_for(language@),
    {
        if str_eq(language, "rust") {
            "rs"
        } else if str_eq(language, "python") {
            "py"
        } else if str_eq(language, "javascript") || str_eq(language, "js") {
            "js"
        } else if str_eq(language, "typescript") || str_eq(language, "ts") {
            "ts"
        } else if str_eq(language, "go") {
            "go"
        } else if str_eq(language, "java") {
            "java"
        } else if str_eq(language, "cpp") || str_eq(language, "c++") {
            "cpp"
        } else if str_eq(language, "c") {
            "c"
        } else {
            "txt"
        }
    }

    /// The text of the task file handed to the tool: the task, then the code in a fence.
    pub fn task_file_text(task: &str, code: &str, language: &str) -> (r: String)
        ensures
            r@ == task@ + "\n\n```"@ + language@ + "\n"@ + code@ + "\n```"@,
    {
        let mut v: Vec<char> = Vec::new();
        push_str(&mut v, task);
        push_str(&mut v, "\n\n```");
        push_str(&mut v, language);
        push_str(&mut v, "\n");
        push_str(&mut v, code);
        push_str(&mut v, "\n```");
        string_of(&v)
    }

    /// The files a tool run reports as created (see `created_files`).
    pub fn extract_created_files(&self, output: &str) -> (r: Vec<String>)
        ensures
            r@.len() == created_files(lines_of(output@)).len(),
            forall|k: int| 0 <= k < r@.len() ==> (#[trigger] r@[k])@ == created_files(lines_of(output@))[k],
    {
        let cv = chars_of(output);
        let lines = vec_lines(&cv);
        let ghost ls = lines_of(output@);
        let n = lines.len();
        let mut out: Vec<String> = Vec::new();
        let mut i: usize = 0;
        let m1 = chars_of("Created:");
        let m2 = chars_of("created");
        assert(ls.subrange(0, 0) =~= seq![]);
        while i < n
            invariant
                i <= n,
                n == ls.len(),
                ls == lines_of(output@),
                lines@.len() == ls.len(),
                m1@ == "Created:"@,
                m2@ == "created"@,
                forall|k: int| 0 <= k < lines@.len() ==> (#[trigger] lines@[k])@ == ls[k],
                out@.len() == created_files(ls.subrange(0, i as int)).len(),
                forall|k: int| 0 <= k < out@.len() ==> (#[trigger] out@[k])@ == created_files(ls.subrange(0, i as int))[k],
            decreases n - i,
        {
            let ghost pre = ls.subrange(0, i + 1);
            assert(pre.drop_last() =~= ls.subrange(0, i as int));
            assert(pre.last() == lines@[i as int]@);
            let line = &lines[i];
            if vec_contains(line, &m1) || vec_contains(line, &m2) {
                let words = vec_words(line);
                if words.len() > 0 {
                    let last = string_of(&words[words.len() - 1]);
                    out.push(last);
                }
            }
            i = i + 1;
        }
        assert(ls.subrange(0, n as int) =~= ls);
        out
    }

    /// The result of a tool run: its output, its error output if any, and the files it
    /// reports as created.
    pub fn cli_result(&self, success: bool, stdout: String, stderr: String) -> (r: OpenCodeResult)
        ensures
            r.success == success,
            r.output@ == stdout@,
            (r.error matches Some(e) && e@ == stderr@ && stderr@.len() > 0) || (r.error is None && stderr@.len() == 0),
            r.files_created@.len() == created_files(lines_of(stdout@)).len(),
            forall|k: int| 0 <= k < r.files_created@.len() ==> (#[trigger] r.files_created@[k])@ == created_files(lines_of(stdout@))[k],
            r.files_modified@.len() == 0,
    {
        let files_created = self.extract_created_files(stdout.as_str());
        let error = if stderr.as_str().unicode_len() == 0 { None } else { Some(stderr) };
        OpenCodeResult { success, output: stdout, error, files_created, files_modified: Vec::new() }
    }

    /// The result of writing code to `filepath` under the name `filename`.
    pub fn filesystem_result(filepath: &str, filename: String, task: &str) -> (r: OpenCodeResult)
        ensures
            r.success,
            r.output@ == "Successfully wrote code to: "@ + filepath@ + "\nTask: "@ + task@,
            r.error is None,
            r.files_created@.len() == 1,
            r.files_created@[0]@ == filename@,
            r.files_modified@.len() == 0,
    {
        let mut v: Vec<char> = Vec::new();
        push_str(&mut v, "Successfully wrote code to: ");
        push_str(&mut v, filepath);
        push_str(&mut v, "\nTask: ");
        push_str(&mut v, task);
        OpenCodeResult { success: true, output: string_of(&v), error: None, files_created: vec![filename], files_modified: Vec::new() }
    }

    /// The files of a new project (see `project_files`).
    pub fn project_files(project_name: &str, language: &str) -> (r: Vec<(String, String)>)
        ensures
            r@.len() == project_files(project_name@, language@).len(),
            forall|k: int| 0 <= k < r@.len() ==> (#[trigger] r@[k]).0@ == project_files(project_name@, language@)[k].0 && r@[k].1@
                == project_files(project_name@, language@)[k].1,
    {
        if str_eq(language, "rust") {
            let mut cargo: Vec<char> = Vec::new();
            push_str(&mut cargo, "[package]\nname = \"");
            push_str(&mut cargo, project_name);
            push_str(&mut cargo, "\"\nversion = \"0.1.0\"\nedition = \"2021\"\n\n[dependencies]\n");
            vec![
                (owned("Cargo.toml"), string_of(&cargo)),
                (owned("src/main.rs"), owned("fn main() {\n    println!(\"Hello from O-Sovereign!\");\n}\n")),
            ]
        } else if str_eq(language, "python") {
            vec![
                (owned("main.py"), owned("# O-Sovereign Python Project\n\nprint('Hello from O-Sovereign!')\n")),
                (owned("requirements.txt"), owned("# Dependencies\n")),
            ]
        } else {
            let mut readme: Vec<char> = Vec::new();
            push_str(&mut readme, "# ");
            push_str(&mut readme, project_name);
            push_str(&mut readme, "\n\nGenerated by O-Sovereign ACSA");
            vec![(owned("README.md"), string_of(&readme))]
        }
    }
}

} // verus!
