//! A language server: open documents, simple diagnostics (lines marked `TODO`) and keyword
//! completion.
use vstd::prelude::*;
use crate::assoc::{index_of, lemma_index_of, lemma_index_of_is, lemma_index_of_none, upsert};
use crate::data_security::{byte_len, utf8_len};
use crate::text::{chars_of, has_sub, lines_of, owned, push_str, str_contains, str_eq, string_of, vec_lines};

verus! {

/// The protocol version served.
pub const LSP_VERSION: &'static str = "3.17";

/// An open document.
pub struct Document {
    pub uri: String,
    pub content: String,
    pub language_id: String,
    pub version: i32,
}

/// A finding in a document.
pub struct Diagnostic {
    pub range: Range,
    pub severity: DiagnosticSeverity,
    pub message: String,
    pub code: Option<String>,
    pub source: Option<String>,
}

/// How serious a finding is.
#[derive(Debug, Clone, Copy, PartialEq, Eq, Structural)]
pub enum DiagnosticSeverity {
    Error,
    Warning,
    Information,
    Hint,
}

/// A span of a document.
#[derive(Debug, Clone, Copy, PartialEq, Eq, Structural)]
pub struct Range {
    pub start: Position,
    pub end: Position,
}

/// A place in a document (lines and characters counted from 0).
#[derive(Debug, Clone, Copy, PartialEq, Eq, Structural)]
pub struct Position {
    pub line: u32,
    pub character: u32,
}

/// A completion offered.
pub struct CompletionItem {
    pub label: String,
    pub kind: CompletionItemKind,
    pub detail: Option<String>,
    pub documentation: Option<String>,
    pub insert_text: Option<String>,
}

/// What a completion is.
#[derive(Debug, Clone, Copy, PartialEq, Eq, Structural)]
pub enum CompletionItemKind {
    Text,
    Method,
    Function,
    Constructor,
    Field,
    Variable,
    Class,
    Interface,
    Module,
    Property,
    Keyword,
    Snippet,
}

/// What the server does.
#[derive(Debug, Clone, Copy, PartialEq, Eq, Structural)]
pub struct LspServerConfig {
    pub enable_ai_enhancement: bool,
    pub enable_completion: bool,
    pub enable_diagnostics: bool,
    pub max_completion_items: usize,
}

impl Default for LspServerConfig {
    /// Everything on, at most 20 completions.
    fn default() -> (r: Self)
        ensures
            r == (LspServerConfig { enable_ai_enhancement: true, enable_completion: true, enable_diagnostics: true, max_completion_items: 20 }),
    {
        LspServerConfig { enable_ai_enhancement: true, enable_completion: true, enable_diagnostics: true, max_completion_items: 20 }
    }
}

// ---------------------------------------------------------------- stated

/// The view of an optional string.
pub open spec fn opt_text(o: Option<String>) -> Option<Seq<char>> {
    match o {
        Some(s) => Some(s@),
        None => None,
    }
}

/// The abstract value of a completion: label, kind, detail, documentation, insert text.
pub type CompletionView = (Seq<char>, CompletionItemKind, Option<Seq<char>>, Option<Seq<char>>, Option<Seq<char>>);

/// The view of a completion.
pub open spec fn completion_view(c: CompletionItem) -> CompletionView {
    (c.label@, c.kind, opt_text(c.detail), opt_text(c.documentation), opt_text(c.insert_text))
}

/// The views of completions.
pub open spec fn completions_view(cs: Seq<CompletionItem>) -> Seq<CompletionView> {
    Seq::new(cs.len(), |i: int| completion_view(cs[i]))
}

/// The keyword completions of a language, `prefix` naming it in the detail.
pub open spec fn keyword_items(words: Seq<Seq<char>>, prefix: Seq<char>) -> Seq<CompletionView> {
    Seq::new(words.len(), |i: int| (words[i], CompletionItemKind::Keyword, Some(prefix + words[i]), None, None))
}

/// The basic completions for the current line in a language.
pub open spec fn basic_completions(line: Seq<char>, language: Seq<char>) -> Seq<CompletionView> {
    if language == "rust"@ {
        (if has_sub(line, "fn"@) {
            seq![("pub fn"@, CompletionItemKind::Keyword, Some("Public function"@), None, Some("pub fn $1($2) -> $3 {\n    $0\n}"@))]
        } else {
            seq![]
        }) + keyword_items(seq!["async"@, "await"@, "impl"@, "trait"@, "struct"@, "enum"@], "Rust keyword: "@)
    } else if language == "python"@ {
        keyword_items(seq!["def"@, "class"@, "import"@, "from"@, "async"@, "await"@], "Python keyword: "@)
    } else {
        seq![]
    }
}

/// The abstract value of a diagnostic: range, severity, message, code, source.
pub type DiagnosticView = (Range, DiagnosticSeverity, Seq<char>, Option<Seq<char>>, Option<Seq<char>>);

/// The view of a diagnostic.
pub open spec fn diagnostic_view(d: Diagnostic) -> DiagnosticView {
    (d.range, d.severity, d.message@, opt_text(d.code), opt_text(d.source))
}

/// The views of diagnostics.
pub open spec fn diagnostics_view(ds: Seq<Diagnostic>) -> Seq<DiagnosticView> {
    Seq::new(ds.len(), |i: int| diagnostic_view(ds[i]))
}

/// The diagnostics of the first `n` lines: one for each line holding `TODO`, spanning it.
pub open spec fn todo_diagnostics(lines: Seq<Seq<char>>, n: nat) -> Seq<DiagnosticView>
    decreases n,
{
    if n == 0 {
        seq![]
    } else {
        let rest = todo_diagnostics(lines, (n - 1) as nat);
        let line = lines[n - 1];
        if has_sub(line, "TODO"@) {
            rest.push(
                (
                    Range {
                        start: Position { line: (n - 1) as u32, character: 0 },
                        end: Position { line: (n - 1) as u32, character: utf8_len(line) as u32 },
                    },
                    DiagnosticSeverity::Information,
                    "TODO found in code"@,
                    Some("TODO"@),
                    Some("acsa-lsp"@),
                ),
            )
        } else {
            rest
        }
    }
}

/// The abstract value of a document: content, language, version.
pub type DocumentView = (Seq<char>, Seq<char>, i32);

/// The abstract state of the server.
pub struct LspView {
    pub config: LspServerConfig,
    pub documents: Seq<(Seq<char>, DocumentView)>,
    pub diagnostics: Seq<(Seq<char>, Seq<DiagnosticView>)>,
}

/// Keeps the open documents and their diagnostics, by uri.
pub struct AcsaLspServer {
    config: LspServerConfig,
    documents: Vec<(String, Document)>,
    diagnostics: Vec<(String, Vec<Diagnostic>)>,
}

impl View for AcsaLspServer {
    type V = LspView;

    closed spec fn view(&self) -> LspView {
        LspView {
            config: self.config,
            documents: Seq::new(
                self.documents@.len(),
                |i: int| (self.documents@[i].0@, (self.documents@[i].1.content@, self.documents@[i].1.language_id@, self.documents@[i].1.version)),
            ),
            diagnostics: Seq::new(self.diagnostics@.len(), |i: int| (self.diagnostics@[i].0@, diagnostics_view(self.diagnostics@[i].1@))),
        }
    }
}

/// `seq` without the first entry of key `k`.
pub open spec fn without<V>(seq: Seq<(Seq<char>, V)>, k: Seq<char>) -> Seq<(Seq<char>, V)> {
    match index_of(seq, k) {
        Some(i) => seq.remove(i),
        None => seq,
    }
}

/// No two entries share a key.
pub open spec fn keys_distinct<V>(s: Seq<(Seq<char>, V)>) -> bool {
    forall|a: int, b: int| 0 <= a < b < s.len() ==> s[a].0 != s[b].0
}

/// A document just opened is found under its uri; once closed it is gone.
pub proof fn law_open_then_close(docs: Seq<(Seq<char>, DocumentView)>, uri: Seq<char>, d: DocumentView)
    requires
        keys_distinct(docs),
    ensures
        index_of(upsert(docs, uri, d), uri) matches Some(i) && upsert(docs, uri, d)[i].1 == d,
        index_of(without(upsert(docs, uri, d), uri), uri) is None,
{
    crate::assoc::lemma_upsert(docs, uri, d);
    let u = upsert(docs, uri, d);
    lemma_index_of(u, uri);
    lemma_index_of(docs, uri);
    let i = index_of(u, uri)->Some_0;
    assert forall|k: int| 0 <= k < u.len() && k != i implies u[k].0 != uri by {
        match index_of(docs, uri) {
            Some(j) => {
                assert(u == docs.update(j, (uri, d)));
                if k != j {
                    assert(u[k] == docs[k]);
                    if k < j {
                        assert(docs[k].0 != docs[j].0);
                    } else {
                        assert(docs[j].0 != docs[k].0);
                    }
                }
            },
            None => {
                assert(u == docs.push((uri, d)));
                assert(u[k] == docs[k]);
            },
        }
    }
    let w = u.remove(i);
    assert forall|k: int| 0 <= k < w.len() implies w[k].0 != uri by {
        if k < i {
            assert(w[k] == u[k]);
        } else {
            assert(w[k] == u[k + 1]);
        }
    }
    lemma_index_of_none(w, uri);
}


// ---------------------------------------------------------------- computed

fn keyword(word: &str, prefix: &str) -> (r: CompletionItem)
    ensures
        completion_view(r) == (word@, CompletionItemKind::Keyword, Some(prefix@ + word@), None::<Seq<char>>, None::<Seq<char>>),
{
    let mut d: Vec<char> = Vec::new();
    push_str(&mut d, prefix);
    push_str(&mut d, word);
    CompletionItem { label: owned(word), kind: CompletionItemKind::Keyword, detail: Some(string_of(&d)), documentation: None, insert_text: None }
}

fn push_keywords(items: &mut Vec<CompletionItem>, words: &Vec<&str>, prefix: &str)
    ensures
        completions_view(final(items)@) == completions_view(old(items)@) + keyword_items(
            Seq::new(words@.len(), |i: int| words@[i]@),
            prefix@,
        ),
{
    let ghost ws = Seq::new(words@.len(), |i: int| words@[i]@);
    let n = words.len();
    let mut i: usize = 0;
    while i < n
        invariant
            i <= n,
            n == words@.len(),
            ws == Seq::new(words@.len(), |i: int| words@[i]@),
            completions_view(items@) == completions_view(old(items)@) + keyword_items(ws.subrange(0, i as int), prefix@),
        decreases n - i,
    {
        let ghost before = completions_view(items@);
        let ghost item = (ws[i as int], CompletionItemKind::Keyword, Some(prefix@ + ws[i as int]), None::<Seq<char>>, None::<Seq<char>>);
        let c = keyword(words[i], prefix);
        assert(completion_view(c) == item);
        items.push(c);
        assert(completions_view(items@) =~= before.push(item));
        assert(keyword_items(ws.subrange(0, i + 1), prefix@) =~= keyword_items(ws.subrange(0, i as int), prefix@).push(item));
        assert(completions_view(items@) =~= completions_view(old(items)@) + keyword_items(ws.subrange(0, i + 1), prefix@));
        i = i + 1;
    }
    assert(ws.subrange(0, n as int) =~= ws);
}

/// The basic completions (see `basic_completions`).
fn get_basic_completions(current_line: &str, language_id: &str) -> (r: Vec<CompletionItem>)
    ensures
        completions_view(r@) == basic_completions(current_line@, language_id@),
{
    let mut items: Vec<CompletionItem> = Vec::new();
    assert(completions_view(items@) =~= seq![]);
    if str_eq(language_id, "rust") {
        if str_contains(current_line, "fn") {
            items.push(CompletionItem {
                label: owned("pub fn"),
                kind: CompletionItemKind::Keyword,
                detail: Some(owned("Public function")),
                documentation: None,
                insert_text: Some(owned("pub fn $1($2) -> $3 {\n    $0\n}")),
            });
        }
        let ghost head = completions_view(items@);
        let words = vec!["async", "await", "impl", "trait", "struct", "enum"];
        push_keywords(&mut items, &words, "Rust keyword: ");
        assert(Seq::new(words@.len(), |i: int| words@[i]@) =~= seq!["async"@, "await"@, "impl"@, "trait"@, "struct"@, "enum"@]);
        assert(completions_view(items@) =~= basic_completions(current_line@, language_id@));
    } else if str_eq(language_id, "python") {
        let words = vec!["def", "class", "import", "from", "async", "await"];
        push_keywords(&mut items, &words, "Python keyword: ");
        assert(Seq::new(words@.len(), |i: int| words@[i]@) =~= seq!["def"@, "class"@, "import"@, "from"@, "async"@, "await"@]);
        assert(completions_view(items@) =~= basic_completions(current_line@, language_id@));
    }
    items
}

/// The diagnostics of a text (see `todo_diagnostics`).
fn todo_findings(content: &str) -> (r: Vec<Diagnostic>)
    ensures
        diagnostics_view(r@) == todo_diagnostics(lines_of(content@), lines_of(content@).len()),
{
    let cv = chars_of(content);
    let lines = vec_lines(&cv);
    let ghost ls = lines_of(content@);
    let n = lines.len();
    let mut out: Vec<Diagnostic> = Vec::new();
    let mut i: usize = 0;
    assert(diagnostics_view(out@) =~= seq![]);
    while i < n
        invariant
            i <= n,
            n == ls.len(),
            ls == lines_of(content@),
            lines@.len() == ls.len(),
            forall|k: int| 0 <= k < lines@.len() ==> (#[trigger] lines@[k])@ == ls[k],
            diagnostics_view(out@) == todo_diagnostics(ls, i as nat),
        decreases n - i,
    {
        let line = string_of(&lines[i]);
        assert(line@ == ls[i as int]);
        if str_contains(line.as_str(), "TODO") {
            let width = byte_len(line.as_str());
            let ghost before = diagnostics_view(out@);
            let d = Diagnostic {
                range: Range {
                    start: Position { line: i as u32, character: 0 },
                    end: Position { line: i as u32, character: width as u32 },
                },
                severity: DiagnosticSeverity::Information,
                message: owned("TODO found in code"),
                code: Some(owned("TODO")),
                source: Some(owned("acsa-lsp")),
            };
            out.push(d);
            assert(diagnostics_view(out@) =~= todo_diagnostics(ls, (i + 1) as nat));
        }
        i = i + 1;
    }
    out
}

impl AcsaLspServer {
    /// A server with nothing open.
    pub fn new(config: LspServerConfig) -> (r: Self)
        ensures
            r@.config == config,
            r@.documents.len() == 0,
            r@.diagnostics.len() == 0,
    {
        let r = AcsaLspServer { config, documents: Vec::new(), diagnostics: Vec::new() };
        assert(r@.documents =~= seq![]);
        assert(r@.diagnostics =~= seq![]);
        r
    }

    /// Starts serving.
    pub fn start(&self) -> (r: Result<(), String>)
        ensures
            r is Ok,
    {
        Ok(())
    }

    fn document_position(&self, uri: &str) -> (r: Option<usize>)
        ensures
            match r {
                Some(k) => index_of(self@.documents, uri@) == Some(k as int),
                None => index_of(self@.documents, uri@) is None,
            },
            r matches Some(k) ==> k < self@.documents.len(),
    {
        let ghost ds = self@.documents;
        let n = self.documents.len();
        let mut i: usize = 0;
        while i < n
            invariant
                i <= n,
                n == ds.len(),
                ds == self@.documents,
                forall|j: int| 0 <= j < i ==> ds[j].0 != uri@,
            decreases n - i,
        {
            if str_eq(self.documents[i].0.as_str(), uri) {
                assert(ds[i as int].0 == uri@);
                proof {
                    lemma_index_of_is(ds, uri@, i as int);
                }
                return Some(i);
            }
            i = i + 1;
        }
        proof {
            lemma_index_of_none(ds, uri@);
        }
        None
    }

    fn diagnostics_position(&self, uri: &str) -> (r: Option<usize>)
        ensures
            match r {
                Some(k) => index_of(self@.diagnostics, uri@) == Some(k as int),
                None => index_of(self@.diagnostics, uri@) is None,
            },
            r matches Some(k) ==> k < self@.diagnostics.len(),
    {
        let ghost ds = self@.diagnostics;
        let n = self.diagnostics.len();
        let mut i: usize = 0;
        while i < n
            invariant
                i <= n,
                n == ds.len(),
                ds == self@.diagnostics,
                forall|j: int| 0 <= j < i ==> ds[j].0 != uri@,
            decreases n - i,
        {
            if str_eq(self.diagnostics[i].0.as_str(), uri) {
                assert(ds[i as int].0 == uri@);
                proof {
                    lemma_index_of_is(ds, uri@, i as int);
                }
                return Some(i);
            }
            i = i + 1;
        }
        proof {
            lemma_index_of_none(ds, uri@);
        }
        None
    }

    /// Runs the diagnostics of a document and keeps them under its uri.
    fn run_diagnostics(&mut self, uri: &str, content: &str)
        ensures
            final(self)@.diagnostics == upsert(old(self)@.diagnostics, uri@, todo_diagnostics(lines_of(content@), lines_of(content@).len())),
            final(self)@.documents == old(self)@.documents,
            final(self)@.config == old(self)@.config,
    {
        let found = todo_findings(content);
        let ghost fv = diagnostics_view(found@);
        match self.diagnostics_position(uri) {
            Some(i) => {
                self.diagnostics.set(i, (owned(uri), found));
                assert(self@.diagnostics =~= old(self)@.diagnostics.update(i as int, (uri@, fv)));
            },
            None => {
                self.diagnostics.push((owned(uri), found));
                assert(self@.diagnostics =~= old(self)@.diagnostics.push((uri@, fv)));
            },
        }
    }

    /// Opens a document (replacing one of the same uri) and, if enabled, diagnoses it.
    pub fn did_open(&mut self, document: Document) -> (r: Result<(), String>)
        ensures
            r is Ok,
            final(self)@.config == old(self)@.config,
            final(self)@.documents == upsert(old(self)@.documents, document.uri@, (document.content@, document.language_id@, document.version)),
            final(self)@.diagnostics == if old(self)@.config.enable_diagnostics {
                upsert(old(self)@.diagnostics, document.uri@, todo_diagnostics(lines_of(document.content@), lines_of(document.content@).len()))
            } else {
                old(self)@.diagnostics
            },
    {
        let uri = document.uri.clone();
        let content = document.content.clone();
        let ghost dv = (document.content@, document.language_id@, document.version);
        match self.document_position(uri.as_str()) {
            Some(i) => {
                self.documents.set(i, (uri.clone(), document));
                assert(self@.documents =~= old(self)@.documents.update(i as int, (uri@, dv)));
            },
            None => {
                self.documents.push((uri.clone(), document));
                assert(self@.documents =~= old(self)@.documents.push((uri@, dv)));
            },
        }
        if self.config.enable_diagnostics {
            self.run_diagnostics(uri.as_str(), content.as_str());
        }
        Ok(())
    }

    /// Replaces the content and version of an open document and, if enabled, diagnoses it
    /// again; a document that is not open is left alone.
    pub fn did_change(&mut self, uri: String, content: String, version: i32) -> (r: Result<(), String>)
        ensures
            r is Ok,
            final(self)@.config == old(self)@.config,
            match index_of(old(self)@.documents, uri@) {
                Some(i) => {
                    &&& final(self)@.documents == old(self)@.documents.update(i, (uri@, (content@, old(self)@.documents[i].1.1, version)))
                    &&& final(self)@.diagnostics == if old(self)@.config.enable_diagnostics {
                        upsert(old(self)@.diagnostics, uri@, todo_diagnostics(lines_of(content@), lines_of(content@).len()))
                    } else {
                        old(self)@.diagnostics
                    }
                },
                None => final(self)@ == old(self)@,
            },
    {
        match self.document_position(uri.as_str()) {
            Some(i) => {
                proof {
                    lemma_index_of(old(self)@.documents, uri@);
                }
                let language = self.documents[i].1.language_id.clone();
                let key = self.documents[i].0.clone();
                let doc = Document { uri: uri.clone(), content: content.clone(), language_id: language, version };
                let ghost dv = (content@, old(self)@.documents[i as int].1.1, version);
                self.documents.set(i, (key, doc));
                assert(self@.documents =~= old(self)@.documents.update(i as int, (uri@, dv)));
                if self.config.enable_diagnostics {
                    self.run_diagnostics(uri.as_str(), content.as_str());
                }
            },
            None => {},
        }
        Ok(())
    }

    /// Closes a document and drops its diagnostics.
    pub fn did_close(&mut self, uri: &str) -> (r: Result<(), String>)
        ensures
            r is Ok,
            final(self)@.config == old(self)@.config,
            final(self)@.documents == without(old(self)@.documents, uri@),
            final(self)@.diagnostics == without(old(self)@.diagnostics, uri@),
    {
        match self.document_position(uri) {
            Some(i) => {
                self.documents.remove(i);
                assert(self@.documents =~= old(self)@.documents.remove(i as int));
            },
            None => {},
        }
        let ghost mid = self@.diagnostics;
        match self.diagnostics_position(uri) {
            Some(i) => {
                self.diagnostics.remove(i);
                assert(self@.diagnostics =~= mid.remove(i as int));
            },
            None => {},
        }
        Ok(())
    }

    /// Completions at a position: none when completion is off, an error for a document that
    /// is not open, else the basic completions for the line (an empty line past the end), at
    /// most the configured number.
    pub fn completion(&self, uri: &str, position: Position) -> (r: Result<Vec<CompletionItem>, String>)
        ensures
            !self@.config.enable_completion ==> (r matches Ok(v) && v@.len() == 0),
            self@.config.enable_completion ==> match index_of(self@.documents, uri@) {
                None => (r matches Err(e) && e@ == "Document not found: "@ + uri@),
                Some(i) => (r matches Ok(v) && {
                    let d = self@.documents[i].1;
                    let lines = lines_of(d.0);
                    let line = if (position.line as int) < lines.len() { lines[position.line as int] } else { ""@ };
                    let all = basic_completions(line, d.1);
                    completions_view(v@) == if all.len() > self@.config.max_completion_items {
                        all.subrange(0, self@.config.max_completion_items as int)
                    } else {
                        all
                    }
                }),
            },
    {
        if !self.config.enable_completion {
            return Ok(Vec::new());
        }
        match self.document_position(uri) {
            None => {
                let mut m: Vec<char> = Vec::new();
                push_str(&mut m, "Document not found: ");
                push_str(&mut m, uri);
                Err(string_of(&m))
            },
            Some(i) => {
                let doc = &self.documents[i].1;
                let cv = chars_of(doc.content.as_str());
                let lines = vec_lines(&cv);
                let k = position.line as usize;
                let line = if k < lines.len() {
                    string_of(&lines[k])
                } else {
                    proof {
                        reveal_strlit("");
                    }
                    owned("")
                };
                let mut items = get_basic_completions(line.as_str(), doc.language_id.as_str());
                let max = self.config.max_completion_items;
                if items.len() > max {
                    let ghost all = completions_view(items@);
                    items.truncate(max);
                    assert(completions_view(items@) =~= all.subrange(0, max as int));
                }
                Ok(items)
            },
        }
    }

    /// The definition at a position: for now the position itself, in an open document.
    pub fn goto_definition(&self, uri: &str, position: Position) -> (r: Result<Option<(String, Range)>, String>)
        ensures
            index_of(self@.documents, uri@) is None ==> (r matches Err(e) && e@ == "Document not found: "@ + uri@),
            index_of(self@.documents, uri@) is Some ==> (r matches Ok(Some((u, range))) && u@ == uri@ && range == (Range {
                start: position,
                end: position,
            })),
    {
        match self.document_position(uri) {
            None => Err(not_found(uri)),
            Some(_) => Ok(Some((owned(uri), Range { start: position, end: position }))),
        }
    }

    /// The references at a position: for now the position itself, in an open document.
    pub fn find_references(&self, uri: &str, position: Position) -> (r: Result<Vec<(String, Range)>, String>)
        ensures
            index_of(self@.documents, uri@) is None ==> (r matches Err(e) && e@ == "Document not found: "@ + uri@),
            index_of(self@.documents, uri@) is Some ==> (r matches Ok(v) && v@.len() == 1 && v@[0].0@ == uri@ && v@[0].1 == (Range {
                start: position,
                end: position,
            })),
    {
        match self.document_position(uri) {
            None => Err(not_found(uri)),
            Some(_) => Ok(vec![(owned(uri), Range { start: position, end: position })]),
        }
    }

    /// The hover text at a position: for now a fixed text, in an open document.
    pub fn hover(&self, uri: &str, position: Position) -> (r: Result<Option<String>, String>)
        ensures
            index_of(self@.documents, uri@) is None ==> (r matches Err(e) && e@ == "Document not found: "@ + uri@),
            index_of(self@.documents, uri@) is Some ==> (r matches Ok(Some(t)) && t@ == "Hover information"@),
    {
        match self.document_position(uri) {
            None => Err(not_found(uri)),
            Some(_) => Ok(Some(owned("Hover information"))),
        }
    }

    /// The diagnostics kept for a uri.
    pub fn get_diagnostics(&self, uri: &str) -> (r: Option<&Vec<Diagnostic>>)
        ensures
            match index_of(self@.diagnostics, uri@) {
                Some(i) => r matches Some(v) && diagnostics_view(v@) == self@.diagnostics[i].1,
                None => r is None,
            },
    {
        match self.diagnostics_position(uri) {
            Some(i) => Some(&self.diagnostics[i].1),
            None => None,
        }
    }

    /// Whether a document is open.
    pub fn is_open(&self, uri: &str) -> (r: bool)
        ensures
            r == (index_of(self@.documents, uri@) is Some),
    {
        self.document_position(uri).is_some()
    }
}

fn not_found(uri: &str) -> (r: String)
    ensures
        r@ == "Document not found: "@ + uri@,
{
    let mut m: Vec<char> = Vec::new();
    push_str(&mut m, "Document not found: ");
    push_str(&mut m, uri);
    string_of(&m)
}

} // verus!
