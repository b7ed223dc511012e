use o_sovereign::lsp_server::{AcsaLspServer, CompletionItemKind, Document, LspServerConfig, Position, Range, LSP_VERSION};

fn doc(uri: &str, content: &str, language: &str) -> Document {
    Document { uri: uri.to_string(), content: content.to_string(), language_id: language.to_string(), version: 1 }
}

#[test]
fn test_document_management() {
    let mut server = AcsaLspServer::new(LspServerConfig::default());
    server.did_open(doc("file:///test.rs", "fn main() {}", "rust")).unwrap();
    assert!(server.is_open("file:///test.rs"));
}

#[test]
fn test_completion() {
    let mut server = AcsaLspServer::new(LspServerConfig::default());
    server.did_open(doc("file:///test.rs", "fn ", "rust")).unwrap();
    let items = server.completion("file:///test.rs", Position { line: 0, character: 3 }).unwrap();
    assert!(!items.is_empty());
}

#[test]
fn completions_by_language_and_limit() {
    let mut server = AcsaLspServer::new(LspServerConfig { max_completion_items: 3, ..LspServerConfig::default() });
    server.did_open(doc("a.rs", "x\nfn f", "rust")).unwrap();
    server.did_open(doc("b.py", "", "python")).unwrap();
    server.did_open(doc("c.txt", "fn", "text")).unwrap();
    let rs = server.completion("a.rs", Position { line: 1, character: 0 }).unwrap();
    let labels: Vec<&str> = rs.iter().map(|c| c.label.as_str()).collect();
    assert_eq!(labels, vec!["pub fn", "async", "await"]);
    assert_eq!(rs[1].kind, CompletionItemKind::Keyword);
    assert_eq!(rs[1].detail.as_deref(), Some("Rust keyword: async"));
    let first_line = server.completion("a.rs", Position { line: 0, character: 0 }).unwrap();
    assert_eq!(first_line[0].label, "async");
    let past_end = server.completion("a.rs", Position { line: 9, character: 0 }).unwrap();
    assert_eq!(past_end.len(), 3);
    assert_eq!(server.completion("b.py", Position { line: 0, character: 0 }).unwrap()[0].label, "def");
    assert!(server.completion("c.txt", Position { line: 0, character: 0 }).unwrap().is_empty());
    assert_eq!(
        server.completion("nope", Position { line: 0, character: 0 }).err().unwrap(),
        "Document not found: nope"
    );
    let off = AcsaLspServer::new(LspServerConfig { enable_completion: false, ..LspServerConfig::default() });
    assert!(off.completion("nope", Position { line: 0, character: 0 }).unwrap().is_empty());
}

#[test]
fn todo_lines_are_diagnosed_and_closing_forgets() {
    let mut server = AcsaLspServer::new(LspServerConfig::default());
    server.did_open(doc("a.rs", "ok\n// TODO: é\nTODO", "rust")).unwrap();
    let d = server.get_diagnostics("a.rs").unwrap();
    assert_eq!(d.len(), 2);
    assert_eq!(d[0].range.start, Position { line: 1, character: 0 });
    assert_eq!(d[0].range.end, Position { line: 1, character: 11 });
    assert_eq!(d[0].code.as_deref(), Some("TODO"));
    assert_eq!(d[1].range.start.line, 2);
    server.did_change("a.rs".to_string(), "clean".to_string(), 2).unwrap();
    assert!(server.get_diagnostics("a.rs").unwrap().is_empty());
    server.did_change("other".to_string(), "TODO".to_string(), 2).unwrap();
    assert!(server.get_diagnostics("other").is_none());
    let p = Position { line: 0, character: 1 };
    assert_eq!(server.goto_definition("a.rs", p).unwrap(), Some(("a.rs".to_string(), Range { start: p, end: p })));
    assert_eq!(server.find_references("a.rs", p).unwrap().len(), 1);
    assert_eq!(server.hover("a.rs", p).unwrap().as_deref(), Some("Hover information"));
    server.did_close("a.rs").unwrap();
    assert!(!server.is_open("a.rs"));
    assert!(server.get_diagnostics("a.rs").is_none());
    assert!(server.hover("a.rs", p).is_err());
    assert_eq!(LSP_VERSION, "3.17");
    assert!(server.start().is_ok());
}
