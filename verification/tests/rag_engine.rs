use o_sovereign::rag_engine::{
    chunk_document, generate_embedding, ChunkingStrategy, Document, EmbeddingModel, RagConfig, RagEngine, RetrievalMode,
};

fn doc(id: &str, title: &str, content: &str) -> Document {
    Document {
        document_id: id.to_string(),
        title: title.to_string(),
        content: content.to_string(),
        doc_type: "txt".to_string(),
        metadata: vec![],
        created_at: 0,
        updated_at: 0,
    }
}

#[test]
fn test_document_indexing() {
    let mut engine = RagEngine::new(RagConfig::default());

    let doc = Document {
        document_id: "doc1".to_string(),
        title: "Test Document".to_string(),
        content: "This is a test document.\n\nIt has multiple paragraphs.".to_string(),
        doc_type: "txt".to_string(),
        metadata: vec![],
        created_at: chrono::Utc::now().timestamp_millis(),
        updated_at: chrono::Utc::now().timestamp_millis(),
    };

    let chunk_ids = engine.index_document(doc, chrono::Utc::now().timestamp_millis()).unwrap();
    assert!(!chunk_ids.is_empty());
}

#[test]
fn test_keyword_search() {
    let mut engine = RagEngine::new(RagConfig { retrieval_mode: RetrievalMode::KeywordOnly, ..Default::default() });

    let doc = Document {
        document_id: "doc1".to_string(),
        title: "Rust Programming".to_string(),
        content: "Rust is a systems programming language.".to_string(),
        doc_type: "txt".to_string(),
        metadata: vec![],
        created_at: chrono::Utc::now().timestamp_millis(),
        updated_at: chrono::Utc::now().timestamp_millis(),
    };

    engine.index_document(doc, chrono::Utc::now().timestamp_millis()).unwrap();

    let results = engine.retrieve("Rust").unwrap();
    assert!(!results.is_empty());
}

#[test]
fn test_rag_defaults() {
    let c = RagConfig::default();
    assert_eq!(c.embedding_model, EmbeddingModel::OpenAISmall);
    assert_eq!(c.chunking_strategy, ChunkingStrategy::Semantic);
    assert_eq!(c.chunk_size, 512);
    assert_eq!(c.chunk_overlap, 50);
    assert_eq!(c.retrieval_mode, RetrievalMode::Hybrid);
    assert_eq!(c.top_k, 5);
    assert_eq!(c.min_similarity_milli, 700);
    assert_eq!(c.vector_db_url, "http://localhost:6333");
}

#[test]
fn test_paragraph_chunks() {
    let config = RagConfig::default();
    let chunks = chunk_document(&config, &doc("d", "T", "one\n\n  \n\ntwo\n\nthree"), 5);
    let got: Vec<(String, usize, String)> = chunks.iter().map(|c| (c.chunk_id.clone(), c.chunk_index, c.content.clone())).collect();
    assert_eq!(
        got,
        vec![
            ("d_0".to_string(), 0, "one".to_string()),
            ("d_2".to_string(), 2, "two".to_string()),
            ("d_3".to_string(), 3, "three".to_string()),
        ]
    );
    assert!(chunks.iter().all(|c| c.created_at == 5 && c.embedding.is_none() && c.document_id == "d"));
}

#[test]
fn test_fixed_chunks() {
    let config = RagConfig { chunking_strategy: ChunkingStrategy::FixedSize, chunk_size: 4, chunk_overlap: 1, ..Default::default() };
    let chunks = chunk_document(&config, &doc("f", "T", "abcdefghij"), 0);
    let contents: Vec<String> = chunks.iter().map(|c| c.content.clone()).collect();
    assert_eq!(contents, vec!["abcd", "defg", "ghij", "j"]);
    assert_eq!(chunks[3].chunk_id, "f_3");
    let other = RagConfig { chunking_strategy: ChunkingStrategy::Recursive, ..Default::default() };
    assert!(chunk_document(&other, &doc("f", "T", "abc"), 0).is_empty());
}

#[test]
fn test_embedding_placeholder() {
    assert_eq!(generate_embedding("abc"), "embedding_3");
    assert_eq!(generate_embedding("é"), "embedding_2");
}

#[test]
fn test_retrieve_cache_and_context() {
    let mut engine = RagEngine::new(RagConfig { top_k: 1, ..Default::default() });
    engine.index_document(doc("a", "A", "Rust is fast.\n\nRust is safe."), 0).unwrap();
    let results = engine.retrieve("rust").unwrap();
    assert_eq!(results.len(), 1);
    assert_eq!(results[0].score_milli, 800);
    assert_eq!(results[0].retrieval_method, "keyword");
    assert_eq!(results[0].chunk.content, "Rust is fast.");
    assert_eq!(results[0].chunk.embedding, Some("embedding_13".to_string()));
    // A query of the same length is answered from the cache.
    let cached = engine.retrieve("none").unwrap();
    assert_eq!(cached.len(), 1);
    let stats = engine.get_stats();
    assert_eq!(stats.total_documents, 1);
    assert_eq!(stats.total_chunks, 2);
    assert_eq!(stats.total_queries, 1);
    assert_eq!(stats.cache_hits, 1);
    assert_eq!(stats.cache_misses, 1);
    // "safe" has four bytes too: the cached answer to "rust" comes back.
    let context = engine.build_augmented_context("safe", "SYS").unwrap();
    assert_eq!(
        context,
        "SYS\n\n## 参考上下文\n\n### 来源 1 (相似度: 80.00%)\nRust is fast.\n\n请基于以上上下文回答问题，如果上下文不相关，请说明并给出你的最佳回答。"
    );
    assert_eq!(engine.build_augmented_context("zzzzzz", "SYS").unwrap(), "SYS");
    engine.delete_document("a").unwrap();
    assert!(engine.retrieve("rust").unwrap().is_empty());
    engine.record_query_time(12);
    assert_eq!(engine.get_stats().total_query_time_ms, 12);
}
