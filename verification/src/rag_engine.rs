//! Retrieval-augmented generation: documents cut into chunks, chunks found by keyword, a cache
//! of answers, and a prompt built from what was found.
//!
//! Similarity scores are thousandths. Embeddings are placeholders (no model is called), so
//! vector search finds nothing and hybrid search is keyword search.
use vstd::prelude::*;
use crate::assoc::{find, index_of, lemma_index_of, lemma_same_keys, lemma_upsert, position_of, string_keyed, upsert};
use crate::text::{
    chars_of, copy_pairs, decimal, first_occurrence, has_sub, lowercase, owned, pairs_view, push_all, push_decimal, push_str,
    str_contains, string_of, strings_view, to_lower, trimmed, vec_find, vec_slice, vec_trim,
};

verus! {

/// How a document is cut.
#[derive(Debug, Clone, Copy, PartialEq, Eq, Structural)]
pub enum ChunkingStrategy {
    FixedSize,
    Semantic,
    SlidingWindow,
    Recursive,
}

/// The model that embeds text.
#[derive(Debug, Clone, Copy, PartialEq, Eq, Structural)]
pub enum EmbeddingModel {
    OpenAISmall,
    OpenAILarge,
    LocalMiniLM,
    Custom,
}

/// How chunks are found.
#[derive(Debug, Clone, Copy, PartialEq, Eq, Structural)]
pub enum RetrievalMode {
    VectorOnly,
    KeywordOnly,
    Hybrid,
}

/// A piece of a document.
#[derive(Debug)]
pub struct DocumentChunk {
    pub chunk_id: String,
    pub document_id: String,
    pub content: String,
    /// Its position among the pieces of the document.
    pub chunk_index: usize,
    pub metadata: Vec<(String, String)>,
    pub embedding: Option<String>,
    /// Unix milliseconds.
    pub created_at: i64,
}

pub struct ChunkView {
    pub chunk_id: Seq<char>,
    pub document_id: Seq<char>,
    pub content: Seq<char>,
    pub chunk_index: usize,
    pub metadata: Seq<(Seq<char>, Seq<char>)>,
    pub embedding: Option<Seq<char>>,
    pub created_at: i64,
}

pub open spec fn chunk_view(c: DocumentChunk) -> ChunkView {
    ChunkView {
        chunk_id: c.chunk_id@,
        document_id: c.document_id@,
        content: c.content@,
        chunk_index: c.chunk_index,
        metadata: pairs_view(c.metadata@),
        embedding: match c.embedding {
            Some(e) => Some(e@),
            None => None,
        },
        created_at: c.created_at,
    }
}

pub open spec fn chunks_view(v: Seq<DocumentChunk>) -> Seq<ChunkView> {
    Seq::new(v.len(), |i: int| chunk_view(v[i]))
}

/// A document.
#[derive(Debug)]
pub struct Document {
    pub document_id: String,
    pub title: String,
    pub content: String,
    /// markdown, pdf, txt or code.
    pub doc_type: String,
    pub metadata: Vec<(String, String)>,
    pub created_at: i64,
    pub updated_at: i64,
}

pub struct DocumentView {
    pub title: Seq<char>,
    pub content: Seq<char>,
    pub doc_type: Seq<char>,
    pub metadata: Seq<(Seq<char>, Seq<char>)>,
    pub created_at: i64,
    pub updated_at: i64,
}

pub open spec fn document_view(d: Document) -> DocumentView {
    DocumentView {
        title: d.title@,
        content: d.content@,
        doc_type: d.doc_type@,
        metadata: pairs_view(d.metadata@),
        created_at: d.created_at,
        updated_at: d.updated_at,
    }
}

/// A chunk found for a query.
#[derive(Debug)]
pub struct RetrievalResult {
    pub chunk: DocumentChunk,
    /// Similarity, in thousandths.
    pub score_milli: u32,
    pub retrieval_method: String,
}

pub struct ResultView {
    pub chunk: ChunkView,
    pub score_milli: u32,
    pub retrieval_method: Seq<char>,
}

pub open spec fn result_view(r: RetrievalResult) -> ResultView {
    ResultView { chunk: chunk_view(r.chunk), score_milli: r.score_milli, retrieval_method: r.retrieval_method@ }
}

pub open spec fn results_view(v: Seq<RetrievalResult>) -> Seq<ResultView> {
    Seq::new(v.len(), |i: int| result_view(v[i]))
}

/// The settings of the engine.
#[derive(Debug)]
pub struct RagConfig {
    pub embedding_model: EmbeddingModel,
    pub chunking_strategy: ChunkingStrategy,
    /// Characters per chunk.
    pub chunk_size: usize,
    /// Characters shared by consecutive chunks.
    pub chunk_overlap: usize,
    pub retrieval_mode: RetrievalMode,
    pub top_k: usize,
    /// The least similarity kept, in thousandths.
    pub min_similarity_milli: u32,
    pub vector_db_url: String,
}

impl Default for RagConfig {
    /// Small embeddings, chunks by paragraph (512 characters, 50 shared when cut by size),
    /// hybrid search, five results of similarity 0.7 or more, a local vector store.
    fn default() -> (r: Self)
        ensures
            r.embedding_model == EmbeddingModel::OpenAISmall && r.chunking_strategy == ChunkingStrategy::Semantic
                && r.chunk_size == 512 && r.chunk_overlap == 50 && r.retrieval_mode == RetrievalMode::Hybrid && r.top_k == 5
                && r.min_similarity_milli == 700 && r.vector_db_url@ == "http://localhost:6333"@,
    {
        RagConfig {
            embedding_model: EmbeddingModel::OpenAISmall,
            chunking_strategy: ChunkingStrategy::Semantic,
            chunk_size: 512,
            chunk_overlap: 50,
            retrieval_mode: RetrievalMode::Hybrid,
            top_k: 5,
            min_similarity_milli: 700,
            vector_db_url: owned("http://localhost:6333"),
        }
    }
}

/// The counts of the engine.
#[derive(Debug, Clone, Copy, PartialEq, Eq, Structural)]
pub struct RagStats {
    pub total_documents: u64,
    pub total_chunks: u64,
    pub total_queries: u64,
    /// The sum of the query times, in milliseconds.
    pub total_query_time_ms: u64,
    pub cache_hits: u64,
    pub cache_misses: u64,
}

impl Default for RagStats {
    /// All counts zero.
    fn default() -> (r: Self)
        ensures
            r == (RagStats { total_documents: 0, total_chunks: 0, total_queries: 0, total_query_time_ms: 0, cache_hits: 0, cache_misses: 0 }),
    {
        RagStats { total_documents: 0, total_chunks: 0, total_queries: 0, total_query_time_ms: 0, cache_hits: 0, cache_misses: 0 }
    }
}

/// The pieces of `s` between the occurrences of a non-empty `sep`, left to right
/// (`str::split`).
pub open spec fn split_on(s: Seq<char>, sep: Seq<char>) -> Seq<Seq<char>>
    decreases s.len(),
{
    if sep.len() == 0 {
        seq![s]
    } else {
        match first_occurrence(s, sep) {
            None => seq![s],
            Some(i) => if 0 <= i && i + sep.len() <= s.len() {
                seq![s.subrange(0, i)] + split_on(s.subrange(i + sep.len(), s.len() as int), sep)
            } else {
                seq![s]
            },
        }
    }
}

/// The chunks cut at fixed size from position `start` on: `size` characters each, the next
/// starting `step` further.
pub open spec fn fixed_pieces(s: Seq<char>, size: nat, step: nat, start: int) -> Seq<(int, Seq<char>)>
    decreases (if start < s.len() { s.len() - start } else { 0 }),
{
    if step == 0 || start < 0 || start >= s.len() {
        seq![]
    } else {
        let end = if start + size < s.len() { start + size } else { s.len() as int };
        seq![(start, s.subrange(start, end))] + fixed_pieces(s, size, step, start + step)
    }
}

/// The id of the chunk of `doc` at position `i`.
pub open spec fn chunk_id_of(doc: Seq<char>, i: nat) -> Seq<char> {
    doc + "_"@ + decimal(i)
}

/// The chunks of a document under a strategy, as (position, content) pairs: by fixed size, or by
/// paragraph (blank pieces skipped, positions counting them); no chunk for the strategies not
/// implemented.
pub open spec fn pieces_of(strategy: ChunkingStrategy, content: Seq<char>, size: nat, overlap: nat) -> Seq<(int, Seq<char>)> {
    match strategy {
        ChunkingStrategy::FixedSize => {
            let pieces = fixed_pieces(content, size, (size - overlap) as nat, 0);
            Seq::new(pieces.len(), |k: int| (k, pieces[k].1))
        },
        ChunkingStrategy::Semantic => paragraphs(split_on(content, "\n\n"@), split_on(content, "\n\n"@).len() as int),
        _ => seq![],
    }
}

/// The non-blank pieces among the first `k`, each with its position.
pub open spec fn paragraphs(ps: Seq<Seq<char>>, k: int) -> Seq<(int, Seq<char>)>
    decreases k,
{
    if k <= 0 {
        seq![]
    } else if trimmed(ps[k - 1]).len() == 0 {
        paragraphs(ps, k - 1)
    } else {
        paragraphs(ps, k - 1).push((k - 1, ps[k - 1]))
    }
}

/// The placeholder embedding of a text of `byte_len` bytes.
pub open spec fn placeholder_embedding(byte_len: nat) -> Seq<char> {
    "embedding_"@ + decimal(byte_len)
}

fn split_paragraphs(content: &Vec<char>) -> (r: Vec<Vec<char>>)
    ensures
        r@.len() == split_on(content@, "\n\n"@).len(),
        forall|k: int| 0 <= k < r@.len() ==> (#[trigger] r@[k])@ == split_on(content@, "\n\n"@)[k],
{
    let sep = chars_of("\n\n");
    proof {
        reveal_strlit("\n\n");
    }
    let mut out: Vec<Vec<char>> = Vec::new();
    let mut rest: Vec<char> = vec_slice(content, 0, content.len());
    assert(rest@ =~= content@);
    let ghost mut done: Seq<Seq<char>> = seq![];
    loop
        invariant
            sep@ == "\n\n"@,
            sep@.len() == 2,
            out@.len() == done.len(),
            forall|k: int| 0 <= k < out@.len() ==> (#[trigger] out@[k])@ == done[k],
            done + split_on(rest@, sep@) == split_on(content@, sep@),
        decreases rest@.len(),
    {
        match vec_find(&rest, &sep) {
            None => {
                proof {
                    assert(split_on(rest@, sep@) == seq![rest@]);
                }
                let ghost last = rest@;
                out.push(rest);
                proof {
                    done = done.push(last);
                    assert(done =~= split_on(content@, sep@)) by {
                        assert(seq![last] =~= seq![last]);
                    }
                }
                return out;
            },
            Some(i) => {
                assert(i + sep@.len() <= rest@.len());
                assert(sep@.len() == 2);
                assert(i + 2 <= rest@.len());
                let rl = rest.len();
                let after: usize = i + 2;
                let piece = vec_slice(&rest, 0, i);
                let next = vec_slice(&rest, after, rl);
                proof {
                    assert(split_on(rest@, sep@) == seq![piece@] + split_on(next@, sep@));
                }
                let ghost p = piece@;
                out.push(piece);
                proof {
                    assert(done.push(p) + split_on(next@, sep@) =~= done + (seq![p] + split_on(next@, sep@)));
                    done = done.push(p);
                }
                rest = next;
            },
        }
    }
}

fn fixed_chunks(content: &Vec<char>, size: usize, overlap: usize) -> (r: Vec<Vec<char>>)
    requires
        overlap < size,
    ensures
        r@.len() == fixed_pieces(content@, size as nat, (size - overlap) as nat, 0).len(),
        forall|k: int| 0 <= k < r@.len() ==> (#[trigger] r@[k])@ == fixed_pieces(content@, size as nat, (size - overlap) as nat, 0)[k].1,
{
    let n = content.len();
    let step = size - overlap;
    let mut out: Vec<Vec<char>> = Vec::new();
    let mut start: usize = 0;
    let ghost mut done: Seq<(int, Seq<char>)> = seq![];
    while start < n
        invariant
            step == size - overlap,
            step > 0,
            n == content@.len(),
            out@.len() == done.len(),
            forall|k: int| 0 <= k < out@.len() ==> (#[trigger] out@[k])@ == done[k].1,
            done + fixed_pieces(content@, size as nat, step as nat, start as int) == fixed_pieces(content@, size as nat, step as nat, 0),
        decreases n - start,
    {
        let end = if size < n - start { start + size } else { n };
        let piece = vec_slice(content, start, end);
        let ghost entry = (start as int, piece@);
        proof {
            assert(fixed_pieces(content@, size as nat, step as nat, start as int) == seq![entry] + fixed_pieces(
                content@,
                size as nat,
                step as nat,
                start + step,
            ));
            assert(done.push(entry) + fixed_pieces(content@, size as nat, step as nat, start + step) =~= done + (seq![entry]
                + fixed_pieces(content@, size as nat, step as nat, start + step)));
        }
        out.push(piece);
        proof {
            done = done.push(entry);
        }
        if n - start <= step {
            proof {
                assert(fixed_pieces(content@, size as nat, step as nat, start + step) =~= seq![]);
                assert(done =~= fixed_pieces(content@, size as nat, step as nat, 0));
            }
            return out;
        }
        start = start + step;
    }
    proof {
        assert(done =~= fixed_pieces(content@, size as nat, step as nat, 0));
    }
    out
}

/// The placeholder embedding of `text`: `embedding_` and its length in bytes.
pub fn generate_embedding(text: &str) -> (r: String)
    ensures
        r@ == placeholder_embedding(text.len() as nat),
{
    let mut v: Vec<char> = Vec::new();
    push_str(&mut v, "embedding_");
    push_decimal(&mut v, text.len() as u64);
    string_of(&v)
}

/// The chunks made of pieces of document `id`, each with its position, created at `now`.
pub open spec fn chunks_from(id: Seq<char>, metadata: Seq<(Seq<char>, Seq<char>)>, now: i64, ps: Seq<(int, Seq<char>)>) -> Seq<ChunkView> {
    Seq::new(
        ps.len(),
        |k: int|
            ChunkView {
                chunk_id: chunk_id_of(id, ps[k].0 as nat),
                document_id: id,
                content: ps[k].1,
                chunk_index: ps[k].0 as usize,
                metadata,
                embedding: None,
                created_at: now,
            },
    )
}

/// The chunks of document `id` (of value `d`) under the settings, created at `now`.
pub open spec fn document_chunks(c: RagConfig, id: Seq<char>, d: DocumentView, now: i64) -> Seq<ChunkView> {
    chunks_from(id, d.metadata, now, pieces_of(c.chunking_strategy, d.content, c.chunk_size as nat, c.chunk_overlap as nat))
}

/// The number of bytes of a text, as `str::len` gives it.
pub open spec fn byte_count(s: Seq<char>) -> nat {
    vstd::utf8::encode_utf8(s).len() as usize as nat
}

/// A chunk with its placeholder embedding.
pub open spec fn embedded(c: ChunkView) -> ChunkView {
    ChunkView { embedding: Some(placeholder_embedding(byte_count(c.content))), ..c }
}

/// The chunk store after the first `k` of `cs` are stored, each under its id.
pub open spec fn stored(store: Seq<(Seq<char>, ChunkView)>, cs: Seq<ChunkView>, k: int) -> Seq<(Seq<char>, ChunkView)>
    decreases k,
{
    if k <= 0 {
        store
    } else {
        upsert(stored(store, cs, k - 1), cs[k - 1].chunk_id, embedded(cs[k - 1]))
    }
}

/// The key under which answers to a query of `byte_len` bytes are cached.
pub open spec fn cache_key(byte_len: nat) -> Seq<char> {
    "query_"@ + decimal(byte_len)
}

/// The chunks among the first `k` of the store whose text contains the query, ignoring case,
/// each with similarity 0.8.
pub open spec fn keyword_hits(chunks: Seq<(Seq<char>, ChunkView)>, query: Seq<char>, k: int) -> Seq<ResultView>
    decreases k,
{
    if k <= 0 {
        seq![]
    } else if has_sub(lowercase(chunks[k - 1].1.content), lowercase(query)) {
        keyword_hits(chunks, query, k - 1).push(ResultView { chunk: chunks[k - 1].1, score_milli: 800, retrieval_method: "keyword"@ })
    } else {
        keyword_hits(chunks, query, k - 1)
    }
}

/// The first `k` results without those of the same chunk as the result kept just before.
pub open spec fn deduped(rs: Seq<ResultView>, k: int) -> Seq<ResultView>
    decreases k,
{
    if k <= 0 {
        seq![]
    } else {
        let d = deduped(rs, k - 1);
        if d.len() > 0 && d.last().chunk.chunk_id == rs[k - 1].chunk.chunk_id {
            d
        } else {
            d.push(rs[k - 1])
        }
    }
}

/// Merging drops nothing from results of pairwise different chunks: the first `k` of them come
/// back unchanged.
pub proof fn law_dedup_keeps_distinct_chunks(rs: Seq<ResultView>, k: int)
    requires
        0 <= k <= rs.len(),
        forall|i: int, j: int| 0 <= i < j < k ==> rs[i].chunk.chunk_id != rs[j].chunk.chunk_id,
    ensures
        deduped(rs, k) == rs.subrange(0, k),
    decreases k,
{
    if k > 0 {
        law_dedup_keeps_distinct_chunks(rs, k - 1);
        if k >= 2 {
            assert(deduped(rs, k - 1).last() == rs[k - 2]);
        }
        assert(rs.subrange(0, k - 1).push(rs[k - 1]) =~= rs.subrange(0, k));
    }
}

/// The keyword hits among the first `k` chunks are of those chunks, and of pairwise different
/// chunk ids when the chunks' ids are.
proof fn lemma_keyword_hits_distinct(chunks: Seq<(Seq<char>, ChunkView)>, query: Seq<char>, k: int)
    requires
        0 <= k <= chunks.len(),
        forall|a: int, b: int| 0 <= a < b < chunks.len() ==> chunks[a].1.chunk_id != chunks[b].1.chunk_id,
    ensures
        forall|a: int| 0 <= a < keyword_hits(chunks, query, k).len() ==> exists|j: int|
            0 <= j < k && #[trigger] keyword_hits(chunks, query, k)[a].chunk.chunk_id == chunks[j].1.chunk_id,
        forall|a: int, b: int| 0 <= a < b < keyword_hits(chunks, query, k).len() ==> keyword_hits(chunks, query, k)[a].chunk.chunk_id
            != keyword_hits(chunks, query, k)[b].chunk.chunk_id,
    decreases k,
{
    if k > 0 {
        lemma_keyword_hits_distinct(chunks, query, k - 1);
        let prev = keyword_hits(chunks, query, k - 1);
        let h = keyword_hits(chunks, query, k);
        if h.len() > prev.len() {
            assert forall|a: int| 0 <= a < h.len() implies exists|j: int|
                0 <= j < k && #[trigger] h[a].chunk.chunk_id == chunks[j].1.chunk_id by {
                if a < prev.len() {
                    assert(h[a] == prev[a]);
                    let j = choose|j: int| 0 <= j < k - 1 && prev[a].chunk.chunk_id == chunks[j].1.chunk_id;
                    assert(h[a].chunk.chunk_id == chunks[j].1.chunk_id);
                } else {
                    assert(h[a].chunk.chunk_id == chunks[k - 1].1.chunk_id);
                }
            }
            assert forall|a: int, b: int| 0 <= a < b < h.len() implies h[a].chunk.chunk_id != h[b].chunk.chunk_id by {
                assert(h[a] == prev[a]);
                if b < prev.len() {
                    assert(h[b] == prev[b]);
                } else {
                    let j = choose|j: int| 0 <= j < k - 1 && prev[a].chunk.chunk_id == chunks[j].1.chunk_id;
                    assert(h[b].chunk.chunk_id == chunks[k - 1].1.chunk_id);
                }
            }
        } else {
            assert forall|a: int| 0 <= a < h.len() implies exists|j: int|
                0 <= j < k && #[trigger] h[a].chunk.chunk_id == chunks[j].1.chunk_id by {
                let j = choose|j: int| 0 <= j < k - 1 && prev[a].chunk.chunk_id == chunks[j].1.chunk_id;
                assert(h[a].chunk.chunk_id == chunks[j].1.chunk_id);
            }
        }
    }
}

/// Over chunks of pairwise different ids, hybrid retrieval finds exactly what keyword retrieval
/// finds: every matching chunk, none dropped as a repeat.
pub proof fn law_hybrid_keeps_every_keyword_hit(chunks: Seq<(Seq<char>, ChunkView)>, query: Seq<char>)
    requires
        forall|a: int, b: int| 0 <= a < b < chunks.len() ==> chunks[a].1.chunk_id != chunks[b].1.chunk_id,
    ensures
        found(RetrievalMode::Hybrid, chunks, query) == found(RetrievalMode::KeywordOnly, chunks, query),
{
    let hits = keyword_hits(chunks, query, chunks.len() as int);
    lemma_keyword_hits_distinct(chunks, query, chunks.len() as int);
    law_dedup_keeps_distinct_chunks(hits, hits.len() as int);
    assert(hits.subrange(0, hits.len() as int) =~= hits);
}

/// What a search finds: nothing by vectors (no embeddings), chunks by keyword, or both merged
/// (ranked by similarity, all equal here, with repeats of a chunk dropped).
pub open spec fn found(mode: RetrievalMode, chunks: Seq<(Seq<char>, ChunkView)>, query: Seq<char>) -> Seq<ResultView> {
    match mode {
        RetrievalMode::VectorOnly => seq![],
        RetrievalMode::KeywordOnly => keyword_hits(chunks, query, chunks.len() as int),
        RetrievalMode::Hybrid => {
            let hits = keyword_hits(chunks, query, chunks.len() as int);
            deduped(hits, hits.len() as int)
        },
    }
}

/// The results among the first `k` that are at least `min` similar.
pub open spec fn similar_enough(rs: Seq<ResultView>, min: u32, k: int) -> Seq<ResultView>
    decreases k,
{
    if k <= 0 {
        seq![]
    } else if rs[k - 1].score_milli >= min {
        similar_enough(rs, min, k - 1).push(rs[k - 1])
    } else {
        similar_enough(rs, min, k - 1)
    }
}

/// The first `n` of `s` (all of it when it is shorter).
pub open spec fn first_n<A>(s: Seq<A>, n: nat) -> Seq<A> {
    if s.len() > n { s.subrange(0, n as int) } else { s }
}

pub open spec fn inc(x: u64) -> u64 {
    if x == u64::MAX { x } else { (x + 1) as u64 }
}

pub open spec fn add_sat(x: u64, y: u64) -> u64 {
    if x + y > u64::MAX { u64::MAX } else { (x + y) as u64 }
}

/// The abstract state of the engine.
pub struct RagView {
    pub documents: Seq<(Seq<char>, DocumentView)>,
    pub chunks: Seq<(Seq<char>, ChunkView)>,
    pub cache: Seq<(Seq<char>, Seq<ResultView>)>,
    pub stats: RagStats,
}

/// A query of `byte_len` bytes: answered from the cache when a query of that length was
/// answered before (counted as a hit), else searched, kept to the similar enough, at most
/// `top_k` of them, cached, and counted as a query and a miss.
pub open spec fn retrieval(c: RagConfig, v: RagView, query: Seq<char>, byte_len: nat) -> (Seq<ResultView>, RagView) {
    let key = cache_key(byte_len);
    match find(v.cache, key) {
        Some(rs) => (rs, RagView { stats: RagStats { cache_hits: inc(v.stats.cache_hits), ..v.stats }, ..v }),
        None => {
            let all = found(c.retrieval_mode, v.chunks, query);
            let rs = first_n(similar_enough(all, c.min_similarity_milli, all.len() as int), c.top_k as nat);
            (
                rs,
                RagView {
                    cache: upsert(v.cache, key, rs),
                    stats: RagStats { total_queries: inc(v.stats.total_queries), cache_misses: inc(v.stats.cache_misses), ..v.stats },
                    ..v
                },
            )
        },
    }
}

/// The chunks among the first `k` not of document `id`.
pub open spec fn chunks_not_of(chunks: Seq<(Seq<char>, ChunkView)>, id: Seq<char>, k: int) -> Seq<(Seq<char>, ChunkView)>
    decreases k,
{
    if k <= 0 {
        seq![]
    } else if chunks[k - 1].1.document_id == id {
        chunks_not_of(chunks, id, k - 1)
    } else {
        chunks_not_of(chunks, id, k - 1).push(chunks[k - 1])
    }
}

/// The text of a similarity in thousandths as a percentage with two decimals.
pub open spec fn percent_text(score_milli: u32) -> Seq<char> {
    decimal((score_milli / 10) as nat) + "."@ + decimal((score_milli % 10) as nat) + "0"@
}

/// The text of the results from the `k`-th on (counting from zero), numbered from `k + 1`.
pub open spec fn sources_text(rs: Seq<ResultView>, k: int) -> Seq<char>
    decreases rs.len() - k,
{
    if k < 0 || k >= rs.len() {
        seq![]
    } else {
        "### 来源 "@ + decimal((k + 1) as nat) + " (相似度: "@ + percent_text(rs[k].score_milli) + "%)\n"@ + rs[k].chunk.content
            + "\n\n"@ + sources_text(rs, k + 1)
    }
}

/// The prompt with what was found: the system prompt alone when nothing was.
pub open spec fn augmented(system_prompt: Seq<char>, rs: Seq<ResultView>) -> Seq<char> {
    if rs.len() == 0 {
        system_prompt
    } else {
        system_prompt + "\n\n## 参考上下文\n\n"@ + sources_text(rs, 0) + "请基于以上上下文回答问题，如果上下文不相关，请说明并给出你的最佳回答。"@
    }
}

fn copy_chunk(c: &DocumentChunk) -> (r: DocumentChunk)
    ensures
        chunk_view(r) == chunk_view(*c),
{
    DocumentChunk {
        chunk_id: c.chunk_id.clone(),
        document_id: c.document_id.clone(),
        content: c.content.clone(),
        chunk_index: c.chunk_index,
        metadata: copy_pairs(&c.metadata),
        embedding: match &c.embedding {
            Some(e) => Some(e.clone()),
            None => None,
        },
        created_at: c.created_at,
    }
}

fn copy_result(r: &RetrievalResult) -> (c: RetrievalResult)
    ensures
        result_view(c) == result_view(*r),
{
    RetrievalResult { chunk: copy_chunk(&r.chunk), score_milli: r.score_milli, retrieval_method: r.retrieval_method.clone() }
}

fn copy_results(v: &Vec<RetrievalResult>) -> (r: Vec<RetrievalResult>)
    ensures
        results_view(r@) == results_view(v@),
{
    let n = v.len();
    let mut out: Vec<RetrievalResult> = Vec::new();
    let mut i: usize = 0;
    while i < n
        invariant
            i <= n,
            n == v@.len(),
            out@.len() == i,
            forall|k: int| 0 <= k < i ==> result_view(#[trigger] out@[k]) == result_view(v@[k]),
        decreases n - i,
    {
        out.push(copy_result(&v[i]));
        i = i + 1;
    }
    assert(results_view(out@) =~= results_view(v@));
    out
}

fn push_u64(out: &mut Vec<char>, n: u64)
    ensures
        final(out)@ == old(out)@ + decimal(n as nat),
{
    push_decimal(out, n);
}

/// Documents, their chunks, a cache of answers and counts.
pub struct RagEngine {
    config: RagConfig,
    documents: Vec<(String, Document)>,
    chunks: Vec<(String, DocumentChunk)>,
    query_cache: Vec<(String, Vec<RetrievalResult>)>,
    stats: RagStats,
}

pub open spec fn documents_view(v: Seq<(String, Document)>) -> Seq<(Seq<char>, DocumentView)> {
    Seq::new(v.len(), |i: int| (v[i].0@, document_view(v[i].1)))
}

pub open spec fn chunk_store_view(v: Seq<(String, DocumentChunk)>) -> Seq<(Seq<char>, ChunkView)> {
    Seq::new(v.len(), |i: int| (v[i].0@, chunk_view(v[i].1)))
}

pub open spec fn cache_view(v: Seq<(String, Vec<RetrievalResult>)>) -> Seq<(Seq<char>, Seq<ResultView>)> {
    Seq::new(v.len(), |i: int| (v[i].0@, results_view(v[i].1@)))
}

impl View for RagEngine {
    type V = RagView;

    closed spec fn view(&self) -> RagView {
        RagView {
            documents: documents_view(self.documents@),
            chunks: chunk_store_view(self.chunks@),
            cache: cache_view(self.query_cache@),
            stats: self.stats,
        }
    }
}

fn chunk_of(document: &Document, index: usize, content: &Vec<char>, now: i64) -> (r: DocumentChunk)
    ensures
        chunk_view(r) == (ChunkView {
            chunk_id: chunk_id_of(document.document_id@, index as nat),
            document_id: document.document_id@,
            content: content@,
            chunk_index: index,
            metadata: pairs_view(document.metadata@),
            embedding: None,
            created_at: now,
        }),
{
    let mut id: Vec<char> = Vec::new();
    push_str(&mut id, document.document_id.as_str());
    push_str(&mut id, "_");
    push_u64(&mut id, index as u64);
    DocumentChunk {
        chunk_id: string_of(&id),
        document_id: document.document_id.clone(),
        content: string_of(content),
        chunk_index: index,
        metadata: copy_pairs(&document.metadata),
        embedding: None,
        created_at: now,
    }
}

/// The chunks of `document` under `config`, created at `now` (see `document_chunks`).
pub fn chunk_document(config: &RagConfig, document: &Document, now: i64) -> (r: Vec<DocumentChunk>)
    requires
        config.chunking_strategy == ChunkingStrategy::FixedSize ==> config.chunk_overlap < config.chunk_size,
    ensures
        chunks_view(r@) == document_chunks(*config, document.document_id@, document_view(*document), now),
{
    let ghost target = document_chunks(*config, document.document_id@, document_view(*document), now);
    let cs = chars_of(document.content.as_str());
    let mut out: Vec<DocumentChunk> = Vec::new();
    match config.chunking_strategy {
        ChunkingStrategy::FixedSize => {
            let pieces = fixed_chunks(&cs, config.chunk_size, config.chunk_overlap);
            let n = pieces.len();
            let mut k: usize = 0;
            while k < n
                invariant
                    k <= n,
                    n == pieces@.len(),
                    config.chunking_strategy == ChunkingStrategy::FixedSize,
                    target == document_chunks(*config, document.document_id@, document_view(*document), now),
                    n == target.len(),
                    forall|j: int| 0 <= j < n ==> (#[trigger] pieces@[j])@ == target[j].content,
                    forall|j: int| 0 <= j < n ==> (#[trigger] target[j]).chunk_index == j && target[j].chunk_id == chunk_id_of(document.document_id@, j as nat),
                    out@.len() == k,
                    forall|j: int| 0 <= j < k ==> chunk_view(#[trigger] out@[j]) == target[j],
                decreases n - k,
            {
                out.push(chunk_of(document, k, &pieces[k], now));
                k = k + 1;
            }
        },
        ChunkingStrategy::Semantic => {
            let paras = split_paragraphs(&cs);
            let ghost ps = split_on(cs@, "\n\n"@);
            let ghost md = pairs_view(document.metadata@);
            let n = paras.len();
            let mut i: usize = 0;
            while i < n
                invariant
                    i <= n,
                    n == paras@.len(),
                    ps == split_on(document.content@, "\n\n"@),
                    md == pairs_view(document.metadata@),
                    n == ps.len(),
                    forall|j: int| 0 <= j < n ==> (#[trigger] paras@[j])@ == ps[j],
                    chunks_view(out@) == chunks_from(document.document_id@, md, now, paragraphs(ps, i as int)),
                decreases n - i,
            {
                let t = vec_trim(&paras[i]);
                let ghost pi = paragraphs(ps, i as int);
                if t.len() > 0 {
                    let ghost before = out@;
                    out.push(chunk_of(document, i, &paras[i], now));
                    assert(paragraphs(ps, i + 1) == pi.push((i as int, ps[i as int])));
                    let ghost x = (i as int, ps[i as int]);
                    assert forall|k: int| 0 <= k < pi.len() implies #[trigger] chunks_from(document.document_id@, md, now, pi.push(x))[k]
                        == chunks_from(document.document_id@, md, now, pi)[k] by {
                        assert(pi.push(x)[k] == pi[k]);
                    }
                    assert(chunks_view(before) == chunks_from(document.document_id@, md, now, pi));
                    assert(chunks_view(before).len() == before.len());
                    assert(before.len() == pi.len());
                    assert(out@ == before.push(out@.last()));
                    assert forall|k: int| 0 <= k < pi.len() implies #[trigger] chunks_view(out@)[k] == chunks_view(before)[k] by {
                        assert(out@[k] == before[k]);
                    }
                    assert(chunks_view(out@) =~= chunks_from(document.document_id@, md, now, pi.push(x)));
                } else {
                    assert(paragraphs(ps, i + 1) == pi);
                }
                i = i + 1;
            }
        },
        _ => {},
    }
    assert(chunks_view(out@) =~= target);
    out
}

impl RagEngine {
    /// The settings.
    pub closed spec fn config(&self) -> RagConfig {
        self.config
    }

    /// An engine with nothing indexed.
    pub fn new(config: RagConfig) -> (r: Self)
        ensures
            r.config() == config,
            r@.documents.len() == 0 && r@.chunks.len() == 0 && r@.cache.len() == 0,
            r@.stats == (RagStats { total_documents: 0, total_chunks: 0, total_queries: 0, total_query_time_ms: 0, cache_hits: 0, cache_misses: 0 }),
    {
        let r = RagEngine { config, documents: Vec::new(), chunks: Vec::new(), query_cache: Vec::new(), stats: RagStats::default() };
        assert(r@.documents =~= seq![]);
        assert(r@.chunks =~= seq![]);
        assert(r@.cache =~= seq![]);
        r
    }

    fn store_chunk(&mut self, chunk: DocumentChunk)
        ensures
            final(self)@ == (RagView { chunks: upsert(old(self)@.chunks, chunk_view(chunk).chunk_id, chunk_view(chunk)), ..old(self)@ }),
            final(self).config == old(self).config,
    {
        let ghost cv = chunk_store_view(self.chunks@);
        let ghost entry = (chunk.chunk_id@, chunk_view(chunk));
        let pos = position_of(&self.chunks, chunk.chunk_id.as_str());
        proof {
            lemma_same_keys(string_keyed(self.chunks@), cv, chunk.chunk_id@);
        }
        let key = chunk.chunk_id.clone();
        match pos {
            Some(i) => {
                self.chunks.set(i, (key, chunk));
                assert(chunk_store_view(self.chunks@) =~= cv.update(i as int, entry));
            },
            None => {
                self.chunks.push((key, chunk));
                assert(chunk_store_view(self.chunks@) =~= cv.push(entry));
            },
        }
    }

    /// Indexes a document at `now`: its chunks (see `document_chunks`) are stored with their
    /// embeddings under their ids, the document under its id, and both are counted; the chunks'
    /// ids are returned.
    pub fn index_document(&mut self, document: Document, now: i64) -> (r: Result<Vec<String>, String>)
        requires
            old(self).config().chunking_strategy == ChunkingStrategy::FixedSize ==> old(self).config().chunk_overlap
                < old(self).config().chunk_size,
        ensures
            ({
                let cs = document_chunks(old(self).config(), document.document_id@, document_view(document), now);
                &&& r matches Ok(ids) && strings_view(ids@) == Seq::new(cs.len(), |k: int| cs[k].chunk_id)
                &&& final(self).config() == old(self).config()
                &&& final(self)@ == (RagView {
                    chunks: stored(old(self)@.chunks, cs, cs.len() as int),
                    documents: upsert(old(self)@.documents, document.document_id@, document_view(document)),
                    stats: RagStats {
                        total_documents: inc(old(self)@.stats.total_documents),
                        total_chunks: add_sat(old(self)@.stats.total_chunks, cs.len() as u64),
                        ..old(self)@.stats
                    },
                    ..old(self)@
                })
            }),
    {
        let ghost cs = document_chunks(self.config, document.document_id@, document_view(document), now);
        let chunks = chunk_document(&self.config, &document, now);
        let n = chunks.len();
        let mut ids: Vec<String> = Vec::new();
        let mut i: usize = 0;
        while i < n
            invariant
                i <= n,
                n == chunks@.len(),
                chunks_view(chunks@) == cs,
                self.config == old(self).config,
                self@ == (RagView { chunks: stored(old(self)@.chunks, cs, i as int), ..old(self)@ }),
                ids@.len() == i,
                forall|k: int| 0 <= k < i ==> (#[trigger] ids@[k])@ == cs[k].chunk_id,
            decreases n - i,
        {
            let mut c = copy_chunk(&chunks[i]);
            assert(chunk_view(c) == cs[i as int]);
            let e = generate_embedding(c.content.as_str());
            c.embedding = Some(e);
            assert(chunk_view(c) == embedded(cs[i as int]));
            ids.push(c.chunk_id.clone());
            self.store_chunk(c);
            i = i + 1;
        }
        let ghost dv = documents_view(self.documents@);
        let ghost entry = (document.document_id@, document_view(document));
        let pos = position_of(&self.documents, document.document_id.as_str());
        proof {
            lemma_same_keys(string_keyed(self.documents@), dv, document.document_id@);
        }
        let key = document.document_id.clone();
        match pos {
            Some(j) => {
                self.documents.set(j, (key, document));
                assert(documents_view(self.documents@) =~= dv.update(j as int, entry));
            },
            None => {
                self.documents.push((key, document));
                assert(documents_view(self.documents@) =~= dv.push(entry));
            },
        }
        if self.stats.total_documents < u64::MAX {
            self.stats.total_documents = self.stats.total_documents + 1;
        }
        let added = n as u64;
        if self.stats.total_chunks > u64::MAX - added {
            self.stats.total_chunks = u64::MAX;
        } else {
            self.stats.total_chunks = self.stats.total_chunks + added;
        }
        assert(strings_view(ids@) =~= Seq::new(cs.len(), |k: int| cs[k].chunk_id));
        Ok(ids)
    }

    fn keyword_search(&self, query: &str) -> (r: Vec<RetrievalResult>)
        ensures
            results_view(r@) == keyword_hits(self@.chunks, query@, self@.chunks.len() as int),
    {
        let ghost cv = self@.chunks;
        let q = to_lower(query);
        let n = self.chunks.len();
        let mut out: Vec<RetrievalResult> = Vec::new();
        let mut i: usize = 0;
        while i < n
            invariant
                i <= n,
                n == self.chunks@.len(),
                cv == self@.chunks,
                q@ == lowercase(query@),
                results_view(out@) == keyword_hits(cv, query@, i as int),
            decreases n - i,
        {
            let content = to_lower(self.chunks[i].1.content.as_str());
            if str_contains(content.as_str(), q.as_str()) {
                let ghost before = out@;
                let r = RetrievalResult { chunk: copy_chunk(&self.chunks[i].1), score_milli: 800, retrieval_method: owned("keyword") };
                out.push(r);
                assert(results_view(out@) =~= results_view(before).push(
                    ResultView { chunk: cv[i as int].1, score_milli: 800, retrieval_method: "keyword"@ },
                ));
            }
            i = i + 1;
        }
        out
    }

    /// Answers a query (see `retrieval`).
    pub fn retrieve(&mut self, query: &str) -> (r: Result<Vec<RetrievalResult>, String>)
        ensures
            final(self).config() == old(self).config(),
            r matches Ok(v) && (results_view(v@), final(self)@) == retrieval(old(self).config(), old(self)@, query@, query.len() as nat),
    {
        let mut k: Vec<char> = Vec::new();
        push_str(&mut k, "query_");
        push_u64(&mut k, query.len() as u64);
        let key = string_of(&k);
        let ghost cachev = cache_view(self.query_cache@);
        let pos = position_of(&self.query_cache, key.as_str());
        proof {
            lemma_same_keys(string_keyed(self.query_cache@), cachev, key@);
        }
        if let Some(i) = pos {
            if self.stats.cache_hits < u64::MAX {
                self.stats.cache_hits = self.stats.cache_hits + 1;
            }
            return Ok(copy_results(&self.query_cache[i].1));
        }
        let _embedding = generate_embedding(query);
        let results = match self.config.retrieval_mode {
            RetrievalMode::VectorOnly => Vec::new(),
            RetrievalMode::KeywordOnly => self.keyword_search(query),
            RetrievalMode::Hybrid => {
                let hits = self.keyword_search(query);
                dedup_by_chunk(&hits)
            },
        };
        let ghost all = found(self.config.retrieval_mode, self@.chunks, query@);
        assert(results_view(results@) == all);
        let n = results.len();
        let mut kept: Vec<RetrievalResult> = Vec::new();
        let mut i: usize = 0;
        while i < n
            invariant
                i <= n,
                n == results@.len(),
                results_view(results@) == all,
                results_view(kept@) == first_n(similar_enough(all, self.config.min_similarity_milli, i as int), self.config.top_k as nat),
            decreases n - i,
        {
            let ghost before = kept@;
            let ghost se = similar_enough(all, self.config.min_similarity_milli, i as int);
            if results[i].score_milli >= self.config.min_similarity_milli && kept.len() < self.config.top_k {
                kept.push(copy_result(&results[i]));
                assert(results_view(kept@) =~= results_view(before).push(all[i as int]));
            }
            proof {
                if all[i as int].score_milli >= self.config.min_similarity_milli {
                    assert(similar_enough(all, self.config.min_similarity_milli, i + 1) == se.push(all[i as int]));
                    assert(first_n(se.push(all[i as int]), self.config.top_k as nat) =~= if se.len() < self.config.top_k {
                        first_n(se, self.config.top_k as nat).push(all[i as int])
                    } else {
                        first_n(se, self.config.top_k as nat)
                    });
                }
            }
            i = i + 1;
        }
        let copy = copy_results(&kept);
        let ghost rs = results_view(kept@);
        let ghost entry = (key@, rs);
        match pos {
            Some(_) => {},
            None => {
                self.query_cache.push((key, kept));
                assert(cache_view(self.query_cache@) =~= cachev.push(entry));
            },
        }
        if self.stats.total_queries < u64::MAX {
            self.stats.total_queries = self.stats.total_queries + 1;
        }
        if self.stats.cache_misses < u64::MAX {
            self.stats.cache_misses = self.stats.cache_misses + 1;
        }
        Ok(copy)
    }
}

fn dedup_by_chunk(rs: &Vec<RetrievalResult>) -> (r: Vec<RetrievalResult>)
    ensures
        results_view(r@) == deduped(results_view(rs@), rs@.len() as int),
{
    let ghost rv = results_view(rs@);
    let n = rs.len();
    let mut out: Vec<RetrievalResult> = Vec::new();
    let mut i: usize = 0;
    while i < n
        invariant
            i <= n,
            n == rs@.len(),
            rv == results_view(rs@),
            results_view(out@) == deduped(rv, i as int),
        decreases n - i,
    {
        let ghost before = out@;
        let keep = if out.len() > 0 {
            let last = out.len() - 1;
            !crate::text::str_eq(out[last].chunk.chunk_id.as_str(), rs[i].chunk.chunk_id.as_str())
        } else {
            true
        };
        if keep {
            out.push(copy_result(&rs[i]));
            assert(results_view(out@) =~= results_view(before).push(rv[i as int]));
        }
        i = i + 1;
    }
    out
}

impl RagEngine {
    /// The prompt for `query`: `system_prompt` followed by the chunks found, each numbered with
    /// its similarity (see `augmented`).
    pub fn build_augmented_context(&mut self, query: &str, system_prompt: &str) -> (r: Result<String, String>)
        ensures
            final(self).config() == old(self).config(),
            final(self)@ == retrieval(old(self).config(), old(self)@, query@, query.len() as nat).1,
            r matches Ok(s) && s@ == augmented(system_prompt@, retrieval(old(self).config(), old(self)@, query@, query.len() as nat).0),
    {
        let results = self.retrieve(query)?;
        let ghost rs = results_view(results@);
        if results.len() == 0 {
            return Ok(owned(system_prompt));
        }
        let mut out: Vec<char> = Vec::new();
        push_str(&mut out, system_prompt);
        push_str(&mut out, "\n\n## 参考上下文\n\n");
        let ghost head = out@;
        let n = results.len();
        let mut i: usize = 0;
        while i < n
            invariant
                i <= n,
                n == results@.len(),
                rs == results_view(results@),
                out@ + sources_text(rs, i as int) == head + sources_text(rs, 0),
            decreases n - i,
        {
            let ghost before = out@;
            push_str(&mut out, "### 来源 ");
            push_u64(&mut out, (i + 1) as u64);
            push_str(&mut out, " (相似度: ");
            let score = results[i].score_milli;
            push_u64(&mut out, (score / 10) as u64);
            push_str(&mut out, ".");
            push_u64(&mut out, (score % 10) as u64);
            push_str(&mut out, "0");
            push_str(&mut out, "%)\n");
            push_str(&mut out, results[i].chunk.content.as_str());
            push_str(&mut out, "\n\n");
            assert(out@ =~= before + ("### 来源 "@ + decimal((i + 1) as nat) + " (相似度: "@ + percent_text(rs[i as int].score_milli)
                + "%)\n"@ + rs[i as int].chunk.content + "\n\n"@));
            assert(out@ + sources_text(rs, i + 1) =~= before + sources_text(rs, i as int));
            i = i + 1;
        }
        assert(sources_text(rs, n as int) == Seq::<char>::empty());
        assert(out@ =~= head + sources_text(rs, 0));
        push_str(&mut out, "请基于以上上下文回答问题，如果上下文不相关，请说明并给出你的最佳回答。");
        Ok(string_of(&out))
    }

    /// Forgets document `document_id` and its chunks, and empties the cache.
    pub fn delete_document(&mut self, document_id: &str) -> (r: Result<(), String>)
        ensures
            r is Ok,
            final(self).config() == old(self).config(),
            final(self)@ == (RagView {
                documents: crate::assoc::remove_key(old(self)@.documents, document_id@),
                chunks: chunks_not_of(old(self)@.chunks, document_id@, old(self)@.chunks.len() as int),
                cache: seq![],
                ..old(self)@
            }),
    {
        let ghost dv = documents_view(self.documents@);
        let pos = position_of(&self.documents, document_id);
        proof {
            lemma_same_keys(string_keyed(self.documents@), dv, document_id@);
        }
        if let Some(i) = pos {
            self.documents.remove(i);
            assert(documents_view(self.documents@) =~= dv.remove(i as int));
        }
        let ghost cv = chunk_store_view(self.chunks@);
        let n = self.chunks.len();
        let mut kept: Vec<(String, DocumentChunk)> = Vec::new();
        let mut i: usize = 0;
        while i < n
            invariant
                i <= n,
                n == self.chunks@.len(),
                cv == chunk_store_view(self.chunks@),
                chunk_store_view(kept@) == chunks_not_of(cv, document_id@, i as int),
            decreases n - i,
        {
            if !crate::text::str_eq(self.chunks[i].1.document_id.as_str(), document_id) {
                let ghost before = kept@;
                kept.push((self.chunks[i].0.clone(), copy_chunk(&self.chunks[i].1)));
                assert(chunk_store_view(kept@) =~= chunk_store_view(before).push(cv[i as int]));
            }
            i = i + 1;
        }
        self.chunks = kept;
        self.query_cache = Vec::new();
        assert(cache_view(self.query_cache@) =~= seq![]);
        Ok(())
    }

    /// The counts.
    pub fn get_stats(&self) -> (r: RagStats)
        ensures
            r == self@.stats,
    {
        self.stats
    }

    /// Adds the time a query took, in milliseconds.
    pub fn record_query_time(&mut self, elapsed_ms: u64)
        ensures
            final(self).config() == old(self).config(),
            final(self)@ == (RagView {
                stats: RagStats { total_query_time_ms: add_sat(old(self)@.stats.total_query_time_ms, elapsed_ms), ..old(self)@.stats },
                ..old(self)@
            }),
    {
        if self.stats.total_query_time_ms > u64::MAX - elapsed_ms {
            self.stats.total_query_time_ms = u64::MAX;
        } else {
            self.stats.total_query_time_ms = self.stats.total_query_time_ms + elapsed_ms;
        }
    }
}

/// A query is answered from the cache when one of the same length in bytes was answered
/// before: the same results come back.
pub proof fn law_cached_by_length(c: RagConfig, v: RagView, q1: Seq<char>, q2: Seq<char>, len: nat)
    ensures
        retrieval(c, retrieval(c, v, q1, len).1, q2, len).0 == retrieval(c, v, q1, len).0,
{
    let key = cache_key(len);
    match find(v.cache, key) {
        Some(rs) => {},
        None => {
            let all = found(c.retrieval_mode, v.chunks, q1);
            let rs = first_n(similar_enough(all, c.min_similarity_milli, all.len() as int), c.top_k as nat);
            lemma_upsert(v.cache, key, rs);
        },
    }
}

proof fn lemma_similar_enough(rs: Seq<ResultView>, min: u32, k: int)
    requires
        k <= rs.len(),
    ensures
        forall|i: int| 0 <= i < similar_enough(rs, min, k).len() ==> (#[trigger] similar_enough(rs, min, k)[i]).score_milli >= min,
    decreases k,
{
    if k > 0 {
        lemma_similar_enough(rs, min, k - 1);
        let prev = similar_enough(rs, min, k - 1);
        if rs[k - 1].score_milli >= min {
            assert forall|i: int| 0 <= i < prev.push(rs[k - 1]).len() implies (#[trigger] prev.push(rs[k - 1])[i]).score_milli >= min by {
                if i < prev.len() {
                    assert(prev.push(rs[k - 1])[i] == prev[i]);
                }
            }
        }
    }
}

/// A searched query gives at most `top_k` results, each at least as similar as the minimum.
pub proof fn law_results_bounded(c: RagConfig, v: RagView, query: Seq<char>, len: nat)
    requires
        find(v.cache, cache_key(len)) is None,
    ensures
        retrieval(c, v, query, len).0.len() <= c.top_k,
        forall|i: int|
            0 <= i < retrieval(c, v, query, len).0.len() ==> (#[trigger] retrieval(c, v, query, len).0[i]).score_milli
                >= c.min_similarity_milli,
{
    let all = found(c.retrieval_mode, v.chunks, query);
    let se = similar_enough(all, c.min_similarity_milli, all.len() as int);
    lemma_similar_enough(all, c.min_similarity_milli, all.len() as int);
    let rs = first_n(se, c.top_k as nat);
    assert forall|i: int| 0 <= i < rs.len() implies (#[trigger] rs[i]).score_milli >= c.min_similarity_milli by {
        assert(rs[i] == se[i]);
    }
}

} // verus!
