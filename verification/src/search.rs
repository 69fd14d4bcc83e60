//! Retrieval: the request, the rows that the vector store hands back, and
//! the ranked results made of them.

use vstd::prelude::*;

verus! {

/// What a caller asks of the retriever.
#[derive(Debug, PartialEq, Eq)]
pub struct SearchRequest {
    pub query: String,
    pub top_k: i64,
}

/// One row of the store's answer to a nearest-neighbour query, in the order
/// in which the store ranked it. `distance_bits` is absent where the chunk
/// has no embedding yet.
#[derive(Debug, PartialEq, Eq)]
pub struct StoredRow {
    pub patent_id: String,
    pub chunk_id: String,
    pub text: String,
    pub distance_bits: Option<u64>,
}

/// One retrieved passage. `distance_bits` holds the bit pattern of the
/// distance, a non-negative double: among such numbers a smaller pattern is
/// a smaller distance.
#[derive(Debug, PartialEq, Eq)]
pub struct SearchResult {
    pub patent_id: String,
    pub chunk_id: String,
    pub snippet: String,
    pub distance_bits: u64,
}

/// The mathematical content of a `StoredRow`.
pub struct RowModel {
    pub patent_id: Seq<char>,
    pub chunk_id: Seq<char>,
    pub text: Seq<char>,
    pub distance_bits: Option<u64>,
}

/// The mathematical content of a `SearchResult`.
pub struct HitModel {
    pub patent_id: Seq<char>,
    pub chunk_id: Seq<char>,
    pub snippet: Seq<char>,
    pub distance_bits: u64,
}

impl View for StoredRow {
    type V = RowModel;

    open spec fn view(&self) -> RowModel {
        RowModel {
            patent_id: self.patent_id@,
            chunk_id: self.chunk_id@,
            text: self.text@,
            distance_bits: self.distance_bits,
        }
    }
}

impl View for SearchResult {
    type V = HitModel;

    open spec fn view(&self) -> HitModel {
        HitModel {
            patent_id: self.patent_id@,
            chunk_id: self.chunk_id@,
            snippet: self.snippet@,
            distance_bits: self.distance_bits,
        }
    }
}

/// The contents of a vector of rows.
pub open spec fn row_models(rows: Seq<StoredRow>) -> Seq<RowModel> {
    rows.map_values(|r: StoredRow| r@)
}

/// The contents of a vector of results.
pub open spec fn hit_models(hits: Seq<SearchResult>) -> Seq<HitModel> {
    hits.map_values(|h: SearchResult| h@)
}

/// The result that a row with distance `d` becomes.
pub open spec fn hit_of(row: RowModel, d: u64) -> HitModel {
    HitModel { patent_id: row.patent_id, chunk_id: row.chunk_id, snippet: row.text, distance_bits: d }
}

/// The rows that have a distance, as results, in the order of the rows.
pub open spec fn embedded_hits(rows: Seq<RowModel>) -> Seq<HitModel>
    decreases rows.len(),
{
    if rows.len() == 0 {
        Seq::empty()
    } else {
        let init = embedded_hits(rows.drop_last());
        match rows.last().distance_bits {
            Some(d) => init.push(hit_of(rows.last(), d)),
            None => init,
        }
    }
}

/// The number of results asked for, raised to one where it is below one.
pub open spec fn clamped(top_k: i64) -> i64 {
    if top_k >= 1 {
        top_k
    } else {
        1
    }
}

/// The results of a search: the first `clamped(top_k)` rows that have a
/// distance, or all of them where there are fewer.
pub open spec fn search_hits(rows: Seq<RowModel>, top_k: i64) -> Seq<HitModel> {
    let all = embedded_hits(rows);
    if all.len() <= clamped(top_k) {
        all
    } else {
        all.take(clamped(top_k) as int)
    }
}

/// Results in ascending order of distance.
pub open spec fn ascending(hits: Seq<HitModel>) -> bool {
    forall|i: int, j: int|
        #![trigger hits[i], hits[j]]
        0 <= i <= j < hits.len() ==> hits[i].distance_bits <= hits[j].distance_bits
}

/// Rows in ascending order of distance, as far as they have one.
pub open spec fn rows_ascending(rows: Seq<RowModel>) -> bool {
    forall|i: int, j: int|
        #![trigger rows[i], rows[j]]
        0 <= i <= j < rows.len() && rows[i].distance_bits is Some && rows[j].distance_bits is Some
            ==> rows[i].distance_bits->0 <= rows[j].distance_bits->0
}

/// The number of results returned where the caller names none.
pub fn default_top_k() -> (k: i64)
    ensures
        k == 5,
{
    5
}

/// Raises a result count below one to one.
pub fn clamp_top_k(top_k: i64) -> (k: i64)
    ensures
        k == clamped(top_k),
        k >= 1,
{
    if top_k >= 1 {
        top_k
    } else {
        1
    }
}

/// Each result stands for a row that has a distance, and for an earlier row
/// than the results after it.
pub proof fn lemma_hits_come_from_rows(rows: Seq<RowModel>, k: int) -> (j: int)
    requires
        0 <= k < embedded_hits(rows).len(),
    ensures
        0 <= j < rows.len(),
        k <= j,
        rows[j].distance_bits is Some,
        embedded_hits(rows)[k] == hit_of(rows[j], rows[j].distance_bits->0),
        embedded_hits(rows.take(j)).len() == k,
    decreases rows.len(),
{
    let init = rows.drop_last();
    if rows.last().distance_bits is Some && k == embedded_hits(init).len() {
        assert(rows.take(rows.len() - 1) == init);
        lemma_hits_len(init);
        rows.len() - 1
    } else {
        let j = lemma_hits_come_from_rows(init, k);
        assert(init.take(j) == rows.take(j));
        j
    }
}

/// A row without a distance adds nothing, and a row with one adds exactly
/// one result: no more results than rows, and at least one result where a
/// row has a distance.
pub proof fn lemma_hits_len(rows: Seq<RowModel>)
    ensures
        embedded_hits(rows).len() <= rows.len(),
        (exists|j: int| 0 <= j < rows.len() && (#[trigger] rows[j]).distance_bits is Some)
            ==> embedded_hits(rows).len() >= 1,
    decreases rows.len(),
{
    if rows.len() > 0 {
        let init = rows.drop_last();
        lemma_hits_len(init);
        if rows.last().distance_bits is None {
            if exists|j: int| 0 <= j < rows.len() && (#[trigger] rows[j]).distance_bits is Some {
                let j = choose|j: int|
                    0 <= j < rows.len() && (#[trigger] rows[j]).distance_bits is Some;
                assert(init[j] == rows[j]);
            }
        }
    }
}

/// The results of the first `n` rows are the first results of all rows.
pub proof fn lemma_hits_prefix(rows: Seq<RowModel>, n: int)
    requires
        0 <= n <= rows.len(),
    ensures
        embedded_hits(rows.take(n)).len() <= embedded_hits(rows).len(),
        embedded_hits(rows.take(n)) == embedded_hits(rows).take(
            embedded_hits(rows.take(n)).len() as int,
        ),
    decreases rows.len(),
{
    if n == rows.len() {
        assert(rows.take(n) == rows);
        assert(embedded_hits(rows).take(embedded_hits(rows).len() as int) == embedded_hits(rows));
    } else {
        let init = rows.drop_last();
        lemma_hits_prefix(init, n);
        assert(init.take(n) == rows.take(n));
        let part = embedded_hits(rows.take(n));
        assert(embedded_hits(init).take(part.len() as int) == embedded_hits(rows).take(
            part.len() as int,
        ));
    }
}

/// Rows ranked by the store give ranked results.
pub proof fn lemma_hits_ascending(rows: Seq<RowModel>)
    requires
        rows_ascending(rows),
    ensures
        ascending(embedded_hits(rows)),
{
    let hits = embedded_hits(rows);
    assert forall|a: int, b: int| 0 <= a <= b < hits.len() implies (#[trigger] hits[a]).distance_bits
        <= (#[trigger] hits[b]).distance_bits by {
        let ja = lemma_hits_come_from_rows(rows, a);
        let jb = lemma_hits_come_from_rows(rows, b);
        if ja > jb {
            lemma_hits_prefix(rows.take(ja), jb);
            assert(rows.take(ja).take(jb) == rows.take(jb));
        }
        assert(rows[ja].distance_bits is Some && rows[jb].distance_bits is Some);
    }
}

/// Whatever the rows and the count asked for, the results hold no row
/// without a distance: each result is a row that has one.
pub proof fn lemma_search_excludes_unembedded(rows: Seq<RowModel>, top_k: i64, k: int) -> (j: int)
    requires
        0 <= k < search_hits(rows, top_k).len(),
    ensures
        0 <= j < rows.len(),
        rows[j].distance_bits is Some,
        search_hits(rows, top_k)[k] == hit_of(rows[j], rows[j].distance_bits->0),
{
    lemma_hits_come_from_rows(rows, k)
}

/// A search returns at least one result where a row has a distance, however
/// small the count asked for, and never more than the clamped count.
pub proof fn lemma_search_len(rows: Seq<RowModel>, top_k: i64)
    ensures
        search_hits(rows, top_k).len() <= clamped(top_k),
        search_hits(rows, top_k).len() <= rows.len(),
        (exists|j: int| 0 <= j < rows.len() && (#[trigger] rows[j]).distance_bits is Some)
            ==> search_hits(rows, top_k).len() >= 1,
{
    lemma_hits_len(rows);
}

/// Two searches over the same rows with the same count give the same
/// results in the same order, and ranked rows give ranked results.
pub proof fn lemma_search_deterministic(
    rows_a: Seq<RowModel>,
    top_k_a: i64,
    rows_b: Seq<RowModel>,
    top_k_b: i64,
)
    requires
        rows_a == rows_b,
        top_k_a == top_k_b,
    ensures
        search_hits(rows_a, top_k_a) == search_hits(rows_b, top_k_b),
        rows_ascending(rows_a) ==> ascending(search_hits(rows_a, top_k_a)),
{
    if rows_ascending(rows_a) {
        lemma_hits_ascending(rows_a);
    }
}

/// The nearest-neighbour query put to the store: the query's embedding and
/// the number of rows wanted.
#[derive(Debug, PartialEq, Eq)]
pub struct NearestQuery {
    pub vector: Vec<u32>,
    pub limit: i64,
}

/// The store query for an embedded search request: the limit is the count
/// asked for, raised to one where it is below one.
pub fn nearest_query(vector: Vec<u32>, top_k: i64) -> (q: NearestQuery)
    ensures
        q.vector == vector,
        q.limit == clamped(top_k),
{
    NearestQuery { vector, limit: clamp_top_k(top_k) }
}

/// Makes the results of a search from the rows that the store returned:
/// rows without a distance are left out, the order of the others is kept,
/// and at most `clamped(top_k)` results are returned.
pub fn collect_results(rows: &Vec<StoredRow>, top_k: i64) -> (results: Vec<SearchResult>)
    ensures
        hit_models(results@) == search_hits(row_models(rows@), top_k),
        results@.len() <= clamped(top_k),
        (exists|j: int| 0 <= j < rows@.len() && (#[trigger] rows@[j]).distance_bits is Some)
            ==> results@.len() >= 1,
        rows_ascending(row_models(rows@)) ==> ascending(hit_models(results@)),
{
    let limit = clamp_top_k(top_k);
    let ghost models = row_models(rows@);
    let mut results: Vec<SearchResult> = Vec::new();
    let mut i: usize = 0;
    assert(models.take(0).len() == 0);
    while i < rows.len() && (results.len() as u64) < (limit as u64)
        invariant
            i <= rows.len(),
            limit == clamped(top_k),
            models == row_models(rows@),
            results@.len() <= limit,
            hit_models(results@) == embedded_hits(models.take(i as int)),
        decreases rows.len() - i,
    {
        let row = &rows[i];
        proof {
            assert(models.take(i + 1).drop_last() == models.take(i as int));
            assert(models.take(i + 1).last() == row@);
        }
        match row.distance_bits {
            Some(d) => {
                let hit = SearchResult {
                    patent_id: row.patent_id.clone(),
                    chunk_id: row.chunk_id.clone(),
                    snippet: row.text.clone(),
                    distance_bits: d,
                };
                assert(hit@ == hit_of(row@, d));
                assert(hit_models(results@.push(hit)) == hit_models(results@).push(hit@));
                results.push(hit);
            },
            None => {},
        }
        i += 1;
    }
    proof {
        lemma_hits_prefix(models, i as int);
        lemma_search_len(models, top_k);
        if i == rows.len() {
            assert(models.take(i as int) == models);
        }
        if exists|j: int| 0 <= j < rows@.len() && (#[trigger] rows@[j]).distance_bits is Some {
            let j = choose|j: int|
                0 <= j < rows@.len() && (#[trigger] rows@[j]).distance_bits is Some;
            assert(models[j].distance_bits is Some);
        }
        assert(hit_models(results@).len() == results@.len());
        lemma_search_deterministic(models, top_k, models, top_k);
    }
    results
}

} // verus!
