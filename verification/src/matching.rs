//! Whether two embeddings may be compared: both must carry model metadata
//! that matches their length, and come from the same model with the same
//! dimension. The similarity arithmetic itself runs on the feature vectors
//! outside this module.

use crate::error::Error;
use crate::text::{decimal, push_decimal, str_eq, trim, trimmed};
use vstd::prelude::*;
use vstd::string::StrSliceExecFns;
use vstd::string::StringExecFns;

verus! {

/// What a query embedding says of itself: its model, its declared
/// dimension and the length of its feature vector.
#[derive(Debug)]
pub struct EmbeddingMeta {
    pub model_id: String,
    pub embedding_dim: usize,
    pub feature_len: usize,
}

/// What a stored face says of its embedding.
#[derive(Debug)]
pub struct StoredFaceMeta {
    pub label: String,
    pub model_id: String,
    pub embedding_dim: usize,
    pub feature_len: usize,
}

/// A query embedding names its model and its length matches its dimension.
pub open spec fn embedding_valid(e: EmbeddingMeta) -> bool {
    trimmed(e.model_id@).len() > 0 && e.embedding_dim > 0 && e.embedding_dim == e.feature_len
}

/// A stored face has a label, names its model, and its length matches its
/// dimension.
pub open spec fn face_data_valid(d: StoredFaceMeta) -> bool {
    trimmed(d.label@).len() > 0 && trimmed(d.model_id@).len() > 0 && d.embedding_dim > 0
        && d.embedding_dim == d.feature_len
}

pub fn embedding_is_valid(e: &EmbeddingMeta) -> (r: bool)
    ensures
        r == embedding_valid(*e),
{
    trim(e.model_id.as_str()).unicode_len() > 0 && e.embedding_dim > 0 && e.embedding_dim == e.feature_len
}

pub fn face_data_is_valid(d: &StoredFaceMeta) -> (r: bool)
    ensures
        r == face_data_valid(*d),
{
    trim(d.label.as_str()).unicode_len() > 0 && trim(d.model_id.as_str()).unicode_len() > 0 && d.embedding_dim > 0
        && d.embedding_dim == d.feature_len
}

pub open spec fn is_recognition_error(e: Error, m: Seq<char>) -> bool {
    e matches Error::Recognition(x) && x@ == m
}

pub open spec fn invalid_query_text() -> Seq<char> {
    "Query embedding is missing model metadata or has an invalid length"@
}

/// The first reason the two embeddings may not be compared, as its message.
pub open spec fn comparison_problem(q: EmbeddingMeta, c: StoredFaceMeta) -> Option<Seq<char>> {
    if !embedding_valid(q) {
        Some(invalid_query_text())
    } else if !face_data_valid(c) {
        Some("Stored face '"@ + c.label@ + "' has invalid embedding metadata"@)
    } else if q.model_id@ != c.model_id@ {
        Some("Cannot compare embeddings from different models: '"@ + q.model_id@ + "' vs '"@ + c.model_id@ + "'"@)
    } else if q.embedding_dim != c.embedding_dim {
        Some("Embedding dimension mismatch for model '"@ + q.model_id@ + "': "@ + decimal(q.embedding_dim as nat)
            + " vs "@ + decimal(c.embedding_dim as nat))
    } else if q.feature_len != q.embedding_dim {
        Some("Query embedding length mismatch: expected "@ + decimal(q.embedding_dim as nat) + ", got "@
            + decimal(q.feature_len as nat))
    } else {
        None
    }
}

/// Refuses a query embedding without model metadata or of the wrong length.
pub fn ensure_query_embedding_valid(query: &EmbeddingMeta) -> (r: Result<(), Error>)
    ensures
        r is Ok <==> embedding_valid(*query),
        !embedding_valid(*query) ==> (r matches Err(e) && is_recognition_error(e, invalid_query_text())),
{
    if !embedding_is_valid(query) {
        return Err(Error::Recognition(String::from_str(
            "Query embedding is missing model metadata or has an invalid length",
        )));
    }
    Ok(())
}

/// Whether a query embedding may be compared with a stored face.
pub fn ensure_comparable(query: &EmbeddingMeta, candidate: &StoredFaceMeta) -> (r: Result<(), Error>)
    ensures
        match comparison_problem(*query, *candidate) {
            None => r is Ok,
            Some(m) => r matches Err(e) && is_recognition_error(e, m),
        },
{
    if let Err(e) = ensure_query_embedding_valid(query) {
        return Err(e);
    }
    if !face_data_is_valid(candidate) {
        let mut m = String::from_str("Stored face '");
        m.append(candidate.label.as_str());
        m.append("' has invalid embedding metadata");
        return Err(Error::Recognition(m));
    }
    if !str_eq(query.model_id.as_str(), candidate.model_id.as_str()) {
        let mut m = String::from_str("Cannot compare embeddings from different models: '");
        m.append(query.model_id.as_str());
        m.append("' vs '");
        m.append(candidate.model_id.as_str());
        m.append("'");
        return Err(Error::Recognition(m));
    }
    if query.embedding_dim != candidate.embedding_dim {
        let mut m = String::from_str("Embedding dimension mismatch for model '");
        m.append(query.model_id.as_str());
        m.append("': ");
        push_decimal(&mut m, query.embedding_dim as u64);
        m.append(" vs ");
        push_decimal(&mut m, candidate.embedding_dim as u64);
        return Err(Error::Recognition(m));
    }
    if query.feature_len != query.embedding_dim {
        let mut m = String::from_str("Query embedding length mismatch: expected ");
        push_decimal(&mut m, query.embedding_dim as u64);
        m.append(", got ");
        push_decimal(&mut m, query.feature_len as u64);
        return Err(Error::Recognition(m));
    }
    Ok(())
}

/// Comparable embeddings have vectors of one and the same length, so the
/// similarity can be computed element by element.
pub proof fn lemma_comparable_lengths(q: EmbeddingMeta, c: StoredFaceMeta)
    requires
        comparison_problem(q, c) is None,
    ensures
        q.feature_len == c.feature_len,
        q.feature_len > 0,
        q.model_id@ == c.model_id@,
{
}

/// The positions of the stored faces made by the given model with the given
/// dimension, in order.
pub open spec fn compatible_positions(faces: Seq<StoredFaceMeta>, model_id: Seq<char>, dim: usize) -> Seq<int>
    decreases faces.len(),
{
    if faces.len() == 0 {
        Seq::empty()
    } else {
        let rest = compatible_positions(faces.drop_last(), model_id, dim);
        if faces.last().model_id@ == model_id && faces.last().embedding_dim == dim {
            rest.push(faces.len() - 1)
        } else {
            rest
        }
    }
}

/// The stored faces that the active model can be compared with.
pub fn compatible_candidates(faces: &Vec<StoredFaceMeta>, model_id: &str, dim: usize) -> (r: Vec<usize>)
    ensures
        r@.map_values(|i: usize| i as int) == compatible_positions(faces@, model_id@, dim),
{
    let mut out: Vec<usize> = Vec::new();
    let mut i: usize = 0;
    while i < faces.len()
        invariant
            i <= faces@.len(),
            out@.map_values(|k: usize| k as int) == compatible_positions(faces@.take(i as int), model_id@, dim),
        decreases faces.len() - i,
    {
        proof {
            assert(faces@.take(i + 1).drop_last() =~= faces@.take(i as int));
        }
        let ghost before = out@.map_values(|k: usize| k as int);
        if str_eq(faces[i].model_id.as_str(), model_id) && faces[i].embedding_dim == dim {
            out.push(i);
            assert(out@.map_values(|k: usize| k as int) =~= before.push(i as int));
        }
        assert(out@.map_values(|k: usize| k as int) =~= compatible_positions(faces@.take(i + 1), model_id@, dim));
        i = i + 1;
    }
    assert(faces@.take(faces@.len() as int) =~= faces@);
    out
}

} // verus!
