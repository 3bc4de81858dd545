//! Retrieval over the chat's logs: which texts get an embedding, and in
//! which order they are handed to the embedding model.
use vstd::prelude::*;
use vstd::string::*;
use vstd::utf8::*;

verus! {

broadcast use vstd::string::group_string_axioms;

/// Texts longer than this, in bytes, get an empty embedding.
pub const MAX_TEXT_BYTES: usize = 50000;

/// How many texts go to the embedding model at once.
pub const EMBED_CHUNK_SIZE: usize = 16;

/// Whether text `i` is embedded: it is neither empty nor too long.
pub open spec fn embeddable(texts: Seq<String>, i: int) -> bool {
    0 < encode_utf8(texts[i]@).len() <= MAX_TEXT_BYTES
}

/// Text `a` is embedded before text `b`: it is shorter, or as long and
/// earlier.
pub open spec fn embedded_before(texts: Seq<String>, a: int, b: int) -> bool {
    let la = encode_utf8(texts[a]@).len();
    let lb = encode_utf8(texts[b]@).len();
    la < lb || (la == lb && a < b)
}

/// The indices of the texts that are embedded, shortest first, texts of the
/// same length in their order (`sort_by_key` on the length, which is
/// stable).
pub fn embedding_order(texts: &Vec<String>) -> (r: Vec<usize>)
    ensures
        forall|k: int| 0 <= k < r@.len() ==> #[trigger] r@[k] < texts@.len() && embeddable(texts@, r@[k] as int),
        forall|i: int| 0 <= i < texts@.len() && embeddable(texts@, i) ==> r@.contains(i as usize),
        forall|a: int, b: int|
            0 <= a < b < r@.len() ==> embedded_before(texts@, #[trigger] r@[a] as int, #[trigger] r@[b] as int),
{
    let mut out: Vec<usize> = Vec::new();
    let mut lens: Vec<usize> = Vec::new();
    let mut i: usize = 0;
    while i < texts.len()
        invariant
            i <= texts@.len(),
            lens@.len() == i,
            forall|k: int| 0 <= k < i ==> #[trigger] lens@[k] == encode_utf8(texts@[k]@).len(),
            forall|k: int| 0 <= k < out@.len() ==> #[trigger] out@[k] < i && embeddable(texts@, out@[k] as int),
            forall|m: int| 0 <= m < i && embeddable(texts@, m) ==> out@.contains(m as usize),
            forall|a: int, b: int|
                0 <= a < b < out@.len() ==> embedded_before(texts@, #[trigger] out@[a] as int, #[trigger] out@[b] as int),
        decreases texts@.len() - i,
    {
        let len = texts[i].as_str().as_bytes().len();
        lens.push(len);
        assert(lens@[i as int] == len);
        if 0 < len && len <= MAX_TEXT_BYTES {
            let mut j: usize = 0;
            let mut stop = false;
            while j < out.len() && !stop
                invariant
                    j <= out@.len(),
                    lens@.len() == i + 1,
                    forall|k: int| 0 <= k <= i ==> #[trigger] lens@[k] == encode_utf8(texts@[k]@).len(),
                    forall|k: int| 0 <= k < out@.len() ==> #[trigger] out@[k] < i,
                    forall|k: int| 0 <= k < j ==> encode_utf8(texts@[#[trigger] out@[k] as int]@).len() <= len,
                    stop ==> j < out@.len() && encode_utf8(texts@[out@[j as int] as int]@).len() > len,
                decreases out@.len() - j + (if stop {
                    0int
                } else {
                    1int
                }),
            {
                if lens[out[j]] > len {
                    stop = true;
                } else {
                    j += 1;
                }
            }
            let ghost before = out@;
            out.insert(j, i);
            proof {
                assert(out@ =~= before.insert(j as int, i));
                assert forall|a: int, b: int| 0 <= a < b < out@.len() implies embedded_before(
                    texts@,
                    #[trigger] out@[a] as int,
                    #[trigger] out@[b] as int,
                ) by {
                    if a < j && b == j {
                        assert(out@[a] == before[a]);
                    } else if a < j && b > j {
                        assert(out@[a] == before[a]);
                        assert(out@[b] == before[b - 1]);
                    } else if a == j {
                        assert(out@[b] == before[b - 1]);
                        if b - 1 > j {
                            assert(embedded_before(texts@, before[j as int] as int, before[b - 1] as int));
                        }
                    } else if b < j {
                        assert(out@[a] == before[a]);
                        assert(out@[b] == before[b]);
                    } else {
                        assert(out@[a] == before[a - 1]);
                        assert(out@[b] == before[b - 1]);
                    }
                }
                assert forall|m: int| 0 <= m < i + 1 && embeddable(texts@, m) implies out@.contains(
                    m as usize,
                ) by {
                    if m == i {
                        assert(out@[j as int] == i);
                    } else {
                        let k = choose|k: int| 0 <= k < before.len() && before[k] == m as usize;
                        if k < j {
                            assert(out@[k] == m as usize);
                        } else {
                            assert(out@[k + 1] == m as usize);
                        }
                    }
                }
            }
        } else {
            proof {
                assert forall|m: int| 0 <= m < i + 1 && embeddable(texts@, m) implies out@.contains(
                    m as usize,
                ) by {
                    if m == i {
                        assert(!embeddable(texts@, m));
                    }
                }
            }
        }
        i += 1;
    }
    out
}

/// Whether the model embeds a text: an empty text, or one that is too long,
/// gets an empty embedding instead.
pub fn embeds(text: &str) -> (r: bool)
    ensures
        r == (0 < text.spec_bytes().len() <= MAX_TEXT_BYTES),
{
    let len = text.as_bytes().len();
    0 < len && len <= MAX_TEXT_BYTES
}

} // verus!
