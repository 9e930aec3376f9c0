//! How an endpoint response travels back to the client shell: in chunks of a
//! bounded size, the last one marked final.
use vstd::prelude::*;

verus! {

/// The largest endpoint command a client may send, in bytes.
pub const MAX_ENDPOINT_COMMAND_BYTES: usize = 1024 * 1024;
/// The longest boot id a client may quote, in bytes.
pub const MAX_ENDPOINT_BOOT_ID_BYTES: usize = 128;
/// The longest request id a client may use, in bytes.
pub const MAX_ENDPOINT_REQUEST_ID_BYTES: usize = 128;
/// The most bytes one response chunk carries.
pub const ENDPOINT_RESPONSE_CHUNK_BYTES: usize = 512 * 1024;

/// One piece of a response.
#[derive(Clone, Debug)]
pub struct ResponseChunk {
    pub data: Vec<u8>,
    /// Whether this is the response's last piece.
    pub final_chunk: bool,
}

/// How many chunks a response of `n` bytes travels in: an empty response still
/// sends one (empty, final) chunk. Chunks are [`ENDPOINT_RESPONSE_CHUNK_BYTES`]
/// (524288) bytes long.
pub open spec fn chunk_count(n: nat) -> nat {
    if n == 0 {
        1
    } else {
        ((n + 524287) / 524288) as nat
    }
}

/// Where chunk `k` of a response of `n` bytes ends.
pub open spec fn chunk_end(n: nat, k: int) -> int {
    if (k + 1) * 524288 < n {
        (k + 1) * 524288
    } else {
        n as int
    }
}

/// The bytes of chunk `k` of `response`.
pub open spec fn chunk_data(response: Seq<u8>, k: int) -> Seq<u8> {
    response.subrange(k * 524288, chunk_end(response.len(), k))
}

/// The chunks' bytes, back to back.
pub open spec fn joined(chunks: Seq<ResponseChunk>) -> Seq<u8>
    decreases chunks.len(),
{
    if chunks.len() == 0 {
        Seq::empty()
    } else {
        joined(chunks.drop_last()) + chunks.last().data@
    }
}

/// Whether `chunks` are the chunks of `response`: consecutive pieces of at most
/// [`ENDPOINT_RESPONSE_CHUNK_BYTES`], all full but the last, only the last final.
pub open spec fn are_chunks_of(chunks: Seq<ResponseChunk>, response: Seq<u8>) -> bool {
    &&& chunks.len() == chunk_count(response.len())
    &&& forall|k: int|
        0 <= k < chunks.len() ==> {
            &&& (#[trigger] chunks[k]).data@ == chunk_data(response, k)
            &&& chunks[k].final_chunk == (k + 1 == chunks.len())
        }
}

proof fn lemma_chunk_count(n: nat, k: int)
    requires
        n > 0,
        0 <= k,
    ensures
        k < chunk_count(n) <==> k * 524288 < n,
{
    let c: int = 524288;
    let q = (n + c - 1) / c;
    assert(q * c <= n + c - 1 < q * c + c) by (nonlinear_arith)
        requires
            c > 0,
            q == (n + c - 1) / c,
    ;
    if k < q {
        assert(k * c <= (q - 1) * c) by (nonlinear_arith)
            requires
                k <= q - 1,
                c > 0,
        ;
    } else {
        assert(k * c >= q * c) by (nonlinear_arith)
            requires
                k >= q,
                c > 0,
        ;
    }
}

/// The chunks `response` travels in.
pub fn endpoint_response_chunks(response: &[u8]) -> (r: Vec<ResponseChunk>)
    ensures
        are_chunks_of(r@, response@),
{
    let n = response.len();
    let mut out: Vec<ResponseChunk> = Vec::new();
    if n == 0 {
        out.push(ResponseChunk { data: Vec::new(), final_chunk: true });
        assert(chunk_data(response@, 0) =~= Seq::<u8>::empty());
        return out;
    }
    let mut start: usize = 0;
    while start < n
        invariant
            n == response@.len(),
            n > 0,
            start == (if out@.len() == 0 {
                0
            } else {
                chunk_end(n as nat, out@.len() - 1)
            }),
            start < n ==> start == out@.len() * 524288,
            start <= n,
            forall|k: int|
                0 <= k < out@.len() ==> {
                    &&& (#[trigger] out@[k]).data@ == chunk_data(response@, k)
                    &&& out@[k].final_chunk == (chunk_end(n as nat, k) == n)
                },
            start < n ==> out@.len() < chunk_count(n as nat),
            start == n ==> out@.len() == chunk_count(n as nat),
        decreases n - start,
    {
        let k = out.len();
        proof {
            lemma_chunk_count(n as nat, k as int);
        }
        assert(ENDPOINT_RESPONSE_CHUNK_BYTES == 524288);
        let end = if n - start > ENDPOINT_RESPONSE_CHUNK_BYTES {
            start + ENDPOINT_RESPONSE_CHUNK_BYTES
        } else {
            n
        };
        let data = vstd::slice::slice_to_vec(vstd::slice::slice_subrange(response, start, end));
        out.push(ResponseChunk { data, final_chunk: end == n });
        start = end;
        proof {
            lemma_chunk_count(n as nat, k as int + 1);
        }
    }
    proof {
        assert forall|k: int| 0 <= k < out@.len() implies (#[trigger] out@[k]).final_chunk == (k + 1 == out@.len()) by {
            lemma_chunk_count(n as nat, k + 1);
        }
    }
    out
}

proof fn lemma_joined_prefix(chunks: Seq<ResponseChunk>, response: Seq<u8>, m: int)
    requires
        are_chunks_of(chunks, response),
        response.len() > 0,
        0 <= m <= chunks.len(),
    ensures
        joined(chunks.take(m)) == response.subrange(0, if m == 0 {
            0
        } else {
            chunk_end(response.len(), m - 1)
        }),
    decreases m,
{
    if m > 0 {
        lemma_joined_prefix(chunks, response, m - 1);
        assert(chunks.take(m).drop_last() =~= chunks.take(m - 1));
        lemma_chunk_count(response.len(), m - 1);
        if m > 1 {
            assert(chunk_end(response.len(), m - 2) == (m - 1) * 524288);
        }
        assert(response.subrange(0, chunk_end(response.len(), m - 1)) =~= response.subrange(0, (m - 1) * 524288)
            + chunk_data(response, m - 1));
    } else {
        assert(response.subrange(0, 0) =~= Seq::<u8>::empty());
    }
}

/// A response is chunked without truncation: the chunks' bytes, back to back, are
/// the response.
pub proof fn lemma_chunks_rejoin(chunks: Seq<ResponseChunk>, response: Seq<u8>)
    requires
        are_chunks_of(chunks, response),
    ensures
        joined(chunks) == response,
{
    if response.len() == 0 {
        assert(chunks.drop_last() =~= Seq::<ResponseChunk>::empty());
        assert(chunk_data(response, 0) =~= Seq::<u8>::empty());
        assert(chunks.last() == chunks[0]);
        assert(joined(chunks.drop_last()) =~= Seq::<u8>::empty());
        assert(joined(chunks) =~= response);
    } else {
        let m = chunks.len() as int;
        lemma_joined_prefix(chunks, response, m);
        assert(chunks.take(m) =~= chunks);
        lemma_chunk_count(response.len(), m);
        lemma_chunk_count(response.len(), m - 1);
        assert(chunk_end(response.len(), m - 1) == response.len());
        assert(response.subrange(0, response.len() as int) =~= response);
    }
}

} // verus!
