//! The tensor layout of the pre/post-processing layers:
//! `[ ndim: u8 | shape: [u32-LE; ndim] | dtype: u8 (1=f32) | data: bytes ]`,
//! the data being little-endian `f32` values.
use vstd::prelude::*;
use crate::common::{dims_bytes, le_bytes, le_u32, push_dims};
use crate::common::{lemma_dims_bytes_at, lemma_dims_bytes_len, lemma_le_roundtrip};

verus! {

/// The bytes that precede the data of a layer tensor of the given shape.
pub open spec fn layer_header(shape: Seq<usize>) -> Seq<u8> {
    seq![shape.len() as u8] + dims_bytes(shape) + seq![1u8]
}

/// The header of a layer tensor; the caller appends the data.
pub fn encode_layer_header(shape: &[usize]) -> (r: Vec<u8>)
    ensures
        r@ == layer_header(shape@),
{
    let mut buf: Vec<u8> = Vec::new();
    buf.push(shape.len() as u8);
    push_dims(&mut buf, shape);
    buf.push(1u8);
    assert(buf@ =~= layer_header(shape@));
    buf
}

/// The shape stored in a layer tensor of `ndim` dimensions.
pub open spec fn layer_dims(buf: Seq<u8>, ndim: nat) -> Seq<usize> {
    Seq::new(ndim, |i: int| le_u32(buf.subrange(1 + 4 * i, 5 + 4 * i)) as usize)
}

/// Reads the layout of a layer tensor: its shape, and the offset where its
/// data starts (after the dtype byte, which is skipped unchecked). The
/// buffer must hold the whole header.
pub fn decode_layer_layout(buf: &[u8]) -> (r: (Vec<usize>, usize))
    requires
        buf@.len() >= 1,
        buf@.len() >= 2 + 4 * buf@[0],
    ensures
        r.1 == 2 + 4 * buf@[0],
        r.0@ == layer_dims(buf@, buf@[0] as nat),
{
    let ndim = buf[0] as usize;
    let mut shape: Vec<usize> = Vec::new();
    let mut i: usize = 0;
    while i < ndim
        invariant
            ndim == buf@[0] as nat,
            buf@.len() >= 2 + 4 * ndim,
            0 <= i <= ndim,
            shape@ == layer_dims(buf@, ndim as nat).subrange(0, i as int),
        decreases ndim - i,
    {
        let off = 1 + 4 * i;
        let b0 = buf[off] as u32;
        let b1 = buf[off + 1] as u32;
        let b2 = buf[off + 2] as u32;
        let b3 = buf[off + 3] as u32;
        let dim = (b0 + b1 * 256 + b2 * 65536 + b3 * 16777216) as usize;
        assert(dim == le_u32(buf@.subrange(off as int, off + 4)) as usize);
        shape.push(dim);
        i = i + 1;
        assert(shape@ =~= layer_dims(buf@, ndim as nat).subrange(0, i as int));
    }
    assert(shape@ =~= layer_dims(buf@, ndim as nat));
    (shape, 1 + 4 * ndim + 1)
}

/// A layer tensor reads back as written: the layout of the header of a
/// shape followed by data gives back that shape (when it has fewer than
/// 256 dimensions, each fitting in a `u32`) and the offset of that data.
pub proof fn lemma_layer_layout_roundtrip(shape: Seq<usize>, data: Seq<u8>)
    requires
        shape.len() < 256,
        forall|i: int| 0 <= i < shape.len() ==> shape[i] <= u32::MAX,
    ensures
        ({
            let b = layer_header(shape) + data;
            &&& b.len() >= 1
            &&& b.len() >= 2 + 4 * b[0]
            &&& b[0] == shape.len()
            &&& layer_dims(b, b[0] as nat) == shape
            &&& b.subrange(2 + 4 * shape.len() as int, b.len() as int) == data
        }),
{
    let b = layer_header(shape) + data;
    lemma_dims_bytes_len(shape);
    assert(b[0] == shape.len() as u8);
    assert forall|i: int| 0 <= i < shape.len() implies #[trigger] layer_dims(b, b[0] as nat)[i]
        == shape[i] by {
        let w = shape[i] as u32;
        assert(b.subrange(1 + 4 * i, 5 + 4 * i) =~= le_bytes(w)) by {
            assert forall|k: int| 0 <= k < 4 implies b.subrange(1 + 4 * i, 5 + 4 * i)[k]
                == le_bytes(w)[k] by {
                lemma_dims_bytes_at(shape, i, k);
                assert(b[1 + 4 * i + k] == dims_bytes(shape)[4 * i + k]);
            }
        }
        lemma_le_roundtrip(w);
    }
    assert(layer_dims(b, b[0] as nat) =~= shape);
    assert(b.subrange(2 + 4 * shape.len() as int, b.len() as int) =~= data);
}

/// The bytes of the whole 4-byte chunks of `raw`: a trailing partial chunk
/// is dropped.
pub open spec fn whole_chunks(raw: Seq<u8>) -> Seq<u8> {
    raw.subrange(0, 4 * (raw.len() / 4) as int)
}

/// The `FloatToTensor` layer: reads the input as little-endian `f32`
/// values (dropping a trailing partial value) and wraps them in a tensor of
/// shape `[1, n_features]`. Each value's bytes are carried over unchanged,
/// since reading and writing an `f32` as little-endian bytes keeps its bits.
pub fn float_to_tensor(n_features: usize, raw: &[u8]) -> (r: Vec<u8>)
    ensures
        r@ == layer_header(seq![1usize, n_features]) + whole_chunks(raw@),
{
    let mut shape: Vec<usize> = Vec::new();
    shape.push(1);
    shape.push(n_features);
    let mut buf = encode_layer_header(shape.as_slice());
    assert(shape@ =~= seq![1usize, n_features]);
    let ghost head = buf@;
    let n = raw.len() / 4 * 4;
    let mut i: usize = 0;
    while i < n
        invariant
            n == 4 * (raw@.len() / 4),
            n <= raw@.len(),
            0 <= i <= n,
            buf@ == head + raw@.subrange(0, i as int),
        decreases n - i,
    {
        buf.push(raw[i]);
        i = i + 1;
        assert(buf@ =~= head + raw@.subrange(0, i as int));
    }
    buf
}

} // verus!
