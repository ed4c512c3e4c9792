//! Shared helpers: broker address parsing, retry backoff, and the flat
//! binary tensor header shared between the inference host and the server.
use vstd::prelude::*;
use vstd::arithmetic::power2::pow2;
use vstd::arithmetic::power2::lemma_pow2_strictly_increases;
use vstd::arithmetic::power2::lemma2_to64;
use crate::text;
use rand::Rng;

verus! {

// ---------------------------------------------------------------------------
// Broker address
// ---------------------------------------------------------------------------

/// `s` with every leading repetition of `p` removed (`str::trim_start_matches`).
pub open spec fn strip_all_prefix(s: Seq<char>, p: Seq<char>) -> Seq<char>
    decreases s.len(),
{
    if p.len() > 0 && text::starts_with(s, p) {
        strip_all_prefix(s.subrange(p.len() as int, s.len() as int), p)
    } else {
        s
    }
}

/// The broker address with its `mqtt://` prefixes, then its `tcp://`
/// prefixes, removed.
pub open spec fn broker_stripped(url: Seq<char>) -> Seq<char> {
    strip_all_prefix(strip_all_prefix(url, "mqtt://"@), "tcp://"@)
}

/// The port written after the last `:`: its `u16` value, or 1883 when it
/// does not parse.
pub open spec fn broker_port(port: Seq<char>) -> u16 {
    match text::parse_unsigned(port, 0xffff) {
        Some(v) => v as u16,
        None => 1883,
    }
}

fn strip_all_prefix_exec(s: Vec<char>, p: &str) -> (r: Vec<char>)
    requires
        p@.len() > 0,
    ensures
        r@ == strip_all_prefix(s@, p@),
{
    let pc = text::chars_of(p);
    let mut cur = s;
    while text::starts_with_exec(cur.as_slice(), pc.as_slice())
        invariant
            pc@ == p@,
            p@.len() > 0,
            strip_all_prefix(cur@, p@) == strip_all_prefix(s@, p@),
        decreases cur@.len(),
    {
        let n = cur.len();
        cur = text::sub_chars(cur.as_slice(), pc.len(), n);
    }
    cur
}

/// Parse `"mqtt://host:port"` (or bare `"host:port"`) into `(host, port)`.
///
/// The host is everything before the last `:`; a port that does not parse
/// as a `u16`, or a missing `:`, gives port 1883.
pub fn parse_broker_addr(url: &str) -> (r: (String, u16))
    ensures
        ({
            let s = broker_stripped(url@);
            match text::rfind_char(s, ':') {
                Some(i) => r.0@ == s.subrange(0, i) && r.1 == broker_port(
                    s.subrange(i + 1, s.len() as int),
                ),
                None => r.0@ == s && r.1 == 1883,
            }
        }),
{
    proof {
        reveal_strlit("mqtt://");
        reveal_strlit("tcp://");
    }
    let c = text::chars_of(url);
    let a = strip_all_prefix_exec(c, "mqtt://");
    let s = strip_all_prefix_exec(a, "tcp://");
    match text::rfind_char_exec(s.as_slice(), ':') {
        Some(i) => {
            let n = s.len();
            assert(i < n);
            let host = text::sub_chars(s.as_slice(), 0, i);
            let port_str = text::sub_chars(s.as_slice(), i + 1, n);
            let port = match text::parse_u16(port_str.as_slice()) {
                Some(p) => p,
                None => 1883,
            };
            (text::string_from_chars(host.as_slice()), port)
        },
        None => (text::string_from_chars(s.as_slice()), 1883),
    }
}

/// The schemes a broker address may start with: none, `mqtt://` or `tcp://`.
pub open spec fn broker_scheme(scheme: Seq<char>) -> bool {
    scheme == ""@ || scheme == "mqtt://"@ || scheme == "tcp://"@
}

/// `host:port_text` does not start with `mqtt://` or `tcp://` when the host
/// does not and the port text does not start with `/`.
proof fn lemma_no_scheme(host: Seq<char>, port_text: Seq<char>)
    requires
        !text::starts_with(host, "mqtt://"@),
        !text::starts_with(host, "tcp://"@),
        port_text.len() == 0 || port_text[0] != '/',
    ensures
        !text::starts_with(host + seq![':'] + port_text, "mqtt://"@),
        !text::starts_with(host + seq![':'] + port_text, "tcp://"@),
{
    reveal_strlit("mqtt://");
    reveal_strlit("tcp://");
    let m = "mqtt://"@;
    let t = "tcp://"@;
    let rest = host + seq![':'] + port_text;
    let hl = host.len() as int;
    assert(rest[hl] == ':');
    if text::starts_with(rest, m) {
        if hl >= 7 {
            assert(host.subrange(0, 7) =~= rest.subrange(0, 7));
        } else {
            assert(rest.subrange(0, 7)[hl] == m[hl]);
            assert(hl == 4);
            assert(rest.subrange(0, 7)[5] == m[5]);
            assert(rest[5] == port_text[0]);
        }
    }
    if text::starts_with(rest, t) {
        if hl >= 6 {
            assert(host.subrange(0, 6) =~= rest.subrange(0, 6));
        } else {
            assert(rest.subrange(0, 6)[hl] == t[hl]);
            assert(hl == 3);
            assert(rest.subrange(0, 6)[4] == t[4]);
            assert(rest[4] == port_text[0]);
        }
    }
}

/// An address `host:port_text`, bare or after `mqtt://` or `tcp://`, splits
/// back into its host and its port text, whatever the host holds (colons
/// included), as long as the host does not itself start with `mqtt://` or
/// `tcp://`, and the port text holds no `:` and does not start with `/`.
/// With `parse_broker_addr`'s contract, the address parses into the host
/// and the port that the text gives (1883 when it is not a `u16`).
pub proof fn lemma_broker_addr_parts(scheme: Seq<char>, host: Seq<char>, port_text: Seq<char>)
    requires
        broker_scheme(scheme),
        !text::starts_with(host, "mqtt://"@),
        !text::starts_with(host, "tcp://"@),
        port_text.len() == 0 || port_text[0] != '/',
        forall|j: int| 0 <= j < port_text.len() ==> port_text[j] != ':',
    ensures
        ({
            let s = broker_stripped(scheme + host + ":"@ + port_text);
            &&& text::rfind_char(s, ':') == Some(host.len() as int)
            &&& s.subrange(0, host.len() as int) == host
            &&& s.subrange(host.len() as int + 1, s.len() as int) == port_text
        }),
{
    reveal_strlit("mqtt://");
    reveal_strlit("tcp://");
    reveal_strlit(":");
    reveal_strlit("");
    let m = "mqtt://"@;
    let t = "tcp://"@;
    let hl = host.len() as int;
    let rest = host + seq![':'] + port_text;
    assert(":"@ == seq![':']);
    let url = scheme + host + ":"@ + port_text;
    assert(url =~= scheme + rest);
    lemma_no_scheme(host, port_text);
    assert(strip_all_prefix(rest, m) == rest);
    assert(strip_all_prefix(rest, t) == rest);
    if scheme == m {
        assert(url.subrange(0, 7) =~= m);
        assert(url.subrange(7, url.len() as int) =~= rest);
        assert(strip_all_prefix(url, m) == strip_all_prefix(rest, m));
    } else if scheme == t {
        assert(url[0] != m[0]);
        assert(url.subrange(0, 7)[0] == url[0]);
        assert(strip_all_prefix(url, m) == url);
        assert(url.subrange(0, 6) =~= t);
        assert(url.subrange(6, url.len() as int) =~= rest);
        assert(strip_all_prefix(url, t) == strip_all_prefix(rest, t));
    } else {
        assert(url =~= rest);
    }
    let s = broker_stripped(url);
    assert(s == rest);
    assert forall|j: int| hl < j < rest.len() implies rest[j] != ':' by {
        assert(rest[j] == port_text[j - hl - 1]);
    }
    reveal(text::rfind_char);
    let w = choose|i: int|
        0 <= i < rest.len() && rest[i] == ':' && forall|j: int| i < j < rest.len() ==> rest[j] != ':';
    assert(0 <= hl < rest.len() && rest[hl] == ':');
    if w < hl {
        assert(rest[hl] != ':');
    } else if w > hl {
        assert(rest[w] != ':');
    }
    assert(rest.subrange(0, hl) =~= host);
    assert(rest.subrange(hl + 1, rest.len() as int) =~= port_text);
}

/// An address `host:port`, bare or after `mqtt://` or `tcp://`, parses back
/// into its host and port, whatever the host holds (colons included), as
/// long as it does not itself start with `mqtt://` or `tcp://`.
pub proof fn lemma_broker_addr_roundtrip(scheme: Seq<char>, host: Seq<char>, port: u16)
    requires
        broker_scheme(scheme),
        !text::starts_with(host, "mqtt://"@),
        !text::starts_with(host, "tcp://"@),
    ensures
        ({
            let s = broker_stripped(scheme + host + ":"@ + text::decimal_digits(port as nat));
            &&& text::rfind_char(s, ':') == Some(host.len() as int)
            &&& s.subrange(0, host.len() as int) == host
            &&& broker_port(s.subrange(host.len() as int + 1, s.len() as int)) == port
        }),
{
    let d = text::decimal_digits(port as nat);
    text::lemma_decimal_digits_parse(port as nat);
    text::lemma_parse_decimal_roundtrip(port as nat, 0xffff);
    assert(text::is_digit(d[0]));
    assert forall|j: int| 0 <= j < d.len() implies d[j] != ':' by {
        assert(text::is_digit(d[j]));
    }
    lemma_broker_addr_parts(scheme, host, d);
}

/// A bare host, without `:`, parses into itself with port 1883.
pub proof fn lemma_broker_bare_host(host: Seq<char>)
    requires
        forall|j: int| 0 <= j < host.len() ==> host[j] != ':',
    ensures
        broker_stripped(host) == host,
        text::rfind_char(host, ':') is None,
{
    reveal_strlit("mqtt://");
    reveal_strlit("tcp://");
    let m = "mqtt://"@;
    let t = "tcp://"@;
    if text::starts_with(host, m) {
        assert(host.subrange(0, 7)[4] == m[4]);
    }
    if text::starts_with(host, t) {
        assert(host.subrange(0, 6)[3] == t[3]);
    }
    assert(strip_all_prefix(host, m) == host);
    assert(strip_all_prefix(host, t) == host);
    reveal(text::rfind_char);
}

// ---------------------------------------------------------------------------
// Retry backoff
// ---------------------------------------------------------------------------

/// The longest backoff, in seconds.
pub const MAX_BACKOFF_SECS: u64 = 30;

/// The backoff before retry number `attempt`, in seconds: `2^attempt`
/// (the shift amount being `attempt` truncated to 32 bits, and a shift of
/// 64 or more saturating to `u64::MAX`), capped at 30 seconds.
pub open spec fn backoff_secs(attempt: u64) -> nat {
    let shift = attempt as u32;
    let uncapped: nat = if shift < 64 {
        pow2(shift as nat)
    } else {
        u64::MAX as nat
    };
    if uncapped < MAX_BACKOFF_SECS {
        uncapped
    } else {
        MAX_BACKOFF_SECS as nat
    }
}

/// The exponential backoff before retry number `attempt`, in seconds.
pub fn compute_backoff(attempt: u64) -> (r: u64)
    ensures
        r == backoff_secs(attempt),
        r <= MAX_BACKOFF_SECS,
{
    let shift: u32 = attempt as u32;
    proof {
        lemma2_to64();
        if shift > 5 && shift < 64 {
            lemma_pow2_strictly_increases(5, shift as nat);
        }
    }
    if shift == 0 {
        1
    } else if shift == 1 {
        2
    } else if shift == 2 {
        4
    } else if shift == 3 {
        8
    } else if shift == 4 {
        16
    } else {
        MAX_BACKOFF_SECS
    }
}

/// The backoff never shrinks as attempts accumulate (up to the 32-bit
/// attempt counter of the retry loop), and never exceeds 30 seconds.
pub proof fn lemma_backoff_monotone(a: u64, b: u64)
    requires
        a <= b <= u32::MAX,
    ensures
        backoff_secs(a) <= backoff_secs(b),
        backoff_secs(b) <= MAX_BACKOFF_SECS,
{
    assert(a as u32 == a);
    assert(b as u32 == b);
    if a < b && b < 64 {
        lemma_pow2_strictly_increases(a as nat, b as nat);
    }
}

/// A uniformly random integer in `0..=max`
/// (`rand::rng().random_range(0..=max)`).
#[verifier::external_body]
fn random_up_to(max: u64) -> (r: u64)
    ensures
        r <= max,
{
    rand::rng().random_range(0..=max)
}

/// Full jitter: a random delay between zero and `base_ms` milliseconds,
/// both included.
pub fn jitter(base_ms: u64) -> (r: u64)
    ensures
        r <= base_ms,
{
    random_up_to(base_ms)
}

/// What a retry loop does after an attempt.
#[derive(Debug, Clone, Copy, PartialEq, Eq, Structural)]
pub enum RetryStep {
    /// The attempt succeeded: stop and hand back its value.
    Done,
    /// The attempt failed: this was failure number `attempt`; sleep
    /// `sleep_ms` milliseconds, then try again.
    Retry { attempt: u32, sleep_ms: u64 },
}

/// The decision that `retry_forever` takes after an attempt, given how many
/// attempts had failed before it: retry indefinitely, with exponential
/// backoff and full jitter, until an attempt succeeds.
pub fn retry_step(failures_so_far: u32, succeeded: bool) -> (r: RetryStep)
    requires
        !succeeded ==> failures_so_far < u32::MAX,
    ensures
        succeeded ==> r == RetryStep::Done,
        !succeeded ==> (r matches RetryStep::Retry { attempt, sleep_ms } && attempt
            == failures_so_far + 1 && sleep_ms <= backoff_secs(attempt as u64) * 1000),
{
    if succeeded {
        RetryStep::Done
    } else {
        let attempt = failures_so_far + 1;
        let base_secs = compute_backoff(attempt as u64);
        let sleep_ms = jitter(base_secs * 1000);
        RetryStep::Retry { attempt, sleep_ms }
    }
}

// ---------------------------------------------------------------------------
// Flat binary tensor header
// ---------------------------------------------------------------------------

/// dtype code of 32-bit floats.
pub const DTYPE_F32: u8 = 1;

/// The little-endian bytes of a `u32`.
pub open spec fn le_bytes(v: u32) -> Seq<u8> {
    seq![
        (v % 256) as u8,
        ((v / 256) % 256) as u8,
        ((v / 65536) % 256) as u8,
        ((v / 16777216) % 256) as u8,
    ]
}

/// The `u32` whose little-endian bytes are `b[0..4]`.
pub open spec fn le_u32(b: Seq<u8>) -> nat {
    b[0] as nat + b[1] as nat * 256 + b[2] as nat * 65536 + b[3] as nat * 16777216
}

/// The concatenated little-endian bytes of each dimension, each cast to `u32`.
pub open spec fn dims_bytes(shape: Seq<usize>) -> Seq<u8>
    decreases shape.len(),
{
    if shape.len() == 0 {
        Seq::<u8>::empty()
    } else {
        dims_bytes(shape.drop_last()) + le_bytes(shape.last() as u32)
    }
}

pub proof fn lemma_dims_bytes_len(shape: Seq<usize>)
    ensures
        dims_bytes(shape).len() == 4 * shape.len(),
    decreases shape.len(),
{
    if shape.len() > 0 {
        lemma_dims_bytes_len(shape.drop_last());
    }
}

/// The header that precedes the data: `ndim` (as `u8`), the dtype, two
/// padding bytes, then each dimension as a little-endian `u32`. The data
/// therefore starts at offset `4 + ndim * 4`, a multiple of 4.
pub open spec fn header_bytes(shape: Seq<usize>) -> Seq<u8> {
    seq![shape.len() as u8, DTYPE_F32, 0u8, 0u8] + dims_bytes(shape)
}

pub fn push_le_u32(buf: &mut Vec<u8>, v: u32)
    ensures
        final(buf)@ == old(buf)@ + le_bytes(v),
{
    buf.push((v % 256) as u8);
    buf.push(((v / 256) % 256) as u8);
    buf.push(((v / 65536) % 256) as u8);
    buf.push(((v / 16777216) % 256) as u8);
    assert(buf@ =~= old(buf)@ + le_bytes(v));
}

/// Appends each dimension of `shape` as a little-endian `u32`.
pub fn push_dims(buf: &mut Vec<u8>, shape: &[usize])
    ensures
        final(buf)@ == old(buf)@ + dims_bytes(shape@),
{
    let ghost start = buf@;
    let mut i: usize = 0;
    while i < shape.len()
        invariant
            0 <= i <= shape@.len(),
            buf@ == start + dims_bytes(shape@.subrange(0, i as int)),
        decreases shape@.len() - i,
    {
        let d = shape[i];
        push_le_u32(buf, d as u32);
        assert(shape@.subrange(0, i + 1).drop_last() =~= shape@.subrange(0, i as int));
        i = i + 1;
        assert(buf@ =~= start + dims_bytes(shape@.subrange(0, i as int)));
    }
    assert(shape@.subrange(0, shape@.len() as int) =~= shape@);
}

/// The header of a tensor of the given shape; the caller appends the data.
pub fn encode_header(shape: &[usize]) -> (r: Vec<u8>)
    ensures
        r@ == header_bytes(shape@),
{
    let mut buf: Vec<u8> = Vec::new();
    buf.push(shape.len() as u8);
    buf.push(DTYPE_F32);
    buf.push(0u8);
    buf.push(0u8);
    push_dims(&mut buf, shape);
    assert(buf@ =~= header_bytes(shape@));
    buf
}

/// Why a buffer is not a valid tensor.
#[derive(Debug, Clone, Copy, PartialEq, Eq, Structural)]
pub enum TensorError {
    /// Fewer than 4 bytes: no room for the fixed header.
    TooShort,
    /// The buffer ends inside the shape.
    TooShortForShape,
    /// The dtype byte is not `DTYPE_F32`.
    UnsupportedDtype(u8),
}

/// The dimensions stored in `bytes` for a tensor of `ndim` dimensions.
pub open spec fn stored_dims(bytes: Seq<u8>, ndim: nat) -> Seq<usize> {
    Seq::new(ndim, |i: int| le_u32(bytes.subrange(4 + 4 * i, 8 + 4 * i)) as usize)
}

pub fn read_le_u32(bytes: &[u8], off: usize) -> (r: u32)
    requires
        off + 4 <= bytes@.len(),
    ensures
        r as nat == le_u32(bytes@.subrange(off as int, off + 4)),
{
    let b0 = bytes[off] as u32;
    let b1 = bytes[off + 1] as u32;
    let b2 = bytes[off + 2] as u32;
    let b3 = bytes[off + 3] as u32;
    b0 + b1 * 256 + b2 * 65536 + b3 * 16777216
}

/// Reads the header of a flat binary tensor: the shape and the offset where
/// the data starts (`4 + ndim * 4`). The checks come in this order: at least
/// 4 bytes; room for the whole shape; dtype `f32`.
pub fn decode_header(bytes: &[u8]) -> (r: Result<(Vec<usize>, usize), TensorError>)
    ensures
        bytes@.len() < 4 ==> r == Err::<(Vec<usize>, usize), TensorError>(TensorError::TooShort),
        bytes@.len() >= 4 && bytes@.len() < 4 + 4 * bytes@[0] ==> r == Err::<
            (Vec<usize>, usize),
            TensorError,
        >(TensorError::TooShortForShape),
        bytes@.len() >= 4 && bytes@.len() >= 4 + 4 * bytes@[0] && bytes@[1] != DTYPE_F32
            ==> r == Err::<(Vec<usize>, usize), TensorError>(
            TensorError::UnsupportedDtype(bytes@[1]),
        ),
        bytes@.len() >= 4 && bytes@.len() >= 4 + 4 * bytes@[0] && bytes@[1] == DTYPE_F32
            ==> (r matches Ok((shape, off)) && off == 4 + 4 * bytes@[0] && shape@ == stored_dims(
            bytes@,
            bytes@[0] as nat,
        )),
{
    if bytes.len() < 4 {
        return Err(TensorError::TooShort);
    }
    let ndim = bytes[0] as usize;
    let dtype = bytes[1];
    let data_offset = 4 + ndim * 4;
    if bytes.len() < data_offset {
        return Err(TensorError::TooShortForShape);
    }
    if dtype != DTYPE_F32 {
        return Err(TensorError::UnsupportedDtype(dtype));
    }
    let mut shape: Vec<usize> = Vec::new();
    let mut i: usize = 0;
    while i < ndim
        invariant
            ndim == bytes@[0] as nat,
            data_offset == 4 + ndim * 4,
            data_offset <= bytes@.len(),
            0 <= i <= ndim,
            shape@ == stored_dims(bytes@, ndim as nat).subrange(0, i as int),
        decreases ndim - i,
    {
        let off = 4 + i * 4;
        let dim = read_le_u32(bytes, off) as usize;
        shape.push(dim);
        i = i + 1;
        assert(shape@ =~= stored_dims(bytes@, ndim as nat).subrange(0, i as int));
    }
    assert(shape@ =~= stored_dims(bytes@, ndim as nat));
    Ok((shape, data_offset))
}

/// The header, then the data: the `ndim` stored is the first byte, and the
/// shape read back is the shape written whenever it has fewer than 256
/// dimensions and every dimension fits in a `u32`.
pub proof fn lemma_header_roundtrip(shape: Seq<usize>, data: Seq<u8>)
    requires
        shape.len() < 256,
        forall|i: int| 0 <= i < shape.len() ==> shape[i] <= u32::MAX,
    ensures
        ({
            let b = header_bytes(shape) + data;
            &&& b.len() >= 4 + 4 * b[0]
            &&& b[0] == shape.len()
            &&& b[1] == DTYPE_F32
            &&& stored_dims(b, b[0] as nat) == shape
            &&& b.subrange(4 + 4 * shape.len() as int, b.len() as int) == data
        }),
{
    let b = header_bytes(shape) + data;
    lemma_dims_bytes_len(shape);
    assert(b[0] == shape.len() as u8);
    assert forall|i: int| 0 <= i < shape.len() implies #[trigger] stored_dims(b, b[0] as nat)[i]
        == shape[i] by {
        let w = shape[i] as u32;
        assert(b.subrange(4 + 4 * i, 8 + 4 * i) =~= le_bytes(w)) by {
            assert forall|k: int| 0 <= k < 4 implies b.subrange(4 + 4 * i, 8 + 4 * i)[k]
                == le_bytes(w)[k] by {
                lemma_dims_bytes_at(shape, i, k);
                assert(b[4 + 4 * i + k] == dims_bytes(shape)[4 * i + k]);
            }
        }
        lemma_le_roundtrip(w);
    }
    assert(stored_dims(b, b[0] as nat) =~= shape);
    assert(b.subrange(4 + 4 * shape.len() as int, b.len() as int) =~= data);
}

/// The bytes of dimension `i` sit at `4 * i` within the dimension bytes.
pub proof fn lemma_dims_bytes_at(shape: Seq<usize>, i: int, k: int)
    requires
        0 <= i < shape.len(),
        0 <= k < 4,
    ensures
        dims_bytes(shape)[4 * i + k] == le_bytes(shape[i] as u32)[k],
    decreases shape.len(),
{
    lemma_dims_bytes_len(shape.drop_last());
    if i < shape.len() - 1 {
        lemma_dims_bytes_at(shape.drop_last(), i, k);
    }
}

pub proof fn lemma_le_roundtrip(v: u32)
    ensures
        le_u32(le_bytes(v)) == v,
{
    let b = le_bytes(v);
    assert(b[0] as nat + b[1] as nat * 256 + b[2] as nat * 65536 + b[3] as nat * 16777216
        == v as nat) by (nonlinear_arith)
        requires
            b[0] as nat == v % 256,
            b[1] as nat == (v / 256) % 256,
            b[2] as nat == (v / 65536) % 256,
            b[3] as nat == (v / 16777216) % 256,
            v <= u32::MAX,
    ;
}

// ---------------------------------------------------------------------------
// Tensor element count
// ---------------------------------------------------------------------------

/// The number of elements of a tensor of the given shape: the product of
/// its dimensions (1 for a scalar, with no dimension).
pub open spec fn shape_elements(shape: Seq<usize>) -> int
    decreases shape.len(),
{
    if shape.len() == 0 {
        1
    } else {
        shape_elements(shape.drop_last()) * shape.last()
    }
}

proof fn lemma_elements_prefix_step(shape: Seq<usize>, i: int)
    requires
        0 <= i < shape.len(),
    ensures
        shape_elements(shape.subrange(0, i + 1)) == shape_elements(shape.subrange(0, i)) * shape[i],
{
    assert(shape.subrange(0, i + 1).drop_last() =~= shape.subrange(0, i));
}

proof fn lemma_elements_zero(shape: Seq<usize>, j: int)
    requires
        0 <= j < shape.len(),
        shape[j] == 0,
    ensures
        shape_elements(shape) == 0,
    decreases shape.len(),
{
    let a = shape_elements(shape.drop_last());
    let b = shape.last() as int;
    if j < shape.len() - 1 {
        lemma_elements_zero(shape.drop_last(), j);
        assert(a * b == 0) by (nonlinear_arith)
            requires
                a == 0,
        ;
    } else {
        assert(a * b == 0) by (nonlinear_arith)
            requires
                b == 0,
        ;
    }
}

proof fn lemma_elements_grow(shape: Seq<usize>, i: int)
    requires
        0 <= i <= shape.len(),
        forall|j: int| 0 <= j < shape.len() ==> shape[j] >= 1,
    ensures
        1 <= shape_elements(shape.subrange(0, i)) <= shape_elements(shape),
    decreases shape.len(),
{
    if i == shape.len() {
        assert(shape.subrange(0, i) =~= shape);
        if shape.len() > 0 {
            lemma_elements_grow(shape.drop_last(), i - 1);
            assert(shape.drop_last().subrange(0, i - 1) =~= shape.drop_last());
            let a = shape_elements(shape.drop_last());
            let b = shape.last() as int;
            assert(a * b >= 1) by (nonlinear_arith)
                requires
                    a >= 1,
                    b >= 1,
            ;
        }
    } else {
        let pre = shape.drop_last();
        lemma_elements_grow(pre, i);
        lemma_elements_grow(pre, pre.len() as int);
        assert(pre.subrange(0, i) =~= shape.subrange(0, i));
        assert(pre.subrange(0, pre.len() as int) =~= pre);
        let a = shape_elements(pre);
        let b = shape.last() as int;
        assert(a * b >= a) by (nonlinear_arith)
            requires
                a >= 1,
                b >= 1,
        ;
    }
}

/// Whether `n_values` data values fill a tensor of the given shape
/// exactly: `n_values` is the product of the dimensions.
pub fn tensor_len_matches(shape: &[usize], n_values: usize) -> (r: bool)
    ensures
        r == (shape_elements(shape@) == n_values),
{
    let n = shape.len();
    let mut i: usize = 0;
    while i < n
        invariant
            n == shape@.len(),
            0 <= i <= n,
            forall|j: int| 0 <= j < i ==> shape@[j] >= 1,
        decreases n - i,
    {
        if shape[i] == 0 {
            proof {
                lemma_elements_zero(shape@, i as int);
            }
            return n_values == 0;
        }
        i = i + 1;
    }
    let mut acc: usize = 1;
    let mut k: usize = 0;
    assert(shape@.subrange(0, 0) =~= Seq::<usize>::empty());
    while k < n
        invariant
            n == shape@.len(),
            0 <= k <= n,
            forall|j: int| 0 <= j < n ==> shape@[j] >= 1,
            acc == shape_elements(shape@.subrange(0, k as int)),
        decreases n - k,
    {
        proof {
            lemma_elements_prefix_step(shape@, k as int);
        }
        match acc.checked_mul(shape[k]) {
            Some(v) => {
                acc = v;
            },
            None => {
                proof {
                    lemma_elements_grow(shape@, k as int + 1);
                }
                return false;
            },
        }
        k = k + 1;
    }
    assert(shape@.subrange(0, n as int) =~= shape@);
    acc == n_values
}

} // verus!

