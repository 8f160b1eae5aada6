//! The flat binary file format of a vector index: the points only, without
//! the graph, which is rebuilt after loading.
//!
//! Layout (integers little-endian): `PRHW`, a version byte (1), a metric byte
//! (0 cosine, 1 euclidean, 2 dot product), the dimension count (u32), the
//! point count `n` (u32), `m` (u16), `ef_construction` (u16), the rebuild
//! threshold (u32); then the `n` keys (u32 each); then the `n` points, each
//! `dimensions` components stored as the bits of an `f32`.

use crate::error::Error;
use crate::textutil::{chars_of, decimal, decimal_chars, string_from_chars};
use crate::vector::Metric;
use vstd::prelude::*;

verus! {

/// The contents of a vector index file. Point components are the bits of
/// `f32` values.
#[derive(Debug, Clone)]
pub struct FlatIndexData {
    pub metric: Metric,
    pub dimensions: usize,
    pub m: usize,
    pub ef_construction: usize,
    pub rebuild_threshold: usize,
    pub keys: Vec<u32>,
    pub points: Vec<Vec<u32>>,
}

/// The contents of a vector index file, by value.
pub struct FlatIndexView {
    pub metric: Metric,
    pub dimensions: usize,
    pub m: usize,
    pub ef_construction: usize,
    pub rebuild_threshold: usize,
    pub keys: Seq<u32>,
    pub points: Seq<Seq<u32>>,
}

impl View for FlatIndexData {
    type V = FlatIndexView;

    open spec fn view(&self) -> FlatIndexView {
        FlatIndexView {
            metric: self.metric,
            dimensions: self.dimensions,
            m: self.m,
            ef_construction: self.ef_construction,
            rebuild_threshold: self.rebuild_threshold,
            keys: self.keys@,
            points: self.points@.map_values(|p: Vec<u32>| p@),
        }
    }
}

// ---------------------------------------------------------------------------
// Little-endian integers
// ---------------------------------------------------------------------------

/// Byte `j` (0 the lowest) of `w`.
pub open spec fn byte_of(w: u32, j: int) -> u8 {
    if j == 0 {
        (w & 0xff) as u8
    } else if j == 1 {
        ((w >> 8u32) & 0xff) as u8
    } else if j == 2 {
        ((w >> 16u32) & 0xff) as u8
    } else {
        ((w >> 24u32) & 0xff) as u8
    }
}

/// The little-endian `u32` at `off` in `b`.
pub open spec fn word_at(b: Seq<u8>, off: int) -> u32 {
    (b[off] as u32) | ((b[off + 1] as u32) << 8u32) | ((b[off + 2] as u32) << 16u32) | ((b[off + 3] as u32)
        << 24u32)
}

/// The little-endian `u16` at `off` in `b`.
pub open spec fn half_at(b: Seq<u8>, off: int) -> u16 {
    (b[off] as u16) | ((b[off + 1] as u16) << 8u16)
}

/// The bytes of `u32` words, each little-endian.
pub open spec fn words_bytes(ws: Seq<u32>) -> Seq<u8> {
    Seq::new(4 * ws.len(), |q: int| byte_of(ws[q / 4], q % 4))
}

/// The little-endian bytes of one word.
pub open spec fn le32(w: u32) -> Seq<u8> {
    seq![byte_of(w, 0), byte_of(w, 1), byte_of(w, 2), byte_of(w, 3)]
}

/// The little-endian bytes of a `u16`.
pub open spec fn le16(h: u16) -> Seq<u8> {
    seq![(h & 0xff) as u8, ((h >> 8u16) & 0xff) as u8]
}

proof fn lemma_word_roundtrip(w: u32)
    ensures
        (byte_of(w, 0) as u32) | ((byte_of(w, 1) as u32) << 8u32) | ((byte_of(w, 2) as u32) << 16u32) | ((byte_of(
            w,
            3,
        ) as u32) << 24u32) == w,
{
    let b0 = (w & 0xff) as u8;
    let b1 = ((w >> 8u32) & 0xff) as u8;
    let b2 = ((w >> 16u32) & 0xff) as u8;
    let b3 = ((w >> 24u32) & 0xff) as u8;
    assert((b0 as u32) | ((b1 as u32) << 8u32) | ((b2 as u32) << 16u32) | ((b3 as u32) << 24u32) == w)
        by (bit_vector)
        requires
            b0 == (w & 0xff) as u8,
            b1 == ((w >> 8u32) & 0xff) as u8,
            b2 == ((w >> 16u32) & 0xff) as u8,
            b3 == ((w >> 24u32) & 0xff) as u8,
    ;
}

proof fn lemma_half_roundtrip(h: u16)
    ensures
        (((h & 0xff) as u8) as u16) | ((((h >> 8u16) & 0xff) as u8 as u16) << 8u16) == h,
{
    assert((((h & 0xff) as u8) as u16) | ((((h >> 8u16) & 0xff) as u8 as u16) << 8u16) == h) by (bit_vector);
}

/// Reading word `k` of the bytes of `ws` gives `ws[k]` back.
proof fn lemma_words_bytes_at(ws: Seq<u32>, b: Seq<u8>, base: int, k: int)
    requires
        0 <= k < ws.len(),
        0 <= base,
        base + 4 * ws.len() <= b.len(),
        b.subrange(base, base + 4 * ws.len()) == words_bytes(ws),
    ensures
        word_at(b, base + 4 * k) == ws[k],
{
    let wb = words_bytes(ws);
    assert forall|j: int| 0 <= j < 4 implies b[base + 4 * k + j] == byte_of(ws[k], j) by {
        assert(b[base + 4 * k + j] == wb[4 * k + j]);
        assert((4 * k + j) / 4 == k);
        assert((4 * k + j) % 4 == j);
    }
    lemma_word_roundtrip(ws[k]);
}

// ---------------------------------------------------------------------------
// The format
// ---------------------------------------------------------------------------

/// The byte that stands for a metric.
pub open spec fn metric_code(m: Metric) -> u8 {
    match m {
        Metric::Cosine => 0,
        Metric::Euclidean => 1,
        Metric::DotProduct => 2,
    }
}

/// The metric a byte stands for (cosine for unknown bytes).
pub open spec fn metric_of(b: u8) -> Metric {
    if b == 1 {
        Metric::Euclidean
    } else if b == 2 {
        Metric::DotProduct
    } else {
        Metric::Cosine
    }
}

/// The points one after the other, component by component.
pub open spec fn flat_points(pts: Seq<Seq<u32>>, dims: int) -> Seq<u32> {
    Seq::new((pts.len() * dims) as nat, |p: int| pts[p / dims][p % dims])
}

/// The 22 header bytes.
pub open spec fn header_bytes(x: FlatIndexView) -> Seq<u8> {
    seq![0x50u8, 0x52u8, 0x48u8, 0x57u8, 1u8, metric_code(x.metric)] + le32(x.dimensions as u32) + le32(
        x.keys.len() as u32,
    ) + le16(x.m as u16) + le16(x.ef_construction as u16) + le32(x.rebuild_threshold as u32)
}

/// The bytes of a whole index file.
pub open spec fn encode_flat(x: FlatIndexView) -> Seq<u8> {
    header_bytes(x) + words_bytes(x.keys) + words_bytes(flat_points(x.points, x.dimensions as int))
}

/// Where the points of a file with this header end.
pub open spec fn points_end(data: Seq<u8>) -> int {
    22 + 4 * word_at(data, 10) + 4 * word_at(data, 10) * word_at(data, 6)
}

/// What a file decodes to, when it is long enough.
pub open spec fn decoded(data: Seq<u8>) -> FlatIndexView {
    let dims = word_at(data, 6) as int;
    let n = word_at(data, 10) as int;
    FlatIndexView {
        metric: metric_of(data[5]),
        dimensions: dims as usize,
        m: half_at(data, 14) as usize,
        ef_construction: half_at(data, 16) as usize,
        rebuild_threshold: word_at(data, 18) as usize,
        keys: Seq::new(n as nat, |i: int| word_at(data, 22 + 4 * i)),
        points: Seq::new(
            n as nat,
            |i: int| Seq::new(dims as nat, |d: int| word_at(data, 22 + 4 * n + 4 * (i * dims + d))),
        ),
    }
}

pub open spec fn too_short_message() -> Seq<char> {
    "Binary index too short"@
}

pub open spec fn truncated_message(expected: int, got: int) -> Seq<char> {
    "Binary index truncated: expected "@ + decimal(expected as nat) + " bytes, got "@ + decimal(got as nat)
}

/// Whether `x` can be written in the format and read back.
pub open spec fn encodable(x: FlatIndexView) -> bool {
    &&& x.dimensions <= u32::MAX
    &&& x.keys.len() <= u32::MAX
    &&& x.m <= u16::MAX
    &&& x.ef_construction <= u16::MAX
    &&& x.rebuild_threshold <= u32::MAX
    &&& x.points.len() == x.keys.len()
    &&& forall|i: int| 0 <= i < x.points.len() ==> (#[trigger] x.points[i]).len() == x.dimensions
    &&& 22 + 4 * x.keys.len() + 4 * x.keys.len() * x.dimensions <= usize::MAX
}

fn read_u32(data: &[u8], off: usize) -> (r: u32)
    requires
        off + 4 <= data@.len(),
    ensures
        r == word_at(data@, off as int),
{
    (data[off] as u32) | ((data[off + 1] as u32) << 8u32) | ((data[off + 2] as u32) << 16u32) | ((data[off + 3] as u32)
        << 24u32)
}

fn read_u16(data: &[u8], off: usize) -> (r: u16)
    requires
        off + 2 <= data@.len(),
    ensures
        r == half_at(data@, off as int),
{
    (data[off] as u16) | ((data[off + 1] as u16) << 8u16)
}

fn push_u32(buf: &mut Vec<u8>, w: u32)
    ensures
        final(buf)@ == old(buf)@ + le32(w),
{
    buf.push((w & 0xff) as u8);
    buf.push(((w >> 8u32) & 0xff) as u8);
    buf.push(((w >> 16u32) & 0xff) as u8);
    buf.push(((w >> 24u32) & 0xff) as u8);
    assert(buf@ =~= old(buf)@ + le32(w));
}

fn push_u16(buf: &mut Vec<u8>, h: u16)
    ensures
        final(buf)@ == old(buf)@ + le16(h),
{
    buf.push((h & 0xff) as u8);
    buf.push(((h >> 8u16) & 0xff) as u8);
    assert(buf@ =~= old(buf)@ + le16(h));
}

/// Read an index file in the flat format. Its first 22 bytes are the header;
/// a file that ends before its points do is refused.
pub fn load_binary(data: &[u8]) -> (r: Result<FlatIndexData, Error>)
    requires
        data@.len() >= 22 ==> points_end(data@) <= usize::MAX,
    ensures
        data@.len() < 22 ==> (r matches Err(e) && e matches Error::Backend(m) && m@ == too_short_message()),
        data@.len() >= 22 && data@.len() < points_end(data@) ==> (r matches Err(e) && e matches Error::Backend(m)
            && m@ == truncated_message(points_end(data@), data@.len() as int)),
        data@.len() >= 22 && data@.len() >= points_end(data@) ==> (r matches Ok(x) && x@ == decoded(data@)),
{
    if data.len() < 22 {
        return Err(Error::Backend(crate::config::owned("Binary index too short")));
    }
    let metric = match data[5] {
        1 => Metric::Euclidean,
        2 => Metric::DotProduct,
        _ => Metric::Cosine,
    };
    let dims32 = read_u32(data, 6);
    let n32 = read_u32(data, 10);
    let m = read_u16(data, 14);
    let ef = read_u16(data, 16);
    let rebuild = read_u32(data, 18);
    let dims = dims32 as usize;
    let n = n32 as usize;
    proof {
        assert(22 + 4 * n + 4 * n * dims <= usize::MAX);
        assert(0 <= n * dims) by (nonlinear_arith)
            requires
                0 <= n,
                0 <= dims,
        ;
        assert(n * dims * 4 == 4 * n * dims) by (nonlinear_arith);
        assert(n * dims <= usize::MAX) by (nonlinear_arith)
            requires
                22 + 4 * n + 4 * n * dims <= usize::MAX,
                0 <= n,
                0 <= dims,
        ;
    }
    let keys_end = 22 + n * 4;
    let end = keys_end + n * dims * 4;
    if data.len() < end {
        let mut v = chars_of("Binary index truncated: expected ");
        let mut a = decimal_chars(end as u64);
        v.append(&mut a);
        let mut b = chars_of(" bytes, got ");
        v.append(&mut b);
        let mut c = decimal_chars(data.len() as u64);
        v.append(&mut c);
        proof {
            assert(v@ =~= truncated_message(points_end(data@), data@.len() as int));
        }
        return Err(Error::Backend(string_from_chars(&v)));
    }
    let ghost dv = decoded(data@);
    let mut keys: Vec<u32> = Vec::new();
    let mut i: usize = 0;
    while i < n
        invariant
            i <= n,
            n == word_at(data@, 10),
            keys_end == 22 + n * 4,
            keys_end <= data@.len(),
            keys@ == dv.keys.take(i as int),
            dv == decoded(data@),
        decreases n - i,
    {
        let k = read_u32(data, 22 + i * 4);
        keys.push(k);
        proof {
            assert(keys@ =~= dv.keys.take(i + 1));
        }
        i = i + 1;
    }
    let mut points: Vec<Vec<u32>> = Vec::new();
    let mut p: usize = 0;
    while p < n
        invariant
            p <= n,
            n == word_at(data@, 10),
            dims == word_at(data@, 6),
            keys_end == 22 + n * 4,
            end == keys_end + n * dims * 4,
            end <= data@.len(),
            dv == decoded(data@),
            points@.len() == p,
            forall|j: int| 0 <= j < p ==> #[trigger] points@[j]@ == dv.points[j],
        decreases n - p,
    {
        let mut pt: Vec<u32> = Vec::new();
        let mut d: usize = 0;
        proof {
            assert(p * dims + dims <= n * dims) by (nonlinear_arith)
                requires
                    p < n,
            ;
        }
        while d < dims
            invariant
                p < n,
                d <= dims,
                n == word_at(data@, 10),
                dims == word_at(data@, 6),
                keys_end == 22 + n * 4,
                end == keys_end + n * dims * 4,
                end <= data@.len(),
                p * dims + dims <= n * dims,
                dv == decoded(data@),
                pt@ == dv.points[p as int].take(d as int),
            decreases dims - d,
        {
            let off = keys_end + (p * dims + d) * 4;
            let w = read_u32(data, off);
            pt.push(w);
            proof {
                assert(pt@ =~= dv.points[p as int].take(d + 1));
            }
            d = d + 1;
        }
        proof {
            assert(pt@ =~= dv.points[p as int]);
        }
        points.push(pt);
        p = p + 1;
    }
    proof {
        assert(keys@ =~= dv.keys);
    }
    let r = FlatIndexData {
        metric,
        dimensions: dims,
        m: m as usize,
        ef_construction: ef as usize,
        rebuild_threshold: rebuild as usize,
        keys,
        points,
    };
    proof {
        assert(r@.points =~= dv.points);
        assert(metric == metric_of(data@[5]));
    }
    Ok(r)
}

proof fn lemma_words_bytes_push(ws: Seq<u32>, w: u32)
    ensures
        words_bytes(ws.push(w)) =~= words_bytes(ws) + le32(w),
{
    let a = words_bytes(ws.push(w));
    let b = words_bytes(ws) + le32(w);
    assert forall|q: int| 0 <= q < a.len() implies a[q] == b[q] by {
        if q < 4 * ws.len() {
            assert(q / 4 < ws.len()) by (nonlinear_arith)
                requires
                    0 <= q < 4 * ws.len(),
            ;
            assert(ws.push(w)[q / 4] == ws[q / 4]);
        } else {
            let j = q - 4 * ws.len();
            assert(q / 4 == ws.len() as int);
            assert(q % 4 == j);
        }
    }
}

proof fn lemma_flat_points_step(pts: Seq<Seq<u32>>, dims: int, p: int, d: int)
    requires
        0 <= p < pts.len(),
        0 <= d < dims,
    ensures
        flat_points(pts, dims).take(p * dims + d + 1) =~= flat_points(pts, dims).take(p * dims + d).push(pts[p][d]),
        p * dims + d < pts.len() * dims,
{
    assert(p * dims + d < pts.len() * dims) by (nonlinear_arith)
        requires
            0 <= p < pts.len(),
            0 <= d < dims,
    ;
    vstd::arithmetic::div_mod::lemma_fundamental_div_mod_converse(p * dims + d, dims, p, d);
}

/// Write an index in the flat format.
pub fn encode_v1(x: &FlatIndexData) -> (r: Vec<u8>)
    requires
        encodable(x@),
    ensures
        r@ == encode_flat(x@),
{
    let ghost xv = x@;
    let n = x.keys.len();
    let dims = x.dimensions;
    let mut buf: Vec<u8> = Vec::new();
    buf.push(0x50u8);
    buf.push(0x52u8);
    buf.push(0x48u8);
    buf.push(0x57u8);
    buf.push(1u8);
    let code: u8 = match x.metric {
        Metric::Cosine => 0,
        Metric::Euclidean => 1,
        Metric::DotProduct => 2,
    };
    buf.push(code);
    push_u32(&mut buf, dims as u32);
    push_u32(&mut buf, n as u32);
    push_u16(&mut buf, x.m as u16);
    push_u16(&mut buf, x.ef_construction as u16);
    push_u32(&mut buf, x.rebuild_threshold as u32);
    let ghost head = buf@;
    proof {
        assert(head =~= header_bytes(xv));
        assert(words_bytes(xv.keys.take(0)) =~= Seq::<u8>::empty());
        assert(head + Seq::<u8>::empty() =~= head);
    }
    let mut i: usize = 0;
    while i < n
        invariant
            i <= n,
            n == x.keys.len(),
            xv == x@,
            buf@ == head + words_bytes(xv.keys.take(i as int)),
        decreases n - i,
    {
        push_u32(&mut buf, x.keys[i]);
        proof {
            lemma_words_bytes_push(xv.keys.take(i as int), x.keys@[i as int]);
            assert(xv.keys.take(i + 1) =~= xv.keys.take(i as int).push(x.keys@[i as int]));
        }
        i = i + 1;
    }
    let ghost mid = buf@;
    let ghost fp = flat_points(xv.points, dims as int);
    proof {
        assert(xv.keys.take(n as int) =~= xv.keys);
        assert(fp.take(0) =~= Seq::<u32>::empty());
        assert(words_bytes(fp.take(0)) =~= Seq::<u8>::empty());
        assert(mid + Seq::<u8>::empty() =~= mid);
    }
    let mut p: usize = 0;
    while p < n
        invariant
            p <= n,
            n == x.keys.len(),
            dims == x.dimensions,
            xv == x@,
            encodable(xv),
            fp == flat_points(xv.points, dims as int),
            buf@ == mid + words_bytes(fp.take(p * dims)),
        decreases n - p,
    {
        let pt = &x.points[p];
        proof {
            assert(xv.points[p as int] == pt@);
            assert(pt@.len() == dims);
            assert(p * dims + dims == (p + 1) * dims) by (nonlinear_arith);
        }
        let mut d: usize = 0;
        while d < dims
            invariant
                p < n,
                n == x.keys.len(),
                d <= dims,
                dims == x.dimensions,
                xv == x@,
                encodable(xv),
                pt@ == xv.points[p as int],
                pt@.len() == dims,
                fp == flat_points(xv.points, dims as int),
                buf@ == mid + words_bytes(fp.take(p * dims + d)),
            decreases dims - d,
        {
            push_u32(&mut buf, pt[d]);
            proof {
                lemma_flat_points_step(xv.points, dims as int, p as int, d as int);
                assert(fp[p * dims + d] == pt@[d as int]) by {
                    vstd::arithmetic::div_mod::lemma_fundamental_div_mod_converse(p * dims + d, dims as int, p as int, d as int);
                }
                lemma_words_bytes_push(fp.take(p * dims + d), pt@[d as int]);
            }
            d = d + 1;
        }
        proof {
            assert(p * dims + dims == (p + 1) * dims) by (nonlinear_arith);
        }
        p = p + 1;
    }
    proof {
        assert(fp.len() == n * dims);
        assert(fp.take(n * dims) =~= fp);
        assert(buf@ =~= encode_flat(xv));
    }
    buf
}

/// Law: what `encode_v1` writes, `load_binary` reads back unchanged.
pub proof fn lemma_flat_roundtrip(x: FlatIndexView)
    requires
        encodable(x),
    ensures
        encode_flat(x).len() >= 22,
        points_end(encode_flat(x)) == encode_flat(x).len(),
        decoded(encode_flat(x)) == x,
{
    let e = encode_flat(x);
    let h = header_bytes(x);
    let n = x.keys.len() as int;
    let dims = x.dimensions as int;
    let fp = flat_points(x.points, dims);
    assert(h.len() == 22);
    assert(fp.len() == n * dims);
    assert forall|j: int| 0 <= j < 22 implies e[j] == h[j] by {}
    lemma_word_roundtrip(x.dimensions as u32);
    lemma_word_roundtrip(x.keys.len() as u32);
    lemma_word_roundtrip(x.rebuild_threshold as u32);
    lemma_half_roundtrip(x.m as u16);
    lemma_half_roundtrip(x.ef_construction as u16);
    assert(word_at(e, 6) == x.dimensions as u32);
    assert(word_at(e, 10) == x.keys.len() as u32);
    assert(word_at(e, 18) == x.rebuild_threshold as u32);
    assert(half_at(e, 14) == x.m as u16);
    assert(half_at(e, 16) == x.ef_construction as u16);
    assert(e.len() == 22 + 4 * n + 4 * (n * dims));
    assert(4 * n * dims == 4 * (n * dims)) by (nonlinear_arith);
    let d = decoded(e);
    assert(e.subrange(22, 22 + 4 * n) =~= words_bytes(x.keys));
    assert forall|i: int| 0 <= i < n implies #[trigger] d.keys[i] == x.keys[i] by {
        lemma_words_bytes_at(x.keys, e, 22, i);
    }
    assert(d.keys =~= x.keys);
    assert(e.subrange(22 + 4 * n, 22 + 4 * n + 4 * fp.len()) =~= words_bytes(fp));
    assert forall|i: int| 0 <= i < n implies #[trigger] d.points[i] =~= x.points[i] by {
        assert forall|k: int| 0 <= k < dims implies d.points[i][k] == x.points[i][k] by {
            assert(0 <= i * dims + k < n * dims) by (nonlinear_arith)
                requires
                    0 <= i < n,
                    0 <= k < dims,
            ;
            lemma_words_bytes_at(fp, e, 22 + 4 * n, i * dims + k);
            vstd::arithmetic::div_mod::lemma_fundamental_div_mod_converse(i * dims + k, dims, i, k);
            assert(x.points[i].len() == dims);
        }
    }
    assert(d.points =~= x.points);
    assert(d.metric == x.metric);
}

// ---------------------------------------------------------------------------
// Telling the formats apart
// ---------------------------------------------------------------------------

/// The formats a vector index file may have.
#[derive(Debug, Clone, Copy, PartialEq, Eq, Structural)]
pub enum IndexFileFormat {
    /// `PRH3`: graph, metadata and the points added since the last build.
    GraphV3,
    /// `PRH2`: graph and metadata.
    GraphV2,
    /// `PRHW`: the points only.
    FlatV1,
    /// Anything else is read as the legacy JSON format.
    LegacyJson,
}

/// `data` starts with the four bytes `a b c d`.
pub open spec fn has_magic(data: Seq<u8>, a: u8, b: u8, c: u8, d: u8) -> bool {
    data.len() >= 4 && data[0] == a && data[1] == b && data[2] == c && data[3] == d
}

/// The format of a file, by its first bytes.
pub open spec fn format_of(data: Seq<u8>) -> IndexFileFormat {
    if has_magic(data, 0x50, 0x52, 0x48, 0x33) {
        IndexFileFormat::GraphV3
    } else if has_magic(data, 0x50, 0x52, 0x48, 0x32) {
        IndexFileFormat::GraphV2
    } else if data.len() >= 22 && has_magic(data, 0x50, 0x52, 0x48, 0x57) {
        IndexFileFormat::FlatV1
    } else {
        IndexFileFormat::LegacyJson
    }
}

/// Which format a vector index file has.
pub fn detect_index_format(data: &[u8]) -> (r: IndexFileFormat)
    ensures
        r == format_of(data@),
{
    let magic = data.len() >= 4 && data[0] == 0x50u8 && data[1] == 0x52u8 && data[2] == 0x48u8;
    if magic && data[3] == 0x33u8 {
        IndexFileFormat::GraphV3
    } else if magic && data[3] == 0x32u8 {
        IndexFileFormat::GraphV2
    } else if data.len() >= 22 && magic && data[3] == 0x57u8 {
        IndexFileFormat::FlatV1
    } else {
        IndexFileFormat::LegacyJson
    }
}

pub open spec fn graph_too_short_message(v3: bool) -> Seq<char> {
    if v3 {
        "V3 index too short"@
    } else {
        "V2 index too short"@
    }
}

pub open spec fn graph_truncated_message(v3: bool) -> Seq<char> {
    if v3 {
        "V3 index meta truncated"@
    } else {
        "V2 index meta truncated"@
    }
}

/// Split the body of a graph file (what follows its magic) into the
/// metadata and the graph: a `u32` length, that many metadata bytes, then
/// the graph. Returns where the metadata ends (it starts at 4).
pub fn graph_frame(body: &[u8], v3: bool) -> (r: Result<usize, Error>)
    ensures
        body@.len() < 4 ==> (r matches Err(e) && e matches Error::Backend(m) && m@ == graph_too_short_message(v3)),
        body@.len() >= 4 && body@.len() < 4 + word_at(body@, 0) ==> (r matches Err(e) && e matches Error::Backend(m)
            && m@ == graph_truncated_message(v3)),
        body@.len() >= 4 && body@.len() >= 4 + word_at(body@, 0) ==> r == Ok::<usize, Error>(
            (4 + word_at(body@, 0)) as usize,
        ),
{
    if body.len() < 4 {
        return Err(Error::Backend(crate::config::owned(if v3 {
            "V3 index too short"
        } else {
            "V2 index too short"
        })));
    }
    let meta_len = read_u32(body, 0) as usize;
    if body.len() - 4 < meta_len {
        return Err(Error::Backend(crate::config::owned(if v3 {
            "V3 index meta truncated"
        } else {
            "V2 index meta truncated"
        })));
    }
    Ok(4 + meta_len)
}

} // verus!
