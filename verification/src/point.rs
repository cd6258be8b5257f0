use vstd::bytes::*;
use vstd::prelude::*;
use vstd::slice::slice_subrange;

verus! {

/// A point of a path, each coordinate held as the IEEE-754 bit pattern of a
/// double (`f64::to_bits`), so that encoding and decoding are exact.
#[derive(Clone, Copy, Debug, PartialEq, Eq, Structural)]
pub struct Point {
    pub x: u64,
    pub y: u64,
}

/// The 16 bytes of one point: x then y, each little endian.
pub open spec fn point_bytes(p: Point) -> Seq<u8> {
    spec_u64_to_le_bytes(p.x) + spec_u64_to_le_bytes(p.y)
}

/// The bytes of a run of points, one after the other.
pub open spec fn points_body(ps: Seq<Point>) -> Seq<u8>
    decreases ps.len(),
{
    if ps.len() == 0 {
        Seq::empty()
    } else {
        points_body(ps.drop_last()) + point_bytes(ps.last())
    }
}

/// The compact encoding of a list of points: the count as a little-endian
/// `u32` (the length truncated to 32 bits), then each point.
pub open spec fn spec_encode_points(ps: Seq<Point>) -> Seq<u8> {
    spec_u32_to_le_bytes(ps.len() as u32) + points_body(ps)
}

/// The point stored at byte offset `off`.
pub open spec fn point_at(d: Seq<u8>, off: int) -> Point {
    Point {
        x: spec_u64_from_le_bytes(d.subrange(off, off + 8)),
        y: spec_u64_from_le_bytes(d.subrange(off + 8, off + 16)),
    }
}

/// The point count a buffer declares in its first four bytes.
pub open spec fn declared_count(d: Seq<u8>) -> u32 {
    spec_u32_from_le_bytes(d.subrange(0, 4))
}

/// Why a buffer does not decode to points.
pub enum PointsError {
    /// Fewer than four bytes: no count.
    NoCount,
    /// Fewer bytes than the declared count of points needs.
    Truncated,
}

/// What decoding a buffer gives: the declared number of points read after the
/// count (bytes past them are ignored), or the reason it fails.
pub open spec fn spec_decode_points(d: Seq<u8>) -> Result<Seq<Point>, PointsError> {
    if d.len() < 4 {
        Err(PointsError::NoCount)
    } else if d.len() < 4 + 16 * declared_count(d) {
        Err(PointsError::Truncated)
    } else {
        Ok(Seq::new(declared_count(d) as nat, |i: int| point_at(d, 4 + 16 * i)))
    }
}

/// Encode a list of points into a compact byte representation.
/// Format: `[count: u32 LE] [x0: f64 LE] [y0: f64 LE] [x1: f64 LE] [y1: f64 LE] ...`
pub fn encode_points(points: &[Point]) -> (buf: Vec<u8>)
    requires
        4 + points@.len() * 16 <= isize::MAX,
    ensures
        buf@ == spec_encode_points(points@),
{
    let mut buf: Vec<u8> = Vec::with_capacity(4 + points.len() * 16);
    let mut count = u32_to_le_bytes(points.len() as u32);
    buf.append(&mut count);
    let n = points.len();
    let mut i: usize = 0;
    while i < n
        invariant
            n == points@.len(),
            0 <= i <= n,
            buf@ == spec_u32_to_le_bytes(n as u32) + points_body(points@.subrange(0, i as int)),
        decreases n - i,
    {
        let p = points[i];
        let mut xb = u64_to_le_bytes(p.x);
        let mut yb = u64_to_le_bytes(p.y);
        buf.append(&mut xb);
        buf.append(&mut yb);
        proof {
            let pre = points@.subrange(0, i as int);
            let post = points@.subrange(0, i + 1);
            assert(post.drop_last() =~= pre);
            assert(post.last() == p);
            assert(points_body(post) == points_body(pre) + point_bytes(p));
        }
        i = i + 1;
    }
    assert(points@.subrange(0, n as int) =~= points@);
    buf
}

/// Decode points from the compact byte representation.
pub fn decode_points(data: &[u8]) -> (r: Result<Vec<Point>, &'static str>)
    ensures
        match spec_decode_points(data@) {
            Ok(ps) => r matches Ok(v) && v@ == ps,
            Err(PointsError::NoCount) => r matches Err(e) && e@ == "data too short for point count"@,
            Err(PointsError::Truncated) => r matches Err(e) && e@
                == "data too short for declared point count"@,
        },
{
    if data.len() < 4 {
        return Err("data too short for point count");
    }
    let count = u32_from_le_bytes(slice_subrange(data, 0, 4));
    let expected_len: u64 = 4 + (count as u64) * 16;
    if (data.len() as u64) < expected_len {
        return Err("data too short for declared point count");
    }
    let n = count as usize;
    let mut points: Vec<Point> = Vec::with_capacity(n);
    let mut i: usize = 0;
    while i < n
        invariant
            n == declared_count(data@),
            data@.len() >= 4 + 16 * n,
            data@.len() == data.len(),
            0 <= i <= n,
            points@ =~= Seq::new(i as nat, |j: int| point_at(data@, 4 + 16 * j)),
        decreases n - i,
    {
        assert(i * 16 + 16 <= 16 * n) by (nonlinear_arith)
            requires
                i < n,
        ;
        let offset = 4 + i * 16;
        let x = u64_from_le_bytes(slice_subrange(data, offset, offset + 8));
        let y = u64_from_le_bytes(slice_subrange(data, offset + 8, offset + 16));
        points.push(Point { x, y });
        i = i + 1;
    }
    Ok(points)
}

/// The bytes of the first `k` points are the first `16 * k` bytes of the body.
pub proof fn lemma_points_body_prefix(ps: Seq<Point>, k: int)
    requires
        0 <= k <= ps.len(),
    ensures
        points_body(ps).len() == 16 * ps.len(),
        points_body(ps).subrange(0, 16 * k) == points_body(ps.subrange(0, k)),
    decreases ps.len(),
{
    lemma_auto_spec_u64_to_from_le_bytes();
    if ps.len() == 0 {
        assert(ps.subrange(0, k) =~= ps);
        assert(points_body(ps).subrange(0, 0) =~= points_body(ps));
    } else {
        let init = ps.drop_last();
        let n = ps.len() - 1;
        if k <= n {
            lemma_points_body_prefix(init, k);
            assert(init.subrange(0, k) =~= ps.subrange(0, k));
            assert(points_body(ps).subrange(0, 16 * k) =~= points_body(init).subrange(0, 16 * k));
        } else {
            lemma_points_body_prefix(init, 0);
            assert(ps.subrange(0, k) =~= ps);
            assert(points_body(ps).subrange(0, 16 * k) =~= points_body(ps));
        }
    }
}

/// Point `i` of a body sits at byte offset `16 * i` of it.
pub proof fn lemma_points_body_at(ps: Seq<Point>, i: int)
    requires
        0 <= i < ps.len(),
    ensures
        point_at(points_body(ps), 16 * i) == ps[i],
    decreases ps.len(),
{
    lemma_auto_spec_u64_to_from_le_bytes();
    lemma_points_body_prefix(ps, ps.len() as int);
    let init = ps.drop_last();
    lemma_points_body_prefix(init, 0);
    let body = points_body(ps);
    if i == ps.len() - 1 {
        let last = ps.last();
        assert(body.subrange(16 * i, 16 * i + 8) =~= spec_u64_to_le_bytes(last.x));
        assert(body.subrange(16 * i + 8, 16 * i + 16) =~= spec_u64_to_le_bytes(last.y));
    } else {
        lemma_points_body_at(init, i);
        assert(body.subrange(16 * i, 16 * i + 8) =~= points_body(init).subrange(16 * i, 16 * i + 8));
        assert(body.subrange(16 * i + 8, 16 * i + 16) =~= points_body(init).subrange(16 * i + 8, 16 * i + 16));
    }
}

/// Decoding what was encoded gives the same points back, for any list of at
/// most `u32::MAX` points.
pub proof fn lemma_decode_encode_points(ps: Seq<Point>)
    requires
        ps.len() <= u32::MAX,
    ensures
        spec_decode_points(spec_encode_points(ps)) == Ok::<Seq<Point>, PointsError>(ps),
{
    lemma_auto_spec_u32_to_from_le_bytes();
    lemma_points_body_prefix(ps, 0);
    let d = spec_encode_points(ps);
    let head = spec_u32_to_le_bytes(ps.len() as u32);
    assert(d.subrange(0, 4) =~= head);
    assert(declared_count(d) == ps.len());
    let decoded = Seq::new(ps.len(), |i: int| point_at(d, 4 + 16 * i));
    assert forall|i: int| 0 <= i < ps.len() implies decoded[i] == ps[i] by {
        lemma_points_body_at(ps, i);
        let body = points_body(ps);
        assert(d.subrange(4 + 16 * i, 4 + 16 * i + 8) =~= body.subrange(16 * i, 16 * i + 8));
        assert(d.subrange(4 + 16 * i + 8, 4 + 16 * i + 16) =~= body.subrange(16 * i + 8, 16 * i + 16));
    }
    assert(decoded =~= ps);
}

/// Whatever a buffer decodes to, encoding those points again gives the
/// buffer's leading bytes: decoding reads nothing but the count and the points.
pub proof fn lemma_encode_decode_points(d: Seq<u8>)
    ensures
        spec_decode_points(d) matches Ok(ps) ==> d.subrange(0, 4 + 16 * ps.len() as int)
            == spec_encode_points(ps),
{
    if let Ok(ps) = spec_decode_points(d) {
        lemma_auto_spec_u32_to_from_le_bytes();
        lemma_auto_spec_u64_to_from_le_bytes();
        lemma_points_body_prefix(ps, 0);
        let n = ps.len();
        let e = spec_encode_points(ps);
        assert(ps.len() as u32 == declared_count(d));
        assert(e.subrange(0, 4) =~= d.subrange(0, 4));
        assert forall|i: int| 0 <= i < n implies #[trigger] e.subrange(4 + 16 * i, 4 + 16 * i + 16)
            == d.subrange(4 + 16 * i, 4 + 16 * i + 16) by {
            lemma_points_body_at(ps, i);
            let body = points_body(ps);
            let p = ps[i];
            assert(d.subrange(4 + 16 * i, 4 + 16 * i + 8).len() == 8);
            assert(spec_u64_to_le_bytes(p.x) == d.subrange(4 + 16 * i, 4 + 16 * i + 8));
            assert(spec_u64_to_le_bytes(p.y) == d.subrange(4 + 16 * i + 8, 4 + 16 * i + 16));
            assert(spec_u64_to_le_bytes(point_at(body, 16 * i).x) == body.subrange(16 * i, 16 * i + 8));
            assert(d.subrange(4 + 16 * i, 4 + 16 * i + 16) =~= spec_u64_to_le_bytes(p.x) + spec_u64_to_le_bytes(p.y));
            assert(e.subrange(4 + 16 * i, 4 + 16 * i + 16) =~= body.subrange(16 * i, 16 * i + 16));
            assert(body.subrange(16 * i, 16 * i + 16) =~= body.subrange(16 * i, 16 * i + 8) + body.subrange(16 * i + 8, 16 * i + 16));
        }
        assert forall|k: int| 0 <= k < 4 + 16 * n implies e[k] == d[k] by {
            if k < 4 {
                assert(e[k] == e.subrange(0, 4)[k]);
                assert(d[k] == d.subrange(0, 4)[k]);
            } else {
                let i = (k - 4) / 16;
                assert(0 <= i < n);
                assert(e.subrange(4 + 16 * i, 4 + 16 * i + 16)[k - 4 - 16 * i] == e[k]);
                assert(d.subrange(4 + 16 * i, 4 + 16 * i + 16)[k - 4 - 16 * i] == d[k]);
            }
        }
        assert(d.subrange(0, 4 + 16 * n as int) =~= e);
    }
}

} // verus!
