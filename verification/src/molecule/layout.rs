use vstd::prelude::*;
use vstd::bytes::{spec_u32_from_le_bytes, spec_u32_to_le_bytes, u32_from_le_bytes};
use vstd::bytes::lemma_auto_spec_u32_to_from_le_bytes;
use vstd::slice::{slice_subrange, slice_to_vec};

verus! {

/// Why bytes could not be read back into a value.
#[derive(Clone, Copy, Debug, PartialEq, Eq, Structural)]
pub enum DecodeError {
    /// The bytes are not the encoding of any value of the expected type:
    /// they are truncated, too long, or framed wrongly.
    Malformed,
}

/// How the extent of one part of a fixed layout is found.
#[derive(Clone, Copy, Debug)]
pub enum Width {
    /// The part has exactly this many bytes.
    Fixed(usize),
    /// The part begins with its own total size, as four little-endian bytes.
    Prefixed,
    /// The part takes whatever is left; only the last part may do so.
    Rest,
}

/// The byte strings behind a list of vectors.
pub open spec fn views(parts: Seq<Vec<u8>>) -> Seq<Seq<u8>> {
    Seq::new(parts.len(), |i: int| parts[i]@)
}

/// The parts written one after another.
pub open spec fn join(parts: Seq<Seq<u8>>) -> Seq<u8>
    decreases parts.len(),
{
    if parts.len() == 0 {
        Seq::empty()
    } else {
        join(parts.drop_last()) + parts.last()
    }
}

/// The number of bytes that the first `i` parts take.
pub open spec fn prefix_len(parts: Seq<Seq<u8>>, i: int) -> int
    decreases i,
{
    if i <= 0 {
        0
    } else {
        prefix_len(parts, i - 1) + parts[i - 1].len()
    }
}

/// Whether a part has the extent that `width` asks for.
pub open spec fn fits(part: Seq<u8>, width: Width) -> bool {
    match width {
        Width::Fixed(w) => part.len() == w,
        Width::Prefixed => {
            &&& 4 <= part.len() <= u32::MAX
            &&& part.subrange(0, 4) == spec_u32_to_le_bytes(part.len() as u32)
        },
        Width::Rest => true,
    }
}

/// Whether only the last width is `Rest`.
pub open spec fn well_formed(widths: Seq<Width>) -> bool {
    forall|i: int| 0 <= i < widths.len() && widths[i] is Rest ==> i == widths.len() - 1
}

/// Whether there is one part for each width, each of the extent asked for.
pub open spec fn conforms(parts: Seq<Seq<u8>>, widths: Seq<Width>) -> bool {
    &&& parts.len() == widths.len()
    &&& forall|i: int| 0 <= i < parts.len() ==> fits(#[trigger] parts[i], widths[i])
}

/// A prefix of the parts takes as many bytes whether or not later parts are counted.
pub proof fn lemma_prefix_len_take(parts: Seq<Seq<u8>>, n: int, i: int)
    requires
        0 <= i <= n <= parts.len(),
    ensures
        prefix_len(parts.take(n), i) == prefix_len(parts, i),
    decreases i,
{
    if i > 0 {
        lemma_prefix_len_take(parts, n, i - 1);
    }
}

/// Prefix lengths grow with the number of parts.
pub proof fn lemma_prefix_len_monotone(parts: Seq<Seq<u8>>, i: int, j: int)
    requires
        0 <= i <= j <= parts.len(),
    ensures
        0 <= prefix_len(parts, i) <= prefix_len(parts, j),
    decreases j,
{
    if j > 0 && i < j {
        lemma_prefix_len_monotone(parts, i, j - 1);
    }
    if i == j && j > 0 {
        lemma_prefix_len_monotone(parts, i - 1, j - 1);
    }
}

/// The joined parts are as long as all the parts together.
pub proof fn lemma_join_len(parts: Seq<Seq<u8>>)
    ensures
        join(parts).len() == prefix_len(parts, parts.len() as int),
    decreases parts.len(),
{
    if parts.len() > 0 {
        lemma_join_len(parts.drop_last());
        lemma_prefix_len_take(parts, parts.len() - 1, parts.len() - 1);
        assert(parts.drop_last() =~= parts.take(parts.len() - 1));
    }
}

/// Part `i` stands in the joined bytes right behind the parts before it.
pub proof fn lemma_join_part(parts: Seq<Seq<u8>>, i: int)
    requires
        0 <= i < parts.len(),
    ensures
        0 <= prefix_len(parts, i) <= prefix_len(parts, i + 1) <= join(parts).len(),
        join(parts).subrange(prefix_len(parts, i), prefix_len(parts, i + 1)) == parts[i],
    decreases parts.len(),
{
    let n = parts.len() as int;
    let front = parts.drop_last();
    lemma_join_len(parts);
    lemma_join_len(front);
    assert(front =~= parts.take(n - 1));
    lemma_prefix_len_take(parts, n - 1, n - 1);
    lemma_prefix_len_monotone(parts, i, i + 1);
    lemma_prefix_len_monotone(parts, i + 1, n);
    if i == n - 1 {
        assert(join(parts).subrange(prefix_len(parts, i), prefix_len(parts, i + 1)) =~= parts[i]);
    } else {
        lemma_join_part(front, i);
        lemma_prefix_len_take(parts, n - 1, i);
        lemma_prefix_len_take(parts, n - 1, i + 1);
        assert(join(parts).subrange(prefix_len(parts, i), prefix_len(parts, i + 1)) =~= join(
            front,
        ).subrange(prefix_len(front, i), prefix_len(front, i + 1)));
    }
}

/// Joining one more part appends it.
pub proof fn lemma_join_push(parts: Seq<Seq<u8>>, part: Seq<u8>)
    ensures
        join(parts.push(part)) == join(parts) + part,
{
    assert(parts.push(part).drop_last() =~= parts);
}

/// Two parts of one width that start at the same place in `bytes` end at the same place.
pub proof fn lemma_same_extent(a: Seq<u8>, b: Seq<u8>, width: Width, bytes: Seq<u8>, start: int)
    requires
        fits(a, width),
        fits(b, width),
        0 <= start,
        start + a.len() <= bytes.len(),
        start + b.len() <= bytes.len(),
        a == bytes.subrange(start, start + a.len()),
        b == bytes.subrange(start, start + b.len()),
        width is Rest ==> start + a.len() == bytes.len() && start + b.len() == bytes.len(),
    ensures
        a == b,
{
    if width is Prefixed {
        assert(a.subrange(0, 4) =~= bytes.subrange(start, start + 4));
        assert(b.subrange(0, 4) =~= bytes.subrange(start, start + 4));
        lemma_auto_spec_u32_to_from_le_bytes();
        assert(spec_u32_from_le_bytes(spec_u32_to_le_bytes(a.len() as u32)) == a.len());
        assert(spec_u32_from_le_bytes(spec_u32_to_le_bytes(b.len() as u32)) == b.len());
    }
}

/// Whether part `j` has the extent asked for and stands in `bytes` right behind the parts
/// before it, up to the end where it takes the rest.
pub open spec fn placed(parts: Seq<Seq<u8>>, widths: Seq<Width>, bytes: Seq<u8>, j: int) -> bool {
    &&& fits(parts[j], widths[j])
    &&& parts[j] == bytes.subrange(prefix_len(parts, j), prefix_len(parts, j + 1))
    &&& widths[j] is Rest ==> prefix_len(parts, j + 1) == bytes.len()
}

/// Two conforming lists of parts with the same joined bytes begin their parts at the same places.
pub proof fn lemma_prefix_determined(
    p: Seq<Seq<u8>>,
    q: Seq<Seq<u8>>,
    widths: Seq<Width>,
    bytes: Seq<u8>,
    i: int,
)
    requires
        well_formed(widths),
        conforms(p, widths),
        join(p) == bytes,
        0 <= i <= q.len() <= widths.len(),
        prefix_len(q, q.len() as int) <= bytes.len(),
        forall|j: int| 0 <= j < q.len() ==> #[trigger] placed(q, widths, bytes, j),
    ensures
        prefix_len(p, i) == prefix_len(q, i),
        forall|j: int| 0 <= j < i ==> #[trigger] p[j] == q[j],
    decreases i,
{
    if i > 0 {
        let k = i - 1;
        lemma_prefix_determined(p, q, widths, bytes, k);
        lemma_join_part(p, k);
        lemma_join_len(p);
        lemma_prefix_len_monotone(q, k, k + 1);
        lemma_prefix_len_monotone(q, k + 1, q.len() as int);
        lemma_prefix_len_monotone(p, k + 1, p.len() as int);
        let start = prefix_len(p, k);
        assert(fits(p[k], widths[k]));
        assert(placed(q, widths, bytes, k));
        if widths[k] is Rest {
            assert(k == widths.len() - 1);
        }
        lemma_same_extent(p[k], q[k], widths[k], bytes, start);
    }
}

/// Conforming parts are determined by their joined bytes.
pub proof fn lemma_join_injective(p: Seq<Seq<u8>>, q: Seq<Seq<u8>>, widths: Seq<Width>)
    requires
        well_formed(widths),
        conforms(p, widths),
        conforms(q, widths),
        join(p) == join(q),
    ensures
        p == q,
{
    lemma_join_len(q);
    assert forall|j: int| 0 <= j < q.len() implies #[trigger] placed(q, widths, join(q), j) by {
        lemma_join_part(q, j);
        assert(fits(q[j], widths[j]));
    }
    lemma_prefix_determined(p, q, widths, join(q), q.len() as int);
    assert(p =~= q);
}

/// Cuts `bytes` into the parts that `widths` describes.
///
/// Succeeds exactly when `bytes` is some conforming list of parts joined, and then
/// returns that list.
pub fn split(bytes: &[u8], widths: &Vec<Width>) -> (r: Result<Vec<Vec<u8>>, DecodeError>)
    requires
        well_formed(widths@),
    ensures
        match r {
            Ok(parts) => conforms(views(parts@), widths@) && join(views(parts@)) == bytes@,
            Err(_) => forall|p: Seq<Seq<u8>>| conforms(p, widths@) ==> #[trigger] join(p) != bytes@,
        },
{
    let mut parts: Vec<Vec<u8>> = Vec::new();
    let mut pos: usize = 0;
    let mut i: usize = 0;
    while i < widths.len()
        invariant
            well_formed(widths@),
            i <= widths.len(),
            parts.len() == i,
            pos <= bytes.len(),
            pos == prefix_len(views(parts@), i as int),
            join(views(parts@)) == bytes@.subrange(0, pos as int),
            forall|j: int| 0 <= j < i ==> #[trigger] placed(views(parts@), widths@, bytes@, j),
        decreases widths.len() - i,
    {
        let ghost done = views(parts@);
        let remaining: usize = bytes.len() - pos;
        let mut size: usize = remaining;
        let mut bad = false;
        match widths[i] {
            Width::Fixed(w) => {
                size = w;
            },
            Width::Prefixed => {
                if remaining < 4 {
                    bad = true;
                } else {
                    let word = u32_from_le_bytes(slice_subrange(bytes, pos, pos + 4));
                    size = word as usize;
                    if size < 4 {
                        bad = true;
                    }
                    proof {
                        lemma_auto_spec_u32_to_from_le_bytes();
                    }
                }
            },
            Width::Rest => {},
        }
        if bad || size > remaining {
            proof {
                assert forall|p: Seq<Seq<u8>>| conforms(p, widths@) implies #[trigger] join(p)
                    != bytes@ by {
                    if join(p) == bytes@ {
                        lemma_prefix_determined(p, done, widths@, bytes@, i as int);
                        lemma_join_part(p, i as int);
                        assert(fits(p[i as int], widths@[i as int]));
                        assert(p[i as int].subrange(0, 4) =~= bytes@.subrange(
                            pos as int,
                            pos + 4,
                        ));
                    }
                }
            }
            return Err(DecodeError::Malformed);
        }
        let part = slice_to_vec(slice_subrange(bytes, pos, pos + size));
        proof {
            lemma_join_push(done, part@);
            assert(views(parts@.push(part)) =~= done.push(part@));
            assert(bytes@.subrange(0, pos as int) + part@ =~= bytes@.subrange(0, pos + size));
            let next = done.push(part@);
            assert forall|j: int| 0 <= j <= i + 1 implies prefix_len(next, j) == if j <= i {
                prefix_len(done, j)
            } else {
                pos + size
            } by {
                assert(next.take(i as int) =~= done);
                if j <= i {
                    lemma_prefix_len_take(next, i as int, j);
                    lemma_prefix_len_take(done, i as int, j);
                } else {
                    lemma_prefix_len_take(next, i as int, i as int);
                    lemma_prefix_len_take(done, i as int, i as int);
                }
            }
            if widths@[i as int] is Prefixed {
                assert(part@.subrange(0, 4) =~= bytes@.subrange(pos as int, pos + 4));
            }
            assert forall|j: int| 0 <= j < i + 1 implies #[trigger] placed(
                next,
                widths@,
                bytes@,
                j,
            ) by {
                if j < i {
                    assert(placed(done, widths@, bytes@, j));
                    assert(next[j] == done[j]);
                }
            }
        }
        parts.push(part);
        pos = pos + size;
        i = i + 1;
    }
    if pos != bytes.len() {
        proof {
            let done = views(parts@);
            assert forall|p: Seq<Seq<u8>>| conforms(p, widths@) implies #[trigger] join(p)
                != bytes@ by {
                if join(p) == bytes@ {
                    lemma_prefix_determined(p, done, widths@, bytes@, i as int);
                    lemma_join_len(p);
                }
            }
        }
        return Err(DecodeError::Malformed);
    }
    proof {
        assert(bytes@.subrange(0, pos as int) =~= bytes@);
        assert forall|j: int| 0 <= j < parts.len() implies fits(
            #[trigger] views(parts@)[j],
            widths@[j],
        ) by {
            assert(placed(views(parts@), widths@, bytes@, j));
        }
    }
    Ok(parts)
}

} // verus!
