use vstd::prelude::*;
use vstd::bytes::{spec_u32_from_le_bytes, spec_u32_to_le_bytes};
use vstd::bytes::lemma_auto_spec_u32_to_from_le_bytes;
use crate::molecule::layout::{
    conforms, fits, join, lemma_join_injective, lemma_join_len, lemma_join_part,
    lemma_join_push, lemma_prefix_len_monotone, prefix_len, split, views, well_formed,
    DecodeError, Width,
};

verus! {

/// The error of `serde_molecule`. Nothing is read from a value of it: every such error
/// becomes `DecodeError::Malformed`.
#[verifier::external_type_specification]
#[verifier::external_body]
pub struct ExMoleculeError(serde_molecule::Error);

/// The number of bytes of the table that holds `parts`: a header of one 32-bit word for
/// the size and one for each part, then the parts.
pub open spec fn table_size(parts: Seq<Seq<u8>>) -> int {
    4 * (parts.len() + 1) + prefix_len(parts, parts.len() as int)
}

/// Word `k` of the header: the table's size first, then the offset of each part.
pub open spec fn table_word(parts: Seq<Seq<u8>>, k: int) -> int {
    if k == 0 {
        table_size(parts)
    } else {
        4 * (parts.len() + 1) + prefix_len(parts, k - 1)
    }
}

/// The header of the table that holds `parts`, each word as four little-endian bytes.
pub open spec fn table_header(parts: Seq<Seq<u8>>) -> Seq<u8> {
    Seq::new(
        (4 * (parts.len() + 1)) as nat,
        |b: int| spec_u32_to_le_bytes(table_word(parts, b / 4) as u32)[b % 4],
    )
}

/// The table that holds `parts`: the header, then the parts one after another.
pub open spec fn table(parts: Seq<Seq<u8>>) -> Seq<u8> {
    table_header(parts) + join(parts)
}

/// The parts written in the fixed layout (`is_struct`) or as a table.
pub open spec fn frame(parts: Seq<Seq<u8>>, is_struct: bool) -> Seq<u8> {
    if is_struct {
        join(parts)
    } else {
        table(parts)
    }
}

/// Header word `k` of a table is the table's bytes `4k .. 4k + 4`.
pub proof fn lemma_table_word(parts: Seq<Seq<u8>>, k: int)
    requires
        0 <= k <= parts.len(),
        table_size(parts) <= u32::MAX,
    ensures
        table(parts).len() == table_size(parts),
        0 <= table_word(parts, k) <= table_size(parts),
        table(parts).subrange(4 * k, 4 * k + 4) == spec_u32_to_le_bytes(
            table_word(parts, k) as u32,
        ),
        spec_u32_from_le_bytes(table(parts).subrange(4 * k, 4 * k + 4)) == table_word(parts, k),
{
    lemma_join_len(parts);
    lemma_auto_spec_u32_to_from_le_bytes();
    if k > 0 {
        lemma_prefix_len_monotone(parts, k - 1, parts.len() as int);
    } else {
        lemma_prefix_len_monotone(parts, 0, parts.len() as int);
    }
    let word = spec_u32_to_le_bytes(table_word(parts, k) as u32);
    assert(word.len() == 4);
    assert forall|b: int| 0 <= b < 4 implies table(parts).subrange(4 * k, 4 * k + 4)[b]
        == word[b] by {
        assert((4 * k + b) / 4 == k);
        assert((4 * k + b) % 4 == b);
        assert(table(parts)[4 * k + b] == table_header(parts)[4 * k + b]);
    }
    assert(table(parts).subrange(4 * k, 4 * k + 4) =~= word);
}

/// A table determines its parts.
pub proof fn lemma_table_injective(p: Seq<Seq<u8>>, q: Seq<Seq<u8>>)
    requires
        table_size(p) <= u32::MAX,
        table_size(q) <= u32::MAX,
        table(p) == table(q),
    ensures
        p == q,
{
    lemma_table_word(p, 0);
    lemma_table_word(q, 0);
    lemma_prefix_len_monotone(p, 0, p.len() as int);
    lemma_prefix_len_monotone(q, 0, q.len() as int);
    if p.len() == 0 || q.len() == 0 {
        assert(p =~= q);
    } else {
        lemma_table_word(p, 1);
        lemma_table_word(q, 1);
        let n = p.len() as int;
        assert(q.len() == n);
        assert forall|k: int| 0 <= k <= n implies prefix_len(p, k) == prefix_len(q, k) by {
            if k < n {
                lemma_table_word(p, k + 1);
                lemma_table_word(q, k + 1);
            }
        }
        lemma_join_len(p);
        lemma_join_len(q);
        assert(join(p) =~= table(p).subrange(4 * (n + 1), table(p).len() as int));
        assert(join(q) =~= table(q).subrange(4 * (n + 1), table(q).len() as int));
        assert forall|j: int| 0 <= j < n implies p[j] == q[j] by {
            lemma_join_part(p, j);
            lemma_join_part(q, j);
        }
        assert(p =~= q);
    }
}

/// Conforming parts are determined by their frame, in either layout.
pub proof fn lemma_frame_injective(
    p: Seq<Seq<u8>>,
    q: Seq<Seq<u8>>,
    widths: Seq<Width>,
    is_struct: bool,
)
    requires
        well_formed(widths),
        conforms(p, widths),
        conforms(q, widths),
        table_size(p) <= u32::MAX,
        table_size(q) <= u32::MAX,
        frame(p, is_struct) == frame(q, is_struct),
    ensures
        p == q,
{
    if is_struct {
        lemma_join_injective(p, q, widths);
    } else {
        lemma_table_injective(p, q);
    }
}

/// Calls `serde_molecule::molecule::assemble_table`, which writes the size of the whole
/// table, then the offset of each part, each as a 32-bit little-endian word, then the
/// parts in order. The sizes are computed in 32 bits, so the table must fit.
#[verifier::external_body]
fn call_assemble_table(parts: &Vec<Vec<u8>>) -> (bytes: Vec<u8>)
    requires
        table_size(views(parts@)) <= u32::MAX,
    ensures
        bytes@ == table(views(parts@)),
{
    serde_molecule::molecule::assemble_table(parts)
}

/// Calls `serde_molecule::molecule::disassemble_table`, which accepts exactly the bytes
/// whose first word is their length and whose further header words are the offsets of
/// consecutive parts that start right behind the header and end at the end of the bytes,
/// and which returns those parts.
#[verifier::external_body]
fn call_disassemble_table(bytes: &[u8]) -> (r: Result<Vec<Vec<u8>>, serde_molecule::Error>)
    ensures
        match r {
            Ok(parts) => table_size(views(parts@)) <= u32::MAX && table(views(parts@)) == bytes@,
            Err(_) => forall|p: Seq<Seq<u8>>|
                table_size(p) <= u32::MAX ==> #[trigger] table(p) != bytes@,
        },
{
    let parts = serde_molecule::molecule::disassemble_table(bytes)?;
    Ok(parts.into_iter().map(|part| part.to_vec()).collect())
}

/// Reads back the parts of a table.
///
/// Succeeds exactly when `bytes` is the table of some parts, and then returns them.
pub fn table_parts(bytes: &[u8]) -> (r: Result<Vec<Vec<u8>>, DecodeError>)
    ensures
        match r {
            Ok(parts) => table_size(views(parts@)) <= u32::MAX && table(views(parts@)) == bytes@,
            Err(e) => e == DecodeError::Malformed && forall|p: Seq<Seq<u8>>|
                table_size(p) <= u32::MAX ==> #[trigger] table(p) != bytes@,
        },
{
    match call_disassemble_table(bytes) {
        Ok(parts) => Ok(parts),
        Err(_) => Err(DecodeError::Malformed),
    }
}

/// Whether `part` has the extent that `width` asks for.
pub fn part_fits(part: &Vec<u8>, width: &Width) -> (b: bool)
    ensures
        b == fits(part@, *width),
{
    match width {
        Width::Fixed(w) => part.len() == *w,
        Width::Prefixed => {
            if part.len() < 4 || part.len() > 0xffff_ffff {
                false
            } else {
                let size = part.len() as u32;
                let word = vstd::bytes::u32_to_le_bytes(size);
                let same = part[0] == word[0] && part[1] == word[1] && part[2] == word[2]
                    && part[3] == word[3];
                proof {
                    lemma_auto_spec_u32_to_from_le_bytes();
                    if same {
                        assert(part@.subrange(0, 4) =~= word@);
                    } else {
                        assert(part@.subrange(0, 4)[0] == part@[0]);
                        assert(part@.subrange(0, 4)[1] == part@[1]);
                        assert(part@.subrange(0, 4)[2] == part@[2]);
                        assert(part@.subrange(0, 4)[3] == part@[3]);
                    }
                }
                same
            }
        },
        Width::Rest => true,
    }
}

/// Writes the parts in the fixed layout (`is_struct`) or as a table.
pub fn assemble(parts: &Vec<Vec<u8>>, is_struct: bool) -> (bytes: Vec<u8>)
    requires
        table_size(views(parts@)) <= u32::MAX,
    ensures
        bytes@ == frame(views(parts@), is_struct),
{
    if is_struct {
        let mut bytes: Vec<u8> = Vec::new();
        let mut i: usize = 0;
        while i < parts.len()
            invariant
                i <= parts.len(),
                bytes@ == join(views(parts@).take(i as int)),
            decreases parts.len() - i,
        {
            proof {
                lemma_join_push(views(parts@).take(i as int), parts@[i as int]@);
                assert(views(parts@).take(i as int).push(parts@[i as int]@) =~= views(
                    parts@,
                ).take(i + 1));
            }
            let ghost before = bytes@;
            bytes.extend_from_slice(parts[i].as_slice());
            assert(bytes@ =~= before + parts@[i as int]@);
            i = i + 1;
        }
        proof {
            assert(views(parts@).take(i as int) =~= views(parts@));
        }
        bytes
    } else {
        call_assemble_table(parts)
    }
}

/// Reads back the parts that `widths` describes from their frame.
///
/// Succeeds exactly when `bytes` is the frame of some conforming list of parts, and
/// then returns that list.
pub fn disassemble(bytes: &[u8], widths: &Vec<Width>, is_struct: bool) -> (r: Result<
    Vec<Vec<u8>>,
    DecodeError,
>)
    requires
        well_formed(widths@),
    ensures
        match r {
            Ok(parts) => {
                &&& conforms(views(parts@), widths@)
                &&& table_size(views(parts@)) <= u32::MAX
                &&& frame(views(parts@), is_struct) == bytes@
            },
            Err(_) => forall|p: Seq<Seq<u8>>|
                conforms(p, widths@) && table_size(p) <= u32::MAX ==> #[trigger] frame(
                    p,
                    is_struct,
                ) != bytes@,
        },
{
    if is_struct {
        match split(bytes, widths) {
            Ok(parts) => {
                proof {
                    lemma_join_len(views(parts@));
                }
                if bytes.len() > 0xffff_ffff || parts.len() > 0x3fff_fffe || 4 * (parts.len() as u64
                    + 1) + bytes.len() as u64 > 0xffff_ffff {
                    proof {
                        assert forall|p: Seq<Seq<u8>>|
                            conforms(p, widths@) && table_size(p)
                                <= u32::MAX implies #[trigger] frame(p, is_struct) != bytes@ by {
                            if join(p) == bytes@ {
                                lemma_join_injective(p, views(parts@), widths@);
                            }
                        }
                    }
                    return Err(DecodeError::Malformed);
                }
                Ok(parts)
            },
            Err(e) => Err(e),
        }
    } else {
        match table_parts(bytes) {
            Ok(parts) => {
                let mut ok = parts.len() == widths.len();
                let mut i: usize = 0;
                while ok && i < parts.len()
                    invariant
                        i <= parts.len(),
                        ok ==> parts.len() == widths.len(),
                        ok ==> forall|j: int|
                            0 <= j < i ==> fits(#[trigger] views(parts@)[j], widths@[j]),
                        !ok ==> !conforms(views(parts@), widths@),
                    decreases parts.len() - i + if ok { 1int } else { 0int },
                {
                    if part_fits(&parts[i], &widths[i]) {
                        i = i + 1;
                    } else {
                        ok = false;
                        assert(!fits(views(parts@)[i as int], widths@[i as int]));
                    }
                }
                if ok {
                    Ok(parts)
                } else {
                    proof {
                        assert forall|p: Seq<Seq<u8>>|
                            conforms(p, widths@) && table_size(p)
                                <= u32::MAX implies #[trigger] frame(p, is_struct) != bytes@ by {
                            if table(p) == bytes@ {
                                lemma_table_injective(p, views(parts@));
                            }
                        }
                    }
                    Err(DecodeError::Malformed)
                }
            },
            Err(_) => Err(DecodeError::Malformed),
        }
    }
}

} // verus!
