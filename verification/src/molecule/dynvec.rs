use vstd::prelude::*;
use crate::molecule::layout::{fits, lemma_join_len, views, DecodeError, Width};
use crate::molecule::table::{
    assemble, lemma_table_injective, lemma_table_word, table, table_parts, table_size,
};
use crate::molecule::value::{decodes, Molecule};

verus! {

/// The encodings of the items of a dynamic vector, each in the table layout.
pub open spec fn item_encodings<T: Molecule>(items: Seq<T>) -> Seq<Seq<u8>> {
    Seq::new(items.len(), |i: int| items[i].encoding(false))
}

/// Whether a dynamic vector can be encoded: each item can, and the table of them fits
/// the 32-bit sizes of the format.
pub open spec fn dynvec_encodable<T: Molecule>(items: Seq<T>) -> bool {
    &&& forall|i: int| 0 <= i < items.len() ==> (#[trigger] items[i]).encodable()
    &&& table_size(item_encodings(items)) <= u32::MAX
}

/// The encoding of a dynamic vector: the table of its items' encodings.
pub open spec fn dynvec_encoding<T: Molecule>(items: Seq<T>) -> Seq<u8> {
    table(item_encodings(items))
}

/// Whether two vectors hold the same items in the same order.
pub open spec fn same_items<T: Molecule>(a: Seq<T>, b: Seq<T>) -> bool {
    &&& a.len() == b.len()
    &&& forall|i: int| 0 <= i < a.len() ==> (#[trigger] a[i]).same(&b[i])
}

/// Whether `bytes` is the table of `parts`.
pub open spec fn is_table_of(bytes: Seq<u8>, parts: Seq<Seq<u8>>) -> bool {
    table_size(parts) <= u32::MAX && table(parts) == bytes
}

/// Part `index` of the table `bytes`; none where `bytes` is no table or has no such
/// part.
pub open spec fn table_part(bytes: Seq<u8>, index: int) -> Option<Seq<u8>> {
    if exists|parts: Seq<Seq<u8>>| is_table_of(bytes, parts) && 0 <= index < parts.len() {
        let parts = choose|parts: Seq<Seq<u8>>| is_table_of(bytes, parts) && 0 <= index < parts.len();
        Some(parts[index])
    } else {
        None
    }
}

/// The parts of a table are found by their index.
pub proof fn lemma_table_part(parts: Seq<Seq<u8>>, index: int)
    requires
        table_size(parts) <= u32::MAX,
    ensures
        table_part(table(parts), index) == if 0 <= index < parts.len() {
            Some(parts[index])
        } else {
            None
        },
{
    let bytes = table(parts);
    assert(is_table_of(bytes, parts));
    assert forall|other: Seq<Seq<u8>>| is_table_of(bytes, other) implies other == parts by {
        lemma_table_injective(other, parts);
    }
}

/// Element `i` of an encoded dynamic vector is the encoding of item `i` alone, so
/// decoding the element gives what decoding that encoding gives: item `i`.
pub proof fn lemma_dynvec_element<T: Molecule>(items: Seq<T>, i: int)
    requires
        dynvec_encodable(items),
        0 <= i < items.len(),
    ensures
        table_part(dynvec_encoding(items), i) == Some(items[i].encoding(false)),
{
    lemma_table_part(item_encodings(items), i);
}

/// Dynamic vectors with the same encoding hold the same items.
pub proof fn lemma_dynvec_injective<T: Molecule>(a: Seq<T>, b: Seq<T>)
    requires
        dynvec_encodable(a),
        dynvec_encodable(b),
        dynvec_encoding(a) == dynvec_encoding(b),
    ensures
        same_items(a, b),
{
    lemma_table_injective(item_encodings(a), item_encodings(b));
    assert(a.len() == item_encodings(a).len());
    assert(b.len() == item_encodings(b).len());
    assert forall|i: int| 0 <= i < a.len() implies (#[trigger] a[i]).same(&b[i]) by {
        assert(item_encodings(a)[i] == item_encodings(b)[i]);
        T::lemma_injective(a[i], b[i], false);
    }
}

/// An encoded dynamic vector begins with its own size.
pub proof fn lemma_dynvec_prefixed<T: Molecule>(items: Seq<T>)
    requires
        dynvec_encodable(items),
    ensures
        fits(dynvec_encoding(items), Width::Prefixed),
{
    lemma_table_word(item_encodings(items), 0);
    lemma_join_len(item_encodings(items));
}

/// Encodes a dynamic vector.
pub fn encode_dynvec<T: Molecule>(items: &Vec<T>) -> (bytes: Vec<u8>)
    requires
        dynvec_encodable(items@),
    ensures
        bytes@ == dynvec_encoding(items@),
{
    let mut parts: Vec<Vec<u8>> = Vec::new();
    let mut i: usize = 0;
    while i < items.len()
        invariant
            i <= items.len(),
            parts.len() == i,
            dynvec_encodable(items@),
            forall|j: int| 0 <= j < i ==> (#[trigger] parts@[j])@ == items@[j].encoding(false),
        decreases items.len() - i,
    {
        let part = items[i].encode(false);
        parts.push(part);
        i = i + 1;
    }
    assert(views(parts@) =~= item_encodings(items@));
    assemble(&parts, false)
}

/// Decodes element `index` of an encoded dynamic vector without decoding the others:
/// gives the value that this element encodes, or an error where there is no such
/// element or it encodes no value.
pub fn decode_dynvec_item<T: Molecule>(bytes: &[u8], index: usize) -> (r: Result<T, DecodeError>)
    ensures
        match table_part(bytes@, index as int) {
            Some(part) => decodes(part, false, r),
            None => r == Err::<T, DecodeError>(DecodeError::Malformed),
        },
{
    match table_parts(bytes) {
        Ok(parts) => {
            proof {
                lemma_table_part(views(parts@), index as int);
            }
            if index < parts.len() {
                T::decode(parts[index].as_slice(), false)
            } else {
                Err(DecodeError::Malformed)
            }
        },
        Err(e) => Err(e),
    }
}

/// Decodes a dynamic vector: gives the items whose encoding is `bytes`, or an error if
/// there are none.
pub fn decode_dynvec<T: Molecule>(bytes: &[u8]) -> (r: Result<Vec<T>, DecodeError>)
    ensures
        match r {
            Ok(items) => dynvec_encodable(items@) && dynvec_encoding(items@) == bytes@,
            Err(e) => e == DecodeError::Malformed && forall|items: Seq<T>|
                dynvec_encodable(items) ==> #[trigger] dynvec_encoding(items) != bytes@,
        },
{
    let parts = match table_parts(bytes) {
        Ok(parts) => parts,
        Err(e) => {
            return Err(e);
        },
    };
    let mut items: Vec<T> = Vec::new();
    let mut i: usize = 0;
    while i < parts.len()
        invariant
            i <= parts.len(),
            items.len() == i,
            table_size(views(parts@)) <= u32::MAX,
            table(views(parts@)) == bytes@,
            forall|j: int| 0 <= j < i ==> (#[trigger] items@[j]).encodable(),
            forall|j: int| 0 <= j < i ==> (#[trigger] items@[j]).encoding(false) == parts@[j]@,
        decreases parts.len() - i,
    {
        match T::decode(parts[i].as_slice(), false) {
            Ok(item) => {
                items.push(item);
            },
            Err(e) => {
                assert forall|other: Seq<T>| dynvec_encodable(other) implies #[trigger] dynvec_encoding(
                    other,
                ) != bytes@ by {
                    if dynvec_encoding(other) == bytes@ {
                        lemma_table_injective(item_encodings(other), views(parts@));
                        assert(item_encodings(other)[i as int] == views(parts@)[i as int]);
                        assert(other[i as int].encodable());
                    }
                }
                return Err(e);
            },
        }
        i = i + 1;
    }
    assert(item_encodings(items@) =~= views(parts@));
    Ok(items)
}

} // verus!
