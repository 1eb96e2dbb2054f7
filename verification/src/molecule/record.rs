use vstd::prelude::*;
use crate::molecule::layout::{conforms, views, well_formed, DecodeError, Width};
use crate::molecule::table::{
    assemble, disassemble, frame, lemma_frame_injective, table_size,
};

verus! {

/// A value made of fields that are encoded one by one and then framed together.
pub trait Record: Sized {
    /// How the extent of each field's encoding is found in the fixed layout.
    spec fn widths() -> Seq<Width>;

    /// The encodings of the fields, in the order they are declared.
    spec fn parts(&self) -> Seq<Seq<u8>>;

    /// Whether each field can be encoded.
    spec fn fields_encodable(&self) -> bool;

    /// Whether two records hold the same fields.
    spec fn same_fields(&self, other: &Self) -> bool;

    /// Only the last field may take the rest of the bytes.
    proof fn lemma_widths()
        ensures
            well_formed(Self::widths()),
    ;

    /// The encodings of the fields have the extents that are declared for them.
    proof fn lemma_parts(v: Self)
        requires
            v.fields_encodable(),
        ensures
            conforms(v.parts(), Self::widths()),
    ;

    /// The encodings of the fields determine the value.
    proof fn lemma_parts_injective(a: Self, b: Self)
        requires
            a.fields_encodable(),
            b.fields_encodable(),
            a.parts() == b.parts(),
        ensures
            a.same_fields(&b),
    ;

    /// The declared extents, as a value.
    fn field_widths() -> (widths: Vec<Width>)
        ensures
            widths@ == Self::widths(),
    ;

    /// Encodes each field.
    fn to_parts(&self) -> (parts: Vec<Vec<u8>>)
        requires
            self.fields_encodable(),
        ensures
            views(parts@) == self.parts(),
    ;

    /// Decodes each field: gives the value whose fields encode to `parts`, or an error
    /// if there is none.
    fn from_parts(parts: &Vec<Vec<u8>>) -> (r: Result<Self, DecodeError>)
        requires
            conforms(views(parts@), Self::widths()),
        ensures
            match r {
                Ok(v) => v.fields_encodable() && v.parts() == views(parts@),
                Err(_) => forall|v: Self|
                    v.fields_encodable() ==> #[trigger] v.parts() != views(parts@),
            },
    ;
}

/// Whether a record can be encoded: each field can, and the table of them fits the
/// 32-bit sizes of the format.
pub open spec fn record_encodable<T: Record>(v: T) -> bool {
    v.fields_encodable() && table_size(v.parts()) <= u32::MAX
}

/// The encoding of a record: its fields' encodings, framed.
pub open spec fn record_encoding<T: Record>(v: T, is_struct: bool) -> Seq<u8> {
    frame(v.parts(), is_struct)
}

/// Different records have different encodings.
pub proof fn lemma_record_injective<T: Record>(a: T, b: T, is_struct: bool)
    requires
        record_encodable(a),
        record_encodable(b),
        record_encoding(a, is_struct) == record_encoding(b, is_struct),
    ensures
        a.same_fields(&b),
{
    T::lemma_widths();
    T::lemma_parts(a);
    T::lemma_parts(b);
    lemma_frame_injective(a.parts(), b.parts(), T::widths(), is_struct);
    T::lemma_parts_injective(a, b);
}

/// Encodes a record.
pub fn encode_record<T: Record>(v: &T, is_struct: bool) -> (bytes: Vec<u8>)
    requires
        record_encodable(*v),
    ensures
        bytes@ == record_encoding(*v, is_struct),
{
    let parts = v.to_parts();
    assemble(&parts, is_struct)
}

/// Decodes a record: gives the record whose encoding is `bytes`, or an error if there
/// is none.
pub fn decode_record<T: Record>(bytes: &[u8], is_struct: bool) -> (r: Result<T, DecodeError>)
    ensures
        match r {
            Ok(v) => record_encodable(v) && record_encoding(v, is_struct) == bytes@,
            Err(e) => e == DecodeError::Malformed && forall|v: T|
                record_encodable(v) ==> #[trigger] record_encoding(v, is_struct) != bytes@,
        },
{
    let widths = T::field_widths();
    proof {
        T::lemma_widths();
    }
    match disassemble(bytes, &widths, is_struct) {
        Ok(parts) => match T::from_parts(&parts) {
            Ok(v) => Ok(v),
            Err(_) => {
                proof {
                    assert forall|v: T| record_encodable(v) implies #[trigger] record_encoding(
                        v,
                        is_struct,
                    ) != bytes@ by {
                        T::lemma_parts(v);
                        if frame(v.parts(), is_struct) == bytes@ {
                            lemma_frame_injective(
                                v.parts(),
                                views(parts@),
                                T::widths(),
                                is_struct,
                            );
                        }
                    }
                }
                Err(DecodeError::Malformed)
            },
        },
        Err(_) => {
            proof {
                assert forall|v: T| record_encodable(v) implies #[trigger] record_encoding(
                    v,
                    is_struct,
                ) != bytes@ by {
                    T::lemma_parts(v);
                }
            }
            Err(DecodeError::Malformed)
        },
    }
}

} // verus!
