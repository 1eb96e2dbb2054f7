use vstd::prelude::*;
use crate::molecule::layout::DecodeError;
use crate::molecule::value::Molecule;

verus! {

/// Selects, for each of the four fields of a cell, the layout its value is written in:
/// `true` for the fixed layout (the parts one after another), `false` for the table
/// layout (a header of offsets in front of the parts).
#[derive(Clone, Copy, Debug, PartialEq, Eq, Structural)]
pub struct MoleculeStructFlag {
    pub lock_arg: bool,
    pub type_arg: bool,
    pub data: bool,
    pub witness: bool,
}

/// The flag that selects the fixed layout for every field.
pub open spec fn default_flag() -> MoleculeStructFlag {
    MoleculeStructFlag { lock_arg: true, type_arg: true, data: true, witness: true }
}

impl Default for MoleculeStructFlag {
    fn default() -> (flag: Self)
        ensures
            flag == default_flag(),
    {
        MoleculeStructFlag { lock_arg: true, type_arg: true, data: true, witness: true }
    }
}

/// The bytes behind an optional vector.
pub open spec fn bytes_view(bytes: Option<Vec<u8>>) -> Option<Seq<u8>> {
    match bytes {
        Some(b) => Some(b@),
        None => None,
    }
}

/// Whether an optional value, if it is there, can be encoded.
pub open spec fn optional_encodable<T: Molecule>(v: Option<T>) -> bool {
    match v {
        Some(x) => x.encodable(),
        None => true,
    }
}

/// The encoding of an optional value: none for an absent one.
pub open spec fn optional_encoding<T: Molecule>(v: Option<T>, is_struct: bool) -> Option<
    Seq<u8>,
> {
    match v {
        Some(x) => Some(x.encoding(is_struct)),
        None => None,
    }
}

/// Whether two optional values are both absent or hold the same value.
pub open spec fn optional_same<T: Molecule>(a: Option<T>, b: Option<T>) -> bool {
    match (a, b) {
        (Some(x), Some(y)) => x.same(&y),
        (None, None) => true,
        _ => false,
    }
}

/// Optional values with the same encoding are the same.
pub proof fn lemma_optional_injective<T: Molecule>(a: Option<T>, b: Option<T>, is_struct: bool)
    requires
        optional_encodable(a),
        optional_encodable(b),
        optional_encoding(a, is_struct) == optional_encoding(b, is_struct),
    ensures
        optional_same(a, b),
{
    if let (Some(x), Some(y)) = (a, b) {
        T::lemma_injective(x, y, is_struct);
    }
}

/// Whether an optional value, if it is there, can be encoded.
pub fn optional_is_encodable<T: Molecule>(v: &Option<T>) -> (b: bool)
    ensures
        b == optional_encodable(*v),
{
    match v {
        Some(x) => x.is_encodable(),
        None => true,
    }
}

/// Encodes an optional value.
pub fn encode_optional<T: Molecule>(v: &Option<T>, is_struct: bool) -> (bytes: Option<Vec<u8>>)
    requires
        optional_encodable(*v),
    ensures
        bytes_view(bytes) == optional_encoding(*v, is_struct),
{
    match v {
        Some(x) => Some(x.encode(is_struct)),
        None => None,
    }
}

/// Decodes an optional value: none from no bytes, else the value that the bytes encode.
pub fn decode_optional<T: Molecule>(bytes: &Option<Vec<u8>>, is_struct: bool) -> (r: Result<
    Option<T>,
    DecodeError,
>)
    ensures
        match r {
            Ok(v) => optional_encodable(v) && optional_encoding(v, is_struct) == bytes_view(
                *bytes,
            ),
            Err(e) => e == DecodeError::Malformed && forall|v: Option<T>|
                optional_encodable(v) ==> #[trigger] optional_encoding(v, is_struct)
                    != bytes_view(*bytes),
        },
{
    match bytes {
        Some(b) => match T::decode(b.as_slice(), is_struct) {
            Ok(x) => Ok(Some(x)),
            Err(e) => {
                assert forall|v: Option<T>| optional_encodable(v) implies #[trigger] optional_encoding(
                    v,
                    is_struct,
                ) != bytes_view(*bytes) by {
                    if let Some(x) = v {
                        assert(x.encoding(is_struct) != b@);
                    }
                }
                Err(e)
            },
        },
        None => Ok(None),
    }
}

/// A cell record: a lock argument, an optional type argument, data and an optional
/// witness, each with a byte encoding chosen by the record's flag.
pub trait Cell: Sized {
    /// The flag that chooses the layout of each field.
    spec fn struct_flag(&self) -> MoleculeStructFlag;

    /// Whether every field can be encoded.
    spec fn encodable(&self) -> bool;

    /// The encoding of the lock argument.
    spec fn lock_arg_bytes(&self) -> Seq<u8>;

    /// The encoding of the type argument, if there is one.
    spec fn type_arg_bytes(&self) -> Option<Seq<u8>>;

    /// The encoding of the data.
    spec fn data_bytes(&self) -> Seq<u8>;

    /// The encoding of the witness, if there is one.
    spec fn witness_bytes(&self) -> Option<Seq<u8>>;

    /// Whether two records hold the same fields and flag.
    spec fn same(&self, other: &Self) -> bool;

    /// Records with the same flag and the same four encodings are the same.
    proof fn lemma_injective(a: Self, b: Self)
        requires
            a.encodable(),
            b.encodable(),
            a.struct_flag() == b.struct_flag(),
            a.lock_arg_bytes() == b.lock_arg_bytes(),
            a.type_arg_bytes() == b.type_arg_bytes(),
            a.data_bytes() == b.data_bytes(),
            a.witness_bytes() == b.witness_bytes(),
        ensures
            a.same(&b),
    ;

    /// Whether every field can be encoded.
    fn is_encodable(&self) -> (b: bool)
        ensures
            b == self.encodable(),
    ;

    fn get_lock_arg(&self) -> (bytes: Vec<u8>)
        requires
            self.encodable(),
        ensures
            bytes@ == self.lock_arg_bytes(),
    ;

    fn get_type_arg(&self) -> (bytes: Option<Vec<u8>>)
        requires
            self.encodable(),
        ensures
            bytes_view(bytes) == self.type_arg_bytes(),
    ;

    fn get_data(&self) -> (bytes: Vec<u8>)
        requires
            self.encodable(),
        ensures
            bytes@ == self.data_bytes(),
    ;

    fn get_witness(&self) -> (bytes: Option<Vec<u8>>)
        requires
            self.encodable(),
        ensures
            bytes_view(bytes) == self.witness_bytes(),
    ;

    /// Reads a record back from the four encodings, each in the fixed layout: the
    /// record with the default flag that has these encodings, or an error if there is
    /// none. An optional field without bytes is absent.
    fn from_arg(
        lock_arg: Vec<u8>,
        type_arg: Option<Vec<u8>>,
        data1: Vec<u8>,
        witness_args: Option<Vec<u8>>,
    ) -> (r: Result<Self, DecodeError>)
        ensures
            match r {
                Ok(cell) => {
                    &&& cell.encodable()
                    &&& cell.struct_flag() == default_flag()
                    &&& cell.lock_arg_bytes() == lock_arg@
                    &&& cell.type_arg_bytes() == bytes_view(type_arg)
                    &&& cell.data_bytes() == data1@
                    &&& cell.witness_bytes() == bytes_view(witness_args)
                },
                Err(e) => e == DecodeError::Malformed && forall|cell: Self|
                    cell.encodable() && cell.struct_flag() == default_flag() ==> !{
                        &&& #[trigger] cell.lock_arg_bytes() == lock_arg@
                        &&& cell.type_arg_bytes() == bytes_view(type_arg)
                        &&& cell.data_bytes() == data1@
                        &&& cell.witness_bytes() == bytes_view(witness_args)
                    },
            },
    ;
}

/// Reading back the four encodings of a record with the default flag gives the record.
pub proof fn lemma_cell_round_trip<C: Cell>(cell: C, r: Result<C, DecodeError>)
    requires
        cell.encodable(),
        cell.struct_flag() == default_flag(),
        match r {
            Ok(back) => {
                &&& back.encodable()
                &&& back.struct_flag() == default_flag()
                &&& back.lock_arg_bytes() == cell.lock_arg_bytes()
                &&& back.type_arg_bytes() == cell.type_arg_bytes()
                &&& back.data_bytes() == cell.data_bytes()
                &&& back.witness_bytes() == cell.witness_bytes()
            },
            Err(_) => forall|other: C|
                other.encodable() && other.struct_flag() == default_flag() ==> !{
                    &&& #[trigger] other.lock_arg_bytes() == cell.lock_arg_bytes()
                    &&& other.type_arg_bytes() == cell.type_arg_bytes()
                    &&& other.data_bytes() == cell.data_bytes()
                    &&& other.witness_bytes() == cell.witness_bytes()
                },
        },
    ensures
        r is Ok,
        r->Ok_0.same(&cell),
{
    match r {
        Ok(back) => {
            C::lemma_injective(back, cell);
        },
        Err(_) => {
            assert(cell.lock_arg_bytes() == cell.lock_arg_bytes());
        },
    }
}

} // verus!
