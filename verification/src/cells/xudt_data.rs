use vstd::prelude::*;
use vstd::bytes::lemma_auto_spec_u128_to_from_le_bytes;
use crate::cell_message::cell::{
    decode_optional, default_flag, encode_optional, lemma_optional_injective,
    optional_encodable, optional_encoding, optional_is_encodable, optional_same, Cell,
    MoleculeStructFlag,
};
use crate::molecule::layout::{join, lemma_join_len, prefix_len, views, DecodeError, Width};
use crate::molecule::record::{
    decode_record, encode_record, lemma_record_injective, record_encoding, Record,
};
use crate::molecule::table::table_size;
use crate::molecule::value::Molecule;

verus! {

/// A token cell: the token type as type argument, the amount as data.
#[derive(Debug, PartialEq)]
pub struct XUDTDataCell {
    pub lock_arg: u8,
    pub type_arg: Option<[u8; 32]>,
    pub data: XUDTData,
    pub witness: Option<XUDTWitness>,
    pub struct_flag: MoleculeStructFlag,
}

impl XUDTDataCell {
    /// The record with a zero lock argument, amount 0, no type argument, no witness
    /// and the default flag.
    pub fn default() -> (cell: Self)
        ensures
            cell.lock_arg == 0,
            cell.type_arg is None,
            cell.data.amount == 0,
            cell.witness is None,
            cell.struct_flag == default_flag(),
    {
        let cell = XUDTDataCell {
            lock_arg: 0,
            type_arg: None,
            data: XUDTData { amount: 0 },
            witness: None,
            struct_flag: MoleculeStructFlag::default(),
        };
        cell
    }

    /// A token cell of the given type and amount, with the empty witness arguments as
    /// its witness.
    pub fn new(type_arg: [u8; 32], data: XUDTData) -> (cell: Self)
        ensures
            cell.lock_arg == 0,
            cell.type_arg == Some(type_arg),
            cell.data == data,
            cell.witness == Some(XUDTWitness { empty_witness_args: EMPTY_WITNESS_ARGS }),
            cell.struct_flag == default_flag(),
    {
        XUDTDataCell {
            lock_arg: 0,
            type_arg: Some(type_arg),
            data: data,
            witness: Some(XUDTWitness { empty_witness_args: EMPTY_WITNESS_ARGS }),
            struct_flag: MoleculeStructFlag {
                lock_arg: true,
                type_arg: true,
                data: true,
                witness: true,
            },
        }
    }
}

impl Cell for XUDTDataCell {
    open spec fn struct_flag(&self) -> MoleculeStructFlag {
        self.struct_flag
    }

    open spec fn encodable(&self) -> bool {
        &&& self.lock_arg.encodable()
        &&& optional_encodable(self.type_arg)
        &&& self.data.encodable()
        &&& optional_encodable(self.witness)
    }

    open spec fn lock_arg_bytes(&self) -> Seq<u8> {
        self.lock_arg.encoding(self.struct_flag.lock_arg)
    }

    open spec fn type_arg_bytes(&self) -> Option<Seq<u8>> {
        optional_encoding(self.type_arg, self.struct_flag.type_arg)
    }

    open spec fn data_bytes(&self) -> Seq<u8> {
        self.data.encoding(self.struct_flag.data)
    }

    open spec fn witness_bytes(&self) -> Option<Seq<u8>> {
        optional_encoding(self.witness, self.struct_flag.witness)
    }

    open spec fn same(&self, other: &Self) -> bool {
        &&& self.lock_arg.same(&other.lock_arg)
        &&& optional_same(self.type_arg, other.type_arg)
        &&& self.data.same(&other.data)
        &&& optional_same(self.witness, other.witness)
        &&& self.struct_flag == other.struct_flag
    }

    proof fn lemma_injective(a: Self, b: Self) {
        u8::lemma_injective(a.lock_arg, b.lock_arg, a.struct_flag.lock_arg);
        lemma_optional_injective(a.type_arg, b.type_arg, a.struct_flag.type_arg);
        XUDTData::lemma_injective(a.data, b.data, a.struct_flag.data);
        lemma_optional_injective(a.witness, b.witness, a.struct_flag.witness);
    }

    fn is_encodable(&self) -> (b: bool) {
        self.lock_arg.is_encodable() && optional_is_encodable(&self.type_arg)
            && self.data.is_encodable() && optional_is_encodable(&self.witness)
    }

    fn get_lock_arg(&self) -> (bytes: Vec<u8>) {
        self.lock_arg.encode(self.struct_flag.lock_arg)
    }

    fn get_type_arg(&self) -> (bytes: Option<Vec<u8>>) {
        encode_optional(&self.type_arg, self.struct_flag.type_arg)
    }

    fn get_data(&self) -> (bytes: Vec<u8>) {
        self.data.encode(self.struct_flag.data)
    }

    fn get_witness(&self) -> (bytes: Option<Vec<u8>>) {
        encode_optional(&self.witness, self.struct_flag.witness)
    }

    fn from_arg(
        lock_arg: Vec<u8>,
        type_arg: Option<Vec<u8>>,
        data1: Vec<u8>,
        witness_args: Option<Vec<u8>>,
    ) -> (r: Result<Self, DecodeError>) {
        let struct_flag = MoleculeStructFlag::default();
        let lock = match u8::decode(lock_arg.as_slice(), struct_flag.lock_arg) {
            Ok(field) => field,
            Err(e) => {
                return Err(e);
            },
        };
        let type_ = match decode_optional::<[u8; 32]>(&type_arg, struct_flag.type_arg) {
            Ok(field) => field,
            Err(e) => {
                return Err(e);
            },
        };
        let data = match XUDTData::decode(data1.as_slice(), struct_flag.data) {
            Ok(field) => field,
            Err(e) => {
                return Err(e);
            },
        };
        let witness = match decode_optional::<XUDTWitness>(&witness_args, struct_flag.witness) {
            Ok(field) => field,
            Err(e) => {
                return Err(e);
            },
        };
        Ok(XUDTDataCell { lock_arg: lock, type_arg: type_, data, witness, struct_flag })
    }
}

/// The data of a token cell.
#[derive(Clone, Debug, PartialEq)]
pub struct XUDTData {
    pub amount: u128,
}

impl XUDTData {
    /// The table of the fields takes 24 bytes and the fixed layout 16.
    pub proof fn lemma_size(v: Self)
        ensures
            table_size(v.parts()) == 24,
            join(v.parts()).len() == 16,
    {
        reveal_with_fuel(prefix_len, 2);
        Self::lemma_parts(v);
        lemma_join_len(v.parts());
    }
}

impl Record for XUDTData {
    open spec fn widths() -> Seq<Width> {
        seq![Width::Fixed(16)]
    }

    open spec fn parts(&self) -> Seq<Seq<u8>> {
        seq![
            self.amount.encoding(true),
        ]
    }

    open spec fn fields_encodable(&self) -> bool {
        true
    }

    open spec fn same_fields(&self, other: &Self) -> bool {
        *self == *other
    }

    proof fn lemma_widths() {
    }

    proof fn lemma_parts(v: Self) {
        lemma_auto_spec_u128_to_from_le_bytes();
        assert(v.parts()[0].len() == 16);
    }

    proof fn lemma_parts_injective(a: Self, b: Self) {
        assert(a.parts()[0] == b.parts()[0]);
        u128::lemma_injective(a.amount, b.amount, true);
    }

    fn field_widths() -> (widths: Vec<Width>) {
        let widths = vec![Width::Fixed(16)];
        assert(widths@ =~= Self::widths());
        widths
    }

    fn to_parts(&self) -> (parts: Vec<Vec<u8>>) {
        let parts = vec![
            self.amount.encode(true),
        ];
        assert(views(parts@) =~= self.parts());
        parts
    }

    fn from_parts(parts: &Vec<Vec<u8>>) -> (r: Result<Self, DecodeError>) {
        assert(parts.len() == 1);
        let amount = match u128::decode(parts[0].as_slice(), true) {
            Ok(field) => field,
            Err(e) => {
                assert forall|v: Self| #[trigger] v.parts() != views(parts@) by {
                    assert(v.parts()[0] == v.amount.encoding(true));
                    assert(views(parts@)[0] == parts@[0]@);
                }
                return Err(e);
            },
        };
        let v = XUDTData { amount };
        assert(v.parts() =~= views(parts@));
        Ok(v)
    }
}

impl Molecule for XUDTData {
    open spec fn encodable(&self) -> bool {
        true
    }

    open spec fn same(&self, other: &Self) -> bool {
        *self == *other
    }

    open spec fn encoding(&self, is_struct: bool) -> Seq<u8> {
        record_encoding(*self, is_struct)
    }

    proof fn lemma_injective(a: Self, b: Self, is_struct: bool) {
        Self::lemma_size(a);
        Self::lemma_size(b);
        lemma_record_injective(a, b, is_struct);
    }

    fn is_encodable(&self) -> (b: bool) {
        true
    }

    fn encode(&self, is_struct: bool) -> (bytes: Vec<u8>) {
        proof {
            Self::lemma_size(*self);
        }
        encode_record(self, is_struct)
    }

    fn decode(bytes: &[u8], is_struct: bool) -> (r: Result<Self, DecodeError>) {
        let r = decode_record::<Self>(bytes, is_struct);
        proof {
            if r is Err {
                assert forall|v: Self| v.encodable() implies #[trigger] v.encoding(is_struct)
                    != bytes@ by {
                    Self::lemma_size(v);
                }
            }
        }
        r
    }
}

/// A witness-arguments table with no field set.
pub const EMPTY_WITNESS_ARGS: [u8; 16] = [16, 0, 0, 0, 16, 0, 0, 0, 16, 0, 0, 0, 16, 0, 0, 0];

/// The witness of a token cell.
#[derive(Clone, Debug, PartialEq)]
pub struct XUDTWitness {
    pub empty_witness_args: [u8; 16],
}

impl XUDTWitness {
    /// The table of the fields takes 24 bytes and the fixed layout 16.
    pub proof fn lemma_size(v: Self)
        ensures
            table_size(v.parts()) == 24,
            join(v.parts()).len() == 16,
    {
        reveal_with_fuel(prefix_len, 2);
        Self::lemma_parts(v);
        lemma_join_len(v.parts());
    }
}

impl Record for XUDTWitness {
    open spec fn widths() -> Seq<Width> {
        seq![Width::Fixed(16)]
    }

    open spec fn parts(&self) -> Seq<Seq<u8>> {
        seq![
            self.empty_witness_args.encoding(true),
        ]
    }

    open spec fn fields_encodable(&self) -> bool {
        true
    }

    open spec fn same_fields(&self, other: &Self) -> bool {
        *self == *other
    }

    proof fn lemma_widths() {
    }

    proof fn lemma_parts(v: Self) {
        assert(v.parts()[0].len() == 16);
    }

    proof fn lemma_parts_injective(a: Self, b: Self) {
        assert(a.parts()[0] == b.parts()[0]);
        <[u8; 16]>::lemma_injective(a.empty_witness_args, b.empty_witness_args, true);
    }

    fn field_widths() -> (widths: Vec<Width>) {
        let widths = vec![Width::Fixed(16)];
        assert(widths@ =~= Self::widths());
        widths
    }

    fn to_parts(&self) -> (parts: Vec<Vec<u8>>) {
        let parts = vec![
            self.empty_witness_args.encode(true),
        ];
        assert(views(parts@) =~= self.parts());
        parts
    }

    fn from_parts(parts: &Vec<Vec<u8>>) -> (r: Result<Self, DecodeError>) {
        assert(parts.len() == 1);
        let empty_witness_args = match <[u8; 16]>::decode(parts[0].as_slice(), true) {
            Ok(field) => field,
            Err(e) => {
                assert forall|v: Self| #[trigger] v.parts() != views(parts@) by {
                    assert(v.parts()[0] == v.empty_witness_args.encoding(true));
                    assert(views(parts@)[0] == parts@[0]@);
                }
                return Err(e);
            },
        };
        let v = XUDTWitness { empty_witness_args };
        assert(v.parts() =~= views(parts@));
        Ok(v)
    }
}

impl Molecule for XUDTWitness {
    open spec fn encodable(&self) -> bool {
        true
    }

    open spec fn same(&self, other: &Self) -> bool {
        *self == *other
    }

    open spec fn encoding(&self, is_struct: bool) -> Seq<u8> {
        record_encoding(*self, is_struct)
    }

    proof fn lemma_injective(a: Self, b: Self, is_struct: bool) {
        Self::lemma_size(a);
        Self::lemma_size(b);
        lemma_record_injective(a, b, is_struct);
    }

    fn is_encodable(&self) -> (b: bool) {
        true
    }

    fn encode(&self, is_struct: bool) -> (bytes: Vec<u8>) {
        proof {
            Self::lemma_size(*self);
        }
        encode_record(self, is_struct)
    }

    fn decode(bytes: &[u8], is_struct: bool) -> (r: Result<Self, DecodeError>) {
        let r = decode_record::<Self>(bytes, is_struct);
        proof {
            if r is Err {
                assert forall|v: Self| v.encodable() implies #[trigger] v.encoding(is_struct)
                    != bytes@ by {
                    Self::lemma_size(v);
                }
            }
        }
        r
    }
}

} // verus!
