use vstd::prelude::*;
use crate::cell_message::cell::{
    decode_optional, default_flag, encode_optional, lemma_optional_injective,
    optional_encodable, optional_encoding, optional_is_encodable, optional_same, Cell,
    MoleculeStructFlag,
};
use crate::molecule::layout::DecodeError;
use crate::molecule::value::Molecule;

verus! {

/// The smallest cell: one byte for each field.
pub struct Demo {
    pub lock_arg: u8,
    pub type_arg: Option<u8>,
    pub data: u8,
    pub witness: Option<u8>,
    pub struct_flag: MoleculeStructFlag,
}

impl Demo {
    /// The record with a zero lock argument, data 1, no type argument, no witness
    /// and the default flag.
    pub fn default() -> (cell: Self)
        ensures
            cell.lock_arg == 0,
            cell.type_arg is None,
            cell.data == 1,
            cell.witness is None,
            cell.struct_flag == default_flag(),
    {
        let cell = Demo {
            lock_arg: 0,
            type_arg: None,
            data: 1,
            witness: None,
            struct_flag: MoleculeStructFlag::default(),
        };
        cell
    }

    /// The same record as `default`.
    pub fn new() -> (cell: Self)
        ensures
            cell.lock_arg == 0,
            cell.type_arg is None,
            cell.data == 1,
            cell.witness is None,
            cell.struct_flag == default_flag(),
    {
        Demo {
            lock_arg: 0,
            type_arg: None,
            data: 1,
            witness: None,
            struct_flag: MoleculeStructFlag::default(),
        }
    }
}

impl Cell for Demo {
    open spec fn struct_flag(&self) -> MoleculeStructFlag {
        self.struct_flag
    }

    open spec fn encodable(&self) -> bool {
        &&& self.lock_arg.encodable()
        &&& optional_encodable(self.type_arg)
        &&& self.data.encodable()
        &&& optional_encodable(self.witness)
    }

    open spec fn lock_arg_bytes(&self) -> Seq<u8> {
        self.lock_arg.encoding(self.struct_flag.lock_arg)
    }

    open spec fn type_arg_bytes(&self) -> Option<Seq<u8>> {
        optional_encoding(self.type_arg, self.struct_flag.type_arg)
    }

    open spec fn data_bytes(&self) -> Seq<u8> {
        self.data.encoding(self.struct_flag.data)
    }

    open spec fn witness_bytes(&self) -> Option<Seq<u8>> {
        optional_encoding(self.witness, self.struct_flag.witness)
    }

    open spec fn same(&self, other: &Self) -> bool {
        &&& self.lock_arg.same(&other.lock_arg)
        &&& optional_same(self.type_arg, other.type_arg)
        &&& self.data.same(&other.data)
        &&& optional_same(self.witness, other.witness)
        &&& self.struct_flag == other.struct_flag
    }

    proof fn lemma_injective(a: Self, b: Self) {
        u8::lemma_injective(a.lock_arg, b.lock_arg, a.struct_flag.lock_arg);
        lemma_optional_injective(a.type_arg, b.type_arg, a.struct_flag.type_arg);
        u8::lemma_injective(a.data, b.data, a.struct_flag.data);
        lemma_optional_injective(a.witness, b.witness, a.struct_flag.witness);
    }

    fn is_encodable(&self) -> (b: bool) {
        self.lock_arg.is_encodable() && optional_is_encodable(&self.type_arg)
            && self.data.is_encodable() && optional_is_encodable(&self.witness)
    }

    fn get_lock_arg(&self) -> (bytes: Vec<u8>) {
        self.lock_arg.encode(self.struct_flag.lock_arg)
    }

    fn get_type_arg(&self) -> (bytes: Option<Vec<u8>>) {
        encode_optional(&self.type_arg, self.struct_flag.type_arg)
    }

    fn get_data(&self) -> (bytes: Vec<u8>) {
        self.data.encode(self.struct_flag.data)
    }

    fn get_witness(&self) -> (bytes: Option<Vec<u8>>) {
        encode_optional(&self.witness, self.struct_flag.witness)
    }

    fn from_arg(
        lock_arg: Vec<u8>,
        type_arg: Option<Vec<u8>>,
        data1: Vec<u8>,
        witness_args: Option<Vec<u8>>,
    ) -> (r: Result<Self, DecodeError>) {
        let struct_flag = MoleculeStructFlag::default();
        let lock = match u8::decode(lock_arg.as_slice(), struct_flag.lock_arg) {
            Ok(field) => field,
            Err(e) => {
                return Err(e);
            },
        };
        let type_ = match decode_optional::<u8>(&type_arg, struct_flag.type_arg) {
            Ok(field) => field,
            Err(e) => {
                return Err(e);
            },
        };
        let data = match u8::decode(data1.as_slice(), struct_flag.data) {
            Ok(field) => field,
            Err(e) => {
                return Err(e);
            },
        };
        let witness = match decode_optional::<u8>(&witness_args, struct_flag.witness) {
            Ok(field) => field,
            Err(e) => {
                return Err(e);
            },
        };
        Ok(Demo { lock_arg: lock, type_arg: type_, data, witness, struct_flag })
    }
}

} // verus!
