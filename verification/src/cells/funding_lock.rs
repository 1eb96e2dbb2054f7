use vstd::prelude::*;
use vstd::bytes::lemma_auto_spec_u64_to_from_le_bytes;
use crate::cell_message::cell::{
    decode_optional, encode_optional, lemma_optional_injective, optional_encodable,
    optional_encoding, optional_is_encodable, optional_same, Cell, MoleculeStructFlag,
};
use crate::molecule::layout::{join, lemma_join_len, prefix_len, views, DecodeError, Width};
use crate::molecule::record::{
    decode_record, encode_record, lemma_record_injective, record_encoding, Record,
};
use crate::molecule::table::table_size;
use crate::molecule::value::Molecule;

verus! {

/// The witness that unlocks a funding cell.
#[derive(Clone, Debug, PartialEq)]
pub struct FundingWitness {
    pub empty_witness_args: [u8; 16],
    pub version: u64,
    pub funding_out_point: [u8; 36],
    pub pubkey: [u8; 32],
    pub signature: [u8; 64],
}

impl FundingWitness {
    /// The table of the fields takes 180 bytes and the fixed layout 156.
    pub proof fn lemma_size(v: Self)
        ensures
            table_size(v.parts()) == 180,
            join(v.parts()).len() == 156,
    {
        reveal_with_fuel(prefix_len, 6);
        Self::lemma_parts(v);
        lemma_join_len(v.parts());
    }
}

impl Record for FundingWitness {
    open spec fn widths() -> Seq<Width> {
        seq![Width::Fixed(16), Width::Fixed(8), Width::Fixed(36), Width::Fixed(32), Width::Fixed(64)]
    }

    open spec fn parts(&self) -> Seq<Seq<u8>> {
        seq![
            self.empty_witness_args.encoding(true),
            self.version.encoding(true),
            self.funding_out_point.encoding(true),
            self.pubkey.encoding(true),
            self.signature.encoding(true),
        ]
    }

    open spec fn fields_encodable(&self) -> bool {
        true
    }

    open spec fn same_fields(&self, other: &Self) -> bool {
        *self == *other
    }

    proof fn lemma_widths() {
    }

    proof fn lemma_parts(v: Self) {
        lemma_auto_spec_u64_to_from_le_bytes();
        assert(v.parts()[0].len() == 16);
        assert(v.parts()[1].len() == 8);
        assert(v.parts()[2].len() == 36);
        assert(v.parts()[3].len() == 32);
        assert(v.parts()[4].len() == 64);
    }

    proof fn lemma_parts_injective(a: Self, b: Self) {
        assert(a.parts()[0] == b.parts()[0]);
        <[u8; 16]>::lemma_injective(a.empty_witness_args, b.empty_witness_args, true);
        assert(a.parts()[1] == b.parts()[1]);
        u64::lemma_injective(a.version, b.version, true);
        assert(a.parts()[2] == b.parts()[2]);
        <[u8; 36]>::lemma_injective(a.funding_out_point, b.funding_out_point, true);
        assert(a.parts()[3] == b.parts()[3]);
        <[u8; 32]>::lemma_injective(a.pubkey, b.pubkey, true);
        assert(a.parts()[4] == b.parts()[4]);
        <[u8; 64]>::lemma_injective(a.signature, b.signature, true);
    }

    fn field_widths() -> (widths: Vec<Width>) {
        let widths = vec![Width::Fixed(16), Width::Fixed(8), Width::Fixed(36), Width::Fixed(32), Width::Fixed(64)];
        assert(widths@ =~= Self::widths());
        widths
    }

    fn to_parts(&self) -> (parts: Vec<Vec<u8>>) {
        let parts = vec![
            self.empty_witness_args.encode(true),
            self.version.encode(true),
            self.funding_out_point.encode(true),
            self.pubkey.encode(true),
            self.signature.encode(true),
        ];
        assert(views(parts@) =~= self.parts());
        parts
    }

    fn from_parts(parts: &Vec<Vec<u8>>) -> (r: Result<Self, DecodeError>) {
        assert(parts.len() == 5);
        let empty_witness_args = match <[u8; 16]>::decode(parts[0].as_slice(), true) {
            Ok(field) => field,
            Err(e) => {
                assert forall|v: Self| #[trigger] v.parts() != views(parts@) by {
                    assert(v.parts()[0] == v.empty_witness_args.encoding(true));
                    assert(views(parts@)[0] == parts@[0]@);
                }
                return Err(e);
            },
        };
        let version = match u64::decode(parts[1].as_slice(), true) {
            Ok(field) => field,
            Err(e) => {
                assert forall|v: Self| #[trigger] v.parts() != views(parts@) by {
                    assert(v.parts()[1] == v.version.encoding(true));
                    assert(views(parts@)[1] == parts@[1]@);
                }
                return Err(e);
            },
        };
        let funding_out_point = match <[u8; 36]>::decode(parts[2].as_slice(), true) {
            Ok(field) => field,
            Err(e) => {
                assert forall|v: Self| #[trigger] v.parts() != views(parts@) by {
                    assert(v.parts()[2] == v.funding_out_point.encoding(true));
                    assert(views(parts@)[2] == parts@[2]@);
                }
                return Err(e);
            },
        };
        let pubkey = match <[u8; 32]>::decode(parts[3].as_slice(), true) {
            Ok(field) => field,
            Err(e) => {
                assert forall|v: Self| #[trigger] v.parts() != views(parts@) by {
                    assert(v.parts()[3] == v.pubkey.encoding(true));
                    assert(views(parts@)[3] == parts@[3]@);
                }
                return Err(e);
            },
        };
        let signature = match <[u8; 64]>::decode(parts[4].as_slice(), true) {
            Ok(field) => field,
            Err(e) => {
                assert forall|v: Self| #[trigger] v.parts() != views(parts@) by {
                    assert(v.parts()[4] == v.signature.encoding(true));
                    assert(views(parts@)[4] == parts@[4]@);
                }
                return Err(e);
            },
        };
        let v = FundingWitness { empty_witness_args, version, funding_out_point, pubkey, signature };
        assert(v.parts() =~= views(parts@));
        Ok(v)
    }
}

impl Molecule for FundingWitness {
    open spec fn encodable(&self) -> bool {
        true
    }

    open spec fn same(&self, other: &Self) -> bool {
        *self == *other
    }

    open spec fn encoding(&self, is_struct: bool) -> Seq<u8> {
        record_encoding(*self, is_struct)
    }

    proof fn lemma_injective(a: Self, b: Self, is_struct: bool) {
        Self::lemma_size(a);
        Self::lemma_size(b);
        lemma_record_injective(a, b, is_struct);
    }

    fn is_encodable(&self) -> (b: bool) {
        true
    }

    fn encode(&self, is_struct: bool) -> (bytes: Vec<u8>) {
        proof {
            Self::lemma_size(*self);
        }
        encode_record(self, is_struct)
    }

    fn decode(bytes: &[u8], is_struct: bool) -> (r: Result<Self, DecodeError>) {
        let r = decode_record::<Self>(bytes, is_struct);
        proof {
            if r is Err {
                assert forall|v: Self| v.encodable() implies #[trigger] v.encoding(is_struct)
                    != bytes@ by {
                    Self::lemma_size(v);
                }
            }
        }
        r
    }
}

/// A funding cell.
pub struct FundingCell {
    pub lock_arg: [u8; 20],
    pub type_arg: Option<u8>,
    pub data: u8,
    pub witness: Option<FundingWitness>,
    pub struct_flag: MoleculeStructFlag,
}

impl Cell for FundingCell {
    open spec fn struct_flag(&self) -> MoleculeStructFlag {
        self.struct_flag
    }

    open spec fn encodable(&self) -> bool {
        &&& self.lock_arg.encodable()
        &&& optional_encodable(self.type_arg)
        &&& self.data.encodable()
        &&& optional_encodable(self.witness)
    }

    open spec fn lock_arg_bytes(&self) -> Seq<u8> {
        self.lock_arg.encoding(self.struct_flag.lock_arg)
    }

    open spec fn type_arg_bytes(&self) -> Option<Seq<u8>> {
        optional_encoding(self.type_arg, self.struct_flag.type_arg)
    }

    open spec fn data_bytes(&self) -> Seq<u8> {
        self.data.encoding(self.struct_flag.data)
    }

    open spec fn witness_bytes(&self) -> Option<Seq<u8>> {
        optional_encoding(self.witness, self.struct_flag.witness)
    }

    open spec fn same(&self, other: &Self) -> bool {
        &&& self.lock_arg.same(&other.lock_arg)
        &&& optional_same(self.type_arg, other.type_arg)
        &&& self.data.same(&other.data)
        &&& optional_same(self.witness, other.witness)
        &&& self.struct_flag == other.struct_flag
    }

    proof fn lemma_injective(a: Self, b: Self) {
        <[u8; 20]>::lemma_injective(a.lock_arg, b.lock_arg, a.struct_flag.lock_arg);
        lemma_optional_injective(a.type_arg, b.type_arg, a.struct_flag.type_arg);
        u8::lemma_injective(a.data, b.data, a.struct_flag.data);
        lemma_optional_injective(a.witness, b.witness, a.struct_flag.witness);
    }

    fn is_encodable(&self) -> (b: bool) {
        self.lock_arg.is_encodable() && optional_is_encodable(&self.type_arg)
            && self.data.is_encodable() && optional_is_encodable(&self.witness)
    }

    fn get_lock_arg(&self) -> (bytes: Vec<u8>) {
        self.lock_arg.encode(self.struct_flag.lock_arg)
    }

    fn get_type_arg(&self) -> (bytes: Option<Vec<u8>>) {
        encode_optional(&self.type_arg, self.struct_flag.type_arg)
    }

    fn get_data(&self) -> (bytes: Vec<u8>) {
        self.data.encode(self.struct_flag.data)
    }

    fn get_witness(&self) -> (bytes: Option<Vec<u8>>) {
        encode_optional(&self.witness, self.struct_flag.witness)
    }

    fn from_arg(
        lock_arg: Vec<u8>,
        type_arg: Option<Vec<u8>>,
        data1: Vec<u8>,
        witness_args: Option<Vec<u8>>,
    ) -> (r: Result<Self, DecodeError>) {
        let struct_flag = MoleculeStructFlag::default();
        let lock = match <[u8; 20]>::decode(lock_arg.as_slice(), struct_flag.lock_arg) {
            Ok(field) => field,
            Err(e) => {
                return Err(e);
            },
        };
        let type_ = match decode_optional::<u8>(&type_arg, struct_flag.type_arg) {
            Ok(field) => field,
            Err(e) => {
                return Err(e);
            },
        };
        let data = match u8::decode(data1.as_slice(), struct_flag.data) {
            Ok(field) => field,
            Err(e) => {
                return Err(e);
            },
        };
        let witness = match decode_optional::<FundingWitness>(&witness_args, struct_flag.witness) {
            Ok(field) => field,
            Err(e) => {
                return Err(e);
            },
        };
        Ok(FundingCell { lock_arg: lock, type_arg: type_, data, witness, struct_flag })
    }
}

} // verus!
