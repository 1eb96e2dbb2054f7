use vstd::prelude::*;
use vstd::bytes::{lemma_auto_spec_u128_to_from_le_bytes, lemma_auto_spec_u64_to_from_le_bytes};
use crate::cell_message::cell::{
    decode_optional, default_flag, encode_optional, lemma_optional_injective,
    optional_encodable, optional_encoding, optional_is_encodable, optional_same, Cell,
    MoleculeStructFlag,
};
use crate::molecule::dynvec::{
    decode_dynvec, dynvec_encodable, dynvec_encoding, encode_dynvec, item_encodings,
    lemma_dynvec_injective, lemma_dynvec_prefixed, same_items,
};
use crate::molecule::layout::{
    fits, join, lemma_join_len, prefix_len, views, DecodeError, Width,
};
use crate::molecule::record::{
    decode_record, encode_record, lemma_record_injective, record_encodable, record_encoding,
    Record,
};
use crate::molecule::table::{table, table_size};
use crate::molecule::value::Molecule;

verus! {

/// A payment that is still pending inside a commitment.
#[derive(Clone, Debug, PartialEq)]
pub struct PendingHtlc {
    pub htlc_type: u8,
    pub payment_amount: u128,
    pub payment_hash: [u8; 20],
    pub remote_htlc_pubkey_hash: [u8; 20],
    pub local_htlc_pubkey_hash: [u8; 20],
    pub htlc_expiry: u64,
}

impl PendingHtlc {
    /// The table of the fields takes 113 bytes and the fixed layout 85.
    pub proof fn lemma_size(v: Self)
        ensures
            table_size(v.parts()) == 113,
            join(v.parts()).len() == 85,
    {
        reveal_with_fuel(prefix_len, 7);
        Self::lemma_parts(v);
        lemma_join_len(v.parts());
    }
}

impl Record for PendingHtlc {
    open spec fn widths() -> Seq<Width> {
        seq![Width::Fixed(1), Width::Fixed(16), Width::Fixed(20), Width::Fixed(20), Width::Fixed(20), Width::Fixed(8)]
    }

    open spec fn parts(&self) -> Seq<Seq<u8>> {
        seq![
            self.htlc_type.encoding(true),
            self.payment_amount.encoding(true),
            self.payment_hash.encoding(true),
            self.remote_htlc_pubkey_hash.encoding(true),
            self.local_htlc_pubkey_hash.encoding(true),
            self.htlc_expiry.encoding(true),
        ]
    }

    open spec fn fields_encodable(&self) -> bool {
        true
    }

    open spec fn same_fields(&self, other: &Self) -> bool {
        *self == *other
    }

    proof fn lemma_widths() {
    }

    proof fn lemma_parts(v: Self) {
        lemma_auto_spec_u64_to_from_le_bytes();
        lemma_auto_spec_u128_to_from_le_bytes();
        assert(v.parts()[0].len() == 1);
        assert(v.parts()[1].len() == 16);
        assert(v.parts()[2].len() == 20);
        assert(v.parts()[3].len() == 20);
        assert(v.parts()[4].len() == 20);
        assert(v.parts()[5].len() == 8);
    }

    proof fn lemma_parts_injective(a: Self, b: Self) {
        assert(a.parts()[0] == b.parts()[0]);
        u8::lemma_injective(a.htlc_type, b.htlc_type, true);
        assert(a.parts()[1] == b.parts()[1]);
        u128::lemma_injective(a.payment_amount, b.payment_amount, true);
        assert(a.parts()[2] == b.parts()[2]);
        <[u8; 20]>::lemma_injective(a.payment_hash, b.payment_hash, true);
        assert(a.parts()[3] == b.parts()[3]);
        <[u8; 20]>::lemma_injective(a.remote_htlc_pubkey_hash, b.remote_htlc_pubkey_hash, true);
        assert(a.parts()[4] == b.parts()[4]);
        <[u8; 20]>::lemma_injective(a.local_htlc_pubkey_hash, b.local_htlc_pubkey_hash, true);
        assert(a.parts()[5] == b.parts()[5]);
        u64::lemma_injective(a.htlc_expiry, b.htlc_expiry, true);
    }

    fn field_widths() -> (widths: Vec<Width>) {
        let widths = vec![Width::Fixed(1), Width::Fixed(16), Width::Fixed(20), Width::Fixed(20), Width::Fixed(20), Width::Fixed(8)];
        assert(widths@ =~= Self::widths());
        widths
    }

    fn to_parts(&self) -> (parts: Vec<Vec<u8>>) {
        let parts = vec![
            self.htlc_type.encode(true),
            self.payment_amount.encode(true),
            self.payment_hash.encode(true),
            self.remote_htlc_pubkey_hash.encode(true),
            self.local_htlc_pubkey_hash.encode(true),
            self.htlc_expiry.encode(true),
        ];
        assert(views(parts@) =~= self.parts());
        parts
    }

    fn from_parts(parts: &Vec<Vec<u8>>) -> (r: Result<Self, DecodeError>) {
        assert(parts.len() == 6);
        let htlc_type = match u8::decode(parts[0].as_slice(), true) {
            Ok(field) => field,
            Err(e) => {
                assert forall|v: Self| #[trigger] v.parts() != views(parts@) by {
                    assert(v.parts()[0] == v.htlc_type.encoding(true));
                    assert(views(parts@)[0] == parts@[0]@);
                }
                return Err(e);
            },
        };
        let payment_amount = match u128::decode(parts[1].as_slice(), true) {
            Ok(field) => field,
            Err(e) => {
                assert forall|v: Self| #[trigger] v.parts() != views(parts@) by {
                    assert(v.parts()[1] == v.payment_amount.encoding(true));
                    assert(views(parts@)[1] == parts@[1]@);
                }
                return Err(e);
            },
        };
        let payment_hash = match <[u8; 20]>::decode(parts[2].as_slice(), true) {
            Ok(field) => field,
            Err(e) => {
                assert forall|v: Self| #[trigger] v.parts() != views(parts@) by {
                    assert(v.parts()[2] == v.payment_hash.encoding(true));
                    assert(views(parts@)[2] == parts@[2]@);
                }
                return Err(e);
            },
        };
        let remote_htlc_pubkey_hash = match <[u8; 20]>::decode(parts[3].as_slice(), true) {
            Ok(field) => field,
            Err(e) => {
                assert forall|v: Self| #[trigger] v.parts() != views(parts@) by {
                    assert(v.parts()[3] == v.remote_htlc_pubkey_hash.encoding(true));
                    assert(views(parts@)[3] == parts@[3]@);
                }
                return Err(e);
            },
        };
        let local_htlc_pubkey_hash = match <[u8; 20]>::decode(parts[4].as_slice(), true) {
            Ok(field) => field,
            Err(e) => {
                assert forall|v: Self| #[trigger] v.parts() != views(parts@) by {
                    assert(v.parts()[4] == v.local_htlc_pubkey_hash.encoding(true));
                    assert(views(parts@)[4] == parts@[4]@);
                }
                return Err(e);
            },
        };
        let htlc_expiry = match u64::decode(parts[5].as_slice(), true) {
            Ok(field) => field,
            Err(e) => {
                assert forall|v: Self| #[trigger] v.parts() != views(parts@) by {
                    assert(v.parts()[5] == v.htlc_expiry.encoding(true));
                    assert(views(parts@)[5] == parts@[5]@);
                }
                return Err(e);
            },
        };
        let v = PendingHtlc { htlc_type, payment_amount, payment_hash, remote_htlc_pubkey_hash, local_htlc_pubkey_hash, htlc_expiry };
        assert(v.parts() =~= views(parts@));
        Ok(v)
    }
}

impl Molecule for PendingHtlc {
    open spec fn encodable(&self) -> bool {
        true
    }

    open spec fn same(&self, other: &Self) -> bool {
        *self == *other
    }

    open spec fn encoding(&self, is_struct: bool) -> Seq<u8> {
        record_encoding(*self, is_struct)
    }

    proof fn lemma_injective(a: Self, b: Self, is_struct: bool) {
        Self::lemma_size(a);
        Self::lemma_size(b);
        lemma_record_injective(a, b, is_struct);
    }

    fn is_encodable(&self) -> (b: bool) {
        true
    }

    fn encode(&self, is_struct: bool) -> (bytes: Vec<u8>) {
        proof {
            Self::lemma_size(*self);
        }
        encode_record(self, is_struct)
    }

    fn decode(bytes: &[u8], is_struct: bool) -> (r: Result<Self, DecodeError>) {
        let r = decode_record::<Self>(bytes, is_struct);
        proof {
            if r is Err {
                assert forall|v: Self| v.encodable() implies #[trigger] v.encoding(is_struct)
                    != bytes@ by {
                    Self::lemma_size(v);
                }
            }
        }
        r
    }
}

/// The bytes of an optional preimage: the 32 bytes, or none.
pub open spec fn preimage_encoding(preimage: Option<[u8; 32]>) -> Seq<u8> {
    match preimage {
        Some(bytes) => bytes@,
        None => Seq::empty(),
    }
}

/// The witness of a commitment: any number of pending payments, and a preimage or none.
#[derive(Clone, Debug, PartialEq)]
pub struct CommitmentWitness {
    pub empty_witness_args: [u8; 16],
    pub local_delay_epoch: u64,
    pub local_delay_pubkey_hash: [u8; 20],
    pub revocation_pubkey_hash: [u8; 20],
    pub pending_htlc: Vec<PendingHtlc>,
    pub unlock_type: u8,
    pub signature: [u8; 65],
    pub preimage: Option<[u8; 32]>,
}

impl CommitmentWitness {
    /// Each pending payment takes 113 bytes as a table.
    pub proof fn lemma_items_len(items: Seq<PendingHtlc>, k: int)
        requires
            0 <= k <= items.len(),
        ensures
            prefix_len(item_encodings(items), k) == 113 * k,
        decreases k,
    {
        if k > 0 {
            Self::lemma_items_len(items, k - 1);
            let item = items[k - 1];
            PendingHtlc::lemma_size(item);
            lemma_join_len(item.parts());
            assert(item_encodings(items)[k - 1] == item.encoding(false));
            assert(item.encoding(false) == table(item.parts()));
        }
    }

    /// The number of bytes of the table of the fields, as far as it is counted in
    /// 64 bits.
    pub proof fn lemma_size(v: Self)
        ensures
            table_size(item_encodings(v.pending_htlc@)) == 117 * v.pending_htlc@.len() + 4,
            table_size(v.parts()) == 170 + 117 * v.pending_htlc@.len() + preimage_encoding(
                v.preimage,
            ).len(),
    {
        lemma_auto_spec_u64_to_from_le_bytes();
        let items = item_encodings(v.pending_htlc@);
        Self::lemma_items_len(v.pending_htlc@, v.pending_htlc@.len() as int);
        lemma_join_len(items);
        assert(v.parts()[0].len() == 16);
        assert(v.parts()[1].len() == 8);
        assert(v.parts()[2].len() == 20);
        assert(v.parts()[3].len() == 20);
        assert(v.parts()[4] == table(items));
        assert(v.parts()[4].len() == 117 * v.pending_htlc@.len() + 4);
        assert(v.parts()[5].len() == 1);
        assert(v.parts()[6].len() == 65);
        assert(v.parts()[7] == preimage_encoding(v.preimage));
        let parts = v.parts();
        assert(prefix_len(parts, 8) == 134 + 117 * v.pending_htlc@.len() + parts[7].len()) by {
            reveal_with_fuel(prefix_len, 10);
        }
    }
}

impl Record for CommitmentWitness {
    open spec fn widths() -> Seq<Width> {
        seq![
            Width::Fixed(16),
            Width::Fixed(8),
            Width::Fixed(20),
            Width::Fixed(20),
            Width::Prefixed,
            Width::Fixed(1),
            Width::Fixed(65),
            Width::Rest,
        ]
    }

    open spec fn parts(&self) -> Seq<Seq<u8>> {
        seq![
            self.empty_witness_args.encoding(true),
            self.local_delay_epoch.encoding(true),
            self.local_delay_pubkey_hash.encoding(true),
            self.revocation_pubkey_hash.encoding(true),
            dynvec_encoding(self.pending_htlc@),
            self.unlock_type.encoding(true),
            self.signature.encoding(true),
            preimage_encoding(self.preimage),
        ]
    }

    open spec fn fields_encodable(&self) -> bool {
        dynvec_encodable(self.pending_htlc@)
    }

    open spec fn same_fields(&self, other: &Self) -> bool {
        &&& self.empty_witness_args == other.empty_witness_args
        &&& self.local_delay_epoch == other.local_delay_epoch
        &&& self.local_delay_pubkey_hash == other.local_delay_pubkey_hash
        &&& self.revocation_pubkey_hash == other.revocation_pubkey_hash
        &&& same_items(self.pending_htlc@, other.pending_htlc@)
        &&& self.unlock_type == other.unlock_type
        &&& self.signature == other.signature
        &&& self.preimage == other.preimage
    }

    proof fn lemma_widths() {
    }

    proof fn lemma_parts(v: Self) {
        lemma_auto_spec_u64_to_from_le_bytes();
        lemma_dynvec_prefixed(v.pending_htlc@);
        assert(v.parts()[0].len() == 16);
        assert(v.parts()[1].len() == 8);
        assert(v.parts()[2].len() == 20);
        assert(v.parts()[3].len() == 20);
        assert(fits(v.parts()[4], Width::Prefixed));
        assert(v.parts()[5].len() == 1);
        assert(v.parts()[6].len() == 65);
    }

    proof fn lemma_parts_injective(a: Self, b: Self) {
        assert(a.parts()[0] == b.parts()[0]);
        <[u8; 16]>::lemma_injective(a.empty_witness_args, b.empty_witness_args, true);
        assert(a.parts()[1] == b.parts()[1]);
        u64::lemma_injective(a.local_delay_epoch, b.local_delay_epoch, true);
        assert(a.parts()[2] == b.parts()[2]);
        <[u8; 20]>::lemma_injective(a.local_delay_pubkey_hash, b.local_delay_pubkey_hash, true);
        assert(a.parts()[3] == b.parts()[3]);
        <[u8; 20]>::lemma_injective(a.revocation_pubkey_hash, b.revocation_pubkey_hash, true);
        assert(a.parts()[4] == b.parts()[4]);
        lemma_dynvec_injective(a.pending_htlc@, b.pending_htlc@);
        assert(a.parts()[5] == b.parts()[5]);
        u8::lemma_injective(a.unlock_type, b.unlock_type, true);
        assert(a.parts()[6] == b.parts()[6]);
        <[u8; 65]>::lemma_injective(a.signature, b.signature, true);
        assert(a.parts()[7] == b.parts()[7]);
        match (a.preimage, b.preimage) {
            (Some(x), Some(y)) => {
                <[u8; 32]>::lemma_injective(x, y, true);
            },
            (Some(x), None) => {
                assert(x@.len() == 32);
            },
            (None, Some(y)) => {
                assert(y@.len() == 32);
            },
            (None, None) => {},
        }
    }

    fn field_widths() -> (widths: Vec<Width>) {
        let widths = vec![
            Width::Fixed(16),
            Width::Fixed(8),
            Width::Fixed(20),
            Width::Fixed(20),
            Width::Prefixed,
            Width::Fixed(1),
            Width::Fixed(65),
            Width::Rest,
        ];
        assert(widths@ =~= Self::widths());
        widths
    }

    fn to_parts(&self) -> (parts: Vec<Vec<u8>>) {
        let preimage = match &self.preimage {
            Some(bytes) => bytes.encode(true),
            None => Vec::new(),
        };
        let parts = vec![
            self.empty_witness_args.encode(true),
            self.local_delay_epoch.encode(true),
            self.local_delay_pubkey_hash.encode(true),
            self.revocation_pubkey_hash.encode(true),
            encode_dynvec(&self.pending_htlc),
            self.unlock_type.encode(true),
            self.signature.encode(true),
            preimage,
        ];
        assert(views(parts@) =~= self.parts());
        parts
    }

    fn from_parts(parts: &Vec<Vec<u8>>) -> (r: Result<Self, DecodeError>) {
        assert(parts.len() == 8);
        let empty_witness_args = match <[u8; 16]>::decode(parts[0].as_slice(), true) {
            Ok(field) => field,
            Err(e) => {
                assert forall|v: Self| #[trigger] v.parts() != views(parts@) by {
                    assert(v.parts()[0] == v.empty_witness_args.encoding(true));
                    assert(views(parts@)[0] == parts@[0]@);
                }
                return Err(e);
            },
        };
        let local_delay_epoch = match u64::decode(parts[1].as_slice(), true) {
            Ok(field) => field,
            Err(e) => {
                assert forall|v: Self| #[trigger] v.parts() != views(parts@) by {
                    assert(v.parts()[1] == v.local_delay_epoch.encoding(true));
                    assert(views(parts@)[1] == parts@[1]@);
                }
                return Err(e);
            },
        };
        let local_delay_pubkey_hash = match <[u8; 20]>::decode(parts[2].as_slice(), true) {
            Ok(field) => field,
            Err(e) => {
                assert forall|v: Self| #[trigger] v.parts() != views(parts@) by {
                    assert(v.parts()[2] == v.local_delay_pubkey_hash.encoding(true));
                    assert(views(parts@)[2] == parts@[2]@);
                }
                return Err(e);
            },
        };
        let revocation_pubkey_hash = match <[u8; 20]>::decode(parts[3].as_slice(), true) {
            Ok(field) => field,
            Err(e) => {
                assert forall|v: Self| #[trigger] v.parts() != views(parts@) by {
                    assert(v.parts()[3] == v.revocation_pubkey_hash.encoding(true));
                    assert(views(parts@)[3] == parts@[3]@);
                }
                return Err(e);
            },
        };
        let pending_htlc = match decode_dynvec::<PendingHtlc>(parts[4].as_slice()) {
            Ok(field) => field,
            Err(e) => {
                assert forall|v: Self| v.fields_encodable() implies #[trigger] v.parts() != views(
                    parts@,
                ) by {
                    assert(v.parts()[4] == dynvec_encoding(v.pending_htlc@));
                    assert(views(parts@)[4] == parts@[4]@);
                }
                return Err(e);
            },
        };
        let unlock_type = match u8::decode(parts[5].as_slice(), true) {
            Ok(field) => field,
            Err(e) => {
                assert forall|v: Self| #[trigger] v.parts() != views(parts@) by {
                    assert(v.parts()[5] == v.unlock_type.encoding(true));
                    assert(views(parts@)[5] == parts@[5]@);
                }
                return Err(e);
            },
        };
        let signature = match <[u8; 65]>::decode(parts[6].as_slice(), true) {
            Ok(field) => field,
            Err(e) => {
                assert forall|v: Self| #[trigger] v.parts() != views(parts@) by {
                    assert(v.parts()[6] == v.signature.encoding(true));
                    assert(views(parts@)[6] == parts@[6]@);
                }
                return Err(e);
            },
        };
        let preimage = if parts[7].len() == 0 {
            None
        } else {
            match <[u8; 32]>::decode(parts[7].as_slice(), true) {
                Ok(field) => Some(field),
                Err(e) => {
                    assert forall|v: Self| #[trigger] v.parts() != views(parts@) by {
                        assert(v.parts()[7] == preimage_encoding(v.preimage));
                        assert(views(parts@)[7] == parts@[7]@);
                        if let Some(x) = v.preimage {
                            assert(x.encoding(true) == x@);
                        }
                    }
                    return Err(e);
                },
            }
        };
        let v = CommitmentWitness {
            empty_witness_args,
            local_delay_epoch,
            local_delay_pubkey_hash,
            revocation_pubkey_hash,
            pending_htlc,
            unlock_type,
            signature,
            preimage,
        };
        assert(views(parts@)[7] =~= preimage_encoding(v.preimage));
        assert(v.parts() =~= views(parts@));
        Ok(v)
    }
}

impl Molecule for CommitmentWitness {
    open spec fn encodable(&self) -> bool {
        record_encodable(*self)
    }

    open spec fn same(&self, other: &Self) -> bool {
        self.same_fields(other)
    }

    open spec fn encoding(&self, is_struct: bool) -> Seq<u8> {
        record_encoding(*self, is_struct)
    }

    proof fn lemma_injective(a: Self, b: Self, is_struct: bool) {
        lemma_record_injective(a, b, is_struct);
    }

    fn is_encodable(&self) -> (b: bool) {
        proof {
            Self::lemma_size(*self);
        }
        let n = self.pending_htlc.len();
        let preimage: u64 = match self.preimage {
            Some(_) => 32,
            None => 0,
        };
        n <= 0x0fff_ffff && 170 + 117 * (n as u64) + preimage <= 0xffff_ffff
    }

    fn encode(&self, is_struct: bool) -> (bytes: Vec<u8>) {
        encode_record(self, is_struct)
    }

    fn decode(bytes: &[u8], is_struct: bool) -> (r: Result<Self, DecodeError>) {
        decode_record::<Self>(bytes, is_struct)
    }
}

/// The witness of a commitment with no pending payment and no preimage.
#[derive(Clone, Debug, PartialEq)]
pub struct CommitmentWitnessNoHtlcAndPreImage {
    pub empty_witness_args: [u8; 16],
    pub local_delay_epoch: u64,
    pub local_delay_pubkey_hash: [u8; 20],
    pub revocation_pubkey_hash: [u8; 20],
    pub unlock_type: u8,
    pub signature: [u8; 65],
}

impl CommitmentWitnessNoHtlcAndPreImage {
    /// The table of the fields takes 158 bytes and the fixed layout 130.
    pub proof fn lemma_size(v: Self)
        ensures
            table_size(v.parts()) == 158,
            join(v.parts()).len() == 130,
    {
        reveal_with_fuel(prefix_len, 7);
        Self::lemma_parts(v);
        lemma_join_len(v.parts());
    }
}

impl Record for CommitmentWitnessNoHtlcAndPreImage {
    open spec fn widths() -> Seq<Width> {
        seq![Width::Fixed(16), Width::Fixed(8), Width::Fixed(20), Width::Fixed(20), Width::Fixed(1), Width::Fixed(65)]
    }

    open spec fn parts(&self) -> Seq<Seq<u8>> {
        seq![
            self.empty_witness_args.encoding(true),
            self.local_delay_epoch.encoding(true),
            self.local_delay_pubkey_hash.encoding(true),
            self.revocation_pubkey_hash.encoding(true),
            self.unlock_type.encoding(true),
            self.signature.encoding(true),
        ]
    }

    open spec fn fields_encodable(&self) -> bool {
        true
    }

    open spec fn same_fields(&self, other: &Self) -> bool {
        *self == *other
    }

    proof fn lemma_widths() {
    }

    proof fn lemma_parts(v: Self) {
        lemma_auto_spec_u64_to_from_le_bytes();
        assert(v.parts()[0].len() == 16);
        assert(v.parts()[1].len() == 8);
        assert(v.parts()[2].len() == 20);
        assert(v.parts()[3].len() == 20);
        assert(v.parts()[4].len() == 1);
        assert(v.parts()[5].len() == 65);
    }

    proof fn lemma_parts_injective(a: Self, b: Self) {
        assert(a.parts()[0] == b.parts()[0]);
        <[u8; 16]>::lemma_injective(a.empty_witness_args, b.empty_witness_args, true);
        assert(a.parts()[1] == b.parts()[1]);
        u64::lemma_injective(a.local_delay_epoch, b.local_delay_epoch, true);
        assert(a.parts()[2] == b.parts()[2]);
        <[u8; 20]>::lemma_injective(a.local_delay_pubkey_hash, b.local_delay_pubkey_hash, true);
        assert(a.parts()[3] == b.parts()[3]);
        <[u8; 20]>::lemma_injective(a.revocation_pubkey_hash, b.revocation_pubkey_hash, true);
        assert(a.parts()[4] == b.parts()[4]);
        u8::lemma_injective(a.unlock_type, b.unlock_type, true);
        assert(a.parts()[5] == b.parts()[5]);
        <[u8; 65]>::lemma_injective(a.signature, b.signature, true);
    }

    fn field_widths() -> (widths: Vec<Width>) {
        let widths = vec![Width::Fixed(16), Width::Fixed(8), Width::Fixed(20), Width::Fixed(20), Width::Fixed(1), Width::Fixed(65)];
        assert(widths@ =~= Self::widths());
        widths
    }

    fn to_parts(&self) -> (parts: Vec<Vec<u8>>) {
        let parts = vec![
            self.empty_witness_args.encode(true),
            self.local_delay_epoch.encode(true),
            self.local_delay_pubkey_hash.encode(true),
            self.revocation_pubkey_hash.encode(true),
            self.unlock_type.encode(true),
            self.signature.encode(true),
        ];
        assert(views(parts@) =~= self.parts());
        parts
    }

    fn from_parts(parts: &Vec<Vec<u8>>) -> (r: Result<Self, DecodeError>) {
        assert(parts.len() == 6);
        let empty_witness_args = match <[u8; 16]>::decode(parts[0].as_slice(), true) {
            Ok(field) => field,
            Err(e) => {
                assert forall|v: Self| #[trigger] v.parts() != views(parts@) by {
                    assert(v.parts()[0] == v.empty_witness_args.encoding(true));
                    assert(views(parts@)[0] == parts@[0]@);
                }
                return Err(e);
            },
        };
        let local_delay_epoch = match u64::decode(parts[1].as_slice(), true) {
            Ok(field) => field,
            Err(e) => {
                assert forall|v: Self| #[trigger] v.parts() != views(parts@) by {
                    assert(v.parts()[1] == v.local_delay_epoch.encoding(true));
                    assert(views(parts@)[1] == parts@[1]@);
                }
                return Err(e);
            },
        };
        let local_delay_pubkey_hash = match <[u8; 20]>::decode(parts[2].as_slice(), true) {
            Ok(field) => field,
            Err(e) => {
                assert forall|v: Self| #[trigger] v.parts() != views(parts@) by {
                    assert(v.parts()[2] == v.local_delay_pubkey_hash.encoding(true));
                    assert(views(parts@)[2] == parts@[2]@);
                }
                return Err(e);
            },
        };
        let revocation_pubkey_hash = match <[u8; 20]>::decode(parts[3].as_slice(), true) {
            Ok(field) => field,
            Err(e) => {
                assert forall|v: Self| #[trigger] v.parts() != views(parts@) by {
                    assert(v.parts()[3] == v.revocation_pubkey_hash.encoding(true));
                    assert(views(parts@)[3] == parts@[3]@);
                }
                return Err(e);
            },
        };
        let unlock_type = match u8::decode(parts[4].as_slice(), true) {
            Ok(field) => field,
            Err(e) => {
                assert forall|v: Self| #[trigger] v.parts() != views(parts@) by {
                    assert(v.parts()[4] == v.unlock_type.encoding(true));
                    assert(views(parts@)[4] == parts@[4]@);
                }
                return Err(e);
            },
        };
        let signature = match <[u8; 65]>::decode(parts[5].as_slice(), true) {
            Ok(field) => field,
            Err(e) => {
                assert forall|v: Self| #[trigger] v.parts() != views(parts@) by {
                    assert(v.parts()[5] == v.signature.encoding(true));
                    assert(views(parts@)[5] == parts@[5]@);
                }
                return Err(e);
            },
        };
        let v = CommitmentWitnessNoHtlcAndPreImage { empty_witness_args, local_delay_epoch, local_delay_pubkey_hash, revocation_pubkey_hash, unlock_type, signature };
        assert(v.parts() =~= views(parts@));
        Ok(v)
    }
}

impl Molecule for CommitmentWitnessNoHtlcAndPreImage {
    open spec fn encodable(&self) -> bool {
        true
    }

    open spec fn same(&self, other: &Self) -> bool {
        *self == *other
    }

    open spec fn encoding(&self, is_struct: bool) -> Seq<u8> {
        record_encoding(*self, is_struct)
    }

    proof fn lemma_injective(a: Self, b: Self, is_struct: bool) {
        Self::lemma_size(a);
        Self::lemma_size(b);
        lemma_record_injective(a, b, is_struct);
    }

    fn is_encodable(&self) -> (b: bool) {
        true
    }

    fn encode(&self, is_struct: bool) -> (bytes: Vec<u8>) {
        proof {
            Self::lemma_size(*self);
        }
        encode_record(self, is_struct)
    }

    fn decode(bytes: &[u8], is_struct: bool) -> (r: Result<Self, DecodeError>) {
        let r = decode_record::<Self>(bytes, is_struct);
        proof {
            if r is Err {
                assert forall|v: Self| v.encodable() implies #[trigger] v.encoding(is_struct)
                    != bytes@ by {
                    Self::lemma_size(v);
                }
            }
        }
        r
    }
}

/// A commitment cell whose witness has no pending payment and no preimage.
pub struct CommitmentCellNoHtlcAndPreImage {
    pub lock_arg: [u8; 20],
    pub type_arg: Option<u8>,
    pub data: u8,
    pub witness: Option<CommitmentWitnessNoHtlcAndPreImage>,
    pub struct_flag: MoleculeStructFlag,
}

impl CommitmentCellNoHtlcAndPreImage {
    /// The record with a zero lock argument, zero data, no type argument, no witness
    /// and the default flag.
    pub fn default() -> (cell: Self)
        ensures
            cell.lock_arg@ == Seq::new(20, |i: int| 0u8),
            cell.type_arg is None,
            cell.data == 0,
            cell.witness is None,
            cell.struct_flag == default_flag(),
    {
        let cell = CommitmentCellNoHtlcAndPreImage {
            lock_arg: [0; 20],
            type_arg: None,
            data: 0,
            witness: None,
            struct_flag: MoleculeStructFlag::default(),
        };
        assert(cell.lock_arg@ =~= Seq::new(20, |i: int| 0u8));
        cell
    }
}

impl Cell for CommitmentCellNoHtlcAndPreImage {
    open spec fn struct_flag(&self) -> MoleculeStructFlag {
        self.struct_flag
    }

    open spec fn encodable(&self) -> bool {
        &&& self.lock_arg.encodable()
        &&& optional_encodable(self.type_arg)
        &&& self.data.encodable()
        &&& optional_encodable(self.witness)
    }

    open spec fn lock_arg_bytes(&self) -> Seq<u8> {
        self.lock_arg.encoding(self.struct_flag.lock_arg)
    }

    open spec fn type_arg_bytes(&self) -> Option<Seq<u8>> {
        optional_encoding(self.type_arg, self.struct_flag.type_arg)
    }

    open spec fn data_bytes(&self) -> Seq<u8> {
        self.data.encoding(self.struct_flag.data)
    }

    open spec fn witness_bytes(&self) -> Option<Seq<u8>> {
        optional_encoding(self.witness, self.struct_flag.witness)
    }

    open spec fn same(&self, other: &Self) -> bool {
        &&& self.lock_arg.same(&other.lock_arg)
        &&& optional_same(self.type_arg, other.type_arg)
        &&& self.data.same(&other.data)
        &&& optional_same(self.witness, other.witness)
        &&& self.struct_flag == other.struct_flag
    }

    proof fn lemma_injective(a: Self, b: Self) {
        <[u8; 20]>::lemma_injective(a.lock_arg, b.lock_arg, a.struct_flag.lock_arg);
        lemma_optional_injective(a.type_arg, b.type_arg, a.struct_flag.type_arg);
        u8::lemma_injective(a.data, b.data, a.struct_flag.data);
        lemma_optional_injective(a.witness, b.witness, a.struct_flag.witness);
    }

    fn is_encodable(&self) -> (b: bool) {
        self.lock_arg.is_encodable() && optional_is_encodable(&self.type_arg)
            && self.data.is_encodable() && optional_is_encodable(&self.witness)
    }

    fn get_lock_arg(&self) -> (bytes: Vec<u8>) {
        self.lock_arg.encode(self.struct_flag.lock_arg)
    }

    fn get_type_arg(&self) -> (bytes: Option<Vec<u8>>) {
        encode_optional(&self.type_arg, self.struct_flag.type_arg)
    }

    fn get_data(&self) -> (bytes: Vec<u8>) {
        self.data.encode(self.struct_flag.data)
    }

    fn get_witness(&self) -> (bytes: Option<Vec<u8>>) {
        encode_optional(&self.witness, self.struct_flag.witness)
    }

    fn from_arg(
        lock_arg: Vec<u8>,
        type_arg: Option<Vec<u8>>,
        data1: Vec<u8>,
        witness_args: Option<Vec<u8>>,
    ) -> (r: Result<Self, DecodeError>) {
        let struct_flag = MoleculeStructFlag::default();
        let lock = match <[u8; 20]>::decode(lock_arg.as_slice(), struct_flag.lock_arg) {
            Ok(field) => field,
            Err(e) => {
                return Err(e);
            },
        };
        let type_ = match decode_optional::<u8>(&type_arg, struct_flag.type_arg) {
            Ok(field) => field,
            Err(e) => {
                return Err(e);
            },
        };
        let data = match u8::decode(data1.as_slice(), struct_flag.data) {
            Ok(field) => field,
            Err(e) => {
                return Err(e);
            },
        };
        let witness = match decode_optional::<CommitmentWitnessNoHtlcAndPreImage>(&witness_args, struct_flag.witness) {
            Ok(field) => field,
            Err(e) => {
                return Err(e);
            },
        };
        Ok(CommitmentCellNoHtlcAndPreImage { lock_arg: lock, type_arg: type_, data, witness, struct_flag })
    }
}

/// A commitment cell.
pub struct CommitmentCell {
    pub lock_arg: [u8; 20],
    pub type_arg: Option<u8>,
    pub data: u8,
    pub witness: Option<CommitmentWitness>,
    pub struct_flag: MoleculeStructFlag,
}

impl CommitmentCell {
    /// The record with a zero lock argument, zero data, no type argument, no witness
    /// and the default flag.
    pub fn default() -> (cell: Self)
        ensures
            cell.lock_arg@ == Seq::new(20, |i: int| 0u8),
            cell.type_arg is None,
            cell.data == 0,
            cell.witness is None,
            cell.struct_flag == default_flag(),
    {
        let cell = CommitmentCell {
            lock_arg: [0; 20],
            type_arg: None,
            data: 0,
            witness: None,
            struct_flag: MoleculeStructFlag::default(),
        };
        assert(cell.lock_arg@ =~= Seq::new(20, |i: int| 0u8));
        cell
    }
}

impl Cell for CommitmentCell {
    open spec fn struct_flag(&self) -> MoleculeStructFlag {
        self.struct_flag
    }

    open spec fn encodable(&self) -> bool {
        &&& self.lock_arg.encodable()
        &&& optional_encodable(self.type_arg)
        &&& self.data.encodable()
        &&& optional_encodable(self.witness)
    }

    open spec fn lock_arg_bytes(&self) -> Seq<u8> {
        self.lock_arg.encoding(self.struct_flag.lock_arg)
    }

    open spec fn type_arg_bytes(&self) -> Option<Seq<u8>> {
        optional_encoding(self.type_arg, self.struct_flag.type_arg)
    }

    open spec fn data_bytes(&self) -> Seq<u8> {
        self.data.encoding(self.struct_flag.data)
    }

    open spec fn witness_bytes(&self) -> Option<Seq<u8>> {
        optional_encoding(self.witness, self.struct_flag.witness)
    }

    open spec fn same(&self, other: &Self) -> bool {
        &&& self.lock_arg.same(&other.lock_arg)
        &&& optional_same(self.type_arg, other.type_arg)
        &&& self.data.same(&other.data)
        &&& optional_same(self.witness, other.witness)
        &&& self.struct_flag == other.struct_flag
    }

    proof fn lemma_injective(a: Self, b: Self) {
        <[u8; 20]>::lemma_injective(a.lock_arg, b.lock_arg, a.struct_flag.lock_arg);
        lemma_optional_injective(a.type_arg, b.type_arg, a.struct_flag.type_arg);
        u8::lemma_injective(a.data, b.data, a.struct_flag.data);
        lemma_optional_injective(a.witness, b.witness, a.struct_flag.witness);
    }

    fn is_encodable(&self) -> (b: bool) {
        self.lock_arg.is_encodable() && optional_is_encodable(&self.type_arg)
            && self.data.is_encodable() && optional_is_encodable(&self.witness)
    }

    fn get_lock_arg(&self) -> (bytes: Vec<u8>) {
        self.lock_arg.encode(self.struct_flag.lock_arg)
    }

    fn get_type_arg(&self) -> (bytes: Option<Vec<u8>>) {
        encode_optional(&self.type_arg, self.struct_flag.type_arg)
    }

    fn get_data(&self) -> (bytes: Vec<u8>) {
        self.data.encode(self.struct_flag.data)
    }

    fn get_witness(&self) -> (bytes: Option<Vec<u8>>) {
        encode_optional(&self.witness, self.struct_flag.witness)
    }

    fn from_arg(
        lock_arg: Vec<u8>,
        type_arg: Option<Vec<u8>>,
        data1: Vec<u8>,
        witness_args: Option<Vec<u8>>,
    ) -> (r: Result<Self, DecodeError>) {
        let struct_flag = MoleculeStructFlag::default();
        let lock = match <[u8; 20]>::decode(lock_arg.as_slice(), struct_flag.lock_arg) {
            Ok(field) => field,
            Err(e) => {
                return Err(e);
            },
        };
        let type_ = match decode_optional::<u8>(&type_arg, struct_flag.type_arg) {
            Ok(field) => field,
            Err(e) => {
                return Err(e);
            },
        };
        let data = match u8::decode(data1.as_slice(), struct_flag.data) {
            Ok(field) => field,
            Err(e) => {
                return Err(e);
            },
        };
        let witness = match decode_optional::<CommitmentWitness>(&witness_args, struct_flag.witness) {
            Ok(field) => field,
            Err(e) => {
                return Err(e);
            },
        };
        Ok(CommitmentCell { lock_arg: lock, type_arg: type_, data, witness, struct_flag })
    }
}

/// The witness of a commitment with one pending payment.
#[derive(Clone, Debug, PartialEq)]
pub struct CommitmentPendinghtlc1Witness {
    pub empty_witness_args: [u8; 16],
    pub local_delay_epoch: u64,
    pub local_delay_pubkey_hash: [u8; 20],
    pub revocation_pubkey_hash: [u8; 20],
    pub pending_htlc1: PendingHtlc,
    pub unlock_type: u8,
    pub signature: [u8; 65],
}

impl CommitmentPendinghtlc1Witness {
    /// The table of the fields takes 247 bytes and the fixed layout 215.
    pub proof fn lemma_size(v: Self)
        ensures
            table_size(v.parts()) == 247,
            join(v.parts()).len() == 215,
    {
        reveal_with_fuel(prefix_len, 8);
        Self::lemma_parts(v);
        lemma_join_len(v.parts());
    }
}

impl Record for CommitmentPendinghtlc1Witness {
    open spec fn widths() -> Seq<Width> {
        seq![Width::Fixed(16), Width::Fixed(8), Width::Fixed(20), Width::Fixed(20), Width::Fixed(85), Width::Fixed(1), Width::Fixed(65)]
    }

    open spec fn parts(&self) -> Seq<Seq<u8>> {
        seq![
            self.empty_witness_args.encoding(true),
            self.local_delay_epoch.encoding(true),
            self.local_delay_pubkey_hash.encoding(true),
            self.revocation_pubkey_hash.encoding(true),
            self.pending_htlc1.encoding(true),
            self.unlock_type.encoding(true),
            self.signature.encoding(true),
        ]
    }

    open spec fn fields_encodable(&self) -> bool {
        true
    }

    open spec fn same_fields(&self, other: &Self) -> bool {
        *self == *other
    }

    proof fn lemma_widths() {
    }

    proof fn lemma_parts(v: Self) {
        lemma_auto_spec_u64_to_from_le_bytes();
        PendingHtlc::lemma_size(v.pending_htlc1);
        assert(v.parts()[0].len() == 16);
        assert(v.parts()[1].len() == 8);
        assert(v.parts()[2].len() == 20);
        assert(v.parts()[3].len() == 20);
        assert(v.parts()[4].len() == 85);
        assert(v.parts()[5].len() == 1);
        assert(v.parts()[6].len() == 65);
    }

    proof fn lemma_parts_injective(a: Self, b: Self) {
        assert(a.parts()[0] == b.parts()[0]);
        <[u8; 16]>::lemma_injective(a.empty_witness_args, b.empty_witness_args, true);
        assert(a.parts()[1] == b.parts()[1]);
        u64::lemma_injective(a.local_delay_epoch, b.local_delay_epoch, true);
        assert(a.parts()[2] == b.parts()[2]);
        <[u8; 20]>::lemma_injective(a.local_delay_pubkey_hash, b.local_delay_pubkey_hash, true);
        assert(a.parts()[3] == b.parts()[3]);
        <[u8; 20]>::lemma_injective(a.revocation_pubkey_hash, b.revocation_pubkey_hash, true);
        assert(a.parts()[4] == b.parts()[4]);
        PendingHtlc::lemma_injective(a.pending_htlc1, b.pending_htlc1, true);
        assert(a.parts()[5] == b.parts()[5]);
        u8::lemma_injective(a.unlock_type, b.unlock_type, true);
        assert(a.parts()[6] == b.parts()[6]);
        <[u8; 65]>::lemma_injective(a.signature, b.signature, true);
    }

    fn field_widths() -> (widths: Vec<Width>) {
        let widths = vec![Width::Fixed(16), Width::Fixed(8), Width::Fixed(20), Width::Fixed(20), Width::Fixed(85), Width::Fixed(1), Width::Fixed(65)];
        assert(widths@ =~= Self::widths());
        widths
    }

    fn to_parts(&self) -> (parts: Vec<Vec<u8>>) {
        let parts = vec![
            self.empty_witness_args.encode(true),
            self.local_delay_epoch.encode(true),
            self.local_delay_pubkey_hash.encode(true),
            self.revocation_pubkey_hash.encode(true),
            self.pending_htlc1.encode(true),
            self.unlock_type.encode(true),
            self.signature.encode(true),
        ];
        assert(views(parts@) =~= self.parts());
        parts
    }

    fn from_parts(parts: &Vec<Vec<u8>>) -> (r: Result<Self, DecodeError>) {
        assert(parts.len() == 7);
        let empty_witness_args = match <[u8; 16]>::decode(parts[0].as_slice(), true) {
            Ok(field) => field,
            Err(e) => {
                assert forall|v: Self| #[trigger] v.parts() != views(parts@) by {
                    assert(v.parts()[0] == v.empty_witness_args.encoding(true));
                    assert(views(parts@)[0] == parts@[0]@);
                }
                return Err(e);
            },
        };
        let local_delay_epoch = match u64::decode(parts[1].as_slice(), true) {
            Ok(field) => field,
            Err(e) => {
                assert forall|v: Self| #[trigger] v.parts() != views(parts@) by {
                    assert(v.parts()[1] == v.local_delay_epoch.encoding(true));
                    assert(views(parts@)[1] == parts@[1]@);
                }
                return Err(e);
            },
        };
        let local_delay_pubkey_hash = match <[u8; 20]>::decode(parts[2].as_slice(), true) {
            Ok(field) => field,
            Err(e) => {
                assert forall|v: Self| #[trigger] v.parts() != views(parts@) by {
                    assert(v.parts()[2] == v.local_delay_pubkey_hash.encoding(true));
                    assert(views(parts@)[2] == parts@[2]@);
                }
                return Err(e);
            },
        };
        let revocation_pubkey_hash = match <[u8; 20]>::decode(parts[3].as_slice(), true) {
            Ok(field) => field,
            Err(e) => {
                assert forall|v: Self| #[trigger] v.parts() != views(parts@) by {
                    assert(v.parts()[3] == v.revocation_pubkey_hash.encoding(true));
                    assert(views(parts@)[3] == parts@[3]@);
                }
                return Err(e);
            },
        };
        let pending_htlc1 = match PendingHtlc::decode(parts[4].as_slice(), true) {
            Ok(field) => field,
            Err(e) => {
                assert forall|v: Self| #[trigger] v.parts() != views(parts@) by {
                    assert(v.parts()[4] == v.pending_htlc1.encoding(true));
                    assert(views(parts@)[4] == parts@[4]@);
                }
                return Err(e);
            },
        };
        let unlock_type = match u8::decode(parts[5].as_slice(), true) {
            Ok(field) => field,
            Err(e) => {
                assert forall|v: Self| #[trigger] v.parts() != views(parts@) by {
                    assert(v.parts()[5] == v.unlock_type.encoding(true));
                    assert(views(parts@)[5] == parts@[5]@);
                }
                return Err(e);
            },
        };
        let signature = match <[u8; 65]>::decode(parts[6].as_slice(), true) {
            Ok(field) => field,
            Err(e) => {
                assert forall|v: Self| #[trigger] v.parts() != views(parts@) by {
                    assert(v.parts()[6] == v.signature.encoding(true));
                    assert(views(parts@)[6] == parts@[6]@);
                }
                return Err(e);
            },
        };
        let v = CommitmentPendinghtlc1Witness { empty_witness_args, local_delay_epoch, local_delay_pubkey_hash, revocation_pubkey_hash, pending_htlc1, unlock_type, signature };
        assert(v.parts() =~= views(parts@));
        Ok(v)
    }
}

impl Molecule for CommitmentPendinghtlc1Witness {
    open spec fn encodable(&self) -> bool {
        true
    }

    open spec fn same(&self, other: &Self) -> bool {
        *self == *other
    }

    open spec fn encoding(&self, is_struct: bool) -> Seq<u8> {
        record_encoding(*self, is_struct)
    }

    proof fn lemma_injective(a: Self, b: Self, is_struct: bool) {
        Self::lemma_size(a);
        Self::lemma_size(b);
        lemma_record_injective(a, b, is_struct);
    }

    fn is_encodable(&self) -> (b: bool) {
        true
    }

    fn encode(&self, is_struct: bool) -> (bytes: Vec<u8>) {
        proof {
            Self::lemma_size(*self);
        }
        encode_record(self, is_struct)
    }

    fn decode(bytes: &[u8], is_struct: bool) -> (r: Result<Self, DecodeError>) {
        let r = decode_record::<Self>(bytes, is_struct);
        proof {
            if r is Err {
                assert forall|v: Self| v.encodable() implies #[trigger] v.encoding(is_struct)
                    != bytes@ by {
                    Self::lemma_size(v);
                }
            }
        }
        r
    }
}

/// A commitment cell with one pending payment.
pub struct CommitmentHTCL1Cell {
    pub lock_arg: [u8; 20],
    pub type_arg: Option<[u8; 32]>,
    pub data: u128,
    pub witness: Option<CommitmentPendinghtlc1Witness>,
    pub struct_flag: MoleculeStructFlag,
}

impl CommitmentHTCL1Cell {
    /// The record with a zero lock argument, zero data, no type argument, no witness
    /// and the default flag.
    pub fn default() -> (cell: Self)
        ensures
            cell.lock_arg@ == Seq::new(20, |i: int| 0u8),
            cell.type_arg is None,
            cell.data == 0,
            cell.witness is None,
            cell.struct_flag == default_flag(),
    {
        let cell = CommitmentHTCL1Cell {
            lock_arg: [0; 20],
            type_arg: None,
            data: 0,
            witness: None,
            struct_flag: MoleculeStructFlag::default(),
        };
        assert(cell.lock_arg@ =~= Seq::new(20, |i: int| 0u8));
        cell
    }
}

impl Cell for CommitmentHTCL1Cell {
    open spec fn struct_flag(&self) -> MoleculeStructFlag {
        self.struct_flag
    }

    open spec fn encodable(&self) -> bool {
        &&& self.lock_arg.encodable()
        &&& optional_encodable(self.type_arg)
        &&& self.data.encodable()
        &&& optional_encodable(self.witness)
    }

    open spec fn lock_arg_bytes(&self) -> Seq<u8> {
        self.lock_arg.encoding(self.struct_flag.lock_arg)
    }

    open spec fn type_arg_bytes(&self) -> Option<Seq<u8>> {
        optional_encoding(self.type_arg, self.struct_flag.type_arg)
    }

    open spec fn data_bytes(&self) -> Seq<u8> {
        self.data.encoding(self.struct_flag.data)
    }

    open spec fn witness_bytes(&self) -> Option<Seq<u8>> {
        optional_encoding(self.witness, self.struct_flag.witness)
    }

    open spec fn same(&self, other: &Self) -> bool {
        &&& self.lock_arg.same(&other.lock_arg)
        &&& optional_same(self.type_arg, other.type_arg)
        &&& self.data.same(&other.data)
        &&& optional_same(self.witness, other.witness)
        &&& self.struct_flag == other.struct_flag
    }

    proof fn lemma_injective(a: Self, b: Self) {
        <[u8; 20]>::lemma_injective(a.lock_arg, b.lock_arg, a.struct_flag.lock_arg);
        lemma_optional_injective(a.type_arg, b.type_arg, a.struct_flag.type_arg);
        u128::lemma_injective(a.data, b.data, a.struct_flag.data);
        lemma_optional_injective(a.witness, b.witness, a.struct_flag.witness);
    }

    fn is_encodable(&self) -> (b: bool) {
        self.lock_arg.is_encodable() && optional_is_encodable(&self.type_arg)
            && self.data.is_encodable() && optional_is_encodable(&self.witness)
    }

    fn get_lock_arg(&self) -> (bytes: Vec<u8>) {
        self.lock_arg.encode(self.struct_flag.lock_arg)
    }

    fn get_type_arg(&self) -> (bytes: Option<Vec<u8>>) {
        encode_optional(&self.type_arg, self.struct_flag.type_arg)
    }

    fn get_data(&self) -> (bytes: Vec<u8>) {
        self.data.encode(self.struct_flag.data)
    }

    fn get_witness(&self) -> (bytes: Option<Vec<u8>>) {
        encode_optional(&self.witness, self.struct_flag.witness)
    }

    fn from_arg(
        lock_arg: Vec<u8>,
        type_arg: Option<Vec<u8>>,
        data1: Vec<u8>,
        witness_args: Option<Vec<u8>>,
    ) -> (r: Result<Self, DecodeError>) {
        let struct_flag = MoleculeStructFlag::default();
        let lock = match <[u8; 20]>::decode(lock_arg.as_slice(), struct_flag.lock_arg) {
            Ok(field) => field,
            Err(e) => {
                return Err(e);
            },
        };
        let type_ = match decode_optional::<[u8; 32]>(&type_arg, struct_flag.type_arg) {
            Ok(field) => field,
            Err(e) => {
                return Err(e);
            },
        };
        let data = match u128::decode(data1.as_slice(), struct_flag.data) {
            Ok(field) => field,
            Err(e) => {
                return Err(e);
            },
        };
        let witness = match decode_optional::<CommitmentPendinghtlc1Witness>(&witness_args, struct_flag.witness) {
            Ok(field) => field,
            Err(e) => {
                return Err(e);
            },
        };
        Ok(CommitmentHTCL1Cell { lock_arg: lock, type_arg: type_, data, witness, struct_flag })
    }
}

/// The witness of a commitment with two pending payments.
#[derive(Clone, Debug, PartialEq)]
pub struct CommitmentPendinghtlc2Witness {
    pub empty_witness_args: [u8; 16],
    pub local_delay_epoch: u64,
    pub local_delay_pubkey_hash: [u8; 20],
    pub revocation_pubkey_hash: [u8; 20],
    pub pending_htlc1: PendingHtlc,
    pub pending_htlc2: PendingHtlc,
    pub unlock_type: u8,
    pub signature: [u8; 65],
}

impl CommitmentPendinghtlc2Witness {
    /// The table of the fields takes 336 bytes and the fixed layout 300.
    pub proof fn lemma_size(v: Self)
        ensures
            table_size(v.parts()) == 336,
            join(v.parts()).len() == 300,
    {
        reveal_with_fuel(prefix_len, 9);
        Self::lemma_parts(v);
        lemma_join_len(v.parts());
    }
}

impl Record for CommitmentPendinghtlc2Witness {
    open spec fn widths() -> Seq<Width> {
        seq![Width::Fixed(16), Width::Fixed(8), Width::Fixed(20), Width::Fixed(20), Width::Fixed(85), Width::Fixed(85), Width::Fixed(1), Width::Fixed(65)]
    }

    open spec fn parts(&self) -> Seq<Seq<u8>> {
        seq![
            self.empty_witness_args.encoding(true),
            self.local_delay_epoch.encoding(true),
            self.local_delay_pubkey_hash.encoding(true),
            self.revocation_pubkey_hash.encoding(true),
            self.pending_htlc1.encoding(true),
            self.pending_htlc2.encoding(true),
            self.unlock_type.encoding(true),
            self.signature.encoding(true),
        ]
    }

    open spec fn fields_encodable(&self) -> bool {
        true
    }

    open spec fn same_fields(&self, other: &Self) -> bool {
        *self == *other
    }

    proof fn lemma_widths() {
    }

    proof fn lemma_parts(v: Self) {
        lemma_auto_spec_u64_to_from_le_bytes();
        PendingHtlc::lemma_size(v.pending_htlc1);
        PendingHtlc::lemma_size(v.pending_htlc2);
        assert(v.parts()[0].len() == 16);
        assert(v.parts()[1].len() == 8);
        assert(v.parts()[2].len() == 20);
        assert(v.parts()[3].len() == 20);
        assert(v.parts()[4].len() == 85);
        assert(v.parts()[5].len() == 85);
        assert(v.parts()[6].len() == 1);
        assert(v.parts()[7].len() == 65);
    }

    proof fn lemma_parts_injective(a: Self, b: Self) {
        assert(a.parts()[0] == b.parts()[0]);
        <[u8; 16]>::lemma_injective(a.empty_witness_args, b.empty_witness_args, true);
        assert(a.parts()[1] == b.parts()[1]);
        u64::lemma_injective(a.local_delay_epoch, b.local_delay_epoch, true);
        assert(a.parts()[2] == b.parts()[2]);
        <[u8; 20]>::lemma_injective(a.local_delay_pubkey_hash, b.local_delay_pubkey_hash, true);
        assert(a.parts()[3] == b.parts()[3]);
        <[u8; 20]>::lemma_injective(a.revocation_pubkey_hash, b.revocation_pubkey_hash, true);
        assert(a.parts()[4] == b.parts()[4]);
        PendingHtlc::lemma_injective(a.pending_htlc1, b.pending_htlc1, true);
        assert(a.parts()[5] == b.parts()[5]);
        PendingHtlc::lemma_injective(a.pending_htlc2, b.pending_htlc2, true);
        assert(a.parts()[6] == b.parts()[6]);
        u8::lemma_injective(a.unlock_type, b.unlock_type, true);
        assert(a.parts()[7] == b.parts()[7]);
        <[u8; 65]>::lemma_injective(a.signature, b.signature, true);
    }

    fn field_widths() -> (widths: Vec<Width>) {
        let widths = vec![Width::Fixed(16), Width::Fixed(8), Width::Fixed(20), Width::Fixed(20), Width::Fixed(85), Width::Fixed(85), Width::Fixed(1), Width::Fixed(65)];
        assert(widths@ =~= Self::widths());
        widths
    }

    fn to_parts(&self) -> (parts: Vec<Vec<u8>>) {
        let parts = vec![
            self.empty_witness_args.encode(true),
            self.local_delay_epoch.encode(true),
            self.local_delay_pubkey_hash.encode(true),
            self.revocation_pubkey_hash.encode(true),
            self.pending_htlc1.encode(true),
            self.pending_htlc2.encode(true),
            self.unlock_type.encode(true),
            self.signature.encode(true),
        ];
        assert(views(parts@) =~= self.parts());
        parts
    }

    fn from_parts(parts: &Vec<Vec<u8>>) -> (r: Result<Self, DecodeError>) {
        assert(parts.len() == 8);
        let empty_witness_args = match <[u8; 16]>::decode(parts[0].as_slice(), true) {
            Ok(field) => field,
            Err(e) => {
                assert forall|v: Self| #[trigger] v.parts() != views(parts@) by {
                    assert(v.parts()[0] == v.empty_witness_args.encoding(true));
                    assert(views(parts@)[0] == parts@[0]@);
                }
                return Err(e);
            },
        };
        let local_delay_epoch = match u64::decode(parts[1].as_slice(), true) {
            Ok(field) => field,
            Err(e) => {
                assert forall|v: Self| #[trigger] v.parts() != views(parts@) by {
                    assert(v.parts()[1] == v.local_delay_epoch.encoding(true));
                    assert(views(parts@)[1] == parts@[1]@);
                }
                return Err(e);
            },
        };
        let local_delay_pubkey_hash = match <[u8; 20]>::decode(parts[2].as_slice(), true) {
            Ok(field) => field,
            Err(e) => {
                assert forall|v: Self| #[trigger] v.parts() != views(parts@) by {
                    assert(v.parts()[2] == v.local_delay_pubkey_hash.encoding(true));
                    assert(views(parts@)[2] == parts@[2]@);
                }
                return Err(e);
            },
        };
        let revocation_pubkey_hash = match <[u8; 20]>::decode(parts[3].as_slice(), true) {
            Ok(field) => field,
            Err(e) => {
                assert forall|v: Self| #[trigger] v.parts() != views(parts@) by {
                    assert(v.parts()[3] == v.revocation_pubkey_hash.encoding(true));
                    assert(views(parts@)[3] == parts@[3]@);
                }
                return Err(e);
            },
        };
        let pending_htlc1 = match PendingHtlc::decode(parts[4].as_slice(), true) {
            Ok(field) => field,
            Err(e) => {
                assert forall|v: Self| #[trigger] v.parts() != views(parts@) by {
                    assert(v.parts()[4] == v.pending_htlc1.encoding(true));
                    assert(views(parts@)[4] == parts@[4]@);
                }
                return Err(e);
            },
        };
        let pending_htlc2 = match PendingHtlc::decode(parts[5].as_slice(), true) {
            Ok(field) => field,
            Err(e) => {
                assert forall|v: Self| #[trigger] v.parts() != views(parts@) by {
                    assert(v.parts()[5] == v.pending_htlc2.encoding(true));
                    assert(views(parts@)[5] == parts@[5]@);
                }
                return Err(e);
            },
        };
        let unlock_type = match u8::decode(parts[6].as_slice(), true) {
            Ok(field) => field,
            Err(e) => {
                assert forall|v: Self| #[trigger] v.parts() != views(parts@) by {
                    assert(v.parts()[6] == v.unlock_type.encoding(true));
                    assert(views(parts@)[6] == parts@[6]@);
                }
                return Err(e);
            },
        };
        let signature = match <[u8; 65]>::decode(parts[7].as_slice(), true) {
            Ok(field) => field,
            Err(e) => {
                assert forall|v: Self| #[trigger] v.parts() != views(parts@) by {
                    assert(v.parts()[7] == v.signature.encoding(true));
                    assert(views(parts@)[7] == parts@[7]@);
                }
                return Err(e);
            },
        };
        let v = CommitmentPendinghtlc2Witness { empty_witness_args, local_delay_epoch, local_delay_pubkey_hash, revocation_pubkey_hash, pending_htlc1, pending_htlc2, unlock_type, signature };
        assert(v.parts() =~= views(parts@));
        Ok(v)
    }
}

impl Molecule for CommitmentPendinghtlc2Witness {
    open spec fn encodable(&self) -> bool {
        true
    }

    open spec fn same(&self, other: &Self) -> bool {
        *self == *other
    }

    open spec fn encoding(&self, is_struct: bool) -> Seq<u8> {
        record_encoding(*self, is_struct)
    }

    proof fn lemma_injective(a: Self, b: Self, is_struct: bool) {
        Self::lemma_size(a);
        Self::lemma_size(b);
        lemma_record_injective(a, b, is_struct);
    }

    fn is_encodable(&self) -> (b: bool) {
        true
    }

    fn encode(&self, is_struct: bool) -> (bytes: Vec<u8>) {
        proof {
            Self::lemma_size(*self);
        }
        encode_record(self, is_struct)
    }

    fn decode(bytes: &[u8], is_struct: bool) -> (r: Result<Self, DecodeError>) {
        let r = decode_record::<Self>(bytes, is_struct);
        proof {
            if r is Err {
                assert forall|v: Self| v.encodable() implies #[trigger] v.encoding(is_struct)
                    != bytes@ by {
                    Self::lemma_size(v);
                }
            }
        }
        r
    }
}

/// A commitment cell with two pending payments.
pub struct CommitmentHTCL2Cell {
    pub lock_arg: [u8; 20],
    pub type_arg: Option<u8>,
    pub data: u8,
    pub witness: Option<CommitmentPendinghtlc2Witness>,
    pub struct_flag: MoleculeStructFlag,
}

impl CommitmentHTCL2Cell {
    /// The record with a zero lock argument, zero data, no type argument, no witness
    /// and the default flag.
    pub fn default() -> (cell: Self)
        ensures
            cell.lock_arg@ == Seq::new(20, |i: int| 0u8),
            cell.type_arg is None,
            cell.data == 0,
            cell.witness is None,
            cell.struct_flag == default_flag(),
    {
        let cell = CommitmentHTCL2Cell {
            lock_arg: [0; 20],
            type_arg: None,
            data: 0,
            witness: None,
            struct_flag: MoleculeStructFlag::default(),
        };
        assert(cell.lock_arg@ =~= Seq::new(20, |i: int| 0u8));
        cell
    }
}

impl Cell for CommitmentHTCL2Cell {
    open spec fn struct_flag(&self) -> MoleculeStructFlag {
        self.struct_flag
    }

    open spec fn encodable(&self) -> bool {
        &&& self.lock_arg.encodable()
        &&& optional_encodable(self.type_arg)
        &&& self.data.encodable()
        &&& optional_encodable(self.witness)
    }

    open spec fn lock_arg_bytes(&self) -> Seq<u8> {
        self.lock_arg.encoding(self.struct_flag.lock_arg)
    }

    open spec fn type_arg_bytes(&self) -> Option<Seq<u8>> {
        optional_encoding(self.type_arg, self.struct_flag.type_arg)
    }

    open spec fn data_bytes(&self) -> Seq<u8> {
        self.data.encoding(self.struct_flag.data)
    }

    open spec fn witness_bytes(&self) -> Option<Seq<u8>> {
        optional_encoding(self.witness, self.struct_flag.witness)
    }

    open spec fn same(&self, other: &Self) -> bool {
        &&& self.lock_arg.same(&other.lock_arg)
        &&& optional_same(self.type_arg, other.type_arg)
        &&& self.data.same(&other.data)
        &&& optional_same(self.witness, other.witness)
        &&& self.struct_flag == other.struct_flag
    }

    proof fn lemma_injective(a: Self, b: Self) {
        <[u8; 20]>::lemma_injective(a.lock_arg, b.lock_arg, a.struct_flag.lock_arg);
        lemma_optional_injective(a.type_arg, b.type_arg, a.struct_flag.type_arg);
        u8::lemma_injective(a.data, b.data, a.struct_flag.data);
        lemma_optional_injective(a.witness, b.witness, a.struct_flag.witness);
    }

    fn is_encodable(&self) -> (b: bool) {
        self.lock_arg.is_encodable() && optional_is_encodable(&self.type_arg)
            && self.data.is_encodable() && optional_is_encodable(&self.witness)
    }

    fn get_lock_arg(&self) -> (bytes: Vec<u8>) {
        self.lock_arg.encode(self.struct_flag.lock_arg)
    }

    fn get_type_arg(&self) -> (bytes: Option<Vec<u8>>) {
        encode_optional(&self.type_arg, self.struct_flag.type_arg)
    }

    fn get_data(&self) -> (bytes: Vec<u8>) {
        self.data.encode(self.struct_flag.data)
    }

    fn get_witness(&self) -> (bytes: Option<Vec<u8>>) {
        encode_optional(&self.witness, self.struct_flag.witness)
    }

    fn from_arg(
        lock_arg: Vec<u8>,
        type_arg: Option<Vec<u8>>,
        data1: Vec<u8>,
        witness_args: Option<Vec<u8>>,
    ) -> (r: Result<Self, DecodeError>) {
        let struct_flag = MoleculeStructFlag::default();
        let lock = match <[u8; 20]>::decode(lock_arg.as_slice(), struct_flag.lock_arg) {
            Ok(field) => field,
            Err(e) => {
                return Err(e);
            },
        };
        let type_ = match decode_optional::<u8>(&type_arg, struct_flag.type_arg) {
            Ok(field) => field,
            Err(e) => {
                return Err(e);
            },
        };
        let data = match u8::decode(data1.as_slice(), struct_flag.data) {
            Ok(field) => field,
            Err(e) => {
                return Err(e);
            },
        };
        let witness = match decode_optional::<CommitmentPendinghtlc2Witness>(&witness_args, struct_flag.witness) {
            Ok(field) => field,
            Err(e) => {
                return Err(e);
            },
        };
        Ok(CommitmentHTCL2Cell { lock_arg: lock, type_arg: type_, data, witness, struct_flag })
    }
}

/// The witness of a commitment with two pending payments and a preimage.
#[derive(Clone, Debug, PartialEq)]
pub struct CommitmentPendinghtlc2WithPriImageWitness {
    pub empty_witness_args: [u8; 16],
    pub local_delay_epoch: u64,
    pub local_delay_pubkey_hash: [u8; 20],
    pub revocation_pubkey_hash: [u8; 20],
    pub pending_htlc1: PendingHtlc,
    pub pending_htlc2: PendingHtlc,
    pub unlock_type: u8,
    pub signature: [u8; 65],
    pub preimage: [u8; 32],
}

impl CommitmentPendinghtlc2WithPriImageWitness {
    /// The table of the fields takes 372 bytes and the fixed layout 332.
    pub proof fn lemma_size(v: Self)
        ensures
            table_size(v.parts()) == 372,
            join(v.parts()).len() == 332,
    {
        reveal_with_fuel(prefix_len, 10);
        Self::lemma_parts(v);
        lemma_join_len(v.parts());
    }
}

impl Record for CommitmentPendinghtlc2WithPriImageWitness {
    open spec fn widths() -> Seq<Width> {
        seq![Width::Fixed(16), Width::Fixed(8), Width::Fixed(20), Width::Fixed(20), Width::Fixed(85), Width::Fixed(85), Width::Fixed(1), Width::Fixed(65), Width::Fixed(32)]
    }

    open spec fn parts(&self) -> Seq<Seq<u8>> {
        seq![
            self.empty_witness_args.encoding(true),
            self.local_delay_epoch.encoding(true),
            self.local_delay_pubkey_hash.encoding(true),
            self.revocation_pubkey_hash.encoding(true),
            self.pending_htlc1.encoding(true),
            self.pending_htlc2.encoding(true),
            self.unlock_type.encoding(true),
            self.signature.encoding(true),
            self.preimage.encoding(true),
        ]
    }

    open spec fn fields_encodable(&self) -> bool {
        true
    }

    open spec fn same_fields(&self, other: &Self) -> bool {
        *self == *other
    }

    proof fn lemma_widths() {
    }

    proof fn lemma_parts(v: Self) {
        lemma_auto_spec_u64_to_from_le_bytes();
        PendingHtlc::lemma_size(v.pending_htlc1);
        PendingHtlc::lemma_size(v.pending_htlc2);
        assert(v.parts()[0].len() == 16);
        assert(v.parts()[1].len() == 8);
        assert(v.parts()[2].len() == 20);
        assert(v.parts()[3].len() == 20);
        assert(v.parts()[4].len() == 85);
        assert(v.parts()[5].len() == 85);
        assert(v.parts()[6].len() == 1);
        assert(v.parts()[7].len() == 65);
        assert(v.parts()[8].len() == 32);
    }

    proof fn lemma_parts_injective(a: Self, b: Self) {
        assert(a.parts()[0] == b.parts()[0]);
        <[u8; 16]>::lemma_injective(a.empty_witness_args, b.empty_witness_args, true);
        assert(a.parts()[1] == b.parts()[1]);
        u64::lemma_injective(a.local_delay_epoch, b.local_delay_epoch, true);
        assert(a.parts()[2] == b.parts()[2]);
        <[u8; 20]>::lemma_injective(a.local_delay_pubkey_hash, b.local_delay_pubkey_hash, true);
        assert(a.parts()[3] == b.parts()[3]);
        <[u8; 20]>::lemma_injective(a.revocation_pubkey_hash, b.revocation_pubkey_hash, true);
        assert(a.parts()[4] == b.parts()[4]);
        PendingHtlc::lemma_injective(a.pending_htlc1, b.pending_htlc1, true);
        assert(a.parts()[5] == b.parts()[5]);
        PendingHtlc::lemma_injective(a.pending_htlc2, b.pending_htlc2, true);
        assert(a.parts()[6] == b.parts()[6]);
        u8::lemma_injective(a.unlock_type, b.unlock_type, true);
        assert(a.parts()[7] == b.parts()[7]);
        <[u8; 65]>::lemma_injective(a.signature, b.signature, true);
        assert(a.parts()[8] == b.parts()[8]);
        <[u8; 32]>::lemma_injective(a.preimage, b.preimage, true);
    }

    fn field_widths() -> (widths: Vec<Width>) {
        let widths = vec![Width::Fixed(16), Width::Fixed(8), Width::Fixed(20), Width::Fixed(20), Width::Fixed(85), Width::Fixed(85), Width::Fixed(1), Width::Fixed(65), Width::Fixed(32)];
        assert(widths@ =~= Self::widths());
        widths
    }

    fn to_parts(&self) -> (parts: Vec<Vec<u8>>) {
        let parts = vec![
            self.empty_witness_args.encode(true),
            self.local_delay_epoch.encode(true),
            self.local_delay_pubkey_hash.encode(true),
            self.revocation_pubkey_hash.encode(true),
            self.pending_htlc1.encode(true),
            self.pending_htlc2.encode(true),
            self.unlock_type.encode(true),
            self.signature.encode(true),
            self.preimage.encode(true),
        ];
        assert(views(parts@) =~= self.parts());
        parts
    }

    fn from_parts(parts: &Vec<Vec<u8>>) -> (r: Result<Self, DecodeError>) {
        assert(parts.len() == 9);
        let empty_witness_args = match <[u8; 16]>::decode(parts[0].as_slice(), true) {
            Ok(field) => field,
            Err(e) => {
                assert forall|v: Self| #[trigger] v.parts() != views(parts@) by {
                    assert(v.parts()[0] == v.empty_witness_args.encoding(true));
                    assert(views(parts@)[0] == parts@[0]@);
                }
                return Err(e);
            },
        };
        let local_delay_epoch = match u64::decode(parts[1].as_slice(), true) {
            Ok(field) => field,
            Err(e) => {
                assert forall|v: Self| #[trigger] v.parts() != views(parts@) by {
                    assert(v.parts()[1] == v.local_delay_epoch.encoding(true));
                    assert(views(parts@)[1] == parts@[1]@);
                }
                return Err(e);
            },
        };
        let local_delay_pubkey_hash = match <[u8; 20]>::decode(parts[2].as_slice(), true) {
            Ok(field) => field,
            Err(e) => {
                assert forall|v: Self| #[trigger] v.parts() != views(parts@) by {
                    assert(v.parts()[2] == v.local_delay_pubkey_hash.encoding(true));
                    assert(views(parts@)[2] == parts@[2]@);
                }
                return Err(e);
            },
        };
        let revocation_pubkey_hash = match <[u8; 20]>::decode(parts[3].as_slice(), true) {
            Ok(field) => field,
            Err(e) => {
                assert forall|v: Self| #[trigger] v.parts() != views(parts@) by {
                    assert(v.parts()[3] == v.revocation_pubkey_hash.encoding(true));
                    assert(views(parts@)[3] == parts@[3]@);
                }
                return Err(e);
            },
        };
        let pending_htlc1 = match PendingHtlc::decode(parts[4].as_slice(), true) {
            Ok(field) => field,
            Err(e) => {
                assert forall|v: Self| #[trigger] v.parts() != views(parts@) by {
                    assert(v.parts()[4] == v.pending_htlc1.encoding(true));
                    assert(views(parts@)[4] == parts@[4]@);
                }
                return Err(e);
            },
        };
        let pending_htlc2 = match PendingHtlc::decode(parts[5].as_slice(), true) {
            Ok(field) => field,
            Err(e) => {
                assert forall|v: Self| #[trigger] v.parts() != views(parts@) by {
                    assert(v.parts()[5] == v.pending_htlc2.encoding(true));
                    assert(views(parts@)[5] == parts@[5]@);
                }
                return Err(e);
            },
        };
        let unlock_type = match u8::decode(parts[6].as_slice(), true) {
            Ok(field) => field,
            Err(e) => {
                assert forall|v: Self| #[trigger] v.parts() != views(parts@) by {
                    assert(v.parts()[6] == v.unlock_type.encoding(true));
                    assert(views(parts@)[6] == parts@[6]@);
                }
                return Err(e);
            },
        };
        let signature = match <[u8; 65]>::decode(parts[7].as_slice(), true) {
            Ok(field) => field,
            Err(e) => {
                assert forall|v: Self| #[trigger] v.parts() != views(parts@) by {
                    assert(v.parts()[7] == v.signature.encoding(true));
                    assert(views(parts@)[7] == parts@[7]@);
                }
                return Err(e);
            },
        };
        let preimage = match <[u8; 32]>::decode(parts[8].as_slice(), true) {
            Ok(field) => field,
            Err(e) => {
                assert forall|v: Self| #[trigger] v.parts() != views(parts@) by {
                    assert(v.parts()[8] == v.preimage.encoding(true));
                    assert(views(parts@)[8] == parts@[8]@);
                }
                return Err(e);
            },
        };
        let v = CommitmentPendinghtlc2WithPriImageWitness { empty_witness_args, local_delay_epoch, local_delay_pubkey_hash, revocation_pubkey_hash, pending_htlc1, pending_htlc2, unlock_type, signature, preimage };
        assert(v.parts() =~= views(parts@));
        Ok(v)
    }
}

impl Molecule for CommitmentPendinghtlc2WithPriImageWitness {
    open spec fn encodable(&self) -> bool {
        true
    }

    open spec fn same(&self, other: &Self) -> bool {
        *self == *other
    }

    open spec fn encoding(&self, is_struct: bool) -> Seq<u8> {
        record_encoding(*self, is_struct)
    }

    proof fn lemma_injective(a: Self, b: Self, is_struct: bool) {
        Self::lemma_size(a);
        Self::lemma_size(b);
        lemma_record_injective(a, b, is_struct);
    }

    fn is_encodable(&self) -> (b: bool) {
        true
    }

    fn encode(&self, is_struct: bool) -> (bytes: Vec<u8>) {
        proof {
            Self::lemma_size(*self);
        }
        encode_record(self, is_struct)
    }

    fn decode(bytes: &[u8], is_struct: bool) -> (r: Result<Self, DecodeError>) {
        let r = decode_record::<Self>(bytes, is_struct);
        proof {
            if r is Err {
                assert forall|v: Self| v.encodable() implies #[trigger] v.encoding(is_struct)
                    != bytes@ by {
                    Self::lemma_size(v);
                }
            }
        }
        r
    }
}

/// A commitment cell with two pending payments, a preimage and a token amount as data.
pub struct CommitmentHTCL2WithPriImageAndUDTCell {
    pub lock_arg: [u8; 20],
    pub type_arg: Option<[u8; 32]>,
    pub data: u128,
    pub witness: Option<CommitmentPendinghtlc2WithPriImageWitness>,
    pub struct_flag: MoleculeStructFlag,
}

impl CommitmentHTCL2WithPriImageAndUDTCell {
    /// The record with a zero lock argument, zero data, no type argument, no witness
    /// and the default flag.
    pub fn default() -> (cell: Self)
        ensures
            cell.lock_arg@ == Seq::new(20, |i: int| 0u8),
            cell.type_arg is None,
            cell.data == 0,
            cell.witness is None,
            cell.struct_flag == default_flag(),
    {
        let cell = CommitmentHTCL2WithPriImageAndUDTCell {
            lock_arg: [0; 20],
            type_arg: None,
            data: 0,
            witness: None,
            struct_flag: MoleculeStructFlag::default(),
        };
        assert(cell.lock_arg@ =~= Seq::new(20, |i: int| 0u8));
        cell
    }
}

impl Cell for CommitmentHTCL2WithPriImageAndUDTCell {
    open spec fn struct_flag(&self) -> MoleculeStructFlag {
        self.struct_flag
    }

    open spec fn encodable(&self) -> bool {
        &&& self.lock_arg.encodable()
        &&& optional_encodable(self.type_arg)
        &&& self.data.encodable()
        &&& optional_encodable(self.witness)
    }

    open spec fn lock_arg_bytes(&self) -> Seq<u8> {
        self.lock_arg.encoding(self.struct_flag.lock_arg)
    }

    open spec fn type_arg_bytes(&self) -> Option<Seq<u8>> {
        optional_encoding(self.type_arg, self.struct_flag.type_arg)
    }

    open spec fn data_bytes(&self) -> Seq<u8> {
        self.data.encoding(self.struct_flag.data)
    }

    open spec fn witness_bytes(&self) -> Option<Seq<u8>> {
        optional_encoding(self.witness, self.struct_flag.witness)
    }

    open spec fn same(&self, other: &Self) -> bool {
        &&& self.lock_arg.same(&other.lock_arg)
        &&& optional_same(self.type_arg, other.type_arg)
        &&& self.data.same(&other.data)
        &&& optional_same(self.witness, other.witness)
        &&& self.struct_flag == other.struct_flag
    }

    proof fn lemma_injective(a: Self, b: Self) {
        <[u8; 20]>::lemma_injective(a.lock_arg, b.lock_arg, a.struct_flag.lock_arg);
        lemma_optional_injective(a.type_arg, b.type_arg, a.struct_flag.type_arg);
        u128::lemma_injective(a.data, b.data, a.struct_flag.data);
        lemma_optional_injective(a.witness, b.witness, a.struct_flag.witness);
    }

    fn is_encodable(&self) -> (b: bool) {
        self.lock_arg.is_encodable() && optional_is_encodable(&self.type_arg)
            && self.data.is_encodable() && optional_is_encodable(&self.witness)
    }

    fn get_lock_arg(&self) -> (bytes: Vec<u8>) {
        self.lock_arg.encode(self.struct_flag.lock_arg)
    }

    fn get_type_arg(&self) -> (bytes: Option<Vec<u8>>) {
        encode_optional(&self.type_arg, self.struct_flag.type_arg)
    }

    fn get_data(&self) -> (bytes: Vec<u8>) {
        self.data.encode(self.struct_flag.data)
    }

    fn get_witness(&self) -> (bytes: Option<Vec<u8>>) {
        encode_optional(&self.witness, self.struct_flag.witness)
    }

    fn from_arg(
        lock_arg: Vec<u8>,
        type_arg: Option<Vec<u8>>,
        data1: Vec<u8>,
        witness_args: Option<Vec<u8>>,
    ) -> (r: Result<Self, DecodeError>) {
        let struct_flag = MoleculeStructFlag::default();
        let lock = match <[u8; 20]>::decode(lock_arg.as_slice(), struct_flag.lock_arg) {
            Ok(field) => field,
            Err(e) => {
                return Err(e);
            },
        };
        let type_ = match decode_optional::<[u8; 32]>(&type_arg, struct_flag.type_arg) {
            Ok(field) => field,
            Err(e) => {
                return Err(e);
            },
        };
        let data = match u128::decode(data1.as_slice(), struct_flag.data) {
            Ok(field) => field,
            Err(e) => {
                return Err(e);
            },
        };
        let witness = match decode_optional::<CommitmentPendinghtlc2WithPriImageWitness>(&witness_args, struct_flag.witness) {
            Ok(field) => field,
            Err(e) => {
                return Err(e);
            },
        };
        Ok(CommitmentHTCL2WithPriImageAndUDTCell { lock_arg: lock, type_arg: type_, data, witness, struct_flag })
    }
}

/// A commitment cell whose lock argument is two bytes too long.
pub struct CommitmentArgErrCell {
    pub lock_arg: [u8; 22],
    pub type_arg: Option<u8>,
    pub data: u8,
    pub witness: Option<CommitmentWitness>,
    pub struct_flag: MoleculeStructFlag,
}

impl CommitmentArgErrCell {
    /// The record with a zero lock argument, zero data, no type argument, no witness
    /// and the default flag.
    pub fn default() -> (cell: Self)
        ensures
            cell.lock_arg@ == Seq::new(22, |i: int| 0u8),
            cell.type_arg is None,
            cell.data == 0,
            cell.witness is None,
            cell.struct_flag == default_flag(),
    {
        let cell = CommitmentArgErrCell {
            lock_arg: [0; 22],
            type_arg: None,
            data: 0,
            witness: None,
            struct_flag: MoleculeStructFlag::default(),
        };
        assert(cell.lock_arg@ =~= Seq::new(22, |i: int| 0u8));
        cell
    }
}

impl Cell for CommitmentArgErrCell {
    open spec fn struct_flag(&self) -> MoleculeStructFlag {
        self.struct_flag
    }

    open spec fn encodable(&self) -> bool {
        &&& self.lock_arg.encodable()
        &&& optional_encodable(self.type_arg)
        &&& self.data.encodable()
        &&& optional_encodable(self.witness)
    }

    open spec fn lock_arg_bytes(&self) -> Seq<u8> {
        self.lock_arg.encoding(self.struct_flag.lock_arg)
    }

    open spec fn type_arg_bytes(&self) -> Option<Seq<u8>> {
        optional_encoding(self.type_arg, self.struct_flag.type_arg)
    }

    open spec fn data_bytes(&self) -> Seq<u8> {
        self.data.encoding(self.struct_flag.data)
    }

    open spec fn witness_bytes(&self) -> Option<Seq<u8>> {
        optional_encoding(self.witness, self.struct_flag.witness)
    }

    open spec fn same(&self, other: &Self) -> bool {
        &&& self.lock_arg.same(&other.lock_arg)
        &&& optional_same(self.type_arg, other.type_arg)
        &&& self.data.same(&other.data)
        &&& optional_same(self.witness, other.witness)
        &&& self.struct_flag == other.struct_flag
    }

    proof fn lemma_injective(a: Self, b: Self) {
        <[u8; 22]>::lemma_injective(a.lock_arg, b.lock_arg, a.struct_flag.lock_arg);
        lemma_optional_injective(a.type_arg, b.type_arg, a.struct_flag.type_arg);
        u8::lemma_injective(a.data, b.data, a.struct_flag.data);
        lemma_optional_injective(a.witness, b.witness, a.struct_flag.witness);
    }

    fn is_encodable(&self) -> (b: bool) {
        self.lock_arg.is_encodable() && optional_is_encodable(&self.type_arg)
            && self.data.is_encodable() && optional_is_encodable(&self.witness)
    }

    fn get_lock_arg(&self) -> (bytes: Vec<u8>) {
        self.lock_arg.encode(self.struct_flag.lock_arg)
    }

    fn get_type_arg(&self) -> (bytes: Option<Vec<u8>>) {
        encode_optional(&self.type_arg, self.struct_flag.type_arg)
    }

    fn get_data(&self) -> (bytes: Vec<u8>) {
        self.data.encode(self.struct_flag.data)
    }

    fn get_witness(&self) -> (bytes: Option<Vec<u8>>) {
        encode_optional(&self.witness, self.struct_flag.witness)
    }

    fn from_arg(
        lock_arg: Vec<u8>,
        type_arg: Option<Vec<u8>>,
        data1: Vec<u8>,
        witness_args: Option<Vec<u8>>,
    ) -> (r: Result<Self, DecodeError>) {
        let struct_flag = MoleculeStructFlag::default();
        let lock = match <[u8; 22]>::decode(lock_arg.as_slice(), struct_flag.lock_arg) {
            Ok(field) => field,
            Err(e) => {
                return Err(e);
            },
        };
        let type_ = match decode_optional::<u8>(&type_arg, struct_flag.type_arg) {
            Ok(field) => field,
            Err(e) => {
                return Err(e);
            },
        };
        let data = match u8::decode(data1.as_slice(), struct_flag.data) {
            Ok(field) => field,
            Err(e) => {
                return Err(e);
            },
        };
        let witness = match decode_optional::<CommitmentWitness>(&witness_args, struct_flag.witness) {
            Ok(field) => field,
            Err(e) => {
                return Err(e);
            },
        };
        Ok(CommitmentArgErrCell { lock_arg: lock, type_arg: type_, data, witness, struct_flag })
    }
}

/// A commitment witness that lacks the unlock type, and so is too short.
#[derive(Clone, Debug, PartialEq)]
pub struct CommitmentMinErrLenWitness {
    pub empty_witness_args: [u8; 16],
    pub local_delay_epoch: u64,
    pub local_delay_pubkey_hash: [u8; 20],
    pub revocation_pubkey_hash: [u8; 20],
    pub signature: [u8; 65],
}

impl CommitmentMinErrLenWitness {
    /// The table of the fields takes 153 bytes and the fixed layout 129.
    pub proof fn lemma_size(v: Self)
        ensures
            table_size(v.parts()) == 153,
            join(v.parts()).len() == 129,
    {
        reveal_with_fuel(prefix_len, 6);
        Self::lemma_parts(v);
        lemma_join_len(v.parts());
    }
}

impl Record for CommitmentMinErrLenWitness {
    open spec fn widths() -> Seq<Width> {
        seq![Width::Fixed(16), Width::Fixed(8), Width::Fixed(20), Width::Fixed(20), Width::Fixed(65)]
    }

    open spec fn parts(&self) -> Seq<Seq<u8>> {
        seq![
            self.empty_witness_args.encoding(true),
            self.local_delay_epoch.encoding(true),
            self.local_delay_pubkey_hash.encoding(true),
            self.revocation_pubkey_hash.encoding(true),
            self.signature.encoding(true),
        ]
    }

    open spec fn fields_encodable(&self) -> bool {
        true
    }

    open spec fn same_fields(&self, other: &Self) -> bool {
        *self == *other
    }

    proof fn lemma_widths() {
    }

    proof fn lemma_parts(v: Self) {
        lemma_auto_spec_u64_to_from_le_bytes();
        assert(v.parts()[0].len() == 16);
        assert(v.parts()[1].len() == 8);
        assert(v.parts()[2].len() == 20);
        assert(v.parts()[3].len() == 20);
        assert(v.parts()[4].len() == 65);
    }

    proof fn lemma_parts_injective(a: Self, b: Self) {
        assert(a.parts()[0] == b.parts()[0]);
        <[u8; 16]>::lemma_injective(a.empty_witness_args, b.empty_witness_args, true);
        assert(a.parts()[1] == b.parts()[1]);
        u64::lemma_injective(a.local_delay_epoch, b.local_delay_epoch, true);
        assert(a.parts()[2] == b.parts()[2]);
        <[u8; 20]>::lemma_injective(a.local_delay_pubkey_hash, b.local_delay_pubkey_hash, true);
        assert(a.parts()[3] == b.parts()[3]);
        <[u8; 20]>::lemma_injective(a.revocation_pubkey_hash, b.revocation_pubkey_hash, true);
        assert(a.parts()[4] == b.parts()[4]);
        <[u8; 65]>::lemma_injective(a.signature, b.signature, true);
    }

    fn field_widths() -> (widths: Vec<Width>) {
        let widths = vec![Width::Fixed(16), Width::Fixed(8), Width::Fixed(20), Width::Fixed(20), Width::Fixed(65)];
        assert(widths@ =~= Self::widths());
        widths
    }

    fn to_parts(&self) -> (parts: Vec<Vec<u8>>) {
        let parts = vec![
            self.empty_witness_args.encode(true),
            self.local_delay_epoch.encode(true),
            self.local_delay_pubkey_hash.encode(true),
            self.revocation_pubkey_hash.encode(true),
            self.signature.encode(true),
        ];
        assert(views(parts@) =~= self.parts());
        parts
    }

    fn from_parts(parts: &Vec<Vec<u8>>) -> (r: Result<Self, DecodeError>) {
        assert(parts.len() == 5);
        let empty_witness_args = match <[u8; 16]>::decode(parts[0].as_slice(), true) {
            Ok(field) => field,
            Err(e) => {
                assert forall|v: Self| #[trigger] v.parts() != views(parts@) by {
                    assert(v.parts()[0] == v.empty_witness_args.encoding(true));
                    assert(views(parts@)[0] == parts@[0]@);
                }
                return Err(e);
            },
        };
        let local_delay_epoch = match u64::decode(parts[1].as_slice(), true) {
            Ok(field) => field,
            Err(e) => {
                assert forall|v: Self| #[trigger] v.parts() != views(parts@) by {
                    assert(v.parts()[1] == v.local_delay_epoch.encoding(true));
                    assert(views(parts@)[1] == parts@[1]@);
                }
                return Err(e);
            },
        };
        let local_delay_pubkey_hash = match <[u8; 20]>::decode(parts[2].as_slice(), true) {
            Ok(field) => field,
            Err(e) => {
                assert forall|v: Self| #[trigger] v.parts() != views(parts@) by {
                    assert(v.parts()[2] == v.local_delay_pubkey_hash.encoding(true));
                    assert(views(parts@)[2] == parts@[2]@);
                }
                return Err(e);
            },
        };
        let revocation_pubkey_hash = match <[u8; 20]>::decode(parts[3].as_slice(), true) {
            Ok(field) => field,
            Err(e) => {
                assert forall|v: Self| #[trigger] v.parts() != views(parts@) by {
                    assert(v.parts()[3] == v.revocation_pubkey_hash.encoding(true));
                    assert(views(parts@)[3] == parts@[3]@);
                }
                return Err(e);
            },
        };
        let signature = match <[u8; 65]>::decode(parts[4].as_slice(), true) {
            Ok(field) => field,
            Err(e) => {
                assert forall|v: Self| #[trigger] v.parts() != views(parts@) by {
                    assert(v.parts()[4] == v.signature.encoding(true));
                    assert(views(parts@)[4] == parts@[4]@);
                }
                return Err(e);
            },
        };
        let v = CommitmentMinErrLenWitness { empty_witness_args, local_delay_epoch, local_delay_pubkey_hash, revocation_pubkey_hash, signature };
        assert(v.parts() =~= views(parts@));
        Ok(v)
    }
}

impl Molecule for CommitmentMinErrLenWitness {
    open spec fn encodable(&self) -> bool {
        true
    }

    open spec fn same(&self, other: &Self) -> bool {
        *self == *other
    }

    open spec fn encoding(&self, is_struct: bool) -> Seq<u8> {
        record_encoding(*self, is_struct)
    }

    proof fn lemma_injective(a: Self, b: Self, is_struct: bool) {
        Self::lemma_size(a);
        Self::lemma_size(b);
        lemma_record_injective(a, b, is_struct);
    }

    fn is_encodable(&self) -> (b: bool) {
        true
    }

    fn encode(&self, is_struct: bool) -> (bytes: Vec<u8>) {
        proof {
            Self::lemma_size(*self);
        }
        encode_record(self, is_struct)
    }

    fn decode(bytes: &[u8], is_struct: bool) -> (r: Result<Self, DecodeError>) {
        let r = decode_record::<Self>(bytes, is_struct);
        proof {
            if r is Err {
                assert forall|v: Self| v.encodable() implies #[trigger] v.encoding(is_struct)
                    != bytes@ by {
                    Self::lemma_size(v);
                }
            }
        }
        r
    }
}

/// A commitment cell whose witness is too short.
pub struct CommitmentMinWitnessLenErrCell {
    pub lock_arg: [u8; 20],
    pub type_arg: Option<u8>,
    pub data: u8,
    pub witness: Option<CommitmentMinErrLenWitness>,
    pub struct_flag: MoleculeStructFlag,
}

impl CommitmentMinWitnessLenErrCell {
    /// The record with a zero lock argument, zero data, no type argument, no witness
    /// and the default flag.
    pub fn default() -> (cell: Self)
        ensures
            cell.lock_arg@ == Seq::new(20, |i: int| 0u8),
            cell.type_arg is None,
            cell.data == 0,
            cell.witness is None,
            cell.struct_flag == default_flag(),
    {
        let cell = CommitmentMinWitnessLenErrCell {
            lock_arg: [0; 20],
            type_arg: None,
            data: 0,
            witness: None,
            struct_flag: MoleculeStructFlag::default(),
        };
        assert(cell.lock_arg@ =~= Seq::new(20, |i: int| 0u8));
        cell
    }
}

impl Cell for CommitmentMinWitnessLenErrCell {
    open spec fn struct_flag(&self) -> MoleculeStructFlag {
        self.struct_flag
    }

    open spec fn encodable(&self) -> bool {
        &&& self.lock_arg.encodable()
        &&& optional_encodable(self.type_arg)
        &&& self.data.encodable()
        &&& optional_encodable(self.witness)
    }

    open spec fn lock_arg_bytes(&self) -> Seq<u8> {
        self.lock_arg.encoding(self.struct_flag.lock_arg)
    }

    open spec fn type_arg_bytes(&self) -> Option<Seq<u8>> {
        optional_encoding(self.type_arg, self.struct_flag.type_arg)
    }

    open spec fn data_bytes(&self) -> Seq<u8> {
        self.data.encoding(self.struct_flag.data)
    }

    open spec fn witness_bytes(&self) -> Option<Seq<u8>> {
        optional_encoding(self.witness, self.struct_flag.witness)
    }

    open spec fn same(&self, other: &Self) -> bool {
        &&& self.lock_arg.same(&other.lock_arg)
        &&& optional_same(self.type_arg, other.type_arg)
        &&& self.data.same(&other.data)
        &&& optional_same(self.witness, other.witness)
        &&& self.struct_flag == other.struct_flag
    }

    proof fn lemma_injective(a: Self, b: Self) {
        <[u8; 20]>::lemma_injective(a.lock_arg, b.lock_arg, a.struct_flag.lock_arg);
        lemma_optional_injective(a.type_arg, b.type_arg, a.struct_flag.type_arg);
        u8::lemma_injective(a.data, b.data, a.struct_flag.data);
        lemma_optional_injective(a.witness, b.witness, a.struct_flag.witness);
    }

    fn is_encodable(&self) -> (b: bool) {
        self.lock_arg.is_encodable() && optional_is_encodable(&self.type_arg)
            && self.data.is_encodable() && optional_is_encodable(&self.witness)
    }

    fn get_lock_arg(&self) -> (bytes: Vec<u8>) {
        self.lock_arg.encode(self.struct_flag.lock_arg)
    }

    fn get_type_arg(&self) -> (bytes: Option<Vec<u8>>) {
        encode_optional(&self.type_arg, self.struct_flag.type_arg)
    }

    fn get_data(&self) -> (bytes: Vec<u8>) {
        self.data.encode(self.struct_flag.data)
    }

    fn get_witness(&self) -> (bytes: Option<Vec<u8>>) {
        encode_optional(&self.witness, self.struct_flag.witness)
    }

    fn from_arg(
        lock_arg: Vec<u8>,
        type_arg: Option<Vec<u8>>,
        data1: Vec<u8>,
        witness_args: Option<Vec<u8>>,
    ) -> (r: Result<Self, DecodeError>) {
        let struct_flag = MoleculeStructFlag::default();
        let lock = match <[u8; 20]>::decode(lock_arg.as_slice(), struct_flag.lock_arg) {
            Ok(field) => field,
            Err(e) => {
                return Err(e);
            },
        };
        let type_ = match decode_optional::<u8>(&type_arg, struct_flag.type_arg) {
            Ok(field) => field,
            Err(e) => {
                return Err(e);
            },
        };
        let data = match u8::decode(data1.as_slice(), struct_flag.data) {
            Ok(field) => field,
            Err(e) => {
                return Err(e);
            },
        };
        let witness = match decode_optional::<CommitmentMinErrLenWitness>(&witness_args, struct_flag.witness) {
            Ok(field) => field,
            Err(e) => {
                return Err(e);
            },
        };
        Ok(CommitmentMinWitnessLenErrCell { lock_arg: lock, type_arg: type_, data, witness, struct_flag })
    }
}

/// A commitment witness with five bytes too many.
#[derive(Clone, Debug, PartialEq)]
pub struct CommitmentMaxErrLenWitness {
    pub empty_witness_args: [u8; 16],
    pub local_delay_epoch: u64,
    pub local_delay_pubkey_hash: [u8; 20],
    pub revocation_pubkey_hash: [u8; 20],
    pub unlock_type: u8,
    pub signature: [u8; 65],
    pub err: [u8; 5],
}

impl CommitmentMaxErrLenWitness {
    /// The table of the fields takes 167 bytes and the fixed layout 135.
    pub proof fn lemma_size(v: Self)
        ensures
            table_size(v.parts()) == 167,
            join(v.parts()).len() == 135,
    {
        reveal_with_fuel(prefix_len, 8);
        Self::lemma_parts(v);
        lemma_join_len(v.parts());
    }
}

impl Record for CommitmentMaxErrLenWitness {
    open spec fn widths() -> Seq<Width> {
        seq![Width::Fixed(16), Width::Fixed(8), Width::Fixed(20), Width::Fixed(20), Width::Fixed(1), Width::Fixed(65), Width::Fixed(5)]
    }

    open spec fn parts(&self) -> Seq<Seq<u8>> {
        seq![
            self.empty_witness_args.encoding(true),
            self.local_delay_epoch.encoding(true),
            self.local_delay_pubkey_hash.encoding(true),
            self.revocation_pubkey_hash.encoding(true),
            self.unlock_type.encoding(true),
            self.signature.encoding(true),
            self.err.encoding(true),
        ]
    }

    open spec fn fields_encodable(&self) -> bool {
        true
    }

    open spec fn same_fields(&self, other: &Self) -> bool {
        *self == *other
    }

    proof fn lemma_widths() {
    }

    proof fn lemma_parts(v: Self) {
        lemma_auto_spec_u64_to_from_le_bytes();
        assert(v.parts()[0].len() == 16);
        assert(v.parts()[1].len() == 8);
        assert(v.parts()[2].len() == 20);
        assert(v.parts()[3].len() == 20);
        assert(v.parts()[4].len() == 1);
        assert(v.parts()[5].len() == 65);
        assert(v.parts()[6].len() == 5);
    }

    proof fn lemma_parts_injective(a: Self, b: Self) {
        assert(a.parts()[0] == b.parts()[0]);
        <[u8; 16]>::lemma_injective(a.empty_witness_args, b.empty_witness_args, true);
        assert(a.parts()[1] == b.parts()[1]);
        u64::lemma_injective(a.local_delay_epoch, b.local_delay_epoch, true);
        assert(a.parts()[2] == b.parts()[2]);
        <[u8; 20]>::lemma_injective(a.local_delay_pubkey_hash, b.local_delay_pubkey_hash, true);
        assert(a.parts()[3] == b.parts()[3]);
        <[u8; 20]>::lemma_injective(a.revocation_pubkey_hash, b.revocation_pubkey_hash, true);
        assert(a.parts()[4] == b.parts()[4]);
        u8::lemma_injective(a.unlock_type, b.unlock_type, true);
        assert(a.parts()[5] == b.parts()[5]);
        <[u8; 65]>::lemma_injective(a.signature, b.signature, true);
        assert(a.parts()[6] == b.parts()[6]);
        <[u8; 5]>::lemma_injective(a.err, b.err, true);
    }

    fn field_widths() -> (widths: Vec<Width>) {
        let widths = vec![Width::Fixed(16), Width::Fixed(8), Width::Fixed(20), Width::Fixed(20), Width::Fixed(1), Width::Fixed(65), Width::Fixed(5)];
        assert(widths@ =~= Self::widths());
        widths
    }

    fn to_parts(&self) -> (parts: Vec<Vec<u8>>) {
        let parts = vec![
            self.empty_witness_args.encode(true),
            self.local_delay_epoch.encode(true),
            self.local_delay_pubkey_hash.encode(true),
            self.revocation_pubkey_hash.encode(true),
            self.unlock_type.encode(true),
            self.signature.encode(true),
            self.err.encode(true),
        ];
        assert(views(parts@) =~= self.parts());
        parts
    }

    fn from_parts(parts: &Vec<Vec<u8>>) -> (r: Result<Self, DecodeError>) {
        assert(parts.len() == 7);
        let empty_witness_args = match <[u8; 16]>::decode(parts[0].as_slice(), true) {
            Ok(field) => field,
            Err(e) => {
                assert forall|v: Self| #[trigger] v.parts() != views(parts@) by {
                    assert(v.parts()[0] == v.empty_witness_args.encoding(true));
                    assert(views(parts@)[0] == parts@[0]@);
                }
                return Err(e);
            },
        };
        let local_delay_epoch = match u64::decode(parts[1].as_slice(), true) {
            Ok(field) => field,
            Err(e) => {
                assert forall|v: Self| #[trigger] v.parts() != views(parts@) by {
                    assert(v.parts()[1] == v.local_delay_epoch.encoding(true));
                    assert(views(parts@)[1] == parts@[1]@);
                }
                return Err(e);
            },
        };
        let local_delay_pubkey_hash = match <[u8; 20]>::decode(parts[2].as_slice(), true) {
            Ok(field) => field,
            Err(e) => {
                assert forall|v: Self| #[trigger] v.parts() != views(parts@) by {
                    assert(v.parts()[2] == v.local_delay_pubkey_hash.encoding(true));
                    assert(views(parts@)[2] == parts@[2]@);
                }
                return Err(e);
            },
        };
        let revocation_pubkey_hash = match <[u8; 20]>::decode(parts[3].as_slice(), true) {
            Ok(field) => field,
            Err(e) => {
                assert forall|v: Self| #[trigger] v.parts() != views(parts@) by {
                    assert(v.parts()[3] == v.revocation_pubkey_hash.encoding(true));
                    assert(views(parts@)[3] == parts@[3]@);
                }
                return Err(e);
            },
        };
        let unlock_type = match u8::decode(parts[4].as_slice(), true) {
            Ok(field) => field,
            Err(e) => {
                assert forall|v: Self| #[trigger] v.parts() != views(parts@) by {
                    assert(v.parts()[4] == v.unlock_type.encoding(true));
                    assert(views(parts@)[4] == parts@[4]@);
                }
                return Err(e);
            },
        };
        let signature = match <[u8; 65]>::decode(parts[5].as_slice(), true) {
            Ok(field) => field,
            Err(e) => {
                assert forall|v: Self| #[trigger] v.parts() != views(parts@) by {
                    assert(v.parts()[5] == v.signature.encoding(true));
                    assert(views(parts@)[5] == parts@[5]@);
                }
                return Err(e);
            },
        };
        let err = match <[u8; 5]>::decode(parts[6].as_slice(), true) {
            Ok(field) => field,
            Err(e) => {
                assert forall|v: Self| #[trigger] v.parts() != views(parts@) by {
                    assert(v.parts()[6] == v.err.encoding(true));
                    assert(views(parts@)[6] == parts@[6]@);
                }
                return Err(e);
            },
        };
        let v = CommitmentMaxErrLenWitness { empty_witness_args, local_delay_epoch, local_delay_pubkey_hash, revocation_pubkey_hash, unlock_type, signature, err };
        assert(v.parts() =~= views(parts@));
        Ok(v)
    }
}

impl Molecule for CommitmentMaxErrLenWitness {
    open spec fn encodable(&self) -> bool {
        true
    }

    open spec fn same(&self, other: &Self) -> bool {
        *self == *other
    }

    open spec fn encoding(&self, is_struct: bool) -> Seq<u8> {
        record_encoding(*self, is_struct)
    }

    proof fn lemma_injective(a: Self, b: Self, is_struct: bool) {
        Self::lemma_size(a);
        Self::lemma_size(b);
        lemma_record_injective(a, b, is_struct);
    }

    fn is_encodable(&self) -> (b: bool) {
        true
    }

    fn encode(&self, is_struct: bool) -> (bytes: Vec<u8>) {
        proof {
            Self::lemma_size(*self);
        }
        encode_record(self, is_struct)
    }

    fn decode(bytes: &[u8], is_struct: bool) -> (r: Result<Self, DecodeError>) {
        let r = decode_record::<Self>(bytes, is_struct);
        proof {
            if r is Err {
                assert forall|v: Self| v.encodable() implies #[trigger] v.encoding(is_struct)
                    != bytes@ by {
                    Self::lemma_size(v);
                }
            }
        }
        r
    }
}

/// A commitment cell whose witness is too long.
pub struct CommitmentMaxWitnessLenErrCell {
    pub lock_arg: [u8; 20],
    pub type_arg: Option<u8>,
    pub data: u8,
    pub witness: Option<CommitmentMaxErrLenWitness>,
    pub struct_flag: MoleculeStructFlag,
}

impl CommitmentMaxWitnessLenErrCell {
    /// The record with a zero lock argument, zero data, no type argument, no witness
    /// and the default flag.
    pub fn default() -> (cell: Self)
        ensures
            cell.lock_arg@ == Seq::new(20, |i: int| 0u8),
            cell.type_arg is None,
            cell.data == 0,
            cell.witness is None,
            cell.struct_flag == default_flag(),
    {
        let cell = CommitmentMaxWitnessLenErrCell {
            lock_arg: [0; 20],
            type_arg: None,
            data: 0,
            witness: None,
            struct_flag: MoleculeStructFlag::default(),
        };
        assert(cell.lock_arg@ =~= Seq::new(20, |i: int| 0u8));
        cell
    }
}

impl Cell for CommitmentMaxWitnessLenErrCell {
    open spec fn struct_flag(&self) -> MoleculeStructFlag {
        self.struct_flag
    }

    open spec fn encodable(&self) -> bool {
        &&& self.lock_arg.encodable()
        &&& optional_encodable(self.type_arg)
        &&& self.data.encodable()
        &&& optional_encodable(self.witness)
    }

    open spec fn lock_arg_bytes(&self) -> Seq<u8> {
        self.lock_arg.encoding(self.struct_flag.lock_arg)
    }

    open spec fn type_arg_bytes(&self) -> Option<Seq<u8>> {
        optional_encoding(self.type_arg, self.struct_flag.type_arg)
    }

    open spec fn data_bytes(&self) -> Seq<u8> {
        self.data.encoding(self.struct_flag.data)
    }

    open spec fn witness_bytes(&self) -> Option<Seq<u8>> {
        optional_encoding(self.witness, self.struct_flag.witness)
    }

    open spec fn same(&self, other: &Self) -> bool {
        &&& self.lock_arg.same(&other.lock_arg)
        &&& optional_same(self.type_arg, other.type_arg)
        &&& self.data.same(&other.data)
        &&& optional_same(self.witness, other.witness)
        &&& self.struct_flag == other.struct_flag
    }

    proof fn lemma_injective(a: Self, b: Self) {
        <[u8; 20]>::lemma_injective(a.lock_arg, b.lock_arg, a.struct_flag.lock_arg);
        lemma_optional_injective(a.type_arg, b.type_arg, a.struct_flag.type_arg);
        u8::lemma_injective(a.data, b.data, a.struct_flag.data);
        lemma_optional_injective(a.witness, b.witness, a.struct_flag.witness);
    }

    fn is_encodable(&self) -> (b: bool) {
        self.lock_arg.is_encodable() && optional_is_encodable(&self.type_arg)
            && self.data.is_encodable() && optional_is_encodable(&self.witness)
    }

    fn get_lock_arg(&self) -> (bytes: Vec<u8>) {
        self.lock_arg.encode(self.struct_flag.lock_arg)
    }

    fn get_type_arg(&self) -> (bytes: Option<Vec<u8>>) {
        encode_optional(&self.type_arg, self.struct_flag.type_arg)
    }

    fn get_data(&self) -> (bytes: Vec<u8>) {
        self.data.encode(self.struct_flag.data)
    }

    fn get_witness(&self) -> (bytes: Option<Vec<u8>>) {
        encode_optional(&self.witness, self.struct_flag.witness)
    }

    fn from_arg(
        lock_arg: Vec<u8>,
        type_arg: Option<Vec<u8>>,
        data1: Vec<u8>,
        witness_args: Option<Vec<u8>>,
    ) -> (r: Result<Self, DecodeError>) {
        let struct_flag = MoleculeStructFlag::default();
        let lock = match <[u8; 20]>::decode(lock_arg.as_slice(), struct_flag.lock_arg) {
            Ok(field) => field,
            Err(e) => {
                return Err(e);
            },
        };
        let type_ = match decode_optional::<u8>(&type_arg, struct_flag.type_arg) {
            Ok(field) => field,
            Err(e) => {
                return Err(e);
            },
        };
        let data = match u8::decode(data1.as_slice(), struct_flag.data) {
            Ok(field) => field,
            Err(e) => {
                return Err(e);
            },
        };
        let witness = match decode_optional::<CommitmentMaxErrLenWitness>(&witness_args, struct_flag.witness) {
            Ok(field) => field,
            Err(e) => {
                return Err(e);
            },
        };
        Ok(CommitmentMaxWitnessLenErrCell { lock_arg: lock, type_arg: type_, data, witness, struct_flag })
    }
}

/// The witness of a commitment with one pending payment and a preimage.
#[derive(Clone, Debug, PartialEq)]
pub struct CommitmentPendinghtlc1WithPreimageWitness {
    pub empty_witness_args: [u8; 16],
    pub local_delay_epoch: u64,
    pub local_delay_pubkey_hash: [u8; 20],
    pub revocation_pubkey_hash: [u8; 20],
    pub pending_htlc1: PendingHtlc,
    pub unlock_type: u8,
    pub signature: [u8; 65],
    pub preimage: [u8; 32],
}

impl CommitmentPendinghtlc1WithPreimageWitness {
    /// The table of the fields takes 283 bytes and the fixed layout 247.
    pub proof fn lemma_size(v: Self)
        ensures
            table_size(v.parts()) == 283,
            join(v.parts()).len() == 247,
    {
        reveal_with_fuel(prefix_len, 9);
        Self::lemma_parts(v);
        lemma_join_len(v.parts());
    }
}

impl Record for CommitmentPendinghtlc1WithPreimageWitness {
    open spec fn widths() -> Seq<Width> {
        seq![Width::Fixed(16), Width::Fixed(8), Width::Fixed(20), Width::Fixed(20), Width::Fixed(85), Width::Fixed(1), Width::Fixed(65), Width::Fixed(32)]
    }

    open spec fn parts(&self) -> Seq<Seq<u8>> {
        seq![
            self.empty_witness_args.encoding(true),
            self.local_delay_epoch.encoding(true),
            self.local_delay_pubkey_hash.encoding(true),
            self.revocation_pubkey_hash.encoding(true),
            self.pending_htlc1.encoding(true),
            self.unlock_type.encoding(true),
            self.signature.encoding(true),
            self.preimage.encoding(true),
        ]
    }

    open spec fn fields_encodable(&self) -> bool {
        true
    }

    open spec fn same_fields(&self, other: &Self) -> bool {
        *self == *other
    }

    proof fn lemma_widths() {
    }

    proof fn lemma_parts(v: Self) {
        lemma_auto_spec_u64_to_from_le_bytes();
        PendingHtlc::lemma_size(v.pending_htlc1);
        assert(v.parts()[0].len() == 16);
        assert(v.parts()[1].len() == 8);
        assert(v.parts()[2].len() == 20);
        assert(v.parts()[3].len() == 20);
        assert(v.parts()[4].len() == 85);
        assert(v.parts()[5].len() == 1);
        assert(v.parts()[6].len() == 65);
        assert(v.parts()[7].len() == 32);
    }

    proof fn lemma_parts_injective(a: Self, b: Self) {
        assert(a.parts()[0] == b.parts()[0]);
        <[u8; 16]>::lemma_injective(a.empty_witness_args, b.empty_witness_args, true);
        assert(a.parts()[1] == b.parts()[1]);
        u64::lemma_injective(a.local_delay_epoch, b.local_delay_epoch, true);
        assert(a.parts()[2] == b.parts()[2]);
        <[u8; 20]>::lemma_injective(a.local_delay_pubkey_hash, b.local_delay_pubkey_hash, true);
        assert(a.parts()[3] == b.parts()[3]);
        <[u8; 20]>::lemma_injective(a.revocation_pubkey_hash, b.revocation_pubkey_hash, true);
        assert(a.parts()[4] == b.parts()[4]);
        PendingHtlc::lemma_injective(a.pending_htlc1, b.pending_htlc1, true);
        assert(a.parts()[5] == b.parts()[5]);
        u8::lemma_injective(a.unlock_type, b.unlock_type, true);
        assert(a.parts()[6] == b.parts()[6]);
        <[u8; 65]>::lemma_injective(a.signature, b.signature, true);
        assert(a.parts()[7] == b.parts()[7]);
        <[u8; 32]>::lemma_injective(a.preimage, b.preimage, true);
    }

    fn field_widths() -> (widths: Vec<Width>) {
        let widths = vec![Width::Fixed(16), Width::Fixed(8), Width::Fixed(20), Width::Fixed(20), Width::Fixed(85), Width::Fixed(1), Width::Fixed(65), Width::Fixed(32)];
        assert(widths@ =~= Self::widths());
        widths
    }

    fn to_parts(&self) -> (parts: Vec<Vec<u8>>) {
        let parts = vec![
            self.empty_witness_args.encode(true),
            self.local_delay_epoch.encode(true),
            self.local_delay_pubkey_hash.encode(true),
            self.revocation_pubkey_hash.encode(true),
            self.pending_htlc1.encode(true),
            self.unlock_type.encode(true),
            self.signature.encode(true),
            self.preimage.encode(true),
        ];
        assert(views(parts@) =~= self.parts());
        parts
    }

    fn from_parts(parts: &Vec<Vec<u8>>) -> (r: Result<Self, DecodeError>) {
        assert(parts.len() == 8);
        let empty_witness_args = match <[u8; 16]>::decode(parts[0].as_slice(), true) {
            Ok(field) => field,
            Err(e) => {
                assert forall|v: Self| #[trigger] v.parts() != views(parts@) by {
                    assert(v.parts()[0] == v.empty_witness_args.encoding(true));
                    assert(views(parts@)[0] == parts@[0]@);
                }
                return Err(e);
            },
        };
        let local_delay_epoch = match u64::decode(parts[1].as_slice(), true) {
            Ok(field) => field,
            Err(e) => {
                assert forall|v: Self| #[trigger] v.parts() != views(parts@) by {
                    assert(v.parts()[1] == v.local_delay_epoch.encoding(true));
                    assert(views(parts@)[1] == parts@[1]@);
                }
                return Err(e);
            },
        };
        let local_delay_pubkey_hash = match <[u8; 20]>::decode(parts[2].as_slice(), true) {
            Ok(field) => field,
            Err(e) => {
                assert forall|v: Self| #[trigger] v.parts() != views(parts@) by {
                    assert(v.parts()[2] == v.local_delay_pubkey_hash.encoding(true));
                    assert(views(parts@)[2] == parts@[2]@);
                }
                return Err(e);
            },
        };
        let revocation_pubkey_hash = match <[u8; 20]>::decode(parts[3].as_slice(), true) {
            Ok(field) => field,
            Err(e) => {
                assert forall|v: Self| #[trigger] v.parts() != views(parts@) by {
                    assert(v.parts()[3] == v.revocation_pubkey_hash.encoding(true));
                    assert(views(parts@)[3] == parts@[3]@);
                }
                return Err(e);
            },
        };
        let pending_htlc1 = match PendingHtlc::decode(parts[4].as_slice(), true) {
            Ok(field) => field,
            Err(e) => {
                assert forall|v: Self| #[trigger] v.parts() != views(parts@) by {
                    assert(v.parts()[4] == v.pending_htlc1.encoding(true));
                    assert(views(parts@)[4] == parts@[4]@);
                }
                return Err(e);
            },
        };
        let unlock_type = match u8::decode(parts[5].as_slice(), true) {
            Ok(field) => field,
            Err(e) => {
                assert forall|v: Self| #[trigger] v.parts() != views(parts@) by {
                    assert(v.parts()[5] == v.unlock_type.encoding(true));
                    assert(views(parts@)[5] == parts@[5]@);
                }
                return Err(e);
            },
        };
        let signature = match <[u8; 65]>::decode(parts[6].as_slice(), true) {
            Ok(field) => field,
            Err(e) => {
                assert forall|v: Self| #[trigger] v.parts() != views(parts@) by {
                    assert(v.parts()[6] == v.signature.encoding(true));
                    assert(views(parts@)[6] == parts@[6]@);
                }
                return Err(e);
            },
        };
        let preimage = match <[u8; 32]>::decode(parts[7].as_slice(), true) {
            Ok(field) => field,
            Err(e) => {
                assert forall|v: Self| #[trigger] v.parts() != views(parts@) by {
                    assert(v.parts()[7] == v.preimage.encoding(true));
                    assert(views(parts@)[7] == parts@[7]@);
                }
                return Err(e);
            },
        };
        let v = CommitmentPendinghtlc1WithPreimageWitness { empty_witness_args, local_delay_epoch, local_delay_pubkey_hash, revocation_pubkey_hash, pending_htlc1, unlock_type, signature, preimage };
        assert(v.parts() =~= views(parts@));
        Ok(v)
    }
}

impl Molecule for CommitmentPendinghtlc1WithPreimageWitness {
    open spec fn encodable(&self) -> bool {
        true
    }

    open spec fn same(&self, other: &Self) -> bool {
        *self == *other
    }

    open spec fn encoding(&self, is_struct: bool) -> Seq<u8> {
        record_encoding(*self, is_struct)
    }

    proof fn lemma_injective(a: Self, b: Self, is_struct: bool) {
        Self::lemma_size(a);
        Self::lemma_size(b);
        lemma_record_injective(a, b, is_struct);
    }

    fn is_encodable(&self) -> (b: bool) {
        true
    }

    fn encode(&self, is_struct: bool) -> (bytes: Vec<u8>) {
        proof {
            Self::lemma_size(*self);
        }
        encode_record(self, is_struct)
    }

    fn decode(bytes: &[u8], is_struct: bool) -> (r: Result<Self, DecodeError>) {
        let r = decode_record::<Self>(bytes, is_struct);
        proof {
            if r is Err {
                assert forall|v: Self| v.encodable() implies #[trigger] v.encoding(is_struct)
                    != bytes@ by {
                    Self::lemma_size(v);
                }
            }
        }
        r
    }
}

/// A commitment cell with one pending payment, a preimage and a token amount as data.
pub struct CommitmentHTCL1WithPreimageAndUDTCell {
    pub lock_arg: [u8; 20],
    pub type_arg: Option<[u8; 32]>,
    pub data: u128,
    pub witness: Option<CommitmentPendinghtlc1WithPreimageWitness>,
    pub struct_flag: MoleculeStructFlag,
}

impl CommitmentHTCL1WithPreimageAndUDTCell {
    /// The record with a zero lock argument, zero data, no type argument, no witness
    /// and the default flag.
    pub fn default() -> (cell: Self)
        ensures
            cell.lock_arg@ == Seq::new(20, |i: int| 0u8),
            cell.type_arg is None,
            cell.data == 0,
            cell.witness is None,
            cell.struct_flag == default_flag(),
    {
        let cell = CommitmentHTCL1WithPreimageAndUDTCell {
            lock_arg: [0; 20],
            type_arg: None,
            data: 0,
            witness: None,
            struct_flag: MoleculeStructFlag::default(),
        };
        assert(cell.lock_arg@ =~= Seq::new(20, |i: int| 0u8));
        cell
    }
}

impl Cell for CommitmentHTCL1WithPreimageAndUDTCell {
    open spec fn struct_flag(&self) -> MoleculeStructFlag {
        self.struct_flag
    }

    open spec fn encodable(&self) -> bool {
        &&& self.lock_arg.encodable()
        &&& optional_encodable(self.type_arg)
        &&& self.data.encodable()
        &&& optional_encodable(self.witness)
    }

    open spec fn lock_arg_bytes(&self) -> Seq<u8> {
        self.lock_arg.encoding(self.struct_flag.lock_arg)
    }

    open spec fn type_arg_bytes(&self) -> Option<Seq<u8>> {
        optional_encoding(self.type_arg, self.struct_flag.type_arg)
    }

    open spec fn data_bytes(&self) -> Seq<u8> {
        self.data.encoding(self.struct_flag.data)
    }

    open spec fn witness_bytes(&self) -> Option<Seq<u8>> {
        optional_encoding(self.witness, self.struct_flag.witness)
    }

    open spec fn same(&self, other: &Self) -> bool {
        &&& self.lock_arg.same(&other.lock_arg)
        &&& optional_same(self.type_arg, other.type_arg)
        &&& self.data.same(&other.data)
        &&& optional_same(self.witness, other.witness)
        &&& self.struct_flag == other.struct_flag
    }

    proof fn lemma_injective(a: Self, b: Self) {
        <[u8; 20]>::lemma_injective(a.lock_arg, b.lock_arg, a.struct_flag.lock_arg);
        lemma_optional_injective(a.type_arg, b.type_arg, a.struct_flag.type_arg);
        u128::lemma_injective(a.data, b.data, a.struct_flag.data);
        lemma_optional_injective(a.witness, b.witness, a.struct_flag.witness);
    }

    fn is_encodable(&self) -> (b: bool) {
        self.lock_arg.is_encodable() && optional_is_encodable(&self.type_arg)
            && self.data.is_encodable() && optional_is_encodable(&self.witness)
    }

    fn get_lock_arg(&self) -> (bytes: Vec<u8>) {
        self.lock_arg.encode(self.struct_flag.lock_arg)
    }

    fn get_type_arg(&self) -> (bytes: Option<Vec<u8>>) {
        encode_optional(&self.type_arg, self.struct_flag.type_arg)
    }

    fn get_data(&self) -> (bytes: Vec<u8>) {
        self.data.encode(self.struct_flag.data)
    }

    fn get_witness(&self) -> (bytes: Option<Vec<u8>>) {
        encode_optional(&self.witness, self.struct_flag.witness)
    }

    fn from_arg(
        lock_arg: Vec<u8>,
        type_arg: Option<Vec<u8>>,
        data1: Vec<u8>,
        witness_args: Option<Vec<u8>>,
    ) -> (r: Result<Self, DecodeError>) {
        let struct_flag = MoleculeStructFlag::default();
        let lock = match <[u8; 20]>::decode(lock_arg.as_slice(), struct_flag.lock_arg) {
            Ok(field) => field,
            Err(e) => {
                return Err(e);
            },
        };
        let type_ = match decode_optional::<[u8; 32]>(&type_arg, struct_flag.type_arg) {
            Ok(field) => field,
            Err(e) => {
                return Err(e);
            },
        };
        let data = match u128::decode(data1.as_slice(), struct_flag.data) {
            Ok(field) => field,
            Err(e) => {
                return Err(e);
            },
        };
        let witness = match decode_optional::<CommitmentPendinghtlc1WithPreimageWitness>(&witness_args, struct_flag.witness) {
            Ok(field) => field,
            Err(e) => {
                return Err(e);
            },
        };
        Ok(CommitmentHTCL1WithPreimageAndUDTCell { lock_arg: lock, type_arg: type_, data, witness, struct_flag })
    }
}

} // verus!
