use vstd::prelude::*;
use vstd::bytes::{
    lemma_auto_spec_u128_to_from_le_bytes, lemma_auto_spec_u64_to_from_le_bytes,
    spec_u128_from_le_bytes, spec_u128_to_le_bytes, spec_u64_from_le_bytes,
    spec_u64_to_le_bytes, u128_from_le_bytes, u128_to_le_bytes, u64_from_le_bytes,
    u64_to_le_bytes,
};
use vstd::slice::slice_to_vec;
use crate::molecule::layout::DecodeError;

verus! {

/// A value with a byte encoding in each of the two layouts.
pub trait Molecule: Sized {
    /// Whether the value can be encoded: its table fits the 32-bit sizes of the format.
    spec fn encodable(&self) -> bool;

    /// The bytes that stand for the value, in the fixed layout (`is_struct`) or the
    /// table layout.
    spec fn encoding(&self, is_struct: bool) -> Seq<u8>;

    /// Whether two values are the same: equal, with vectors compared by their elements.
    spec fn same(&self, other: &Self) -> bool;

    /// Different values have different encodings.
    proof fn lemma_injective(a: Self, b: Self, is_struct: bool)
        requires
            a.encodable(),
            b.encodable(),
            a.encoding(is_struct) == b.encoding(is_struct),
        ensures
            a.same(&b),
    ;

    /// Whether the value can be encoded.
    fn is_encodable(&self) -> (b: bool)
        ensures
            b == self.encodable(),
    ;

    /// Encodes the value.
    fn encode(&self, is_struct: bool) -> (bytes: Vec<u8>)
        requires
            self.encodable(),
        ensures
            bytes@ == self.encoding(is_struct),
    ;

    /// Decodes a value: the one whose encoding is `bytes`, or an error if there is none.
    fn decode(bytes: &[u8], is_struct: bool) -> (r: Result<Self, DecodeError>)
        ensures
            match r {
                Ok(v) => v.encodable() && v.encoding(is_struct) == bytes@,
                Err(e) => e == DecodeError::Malformed && forall|v: Self|
                    v.encodable() ==> #[trigger] v.encoding(is_struct) != bytes@,
            },
    ;
}

/// What `decode` returns for `bytes`: a value that encodes to exactly these bytes,
/// or `Malformed` when no value does.
pub open spec fn decodes<T: Molecule>(
    bytes: Seq<u8>,
    is_struct: bool,
    r: Result<T, DecodeError>,
) -> bool {
    match r {
        Ok(v) => v.encodable() && v.encoding(is_struct) == bytes,
        Err(e) => e == DecodeError::Malformed && forall|v: T|
            v.encodable() ==> #[trigger] v.encoding(is_struct) != bytes,
    }
}

/// Decoding what was encoded gives the value back, in either layout.
pub proof fn lemma_round_trip<T: Molecule>(v: T, is_struct: bool, r: Result<T, DecodeError>)
    requires
        v.encodable(),
        decodes(v.encoding(is_struct), is_struct, r),
    ensures
        r is Ok,
        r->Ok_0.same(&v),
{
    match r {
        Ok(w) => {
            T::lemma_injective(w, v, is_struct);
        },
        Err(_) => {},
    }
}

/// Encoding what was decoded gives the bytes back: no two byte strings decode to one value.
pub proof fn lemma_decoded_bytes<T: Molecule>(
    a: Seq<u8>,
    b: Seq<u8>,
    is_struct: bool,
    v: T,
)
    requires
        decodes(a, is_struct, Ok::<T, DecodeError>(v)),
        decodes(b, is_struct, Ok::<T, DecodeError>(v)),
    ensures
        a == b,
{
}

impl Molecule for u8 {
    open spec fn encodable(&self) -> bool {
        true
    }

    open spec fn same(&self, other: &Self) -> bool {
        *self == *other
    }

    open spec fn encoding(&self, is_struct: bool) -> Seq<u8> {
        seq![*self]
    }

    proof fn lemma_injective(a: Self, b: Self, is_struct: bool) {
        assert(seq![a][0] == a);
        assert(seq![b][0] == b);
    }

    fn is_encodable(&self) -> (b: bool) {
        true
    }

    fn encode(&self, is_struct: bool) -> (bytes: Vec<u8>) {
        let mut bytes: Vec<u8> = Vec::new();
        bytes.push(*self);
        assert(bytes@ =~= seq![*self]);
        bytes
    }

    fn decode(bytes: &[u8], is_struct: bool) -> (r: Result<Self, DecodeError>) {
        if bytes.len() != 1 {
            Err(DecodeError::Malformed)
        } else {
            let v = bytes[0];
            assert(bytes@ =~= seq![v]);
            Ok(v)
        }
    }
}

impl Molecule for u64 {
    open spec fn encodable(&self) -> bool {
        true
    }

    open spec fn same(&self, other: &Self) -> bool {
        *self == *other
    }

    open spec fn encoding(&self, is_struct: bool) -> Seq<u8> {
        spec_u64_to_le_bytes(*self)
    }

    proof fn lemma_injective(a: Self, b: Self, is_struct: bool) {
        lemma_auto_spec_u64_to_from_le_bytes();
        assert(spec_u64_from_le_bytes(spec_u64_to_le_bytes(a)) == a);
        assert(spec_u64_from_le_bytes(spec_u64_to_le_bytes(b)) == b);
    }

    fn is_encodable(&self) -> (b: bool) {
        true
    }

    fn encode(&self, is_struct: bool) -> (bytes: Vec<u8>) {
        u64_to_le_bytes(*self)
    }

    fn decode(bytes: &[u8], is_struct: bool) -> (r: Result<Self, DecodeError>) {
        proof {
            lemma_auto_spec_u64_to_from_le_bytes();
        }
        if bytes.len() != 8 {
            Err(DecodeError::Malformed)
        } else {
            Ok(u64_from_le_bytes(bytes))
        }
    }
}

impl Molecule for u128 {
    open spec fn encodable(&self) -> bool {
        true
    }

    open spec fn same(&self, other: &Self) -> bool {
        *self == *other
    }

    open spec fn encoding(&self, is_struct: bool) -> Seq<u8> {
        spec_u128_to_le_bytes(*self)
    }

    proof fn lemma_injective(a: Self, b: Self, is_struct: bool) {
        lemma_auto_spec_u128_to_from_le_bytes();
        assert(spec_u128_to_le_bytes(a).len() == 16);
        assert(spec_u128_to_le_bytes(b).len() == 16);
        assert(spec_u128_from_le_bytes(spec_u128_to_le_bytes(a)) == a);
        assert(spec_u128_from_le_bytes(spec_u128_to_le_bytes(b)) == b);
    }

    fn is_encodable(&self) -> (b: bool) {
        true
    }

    fn encode(&self, is_struct: bool) -> (bytes: Vec<u8>) {
        u128_to_le_bytes(*self)
    }

    fn decode(bytes: &[u8], is_struct: bool) -> (r: Result<Self, DecodeError>) {
        proof {
            lemma_auto_spec_u128_to_from_le_bytes();
        }
        if bytes.len() != 16 {
            Err(DecodeError::Malformed)
        } else {
            Ok(u128_from_le_bytes(bytes))
        }
    }
}

impl<const N: usize> Molecule for [u8; N] {
    open spec fn encodable(&self) -> bool {
        true
    }

    open spec fn same(&self, other: &Self) -> bool {
        *self == *other
    }

    open spec fn encoding(&self, is_struct: bool) -> Seq<u8> {
        self@
    }

    proof fn lemma_injective(a: Self, b: Self, is_struct: bool) {
        assert(a =~= b);
    }

    fn is_encodable(&self) -> (b: bool) {
        true
    }

    fn encode(&self, is_struct: bool) -> (bytes: Vec<u8>) {
        slice_to_vec(self.as_slice())
    }

    fn decode(bytes: &[u8], is_struct: bool) -> (r: Result<Self, DecodeError>) {
        if bytes.len() != N {
            Err(DecodeError::Malformed)
        } else {
            let mut array = [0u8;N];
            let mut i: usize = 0;
            while i < N
                invariant
                    i <= N,
                    bytes@.len() == N,
                    forall|j: int| 0 <= j < i ==> array@[j] == bytes@[j],
                decreases N - i,
            {
                array[i] = bytes[i];
                i = i + 1;
            }
            assert(array@ =~= bytes@);
            Ok(array)
        }
    }
}

} // verus!
