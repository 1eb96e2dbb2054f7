use cell_fixture::cell_message::cell::{Cell, MoleculeStructFlag};
use cell_fixture::cells::commitment_lock::{
    CommitmentArgErrCell, CommitmentCell, CommitmentCellNoHtlcAndPreImage, CommitmentHTCL1Cell,
    CommitmentHTCL1WithPreimageAndUDTCell, CommitmentHTCL2Cell,
    CommitmentHTCL2WithPriImageAndUDTCell, CommitmentMaxErrLenWitness,
    CommitmentMaxWitnessLenErrCell, CommitmentMinErrLenWitness, CommitmentMinWitnessLenErrCell,
    CommitmentPendinghtlc1WithPreimageWitness, CommitmentPendinghtlc1Witness,
    CommitmentPendinghtlc2WithPriImageWitness, CommitmentPendinghtlc2Witness, CommitmentWitness,
    CommitmentWitnessNoHtlcAndPreImage, PendingHtlc,
};
use cell_fixture::cells::demo::Demo;
use cell_fixture::cells::funding_lock::{FundingCell, FundingWitness};
use cell_fixture::cells::funding_lock_err::{FundingErrCell, FundingErrWitness};
use cell_fixture::cells::xudt_data::{XUDTData, XUDTDataCell, XUDTWitness, EMPTY_WITNESS_ARGS};
use cell_fixture::molecule::dynvec::{decode_dynvec, decode_dynvec_item, encode_dynvec};
use cell_fixture::molecule::layout::{split, DecodeError, Width};
use cell_fixture::molecule::table::{assemble, disassemble, part_fits, table_parts};
use cell_fixture::molecule::value::Molecule;
use serde::ser::SerializeStruct;

fn htlc(seed: u8) -> PendingHtlc {
    PendingHtlc {
        htlc_type: seed,
        payment_amount: 0x0102_0304_0506_0708_090a_0b0c_0d0e_0f10 + seed as u128,
        payment_hash: [seed.wrapping_add(1); 20],
        remote_htlc_pubkey_hash: [seed.wrapping_add(2); 20],
        local_htlc_pubkey_hash: [seed.wrapping_add(3); 20],
        htlc_expiry: 1_700_000_000 + seed as u64,
    }
}

fn commitment_witness(htlcs: Vec<PendingHtlc>, preimage: Option<[u8; 32]>) -> CommitmentWitness {
    CommitmentWitness {
        empty_witness_args: EMPTY_WITNESS_ARGS,
        local_delay_epoch: 42,
        local_delay_pubkey_hash: [7; 20],
        revocation_pubkey_hash: [8; 20],
        pending_htlc: htlcs,
        unlock_type: 255,
        signature: [9; 65],
        preimage,
    }
}

fn round_trip<T: Molecule + PartialEq + std::fmt::Debug>(value: &T) {
    for is_struct in [true, false] {
        let bytes = value.encode(is_struct);
        assert_eq!(T::decode(&bytes, is_struct).as_ref(), Ok(value));
        let mut longer = bytes.clone();
        longer.push(0);
        assert_eq!(T::decode(&longer, is_struct), Err(DecodeError::Malformed));
        if !bytes.is_empty() {
            let shorter = &bytes[..bytes.len() - 1];
            assert_eq!(T::decode(shorter, is_struct), Err(DecodeError::Malformed));
        }
    }
}

struct HtlcMirror(PendingHtlc);

impl serde::Serialize for HtlcMirror {
    fn serialize<S: serde::Serializer>(&self, serializer: S) -> Result<S::Ok, S::Error> {
        let mut state = serializer.serialize_struct("PendingHtlc", 6)?;
        state.serialize_field("htlc_type", &self.0.htlc_type)?;
        state.serialize_field("payment_amount", &self.0.payment_amount)?;
        state.serialize_field("payment_hash", &self.0.payment_hash)?;
        state.serialize_field("remote_htlc_pubkey_hash", &self.0.remote_htlc_pubkey_hash)?;
        state.serialize_field("local_htlc_pubkey_hash", &self.0.local_htlc_pubkey_hash)?;
        state.serialize_field("htlc_expiry", &self.0.htlc_expiry)?;
        state.end()
    }
}

struct DynVecField<'a>(&'a Vec<HtlcMirror>);

impl serde::Serialize for DynVecField<'_> {
    fn serialize<S: serde::Serializer>(&self, serializer: S) -> Result<S::Ok, S::Error> {
        serde_molecule::dynvec_serde::serialize(self.0, serializer)
    }
}

struct StructField<'a, T>(&'a T);

impl<T: serde::Serialize> serde::Serialize for StructField<'_, T> {
    fn serialize<S: serde::Serializer>(&self, serializer: S) -> Result<S::Ok, S::Error> {
        serde_molecule::struct_serde::serialize(self.0, serializer)
    }
}

struct BigArrayField<'a>(&'a [u8; 65]);

impl serde::Serialize for BigArrayField<'_> {
    fn serialize<S: serde::Serializer>(&self, serializer: S) -> Result<S::Ok, S::Error> {
        serde_molecule::big_array_serde::serialize(self.0, serializer)
    }
}

struct WitnessMirror {
    witness: CommitmentWitness,
    htlcs: Vec<HtlcMirror>,
}

impl WitnessMirror {
    fn of(witness: &CommitmentWitness) -> Self {
        WitnessMirror {
            witness: witness.clone(),
            htlcs: witness.pending_htlc.iter().map(|htlc| HtlcMirror(htlc.clone())).collect(),
        }
    }
}

impl serde::Serialize for WitnessMirror {
    fn serialize<S: serde::Serializer>(&self, serializer: S) -> Result<S::Ok, S::Error> {
        let witness = &self.witness;
        let mut state = serializer.serialize_struct("CommitmentWitness", 8)?;
        state.serialize_field("empty_witness_args", &witness.empty_witness_args)?;
        state.serialize_field("local_delay_epoch", &witness.local_delay_epoch)?;
        state.serialize_field("local_delay_pubkey_hash", &witness.local_delay_pubkey_hash)?;
        state.serialize_field("revocation_pubkey_hash", &witness.revocation_pubkey_hash)?;
        state.serialize_field("pending_htlc", &DynVecField(&self.htlcs))?;
        state.serialize_field("unlock_type", &witness.unlock_type)?;
        state.serialize_field("signature", &BigArrayField(&witness.signature))?;
        state.serialize_field("preimage", &StructField(&witness.preimage))?;
        state.end()
    }
}

struct Htlc1Mirror(CommitmentPendinghtlc1Witness);

impl serde::Serialize for Htlc1Mirror {
    fn serialize<S: serde::Serializer>(&self, serializer: S) -> Result<S::Ok, S::Error> {
        let witness = &self.0;
        let htlc = HtlcMirror(witness.pending_htlc1.clone());
        let mut state = serializer.serialize_struct("CommitmentPendinghtlc1Witness", 7)?;
        state.serialize_field("empty_witness_args", &witness.empty_witness_args)?;
        state.serialize_field("local_delay_epoch", &witness.local_delay_epoch)?;
        state.serialize_field("local_delay_pubkey_hash", &witness.local_delay_pubkey_hash)?;
        state.serialize_field("revocation_pubkey_hash", &witness.revocation_pubkey_hash)?;
        state.serialize_field("pending_htlc1", &StructField(&htlc))?;
        state.serialize_field("unlock_type", &witness.unlock_type)?;
        state.serialize_field("signature", &BigArrayField(&witness.signature))?;
        state.end()
    }
}

#[test]
fn commitment_witness_agrees_with_serde_molecule() {
    for witness in [
        commitment_witness(vec![], None),
        commitment_witness(vec![htlc(1)], None),
        commitment_witness(vec![htlc(1), htlc(2), htlc(3)], Some([6; 32])),
    ] {
        for is_struct in [true, false] {
            assert_eq!(
                witness.encode(is_struct),
                serde_molecule::to_vec(&WitnessMirror::of(&witness), is_struct).unwrap()
            );
        }
    }
}

#[test]
fn nested_record_agrees_with_serde_molecule() {
    let witness = CommitmentPendinghtlc1Witness {
        empty_witness_args: EMPTY_WITNESS_ARGS,
        local_delay_epoch: 10,
        local_delay_pubkey_hash: [1; 20],
        revocation_pubkey_hash: [2; 20],
        pending_htlc1: htlc(1),
        unlock_type: 0,
        signature: [3; 65],
    };
    for is_struct in [true, false] {
        assert_eq!(
            witness.encode(is_struct),
            serde_molecule::to_vec(&Htlc1Mirror(witness.clone()), is_struct).unwrap()
        );
    }
}

#[test]
fn every_fixed_value_is_encodable() {
    assert!(5u8.is_encodable());
    assert!(u128::MAX.is_encodable());
    assert!([0u8; 65].is_encodable());
    assert!(htlc(1).is_encodable());
    assert!(commitment_witness(vec![htlc(1), htlc(2)], Some([1; 32])).is_encodable());
    assert!(Demo::default().is_encodable());
    assert!(XUDTDataCell::new([1; 32], XUDTData { amount: 1 }).is_encodable());
    let cell = CommitmentCell {
        lock_arg: [3; 20],
        type_arg: None,
        data: 5,
        witness: Some(commitment_witness(vec![htlc(1)], None)),
        struct_flag: MoleculeStructFlag::default(),
    };
    assert!(cell.is_encodable());
}

#[test]
fn integers_are_little_endian() {
    assert_eq!(5u8.encode(true), vec![5]);
    assert_eq!(5u8.encode(false), vec![5]);
    assert_eq!(0x0102_0304_0506_0708u64.encode(true), vec![8, 7, 6, 5, 4, 3, 2, 1]);
    assert_eq!(
        0x0102_0304_0506_0708_090a_0b0c_0d0e_0f10u128.encode(false),
        vec![16, 15, 14, 13, 12, 11, 10, 9, 8, 7, 6, 5, 4, 3, 2, 1]
    );
    assert_eq!(2005u128.encode(true), 2005u128.to_le_bytes().to_vec());
}

#[test]
fn arrays_are_written_verbatim() {
    let bytes: [u8; 20] = [3; 20];
    assert_eq!(bytes.encode(true), vec![3; 20]);
    assert_eq!(bytes.encode(false), vec![3; 20]);
    assert_eq!(<[u8; 20]>::decode(&[3; 20], true), Ok(bytes));
}

#[test]
fn primitives_round_trip() {
    round_trip(&0u8);
    round_trip(&255u8);
    round_trip(&u64::MAX);
    round_trip(&1u64);
    round_trip(&u128::MAX);
    round_trip(&2000u128);
    round_trip(&[1u8; 20]);
    round_trip(&[2u8; 22]);
    round_trip(&[3u8; 32]);
    round_trip(&[4u8; 65]);
}

#[test]
fn primitives_reject_other_lengths() {
    assert_eq!(u8::decode(&[], true), Err(DecodeError::Malformed));
    assert_eq!(u8::decode(&[1, 2], false), Err(DecodeError::Malformed));
    assert_eq!(u64::decode(&[0; 7], true), Err(DecodeError::Malformed));
    assert_eq!(u128::decode(&[0; 17], true), Err(DecodeError::Malformed));
    assert_eq!(<[u8; 20]>::decode(&[0; 19], true), Err(DecodeError::Malformed));
    assert_eq!(<[u8; 20]>::decode(&[0; 22], false), Err(DecodeError::Malformed));
}

#[test]
fn primitives_agree_with_serde_molecule() {
    for is_struct in [true, false] {
        assert_eq!(7u8.encode(is_struct), serde_molecule::to_vec(&7u8, is_struct).unwrap());
        assert_eq!(
            0xdead_beefu64.encode(is_struct),
            serde_molecule::to_vec(&0xdead_beefu64, is_struct).unwrap()
        );
        assert_eq!(
            (u128::MAX - 5).encode(is_struct),
            serde_molecule::to_vec(&(u128::MAX - 5), is_struct).unwrap()
        );
        let array: [u8; 20] = [11; 20];
        assert_eq!(array.encode(is_struct), serde_molecule::to_vec(&array, is_struct).unwrap());
        let back: u128 = serde_molecule::from_slice(&2005u128.encode(is_struct), is_struct).unwrap();
        assert_eq!(back, 2005);
    }
}

#[test]
fn pending_htlc_fixed_layout_is_the_fields_in_order() {
    let value = htlc(1);
    let mut expected = vec![1u8];
    expected.extend_from_slice(&value.payment_amount.to_le_bytes());
    expected.extend_from_slice(&[2; 20]);
    expected.extend_from_slice(&[3; 20]);
    expected.extend_from_slice(&[4; 20]);
    expected.extend_from_slice(&value.htlc_expiry.to_le_bytes());
    assert_eq!(expected.len(), 85);
    assert_eq!(value.encode(true), expected);
}

#[test]
fn pending_htlc_table_layout_has_size_and_offsets_in_front() {
    let value = htlc(1);
    let bytes = value.encode(false);
    assert_eq!(bytes.len(), 113);
    let header: Vec<u8> = [113u32, 28, 29, 45, 65, 85, 105]
        .iter()
        .flat_map(|word| word.to_le_bytes())
        .collect();
    assert_eq!(&bytes[..28], &header[..]);
    assert_eq!(&bytes[28..], &value.encode(true)[..]);
}

#[test]
fn records_agree_with_serde_molecule() {
    let value = htlc(9);
    for is_struct in [true, false] {
        assert_eq!(
            value.encode(is_struct),
            serde_molecule::to_vec(&HtlcMirror(value.clone()), is_struct).unwrap()
        );
    }
}

#[test]
fn table_of_no_parts_is_its_size_alone() {
    let parts: Vec<Vec<u8>> = vec![];
    assert_eq!(assemble(&parts, false), vec![4, 0, 0, 0]);
    assert_eq!(assemble(&parts, true), Vec::<u8>::new());
    assert_eq!(table_parts(&[4, 0, 0, 0]), Ok(vec![]));
}

#[test]
fn table_parts_are_read_back() {
    let parts = vec![vec![1u8, 2, 3], vec![], vec![4u8]];
    let bytes = assemble(&parts, false);
    assert_eq!(bytes, vec![20, 0, 0, 0, 16, 0, 0, 0, 19, 0, 0, 0, 19, 0, 0, 0, 1, 2, 3, 4]);
    assert_eq!(table_parts(&bytes), Ok(parts));
}

#[test]
fn malformed_tables_are_rejected() {
    assert_eq!(table_parts(&[]), Err(DecodeError::Malformed));
    assert_eq!(table_parts(&[4, 0, 0]), Err(DecodeError::Malformed));
    assert_eq!(table_parts(&[5, 0, 0, 0, 0]), Err(DecodeError::Malformed));
    // The size in front is not the length.
    assert_eq!(table_parts(&[9, 0, 0, 0, 8, 0, 0, 0]), Err(DecodeError::Malformed));
    // The first offset is not a multiple of four.
    assert_eq!(table_parts(&[9, 0, 0, 0, 9, 0, 0, 0, 1]), Err(DecodeError::Malformed));
    // The offsets go backwards.
    assert_eq!(
        table_parts(&[13, 0, 0, 0, 12, 0, 0, 0, 11, 0, 0, 0, 1]),
        Err(DecodeError::Malformed)
    );
    // An offset points behind the end.
    assert_eq!(
        table_parts(&[13, 0, 0, 0, 12, 0, 0, 0, 14, 0, 0, 0, 1]),
        Err(DecodeError::Malformed)
    );
}

#[test]
fn split_cuts_by_widths() {
    let widths = vec![Width::Fixed(2), Width::Prefixed, Width::Fixed(1), Width::Rest];
    let bytes = vec![1u8, 2, 5, 0, 0, 0, 9, 7, 8, 8];
    assert_eq!(split(&bytes, &widths), Ok(vec![vec![1, 2], vec![5, 0, 0, 0, 9], vec![7], vec![8, 8]]));
    assert_eq!(split(&bytes[..8], &widths), Ok(vec![vec![1, 2], vec![5, 0, 0, 0, 9], vec![7], vec![]]));
    assert_eq!(split(&bytes[..7], &widths), Err(DecodeError::Malformed));
    let fixed = vec![Width::Fixed(2), Width::Fixed(1)];
    assert_eq!(split(&[1, 2, 3], &fixed), Ok(vec![vec![1, 2], vec![3]]));
    assert_eq!(split(&[1, 2, 3, 4], &fixed), Err(DecodeError::Malformed));
    assert_eq!(split(&[1, 2], &fixed), Err(DecodeError::Malformed));
    // A prefixed part cannot be shorter than its own prefix.
    assert_eq!(split(&[3, 0, 0, 0], &vec![Width::Prefixed]), Err(DecodeError::Malformed));
}

#[test]
fn disassemble_checks_the_widths_in_both_layouts() {
    let widths = vec![Width::Fixed(1), Width::Fixed(2)];
    let parts = vec![vec![1u8], vec![2u8, 3]];
    for is_struct in [true, false] {
        let bytes = assemble(&parts, is_struct);
        assert_eq!(disassemble(&bytes, &widths, is_struct), Ok(parts.clone()));
        let other = assemble(&vec![vec![1u8, 2], vec![3u8]], is_struct);
        if !is_struct {
            assert_eq!(disassemble(&other, &widths, is_struct), Err(DecodeError::Malformed));
        }
        let fewer = assemble(&vec![vec![1u8]], is_struct);
        assert_eq!(disassemble(&fewer, &widths, is_struct), Err(DecodeError::Malformed));
    }
}

#[test]
fn part_fits_its_width() {
    assert!(part_fits(&vec![1, 2], &Width::Fixed(2)));
    assert!(!part_fits(&vec![1, 2], &Width::Fixed(3)));
    assert!(part_fits(&vec![5, 0, 0, 0, 1], &Width::Prefixed));
    assert!(!part_fits(&vec![6, 0, 0, 0, 1], &Width::Prefixed));
    assert!(!part_fits(&vec![3, 0, 0], &Width::Prefixed));
    assert!(part_fits(&vec![], &Width::Rest));
}

#[test]
fn pending_htlc_round_trips() {
    round_trip(&htlc(0));
    round_trip(&htlc(200));
}

#[test]
fn dynamic_vector_round_trips() {
    let items = vec![htlc(1), htlc(2), htlc(3)];
    let bytes = encode_dynvec(&items);
    assert_eq!(bytes.len(), 16 + 3 * 113);
    assert_eq!(decode_dynvec::<PendingHtlc>(&bytes), Ok(items));
    let none: Vec<PendingHtlc> = vec![];
    assert_eq!(encode_dynvec(&none), vec![4, 0, 0, 0]);
    assert_eq!(decode_dynvec::<PendingHtlc>(&[4, 0, 0, 0]), Ok(none));
}

#[test]
fn dynamic_vector_element_is_the_item_alone() {
    let items = vec![htlc(10), htlc(20), htlc(30), htlc(40)];
    let parts = table_parts(&encode_dynvec(&items)).unwrap();
    assert_eq!(parts.len(), items.len());
    for i in 0..items.len() {
        assert_eq!(parts[i], items[i].encode(false));
        assert_eq!(PendingHtlc::decode(&parts[i], false).as_ref(), Ok(&items[i]));
    }
}

#[test]
fn dynamic_vector_item_is_decoded_by_its_index() {
    let items = vec![htlc(10), htlc(20), htlc(30)];
    let bytes = encode_dynvec(&items);
    for i in 0..items.len() {
        assert_eq!(decode_dynvec_item::<PendingHtlc>(&bytes, i).as_ref(), Ok(&items[i]));
        assert_eq!(
            decode_dynvec_item::<PendingHtlc>(&bytes, i),
            PendingHtlc::decode(&items[i].encode(false), false)
        );
    }
    assert_eq!(decode_dynvec_item::<PendingHtlc>(&bytes, 3), Err(DecodeError::Malformed));
    assert_eq!(decode_dynvec_item::<PendingHtlc>(&bytes[1..], 0), Err(DecodeError::Malformed));
    assert_eq!(decode_dynvec_item::<PendingHtlc>(&[4, 0, 0, 0], 0), Err(DecodeError::Malformed));
    // The other elements are not looked at.
    let mixed = assemble(&vec![vec![1, 2, 3], htlc(1).encode(false)], false);
    assert_eq!(decode_dynvec_item::<PendingHtlc>(&mixed, 1), Ok(htlc(1)));
    assert_eq!(decode_dynvec_item::<PendingHtlc>(&mixed, 0), Err(DecodeError::Malformed));
}

#[test]
fn dynamic_vector_rejects_a_malformed_item() {
    let bytes = assemble(&vec![htlc(1).encode(false), vec![1, 2, 3]], false);
    assert_eq!(decode_dynvec::<PendingHtlc>(&bytes), Err(DecodeError::Malformed));
    assert_eq!(decode_dynvec::<PendingHtlc>(&[1, 2, 3]), Err(DecodeError::Malformed));
}

#[test]
fn commitment_witness_round_trips() {
    round_trip(&commitment_witness(vec![], None));
    round_trip(&commitment_witness(vec![], Some([5; 32])));
    round_trip(&commitment_witness(vec![htlc(1)], None));
    round_trip(&commitment_witness(vec![htlc(1), htlc(2)], Some([6; 32])));
}

#[test]
fn commitment_witness_fixed_layout() {
    let witness = commitment_witness(vec![htlc(1), htlc(2)], Some([6; 32]));
    let bytes = witness.encode(true);
    assert_eq!(bytes.len(), 16 + 8 + 20 + 20 + (12 + 2 * 113) + 1 + 65 + 32);
    assert_eq!(&bytes[..16], &EMPTY_WITNESS_ARGS[..]);
    assert_eq!(&bytes[16..24], &42u64.to_le_bytes()[..]);
    assert_eq!(&bytes[64..64 + 238], &encode_dynvec(&witness.pending_htlc)[..]);
    assert_eq!(bytes[64 + 238], 255);
    assert_eq!(&bytes[bytes.len() - 32..], &[6u8; 32][..]);
    let without = commitment_witness(vec![htlc(1), htlc(2)], None).encode(true);
    assert_eq!(&without[..], &bytes[..bytes.len() - 32]);
}

#[test]
fn commitment_witness_rejects_a_short_preimage() {
    let mut bytes = commitment_witness(vec![htlc(1)], Some([6; 32])).encode(true);
    bytes.pop();
    assert_eq!(CommitmentWitness::decode(&bytes, true), Err(DecodeError::Malformed));
}

#[test]
fn witnesses_round_trip() {
    round_trip(&CommitmentWitnessNoHtlcAndPreImage {
        empty_witness_args: EMPTY_WITNESS_ARGS,
        local_delay_epoch: 10,
        local_delay_pubkey_hash: [1; 20],
        revocation_pubkey_hash: [2; 20],
        unlock_type: 255,
        signature: [3; 65],
    });
    round_trip(&CommitmentPendinghtlc1Witness {
        empty_witness_args: EMPTY_WITNESS_ARGS,
        local_delay_epoch: 10,
        local_delay_pubkey_hash: [1; 20],
        revocation_pubkey_hash: [2; 20],
        pending_htlc1: htlc(1),
        unlock_type: 0,
        signature: [3; 65],
    });
    round_trip(&CommitmentPendinghtlc2Witness {
        empty_witness_args: EMPTY_WITNESS_ARGS,
        local_delay_epoch: 10,
        local_delay_pubkey_hash: [1; 20],
        revocation_pubkey_hash: [2; 20],
        pending_htlc1: htlc(1),
        pending_htlc2: htlc(2),
        unlock_type: 1,
        signature: [3; 65],
    });
    round_trip(&CommitmentPendinghtlc2WithPriImageWitness {
        empty_witness_args: EMPTY_WITNESS_ARGS,
        local_delay_epoch: 10,
        local_delay_pubkey_hash: [1; 20],
        revocation_pubkey_hash: [2; 20],
        pending_htlc1: htlc(1),
        pending_htlc2: htlc(2),
        unlock_type: 1,
        signature: [3; 65],
        preimage: [4; 32],
    });
    round_trip(&CommitmentPendinghtlc1WithPreimageWitness {
        empty_witness_args: EMPTY_WITNESS_ARGS,
        local_delay_epoch: 10,
        local_delay_pubkey_hash: [1; 20],
        revocation_pubkey_hash: [2; 20],
        pending_htlc1: htlc(1),
        unlock_type: 1,
        signature: [3; 65],
        preimage: [4; 32],
    });
    round_trip(&CommitmentMinErrLenWitness {
        empty_witness_args: EMPTY_WITNESS_ARGS,
        local_delay_epoch: 10,
        local_delay_pubkey_hash: [1; 20],
        revocation_pubkey_hash: [2; 20],
        signature: [3; 65],
    });
    round_trip(&CommitmentMaxErrLenWitness {
        empty_witness_args: EMPTY_WITNESS_ARGS,
        local_delay_epoch: 10,
        local_delay_pubkey_hash: [1; 20],
        revocation_pubkey_hash: [2; 20],
        unlock_type: 1,
        signature: [3; 65],
        err: [5; 5],
    });
    round_trip(&FundingWitness {
        empty_witness_args: EMPTY_WITNESS_ARGS,
        version: 0,
        funding_out_point: [1; 36],
        pubkey: [2; 32],
        signature: [3; 64],
    });
    round_trip(&FundingErrWitness {
        empty_witness_args: EMPTY_WITNESS_ARGS,
        version: 0,
        funding_out_point: [1; 36],
        pubkey: [2; 32],
        signature: [3; 64],
        err: [4; 32],
    });
    round_trip(&XUDTData { amount: 2000 });
    round_trip(&XUDTWitness { empty_witness_args: EMPTY_WITNESS_ARGS });
}

#[test]
fn witness_lengths() {
    let min = CommitmentMinErrLenWitness {
        empty_witness_args: EMPTY_WITNESS_ARGS,
        local_delay_epoch: 10,
        local_delay_pubkey_hash: [1; 20],
        revocation_pubkey_hash: [2; 20],
        signature: [3; 65],
    };
    assert_eq!(min.encode(true).len(), 129);
    let funding = FundingWitness {
        empty_witness_args: EMPTY_WITNESS_ARGS,
        version: 0,
        funding_out_point: [1; 36],
        pubkey: [2; 32],
        signature: [3; 64],
    };
    assert_eq!(funding.encode(true).len(), 156);
    assert_eq!(funding.encode(false).len(), 24 + 156);
    assert_eq!(XUDTData { amount: 1 }.encode(true), 1u128.to_le_bytes().to_vec());
    assert_eq!(XUDTData { amount: 1 }.encode(false).len(), 24);
}

#[test]
fn flag_defaults_to_the_fixed_layout() {
    let flag = MoleculeStructFlag::default();
    assert!(flag.lock_arg && flag.type_arg && flag.data && flag.witness);
}

#[test]
fn demo_cell_defaults() {
    let cell = Demo::default();
    assert_eq!(cell.lock_arg, 0);
    assert_eq!(cell.type_arg, None);
    assert_eq!(cell.data, 1);
    assert_eq!(cell.witness, None);
    assert_eq!(cell.struct_flag, MoleculeStructFlag::default());
    let other = Demo::new();
    assert_eq!(other.get_lock_arg(), vec![0]);
    assert_eq!(other.get_type_arg(), None);
    assert_eq!(other.get_data(), vec![1]);
    assert_eq!(other.get_witness(), None);
}

#[test]
fn cell_defaults() {
    let cell = CommitmentCell::default();
    assert_eq!(cell.lock_arg, [0; 20]);
    assert!(cell.type_arg.is_none() && cell.witness.is_none());
    assert_eq!(cell.data, 0);
    assert_eq!(CommitmentArgErrCell::default().lock_arg, [0; 22]);
    assert_eq!(CommitmentCellNoHtlcAndPreImage::default().get_lock_arg(), vec![0; 20]);
    assert_eq!(CommitmentHTCL1Cell::default().get_data(), vec![0; 16]);
    assert_eq!(CommitmentHTCL2Cell::default().get_data(), vec![0]);
    assert_eq!(CommitmentHTCL2WithPriImageAndUDTCell::default().data, 0);
    assert_eq!(CommitmentHTCL1WithPreimageAndUDTCell::default().data, 0);
    assert!(CommitmentMinWitnessLenErrCell::default().get_witness().is_none());
    assert!(CommitmentMaxWitnessLenErrCell::default().get_witness().is_none());
    assert_eq!(FundingErrCell::default().lock_arg, [0; 20]);
    let xudt = XUDTDataCell::default();
    assert_eq!(xudt.lock_arg, 0);
    assert_eq!(xudt.data, XUDTData { amount: 0 });
    assert_eq!(xudt.struct_flag, MoleculeStructFlag::default());
}

#[test]
fn xudt_cell_new() {
    let cell = XUDTDataCell::new([1; 32], XUDTData { amount: 2005 });
    assert_eq!(cell.lock_arg, 0);
    assert_eq!(cell.type_arg, Some([1; 32]));
    assert_eq!(cell.data, XUDTData { amount: 2005 });
    assert_eq!(cell.witness, Some(XUDTWitness { empty_witness_args: EMPTY_WITNESS_ARGS }));
    assert_eq!(cell.get_lock_arg(), vec![0]);
    assert_eq!(cell.get_type_arg(), Some(vec![1; 32]));
    assert_eq!(cell.get_data(), 2005u128.to_le_bytes().to_vec());
    assert_eq!(cell.get_witness(), Some(EMPTY_WITNESS_ARGS.to_vec()));
}

#[test]
fn cell_flag_chooses_the_layout() {
    let mut cell = XUDTDataCell::new([1; 32], XUDTData { amount: 7 });
    cell.struct_flag.data = false;
    cell.struct_flag.witness = false;
    let mut data = vec![24u8, 0, 0, 0, 8, 0, 0, 0];
    data.extend_from_slice(&7u128.to_le_bytes());
    assert_eq!(cell.get_data(), data);
    let mut witness = vec![24u8, 0, 0, 0, 8, 0, 0, 0];
    witness.extend_from_slice(&EMPTY_WITNESS_ARGS);
    assert_eq!(cell.get_witness(), Some(witness));
}

#[test]
fn cell_round_trips_through_its_four_encodings() {
    let cell = XUDTDataCell::new([1; 32], XUDTData { amount: 2005 });
    let back = XUDTDataCell::from_arg(
        cell.get_lock_arg(),
        cell.get_type_arg(),
        cell.get_data(),
        cell.get_witness(),
    );
    assert_eq!(back, Ok(cell));
    let funding = FundingCell {
        lock_arg: [9; 20],
        type_arg: None,
        data: 0,
        witness: None,
        struct_flag: MoleculeStructFlag::default(),
    };
    let back = FundingCell::from_arg(
        funding.get_lock_arg(),
        funding.get_type_arg(),
        funding.get_data(),
        funding.get_witness(),
    )
    .unwrap();
    assert_eq!(back.lock_arg, [9; 20]);
    assert!(back.type_arg.is_none() && back.witness.is_none());
    assert_eq!(back.data, 0);
}

#[test]
fn commitment_cell_round_trips() {
    let cell = CommitmentCell {
        lock_arg: [3; 20],
        type_arg: Some(4),
        data: 5,
        witness: Some(commitment_witness(vec![htlc(1), htlc(2)], Some([1; 32]))),
        struct_flag: MoleculeStructFlag::default(),
    };
    let back = CommitmentCell::from_arg(
        cell.get_lock_arg(),
        cell.get_type_arg(),
        cell.get_data(),
        cell.get_witness(),
    )
    .unwrap();
    assert_eq!(back.lock_arg, cell.lock_arg);
    assert_eq!(back.type_arg, cell.type_arg);
    assert_eq!(back.data, cell.data);
    assert_eq!(back.witness, cell.witness);
    assert_eq!(back.struct_flag, cell.struct_flag);
}

#[test]
fn from_arg_rejects_malformed_bytes() {
    assert!(matches!(
        Demo::from_arg(vec![], None, vec![1], None),
        Err(DecodeError::Malformed)
    ));
    assert!(matches!(
        Demo::from_arg(vec![0], Some(vec![1, 2]), vec![1], None),
        Err(DecodeError::Malformed)
    ));
    assert!(matches!(
        Demo::from_arg(vec![0], None, vec![], None),
        Err(DecodeError::Malformed)
    ));
    assert!(matches!(
        Demo::from_arg(vec![0], None, vec![1], Some(vec![])),
        Err(DecodeError::Malformed)
    ));
    assert!(matches!(
        XUDTDataCell::from_arg(vec![0], Some(vec![1; 31]), vec![0; 16], None),
        Err(DecodeError::Malformed)
    ));
    // A mismatch of layouts is caught where the lengths differ.
    let mut cell = XUDTDataCell::new([1; 32], XUDTData { amount: 7 });
    cell.struct_flag.data = false;
    assert!(matches!(
        XUDTDataCell::from_arg(cell.get_lock_arg(), cell.get_type_arg(), cell.get_data(), None),
        Err(DecodeError::Malformed)
    ));
}

#[test]
fn from_arg_leaves_absent_fields_out() {
    let cell = Demo::from_arg(vec![7], None, vec![5], None).unwrap();
    assert_eq!(cell.lock_arg, 7);
    assert_eq!(cell.type_arg, None);
    assert_eq!(cell.data, 5);
    assert_eq!(cell.witness, None);
    let cell = Demo::from_arg(vec![7], Some(vec![8]), vec![5], Some(vec![9])).unwrap();
    assert_eq!(cell.type_arg, Some(8));
    assert_eq!(cell.witness, Some(9));
}
