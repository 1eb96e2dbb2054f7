use cell_fixture::cell_message::cell::{Cell, MoleculeStructFlag};
use cell_fixture::cells::demo::Demo;
use cell_fixture::cells::xudt_data::{XUDTData, XUDTDataCell};
use cell_fixture::contract_util::ContractUtil;
use cell_fixture::fixture::{
    CellDep, CellInput, CellOutput, CellScript, Fixture, FixtureError, OutPoint,
};
use ckb_testtool::ckb_types::bytes::Bytes;
use ckb_testtool::ckb_types::packed;
use ckb_testtool::ckb_types::prelude::{Entity, Unpack};
use ckb_testtool::context::Context;

fn util() -> ContractUtil {
    ContractUtil::new(Context::default(), vec![0x7f, 0x45, 0x4c, 0x46, 1])
}

fn demo(data: u8) -> Demo {
    Demo {
        lock_arg: 3,
        type_arg: None,
        data,
        witness: None,
        struct_flag: MoleculeStructFlag::default(),
    }
}

fn unknown() -> OutPoint {
    OutPoint { tx_hash: [0xee; 32], index: 7 }
}

fn packed_out_point(out_point: &OutPoint) -> packed::OutPoint {
    packed::OutPoint::new(packed::Byte32::from(&out_point.tx_hash), out_point.index)
}

fn plain_output(args: Vec<u8>) -> CellOutput {
    CellOutput {
        capacity: 1,
        lock: CellScript { code_hash: [1; 32], hash_type: 1, args },
        type_: None,
    }
}

#[test]
fn test_contract_opt() {
    let input_token_cell = XUDTDataCell::new([1; 32], XUDTData { amount: 2005 });
    let input_token2_cell = XUDTDataCell::new([1; 32], XUDTData { amount: 2001 });

    let output_token1_cell = XUDTDataCell::new([1; 32], XUDTData { amount: 2000 });
    let output_token2_cell = XUDTDataCell::new([1; 32], XUDTData { amount: 2000 });
    let set_0_output_cell = XUDTDataCell::new([1; 32], XUDTData { amount: 1 });
    let replace_0_output_cell = XUDTDataCell::new([1; 32], XUDTData { amount: 2 });

    let mut ct = util();
    let type_contract = ct.deploy_contract(b"XUDT".to_vec());
    let always = ct.alway_contract;
    let mut tx = Fixture::new();

    tx = ct.add_input(tx, always, Some(type_contract), &input_token_cell, 100).unwrap();
    tx = ct.add_input(tx, always, Some(type_contract), &input_token2_cell, 100).unwrap();

    tx = ct.add_outpoint(tx, always, Some(type_contract), &output_token1_cell, 100).unwrap();
    tx = ct.add_outpoint(tx, always, Some(type_contract), &output_token2_cell, 100).unwrap();

    tx = ct.set_output(tx, always, Some(type_contract), &set_0_output_cell, 100, 0).unwrap();

    tx = ct.replace_output(tx, always, Some(type_contract), &replace_0_output_cell, 100, 1).unwrap();

    assert_eq!(tx.inputs.len(), 2);
    assert_eq!(tx.outputs.len(), 3);
    let replaced: XUDTDataCell = ct.get_cell_by_index(tx.clone(), 1).unwrap();
    assert_eq!(replaced, replace_0_output_cell);
    let kept: XUDTDataCell = ct.get_cell_by_index(tx.clone(), 2).unwrap();
    assert_eq!(kept, output_token2_cell);
    let output1: XUDTDataCell = ct.get_cell_by_index(tx, 0).unwrap();
    println!("output1:{:?}", output1.data);
    assert_eq!(output1, set_0_output_cell);
}

#[test]
fn test_transfer_successful() {
    let input_token_cell = XUDTDataCell::new([1; 32], XUDTData { amount: 2000 });
    let input_token2_cell = XUDTDataCell::new([1; 32], XUDTData { amount: 2000 });

    let output_token1_cell = XUDTDataCell::new([1; 32], XUDTData { amount: 2000 });
    let output_token2_cell = XUDTDataCell::new([1; 32], XUDTData { amount: 2000 });

    let mut ct = util();
    let type_contract = ct.deploy_contract(b"XUDT".to_vec());
    let always = ct.alway_contract;
    let mut tx = Fixture::new();
    tx = ct.add_input(tx, always, Some(type_contract), &input_token_cell, 100).unwrap();
    tx = ct.add_input(tx, always, Some(type_contract), &input_token2_cell, 100).unwrap();
    tx = ct.add_outpoint(tx, always, Some(type_contract), &output_token1_cell, 100).unwrap();
    tx = ct.add_outpoint(tx, always, Some(type_contract), &output_token2_cell, 100).unwrap();
    assert_eq!(tx.inputs.len(), 2);
    assert_eq!(tx.outputs.len(), 2);
    assert_eq!(tx.outputs_data, vec![2000u128.to_le_bytes().to_vec(); 2]);
    assert_eq!(tx.witnesses.len(), 2);
}

#[test]
fn new_fixture_is_empty() {
    let tx = Fixture::new();
    assert!(tx.cell_deps.is_empty() && tx.inputs.is_empty() && tx.outputs.is_empty());
    assert!(tx.outputs_data.is_empty() && tx.witnesses.is_empty());
}

#[test]
fn built_scripts_are_those_of_the_context() {
    let mut ct = util();
    let type_contract = ct.deploy_contract(vec![9, 9, 9]);
    let always = ct.alway_contract;
    let cell = XUDTDataCell::new([1; 32], XUDTData { amount: 5 });
    let output = ct.get_celloutput_builder(&always, &Some(type_contract), &cell, 100).unwrap();
    assert_eq!(output.capacity, 100);

    let lock = ct
        .context
        .build_script(&packed_out_point(&always), Bytes::from(vec![0u8]))
        .unwrap();
    let code_hash: [u8; 32] = lock.code_hash().unpack();
    assert_eq!(output.lock.code_hash, code_hash);
    assert_eq!(output.lock.hash_type, 1);
    assert_eq!(output.lock.hash_type, u8::from(lock.hash_type()));
    assert_eq!(output.lock.args, vec![0]);

    let type_ = ct
        .context
        .build_script(&packed_out_point(&type_contract), Bytes::from(vec![1u8; 32]))
        .unwrap();
    let type_hash: [u8; 32] = type_.code_hash().unpack();
    let built = output.type_.unwrap();
    assert_eq!(built.code_hash, type_hash);
    assert_ne!(built.code_hash, code_hash);
    assert_eq!(built.hash_type, 1);
    assert_eq!(built.args, vec![1; 32]);
}

#[test]
fn output_without_type_contract_has_no_type_script() {
    let mut ct = util();
    let always = ct.alway_contract;
    let cell = XUDTDataCell::new([1; 32], XUDTData { amount: 5 });
    let output = ct.get_celloutput_builder(&always, &None, &cell, 0).unwrap();
    assert_eq!(output.type_, None);
    assert_eq!(output.capacity, 0);
}

#[test]
fn unknown_contracts_are_reported() {
    let mut ct = util();
    let always = ct.alway_contract;
    let cell = XUDTDataCell::new([1; 32], XUDTData { amount: 5 });
    assert_eq!(
        ct.get_celloutput_builder(&unknown(), &None, &cell, 1),
        Err(FixtureError::UnknownContract)
    );
    assert_eq!(
        ct.add_outpoint(Fixture::new(), always, Some(unknown()), &cell, 1),
        Err(FixtureError::UnknownContract)
    );
    assert_eq!(
        ct.add_input(Fixture::new(), unknown(), None, &cell, 1),
        Err(FixtureError::UnknownContract)
    );
    assert_eq!(
        ct.replace_output(Fixture::new(), unknown(), None, &cell, 1, 0),
        Err(FixtureError::UnknownContract)
    );
    assert_eq!(
        ct.set_output(Fixture::new(), unknown(), None, &cell, 1, 0),
        Err(FixtureError::UnknownContract)
    );
}

#[test]
fn cell_without_type_script_is_no_contract() {
    let mut ct = util();
    let always = ct.alway_contract;
    let input = ct.create_cell_input_by_cell(always, None, &demo(1), 10).unwrap();
    assert_eq!(input.since, 0);
    assert_eq!(
        ct.get_celloutput_builder(&input.previous_output, &None, &demo(1), 1),
        Err(FixtureError::UnknownContract)
    );
}

#[test]
fn type_contract_needs_a_type_argument() {
    let mut ct = util();
    let always = ct.alway_contract;
    assert_eq!(
        ct.add_outpoint(Fixture::new(), always, Some(always), &demo(1), 1),
        Err(FixtureError::MissingTypeArg)
    );
    assert_eq!(
        ct.add_outpoint(Fixture::new(), always, Some(unknown()), &demo(1), 1),
        Err(FixtureError::MissingTypeArg)
    );
}

#[test]
fn add_input_registers_a_cell_and_spends_it() {
    let mut ct = util();
    let always = ct.alway_contract;
    let before = ct.context.cells.len();
    let tx = ct.add_input(Fixture::new(), always, None, &demo(5), 77).unwrap();
    assert_eq!(ct.context.cells.len(), before + 1);
    assert_eq!(tx.inputs.len(), 1);
    assert_eq!(tx.inputs[0].since, 0);
    assert!(tx.outputs.is_empty() && tx.outputs_data.is_empty() && tx.witnesses.is_empty());
    let (cell, data) = ct.context.get_cell(&packed_out_point(&tx.inputs[0].previous_output)).unwrap();
    let capacity: u64 = cell.capacity().unpack();
    assert_eq!(capacity, 77);
    assert_eq!(data.to_vec(), vec![5]);
    let args: Vec<u8> = cell.lock().args().unpack();
    assert_eq!(args, vec![3]);
    assert!(cell.type_().is_none());

    let tx = ct.add_input_with_since(tx, always, None, &demo(6), 1234, 1).unwrap();
    assert_eq!(tx.inputs.len(), 2);
    assert_eq!(tx.inputs[1].since, 1234);
    assert_ne!(tx.inputs[0].previous_output, tx.inputs[1].previous_output);
}

#[test]
fn created_cell_keeps_its_type_script() {
    let mut ct = util();
    let always = ct.alway_contract;
    let cell = XUDTDataCell::new([4; 32], XUDTData { amount: 5 });
    let input = ct.create_cell_input_by_cell(always, Some(always), &cell, 10).unwrap();
    let (stored, data) = ct.context.get_cell(&packed_out_point(&input.previous_output)).unwrap();
    assert_eq!(data.to_vec(), 5u128.to_le_bytes().to_vec());
    let type_ = stored.type_().to_opt().unwrap();
    let args: Vec<u8> = type_.args().unpack();
    assert_eq!(args, vec![4; 32]);
    assert_eq!(type_.code_hash().as_slice(), stored.lock().code_hash().as_slice());
}

#[test]
fn create_tx_cells_registers_every_output() {
    let mut ct = util();
    let always = ct.alway_contract;
    let tx = ct.add_outpoint(Fixture::new(), always, None, &demo(1), 1).unwrap();
    let tx = ct.add_outpoint(tx, always, None, &demo(2), 1).unwrap();
    let before = ct.context.cells.len();
    ct.create_tx_cells(&tx);
    assert_eq!(ct.context.cells.len(), before + 2);
}

#[test]
fn add_outpoint_puts_an_empty_witness_for_none() {
    let mut ct = util();
    let always = ct.alway_contract;
    let cell = demo(5);
    assert_eq!(cell.get_witness(), None);
    let tx = ct.add_outpoint(Fixture::new(), always, None, &cell, 9).unwrap();
    assert_eq!(tx.witnesses, vec![Vec::<u8>::new()]);
    assert_eq!(tx.outputs_data, vec![vec![5]]);
    assert_eq!(tx.outputs.len(), 1);
    assert_eq!(tx.outputs[0].capacity, 9);
    assert_eq!(tx.outputs[0].lock.args, vec![3]);

    let mut with_witness = demo(6);
    with_witness.witness = Some(8);
    let tx = ct.add_outpoint(tx, always, None, &with_witness, 9).unwrap();
    assert_eq!(tx.witnesses, vec![vec![], vec![8]]);
}

#[test]
fn outputs_and_data_stay_aligned() {
    let mut ct = util();
    let always = ct.alway_contract;
    let mut tx = Fixture::new();
    assert_eq!(tx.outputs.len(), tx.outputs_data.len());
    tx = ct.add_outpoint(tx, always, None, &demo(1), 1).unwrap();
    assert_eq!(tx.outputs.len(), tx.outputs_data.len());
    tx = ct.set_output(tx, always, None, &demo(2), 1, 0).unwrap();
    assert_eq!(tx.outputs.len(), tx.outputs_data.len());
    tx = ct.replace_output(tx, always, None, &demo(3), 1, 1).unwrap();
    assert_eq!(tx.outputs.len(), tx.outputs_data.len());
    tx = ct.set_output(tx, always, None, &demo(4), 1, 2).unwrap();
    assert_eq!(tx.outputs.len(), 3);
    assert_eq!(tx.outputs_data, vec![vec![2], vec![3], vec![4]]);
    assert_eq!(tx.witnesses.len(), 3);
}

#[test]
fn replacing_twice_is_replacing_once() {
    let mut ct = util();
    let always = ct.alway_contract;
    let mut tx = Fixture::new();
    tx = ct.add_outpoint(tx, always, None, &demo(5), 1).unwrap();
    tx = ct.add_outpoint(tx, always, None, &demo(5), 1).unwrap();
    let once = ct.replace_output(tx, always, None, &demo(1), 2, 0).unwrap();
    let twice = ct.replace_output(once.clone(), always, None, &demo(1), 2, 0).unwrap();
    assert_eq!(once, twice);
}

#[test]
fn replacing_beyond_the_witnesses_appends_each_time() {
    let tx = Fixture {
        cell_deps: vec![],
        inputs: vec![],
        outputs: vec![plain_output(vec![1]), plain_output(vec![2])],
        outputs_data: vec![vec![1], vec![2]],
        witnesses: vec![],
    };
    let once = tx.replace_at(1, plain_output(vec![3]), vec![3], vec![9]).unwrap();
    assert_eq!(once.witnesses, vec![vec![9]]);
    assert_eq!(once.outputs[1], plain_output(vec![3]));
    assert_eq!(once.outputs_data, vec![vec![1], vec![3]]);
    let twice = once.clone().replace_at(1, plain_output(vec![3]), vec![3], vec![9]).unwrap();
    assert_eq!(twice.witnesses, vec![vec![9], vec![9]]);
    assert_eq!(twice.outputs, once.outputs);
}

#[test]
fn replace_at_the_end_of_the_witnesses_is_idempotent() {
    let tx = Fixture {
        cell_deps: vec![],
        inputs: vec![],
        outputs: vec![plain_output(vec![1]), plain_output(vec![2])],
        outputs_data: vec![vec![1], vec![2]],
        witnesses: vec![vec![7]],
    };
    let once = tx.replace_at(1, plain_output(vec![3]), vec![3], vec![9]).unwrap();
    assert_eq!(once.witnesses, vec![vec![7], vec![9]]);
    let twice = once.clone().replace_at(1, plain_output(vec![3]), vec![3], vec![9]).unwrap();
    assert_eq!(once, twice);
}

#[test]
fn inserting_shifts_what_follows() {
    let mut ct = util();
    let always = ct.alway_contract;
    let mut tx = Fixture::new();
    for value in [10u8, 20, 30] {
        let mut cell = demo(value);
        cell.witness = Some(value + 1);
        tx = ct.add_outpoint(tx, always, None, &cell, value as usize).unwrap();
    }
    let before = tx.clone();
    let mut cell = demo(99);
    cell.witness = Some(100);
    let after = ct.set_output(tx, always, None, &cell, 5, 1).unwrap();
    assert_eq!(after.outputs.len(), 4);
    assert_eq!(after.outputs[0], before.outputs[0]);
    assert_eq!(after.outputs[1].capacity, 5);
    assert_eq!(after.outputs[2], before.outputs[1]);
    assert_eq!(after.outputs[3], before.outputs[2]);
    assert_eq!(after.outputs_data, vec![vec![10], vec![99], vec![20], vec![30]]);
    assert_eq!(after.witnesses, vec![vec![11], vec![100], vec![21], vec![31]]);
    assert_eq!(after.inputs, before.inputs);

    let at_end = ct.set_output(after, always, None, &demo(1), 5, 4).unwrap();
    assert_eq!(at_end.outputs_data.last(), Some(&vec![1]));
    assert_eq!(at_end.witnesses.last(), Some(&vec![]));
    assert_eq!(
        ct.set_output(at_end, always, None, &demo(1), 5, 6),
        Err(FixtureError::IndexOutOfRange)
    );
}

#[test]
fn insert_needs_room_in_the_witnesses_too() {
    let tx = Fixture {
        cell_deps: vec![],
        inputs: vec![],
        outputs: vec![plain_output(vec![1])],
        outputs_data: vec![vec![1]],
        witnesses: vec![],
    };
    assert_eq!(tx.clone().insert_at(1, plain_output(vec![2]), vec![2], vec![]), None);
    let after = tx.insert_at(0, plain_output(vec![2]), vec![2], vec![8]).unwrap();
    assert_eq!(after.outputs_data, vec![vec![2], vec![1]]);
    assert_eq!(after.witnesses, vec![vec![8]]);
}

fn witnessed(data: u8) -> Demo {
    let mut cell = demo(data);
    cell.witness = Some(data.wrapping_add(100));
    cell
}

#[test]
fn replaced_output_is_read_back() {
    let mut ct = util();
    let always = ct.alway_contract;
    let mut tx = Fixture::new();
    tx = ct.add_input(tx, always, None, &witnessed(5), 1).unwrap();
    tx = ct.add_outpoint(tx, always, None, &witnessed(5), 1).unwrap();
    tx = ct.add_outpoint(tx, always, None, &witnessed(5), 1).unwrap();
    tx = ct.replace_output(tx, always, None, &witnessed(1), 1, 0).unwrap();
    let first: Demo = ct.get_cell_by_index(tx.clone(), 0).unwrap();
    assert_eq!(first.data, 1);
    assert_eq!(first.lock_arg, 3);
    assert_eq!(first.type_arg, None);
    assert_eq!(first.witness, Some(101));
    assert_eq!(first.struct_flag, MoleculeStructFlag::default());
    let second: Demo = ct.get_cell_by_index(tx.clone(), 1).unwrap();
    assert_eq!(second.data, 5);
    assert_eq!(second.witness, Some(105));
    assert_eq!(tx.outputs_data, vec![vec![1], vec![5]]);
    assert_eq!(tx.witnesses, vec![vec![101], vec![105]]);
    assert_eq!(tx.inputs.len(), 1);
}

#[test]
fn empty_witness_is_no_encoding_of_a_byte() {
    let mut ct = util();
    let always = ct.alway_contract;
    let tx = ct.add_outpoint(Fixture::new(), always, None, &demo(5), 1).unwrap();
    assert_eq!(tx.witnesses, vec![Vec::<u8>::new()]);
    assert!(matches!(ct.get_cell_by_index::<Demo>(tx, 0), Err(FixtureError::Malformed)));
}

#[test]
fn replace_at_the_output_count_is_out_of_range() {
    let mut ct = util();
    let always = ct.alway_contract;
    let mut tx = Fixture::new();
    tx = ct.add_outpoint(tx, always, None, &demo(5), 1).unwrap();
    tx = ct.add_outpoint(tx, always, None, &demo(5), 1).unwrap();
    assert_eq!(
        ct.replace_output(tx.clone(), always, None, &demo(1), 1, 2),
        Err(FixtureError::IndexOutOfRange)
    );
    assert_eq!(tx.clone().replace_at(2, plain_output(vec![]), vec![], vec![]), None);
    assert_eq!(tx.outputs.len(), 2);
    assert_eq!(
        ct.replace_output(Fixture::new(), always, None, &demo(1), 1, 0),
        Err(FixtureError::IndexOutOfRange)
    );
}

#[test]
fn get_cell_by_index_out_of_range() {
    let mut ct = util();
    let always = ct.alway_contract;
    let tx = ct.add_outpoint(Fixture::new(), always, None, &demo(5), 1).unwrap();
    assert!(matches!(
        ct.get_cell_by_index::<Demo>(tx, 1),
        Err(FixtureError::IndexOutOfRange)
    ));
    assert!(matches!(
        ct.get_cell_by_index::<Demo>(Fixture::new(), 0),
        Err(FixtureError::IndexOutOfRange)
    ));
}

#[test]
fn get_cell_by_index_rejects_another_shape() {
    let mut ct = util();
    let always = ct.alway_contract;
    let cell = XUDTDataCell::new([1; 32], XUDTData { amount: 5 });
    let tx = ct.add_outpoint(Fixture::new(), always, Some(always), &cell, 1).unwrap();
    assert!(matches!(ct.get_cell_by_index::<Demo>(tx, 0), Err(FixtureError::Malformed)));
}

#[test]
fn get_cell_by_index_without_a_witness() {
    let ct = util();
    let tx = Fixture {
        cell_deps: vec![],
        inputs: vec![],
        outputs: vec![plain_output(vec![4])],
        outputs_data: vec![vec![6]],
        witnesses: vec![],
    };
    let cell: Demo = ct.get_cell_by_index(tx, 0).unwrap();
    assert_eq!(cell.lock_arg, 4);
    assert_eq!(cell.data, 6);
    assert_eq!(cell.witness, None);
}

#[test]
fn add_contract_cell_dep_appends_a_code_dependency() {
    let mut ct = util();
    let auth = ct.deploy_contract(vec![1, 2, 3, 4]);
    let always = ct.alway_contract;
    let tx = ct.add_outpoint(Fixture::new(), always, None, &demo(5), 1).unwrap();
    let tx = ct.add_contract_cell_dep(tx, &auth);
    let tx = ct.add_contract_cell_dep(tx, &always);
    assert_eq!(
        tx.cell_deps,
        vec![
            CellDep { out_point: auth, dep_type: 0 },
            CellDep { out_point: always, dep_type: 0 },
        ]
    );
    assert_eq!(tx.outputs.len(), 1);
}

#[test]
fn deploying_the_same_contract_twice_gives_one_out_point() {
    let mut ct = util();
    let first = ct.deploy_contract(vec![1, 2, 3, 4]);
    let second = ct.deploy_contract(vec![1, 2, 3, 4]);
    assert_eq!(first, second);
    assert_ne!(first, ct.alway_contract);
}

#[test]
fn deployed_contract_is_held_with_its_data() {
    let mut ct = util();
    let before = ct.context.cells.len();
    let contract = ct.deploy_contract(vec![1, 2, 3, 4]);
    assert_eq!(ct.context.cells.len(), before + 1);
    let (cell, data) = ct.context.get_cell(&packed_out_point(&contract)).unwrap();
    assert_eq!(data.to_vec(), vec![1, 2, 3, 4]);
    assert!(cell.type_().is_some());
    ct.deploy_contract(vec![1, 2, 3, 4]);
    assert_eq!(ct.context.cells.len(), before + 1);
}

#[test]
fn deploying_known_data_returns_the_out_point_noted_for_it() {
    let mut ct = util();
    let always = ct.alway_contract;
    let input = ct.create_cell_input_by_cell(always, None, &demo(5), 10).unwrap();
    let before = ct.context.cells.len();
    let contract = ct.deploy_contract(vec![5]);
    assert_eq!(contract, input.previous_output);
    assert_eq!(ct.context.cells.len(), before);
    // The cell noted for the data was created without a type script.
    assert_eq!(
        ct.get_celloutput_builder(&contract, &None, &demo(1), 1),
        Err(FixtureError::UnknownContract)
    );
    // The out point of the cell created last is the one noted.
    let later = ct.create_cell_input_by_cell(always, None, &demo(5), 10).unwrap();
    assert_ne!(later.previous_output, input.previous_output);
    assert_eq!(ct.deploy_contract(vec![5]), later.previous_output);
}

#[test]
fn deploying_new_data_stores_it_under_a_new_out_point() {
    let mut ct = util();
    let always = ct.alway_contract;
    let before = ct.context.cells.len();
    let contract = ct.deploy_contract(vec![8, 8]);
    assert_ne!(contract, always);
    assert_eq!(ct.context.cells.len(), before + 1);
    assert_eq!(ct.context.cells_by_data_hash.len(), before + 1);
    let output = ct.get_celloutput_builder(&contract, &None, &demo(1), 1).unwrap();
    assert_eq!(output.lock.hash_type, 1);
}

#[test]
fn push_input_appends() {
    let input = CellInput { since: 3, previous_output: unknown() };
    let tx = Fixture::new().push_input(input).push_cell_dep(CellDep {
        out_point: unknown(),
        dep_type: 1,
    });
    assert_eq!(tx.inputs, vec![input]);
    assert_eq!(tx.cell_deps.len(), 1);
    let tx = tx.push_output(plain_output(vec![1]), vec![2], vec![3]);
    assert_eq!(tx.outputs, vec![plain_output(vec![1])]);
    assert_eq!(tx.outputs_data, vec![vec![2]]);
    assert_eq!(tx.witnesses, vec![vec![3]]);
}
