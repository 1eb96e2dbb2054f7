use vstd::prelude::*;
use vstd::slice::slice_to_vec;
use ckb_testtool::context::Context;
use crate::cell_message::cell::{bytes_view, default_flag, Cell};
use crate::context::{
    build_script, context_cells, context_data_index, create_cell, data_hash, deploy_cell,
    deployed, has_contract, has_type_script, script_hash,
};
use crate::fixture::{
    CellDep, CellInput, CellOutput, CellOutputView, CellScriptView, Fixture, FixtureError,
    OutPoint,
};

verus! {

/// The script that a contract gives with the arguments: its code hash is the hash of
/// the contract cell's type script, and its hash type is "type".
pub open spec fn script_for(
    cells: Map<OutPoint, (CellOutputView, Seq<u8>)>,
    contract: OutPoint,
    args: Seq<u8>,
) -> CellScriptView {
    CellScriptView {
        code_hash: script_hash(cells[contract].0.type_.unwrap()),
        hash_type: 1,
        args,
    }
}

/// The output that is built for a cell: the lock script of the lock contract with the
/// cell's lock argument, the type script of the type contract, if one is given, with
/// the cell's type argument, and the capacity. It cannot be built where a contract is
/// not known, or where a type contract is given and the cell has no type argument.
pub open spec fn output_for(
    cells: Map<OutPoint, (CellOutputView, Seq<u8>)>,
    lock_contract: OutPoint,
    type_contract: Option<OutPoint>,
    lock_arg: Seq<u8>,
    type_arg: Option<Seq<u8>>,
    capacity: usize,
) -> Result<CellOutputView, FixtureError> {
    if !has_contract(cells, lock_contract) {
        Err(FixtureError::UnknownContract)
    } else {
        let lock = script_for(cells, lock_contract, lock_arg);
        match type_contract {
            None => Ok(CellOutputView { capacity: capacity as u64, lock, type_: None }),
            Some(contract) => match type_arg {
                None => Err(FixtureError::MissingTypeArg),
                Some(arg) => if !has_contract(cells, contract) {
                    Err(FixtureError::UnknownContract)
                } else {
                    Ok(
                        CellOutputView {
                            capacity: capacity as u64,
                            lock,
                            type_: Some(script_for(cells, contract, arg)),
                        },
                    )
                },
            },
        }
    }
}

/// The output that is built for the cell `cell`.
pub open spec fn cell_output_for<C: Cell>(
    cells: Map<OutPoint, (CellOutputView, Seq<u8>)>,
    lock_contract: OutPoint,
    type_contract: Option<OutPoint>,
    cell: C,
    capacity: usize,
) -> Result<CellOutputView, FixtureError> {
    output_for(
        cells,
        lock_contract,
        type_contract,
        cell.lock_arg_bytes(),
        cell.type_arg_bytes(),
        capacity,
    )
}

/// The witness that goes into a transaction for a cell: the cell's own, or no bytes.
pub open spec fn witness_or_empty(witness: Option<Seq<u8>>) -> Seq<u8> {
    match witness {
        Some(bytes) => bytes,
        None => Seq::empty(),
    }
}

/// The witness at `index`, if there is one.
pub open spec fn witness_at(witnesses: Seq<Seq<u8>>, index: int) -> Option<Seq<u8>> {
    if 0 <= index < witnesses.len() {
        Some(witnesses[index])
    } else {
        None
    }
}

/// The arguments of a script, if there is one.
pub open spec fn script_args(script: Option<CellScriptView>) -> Option<Seq<u8>> {
    match script {
        Some(s) => Some(s.args),
        None => None,
    }
}

/// The cells of a context after output `k` was stored with its data under
/// `points[k]`, for each `k` below the length of `points`, in this order.
pub open spec fn registered(
    cells: Map<OutPoint, (CellOutputView, Seq<u8>)>,
    points: Seq<OutPoint>,
    outputs: Seq<CellOutputView>,
    outputs_data: Seq<Seq<u8>>,
) -> Map<OutPoint, (CellOutputView, Seq<u8>)>
    decreases points.len(),
{
    if points.len() == 0 {
        cells
    } else {
        let k = points.len() - 1;
        registered(cells, points.drop_last(), outputs, outputs_data).insert(
            points[k],
            (outputs[k], outputs_data[k]),
        )
    }
}

/// The out points noted for the hashes of data after `points[k]` was noted for the
/// hash of `outputs_data[k]`, for each `k` below the length of `points`, in this
/// order.
pub open spec fn noted(
    index: Map<[u8; 32], OutPoint>,
    points: Seq<OutPoint>,
    outputs_data: Seq<Seq<u8>>,
) -> Map<[u8; 32], OutPoint>
    decreases points.len(),
{
    if points.len() == 0 {
        index
    } else {
        let k = points.len() - 1;
        noted(index, points.drop_last(), outputs_data).insert(
            data_hash(outputs_data[k]),
            points[k],
        )
    }
}

/// Builds transactions out of cell records, against a verification context in which
/// the contracts are deployed.
pub struct ContractUtil {
    pub context: Context,
    pub alway_contract: OutPoint,
}

impl ContractUtil {
    /// Deploys the contract that always succeeds in the context and keeps its out
    /// point: see `deployed`.
    pub fn new(context: Context, always_success: Vec<u8>) -> (util: Self)
        requires
            always_success@.len() <= u32::MAX,
        ensures
            deployed(
                context_cells(context),
                context_data_index(context),
                context_cells(util.context),
                context_data_index(util.context),
                data_hash(always_success@),
                always_success@,
                util.alway_contract,
            ),
    {
        let mut context = context;
        let out_point = deploy_cell(&mut context, always_success);
        ContractUtil { context, alway_contract: out_point }
    }

    /// Deploys a contract and returns its out point. Where the context has noted an
    /// out point for data of the same hash, that out point is returned and the context
    /// is not changed. Else the binary is stored under the out point returned, which
    /// the context chooses, in a cell that has a type script, and the out point is
    /// noted for the hash of the binary.
    pub fn deploy_contract(&mut self, binary: Vec<u8>) -> (out_point: OutPoint)
        requires
            binary@.len() <= u32::MAX,
        ensures
            final(self).alway_contract == old(self).alway_contract,
            deployed(
                context_cells(old(self).context),
                context_data_index(old(self).context),
                context_cells(final(self).context),
                context_data_index(final(self).context),
                data_hash(binary@),
                binary@,
                out_point,
            ),
    {
        deploy_cell(&mut self.context, binary)
    }

    /// Builds the output for a cell: see `output_for`. The context keeps its cells.
    pub fn get_celloutput_builder<C: Cell>(
        &mut self,
        lock_contract: &OutPoint,
        type_contract: &Option<OutPoint>,
        cell_tx: &C,
        redundant_cap: usize,
    ) -> (r: Result<CellOutput, FixtureError>)
        requires
            cell_tx.encodable(),
        ensures
            final(self).alway_contract == old(self).alway_contract,
            context_cells(final(self).context) == context_cells(old(self).context),
            context_data_index(final(self).context) == context_data_index(old(self).context),
            match r {
                Ok(output) => Ok::<CellOutputView, FixtureError>(output@) == cell_output_for(
                    context_cells(old(self).context),
                    *lock_contract,
                    *type_contract,
                    *cell_tx,
                    redundant_cap,
                ),
                Err(e) => Err::<CellOutputView, FixtureError>(e) == cell_output_for(
                    context_cells(old(self).context),
                    *lock_contract,
                    *type_contract,
                    *cell_tx,
                    redundant_cap,
                ),
            },
    {
        if !has_type_script(&self.context, lock_contract) {
            return Err(FixtureError::UnknownContract);
        }
        let lock = match build_script(&mut self.context, lock_contract, cell_tx.get_lock_arg()) {
            Some(script) => script,
            None => {
                return Err(FixtureError::UnknownContract);
            },
        };
        let type_ = match type_contract {
            None => None,
            Some(contract) => {
                let arg = match cell_tx.get_type_arg() {
                    Some(arg) => arg,
                    None => {
                        return Err(FixtureError::MissingTypeArg);
                    },
                };
                if !has_type_script(&self.context, contract) {
                    return Err(FixtureError::UnknownContract);
                }
                match build_script(&mut self.context, contract, arg) {
                    Some(script) => Some(script),
                    None => {
                        return Err(FixtureError::UnknownContract);
                    },
                }
            },
        };
        Ok(CellOutput { capacity: redundant_cap as u64, lock, type_ })
    }

    /// Creates a cell in the context for the cell record, with the output built for
    /// it and its data, and returns an input that spends it, without a relative time.
    /// The context chooses the out point of the new cell.
    pub fn create_cell_input_by_cell<C: Cell>(
        &mut self,
        lock_contract: OutPoint,
        type_contract: Option<OutPoint>,
        cell_tx: &C,
        redundant_cap: usize,
    ) -> (r: Result<CellInput, FixtureError>)
        requires
            cell_tx.encodable(),
        ensures
            final(self).alway_contract == old(self).alway_contract,
            match cell_output_for(
                context_cells(old(self).context),
                lock_contract,
                type_contract,
                *cell_tx,
                redundant_cap,
            ) {
                Ok(output) => {
                    &&& r is Ok
                    &&& r->Ok_0.since == 0
                    &&& context_cells(final(self).context) == context_cells(
                        old(self).context,
                    ).insert(r->Ok_0.previous_output, (output, cell_tx.data_bytes()))
                    &&& context_data_index(final(self).context) == context_data_index(
                        old(self).context,
                    ).insert(data_hash(cell_tx.data_bytes()), r->Ok_0.previous_output)
                },
                Err(e) => {
                    &&& r == Err::<CellInput, FixtureError>(e)
                    &&& context_cells(final(self).context) == context_cells(old(self).context)
                    &&& context_data_index(final(self).context) == context_data_index(
                        old(self).context,
                    )
                },
            },
    {
        let output = match self.get_celloutput_builder(
            &lock_contract,
            &type_contract,
            cell_tx,
            redundant_cap,
        ) {
            Ok(output) => output,
            Err(e) => {
                return Err(e);
            },
        };
        let out_point = create_cell(&mut self.context, &output, cell_tx.get_data());
        Ok(CellInput { since: 0, previous_output: out_point })
    }

    /// Creates a cell in the context for the cell record and appends an input that
    /// spends it, without a relative time.
    pub fn add_input<C: Cell>(
        &mut self,
        tx_builder: Fixture,
        lock_contract: OutPoint,
        type_contract: Option<OutPoint>,
        cell_tx: &C,
        redundant_cap: usize,
    ) -> (r: Result<Fixture, FixtureError>)
        requires
            cell_tx.encodable(),
        ensures
            final(self).alway_contract == old(self).alway_contract,
            match cell_output_for(
                context_cells(old(self).context),
                lock_contract,
                type_contract,
                *cell_tx,
                redundant_cap,
            ) {
                Ok(output) => r is Ok && exists|previous_output: OutPoint|
                    {
                        &&& r->Ok_0@ == tx_builder@.with_input(
                            CellInput { since: 0, previous_output },
                        )
                        &&& context_cells(final(self).context) == context_cells(
                            old(self).context,
                        ).insert(previous_output, (output, cell_tx.data_bytes()))
                        &&& context_data_index(final(self).context) == context_data_index(
                            old(self).context,
                        ).insert(data_hash(cell_tx.data_bytes()), previous_output)
                    },
                Err(e) => {
                    &&& r == Err::<Fixture, FixtureError>(e)
                    &&& context_cells(final(self).context) == context_cells(old(self).context)
                    &&& context_data_index(final(self).context) == context_data_index(
                        old(self).context,
                    )
                },
            },
    {
        self.add_input_with_since(
            tx_builder,
            lock_contract,
            type_contract,
            cell_tx,
            0,
            redundant_cap,
        )
    }

    /// Creates a cell in the context for the cell record, with the output built for
    /// it and its data, and appends an input that spends it, not before the relative
    /// time `since`. The context chooses the out point of the new cell.
    pub fn add_input_with_since<C: Cell>(
        &mut self,
        tx_builder: Fixture,
        lock_contract: OutPoint,
        type_contract: Option<OutPoint>,
        cell_tx: &C,
        since: u64,
        redundant_cap: usize,
    ) -> (r: Result<Fixture, FixtureError>)
        requires
            cell_tx.encodable(),
        ensures
            final(self).alway_contract == old(self).alway_contract,
            match cell_output_for(
                context_cells(old(self).context),
                lock_contract,
                type_contract,
                *cell_tx,
                redundant_cap,
            ) {
                Ok(output) => r is Ok && exists|previous_output: OutPoint|
                    {
                        &&& r->Ok_0@ == tx_builder@.with_input(
                            CellInput { since, previous_output },
                        )
                        &&& context_cells(final(self).context) == context_cells(
                            old(self).context,
                        ).insert(previous_output, (output, cell_tx.data_bytes()))
                        &&& context_data_index(final(self).context) == context_data_index(
                            old(self).context,
                        ).insert(data_hash(cell_tx.data_bytes()), previous_output)
                    },
                Err(e) => {
                    &&& r == Err::<Fixture, FixtureError>(e)
                    &&& context_cells(final(self).context) == context_cells(old(self).context)
                    &&& context_data_index(final(self).context) == context_data_index(
                        old(self).context,
                    )
                },
            },
    {
        let output = match self.get_celloutput_builder(
            &lock_contract,
            &type_contract,
            cell_tx,
            redundant_cap,
        ) {
            Ok(output) => output,
            Err(e) => {
                return Err(e);
            },
        };
        let out_point = create_cell(&mut self.context, &output, cell_tx.get_data());
        let input = CellInput { since, previous_output: out_point };
        let tx = tx_builder.push_input(input);
        assert(tx@ == tx_builder@.with_input(CellInput { since, previous_output: out_point }));
        Ok(tx)
    }

    /// Creates a cell in the context for each output of the transaction that has its
    /// data, one after the other. The context chooses their out points and notes each
    /// for the hash of the data.
    pub fn create_tx_cells(&mut self, tx_build: &Fixture)
        ensures
            final(self).alway_contract == old(self).alway_contract,
            exists|points: Seq<OutPoint>|
                {
                    &&& points.len() == if tx_build@.outputs.len() <= tx_build@.outputs_data.len() {
                        tx_build@.outputs.len()
                    } else {
                        tx_build@.outputs_data.len()
                    }
                    &&& context_cells(final(self).context) == registered(
                        context_cells(old(self).context),
                        points,
                        tx_build@.outputs,
                        tx_build@.outputs_data,
                    )
                    &&& context_data_index(final(self).context) == noted(
                        context_data_index(old(self).context),
                        points,
                        tx_build@.outputs_data,
                    )
                },
    {
        let ghost mut points: Seq<OutPoint> = Seq::empty();
        let mut i: usize = 0;
        while i < tx_build.outputs.len() && i < tx_build.outputs_data.len()
            invariant
                self.alway_contract == old(self).alway_contract,
                i <= tx_build.outputs.len(),
                i <= tx_build.outputs_data.len(),
                points.len() == i,
                context_cells(self.context) == registered(
                    context_cells(old(self).context),
                    points,
                    tx_build@.outputs,
                    tx_build@.outputs_data,
                ),
                context_data_index(self.context) == noted(
                    context_data_index(old(self).context),
                    points,
                    tx_build@.outputs_data,
                ),
            decreases tx_build.outputs.len() - i,
        {
            let data = slice_to_vec(tx_build.outputs_data[i].as_slice());
            let out_point = create_cell(&mut self.context, &tx_build.outputs[i], data);
            proof {
                assert(points.push(out_point).drop_last() =~= points);
                points = points.push(out_point);
            }
            i = i + 1;
        }
    }

    /// Appends an output for the cell record, with the cell's data and its witness;
    /// a cell without a witness gets a witness of no bytes.
    pub fn add_outpoint<C: Cell>(
        &mut self,
        tx_builder: Fixture,
        lock_contract: OutPoint,
        type_contract: Option<OutPoint>,
        cell_tx: &C,
        redundant_cap: usize,
    ) -> (r: Result<Fixture, FixtureError>)
        requires
            cell_tx.encodable(),
        ensures
            final(self).alway_contract == old(self).alway_contract,
            context_cells(final(self).context) == context_cells(old(self).context),
            context_data_index(final(self).context) == context_data_index(old(self).context),
            match cell_output_for(
                context_cells(old(self).context),
                lock_contract,
                type_contract,
                *cell_tx,
                redundant_cap,
            ) {
                Ok(output) => r is Ok && r->Ok_0@ == tx_builder@.with_output(
                    output,
                    cell_tx.data_bytes(),
                    witness_or_empty(cell_tx.witness_bytes()),
                ),
                Err(e) => r == Err::<Fixture, FixtureError>(e),
            },
    {
        let output = match self.get_celloutput_builder(
            &lock_contract,
            &type_contract,
            cell_tx,
            redundant_cap,
        ) {
            Ok(output) => output,
            Err(e) => {
                return Err(e);
            },
        };
        let witness = match cell_tx.get_witness() {
            None => Vec::new(),
            Some(witness) => witness,
        };
        Ok(tx_builder.push_output(output, cell_tx.get_data(), witness))
    }

    /// Replaces the output and the data at `replace_index` by those of the cell
    /// record, and the witness there by the cell's (by no bytes if it has none); where
    /// the witnesses end before that index, the witness is appended instead. Where no
    /// output or no data stands at the index, the index is out of range.
    pub fn replace_output<C: Cell>(
        &mut self,
        tx_builder: Fixture,
        lock_contract: OutPoint,
        type_contract: Option<OutPoint>,
        cell_tx: &C,
        redundant_cap: usize,
        replace_index: usize,
    ) -> (r: Result<Fixture, FixtureError>)
        requires
            cell_tx.encodable(),
        ensures
            final(self).alway_contract == old(self).alway_contract,
            context_cells(final(self).context) == context_cells(old(self).context),
            context_data_index(final(self).context) == context_data_index(old(self).context),
            match cell_output_for(
                context_cells(old(self).context),
                lock_contract,
                type_contract,
                *cell_tx,
                redundant_cap,
            ) {
                Ok(output) => if tx_builder@.can_replace(replace_index as int) {
                    r is Ok && r->Ok_0@ == tx_builder@.replaced(
                        replace_index as int,
                        output,
                        cell_tx.data_bytes(),
                        witness_or_empty(cell_tx.witness_bytes()),
                    )
                } else {
                    r == Err::<Fixture, FixtureError>(FixtureError::IndexOutOfRange)
                },
                Err(e) => r == Err::<Fixture, FixtureError>(e),
            },
    {
        let output = match self.get_celloutput_builder(
            &lock_contract,
            &type_contract,
            cell_tx,
            redundant_cap,
        ) {
            Ok(output) => output,
            Err(e) => {
                return Err(e);
            },
        };
        let witness = match cell_tx.get_witness() {
            None => Vec::new(),
            Some(witness) => witness,
        };
        match tx_builder.replace_at(replace_index, output, cell_tx.get_data(), witness) {
            Some(tx) => Ok(tx),
            None => Err(FixtureError::IndexOutOfRange),
        }
    }

    /// Puts an output for the cell record in at `set_index`, with the cell's data and
    /// its witness (no bytes if it has none), in front of what stood there. Where the
    /// outputs, the data or the witnesses end before that index, the index is out of
    /// range.
    pub fn set_output<C: Cell>(
        &mut self,
        tx_builder: Fixture,
        lock_contract: OutPoint,
        type_contract: Option<OutPoint>,
        cell_tx: &C,
        redundant_cap: usize,
        set_index: usize,
    ) -> (r: Result<Fixture, FixtureError>)
        requires
            cell_tx.encodable(),
        ensures
            final(self).alway_contract == old(self).alway_contract,
            context_cells(final(self).context) == context_cells(old(self).context),
            context_data_index(final(self).context) == context_data_index(old(self).context),
            match cell_output_for(
                context_cells(old(self).context),
                lock_contract,
                type_contract,
                *cell_tx,
                redundant_cap,
            ) {
                Ok(output) => if tx_builder@.can_insert(set_index as int) {
                    r is Ok && r->Ok_0@ == tx_builder@.inserted(
                        set_index as int,
                        output,
                        cell_tx.data_bytes(),
                        witness_or_empty(cell_tx.witness_bytes()),
                    )
                } else {
                    r == Err::<Fixture, FixtureError>(FixtureError::IndexOutOfRange)
                },
                Err(e) => r == Err::<Fixture, FixtureError>(e),
            },
    {
        let output = match self.get_celloutput_builder(
            &lock_contract,
            &type_contract,
            cell_tx,
            redundant_cap,
        ) {
            Ok(output) => output,
            Err(e) => {
                return Err(e);
            },
        };
        let witness = match cell_tx.get_witness() {
            None => Vec::new(),
            Some(witness) => witness,
        };
        match tx_builder.insert_at(set_index, output, cell_tx.get_data(), witness) {
            Some(tx) => Ok(tx),
            None => Err(FixtureError::IndexOutOfRange),
        }
    }

    /// Reads the cell record back from the output, the data and the witness at
    /// `index`: the record with the default flag whose lock argument, type argument,
    /// data and witness encode to the arguments of the lock script, those of the type
    /// script if there is one, the data, and the witness if there is one at the index.
    pub fn get_cell_by_index<T: Cell>(&self, tx_builder: Fixture, index: usize) -> (r: Result<
        T,
        FixtureError,
    >)
        ensures
            match r {
                Ok(cell) => {
                    &&& tx_builder@.can_replace(index as int)
                    &&& cell.encodable()
                    &&& cell.struct_flag() == default_flag()
                    &&& cell.lock_arg_bytes() == tx_builder@.outputs[index as int].lock.args
                    &&& cell.type_arg_bytes() == script_args(
                        tx_builder@.outputs[index as int].type_,
                    )
                    &&& cell.data_bytes() == tx_builder@.outputs_data[index as int]
                    &&& cell.witness_bytes() == witness_at(tx_builder@.witnesses, index as int)
                },
                Err(FixtureError::IndexOutOfRange) => !tx_builder@.can_replace(index as int),
                Err(FixtureError::Malformed) => {
                    &&& tx_builder@.can_replace(index as int)
                    &&& forall|cell: T|
                        cell.encodable() && cell.struct_flag() == default_flag() ==> !{
                            &&& #[trigger] cell.lock_arg_bytes()
                                == tx_builder@.outputs[index as int].lock.args
                            &&& cell.type_arg_bytes() == script_args(
                                tx_builder@.outputs[index as int].type_,
                            )
                            &&& cell.data_bytes() == tx_builder@.outputs_data[index as int]
                            &&& cell.witness_bytes() == witness_at(
                                tx_builder@.witnesses,
                                index as int,
                            )
                        }
                },
                Err(_) => false,
            },
    {
        if index >= tx_builder.outputs.len() || index >= tx_builder.outputs_data.len() {
            return Err(FixtureError::IndexOutOfRange);
        }
        let mut tx = tx_builder;
        let output = tx.outputs.remove(index);
        let data = tx.outputs_data.remove(index);
        let witness = if index < tx.witnesses.len() {
            Some(tx.witnesses.remove(index))
        } else {
            None
        };
        let type_args = match output.type_ {
            None => None,
            Some(script) => Some(script.args),
        };
        assert(bytes_view(type_args) == script_args(tx_builder@.outputs[index as int].type_));
        assert(bytes_view(witness) == witness_at(tx_builder@.witnesses, index as int));
        match T::from_arg(output.lock.args, type_args, data, witness) {
            Ok(cell) => Ok(cell),
            Err(_) => Err(FixtureError::Malformed),
        }
    }

    /// Appends a dependency on the contract's cell, as code.
    pub fn add_contract_cell_dep(&self, tx_builder: Fixture, contract: &OutPoint) -> (tx: Fixture)
        ensures
            tx@ == tx_builder@.with_cell_dep(CellDep { out_point: *contract, dep_type: 0 }),
    {
        tx_builder.push_cell_dep(CellDep { out_point: *contract, dep_type: 0 })
    }
}

} // verus!
