use vstd::prelude::*;
use crate::molecule::layout::views;

verus! {

/// Why a transaction could not be built or read.
#[derive(Clone, Copy, Debug, PartialEq, Eq, Structural)]
pub enum FixtureError {
    /// No output, data or place for a witness stands at the index.
    IndexOutOfRange,
    /// No cell with a type script is known under the out point of a contract.
    UnknownContract,
    /// A type contract was given for a cell that has no type argument.
    MissingTypeArg,
    /// The bytes of a cell are not the encoding of any record of the expected shape.
    Malformed,
}

/// A reference to an output of an earlier transaction.
#[derive(Clone, Copy, Debug, PartialEq, Eq)]
pub struct OutPoint {
    pub tx_hash: [u8; 32],
    pub index: u32,
}

/// A script: the hash that finds its code, how that hash is meant, and its arguments.
#[derive(Clone, Debug, PartialEq, Eq)]
pub struct CellScript {
    pub code_hash: [u8; 32],
    pub hash_type: u8,
    pub args: Vec<u8>,
}

/// A script with its arguments as a byte string.
pub struct CellScriptView {
    pub code_hash: [u8; 32],
    pub hash_type: u8,
    pub args: Seq<u8>,
}

impl View for CellScript {
    type V = CellScriptView;

    open spec fn view(&self) -> CellScriptView {
        CellScriptView { code_hash: self.code_hash, hash_type: self.hash_type, args: self.args@ }
    }
}

/// An output: its capacity, its lock script and, if it has one, its type script.
#[derive(Clone, Debug, PartialEq, Eq)]
pub struct CellOutput {
    pub capacity: u64,
    pub lock: CellScript,
    pub type_: Option<CellScript>,
}

/// An output with its scripts as views.
pub struct CellOutputView {
    pub capacity: u64,
    pub lock: CellScriptView,
    pub type_: Option<CellScriptView>,
}

impl View for CellOutput {
    type V = CellOutputView;

    open spec fn view(&self) -> CellOutputView {
        CellOutputView {
            capacity: self.capacity,
            lock: self.lock@,
            type_: match self.type_ {
                Some(script) => Some(script@),
                None => None,
            },
        }
    }
}

/// An input: the cell it spends, and the relative time before which it cannot.
#[derive(Clone, Copy, Debug, PartialEq, Eq)]
pub struct CellInput {
    pub since: u64,
    pub previous_output: OutPoint,
}

/// A cell that the scripts of a transaction may read.
#[derive(Clone, Copy, Debug, PartialEq, Eq)]
pub struct CellDep {
    pub out_point: OutPoint,
    pub dep_type: u8,
}

/// A transaction under construction: dependencies, inputs, and outputs with the data
/// and the witness that belong to each.
#[derive(Clone, Debug, PartialEq, Eq)]
pub struct Fixture {
    pub cell_deps: Vec<CellDep>,
    pub inputs: Vec<CellInput>,
    pub outputs: Vec<CellOutput>,
    pub outputs_data: Vec<Vec<u8>>,
    pub witnesses: Vec<Vec<u8>>,
}

/// A transaction as five sequences of plain values.
pub struct FixtureView {
    pub cell_deps: Seq<CellDep>,
    pub inputs: Seq<CellInput>,
    pub outputs: Seq<CellOutputView>,
    pub outputs_data: Seq<Seq<u8>>,
    pub witnesses: Seq<Seq<u8>>,
}

/// The views of a list of outputs.
pub open spec fn output_views(outputs: Seq<CellOutput>) -> Seq<CellOutputView> {
    Seq::new(outputs.len(), |i: int| outputs[i]@)
}

impl View for Fixture {
    type V = FixtureView;

    open spec fn view(&self) -> FixtureView {
        FixtureView {
            cell_deps: self.cell_deps@,
            inputs: self.inputs@,
            outputs: output_views(self.outputs@),
            outputs_data: views(self.outputs_data@),
            witnesses: views(self.witnesses@),
        }
    }
}

impl FixtureView {
    /// The transaction without anything in it.
    pub open spec fn empty() -> FixtureView {
        FixtureView {
            cell_deps: Seq::empty(),
            inputs: Seq::empty(),
            outputs: Seq::empty(),
            outputs_data: Seq::empty(),
            witnesses: Seq::empty(),
        }
    }

    /// Whether every output has its data: the two sequences are equally long.
    pub open spec fn aligned(self) -> bool {
        self.outputs.len() == self.outputs_data.len()
    }

    /// The transaction with one more dependency at the end.
    pub open spec fn with_cell_dep(self, dep: CellDep) -> FixtureView {
        FixtureView { cell_deps: self.cell_deps.push(dep), ..self }
    }

    /// The transaction with one more input at the end.
    pub open spec fn with_input(self, input: CellInput) -> FixtureView {
        FixtureView { inputs: self.inputs.push(input), ..self }
    }

    /// The transaction with one more output at the end, together with its data and
    /// its witness.
    pub open spec fn with_output(
        self,
        output: CellOutputView,
        data: Seq<u8>,
        witness: Seq<u8>,
    ) -> FixtureView {
        FixtureView {
            outputs: self.outputs.push(output),
            outputs_data: self.outputs_data.push(data),
            witnesses: self.witnesses.push(witness),
            ..self
        }
    }

    /// Whether an output and its data stand at `index`, so that they can be replaced.
    pub open spec fn can_replace(self, index: int) -> bool {
        0 <= index < self.outputs.len() && index < self.outputs_data.len()
    }

    /// The transaction with the output and the data at `index` replaced. The witness
    /// at `index` is replaced too if there is one; else the new witness is appended.
    pub open spec fn replaced(
        self,
        index: int,
        output: CellOutputView,
        data: Seq<u8>,
        witness: Seq<u8>,
    ) -> FixtureView
        recommends
            self.can_replace(index),
    {
        FixtureView {
            outputs: self.outputs.update(index, output),
            outputs_data: self.outputs_data.update(index, data),
            witnesses: if index < self.witnesses.len() {
                self.witnesses.update(index, witness)
            } else {
                self.witnesses.push(witness)
            },
            ..self
        }
    }

    /// Whether an output, its data and its witness can be put in at `index`: none of
    /// the three sequences is shorter than that.
    pub open spec fn can_insert(self, index: int) -> bool {
        &&& 0 <= index <= self.outputs.len()
        &&& index <= self.outputs_data.len()
        &&& index <= self.witnesses.len()
    }

    /// The transaction with an output, its data and its witness put in at `index`,
    /// in front of what stood there.
    pub open spec fn inserted(
        self,
        index: int,
        output: CellOutputView,
        data: Seq<u8>,
        witness: Seq<u8>,
    ) -> FixtureView
        recommends
            self.can_insert(index),
    {
        FixtureView {
            outputs: self.outputs.insert(index, output),
            outputs_data: self.outputs_data.insert(index, data),
            witnesses: self.witnesses.insert(index, witness),
            ..self
        }
    }
}

/// Appending, replacing and inserting an output all keep every output with its data.
pub proof fn lemma_alignment_kept(
    tx: FixtureView,
    index: int,
    output: CellOutputView,
    data: Seq<u8>,
    witness: Seq<u8>,
)
    requires
        tx.aligned(),
    ensures
        FixtureView::empty().aligned(),
        tx.with_output(output, data, witness).aligned(),
        tx.can_replace(index) ==> tx.replaced(index, output, data, witness).aligned(),
        tx.can_insert(index) ==> tx.inserted(index, output, data, witness).aligned(),
{
}

/// Replacing an output a second time with the same values changes nothing more,
/// provided that the index is not beyond the end of the witnesses.
pub proof fn lemma_replace_idempotent(
    tx: FixtureView,
    index: int,
    output: CellOutputView,
    data: Seq<u8>,
    witness: Seq<u8>,
)
    requires
        tx.can_replace(index),
        index <= tx.witnesses.len(),
    ensures
        tx.replaced(index, output, data, witness).can_replace(index),
        tx.replaced(index, output, data, witness).replaced(index, output, data, witness)
            == tx.replaced(index, output, data, witness),
{
    let once = tx.replaced(index, output, data, witness);
    let twice = once.replaced(index, output, data, witness);
    assert(twice.outputs =~= once.outputs);
    assert(twice.outputs_data =~= once.outputs_data);
    assert(twice.witnesses =~= once.witnesses);
}

/// Inserting at `index` leaves what stood before `index` where it was, puts the new
/// output, data and witness at `index`, and moves what stood at or after `index` one
/// place to the right.
pub proof fn lemma_insert_ordering(
    tx: FixtureView,
    index: int,
    output: CellOutputView,
    data: Seq<u8>,
    witness: Seq<u8>,
)
    requires
        tx.can_insert(index),
    ensures
        ({
            let after = tx.inserted(index, output, data, witness);
            &&& after.outputs.len() == tx.outputs.len() + 1
            &&& after.outputs_data.len() == tx.outputs_data.len() + 1
            &&& after.witnesses.len() == tx.witnesses.len() + 1
            &&& after.outputs[index] == output
            &&& after.outputs_data[index] == data
            &&& after.witnesses[index] == witness
            &&& forall|j: int| 0 <= j < index ==> #[trigger] after.outputs[j] == tx.outputs[j]
            &&& forall|j: int|
                0 <= j < index ==> #[trigger] after.outputs_data[j] == tx.outputs_data[j]
            &&& forall|j: int| 0 <= j < index ==> #[trigger] after.witnesses[j] == tx.witnesses[j]
            &&& forall|j: int|
                index <= j < tx.outputs.len() ==> after.outputs[j + 1] == #[trigger] tx.outputs[j]
            &&& forall|j: int|
                index <= j < tx.outputs_data.len() ==> after.outputs_data[j + 1]
                    == #[trigger] tx.outputs_data[j]
            &&& forall|j: int|
                index <= j < tx.witnesses.len() ==> after.witnesses[j + 1]
                    == #[trigger] tx.witnesses[j]
            &&& after.inputs == tx.inputs
            &&& after.cell_deps == tx.cell_deps
        }),
{
}

impl Fixture {
    /// The transaction without anything in it.
    pub fn new() -> (tx: Fixture)
        ensures
            tx@ == FixtureView::empty(),
    {
        let tx = Fixture {
            cell_deps: Vec::new(),
            inputs: Vec::new(),
            outputs: Vec::new(),
            outputs_data: Vec::new(),
            witnesses: Vec::new(),
        };
        assert(tx@.outputs =~= Seq::empty());
        assert(tx@.outputs_data =~= Seq::empty());
        assert(tx@.witnesses =~= Seq::empty());
        tx
    }

    /// Appends a dependency.
    pub fn push_cell_dep(self, dep: CellDep) -> (tx: Fixture)
        ensures
            tx@ == self@.with_cell_dep(dep),
    {
        let mut tx = self;
        tx.cell_deps.push(dep);
        tx
    }

    /// Appends an input.
    pub fn push_input(self, input: CellInput) -> (tx: Fixture)
        ensures
            tx@ == self@.with_input(input),
    {
        let mut tx = self;
        tx.inputs.push(input);
        tx
    }

    /// Appends an output with its data and its witness.
    pub fn push_output(self, output: CellOutput, data: Vec<u8>, witness: Vec<u8>) -> (tx: Fixture)
        ensures
            tx@ == self@.with_output(output@, data@, witness@),
    {
        let mut tx = self;
        tx.outputs.push(output);
        tx.outputs_data.push(data);
        tx.witnesses.push(witness);
        assert(tx@.outputs =~= self@.outputs.push(output@));
        assert(tx@.outputs_data =~= self@.outputs_data.push(data@));
        assert(tx@.witnesses =~= self@.witnesses.push(witness@));
        tx
    }

    /// Replaces the output and the data at `index`, and the witness there if there is
    /// one; else appends the witness. Nothing can be replaced where no output or no
    /// data stands.
    pub fn replace_at(self, index: usize, output: CellOutput, data: Vec<u8>, witness: Vec<u8>) -> (r:
        Option<Fixture>)
        ensures
            match r {
                Some(tx) => self@.can_replace(index as int) && tx@ == self@.replaced(
                    index as int,
                    output@,
                    data@,
                    witness@,
                ),
                None => !self@.can_replace(index as int),
            },
    {
        if index >= self.outputs.len() || index >= self.outputs_data.len() {
            return None;
        }
        let mut tx = self;
        tx.outputs.set(index, output);
        tx.outputs_data.set(index, data);
        if index < tx.witnesses.len() {
            tx.witnesses.set(index, witness);
            assert(tx@.witnesses =~= self@.witnesses.update(index as int, witness@));
        } else {
            tx.witnesses.push(witness);
            assert(tx@.witnesses =~= self@.witnesses.push(witness@));
        }
        assert(tx@.outputs =~= self@.outputs.update(index as int, output@));
        assert(tx@.outputs_data =~= self@.outputs_data.update(index as int, data@));
        Some(tx)
    }

    /// Puts an output, its data and its witness in at `index`, in front of what stood
    /// there. Nothing can be put in beyond the end of any of the three sequences.
    pub fn insert_at(self, index: usize, output: CellOutput, data: Vec<u8>, witness: Vec<u8>) -> (r:
        Option<Fixture>)
        ensures
            match r {
                Some(tx) => self@.can_insert(index as int) && tx@ == self@.inserted(
                    index as int,
                    output@,
                    data@,
                    witness@,
                ),
                None => !self@.can_insert(index as int),
            },
    {
        if index > self.outputs.len() || index > self.outputs_data.len() || index
            > self.witnesses.len() {
            return None;
        }
        let mut tx = self;
        tx.outputs.insert(index, output);
        tx.outputs_data.insert(index, data);
        tx.witnesses.insert(index, witness);
        assert(tx@.outputs =~= self@.outputs.insert(index as int, output@));
        assert(tx@.outputs_data =~= self@.outputs_data.insert(index as int, data@));
        assert(tx@.witnesses =~= self@.witnesses.insert(index as int, witness@));
        Some(tx)
    }
}

} // verus!
