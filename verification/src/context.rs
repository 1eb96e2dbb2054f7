use vstd::prelude::*;
use ckb_testtool::ckb_types::bytes::Bytes;
use ckb_testtool::ckb_types::packed;
use ckb_testtool::ckb_types::prelude::{Builder, Entity, Unpack};
use ckb_testtool::context::Context;
use crate::fixture::{CellOutput, CellOutputView, CellScript, CellScriptView, OutPoint};

verus! {

/// The verification context of `ckb_testtool`. What it holds is spoken of through
/// `context_cells` alone.
#[verifier::external_type_specification]
#[verifier::external_body]
pub struct ExContext(ckb_testtool::context::Context);

/// The cells that a context holds (`Context::cells`): under each out point an output
/// and its data.
pub uninterp spec fn context_cells(context: Context) -> Map<OutPoint, (CellOutputView, Seq<u8>)>;

/// The out point that a context has noted for the data of each hash
/// (`Context::cells_by_data_hash`): that of the cell that was last deployed or created
/// with such data.
pub uninterp spec fn context_data_index(context: Context) -> Map<[u8; 32], OutPoint>;

/// The hash by which the chain knows data (`CellOutput::calc_data_hash`).
pub uninterp spec fn data_hash(data: Seq<u8>) -> [u8; 32];

/// The hash by which the chain knows a script (`Script::calc_script_hash`), which
/// depends on the code hash, the hash type and the arguments alone.
pub uninterp spec fn script_hash(script: CellScriptView) -> [u8; 32];

/// Whether a cell with a type script is held under the out point.
pub open spec fn has_contract(
    cells: Map<OutPoint, (CellOutputView, Seq<u8>)>,
    out_point: OutPoint,
) -> bool {
    cells.dom().contains(out_point) && cells[out_point].0.type_ is Some
}

/// What deploying data of the hash `hash` does to a context and returns. Where an out
/// point is noted for the hash, that out point is returned and nothing changes. Else
/// the data is stored under the out point returned, in a cell that has a type script,
/// and the out point is noted for the hash.
pub open spec fn deployed(
    cells_before: Map<OutPoint, (CellOutputView, Seq<u8>)>,
    index_before: Map<[u8; 32], OutPoint>,
    cells_after: Map<OutPoint, (CellOutputView, Seq<u8>)>,
    index_after: Map<[u8; 32], OutPoint>,
    hash: [u8; 32],
    data: Seq<u8>,
    out_point: OutPoint,
) -> bool {
    if index_before.dom().contains(hash) {
        &&& out_point == index_before[hash]
        &&& cells_after == cells_before
        &&& index_after == index_before
    } else {
        &&& index_after == index_before.insert(hash, out_point)
        &&& exists|output: CellOutputView|
            output.type_ is Some && cells_after == cells_before.insert(out_point, (output, data))
    }
}

/// Calls `Context::deploy_cell`. Where an out point is noted for the hash of the
/// data, because a cell was deployed or created with such data before, it changes
/// nothing and returns that out point. Else it draws an out point at random, stores
/// the data under it in a cell that has a type script, notes the out point for the
/// hash of the data, and returns it. The data must be of a size whose capacity can be
/// counted.
#[verifier::external_body]
pub(crate) fn deploy_cell(context: &mut Context, data: Vec<u8>) -> (out_point: OutPoint)
    requires
        data@.len() <= u32::MAX,
    ensures
        deployed(
            context_cells(*old(context)),
            context_data_index(*old(context)),
            context_cells(*final(context)),
            context_data_index(*final(context)),
            data_hash(data@),
            data@,
            out_point,
        ),
{
    let deployed = context.deploy_cell(Bytes::from(data));
    OutPoint { tx_hash: deployed.tx_hash().unpack(), index: deployed.index().unpack() }
}

/// Calls `Context::get_cell` and tells whether a cell is held under the out point
/// and has a type script.
#[verifier::external_body]
pub(crate) fn has_type_script(context: &Context, out_point: &OutPoint) -> (known: bool)
    ensures
        known == has_contract(context_cells(*context), *out_point),
{
    let place = packed::OutPoint::new(packed::Byte32::from(&out_point.tx_hash), out_point.index);
    match context.get_cell(&place) {
        Some((cell, _)) => cell.type_().is_some(),
        None => false,
    }
}

/// Calls `Context::build_script`, which looks up the cell under the out point and
/// returns a script whose code hash is the hash of that cell's type script, whose
/// hash type is "type" (1), and whose arguments are the ones given. It panics where
/// the cell has no type script and returns nothing where there is no cell, so the out
/// point must be one of a cell with a type script. The context is not changed.
#[verifier::external_body]
pub(crate) fn build_script(
    context: &mut Context,
    out_point: &OutPoint,
    args: Vec<u8>,
) -> (script: Option<CellScript>)
    requires
        has_contract(context_cells(*old(context)), *out_point),
    ensures
        context_cells(*final(context)) == context_cells(*old(context)),
        context_data_index(*final(context)) == context_data_index(*old(context)),
        script is Some,
        script.unwrap().code_hash == script_hash(
            context_cells(*old(context))[*out_point].0.type_.unwrap(),
        ),
        script.unwrap().hash_type == 1,
        script.unwrap().args@ == args@,
{
    let place = packed::OutPoint::new(packed::Byte32::from(&out_point.tx_hash), out_point.index);
    let built = context.build_script(&place, Bytes::from(args))?;
    Some(
        CellScript {
            code_hash: built.code_hash().unpack(),
            hash_type: built.hash_type().into(),
            args: built.args().unpack(),
        },
    )
}

/// Calls `Context::create_cell`, which stores the output with its data under an out
/// point drawn at random, whatever stood there, notes that out point for the hash of
/// the data, and returns it.
#[verifier::external_body]
pub(crate) fn create_cell(
    context: &mut Context,
    output: &CellOutput,
    data: Vec<u8>,
) -> (out_point: OutPoint)
    ensures
        context_cells(*final(context)) == context_cells(*old(context)).insert(
            out_point,
            (output@, data@),
        ),
        context_data_index(*final(context)) == context_data_index(*old(context)).insert(
            data_hash(data@),
            out_point,
        ),
{
    let pack = |s: &CellScript| packed::Script::new_builder()
        .code_hash(packed::Byte32::from(&s.code_hash))
        .hash_type(s.hash_type)
        .args(packed::Bytes::from(&s.args[..]))
        .build();
    let cell = packed::CellOutput::new_builder()
        .capacity(packed::Uint64::from(output.capacity))
        .lock(pack(&output.lock))
        .type_(packed::ScriptOpt::new_builder().set(output.type_.as_ref().map(pack)).build())
        .build();
    let created = context.create_cell(cell, Bytes::from(data));
    OutPoint { tx_hash: created.tx_hash().unpack(), index: created.index().unpack() }
}

} // verus!
