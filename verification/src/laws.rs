//! Properties of the reducer that hold for all inputs, stated and proved
//! once over the specification functions that the executable contracts use.

use vstd::prelude::*;

use crate::commands::CommandView;
use crate::model::{spec_find, AssetView, FatalError, OutputRefView, TxOutputView, TxView};
use crate::model::spec_policy_hex;
use crate::reducer::{
    spec_consumed, spec_handle, spec_handles, spec_run_block, spec_run_consumed,
    spec_run_produced, spec_run_tx, ReducerView,
};

verus! {

/// An asset whose issuing-policy identifier does not render to the tracked
/// hexadecimal form never yields a handle; in particular the base currency,
/// which has no issuing policy, never does.
pub proof fn lemma_foreign_policy_yields_no_handle(policy_id_hex: Seq<char>, asset: AssetView)
    requires
        spec_policy_hex(asset) != Some(policy_id_hex),
    ensures
        spec_handle(policy_id_hex, asset) is None,
{
}

/// An asset under the tracked policy whose raw name bytes are not valid
/// text yields no handle rather than an error.
pub proof fn lemma_invalid_name_yields_no_handle(
    policy_id_hex: Seq<char>,
    policy: Seq<u8>,
    name: Seq<u8>,
    quantity: u64,
)
    requires
        !vstd::utf8::valid_utf8(name),
    ensures
        spec_handle(policy_id_hex, AssetView::NativeAsset(policy, name, quantity)) is None,
{
}

/// A consumed reference that does not resolve is quiet under a tolerant
/// policy: it contributes no commands and no error.
pub proof fn lemma_tolerated_unresolved_is_quiet(
    r: ReducerView,
    ctx: Seq<(OutputRefView, TxOutputView)>,
    input: OutputRefView,
)
    requires
        spec_find(ctx, input) is None,
        r.policy.utxo_not_found is Skip,
    ensures
        spec_consumed(r, ctx, input) == Ok::<Seq<CommandView>, FatalError>(Seq::empty()),
{
}

/// A consumed reference that does not resolve under a non-tolerant policy
/// is fatal, and nothing is emitted for that reference.
pub proof fn lemma_unresolved_halts(
    r: ReducerView,
    ctx: Seq<(OutputRefView, TxOutputView)>,
    input: OutputRefView,
)
    requires
        spec_find(ctx, input) is None,
        r.policy.utxo_not_found is Halt,
    ensures
        spec_consumed(r, ctx, input) == Err::<Seq<CommandView>, FatalError>(
            FatalError::UnresolvedInput,
        ),
{
}

/// No asset of the list yields a handle under the tracked policy.
pub open spec fn spec_no_handles(policy_id_hex: Seq<char>, assets: Seq<AssetView>) -> bool {
    forall|i: int|
        0 <= i < assets.len() ==> spec_handle(policy_id_hex, #[trigger] assets[i]) is None
}

proof fn lemma_no_handles_collects_none(policy_id_hex: Seq<char>, assets: Seq<AssetView>)
    requires
        spec_no_handles(policy_id_hex, assets),
    ensures
        spec_handles(policy_id_hex, assets).len() == 0,
    decreases assets.len(),
{
    if assets.len() > 0 {
        assert forall|i: int|
            0 <= i < assets.drop_last().len() implies spec_handle(
            policy_id_hex,
            #[trigger] assets.drop_last()[i],
        ) is None by {
            assert(assets.drop_last()[i] == assets[i]);
        }
        lemma_no_handles_collects_none(policy_id_hex, assets.drop_last());
        assert(spec_handle(policy_id_hex, assets.last()) is None);
    }
}

/// A consumed reference is quiet when it resolves to an output none of
/// whose assets yields a handle, or does not resolve under a tolerant
/// policy.
pub open spec fn spec_quiet_ref(
    r: ReducerView,
    ctx: Seq<(OutputRefView, TxOutputView)>,
    input: OutputRefView,
) -> bool {
    match spec_find(ctx, input) {
        Some(txo) => spec_no_handles(r.config.policy_id_hex, txo.assets),
        None => r.policy.utxo_not_found is Skip,
    }
}

proof fn lemma_quiet_consumed_run(
    r: ReducerView,
    ctx: Seq<(OutputRefView, TxOutputView)>,
    inputs: Seq<OutputRefView>,
)
    requires
        forall|j: int| 0 <= j < inputs.len() ==> spec_quiet_ref(r, ctx, #[trigger] inputs[j]),
    ensures
        spec_run_consumed(r, ctx, inputs) == (
            Seq::<CommandView>::empty(),
            None::<FatalError>,
        ),
    decreases inputs.len(),
{
    if inputs.len() > 0 {
        assert forall|j: int|
            0 <= j < inputs.drop_last().len() implies spec_quiet_ref(
            r,
            ctx,
            #[trigger] inputs.drop_last()[j],
        ) by {
            assert(inputs.drop_last()[j] == inputs[j]);
        }
        lemma_quiet_consumed_run(r, ctx, inputs.drop_last());
        assert(spec_quiet_ref(r, ctx, inputs.last()));
        if spec_find(ctx, inputs.last()) is Some {
            lemma_no_handles_collects_none(
                r.config.policy_id_hex,
                spec_find(ctx, inputs.last()).unwrap().assets,
            );
        }
        assert(spec_consumed(r, ctx, inputs.last()) == Ok::<Seq<CommandView>, FatalError>(
            Seq::empty(),
        ));
        assert(Seq::<CommandView>::empty() + Seq::<CommandView>::empty() =~= Seq::<
            CommandView,
        >::empty());
    }
}

proof fn lemma_quiet_produced_run(r: ReducerView, outputs: Seq<TxOutputView>)
    requires
        forall|k: int|
            0 <= k < outputs.len() ==> spec_no_handles(
                r.config.policy_id_hex,
                (#[trigger] outputs[k]).assets,
            ),
    ensures
        spec_run_produced(r.config, outputs) == (
            Seq::<CommandView>::empty(),
            None::<FatalError>,
        ),
    decreases outputs.len(),
{
    if outputs.len() > 0 {
        assert forall|k: int|
            0 <= k < outputs.drop_last().len() implies spec_no_handles(
            r.config.policy_id_hex,
            (#[trigger] outputs.drop_last()[k]).assets,
        ) by {
            assert(outputs.drop_last()[k] == outputs[k]);
        }
        lemma_quiet_produced_run(r, outputs.drop_last());
        lemma_no_handles_collects_none(r.config.policy_id_hex, outputs.last().assets);
        assert(Seq::<CommandView>::empty() + Seq::<CommandView>::empty() =~= Seq::<
            CommandView,
        >::empty());
    }
}

/// A block none of whose transactions touches a tracked-policy handle —
/// every consumed reference either resolves to an output without handles or
/// is tolerably unresolved, and no produced output carries a handle —
/// reduces to no commands and no error, however many transactions it holds.
pub proof fn lemma_quiet_block(
    r: ReducerView,
    ctx: Seq<(OutputRefView, TxOutputView)>,
    txs: Seq<TxView>,
)
    requires
        forall|t: int, j: int|
            0 <= t < txs.len() && 0 <= j < txs[t].consumed.len() ==> spec_quiet_ref(
                r,
                ctx,
                #[trigger] txs[t].consumed[j],
            ),
        forall|t: int, k: int|
            0 <= t < txs.len() && 0 <= k < txs[t].produced.len() ==> spec_no_handles(
                r.config.policy_id_hex,
                (#[trigger] txs[t].produced[k]).assets,
            ),
    ensures
        spec_run_block(r, ctx, txs) == (Seq::<CommandView>::empty(), None::<FatalError>),
    decreases txs.len(),
{
    if txs.len() > 0 {
        assert forall|t: int, j: int|
            0 <= t < txs.drop_last().len() && 0 <= j < txs.drop_last()[t].consumed.len()
                implies spec_quiet_ref(r, ctx, #[trigger] txs.drop_last()[t].consumed[j]) by {
            assert(txs.drop_last()[t] == txs[t]);
        }
        assert forall|t: int, k: int|
            0 <= t < txs.drop_last().len() && 0 <= k < txs.drop_last()[t].produced.len()
                implies spec_no_handles(
            r.config.policy_id_hex,
            (#[trigger] txs.drop_last()[t].produced[k]).assets,
        ) by {
            assert(txs.drop_last()[t] == txs[t]);
        }
        lemma_quiet_block(r, ctx, txs.drop_last());
        let last = txs.last();
        assert(last == txs[txs.len() - 1]);
        assert forall|j: int|
            0 <= j < last.consumed.len() implies spec_quiet_ref(
            r,
            ctx,
            #[trigger] last.consumed[j],
        ) by {
            assert(txs[txs.len() - 1].consumed[j] == last.consumed[j]);
        }
        lemma_quiet_consumed_run(r, ctx, last.consumed);
        assert forall|k: int|
            0 <= k < last.produced.len() implies spec_no_handles(
            r.config.policy_id_hex,
            (#[trigger] last.produced[k]).assets,
        ) by {
            assert(txs[txs.len() - 1].produced[k] == last.produced[k]);
        }
        lemma_quiet_produced_run(r, last.produced);
        assert(spec_run_tx(r, ctx, last) == (
            Seq::<CommandView>::empty() + Seq::<CommandView>::empty(),
            None::<FatalError>,
        ));
        assert(Seq::<CommandView>::empty() + Seq::<CommandView>::empty() =~= Seq::<
            CommandView,
        >::empty());
        assert(Seq::<CommandView>::empty() + (Seq::<CommandView>::empty() + Seq::<
            CommandView,
        >::empty()) =~= Seq::<CommandView>::empty());
    }
}

} // verus!
