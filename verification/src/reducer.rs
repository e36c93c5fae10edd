//! The block-to-mutation reducer: classifies the assets of consumed and
//! produced outputs against the tracked issuing policy and emits the
//! mutation commands that keep the handle/address projection current.

use vstd::prelude::*;

use crate::addresses::{address_text, render_address};
use crate::commands::{spec_key, CRDTCommand, CommandView};
use crate::hex::hex_of;
use crate::model::{
    Asset, AssetView, Block, BlockContext, ErrorAction, FatalError, OutputRef, OutputRefView,
    RuntimePolicy, TxOutput, TxOutputView, TxView, spec_find,
};
use crate::text::utf8_to_string;

verus! {

/// Reducer configuration: the two optional key-space prefixes and the
/// tracked issuing-policy identifier in hexadecimal form.
pub struct Config {
    pub key_prefix_handle_to_address: Option<String>,
    pub key_prefix_address_to_handles: Option<String>,
    pub policy_id_hex: String,
}

/// Mathematical form of a [`Config`].
pub ghost struct ConfigView {
    pub key_prefix_handle_to_address: Option<Seq<char>>,
    pub key_prefix_address_to_handles: Option<Seq<char>>,
    pub policy_id_hex: Seq<char>,
}

impl DeepView for Config {
    type V = ConfigView;

    open spec fn deep_view(&self) -> ConfigView {
        ConfigView {
            key_prefix_handle_to_address: self.key_prefix_handle_to_address.deep_view(),
            key_prefix_address_to_handles: self.key_prefix_address_to_handles.deep_view(),
            policy_id_hex: self.policy_id_hex@,
        }
    }
}

/// One reducer instance: its configuration and its clone of the shared
/// runtime policy.
pub struct Reducer {
    pub config: Config,
    pub policy: RuntimePolicy,
}

/// Mathematical form of a [`Reducer`].
pub ghost struct ReducerView {
    pub config: ConfigView,
    pub policy: RuntimePolicy,
}

impl DeepView for Reducer {
    type V = ReducerView;

    open spec fn deep_view(&self) -> ReducerView {
        ReducerView { config: self.config.deep_view(), policy: self.policy }
    }
}

/// The handle decoded from one asset, if any: the asset must be a native
/// asset whose issuing-policy identifier renders to the tracked hexadecimal
/// form, and its raw name bytes must decode as text; any other asset yields
/// no handle.
pub open spec fn spec_handle(policy_id_hex: Seq<char>, asset: AssetView) -> Option<Seq<char>> {
    match asset {
        AssetView::NativeAsset(policy, name, _) => {
            if hex_of(policy) == policy_id_hex && vstd::utf8::valid_utf8(name) {
                Some(vstd::utf8::decode_utf8(name))
            } else {
                None
            }
        },
        AssetView::Ada(_) => None,
    }
}

/// The handles found on a list of assets, one per matching occurrence, in
/// asset order; duplicates are kept.
pub open spec fn spec_handles(policy_id_hex: Seq<char>, assets: Seq<AssetView>) -> Seq<Seq<char>>
    decreases assets.len(),
{
    if assets.len() == 0 {
        Seq::empty()
    } else {
        let rest = spec_handles(policy_id_hex, assets.drop_last());
        match spec_handle(policy_id_hex, assets.last()) {
            Some(h) => rest.push(h),
            None => rest,
        }
    }
}

/// The commands emitted for the handles of one consumed output: for each
/// handle in order, remove it from the handle set of the consumed address.
pub open spec fn spec_removals(
    a2h_prefix: Option<Seq<char>>,
    address: Seq<char>,
    handles: Seq<Seq<char>>,
) -> Seq<CommandView>
    decreases handles.len(),
{
    if handles.len() == 0 {
        Seq::empty()
    } else {
        spec_removals(a2h_prefix, address, handles.drop_last()).push(
            CommandView::SetRemove(spec_key(a2h_prefix, address), handles.last()),
        )
    }
}

/// The commands emitted for the handles of one produced output: for each
/// handle in order, first the last-writer overwrite of the handle's owning
/// address, then the addition of the handle to the address's handle set.
pub open spec fn spec_assignments(
    h2a_prefix: Option<Seq<char>>,
    a2h_prefix: Option<Seq<char>>,
    address: Seq<char>,
    handles: Seq<Seq<char>>,
) -> Seq<CommandView>
    decreases handles.len(),
{
    if handles.len() == 0 {
        Seq::empty()
    } else {
        spec_assignments(h2a_prefix, a2h_prefix, address, handles.drop_last()).push(
            CommandView::AnyWriteWins(spec_key(h2a_prefix, handles.last()), address),
        ).push(CommandView::SetAdd(spec_key(a2h_prefix, address), handles.last()))
    }
}

/// Resolves a consumed reference against historical state, applying the
/// runtime policy to an unresolved lookup: a missing output is tolerated
/// exactly when the policy says to skip, and fatal otherwise.
pub fn resolve<'a>(ctx: &'a BlockContext, input: &OutputRef, policy: &RuntimePolicy) -> (r:
    Result<Option<&'a TxOutput>, FatalError>)
    ensures
        match r {
            Ok(Some(t)) => spec_find(ctx.deep_view(), input.deep_view()) == Some(t.deep_view()),
            Ok(None) => spec_find(ctx.deep_view(), input.deep_view()) is None
                && policy.utxo_not_found is Skip,
            Err(e) => spec_find(ctx.deep_view(), input.deep_view()) is None
                && policy.utxo_not_found is Halt && e == FatalError::UnresolvedInput,
        },
{
    match ctx.find_utxo(input) {
        Some(t) => Ok(Some(t)),
        None => match policy.utxo_not_found {
            ErrorAction::Skip => Ok(None),
            ErrorAction::Halt => Err(FatalError::UnresolvedInput),
        },
    }
}

impl Reducer {
    /// Classifies one asset: returns its decoded handle name when the asset
    /// belongs to the tracked issuing policy and its name bytes are valid
    /// text, and nothing otherwise.
    pub fn to_handle_name(&self, asset: &Asset) -> (r: Option<String>)
        ensures
            r.deep_view() == spec_handle(self.config.policy_id_hex@, asset.deep_view()),
    {
        match asset.policy_hex() {
            Some(policy_id) => {
                if policy_id == self.config.policy_id_hex {
                    match asset {
                        Asset::NativeAsset(_, name, _) => utf8_to_string(name),
                        _ => None,
                    }
                } else {
                    None
                }
            },
            None => None,
        }
    }

    /// Collects the handles found on an output's assets, one per matching
    /// occurrence, in order.
    fn collect_handles(&self, assets: &Vec<Asset>) -> (r: Vec<String>)
        ensures
            r.deep_view() == spec_handles(self.config.policy_id_hex@, assets.deep_view()),
    {
        let mut r: Vec<String> = Vec::new();
        proof {
            assert(r.deep_view() =~= Seq::<Seq<char>>::empty());
            assert(assets.deep_view().take(0) =~= Seq::<AssetView>::empty());
        }
        let mut i: usize = 0;
        while i < assets.len()
            invariant
                i <= assets.len(),
                r.deep_view() == spec_handles(
                    self.config.policy_id_hex@,
                    assets.deep_view().take(i as int),
                ),
            decreases assets.len() - i,
        {
            let ghost pre = r.deep_view();
            match self.to_handle_name(&assets[i]) {
                Some(h) => {
                    let ghost hv = h@;
                    r.push(h);
                    proof {
                        assert(r.deep_view() =~= pre.push(hv));
                    }
                },
                None => {},
            }
            proof {
                let av = assets.deep_view();
                assert(av.take(i as int + 1).drop_last() =~= av.take(i as int));
                assert(av.take(i as int + 1).last() == av[i as int]);
            }
            i += 1;
        }
        proof {
            assert(assets.deep_view().take(assets.len() as int) =~= assets.deep_view());
        }
        r
    }

    /// Emits, for each handle in order, the removal of that handle from the
    /// handle set stored under `address`.
    pub fn emit_removals(&self, address: &String, handles: &Vec<String>, output: &mut Vec<
        CRDTCommand,
    >)
        ensures
            final(output).deep_view() == old(output).deep_view() + spec_removals(
                self.config.key_prefix_address_to_handles.deep_view(),
                address@,
                handles.deep_view(),
            ),
    {
        let a2h_prefix = self.config.key_prefix_address_to_handles.as_ref();
        proof {
            assert(a2h_prefix.deep_view()
                == self.config.key_prefix_address_to_handles.deep_view());
            assert(handles.deep_view().take(0) =~= Seq::<Seq<char>>::empty());
            assert(output.deep_view() =~= old(output).deep_view() + Seq::<CommandView>::empty());
        }
        let mut i: usize = 0;
        while i < handles.len()
            invariant
                i <= handles.len(),
                a2h_prefix.deep_view() == self.config.key_prefix_address_to_handles.deep_view(),
                output.deep_view() == old(output).deep_view() + spec_removals(
                    self.config.key_prefix_address_to_handles.deep_view(),
                    address@,
                    handles.deep_view().take(i as int),
                ),
            decreases handles.len() - i,
        {
            let ghost pre = output.deep_view();
            let cmd = CRDTCommand::set_remove(a2h_prefix, address.as_str(), handles[i].clone());
            output.push(cmd);
            proof {
                let hv = handles.deep_view();
                assert(output.deep_view() =~= pre.push(cmd.deep_view()));
                assert(hv.take(i as int + 1).drop_last() =~= hv.take(i as int));
                assert(hv.take(i as int + 1).last() == hv[i as int]);
                assert(output.deep_view() =~= old(output).deep_view() + spec_removals(
                    self.config.key_prefix_address_to_handles.deep_view(),
                    address@,
                    hv.take(i as int + 1),
                ));
            }
            i += 1;
        }
        proof {
            assert(handles.deep_view().take(handles.len() as int) =~= handles.deep_view());
        }
    }

    /// Emits, for each handle in order, the overwrite of the handle's owning
    /// address followed by the addition of the handle to that address's
    /// handle set.
    pub fn emit_assignments(&self, address: &String, handles: &Vec<String>, output: &mut Vec<
        CRDTCommand,
    >)
        ensures
            final(output).deep_view() == old(output).deep_view() + spec_assignments(
                self.config.key_prefix_handle_to_address.deep_view(),
                self.config.key_prefix_address_to_handles.deep_view(),
                address@,
                handles.deep_view(),
            ),
    {
        let h2a_prefix = self.config.key_prefix_handle_to_address.as_ref();
        let a2h_prefix = self.config.key_prefix_address_to_handles.as_ref();
        proof {
            assert(h2a_prefix.deep_view()
                == self.config.key_prefix_handle_to_address.deep_view());
            assert(a2h_prefix.deep_view()
                == self.config.key_prefix_address_to_handles.deep_view());
            assert(handles.deep_view().take(0) =~= Seq::<Seq<char>>::empty());
            assert(output.deep_view() =~= old(output).deep_view() + Seq::<CommandView>::empty());
        }
        let mut i: usize = 0;
        while i < handles.len()
            invariant
                i <= handles.len(),
                h2a_prefix.deep_view() == self.config.key_prefix_handle_to_address.deep_view(),
                a2h_prefix.deep_view() == self.config.key_prefix_address_to_handles.deep_view(),
                output.deep_view() == old(output).deep_view() + spec_assignments(
                    self.config.key_prefix_handle_to_address.deep_view(),
                    self.config.key_prefix_address_to_handles.deep_view(),
                    address@,
                    handles.deep_view().take(i as int),
                ),
            decreases handles.len() - i,
        {
            let ghost pre = output.deep_view();
            let handle = &handles[i];
            let h2a_cmd = CRDTCommand::any_write_wins(h2a_prefix, handle.as_str(), address.clone());
            output.push(h2a_cmd);
            let a2h_cmd = CRDTCommand::set_add(a2h_prefix, address.as_str(), handle.clone());
            output.push(a2h_cmd);
            proof {
                let hv = handles.deep_view();
                assert(output.deep_view() =~= pre.push(h2a_cmd.deep_view()).push(
                    a2h_cmd.deep_view(),
                ));
                assert(hv.take(i as int + 1).drop_last() =~= hv.take(i as int));
                assert(hv.take(i as int + 1).last() == hv[i as int]);
                assert(output.deep_view() =~= old(output).deep_view() + spec_assignments(
                    self.config.key_prefix_handle_to_address.deep_view(),
                    self.config.key_prefix_address_to_handles.deep_view(),
                    address@,
                    hv.take(i as int + 1),
                ));
            }
            i += 1;
        }
        proof {
            assert(handles.deep_view().take(handles.len() as int) =~= handles.deep_view());
        }
    }
}

/// What reducing one consumed reference contributes: the commands emitted,
/// or the fatal condition that stops the block (with nothing emitted for
/// this reference). An unresolved reference is tolerated exactly when the
/// policy says to skip; an unrenderable address is always fatal; a resolved
/// output without handles contributes nothing.
pub open spec fn spec_consumed(
    r: ReducerView,
    ctx: Seq<(OutputRefView, TxOutputView)>,
    input: OutputRefView,
) -> Result<Seq<CommandView>, FatalError> {
    match spec_find(ctx, input) {
        None => {
            if r.policy.utxo_not_found is Skip {
                Ok(Seq::empty())
            } else {
                Err(FatalError::UnresolvedInput)
            }
        },
        Some(txo) => {
            let handles = spec_handles(r.config.policy_id_hex, txo.assets);
            if handles.len() == 0 {
                Ok(Seq::empty())
            } else {
                match address_text(txo.address) {
                    None => Err(FatalError::BadAddress),
                    Some(addr) => Ok(
                        spec_removals(r.config.key_prefix_address_to_handles, addr, handles),
                    ),
                }
            }
        },
    }
}

/// What reducing one produced output contributes: the commands emitted, or
/// the fatal condition that stops the block. An output without handles
/// contributes nothing; an unrenderable address is fatal.
pub open spec fn spec_produced(cfg: ConfigView, txo: TxOutputView) -> Result<
    Seq<CommandView>,
    FatalError,
> {
    let handles = spec_handles(cfg.policy_id_hex, txo.assets);
    if handles.len() == 0 {
        Ok(Seq::empty())
    } else {
        match address_text(txo.address) {
            None => Err(FatalError::BadAddress),
            Some(addr) => Ok(
                spec_assignments(
                    cfg.key_prefix_handle_to_address,
                    cfg.key_prefix_address_to_handles,
                    addr,
                    handles,
                ),
            ),
        }
    }
}

/// Reducing a list of consumed references in order: the commands of the
/// references before the first fatal one, and that fatal condition if any.
pub open spec fn spec_run_consumed(
    r: ReducerView,
    ctx: Seq<(OutputRefView, TxOutputView)>,
    inputs: Seq<OutputRefView>,
) -> (Seq<CommandView>, Option<FatalError>)
    decreases inputs.len(),
{
    if inputs.len() == 0 {
        (Seq::empty(), None)
    } else {
        let prev = spec_run_consumed(r, ctx, inputs.drop_last());
        if prev.1 is Some {
            prev
        } else {
            match spec_consumed(r, ctx, inputs.last()) {
                Ok(cmds) => (prev.0 + cmds, None),
                Err(e) => (prev.0, Some(e)),
            }
        }
    }
}

/// Reducing a list of produced outputs in order: the commands of the
/// outputs before the first fatal one, and that fatal condition if any.
pub open spec fn spec_run_produced(cfg: ConfigView, outputs: Seq<TxOutputView>) -> (
    Seq<CommandView>,
    Option<FatalError>,
)
    decreases outputs.len(),
{
    if outputs.len() == 0 {
        (Seq::empty(), None)
    } else {
        let prev = spec_run_produced(cfg, outputs.drop_last());
        if prev.1 is Some {
            prev
        } else {
            match spec_produced(cfg, outputs.last()) {
                Ok(cmds) => (prev.0 + cmds, None),
                Err(e) => (prev.0, Some(e)),
            }
        }
    }
}

/// Reducing one transaction: all of its consumed references in listed
/// order, then, if none was fatal, all of its produced outputs in listed
/// order.
pub open spec fn spec_run_tx(
    r: ReducerView,
    ctx: Seq<(OutputRefView, TxOutputView)>,
    tx: TxView,
) -> (Seq<CommandView>, Option<FatalError>) {
    let c = spec_run_consumed(r, ctx, tx.consumed);
    if c.1 is Some {
        c
    } else {
        let p = spec_run_produced(r.config, tx.produced);
        (c.0 + p.0, p.1)
    }
}

/// Reducing a block: its transactions in canonical order, stopping at the
/// first fatal condition while keeping everything emitted before it.
pub open spec fn spec_run_block(
    r: ReducerView,
    ctx: Seq<(OutputRefView, TxOutputView)>,
    txs: Seq<TxView>,
) -> (Seq<CommandView>, Option<FatalError>)
    decreases txs.len(),
{
    if txs.len() == 0 {
        (Seq::empty(), None)
    } else {
        let prev = spec_run_block(r, ctx, txs.drop_last());
        if prev.1 is Some {
            prev
        } else {
            let t = spec_run_tx(r, ctx, txs.last());
            (prev.0 + t.0, t.1)
        }
    }
}

impl Reducer {
    /// Reduces one consumed output reference: resolves it against the
    /// context, classifies the resolved output's assets, and emits one
    /// set-remove per handle against the consumed address's handle set.
    pub fn process_consumed_txo(
        &self,
        ctx: &BlockContext,
        input: &OutputRef,
        output: &mut Vec<CRDTCommand>,
    ) -> (r: Result<(), FatalError>)
        ensures
            ({
                let outcome = spec_consumed(self.deep_view(), ctx.deep_view(), input.deep_view());
                match r {
                    Ok(_) => outcome matches Ok(cmds) && final(output).deep_view()
                        == old(output).deep_view() + cmds,
                    Err(e) => outcome == Err::<Seq<CommandView>, FatalError>(e)
                        && final(output).deep_view() == old(output).deep_view(),
                }
            }),
    {
        let txo = match resolve(ctx, input, &self.policy) {
            Err(e) => {
                return Err(e);
            },
            Ok(None) => {
                proof {
                    assert(output.deep_view() =~= old(output).deep_view() + Seq::<
                        CommandView,
                    >::empty());
                }
                return Ok(());
            },
            Ok(Some(t)) => t,
        };
        let handle_names = self.collect_handles(&txo.assets);
        if handle_names.is_empty() {
            proof {
                assert(output.deep_view() =~= old(output).deep_view() + Seq::<
                    CommandView,
                >::empty());
            }
            return Ok(());
        }
        let address = match render_address(&txo.address) {
            None => {
                return Err(FatalError::BadAddress);
            },
            Some(a) => a,
        };
        self.emit_removals(&address, &handle_names, output);
        Ok(())
    }

    /// Reduces one produced output: classifies its assets and emits, per
    /// handle, the owning-address overwrite followed by the addition of the
    /// handle to the address's handle set.
    pub fn process_produced_txo(&self, txo: &TxOutput, output: &mut Vec<CRDTCommand>) -> (r:
        Result<(), FatalError>)
        ensures
            ({
                let outcome = spec_produced(self.config.deep_view(), txo.deep_view());
                match r {
                    Ok(_) => outcome matches Ok(cmds) && final(output).deep_view()
                        == old(output).deep_view() + cmds,
                    Err(e) => outcome == Err::<Seq<CommandView>, FatalError>(e)
                        && final(output).deep_view() == old(output).deep_view(),
                }
            }),
    {
        let handle_names = self.collect_handles(&txo.assets);
        if handle_names.is_empty() {
            proof {
                assert(output.deep_view() =~= old(output).deep_view() + Seq::<
                    CommandView,
                >::empty());
            }
            return Ok(());
        }
        let address = match render_address(&txo.address) {
            None => {
                return Err(FatalError::BadAddress);
            },
            Some(a) => a,
        };
        self.emit_assignments(&address, &handle_names, output);
        Ok(())
    }
}

proof fn lemma_run_consumed_stops(
    r: ReducerView,
    ctx: Seq<(OutputRefView, TxOutputView)>,
    inputs: Seq<OutputRefView>,
    j: int,
)
    requires
        0 <= j <= inputs.len(),
        spec_run_consumed(r, ctx, inputs.take(j)).1 is Some,
    ensures
        spec_run_consumed(r, ctx, inputs) == spec_run_consumed(r, ctx, inputs.take(j)),
    decreases inputs.len() - j,
{
    if j == inputs.len() {
        assert(inputs.take(j) =~= inputs);
    } else {
        assert(inputs.take(j + 1).drop_last() =~= inputs.take(j));
        assert(spec_run_consumed(r, ctx, inputs.take(j + 1)) == spec_run_consumed(
            r,
            ctx,
            inputs.take(j),
        ));
        lemma_run_consumed_stops(r, ctx, inputs, j + 1);
    }
}

proof fn lemma_run_produced_stops(cfg: ConfigView, outputs: Seq<TxOutputView>, k: int)
    requires
        0 <= k <= outputs.len(),
        spec_run_produced(cfg, outputs.take(k)).1 is Some,
    ensures
        spec_run_produced(cfg, outputs) == spec_run_produced(cfg, outputs.take(k)),
    decreases outputs.len() - k,
{
    if k == outputs.len() {
        assert(outputs.take(k) =~= outputs);
    } else {
        assert(outputs.take(k + 1).drop_last() =~= outputs.take(k));
        assert(spec_run_produced(cfg, outputs.take(k + 1)) == spec_run_produced(
            cfg,
            outputs.take(k),
        ));
        lemma_run_produced_stops(cfg, outputs, k + 1);
    }
}

proof fn lemma_run_block_stops(
    r: ReducerView,
    ctx: Seq<(OutputRefView, TxOutputView)>,
    txs: Seq<TxView>,
    i: int,
)
    requires
        0 <= i <= txs.len(),
        spec_run_block(r, ctx, txs.take(i)).1 is Some,
    ensures
        spec_run_block(r, ctx, txs) == spec_run_block(r, ctx, txs.take(i)),
    decreases txs.len() - i,
{
    if i == txs.len() {
        assert(txs.take(i) =~= txs);
    } else {
        assert(txs.take(i + 1).drop_last() =~= txs.take(i));
        assert(spec_run_block(r, ctx, txs.take(i + 1)) == spec_run_block(r, ctx, txs.take(i)));
        lemma_run_block_stops(r, ctx, txs, i + 1);
    }
}

impl Reducer {
    /// Reduces a whole block: for each transaction in canonical order, every
    /// consumed reference in listed order and then every produced output in
    /// listed order. The first fatal condition aborts the block at once; the
    /// commands already emitted stay in the output.
    #[verifier::loop_isolation(false)]
    pub fn reduce_block(&self, block: &Block, ctx: &BlockContext, output: &mut Vec<
        CRDTCommand,
    >) -> (r: Result<(), FatalError>)
        ensures
            ({
                let outcome = spec_run_block(self.deep_view(), ctx.deep_view(), block.deep_view());
                &&& final(output).deep_view() == old(output).deep_view() + outcome.0
                &&& (match r {
                    Ok(_) => outcome.1 is None,
                    Err(e) => outcome.1 == Some(e),
                })
            }),
    {
        let ghost rv = self.deep_view();
        let ghost cv = ctx.deep_view();
        let ghost bv = block.deep_view();
        proof {
            assert(bv.take(0) =~= Seq::<TxView>::empty());
            assert(output.deep_view() =~= old(output).deep_view() + Seq::<CommandView>::empty());
        }
        let mut i: usize = 0;
        while i < block.txs.len()
            invariant
                i <= block.txs.len(),
                spec_run_block(rv, cv, bv.take(i as int)).1 is None,
                output.deep_view() == old(output).deep_view() + spec_run_block(
                    rv,
                    cv,
                    bv.take(i as int),
                ).0,
            decreases block.txs.len() - i,
        {
            let tx = &block.txs[i];
            let ghost txv = tx.deep_view();
            let ghost pre_tx = spec_run_block(rv, cv, bv.take(i as int));
            proof {
                assert(bv[i as int] == txv);
                assert(txv.consumed.take(0) =~= Seq::<OutputRefView>::empty());
                assert(output.deep_view() =~= old(output).deep_view() + pre_tx.0
                    + spec_run_consumed(rv, cv, txv.consumed.take(0)).0);
            }
            let mut j: usize = 0;
            while j < tx.consumed.len()
                invariant
                    j <= tx.consumed.len(),
                    spec_run_consumed(rv, cv, txv.consumed.take(j as int)).1 is None,
                    output.deep_view() == old(output).deep_view() + pre_tx.0 + spec_run_consumed(
                        rv,
                        cv,
                        txv.consumed.take(j as int),
                    ).0,
                decreases tx.consumed.len() - j,
            {
                let ghost pre_c = spec_run_consumed(rv, cv, txv.consumed.take(j as int));
                proof {
                    assert(txv.consumed[j as int] == tx.consumed[j as int].deep_view());
                    assert(txv.consumed.take(j as int + 1).drop_last() =~= txv.consumed.take(
                        j as int,
                    ));
                    assert(txv.consumed.take(j as int + 1).last() == txv.consumed[j as int]);
                }
                match self.process_consumed_txo(ctx, &tx.consumed[j], output) {
                    Ok(_) => {
                        proof {
                            let step = spec_consumed(rv, cv, txv.consumed[j as int]);
                            assert(spec_run_consumed(rv, cv, txv.consumed.take(j as int + 1)) == (
                                pre_c.0 + step.unwrap(),
                                None::<FatalError>,
                            ));
                            assert(output.deep_view() =~= old(output).deep_view() + pre_tx.0 + (
                            pre_c.0 + step.unwrap()));
                        }
                    },
                    Err(e) => {
                        proof {
                            assert(spec_run_consumed(rv, cv, txv.consumed.take(j as int + 1)) == (
                                pre_c.0,
                                Some(e),
                            ));
                            lemma_run_consumed_stops(rv, cv, txv.consumed, j as int + 1);
                            assert(spec_run_tx(rv, cv, txv) == (pre_c.0, Some(e)));
                            assert(bv.take(i as int + 1).drop_last() =~= bv.take(i as int));
                            assert(bv.take(i as int + 1).last() == txv);
                            assert(spec_run_block(rv, cv, bv.take(i as int + 1)) == (
                                pre_tx.0 + pre_c.0,
                                Some(e),
                            ));
                            lemma_run_block_stops(rv, cv, bv, i as int + 1);
                            assert(output.deep_view() =~= old(output).deep_view() + (pre_tx.0
                                + pre_c.0));
                        }
                        return Err(e);
                    },
                }
                j += 1;
            }
            let ghost run_c = spec_run_consumed(rv, cv, txv.consumed);
            proof {
                assert(txv.consumed.take(tx.consumed.len() as int) =~= txv.consumed);
                assert(txv.produced.take(0) =~= Seq::<TxOutputView>::empty());
                assert(output.deep_view() =~= old(output).deep_view() + pre_tx.0 + run_c.0
                    + spec_run_produced(rv.config, txv.produced.take(0)).0);
            }
            let mut k: usize = 0;
            while k < tx.produced.len()
                invariant
                    k <= tx.produced.len(),
                    spec_run_produced(rv.config, txv.produced.take(k as int)).1 is None,
                    output.deep_view() == old(output).deep_view() + pre_tx.0 + run_c.0
                        + spec_run_produced(rv.config, txv.produced.take(k as int)).0,
                decreases tx.produced.len() - k,
            {
                let ghost pre_p = spec_run_produced(rv.config, txv.produced.take(k as int));
                proof {
                    assert(txv.produced[k as int] == tx.produced[k as int].deep_view());
                    assert(txv.produced.take(k as int + 1).drop_last() =~= txv.produced.take(
                        k as int,
                    ));
                    assert(txv.produced.take(k as int + 1).last() == txv.produced[k as int]);
                }
                match self.process_produced_txo(&tx.produced[k], output) {
                    Ok(_) => {
                        proof {
                            let step = spec_produced(rv.config, txv.produced[k as int]);
                            assert(spec_run_produced(rv.config, txv.produced.take(k as int + 1))
                                == (pre_p.0 + step.unwrap(), None::<FatalError>));
                            assert(output.deep_view() =~= old(output).deep_view() + pre_tx.0
                                + run_c.0 + (pre_p.0 + step.unwrap()));
                        }
                    },
                    Err(e) => {
                        proof {
                            assert(spec_run_produced(rv.config, txv.produced.take(k as int + 1))
                                == (pre_p.0, Some(e)));
                            lemma_run_produced_stops(rv.config, txv.produced, k as int + 1);
                            assert(spec_run_tx(rv, cv, txv) == (run_c.0 + pre_p.0, Some(e)));
                            assert(bv.take(i as int + 1).drop_last() =~= bv.take(i as int));
                            assert(bv.take(i as int + 1).last() == txv);
                            assert(spec_run_block(rv, cv, bv.take(i as int + 1)) == (
                                pre_tx.0 + (run_c.0 + pre_p.0),
                                Some(e),
                            ));
                            lemma_run_block_stops(rv, cv, bv, i as int + 1);
                            assert(output.deep_view() =~= old(output).deep_view() + (pre_tx.0 + (
                            run_c.0 + pre_p.0)));
                        }
                        return Err(e);
                    },
                }
                k += 1;
            }
            proof {
                assert(txv.produced.take(tx.produced.len() as int) =~= txv.produced);
                let run_p = spec_run_produced(rv.config, txv.produced);
                assert(spec_run_tx(rv, cv, txv) == (run_c.0 + run_p.0, run_p.1));
                assert(bv.take(i as int + 1).drop_last() =~= bv.take(i as int));
                assert(bv.take(i as int + 1).last() == txv);
                assert(spec_run_block(rv, cv, bv.take(i as int + 1)) == (
                    pre_tx.0 + (run_c.0 + run_p.0),
                    None::<FatalError>,
                ));
                assert(output.deep_view() =~= old(output).deep_view() + (pre_tx.0 + (run_c.0
                    + run_p.0)));
            }
            i += 1;
        }
        proof {
            assert(bv.take(block.txs.len() as int) =~= bv);
        }
        Ok(())
    }
}

impl Config {
    /// Builds the reducer for this configuration, taking a clone of the
    /// shared runtime policy.
    pub fn plugin(self, policy: &RuntimePolicy) -> (r: Reducer)
        ensures
            r.deep_view() == (ReducerView { config: self.deep_view(), policy: *policy }),
    {
        Reducer { config: self, policy: policy.clone() }
    }
}

} // verus!
