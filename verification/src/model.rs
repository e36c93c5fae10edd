//! Chain-facing data model: assets, outputs, output references, blocks,
//! the historical context a block is reduced against, and the policy and
//! error types that govern reduction.

use vstd::prelude::*;

verus! {

/// One unit class held by an output: either the base currency or a native
/// asset carrying its issuing-policy identifier, raw name bytes (no encoding
/// guaranteed), and a quantity.
pub enum Asset {
    Ada(u64),
    NativeAsset(Vec<u8>, Vec<u8>, u64),
}

/// Mathematical form of an [`Asset`].
pub ghost enum AssetView {
    Ada(u64),
    NativeAsset(Seq<u8>, Seq<u8>, u64),
}

impl DeepView for Asset {
    type V = AssetView;

    open spec fn deep_view(&self) -> AssetView {
        match self {
            Asset::Ada(q) => AssetView::Ada(*q),
            Asset::NativeAsset(p, n, q) => AssetView::NativeAsset(p@, n@, *q),
        }
    }
}

/// The issuing-policy identifier of an asset in lowercase hexadecimal form;
/// the base currency has none.
pub open spec fn spec_policy_hex(a: AssetView) -> Option<Seq<char>> {
    match a {
        AssetView::NativeAsset(p, _, _) => Some(crate::hex::hex_of(p)),
        AssetView::Ada(_) => None,
    }
}

impl Asset {
    /// Renders the issuing-policy identifier as lowercase hexadecimal text.
    pub fn policy_hex(&self) -> (r: Option<String>)
        ensures
            r.deep_view() == spec_policy_hex(self.deep_view()),
    {
        match self {
            Asset::NativeAsset(p, _, _) => Some(crate::hex::bytes_to_hex(p)),
            Asset::Ada(_) => None,
        }
    }
}

/// A materialized output: the owning address in its raw byte form together
/// with the assets it holds.
pub struct TxOutput {
    pub address: Vec<u8>,
    pub assets: Vec<Asset>,
}

/// Mathematical form of a [`TxOutput`].
pub ghost struct TxOutputView {
    pub address: Seq<u8>,
    pub assets: Seq<AssetView>,
}

impl DeepView for TxOutput {
    type V = TxOutputView;

    open spec fn deep_view(&self) -> TxOutputView {
        TxOutputView { address: self.address@, assets: self.assets.deep_view() }
    }
}

/// Identifier of a previously produced output: the identifier of the
/// producing transaction plus the output's index within it.
pub struct OutputRef {
    pub tx_id: Vec<u8>,
    pub index: u64,
}

/// Mathematical form of an [`OutputRef`].
pub ghost struct OutputRefView {
    pub tx_id: Seq<u8>,
    pub index: u64,
}

impl DeepView for OutputRef {
    type V = OutputRefView;

    open spec fn deep_view(&self) -> OutputRefView {
        OutputRefView { tx_id: self.tx_id@, index: self.index }
    }
}

/// One transaction: the output references it consumes and the outputs it
/// produces, each in the transaction's listed order.
pub struct Tx {
    pub consumed: Vec<OutputRef>,
    pub produced: Vec<TxOutput>,
}

/// Mathematical form of a [`Tx`].
pub ghost struct TxView {
    pub consumed: Seq<OutputRefView>,
    pub produced: Seq<TxOutputView>,
}

impl DeepView for Tx {
    type V = TxView;

    open spec fn deep_view(&self) -> TxView {
        TxView { consumed: self.consumed.deep_view(), produced: self.produced.deep_view() }
    }
}

/// A decoded block: its transactions in canonical order.
pub struct Block {
    pub txs: Vec<Tx>,
}

impl DeepView for Block {
    type V = Seq<TxView>;

    open spec fn deep_view(&self) -> Seq<TxView> {
        self.txs.deep_view()
    }
}

/// What to do when a consumed reference cannot be resolved against
/// historical state.
#[derive(Clone, Copy, PartialEq, Eq, Structural, Debug)]
pub enum ErrorAction {
    /// Treat the reference as having nothing to contribute and continue.
    Skip,
    /// Abort reduction of the current block.
    Halt,
}

/// Shared, read-only setting deciding whether missing or erroring historical
/// lookups are tolerated; cloned into each reducer.
#[derive(Clone, Copy, PartialEq, Eq, Structural, Debug)]
pub struct RuntimePolicy {
    pub utxo_not_found: ErrorAction,
}

/// A condition that aborts reduction of the current block.
#[derive(Clone, Copy, PartialEq, Eq, Structural, Debug)]
pub enum FatalError {
    /// A consumed reference could not be resolved and the policy does not
    /// tolerate that.
    UnresolvedInput,
    /// The owning address of an output could not be rendered as text.
    BadAddress,
}

/// Historical state available while reducing one block: previously produced
/// outputs keyed by their output reference.
pub struct BlockContext {
    pub utxos: Vec<(OutputRef, TxOutput)>,
}

impl DeepView for BlockContext {
    type V = Seq<(OutputRefView, TxOutputView)>;

    open spec fn deep_view(&self) -> Seq<(OutputRefView, TxOutputView)> {
        self.utxos.deep_view()
    }
}

/// The first output recorded under `key`, if any.
pub open spec fn spec_find(
    utxos: Seq<(OutputRefView, TxOutputView)>,
    key: OutputRefView,
) -> Option<TxOutputView>
    decreases utxos.len(),
{
    if utxos.len() == 0 {
        None
    } else if utxos.first().0 == key {
        Some(utxos.first().1)
    } else {
        spec_find(utxos.drop_first(), key)
    }
}

fn bytes_eq(a: &Vec<u8>, b: &Vec<u8>) -> (r: bool)
    ensures
        r == (a@ == b@),
{
    if a.len() != b.len() {
        return false;
    }
    let mut i: usize = 0;
    while i < a.len()
        invariant
            i <= a.len(),
            a.len() == b.len(),
            forall|j: int| 0 <= j < i ==> a@[j] == b@[j],
        decreases a.len() - i,
    {
        if a[i] != b[i] {
            proof {
                assert(a@[i as int] != b@[i as int]);
            }
            return false;
        }
        i += 1;
    }
    proof {
        assert(a@ =~= b@);
    }
    true
}

impl OutputRef {
    /// True when the two references identify the same output.
    pub fn same_ref(&self, other: &OutputRef) -> (r: bool)
        ensures
            r == (self.deep_view() == other.deep_view()),
    {
        bytes_eq(&self.tx_id, &other.tx_id) && self.index == other.index
    }
}

impl BlockContext {
    /// A context holding no historical outputs.
    pub fn new() -> (r: BlockContext)
        ensures
            r.deep_view() =~= Seq::<(OutputRefView, TxOutputView)>::empty(),
    {
        BlockContext { utxos: Vec::new() }
    }

    /// Records a previously produced output under its reference.
    pub fn import_utxo(&mut self, key: OutputRef, value: TxOutput)
        ensures
            final(self).deep_view() =~= old(self).deep_view().push(
                (key.deep_view(), value.deep_view()),
            ),
    {
        self.utxos.push((key, value));
    }

    /// Looks the reference up in the recorded historical outputs.
    pub fn find_utxo(&self, key: &OutputRef) -> (r: Option<&TxOutput>)
        ensures
            match r {
                Some(t) => spec_find(self.deep_view(), key.deep_view()) == Some(t.deep_view()),
                None => spec_find(self.deep_view(), key.deep_view()) is None,
            },
    {
        proof {
            assert(self.deep_view().skip(0) =~= self.deep_view());
        }
        let mut i: usize = 0;
        while i < self.utxos.len()
            invariant
                i <= self.utxos.len(),
                spec_find(self.deep_view(), key.deep_view()) == spec_find(
                    self.deep_view().skip(i as int),
                    key.deep_view(),
                ),
            decreases self.utxos.len() - i,
        {
            let entry = &self.utxos[i];
            proof {
                assert(self.deep_view().skip(i as int).first() == self.utxos[i as int].deep_view());
                assert(self.deep_view().skip(i as int).drop_first() =~= self.deep_view().skip(
                    i as int + 1,
                ));
            }
            if entry.0.same_ref(key) {
                return Some(&entry.1);
            }
            i += 1;
        }
        proof {
            assert(self.deep_view().skip(self.utxos.len() as int) =~= Seq::<(
                OutputRefView,
                TxOutputView,
            )>::empty());
        }
        None
    }
}

} // verus!
