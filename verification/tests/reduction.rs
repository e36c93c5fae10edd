use std::collections::{HashMap, HashSet};

use ada_handle::commands::CRDTCommand;
use ada_handle::model::{
    Asset, Block, BlockContext, ErrorAction, FatalError, OutputRef, RuntimePolicy, Tx, TxOutput,
};
use ada_handle::hex::bytes_to_hex;
use ada_handle::reducer::{resolve, Config, Reducer};

fn reducer(
    policy_id_hex: &str,
    h2a: Option<&str>,
    a2h: Option<&str>,
    action: ErrorAction,
) -> Reducer {
    let config = Config {
        key_prefix_handle_to_address: h2a.map(|s| s.to_string()),
        key_prefix_address_to_handles: a2h.map(|s| s.to_string()),
        policy_id_hex: policy_id_hex.to_string(),
    };
    config.plugin(&RuntimePolicy { utxo_not_found: action })
}

fn tracked_asset(name: &[u8]) -> Asset {
    Asset::NativeAsset(vec![0xca, 0xfe], name.to_vec(), 1)
}

fn foreign_asset(name: &[u8]) -> Asset {
    Asset::NativeAsset(vec![0xde, 0xad], name.to_vec(), 1)
}

/// A well-formed enterprise address: header byte then a 28-byte key hash.
fn good_address_bytes() -> Vec<u8> {
    let mut v = vec![0x61u8];
    v.extend([7u8; 28]);
    v
}

/// The text the chain's address codec renders for those bytes.
fn good_address_text() -> String {
    pallas::ledger::addresses::Address::from_bytes(&good_address_bytes())
        .unwrap()
        .to_string()
}

#[test]
fn classifier_rejects_foreign_policy() {
    let r = reducer("cafe", None, None, ErrorAction::Skip);
    assert_eq!(r.to_handle_name(&foreign_asset(b"alice")), None);
    assert_eq!(r.to_handle_name(&Asset::Ada(5_000_000)), None);
}

#[test]
fn classifier_rejects_invalid_utf8_name() {
    let r = reducer("cafe", None, None, ErrorAction::Skip);
    assert_eq!(r.to_handle_name(&tracked_asset(&[0xff, 0xfe, 0x61])), None);
}

#[test]
fn classifier_decodes_matching_handle() {
    let r = reducer("cafe", None, None, ErrorAction::Skip);
    assert_eq!(
        r.to_handle_name(&tracked_asset(b"alice")),
        Some("alice".to_string())
    );
}

#[test]
fn classifier_decodes_multibyte_name() {
    let r = reducer("cafe", None, None, ErrorAction::Skip);
    assert_eq!(
        r.to_handle_name(&tracked_asset("caf\u{e9}".as_bytes())),
        Some("caf\u{e9}".to_string())
    );
}

#[test]
fn policy_hex_renders_lowercase_pairs() {
    let asset = Asset::NativeAsset(vec![0x00, 0xab, 0xff], b"x".to_vec(), 1);
    assert_eq!(asset.policy_hex(), Some("00abff".to_string()));
    assert_eq!(Asset::Ada(1).policy_hex(), None);
}

#[test]
fn produced_emits_write_then_add() {
    let r = reducer("cafe", None, None, ErrorAction::Skip);
    let mut out: Vec<CRDTCommand> = Vec::new();
    r.emit_assignments(
        &"addr1xyz".to_string(),
        &vec!["alice".to_string()],
        &mut out,
    );
    assert_eq!(
        out,
        vec![
            CRDTCommand::AnyWriteWins("alice".to_string(), "addr1xyz".to_string()),
            CRDTCommand::SetAdd("addr1xyz".to_string(), "alice".to_string()),
        ]
    );
}

#[test]
fn produced_respects_key_prefixes() {
    let r = reducer("cafe", Some("h2a"), Some("a2h"), ErrorAction::Skip);
    let mut out: Vec<CRDTCommand> = Vec::new();
    r.emit_assignments(
        &"addr1xyz".to_string(),
        &vec!["alice".to_string()],
        &mut out,
    );
    assert_eq!(
        out,
        vec![
            CRDTCommand::AnyWriteWins("h2a.alice".to_string(), "addr1xyz".to_string()),
            CRDTCommand::SetAdd("a2h.addr1xyz".to_string(), "alice".to_string()),
        ]
    );
}

#[test]
fn consumed_emits_remove() {
    let r = reducer("cafe", None, None, ErrorAction::Skip);
    let mut out: Vec<CRDTCommand> = Vec::new();
    r.emit_removals(
        &"addr1xyz".to_string(),
        &vec!["alice".to_string()],
        &mut out,
    );
    assert_eq!(
        out,
        vec![CRDTCommand::SetRemove(
            "addr1xyz".to_string(),
            "alice".to_string()
        )]
    );
}

#[test]
fn produced_output_reduces_end_to_end() {
    let r = reducer("cafe", None, None, ErrorAction::Skip);
    let block = Block {
        txs: vec![Tx {
            consumed: vec![],
            produced: vec![TxOutput {
                address: good_address_bytes(),
                assets: vec![Asset::Ada(2_000_000), tracked_asset(b"alice")],
            }],
        }],
    };
    let ctx = BlockContext::new();
    let mut out: Vec<CRDTCommand> = Vec::new();
    assert_eq!(r.reduce_block(&block, &ctx, &mut out), Ok(()));
    let addr = good_address_text();
    assert_ne!(addr.as_bytes(), good_address_bytes().as_slice());
    assert_eq!(
        out,
        vec![
            CRDTCommand::AnyWriteWins("alice".to_string(), addr.clone()),
            CRDTCommand::SetAdd(addr, "alice".to_string()),
        ]
    );
}

#[test]
fn consumed_output_reduces_end_to_end() {
    let r = reducer("cafe", None, None, ErrorAction::Skip);
    let input = OutputRef { tx_id: vec![1, 2, 3], index: 0 };
    let mut ctx = BlockContext::new();
    ctx.import_utxo(
        OutputRef { tx_id: vec![1, 2, 3], index: 0 },
        TxOutput {
            address: good_address_bytes(),
            assets: vec![tracked_asset(b"alice")],
        },
    );
    let block = Block { txs: vec![Tx { consumed: vec![input], produced: vec![] }] };
    let mut out: Vec<CRDTCommand> = Vec::new();
    assert_eq!(r.reduce_block(&block, &ctx, &mut out), Ok(()));
    assert_eq!(
        out,
        vec![CRDTCommand::SetRemove(
            good_address_text(),
            "alice".to_string()
        )]
    );
}

#[test]
fn tolerated_unresolved_reference_is_skipped() {
    let r = reducer("cafe", None, None, ErrorAction::Skip);
    let ctx = BlockContext::new();
    let input = OutputRef { tx_id: vec![9; 32], index: 4 };
    let mut out: Vec<CRDTCommand> = Vec::new();
    assert_eq!(r.process_consumed_txo(&ctx, &input, &mut out), Ok(()));
    assert!(out.is_empty());
}

#[test]
fn unresolved_reference_halts_without_tolerance() {
    let r = reducer("cafe", None, None, ErrorAction::Halt);
    let ctx = BlockContext::new();
    let input = OutputRef { tx_id: vec![9; 32], index: 4 };
    let mut out: Vec<CRDTCommand> = Vec::new();
    assert_eq!(
        r.process_consumed_txo(&ctx, &input, &mut out),
        Err(FatalError::UnresolvedInput)
    );
    assert!(out.is_empty());
}

#[test]
fn malformed_address_is_fatal() {
    let r = reducer("cafe", None, None, ErrorAction::Skip);
    let txo = TxOutput { address: vec![], assets: vec![tracked_asset(b"alice")] };
    let mut out: Vec<CRDTCommand> = Vec::new();
    assert_eq!(
        r.process_produced_txo(&txo, &mut out),
        Err(FatalError::BadAddress)
    );
    assert!(out.is_empty());
}

#[test]
fn malformed_address_is_ignored_without_handles() {
    let r = reducer("cafe", None, None, ErrorAction::Skip);
    let txo = TxOutput { address: vec![], assets: vec![foreign_asset(b"alice")] };
    let mut out: Vec<CRDTCommand> = Vec::new();
    assert_eq!(r.process_produced_txo(&txo, &mut out), Ok(()));
    assert!(out.is_empty());
}

#[test]
fn quiet_block_emits_nothing() {
    let r = reducer("cafe", None, None, ErrorAction::Skip);
    let mut ctx = BlockContext::new();
    ctx.import_utxo(
        OutputRef { tx_id: vec![1], index: 0 },
        TxOutput {
            address: good_address_bytes(),
            assets: vec![foreign_asset(b"bob")],
        },
    );
    let mut txs = Vec::new();
    for i in 0..3u8 {
        txs.push(Tx {
            consumed: vec![OutputRef { tx_id: vec![1], index: 0 }],
            produced: vec![TxOutput {
                address: good_address_bytes(),
                assets: vec![Asset::Ada(i as u64 + 1), foreign_asset(b"bob")],
            }],
        });
    }
    let block = Block { txs };
    let mut out: Vec<CRDTCommand> = Vec::new();
    assert_eq!(r.reduce_block(&block, &ctx, &mut out), Ok(()));
    assert!(out.is_empty());
}

#[test]
fn empty_block_emits_nothing() {
    let r = reducer("cafe", None, None, ErrorAction::Skip);
    let block = Block { txs: vec![] };
    let ctx = BlockContext::new();
    let mut out: Vec<CRDTCommand> = Vec::new();
    assert_eq!(r.reduce_block(&block, &ctx, &mut out), Ok(()));
    assert!(out.is_empty());
}

#[test]
fn duplicate_handles_emit_once_per_occurrence() {
    let r = reducer("cafe", None, None, ErrorAction::Skip);
    let txo = TxOutput {
        address: good_address_bytes(),
        assets: vec![tracked_asset(b"alice"), tracked_asset(b"alice")],
    };
    let mut ctx = BlockContext::new();
    ctx.import_utxo(OutputRef { tx_id: vec![5], index: 1 }, txo);
    let mut out: Vec<CRDTCommand> = Vec::new();
    let input = OutputRef { tx_id: vec![5], index: 1 };
    assert_eq!(r.process_consumed_txo(&ctx, &input, &mut out), Ok(()));
    let remove = CRDTCommand::SetRemove(good_address_text(), "alice".to_string());
    assert_eq!(out, vec![remove.clone(), remove]);
}

#[test]
fn multiple_handles_keep_asset_order() {
    let r = reducer("cafe", None, None, ErrorAction::Skip);
    let txo = TxOutput {
        address: good_address_bytes(),
        assets: vec![tracked_asset(b"alice"), tracked_asset(b"bob")],
    };
    let mut out: Vec<CRDTCommand> = Vec::new();
    assert_eq!(r.process_produced_txo(&txo, &mut out), Ok(()));
    let addr = good_address_text();
    assert_eq!(
        out,
        vec![
            CRDTCommand::AnyWriteWins("alice".to_string(), addr.clone()),
            CRDTCommand::SetAdd(addr.clone(), "alice".to_string()),
            CRDTCommand::AnyWriteWins("bob".to_string(), addr.clone()),
            CRDTCommand::SetAdd(addr, "bob".to_string()),
        ]
    );
}

#[test]
fn abort_keeps_commands_of_earlier_transactions() {
    let r = reducer("cafe", None, None, ErrorAction::Halt);
    let block = Block {
        txs: vec![
            Tx {
                consumed: vec![],
                produced: vec![TxOutput {
                    address: good_address_bytes(),
                    assets: vec![tracked_asset(b"alice")],
                }],
            },
            Tx {
                consumed: vec![OutputRef { tx_id: vec![7], index: 7 }],
                produced: vec![],
            },
        ],
    };
    let ctx = BlockContext::new();
    let mut out: Vec<CRDTCommand> = Vec::new();
    assert_eq!(
        r.reduce_block(&block, &ctx, &mut out),
        Err(FatalError::UnresolvedInput)
    );
    let addr = good_address_text();
    assert_eq!(
        out,
        vec![
            CRDTCommand::AnyWriteWins("alice".to_string(), addr.clone()),
            CRDTCommand::SetAdd(addr, "alice".to_string()),
        ]
    );
}

#[test]
fn resolve_returns_recorded_output() {
    let mut ctx = BlockContext::new();
    ctx.import_utxo(
        OutputRef { tx_id: vec![4, 2], index: 1 },
        TxOutput { address: vec![0x61, 0x61], assets: vec![Asset::Ada(7)] },
    );
    let hit = OutputRef { tx_id: vec![4, 2], index: 1 };
    let miss = OutputRef { tx_id: vec![4, 2], index: 2 };
    let policy = RuntimePolicy { utxo_not_found: ErrorAction::Skip };
    match resolve(&ctx, &hit, &policy) {
        Ok(Some(txo)) => assert_eq!(txo.address, vec![0x61, 0x61]),
        _ => panic!("recorded reference must resolve"),
    }
    assert!(matches!(resolve(&ctx, &miss, &policy), Ok(None)));
    let strict = RuntimePolicy { utxo_not_found: ErrorAction::Halt };
    assert!(matches!(
        resolve(&ctx, &miss, &strict),
        Err(FatalError::UnresolvedInput)
    ));
}

#[test]
fn hex_of_empty_and_full_range() {
    assert_eq!(bytes_to_hex(&Vec::new()), "".to_string());
    assert_eq!(bytes_to_hex(&vec![0x0f, 0xf0, 0x5a]), "0ff05a".to_string());
}

type Sets = HashMap<String, HashSet<String>>;
type Scalars = HashMap<String, String>;

fn apply(sets: &mut Sets, scalars: &mut Scalars, cmd: &CRDTCommand) {
    match cmd {
        CRDTCommand::SetAdd(k, m) => {
            sets.entry(k.clone()).or_default().insert(m.clone());
        }
        CRDTCommand::SetRemove(k, m) => {
            sets.entry(k.clone()).or_default().remove(m);
        }
        CRDTCommand::AnyWriteWins(k, v) => {
            scalars.insert(k.clone(), v.clone());
        }
    }
}

#[test]
fn commands_are_idempotent_under_replay() {
    let mut seed_sets: Sets = HashMap::new();
    seed_sets
        .entry("addr1xyz".to_string())
        .or_default()
        .insert("carol".to_string());
    let mut seed_scalars: Scalars = HashMap::new();
    seed_scalars.insert("carol".to_string(), "addr1old".to_string());

    let cmds = vec![
        CRDTCommand::SetAdd("addr1xyz".to_string(), "alice".to_string()),
        CRDTCommand::SetRemove("addr1xyz".to_string(), "carol".to_string()),
        CRDTCommand::AnyWriteWins("alice".to_string(), "addr1xyz".to_string()),
    ];
    for cmd in &cmds {
        let mut once_sets = seed_sets.clone();
        let mut once_scalars = seed_scalars.clone();
        apply(&mut once_sets, &mut once_scalars, cmd);
        let mut twice_sets = once_sets.clone();
        let mut twice_scalars = once_scalars.clone();
        apply(&mut twice_sets, &mut twice_scalars, cmd);
        assert_eq!(once_sets, twice_sets);
        assert_eq!(once_scalars, twice_scalars);
    }
}
