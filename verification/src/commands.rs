//! Mutation commands emitted towards the downstream projection store.
//!
//! Each command is a conflict-free, replay-tolerant key-value operation; the
//! key already carries the optional key-space prefix resolved from
//! configuration.

use vstd::prelude::*;

verus! {

/// The unit emitted downstream: a last-writer or set-semantics mutation of
/// one key of the projection store.
#[derive(Debug, Clone, PartialEq, Eq)]
pub enum CRDTCommand {
    /// Add the member (second field) to the set stored at the key (first
    /// field).
    SetAdd(String, String),
    /// Remove the member (second field) from the set stored at the key
    /// (first field).
    SetRemove(String, String),
    /// Overwrite the scalar value (second field) at the key (first field);
    /// exactly one concurrent writer wins.
    AnyWriteWins(String, String),
}

/// Mathematical form of a [`CRDTCommand`].
pub ghost enum CommandView {
    SetAdd(Seq<char>, Seq<char>),
    SetRemove(Seq<char>, Seq<char>),
    AnyWriteWins(Seq<char>, Seq<char>),
}

impl DeepView for CRDTCommand {
    type V = CommandView;

    open spec fn deep_view(&self) -> CommandView {
        match self {
            CRDTCommand::SetAdd(k, m) => CommandView::SetAdd(k@, m@),
            CRDTCommand::SetRemove(k, m) => CommandView::SetRemove(k@, m@),
            CRDTCommand::AnyWriteWins(k, v) => CommandView::AnyWriteWins(k@, v@),
        }
    }
}

/// The store key for `key` under an optional key-space prefix: the prefix,
/// a dot, and the key, or the bare key where no prefix is configured.
pub open spec fn spec_key(prefix: Option<Seq<char>>, key: Seq<char>) -> Seq<char> {
    match prefix {
        Some(p) => p + seq!['.'] + key,
        None => key,
    }
}

fn prefixed_key(prefix: Option<&String>, key: &str) -> (r: String)
    ensures
        r@ == spec_key(prefix.deep_view(), key@),
{
    match prefix {
        Some(p) => {
            let mut r = p.clone();
            r.append(".");
            r.append(key);
            proof {
                reveal_strlit(".");
                assert(("."@) =~= seq!['.']);
            }
            r
        },
        None => key.to_owned(),
    }
}

impl CRDTCommand {
    /// Builds the command adding `member` to the set at `key` under `prefix`.
    pub fn set_add(prefix: Option<&String>, key: &str, member: String) -> (r: CRDTCommand)
        ensures
            r.deep_view() == CommandView::SetAdd(spec_key(prefix.deep_view(), key@), member@),
    {
        CRDTCommand::SetAdd(prefixed_key(prefix, key), member)
    }

    /// Builds the command removing `member` from the set at `key` under
    /// `prefix`.
    pub fn set_remove(prefix: Option<&String>, key: &str, member: String) -> (r: CRDTCommand)
        ensures
            r.deep_view() == CommandView::SetRemove(spec_key(prefix.deep_view(), key@), member@),
    {
        CRDTCommand::SetRemove(prefixed_key(prefix, key), member)
    }

    /// Builds the command overwriting the scalar at `key` under `prefix`
    /// with `value`.
    pub fn any_write_wins(prefix: Option<&String>, key: &str, value: String) -> (r: CRDTCommand)
        ensures
            r.deep_view() == CommandView::AnyWriteWins(spec_key(prefix.deep_view(), key@), value@),
    {
        CRDTCommand::AnyWriteWins(prefixed_key(prefix, key), value)
    }
}

} // verus!
