use itertools::Itertools;
use vstd::prelude::*;

verus! {

/// The script type that a node reports for an output.
#[derive(Clone, Copy, Debug, PartialEq, Eq, Structural)]
pub enum AddressKind {
    Nonstandard,
    PubKey,
    PubKeyHash,
    ScriptHash,
    Multisig,
    Nulldata,
    WitnessV0Scripthash,
    WitnessV0Keyhash,
    Witnessv1Taproot,
    WitnessUnknown,
}

/// An output's locking script: its type and, where it has one, its address.
#[derive(Clone, Debug)]
pub struct ScriptPubKey {
    pub address: Option<String>,
    pub kind: AddressKind,
}

#[derive(Clone, Debug)]
pub struct Output {
    pub script_pub_key: ScriptPubKey,
}

#[derive(Clone, Debug)]
pub struct Transaction {
    pub vout: Vec<Output>,
}

/// A block as a node returns it, with its transactions.
#[derive(Clone, Debug)]
pub struct Block {
    pub tx: Vec<Transaction>,
}

/// The addresses to record for one block height.
#[derive(Clone, Debug)]
pub struct BlockData {
    pub block_number: u64,
    pub addresses: Vec<String>,
}

/// The script types whose addresses are indexed: pay-to-pubkey-hash,
/// pay-to-witness-pubkey-hash and pay-to-script-hash.
pub open spec fn is_indexed_kind(kind: AddressKind) -> bool {
    kind is PubKeyHash || kind is WitnessV0Keyhash || kind is ScriptHash
}

/// The address that an output contributes, if any.
pub open spec fn output_address(o: Output) -> Option<Seq<char>> {
    if is_indexed_kind(o.script_pub_key.kind) && o.script_pub_key.address is Some {
        Some(o.script_pub_key.address->Some_0@)
    } else {
        None
    }
}

/// The addresses of a run of outputs, in order, duplicates kept.
pub open spec fn output_addresses(outs: Seq<Output>) -> Seq<Seq<char>>
    decreases outs.len(),
{
    if outs.len() == 0 {
        seq![]
    } else {
        let rest = output_addresses(outs.drop_last());
        match output_address(outs.last()) {
            Some(a) => rest.push(a),
            None => rest,
        }
    }
}

/// The addresses of every output of every transaction, in order, duplicates kept.
pub open spec fn transaction_addresses(txs: Seq<Transaction>) -> Seq<Seq<char>>
    decreases txs.len(),
{
    if txs.len() == 0 {
        seq![]
    } else {
        transaction_addresses(txs.drop_last()) + output_addresses(txs.last().vout@)
    }
}

/// Each item at its first occurrence, in order.
pub open spec fn first_occurrences(s: Seq<Seq<char>>) -> Seq<Seq<char>>
    decreases s.len(),
{
    if s.len() == 0 {
        seq![]
    } else {
        let d = first_occurrences(s.drop_last());
        if d.contains(s.last()) {
            d
        } else {
            d.push(s.last())
        }
    }
}

pub open spec fn string_views(v: Seq<String>) -> Seq<Seq<char>> {
    v.map_values(|s: String| s@)
}

/// Pushing `x` adds exactly `x` to what a sequence contains.
pub(crate) proof fn lemma_push_contains<T>(d: Seq<T>, x: T, a: T)
    ensures
        d.push(x).contains(a) <==> d.contains(a) || a == x,
{
    let p = d.push(x);
    if d.contains(a) {
        let i = choose|i: int| 0 <= i < d.len() && d[i] == a;
        assert(p[i] == a);
    }
    if a == x {
        assert(p[d.len() as int] == a);
    }
    if p.contains(a) {
        let i = choose|i: int| 0 <= i < p.len() && p[i] == a;
        if i < d.len() {
            assert(d[i] == a);
        }
    }
}

/// `first_occurrences` keeps exactly the items of `s`, none twice.
pub proof fn lemma_first_occurrences(s: Seq<Seq<char>>)
    ensures
        forall|a: Seq<char>| first_occurrences(s).contains(a) <==> s.contains(a),
        first_occurrences(s).no_duplicates(),
    decreases s.len(),
{
    if s.len() > 0 {
        let init = s.drop_last();
        let x = s.last();
        let d = first_occurrences(init);
        lemma_first_occurrences(init);
        assert(s =~= init.push(x));
        assert forall|a: Seq<char>| first_occurrences(s).contains(a) <==> s.contains(a) by {
            lemma_push_contains(init, x, a);
            lemma_push_contains(d, x, a);
        }
        if !d.contains(x) {
            let p = d.push(x);
            assert forall|i: int, j: int| 0 <= i < p.len() && 0 <= j < p.len() && i != j implies p[i] != p[j] by {
                if i == d.len() {
                    assert(d[j] == p[j]);
                } else if j == d.len() {
                    assert(d[i] == p[i]);
                }
            }
        }
    }
}

proof fn lemma_output_addresses_contains(outs: Seq<Output>, a: Seq<char>)
    ensures
        output_addresses(outs).contains(a) <==> exists|k: int|
            0 <= k < outs.len() && #[trigger] output_address(outs[k]) == Some(a),
    decreases outs.len(),
{
    if outs.len() > 0 {
        let init = outs.drop_last();
        let rest = output_addresses(init);
        lemma_output_addresses_contains(init, a);
        if let Some(b) = output_address(outs.last()) {
            lemma_push_contains(rest, b, a);
        }
        if exists|k: int| 0 <= k < init.len() && #[trigger] output_address(init[k]) == Some(a) {
            let k = choose|k: int| 0 <= k < init.len() && #[trigger] output_address(init[k]) == Some(a);
            assert(outs[k] == init[k]);
        }
        if exists|k: int| 0 <= k < outs.len() && #[trigger] output_address(outs[k]) == Some(a) {
            let k = choose|k: int| 0 <= k < outs.len() && #[trigger] output_address(outs[k]) == Some(a);
            if k < outs.len() - 1 {
                assert(init[k] == outs[k]);
            }
        }
    }
}

proof fn lemma_transaction_addresses_contains(txs: Seq<Transaction>, a: Seq<char>)
    ensures
        transaction_addresses(txs).contains(a) <==> exists|t: int, k: int|
            0 <= t < txs.len() && 0 <= k < txs[t].vout@.len() && #[trigger] output_address(
                txs[t].vout@[k],
            ) == Some(a),
    decreases txs.len(),
{
    if txs.len() > 0 {
        let init = txs.drop_last();
        let last = txs.last().vout@;
        lemma_transaction_addresses_contains(init, a);
        lemma_output_addresses_contains(last, a);
        let left = transaction_addresses(init);
        let right = output_addresses(last);
        assert(transaction_addresses(txs) == left + right);
        if left.contains(a) {
            let i = choose|i: int| 0 <= i < left.len() && left[i] == a;
            assert((left + right)[i] == a);
            let (t, k) = choose|t: int, k: int|
                0 <= t < init.len() && 0 <= k < init[t].vout@.len() && #[trigger] output_address(
                    init[t].vout@[k],
                ) == Some(a);
            assert(txs[t] == init[t]);
        }
        if right.contains(a) {
            let i = choose|i: int| 0 <= i < right.len() && right[i] == a;
            assert((left + right)[left.len() + i] == a);
            let k = choose|k: int| 0 <= k < last.len() && #[trigger] output_address(last[k]) == Some(a);
            assert(txs[txs.len() - 1].vout@[k] == last[k]);
        }
        if (left + right).contains(a) {
            let i = choose|i: int| 0 <= i < (left + right).len() && (left + right)[i] == a;
            if i < left.len() {
                assert(left[i] == a);
            } else {
                assert(right[i - left.len()] == a);
            }
        }
        if exists|t: int, k: int|
            0 <= t < txs.len() && 0 <= k < txs[t].vout@.len() && #[trigger] output_address(
                txs[t].vout@[k],
            ) == Some(a) {
            let (t, k) = choose|t: int, k: int|
                0 <= t < txs.len() && 0 <= k < txs[t].vout@.len() && #[trigger] output_address(
                    txs[t].vout@[k],
                ) == Some(a);
            if t < txs.len() - 1 {
                assert(init[t] == txs[t]);
                assert(output_address(init[t].vout@[k]) == Some(a));
            } else {
                assert(output_address(last[k]) == Some(a));
            }
        }
    }
}

/// Extraction keeps an address exactly when some output of an indexed kind
/// (pay-to-pubkey-hash, pay-to-witness-pubkey-hash, pay-to-script-hash)
/// carries it: multisig, null-data, bare-pubkey, unknown-witness and other
/// outputs contribute nothing. No address is listed twice.
pub proof fn lemma_extraction_keeps_indexed_outputs(block: Block, a: Seq<char>)
    ensures
        first_occurrences(transaction_addresses(block.tx@)).contains(a) <==> exists|t: int, k: int|
            {
                &&& 0 <= t < block.tx@.len()
                &&& 0 <= k < block.tx@[t].vout@.len()
                &&& is_indexed_kind(block.tx@[t].vout@[k].script_pub_key.kind)
                &&& #[trigger] block.tx@[t].vout@[k].script_pub_key.address matches Some(s) && s@ == a
            },
        first_occurrences(transaction_addresses(block.tx@)).no_duplicates(),
{
    let txs = block.tx@;
    lemma_first_occurrences(transaction_addresses(txs));
    lemma_transaction_addresses_contains(txs, a);
    if exists|t: int, k: int|
        0 <= t < txs.len() && 0 <= k < txs[t].vout@.len() && #[trigger] output_address(
            txs[t].vout@[k],
        ) == Some(a) {
        let (t, k) = choose|t: int, k: int|
            0 <= t < txs.len() && 0 <= k < txs[t].vout@.len() && #[trigger] output_address(
                txs[t].vout@[k],
            ) == Some(a);
        assert(txs[t].vout@[k].script_pub_key.address matches Some(s) && s@ == a);
    }
    if exists|t: int, k: int|
        {
            &&& 0 <= t < txs.len()
            &&& 0 <= k < txs[t].vout@.len()
            &&& is_indexed_kind(txs[t].vout@[k].script_pub_key.kind)
            &&& #[trigger] txs[t].vout@[k].script_pub_key.address matches Some(s) && s@ == a
        } {
        let (t, k) = choose|t: int, k: int|
            {
                &&& 0 <= t < txs.len()
                &&& 0 <= k < txs[t].vout@.len()
                &&& is_indexed_kind(txs[t].vout@[k].script_pub_key.kind)
                &&& #[trigger] txs[t].vout@[k].script_pub_key.address matches Some(s) && s@ == a
            };
        assert(output_address(txs[t].vout@[k]) == Some(a));
    }
}

/// Relies on itertools' `Itertools::unique`: the items in their order, each
/// kept at its first occurrence (equality of strings).
#[verifier::external_body]
fn unique_strings(v: Vec<String>) -> (r: Vec<String>)
    ensures
        string_views(r@) == first_occurrences(string_views(v@)),
{
    v.into_iter().unique().collect()
}

/// The block data for a fetched block: the addresses of its indexed outputs,
/// each once, in order of first appearance.
pub fn api_block_to_block_data(api_block: Block, block_number: u64) -> (r: BlockData)
    ensures
        r.block_number == block_number,
        string_views(r.addresses@) == first_occurrences(transaction_addresses(api_block.tx@)),
{
    let mut found: Vec<String> = Vec::new();
    let mut t: usize = 0;
    while t < api_block.tx.len()
        invariant
            t <= api_block.tx@.len(),
            string_views(found@) == transaction_addresses(api_block.tx@.subrange(0, t as int)),
        decreases api_block.tx@.len() - t,
    {
        let outs = &api_block.tx[t].vout;
        let ghost before = string_views(found@);
        let mut o: usize = 0;
        while o < outs.len()
            invariant
                o <= outs@.len(),
                string_views(found@) == before + output_addresses(outs@.subrange(0, o as int)),
            decreases outs@.len() - o,
        {
            let spk = &outs[o].script_pub_key;
            proof {
                assert(outs@.subrange(0, o as int + 1).drop_last() =~= outs@.subrange(0, o as int));
            }
            let kept = match spk.kind {
                AddressKind::PubKeyHash | AddressKind::WitnessV0Keyhash | AddressKind::ScriptHash => true,
                _ => false,
            };
            if kept {
                if let Some(a) = &spk.address {
                    let ghost old_found = found@;
                    found.push(a.clone());
                    proof {
                        assert(string_views(found@) =~= string_views(old_found).push(a@));
                    }
                }
            }
            o = o + 1;
        }
        proof {
            assert(outs@.subrange(0, outs@.len() as int) =~= outs@);
            assert(api_block.tx@.subrange(0, t as int + 1).drop_last() =~= api_block.tx@.subrange(0, t as int));
        }
        t = t + 1;
    }
    proof {
        assert(api_block.tx@.subrange(0, api_block.tx@.len() as int) =~= api_block.tx@);
    }
    BlockData { block_number, addresses: unique_strings(found) }
}

} // verus!
