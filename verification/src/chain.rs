//! The chain view: the transactions that the wallet knows, and what they
//! pay to the deposit address of a recycle.

use vstd::prelude::*;

verus! {

/// One output of a transaction.
#[derive(Debug, Clone, Copy, PartialEq, Eq, Structural)]
pub struct TxOutput {
    /// The index of the tracked address that the output pays, if it pays one.
    pub address_index: Option<u32>,
    pub value_sats: u64,
}

/// One transaction of the chain view.
#[derive(Debug, Clone)]
pub struct ChainTx {
    pub txid: String,
    pub outputs: Vec<TxOutput>,
    /// The height of the block that confirms the transaction, if any does.
    pub block_height: Option<u32>,
    /// For each input, the value of the output that it spends, where the
    /// parent transaction could be resolved; `None` for the whole where the
    /// transaction itself could not be fetched.
    pub input_values: Option<Vec<Option<u64>>>,
}

/// A transaction as a mathematical value.
pub struct TxModel {
    pub txid: Seq<char>,
    pub outputs: Seq<TxOutput>,
    pub block_height: Option<u32>,
    pub input_values: Option<Seq<Option<u64>>>,
}

impl View for ChainTx {
    type V = TxModel;

    open spec fn view(&self) -> TxModel {
        TxModel {
            txid: self.txid@,
            outputs: self.outputs@,
            block_height: self.block_height,
            input_values: match self.input_values {
                Some(v) => Some(v@),
                None => None,
            },
        }
    }
}

/// The wallet's view of the chain: the height of its tip, and the
/// transactions it knows, in the order in which it observed them.
#[derive(Debug, Clone)]
pub struct ChainView {
    pub tip_height: u32,
    pub transactions: Vec<ChainTx>,
}

/// A chain view as a mathematical value.
pub struct ChainModel {
    pub tip_height: u32,
    pub transactions: Seq<TxModel>,
}

impl View for ChainView {
    type V = ChainModel;

    open spec fn view(&self) -> ChainModel {
        ChainModel {
            tip_height: self.tip_height,
            transactions: self.transactions@.map_values(|t: ChainTx| t@),
        }
    }
}

/// What one transaction pays to a deposit address.
#[derive(Debug, Clone)]
pub struct TxDeposit {
    pub txid: String,
    pub amount_sats: u64,
    pub confirmations: u32,
    pub block_height: Option<u32>,
}

/// A deposit of one transaction as a mathematical value.
pub struct TxDepositModel {
    pub txid: Seq<char>,
    pub amount_sats: u64,
    pub confirmations: u32,
    pub block_height: Option<u32>,
}

impl View for TxDeposit {
    type V = TxDepositModel;

    open spec fn view(&self) -> TxDepositModel {
        TxDepositModel {
            txid: self.txid@,
            amount_sats: self.amount_sats,
            confirmations: self.confirmations,
            block_height: self.block_height,
        }
    }
}

/// Everything that was paid to one deposit address.
#[derive(Debug, Clone)]
pub struct DepositInfo {
    /// The paying transactions, in the order in which they were observed.
    pub txids: Vec<String>,
    /// The sum of the outputs that pay the address.
    pub amount_sats: u64,
    /// The lowest confirmation count; 0 if a transaction is unconfirmed.
    pub min_confirmations: u32,
    pub deposits: Vec<TxDeposit>,
}

/// The deposits to one address as a mathematical value.
pub struct DepositModel {
    pub txids: Seq<Seq<char>>,
    pub amount_sats: u64,
    pub min_confirmations: u32,
    pub deposits: Seq<TxDepositModel>,
}

impl View for DepositInfo {
    type V = DepositModel;

    open spec fn view(&self) -> DepositModel {
        DepositModel {
            txids: self.txids@.map_values(|t: String| t@),
            amount_sats: self.amount_sats,
            min_confirmations: self.min_confirmations,
            deposits: self.deposits@.map_values(|d: TxDeposit| d@),
        }
    }
}

/// Why the chain view could not be summed up.
#[derive(Debug, Clone, Copy, PartialEq, Eq, Structural)]
pub enum ChainError {
    /// The outputs paid to the address add up to more than an amount holds.
    ValueOverflow,
}

/// The confirmations of a transaction: `max(0, tip - height) + 1` once a
/// block at `height` confirms it, held at the largest count; 0 before.
pub open spec fn confirmations_at(tip_height: u32, block_height: Option<u32>) -> u32 {
    match block_height {
        None => 0,
        Some(h) => if tip_height <= h {
            1
        } else if tip_height - h + 1 > u32::MAX {
            u32::MAX
        } else {
            (tip_height - h + 1) as u32
        },
    }
}

/// Whether an output pays the tracked address with index `index`.
pub open spec fn output_pays(output: TxOutput, index: u32) -> bool {
    output.address_index == Some(index)
}

/// Whether some output pays the address with index `index`.
pub open spec fn pays(outputs: Seq<TxOutput>, index: u32) -> bool {
    exists|i: int| 0 <= i < outputs.len() && output_pays(#[trigger] outputs[i], index)
}

/// The sum of the outputs that pay the address with index `index`.
pub open spec fn paid_to(outputs: Seq<TxOutput>, index: u32) -> int
    decreases outputs.len(),
{
    if outputs.len() == 0 {
        0
    } else {
        paid_to(outputs.drop_last(), index) + if output_pays(outputs.last(), index) {
            outputs.last().value_sats as int
        } else {
            0
        }
    }
}

/// The sum of what all transactions pay to the address with index `index`.
pub open spec fn total_paid_to(txs: Seq<TxModel>, index: u32) -> int
    decreases txs.len(),
{
    if txs.len() == 0 {
        0
    } else {
        total_paid_to(txs.drop_last(), index) + paid_to(txs.last().outputs, index)
    }
}

/// What one transaction deposits at the address with index `index`.
pub open spec fn deposit_of(tx: TxModel, index: u32, tip_height: u32) -> TxDepositModel {
    TxDepositModel {
        txid: tx.txid,
        amount_sats: paid_to(tx.outputs, index) as u64,
        confirmations: confirmations_at(tip_height, tx.block_height),
        block_height: tx.block_height,
    }
}

/// The deposits at the address with index `index`: one for each
/// transaction with an output that pays it, in the order of the view.
pub open spec fn deposits_to(txs: Seq<TxModel>, index: u32, tip_height: u32) -> Seq<
    TxDepositModel,
>
    decreases txs.len(),
{
    if txs.len() == 0 {
        Seq::empty()
    } else {
        let rest = deposits_to(txs.drop_last(), index, tip_height);
        if pays(txs.last().outputs, index) {
            rest.push(deposit_of(txs.last(), index, tip_height))
        } else {
            rest
        }
    }
}

/// The sum of the amounts of deposits.
pub open spec fn total_sats(deposits: Seq<TxDepositModel>) -> int
    decreases deposits.len(),
{
    if deposits.len() == 0 {
        0
    } else {
        total_sats(deposits.drop_last()) + deposits.last().amount_sats
    }
}

/// The lowest confirmation count among deposits; 0 where there are none.
pub open spec fn least_confirmations(deposits: Seq<TxDepositModel>) -> u32
    decreases deposits.len(),
{
    if deposits.len() == 0 {
        0
    } else if deposits.len() == 1 {
        deposits[0].confirmations
    } else {
        let rest = least_confirmations(deposits.drop_last());
        if deposits.last().confirmations < rest {
            deposits.last().confirmations
        } else {
            rest
        }
    }
}

/// Whether every deposit is confirmed.
pub open spec fn all_confirmed(deposits: Seq<TxDepositModel>) -> bool {
    forall|i: int| 0 <= i < deposits.len() ==> (#[trigger] deposits[i]).block_height is Some
}

/// The lowest block height among the confirmed deposits.
pub open spec fn lowest_height(deposits: Seq<TxDepositModel>) -> Option<u32>
    decreases deposits.len(),
{
    if deposits.len() == 0 {
        None
    } else {
        match (lowest_height(deposits.drop_last()), deposits.last().block_height) {
            (None, h) => h,
            (Some(a), None) => Some(a),
            (Some(a), Some(b)) => Some(if b < a { b } else { a }),
        }
    }
}

/// The highest block height among the confirmed deposits.
pub open spec fn highest_height(deposits: Seq<TxDepositModel>) -> Option<u32>
    decreases deposits.len(),
{
    if deposits.len() == 0 {
        None
    } else {
        match (highest_height(deposits.drop_last()), deposits.last().block_height) {
            (None, h) => h,
            (Some(a), None) => Some(a),
            (Some(a), Some(b)) => Some(if b > a { b } else { a }),
        }
    }
}

/// What a chain view with the transactions `txs` holds for the address
/// with index `index`.
pub open spec fn aggregate(txs: Seq<TxModel>, index: u32, tip_height: u32) -> DepositModel {
    let deposits = deposits_to(txs, index, tip_height);
    DepositModel {
        txids: deposits.map_values(|d: TxDepositModel| d.txid),
        amount_sats: total_paid_to(txs, index) as u64,
        min_confirmations: least_confirmations(deposits),
        deposits,
    }
}

/// The lowest confirmation count is the count of one of the deposits, and
/// no deposit has a lower one.
pub proof fn lemma_least_confirmations_is_the_minimum(deposits: Seq<TxDepositModel>)
    requires
        deposits.len() > 0,
    ensures
        exists|i: int|
            0 <= i < deposits.len() && (#[trigger] deposits[i]).confirmations
                == least_confirmations(deposits),
        forall|i: int|
            0 <= i < deposits.len() ==> least_confirmations(deposits)
                <= (#[trigger] deposits[i]).confirmations,
    decreases deposits.len(),
{
    if deposits.len() == 1 {
        assert(deposits[0].confirmations == least_confirmations(deposits));
    } else {
        let rest = deposits.drop_last();
        lemma_least_confirmations_is_the_minimum(rest);
        let w = choose|i: int|
            0 <= i < rest.len() && (#[trigger] rest[i]).confirmations == least_confirmations(rest);
        assert(rest[w] == deposits[w]);
        if deposits.last().confirmations < least_confirmations(rest) {
            assert(deposits[deposits.len() - 1].confirmations == least_confirmations(deposits));
        } else {
            assert(deposits[w].confirmations == least_confirmations(deposits));
        }
        assert forall|i: int| 0 <= i < deposits.len() implies least_confirmations(deposits)
            <= (#[trigger] deposits[i]).confirmations by {
            if i < rest.len() {
                assert(rest[i] == deposits[i]);
            }
        }
    }
}

/// The lowest block height is the height of a confirmed deposit, and no
/// confirmed deposit is lower; there is none exactly where no deposit is
/// confirmed.
pub proof fn lemma_lowest_height_is_the_minimum(deposits: Seq<TxDepositModel>)
    ensures
        match lowest_height(deposits) {
            Some(m) => {
                &&& exists|i: int|
                    0 <= i < deposits.len() && (#[trigger] deposits[i]).block_height == Some(m)
                &&& forall|i: int|
                    0 <= i < deposits.len() ==> ((#[trigger] deposits[i]).block_height matches Some(
                        h,
                    ) ==> m <= h)
            },
            None => forall|i: int|
                0 <= i < deposits.len() ==> (#[trigger] deposits[i]).block_height is None,
        },
    decreases deposits.len(),
{
    if deposits.len() > 0 {
        let rest = deposits.drop_last();
        lemma_lowest_height_is_the_minimum(rest);
        assert forall|i: int| 0 <= i < rest.len() implies rest[i] == deposits[i] by {}
        match lowest_height(deposits) {
            Some(m) => {
                if deposits.last().block_height == Some(m) {
                    assert(deposits[deposits.len() - 1].block_height == Some(m));
                } else {
                    let w = choose|i: int|
                        0 <= i < rest.len() && (#[trigger] rest[i]).block_height == Some(m);
                    assert(deposits[w].block_height == Some(m));
                }
                assert forall|i: int| 0 <= i < deposits.len() implies ((
                #[trigger] deposits[i]).block_height matches Some(h) ==> m <= h) by {
                    if i < rest.len() {
                        assert(rest[i] == deposits[i]);
                    }
                }
            },
            None => {
                assert forall|i: int| 0 <= i < deposits.len() implies (
                #[trigger] deposits[i]).block_height is None by {
                    if i < rest.len() {
                        assert(rest[i] == deposits[i]);
                    }
                }
            },
        }
    }
}

/// The highest block height is the height of a confirmed deposit, and no
/// confirmed deposit is higher; there is none exactly where no deposit is
/// confirmed.
pub proof fn lemma_highest_height_is_the_maximum(deposits: Seq<TxDepositModel>)
    ensures
        match highest_height(deposits) {
            Some(m) => {
                &&& exists|i: int|
                    0 <= i < deposits.len() && (#[trigger] deposits[i]).block_height == Some(m)
                &&& forall|i: int|
                    0 <= i < deposits.len() ==> ((#[trigger] deposits[i]).block_height matches Some(
                        h,
                    ) ==> h <= m)
            },
            None => forall|i: int|
                0 <= i < deposits.len() ==> (#[trigger] deposits[i]).block_height is None,
        },
    decreases deposits.len(),
{
    if deposits.len() > 0 {
        let rest = deposits.drop_last();
        lemma_highest_height_is_the_maximum(rest);
        assert forall|i: int| 0 <= i < rest.len() implies rest[i] == deposits[i] by {}
        match highest_height(deposits) {
            Some(m) => {
                if deposits.last().block_height == Some(m) {
                    assert(deposits[deposits.len() - 1].block_height == Some(m));
                } else {
                    let w = choose|i: int|
                        0 <= i < rest.len() && (#[trigger] rest[i]).block_height == Some(m);
                    assert(deposits[w].block_height == Some(m));
                }
                assert forall|i: int| 0 <= i < deposits.len() implies ((
                #[trigger] deposits[i]).block_height matches Some(h) ==> h <= m) by {
                    if i < rest.len() {
                        assert(rest[i] == deposits[i]);
                    }
                }
            },
            None => {
                assert forall|i: int| 0 <= i < deposits.len() implies (
                #[trigger] deposits[i]).block_height is None by {
                    if i < rest.len() {
                        assert(rest[i] == deposits[i]);
                    }
                }
            },
        }
    }
}

/// Every deposit that a chain view holds for an address counts its
/// confirmations from its block height, so that the lowest count is 0 as
/// soon as one of them is unconfirmed.
pub proof fn lemma_unconfirmed_deposit_counts_zero(txs: Seq<TxModel>, index: u32, tip_height: u32)
    ensures
        forall|i: int|
            0 <= i < deposits_to(txs, index, tip_height).len() ==> (#[trigger] deposits_to(
                txs,
                index,
                tip_height,
            )[i]).confirmations == confirmations_at(
                tip_height,
                deposits_to(txs, index, tip_height)[i].block_height,
            ),
        !all_confirmed(deposits_to(txs, index, tip_height)) ==> least_confirmations(
            deposits_to(txs, index, tip_height),
        ) == 0,
    decreases txs.len(),
{
    let deposits = deposits_to(txs, index, tip_height);
    if txs.len() > 0 {
        lemma_unconfirmed_deposit_counts_zero(txs.drop_last(), index, tip_height);
        let rest = deposits_to(txs.drop_last(), index, tip_height);
        assert forall|i: int| 0 <= i < deposits.len() implies (#[trigger] deposits[i]).confirmations
            == confirmations_at(tip_height, deposits[i].block_height) by {
            if i < rest.len() {
                assert(deposits[i] == rest[i]);
            }
        }
    }
    if !all_confirmed(deposits) {
        let w = choose|i: int| 0 <= i < deposits.len() && (#[trigger] deposits[i]).block_height is None;
        assert(deposits[w].confirmations == 0);
        lemma_least_confirmations_is_the_minimum(deposits);
    }
}

/// Sums of outputs are not negative, and grow with the outputs.
pub proof fn lemma_paid_to_grows(outputs: Seq<TxOutput>, index: u32, k: int)
    requires
        0 <= k <= outputs.len(),
    ensures
        0 <= paid_to(outputs.take(k), index) <= paid_to(outputs, index),
    decreases outputs.len(),
{
    if outputs.len() == 0 {
        assert(outputs.take(k) =~= outputs);
    } else if k == outputs.len() {
        assert(outputs.take(k) =~= outputs);
        lemma_paid_to_grows(outputs.drop_last(), index, k - 1);
    } else {
        assert(outputs.drop_last().take(k) =~= outputs.take(k));
        lemma_paid_to_grows(outputs.drop_last(), index, k);
    }
}

/// Sums over transactions are not negative, and grow with the transactions.
pub proof fn lemma_total_paid_to_grows(txs: Seq<TxModel>, index: u32, k: int)
    requires
        0 <= k <= txs.len(),
    ensures
        0 <= total_paid_to(txs.take(k), index) <= total_paid_to(txs, index),
    decreases txs.len(),
{
    if txs.len() == 0 {
        assert(txs.take(k) =~= txs);
    } else {
        lemma_paid_to_grows(txs.last().outputs, index, 0);
        if k == txs.len() {
            assert(txs.take(k) =~= txs);
            lemma_total_paid_to_grows(txs.drop_last(), index, k - 1);
        } else {
            assert(txs.drop_last().take(k) =~= txs.take(k));
            lemma_total_paid_to_grows(txs.drop_last(), index, k);
        }
    }
}

/// A transaction without an output to an address pays nothing to it.
pub proof fn lemma_nothing_paid(outputs: Seq<TxOutput>, index: u32)
    requires
        !pays(outputs, index),
    ensures
        paid_to(outputs, index) == 0,
    decreases outputs.len(),
{
    if outputs.len() > 0 {
        assert(!output_pays(outputs[outputs.len() - 1], index));
        assert forall|i: int| 0 <= i < outputs.drop_last().len() implies !output_pays(
            #[trigger] outputs.drop_last()[i],
            index,
        ) by {
            assert(!output_pays(outputs[i], index));
        }
        lemma_nothing_paid(outputs.drop_last(), index);
    }
}

/// The confirmations of a transaction under a tip.
pub fn confirmations(tip_height: u32, block_height: Option<u32>) -> (c: u32)
    ensures
        c == confirmations_at(tip_height, block_height),
{
    match block_height {
        None => 0,
        Some(h) => {
            let depth = if tip_height > h {
                tip_height - h
            } else {
                0
            };
            if depth == u32::MAX {
                u32::MAX
            } else {
                depth + 1
            }
        },
    }
}

/// What the outputs of one transaction pay to the address with index
/// `index`: whether any output pays it, and their sum, or `None` where the
/// sum exceeds an amount.
fn sum_outputs(outputs: &Vec<TxOutput>, index: u32) -> (r: (bool, Option<u64>))
    ensures
        r.0 == pays(outputs@, index),
        match r.1 {
            Some(sum) => sum == paid_to(outputs@, index),
            None => paid_to(outputs@, index) > u64::MAX,
        },
{
    let mut found = false;
    let mut sum: u64 = 0;
    let mut j: usize = 0;
    assert(outputs@.take(0) =~= Seq::<TxOutput>::empty());
    while j < outputs.len()
        invariant
            j <= outputs.len(),
            found == pays(outputs@.take(j as int), index),
            sum == paid_to(outputs@.take(j as int), index),
        decreases outputs.len() - j,
    {
        let output = outputs[j];
        proof {
            let next = outputs@.take(j + 1);
            assert(next.drop_last() =~= outputs@.take(j as int));
            assert(next.last() == output);
            if pays(outputs@.take(j as int), index) {
                let w = choose|i: int|
                    0 <= i < outputs@.take(j as int).len() && output_pays(
                        #[trigger] outputs@.take(j as int)[i],
                        index,
                    );
                assert(output_pays(next[w], index));
            }
            if pays(next, index) && !output_pays(output, index) {
                let w = choose|i: int| 0 <= i < next.len() && output_pays(#[trigger] next[i], index);
                assert(output_pays(outputs@.take(j as int)[w], index));
            }
            if output_pays(output, index) {
                assert(output_pays(next[j as int], index));
            }
        }
        let pays_here = match output.address_index {
            Some(i) => i == index,
            None => false,
        };
        if pays_here {
            found = true;
            match sum.checked_add(output.value_sats) {
                Some(s) => {
                    sum = s;
                },
                None => {
                    proof {
                        lemma_paid_to_grows(outputs@, index, j + 1);
                    }
                    assert(output_pays(outputs@[j as int], index));
                    return (true, None);
                },
            }
        }
        j = j + 1;
    }
    assert(outputs@.take(j as int) =~= outputs@);
    (found, Some(sum))
}

/// Where the sum fits an amount, the amount of the aggregate is the sum of
/// the amounts of its deposits.
pub proof fn lemma_aggregate_sums_deposits(txs: Seq<TxModel>, index: u32, tip_height: u32)
    requires
        total_paid_to(txs, index) <= u64::MAX,
    ensures
        total_sats(deposits_to(txs, index, tip_height)) == total_paid_to(txs, index),
    decreases txs.len(),
{
    if txs.len() > 0 {
        lemma_paid_to_grows(txs.last().outputs, index, 0);
        lemma_total_paid_to_grows(txs.drop_last(), index, 0);
        lemma_aggregate_sums_deposits(txs.drop_last(), index, tip_height);
        if pays(txs.last().outputs, index) {
            let rest = deposits_to(txs.drop_last(), index, tip_height);
            let d = deposit_of(txs.last(), index, tip_height);
            assert(rest.push(d).drop_last() =~= rest);
        } else {
            lemma_nothing_paid(txs.last().outputs, index);
        }
    }
}

/// Text joined by commas.
pub open spec fn joined(parts: Seq<Seq<char>>) -> Seq<char>
    decreases parts.len(),
{
    if parts.len() == 0 {
        Seq::empty()
    } else if parts.len() == 1 {
        parts[0]
    } else {
        joined(parts.drop_last()) + seq![','] + parts.last()
    }
}

/// Everything that the chain view holds for the address with index
/// `address_index`: `None` where no transaction pays it.
pub fn check_address_deposit(view: &ChainView, address_index: u32) -> (r: Result<
    Option<DepositInfo>,
    ChainError,
>)
    ensures
        match r {
            Err(e) => e == ChainError::ValueOverflow && total_paid_to(
                view@.transactions,
                address_index,
            ) > u64::MAX,
            Ok(None) => total_paid_to(view@.transactions, address_index) <= u64::MAX
                && deposits_to(view@.transactions, address_index, view@.tip_height).len() == 0,
            Ok(Some(d)) => total_paid_to(view@.transactions, address_index) <= u64::MAX
                && deposits_to(view@.transactions, address_index, view@.tip_height).len() > 0
                && d@ == aggregate(view@.transactions, address_index, view@.tip_height),
        },
{
    let ghost txs = view@.transactions;
    let tip = view.tip_height;
    let mut txids: Vec<String> = Vec::new();
    let mut deposits: Vec<TxDeposit> = Vec::new();
    let mut total: u64 = 0;
    let mut lowest: u32 = 0;
    let mut i: usize = 0;
    assert(txs.take(0) =~= Seq::<TxModel>::empty());
    assert(deposits@.map_values(|d: TxDeposit| d@) =~= Seq::<TxDepositModel>::empty());
    assert(txids@.map_values(|t: String| t@) =~= Seq::<TxDepositModel>::empty().map_values(
        |d: TxDepositModel| d.txid,
    ));
    while i < view.transactions.len()
        invariant
            i <= view.transactions.len(),
            txs == view@.transactions,
            txs.len() == view.transactions.len(),
            tip == view.tip_height,
            total == total_paid_to(txs.take(i as int), address_index),
            deposits@.map_values(|d: TxDeposit| d@) == deposits_to(
                txs.take(i as int),
                address_index,
                tip,
            ),
            txids@.map_values(|t: String| t@) == deposits_to(
                txs.take(i as int),
                address_index,
                tip,
            ).map_values(|d: TxDepositModel| d.txid),
            lowest == least_confirmations(deposits_to(txs.take(i as int), address_index, tip)),
        decreases view.transactions.len() - i,
    {
        let tx = &view.transactions[i];
        let ghost before = deposits_to(txs.take(i as int), address_index, tip);
        proof {
            let next = txs.take(i + 1);
            assert(next.drop_last() =~= txs.take(i as int));
            assert(next.last() == tx@);
            lemma_total_paid_to_grows(txs, address_index, i + 1);
            lemma_total_paid_to_grows(txs, address_index, i as int);
            lemma_paid_to_grows(tx@.outputs, address_index, 0);
        }
        let (found, sum) = sum_outputs(&tx.outputs, address_index);
        let amount = match sum {
            Some(s) => s,
            None => {
                return Err(ChainError::ValueOverflow);
            },
        };
        match total.checked_add(amount) {
            Some(t) => {
                total = t;
            },
            None => {
                return Err(ChainError::ValueOverflow);
            },
        }
        if found {
            let count = confirmations(tip, tx.block_height);
            if deposits.len() == 0 || count < lowest {
                lowest = count;
            }
            let ghost old_deposits = deposits@.map_values(|d: TxDeposit| d@);
            let ghost old_txids = txids@.map_values(|t: String| t@);
            txids.push(tx.txid.clone());
            deposits.push(
                TxDeposit {
                    txid: tx.txid.clone(),
                    amount_sats: amount,
                    confirmations: count,
                    block_height: tx.block_height,
                },
            );
            proof {
                let d = deposit_of(tx@, address_index, tip);
                assert(deposits@.map_values(|d: TxDeposit| d@) =~= old_deposits.push(d));
                assert(txids@.map_values(|t: String| t@) =~= old_txids.push(d.txid));
                assert(before.push(d).map_values(|d: TxDepositModel| d.txid) =~= before.map_values(
                    |d: TxDepositModel| d.txid,
                ).push(d.txid));
                assert(before.push(d).drop_last() =~= before);
            }
        }
        i = i + 1;
    }
    assert(txs.take(i as int) =~= txs);
    if deposits.len() == 0 {
        Ok(None)
    } else {
        Ok(Some(DepositInfo { txids, amount_sats: total, min_confirmations: lowest, deposits }))
    }
}

impl DepositInfo {
    /// Whether every deposit is confirmed.
    pub fn all_confirmed(&self) -> (r: bool)
        ensures
            r == all_confirmed(self@.deposits),
    {
        let mut i: usize = 0;
        while i < self.deposits.len()
            invariant
                i <= self.deposits.len(),
                forall|k: int| 0 <= k < i ==> (#[trigger] self@.deposits[k]).block_height is Some,
            decreases self.deposits.len() - i,
        {
            if self.deposits[i].block_height.is_none() {
                assert(self@.deposits[i as int].block_height is None);
                return false;
            }
            i = i + 1;
        }
        true
    }

    /// The lowest block height among the confirmed deposits.
    pub fn min_block_height(&self) -> (r: Option<u32>)
        ensures
            r == lowest_height(self@.deposits),
    {
        let mut lowest: Option<u32> = None;
        let mut i: usize = 0;
        assert(self@.deposits.take(0) =~= Seq::<TxDepositModel>::empty());
        while i < self.deposits.len()
            invariant
                i <= self.deposits.len(),
                lowest == lowest_height(self@.deposits.take(i as int)),
            decreases self.deposits.len() - i,
        {
            proof {
                let next = self@.deposits.take(i + 1);
                assert(next.drop_last() =~= self@.deposits.take(i as int));
                assert(next.last() == self.deposits[i as int]@);
            }
            lowest = match (lowest, self.deposits[i].block_height) {
                (None, h) => h,
                (Some(a), None) => Some(a),
                (Some(a), Some(b)) => Some(if b < a { b } else { a }),
            };
            i = i + 1;
        }
        assert(self@.deposits.take(i as int) =~= self@.deposits);
        lowest
    }

    /// The highest block height among the confirmed deposits.
    pub fn max_block_height(&self) -> (r: Option<u32>)
        ensures
            r == highest_height(self@.deposits),
    {
        let mut highest: Option<u32> = None;
        let mut i: usize = 0;
        assert(self@.deposits.take(0) =~= Seq::<TxDepositModel>::empty());
        while i < self.deposits.len()
            invariant
                i <= self.deposits.len(),
                highest == highest_height(self@.deposits.take(i as int)),
            decreases self.deposits.len() - i,
        {
            proof {
                let next = self@.deposits.take(i + 1);
                assert(next.drop_last() =~= self@.deposits.take(i as int));
                assert(next.last() == self.deposits[i as int]@);
            }
            highest = match (highest, self.deposits[i].block_height) {
                (None, h) => h,
                (Some(a), None) => Some(a),
                (Some(a), Some(b)) => Some(if b > a { b } else { a }),
            };
            i = i + 1;
        }
        assert(self@.deposits.take(i as int) =~= self@.deposits);
        highest
    }

    /// The number of transactions that pay the address.
    pub fn deposit_count(&self) -> (n: usize)
        ensures
            n == self@.deposits.len(),
    {
        self.deposits.len()
    }

    /// The transaction ids joined by commas, as the record stores them.
    pub fn txids_csv(&self) -> (csv: String)
        ensures
            csv@ == joined(self@.txids),
    {
        let mut csv = String::new();
        let mut i: usize = 0;
        assert(self@.txids.take(0) =~= Seq::<Seq<char>>::empty());
        while i < self.txids.len()
            invariant
                i <= self.txids.len(),
                csv@ == joined(self@.txids.take(i as int)),
            decreases self.txids.len() - i,
        {
            proof {
                reveal_strlit(",");
                let next = self@.txids.take(i + 1);
                assert(next.drop_last() =~= self@.txids.take(i as int));
                assert(next.last() == self.txids[i as int]@);
                assert(","@ =~= seq![',']);
                if i == 1 {
                    assert(self@.txids.take(1)[0] == joined(self@.txids.take(1)));
                }
            }
            if i > 0 {
                csv.append(",");
            }
            csv.append(self.txids[i].as_str());
            proof {
                if i == 0 {
                    assert(csv@ =~= self.txids[0]@);
                }
            }
            i = i + 1;
        }
        assert(self@.txids.take(i as int) =~= self@.txids);
        csv
    }
}

/// The largest of the values that could be resolved; 0 where none could.
pub open spec fn largest_resolved(values: Seq<Option<u64>>) -> u64
    decreases values.len(),
{
    if values.len() == 0 {
        0
    } else {
        let rest = largest_resolved(values.drop_last());
        match values.last() {
            Some(v) => if v > rest {
                v
            } else {
                rest
            },
            None => rest,
        }
    }
}

/// The largest resolved value is at least every resolved value, and is one
/// of them unless it is 0.
pub proof fn lemma_largest_resolved_is_the_maximum(values: Seq<Option<u64>>)
    ensures
        forall|i: int|
            0 <= i < values.len() ==> ((#[trigger] values[i]) matches Some(v) ==> v
                <= largest_resolved(values)),
        largest_resolved(values) > 0 ==> exists|i: int|
            0 <= i < values.len() && #[trigger] values[i] == Some(largest_resolved(values)),
    decreases values.len(),
{
    if values.len() > 0 {
        let rest = values.drop_last();
        lemma_largest_resolved_is_the_maximum(rest);
        assert forall|i: int| 0 <= i < values.len() implies ((#[trigger] values[i]) matches Some(
            v,
        ) ==> v <= largest_resolved(values)) by {
            if i < rest.len() {
                assert(rest[i] == values[i]);
            }
        }
        if largest_resolved(values) > 0 {
            if values.last() == Some(largest_resolved(values)) {
                assert(values[values.len() - 1] == Some(largest_resolved(values)));
            } else {
                let w = choose|i: int|
                    0 <= i < rest.len() && #[trigger] rest[i] == Some(largest_resolved(rest));
                assert(values[w] == Some(largest_resolved(values)));
            }
        }
    }
}

/// The first transaction with the id `txid`.
pub open spec fn first_with_txid(txs: Seq<TxModel>, txid: Seq<char>) -> Option<TxModel>
    decreases txs.len(),
{
    if txs.len() == 0 {
        None
    } else {
        match first_with_txid(txs.drop_last(), txid) {
            Some(tx) => Some(tx),
            None => if txs.last().txid == txid {
                Some(txs.last())
            } else {
                None
            },
        }
    }
}

/// The largest value among the outputs that the inputs of the transaction
/// `txid` spend: `None` where the transaction is not in the view or could
/// not be fetched, and 0, for unknown, where no input could be resolved.
pub open spec fn max_input_value_of(txs: Seq<TxModel>, txid: Seq<char>) -> Option<u64> {
    match first_with_txid(txs, txid) {
        None => None,
        Some(tx) => match tx.input_values {
            None => None,
            Some(values) => Some(largest_resolved(values)),
        },
    }
}

/// The largest of `max_input_value_of` over `txids`: `None` as soon as it
/// is `None` for one of them.
pub open spec fn max_input_value_of_many(txs: Seq<TxModel>, txids: Seq<Seq<char>>) -> Option<u64>
    decreases txids.len(),
{
    if txids.len() == 0 {
        Some(0)
    } else {
        match (
            max_input_value_of_many(txs, txids.drop_last()),
            max_input_value_of(txs, txids.last()),
        ) {
            (Some(a), Some(b)) => Some(if b > a { b } else { a }),
            _ => None,
        }
    }
}

fn largest_of(values: &Vec<Option<u64>>) -> (r: u64)
    ensures
        r == largest_resolved(values@),
{
    let mut largest: u64 = 0;
    let mut i: usize = 0;
    assert(values@.take(0) =~= Seq::<Option<u64>>::empty());
    while i < values.len()
        invariant
            i <= values.len(),
            largest == largest_resolved(values@.take(i as int)),
        decreases values.len() - i,
    {
        proof {
            let next = values@.take(i + 1);
            assert(next.drop_last() =~= values@.take(i as int));
            assert(next.last() == values@[i as int]);
        }
        match values[i] {
            Some(v) => {
                if v > largest {
                    largest = v;
                }
            },
            None => {},
        }
        i = i + 1;
    }
    assert(values@.take(i as int) =~= values@);
    largest
}

/// The largest value among the outputs that the inputs of the transaction
/// `txid` spend.
pub fn max_input_value(view: &ChainView, txid: &str) -> (r: Option<u64>)
    ensures
        r == max_input_value_of(view@.transactions, txid@),
{
    let ghost txs = view@.transactions;
    let wanted = txid.to_owned();
    let mut i: usize = 0;
    assert(txs.take(0) =~= Seq::<TxModel>::empty());
    while i < view.transactions.len()
        invariant
            i <= view.transactions.len(),
            txs == view@.transactions,
            wanted@ == txid@,
            first_with_txid(txs.take(i as int), txid@) is None,
        decreases view.transactions.len() - i,
    {
        let tx = &view.transactions[i];
        proof {
            let next = txs.take(i + 1);
            assert(next.drop_last() =~= txs.take(i as int));
            assert(next.last() == tx@);
        }
        if tx.txid == wanted {
            proof {
                lemma_first_with_txid_stays(txs, txid@, i + 1);
            }
            return match &tx.input_values {
                None => None,
                Some(values) => Some(largest_of(values)),
            };
        }
        i = i + 1;
    }
    assert(txs.take(i as int) =~= txs);
    None
}

/// Once a prefix of the view holds a transaction with the id, the first
/// such transaction of the whole view is the one of the prefix.
pub proof fn lemma_first_with_txid_stays(txs: Seq<TxModel>, txid: Seq<char>, k: int)
    requires
        0 <= k <= txs.len(),
        first_with_txid(txs.take(k), txid) is Some,
    ensures
        first_with_txid(txs, txid) == first_with_txid(txs.take(k), txid),
    decreases txs.len(),
{
    if k == txs.len() {
        assert(txs.take(k) =~= txs);
    } else {
        assert(txs.drop_last().take(k) =~= txs.take(k));
        lemma_first_with_txid_stays(txs.drop_last(), txid, k);
    }
}

/// The largest input value over several transactions: `None` if one of
/// them cannot be resolved.
pub fn max_input_value_for_many(view: &ChainView, txids: &Vec<String>) -> (r: Option<u64>)
    ensures
        r == max_input_value_of_many(view@.transactions, txids@.map_values(|t: String| t@)),
{
    let ghost ids = txids@.map_values(|t: String| t@);
    let ghost txs = view@.transactions;
    let mut largest: u64 = 0;
    let mut i: usize = 0;
    assert(ids.take(0) =~= Seq::<Seq<char>>::empty());
    while i < txids.len()
        invariant
            i <= txids.len(),
            ids == txids@.map_values(|t: String| t@),
            txs == view@.transactions,
            max_input_value_of_many(txs, ids.take(i as int)) == Some(largest),
        decreases txids.len() - i,
    {
        proof {
            let next = ids.take(i + 1);
            assert(next.drop_last() =~= ids.take(i as int));
            assert(next.last() == txids[i as int]@);
        }
        match max_input_value(view, txids[i].as_str()) {
            None => {
                proof {
                    lemma_unresolved_stays(txs, ids, i + 1);
                }
                return None;
            },
            Some(v) => {
                if v > largest {
                    largest = v;
                }
            },
        }
        i = i + 1;
    }
    assert(ids.take(i as int) =~= ids);
    Some(largest)
}

/// Once a prefix of the ids holds one that cannot be resolved, the whole
/// cannot.
pub proof fn lemma_unresolved_stays(txs: Seq<TxModel>, txids: Seq<Seq<char>>, k: int)
    requires
        0 <= k <= txids.len(),
        max_input_value_of_many(txs, txids.take(k)) is None,
    ensures
        max_input_value_of_many(txs, txids) is None,
    decreases txids.len(),
{
    if k == txids.len() {
        assert(txids.take(k) =~= txids);
    } else {
        assert(txids.drop_last().take(k) =~= txids.take(k));
        lemma_unresolved_stays(txs, txids.drop_last(), k);
    }
}

} // verus!
