//! The quota of one target: what a poll of the ledger yields, and the
//! snapshot that is published from it.

use crate::config::{ConfigError, IniParameters, MinerIni};
use crate::encoding::{be_bytes, hex_encode, hex_text, to_be_bytes};
use crate::qkc::{
    parse_tagged_u128, parse_tagged_u64, tagged_quantity, AccountData, Balance, MinorBlockData,
    ReplyError, RootBlockData,
};
use crate::types::{
    address_text, coinbase_text, marker, parsed_full, AddressError, AddressView, QkcAddress,
};
use std::sync::Arc;
use vstd::prelude::*;
use vstd::string::{StringExecFns, StringSliceAdditionalSpecFns};
use vstd::utf8::encode_utf8;

verus! {

/// What one poll found of one target.
#[derive(Debug, Clone, PartialEq)]
pub struct AllowanceInfo {
    pub config: Arc<IniParameters>,
    pub config_ini: Arc<MinerIni>,
    pub address: Arc<QkcAddress>,
    pub difficulty: u128,
    pub used: u32,
    pub allowances: u32,
}

/// `Arc::clone`: one more handle on the same value.
#[verifier::external_body]
pub(crate) fn share<T>(handle: &Arc<T>) -> (other: Arc<T>)
    ensures
        other == *handle,
{
    Arc::clone(handle)
}

impl AllowanceInfo {
    /// The quota that counts: the configured one where there is one, else
    /// the one that the balance gives.
    pub open spec fn cap(&self) -> int {
        match self.config.allowances_to_use {
            Some(allowances) => allowances as int,
            None => self.allowances as int,
        }
    }

    /// The room that must be left under the quota before a target may start.
    pub open spec fn margin(&self) -> int {
        self.config.mine_at_free_allowances_from_max as int
    }

    /// The text of the address, by which snapshots of one target are told
    /// from those of another.
    pub open spec fn identity(&self) -> Seq<char> {
        address_text(self.address@)
    }

    pub open spec fn spec_ready_to_mine(&self) -> bool {
        self.used <= self.cap() - self.margin()
    }

    pub open spec fn spec_continue_mining(&self) -> bool {
        self.used < self.cap()
    }

    pub open spec fn spec_difficulty(&self) -> u128 {
        self.difficulty
    }

    pub open spec fn spec_priority(&self) -> u16 {
        self.config.priority
    }

    fn quota(&self) -> (cap: u32)
        ensures
            cap == self.cap(),
    {
        match self.config.allowances_to_use {
            Some(allowances) => allowances,
            None => self.allowances,
        }
    }

    /// Whether the target may start: what it used leaves the margin free.
    #[verifier::when_used_as_spec(spec_ready_to_mine)]
    pub fn ready_to_mine(&self) -> (ready: bool)
        ensures
            ready == (self.used <= self.cap() - self.margin()),
    {
        match self.quota().checked_sub(self.config.mine_at_free_allowances_from_max) {
            Some(room) => self.used <= room,
            None => false,
        }
    }

    /// Whether a running target may go on: it is still under its quota.
    #[verifier::when_used_as_spec(spec_continue_mining)]
    pub fn continue_mining(&self) -> (go_on: bool)
        ensures
            go_on == (self.used < self.cap()),
    {
        self.used < self.quota()
    }

    #[verifier::when_used_as_spec(spec_difficulty)]
    pub fn difficulty(&self) -> (difficulty: u128)
        ensures
            difficulty == self.difficulty,
    {
        self.difficulty
    }

    #[verifier::when_used_as_spec(spec_priority)]
    pub fn priority(&self) -> (priority: u16)
        ensures
            priority == self.config.priority,
    {
        self.config.priority
    }

    /// The same snapshot once more.
    pub fn duplicate(&self) -> (copy: AllowanceInfo)
        ensures
            copy == *self,
    {
        AllowanceInfo {
            config: share(&self.config),
            config_ini: share(&self.config_ini),
            address: share(&self.address),
            difficulty: self.difficulty,
            used: self.used,
            allowances: self.allowances,
        }
    }

    /// Whether two snapshots are of one target: their addresses read the same.
    pub fn same_target(&self, other: &AllowanceInfo) -> (same: bool)
        ensures
            same == (self.identity() == other.identity()),
    {
        let mine = self.address.to_string();
        let theirs = other.address.to_string();
        mine == theirs
    }
}

/// A target that may start may also go on, unless it has no margin and has
/// used its quota up exactly.
pub proof fn lemma_ready_implies_continue(info: AllowanceInfo)
    requires
        info.margin() > 0 || info.used != info.cap(),
        info.ready_to_mine(),
    ensures
        info.continue_mining(),
{
}

/// Going on needs less than starting: between the two thresholds a running
/// target stays, and a waiting one does not start.
pub proof fn lemma_hysteresis(info: AllowanceInfo)
    requires
        info.cap() - info.margin() < info.used < info.cap(),
    ensures
        info.continue_mining(),
        !info.ready_to_mine(),
{
}

/// The stake that gives one allowance on the root chain: 681 500 tokens
/// of 10^18 units each, to the precision of a double.
pub const ROOT_ALLOWANCE: u128 = 681_500_000_000_000_017_825_792;

/// The seconds from the start of one poll to the start of the next.
pub const POLL_PERIOD: u64 = 60;

/// The number of blocks before the latest that a poll looks at.
pub const WINDOW: u64 = 255;

/// The number of blocks that are asked for in one batch.
pub const BATCH: usize = 10;

/// By how much the difficulty of a block is divided.
pub const DIFFICULTY_DIVISOR: u128 = 20;

/// The balance that gives one allowance on a chain, each a round number
/// of tokens to the precision of a double. Chain zero and the chains from
/// eight on have none.
pub open spec fn unit_of(chain_id: u16) -> Option<u128> {
    if chain_id == 1 {
        Some(13_629_000_000_000_000_786_432u128)
    } else if chain_id == 2 || chain_id == 6 {
        Some(27_258_999_999_999_999_213_568u128)
    } else if chain_id == 3 {
        Some(54_517_999_999_999_998_427_136u128)
    } else if chain_id == 4 || chain_id == 7 {
        Some(109_035_000_000_000_003_407_872u128)
    } else if chain_id == 5 {
        Some(218_070_999_999_999_983_484_928u128)
    } else {
        None
    }
}

/// The allowances that a balance gives: as many as whole units fit in
/// it, kept to the 32 bits of the count.
pub open spec fn units_in(balance: u128, unit: u128) -> u32 {
    ((balance / unit) % 0x1_0000_0000) as u32
}

/// The balance that gives one allowance to an address on a shard: that of
/// its chain, where the chain is written as a number and has one.
pub open spec fn chain_unit_of(address: AddressView) -> Option<u128> {
    if address.chain_id.len() != 2 {
        None
    } else {
        unit_of((256 * address.chain_id[0] + address.chain_id[1]) as u16)
    }
}

/// The balance once one was asked for: the one that was known, else the
/// new one.
pub open spec fn recorded(known: Option<u128>, balance: u128) -> Option<u128> {
    if known is Some {
        known
    } else {
        Some(balance)
    }
}

/// The heights of the blocks before `latest` that a poll looks at: the
/// 255 before it, or all before it where there are fewer.
pub open spec fn window_heights(latest: u64) -> Seq<u64> {
    let count = if latest < WINDOW {
        latest
    } else {
        WINDOW
    };
    Seq::new(count as nat, |i: int| (latest - count + i) as u64)
}

/// The identifier of the block at a height: the marker and the sixteen
/// digits of the height.
pub open spec fn block_id(height: u64) -> Seq<char> {
    marker() + hex_text(be_bytes(height as nat, 8))
}

/// The batches in which `ids` are asked for: ten each, in order, the rest
/// in the last.
pub open spec fn batched(ids: Seq<String>, batches: Seq<Vec<String>>) -> bool {
    &&& batches.len() == (ids.len() + BATCH - 1) / BATCH as int
    &&& forall|k: int|
        0 <= k < batches.len() ==> (#[trigger] batches[k])@ == ids.subrange(
            k * BATCH,
            if (k + 1) * BATCH <= ids.len() {
                (k + 1) * BATCH
            } else {
                ids.len() as int
            },
        )
}

/// The batches put together, if none of them is missing.
pub open spec fn joined<T>(parts: Seq<Option<Vec<T>>>) -> Option<Seq<T>>
    decreases parts.len(),
{
    if parts.len() == 0 {
        Some(Seq::empty())
    } else {
        match (parts[0], joined(parts.drop_first())) {
            (Some(first), Some(rest)) => Some(first@ + rest),
            _ => None,
        }
    }
}

/// How many of the miners begin with the coinbase, byte for byte.
pub open spec fn mined(miners: Seq<String>, coinbase: Seq<u8>) -> nat
    decreases miners.len(),
{
    if miners.len() == 0 {
        0
    } else {
        mined(miners.drop_last(), coinbase) + if coinbase.is_prefix_of(
            encode_utf8(miners.last()@),
        ) {
            1nat
        } else {
            0nat
        }
    }
}

/// A count, kept to what 32 bits hold.
pub open spec fn capped(count: nat) -> u32 {
    if count <= u32::MAX {
        count as u32
    } else {
        u32::MAX
    }
}

/// The first balance in the token QKC.
pub open spec fn first_qkc(balances: Seq<Balance>) -> Option<Balance>
    decreases balances.len(),
{
    if balances.len() == 0 {
        None
    } else if balances[0].token_str@ == "QKC"@ {
        Some(balances[0])
    } else {
        first_qkc(balances.drop_first())
    }
}

/// Why a poll yields no snapshot.
#[derive(Debug, Clone, Copy, PartialEq, Eq, Structural)]
pub enum PollError {
    /// A reply of the ledger could not be read.
    Reply(ReplyError),
    /// The chain of the target has no allowance unit.
    NoUnit,
    /// No balance was recorded yet, so there is nothing to derive the
    /// allowances from.
    NoBalance,
    /// A batch of blocks is missing.
    Incomplete,
    /// The ledger did not answer a request.
    Fetch,
}

/// What the poller does when a cycle is over.
#[derive(Debug, Clone, PartialEq)]
pub enum PollAction {
    /// Publish the snapshot, then sleep until the period is over.
    Publish(AllowanceInfo),
    /// Begin the cycle again at once; nothing is published.
    Retry,
}

/// The poller of one target: what it keeps from cycle to cycle.
#[derive(Debug, Clone, PartialEq)]
pub struct AllowanceThread {
    pub config: Arc<MinerIni>,
    pub balance: Option<u128>,
    pub address: Arc<QkcAddress>,
    pub config_file: Arc<IniParameters>,
}

/// The balance that gives one allowance on a chain, if the chain has one.
pub fn allowance_unit(chain_id: u16) -> (unit: Option<u128>)
    ensures
        unit == unit_of(chain_id),
        unit matches Some(u) ==> u > 0,
{
    if chain_id == 1 {
        Some(13_629_000_000_000_000_786_432u128)
    } else if chain_id == 2 || chain_id == 6 {
        Some(27_258_999_999_999_999_213_568u128)
    } else if chain_id == 3 {
        Some(54_517_999_999_999_998_427_136u128)
    } else if chain_id == 4 || chain_id == 7 {
        Some(109_035_000_000_000_003_407_872u128)
    } else if chain_id == 5 {
        Some(218_070_999_999_999_983_484_928u128)
    } else {
        None
    }
}

/// The allowances that a balance gives.
pub fn allowances_of(balance: u128, unit: u128) -> (allowances: u32)
    requires
        unit > 0,
    ensures
        allowances == units_in(balance, unit),
{
    ((balance / unit) % 0x1_0000_0000) as u32
}

/// The identifier by which the block at a height is asked for.
pub fn block_id_of(height: u64) -> (id: String)
    ensures
        id@ == block_id(height),
{
    let bytes = to_be_bytes(height, 8);
    let digits = hex_encode(bytes.as_slice());
    let mut id = String::from_str("0x");
    proof {
        reveal_strlit("0x");
        assert("0x"@ =~= marker());
    }
    id.append(digits.as_str());
    id
}

/// The identifiers of the blocks before `latest` that a poll looks at.
pub fn window_ids(latest: u64) -> (ids: Vec<String>)
    ensures
        ids.len() == window_heights(latest).len(),
        forall|i: int|
            0 <= i < ids.len() ==> (#[trigger] ids[i])@ == block_id(window_heights(latest)[i]),
{
    let count: u64 = if latest < WINDOW {
        latest
    } else {
        WINDOW
    };
    let first: u64 = latest - count;
    let mut ids: Vec<String> = Vec::new();
    let mut i: u64 = 0;
    while i < count
        invariant
            i <= count <= WINDOW,
            first + count == latest,
            count == window_heights(latest).len(),
            ids.len() == i,
            forall|k: int|
                0 <= k < i ==> (#[trigger] ids[k])@ == block_id(window_heights(latest)[k]),
        decreases count - i,
    {
        ids.push(block_id_of(first + i));
        i += 1;
    }
    ids
}

/// Parts the identifiers into the batches in which they are asked for.
pub fn chunks(ids: &Vec<String>) -> (batches: Vec<Vec<String>>)
    ensures
        batched(ids@, batches@),
{
    let mut batches: Vec<Vec<String>> = Vec::new();
    let mut start: usize = 0;
    while start < ids.len()
        invariant
            start <= ids.len(),
            start % BATCH == 0 || start == ids.len(),
            start == ids.len() ==> batches.len() == (ids.len() + BATCH - 1) / BATCH as int,
            start < ids.len() ==> batches.len() == start / BATCH,
            forall|k: int|
                0 <= k < batches.len() ==> (#[trigger] batches[k])@ == ids@.subrange(
                    k * BATCH,
                    if (k + 1) * BATCH <= ids.len() {
                        (k + 1) * BATCH
                    } else {
                        ids.len() as int
                    },
                ),
        decreases ids.len() - start,
    {
        let end: usize = if ids.len() - start > BATCH {
            start + BATCH
        } else {
            ids.len()
        };
        let mut batch: Vec<String> = Vec::new();
        let mut i: usize = start;
        while i < end
            invariant
                start <= i <= end <= ids.len(),
                batch@ == ids@.subrange(start as int, i as int),
            decreases end - i,
        {
            batch.push(ids[i].clone());
            assert(batch@ =~= ids@.subrange(start as int, i + 1));
            i += 1;
        }
        batches.push(batch);
        start = end;
    }
    batches
}

/// Puts the batches together in their order. If one is missing, the
/// cycle has failed.
pub fn gather<T>(parts: Vec<Option<Vec<T>>>) -> (all: Result<Vec<T>, PollError>)
    ensures
        match joined(parts@) {
            Some(items) => all matches Ok(v) && v@ == items,
            None => all == Err::<Vec<T>, PollError>(PollError::Incomplete),
        },
{
    let mut left = parts;
    let ghost whole = left@;
    let mut all: Vec<T> = Vec::new();
    while left.len() > 0
        invariant
            whole == parts@,
            joined(whole) == match joined(left@) {
                Some(rest) => Some(all@ + rest),
                None => None,
            },
        ensures
            joined(whole) == Some(all@),
        decreases left.len(),
    {
        let ghost before = left@;
        let ghost sofar = all@;
        let part = left.remove(0);
        assert(left@ =~= before.drop_first());
        match part {
            Some(mut items) => {
                all.append(&mut items);
                proof {
                    if let Some(rest) = joined(left@) {
                        assert((sofar + before[0]->0@) + rest =~= sofar + (before[0]->0@ + rest));
                    }
                }
            },
            None => {
                assert(joined(before) is None);
                return Err(PollError::Incomplete);
            },
        }
    }
    Ok(all)
}

/// The miners of the blocks that a poll counts: that of the latest block,
/// then those of the blocks before it, batch by batch. If a batch is
/// missing, the cycle has failed.
pub fn window_miners(latest: String, parts: Vec<Option<Vec<String>>>) -> (r: Result<
    Vec<String>,
    PollError,
>)
    ensures
        match joined(parts@) {
            Some(rest) => r matches Ok(m) && m@ == seq![latest] + rest,
            None => r == Err::<Vec<String>, PollError>(PollError::Incomplete),
        },
{
    match gather(parts) {
        Ok(mut rest) => {
            let ghost before = rest@;
            let mut miners: Vec<String> = Vec::new();
            miners.push(latest);
            miners.append(&mut rest);
            assert(miners@ =~= seq![latest] + before);
            Ok(miners)
        },
        Err(e) => Err(e),
    }
}

/// Whether a text begins with another, byte for byte.
pub fn begins_with(text: &str, start: &str) -> (yes: bool)
    ensures
        yes == start.spec_bytes().is_prefix_of(text.spec_bytes()),
{
    let whole = text.as_bytes();
    let head = start.as_bytes();
    if head.len() > whole.len() {
        return false;
    }
    let mut i: usize = 0;
    while i < head.len()
        invariant
            i <= head.len() <= whole.len(),
            whole@ == text.spec_bytes(),
            head@ == start.spec_bytes(),
            forall|k: int| 0 <= k < i ==> head@[k] == whole@[k],
        decreases head.len() - i,
    {
        if head[i] != whole[i] {
            proof {
                let cut = whole@.subrange(0, head@.len() as int);
                assert(cut[i as int] == whole@[i as int]);
                assert(head@[i as int] != cut[i as int]);
            }
            return false;
        }
        i += 1;
    }
    assert(head@ =~= whole@.subrange(0, head@.len() as int));
    true
}

/// Counts the miners that begin with the coinbase.
pub fn count_mined(miners: &Vec<String>, coinbase: &str) -> (count: usize)
    ensures
        count == mined(miners@, coinbase.spec_bytes()),
{
    let mut count: usize = 0;
    let mut i: usize = 0;
    assert(miners@.take(0) =~= Seq::<String>::empty());
    while i < miners.len()
        invariant
            i <= miners.len(),
            count <= i,
            count == mined(miners@.take(i as int), coinbase.spec_bytes()),
        decreases miners.len() - i,
    {
        assert(miners@.take(i + 1).drop_last() =~= miners@.take(i as int));
        if begins_with(miners[i].as_str(), coinbase) {
            count += 1;
        }
        i += 1;
    }
    assert(miners@.take(miners.len() as int) =~= miners@);
    count
}

/// A count as the 32 bits of a snapshot hold it.
pub fn cap_count(count: usize) -> (kept: u32)
    ensures
        kept == capped(count as nat),
{
    if count > 0xffff_ffff {
        0xffff_ffff
    } else {
        count as u32
    }
}

/// The miners of blocks of the root chain, in their order.
pub fn root_miners(blocks: &Vec<RootBlockData>) -> (miners: Vec<String>)
    ensures
        miners@ == blocks@.map_values(|b: RootBlockData| b.miner),
{
    let mut miners: Vec<String> = Vec::new();
    let mut i: usize = 0;
    while i < blocks.len()
        invariant
            i <= blocks.len(),
            miners@ == blocks@.take(i as int).map_values(|b: RootBlockData| b.miner),
        decreases blocks.len() - i,
    {
        miners.push(blocks[i].miner.clone());
        assert(miners@ =~= blocks@.take(i + 1).map_values(|b: RootBlockData| b.miner));
        i += 1;
    }
    assert(blocks@.take(blocks.len() as int) =~= blocks@);
    miners
}

/// The miners of blocks of a shard, in their order.
pub fn minor_miners(blocks: &Vec<MinorBlockData>) -> (miners: Vec<String>)
    ensures
        miners@ == blocks@.map_values(|b: MinorBlockData| b.miner),
{
    let mut miners: Vec<String> = Vec::new();
    let mut i: usize = 0;
    while i < blocks.len()
        invariant
            i <= blocks.len(),
            miners@ == blocks@.take(i as int).map_values(|b: MinorBlockData| b.miner),
        decreases blocks.len() - i,
    {
        miners.push(blocks[i].miner.clone());
        assert(miners@ =~= blocks@.take(i + 1).map_values(|b: MinorBlockData| b.miner));
        i += 1;
    }
    assert(blocks@.take(blocks.len() as int) =~= blocks@);
    miners
}

fn find_qkc(balances: &Vec<Balance>) -> (found: Option<usize>)
    ensures
        match found {
            Some(i) => i < balances.len() && first_qkc(balances@) == Some(balances[i as int]),
            None => first_qkc(balances@) is None,
        },
{
    let token = String::from_str("QKC");
    let mut i: usize = 0;
    assert(balances@.skip(0) =~= balances@);
    while i < balances.len()
        invariant
            i <= balances.len(),
            token@ == "QKC"@,
            first_qkc(balances@) == first_qkc(balances@.skip(i as int)),
        decreases balances.len() - i,
    {
        if balances[i].token_str == token {
            return Some(i);
        }
        assert(balances@.skip(i as int).drop_first() =~= balances@.skip(i + 1));
        i += 1;
    }
    None
}

impl AllowanceThread {
    /// The balance once an account was looked at: a balance that is known
    /// stays; else it is the first balance in QKC, and nothing where the
    /// account has none.
    pub open spec fn balance_after(known: Option<u128>, data: AccountData) -> Result<
        u128,
        PollError,
    > {
        match known {
            Some(balance) => Ok(balance),
            None => match first_qkc(data.primary.balances@) {
                Some(entry) => match tagged_quantity(encode_utf8(entry.balance@), u128::MAX as nat) {
                    Ok(n) => Ok(n as u128),
                    Err(e) => Err(PollError::Reply(e)),
                },
                None => Ok(0),
            },
        }
    }

    /// `later` is this poller further on in its run: the same target, and
    /// the balance, once known, the same.
    pub open spec fn goes_on_as(&self, later: AllowanceThread) -> bool {
        &&& later.config == self.config
        &&& later.address == self.address
        &&& later.config_file == self.config_file
        &&& self.balance is Some ==> later.balance == self.balance
    }

    /// How many blocks of the window the target mined.
    pub open spec fn used_of(&self, miners: Seq<String>) -> u32 {
        capped(mined(miners, encode_utf8(coinbase_text(self.address@))))
    }

    /// What a poll of a root target yields: the blocks of the window that
    /// the target mined, and the allowances of its stake.
    pub open spec fn root_quota(&self, miners: Seq<String>) -> Result<(u32, u32), PollError> {
        match self.balance {
            None => Err(PollError::NoBalance),
            Some(stake) => Ok((self.used_of(miners), units_in(stake, ROOT_ALLOWANCE))),
        }
    }

    /// What a poll of a shard target yields: the blocks of the window that
    /// the target mined, the allowances of its balance, and the
    /// difficulty of the latest block, divided.
    pub open spec fn shard_quota(&self, difficulty: Seq<u8>, miners: Seq<String>) -> Result<
        (u32, u32, u128),
        PollError,
    > {
        match (self.balance, chain_unit_of(self.address@)) {
            (None, _) => Err(PollError::NoBalance),
            (Some(_), None) => Err(PollError::NoUnit),
            (Some(balance), Some(unit)) => match tagged_quantity(difficulty, u128::MAX as nat) {
                Err(e) => Err(PollError::Reply(e)),
                Ok(d) => Ok(
                    (
                        self.used_of(miners),
                        units_in(balance, unit),
                        (d / DIFFICULTY_DIVISOR as nat) as u128,
                    ),
                ),
            },
        }
    }

    /// What a poll yields: for a root target its quota with no difficulty,
    /// for a shard target its quota with the difficulty of the shard.
    pub open spec fn quota(&self, difficulty: Seq<u8>, miners: Seq<String>) -> Result<
        (u32, u32, u128),
        PollError,
    > {
        if self.config_file.root_chain {
            match self.root_quota(miners) {
                Ok((used, allowances)) => Ok((used, allowances, 0)),
                Err(e) => Err(e),
            }
        } else {
            self.shard_quota(difficulty, miners)
        }
    }

    /// Whether the target can be polled at all: a shard target needs a
    /// chain that has an allowance unit.
    pub open spec fn can_be_polled(&self) -> bool {
        self.config_file.root_chain || chain_unit_of(self.address@) is Some
    }

    /// The snapshot of a poll.
    pub open spec fn snapshot_of(&self, used: u32, allowances: u32, difficulty: u128) -> AllowanceInfo {
        AllowanceInfo {
            config: self.config_file,
            config_ini: self.config,
            address: self.address,
            difficulty,
            used,
            allowances,
        }
    }

    /// A poller that knows no balance yet. The wallet of the target must
    /// read as an address.
    pub fn new(config: Arc<MinerIni>, config_file: Arc<IniParameters>) -> (r: Result<
        AllowanceThread,
        AddressError,
    >)
        ensures
            match parsed_full(encode_utf8(config.wallet@)) {
                Ok(address) => r matches Ok(t) && t.config == config && t.config_file
                    == config_file && t.balance is None && t.address@ == address,
                Err(e) => r == Err::<AllowanceThread, AddressError>(e),
            },
    {
        match QkcAddress::new_full(config.wallet.as_str()) {
            Ok(address) => Ok(
                AllowanceThread { balance: None, address: Arc::new(address), config, config_file },
            ),
            Err(e) => Err(e),
        }
    }

    /// Whether the balance has yet to be asked for.
    pub fn needs_balance(&self) -> (needed: bool)
        ensures
            needed == self.balance is None,
    {
        self.balance.is_none()
    }

    /// Says before the first poll whether the target can be polled.
    pub fn validate(&self) -> (r: Result<(), ConfigError>)
        ensures
            r == if self.can_be_polled() {
                Ok::<(), ConfigError>(())
            } else {
                Err::<(), ConfigError>(ConfigError::NoUnit)
            },
    {
        if self.config_file.root_chain || self.chain_unit().is_some() {
            Ok(())
        } else {
            Err(ConfigError::NoUnit)
        }
    }

    /// Takes a balance that was asked for. One that is known already
    /// stays as it is, whatever the new one says.
    pub fn record_balance(&mut self, balance: u128)
        ensures
            *final(self) == (AllowanceThread {
                balance: recorded(old(self).balance, balance),
                ..*old(self)
            }),
            old(self).goes_on_as(*final(self)),
            final(self).balance is Some,
    {
        if self.balance.is_none() {
            self.balance = Some(balance);
        }
    }

    /// Takes the balance from the data of the account of a shard target.
    /// An account without a balance in QKC has none; a balance that cannot
    /// be read leaves the poller as it was.
    pub fn record_account(&mut self, data: &AccountData) -> (r: Result<(), PollError>)
        ensures
            match Self::balance_after(old(self).balance, *data) {
                Ok(balance) => r is Ok && *final(self) == (AllowanceThread {
                    balance: Some(balance),
                    ..*old(self)
                }),
                Err(e) => r == Err::<(), PollError>(e) && *final(self) == *old(self),
            },
            old(self).goes_on_as(*final(self)),
    {
        if self.balance.is_some() {
            return Ok(());
        }
        match find_qkc(&data.primary.balances) {
            Some(i) => match parse_tagged_u128(data.primary.balances[i].balance.as_str()) {
                Ok(n) => {
                    self.balance = Some(n);
                    Ok(())
                },
                Err(e) => Err(PollError::Reply(e)),
            },
            None => {
                self.balance = Some(0);
                Ok(())
            },
        }
    }

    /// The identifiers of the blocks to ask for, from the height of the
    /// latest block as the ledger wrote it.
    pub fn window(&self, latest_height: &str) -> (r: Result<Vec<String>, PollError>)
        ensures
            match tagged_quantity(latest_height.spec_bytes(), u64::MAX as nat) {
                Ok(h) => r matches Ok(ids) && ids.len() == window_heights(h as u64).len()
                    && forall|i: int|
                    0 <= i < ids.len() ==> (#[trigger] ids[i])@ == block_id(
                        window_heights(h as u64)[i],
                    ),
                Err(e) => r == Err::<Vec<String>, PollError>(PollError::Reply(e)),
            },
    {
        match parse_tagged_u64(latest_height) {
            Ok(h) => Ok(window_ids(h)),
            Err(e) => Err(PollError::Reply(e)),
        }
    }

    /// The quota of a root target, from the miners of the blocks of its
    /// window: what it used, and its allowances. There is none before a
    /// stake was recorded.
    pub fn root_allowances_left(&self, miners: &Vec<String>) -> (r: Result<(u32, u32), PollError>)
        ensures
            r == self.root_quota(miners@),
    {
        let stake = match self.balance {
            Some(stake) => stake,
            None => { return Err(PollError::NoBalance); },
        };
        let coinbase = self.address.coinbase();
        let used = cap_count(count_mined(miners, coinbase.as_str()));
        Ok((used, allowances_of(stake, ROOT_ALLOWANCE)))
    }

    /// The quota of a shard target, from the difficulty of the latest
    /// block as the ledger wrote it and the miners of the blocks of its
    /// window: what it used, its allowances, and its difficulty. There is
    /// none before a balance was recorded.
    pub fn allowances_left(&self, difficulty: &str, miners: &Vec<String>) -> (r: Result<
        (u32, u32, u128),
        PollError,
    >)
        ensures
            r == self.shard_quota(difficulty.spec_bytes(), miners@),
    {
        let balance = match self.balance {
            Some(balance) => balance,
            None => { return Err(PollError::NoBalance); },
        };
        let unit = match self.chain_unit() {
            Some(unit) => unit,
            None => { return Err(PollError::NoUnit); },
        };
        let allowances = allowances_of(balance, unit);
        let difficulty = match parse_tagged_u128(difficulty) {
            Ok(d) => d / DIFFICULTY_DIVISOR,
            Err(e) => { return Err(PollError::Reply(e)); },
        };
        let coinbase = self.address.coinbase();
        let used = cap_count(count_mined(miners, coinbase.as_str()));
        Ok((used, allowances, difficulty))
    }

    /// The quota of the target, root or shard as it is configured, from
    /// the difficulty of the latest block as the ledger wrote it and the
    /// miners of the blocks of its window. A root target has no
    /// difficulty, and that of its latest block is not read.
    pub fn quota_left(&self, difficulty: &str, miners: &Vec<String>) -> (r: Result<
        (u32, u32, u128),
        PollError,
    >)
        ensures
            r == self.quota(difficulty.spec_bytes(), miners@),
    {
        if self.config_file.root_chain {
            match self.root_allowances_left(miners) {
                Ok((used, allowances)) => Ok((used, allowances, 0)),
                Err(e) => Err(e),
            }
        } else {
            self.allowances_left(difficulty, miners)
        }
    }

    fn chain_unit(&self) -> (unit: Option<u128>)
        ensures
            unit == chain_unit_of(self.address@),
            unit matches Some(u) ==> u > 0,
    {
        if self.address.has_chain() {
            allowance_unit(self.address.chain_id())
        } else {
            None
        }
    }

    /// The snapshot that is published of a poll.
    pub fn snapshot(&self, used: u32, allowances: u32, difficulty: u128) -> (info: AllowanceInfo)
        ensures
            info == self.snapshot_of(used, allowances, difficulty),
    {
        AllowanceInfo {
            config: share(&self.config_file),
            config_ini: share(&self.config),
            address: share(&self.address),
            difficulty,
            used,
            allowances,
        }
    }

    /// What follows a cycle: the snapshot of its quota, or another try
    /// where the cycle failed.
    pub fn conclude(&self, outcome: Result<(u32, u32, u128), PollError>) -> (action: PollAction)
        ensures
            action == match outcome {
                Ok((used, allowances, difficulty)) => PollAction::Publish(
                    self.snapshot_of(used, allowances, difficulty),
                ),
                Err(_) => PollAction::Retry,
            },
    {
        match outcome {
            Ok((used, allowances, difficulty)) => PollAction::Publish(
                self.snapshot(used, allowances, difficulty),
            ),
            Err(_) => PollAction::Retry,
        }
    }
}

/// No more blocks are counted than there are.
pub proof fn lemma_mined_at_most_all(miners: Seq<String>, coinbase: Seq<u8>)
    ensures
        mined(miners, coinbase) <= miners.len(),
    decreases miners.len(),
{
    if miners.len() > 0 {
        lemma_mined_at_most_all(miners.drop_last(), coinbase);
    }
}

/// No batch is empty, and none has more than ten identifiers.
pub proof fn lemma_batches_bounded(ids: Seq<String>, batches: Seq<Vec<String>>, k: int)
    requires
        batched(ids, batches),
        0 <= k < batches.len(),
    ensures
        1 <= batches[k]@.len() <= BATCH,
{
}

/// The batches, one after the other, are the identifiers.
pub proof fn lemma_batches_cover(ids: Seq<String>, batches: Seq<Vec<String>>, i: int)
    requires
        batched(ids, batches),
        0 <= i < ids.len(),
    ensures
        i / (BATCH as int) < batches.len(),
        batches[i / (BATCH as int)]@[i % (BATCH as int)] == ids[i],
{
    let k = i / (BATCH as int);
    assert(batches[k]@ == ids.subrange(
        k * BATCH,
        if (k + 1) * BATCH <= ids.len() {
            (k + 1) * BATCH
        } else {
            ids.len() as int
        },
    ));
}

/// A balance is recorded once: the first one is that of the run, whatever
/// a later one would be.
pub proof fn lemma_allowances_stay(known: Option<u128>, first: u128, later: u128)
    ensures
        recorded(known, first) is Some,
        recorded(recorded(known, first), later) == recorded(known, first),
{
}

/// An account is read once: the balance that the first look gave is that
/// of the run, whatever a later look would show, be it another balance,
/// none, or one that cannot be read.
pub proof fn lemma_account_is_read_once(known: Option<u128>, first: AccountData, later: AccountData)
    requires
        AllowanceThread::balance_after(known, first) is Ok,
    ensures
        AllowanceThread::balance_after(
            Some(AllowanceThread::balance_after(known, first)->Ok_0),
            later,
        ) == AllowanceThread::balance_after(known, first),
{
}

/// The capacity of a run is fixed by its first poll: two polls of one
/// poller that yield a quota yield the same allowances, whatever was
/// recorded between them.
pub proof fn lemma_capacity_is_fixed(
    earlier: AllowanceThread,
    later: AllowanceThread,
    first_difficulty: Seq<u8>,
    first_miners: Seq<String>,
    second_difficulty: Seq<u8>,
    second_miners: Seq<String>,
)
    requires
        earlier.goes_on_as(later),
        earlier.quota(first_difficulty, first_miners) is Ok,
        later.quota(second_difficulty, second_miners) is Ok,
    ensures
        later.quota(second_difficulty, second_miners)->Ok_0.1 == earlier.quota(
            first_difficulty,
            first_miners,
        )->Ok_0.1,
{
}

/// A poller goes on as itself, and what goes on goes on further.
pub proof fn lemma_going_on(first: AllowanceThread, second: AllowanceThread, third: AllowanceThread)
    requires
        first.goes_on_as(second),
        second.goes_on_as(third),
    ensures
        first.goes_on_as(first),
        first.goes_on_as(third),
{
}

/// A target that can be polled never fails a cycle for want of a unit.
pub proof fn lemma_valid_target_has_unit(
    thread: AllowanceThread,
    difficulty: Seq<u8>,
    miners: Seq<String>,
)
    requires
        thread.can_be_polled(),
    ensures
        thread.quota(difficulty, miners) != Err::<(u32, u32, u128), PollError>(PollError::NoUnit),
{
}

} // verus!
