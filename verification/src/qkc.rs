//! The requests that are put to the ledger and what is read from its
//! replies. Sending and receiving is the caller's part.

use crate::encoding::{hex_encode, hex_text, parse_u128, quantity_within, strip_markers, unmarked};
use crate::types::{address_text, marker, QkcAddress};
use vstd::prelude::*;
use vstd::slice::slice_subrange;
use vstd::string::{StringExecFns, StringSliceAdditionalSpecFns};

verus! {

/// A call of a contract, as the ledger takes it.
#[derive(Debug, Clone, PartialEq)]
pub struct Call {
    pub from: String,
    pub to: String,
    pub gas_price: String,
    pub gas: String,
    pub data: String,
    pub value: String,
    pub gas_token_id: String,
    pub transfer_token_id: String,
}

/// The procedures of the ledger that are used.
#[derive(Debug, Clone, Copy, PartialEq, Eq, Structural)]
pub enum Method {
    NetworkInfo,
    GetTransactionCount,
    GetBalances,
    GetAccountData,
    GetMinorBlockByHeight,
    GetRootBlockByHeight,
    Call,
}

/// The request that carries a call.
#[derive(Debug)]
pub struct CallRequest {
    pub jsonrpc: String,
    pub method: Method,
    pub params: (Call, String),
    pub id: usize,
}

/// Which block is asked for.
#[derive(Debug, Clone, PartialEq)]
pub enum Block {
    Latest,
    Id(String),
}

/// A block of the root chain, as the ledger describes it.
#[derive(Debug, Clone, PartialEq)]
pub struct RootBlockData {
    pub id: String,
    pub hash: String,
    pub height: String,
    pub id_prev_block: String,
    pub hash_prev_block: String,
    pub nonce: String,
    pub hash_merkle_root: String,
    pub miner: String,
    pub coinbase: Vec<Balance>,
    pub difficulty: String,
    pub timestamp: String,
    pub size: String,
}

/// A block of a shard, as the ledger describes it.
#[derive(Debug, Clone, PartialEq)]
pub struct MinorBlockData {
    pub id: String,
    pub height: String,
    pub hash: String,
    pub full_shard_id: String,
    pub chain_id: String,
    pub shard_id: String,
    pub hash_prev_minor_block: String,
    pub id_prev_minor_block: String,
    pub hash_prev_root_block: String,
    pub nonce: String,
    pub hash_merkle_root: String,
    pub hash_evm_state_root: String,
    pub miner: String,
    pub coinbase: Vec<Balance>,
    pub difficulty: String,
    pub extra_data: String,
    pub gas_limit: String,
    pub gas_used: String,
    pub timestamp: String,
    pub size: String,
    pub transactions: Vec<()>,
}

/// The state of the network.
#[derive(Debug, Clone, PartialEq)]
pub struct NetworkInfo {
    pub network_id: String,
    pub chain_size: String,
    pub shard_sizes: Vec<String>,
    pub syncing: bool,
    pub mining: bool,
    pub shard_server_count: usize,
}

/// The balances of an account on one shard.
#[derive(Debug, Clone, PartialEq)]
pub struct Balances {
    pub branch: String,
    pub full_shard_id: String,
    pub shard_id: String,
    pub chain_id: String,
    pub balances: Vec<Balance>,
}

/// An amount of one token, written as a quantity after the marker.
#[derive(Debug, Clone, PartialEq)]
pub struct Balance {
    pub token_id: String,
    pub token_str: String,
    pub balance: String,
}

/// An account: its data on its own shard and, where asked for, on others.
#[derive(Debug, Clone, PartialEq)]
pub struct AccountData {
    pub primary: AccountShardData,
    pub shards: Option<Vec<AccountShardData>>,
}

/// What one shard knows of an account.
#[derive(Debug, Clone, PartialEq)]
pub struct AccountShardData {
    pub full_shard_id: String,
    pub shard_id: String,
    pub chain_id: String,
    pub balances: Vec<Balance>,
    pub transaction_count: String,
    pub is_contract: bool,
}

/// The request for a block of a shard: the key of the shard, the block,
/// and whether its transactions are wanted.
#[derive(Debug)]
pub struct MinorBlockDataRequest {
    pub jsonrpc: String,
    pub method: Method,
    pub params: (String, Option<String>, bool),
    pub id: usize,
}

/// A request with a list of parameters, or with none.
#[derive(Debug, Clone, PartialEq)]
pub struct Request<T> {
    pub jsonrpc: String,
    pub method: Method,
    pub params: Option<Vec<T>>,
    pub id: usize,
}

/// Why a reply cannot be used, or a call not made.
#[derive(Debug, Clone, Copy, PartialEq, Eq, Structural)]
pub enum ReplyError {
    /// The text ends before the last byte that is read.
    TooShort,
    /// Where a quantity is expected stands something else, or one too large.
    BadQuantity,
    /// The coinbase is not twenty bytes long.
    BadCoinbase,
}

/// The input of a call to the function `name` of a contract that takes
/// one address: the selector of the function, then the address as a word.
pub uninterp spec fn address_call_input(name: Seq<char>, address: Seq<u8>) -> Seq<u8>;

/// `ethabi::Function::encode_input`, for a function that is declared with
/// one parameter of type address and is given one address token of twenty
/// bytes. The check of the tokens against the parameters then passes, so
/// there is a result, and it depends on the name and the address alone.
#[allow(deprecated)]
#[verifier::external_body]
pub(crate) fn encode_address_call(name: &str, address: &[u8]) -> (input: Option<Vec<u8>>)
    requires
        address@.len() == 20,
    ensures
        input is Some,
        input.unwrap()@ == address_call_input(name@, address@),
{
    let kind = ethabi::ParamType::Address;
    let function = ethabi::Function {
        name: name.to_owned(),
        inputs: vec![ethabi::Param { name: String::new(), kind, internal_type: None }],
        outputs: Vec::new(),
        constant: None,
        state_mutability: ethabi::StateMutability::View,
    };
    let token = ethabi::Token::Address(ethabi::ethereum_types::H160::from_slice(address));
    function.encode_input(&[token]).ok()
}

/// The contract that holds the stakes of the root chain.
pub open spec fn stake_contract() -> Seq<char> {
    "0x514b43000000000000000000000000000000000100000001"@
}

/// A call of the staking contract on behalf of `address`, with `input`
/// as its data and nothing paid.
pub open spec fn is_call_with(call: Call, address: QkcAddress, input: Seq<u8>) -> bool {
    &&& call.from@ == address_text(address@)
    &&& call.to@ == stake_contract()
    &&& call.data@ == marker() + hex_text(input)
    &&& call.value@ == "0x0"@
    &&& call.gas_price@ == "0x0"@
    &&& call.gas@ == "0xf4240"@
    &&& call.gas_token_id@ == "0x8bb0"@
    &&& call.transfer_token_id@ == "0x8bb0"@
}

/// The call that asks for the locked stakes of `address`.
pub open spec fn is_stake_call(call: Call, address: QkcAddress) -> bool {
    is_call_with(call, address, address_call_input("getLockedStakes"@, address@.coinbase))
}

/// What the reply to a stake call says: the bare marker stands for no
/// stake; else the first word after the marker is the amount.
pub open spec fn stake_of(reply: Seq<u8>) -> Result<u128, ReplyError> {
    if reply =~= seq![0x30u8, 0x78u8] {
        Ok(0)
    } else if reply.len() < 66 {
        Err(ReplyError::TooShort)
    } else {
        match quantity_within(reply.subrange(2, 66), u128::MAX as nat) {
            Some(n) => Ok(n as u128),
            None => Err(ReplyError::BadQuantity),
        }
    }
}

/// What a text says as a quantity after its first two bytes, which are
/// not read.
pub open spec fn tagged_quantity(text: Seq<u8>, max: nat) -> Result<nat, ReplyError> {
    if text.len() < 2 {
        Err(ReplyError::TooShort)
    } else {
        match quantity_within(text.skip(2), max) {
            Some(n) => Ok(n),
            None => Err(ReplyError::BadQuantity),
        }
    }
}

impl Block {
    /// The identifier of the block, where it is asked for by one.
    pub fn get_id(self) -> (id: Option<String>)
        ensures
            id == match self {
                Block::Latest => None::<String>,
                Block::Id(id) => Some(id),
            },
    {
        match self {
            Block::Latest => None,
            Block::Id(id) => Some(id),
        }
    }
}

impl MinorBlockDataRequest {
    pub fn new(method: Method, params: (String, Option<String>, bool)) -> (request: Self)
        ensures
            request.jsonrpc@ == "2.0"@,
            request.method == method,
            request.params == params,
            request.id == 1,
    {
        Self { jsonrpc: String::from_str("2.0"), method, params, id: 1usize }
    }
}

impl<T> Request<T> {
    pub fn new(method: Method, params: Option<Vec<T>>) -> (request: Self)
        ensures
            request.jsonrpc@ == "2.0"@,
            request.method == method,
            request.params == params,
            request.id == 1,
    {
        Self { jsonrpc: String::from_str("2.0"), method, params, id: 1usize }
    }
}

fn about(method: Method, address: &QkcAddress) -> (request: Request<String>)
    ensures
        request.jsonrpc@ == "2.0"@,
        request.method == method,
        request.params matches Some(list) && list@.len() == 1 && list@[0]@ == address_text(
            address@,
        ),
        request.id == 1,
{
    let mut list: Vec<String> = Vec::new();
    list.push(address.to_string());
    Request::new(method, Some(list))
}

/// The request for the state of the network.
pub fn network_info_request() -> (request: Request<String>)
    ensures
        request.jsonrpc@ == "2.0"@,
        request.method == Method::NetworkInfo,
        request.params is None,
        request.id == 1,
{
    Request::new(Method::NetworkInfo, None)
}

/// The request for the number of transactions of an account.
pub fn transaction_count_request(address: &QkcAddress) -> (request: Request<String>)
    ensures
        request.jsonrpc@ == "2.0"@,
        request.method == Method::GetTransactionCount,
        request.params matches Some(list) && list@.len() == 1 && list@[0]@ == address_text(
            address@,
        ),
        request.id == 1,
{
    about(Method::GetTransactionCount, address)
}

/// The request for the balances of an account.
pub fn balances_request(address: &QkcAddress) -> (request: Request<String>)
    ensures
        request.jsonrpc@ == "2.0"@,
        request.method == Method::GetBalances,
        request.params matches Some(list) && list@.len() == 1 && list@[0]@ == address_text(
            address@,
        ),
        request.id == 1,
{
    about(Method::GetBalances, address)
}

/// The request for the data of an account.
pub fn account_data_request(address: &QkcAddress) -> (request: Request<String>)
    ensures
        request.jsonrpc@ == "2.0"@,
        request.method == Method::GetAccountData,
        request.params matches Some(list) && list@.len() == 1 && list@[0]@ == address_text(
            address@,
        ),
        request.id == 1,
{
    about(Method::GetAccountData, address)
}

/// The request for a block of the root chain: with the identifier as its
/// one parameter, or with none for the latest.
pub fn root_block_request(block: Block) -> (request: Request<String>)
    ensures
        request.jsonrpc@ == "2.0"@,
        request.method == Method::GetRootBlockByHeight,
        request.id == 1,
        match block {
            Block::Id(id) => request.params matches Some(list) && list@ == seq![id],
            Block::Latest => request.params is None,
        },
{
    if let Block::Id(id) = block {
        let mut list: Vec<String> = Vec::new();
        list.push(id);
        assert(list@ =~= seq![id]);
        Request::new(Method::GetRootBlockByHeight, Some(list))
    } else {
        Request::new(Method::GetRootBlockByHeight, None)
    }
}

/// The request for a block of a shard, without its transactions.
pub fn minor_block_request(full_shard_key: String, block: Block) -> (request: MinorBlockDataRequest)
    ensures
        request.jsonrpc@ == "2.0"@,
        request.method == Method::GetMinorBlockByHeight,
        request.params == (
            full_shard_key,
            match block {
                Block::Latest => None::<String>,
                Block::Id(id) => Some(id),
            },
            false,
        ),
        request.id == 1,
{
    MinorBlockDataRequest::new(Method::GetMinorBlockByHeight, (full_shard_key, block.get_id(), false))
}

/// The call of the staking contract on behalf of `address` that carries
/// `input`.
pub fn stake_call_with(address: &QkcAddress, input: &[u8]) -> (call: Call)
    ensures
        is_call_with(call, *address, input@),
{
    let digits = hex_encode(input);
    let mut data = String::from_str("0x");
    proof {
        reveal_strlit("0x");
        assert("0x"@ =~= marker());
    }
    data.append(digits.as_str());
    Call {
        from: address.to_string(),
        to: String::from_str("0x514b43000000000000000000000000000000000100000001"),
        data,
        value: String::from_str("0x0"),
        gas_price: String::from_str("0x0"),
        gas: String::from_str("0xf4240"),
        gas_token_id: String::from_str("0x8bb0"),
        transfer_token_id: String::from_str("0x8bb0"),
    }
}

/// The call that asks the staking contract for the locked stakes of an
/// address. There is none for a coinbase that is not twenty bytes long.
pub fn locked_stakes_call(address: &QkcAddress) -> (r: Result<Call, ReplyError>)
    ensures
        address@.coinbase.len() != 20 ==> r == Err::<Call, ReplyError>(ReplyError::BadCoinbase),
        address@.coinbase.len() == 20 ==> (r matches Ok(call) && is_stake_call(call, *address)),
{
    let coinbase = address.coinbase_bytes();
    if coinbase.len() != 20 {
        return Err(ReplyError::BadCoinbase);
    }
    match encode_address_call("getLockedStakes", coinbase) {
        Some(input) => Ok(stake_call_with(address, input.as_slice())),
        None => Err(ReplyError::BadCoinbase),
    }
}

/// The request that carries the stake call, put to the latest state.
pub fn locked_stakes_request(address: &QkcAddress) -> (r: Result<CallRequest, ReplyError>)
    ensures
        address@.coinbase.len() != 20 ==> r == Err::<CallRequest, ReplyError>(
            ReplyError::BadCoinbase,
        ),
        address@.coinbase.len() == 20 ==> (r matches Ok(request) && request.jsonrpc@ == "2.0"@
            && request.method == Method::Call && is_stake_call(request.params.0, *address)
            && request.params.1@ == "latest"@ && request.id == 1),
{
    match locked_stakes_call(address) {
        Ok(call) => Ok(
            CallRequest {
                jsonrpc: String::from_str("2.0"),
                params: (call, String::from_str("latest")),
                method: Method::Call,
                id: 1,
            },
        ),
        Err(e) => Err(e),
    }
}

/// How many of the blocks whose miners are given were mined by `miner`.
pub fn blocks_mined(miners: &Vec<String>, miner: &QkcAddress) -> (count: u64)
    ensures
        count == crate::allowances::mined(
            miners@,
            vstd::utf8::encode_utf8(crate::types::coinbase_text(miner@)),
        ),
{
    let coinbase = miner.coinbase();
    crate::allowances::count_mined(miners, coinbase.as_str()) as u64
}

/// Reads a quantity from a text after its first two bytes.
pub fn parse_tagged_u128(text: &str) -> (r: Result<u128, ReplyError>)
    ensures
        match tagged_quantity(text.spec_bytes(), u128::MAX as nat) {
            Ok(n) => r == Ok::<u128, ReplyError>(n as u128),
            Err(e) => r == Err::<u128, ReplyError>(e),
        },
{
    let bytes = text.as_bytes();
    if bytes.len() < 2 {
        return Err(ReplyError::TooShort);
    }
    let digits = slice_subrange(bytes, 2, bytes.len());
    assert(digits@ =~= bytes@.skip(2));
    match parse_u128(digits) {
        Some(n) => Ok(n),
        None => Err(ReplyError::BadQuantity),
    }
}

/// Reads a height from a text after its first two bytes.
pub fn parse_tagged_u64(text: &str) -> (r: Result<u64, ReplyError>)
    ensures
        match tagged_quantity(text.spec_bytes(), u64::MAX as nat) {
            Ok(n) => r == Ok::<u64, ReplyError>(n as u64),
            Err(e) => r == Err::<u64, ReplyError>(e),
        },
{
    let bytes = text.as_bytes();
    if bytes.len() < 2 {
        return Err(ReplyError::TooShort);
    }
    let digits = slice_subrange(bytes, 2, bytes.len());
    assert(digits@ =~= bytes@.skip(2));
    match crate::encoding::parse_u64(digits) {
        Some(n) => Ok(n),
        None => Err(ReplyError::BadQuantity),
    }
}

/// Reads the reply to a stake call.
pub fn parse_stake(reply: &str) -> (r: Result<u128, ReplyError>)
    ensures
        r == stake_of(reply.spec_bytes()),
{
    let bytes = reply.as_bytes();
    if bytes.len() == 2 && bytes[0] == 0x30 && bytes[1] == 0x78 {
        assert(bytes@ =~= seq![0x30u8, 0x78u8]);
        return Ok(0);
    }
    if bytes.len() < 66 {
        return Err(ReplyError::TooShort);
    }
    match parse_u128(slice_subrange(bytes, 2, 66)) {
        Some(n) => Ok(n),
        None => Err(ReplyError::BadQuantity),
    }
}

/// Reads the reply to a request for a number of transactions: a quantity
/// after any markers.
pub fn parse_transaction_count(reply: &str) -> (r: Result<u128, ReplyError>)
    ensures
        match quantity_within(unmarked(reply.spec_bytes()), u128::MAX as nat) {
            Some(n) => r == Ok::<u128, ReplyError>(n as u128),
            None => r == Err::<u128, ReplyError>(ReplyError::BadQuantity),
        },
{
    match parse_u128(strip_markers(reply.as_bytes())) {
        Some(n) => Ok(n),
        None => Err(ReplyError::BadQuantity),
    }
}

} // verus!
