//! Redeeming the tokens of a market that was won: the call to the conditional token contract.
use crate::errors::ApiError;
use crate::models::RedeemResponse;
use crate::signing;
use crate::text;
use vstd::prelude::*;
use vstd::string::*;

verus! {

/// How many bytes a word of the contract interface has.
pub const WORD_BYTES: usize = 32;

/// A call to a contract.
#[derive(Clone, Debug)]
pub struct ContractCall {
    /// The address of the contract, 20 bytes.
    pub contract: Vec<u8>,
    pub data: Vec<u8>,
}

/// The address of the collateral, USDC.
pub open spec fn collateral_text() -> Seq<char> {
    "0x2791Bca1f2de4661ED88A30C99A7a9449Aa84174"@
}

/// The address of the conditional token contract.
pub open spec fn contract_text() -> Seq<char> {
    "0x4D97DCd97eC945f40cF65F87097ACe5EA0476045"@
}

/// The selector of `redeemPositions(address,bytes32,bytes32,uint256[])`.
pub open spec fn selector() -> Seq<u8> {
    seq![0x3du8, 0x7du8, 0x3fu8, 0x5au8]
}

/// A small number as a word, most significant byte first.
pub open spec fn number_word(n: u8) -> Seq<u8> {
    Seq::new(32, |i: int| if i == 31 { n } else { 0u8 })
}

/// An address as a word: zeros before its 20 bytes.
pub open spec fn address_word(address: Seq<u8>) -> Seq<u8> {
    Seq::new(12, |i: int| 0u8) + address
}

/// The data of the call: the selector and six words. These are the collateral, no parent
/// collection, the condition, where the list of index sets begins, how many there are, and the one
/// that there is.
pub open spec fn call_data(collateral: Seq<u8>, condition: Seq<u8>, index_set: u8) -> Seq<u8> {
    selector() + address_word(collateral) + number_word(0) + condition + number_word(128)
        + number_word(1) + number_word(index_set)
}

/// The index set of an outcome, given it in upper case too: 1 for up, 2 for anything else.
pub open spec fn index_set_with(upper: Seq<char>, outcome: Seq<char>) -> u8 {
    if text::contains_text(upper, "UP"@) || outcome == "1"@ {
        1
    } else {
        2
    }
}

/// The index set of an outcome.
pub open spec fn index_set_of(outcome: Seq<char>) -> u8 {
    index_set_with(text::uppercase_of(outcome), outcome)
}

/// A condition identifier without a leading `0x`.
pub open spec fn without_hex_mark(condition_id: Seq<char>) -> Seq<char> {
    if condition_id.len() >= 2 && condition_id[0] == '0' && condition_id[1] == 'x' {
        condition_id.skip(2)
    } else {
        condition_id
    }
}

/// Appends bytes.
fn append_bytes(out: &mut Vec<u8>, bytes: &Vec<u8>)
    ensures
        final(out)@ == old(out)@ + bytes@,
{
    let ghost before = out@;
    let mut i: usize = 0;
    while i < bytes.len()
        invariant
            i <= bytes.len(),
            out@ == before + bytes@.take(i as int),
        decreases bytes.len() - i,
    {
        out.push(bytes[i]);
        i += 1;
        assert(out@ =~= before + bytes@.take(i as int));
    }
    assert(bytes@.take(i as int) =~= bytes@);
}

/// Appends zeros.
fn append_zeros(out: &mut Vec<u8>, count: usize)
    ensures
        final(out)@ == old(out)@ + Seq::new(count as nat, |i: int| 0u8),
{
    let ghost before = out@;
    let mut i: usize = 0;
    while i < count
        invariant
            i <= count,
            out@ == before + Seq::new(i as nat, |j: int| 0u8),
        decreases count - i,
    {
        out.push(0);
        i += 1;
        assert(out@ =~= before + Seq::new(i as nat, |j: int| 0u8));
    }
}

/// Appends a small number as a word.
fn append_number_word(out: &mut Vec<u8>, n: u8)
    ensures
        final(out)@ == old(out)@ + number_word(n),
{
    let ghost before = out@;
    append_zeros(out, WORD_BYTES - 1);
    out.push(n);
    assert(out@ =~= before + number_word(n));
}

/// The data of the call that redeems the tokens of one outcome.
pub fn redeem_data(collateral: &Vec<u8>, condition: &Vec<u8>, index_set: u8) -> (data: Vec<u8>)
    ensures
        data@ == call_data(collateral@, condition@, index_set),
{
    let mut data: Vec<u8> = vec![0x3d, 0x7d, 0x3f, 0x5a];
    assert(data@ =~= selector());
    append_zeros(&mut data, WORD_BYTES - 20);
    append_bytes(&mut data, collateral);
    assert(data@ =~= selector() + address_word(collateral@));
    append_number_word(&mut data, 0);
    append_bytes(&mut data, condition);
    append_number_word(&mut data, 128);
    append_number_word(&mut data, 1);
    append_number_word(&mut data, index_set);
    data
}

/// The index set of an outcome, given it in upper case too.
pub fn choose_index_set(upper: &str, outcome: &str) -> (index_set: u8)
    ensures
        index_set == index_set_with(upper@, outcome@),
{
    if text::contains(upper, "UP") || text::same_text(outcome, "1") {
        1
    } else {
        2
    }
}

/// The index set of an outcome.
pub fn index_set(outcome: &str) -> (index_set: u8)
    ensures
        index_set == index_set_of(outcome@),
{
    let upper = text::to_uppercase(outcome);
    choose_index_set(upper.as_str(), outcome)
}

/// A condition identifier without a leading `0x`.
fn strip_hex_mark(condition_id: &str) -> (stripped: String)
    ensures
        stripped@ == without_hex_mark(condition_id@),
{
    let chars = text::characters(condition_id);
    let start: usize = if chars.len() >= 2 && chars[0] == '0' && chars[1] == 'x' {
        2
    } else {
        0
    };
    let mut stripped = String::new();
    let mut i: usize = start;
    while i < chars.len()
        invariant
            start <= i <= chars.len(),
            stripped@ == chars@.subrange(start as int, i as int),
        decreases chars.len() - i,
    {
        stripped.push(chars[i]);
        i += 1;
        assert(stripped@ =~= chars@.subrange(start as int, i as int));
    }
    assert(stripped@ =~= without_hex_mark(condition_id@));
    stripped
}

/// That `result` is the call that redeems an outcome, given what the texts of the collateral, the
/// condition and the contract denote. The first of the three that denotes nothing is refused.
pub open spec fn is_call(
    condition_id: Seq<char>,
    outcome: Seq<char>,
    collateral: Option<Seq<u8>>,
    condition: Option<Seq<u8>>,
    contract: Option<Seq<u8>>,
    result: Result<ContractCall, ApiError>,
) -> bool {
    if collateral is None {
        result == Err::<ContractCall, ApiError>(ApiError::InvalidCollateral)
    } else if condition is None {
        result matches Err(ApiError::InvalidCondition { condition_id: named }) && named@
            == condition_id
    } else if contract is None {
        result == Err::<ContractCall, ApiError>(ApiError::InvalidContract)
    } else {
        &&& result matches Ok(call)
        &&& call.contract@ == contract->0
        &&& call.data@ == call_data(collateral->0, condition->0, index_set_of(outcome))
    }
}

/// The contents of optional bytes.
pub open spec fn bytes_of(bytes: Option<Vec<u8>>) -> Option<Seq<u8>> {
    match bytes {
        Some(b) => Some(b@),
        None => None,
    }
}

/// The call that redeems an outcome, given what the texts of the collateral, the condition and the
/// contract denote.
pub fn build_call(
    condition_id: &str,
    outcome: &str,
    collateral: Option<Vec<u8>>,
    condition: Option<Vec<u8>>,
    contract: Option<Vec<u8>>,
) -> (result: Result<ContractCall, ApiError>)
    ensures
        is_call(
            condition_id@,
            outcome@,
            bytes_of(collateral),
            bytes_of(condition),
            bytes_of(contract),
            result,
        ),
{
    let collateral = match collateral {
        Some(address) => address,
        None => return Err(ApiError::InvalidCollateral),
    };
    let condition = match condition {
        Some(word) => word,
        None => return Err(ApiError::InvalidCondition { condition_id: condition_id.to_owned() }),
    };
    let contract = match contract {
        Some(address) => address,
        None => return Err(ApiError::InvalidContract),
    };
    let data = redeem_data(&collateral, &condition, index_set(outcome));
    Ok(ContractCall { contract, data })
}

/// The call that redeems the tokens of an outcome of a condition.
pub fn redeem_call(condition_id: &str, outcome: &str) -> (result: Result<ContractCall, ApiError>)
    ensures
        is_call(
            condition_id@,
            outcome@,
            signing::checksummed_address(collateral_text()),
            signing::word_of(without_hex_mark(condition_id@)),
            signing::checksummed_address(contract_text()),
            result,
        ),
{
    let collateral = signing::parse_address("0x2791Bca1f2de4661ED88A30C99A7a9449Aa84174");
    let stripped = strip_hex_mark(condition_id);
    let condition = signing::parse_word(stripped.as_str());
    let contract = signing::parse_address("0x4D97DCd97eC945f40cF65F87097ACe5EA0476045");
    build_call(condition_id, outcome, collateral, condition, contract)
}

/// What comes of a redemption, given whether its transaction succeeded.
pub fn redeemed(success: bool, transaction_hash: &str) -> (result: Result<RedeemResponse, ApiError>)
    ensures
        match result {
            Ok(response) => {
                &&& success
                &&& response.success
                &&& response.message matches Some(message)
                &&& message@ == "Successfully redeemed tokens. Transaction: "@ + transaction_hash@
                &&& response.transaction_hash matches Some(hash)
                &&& hash@ == transaction_hash@
                &&& response.amount_redeemed is None
            },
            Err(error) => {
                &&& !success
                &&& error matches ApiError::RedemptionFailed { transaction_hash: hash }
                &&& hash@ == transaction_hash@
            },
        },
{
    if success {
        Ok(
            RedeemResponse {
                success: true,
                message: Some(
                    text::joined("Successfully redeemed tokens. Transaction: ", transaction_hash),
                ),
                transaction_hash: Some(transaction_hash.to_owned()),
                amount_redeemed: None,
            },
        )
    } else {
        Err(ApiError::RedemptionFailed { transaction_hash: transaction_hash.to_owned() })
    }
}

/// The layout of the call: four bytes of selector, and then whole words, in each of which the
/// parameter stands where the interface has it.
pub proof fn call_data_layout(collateral: Seq<u8>, condition: Seq<u8>, index_set: u8)
    requires
        collateral.len() == 20,
        condition.len() == 32,
    ensures
        call_data(collateral, condition, index_set).len() == 4 + 6 * WORD_BYTES,
        call_data(collateral, condition, index_set).take(4) == selector(),
        call_data(collateral, condition, index_set).subrange(16, 36) == collateral,
        call_data(collateral, condition, index_set).subrange(36, 68) == number_word(0),
        call_data(collateral, condition, index_set).subrange(68, 100) == condition,
        call_data(collateral, condition, index_set)[131] == 4 * WORD_BYTES,
        call_data(collateral, condition, index_set)[163] == 1,
        call_data(collateral, condition, index_set)[195] == index_set,
{
    let data = call_data(collateral, condition, index_set);
    assert(data.take(4) =~= selector());
    assert(data.subrange(16, 36) =~= collateral);
    assert(data.subrange(36, 68) =~= number_word(0));
    assert(data.subrange(68, 100) =~= condition);
}

/// A condition identifier is taken with or without `0x` before it.
pub proof fn condition_mark_is_optional(condition: Seq<u8>)
    requires
        condition.len() == 32,
    ensures
        signing::word_of(without_hex_mark(signing::hex_text(condition))) == Some(condition),
        signing::word_of(without_hex_mark("0x"@ + signing::hex_text(condition))) == Some(condition),
{
    let written = signing::hex_text(condition);
    reveal_strlit("0x");
    signing::word_round_trip(condition);
    assert(without_hex_mark("0x"@ + written) =~= written);
    assert(written[1] != 'x');
    assert(without_hex_mark(written) == written);
}

/// The call that comes out redeems the outcome of the condition at the contract: its index set is 1
/// for an outcome that says up, and 2 for any other.
pub proof fn call_redeems_the_outcome(
    condition_id: Seq<char>,
    outcome: Seq<char>,
    collateral: Seq<u8>,
    condition: Seq<u8>,
    contract: Seq<u8>,
    result: Result<ContractCall, ApiError>,
)
    requires
        is_call(condition_id, outcome, Some(collateral), Some(condition), Some(contract), result),
        collateral.len() == 20,
        condition.len() == 32,
    ensures
        result is Ok,
        result->Ok_0.contract@ == contract,
        result->Ok_0.data@.len() == 196,
        result->Ok_0.data@.subrange(16, 36) == collateral,
        result->Ok_0.data@.subrange(68, 100) == condition,
        text::contains_text(text::uppercase_of(outcome), "UP"@) || outcome == "1"@
            ==> result->Ok_0.data@[195] == 1,
        !text::contains_text(text::uppercase_of(outcome), "UP"@) && outcome != "1"@
            ==> result->Ok_0.data@[195] == 2,
{
    call_data_layout(collateral, condition, index_set_of(outcome));
}

/// Every word of the call is filled up with zeros before what stands in it, and the call begins with
/// the selector of the function that redeems.
pub proof fn call_words_are_filled_up(
    collateral: Seq<u8>,
    condition: Seq<u8>,
    index_set: u8,
    i: int,
)
    requires
        collateral.len() == 20,
        condition.len() == 32,
    ensures
        ({
            let data = call_data(collateral, condition, index_set);
            &&& data[0] == 0x3d && data[1] == 0x7d && data[2] == 0x3f && data[3] == 0x5a
            &&& 4 <= i < 16 || 36 <= i < 68 || 100 <= i < 131 || 132 <= i < 163 || 164 <= i < 195
                ==> data[i] == 0
        }),
{
}

} // verus!
