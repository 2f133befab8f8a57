//! The transaction builder: from a contract call, a nonce and a fee estimate
//! to a transaction request that is ready to be signed.
//!
//! The call data is the function's selector followed by the arguments, one
//! 32-byte word each. Selector and argument words are computed by
//! `ethers_core`.

use crate::address::{address_digits, h160_from_str, hex_pairs, is_address_text, Address};
use crate::rpc::RpcServices;
use crate::word::{be_bytes, Word};
use ethers_core::types::{H160, U256};
use vstd::prelude::*;

verus! {

/// The most arguments that a call can have: with more, the offsets of the
/// encoding no longer fit in 32 bits.
pub const MAX_ARGUMENTS: usize = 0x7ff_ffff;

/// The type of a function parameter.
#[derive(Clone, Copy, Debug, PartialEq, Eq, Structural)]
pub enum ParamType {
    /// An unsigned integer of the given number of bits.
    Uint(usize),
    /// An account address.
    Address,
}

/// An argument of a contract call.
#[derive(Clone, Copy, Debug, PartialEq, Eq)]
pub enum Token {
    /// An unsigned integer of up to 256 bits.
    Uint(Word),
    /// An account address.
    Address(Address),
}

/// A contract function: its name and the types of its parameters.
#[derive(Clone, Debug, PartialEq, Eq)]
pub struct Function {
    pub name: String,
    pub inputs: Vec<ParamType>,
}

/// A call of a contract function: the contract, the function and the
/// arguments.
#[derive(Clone, Debug, PartialEq, Eq)]
pub struct ContractDetails {
    pub contract_address: String,
    pub function: Function,
    pub args: Vec<Token>,
}

/// What the fee estimation hands over, in units of the chain's currency per
/// unit of gas. The builder takes both numbers as they are.
#[derive(Clone, Copy, Debug, PartialEq, Eq)]
pub struct FeeEstimates {
    pub max_fee_per_gas: Word,
    pub max_priority_fee_per_gas: Word,
}

/// A transaction with priority fee, ready to be signed.
#[derive(Clone, Debug, PartialEq, Eq)]
pub struct TransactionRequest {
    /// The contract that is called.
    pub to: Address,
    /// The gas limit, if one is set.
    pub gas: Option<Word>,
    /// The encoded call.
    pub data: Vec<u8>,
    pub nonce: Word,
    pub max_priority_fee_per_gas: Word,
    pub max_fee_per_gas: Word,
    /// The EIP-155 id of the chain on which the transaction is valid.
    pub chain_id: u64,
    /// The amount sent along with the call.
    pub value: Word,
}

/// What a transaction request denotes.
pub struct TransactionModel {
    pub to: Seq<u8>,
    pub gas: Option<nat>,
    pub data: Seq<u8>,
    pub nonce: nat,
    pub max_priority_fee_per_gas: nat,
    pub max_fee_per_gas: nat,
    pub chain_id: u64,
    pub value: nat,
}

impl View for TransactionRequest {
    type V = TransactionModel;

    open spec fn view(&self) -> TransactionModel {
        TransactionModel {
            to: self.to@,
            gas: match self.gas {
                Some(gas) => Some(gas@),
                None => None,
            },
            data: self.data@,
            nonce: self.nonce@,
            max_priority_fee_per_gas: self.max_priority_fee_per_gas@,
            max_fee_per_gas: self.max_fee_per_gas@,
            chain_id: self.chain_id,
            value: self.value@,
        }
    }
}

/// Why a transaction request could not be built.
#[derive(Clone, Copy, Debug, PartialEq, Eq, Structural)]
pub enum BuildError {
    /// The arguments are not those of the function: their number or their
    /// types differ, or there are more than [`MAX_ARGUMENTS`].
    ArgumentMismatch,
    /// The contract address is not 40 hexadecimal digits.
    MalformedAddress,
}

/// True when the argument can be passed for a parameter of the type: an
/// unsigned integer for one of any width, an address for an address.
pub open spec fn token_fits(token: Token, param: ParamType) -> bool {
    match token {
        Token::Uint(_) => param is Uint,
        Token::Address(_) => param is Address,
    }
}

/// True when the arguments can be passed to a function with these
/// parameters: as many arguments as parameters, at most [`MAX_ARGUMENTS`],
/// and each argument fits its parameter.
pub open spec fn arguments_fit(inputs: Seq<ParamType>, args: Seq<Token>) -> bool {
    &&& args.len() == inputs.len()
    &&& args.len() <= MAX_ARGUMENTS
    &&& forall|i: int| 0 <= i < args.len() ==> token_fits(#[trigger] args[i], inputs[i])
}

/// The 32-byte word that encodes an argument: an integer big-endian, an
/// address in the low 20 bytes after 12 zero bytes.
pub open spec fn token_word(token: Token) -> Seq<u8> {
    match token {
        Token::Uint(value) => be_bytes(value@, 32),
        Token::Address(address) => Seq::new(12, |i: int| 0u8) + address@,
    }
}

/// The encoding of a list of arguments: their words, in order.
pub open spec fn encoded_arguments(args: Seq<Token>) -> Seq<u8>
    decreases args.len(),
{
    if args.len() == 0 {
        Seq::empty()
    } else {
        encoded_arguments(args.drop_last()) + token_word(args.last())
    }
}

/// The selector of a function: the first four bytes of the Keccak-256 hash
/// of its signature, which is the name and, in parentheses and separated by
/// commas, the types of the parameters.
pub uninterp spec fn function_selector(name: Seq<char>, inputs: Seq<ParamType>) -> Seq<u8>;

/// The data of a call: the selector of the function, then the encoded
/// arguments.
pub open spec fn call_data(name: Seq<char>, inputs: Seq<ParamType>, args: Seq<Token>) -> Seq<u8> {
    function_selector(name, inputs) + encoded_arguments(args)
}

/// Calls `ethers_core::abi::short_signature`.
///
/// Trusted: the call computes the selector from the function's name and
/// parameter types alone.
#[verifier::external_body]
pub(crate) fn abi_short_signature(name: &str, inputs: &[ParamType]) -> (selector: [u8; 4])
    ensures
        selector@ == function_selector(name@, inputs@),
{
    let params: Vec<ethers_core::abi::ParamType> = inputs.iter().map(
        |input| match input {
            ParamType::Uint(bits) => ethers_core::abi::ParamType::Uint(*bits),
            ParamType::Address => ethers_core::abi::ParamType::Address,
        },
    ).collect();
    ethers_core::abi::short_signature(name, &params)
}

/// Calls `ethers_core::abi::encode`.
///
/// Trusted: for integers and addresses the call returns one 32-byte word for
/// each argument, in order: an integer big-endian, an address in the low 20
/// bytes of a word that is zero otherwise. The call adds up offsets in 32
/// bits, which can overflow for more than [`MAX_ARGUMENTS`] arguments; the
/// precondition leaves those out.
#[verifier::external_body]
pub(crate) fn abi_encode(args: &[Token]) -> (data: Vec<u8>)
    requires
        args@.len() <= MAX_ARGUMENTS,
    ensures
        data@ == encoded_arguments(args@),
{
    let tokens: Vec<ethers_core::abi::Token> = args.iter().map(
        |arg| match arg {
            Token::Uint(w) => ethers_core::abi::Token::Uint(
                U256([w.limb0, w.limb1, w.limb2, w.limb3]),
            ),
            Token::Address(a) => ethers_core::abi::Token::Address(H160(a.bytes)),
        },
    ).collect();
    ethers_core::abi::encode(&tokens)
}

/// Whether the argument can be passed for a parameter of the type.
fn fits(token: &Token, param: &ParamType) -> (r: bool)
    ensures
        r == token_fits(*token, *param),
{
    match token {
        Token::Uint(_) => match param {
            ParamType::Uint(_) => true,
            ParamType::Address => false,
        },
        Token::Address(_) => match param {
            ParamType::Uint(_) => false,
            ParamType::Address => true,
        },
    }
}

/// The data of a call of the function with the arguments, provided they are
/// those of the function.
pub fn get_data(function: &Function, args: &Vec<Token>) -> (r: Result<Vec<u8>, BuildError>)
    ensures
        r is Ok <==> arguments_fit(function.inputs@, args@),
        r matches Ok(data) ==> data@ == call_data(function.name@, function.inputs@, args@),
        r matches Err(e) ==> e == BuildError::ArgumentMismatch,
{
    if args.len() != function.inputs.len() || args.len() > MAX_ARGUMENTS {
        return Err(BuildError::ArgumentMismatch);
    }
    let mut i: usize = 0;
    while i < args.len()
        invariant
            i <= args@.len(),
            args@.len() == function.inputs@.len(),
            forall|k: int| 0 <= k < i ==> token_fits(#[trigger] args@[k], function.inputs@[k]),
        decreases args@.len() - i,
    {
        if !fits(&args[i], &function.inputs[i]) {
            return Err(BuildError::ArgumentMismatch);
        }
        i += 1;
    }
    let selector = abi_short_signature(function.name.as_str(), function.inputs.as_slice());
    let mut encoded = abi_encode(args.as_slice());
    let mut data: Vec<u8> = Vec::new();
    data.push(selector[0]);
    data.push(selector[1]);
    data.push(selector[2]);
    data.push(selector[3]);
    assert(data@ =~= selector@);
    data.append(&mut encoded);
    Ok(data)
}

/// The view of an optional word.
pub open spec fn optional_value(w: Option<Word>) -> Option<nat> {
    match w {
        Some(w) => Some(w@),
        None => None,
    }
}

/// Puts a transaction request together from its parts.
pub fn assemble_transaction(
    to: Address,
    data: Vec<u8>,
    gas: Option<Word>,
    nonce: Word,
    fees: FeeEstimates,
    chain_id: u64,
    value: Word,
) -> (request: TransactionRequest)
    ensures
        request@ == (TransactionModel {
            to: to@,
            gas: optional_value(gas),
            data: data@,
            nonce: nonce@,
            max_priority_fee_per_gas: fees.max_priority_fee_per_gas@,
            max_fee_per_gas: fees.max_fee_per_gas@,
            chain_id,
            value: value@,
        }),
{
    TransactionRequest {
        to,
        gas,
        data,
        nonce,
        max_priority_fee_per_gas: fees.max_priority_fee_per_gas,
        max_fee_per_gas: fees.max_fee_per_gas,
        chain_id,
        value,
    }
}

/// The transaction request for a contract call, or why there is none: the
/// call is encoded first, then the contract address is read.
pub open spec fn transaction_model(
    contract_address: Seq<char>,
    function_name: Seq<char>,
    inputs: Seq<ParamType>,
    args: Seq<Token>,
    gas: Option<nat>,
    chain_id: u64,
    nonce: nat,
    fees: FeeEstimates,
    value: nat,
) -> Result<TransactionModel, BuildError> {
    if !arguments_fit(inputs, args) {
        Err(BuildError::ArgumentMismatch)
    } else if !is_address_text(contract_address) {
        Err(BuildError::MalformedAddress)
    } else {
        Ok(
            TransactionModel {
                to: hex_pairs(address_digits(contract_address)),
                gas,
                data: call_data(function_name, inputs, args),
                nonce,
                max_priority_fee_per_gas: fees.max_priority_fee_per_gas@,
                max_fee_per_gas: fees.max_fee_per_gas@,
                chain_id,
                value,
            },
        )
    }
}

/// The transaction request for a contract call on the chain that the RPC
/// services reach.
pub open spec fn transaction_for(
    contract_details: &ContractDetails,
    gas: Option<Word>,
    rpc_services: &RpcServices,
    nonce: Word,
    fees: FeeEstimates,
    value: Word,
) -> Result<TransactionModel, BuildError> {
    transaction_model(
        contract_details.contract_address@,
        contract_details.function.name@,
        contract_details.function.inputs@,
        contract_details.args@,
        optional_value(gas),
        rpc_services.spec_chain_id(),
        nonce@,
        fees,
        value@,
    )
}

/// The view of a building result.
pub open spec fn built_view(r: Result<TransactionRequest, BuildError>) -> Result<
    TransactionModel,
    BuildError,
> {
    match r {
        Ok(request) => Ok(request@),
        Err(e) => Err(e),
    }
}

/// Builds the transaction that calls a contract function and sends `value`
/// along, for the chain that the RPC services reach, with the given nonce
/// and the fees as estimated.
pub fn contract_interaction_with_value(
    contract_details: &ContractDetails,
    gas: Option<Word>,
    rpc_services: &RpcServices,
    nonce: Word,
    fees: FeeEstimates,
    value: Word,
) -> (r: Result<TransactionRequest, BuildError>)
    ensures
        built_view(r) == transaction_for(contract_details, gas, rpc_services, nonce, fees, value),
{
    let data = match get_data(&contract_details.function, &contract_details.args) {
        Ok(data) => data,
        Err(e) => {
            return Err(e);
        },
    };
    let to = match h160_from_str(contract_details.contract_address.as_str()) {
        Some(to) => to,
        None => {
            return Err(BuildError::MalformedAddress);
        },
    };
    Ok(assemble_transaction(to, data, gas, nonce, fees, rpc_services.chain_id(), value))
}

} // verus!
