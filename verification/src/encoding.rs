use vstd::prelude::*;

verus! {

/// The error type of `cosmwasm_std`. Nothing is known of a value of it.
#[verifier::external_type_specification]
#[verifier::external_body]
pub struct ExStdError(cosmwasm_std::StdError);

/// The JSON bytes of the token-contract message that transfers `amount` to
/// `recipient`, or `None` where the encoder refuses the message.
pub uninterp spec fn cw20_transfer_json(recipient: Seq<char>, amount: u128) -> Option<Seq<u8>>;

/// The JSON bytes of the token-contract message that transfers the token
/// `token_id` to `recipient`, or `None` where the encoder refuses the message.
pub uninterp spec fn cw721_transfer_json(recipient: Seq<char>, token_id: Seq<char>) -> Option<
    Seq<u8>,
>;

/// The text that `cosmwasm_std` prints for the time `nanos` nanoseconds
/// after the epoch.
pub uninterp spec fn timestamp_text(nanos: u64) -> Seq<char>;

/// Calls `cosmwasm_std::to_binary` on `cw20::Cw20ExecuteMsg::Transfer`.
///
/// Trusted: the encoder is a function of the message alone, so that what it
/// returns for a recipient and an amount, bytes or a refusal, is what
/// `cw20_transfer_json` names. Nothing is claimed of the bytes themselves,
/// nor that the encoder accepts any message.
#[allow(deprecated)]
#[verifier::external_body]
pub(crate) fn encode_cw20_transfer(recipient: &str, amount: u128) -> (r: Result<
    Vec<u8>,
    cosmwasm_std::StdError,
>)
    ensures
        r matches Ok(bytes) ==> cw20_transfer_json(recipient@, amount) == Some(bytes@),
        r is Err ==> cw20_transfer_json(recipient@, amount) is None,
{
    let msg = cw20::Cw20ExecuteMsg::Transfer {
        recipient: recipient.to_string(),
        amount: cosmwasm_std::Uint128::new(amount),
    };
    cosmwasm_std::to_binary(&msg).map(|b| b.0)
}

/// Calls `cosmwasm_std::to_binary` on `cw721::Cw721ExecuteMsg::TransferNft`.
///
/// Trusted: the encoder is a function of the message alone, so that what it
/// returns for a recipient and a token id, bytes or a refusal, is what
/// `cw721_transfer_json` names. Nothing is claimed of the bytes themselves,
/// nor that the encoder accepts any message.
#[allow(deprecated)]
#[verifier::external_body]
pub(crate) fn encode_cw721_transfer(recipient: &str, token_id: &str) -> (r: Result<
    Vec<u8>,
    cosmwasm_std::StdError,
>)
    ensures
        r matches Ok(bytes) ==> cw721_transfer_json(recipient@, token_id@) == Some(bytes@),
        r is Err ==> cw721_transfer_json(recipient@, token_id@) is None,
{
    let msg = cw721::Cw721ExecuteMsg::TransferNft {
        recipient: recipient.to_string(),
        token_id: token_id.to_string(),
    };
    cosmwasm_std::to_binary(&msg).map(|b| b.0)
}

/// Calls `to_string` on the `cosmwasm_std::Timestamp` of `nanos`.
///
/// Trusted: the text depends on the time alone, so that it is what
/// `timestamp_text` names.
#[verifier::external_body]
pub(crate) fn print_timestamp(nanos: u64) -> (r: String)
    ensures
        r@ == timestamp_text(nanos),
{
    cosmwasm_std::Timestamp::from_nanos(nanos).to_string()
}

} // verus!
