use vstd::prelude::*;

use crate::codec::{chars_to_string, decode_ping, decode_ping_spec};
use crate::fixture::{get_liq_token_addr, FixtureConfig};
use crate::ledger::Ledger;
use crate::msgs::{
    attr_is, Asset, AssetInfo, BalanceResponse, Cw20ReceiveMsg, MockError, MockExecuteMsg,
    MockInstantiateMsg, MockQueryMsg, MockResponse, OutgoingMsg, PairResponse, PoolResponse,
    QueryAnswer, TokenInfoResponse,
};

verus! {

/// The decimal digit `d` as a character, for `d` up to 9.
pub open spec fn dec_digit(d: nat) -> char {
    if d == 0 {
        '0'
    } else if d == 1 {
        '1'
    } else if d == 2 {
        '2'
    } else if d == 3 {
        '3'
    } else if d == 4 {
        '4'
    } else if d == 5 {
        '5'
    } else if d == 6 {
        '6'
    } else if d == 7 {
        '7'
    } else if d == 8 {
        '8'
    } else {
        '9'
    }
}

/// `n` written in decimal, most significant digit first, no leading zeros
/// (a single `'0'` for 0).
pub open spec fn dec_str(n: nat) -> Seq<char>
    decreases n,
{
    if n < 10 {
        seq![dec_digit(n)]
    } else {
        dec_str(n / 10).push(dec_digit(n % 10))
    }
}

fn digit_char(d: u128) -> (c: char)
    requires
        d < 10,
    ensures
        c == dec_digit(d as nat),
{
    if d == 0 {
        '0'
    } else if d == 1 {
        '1'
    } else if d == 2 {
        '2'
    } else if d == 3 {
        '3'
    } else if d == 4 {
        '4'
    } else if d == 5 {
        '5'
    } else if d == 6 {
        '6'
    } else if d == 7 {
        '7'
    } else if d == 8 {
        '8'
    } else {
        '9'
    }
}

fn push_dec(n: u128, out: &mut Vec<char>)
    ensures
        final(out)@ == old(out)@ + dec_str(n as nat),
    decreases n,
{
    if n < 10 {
        out.push(digit_char(n));
        proof {
            assert(old(out)@.push(dec_digit(n as nat)) =~= old(out)@ + dec_str(n as nat));
        }
    } else {
        push_dec(n / 10, out);
        out.push(digit_char(n % 10));
        proof {
            assert((old(out)@ + dec_str((n / 10) as nat)).push(dec_digit((n % 10) as nat)) =~= old(
                out,
            )@ + dec_str(n as nat));
        }
    }
}

/// `n` rendered as its decimal string, as response attributes carry amounts.
pub fn u128_to_dec(n: u128) -> (r: String)
    ensures
        r@ == dec_str(n as nat),
{
    let mut out: Vec<char> = Vec::new();
    push_dec(n, &mut out);
    proof {
        assert(Seq::<char>::empty() + dec_str(n as nat) =~= dec_str(n as nat));
    }
    chars_to_string(out)
}

/// `i` names the native denomination `denom`.
pub open spec fn is_native(i: AssetInfo, denom: Seq<char>) -> bool {
    i matches AssetInfo::NativeToken { denom: d } && d@ == denom
}

/// The fixed pair descriptor: twice the `uusd` denomination, the constant
/// pair-contract identifier, and `liq` as the liquidity token.
pub open spec fn is_mock_pair(p: PairResponse, liq: Seq<char>) -> bool {
    &&& is_native(p.asset_infos@[0], "uusd"@)
    &&& is_native(p.asset_infos@[1], "uusd"@)
    &&& p.contract_addr@ == "pair0000"@
    &&& p.liquidity_token@ == liq
}

/// The fixed pool descriptor: reserves of 10000 `token` and 10000 `uusd`,
/// total share 1000.
pub open spec fn is_mock_pool(p: PoolResponse) -> bool {
    &&& p.assets@[0].amount == 10000
    &&& is_native(p.assets@[0].info, "token"@)
    &&& p.assets@[1].amount == 10000
    &&& is_native(p.assets@[1].info, "uusd"@)
    &&& p.total_share == 1000
}

/// The fixed token descriptor.
pub open spec fn is_mock_token_info(t: TokenInfoResponse) -> bool {
    &&& t.name@ == "MyToken"@
    &&& t.symbol@ == "TOKEN"@
    &&& t.decimals == 6
    &&& t.total_supply == 100_000_000_000_000u128
}

/// A balance answer with dummy data: the balance is the constant 10,
/// whatever the ledger holds.
pub fn mock_balance_info() -> (r: BalanceResponse)
    ensures
        r.balance == 10,
{
    BalanceResponse { balance: 10 }
}

/// A pair answer with dummy data; only the liquidity token varies, following
/// the fixture registry.
pub fn mock_pair_info(cfg: &FixtureConfig) -> (r: PairResponse)
    ensures
        is_mock_pair(r, cfg@),
{
    PairResponse {
        asset_infos: [
            AssetInfo::NativeToken { denom: String::from_str("uusd") },
            AssetInfo::NativeToken { denom: String::from_str("uusd") },
        ],
        contract_addr: String::from_str("pair0000"),
        liquidity_token: get_liq_token_addr(cfg),
    }
}

/// A pool answer with dummy data: constant reserves and total share.
pub fn mock_pool_info() -> (r: PoolResponse)
    ensures
        is_mock_pool(r),
{
    PoolResponse {
        assets: [
            Asset { amount: 10000, info: AssetInfo::NativeToken { denom: String::from_str("token") } },
            Asset { amount: 10000, info: AssetInfo::NativeToken { denom: String::from_str("uusd") } },
        ],
        total_share: 1000,
    }
}

/// A token descriptor with dummy data.
pub fn mock_token_info() -> (r: TokenInfoResponse)
    ensures
        is_mock_token_info(r),
{
    TokenInfoResponse {
        name: String::from_str("MyToken"),
        symbol: String::from_str("TOKEN"),
        decimals: 6,
        total_supply: 100_000_000_000_000u128,
    }
}

/// Instantiation always succeeds and answers with an empty response.
pub fn instantiate(_msg: MockInstantiateMsg) -> (r: MockResponse)
    ensures
        r.is_empty_response(),
{
    MockResponse::new()
}

/// The execute transition over (ledger, caller, message).
///
/// `recipient_is_valid` is the host's verdict on the `Transfer` recipient
/// (address validity is host-defined); it is ignored by every other message.
///
/// - `Receive`: decode the payload as a ping; answer `action=pong` with the
///   decoded payload as result data, or fail with `DecodeError`.
/// - `Mint`, `Burn`: deliberate no-ops, an empty response.
/// - `Send`: attach the receive envelope, addressed to `contract`, carrying
///   the caller, the amount and the payload; the ledger is untouched.
/// - `Transfer`: credit the recipient by `amount` — the sender is never
///   debited, a deliberate simplification of this fixture — or fail with
///   `InvalidAddress` and an untouched ledger.
pub fn execute(
    ledger: &mut Ledger,
    caller: String,
    msg: MockExecuteMsg,
    recipient_is_valid: bool,
) -> (r: Result<MockResponse, MockError>)
    requires
        old(ledger).well_formed(),
        msg matches MockExecuteMsg::Transfer { recipient, amount } ==> (recipient_is_valid
            ==> old(ledger).balance_spec(recipient@) + amount <= u128::MAX),
    ensures
        final(ledger).well_formed(),
        match msg {
            MockExecuteMsg::Receive(env) => *final(ledger) == *old(ledger) && match decode_ping_spec(
                env.msg@,
            ) {
                Some(p) => r matches Ok(resp) && resp.attributes@.len() == 1 && attr_is(
                    resp.attributes@[0],
                    "action"@,
                    "pong"@,
                ) && resp.messages@.len() == 0 && (resp.data matches Some(d) && d@ == p),
                None => r == Err::<MockResponse, MockError>(MockError::DecodeError),
            },
            MockExecuteMsg::Mint { recipient, amount } => *final(ledger) == *old(ledger) && (
            r matches Ok(resp) && resp.is_empty_response()),
            MockExecuteMsg::Send { contract, amount, msg: fwd } => *final(ledger) == *old(ledger)
                && (r matches Ok(resp) && resp.attributes@.len() == 0 && resp.data is None
                && resp.messages@.len() == 1 && resp.messages@[0].contract@ == contract@
                && resp.messages@[0].envelope.sender@ == caller@
                && resp.messages@[0].envelope.amount == amount
                && resp.messages@[0].envelope.msg@ == fwd@),
            MockExecuteMsg::Burn { amount } => *final(ledger) == *old(ledger) && (r matches Ok(resp)
                && resp.is_empty_response()),
            MockExecuteMsg::Transfer { recipient, amount } => if recipient_is_valid {
                &&& final(ledger).balance_spec(recipient@) == old(ledger).balance_spec(recipient@)
                    + amount
                &&& forall|a: Seq<char>|
                    a != recipient@ ==> final(ledger).balance_spec(a) == old(ledger).balance_spec(
                        a,
                    )
                &&& r matches Ok(resp) && resp.messages@.len() == 0 && resp.data is None
                    && resp.attributes@.len() == 4 && attr_is(
                    resp.attributes@[0],
                    "action"@,
                    "transfer"@,
                ) && attr_is(resp.attributes@[1], "from"@, caller@) && attr_is(
                    resp.attributes@[2],
                    "to"@,
                    recipient@,
                ) && attr_is(resp.attributes@[3], "amount"@, dec_str(amount as nat))
            } else {
                *final(ledger) == *old(ledger) && r == Err::<MockResponse, MockError>(
                    MockError::InvalidAddress,
                )
            },
        },
{
    match msg {
        MockExecuteMsg::Receive(env) => {
            match decode_ping(env.msg.as_str()) {
                Some(received) => Ok(
                    MockResponse::new().add_attribute(
                        String::from_str("action"),
                        String::from_str("pong"),
                    ).set_data(received.payload),
                ),
                None => Err(MockError::DecodeError),
            }
        },
        MockExecuteMsg::Mint { recipient: _, amount: _ } => Ok(MockResponse::new()),
        MockExecuteMsg::Send { contract, amount, msg: fwd } => Ok(
            MockResponse::new().add_message(
                OutgoingMsg {
                    contract,
                    envelope: Cw20ReceiveMsg { sender: caller, amount, msg: fwd },
                },
            ),
        ),
        MockExecuteMsg::Burn { amount: _ } => Ok(MockResponse::new()),
        MockExecuteMsg::Transfer { recipient, amount } => {
            if !recipient_is_valid {
                return Err(MockError::InvalidAddress);
            }
            let to_attr = recipient.clone();
            ledger.credit(recipient, amount);
            Ok(
                MockResponse::new().add_attribute(
                    String::from_str("action"),
                    String::from_str("transfer"),
                ).add_attribute(String::from_str("from"), caller).add_attribute(
                    String::from_str("to"),
                    to_attr,
                ).add_attribute(String::from_str("amount"), u128_to_dec(amount)),
            )
        },
    }
}

/// The query transition. The ledger is handed in as the host hands storage
/// to every query, and deliberately never consulted: every answer is fixed
/// but for the liquidity token, which follows the fixture registry.
pub fn query(_ledger: &Ledger, cfg: &FixtureConfig, msg: MockQueryMsg) -> (r: QueryAnswer)
    ensures
        match msg {
            MockQueryMsg::Pair {  } => r matches QueryAnswer::Pair(p) && is_mock_pair(p, cfg@),
            MockQueryMsg::Pool {  } => r matches QueryAnswer::Pool(p) && is_mock_pool(p),
            MockQueryMsg::TokenInfo {  } => r matches QueryAnswer::TokenInfo(t)
                && is_mock_token_info(t),
            MockQueryMsg::Balance { address } => r matches QueryAnswer::Balance(b) && b.balance
                == 10,
        },
{
    match msg {
        MockQueryMsg::Pair {  } => QueryAnswer::Pair(mock_pair_info(cfg)),
        MockQueryMsg::Pool {  } => QueryAnswer::Pool(mock_pool_info()),
        MockQueryMsg::TokenInfo {  } => QueryAnswer::TokenInfo(mock_token_info()),
        MockQueryMsg::Balance { address: _ } => QueryAnswer::Balance(mock_balance_info()),
    }
}

/// Transfers accumulate: starting from balance 0, a transfer of `n1` and
/// then one of `n2` to the same address leave its balance at exactly
/// `n1 + n2`; `l1` and `l2` are the ledgers after the first and the second
/// transfer, as `execute` describes them.
pub proof fn lemma_transfers_accumulate(
    l0: Ledger,
    l1: Ledger,
    l2: Ledger,
    a: Seq<char>,
    n1: u128,
    n2: u128,
)
    requires
        l0.balance_spec(a) == 0,
        l1.balance_spec(a) == l0.balance_spec(a) + n1,
        l2.balance_spec(a) == l1.balance_spec(a) + n2,
    ensures
        l2.balance_spec(a) == n1 + n2,
{
}

} // verus!
