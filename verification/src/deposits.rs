//! Payments that are converted into credits off the ledger.
//!
//! Payers deposit native value or tokens, the ledger records what was paid
//! and what it was worth in dollars at the time, and the funds go to the
//! treasury.

pub mod treasury;

use crate::account::AccountId;
use crate::amount::{ArithmeticError, U128};
use crate::text::{clone_text, text_of};
use vstd::prelude::*;

verus! {

/// Decimals of the native token.
pub const NEAR_DECIMALS: u8 = 24;

/// Smallest deposit, in millionths of a dollar.
pub const MIN_DEPOSIT_USD_MICROS: u128 = 5_000_000;

/// Longest beneficiary name, in bytes.
pub const MAX_BENEFICIARY_LEN: usize = 128;

/// Longest memo, in bytes.
pub const MAX_MEMO_LEN: usize = 256;

/// Oldest price that is still used, in milliseconds: one hour.
pub const MAX_PRICE_AGE_MS: u64 = 3_600_000;

/// The id under which the native token is configured.
pub open spec fn near_token_id() -> Seq<char> {
    "NEAR"@
}

/// Why a call on the deposits is rejected.
#[derive(Clone, Copy, Debug, PartialEq, Eq, Structural)]
pub enum DepositError {
    /// Only the owner may call this.
    NotOwner,
    /// No stored ledger was found to go on with.
    NoStateToMigrate,
    /// No configuration is stored under this token id.
    TokenNotFound,
    /// No value came with the call.
    NothingAttached,
    /// The amount transferred is zero.
    AmountZero,
    BeneficiaryTooLong,
    MemoTooLong,
    /// The native token is not configured.
    NearConfigMissing,
    /// The token that pays is not configured.
    UnsupportedToken,
    /// Deposits in this token are switched off.
    DepositsDisabled,
    /// The token has no price yet.
    PriceNotConfigured,
    /// The token's price is older than an hour.
    PriceStale,
    /// The deposit is worth less than the minimum.
    BelowMinimum,
    /// What came with the transfer could not be read as a deposit message.
    InvalidMessage,
    /// A withdrawal of tokens needs one indivisible unit of value attached.
    MissingYocto,
    Arithmetic(ArithmeticError),
}

/// What the ledger knows of a token it accepts as payment.
#[derive(Debug, PartialEq, Eq)]
pub struct TokenConfig {
    pub symbol: String,
    pub decimals: u8,
    /// Price of one whole token in millionths of a dollar.
    pub price_usd_micros: u128,
    /// When the price was last set, in milliseconds on the host's clock.
    pub last_updated: u64,
    pub is_enabled: bool,
    pub is_native: bool,
}

/// What a token configuration is, mathematically.
pub struct TokenConfigModel {
    pub symbol: Seq<char>,
    pub decimals: u8,
    pub price_usd_micros: u128,
    pub last_updated: u64,
    pub is_enabled: bool,
    pub is_native: bool,
}

impl View for TokenConfig {
    type V = TokenConfigModel;

    open spec fn view(&self) -> TokenConfigModel {
        TokenConfigModel {
            symbol: self.symbol@,
            decimals: self.decimals,
            price_usd_micros: self.price_usd_micros,
            last_updated: self.last_updated,
            is_enabled: self.is_enabled,
            is_native: self.is_native,
        }
    }
}

impl Clone for TokenConfig {
    fn clone(&self) -> (r: Self)
        ensures
            r == *self,
    {
        TokenConfig {
            symbol: self.symbol.clone(),
            decimals: self.decimals,
            price_usd_micros: self.price_usd_micros,
            last_updated: self.last_updated,
            is_enabled: self.is_enabled,
            is_native: self.is_native,
        }
    }
}

impl TokenConfig {
    /// A token configuration whose price counts as set at `now_ms`.
    pub fn new(
        symbol: String,
        decimals: u8,
        price_usd_micros: u128,
        is_native: bool,
        is_enabled: bool,
        now_ms: u64,
    ) -> (r: TokenConfig)
        ensures
            r@ == (TokenConfigModel {
                symbol: symbol@,
                decimals,
                price_usd_micros,
                last_updated: now_ms,
                is_enabled,
                is_native,
            }),
    {
        TokenConfig {
            symbol,
            decimals,
            price_usd_micros,
            last_updated: now_ms,
            is_enabled,
            is_native,
        }
    }
}

/// A token configuration as callers read it, with the id it is stored under.
#[derive(Debug, PartialEq, Eq)]
pub struct TokenConfigView {
    pub token_id: String,
    pub symbol: String,
    pub decimals: u8,
    pub price_usd_micros: U128,
    pub last_updated: u64,
    pub is_enabled: bool,
    pub is_native: bool,
}

/// A token configuration together with the id it is stored under.
pub struct TokenEntryModel {
    pub token_id: Seq<char>,
    pub config: TokenConfigModel,
}

impl View for TokenConfigView {
    type V = TokenEntryModel;

    open spec fn view(&self) -> TokenEntryModel {
        TokenEntryModel {
            token_id: self.token_id@,
            config: TokenConfigModel {
                symbol: self.symbol@,
                decimals: self.decimals,
                price_usd_micros: self.price_usd_micros.0,
                last_updated: self.last_updated,
                is_enabled: self.is_enabled,
                is_native: self.is_native,
            },
        }
    }
}

impl TokenConfigView {
    /// The configuration `cfg`, stored under `token_id`, as callers read it.
    pub fn from_parts(token_id: String, cfg: TokenConfig) -> (r: TokenConfigView)
        ensures
            r@ == (TokenEntryModel { token_id: token_id@, config: cfg@ }),
    {
        TokenConfigView {
            token_id,
            symbol: cfg.symbol,
            decimals: cfg.decimals,
            price_usd_micros: U128(cfg.price_usd_micros),
            last_updated: cfg.last_updated,
            is_enabled: cfg.is_enabled,
            is_native: cfg.is_native,
        }
    }
}

/// A token configuration with the id it is stored under.
#[derive(Debug, PartialEq, Eq)]
pub struct TokenEntry {
    pub token_id: String,
    pub config: TokenConfig,
}

impl View for TokenEntry {
    type V = TokenEntryModel;

    open spec fn view(&self) -> TokenEntryModel {
        TokenEntryModel { token_id: self.token_id@, config: self.config@ }
    }
}

/// The models of a run of token entries, in order.
pub open spec fn token_models(s: Seq<TokenEntry>) -> Seq<TokenEntryModel> {
    Seq::new(s.len(), |i: int| s[i]@)
}

/// The models of a run of token configuration views, in order.
pub open spec fn token_view_models(s: Seq<TokenConfigView>) -> Seq<TokenEntryModel> {
    Seq::new(s.len(), |i: int| s[i]@)
}

/// The ids of a run of token entries, in order.
pub open spec fn token_ids(s: Seq<TokenEntryModel>) -> Seq<Seq<char>> {
    Seq::new(s.len(), |i: int| s[i].token_id)
}

/// What a payer says of a payment made through a token transfer.
#[derive(Debug, PartialEq, Eq)]
pub struct DepositMessage {
    pub beneficiary_id: String,
    pub credits_hint: Option<u64>,
    pub memo: Option<String>,
}

/// A payment as the ledger records it.
#[derive(Debug, PartialEq, Eq)]
pub struct DepositRecord {
    pub id: u64,
    pub account_id: AccountId,
    pub beneficiary_id: String,
    pub token_id: String,
    pub amount: U128,
    pub usd_value: U128,
    pub credits_hint: Option<u64>,
    pub memo: Option<String>,
    pub timestamp_ms: u64,
}

/// A payment as callers read it.
#[derive(Debug, PartialEq, Eq)]
pub struct DepositView {
    pub id: u64,
    pub account_id: AccountId,
    pub beneficiary_id: String,
    pub token_id: String,
    pub amount: U128,
    pub usd_value: U128,
    pub credits_hint: Option<u64>,
    pub memo: Option<String>,
    pub timestamp_ms: u64,
}

/// What a recorded payment is, mathematically.
pub struct DepositModel {
    pub id: u64,
    pub account_id: Seq<char>,
    pub beneficiary_id: Seq<char>,
    pub token_id: Seq<char>,
    pub amount: u128,
    pub usd_value: u128,
    pub credits_hint: Option<u64>,
    pub memo: Option<Seq<char>>,
    pub timestamp_ms: u64,
}

impl View for DepositRecord {
    type V = DepositModel;

    open spec fn view(&self) -> DepositModel {
        DepositModel {
            id: self.id,
            account_id: self.account_id@,
            beneficiary_id: self.beneficiary_id@,
            token_id: self.token_id@,
            amount: self.amount.0,
            usd_value: self.usd_value.0,
            credits_hint: self.credits_hint,
            memo: text_of(self.memo),
            timestamp_ms: self.timestamp_ms,
        }
    }
}

impl View for DepositView {
    type V = DepositModel;

    open spec fn view(&self) -> DepositModel {
        DepositModel {
            id: self.id,
            account_id: self.account_id@,
            beneficiary_id: self.beneficiary_id@,
            token_id: self.token_id@,
            amount: self.amount.0,
            usd_value: self.usd_value.0,
            credits_hint: self.credits_hint,
            memo: text_of(self.memo),
            timestamp_ms: self.timestamp_ms,
        }
    }
}

impl DepositRecord {
    /// The record as callers read it.
    pub fn into_view(self) -> (r: DepositView)
        ensures
            r@ == self@,
    {
        DepositView {
            id: self.id,
            account_id: self.account_id,
            beneficiary_id: self.beneficiary_id,
            token_id: self.token_id,
            amount: self.amount,
            usd_value: self.usd_value,
            credits_hint: self.credits_hint,
            memo: self.memo,
            timestamp_ms: self.timestamp_ms,
        }
    }

    /// A view of the record that leaves the record in place.
    pub fn to_view(&self) -> (r: DepositView)
        ensures
            r@ == self@,
    {
        DepositView {
            id: self.id,
            account_id: self.account_id.clone(),
            beneficiary_id: self.beneficiary_id.clone(),
            token_id: self.token_id.clone(),
            amount: self.amount,
            usd_value: self.usd_value,
            credits_hint: self.credits_hint,
            memo: clone_text(&self.memo),
            timestamp_ms: self.timestamp_ms,
        }
    }
}

/// The models of a run of deposit records, in order.
pub open spec fn deposit_models(s: Seq<DepositRecord>) -> Seq<DepositModel> {
    Seq::new(s.len(), |i: int| s[i]@)
}

/// The models of a run of deposit views, in order.
pub open spec fn deposit_view_models(s: Seq<DepositView>) -> Seq<DepositModel> {
    Seq::new(s.len(), |i: int| s[i]@)
}

/// Ten to the power of `e`.
pub open spec fn pow10(e: nat) -> nat
    decreases e,
{
    if e == 0 {
        1
    } else {
        10 * pow10((e - 1) as nat)
    }
}

/// `x`, or the largest 128-bit number where `x` exceeds it.
pub open spec fn saturated(x: int) -> nat {
    if x > u128::MAX {
        u128::MAX as nat
    } else if x < 0 {
        0
    } else {
        x as nat
    }
}

/// The worth in millionths of a dollar of `amount` base units of a token
/// with `decimals` decimals at `price` per whole token. Whole tokens and
/// the fraction of a token are priced apart, so that a large amount does not
/// overflow before it is divided; each step saturates rather than wrap.
pub open spec fn usd_value(price: u128, decimals: u8, amount: u128) -> nat {
    if price == 0 {
        0
    } else {
        let unit = pow10(decimals as nat);
        let whole = amount as nat / unit;
        let frac = amount as nat % unit;
        saturated((saturated(whole * price) + saturated(frac * price) / unit) as int)
    }
}

/// Powers of ten are positive and grow with the exponent.
pub proof fn lemma_pow10_grows(a: nat, b: nat)
    requires
        a <= b,
    ensures
        0 < pow10(a) <= pow10(b),
    decreases b,
{
    if b == 0 {
    } else if a == b {
        lemma_pow10_grows((a - 1) as nat, (b - 1) as nat);
    } else {
        lemma_pow10_grows(a, (b - 1) as nat);
    }
}

/// Ten to the power of `decimals`, where it fits in 128 bits.
pub fn ten_to(decimals: u8) -> (r: Option<u128>)
    ensures
        match r {
            Some(v) => v == pow10(decimals as nat),
            None => pow10(decimals as nat) > u128::MAX,
        },
{
    let mut unit: u128 = 1;
    let mut i: u8 = 0;
    while i < decimals
        invariant
            i <= decimals,
            unit == pow10(i as nat),
        decreases decimals - i,
    {
        match unit.checked_mul(10) {
            Some(next) => {
                unit = next;
            },
            None => {
                proof {
                    lemma_pow10_grows((i + 1) as nat, decimals as nat);
                }
                return None;
            },
        }
        i = i + 1;
    }
    Some(unit)
}

/// The worth in millionths of a dollar of `amount` base units under the
/// configuration `cfg`.
pub fn usd_value_for(cfg: &TokenConfig, amount: u128) -> (r: u128)
    ensures
        r == usd_value(cfg.price_usd_micros, cfg.decimals, amount),
{
    if cfg.price_usd_micros == 0 {
        return 0;
    }
    proof {
        lemma_pow10_grows(0, cfg.decimals as nat);
    }
    let unit = match ten_to(cfg.decimals) {
        Some(unit) => unit,
        None => {
            // a unit beyond the range holds no whole token, and the priced
            // fraction, saturated, is less than one unit
            proof {
                let unit = pow10(cfg.decimals as nat);
                assert(amount as nat / unit == 0) by (nonlinear_arith)
                    requires
                        amount < unit,
                ;
                assert(amount as nat % unit == amount) by (nonlinear_arith)
                    requires
                        amount < unit,
                        unit > 0,
                ;
                assert(0 * cfg.price_usd_micros == 0);
                let priced = saturated(amount * cfg.price_usd_micros);
                assert(priced / unit == 0) by (nonlinear_arith)
                    requires
                        priced < unit,
                        unit > 0,
                ;
            }
            return 0;
        },
    };
    let whole = amount / unit;
    let frac = amount % unit;
    let part1 = match whole.checked_mul(cfg.price_usd_micros) {
        Some(p) => p,
        None => u128::MAX,
    };
    let part2 = match frac.checked_mul(cfg.price_usd_micros) {
        Some(p) => p,
        None => u128::MAX,
    } / unit;
    match part1.checked_add(part2) {
        Some(sum) => sum,
        None => u128::MAX,
    }
}

} // verus!
