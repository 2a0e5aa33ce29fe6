//! The deposit ledger: accepted tokens, recorded payments, withdrawals.

use crate::account::AccountId;
use crate::amount::{ArithmeticError, SafeAmount, U128};
use crate::deposits::{deposit_models, deposit_view_models, near_token_id, token_ids, token_models, token_view_models, usd_value, usd_value_for, DepositError, DepositMessage, DepositModel, DepositRecord, DepositView, TokenConfig, TokenConfigModel, TokenConfigView, TokenEntry, TokenEntryModel, MAX_BENEFICIARY_LEN, MAX_MEMO_LEN, MAX_PRICE_AGE_MS, MIN_DEPOSIT_USD_MICROS, NEAR_DECIMALS};
use crate::text::text_of;
use crate::text::{byte_len, fits_in};
use vstd::prelude::*;

verus! {

/// The deposit ledger.
#[derive(Debug, PartialEq, Eq)]
pub struct DepositContract {
    pub owner_id: AccountId,
    /// Where native deposits are forwarded to.
    pub treasury_account_id: AccountId,
    pub next_deposit_id: u64,
    /// The accepted tokens, in the order in which they were first configured.
    pub token_configs: Vec<TokenEntry>,
    /// The recorded payments; the payment with id `n` is at position `n`.
    pub deposits: Vec<DepositRecord>,
}

/// What the deposit ledger is, mathematically.
pub struct DepositsModel {
    pub owner_id: Seq<char>,
    pub treasury_account_id: Seq<char>,
    pub next_deposit_id: u64,
    pub tokens: Seq<TokenEntryModel>,
    pub deposits: Seq<DepositModel>,
}

impl View for DepositContract {
    type V = DepositsModel;

    open spec fn view(&self) -> DepositsModel {
        DepositsModel {
            owner_id: self.owner_id@,
            treasury_account_id: self.treasury_account_id@,
            next_deposit_id: self.next_deposit_id,
            tokens: token_models(self.token_configs@),
            deposits: deposit_models(self.deposits@),
        }
    }
}

/// What a deposit message is, mathematically.
pub struct MessageModel {
    pub beneficiary_id: Seq<char>,
    pub credits_hint: Option<u64>,
    pub memo: Option<Seq<char>>,
}

impl View for DepositMessage {
    type V = MessageModel;

    open spec fn view(&self) -> MessageModel {
        MessageModel {
            beneficiary_id: self.beneficiary_id@,
            credits_hint: self.credits_hint,
            memo: text_of(self.memo),
        }
    }
}

/// The message behind an optional deposit message.
pub open spec fn message_of(m: Option<DepositMessage>) -> Option<MessageModel> {
    match m {
        Some(msg) => Some(msg@),
        None => None,
    }
}

/// A transfer of native value that the host is to make.
#[derive(Debug, PartialEq, Eq)]
pub struct NativeTransfer {
    pub receiver: AccountId,
    pub amount: U128,
}

/// A transfer of tokens that the host is to ask a token contract for.
#[derive(Debug, PartialEq, Eq)]
pub struct TokenTransfer {
    pub token: AccountId,
    pub receiver: AccountId,
    pub amount: U128,
    pub memo: Option<String>,
}

/// Whether a price set at `last_updated` is too old at `now_ms`.
pub open spec fn price_is_stale(now_ms: u64, last_updated: u64) -> bool {
    now_ms > last_updated && now_ms - last_updated > MAX_PRICE_AGE_MS
}

/// Why a payment is not priced under `cfg`; `None` where it is.
pub open spec fn pricing_error(cfg: TokenConfigModel, now_ms: u64) -> Option<DepositError> {
    if !cfg.is_enabled {
        Some(DepositError::DepositsDisabled)
    } else if cfg.price_usd_micros == 0 {
        Some(DepositError::PriceNotConfigured)
    } else if price_is_stale(now_ms, cfg.last_updated) {
        Some(DepositError::PriceStale)
    } else {
        None
    }
}

/// Why what a payer says of a payment is rejected; `None` where it is in
/// order.
pub open spec fn wording_error(beneficiary: Seq<char>, memo: Option<Seq<char>>) -> Option<
    DepositError,
> {
    if byte_len(beneficiary) > MAX_BENEFICIARY_LEN {
        Some(DepositError::BeneficiaryTooLong)
    } else if memo is Some && byte_len(memo.unwrap()) > MAX_MEMO_LEN {
        Some(DepositError::MemoTooLong)
    } else {
        None
    }
}

impl DepositsModel {
    /// Position of the configuration stored under `token_id`, if there is
    /// one.
    pub open spec fn token_position(self, token_id: Seq<char>) -> Option<int> {
        if exists|i: int| 0 <= i < self.tokens.len() && self.tokens[i].token_id == token_id {
            Some(choose|i: int| 0 <= i < self.tokens.len() && self.tokens[i].token_id == token_id)
        } else {
            None
        }
    }

    /// The configuration stored under `token_id`, if there is one.
    pub open spec fn config_of(self, token_id: Seq<char>) -> Option<TokenConfigModel> {
        match self.token_position(token_id) {
            Some(i) => Some(self.tokens[i].config),
            None => None,
        }
    }

    /// What holds of the ledger after every call.
    pub open spec fn wf(self) -> bool {
        &&& self.next_deposit_id == self.deposits.len()
        &&& token_ids(self.tokens).no_duplicates()
        &&& forall|i: int| 0 <= i < self.deposits.len() ==> (#[trigger] self.deposits[i]).id == i
    }

    /// The ledger once `config` is stored under `token_id`, in place of what
    /// was stored there or as a new entry.
    pub open spec fn with_token(self, token_id: Seq<char>, config: TokenConfigModel) -> DepositsModel {
        let entry = TokenEntryModel { token_id, config };
        DepositsModel {
            tokens: match self.token_position(token_id) {
                Some(k) => self.tokens.update(k, entry),
                None => self.tokens.push(entry),
            },
            ..self
        }
    }

    /// Why a native deposit is rejected; `None` where it is accepted.
    pub open spec fn native_error(
        self,
        now_ms: u64,
        amount: u128,
        beneficiary: Seq<char>,
        memo: Option<Seq<char>>,
    ) -> Option<DepositError> {
        if amount == 0 {
            Some(DepositError::NothingAttached)
        } else if wording_error(beneficiary, memo) is Some {
            wording_error(beneficiary, memo)
        } else if self.config_of(near_token_id()) is None {
            Some(DepositError::NearConfigMissing)
        } else {
            let cfg = self.config_of(near_token_id()).unwrap();
            if pricing_error(cfg, now_ms) is Some {
                pricing_error(cfg, now_ms)
            } else if usd_value(cfg.price_usd_micros, cfg.decimals, amount)
                < MIN_DEPOSIT_USD_MICROS {
                Some(DepositError::BelowMinimum)
            } else if self.next_deposit_id == u64::MAX {
                Some(DepositError::Arithmetic(ArithmeticError::Overflow))
            } else {
                None
            }
        }
    }

    /// Why a deposit by token transfer is rejected; `None` where it is
    /// accepted.
    pub open spec fn token_error(
        self,
        token_id: Seq<char>,
        now_ms: u64,
        amount: u128,
        message: Option<MessageModel>,
    ) -> Option<DepositError> {
        if amount == 0 {
            Some(DepositError::AmountZero)
        } else if self.config_of(token_id) is None {
            Some(DepositError::UnsupportedToken)
        } else {
            let cfg = self.config_of(token_id).unwrap();
            if pricing_error(cfg, now_ms) is Some {
                pricing_error(cfg, now_ms)
            } else if message is None {
                Some(DepositError::InvalidMessage)
            } else if wording_error(message.unwrap().beneficiary_id, message.unwrap().memo)
                is Some {
                wording_error(message.unwrap().beneficiary_id, message.unwrap().memo)
            } else if usd_value(cfg.price_usd_micros, cfg.decimals, amount)
                < MIN_DEPOSIT_USD_MICROS {
                Some(DepositError::BelowMinimum)
            } else if self.next_deposit_id == u64::MAX {
                Some(DepositError::Arithmetic(ArithmeticError::Overflow))
            } else {
                None
            }
        }
    }

    /// The record of a payment of `amount` in the token `token_id`, made by
    /// `account` at `now_ms`, under the next id.
    pub open spec fn record_of(
        self,
        account: Seq<char>,
        token_id: Seq<char>,
        now_ms: u64,
        amount: u128,
        message: MessageModel,
    ) -> DepositModel
        recommends
            self.config_of(token_id) is Some,
    {
        let cfg = self.config_of(token_id).unwrap();
        DepositModel {
            id: self.next_deposit_id,
            account_id: account,
            beneficiary_id: message.beneficiary_id,
            token_id,
            amount,
            usd_value: usd_value(cfg.price_usd_micros, cfg.decimals, amount) as u128,
            credits_hint: message.credits_hint,
            memo: message.memo,
            timestamp_ms: now_ms,
        }
    }

    /// The ledger once `record` is stored.
    pub open spec fn recorded(self, record: DepositModel) -> DepositsModel {
        DepositsModel {
            deposits: self.deposits.push(record),
            next_deposit_id: (self.next_deposit_id + 1) as u64,
            ..self
        }
    }

    /// The payments that `account` made, in the order of their ids.
    pub open spec fn deposits_of(self, account: Seq<char>) -> Seq<DepositModel> {
        self.deposits.filter(|d: DepositModel| d.account_id == account)
    }
}

/// Where the token ids are distinct, the position of a token id is the one
/// position that holds it.
pub proof fn lemma_token_position(m: DepositsModel, token_id: Seq<char>, k: int)
    requires
        token_ids(m.tokens).no_duplicates(),
        0 <= k < m.tokens.len(),
        m.tokens[k].token_id == token_id,
    ensures
        m.token_position(token_id) == Some(k),
{
    let c = choose|i: int| 0 <= i < m.tokens.len() && m.tokens[i].token_id == token_id;
    assert(token_ids(m.tokens)[c] == token_ids(m.tokens)[k]);
}

/// Storing a configuration keeps the token ids distinct, and makes it the
/// configuration found under its id.
pub proof fn lemma_with_token(m: DepositsModel, token_id: Seq<char>, config: TokenConfigModel)
    requires
        m.wf(),
    ensures
        m.with_token(token_id, config).wf(),
        m.with_token(token_id, config).config_of(token_id) == Some(config),
{
    let after = m.with_token(token_id, config);
    match m.token_position(token_id) {
        Some(k) => {
            assert(token_ids(after.tokens) =~= token_ids(m.tokens));
            lemma_token_position(after, token_id, k);
        },
        None => {
            assert(token_ids(after.tokens) =~= token_ids(m.tokens).push(token_id));
            assert forall|a: int, b: int|
                0 <= a < after.tokens.len() && 0 <= b < after.tokens.len() && a
                    != b implies token_ids(after.tokens)[a] != token_ids(after.tokens)[b] by {
                if a < m.tokens.len() && b < m.tokens.len() {
                    assert(token_ids(m.tokens)[a] != token_ids(m.tokens)[b]);
                } else if a < m.tokens.len() {
                    assert(m.tokens[a].token_id != token_id);
                } else {
                    assert(m.tokens[b].token_id != token_id);
                }
            }
            lemma_token_position(after, token_id, m.tokens.len() as int);
        },
    }
}

impl DepositContract {
    /// What holds of the ledger after every call.
    pub open spec fn wf(&self) -> bool {
        self@.wf()
    }

    /// A ledger owned by `owner_id` that forwards to `treasury_account_id`.
    /// The native token is configured from the start, enabled but without a
    /// price; its price counts as set at `now_ms`.
    pub fn new(owner_id: AccountId, treasury_account_id: AccountId, now_ms: u64) -> (r:
        DepositContract)
        ensures
            r.wf(),
            r@ == (DepositsModel {
                owner_id: owner_id@,
                treasury_account_id: treasury_account_id@,
                next_deposit_id: 0,
                tokens: seq![
                    TokenEntryModel {
                        token_id: near_token_id(),
                        config: TokenConfigModel {
                            symbol: near_token_id(),
                            decimals: NEAR_DECIMALS,
                            price_usd_micros: 0,
                            last_updated: now_ms,
                            is_enabled: true,
                            is_native: true,
                        },
                    },
                ],
                deposits: Seq::empty(),
            }),
    {
        let mut token_configs: Vec<TokenEntry> = Vec::new();
        token_configs.push(
            TokenEntry {
                token_id: "NEAR".to_string(),
                config: TokenConfig::new("NEAR".to_string(), NEAR_DECIMALS, 0, true, true, now_ms),
            },
        );
        let ledger = DepositContract {
            owner_id,
            treasury_account_id,
            next_deposit_id: 0,
            token_configs,
            deposits: Vec::new(),
        };
        proof {
            assert(ledger@.deposits =~= Seq::empty());
            assert(ledger@.tokens =~= seq![
                TokenEntryModel {
                    token_id: near_token_id(),
                    config: TokenConfigModel {
                        symbol: near_token_id(),
                        decimals: NEAR_DECIMALS,
                        price_usd_micros: 0,
                        last_updated: now_ms,
                        is_enabled: true,
                        is_native: true,
                    },
                },
            ]);
        }
        ledger
    }

    /// The ledger to go on with after an upgrade: the stored one, with
    /// another treasury where one is named. Only the stored ledger's owner
    /// may ask for it.
    pub fn migrate(
        stored: Option<DepositContract>,
        caller: &AccountId,
        treasury_account_id: Option<AccountId>,
    ) -> (r: Result<DepositContract, DepositError>)
        requires
            stored matches Some(ledger) ==> ledger.wf(),
        ensures
            stored is None ==> r == Err::<DepositContract, DepositError>(
                DepositError::NoStateToMigrate,
            ),
            stored matches Some(ledger) ==> {
                if caller@ != ledger@.owner_id {
                    r == Err::<DepositContract, DepositError>(DepositError::NotOwner)
                } else {
                    r is Ok && r->Ok_0.wf() && r->Ok_0@ == (DepositsModel {
                        treasury_account_id: match treasury_account_id {
                            Some(t) => t@,
                            None => ledger@.treasury_account_id,
                        },
                        ..ledger@
                    })
                }
            },
    {
        let mut ledger = match stored {
            Some(ledger) => ledger,
            None => {
                return Err(DepositError::NoStateToMigrate);
            },
        };
        if !ledger.owner_id.is(caller) {
            return Err(DepositError::NotOwner);
        }
        if let Some(treasury) = treasury_account_id {
            ledger.treasury_account_id = treasury;
        }
        Ok(ledger)
    }

    /// The position of the configuration stored under `token_id`, if there
    /// is one.
    pub fn find_token(&self, token_id: &String) -> (r: Option<usize>)
        requires
            token_ids(self@.tokens).no_duplicates(),
        ensures
            match r {
                Some(k) => k < self.token_configs.len() && self@.token_position(token_id@) == Some(
                    k as int,
                ),
                None => self@.token_position(token_id@) is None,
            },
    {
        let mut i: usize = 0;
        while i < self.token_configs.len()
            invariant
                i <= self.token_configs.len(),
                token_ids(self@.tokens).no_duplicates(),
                forall|j: int| 0 <= j < i ==> (#[trigger] self@.tokens[j]).token_id != token_id@,
            decreases self.token_configs.len() - i,
        {
            assert(self@.tokens[i as int] == self.token_configs@[i as int]@);
            if self.token_configs[i].token_id == *token_id {
                proof {
                    lemma_token_position(self@, token_id@, i as int);
                }
                return Some(i);
            }
            i = i + 1;
        }
        None
    }

    /// Stores a token configuration under `token_id`, in place of what was
    /// stored there or as a new entry. Owner only.
    pub fn upsert_token_config(
        &mut self,
        caller: &AccountId,
        now_ms: u64,
        token_id: String,
        symbol: String,
        decimals: u8,
        price_usd_micros: U128,
        is_enabled: bool,
        is_native: bool,
    ) -> (r: Result<(), DepositError>)
        requires
            old(self).wf(),
        ensures
            final(self).wf(),
            caller@ != old(self)@.owner_id ==> r == Err::<(), DepositError>(DepositError::NotOwner)
                && *final(self) == *old(self),
            caller@ == old(self)@.owner_id ==> r is Ok && final(self)@ == old(self)@.with_token(
                token_id@,
                TokenConfigModel {
                    symbol: symbol@,
                    decimals,
                    price_usd_micros: price_usd_micros.0,
                    last_updated: now_ms,
                    is_enabled,
                    is_native,
                },
            ),
    {
        if !self.owner_id.is(caller) {
            return Err(DepositError::NotOwner);
        }
        let config = TokenConfig::new(
            symbol,
            decimals,
            price_usd_micros.0,
            is_native,
            is_enabled,
            now_ms,
        );
        proof {
            lemma_with_token(self@, token_id@, config@);
        }
        match self.find_token(&token_id) {
            Some(k) => {
                self.token_configs[k].config = config;
                proof {
                    assert(self@.tokens =~= old(self)@.tokens.update(
                        k as int,
                        TokenEntryModel { token_id: token_id@, config: config@ },
                    ));
                    assert(self@.deposits =~= old(self)@.deposits);
                }
            },
            None => {
                self.token_configs.push(TokenEntry { token_id, config });
                proof {
                    assert(self@.tokens =~= old(self)@.tokens.push(
                        TokenEntryModel { token_id: token_id@, config: config@ },
                    ));
                    assert(self@.deposits =~= old(self)@.deposits);
                }
            },
        }
        Ok(())
    }

    /// Sets the price of a configured token, as of `now_ms`. Owner only.
    pub fn update_token_price(
        &mut self,
        caller: &AccountId,
        now_ms: u64,
        token_id: &String,
        price_usd_micros: U128,
    ) -> (r: Result<(), DepositError>)
        requires
            old(self).wf(),
        ensures
            final(self).wf(),
            caller@ != old(self)@.owner_id ==> r == Err::<(), DepositError>(DepositError::NotOwner)
                && *final(self) == *old(self),
            caller@ == old(self)@.owner_id && old(self)@.config_of(token_id@) is None ==> r == Err::<
                (),
                DepositError,
            >(DepositError::TokenNotFound) && *final(self) == *old(self),
            caller@ == old(self)@.owner_id && old(self)@.config_of(token_id@) is Some ==> r is Ok
                && final(self)@ == old(self)@.with_token(
                token_id@,
                TokenConfigModel {
                    price_usd_micros: price_usd_micros.0,
                    last_updated: now_ms,
                    ..old(self)@.config_of(token_id@).unwrap()
                },
            ),
    {
        if !self.owner_id.is(caller) {
            return Err(DepositError::NotOwner);
        }
        let k = match self.find_token(token_id) {
            Some(k) => k,
            None => {
                return Err(DepositError::TokenNotFound);
            },
        };
        let ghost before = self@.tokens[k as int];
        assert(before == self.token_configs@[k as int]@);
        proof {
            lemma_with_token(
                self@,
                token_id@,
                TokenConfigModel {
                    price_usd_micros: price_usd_micros.0,
                    last_updated: now_ms,
                    ..before.config
                },
            );
        }
        self.token_configs[k].config.price_usd_micros = price_usd_micros.0;
        self.token_configs[k].config.last_updated = now_ms;
        proof {
            assert(self@.tokens =~= old(self)@.tokens.update(
                k as int,
                TokenEntryModel {
                    token_id: token_id@,
                    config: TokenConfigModel {
                        price_usd_micros: price_usd_micros.0,
                        last_updated: now_ms,
                        ..before.config
                    },
                },
            ));
            assert(self@.deposits =~= old(self)@.deposits);
        }
        Ok(())
    }

    /// Names another treasury. Owner only.
    pub fn set_treasury(&mut self, caller: &AccountId, treasury_account_id: AccountId) -> (r:
        Result<(), DepositError>)
        requires
            old(self).wf(),
        ensures
            final(self).wf(),
            caller@ != old(self)@.owner_id ==> r == Err::<(), DepositError>(DepositError::NotOwner)
                && *final(self) == *old(self),
            caller@ == old(self)@.owner_id ==> r is Ok && final(self)@ == (DepositsModel {
                treasury_account_id: treasury_account_id@,
                ..old(self)@
            }),
    {
        if !self.owner_id.is(caller) {
            return Err(DepositError::NotOwner);
        }
        self.treasury_account_id = treasury_account_id;
        Ok(())
    }

    /// The configuration stored under `token_id`, if there is one.
    pub fn get_token_config(&self, token_id: String) -> (r: Option<TokenConfigView>)
        requires
            self.wf(),
        ensures
            match r {
                Some(view) => self@.config_of(token_id@) == Some(view@.config) && view@.token_id
                    == token_id@,
                None => self@.config_of(token_id@) is None,
            },
    {
        match self.find_token(&token_id) {
            Some(k) => {
                assert(self@.tokens[k as int] == self.token_configs@[k as int]@);
                Some(TokenConfigView::from_parts(token_id, self.token_configs[k].config.clone()))
            },
            None => None,
        }
    }

    /// All configured tokens, in the order in which they were first
    /// configured.
    pub fn list_token_configs(&self) -> (r: Vec<TokenConfigView>)
        ensures
            token_view_models(r@) == self@.tokens,
    {
        let mut views: Vec<TokenConfigView> = Vec::new();
        let mut i: usize = 0;
        while i < self.token_configs.len()
            invariant
                i <= self.token_configs.len(),
                views.len() == i,
                forall|j: int| 0 <= j < i ==> (#[trigger] views@[j])@ == self.token_configs@[j]@,
            decreases self.token_configs.len() - i,
        {
            views.push(
                TokenConfigView::from_parts(
                    self.token_configs[i].token_id.clone(),
                    self.token_configs[i].config.clone(),
                ),
            );
            i = i + 1;
        }
        assert(token_view_models(views@) =~= self@.tokens);
        views
    }

    /// The payment recorded under `deposit_id`, if there is one.
    pub fn get_deposit(&self, deposit_id: u64) -> (r: Option<DepositView>)
        ensures
            match r {
                Some(view) => deposit_id < self@.deposits.len() && view@
                    == self@.deposits[deposit_id as int],
                None => deposit_id >= self@.deposits.len(),
            },
    {
        if deposit_id < self.deposits.len() as u64 {
            assert(self@.deposits[deposit_id as int] == self.deposits@[deposit_id as int]@);
            Some(self.deposits[deposit_id as usize].to_view())
        } else {
            None
        }
    }

    /// The payments that `account_id` made, in the order of their ids.
    pub fn get_deposits_for_account(&self, account_id: &AccountId) -> (r: Vec<DepositView>)
        ensures
            deposit_view_models(r@) == self@.deposits_of(account_id@),
    {
        let ghost all = self@.deposits;
        let ghost made_by = |d: DepositModel| d.account_id == account_id@;
        let mut views: Vec<DepositView> = Vec::new();
        let mut i: usize = 0;
        proof {
            assert(all.take(0) =~= Seq::empty());
            reveal(Seq::filter);
            assert(deposit_view_models(views@) =~= all.take(0).filter(made_by));
        }
        while i < self.deposits.len()
            invariant
                i <= self.deposits.len(),
                all == self@.deposits,
                all.len() == self.deposits.len(),
                made_by == (|d: DepositModel| d.account_id == account_id@),
                deposit_view_models(views@) == all.take(i as int).filter(made_by),
            decreases self.deposits.len() - i,
        {
            proof {
                assert(all[i as int] == self.deposits@[i as int]@);
                assert(all.take(i as int + 1) =~= all.take(i as int).push(all[i as int]));
                all.take(i as int).lemma_filter_push(all[i as int], made_by);
            }
            if self.deposits[i].account_id.is(account_id) {
                let ghost before = views@;
                views.push(self.deposits[i].to_view());
                assert(deposit_view_models(views@) =~= deposit_view_models(before).push(
                    all[i as int],
                ));
            }
            i = i + 1;
        }
        assert(all.take(all.len() as int) =~= all);
        views
    }

    /// The worth in millionths of a dollar of `amount` base units under the
    /// configuration `cfg`.
    pub fn usd_value_for(&self, cfg: &TokenConfig, amount: u128) -> (r: u128)
        ensures
            r == usd_value(cfg.price_usd_micros, cfg.decimals, amount),
    {
        usd_value_for(cfg, amount)
    }

    /// Why a payment is not priced under `cfg` at `now_ms`, if it is not.
    fn check_pricing(cfg: &TokenConfig, now_ms: u64) -> (r: Option<DepositError>)
        ensures
            r == pricing_error(cfg@, now_ms),
    {
        if !cfg.is_enabled {
            return Some(DepositError::DepositsDisabled);
        }
        if cfg.price_usd_micros == 0 {
            return Some(DepositError::PriceNotConfigured);
        }
        if now_ms > cfg.last_updated && now_ms - cfg.last_updated > MAX_PRICE_AGE_MS {
            return Some(DepositError::PriceStale);
        }
        None
    }

    /// Why what a payer says of a payment is rejected, if it is.
    fn check_wording(beneficiary_id: &String, memo: &Option<String>) -> (r: Option<DepositError>)
        ensures
            r == wording_error(beneficiary_id@, text_of(*memo)),
    {
        if !fits_in(beneficiary_id.as_str(), MAX_BENEFICIARY_LEN) {
            return Some(DepositError::BeneficiaryTooLong);
        }
        if let Some(m) = memo {
            if !fits_in(m.as_str(), MAX_MEMO_LEN) {
                return Some(DepositError::MemoTooLong);
            }
        }
        None
    }

    /// Stores the record of a payment under the next id, and returns it as
    /// callers read it.
    fn store_deposit(&mut self, record: DepositRecord) -> (r: DepositView)
        requires
            old(self).wf(),
            old(self).next_deposit_id < u64::MAX,
            record.id == old(self).next_deposit_id,
        ensures
            final(self).wf(),
            final(self)@ == old(self)@.recorded(record@),
            r@ == record@,
    {
        let view = record.to_view();
        self.deposits.push(record);
        self.next_deposit_id = self.next_deposit_id + 1;
        proof {
            assert(self@.deposits =~= old(self)@.deposits.push(record@));
            assert(self@.tokens =~= old(self)@.tokens);
        }
        view
    }

    /// Records a deposit of `amount` in the native token by `account_id` at
    /// `now_ms`. The host forwards the amount to the treasury.
    pub fn deposit_native(
        &mut self,
        account_id: AccountId,
        now_ms: u64,
        amount: SafeAmount,
        beneficiary_id: String,
        credits_hint: Option<u64>,
        memo: Option<String>,
    ) -> (r: Result<DepositView, DepositError>)
        requires
            old(self).wf(),
        ensures
            final(self).wf(),
            match r {
                Ok(view) => {
                    &&& old(self)@.native_error(
                        now_ms,
                        amount.yocto,
                        beneficiary_id@,
                        text_of(memo),
                    ) is None
                    &&& view@ == old(self)@.record_of(
                        account_id@,
                        near_token_id(),
                        now_ms,
                        amount.yocto,
                        MessageModel {
                            beneficiary_id: beneficiary_id@,
                            credits_hint,
                            memo: text_of(memo),
                        },
                    )
                    &&& final(self)@ == old(self)@.recorded(view@)
                },
                Err(e) => {
                    &&& old(self)@.native_error(
                        now_ms,
                        amount.yocto,
                        beneficiary_id@,
                        text_of(memo),
                    ) == Some(e)
                    &&& *final(self) == *old(self)
                },
            },
    {
        if amount.is_zero() {
            return Err(DepositError::NothingAttached);
        }
        if let Some(e) = Self::check_wording(&beneficiary_id, &memo) {
            return Err(e);
        }
        let near = "NEAR".to_string();
        let k = match self.find_token(&near) {
            Some(k) => k,
            None => {
                return Err(DepositError::NearConfigMissing);
            },
        };
        assert(self@.tokens[k as int] == self.token_configs@[k as int]@);
        if let Some(e) = Self::check_pricing(&self.token_configs[k].config, now_ms) {
            return Err(e);
        }
        let worth = usd_value_for(&self.token_configs[k].config, amount.as_yoctonear());
        if worth < MIN_DEPOSIT_USD_MICROS {
            return Err(DepositError::BelowMinimum);
        }
        if self.next_deposit_id == u64::MAX {
            return Err(DepositError::Arithmetic(ArithmeticError::Overflow));
        }
        let record = DepositRecord {
            id: self.next_deposit_id,
            account_id,
            beneficiary_id,
            token_id: near,
            amount: U128(amount.as_yoctonear()),
            usd_value: U128(worth),
            credits_hint,
            memo,
            timestamp_ms: now_ms,
        };
        Ok(self.store_deposit(record))
    }

    /// Records a deposit of `amount` that arrived by a transfer of the token
    /// `token_id` from `sender_id` at `now_ms`. `message` is what came with
    /// the transfer, or `None` where it could not be read. The tokens stay
    /// with the ledger until the owner withdraws them.
    pub fn ft_on_transfer(
        &mut self,
        token_id: &AccountId,
        now_ms: u64,
        sender_id: AccountId,
        amount: U128,
        message: Option<DepositMessage>,
    ) -> (r: Result<DepositView, DepositError>)
        requires
            old(self).wf(),
        ensures
            final(self).wf(),
            match r {
                Ok(view) => {
                    &&& old(self)@.token_error(token_id@, now_ms, amount.0, message_of(message))
                        is None
                    &&& view@ == old(self)@.record_of(
                        sender_id@,
                        token_id@,
                        now_ms,
                        amount.0,
                        message_of(message).unwrap(),
                    )
                    &&& final(self)@ == old(self)@.recorded(view@)
                },
                Err(e) => {
                    &&& old(self)@.token_error(token_id@, now_ms, amount.0, message_of(message))
                        == Some(e)
                    &&& *final(self) == *old(self)
                },
            },
    {
        if amount.0 == 0 {
            return Err(DepositError::AmountZero);
        }
        let token = token_id.name.clone();
        let k = match self.find_token(&token) {
            Some(k) => k,
            None => {
                return Err(DepositError::UnsupportedToken);
            },
        };
        assert(self@.tokens[k as int] == self.token_configs@[k as int]@);
        if let Some(e) = Self::check_pricing(&self.token_configs[k].config, now_ms) {
            return Err(e);
        }
        let parsed = match message {
            Some(parsed) => parsed,
            None => {
                return Err(DepositError::InvalidMessage);
            },
        };
        if let Some(e) = Self::check_wording(&parsed.beneficiary_id, &parsed.memo) {
            return Err(e);
        }
        let worth = usd_value_for(&self.token_configs[k].config, amount.0);
        if worth < MIN_DEPOSIT_USD_MICROS {
            return Err(DepositError::BelowMinimum);
        }
        if self.next_deposit_id == u64::MAX {
            return Err(DepositError::Arithmetic(ArithmeticError::Overflow));
        }
        let record = DepositRecord {
            id: self.next_deposit_id,
            account_id: sender_id,
            beneficiary_id: parsed.beneficiary_id,
            token_id: token,
            amount,
            usd_value: U128(worth),
            credits_hint: parsed.credits_hint,
            memo: parsed.memo,
            timestamp_ms: now_ms,
        };
        Ok(self.store_deposit(record))
    }

    /// The transfer of native value that a withdrawal asks the host for: to
    /// the receiver named, or to the treasury. Owner only.
    pub fn withdraw_native(&self, caller: &AccountId, amount: U128, receiver_id: Option<AccountId>) -> (r:
        Result<NativeTransfer, DepositError>)
        ensures
            caller@ != self@.owner_id ==> r == Err::<NativeTransfer, DepositError>(
                DepositError::NotOwner,
            ),
            caller@ == self@.owner_id ==> r is Ok && r->Ok_0.amount == amount && r->Ok_0.receiver@
                == match receiver_id {
                Some(receiver) => receiver@,
                None => self@.treasury_account_id,
            },
    {
        if !self.owner_id.is(caller) {
            return Err(DepositError::NotOwner);
        }
        let receiver = match receiver_id {
            Some(receiver) => receiver,
            None => self.treasury_account_id.clone(),
        };
        Ok(NativeTransfer { receiver, amount })
    }

    /// The transfer of tokens that a withdrawal asks the host for: to the
    /// receiver named, or to the treasury. Owner only, and one indivisible
    /// unit of value must come with the call.
    pub fn withdraw_ft(
        &self,
        caller: &AccountId,
        attached_deposit: SafeAmount,
        token_id: AccountId,
        amount: U128,
        receiver_id: Option<AccountId>,
        memo: Option<String>,
    ) -> (r: Result<TokenTransfer, DepositError>)
        ensures
            caller@ != self@.owner_id ==> r == Err::<TokenTransfer, DepositError>(
                DepositError::NotOwner,
            ),
            caller@ == self@.owner_id && attached_deposit@ < 1 ==> r == Err::<
                TokenTransfer,
                DepositError,
            >(DepositError::MissingYocto),
            caller@ == self@.owner_id && attached_deposit@ >= 1 ==> r is Ok && r->Ok_0.amount
                == amount && r->Ok_0.token@ == token_id@ && text_of(r->Ok_0.memo) == text_of(memo)
                && r->Ok_0.receiver@ == match receiver_id {
                Some(receiver) => receiver@,
                None => self@.treasury_account_id,
            },
    {
        if !self.owner_id.is(caller) {
            return Err(DepositError::NotOwner);
        }
        if attached_deposit.as_yoctonear() < 1 {
            return Err(DepositError::MissingYocto);
        }
        let receiver = match receiver_id {
            Some(receiver) => receiver,
            None => self.treasury_account_id.clone(),
        };
        Ok(TokenTransfer { token: token_id, receiver, amount, memo })
    }

    /// The transfer of tokens that forwards what the ledger holds of a token
    /// to the treasury. Owner only.
    pub fn sweep_ft(&self, caller: &AccountId, token_id: AccountId, amount: U128) -> (r: Result<
        TokenTransfer,
        DepositError,
    >)
        ensures
            caller@ != self@.owner_id ==> r == Err::<TokenTransfer, DepositError>(
                DepositError::NotOwner,
            ),
            caller@ == self@.owner_id ==> r is Ok && r->Ok_0.amount == amount && r->Ok_0.token@
                == token_id@ && r->Ok_0.receiver@ == self@.treasury_account_id && r->Ok_0.memo
                is None,
    {
        if !self.owner_id.is(caller) {
            return Err(DepositError::NotOwner);
        }
        Ok(
            TokenTransfer {
                token: token_id,
                receiver: self.treasury_account_id.clone(),
                amount,
                memo: None,
            },
        )
    }
}

} // verus!
