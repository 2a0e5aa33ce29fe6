use content_bounty_market::account::AccountId;
use content_bounty_market::amount::{SafeAmount, U128};
use content_bounty_market::deposits::{DepositError, DepositMessage, DepositView, TokenConfig, MAX_BENEFICIARY_LEN, MAX_MEMO_LEN, MIN_DEPOSIT_USD_MICROS};
use content_bounty_market::deposits::treasury::{DepositContract, NativeTransfer, TokenTransfer};

const NEAR_TOKEN_ID: &str = "NEAR";

fn accounts(id: usize) -> AccountId {
    AccountId::new(["alice", "bob", "charlie", "danny", "eugene", "fargo"][id])
}

fn init_contract() -> DepositContract {
    DepositContract::new(accounts(0), accounts(1), 0)
}

fn priced(price: u128) -> DepositContract {
    let mut contract = init_contract();
    contract.update_token_price(&accounts(0), 0, &NEAR_TOKEN_ID.to_string(), U128(price)).unwrap();
    contract
}

fn upsert(contract: &mut DepositContract, token: &str, symbol: &str, decimals: u8, price: u128, enabled: bool, native: bool) {
    contract
        .upsert_token_config(&accounts(0), 0, token.to_string(), symbol.to_string(), decimals, U128(price), enabled, native)
        .unwrap();
}

fn native(contract: &mut DepositContract, who: usize, yocto: u128, beneficiary: &str, hint: Option<u64>, memo: Option<&str>) -> Result<DepositView, DepositError> {
    contract.deposit_native(accounts(who), 0, SafeAmount::from_yoctonear(yocto), beneficiary.to_string(), hint, memo.map(|m| m.to_string()))
}

fn message(beneficiary: &str, hint: Option<u64>, memo: Option<&str>) -> Option<DepositMessage> {
    Some(DepositMessage { beneficiary_id: beneficiary.to_string(), credits_hint: hint, memo: memo.map(|m| m.to_string()) })
}

fn ft(contract: &mut DepositContract, token: &str, sender: usize, amount: u128, msg: Option<DepositMessage>) -> Result<DepositView, DepositError> {
    contract.ft_on_transfer(&AccountId::new(token), 0, accounts(sender), U128(amount), msg)
}

fn cfg(symbol: &str, decimals: u8, price: u128) -> TokenConfig {
    TokenConfig::new(symbol.to_string(), decimals, price, false, true, 0)
}

const SIX_NEAR: u128 = 6_000_000_000_000_000_000_000_000;
const FIVE_NEAR: u128 = 5_000_000_000_000_000_000_000_000;

#[test]
fn lib_test_contract_initialization() {
    let contract = init_contract();
    assert_eq!(contract.owner_id, accounts(0));
    assert_eq!(contract.treasury_account_id, accounts(1));
    assert_eq!(contract.next_deposit_id, 0);
    let near_config = contract.get_token_config(NEAR_TOKEN_ID.to_string());
    assert!(near_config.is_some());
    let config = near_config.unwrap();
    assert_eq!(config.symbol, "NEAR");
    assert_eq!(config.decimals, 24);
    assert!(config.is_native);
    assert!(config.is_enabled);
}

#[test]
fn test_upsert_token_config() {
    let mut contract = init_contract();
    upsert(&mut contract, "usdc.token", "USDC", 6, 1_000_000, true, false);
    let config = contract.get_token_config("usdc.token".to_string());
    assert!(config.is_some());
    let config = config.unwrap();
    assert_eq!(config.symbol, "USDC");
    assert_eq!(config.decimals, 6);
    assert_eq!(config.price_usd_micros.0, 1_000_000);
    assert!(config.is_enabled);
    assert!(!config.is_native);
    assert_eq!(config.last_updated, 0);
}

#[test]
fn test_upsert_token_config_non_owner_fails() {
    let mut contract = init_contract();
    let r = contract.upsert_token_config(&accounts(2), 0, "usdc.token".to_string(), "USDC".to_string(), 6, U128(1_000_000), true, false);
    assert_eq!(r, Err(DepositError::NotOwner));
    assert!(contract.get_token_config("usdc.token".to_string()).is_none());
}

#[test]
fn test_update_token_price() {
    let contract = priced(5_000_000);
    let config = contract.get_token_config(NEAR_TOKEN_ID.to_string()).unwrap();
    assert_eq!(config.price_usd_micros.0, 5_000_000);
}

#[test]
fn test_update_nonexistent_token_price_fails() {
    let mut contract = init_contract();
    let r = contract.update_token_price(&accounts(0), 0, &"nonexistent.token".to_string(), U128(1_000_000));
    assert_eq!(r, Err(DepositError::TokenNotFound));
}

#[test]
fn test_update_token_price_non_owner_fails() {
    let mut contract = init_contract();
    let r = contract.update_token_price(&accounts(2), 0, &NEAR_TOKEN_ID.to_string(), U128(5_000_000));
    assert_eq!(r, Err(DepositError::NotOwner));
}

#[test]
fn test_list_token_configs() {
    let mut contract = init_contract();
    upsert(&mut contract, "usdc.token", "USDC", 6, 1_000_000, true, false);
    let configs = contract.list_token_configs();
    assert!(configs.len() >= 2);
    assert!(configs.iter().any(|c| c.token_id == NEAR_TOKEN_ID));
    assert!(configs.iter().any(|c| c.token_id == "usdc.token"));
    assert_eq!(configs.len(), 2);
    assert_eq!(configs[1].token_id, "usdc.token");
}

#[test]
fn test_set_treasury() {
    let mut contract = init_contract();
    let new_treasury = accounts(5);
    contract.set_treasury(&accounts(0), new_treasury.clone()).unwrap();
    assert_eq!(contract.treasury_account_id, new_treasury);
}

#[test]
fn test_set_treasury_non_owner_fails() {
    let mut contract = init_contract();
    assert_eq!(contract.set_treasury(&accounts(2), accounts(5)), Err(DepositError::NotOwner));
    assert_eq!(contract.treasury_account_id, accounts(1));
}

#[test]
fn test_native_deposit_records() {
    let mut contract = priced(1_000_000);
    let receipt = native(&mut contract, 2, SIX_NEAR, "user-123", Some(250), None).unwrap();
    assert_eq!(receipt.account_id, accounts(2));
    assert_eq!(receipt.usd_value.0, 6 * 1_000_000);
    assert_eq!(receipt.credits_hint, Some(250));
    assert_eq!(receipt.token_id, NEAR_TOKEN_ID);
    assert_eq!(receipt.beneficiary_id, "user-123");
    assert_eq!(receipt.id, 0);
    assert_eq!(receipt.timestamp_ms, 0);
    assert_eq!(receipt.amount.0, SIX_NEAR);
    let deposits = contract.get_deposits_for_account(&accounts(2));
    assert_eq!(deposits.len(), 1);
    assert_eq!(deposits[0].usd_value.0, receipt.usd_value.0);
}

#[test]
fn test_native_deposit_with_memo() {
    let mut contract = priced(2_000_000);
    let receipt = native(&mut contract, 2, FIVE_NEAR, "user-456", Some(500), Some("Premium subscription")).unwrap();
    assert_eq!(receipt.memo, Some("Premium subscription".to_string()));
    assert_eq!(receipt.usd_value.0, 10_000_000);
}

#[test]
fn test_multiple_deposits_increment_id() {
    let mut contract = priced(1_000_000);
    let receipt1 = native(&mut contract, 2, SIX_NEAR, "user-1", None, None).unwrap();
    let receipt2 = native(&mut contract, 3, SIX_NEAR, "user-2", None, None).unwrap();
    assert_eq!(receipt1.id, 0);
    assert_eq!(receipt2.id, 1);
}

#[test]
fn test_deposit_retrieval_by_id() {
    let mut contract = priced(1_000_000);
    let receipt = native(&mut contract, 2, SIX_NEAR, "user-789", Some(300), None).unwrap();
    let retrieved = contract.get_deposit(receipt.id);
    assert!(retrieved.is_some());
    let retrieved = retrieved.unwrap();
    assert_eq!(retrieved.id, receipt.id);
    assert_eq!(retrieved.beneficiary_id, "user-789");
    assert_eq!(retrieved.credits_hint, Some(300));
    assert_eq!(retrieved, receipt);
}

#[test]
fn test_nonexistent_deposit_returns_none() {
    let contract = init_contract();
    assert!(contract.get_deposit(999).is_none());
}

#[test]
fn test_deposits_by_account_multiple() {
    let mut contract = priced(1_000_000);
    for b in ["user-a", "user-b", "user-c"] {
        native(&mut contract, 2, SIX_NEAR, b, None, None).unwrap();
    }
    let deposits = contract.get_deposits_for_account(&accounts(2));
    assert_eq!(deposits.len(), 3);
    assert_eq!(deposits[0].beneficiary_id, "user-a");
    assert_eq!(deposits[1].beneficiary_id, "user-b");
    assert_eq!(deposits[2].beneficiary_id, "user-c");
}

#[test]
fn test_empty_deposits_for_new_account() {
    let contract = init_contract();
    assert_eq!(contract.get_deposits_for_account(&accounts(5)).len(), 0);
}

#[test]
fn test_native_deposit_below_min_rejected() {
    let mut contract = priced(2_000_000);
    let two_near = 2u128 * 10u128.pow(24);
    assert_eq!(native(&mut contract, 2, two_near, "user", None, None), Err(DepositError::BelowMinimum));
    assert_eq!(contract.next_deposit_id, 0);
}

#[test]
fn test_native_deposit_zero_amount_fails() {
    let mut contract = priced(1_000_000);
    assert_eq!(native(&mut contract, 2, 0, "user", None, None), Err(DepositError::NothingAttached));
}

#[test]
fn test_native_deposit_without_price_fails() {
    let mut contract = init_contract();
    assert_eq!(native(&mut contract, 2, SIX_NEAR, "user", None, None), Err(DepositError::PriceNotConfigured));
}

#[test]
fn test_native_deposit_when_disabled_fails() {
    let mut contract = init_contract();
    upsert(&mut contract, NEAR_TOKEN_ID, "NEAR", 24, 1_000_000, false, true);
    assert_eq!(native(&mut contract, 2, SIX_NEAR, "user", None, None), Err(DepositError::DepositsDisabled));
}

#[test]
fn test_native_deposit_exactly_at_minimum() {
    let mut contract = priced(1_000_000);
    let receipt = native(&mut contract, 2, FIVE_NEAR, "user", None, None).unwrap();
    assert_eq!(receipt.usd_value.0, MIN_DEPOSIT_USD_MICROS);
}

#[test]
fn test_usd_value_calculation_precision() {
    let contract = init_contract();
    let usd = contract.usd_value_for(&cfg("TEST", 6, 1_500_000), 10_000_000);
    assert_eq!(usd, 15_000_000);
}

#[test]
fn test_ft_deposit_records() {
    let mut contract = init_contract();
    upsert(&mut contract, "usdt.token", "USDT", 6, 1_000_000, true, false);
    ft(&mut contract, "usdt.token", 3, 7_000_000, message("user-321", Some(500), Some("stablecoin deposit"))).unwrap();
    let deposits = contract.get_deposits_for_account(&accounts(3));
    assert_eq!(deposits.len(), 1);
    assert_eq!(deposits[0].usd_value.0, 7 * 1_000_000);
    assert_eq!(deposits[0].token_id, "usdt.token".to_string());
    assert_eq!(deposits[0].memo, Some("stablecoin deposit".to_string()));
}

#[test]
fn test_ft_deposit_minimal_message() {
    let mut contract = init_contract();
    upsert(&mut contract, "dai.token", "DAI", 18, 1_000_000, true, false);
    let amount = 10u128 * 10u128.pow(18);
    ft(&mut contract, "dai.token", 4, amount, message("user-999", None, None)).unwrap();
    let deposits = contract.get_deposits_for_account(&accounts(4));
    assert_eq!(deposits.len(), 1);
    assert_eq!(deposits[0].beneficiary_id, "user-999");
    assert_eq!(deposits[0].credits_hint, None);
    assert_eq!(deposits[0].memo, None);
}

#[test]
fn test_ft_deposit_zero_amount_fails() {
    let mut contract = init_contract();
    upsert(&mut contract, "usdt.token", "USDT", 6, 1_000_000, true, false);
    assert_eq!(ft(&mut contract, "usdt.token", 3, 0, message("user", None, None)), Err(DepositError::AmountZero));
}

#[test]
fn test_beneficiary_too_long_native() {
    let mut contract = priced(1_000_000);
    let long = "x".repeat(MAX_BENEFICIARY_LEN + 1);
    assert_eq!(native(&mut contract, 2, SIX_NEAR, &long, None, None), Err(DepositError::BeneficiaryTooLong));
    assert!(native(&mut contract, 2, SIX_NEAR, &"x".repeat(MAX_BENEFICIARY_LEN), None, None).is_ok());
}

#[test]
fn test_memo_too_long_native() {
    let mut contract = priced(1_000_000);
    let memo = "y".repeat(MAX_MEMO_LEN + 1);
    assert_eq!(native(&mut contract, 2, SIX_NEAR, "user", None, Some(&memo)), Err(DepositError::MemoTooLong));
    assert!(native(&mut contract, 2, SIX_NEAR, "user", None, Some(&"y".repeat(MAX_MEMO_LEN))).is_ok());
}

#[test]
fn test_usd_value_overflow_guard_large_amount() {
    let mut contract = init_contract();
    upsert(&mut contract, "big.token", "BIG", 24, 2_000_000, true, false);
    let amount = 1_000_000_000_000_000_000_000_000_000_000u128;
    ft(&mut contract, "big.token", 3, amount, message("user", None, None)).unwrap();
    let deposits = contract.get_deposits_for_account(&accounts(3));
    assert_eq!(deposits.len(), 1);
    assert!(deposits[0].usd_value.0 > 0);
    assert_eq!(deposits[0].usd_value.0, 2_000_000_000_000);
}

#[test]
fn test_migrate_requires_owner() {
    let initial = priced(1_000_000);
    let r = DepositContract::migrate(Some(initial), &accounts(2), None);
    assert_eq!(r.err(), Some(DepositError::NotOwner));
}

#[test]
fn test_migrate_updates_treasury() {
    let initial = priced(1_000_000);
    let updated = DepositContract::migrate(Some(initial), &accounts(0), Some(accounts(3))).unwrap();
    assert_eq!(updated.treasury_account_id, accounts(3));
    assert_eq!(updated.owner_id, accounts(0));
    assert_eq!(updated.get_token_config(NEAR_TOKEN_ID.to_string()).unwrap().price_usd_micros.0, 1_000_000);
}

#[test]
fn test_ft_deposit_unsupported_token_fails() {
    let mut contract = init_contract();
    assert_eq!(ft(&mut contract, "unknown.token", 3, 1_000_000, message("user", None, None)), Err(DepositError::UnsupportedToken));
}

#[test]
fn test_ft_deposit_disabled_token_fails() {
    let mut contract = init_contract();
    upsert(&mut contract, "usdc.token", "USDC", 6, 1_000_000, false, false);
    assert_eq!(ft(&mut contract, "usdc.token", 3, 6_000_000, message("user", None, None)), Err(DepositError::DepositsDisabled));
}

#[test]
fn test_ft_deposit_zero_price_fails() {
    let mut contract = init_contract();
    upsert(&mut contract, "test.token", "TEST", 6, 0, true, false);
    assert_eq!(ft(&mut contract, "test.token", 3, 10_000_000, message("user", None, None)), Err(DepositError::PriceNotConfigured));
}

#[test]
fn test_ft_deposit_below_minimum_fails() {
    let mut contract = init_contract();
    upsert(&mut contract, "usdc.token", "USDC", 6, 1_000_000, true, false);
    assert_eq!(ft(&mut contract, "usdc.token", 3, 3_000_000, message("user", None, None)), Err(DepositError::BelowMinimum));
}

#[test]
fn test_ft_deposit_invalid_json_fails() {
    let mut contract = init_contract();
    upsert(&mut contract, "usdc.token", "USDC", 6, 1_000_000, true, false);
    assert_eq!(ft(&mut contract, "usdc.token", 3, 6_000_000, None), Err(DepositError::InvalidMessage));
}

#[test]
fn test_ft_deposit_high_precision_token() {
    let mut contract = init_contract();
    upsert(&mut contract, "weth.token", "WETH", 18, 3_000_000_000, true, false);
    ft(&mut contract, "weth.token", 5, 10u128.pow(16), message("whale", Some(10000), None)).unwrap();
    let deposits = contract.get_deposits_for_account(&accounts(5));
    assert_eq!(deposits.len(), 1);
    assert_eq!(deposits[0].usd_value.0, 30_000_000);
}

fn withdraw(contract: &DepositContract, who: usize, attached: u128, token: &str, amount: u128, receiver: Option<AccountId>, memo: Option<&str>) -> Result<TokenTransfer, DepositError> {
    contract.withdraw_ft(&accounts(who), SafeAmount::from_yoctonear(attached), AccountId::new(token), U128(amount), receiver, memo.map(|m| m.to_string()))
}

#[test]
fn test_withdraw_ft_requires_owner() {
    let contract = init_contract();
    let t = withdraw(&contract, 0, 1, "usdc.token", 1_000_000, None, None).unwrap();
    assert_eq!(t, TokenTransfer { token: AccountId::new("usdc.token"), receiver: accounts(1), amount: U128(1_000_000), memo: None });
}

#[test]
fn test_withdraw_ft_non_owner_fails() {
    let contract = init_contract();
    assert_eq!(withdraw(&contract, 2, 1, "usdc.token", 1_000_000, None, None), Err(DepositError::NotOwner));
}

#[test]
fn test_withdraw_ft_requires_yoctonear() {
    let contract = init_contract();
    assert_eq!(withdraw(&contract, 0, 0, "usdc.token", 1_000_000, None, None), Err(DepositError::MissingYocto));
}

#[test]
fn test_large_deposit_amount() {
    let mut contract = priced(5_000_000);
    let large_amount = 1_000_000u128 * 10u128.pow(24);
    let receipt = native(&mut contract, 2, large_amount, "whale", Some(1_000_000), None).unwrap();
    assert_eq!(receipt.usd_value.0, 5_000_000_000_000);
}

#[test]
fn test_token_config_update_changes_price() {
    let mut contract = priced(2_000_000);
    let config1 = contract.get_token_config(NEAR_TOKEN_ID.to_string()).unwrap();
    contract.update_token_price(&accounts(0), 0, &NEAR_TOKEN_ID.to_string(), U128(3_000_000)).unwrap();
    let config2 = contract.get_token_config(NEAR_TOKEN_ID.to_string()).unwrap();
    assert_ne!(config1.price_usd_micros.0, config2.price_usd_micros.0);
    assert_eq!(config2.price_usd_micros.0, 3_000_000);
    assert_eq!(config2.last_updated, config1.last_updated);
}

#[test]
fn test_beneficiary_id_formats() {
    let mut contract = priced(1_000_000);
    let test_ids = vec!["user-123", "email@example.com", "UUID-12345-67890", "0x742d35Cc6634C0532925a3b844Bc9e7595f0bEb"];
    for (i, beneficiary) in test_ids.iter().enumerate() {
        let receipt = native(&mut contract, i + 2, SIX_NEAR, beneficiary, None, None).unwrap();
        assert_eq!(receipt.beneficiary_id, *beneficiary);
    }
}

#[test]
fn test_zero_decimals_token() {
    let mut contract = init_contract();
    upsert(&mut contract, "nft.token", "NFT", 0, 10_000_000, true, false);
    ft(&mut contract, "nft.token", 5, 1, message("nft-buyer", None, None)).unwrap();
    let deposits = contract.get_deposits_for_account(&accounts(5));
    assert_eq!(deposits[0].usd_value.0, 10_000_000);
}

#[test]
fn test_concurrent_deposits_different_accounts() {
    let mut contract = priced(1_000_000);
    for i in 0..3 {
        native(&mut contract, i + 2, SIX_NEAR, &format!("user-{}", i), None, None).unwrap();
    }
    for i in 0..3 {
        assert_eq!(contract.get_deposits_for_account(&accounts(i + 2)).len(), 1);
    }
}

#[test]
fn test_deposit_id_sequential() {
    let mut contract = priced(1_000_000);
    for i in 0..5 {
        let receipt = native(&mut contract, 2, SIX_NEAR, &format!("user-{}", i), None, None).unwrap();
        assert_eq!(receipt.id, i as u64);
    }
}

#[test]
fn test_multiple_deposits_same_beneficiary() {
    let mut contract = priced(1_000_000);
    for hint in [100, 200, 300] {
        native(&mut contract, 2, SIX_NEAR, "user-123", Some(hint), None).unwrap();
    }
    let deposits = contract.get_deposits_for_account(&accounts(2));
    assert_eq!(deposits.len(), 3);
    assert_eq!(deposits[0].credits_hint, Some(100));
    assert_eq!(deposits[1].credits_hint, Some(200));
    assert_eq!(deposits[2].credits_hint, Some(300));
}

#[test]
fn test_deposit_preserves_account_isolation() {
    let mut contract = priced(1_000_000);
    native(&mut contract, 2, SIX_NEAR, "user-a", None, None).unwrap();
    native(&mut contract, 3, SIX_NEAR, "user-b", None, None).unwrap();
    let deposits_a = contract.get_deposits_for_account(&accounts(2));
    let deposits_b = contract.get_deposits_for_account(&accounts(3));
    assert_eq!(deposits_a.len(), 1);
    assert_eq!(deposits_b.len(), 1);
    assert_eq!(deposits_a[0].beneficiary_id, "user-a");
    assert_eq!(deposits_b[0].beneficiary_id, "user-b");
}

#[test]
fn test_only_owner_can_change_treasury() {
    let mut contract = init_contract();
    let original_treasury = contract.treasury_account_id.clone();
    contract.set_treasury(&accounts(0), accounts(4)).unwrap();
    assert_ne!(contract.treasury_account_id, original_treasury);
    assert_eq!(contract.treasury_account_id, accounts(4));
}

#[test]
fn test_non_owner_cannot_disable_token() {
    let mut contract = init_contract();
    let r = contract.upsert_token_config(&accounts(2), 0, NEAR_TOKEN_ID.to_string(), "NEAR".to_string(), 24, U128(1_000_000), false, true);
    assert_eq!(r, Err(DepositError::NotOwner));
    assert!(contract.get_token_config(NEAR_TOKEN_ID.to_string()).unwrap().is_enabled);
}

#[test]
fn test_token_can_be_disabled_and_reenabled() {
    let mut contract = init_contract();
    upsert(&mut contract, NEAR_TOKEN_ID, "NEAR", 24, 1_000_000, false, true);
    assert!(!contract.get_token_config(NEAR_TOKEN_ID.to_string()).unwrap().is_enabled);
    upsert(&mut contract, NEAR_TOKEN_ID, "NEAR", 24, 1_000_000, true, true);
    assert!(contract.get_token_config(NEAR_TOKEN_ID.to_string()).unwrap().is_enabled);
}

#[test]
fn test_usd_calculation_with_various_decimals() {
    let contract = init_contract();
    assert_eq!(contract.usd_value_for(&cfg("USDC", 6, 1_000_000), 10_000_000), 10_000_000);
    assert_eq!(contract.usd_value_for(&cfg("ETH", 18, 2_000_000_000), 10u128.pow(18)), 2_000_000_000);
    assert_eq!(contract.usd_value_for(&cfg("BTC", 8, 50_000_000_000), 100_000_000), 50_000_000_000);
}

#[test]
fn test_usd_calculation_fractional_tokens() {
    let contract = init_contract();
    let c = cfg("TEST", 6, 2_500_000);
    assert_eq!(contract.usd_value_for(&c, 500_000), 1_250_000);
    assert_eq!(contract.usd_value_for(&c, 10_000), 25_000);
}

#[test]
fn test_usd_value_zero_price_returns_zero() {
    let contract = init_contract();
    assert_eq!(contract.usd_value_for(&cfg("TEST", 6, 0), 1_000_000), 0);
}

#[test]
fn test_usd_value_zero_amount_returns_zero() {
    let contract = init_contract();
    assert_eq!(contract.usd_value_for(&cfg("TEST", 6, 1_000_000), 0), 0);
}

#[test]
fn test_ft_deposit_with_very_long_memo() {
    let mut contract = init_contract();
    upsert(&mut contract, "usdc.token", "USDC", 6, 1_000_000, true, false);
    let long_memo = "a".repeat(500);
    assert_eq!(ft(&mut contract, "usdc.token", 3, 6_000_000, message("user", None, Some(&long_memo))), Err(DepositError::MemoTooLong));
}

#[test]
fn test_ft_deposit_special_characters_in_beneficiary() {
    let mut contract = init_contract();
    upsert(&mut contract, "usdc.token", "USDC", 6, 1_000_000, true, false);
    let special_id = "user+test@example.com";
    ft(&mut contract, "usdc.token", 3, 6_000_000, message(special_id, None, None)).unwrap();
    assert_eq!(contract.get_deposits_for_account(&accounts(3))[0].beneficiary_id, special_id);
}

#[test]
fn test_ft_deposit_maximum_credits_hint() {
    let mut contract = init_contract();
    upsert(&mut contract, "usdc.token", "USDC", 6, 1_000_000, true, false);
    ft(&mut contract, "usdc.token", 3, 6_000_000, message("user", Some(u64::MAX), None)).unwrap();
    assert_eq!(contract.get_deposits_for_account(&accounts(3))[0].credits_hint, Some(u64::MAX));
}

#[test]
fn test_native_deposit_exactly_one_yoctonear_above_minimum() {
    let mut contract = priced(1_000_000);
    let receipt = native(&mut contract, 2, FIVE_NEAR + 1, "user", None, None).unwrap();
    assert!(receipt.usd_value.0 >= MIN_DEPOSIT_USD_MICROS);
}

#[test]
fn test_native_deposit_one_yoctonear_below_minimum() {
    let mut contract = priced(1_000_000);
    assert_eq!(native(&mut contract, 2, FIVE_NEAR - 1, "user", None, None), Err(DepositError::BelowMinimum));
}

#[test]
fn test_native_deposit_with_empty_string_beneficiary() {
    let mut contract = priced(1_000_000);
    let receipt = native(&mut contract, 2, SIX_NEAR, "", None, None).unwrap();
    assert_eq!(receipt.beneficiary_id, "");
}

#[test]
fn test_native_deposit_memo_with_unicode() {
    let mut contract = priced(1_000_000);
    let unicode_memo = "🚀 Premium subscription 你好";
    let receipt = native(&mut contract, 2, SIX_NEAR, "user", None, Some(unicode_memo)).unwrap();
    assert_eq!(receipt.memo, Some(unicode_memo.to_string()));
}

#[test]
fn test_upsert_overwrites_existing_token() {
    let mut contract = init_contract();
    upsert(&mut contract, "test.token", "TEST", 6, 1_000_000, true, false);
    upsert(&mut contract, "test.token", "TEST2", 8, 2_000_000, false, false);
    let config = contract.get_token_config("test.token".to_string()).unwrap();
    assert_eq!(config.symbol, "TEST2");
    assert_eq!(config.decimals, 8);
    assert_eq!(config.price_usd_micros.0, 2_000_000);
    assert!(!config.is_enabled);
    assert_eq!(contract.list_token_configs().len(), 2);
}

#[test]
fn test_multiple_native_tokens_not_allowed() {
    let mut contract = init_contract();
    upsert(&mut contract, "fake.token", "FAKE", 18, 1_000_000, true, true);
    let configs = contract.list_token_configs();
    let native_count = configs.iter().filter(|c| c.is_native).count();
    assert!(native_count >= 2);
}

#[test]
fn test_token_with_maximum_decimals() {
    let mut contract = init_contract();
    upsert(&mut contract, "high.token", "HIGH", 255, 1_000_000, true, false);
    let config = contract.get_token_config("high.token".to_string()).unwrap();
    assert_eq!(config.decimals, 255);
    assert_eq!(contract.usd_value_for(&cfg("HIGH", 255, 1_000_000), u128::MAX), 0);
    assert_eq!(contract.usd_value_for(&cfg("HIGH", 39, u128::MAX), u128::MAX), 0);
}

#[test]
fn test_withdraw_to_custom_receiver() {
    let contract = init_contract();
    let t = withdraw(&contract, 0, 1, "usdc.token", 1_000_000, Some(accounts(3)), Some("Withdrawal to custom account")).unwrap();
    assert_eq!(t.receiver, accounts(3));
    assert_eq!(t.memo, Some("Withdrawal to custom account".to_string()));
}

#[test]
fn test_withdraw_with_zero_amount() {
    let contract = init_contract();
    let t = withdraw(&contract, 0, 1, "usdc.token", 0, None, None).unwrap();
    assert_eq!(t.amount, U128(0));
}

#[test]
fn test_native_deposit_exact_storage_cost() {
    let mut contract = priced(1_000_000);
    assert!(native(&mut contract, 2, SIX_NEAR, "user-123", Some(250), None).is_ok());
}

#[test]
fn test_storage_usage_increases_with_deposit_count() {
    let mut contract = priced(1_000_000);
    for b in ["user-1", "user-2", "user-3"] {
        native(&mut contract, 2, SIX_NEAR, b, None, None).unwrap();
    }
    assert_eq!(contract.deposits.len(), 3);
}

#[test]
fn test_treasury_change_with_pending_deposits() {
    let mut contract = priced(1_000_000);
    native(&mut contract, 2, SIX_NEAR, "user-1", None, None).unwrap();
    let original_treasury = contract.treasury_account_id.clone();
    let new_treasury = accounts(5);
    contract.set_treasury(&accounts(0), new_treasury.clone()).unwrap();
    assert_ne!(contract.treasury_account_id, original_treasury);
    assert_eq!(contract.treasury_account_id, new_treasury);
    native(&mut contract, 3, SIX_NEAR, "user-2", None, None).unwrap();
}

#[test]
fn test_multiple_treasury_changes() {
    let mut contract = init_contract();
    for treasury in vec![accounts(2), accounts(3), accounts(4)] {
        contract.set_treasury(&accounts(0), treasury.clone()).unwrap();
        assert_eq!(contract.treasury_account_id, treasury);
    }
}

#[test]
fn test_deposit_id_never_reuses() {
    let mut contract = priced(1_000_000);
    let mut seen_ids = std::collections::HashSet::new();
    for i in 0..10 {
        let receipt = native(&mut contract, 2, SIX_NEAR, &format!("user-{}", i), None, None).unwrap();
        assert!(!seen_ids.contains(&receipt.id), "Deposit ID should be unique");
        seen_ids.insert(receipt.id);
    }
}

#[test]
fn test_token_disable_then_reenable_preserves_price() {
    let mut contract = init_contract();
    let original_price = 5_000_000u128;
    upsert(&mut contract, "test.token", "TEST", 6, original_price, true, false);
    upsert(&mut contract, "test.token", "TEST", 6, original_price, false, false);
    let config_disabled = contract.get_token_config("test.token".to_string()).unwrap();
    assert!(!config_disabled.is_enabled);
    assert_eq!(config_disabled.price_usd_micros.0, original_price);
    upsert(&mut contract, "test.token", "TEST", 6, original_price, true, false);
    let config_enabled = contract.get_token_config("test.token".to_string()).unwrap();
    assert!(config_enabled.is_enabled);
    assert_eq!(config_enabled.price_usd_micros.0, original_price);
}

#[test]
fn test_list_token_configs_large_dataset() {
    let mut contract = init_contract();
    for i in 0..50 {
        upsert(&mut contract, &format!("token{}.test", i), &format!("TK{}", i), 6, (i as u128 + 1) * 1_000_000, true, false);
    }
    let configs = contract.list_token_configs();
    assert!(configs.len() >= 51);
    assert!(configs.iter().any(|c| c.token_id == NEAR_TOKEN_ID));
    assert!(configs.iter().any(|c| c.token_id == "token25.test"));
}

#[test]
fn test_withdraw_to_custom_address_different_from_treasury() {
    let contract = init_contract();
    let custom_receiver = accounts(5);
    assert_ne!(custom_receiver, contract.treasury_account_id);
    let t = withdraw(&contract, 0, 1, "usdc.token", 1_000_000, Some(custom_receiver.clone()), Some("Custom withdrawal")).unwrap();
    assert_eq!(t.receiver, custom_receiver);
}

#[test]
fn test_withdraw_maximum_u128_amount() {
    let contract = init_contract();
    let t = withdraw(&contract, 0, 1, "token.test", u128::MAX, None, None).unwrap();
    assert_eq!(t.amount, U128(u128::MAX));
}

#[test]
fn test_get_deposits_preserves_order() {
    let mut contract = priced(1_000_000);
    let beneficiaries = vec!["first", "second", "third", "fourth", "fifth"];
    for beneficiary in &beneficiaries {
        native(&mut contract, 2, SIX_NEAR, beneficiary, None, None).unwrap();
    }
    let deposits = contract.get_deposits_for_account(&accounts(2));
    assert_eq!(deposits.len(), 5);
    for (i, deposit) in deposits.iter().enumerate() {
        assert_eq!(deposit.beneficiary_id, beneficiaries[i]);
        assert_eq!(deposit.id, i as u64);
    }
}

#[test]
fn test_get_deposit_by_id_boundary_values() {
    let mut contract = priced(1_000_000);
    let receipt = native(&mut contract, 2, SIX_NEAR, "user", None, None).unwrap();
    assert!(contract.get_deposit(receipt.id).is_some());
    assert!(contract.get_deposit(u64::MAX).is_none());
    assert!(contract.get_deposit(1).is_none());
}

#[test]
fn test_usd_calculation_with_very_small_amounts() {
    let contract = init_contract();
    let usd = contract.usd_value_for(&cfg("TEST", 18, 1_000_000), 1);
    assert_eq!(usd, 0, "Sub-cent amounts should round to 0");
}

#[test]
fn test_usd_calculation_no_precision_loss_large_amounts() {
    let contract = init_contract();
    let c = cfg("BTC", 8, 50_000_000_000);
    assert_eq!(contract.usd_value_for(&c, 100_000_000), 50_000_000_000, "1 BTC should be exactly $50,000");
    assert_eq!(contract.usd_value_for(&c, 1_000_000_000), 500_000_000_000, "10 BTC should be exactly $500,000");
}

#[test]
fn test_usd_calculation_consistency_across_scales() {
    let contract = init_contract();
    let c = cfg("TEST", 6, 2_000_000);
    let usd_one = contract.usd_value_for(&c, 1_000_000);
    let usd_ten = contract.usd_value_for(&c, 10_000_000);
    assert_eq!(usd_ten, usd_one * 10, "USD should scale linearly");
}

#[test]
fn test_full_deposit_flow_native() {
    let mut contract = priced(3_500_000);
    let ten_near = 10u128 * 10u128.pow(24);
    let receipt = native(&mut contract, 2, ten_near, "user@example.com", Some(1000), Some("Monthly subscription")).unwrap();
    assert_eq!(receipt.id, 0);
    assert_eq!(receipt.usd_value.0, 35_000_000);
    let retrieved = contract.get_deposit(0).unwrap();
    assert_eq!(retrieved.beneficiary_id, "user@example.com");
    assert_eq!(contract.get_deposits_for_account(&accounts(2)).len(), 1);
}

#[test]
fn test_full_deposit_flow_ft() {
    let mut contract = init_contract();
    upsert(&mut contract, "dai.token", "DAI", 18, 1_000_000, true, false);
    let amount = 25u128 * 10u128.pow(18);
    ft(&mut contract, "dai.token", 3, amount, message("0x123abc", Some(500), Some("Premium plan"))).unwrap();
    let deposits = contract.get_deposits_for_account(&accounts(3));
    assert_eq!(deposits.len(), 1);
    assert_eq!(deposits[0].usd_value.0, 25_000_000);
    assert_eq!(deposits[0].beneficiary_id, "0x123abc");
}

#[test]
fn test_mixed_deposits_same_account() {
    let mut contract = priced(1_000_000);
    upsert(&mut contract, "usdc.token", "USDC", 6, 1_000_000, true, false);
    native(&mut contract, 2, SIX_NEAR, "user-1", None, None).unwrap();
    ft(&mut contract, "usdc.token", 2, 10_000_000, message("user-2", None, None)).unwrap();
    let deposits = contract.get_deposits_for_account(&accounts(2));
    assert_eq!(deposits.len(), 2);
    assert_eq!(deposits[0].token_id, NEAR_TOKEN_ID);
    assert_eq!(deposits[1].token_id, "usdc.token");
}

#[test]
fn test_price_update_affects_subsequent_deposits() {
    let mut contract = priced(2_000_000);
    let receipt1 = native(&mut contract, 2, SIX_NEAR, "user-1", None, None).unwrap();
    contract.update_token_price(&accounts(0), 0, &NEAR_TOKEN_ID.to_string(), U128(3_000_000)).unwrap();
    let receipt2 = native(&mut contract, 3, SIX_NEAR, "user-2", None, None).unwrap();
    assert_eq!(receipt1.usd_value.0, 12_000_000);
    assert_eq!(receipt2.usd_value.0, 18_000_000);
}

#[test]
fn price_goes_stale_after_an_hour() {
    let mut contract = init_contract();
    contract.update_token_price(&accounts(0), 1_000, &NEAR_TOKEN_ID.to_string(), U128(1_000_000)).unwrap();
    let at = |contract: &mut DepositContract, now_ms: u64| {
        contract.deposit_native(accounts(2), now_ms, SafeAmount::from_yoctonear(SIX_NEAR), "u".to_string(), None, None).map(|v| v.timestamp_ms)
    };
    assert_eq!(at(&mut contract, 0), Ok(0));
    assert_eq!(at(&mut contract, 3_601_000), Ok(3_601_000));
    assert_eq!(at(&mut contract, 3_601_001), Err(DepositError::PriceStale));
}

#[test]
fn native_withdrawal_goes_to_the_treasury_unless_told_otherwise() {
    let contract = init_contract();
    assert_eq!(contract.withdraw_native(&accounts(2), U128(5), None), Err(DepositError::NotOwner));
    assert_eq!(contract.withdraw_native(&accounts(0), U128(5), None), Ok(NativeTransfer { receiver: accounts(1), amount: U128(5) }));
    assert_eq!(contract.withdraw_native(&accounts(0), U128(5), Some(accounts(4))), Ok(NativeTransfer { receiver: accounts(4), amount: U128(5) }));
    assert_eq!(contract.sweep_ft(&accounts(2), AccountId::new("t"), U128(9)).err(), Some(DepositError::NotOwner));
    assert_eq!(
        contract.sweep_ft(&accounts(0), AccountId::new("t"), U128(9)),
        Ok(TokenTransfer { token: AccountId::new("t"), receiver: accounts(1), amount: U128(9), memo: None })
    );
}

#[test]
fn migrate_without_stored_state_fails() {
    assert_eq!(DepositContract::migrate(None, &accounts(0), None).err(), Some(DepositError::NoStateToMigrate));
}

#[test]
fn a_deposit_ledger_changed_by_calls_alone_is_consistent() {
    let mut contract = priced(1_000_000);
    upsert(&mut contract, "usdc.token", "USDC", 6, 1_000_000, true, false);
    native(&mut contract, 2, SIX_NEAR, "user-1", None, None).unwrap();
    assert!(contract.is_consistent());
    contract.next_deposit_id = 5;
    assert!(!contract.is_consistent());
    contract.next_deposit_id = 1;
    contract.token_configs[1].token_id = "NEAR".to_string();
    assert!(!contract.is_consistent());
}
