use contract_audit::call_graph::{build_call_graph, CallGraph};
use contract_audit::context::ScanContext;
use contract_audit::detector::Detector;
use contract_audit::finding::{Chain, Confidence, Finding, Severity};
use contract_audit::syntax::{Delimiter, Kind, Node, Role, Shape, Token};
use contract_audit::tokens::code_string_of;
use proc_macro2::{Span, TokenStream, TokenTree};
use quote::ToTokens;
use syn::punctuated::Punctuated;
use syn::spanned::Spanned;
use syn::visit::{self, Visit};


/// The context of a source text, with or without its call graph.
fn context(source: &str, chain: Chain, with_graph: bool) -> ScanContext {
    let ast = tree_of(&syn::parse_file(source).unwrap());
    let graph = if with_graph {
        build_call_graph(&ast)
    } else {
        CallGraph::new()
    };
    ScanContext::new("test.rs".to_string(), source.to_string(), ast, chain, graph)
}

fn run_near_frontrunning(source: &str) -> Vec<Finding> {
    let ctx = context(source, Chain::Near, false);
    contract_audit::detectors::near::frontrunning::FrontrunningDetector.detect(&ctx)
}

fn run_near_integer_overflow(source: &str) -> Vec<Finding> {
    let ctx = context(source, Chain::Near, false);
    contract_audit::detectors::near::integer_overflow::IntegerOverflowDetector.detect(&ctx)
}

fn run_near_missing_deposit_check(source: &str) -> Vec<Finding> {
    let ctx = context(source, Chain::Near, false);
    contract_audit::detectors::near::missing_deposit_check::MissingDepositCheckDetector.detect(&ctx)
}

fn run_near_missing_gas_callback(source: &str) -> Vec<Finding> {
    let ctx = context(source, Chain::Near, false);
    contract_audit::detectors::near::missing_gas_callback::MissingGasCallbackDetector.detect(&ctx)
}

fn run_near_missing_private(source: &str) -> Vec<Finding> {
    let ctx = context(source, Chain::Near, false);
    contract_audit::detectors::near::missing_private::MissingPrivateDetector.detect(&ctx)
}

fn run_near_promise_reentrancy(source: &str) -> Vec<Finding> {
    let ctx = context(source, Chain::Near, false);
    contract_audit::detectors::near::promise_reentrancy::PromiseReentrancyDetector.detect(&ctx)
}

fn run_near_self_callback(source: &str) -> Vec<Finding> {
    let ctx = context(source, Chain::Near, false);
    contract_audit::detectors::near::self_callback::SelfCallbackDetector.detect(&ctx)
}

fn run_near_signer_vs_predecessor(source: &str) -> Vec<Finding> {
    let ctx = context(source, Chain::Near, false);
    contract_audit::detectors::near::signer_vs_predecessor::SignerVsPredecessorDetector.detect(&ctx)
}

fn run_near_storage_staking(source: &str) -> Vec<Finding> {
    let ctx = context(source, Chain::Near, false);
    contract_audit::detectors::near::storage_staking::StorageStakingDetector.detect(&ctx)
}

fn run_near_unguarded_storage_unregister(source: &str) -> Vec<Finding> {
    let ctx = context(source, Chain::Near, false);
    contract_audit::detectors::near::unguarded_storage_unregister::UnguardedStorageUnregisterDetector.detect(&ctx)
}

fn run_near_unhandled_promise(source: &str) -> Vec<Finding> {
    let ctx = context(source, Chain::Near, false);
    contract_audit::detectors::near::unhandled_promise::UnhandledPromiseDetector.detect(&ctx)
}

fn run_near_unsafe_storage_keys(source: &str) -> Vec<Finding> {
    let ctx = context(source, Chain::Near, false);
    contract_audit::detectors::near::unsafe_storage_keys::UnsafeStorageKeysDetector.detect(&ctx)
}

fn run_solana_account_confusion(source: &str) -> Vec<Finding> {
    let ctx = context(source, Chain::Solana, false);
    contract_audit::detectors::solana::account_confusion::AccountConfusionDetector.detect(&ctx)
}

fn run_solana_account_data_matching(source: &str) -> Vec<Finding> {
    let ctx = context(source, Chain::Solana, false);
    contract_audit::detectors::solana::account_data_matching::AccountDataMatchingDetector.detect(&ctx)
}

fn run_solana_arbitrary_cpi(source: &str) -> Vec<Finding> {
    let ctx = context(source, Chain::Solana, false);
    contract_audit::detectors::solana::arbitrary_cpi::ArbitraryCpiDetector.detect(&ctx)
}

fn run_solana_checked_arithmetic_unwrap(source: &str) -> Vec<Finding> {
    let ctx = context(source, Chain::Solana, false);
    contract_audit::detectors::solana::checked_arithmetic_unwrap::CheckedArithmeticUnwrapDetector.detect(&ctx)
}

fn run_solana_cpi_reentrancy(source: &str) -> Vec<Finding> {
    let ctx = context(source, Chain::Solana, false);
    contract_audit::detectors::solana::cpi_reentrancy::CpiReentrancyDetector.detect(&ctx)
}

fn run_solana_duplicate_mutable_accounts(source: &str) -> Vec<Finding> {
    let ctx = context(source, Chain::Solana, false);
    contract_audit::detectors::solana::duplicate_mutable_accounts::DuplicateMutableAccountsDetector.detect(&ctx)
}

fn run_solana_init_if_needed(source: &str) -> Vec<Finding> {
    let ctx = context(source, Chain::Solana, false);
    contract_audit::detectors::solana::init_if_needed::InitIfNeededDetector.detect(&ctx)
}

fn run_solana_insecure_account_close(source: &str) -> Vec<Finding> {
    let ctx = context(source, Chain::Solana, false);
    contract_audit::detectors::solana::insecure_account_close::InsecureAccountCloseDetector.detect(&ctx)
}

fn run_solana_integer_overflow(source: &str) -> Vec<Finding> {
    let full_source = format!("use solana_program::pubkey::Pubkey;\n{}", source);
    let ctx = context(&full_source, Chain::Solana, false);
    contract_audit::detectors::solana::integer_overflow::IntegerOverflowDetector.detect(&ctx)
}

fn run_solana_integer_overflow_with_graph(source: &str) -> Vec<Finding> {
    let full_source = format!("use solana_program::pubkey::Pubkey;\n{}", source);
    let ctx = context(&full_source, Chain::Solana, true);
    contract_audit::detectors::solana::integer_overflow::IntegerOverflowDetector.detect(&ctx)
}

fn run_solana_lookup_table(source: &str) -> Vec<Finding> {
    let ctx = context(source, Chain::Solana, false);
    contract_audit::detectors::solana::lookup_table::LookupTableDetector.detect(&ctx)
}

fn run_solana_missing_owner(source: &str) -> Vec<Finding> {
    let ctx = context(source, Chain::Solana, true);
    contract_audit::detectors::solana::missing_owner::MissingOwnerDetector.detect(&ctx)
}

fn run_solana_missing_rent_exempt(source: &str) -> Vec<Finding> {
    let ctx = context(source, Chain::Solana, false);
    contract_audit::detectors::solana::missing_rent_exempt::MissingRentExemptDetector.detect(&ctx)
}

fn run_solana_missing_signer(source: &str) -> Vec<Finding> {
    let ctx = context(source, Chain::Solana, true);
    contract_audit::detectors::solana::missing_signer::MissingSignerDetector.detect(&ctx)
}

fn run_solana_pda_issues(source: &str) -> Vec<Finding> {
    let ctx = context(source, Chain::Solana, false);
    contract_audit::detectors::solana::pda_issues::PdaIssuesDetector.detect(&ctx)
}

fn run_solana_priority_fee(source: &str) -> Vec<Finding> {
    let ctx = context(source, Chain::Solana, false);
    contract_audit::detectors::solana::priority_fee::PriorityFeeDetector.detect(&ctx)
}

fn run_solana_remaining_accounts(source: &str) -> Vec<Finding> {
    let ctx = context(source, Chain::Solana, false);
    contract_audit::detectors::solana::remaining_accounts::RemainingAccountsDetector.detect(&ctx)
}

fn run_solana_token_extensions(source: &str) -> Vec<Finding> {
    let ctx = context(source, Chain::Solana, false);
    contract_audit::detectors::solana::token_extensions::TokenExtensionsDetector.detect(&ctx)
}

#[test]
fn test_detects_frontrunning_risk() {
    let source = r#"
            use near_sdk::Promise;
            fn claim_reward(&mut self, amount: u128, recipient: AccountId) {
                Promise::new(recipient).transfer(amount);
            }
        "#;
    let findings = run_near_frontrunning(source);
    assert!(!findings.is_empty(), "Should detect frontrunning risk");
}

#[test]
fn test_no_finding_with_deadline() {
    let source = r#"
            use near_sdk::{Promise, env};
            fn claim_reward(&mut self, amount: u128, recipient: AccountId, deadline: u64) {
                assert!(env::block_timestamp() < deadline, "Expired");
                Promise::new(recipient).transfer(amount);
            }
        "#;
    let findings = run_near_frontrunning(source);
    assert!(
        findings.is_empty(),
        "Should not flag with deadline protection"
    );
}

#[test]
fn test_no_finding_free_helper_fn() {
    let source = r#"
            use near_sdk::{AccountId, Balance, Promise};
            fn send_payout(recipient: AccountId, amount: Balance) -> Promise {
                Promise::new(recipient).transfer(amount)
            }
        "#;
    let findings = run_near_frontrunning(source);
    assert!(
        findings.is_empty(),
        "Should not flag a free (non-entry-point) helper function"
    );
}

#[test]
fn test_no_finding_refund_to_predecessor() {
    let source = r#"
            use near_sdk::{env, Balance, Promise};
            fn refund_excess_deposit(&mut self, cost: Balance) {
                let attached = env::attached_deposit();
                if attached > cost {
                    Promise::new(env::predecessor_account_id()).transfer(attached - cost);
                }
            }
        "#;
    let findings = run_near_frontrunning(source);
    assert!(
        findings.is_empty(),
        "Should not flag a refund back to the transaction initiator"
    );
}

#[test]
fn test_no_finding_owner_gated_withdraw() {
    let source = r#"
            use near_sdk::{env, AccountId, Promise};
            use near_sdk::json_types::U128;
            pub fn owner_withdraw(&mut self, recipient: AccountId, amount: U128) {
                assert_eq!(env::predecessor_account_id(), self.owner, "Only owner");
                Promise::new(recipient).transfer(amount.0);
            }
        "#;
    let findings = run_near_frontrunning(source);
    assert!(
        findings.is_empty(),
        "Should not flag an owner-gated administrative withdrawal"
    );
}

#[test]
fn test_no_finding_internal_ledger_transfer() {
    let source = r#"
            use near_sdk::{AccountId, PromiseOrValue};
            fn internal_move(&mut self, from: AccountId, to: AccountId, amount: u128) -> PromiseOrValue<()> {
                self.ledger.transfer(&from, &to, amount);
                PromiseOrValue::Value(())
            }
        "#;
    let findings = run_near_frontrunning(source);
    assert!(
        findings.is_empty(),
        "Should not flag internal storage .transfer() without Promise::new"
    );
}

#[test]
fn frontrunning_test_no_finding_cfg_test_module() {
    let source = r#"
            use near_sdk::{AccountId, Balance, Promise};

            #[cfg(test)]
            mod tests {
                use super::*;

                fn make_transfer_promise(recipient: AccountId, amount: Balance) -> Promise {
                    Promise::new(recipient).transfer(amount)
                }
            }
        "#;
    let findings = run_near_frontrunning(source);
    assert!(
        findings.is_empty(),
        "Should not flag helpers inside a #[cfg(test)] module"
    );
}

#[test]
fn test_detects_wrapping_on_balance() {
    let source = r#"
            use near_sdk::env;
            fn update_balance(&mut self, amount: u128) {
                self.balance = self.balance.wrapping_add(amount);
            }
        "#;
    let findings = run_near_integer_overflow(source);
    assert!(
        !findings.is_empty(),
        "Should detect wrapping_add on balance"
    );
}

#[test]
fn test_no_finding_checked() {
    let source = r#"
            use near_sdk::env;
            fn update_balance(&mut self, amount: u128) -> Option<u128> {
                self.balance.checked_add(amount)
            }
        "#;
    let findings = run_near_integer_overflow(source);
    assert!(findings.is_empty(), "Should not flag checked_add");
}

#[test]
fn integer_overflow_test_no_finding_in_cfg_test_module() {
    let source = r#"
            use near_sdk::env;

            #[cfg(test)]
            mod tests {
                #[test]
                fn balance_wraps_at_u128_max_is_rejected() {
                    let balance: u128 = u128::MAX;
                    let wrapped = balance.wrapping_add(1);
                    assert_eq!(wrapped, 0);
                }
            }
        "#;
    let findings = run_near_integer_overflow(source);
    assert!(
        findings.is_empty(),
        "Should not flag wrapping_add inside #[cfg(test)] module"
    );
}

#[test]
fn test_no_finding_in_test_fn() {
    let source = r#"
            use near_sdk::env;

            #[test]
            fn balance_overflow_case() {
                let balance: u128 = u128::MAX;
                let _ = balance.wrapping_add(1);
            }
        "#;
    let findings = run_near_integer_overflow(source);
    assert!(
        findings.is_empty(),
        "Should not flag wrapping_add inside a #[test] fn"
    );
}

#[test]
fn test_still_flags_cfg_not_test_production_fn() {
    let source = r#"
            use near_sdk::{env, near_bindgen, AccountId, Balance};

            #[cfg(not(test))]
            fn debit_stake(pool: &mut StakingPool, account: &AccountId, amount: Balance) -> Balance {
                let current = pool.staked.get(account).unwrap_or(0);
                let remaining = current.wrapping_sub(amount);
                pool.staked.insert(account, &remaining);
                pool.total_staked = pool.total_staked.wrapping_sub(amount);
                remaining
            }

            #[cfg(test)]
            fn debit_stake(pool: &mut StakingPool, account: &AccountId, amount: Balance) -> Balance {
                let current = pool.staked.get(account).unwrap_or(0);
                let remaining = current.checked_sub(amount).expect("insufficient stake");
                pool.staked.insert(account, &remaining);
                pool.total_staked = pool.total_staked.checked_sub(amount).expect("underflow");
                remaining
            }
        "#;
    let findings = run_near_integer_overflow(source);
    assert_eq!(
        findings.len(),
        2,
        "Should flag both wrapping_sub calls in the #[cfg(not(test))] production fn, got {:?}",
        findings
    );
}

#[test]
fn test_still_flags_cfg_any_test_or_feature() {
    let source = r#"
            use near_sdk::env;

            #[cfg(any(test, feature = "simulation"))]
            fn debit(balance: u128, amount: u128) -> u128 {
                balance.wrapping_sub(amount)
            }
        "#;
    let findings = run_near_integer_overflow(source);
    assert!(
        !findings.is_empty(),
        "Should flag wrapping_sub under #[cfg(any(test, feature = ...))]"
    );
}

#[test]
fn test_no_finding_cfg_all_test_and_feature() {
    let source = r#"
            use near_sdk::env;

            #[cfg(all(test, feature = "simulation"))]
            fn balance_wraps(balance: u128, amount: u128) -> u128 {
                balance.wrapping_sub(amount)
            }
        "#;
    let findings = run_near_integer_overflow(source);
    assert!(
        findings.is_empty(),
        "Should not flag wrapping_sub under #[cfg(all(test, feature = ...))]"
    );
}

#[test]
fn test_still_flags_cfg_feature_gated_fn() {
    let source = r#"
            use near_sdk::env;

            #[cfg(not(feature = "stub"))]
            fn debit(balance: u128, amount: u128) -> u128 {
                balance.wrapping_sub(amount)
            }
        "#;
    let findings = run_near_integer_overflow(source);
    assert!(
        !findings.is_empty(),
        "Should flag wrapping_sub under a non-test feature gate"
    );
}

#[test]
fn test_detects_missing_deposit_check() {
    let source = r#"
            use near_sdk::env;
            impl Contract {
                #[payable]
                pub fn purchase(&mut self, item_id: u64) {
                    self.inventory.remove(&item_id);
                }
            }
        "#;
    let findings = run_near_missing_deposit_check(source);
    assert!(!findings.is_empty(), "Should detect missing deposit check");
}

#[test]
fn test_no_finding_with_deposit_check() {
    let source = r#"
            use near_sdk::env;
            impl Contract {
                #[payable]
                pub fn purchase(&mut self, item_id: u64) {
                    let deposit = env::attached_deposit();
                    assert!(deposit >= self.prices.get(&item_id).unwrap());
                    self.inventory.remove(&item_id);
                }
            }
        "#;
    let findings = run_near_missing_deposit_check(source);
    assert!(findings.is_empty(), "Should not flag with deposit check");
}

#[test]
fn test_no_finding_when_deposit_check_in_helper() {
    let source = r#"
            use near_sdk::{env, near_bindgen};

            #[near_bindgen]
            impl Marketplace {
                #[payable]
                pub fn purchase(&mut self, item_id: u64) {
                    self.assert_payment_covers(item_id);
                    self.inventory.remove(&item_id);
                }
            }

            impl Marketplace {
                fn assert_payment_covers(&self, item_id: u64) {
                    let price = self.prices.get(&item_id).unwrap();
                    assert!(env::attached_deposit() >= price, "insufficient deposit");
                }
            }
        "#;
    let findings = run_near_missing_deposit_check(source);
    assert!(
        findings.is_empty(),
        "Should not flag when a called helper validates the deposit"
    );
}

#[test]
fn test_no_finding_for_nft_revoke_delegation() {
    let source = r#"
            use near_sdk::near_bindgen;

            #[near_bindgen]
            impl Contract {
                #[payable]
                pub fn nft_revoke(&mut self, token_id: TokenId, account_id: AccountId) {
                    self.tokens.nft_revoke(token_id, account_id)
                }
            }
        "#;
    let findings = run_near_missing_deposit_check(source);
    assert!(
        findings.is_empty(),
        "Should not flag standard nft_revoke delegating to the standards crate"
    );
}

#[test]
fn test_still_flags_hand_rolled_nft_revoke() {
    let source = r#"
            use near_sdk::near_bindgen;

            #[near_bindgen]
            impl Contract {
                #[payable]
                pub fn nft_revoke(&mut self, token_id: TokenId, account_id: AccountId) {
                    self.approvals.remove(&token_id);
                }
            }
        "#;
    let findings = run_near_missing_deposit_check(source);
    assert!(
        !findings.is_empty(),
        "Should still flag a hand-rolled nft_revoke with no yocto/deposit check"
    );
}

#[test]
fn test_no_finding_for_private_payable_callback() {
    let source = r#"
            use near_sdk::near_bindgen;

            #[near_bindgen]
            impl Contract {
                #[private]
                #[payable]
                pub fn on_refund_complete(&mut self, buyer: AccountId) {
                    self.pending_refunds.remove(&buyer);
                }
            }
        "#;
    let findings = run_near_missing_deposit_check(source);
    assert!(
        findings.is_empty(),
        "Should not flag a #[private] payable callback"
    );
}

#[test]
fn test_no_finding_for_custom_one_yocto_helper_in_file() {
    let source = r#"
            use near_sdk::{near_bindgen, Promise};

            #[near_bindgen]
            impl Contract {
                #[payable]
                pub fn withdraw_all(&mut self) {
                    self.require_owner_one_yocto();
                    Promise::new(self.owner.clone()).transfer(self.balance);
                }

                fn require_owner_one_yocto(&self) {
                    assert_one_yocto();
                    assert_eq!(env::predecessor_account_id(), self.owner);
                }
            }
        "#;
    let findings = run_near_missing_deposit_check(source);
    assert!(
        findings.is_empty(),
        "Should not flag when a resolved helper performs the 1-yocto assertion"
    );
}

#[test]
fn test_no_finding_for_payable_in_cfg_test_module() {
    let source = r#"
            use near_sdk::near_bindgen;

            #[cfg(test)]
            mod tests {
                use super::*;

                #[near_bindgen]
                impl MockMarketplace {
                    #[payable]
                    pub fn purchase(&mut self, id: u64) {
                        self.calls += 1;
                    }
                }
            }
        "#;
    let findings = run_near_missing_deposit_check(source);
    assert!(
        findings.is_empty(),
        "Should not flag payable methods inside #[cfg(test)] modules"
    );
}

#[test]
fn test_detects_missing_gas() {
    let source = r#"
            fn transfer_and_call(&mut self, receiver_id: AccountId, amount: U128) {
                self.internal_transfer(&env::predecessor_account_id(), &receiver_id, amount.0);
                Promise::new(receiver_id).function_call(
                    "on_transfer".to_string(),
                    json!({ "amount": amount }).to_string().into_bytes(),
                    0,
                    0,
                );
                ext_self::on_transfer_complete(env::current_account_id());
            }
        "#;
    let findings = run_near_missing_gas_callback(source);
    assert!(
        !findings.is_empty(),
        "Should detect missing gas specification"
    );
    assert_eq!(findings[0].detector_id, "NEAR-012");
}

#[test]
fn test_no_finding_with_gas_spec() {
    let source = r#"
            fn transfer_and_call(&mut self, receiver_id: AccountId, amount: U128) {
                self.internal_transfer(&env::predecessor_account_id(), &receiver_id, amount.0);
                Promise::new(receiver_id).function_call(
                    "on_transfer".to_string(),
                    json!({ "amount": amount }).to_string().into_bytes(),
                    0,
                    Gas(5_000_000_000_000),
                );
                ext_self::on_transfer_complete(env::current_account_id())
                    .with_static_gas(GAS_FOR_CALLBACK);
            }
        "#;
    let findings = run_near_missing_gas_callback(source);
    assert!(
        findings.is_empty(),
        "Should not flag with explicit gas specification"
    );
}

#[test]
fn test_skips_callback_functions() {
    let source = r#"
            fn on_transfer_complete(&mut self) {
                Promise::new(env::predecessor_account_id()).function_call(
                    "finalize".to_string(),
                    vec![],
                    0,
                    DEFAULT_GAS,
                );
            }
        "#;
    let findings = run_near_missing_gas_callback(source);
    assert!(
        findings.is_empty(),
        "Should skip callback functions (on_ prefix)"
    );
}

#[test]
fn test_no_finding_transfer_only_promise() {
    let source = r#"
            fn refund(account: AccountId, amount: Balance) {
                Promise::new(account).transfer(amount);
            }

            fn deploy_sub(name: AccountId, code: Vec<u8>) -> Promise {
                Promise::new(name)
                    .create_account()
                    .transfer(INITIAL_BALANCE)
                    .deploy_contract(code)
            }
        "#;
    let findings = run_near_missing_gas_callback(source);
    assert!(
        findings.is_empty(),
        "Batch-action Promises (transfer/create_account/deploy_contract) take no gas argument"
    );
}

#[test]
fn test_no_finding_named_gas_constant() {
    let source = r#"
            const FT_TRANSFER_GAS: Gas = Gas::from_tgas(10);

            fn send(receiver: AccountId) {
                Promise::new(receiver).function_call(
                    "ft_transfer".to_string(), vec![], 1, FT_TRANSFER_GAS,
                );
            }
        "#;
    let findings = run_near_missing_gas_callback(source);
    assert!(
        findings.is_empty(),
        "A SCREAMING_SNAKE gas constant passed as the gas argument is an explicit spec"
    );
}

#[test]
fn test_no_finding_typed_gas_param() {
    let source = r#"
            fn schedule_call(receiver: AccountId, gas_for_call: Gas) {
                Promise::new(receiver).function_call(
                    "m".to_string(), vec![], 0, gas_for_call,
                );
            }
        "#;
    let findings = run_near_missing_gas_callback(source);
    assert!(
        findings.is_empty(),
        "A typed Gas parameter forces the caller to supply an explicit gas budget"
    );
}

#[test]
fn test_no_finding_unused_gas_weight() {
    let source = r#"
            use near_sdk::Gas;

            fn kick_off(receiver: AccountId) {
                ext_self::ext(env::current_account_id())
                    .with_unused_gas_weight(1)
                    .finish();
            }
        "#;
    let findings = run_near_missing_gas_callback(source);
    assert!(
        findings.is_empty(),
        "with_unused_gas_weight explicitly allocates remaining gas by weight"
    );
}

#[test]
fn test_no_finding_string_literal_promise() {
    let source = r#"
            fn log_it() {
                env::log_str("Promise::new failed downstream");
            }
        "#;
    let findings = run_near_missing_gas_callback(source);
    assert!(
        findings.is_empty(),
        "Promise::new inside a string literal is not a cross-contract call"
    );
}

#[test]
fn test_detects_missing_private() {
    let source = r#"
            use near_sdk::env;
            #[near_bindgen]
            impl Contract {
                pub fn on_transfer_complete(&mut self, amount: U128) {
                    self.total += amount.0;
                }
            }
        "#;
    let findings = run_near_missing_private(source);
    assert!(!findings.is_empty(), "Should detect missing #[private]");
}

#[test]
fn test_no_finding_with_private() {
    let source = r#"
            impl Contract {
                #[private]
                pub fn on_transfer_complete(&mut self, amount: U128) {
                    self.total += amount.0;
                }
            }
        "#;
    let findings = run_near_missing_private(source);
    assert!(findings.is_empty(), "Should not flag with #[private]");
}

#[test]
fn test_detects_missing_private_suffix() {
    let source = r#"
            use near_sdk::near_bindgen;
            #[near_bindgen]
            impl Contract {
                pub fn withdraw_callback(&mut self, amount: U128) {
                    self.total -= amount.0;
                }
            }
        "#;
    let findings = run_near_missing_private(source);
    assert!(
        !findings.is_empty(),
        "Should detect missing #[private] on *_callback"
    );
}

#[test]
fn test_detects_handle_callback_with_promise_evidence() {
    let source = r#"
            use near_sdk::env;
            #[near_bindgen]
            impl Contract {
                pub fn handle_swap(&mut self) {
                    let _r = env::promise_result(0);
                    self.total += 1;
                }
            }
        "#;
    let findings = run_near_missing_private(source);
    assert!(
        !findings.is_empty(),
        "handle_* callback consuming a promise result should be flagged"
    );
}

#[test]
fn test_no_finding_on_non_bindgen_helper_struct() {
    let source = r#"
            use near_sdk::near_bindgen;

            pub struct EventRouter;

            impl EventRouter {
                pub fn handle_event(&self, e: &str) -> bool {
                    e.starts_with("transfer")
                }
            }
        "#;
    let findings = run_near_missing_private(source);
    assert!(
        findings.is_empty(),
        "pub method on a non-#[near_bindgen] helper struct is not an entry point"
    );
}

#[test]
fn test_no_finding_with_manual_self_guard() {
    let source = r#"
            use near_sdk::env;
            #[near_bindgen]
            impl Contract {
                pub fn on_transfer_complete(&mut self, amount: U128) {
                    require!(
                        env::predecessor_account_id() == env::current_account_id(),
                        "Only the contract itself can call this callback"
                    );
                    self.total += amount.0;
                }
            }
        "#;
    let findings = run_near_missing_private(source);
    assert!(
        findings.is_empty(),
        "hand-rolled self-call guard is equivalent to #[private]"
    );
}

#[test]
fn test_still_flags_callback_mentioning_account_ids_without_comparison() {
    let source = r#"
            use near_sdk::{env, near_bindgen, AccountId, Promise};
            #[near_bindgen]
            impl Vault {
                pub fn on_withdraw_complete(&mut self, account_id: AccountId, amount: U128) -> Promise {
                    let caller = env::predecessor_account_id();
                    env::log_str(&format!("withdraw_complete caller={}", caller));

                    let bal = self.balances.get(&account_id).unwrap_or(0);
                    self.balances.insert(&account_id, &(bal.saturating_sub(amount.0)));

                    Promise::new(account_id).transfer(amount.0).then(
                        Self::ext(env::current_account_id()).on_settled(),
                    )
                }
            }
        "#;
    let findings = run_near_missing_private(source);
    assert!(
        !findings.is_empty(),
        "callback that only mentions predecessor/current account ids (log + Self::ext) \
             performs no self-call check and must still be flagged"
    );
}

#[test]
fn test_still_flags_self_comparison_that_does_not_guard() {
    let source = r#"
            use near_sdk::{env, near_bindgen};
            #[near_bindgen]
            impl Contract {
                pub fn on_transfer_complete(&mut self, amount: U128) {
                    if env::predecessor_account_id() == env::current_account_id() {
                        self.internal_hits += 1;
                    }
                    self.total += amount.0;
                }
            }
        "#;
    let findings = run_near_missing_private(source);
    assert!(
        !findings.is_empty(),
        "a self-comparison whose branch neither panics nor returns is not a guard"
    );
}

#[test]
fn test_no_finding_with_if_panic_self_guard() {
    let source = r#"
            use near_sdk::{env, near_bindgen};
            #[near_bindgen]
            impl Contract {
                pub fn on_transfer_complete(&mut self, amount: U128) {
                    if env::predecessor_account_id() != env::current_account_id() {
                        env::panic_str("callback can only be called by the contract");
                    }
                    self.total += amount.0;
                }
            }
        "#;
    let findings = run_near_missing_private(source);
    assert!(
        findings.is_empty(),
        "if/panic self-call guard is equivalent to #[private]"
    );
}

#[test]
fn test_no_finding_with_let_bound_self_guard() {
    let source = r#"
            use near_sdk::{env, near_bindgen};
            #[near_bindgen]
            impl Contract {
                pub fn on_transfer_complete(&mut self, amount: U128) {
                    let is_self = env::predecessor_account_id() == env::current_account_id();
                    require!(is_self, "only self");
                    self.total += amount.0;
                }
            }
        "#;
    let findings = run_near_missing_private(source);
    assert!(
        findings.is_empty(),
        "self-check bound to a local and asserted is equivalent to #[private]"
    );
}

#[test]
fn test_no_finding_with_resolved_guard_helper() {
    let source = r#"
            use near_sdk::{env, near_bindgen};
            #[near_bindgen]
            impl Contract {
                fn assert_caller_is_self(&self) {
                    require!(
                        env::predecessor_account_id() == env::current_account_id(),
                        "only self"
                    );
                }

                pub fn on_transfer_complete(&mut self, amount: U128) {
                    self.assert_caller_is_self();
                    self.total += amount.0;
                }
            }
        "#;
    let findings = run_near_missing_private(source);
    assert!(
        findings.is_empty(),
        "call to an in-file helper that performs the self-check is a real guard"
    );
}

#[test]
fn test_no_finding_on_callback_named_config_methods() {
    let source = r#"
            use near_sdk::near_bindgen;
            #[near_bindgen]
            impl Contract {
                pub fn set_callback_gas(&mut self, gas: u64) {
                    self.assert_owner();
                    self.callback_gas = gas;
                }

                pub fn get_callback_gas(&self) -> u64 {
                    self.callback_gas
                }
            }
        "#;
    let findings = run_near_missing_private(source);
    assert!(
        findings.is_empty(),
        "callback_gas config accessors are not promise callbacks"
    );
}

#[test]
fn test_no_finding_on_handle_entry_point() {
    let source = r#"
            use near_sdk::env;
            #[near_bindgen]
            impl Contract {
                #[payable]
                pub fn handle_deposit(&mut self) {
                    let who = env::predecessor_account_id();
                    let amount = env::attached_deposit();
                    self.balances.insert(&who, &amount);
                }
            }
        "#;
    let findings = run_near_missing_private(source);
    assert!(
        findings.is_empty(),
        "handle_deposit is a plain entry point, not a promise callback"
    );
}

#[test]
fn missing_private_test_no_finding_in_cfg_test_module() {
    let source = r#"
            use near_sdk::near_bindgen;

            #[cfg(test)]
            mod tests {
                struct MockReceiver { hits: u32 }

                impl MockReceiver {
                    pub fn on_transfer(&mut self) {
                        self.hits += 1;
                    }
                }
            }
        "#;
    let findings = run_near_missing_private(source);
    assert!(
        findings.is_empty(),
        "callbacks on test mocks under #[cfg(test)] have no on-chain surface"
    );
}

#[test]
fn test_detects_state_before_promise() {
    let source = r#"
            fn withdraw(&mut self, amount: u128) {
                self.balance -= amount;
                Promise::new(receiver).transfer(amount);
            }
        "#;
    let findings = run_near_promise_reentrancy(source);
    assert!(
        !findings.is_empty(),
        "Should detect state mutation before Promise"
    );
}

#[test]
fn test_no_finding_promise_only() {
    let source = r#"
            fn transfer(&self, receiver: AccountId, amount: u128) {
                Promise::new(receiver).transfer(amount);
            }
        "#;
    let findings = run_near_promise_reentrancy(source);
    assert!(
        findings.is_empty(),
        "Should not flag when no state mutation"
    );
}

#[test]
fn test_no_finding_readonly_self_ref() {
    let source = r#"
            fn payout(&self, to: AccountId) -> Promise {
                let amount = self.reward_per_user;
                Promise::new(to).transfer(amount)
            }
        "#;
    let findings = run_near_promise_reentrancy(source);
    assert!(
        findings.is_empty(),
        "Read-only &self helper must not be flagged"
    );
}

#[test]
fn test_no_finding_ext_substring_in_identifier() {
    let source = r#"
            fn register(&mut self) -> u64 {
                self.next_id += 1;
                self.next_id
            }
        "#;
    let findings = run_near_promise_reentrancy(source);
    assert!(
        findings.is_empty(),
        "'ext_' inside an identifier must not count as a cross-contract call"
    );
}

#[test]
fn test_no_finding_ext_in_string_literal() {
    let source = r#"
            fn record(&mut self) {
                self.last_action = "ext_transfer".to_string();
            }
        "#;
    let findings = run_near_promise_reentrancy(source);
    assert!(
        findings.is_empty(),
        "'ext_' inside a string literal must not count as a cross-contract call"
    );
}

#[test]
fn test_no_finding_deduct_then_with_rollback_callback() {
    let source = r#"
            fn withdraw(&mut self, amount: u128) -> Promise {
                self.balance = self.balance - amount;
                Promise::new(env::predecessor_account_id())
                    .transfer(amount)
                    .then(ext_self::ext(env::current_account_id()).on_withdraw_done(amount))
            }
        "#;
    let findings = run_near_promise_reentrancy(source);
    assert!(
        findings.is_empty(),
        "Deduct-then-promise with a self rollback callback must not be flagged"
    );
}

#[test]
fn test_still_detects_real_ext_call() {
    let source = r#"
            fn withdraw(&mut self, receiver: AccountId, amount: u128) {
                self.pending = true;
                ext_ft::ext(self.token.clone()).ft_transfer(receiver, amount);
            }
        "#;
    let findings = run_near_promise_reentrancy(source);
    assert!(
        !findings.is_empty(),
        "Real ext_* call after state mutation must still be flagged"
    );
}

#[test]
fn test_still_flags_then_callback_without_private_attr() {
    let source = r#"
            fn withdraw(&mut self, amount: u128) -> Promise {
                assert!(self.balance >= amount, "insufficient balance");
                self.balance = self.balance - amount;
                Promise::new(env::predecessor_account_id())
                    .transfer(amount)
                    .then(ext_self::ext(env::current_account_id()).on_withdraw_done(amount))
            }

            fn on_withdraw_done(&mut self, amount: u128) {
                self.balance = self.balance + amount;
            }
        "#;
    let findings = run_near_promise_reentrancy(source);
    assert!(
        findings.iter().any(|f| f.message.contains("'withdraw'")),
        "Deduct-then-promise whose .then() callback is a public, non-#[private] \
             credit primitive must be flagged"
    );
}

#[test]
fn test_still_flags_unprotected_callback_alternate_spelling() {
    let source = r#"
            fn withdraw(&mut self, amount: u128) -> Promise {
                self.balance = self.balance - amount;
                Promise::new(env::predecessor_account_id())
                    .transfer(amount)
                    .then(Self::on_withdraw_done(amount))
            }

            fn on_withdraw_done(&mut self, amount: u128) {
                self.balance = self.balance + amount;
            }
        "#;
    let findings = run_near_promise_reentrancy(source);
    assert!(
        findings.iter().any(|f| f.message.contains("'withdraw'")),
        "An unprotected rollback callback must be flagged regardless of spelling"
    );
}

#[test]
fn test_no_finding_rollback_callback_with_private_attr() {
    let source = r#"
            fn withdraw(&mut self, amount: u128) -> Promise {
                self.balance = self.balance - amount;
                Promise::new(env::predecessor_account_id())
                    .transfer(amount)
                    .then(ext_self::ext(env::current_account_id()).on_withdraw_done(amount))
            }

            #[private]
            fn on_withdraw_done(&mut self, amount: u128) {
                self.balance = self.balance + amount;
            }
        "#;
    let findings = run_near_promise_reentrancy(source);
    assert!(
        findings.is_empty(),
        "A #[private] rollback callback is the safe NEAR idiom and must not be flagged"
    );
}

#[test]
fn test_no_finding_rollback_callback_with_caller_check() {
    let source = r#"
            fn withdraw(&mut self, amount: u128) -> Promise {
                self.balance = self.balance - amount;
                Promise::new(env::predecessor_account_id())
                    .transfer(amount)
                    .then(ext_self::ext(env::current_account_id()).on_withdraw_done(amount))
            }

            fn on_withdraw_done(&mut self, amount: u128) {
                assert_eq!(
                    env::predecessor_account_id(),
                    env::current_account_id(),
                    "callback is private"
                );
                self.balance = self.balance + amount;
            }
        "#;
    let findings = run_near_promise_reentrancy(source);
    assert!(
        findings.is_empty(),
        "A callback that structurally checks predecessor == current must not be flagged"
    );
}

#[test]
fn test_still_detects_guard_then_promise() {
    let source = r#"
            fn withdraw(&mut self, amount: u128) -> Promise {
                assert!(self.balance >= amount, "insufficient balance");
                Promise::new(env::predecessor_account_id()).transfer(amount)
            }
        "#;
    let findings = run_near_promise_reentrancy(source);
    assert!(
        !findings.is_empty(),
        "State-touching statement before an unprotected Promise must still fire"
    );
}

#[test]
fn test_detects_unguarded_pending() {
    let source = r#"
            fn initiate_withdrawal(&mut self, amount: u128) {
                self.pending_amount = amount;
                ext_self::on_withdrawal_complete(env::current_account_id(), 0, GAS);
            }
        "#;
    let findings = run_near_self_callback(source);
    assert!(
        !findings.is_empty(),
        "Should detect unguarded pending state"
    );
}

#[test]
fn test_no_finding_with_guard() {
    let source = r#"
            fn initiate_withdrawal(&mut self, amount: u128) {
                assert!(!self.pending_withdrawal, "Already pending");
                self.pending_amount = amount;
                ext_self::on_withdrawal_complete(env::current_account_id(), 0, GAS);
            }
        "#;
    let findings = run_near_self_callback(source);
    assert!(findings.is_empty(), "Should not flag with guard");
}

#[test]
fn test_no_finding_read_only_pending() {
    let source = r#"
            pub fn retry_withdrawal(&mut self) -> Promise {
                let amount = self.pending_amount;
                ext_self::on_withdrawal_complete(env::current_account_id(), 0, GAS)
            }
        "#;
    let findings = run_near_self_callback(source);
    assert!(
        findings.is_empty(),
        "Read-only access to pending state must not be flagged"
    );
}

#[test]
fn test_no_finding_private_callback() {
    let source = r#"
            #[private]
            pub fn on_withdrawal_complete(&mut self) {
                self.pending_amount = 0;
                ext_self::finalize_withdrawal(env::current_account_id(), 0, GAS);
            }
        "#;
    let findings = run_near_self_callback(source);
    assert!(
        findings.is_empty(),
        "#[private] callbacks cannot be externally re-entered"
    );
}

#[test]
fn test_no_finding_local_named_pending() {
    let source = r#"
            pub fn distribute(&mut self) -> Promise {
                let pending_rewards = self.compute_rewards();
                ext_self::on_distribute(env::current_account_id(), 0, GAS)
            }
        "#;
    let findings = run_near_self_callback(source);
    assert!(
        findings.is_empty(),
        "A local named pending_* is not a pending state write"
    );
}

#[test]
fn test_detects_signer_in_access_control() {
    let source = r#"
            fn admin_action(&mut self) {
                assert_eq!(env::signer_account_id(), self.owner, "Not owner");
                self.value = 42;
            }
        "#;
    let findings = run_near_signer_vs_predecessor(source);
    assert!(
        !findings.is_empty(),
        "Should detect signer_account_id misuse"
    );
}

#[test]
fn test_no_finding_with_predecessor() {
    let source = r#"
            fn admin_action(&mut self) {
                assert_eq!(env::predecessor_account_id(), self.owner, "Not owner");
                self.value = 42;
            }
        "#;
    let findings = run_near_signer_vs_predecessor(source);
    assert!(
        findings.is_empty(),
        "Should not flag predecessor_account_id"
    );
}

#[test]
fn test_no_finding_signer_vs_predecessor_direct_guard() {
    let source = r#"
            pub fn claim_airdrop(&mut self) {
                assert_eq!(
                    env::signer_account_id(),
                    env::predecessor_account_id(),
                    "No cross-contract calls allowed"
                );
                self.claim_for(env::predecessor_account_id());
            }
        "#;
    let findings = run_near_signer_vs_predecessor(source);
    assert!(
        findings.is_empty(),
        "signer==predecessor direct-call guard must not be flagged"
    );
}

#[test]
fn test_no_finding_signer_only_for_event_attribution() {
    let source = r#"
            pub fn withdraw_all(&mut self) {
                let tx_origin = env::signer_account_id();
                assert_eq!(env::predecessor_account_id(), self.owner);
                Event::Withdraw { by: self.owner.clone(), tx_origin }.emit();
            }
        "#;
    let findings = run_near_signer_vs_predecessor(source);
    assert!(
        findings.is_empty(),
        "signer captured only for event attribution must not be flagged"
    );
}

#[test]
fn test_no_finding_unrelated_counter_comparison() {
    let source = r#"
            pub fn ping(&mut self) {
                let tx_origin = env::signer_account_id();
                self.pings += 1;
                if self.pings == 1 {
                    Event::FirstPing { tx_origin }.emit();
                }
            }
        "#;
    let findings = run_near_signer_vs_predecessor(source);
    assert!(
        findings.is_empty(),
        "unrelated counter comparison must not be flagged"
    );
}

#[test]
fn test_no_finding_vmcontextbuilder_in_cfg_test_module() {
    let source = r#"
            #[cfg(test)]
            mod tests {
                use super::*;
                use near_sdk::test_utils::VMContextBuilder;

                fn get_context(is_owner: bool) -> VMContextBuilder {
                    let mut builder = VMContextBuilder::new();
                    builder
                        .signer_account_id(accounts(if is_owner { 0 } else { 1 }))
                        .predecessor_account_id(accounts(if is_owner { 0 } else { 1 }));
                    builder
                }
            }
        "#;
    let findings = run_near_signer_vs_predecessor(source);
    assert!(
        findings.is_empty(),
        "VMContextBuilder setter inside #[cfg(test)] must not be flagged"
    );
}

#[test]
fn test_detects_signer_in_if_comparison() {
    let source = r#"
            fn admin_action(&mut self) {
                if env::signer_account_id() != self.owner {
                    env::panic_str("not owner");
                }
                self.value = 42;
            }
        "#;
    let findings = run_near_signer_vs_predecessor(source);
    assert!(
        !findings.is_empty(),
        "signer compared against owner in an if must be flagged"
    );
}

#[test]
fn test_detects_missing_auth() {
    let source = r#"
            fn storage_withdraw(&mut self, amount: Option<U128>) -> bool {
                self.internal_storage_withdraw(amount.map(|a| a.0));
                true
            }
        "#;
    let findings = run_near_storage_staking(source);
    assert!(
        !findings.is_empty(),
        "Should detect missing predecessor check"
    );
}

#[test]
fn test_no_finding_with_auth() {
    let source = r#"
            fn storage_withdraw(&mut self, amount: Option<U128>) -> bool {
                let account_id = env::predecessor_account_id();
                self.internal_storage_withdraw(&account_id, amount.map(|a| a.0));
                true
            }
        "#;
    let findings = run_near_storage_staking(source);
    assert!(
        findings.is_empty(),
        "Should not flag with predecessor check"
    );
}

#[test]
fn test_no_finding_internal_helper_with_authorized_caller() {
    let source = r#"
            fn storage_withdraw(&mut self, amount: Option<U128>) -> bool {
                let account_id = env::predecessor_account_id();
                self.internal_storage_withdraw(&account_id, amount.map(|a| a.0));
                true
            }
            fn internal_storage_withdraw(&mut self, account_id: &AccountId, amount: Option<Balance>) -> StorageBalance {
                let mut balance = self.accounts.get(account_id).expect("not registered");
                let to_withdraw = amount.unwrap_or(balance.available);
                balance.available -= to_withdraw;
                self.accounts.insert(account_id, &balance);
                Promise::new(account_id.clone()).transfer(to_withdraw);
                balance
            }
        "#;
    let findings = run_near_storage_staking(source);
    assert!(
        findings.is_empty(),
        "Internal helper with an authorized caller should not be flagged"
    );
}

#[test]
fn test_no_finding_auth_via_resolved_helper() {
    let source = r#"
            fn storage_unregister(&mut self, force: Option<bool>) -> bool {
                assert_one_yocto();
                let account_id = self.assert_registered_caller();
                self.internal_unregister(&account_id, force.unwrap_or(false))
            }
            fn assert_registered_caller(&self) -> AccountId {
                let caller = env::predecessor_account_id();
                assert!(self.accounts.contains_key(&caller), "not registered");
                caller
            }
        "#;
    let findings = run_near_storage_staking(source);
    assert!(
        findings.is_empty(),
        "Auth factored into a resolved helper should not be flagged"
    );
}

#[test]
fn test_flags_when_helper_lacks_predecessor() {
    let source = r#"
            fn storage_unregister(&mut self, force: Option<bool>) -> bool {
                let account_id = self.some_unrelated_helper();
                self.internal_unregister(&account_id, force.unwrap_or(false))
            }
            fn some_unrelated_helper(&self) -> AccountId {
                self.default_account.clone()
            }
        "#;
    let findings = run_near_storage_staking(source);
    assert!(
        !findings.is_empty(),
        "Helper without a predecessor check must not suppress the finding"
    );
}

#[test]
fn test_no_finding_permissionless_storage_deposit() {
    let source = r#"
            #[payable]
            pub fn storage_deposit(&mut self, account_id: AccountId) -> StorageBalance {
                let deposit = env::attached_deposit();
                require!(deposit >= self.min.0, "deposit too low");
                let mut balance = self.accounts.get(&account_id).unwrap_or_default();
                balance.total += deposit;
                self.accounts.insert(&account_id, &balance);
                balance
            }
        "#;
    let findings = run_near_storage_staking(source);
    assert!(
        findings.is_empty(),
        "Permissionless NEP-145 storage_deposit should not be flagged"
    );
}

#[test]
fn test_no_finding_readonly_getter() {
    let source = r#"
            pub fn min_storage_deposit_amount(&self) -> U128 {
                U128(Balance::from(self.storage_bounds.min))
            }
        "#;
    let findings = run_near_storage_staking(source);
    assert!(
        findings.is_empty(),
        "Read-only getter should not be flagged"
    );
}

#[test]
fn storage_staking_test_no_finding_in_cfg_test_module() {
    let source = r#"
            #[cfg(test)]
            mod tests {
                #[test]
                fn test_storage_withdraw_rejects_unregistered() {
                    let mut contract = Contract::new();
                    contract.storage_withdraw(None);
                }
            }
        "#;
    let findings = run_near_storage_staking(source);
    assert!(
        findings.is_empty(),
        "Test-harness functions should not be flagged"
    );
}

#[test]
fn test_still_flags_withdraw_when_helper_only_logs_caller() {
    let source = r#"
            fn log_storage_event(kind: &str, subject: &AccountId) {
                env::log_str(&format!(
                    "storage_event kind={} subject={} caller={}",
                    kind,
                    subject,
                    env::predecessor_account_id()
                ));
            }

            #[payable]
            pub fn storage_withdraw(
                &mut self,
                account_id: AccountId,
                receiver_id: Option<AccountId>,
                amount: U128,
            ) -> StorageBalance {
                log_storage_event("withdraw", &account_id);

                let mut balance = self.accounts.get(&account_id).expect("not registered");
                let to_withdraw: Balance = amount.0;
                assert!(balance.available >= to_withdraw, "insufficient available");

                balance.available -= to_withdraw;
                balance.total -= to_withdraw;
                self.accounts.insert(&account_id, &balance);

                let beneficiary = receiver_id.unwrap_or(account_id);
                Promise::new(beneficiary).transfer(to_withdraw);

                balance
            }
        "#;
    let findings = run_near_storage_staking(source);
    assert!(
        findings.iter().any(|f| f.detector_id == "NEAR-003"),
        "Handler whose helper only logs the caller must still be flagged"
    );
}

#[test]
fn test_still_flags_when_caller_only_in_assert_message() {
    let source = r#"
            fn require_liquidity(&self, needed: Balance) {
                assert!(
                    self.pool >= needed,
                    "insufficient pool for {}",
                    env::predecessor_account_id()
                );
            }
            pub fn storage_withdraw(&mut self, account_id: AccountId, amount: U128) -> StorageBalance {
                self.require_liquidity(amount.0);
                let mut balance = self.accounts.get(&account_id).expect("not registered");
                balance.available -= amount.0;
                self.accounts.insert(&account_id, &balance);
                Promise::new(account_id).transfer(amount.0);
                balance
            }
        "#;
    let findings = run_near_storage_staking(source);
    assert!(
        findings.iter().any(|f| f.detector_id == "NEAR-003"),
        "Caller mentioned only in an assert message must not suppress the finding"
    );
}

#[test]
fn test_still_flags_internal_helper_when_caller_only_logs_predecessor() {
    let source = r#"
            pub fn storage_withdraw(&mut self, account_id: AccountId, amount: Option<U128>) -> bool {
                env::log_str(&format!("caller={}", env::predecessor_account_id()));
                self.internal_storage_withdraw(&account_id, amount.map(|a| a.0));
                true
            }
            fn internal_storage_withdraw(&mut self, account_id: &AccountId, amount: Option<Balance>) -> StorageBalance {
                let mut balance = self.accounts.get(account_id).expect("not registered");
                let to_withdraw = amount.unwrap_or(balance.available);
                balance.available -= to_withdraw;
                self.accounts.insert(account_id, &balance);
                Promise::new(account_id.clone()).transfer(to_withdraw);
                balance
            }
        "#;
    let findings = run_near_storage_staking(source);
    assert!(
        findings
            .iter()
            .any(|f| f.message.contains("internal_storage_withdraw")),
        "Internal helper whose caller only logs the predecessor must still be flagged"
    );
}

#[test]
fn test_still_flags_when_resolver_result_discarded() {
    let source = r#"
            fn resolve_caller(&self) -> AccountId {
                env::predecessor_account_id()
            }
            pub fn storage_withdraw(&mut self, account_id: AccountId, amount: U128) -> StorageBalance {
                self.resolve_caller();
                let mut balance = self.accounts.get(&account_id).expect("not registered");
                balance.available -= amount.0;
                self.accounts.insert(&account_id, &balance);
                Promise::new(account_id).transfer(amount.0);
                balance
            }
        "#;
    let findings = run_near_storage_staking(source);
    assert!(
        findings.iter().any(|f| f.detector_id == "NEAR-003"),
        "Discarded identity resolver must not suppress the finding"
    );
}

#[test]
fn test_no_finding_when_resolver_result_used() {
    let source = r#"
            fn resolve_caller(&self) -> AccountId {
                env::predecessor_account_id()
            }
            pub fn storage_withdraw(&mut self, amount: U128) -> StorageBalance {
                let account_id = self.resolve_caller();
                let mut balance = self.accounts.get(&account_id).expect("not registered");
                balance.available -= amount.0;
                self.accounts.insert(&account_id, &balance);
                Promise::new(account_id).transfer(amount.0);
                balance
            }
        "#;
    let findings = run_near_storage_staking(source);
    assert!(
        findings.is_empty(),
        "Consumed identity resolver is real authorization and should not be flagged"
    );
}

#[test]
fn test_no_finding_auth_via_rejecting_if_guard() {
    let source = r#"
            fn assert_owner(&self) {
                if env::predecessor_account_id() != self.owner {
                    env::panic_str("unauthorized");
                }
            }
            pub fn storage_withdraw(&mut self, account_id: AccountId, amount: U128) -> StorageBalance {
                self.assert_owner();
                let mut balance = self.accounts.get(&account_id).expect("not registered");
                balance.available -= amount.0;
                self.accounts.insert(&account_id, &balance);
                Promise::new(account_id).transfer(amount.0);
                balance
            }
        "#;
    let findings = run_near_storage_staking(source);
    assert!(
        findings.is_empty(),
        "Rejecting if-guard on the caller should not be flagged"
    );
}

#[test]
fn test_flags_unauthorized_withdraw() {
    let source = r#"
            pub fn storage_withdraw(&mut self, amount: Option<U128>) -> StorageBalance {
                let mut balance = self.accounts.get(&self.some_account).unwrap();
                balance.available -= amount.map(|a| a.0).unwrap_or(balance.available);
                self.accounts.insert(&self.some_account, &balance);
                balance
            }
        "#;
    let findings = run_near_storage_staking(source);
    assert!(
        !findings.is_empty(),
        "Unauthorized withdraw handler must still be flagged"
    );
}

#[test]
fn test_detects_unguarded_unregister() {
    let source = r#"
            fn storage_unregister(&mut self) -> bool {
                let account_id = env::predecessor_account_id();
                self.accounts.remove(&account_id);
                env::storage_remove(&account_id.as_bytes());
                true
            }
        "#;
    let findings = run_near_unguarded_storage_unregister(source);
    assert!(
        !findings.is_empty(),
        "Should detect unguarded storage_unregister"
    );
    assert_eq!(findings[0].detector_id, "NEAR-011");
}

#[test]
fn test_no_finding_with_balance_check() {
    let source = r#"
            fn storage_unregister(&mut self, force: Option<bool>) -> bool {
                let account_id = env::predecessor_account_id();
                let balance = self.internal_unwrap_balance_of(&account_id);
                if balance != 0 && !force.unwrap_or(false) {
                    env::panic_str("account has non-zero balance, use force=true to unregister");
                }
                self.accounts.remove(&account_id);
                true
            }
        "#;
    let findings = run_near_unguarded_storage_unregister(source);
    assert!(findings.is_empty(), "Should not flag with balance check");
}

#[test]
fn test_no_finding_with_force_param() {
    let source = r#"
            fn storage_unregister(&mut self, force: Option<bool>) -> bool {
                let account_id = env::predecessor_account_id();
                if !force.unwrap_or(false) {
                    return false;
                }
                self.accounts.remove(&account_id);
                true
            }
        "#;
    let findings = run_near_unguarded_storage_unregister(source);
    assert!(
        findings.is_empty(),
        "Should not flag when force parameter is checked"
    );
}

#[test]
fn test_no_finding_when_callee_checks_balance() {
    let source = r#"
            pub fn storage_unregister_account(state: &mut Contract, account_id: &AccountId) -> bool {
                assert_account_empty(state, account_id);
                state.accounts.remove(account_id);
                true
            }

            fn assert_account_empty(state: &Contract, account_id: &AccountId) {
                assert!(state.balance_of(account_id) == 0, "account not empty");
            }
        "#;
    let findings = run_near_unguarded_storage_unregister(source);
    assert!(
        findings.is_empty(),
        "Should not flag when a resolved callee performs the balance check"
    );
}

#[test]
fn unguarded_storage_unregister_test_no_finding_in_cfg_test_module() {
    let source = r#"
            #[cfg(test)]
            mod tests {
                use super::*;

                fn do_storage_unregister(contract: &mut Contract) -> bool {
                    testing_env!(get_context(accounts(1)));
                    contract.accounts.remove(&accounts(1));
                    contract.storage_unregister(None)
                }

                #[test]
                fn test_unregister_flow() {
                    let mut contract = Contract::default();
                    do_storage_unregister(&mut contract);
                }
            }
        "#;
    let findings = run_near_unguarded_storage_unregister(source);
    assert!(
        findings.is_empty(),
        "Should not flag test scaffolding inside a #[cfg(test)] module"
    );
}

#[test]
fn test_no_finding_for_event_emitter() {
    let source = r#"
            fn emit_storage_unregister(account_id: &AccountId) {
                env::log_str(&format!("EVENT_JSON: storage_unregister {}", account_id));
            }
        "#;
    let findings = run_near_unguarded_storage_unregister(source);
    assert!(
        findings.is_empty(),
        "Should not flag a function that removes/mutates nothing"
    );
}

#[test]
fn test_no_finding_for_unchecked_helper_guarded_by_caller() {
    let source = r#"
            fn storage_unregister_unchecked(contract: &mut Contract, account_id: &AccountId) {
                contract.accounts.remove(account_id);
            }

            pub fn storage_unregister(contract: &mut Contract, force: Option<bool>) -> bool {
                let balance = contract.internal_balance_of(&env::predecessor_account_id());
                assert!(balance == 0 || force.unwrap_or(false), "non-zero balance");
                storage_unregister_unchecked(contract, &env::predecessor_account_id());
                true
            }
        "#;
    let findings = run_near_unguarded_storage_unregister(source);
    assert!(
        findings.is_empty(),
        "Should not flag an _unchecked helper whose only caller checks the balance"
    );
}

#[test]
fn test_still_detects_delegated_removal_without_check() {
    let source = r#"
            fn remove_account(contract: &mut Contract, account_id: &AccountId) {
                contract.accounts.remove(account_id);
            }

            pub fn storage_unregister(contract: &mut Contract) -> bool {
                let account_id = env::predecessor_account_id();
                remove_account(contract, &account_id);
                true
            }
        "#;
    let findings = run_near_unguarded_storage_unregister(source);
    assert!(
        !findings.is_empty(),
        "Should still detect a delegated removal with no balance check anywhere"
    );
}

#[test]
fn test_detects_callback_unwrap() {
    let source = r#"
            use near_sdk::env;
            #[callback_unwrap]
            fn on_transfer_complete(&mut self, amount: U128) {
                self.transferred += amount.0;
            }
        "#;
    let findings = run_near_unhandled_promise(source);
    assert!(!findings.is_empty(), "Should detect callback_unwrap");
}

#[test]
fn test_no_finding_callback_result() {
    let source = r#"
            use near_sdk::env;
            #[callback_result]
            fn on_transfer_complete(&mut self, result: Result<U128, PromiseError>) {
                match result {
                    Ok(amount) => self.transferred += amount.0,
                    Err(_) => self.failed += 1,
                }
            }
        "#;
    let findings = run_near_unhandled_promise(source);
    assert!(findings.is_empty(), "Should not flag callback_result");
}

#[test]
fn test_detects_callback_unwrap_on_parameter() {
    let source = r#"
            use near_sdk::{near_bindgen, json_types::U128};

            #[near_bindgen]
            impl Oracle {
                #[private]
                pub fn on_price(&self, #[callback_unwrap] price: U128) -> U128 {
                    price
                }
            }
        "#;
    let findings = run_near_unhandled_promise(source);
    assert!(
        !findings.is_empty(),
        "Should still detect callback_unwrap on a parameter"
    );
}

#[test]
fn test_no_finding_callback_unwrap_in_comments() {
    let source = r#"
            use near_sdk::env;

            /* Audit note 2024-11: do not use callback_unwrap in this module. */
            impl Contract {
                fn manual_cb(&mut self) {
                    let _r = env::promise_result(0); // safer than callback_unwrap
                }
            }
        "#;
    let findings = run_near_unhandled_promise(source);
    assert!(
        findings.is_empty(),
        "Should not flag callback_unwrap mentioned only in comments"
    );
}

#[test]
fn test_no_finding_callback_unwrap_in_test_fixture_string() {
    let source = r##"
            use near_sdk::near_bindgen;

            #[cfg(test)]
            mod tests {
                #[test]
                fn lint_fixture_rejects_unwrap() {
                    let src = "#[callback_unwrap] fn cb(&mut self, x: U128) {}";
                    assert!(our_ci_lint_fails_on(src));
                }
            }
        "##;
    let findings = run_near_unhandled_promise(source);
    assert!(
        findings.is_empty(),
        "Should not flag callback_unwrap text inside a cfg(test) fixture string"
    );
}

#[test]
fn test_still_flags_callback_unwrap_in_cfg_not_test_module() {
    let source = r#"
            use near_sdk::{env, near_bindgen, json_types::U128, AccountId, Promise};

            #[cfg(not(test))]
            mod live_withdraw {
                use super::*;

                #[near_bindgen]
                impl Vault {
                    pub fn withdraw(&mut self, amount: U128) -> Promise {
                        let account = env::predecessor_account_id();
                        let balance = self.balances.get(&account).unwrap_or(0);
                        self.balances.insert(&account, &(balance - amount.0));
                        ext_ft::ext(self.token_id.clone())
                            .ft_transfer(account.clone(), amount, None)
                            .then(Self::ext(env::current_account_id())
                                .on_withdraw_complete(account, amount))
                    }

                    #[private]
                    pub fn on_withdraw_complete(
                        &mut self,
                        #[callback_unwrap] _transfer_ok: (),
                        account: AccountId,
                        amount: U128,
                    ) {
                        env::log_str("withdrew");
                    }
                }
            }

            #[cfg(test)]
            mod live_withdraw {
                use super::*;

                #[near_bindgen]
                impl Vault {
                    pub fn withdraw(&mut self, amount: U128) {}
                }
            }
        "#;
    let findings = run_near_unhandled_promise(source);
    assert!(
        !findings.is_empty(),
        "Should flag callback_unwrap in a #[cfg(not(test))] module - that is deployed code"
    );
}

#[test]
fn test_still_flags_callback_unwrap_in_cfg_any_test_or_feature() {
    let source = r#"
            use near_sdk::near_bindgen;

            #[cfg(any(test, feature = "mock"))]
            mod maybe_shipped {
                #[near_bindgen]
                impl Oracle {
                    #[private]
                    pub fn on_price(&self, #[callback_unwrap] price: U128) -> U128 {
                        price
                    }
                }
            }
        "#;
    let findings = run_near_unhandled_promise(source);
    assert!(
        !findings.is_empty(),
        "Should flag callback_unwrap under any(test, feature) - it can ship"
    );
}

#[test]
fn test_no_finding_callback_unwrap_in_cfg_all_test_module() {
    let source = r#"
            use near_sdk::near_bindgen;

            #[cfg(all(test, feature = "integration"))]
            mod tests {
                #[near_bindgen]
                impl Oracle {
                    pub fn on_price(&self, #[callback_unwrap] price: U128) -> U128 {
                        price
                    }
                }
            }
        "#;
    let findings = run_near_unhandled_promise(source);
    assert!(
        findings.is_empty(),
        "Should not flag callback_unwrap in a cfg(all(test, ...)) module"
    );
}

#[test]
fn test_no_finding_callback_unwrap_in_message_string() {
    let source = r#"
            use near_sdk::env;

            impl Contract {
                fn deny_legacy(&self) {
                    env::panic_str("callback_unwrap style callbacks are not supported by this contract");
                }
            }
        "#;
    let findings = run_near_unhandled_promise(source);
    assert!(
        findings.is_empty(),
        "Should not flag callback_unwrap mentioned only inside a string message"
    );
}

#[test]
fn test_detects_format_storage_key() {
    let source = r#"
            use near_sdk::env;
            fn store_user_data(user_id: &str, data: &[u8]) {
                let key = format!("user_{}", user_id);
                env::storage_write(key.as_bytes(), data);
            }
        "#;
    let findings = run_near_unsafe_storage_keys(source);
    assert!(!findings.is_empty(), "Should detect format! in storage key");
}

#[test]
fn test_detects_inline_capture_storage_key() {
    let source = r#"
            use near_sdk::env;
            fn store_user_data(user_id: &str, data: &[u8]) {
                let key = format!("user_{user_id}");
                env::storage_write(key.as_bytes(), data);
            }
        "#;
    let findings = run_near_unsafe_storage_keys(source);
    assert!(
        !findings.is_empty(),
        "Should detect inline-capture format! in storage key"
    );
}

#[test]
fn test_no_finding_fixed_prefix() {
    let source = r#"
            use near_sdk::env;
            fn store_data(data: &[u8]) {
                env::storage_write(b"config", data);
            }
        "#;
    let findings = run_near_unsafe_storage_keys(source);
    assert!(findings.is_empty(), "Should not flag fixed storage keys");
}

#[test]
fn test_no_finding_format_only_in_log() {
    let source = r#"
            use near_sdk::env;
            fn set_config(data: &[u8]) {
                env::storage_write(b"config", data);
                env::log_str(&format!("config updated, {} bytes", data.len()));
            }
        "#;
    let findings = run_near_unsafe_storage_keys(source);
    assert!(
        findings.is_empty(),
        "Should not flag when format! feeds only a log message, not the key"
    );
}

#[test]
fn test_no_finding_const_only_format_key() {
    let source = r#"
            use near_sdk::env;
            const SCHEMA_VERSION: u32 = 2;
            fn load_state() -> Option<Vec<u8>> {
                let key = format!("state_v{}", SCHEMA_VERSION);
                env::storage_read(key.as_bytes())
            }
        "#;
    let findings = run_near_unsafe_storage_keys(source);
    assert!(
        findings.is_empty(),
        "Should not flag a key built only from constants"
    );
}

#[test]
fn test_no_finding_borsh_enum_key() {
    let source = r#"
            use near_sdk::env;
            use crate::StorageKey;
            fn set_metadata(self_data: Vec<u8>) {
                let key = StorageKey::Metadata.try_to_vec().unwrap();
                env::storage_write(&key, &self_data);
                env::log_str(&format!("metadata set at block {}", env::block_height()));
            }
        "#;
    let findings = run_near_unsafe_storage_keys(source);
    assert!(
        findings.is_empty(),
        "Should not flag an enum-based borsh-serialized key"
    );
}

#[test]
fn unsafe_storage_keys_test_no_finding_cfg_test_module() {
    let source = r#"
            use near_sdk::env;

            #[cfg(test)]
            mod tests {
                use super::*;

                fn seed_user(id: &str) {
                    let key = format!("user_{}", id);
                    env::storage_write(key.as_bytes(), b"fixture");
                }
            }
        "#;
    let findings = run_near_unsafe_storage_keys(source);
    assert!(
        findings.is_empty(),
        "Should not flag helpers inside a #[cfg(test)] module"
    );
}

#[test]
fn test_no_finding_tokio_test_fn() {
    let source = r#"
            use near_sdk::env;

            #[tokio::test]
            async fn seed_user() {
                let id = "alice";
                let key = format!("user_{}", id);
                env::storage_write(key.as_bytes(), b"fixture");
            }
        "#;
    let findings = run_near_unsafe_storage_keys(source);
    assert!(
        findings.is_empty(),
        "Should not flag #[tokio::test] functions"
    );
}

#[test]
fn test_detects_missing_discriminator() {
    let source = r#"
            fn load_account(account: &AccountInfo) {
                let data = MyState::try_from_slice(&account.data.borrow()).unwrap();
            }
        "#;
    let findings = run_solana_account_confusion(source);
    assert!(!findings.is_empty(), "Should detect missing discriminator");
}

#[test]
fn test_no_finding_with_discriminator() {
    let source = r#"
            fn load_account(account: &AccountInfo) {
                let data = account.data.borrow();
                if data[..8] != MyState::DISCRIMINATOR {
                    return Err(ProgramError::InvalidAccountData);
                }
                let state = MyState::try_from_slice(&data[8..]).unwrap();
            }
        "#;
    let findings = run_solana_account_confusion(source);
    assert!(
        findings.is_empty(),
        "Should not flag with discriminator check"
    );
}

#[test]
fn test_no_finding_spl_token_unpack() {
    let source = r#"
            fn token_balance(token_account: &AccountInfo) -> Result<u64, ProgramError> {
                let acc = spl_token::state::Account::unpack(&token_account.data.borrow())?;
                Ok(acc.amount)
            }
        "#;
    let findings = run_solana_account_confusion(source);
    assert!(
        findings.is_empty(),
        "spl_token Pack::unpack is length/IsInitialized-checked and must not flag"
    );
}

#[test]
fn test_flags_spl_unpack_unchecked() {
    let source = r#"
            fn token_balance(token_account: &AccountInfo) -> Result<u64, ProgramError> {
                let acc = spl_token::state::Account::unpack_unchecked(&token_account.data.borrow())?;
                Ok(acc.amount)
            }
        "#;
    let findings = run_solana_account_confusion(source);
    assert!(
        !findings.is_empty(),
        "unpack_unchecked skips validation and should be flagged"
    );
}

#[test]
fn account_confusion_test_no_finding_anchor_try_deserialize() {
    let source = r#"
            fn load_pool(info: &AccountInfo) -> Result<Pool> {
                let mut data: &[u8] = &info.data.borrow();
                Pool::try_deserialize(&mut data)
            }
        "#;
    let findings = run_solana_account_confusion(source);
    assert!(
        findings.is_empty(),
        "Anchor try_deserialize checks the discriminator and must not flag"
    );
}

#[test]
fn test_flags_anchor_try_deserialize_unchecked() {
    let source = r#"
            fn load_pool(info: &AccountInfo) -> Result<Pool> {
                let mut data: &[u8] = &info.data.borrow();
                Pool::try_deserialize_unchecked(&mut data)
            }
        "#;
    let findings = run_solana_account_confusion(source);
    assert!(
        !findings.is_empty(),
        "try_deserialize_unchecked skips the discriminator check and should be flagged"
    );
}

#[test]
fn test_no_finding_discriminator_in_helper() {
    let source = r#"
            fn verify_pool_header(data: &[u8]) -> Result<(), ProgramError> {
                if data[..8] != Pool::DISCRIMINATOR {
                    return Err(ProgramError::InvalidAccountData);
                }
                Ok(())
            }

            fn load_pool(info: &AccountInfo) -> Result<Pool, ProgramError> {
                let data = info.data.borrow();
                verify_pool_header(&data)?;
                Pool::try_from_slice(&data[8..]).map_err(|_| ProgramError::InvalidAccountData)
            }
        "#;
    let findings = run_solana_account_confusion(source);
    assert!(
        findings.is_empty(),
        "Discriminator check factored into a resolved local helper must not flag"
    );
}

#[test]
fn test_flags_when_helper_has_no_check() {
    let source = r#"
            fn log_something(data: &[u8]) {
                let _ = data.len();
            }

            fn load_pool(info: &AccountInfo) -> Result<Pool, ProgramError> {
                let data = info.data.borrow();
                log_something(&data);
                Pool::try_from_slice(&data).map_err(|_| ProgramError::InvalidAccountData)
            }
        "#;
    let findings = run_solana_account_confusion(source);
    assert!(
        !findings.is_empty(),
        "A non-checking helper must not suppress the finding"
    );
}

#[test]
fn test_still_flags_init_only_helper_without_type_check() {
    let source = r#"
            fn validate_vault_account(info: &AccountInfo, program_id: &Pubkey) -> ProgramResult {
                if info.owner != program_id {
                    return Err(ProgramError::IllegalOwner);
                }
                let data = info.data.borrow();
                if data.len() < VAULT_LEN {
                    return Err(ProgramError::AccountDataTooSmall);
                }
                let is_initialized = data[0] != 0;
                if !is_initialized {
                    return Err(ProgramError::UninitializedAccount);
                }
                Ok(())
            }

            pub fn withdraw_from_vault(
                program_id: &Pubkey,
                accounts: &[AccountInfo],
                amount: u64,
            ) -> ProgramResult {
                let vault_info = &accounts[0];
                validate_vault_account(vault_info, program_id)?;
                let vault = Vault::try_from_slice(&vault_info.data.borrow())?;
                if amount > vault.amount {
                    return Err(ProgramError::InsufficientFunds);
                }
                **vault_info.try_borrow_mut_lamports()? -= amount;
                Ok(())
            }
        "#;
    let findings = run_solana_account_confusion(source);
    assert!(
        !findings.is_empty(),
        "A helper checking owner/length/init but never the account TYPE must not suppress: \
             a byte-compatible account of another type still passes it"
    );
}

#[test]
fn test_still_flags_inline_init_check_without_type_check() {
    let source = r#"
            fn validate_vault_account(info: &AccountInfo, program_id: &Pubkey) -> ProgramResult {
                if info.owner != program_id {
                    return Err(ProgramError::IllegalOwner);
                }
                let data = info.data.borrow();
                if data[0] == 0 {
                    return Err(ProgramError::UninitializedAccount);
                }
                Ok(())
            }

            pub fn withdraw_from_vault(program_id: &Pubkey, accounts: &[AccountInfo]) -> ProgramResult {
                let vault_info = &accounts[0];
                validate_vault_account(vault_info, program_id)?;
                let vault = Vault::try_from_slice(&vault_info.data.borrow())?;
                Ok(())
            }
        "#;
    let findings = run_solana_account_confusion(source);
    assert!(
        !findings.is_empty(),
        "An inline init-flag check is not an account-type check and must not suppress"
    );
}

#[test]
fn test_still_flags_discriminator_only_mentioned_in_log() {
    let source = r#"
            fn note_load(info: &AccountInfo) {
                msg!("loading account, discriminator not verified");
            }

            fn load_pool(info: &AccountInfo) -> Result<Pool, ProgramError> {
                note_load(info);
                Pool::try_from_slice(&info.data.borrow()).map_err(|_| ProgramError::InvalidAccountData)
            }
        "#;
    let findings = run_solana_account_confusion(source);
    assert!(
        !findings.is_empty(),
        "Mentioning 'discriminator' in a log string is not a discriminator check"
    );
}

#[test]
fn test_no_finding_slice_spelling_tag() {
    let source = r#"
            const POOL_TAG: [u8; 8] = *b"pool\0\0\0\0";

            fn load_pool(info: &AccountInfo) -> Result<Pool, ProgramError> {
                let data = info.data.borrow();
                if data[0..8] != POOL_TAG {
                    return Err(ProgramError::InvalidAccountData);
                }
                Pool::try_from_slice(&data[8..]).map_err(|_| ProgramError::InvalidAccountData)
            }
        "#;
    let findings = run_solana_account_confusion(source);
    assert!(
        findings.is_empty(),
        "A data[0..8] tag comparison is a valid discriminator check and must not flag"
    );
}

#[test]
fn test_no_finding_helper_in_cfg_test_module() {
    let source = r#"
            use solana_program::account_info::AccountInfo;

            #[cfg(test)]
            mod tests {
                use super::*;

                fn fixture_state(bytes: &[u8]) -> MyState {
                    MyState::try_from_slice(bytes).unwrap()
                }
            }
        "#;
    let findings = run_solana_account_confusion(source);
    assert!(
        findings.is_empty(),
        "A helper inside a #[cfg(test)] module must not flag"
    );
}

#[test]
fn test_no_finding_deserialize_in_string_literal() {
    let source = r#"
            use solana_program::pubkey::Pubkey;

            fn warn_bad_account(key: &Pubkey) {
                msg!("failed to deserialize account {}", key);
            }
        "#;
    let findings = run_solana_account_confusion(source);
    assert!(
        findings.is_empty(),
        "'deserialize' inside a log string is not a deserialization site"
    );
}

#[test]
fn test_detects_missing_field_validation() {
    let source = r#"
            use solana_program::account_info::AccountInfo;
            fn load_data(account: &AccountInfo) {
                let data = account.try_borrow_data().unwrap();
                let state = MyState::try_from_slice(&data).unwrap();
                process(state);
            }
        "#;
    let findings = run_solana_account_data_matching(source);
    assert!(
        !findings.is_empty(),
        "Should detect missing field validation"
    );
}

#[test]
fn test_no_finding_with_assert_eq() {
    let source = r#"
            use solana_program::account_info::AccountInfo;
            fn load_data(account: &AccountInfo) {
                let data = account.try_borrow_data().unwrap();
                let state = MyState::try_from_slice(&data).unwrap();
                assert_eq!(state.owner, expected_owner);
            }
        "#;
    let findings = run_solana_account_data_matching(source);
    assert!(
        findings.is_empty(),
        "Should not flag with assert_eq! validation"
    );
}

#[test]
fn test_no_finding_with_require() {
    let source = r#"
            use anchor_lang::prelude::*;
            fn load_data(account: &AccountInfo) {
                let data = account.try_borrow_data().unwrap();
                let state = MyState::try_from_slice(&data).unwrap();
                require!(state.is_initialized, MyError::NotInitialized);
            }
        "#;
    let findings = run_solana_account_data_matching(source);
    assert!(
        findings.is_empty(),
        "Should not flag with require! validation"
    );
}

#[test]
fn account_data_matching_test_skips_anchor_context() {
    let source = r#"
            use anchor_lang::prelude::*;
            fn process(ctx: Context<MyAccounts>) {
                let account: Account<'_, MyState> = Account::try_from(&ctx.accounts.my_account).unwrap();
            }
        "#;
    let findings = run_solana_account_data_matching(source);
    assert!(
        findings.is_empty(),
        "Should skip Anchor Account<> + Context patterns"
    );
}

#[test]
fn test_skips_validate_functions() {
    let source = r#"
            use solana_program::account_info::AccountInfo;
            fn validate_account(account: &AccountInfo) {
                let data = account.try_borrow_data().unwrap();
                let state = MyState::try_from_slice(&data).unwrap();
            }
        "#;
    let findings = run_solana_account_data_matching(source);
    assert!(findings.is_empty(), "Should skip validation functions");
}

#[test]
fn test_no_finding_validation_delegated_to_helper() {
    let source = r#"
            use solana_program::account_info::AccountInfo;
            use solana_program::entrypoint::ProgramResult;
            use solana_program::program_error::ProgramError;

            fn load_vault(account: &AccountInfo) -> ProgramResult {
                let data = account.try_borrow_data()?;
                let state = Vault::try_from_slice(&data)?;
                assert_vault_owner(account, &state)?;
                process(&state);
                Ok(())
            }

            fn assert_vault_owner(account: &AccountInfo, state: &Vault) -> ProgramResult {
                if state.owner != *account.key {
                    return Err(ProgramError::InvalidAccountData);
                }
                Ok(())
            }
        "#;
    let findings = run_solana_account_data_matching(source);
    assert!(
        findings.is_empty(),
        "Should not flag when validation is delegated to a resolvable helper"
    );
}

#[test]
fn test_no_finding_instruction_data_dispatch() {
    let source = r#"
            use solana_program::account_info::AccountInfo;
            use solana_program::entrypoint::ProgramResult;
            use solana_program::pubkey::Pubkey;

            fn process_instruction(
                program_id: &Pubkey,
                accounts: &[AccountInfo],
                instruction_data: &[u8],
            ) -> ProgramResult {
                let ix = MyInstruction::try_from_slice(instruction_data)?;
                match ix {
                    MyInstruction::Init => handle_init(program_id, accounts),
                    MyInstruction::Close => handle_close(program_id, accounts),
                }
            }
        "#;
    let findings = run_solana_account_data_matching(source);
    assert!(
        findings.is_empty(),
        "Should not flag native entrypoint deserializing instruction data"
    );
}

#[test]
fn account_data_matching_test_no_finding_anchor_try_deserialize() {
    let source = r#"
            use anchor_lang::prelude::*;

            fn read_vault(info: &AccountInfo) -> Result<Vault> {
                let mut data: &[u8] = &info.try_borrow_data()?;
                let vault = Vault::try_deserialize(&mut data)?;
                Ok(vault)
            }
        "#;
    let findings = run_solana_account_data_matching(source);
    assert!(
        findings.is_empty(),
        "Should not flag Anchor try_deserialize (discriminator check)"
    );
}

#[test]
fn test_still_flags_try_deserialize_unchecked() {
    let source = r#"
            use anchor_lang::prelude::*;

            fn read_vault(info: &AccountInfo) -> Result<Vault> {
                let mut data: &[u8] = &info.try_borrow_data()?;
                let vault = Vault::try_deserialize_unchecked(&mut data)?;
                Ok(vault)
            }
        "#;
    let findings = run_solana_account_data_matching(source);
    assert!(
        !findings.is_empty(),
        "Should still flag try_deserialize_unchecked (no discriminator check)"
    );
}

#[test]
fn test_no_finding_match_tag_with_error_arm() {
    let source = r#"
            use solana_program::account_info::AccountInfo;
            use solana_program::entrypoint::ProgramResult;
            use solana_program::program_error::ProgramError;

            fn load_pool(account: &AccountInfo) -> ProgramResult {
                let data = account.try_borrow_data()?;
                let state = PoolState::try_from_slice(&data)?;
                match state.account_type {
                    AccountType::Pool => process(&state),
                    _ => return Err(ProgramError::InvalidAccountData),
                }
                Ok(())
            }
        "#;
    let findings = run_solana_account_data_matching(source);
    assert!(
        findings.is_empty(),
        "Should not flag match-with-error-arm validation"
    );
}

#[test]
fn account_data_matching_test_no_finding_cfg_test_module_helper() {
    let source = r#"
            #[cfg(test)]
            mod tests {
                use solana_program::account_info::AccountInfo;

                fn setup_state(account: &AccountInfo) -> MyState {
                    let data = account.try_borrow_data().unwrap();
                    MyState::try_from_slice(&data).unwrap()
                }

                #[test]
                fn works() {
                    let _ = 1;
                }
            }
        "#;
    let findings = run_solana_account_data_matching(source);
    assert!(
        findings.is_empty(),
        "Should not flag helpers inside #[cfg(test)] modules"
    );
}

#[test]
fn test_detects_arbitrary_cpi() {
    let source = r#"
            fn do_transfer(program: &AccountInfo, from: &AccountInfo, to: &AccountInfo) {
                invoke(
                    &transfer_ix,
                    &[from.clone(), to.clone(), program.clone()],
                )?;
            }
        "#;
    let findings = run_solana_arbitrary_cpi(source);
    assert!(!findings.is_empty(), "Should detect arbitrary CPI target");
}

#[test]
fn test_no_finding_with_program_check() {
    let source = r#"
            fn do_transfer(program: &AccountInfo, from: &AccountInfo, to: &AccountInfo) {
                if program.key() == &spl_token::id() {
                    invoke(
                        &transfer_ix,
                        &[from.clone(), to.clone(), program.clone()],
                    )?;
                }
            }
        "#;
    let findings = run_solana_arbitrary_cpi(source);
    assert!(findings.is_empty(), "Should not flag with program ID check");
}

#[test]
fn test_no_finding_with_not_equal_key_guard() {
    let source = r#"
            fn forward(program: &AccountInfo, accounts: &[AccountInfo], ix: &Instruction) -> ProgramResult {
                if program.key != &DEX_PROGRAM_ID {
                    return Err(ProgramError::IncorrectProgramId);
                }
                invoke(ix, accounts)
            }
        "#;
    let findings = run_solana_arbitrary_cpi(source);
    assert!(
        findings.is_empty(),
        "Should not flag when the program key is guarded with a != check"
    );
}

#[test]
fn test_no_finding_with_require_keys_eq_macro() {
    let source = r#"
            use anchor_lang::prelude::*;
            pub fn route(ctx: Context<Route>, data: Vec<u8>) -> Result<()> {
                require_keys_eq!(ctx.accounts.dex.key(), whirlpool::ID, ErrorCode::BadProgram);
                invoke(&build_ix(&data), &[ctx.accounts.dex.to_account_info()])?;
                Ok(())
            }
        "#;
    let findings = run_solana_arbitrary_cpi(source);
    assert!(
        findings.is_empty(),
        "Should not flag when program id is asserted via require_keys_eq!"
    );
}

#[test]
fn test_no_finding_with_hardcoded_program_id_const() {
    let source = r#"
            fn ping_oracle(accounts: &[AccountInfo]) -> ProgramResult {
                let ix = Instruction {
                    program_id: ORACLE_PROGRAM_ID,
                    accounts: vec![AccountMeta::new_readonly(*accounts[0].key, false)],
                    data: vec![1],
                };
                invoke(&ix, accounts)
            }
        "#;
    let findings = run_solana_arbitrary_cpi(source);
    assert!(
        findings.is_empty(),
        "Should not flag when the CPI target is a hardcoded program id constant"
    );
}

#[test]
fn test_no_finding_with_validation_helper() {
    let source = r#"
            fn check_dex_program(info: &AccountInfo) -> ProgramResult {
                if info.key != &DEX_ID {
                    return Err(ProgramError::IncorrectProgramId);
                }
                Ok(())
            }

            fn execute_route(program: &AccountInfo, accounts: &[AccountInfo], ix: &Instruction) -> ProgramResult {
                check_dex_program(program)?;
                invoke(ix, accounts)
            }
        "#;
    let findings = run_solana_arbitrary_cpi(source);
    assert!(
        findings.is_empty(),
        "Should not flag when program validation is delegated to a resolvable helper"
    );
}

#[test]
fn test_still_flags_program_id_from_untrusted_input() {
    let source = r#"
            fn relay(accounts: &[AccountInfo], attacker_program: Pubkey) -> ProgramResult {
                let ix = Instruction {
                    program_id: attacker_program,
                    accounts: vec![AccountMeta::new_readonly(*accounts[0].key, false)],
                    data: vec![1],
                };
                invoke(&ix, accounts)
            }
        "#;
    let findings = run_solana_arbitrary_cpi(source);
    assert!(
        !findings.is_empty(),
        "Should still flag when program id comes from untrusted input"
    );
}

#[test]
fn test_detects_checked_add_unwrap() {
    let source = r#"
            use solana_program::account_info::AccountInfo;
            fn calculate(a: u64, b: u64) -> u64 {
                a.checked_add(b).unwrap()
            }
        "#;
    let findings = run_solana_checked_arithmetic_unwrap(source);
    assert!(!findings.is_empty(), "Should detect checked_add().unwrap()");
}

#[test]
fn test_detects_checked_sub_unwrap() {
    let source = r#"
            use solana_program::account_info::AccountInfo;
            fn calculate(a: u64, b: u64) -> u64 {
                a.checked_sub(b).unwrap()
            }
        "#;
    let findings = run_solana_checked_arithmetic_unwrap(source);
    assert!(!findings.is_empty(), "Should detect checked_sub().unwrap()");
}

#[test]
fn test_no_finding_with_question_mark() {
    let source = r#"
            use solana_program::account_info::AccountInfo;
            fn calculate(a: u64, b: u64) -> Result<u64, ProgramError> {
                let result = a.checked_add(b).ok_or(ProgramError::ArithmeticOverflow)?;
                Ok(result)
            }
        "#;
    let findings = run_solana_checked_arithmetic_unwrap(source);
    assert!(
        findings.is_empty(),
        "Should not flag .checked_add(...).ok_or(...)?"
    );
}

#[test]
fn test_no_finding_without_solana_markers() {
    let source = r#"
            fn calculate(a: u64, b: u64) -> u64 {
                a.checked_add(b).unwrap()
            }
        "#;
    let findings = run_solana_checked_arithmetic_unwrap(source);
    assert!(
        findings.is_empty(),
        "Should not flag without Solana source markers"
    );
}

#[test]
fn test_no_finding_guard_then_unwrap() {
    let source = r#"
            use solana_program::account_info::AccountInfo;
            fn add(a: u64, b: u64) -> Result<u64, ProgramError> {
                if a.checked_add(b).is_none() {
                    return Err(ProgramError::ArithmeticOverflow);
                }
                let total = a.checked_add(b).unwrap();
                Ok(total)
            }
        "#;
    let findings = run_solana_checked_arithmetic_unwrap(source);
    assert!(
        findings.is_empty(),
        "Should not flag guard-then-unwrap idiom (is_none early return)"
    );
}

#[test]
fn test_no_finding_match_handled_unrelated_unwrap() {
    let source = r#"
            use solana_program::account_info::AccountInfo;
            fn distribute(a: u64, b: u64) -> Result<u64, ProgramError> {
                let total = match a.checked_add(b) {
                    Some(v) => v,
                    None => return Err(ProgramError::ArithmeticOverflow),
                };
                let admin = Pubkey::from_str("11111111111111111111111111111111").unwrap();
                Ok(total)
            }
        "#;
    let findings = run_solana_checked_arithmetic_unwrap(source);
    assert!(
        findings.is_empty(),
        "Should not flag a match-handled checked op with an unrelated unwrap nearby"
    );
}

#[test]
fn checked_arithmetic_unwrap_test_no_finding_in_cfg_test_module() {
    let source = r#"
            use solana_program::account_info::AccountInfo;
            #[cfg(test)]
            mod tests {
                fn setup_supply(a: u64, b: u64) -> u64 {
                    a.checked_mul(b).unwrap()
                }
            }
        "#;
    let findings = run_solana_checked_arithmetic_unwrap(source);
    assert!(
        findings.is_empty(),
        "Should not flag unwrap inside a #[cfg(test)] module helper"
    );
}

#[test]
fn test_no_finding_if_let_handled_unrelated_unwrap() {
    let source = r#"
            use solana_program::account_info::AccountInfo;
            fn settle(amount: u64, fee: u64, name: &str) -> Result<u64, ProgramError> {
                let net = if let Some(v) = amount.checked_sub(fee) {
                    v
                } else {
                    return Err(ProgramError::ArithmeticOverflow);
                };
                let first_char = name.chars().next().unwrap();
                let _ = first_char;
                Ok(net)
            }
        "#;
    let findings = run_solana_checked_arithmetic_unwrap(source);
    assert!(
        findings.is_empty(),
        "Should not flag an if-let-handled checked op with an unrelated unwrap nearby"
    );
}

#[test]
fn test_no_finding_unwrap_in_string_literal() {
    let source = r#"
            use solana_program::account_info::AccountInfo;
            fn add(a: u64, b: u64) -> u64 {
                let total = match a.checked_add(b) {
                    Some(v) => v,
                    None => {
                        msg!("overflow: refusing to .unwrap() blindly");
                        return 0;
                    }
                };
                total
            }
        "#;
    let findings = run_solana_checked_arithmetic_unwrap(source);
    assert!(
        findings.is_empty(),
        "Should not flag \".unwrap()\" text inside a string literal"
    );
}

#[test]
fn test_detects_state_after_cpi() {
    let source = r#"
            fn process(accounts: &[AccountInfo]) -> ProgramResult {
                invoke(&ix, &accounts)?;
                let mut data = account.try_borrow_mut_data()?;
                data[0] = 1;
                Ok(())
            }
        "#;
    let findings = run_solana_cpi_reentrancy(source);
    assert!(
        !findings.is_empty(),
        "Should detect state mutation after CPI"
    );
}

#[test]
fn test_no_finding_state_before_cpi() {
    let source = r#"
            fn process(accounts: &[AccountInfo]) -> ProgramResult {
                let mut data = account.try_borrow_mut_data()?;
                data[0] = 1;
                invoke(&ix, &accounts)?;
                Ok(())
            }
        "#;
    let findings = run_solana_cpi_reentrancy(source);
    assert!(
        findings.is_empty(),
        "Should not flag state mutation before CPI"
    );
}

#[test]
fn test_detects_serialize_after_cpi() {
    let source = r#"
            fn process(accounts: &[AccountInfo]) -> ProgramResult {
                invoke(&ix, &accounts)?;
                state.serialize(&mut &mut account.data.borrow_mut()[..])?;
                Ok(())
            }
        "#;
    let findings = run_solana_cpi_reentrancy(source);
    assert!(
        !findings.is_empty(),
        "Should detect serialize write after CPI"
    );
}

#[test]
fn test_detects_mutation_after_anchor_cpi() {
    let source = r#"
            fn withdraw(ctx: Context<Withdraw>, amount: u64) -> Result<()> {
                let cpi_ctx = CpiContext::new(token_program, transfer_accounts);
                token::transfer(cpi_ctx, amount)?;
                let mut data = vault_info.try_borrow_mut_data()?;
                data[0] = 9;
                Ok(())
            }
        "#;
    let findings = run_solana_cpi_reentrancy(source);
    assert!(
        !findings.is_empty(),
        "Should detect mutation after the CpiContext is consumed by transfer"
    );
}

#[test]
fn test_no_finding_read_only_after_cpi() {
    let source = r#"
            fn read_only_after_cpi(accounts: &[AccountInfo]) -> ProgramResult {
                invoke(&ix, accounts)?;
                let data = account.try_borrow_data()?;
                if data[0] == 0 {
                    return Err(ProgramError::InvalidAccountData);
                }
                let state = TokenAccount::deserialize(&mut &vault.data.borrow()[..])?;
                Ok(())
            }
        "#;
    let findings = run_solana_cpi_reentrancy(source);
    assert!(
        findings.is_empty(),
        "Reads/deserialize/comparisons after CPI are not CEI violations"
    );
}

#[test]
fn test_no_finding_effects_before_real_cpi() {
    let source = r#"
            fn cei_compliant_withdraw(ctx: Context<Withdraw>, amount: u64) -> Result<()> {
                let cpi_ctx = CpiContext::new(token_program, transfer_accounts);
                let mut data = vault_info.try_borrow_mut_data()?;
                data[0] = 0;
                drop(data);
                token::transfer(cpi_ctx, amount)?;
                Ok(())
            }
        "#;
    let findings = run_solana_cpi_reentrancy(source);
    assert!(
        findings.is_empty(),
        "Mutations before the CpiContext is consumed follow CEI and must not be flagged"
    );
}

#[test]
fn test_no_finding_local_refcell_borrow_mut() {
    let source = r#"
            fn local_state_after_cpi(accounts: &[AccountInfo]) -> ProgramResult {
                let counter = std::cell::RefCell::new(0u8);
                invoke(&ix, accounts)?;
                *counter.borrow_mut() += 1;
                Ok(())
            }
        "#;
    let findings = run_solana_cpi_reentrancy(source);
    assert!(
        findings.is_empty(),
        "Mutating a stack-local RefCell is not a persistent-state CEI violation"
    );
}

#[test]
fn test_no_finding_msg_log_after_cpi() {
    let source = r#"
            fn log_after_cpi(accounts: &[AccountInfo]) -> ProgramResult {
                invoke(&ix, accounts)?;
                msg!("data transferred = {}", amount);
                Ok(())
            }
        "#;
    let findings = run_solana_cpi_reentrancy(source);
    assert!(
        findings.is_empty(),
        "A log message whose string mentions data/'=' must not be flagged"
    );
}

#[test]
fn test_detects_duplicate_mutable_no_check() {
    let source = r#"
            use solana_program::account_info::AccountInfo;
            fn transfer(from: &AccountInfo, to: &AccountInfo) {
                let mut from_data = from.try_borrow_mut_data()?;
                let mut to_data = to.try_borrow_mut_data()?;
                from_data[0] -= 1;
                to_data[0] += 1;
            }
        "#;
    let findings = run_solana_duplicate_mutable_accounts(source);
    assert!(
        !findings.is_empty(),
        "Should detect duplicate mutable accounts without key check"
    );
}

#[test]
fn test_no_finding_with_key_check() {
    let source = r#"
            use solana_program::account_info::AccountInfo;
            fn transfer(from: &AccountInfo, to: &AccountInfo) {
                assert_ne!(from.key, to.key);
                let mut from_data = from.try_borrow_mut_data()?;
                let mut to_data = to.try_borrow_mut_data()?;
            }
        "#;
    let findings = run_solana_duplicate_mutable_accounts(source);
    assert!(
        findings.is_empty(),
        "Should not flag with key uniqueness assertion"
    );
}

#[test]
fn test_no_finding_single_account() {
    let source = r#"
            use solana_program::account_info::AccountInfo;
            fn update(account: &AccountInfo) {
                let mut data = account.try_borrow_mut_data()?;
                data[0] = 1;
            }
        "#;
    let findings = run_solana_duplicate_mutable_accounts(source);
    assert!(
        findings.is_empty(),
        "Should not flag single AccountInfo param"
    );
}

#[test]
fn duplicate_mutable_accounts_test_skips_anchor_context() {
    let source = r#"
            use anchor_lang::prelude::*;
            fn transfer(ctx: Context<Transfer>, from: &AccountInfo, to: &AccountInfo) {
                let mut from_data = from.try_borrow_mut_data()?;
                let mut to_data = to.try_borrow_mut_data()?;
            }
        "#;
    let findings = run_solana_duplicate_mutable_accounts(source);
    assert!(findings.is_empty(), "Should skip Anchor Context patterns");
}

#[test]
fn test_no_finding_equality_guard_early_return() {
    let source = r#"
            use solana_program::account_info::AccountInfo;
            use solana_program::program_error::ProgramError;
            use solana_program::entrypoint::ProgramResult;

            fn transfer(from: &AccountInfo, to: &AccountInfo) -> ProgramResult {
                if from.key == to.key {
                    return Err(ProgramError::InvalidArgument);
                }
                let mut from_data = from.try_borrow_mut_data()?;
                let mut to_data = to.try_borrow_mut_data()?;
                from_data[0] -= 1;
                to_data[0] += 1;
                Ok(())
            }
        "#;
    let findings = run_solana_duplicate_mutable_accounts(source);
    assert!(
        findings.is_empty(),
        "Equality guard with early Err return should be recognized as a key check"
    );
}

#[test]
fn test_no_finding_single_mutated_param() {
    let source = r#"
            use solana_program::account_info::AccountInfo;
            use solana_program::program_error::ProgramError;
            use solana_program::entrypoint::ProgramResult;

            fn set_config_value(config: &AccountInfo, authority: &AccountInfo, value: u8) -> ProgramResult {
                if !authority.is_signer {
                    return Err(ProgramError::MissingRequiredSignature);
                }
                let mut data = config.try_borrow_mut_data()?;
                data[0] = value;
                Ok(())
            }
        "#;
    let findings = run_solana_duplicate_mutable_accounts(source);
    assert!(
        findings.is_empty(),
        "Only one account is mutated; no aliased-write hazard"
    );
}

#[test]
fn test_no_finding_key_check_in_helper() {
    let source = r#"
            use solana_program::account_info::AccountInfo;
            use solana_program::program_error::ProgramError;
            use solana_program::entrypoint::ProgramResult;

            fn assert_distinct(a: &AccountInfo, b: &AccountInfo) -> ProgramResult {
                assert_ne!(a.key, b.key);
                Ok(())
            }

            fn transfer(from: &AccountInfo, to: &AccountInfo) -> ProgramResult {
                assert_distinct(from, to)?;
                let mut from_data = from.try_borrow_mut_data()?;
                let mut to_data = to.try_borrow_mut_data()?;
                from_data[0] -= 1;
                to_data[0] += 1;
                Ok(())
            }
        "#;
    let findings = run_solana_duplicate_mutable_accounts(source);
    assert!(
        findings.is_empty(),
        "Key check delegated to a resolvable helper should suppress the finding"
    );
}

#[test]
fn test_helper_without_check_still_fires() {
    let source = r#"
            use solana_program::account_info::AccountInfo;
            use solana_program::entrypoint::ProgramResult;

            fn log_it(a: &AccountInfo, b: &AccountInfo) -> ProgramResult {
                Ok(())
            }

            fn transfer(from: &AccountInfo, to: &AccountInfo) -> ProgramResult {
                log_it(from, to)?;
                let mut from_data = from.try_borrow_mut_data()?;
                let mut to_data = to.try_borrow_mut_data()?;
                from_data[0] -= 1;
                to_data[0] += 1;
                Ok(())
            }
        "#;
    let findings = run_solana_duplicate_mutable_accounts(source);
    assert!(
        !findings.is_empty(),
        "A helper without a key check must not suppress the finding"
    );
}

#[test]
fn test_no_finding_require_neq() {
    let source = r#"
            use anchor_lang::prelude::*;

            fn settle_pair(a: &AccountInfo, b: &AccountInfo) -> Result<()> {
                require_neq!(a.key(), b.key(), ErrorCode::DuplicateAccount);
                let mut da = a.try_borrow_mut_data()?;
                let mut db = b.try_borrow_mut_data()?;
                da[0] = 1;
                db[0] = 2;
                Ok(())
            }
        "#;
    let findings = run_solana_duplicate_mutable_accounts(source);
    assert!(
        findings.is_empty(),
        "require_neq! should be recognized as a key uniqueness check"
    );
}

#[test]
fn test_no_finding_borrow_mut_on_non_account() {
    let source = r#"
            use solana_program::account_info::AccountInfo;
            use std::cell::RefCell;

            fn record_pair(a: &AccountInfo, b: &AccountInfo, log: &RefCell<Vec<u8>>) {
                let mut buf = log.borrow_mut();
                buf.extend_from_slice(a.key.as_ref());
                buf.extend_from_slice(b.key.as_ref());
            }
        "#;
    let findings = run_solana_duplicate_mutable_accounts(source);
    assert!(
        findings.is_empty(),
        "borrow_mut on an unrelated RefCell must not count as account mutation"
    );
}

#[test]
fn test_detects_lamports_mutation_no_check() {
    let source = r#"
            use solana_program::account_info::AccountInfo;
            use solana_program::entrypoint::ProgramResult;

            fn move_lamports(from: &AccountInfo, to: &AccountInfo, amount: u64) -> ProgramResult {
                **from.lamports.borrow_mut() -= amount;
                **to.lamports.borrow_mut() += amount;
                Ok(())
            }
        "#;
    let findings = run_solana_duplicate_mutable_accounts(source);
    assert!(
        !findings.is_empty(),
        "Two accounts mutated via lamports with no key check should fire"
    );
}

#[test]
fn test_detects_init_if_needed_without_guard() {
    let source = r#"
            fn initialize_user(ctx: Context<InitUser>) {
                // #[account(init_if_needed, payer = user, space = 8 + UserData::LEN)]
                let user_data = &mut ctx.accounts.user_data;
                user_data.init_if_needed;
                user_data.authority = ctx.accounts.user.key();
                user_data.balance = 0;
            }
        "#;
    let findings = run_solana_init_if_needed(source);
    assert!(
        !findings.is_empty(),
        "Should detect init_if_needed without guard"
    );
    assert_eq!(findings[0].detector_id, "SOL-014");
}

#[test]
fn test_no_finding_with_is_initialized_check() {
    let source = r#"
            fn initialize_user(ctx: Context<InitUser>) {
                // #[account(init_if_needed, payer = user, space = 8 + UserData::LEN)]
                let user_data = &mut ctx.accounts.user_data;
                user_data.init_if_needed;
                if user_data.is_initialized {
                    return Err(ErrorCode::AlreadyInitialized.into());
                }
                user_data.authority = ctx.accounts.user.key();
            }
        "#;
    let findings = run_solana_init_if_needed(source);
    assert!(
        findings.is_empty(),
        "Should not flag when is_initialized check present"
    );
}

#[test]
fn test_no_finding_with_token_account() {
    let source = r#"
            fn initialize_ata(ctx: Context<InitAta>) {
                // TokenAccount is safe - token program manages state
                let ata: Account<TokenAccount> = ctx.accounts.init_if_needed;
                let balance = ata.amount;
            }
        "#;
    let findings = run_solana_init_if_needed(source);
    assert!(
        findings.is_empty(),
        "Should not flag TokenAccount with init_if_needed"
    );
}

#[test]
fn test_no_finding_doc_comment_mentions_init_if_needed() {
    let source = r#"
            /// The profile account uses init_if_needed in CreateProfile;
            /// reinit is prevented there by `has_one = authority`.
            pub fn create_profile(ctx: Context<CreateProfile>) -> Result<()> {
                let p = &mut ctx.accounts.profile;
                p.authority = ctx.accounts.user.key();
                Ok(())
            }

            #[derive(Accounts)]
            pub struct CreateProfile<'info> {
                #[account(init_if_needed, payer = user, space = 8 + Profile::LEN, has_one = authority)]
                pub profile: Account<'info, Profile>,
                #[account(mut)]
                pub user: Signer<'info>,
                pub authority: Signer<'info>,
                pub system_program: Program<'info, System>,
            }
        "#;
    let findings = run_solana_init_if_needed(source);
    assert!(
        findings.is_empty(),
        "Should not flag when init_if_needed only appears in a doc comment"
    );
}

#[test]
fn test_no_finding_identifier_substring() {
    let source = r#"
            use anchor_lang::prelude::*;

            pub fn set_config(ctx: Context<SetConfig>, allow_init_if_needed: bool) -> Result<()> {
                ctx.accounts.config.allow_init_if_needed = allow_init_if_needed;
                Ok(())
            }
        "#;
    let findings = run_solana_init_if_needed(source);
    assert!(
        findings.is_empty(),
        "Should not flag identifiers that merely contain init_if_needed as a substring"
    );
}

#[test]
fn test_no_finding_string_literal_only() {
    let source = r#"
            use anchor_lang::prelude::*;

            pub fn migrate(ctx: Context<Migrate>) -> Result<()> {
                msg!("account created via plain init, not init_if_needed");
                ctx.accounts.registry.version = 2;
                Ok(())
            }
        "#;
    let findings = run_solana_init_if_needed(source);
    assert!(
        findings.is_empty(),
        "Should not flag init_if_needed occurring only inside a string literal"
    );
}

#[test]
fn test_no_finding_pubkey_default_guard() {
    let source = r#"
            use anchor_lang::prelude::*;

            pub fn create_pool(ctx: Context<CreatePool>) -> Result<()> {
                let pool = &mut ctx.accounts.pool;
                pool.init_if_needed;
                require!(pool.authority == Pubkey::default(), ErrorCode::PoolExists);
                pool.authority = ctx.accounts.payer.key();
                Ok(())
            }
        "#;
    let findings = run_solana_init_if_needed(source);
    assert!(
        findings.is_empty(),
        "Should not flag when a Pubkey::default() reinit guard is present"
    );
}

#[test]
fn init_if_needed_test_no_finding_cfg_test_module() {
    let source = r#"
            use anchor_lang::prelude::*;

            #[cfg(test)]
            mod tests {
                async fn setup_fixture() {
                    let fixture = build();
                    let _ = fixture.init_if_needed;
                }

                #[tokio::test]
                async fn creates_account_when_needed() {
                    let pt = setup_fixture().await;
                    let _ = pt.init_if_needed;
                }
            }
        "#;
    let findings = run_solana_init_if_needed(source);
    assert!(
        findings.is_empty(),
        "Should not flag init_if_needed inside a #[cfg(test)] module"
    );
}

#[test]
fn test_detects_insecure_close() {
    let source = r#"
            fn close_account(account: &AccountInfo, dest: &AccountInfo) {
                let dest_lamports = dest.lamports();
                **dest.lamports.borrow_mut() = dest_lamports + account.lamports();
                **account.lamports.borrow_mut() = 0;
            }
        "#;
    let findings = run_solana_insecure_account_close(source);
    assert!(!findings.is_empty(), "Should detect insecure account close");
}

#[test]
fn test_no_finding_with_data_zero() {
    let source = r#"
            fn close_account(account: &AccountInfo, dest: &AccountInfo) {
                **dest.lamports.borrow_mut() += account.lamports();
                **account.lamports.borrow_mut() = 0;
                account.data.borrow_mut().fill(0);
            }
        "#;
    let findings = run_solana_insecure_account_close(source);
    assert!(findings.is_empty(), "Should not flag when data is zeroed");
}

#[test]
fn test_no_finding_plain_transfer() {
    let source = r#"
            use solana_program::account_info::AccountInfo;
            use solana_program::entrypoint::ProgramResult;

            fn withdraw(vault: &AccountInfo, user: &AccountInfo, amount: u64) -> ProgramResult {
                **vault.try_borrow_mut_lamports()? -= amount;
                **user.try_borrow_mut_lamports()? += amount;
                Ok(())
            }
        "#;
    let findings = run_solana_insecure_account_close(source);
    assert!(
        findings.is_empty(),
        "Plain lamport transfer must not be flagged as an account close"
    );
}

#[test]
fn test_no_finding_readonly_balance_check() {
    let source = r#"
            use solana_program::account_info::AccountInfo;
            use solana_program::entrypoint::ProgramResult;
            use solana_program::program_error::ProgramError;

            fn assert_funded(account: &AccountInfo) -> ProgramResult {
                if account.lamports() == 0 {
                    return Err(ProgramError::InsufficientFunds);
                }
                Ok(())
            }
        "#;
    let findings = run_solana_insecure_account_close(source);
    assert!(
        findings.is_empty(),
        "Read-only balance check must not be treated as lamport zeroing"
    );
}

#[test]
fn test_no_finding_unrelated_zero_local() {
    let source = r#"
            use solana_program::account_info::AccountInfo;

            fn tally(account: &AccountInfo) -> u64 {
                let mut total = 0;
                total += account.lamports();
                total
            }
        "#;
    let findings = run_solana_insecure_account_close(source);
    assert!(
        findings.is_empty(),
        "Zero-initialized local plus lamports read must not be flagged"
    );
}

#[test]
fn test_no_finding_modern_close_pattern() {
    let source = r#"
            use solana_program::account_info::AccountInfo;
            use solana_program::entrypoint::ProgramResult;
            use solana_program::system_program;

            fn close(account: &AccountInfo, dest: &AccountInfo) -> ProgramResult {
                **dest.try_borrow_mut_lamports()? += account.lamports();
                **account.try_borrow_mut_lamports()? = 0;
                account.assign(&system_program::ID);
                account.realloc(0, false)?;
                Ok(())
            }
        "#;
    let findings = run_solana_insecure_account_close(source);
    assert!(
        findings.is_empty(),
        "Modern assign+realloc(0) close pattern must not be flagged"
    );
}

#[test]
fn test_no_finding_fill_typed_literal() {
    let source = r#"
            use solana_program::account_info::AccountInfo;
            use solana_program::entrypoint::ProgramResult;

            fn close_account(account: &AccountInfo, dest: &AccountInfo) -> ProgramResult {
                **dest.try_borrow_mut_lamports()? += account.lamports();
                **account.try_borrow_mut_lamports()? = 0;
                account.try_borrow_mut_data()?.fill(0u8);
                Ok(())
            }
        "#;
    let findings = run_solana_insecure_account_close(source);
    assert!(
        findings.is_empty(),
        "fill(0u8) data zeroing must be recognized as a mitigation"
    );
}

#[test]
fn test_no_finding_iter_mut_zeroing() {
    let source = r#"
            use solana_program::account_info::AccountInfo;
            use solana_program::entrypoint::ProgramResult;

            fn close_account(account: &AccountInfo, dest: &AccountInfo) -> ProgramResult {
                **dest.try_borrow_mut_lamports()? += account.lamports();
                **account.try_borrow_mut_lamports()? = 0;
                let mut data = account.try_borrow_mut_data()?;
                for b in data.iter_mut() {
                    *b = 0;
                }
                Ok(())
            }
        "#;
    let findings = run_solana_insecure_account_close(source);
    assert!(
        findings.is_empty(),
        "iter_mut zeroing of account data must be recognized as a mitigation"
    );
}

#[test]
fn test_no_finding_copy_from_slice_zeroing() {
    let source = r#"
            use solana_program::account_info::AccountInfo;
            use solana_program::entrypoint::ProgramResult;

            fn close_account(account: &AccountInfo, dest: &AccountInfo) -> ProgramResult {
                **dest.try_borrow_mut_lamports()? += account.lamports();
                **account.try_borrow_mut_lamports()? = 0;
                let zeros = [0u8; 128];
                let mut data = account.try_borrow_mut_data()?;
                data.copy_from_slice(&zeros);
                Ok(())
            }
        "#;
    let findings = run_solana_insecure_account_close(source);
    assert!(
        findings.is_empty(),
        "copy_from_slice zeroing of account data must be recognized as a mitigation"
    );
}

#[test]
fn insecure_account_close_test_no_finding_in_cfg_test_module() {
    let source = r#"
            use solana_program::account_info::AccountInfo;

            #[cfg(test)]
            mod tests {
                use super::*;

                fn drain_for_test(account: &AccountInfo) {
                    **account.lamports.borrow_mut() = 0;
                }
            }
        "#;
    let findings = run_solana_insecure_account_close(source);
    assert!(
        findings.is_empty(),
        "Helpers inside #[cfg(test)] modules must not be flagged"
    );
}

#[test]
fn test_no_finding_test_function() {
    let source = r#"
            use solana_program::account_info::AccountInfo;

            #[test]
            fn drain_for_test() {
                let account: &AccountInfo = todo!();
                **account.lamports.borrow_mut() = 0;
            }
        "#;
    let findings = run_solana_insecure_account_close(source);
    assert!(findings.is_empty(), "#[test] functions must not be flagged");
}

#[test]
fn test_detects_unchecked_arithmetic() {
    let source = r#"
            fn transfer(amount: u64, fee: u64) -> u64 {
                let total = amount + fee;
                total
            }
        "#;
    let findings = run_solana_integer_overflow(source);
    assert!(!findings.is_empty(), "Should detect unchecked arithmetic");
}

#[test]
fn test_no_finding_for_string_concat() {
    let source = r#"
            fn build_name(prefix: String, suffix: &str) -> String {
                let result = prefix.to_owned() + suffix;
                result
            }
        "#;
    let findings = run_solana_integer_overflow(source);
    assert!(findings.is_empty(), "Should not flag string concatenation");
}

#[test]
fn test_no_finding_literal_add() {
    let source = r#"
            fn next_slot(slot: u64) -> u64 {
                let next = slot + 1;
                next
            }
        "#;
    let findings = run_solana_integer_overflow(source);
    assert!(
        findings.is_empty(),
        "Should not flag adding a literal constant"
    );
}

#[test]
fn test_no_finding_for_literals() {
    let source = r#"
            fn constants() -> u64 {
                let x = 1 + 2;
                x
            }
        "#;
    let findings = run_solana_integer_overflow(source);
    assert!(findings.is_empty(), "Should not flag literal arithmetic");
}

#[test]
fn test_no_finding_widening_cast() {
    let source = r#"
            fn safe_multiply(a: u64, b: u64) -> u128 {
                let result = (a as u128) * (b as u128);
                result
            }
        "#;
    let findings = run_solana_integer_overflow(source);
    assert!(
        findings.is_empty(),
        "Should not flag widening cast multiplication"
    );
}

#[test]
fn test_no_finding_pack_fn() {
    let source = r#"
            fn pack_into_slice(&self, dst: &mut [u8]) {
                let offset = start + size;
                dst[offset] = self.value;
            }
        "#;
    let findings = run_solana_integer_overflow(source);
    assert!(
        findings.is_empty(),
        "Should not flag pack/serialization functions"
    );
}

#[test]
fn test_no_finding_fee_calculator() {
    let source = r#"
            fn calculate_fee(amount: u64, fee_bps: u64) -> u64 {
                let fee = amount * fee_bps / BPS_DENOMINATOR;
                fee
            }
        "#;
    let findings = run_solana_integer_overflow(source);
    assert!(
        findings.is_empty(),
        "Should not flag fee/swap calculator functions"
    );
}

#[test]
fn test_no_finding_with_assert_guard() {
    let source = r#"
            fn withdraw(balance: u64, amount: u64) -> u64 {
                assert!(amount <= balance);
                let remaining = balance - amount;
                remaining
            }
        "#;
    let findings = run_solana_integer_overflow(source);
    assert!(
        findings.is_empty(),
        "Should not flag arithmetic guarded by assert"
    );
}

#[test]
fn test_division_low_confidence() {
    let source = r#"
            fn split_reward(amount: u64, total: u64) -> u64 {
                let share = amount / total;
                share
            }
        "#;
    let findings = run_solana_integer_overflow(source);
    assert!(!findings.is_empty(), "Should still detect division");
    assert_eq!(
        findings[0].confidence,
        Confidence::Low,
        "Division should have Low confidence"
    );
}

#[test]
fn test_no_finding_if_comparison_early_return_guard() {
    let source = r#"
            use solana_program::program_error::ProgramError;

            pub fn withdraw(balance: u64, amount: u64) -> Result<u64, ProgramError> {
                if amount > balance {
                    return Err(ProgramError::InsufficientFunds);
                }
                Ok(balance - amount)
            }
        "#;
    let findings = run_solana_integer_overflow(source);
    assert!(
        findings.is_empty(),
        "Should not flag subtraction guarded by an if/return-Err comparison"
    );
}

#[test]
fn test_still_fires_without_guard() {
    let source = r#"
            use solana_program::program_error::ProgramError;

            pub fn withdraw(balance: u64, amount: u64) -> Result<u64, ProgramError> {
                Ok(balance - amount)
            }
        "#;
    let findings = run_solana_integer_overflow(source);
    assert!(
        !findings.is_empty(),
        "Unguarded subtraction must still be flagged"
    );
}

#[test]
fn test_no_finding_delegated_validation_helper() {
    let source = r#"
            use solana_program::program_error::ProgramError;

            fn check_withdraw(balance: u64, amount: u64) -> Result<(), ProgramError> {
                require!(amount <= balance, ProgramError::InsufficientFunds);
                Ok(())
            }

            pub fn withdraw(balance: u64, amount: u64) -> Result<u64, ProgramError> {
                check_withdraw(balance, amount)?;
                Ok(balance - amount)
            }
        "#;
    let findings = run_solana_integer_overflow_with_graph(source);
    assert!(
        findings.is_empty(),
        "Should not flag arithmetic when validation is delegated to a resolvable helper"
    );
}

#[test]
fn test_still_fires_when_helper_does_not_validate() {
    let source = r#"
            use solana_program::program_error::ProgramError;

            fn log_withdraw(balance: u64, amount: u64) -> Result<(), ProgramError> {
                Ok(())
            }

            pub fn withdraw(balance: u64, amount: u64) -> Result<u64, ProgramError> {
                log_withdraw(balance, amount)?;
                Ok(balance - amount)
            }
        "#;
    let findings = run_solana_integer_overflow_with_graph(source);
    assert!(
        !findings.is_empty(),
        "Delegation to a non-validating helper must still be flagged"
    );
}

#[test]
fn integer_overflow_test_no_finding_cfg_test_module_helper() {
    let source = r#"
            #[cfg(test)]
            mod tests {
                fn seed_balances(a: u64, b: u64) -> u64 {
                    a + b
                }

                #[test]
                fn deposits_accumulate() {
                    assert_eq!(seed_balances(1, 2), 3);
                }
            }
        "#;
    let findings = run_solana_integer_overflow(source);
    assert!(
        findings.is_empty(),
        "Should not flag helpers inside #[cfg(test)] modules"
    );
}

#[test]
fn test_no_finding_const_path_arithmetic() {
    let source = r#"
            use solana_program::clock::Clock;

            const SECONDS_PER_DAY: i64 = 86_400;
            const LOCK_DAYS: i64 = 30;

            pub fn lock_duration() -> i64 {
                SECONDS_PER_DAY * LOCK_DAYS
            }
        "#;
    let findings = run_solana_integer_overflow(source);
    assert!(
        findings.is_empty(),
        "Should not flag arithmetic on two compile-time const paths"
    );
}

#[test]
fn test_still_fires_const_times_variable() {
    let source = r#"
            const SCALE: u64 = 1_000_000;

            pub fn apply_scale(n: u64) -> u64 {
                SCALE * n
            }
        "#;
    let findings = run_solana_integer_overflow(source);
    assert!(
        !findings.is_empty(),
        "const * runtime variable can overflow and must still be flagged"
    );
}

#[test]
fn test_no_finding_float_arithmetic() {
    let source = r#"
            // off-chain client util in the same crate
            pub fn ui_token_value(ui_amount: f64, usd_quote: f64) -> f64 {
                ui_amount * usd_quote
            }
        "#;
    let findings = run_solana_integer_overflow(source);
    assert!(
        findings.is_empty(),
        "Should not flag floating-point arithmetic"
    );
}

#[test]
fn test_still_fires_integer_arith_alongside_float_param() {
    let source = r#"
            pub fn mixed(price: f64, a: u64, b: u64) -> u64 {
                a + b
            }
        "#;
    let findings = run_solana_integer_overflow(source);
    assert!(
        !findings.is_empty(),
        "Integer overflow on u64 operands must still fire even with a float param present"
    );
}

#[test]
fn test_detects_lookup_table_without_authority_check() {
    let source = r#"
            fn build_versioned_tx(lookup_table: AddressLookupTableAccount) {
                let accounts = vec![lookup_table];
                let msg = MessageV0::try_compile(
                    &payer.pubkey(),
                    &instructions,
                    &accounts,
                    recent_blockhash,
                )?;
                let tx = VersionedTransaction::try_new(msg, &[&payer])?;
            }
        "#;
    let findings = run_solana_lookup_table(source);
    assert!(
        !findings.is_empty(),
        "Should detect lookup table usage without authority check"
    );
    assert_eq!(findings[0].detector_id, "SOL-015");
}

#[test]
fn test_no_finding_with_authority_check() {
    let source = r#"
            fn build_versioned_tx(lookup_table: AddressLookupTableAccount) {
                if lookup_table.meta.authority != Some(expected_authority) {
                    return Err(Error::InvalidAuthority);
                }
                let accounts = vec![lookup_table];
                let msg = MessageV0::try_compile(
                    &payer.pubkey(),
                    &instructions,
                    &accounts,
                    recent_blockhash,
                )?;
                let tx = VersionedTransaction::try_new(msg, &[&payer])?;
            }
        "#;
    let findings = run_solana_lookup_table(source);
    assert!(
        findings.is_empty(),
        "Should not flag when authority check is present"
    );
}

#[test]
fn test_no_finding_offchain_client_const_key_lut() {
    let source = r#"
            const OUR_LUT: Pubkey = SOME_TABLE;

            async fn send_swap(client: &RpcClient, payer: &Keypair) -> Result<Signature> {
                let raw = client.get_account(&OUR_LUT).await?;
                let table = AddressLookupTable::deserialize(&raw.data)?;
                let lut = AddressLookupTableAccount { key: OUR_LUT, addresses: table.addresses.to_vec() };
                let msg = v0::Message::try_compile(&payer.pubkey(), &instructions, &[lut], blockhash)?;
                let tx = VersionedTransaction::try_new(msg, &[payer])?;
                client.send_transaction(&tx).await
            }
        "#;
    let findings = run_solana_lookup_table(source);
    assert!(
        findings.is_empty(),
        "Should not flag off-chain client builder using a hardcoded const LUT key"
    );
}

#[test]
fn lookup_table_test_no_finding_cfg_test_module_helper() {
    let source = r#"
            #[cfg(test)]
            mod tests {
                fn make_v0_tx_fixture(lut: AddressLookupTableAccount) -> VersionedTransaction {
                    let msg = MessageV0::try_compile(&payer.pubkey(), &ixs, &[lut], blockhash).unwrap();
                    VersionedTransaction::try_new(msg, &[&payer]).unwrap()
                }

                #[test]
                fn test_swap() {
                    let _tx = make_v0_tx_fixture(dummy_lut());
                }
            }
        "#;
    let findings = run_solana_lookup_table(source);
    assert!(
        findings.is_empty(),
        "Should not flag transaction builders inside #[cfg(test)] modules"
    );
}

#[test]
fn test_no_finding_authority_check_in_called_helper() {
    let source = r#"
            fn assert_lut_trusted(state: &AddressLookupTable) -> Result<()> {
                require!(state.meta.authority == Some(ADMIN), Error::BadAuthority);
                Ok(())
            }

            fn build_tx(key: Pubkey, state: AddressLookupTable) -> Result<VersionedTransaction> {
                assert_lut_trusted(&state)?;
                let lut = AddressLookupTableAccount { key, addresses: state.addresses.to_vec() };
                let msg = MessageV0::try_compile(&payer.pubkey(), &ixs, &[lut], blockhash)?;
                Ok(VersionedTransaction::try_new(msg, &[&payer])?)
            }
        "#;
    let findings = run_solana_lookup_table(source);
    assert!(
        findings.is_empty(),
        "Should not flag when a called helper performs the authority check"
    );
}

#[test]
fn test_still_fires_when_called_helper_has_no_check() {
    let source = r#"
            fn assert_lut_trusted(state: &AddressLookupTable) -> Result<()> {
                log_something(state);
                Ok(())
            }

            fn build_tx(key: Pubkey, state: AddressLookupTable) -> Result<VersionedTransaction> {
                assert_lut_trusted(&state)?;
                let lut = AddressLookupTableAccount { key, addresses: state.addresses.to_vec() };
                let msg = MessageV0::try_compile(&payer.pubkey(), &ixs, &[lut], blockhash)?;
                Ok(VersionedTransaction::try_new(msg, &[&payer])?)
            }
        "#;
    let findings = run_solana_lookup_table(source);
    assert!(
        !findings.is_empty(),
        "Should still fire when the called helper performs no authority check"
    );
}

#[test]
fn test_no_finding_trigger_only_in_doc_and_string() {
    let source = r#"
            /// Compiles a v0 message from addresses extracted from a pre-verified
            /// AddressLookupTableAccount upstream.
            fn compile_from_verified(addresses: &[Pubkey]) -> Result<MessageV0> {
                if addresses.is_empty() {
                    return Err(anyhow!("compile_v0 requires at least one address"));
                }
                MessageV0::try_compile(&payer.pubkey(), &build_ixs(addresses), &[], blockhash)
            }
        "#;
    let findings = run_solana_lookup_table(source);
    assert!(
        findings.is_empty(),
        "Should not flag when trigger patterns appear only in doc comments / string literals"
    );
}

#[test]
fn test_no_finding_destructured_meta_authority_check() {
    let source = r#"
            fn build_tx(key: Pubkey, state: AddressLookupTable) -> Result<VersionedTransaction> {
                let LookupTableMeta { authority, .. } = state.meta;
                if authority != Some(EXPECTED_AUTHORITY) {
                    return Err(Error::InvalidAuthority);
                }
                let lut = AddressLookupTableAccount { key, addresses: state.addresses.to_vec() };
                let msg = MessageV0::try_compile(&payer.pubkey(), &ixs, &[lut], blockhash)?;
                Ok(VersionedTransaction::try_new(msg, &[&payer])?)
            }
        "#;
    let findings = run_solana_lookup_table(source);
    assert!(
        findings.is_empty(),
        "Should not flag when authority is checked via LookupTableMeta destructuring"
    );
}

#[test]
fn test_detects_missing_owner_check() {
    let source = r#"
            fn process(account: &AccountInfo) {
                let data = MyData::deserialize(&mut &account.data.borrow()[..]).unwrap();
                data.amount += 100;
            }
        "#;
    let findings = run_solana_missing_owner(source);
    assert!(!findings.is_empty(), "Should detect missing owner check");
}

#[test]
fn test_no_finding_caller_checks_owner() {
    let source = r#"
            fn process(account: &AccountInfo, program_id: &Pubkey) {
                if account.owner != program_id {
                    return Err(ProgramError::IncorrectProgramId);
                }
                helper(account);
            }

            fn helper(account: &AccountInfo) {
                let data = MyData::deserialize(&mut &account.data.borrow()[..]).unwrap();
            }
        "#;
    let findings = run_solana_missing_owner(source);
    assert!(
        findings.is_empty(),
        "Should not flag when caller checks owner (call graph analysis)"
    );
}

#[test]
fn missing_owner_test_no_finding_with_owner_check() {
    let source = r#"
            fn process(account: &AccountInfo, program_id: &Pubkey) {
                if account.owner != program_id {
                    return Err(ProgramError::IncorrectProgramId);
                }
                let data = MyData::deserialize(&mut &account.data.borrow()[..]).unwrap();
            }
        "#;
    let findings = run_solana_missing_owner(source);
    assert!(findings.is_empty(), "Should not flag with owner check");
}

#[test]
fn test_no_finding_instruction_data_entrypoint() {
    let source = r#"
            use solana_program::account_info::AccountInfo;

            pub fn process_instruction(
                program_id: &Pubkey,
                accounts: &[AccountInfo],
                instruction_data: &[u8],
            ) -> ProgramResult {
                let instruction = MyInstruction::try_from_slice(instruction_data)
                    .map_err(|_| ProgramError::InvalidInstructionData)?;
                match instruction {
                    MyInstruction::Init => msg!("init"),
                }
                Ok(())
            }
        "#;
    let findings = run_solana_missing_owner(source);
    assert!(
        findings.is_empty(),
        "Should not flag deserialization of instruction_data (no account data read)"
    );
}

#[test]
fn test_no_finding_owner_checked_against_constant() {
    let source = r#"
            use solana_program::account_info::AccountInfo;

            pub fn read_token_account(token_account: &AccountInfo) -> ProgramResult {
                if token_account.owner != &spl_token::id() {
                    return Err(ProgramError::IncorrectProgramId);
                }
                let state = spl_token::state::Account::unpack(&token_account.data.borrow())?;
                msg!("amount {}", state.amount);
                Ok(())
            }
        "#;
    let findings = run_solana_missing_owner(source);
    assert!(
        findings.is_empty(),
        "Should not flag when .owner is compared against spl_token::id()"
    );
}

#[test]
fn test_no_finding_owner_check_in_callee() {
    let source = r#"
            use solana_program::account_info::AccountInfo;

            fn assert_owned_by(account: &AccountInfo, expected: &Pubkey) -> ProgramResult {
                if account.owner != expected {
                    return Err(ProgramError::IllegalOwner);
                }
                Ok(())
            }

            pub fn process(account: &AccountInfo, pid: &Pubkey) -> ProgramResult {
                assert_owned_by(account, pid)?;
                let data = MyState::try_from_slice(&account.data.borrow())?;
                msg!("{}", data.value);
                Ok(())
            }
        "#;
    let findings = run_solana_missing_owner(source);
    assert!(
        findings.is_empty(),
        "Should not flag when owner check is delegated to a resolved helper"
    );
}

#[test]
fn missing_owner_test_no_finding_in_cfg_test_module() {
    let source = r#"
            use solana_program::account_info::AccountInfo;

            #[cfg(test)]
            mod tests {
                #[test]
                fn test_state_roundtrip() {
                    let bytes = vec![0u8; 32];
                    let state = MyState::try_from_slice(&bytes).unwrap();
                    assert_eq!(state.value, 0);
                }
            }
        "#;
    let findings = run_solana_missing_owner(source);
    assert!(
        findings.is_empty(),
        "Should not flag deserialization inside #[cfg(test)] code"
    );
}

#[test]
fn test_no_finding_deser_word_in_string_literal() {
    let source = r#"
            use solana_program::account_info::AccountInfo;

            pub fn log_failure(account: &AccountInfo) -> ProgramResult {
                msg!("failed to unpack account data for {}", account.key);
                Ok(())
            }
        "#;
    let findings = run_solana_missing_owner(source);
    assert!(
        findings.is_empty(),
        "Should not flag when 'unpack' appears only in a string literal"
    );
}

#[test]
fn test_detects_missing_rent_check() {
    let source = r#"
            fn initialize(program_id: &Pubkey, accounts: &[AccountInfo]) -> ProgramResult {
                let ix = system_instruction::create_account(
                    payer.key, new_account.key, lamports, space as u64, program_id,
                );
                invoke(&ix, &[payer.clone(), new_account.clone()])?;
                Ok(())
            }
        "#;
    let findings = run_solana_missing_rent_exempt(source);
    assert!(!findings.is_empty(), "Should detect missing rent check");
}

#[test]
fn test_no_finding_with_rent_check() {
    let source = r#"
            fn initialize(program_id: &Pubkey, accounts: &[AccountInfo]) -> ProgramResult {
                let rent = Rent::get()?;
                let lamports = rent.minimum_balance(space);
                let ix = system_instruction::create_account(
                    payer.key, new_account.key, lamports, space as u64, program_id,
                );
                invoke(&ix, &[payer.clone(), new_account.clone()])?;
                Ok(())
            }
        "#;
    let findings = run_solana_missing_rent_exempt(source);
    assert!(findings.is_empty(), "Should not flag with rent check");
}

#[test]
fn test_no_finding_dispatcher_only_names_variant() {
    let source = r#"
            fn process_instruction(
                program_id: &Pubkey,
                accounts: &[AccountInfo],
                data: &[u8],
            ) -> ProgramResult {
                match MyInstruction::unpack(data)? {
                    MyInstruction::CreateAccount { space } => process_create(program_id, accounts, space),
                    MyInstruction::Transfer { amount } => process_transfer(accounts, amount),
                    MyInstruction::Close => process_close(accounts),
                }
            }
        "#;
    let findings = run_solana_missing_rent_exempt(source);
    assert!(
        findings.is_empty(),
        "Dispatcher that only names a CreateAccount variant must not be flagged"
    );
}

#[test]
fn test_no_finding_callee_computes_rent() {
    let source = r#"
            fn allocate_vault(payer: &AccountInfo, vault: &AccountInfo, space: u64) -> ProgramResult {
                let lamports = required_lamports(space)?;
                let ix = system_instruction::create_account(
                    payer.key, vault.key, lamports, space, &crate::ID,
                );
                invoke(&ix, &[payer.clone(), vault.clone()])
            }

            fn required_lamports(space: usize) -> Result<u64, ProgramError> {
                Ok(Rent::get()?.minimum_balance(space))
            }
        "#;
    let findings = run_solana_missing_rent_exempt(source);
    assert!(
        findings.is_empty(),
        "Caller whose callee computes minimum_balance must not be flagged"
    );
}

#[test]
fn test_no_finding_caller_computes_rent() {
    let source = r#"
            fn create_pda_account(
                payer: &AccountInfo,
                new_account: &AccountInfo,
                lamports: u64,
                space: u64,
                owner: &Pubkey,
            ) -> ProgramResult {
                let ix = system_instruction::create_account(
                    payer.key, new_account.key, lamports, space, owner,
                );
                invoke_signed(&ix, &[payer.clone(), new_account.clone()], &[])
            }

            fn open_vault(payer: &AccountInfo, new_account: &AccountInfo, space: u64) -> ProgramResult {
                let lamports = Rent::get()?.minimum_balance(space as usize);
                create_pda_account(payer, new_account, lamports, space, &crate::ID)
            }
        "#;
    let findings = run_solana_missing_rent_exempt(source);
    assert!(
        findings.is_empty(),
        "Helper whose caller threads in minimum_balance must not be flagged"
    );
}

#[test]
fn missing_rent_exempt_test_no_finding_in_cfg_test_module() {
    let source = r#"
            #[cfg(test)]
            mod tests {
                use super::*;

                #[test]
                fn creates_vault_account() {
                    let ix = system_instruction::create_account(
                        &payer.pubkey(), &vault.pubkey(), 1_000_000, 8, &id(),
                    );
                    let result = banks_client_process(ix);
                    assert!(result.is_ok());
                }
            }
        "#;
    let findings = run_solana_missing_rent_exempt(source);
    assert!(
        findings.is_empty(),
        "Account creation in a #[cfg(test)] module must not be flagged"
    );
}

#[test]
fn test_still_fires_when_no_rent_anywhere() {
    let source = r#"
            fn create_pda_account(
                payer: &AccountInfo,
                new_account: &AccountInfo,
                lamports: u64,
                space: u64,
                owner: &Pubkey,
            ) -> ProgramResult {
                let ix = system_instruction::create_account(
                    payer.key, new_account.key, lamports, space, owner,
                );
                invoke_signed(&ix, &[payer.clone(), new_account.clone()], &[])
            }

            fn open_vault(payer: &AccountInfo, new_account: &AccountInfo, space: u64) -> ProgramResult {
                let lamports = 1_000_000u64;
                create_pda_account(payer, new_account, lamports, space, &crate::ID)
            }
        "#;
    let findings = run_solana_missing_rent_exempt(source);
    assert!(
        !findings.is_empty(),
        "Underfunded create with no rent computation must still fire"
    );
}

#[test]
fn test_detects_missing_signer() {
    let source = r#"
            fn withdraw_funds(account: &AccountInfo, recipient: &AccountInfo) {
                let mut data = account.try_borrow_mut_data().unwrap();
                data.serialize(&mut *dest.try_borrow_mut_data().unwrap()).unwrap();
            }
        "#;
    let findings = run_solana_missing_signer(source);
    assert!(!findings.is_empty(), "Should detect missing signer check");
    assert_eq!(findings[0].detector_id, "SOL-001");
}

#[test]
fn test_no_finding_process_subhandler() {
    let source = r#"
            fn process_transfer(account: &AccountInfo, dest: &AccountInfo) {
                let mut data = account.try_borrow_mut_data().unwrap();
                data.serialize(&mut *dest.try_borrow_mut_data().unwrap()).unwrap();
            }
        "#;
    let findings = run_solana_missing_signer(source);
    assert!(
        findings.is_empty(),
        "Should not flag process_* sub-handler functions"
    );
}

#[test]
fn test_no_finding_with_signer_check() {
    let source = r#"
            fn withdraw_funds(account: &AccountInfo, dest: &AccountInfo) {
                if !account.is_signer {
                    return Err(ProgramError::MissingRequiredSignature);
                }
                let mut data = account.try_borrow_mut_data().unwrap();
                data.serialize(&mut *dest.try_borrow_mut_data().unwrap()).unwrap();
            }
        "#;
    let findings = run_solana_missing_signer(source);
    assert!(
        findings.is_empty(),
        "Should not flag when is_signer is checked"
    );
}

#[test]
fn test_no_finding_account_info_slice() {
    let source = r#"
            fn process_instruction(program_id: &Pubkey, accounts: &[AccountInfo], data: &[u8]) -> ProgramResult {
                let account_iter = &mut accounts.iter();
                let src = next_account_info(account_iter)?;
                invoke(&ix, accounts)?;
                Ok(())
            }
        "#;
    let findings = run_solana_missing_signer(source);
    assert!(
        findings.is_empty(),
        "Should not flag &[AccountInfo] slice parameter"
    );
}

#[test]
fn test_no_finding_anchor_signer() {
    let source = r#"
            fn process_transfer(ctx: Context<Transfer>) {
                let data = ctx.accounts.from.try_borrow_mut_data().unwrap();
            }
        "#;
    let findings = run_solana_missing_signer(source);
    assert!(
        findings.is_empty(),
        "Should not flag Anchor Context pattern"
    );
}

#[test]
fn test_no_finding_internal_helper() {
    let source = r#"
            fn _transfer_tokens(account: &AccountInfo, dest: &AccountInfo) {
                let mut data = account.try_borrow_mut_data().unwrap();
                data.serialize(&mut *dest.try_borrow_mut_data().unwrap()).unwrap();
            }
        "#;
    let findings = run_solana_missing_signer(source);
    assert!(
        findings.is_empty(),
        "Should not flag internal helper functions (prefixed with _)"
    );
}

#[test]
fn test_no_finding_caller_checks_signer() {
    let source = r#"
            fn process_instruction(account: &AccountInfo, recipient: &AccountInfo) {
                if !account.is_signer {
                    return Err(ProgramError::MissingRequiredSignature);
                }
                withdraw_funds(account, recipient);
            }

            fn withdraw_funds(account: &AccountInfo, recipient: &AccountInfo) {
                let mut data = account.try_borrow_mut_data().unwrap();
                data.serialize(&mut *recipient.try_borrow_mut_data().unwrap()).unwrap();
            }
        "#;
    let findings = run_solana_missing_signer(source);
    assert!(
        findings.is_empty(),
        "Should not flag when caller checks signer (call graph analysis)"
    );
}

#[test]
fn test_no_finding_utility_function() {
    let source = r#"
            fn validate_account(account: &AccountInfo) {
                let data = account.try_borrow_mut_data().unwrap();
                data.serialize(&mut buf).unwrap();
            }
        "#;
    let findings = run_solana_missing_signer(source);
    assert!(
        findings.is_empty(),
        "Should not flag validate/verify/check utility functions"
    );
}

#[test]
fn test_no_finding_assert_signer_helper() {
    let source = r#"
            pub fn withdraw(authority: &AccountInfo, escrow_wallet: &AccountInfo, amount: u64) -> ProgramResult {
                assert_signer(authority)?;
                **escrow_wallet.try_borrow_mut_lamports()? -= amount;
                **authority.try_borrow_mut_lamports()? += amount;
                Ok(())
            }
        "#;
    let findings = run_solana_missing_signer(source);
    assert!(
        findings.is_empty(),
        "Should not flag when a signer-assertion helper (assert_signer) is called"
    );
}

#[test]
fn test_no_finding_signer_check_delegated_to_local_helper() {
    let source = r#"
            pub fn withdraw(authority: &AccountInfo, escrow: &AccountInfo, amount: u64) -> ProgramResult {
                validate_authority(authority)?;
                **escrow.try_borrow_mut_lamports()? -= amount;
                Ok(())
            }

            fn validate_authority(authority: &AccountInfo) -> ProgramResult {
                if !authority.is_signer {
                    return Err(ProgramError::MissingRequiredSignature);
                }
                Ok(())
            }
        "#;
    let findings = run_solana_missing_signer(source);
    assert!(
        findings.is_empty(),
        "Should not flag when a resolved local helper performs the is_signer check"
    );
}

#[test]
fn test_no_finding_readonly_deserialize_getter() {
    let source = r#"
            pub fn get_balance(owner: &AccountInfo) -> Result<u64, ProgramError> {
                let state = TokenState::deserialize(&mut &owner.data.borrow()[..])?;
                Ok(state.balance)
            }
        "#;
    let findings = run_solana_missing_signer(source);
    assert!(
        findings.is_empty(),
        "Should not flag a pure read that only deserializes account data"
    );
}

#[test]
fn test_no_finding_signer_key_check() {
    let source = r#"
            pub fn withdraw(authority: &AccountInfo, escrow: &AccountInfo, amount: u64) -> ProgramResult {
                let _key = authority
                    .signer_key()
                    .ok_or(ProgramError::MissingRequiredSignature)?;
                **escrow.try_borrow_mut_lamports()? -= amount;
                **authority.try_borrow_mut_lamports()? += amount;
                Ok(())
            }
        "#;
    let findings = run_solana_missing_signer(source);
    assert!(
        findings.is_empty(),
        "Should not flag when the signer is enforced via signer_key()"
    );
}

#[test]
fn test_no_finding_impl_block_caller_checks_signer() {
    let source = r#"
            pub struct Processor;
            impl Processor {
                pub fn process(accounts: &[AccountInfo], amount: u64) -> ProgramResult {
                    let authority = &accounts[0];
                    if !authority.is_signer {
                        return Err(ProgramError::MissingRequiredSignature);
                    }
                    withdraw(authority, &accounts[1], amount)
                }
            }

            fn withdraw(authority: &AccountInfo, escrow: &AccountInfo, amount: u64) -> ProgramResult {
                **escrow.try_borrow_mut_lamports()? -= amount;
                Ok(())
            }
        "#;
    let findings = run_solana_missing_signer(source);
    assert!(
        findings.is_empty(),
        "Should not flag when an impl-block caller checks signer before dispatch"
    );
}

#[test]
fn test_still_flags_signer_named_helper_that_only_checks_seeds() {
    let source = r#"
            pub fn withdraw_all(authority: &AccountInfo, escrow: &AccountInfo, program_id: &Pubkey, bump: u8, amount: u64) -> ProgramResult {
                validate_signer_seeds(escrow, program_id, bump)?;
                **escrow.try_borrow_mut_lamports()? -= amount;
                **authority.try_borrow_mut_lamports()? += amount;
                Ok(())
            }

            fn validate_signer_seeds(escrow: &AccountInfo, program_id: &Pubkey, bump: u8) -> ProgramResult {
                let expected = Pubkey::create_program_address(&[b"escrow", &[bump]], program_id)
                    .map_err(|_| ProgramError::InvalidSeeds)?;
                if expected != *escrow.key {
                    return Err(ProgramError::InvalidSeeds);
                }
                Ok(())
            }
        "#;
    let findings = run_solana_missing_signer(source);
    assert!(
        !findings.is_empty(),
        "Must flag: `validate_signer_seeds` checks PDA seeds, not is_signer"
    );
    assert_eq!(findings[0].detector_id, "SOL-001");
}

#[test]
fn test_still_flags_pda_seeds_helper_control() {
    let source = r#"
            pub fn withdraw_all(authority: &AccountInfo, escrow: &AccountInfo, program_id: &Pubkey, bump: u8, amount: u64) -> ProgramResult {
                validate_pda_seeds(escrow, program_id, bump)?;
                **escrow.try_borrow_mut_lamports()? -= amount;
                **authority.try_borrow_mut_lamports()? += amount;
                Ok(())
            }

            fn validate_pda_seeds(escrow: &AccountInfo, program_id: &Pubkey, bump: u8) -> ProgramResult {
                let expected = Pubkey::create_program_address(&[b"escrow", &[bump]], program_id)
                    .map_err(|_| ProgramError::InvalidSeeds)?;
                if expected != *escrow.key {
                    return Err(ProgramError::InvalidSeeds);
                }
                Ok(())
            }
        "#;
    let findings = run_solana_missing_signer(source);
    assert!(
        !findings.is_empty(),
        "Must flag: control for the validate_signer_seeds probe"
    );
}

#[test]
fn test_still_flags_local_assert_signer_helper_that_checks_nothing() {
    let source = r#"
            pub fn withdraw_all(authority: &AccountInfo, escrow: &AccountInfo, amount: u64) -> ProgramResult {
                assert_signer(escrow)?;
                **escrow.try_borrow_mut_lamports()? -= amount;
                **authority.try_borrow_mut_lamports()? += amount;
                Ok(())
            }

            fn assert_signer(escrow: &AccountInfo) -> ProgramResult {
                if *escrow.key == Pubkey::default() {
                    return Err(ProgramError::InvalidSeeds);
                }
                Ok(())
            }
        "#;
    let findings = run_solana_missing_signer(source);
    assert!(
        !findings.is_empty(),
        "Must flag: local assert_signer resolves to a body that never reads is_signer"
    );
}

#[test]
fn test_still_flags_is_signer_only_in_string_literal() {
    let source = r#"
            pub fn withdraw_all(authority: &AccountInfo, escrow: &AccountInfo, amount: u64) -> ProgramResult {
                msg!("skipping is_signer verification for speed");
                **escrow.try_borrow_mut_lamports()? -= amount;
                **authority.try_borrow_mut_lamports()? += amount;
                Ok(())
            }
        "#;
    let findings = run_solana_missing_signer(source);
    assert!(
        !findings.is_empty(),
        "Must flag: `is_signer` inside a msg! literal performs no verification"
    );
}

#[test]
fn test_no_finding_log_only_string_literal_keywords() {
    let source = r#"
            pub fn log_status(user: &AccountInfo) {
                msg!("invoke count for {}: pending serialize", user.key);
            }
        "#;
    let findings = run_solana_missing_signer(source);
    assert!(
        findings.is_empty(),
        "Should not flag a log-only fn whose 'invoke'/'serialize' are in a string literal"
    );
}

#[test]
fn test_detects_user_bump() {
    let source = r#"
            fn verify_pda(bump: u8, seeds: &[u8], program_id: &Pubkey) {
                let pda = Pubkey::create_program_address(&[seeds, &[bump]], program_id).unwrap();
            }
        "#;
    let findings = run_solana_pda_issues(source);
    assert!(!findings.is_empty(), "Should detect user-provided bump");
}

#[test]
fn test_still_flags_instruction_data_struct_bump() {
    let source = r#"
            pub fn withdraw(ctx: Context<Withdraw>, params: WithdrawParams) -> Result<()> {
                let owner_key = ctx.accounts.owner.key();
                let authority = Pubkey::create_program_address(
                    &[b"vault-authority", owner_key.as_ref(), &[params.bump]],
                    ctx.program_id,
                )
                .map_err(|_| error!(VaultError::InvalidAuthority))?;
                require_keys_eq!(
                    authority,
                    ctx.accounts.vault_authority.key(),
                    VaultError::InvalidAuthority
                );
                Ok(())
            }
        "#;
    let findings = run_solana_pda_issues(source);
    assert_eq!(
        findings.len(),
        1,
        "Should flag a bump read from instruction data even though the field is named `bump`"
    );
}

#[test]
fn test_still_flags_instruction_data_bump_regardless_of_field_name() {
    let renamed = r#"
            pub fn withdraw(ctx: Context<Withdraw>, params: WithdrawParams) -> Result<()> {
                let addr = Pubkey::create_program_address(
                    &[b"vault-authority", &[params.seed_bump]],
                    ctx.program_id,
                )?;
                Ok(())
            }
        "#;
    let original = renamed.replace("seed_bump", "bump");
    assert_eq!(
        run_solana_pda_issues(&original).len(),
        run_solana_pda_issues(renamed).len(),
        "Verdict must not depend on whether the field is spelled `bump` or `seed_bump`"
    );
    assert_eq!(run_solana_pda_issues(&original).len(), 1, "Both must flag");
}

#[test]
fn test_still_flags_mixed_stored_and_user_bump() {
    let source = r#"
            fn withdraw(ctx: Context<Withdraw>, params: WithdrawParams) -> Result<()> {
                let vault = &ctx.accounts.vault;
                let addr = Pubkey::create_program_address(
                    &[b"vault", &[vault.bump], &[params.bump]],
                    ctx.program_id,
                )?;
                Ok(())
            }
        "#;
    let findings = run_solana_pda_issues(source);
    assert_eq!(
        findings.len(),
        1,
        "A call mixing a stored bump with a user-provided bump is still unsafe"
    );
}

#[test]
fn test_no_finding_with_find() {
    let source = r#"
            fn verify_pda(seeds: &[u8], program_id: &Pubkey) {
                let (pda, bump) = Pubkey::find_program_address(&[seeds], program_id);
            }
        "#;
    let findings = run_solana_pda_issues(source);
    assert!(findings.is_empty(), "Should not flag find_program_address");
}

#[test]
fn test_no_finding_stored_account_bump() {
    let source = r#"
            fn withdraw(ctx: Context<Withdraw>, amount: u64) -> Result<()> {
                let vault = &ctx.accounts.vault;
                let expected = Pubkey::create_program_address(
                    &[b"vault", vault.owner.as_ref(), &[vault.bump]],
                    ctx.program_id,
                )?;
                require_keys_eq!(expected, vault.key(), ErrorCode::InvalidVault);
                Ok(())
            }
        "#;
    let findings = run_solana_pda_issues(source);
    assert!(
        findings.is_empty(),
        "Should not flag bump read from account state (vault.bump)"
    );
}

#[test]
fn test_no_finding_ctx_bumps() {
    let source = r#"
            pub fn initialize(ctx: Context<Initialize>) -> Result<()> {
                let bump = ctx.bumps.vault;
                ctx.accounts.vault.bump = bump;
                let addr = Pubkey::create_program_address(&[b"vault", &[bump]], ctx.program_id)?;
                msg!("vault pda: {}", addr);
                Ok(())
            }
        "#;
    let findings = run_solana_pda_issues(source);
    assert!(
        findings.is_empty(),
        "Should not flag Anchor ctx.bumps canonical bump"
    );
}

#[test]
fn test_no_finding_helper_validates_bump() {
    let source = r#"
            fn assert_canonical(seeds: &[&[u8]], bump: u8, program_id: &Pubkey) -> Result<()> {
                let (_, canonical) = Pubkey::find_program_address(seeds, program_id);
                require!(bump == canonical, ErrorCode::NonCanonicalBump);
                Ok(())
            }

            fn verify_vault(bump: u8, owner: &Pubkey, program_id: &Pubkey, expected: &Pubkey) -> Result<()> {
                assert_canonical(&[b"vault", owner.as_ref()], bump, program_id)?;
                let pda = Pubkey::create_program_address(&[b"vault", owner.as_ref(), &[bump]], program_id)?;
                require_keys_eq!(pda, *expected);
                Ok(())
            }
        "#;
    let findings = run_solana_pda_issues(source);
    assert!(
        findings.is_empty(),
        "Should not flag when a resolvable helper derives the canonical bump"
    );
}

#[test]
fn test_no_finding_string_literal() {
    let source = r#"
            fn reject_manual_pda() -> Result<()> {
                msg!("create_program_address is not allowed here; PDAs are derived at init");
                Err(ErrorCode::Unsupported.into())
            }
        "#;
    let findings = run_solana_pda_issues(source);
    assert!(
        findings.is_empty(),
        "Should not flag string-literal mentions of create_program_address"
    );
}

#[test]
fn pda_issues_test_no_finding_in_cfg_test_module() {
    let source = r#"
            #[cfg(test)]
            mod tests {
                use super::*;
                #[test]
                fn create_program_address_rejects_bad_bump() {
                    let err = Pubkey::create_program_address(&[b"vault", &[0u8]], &crate::ID);
                    assert!(err.is_err());
                }
            }
        "#;
    let findings = run_solana_pda_issues(source);
    assert!(
        findings.is_empty(),
        "Should not flag create_program_address in #[cfg(test)] code"
    );
}

#[test]
fn test_detects_compute_limit_without_price() {
    let source = r#"
            fn build_transaction(payer: &Keypair) {
                let limit_ix = ComputeBudgetInstruction::set_compute_unit_limit(200_000);
                let instructions = vec![limit_ix, main_instruction];
                let tx = Transaction::new_signed_with_payer(
                    &instructions,
                    Some(&payer.pubkey()),
                    &[payer],
                    recent_blockhash,
                );
            }
        "#;
    let findings = run_solana_priority_fee(source);
    assert!(
        !findings.is_empty(),
        "Should detect compute unit limit without price"
    );
    assert_eq!(findings[0].detector_id, "SOL-016");
}

#[test]
fn test_no_finding_with_both_limit_and_price() {
    let source = r#"
            fn build_transaction(payer: &Keypair) {
                let limit_ix = ComputeBudgetInstruction::set_compute_unit_limit(200_000);
                let price_ix = ComputeBudgetInstruction::set_compute_unit_price(1_000);
                let instructions = vec![limit_ix, price_ix, main_instruction];
                let tx = Transaction::new_signed_with_payer(
                    &instructions,
                    Some(&payer.pubkey()),
                    &[payer],
                    recent_blockhash,
                );
            }
        "#;
    let findings = run_solana_priority_fee(source);
    assert!(
        findings.is_empty(),
        "Should not flag when both limit and price are set"
    );
}

#[test]
fn test_detects_camelcase_variant_construction_without_price() {
    let source = r#"
            fn build_budget(payer: &Keypair) {
                let limit_ix = Instruction::from(
                    ComputeBudgetInstruction::SetComputeUnitLimit(200_000),
                );
                let instructions = vec![limit_ix, main_instruction];
            }
        "#;
    let findings = run_solana_priority_fee(source);
    assert!(
        !findings.is_empty(),
        "Should detect CamelCase limit construction without price"
    );
    assert_eq!(findings[0].detector_id, "SOL-016");
}

#[test]
fn test_no_finding_camelcase_price_variant() {
    let source = r#"
            fn build_budget_ixs() -> Vec<Instruction> {
                vec![
                    Instruction::from(ComputeBudgetInstruction::SetComputeUnitLimit(200_000)),
                    Instruction::from(ComputeBudgetInstruction::SetComputeUnitPrice(1_000)),
                ]
            }
        "#;
    let findings = run_solana_priority_fee(source);
    assert!(
        findings.is_empty(),
        "Should not flag when priority fee is set via SetComputeUnitPrice variant"
    );
}

#[test]
fn test_no_finding_readonly_parser() {
    let source = r#"
            fn extract_cu_limit(data: &[u8]) -> Option<u32> {
                match ComputeBudgetInstruction::try_from_slice(data).ok()? {
                    ComputeBudgetInstruction::SetComputeUnitLimit(units) => Some(units),
                    _ => None,
                }
            }
        "#;
    let findings = run_solana_priority_fee(source);
    assert!(
        findings.is_empty(),
        "Read-only parser matching on the variant must not be flagged"
    );
}

#[test]
fn test_no_finding_matches_inspection() {
    let source = r#"
            fn is_cu_limit(ix: &ComputeBudgetInstruction) -> bool {
                matches!(ix, ComputeBudgetInstruction::SetComputeUnitLimit(_))
            }
        "#;
    let findings = run_solana_priority_fee(source);
    assert!(
        findings.is_empty(),
        "matches! inspection of the variant must not be flagged"
    );
}

#[test]
fn priority_fee_test_no_finding_in_cfg_test_module() {
    let source = r#"
            #[cfg(test)]
            mod tests {
                #[tokio::test]
                async fn sends_with_budget() {
                    let ix = ComputeBudgetInstruction::set_compute_unit_limit(1_400_000);
                    client.send(&[ix, dummy_ix()]).await.unwrap();
                }

                fn setup_budget_ixs() -> Vec<Instruction> {
                    vec![ComputeBudgetInstruction::set_compute_unit_limit(1_400_000)]
                }
            }
        "#;
    let findings = run_solana_priority_fee(source);
    assert!(
        findings.is_empty(),
        "Test module code (incl. #[tokio::test] and helpers) must not be flagged"
    );
}

#[test]
fn test_no_finding_doc_comment_mention() {
    let source = r#"
            /// Sends `ixs` as-is. Callers wanting a compute budget must prepend a
            /// ComputeBudgetInstruction themselves.
            fn send_raw(ixs: &[Instruction]) -> Result<Signature> {
                client.send_and_confirm(ixs)
            }
        "#;
    let findings = run_solana_priority_fee(source);
    assert!(
        findings.is_empty(),
        "A doc-comment mention of ComputeBudgetInstruction must not be flagged"
    );
}

#[test]
fn test_detects_remaining_accounts_without_validation() {
    let source = r#"
            fn process_swap(ctx: Context<Swap>) {
                for account in ctx.remaining_accounts.iter() {
                    let data = account.try_borrow_data()?;
                    process_data(&data);
                }
            }
        "#;
    let findings = run_solana_remaining_accounts(source);
    assert!(
        !findings.is_empty(),
        "Should detect remaining_accounts without validation"
    );
    assert_eq!(findings[0].detector_id, "SOL-013");
}

#[test]
fn remaining_accounts_test_no_finding_with_owner_check() {
    let source = r#"
            fn process_swap(ctx: Context<Swap>) {
                for account in ctx.remaining_accounts.iter() {
                    if account.owner != &spl_token::ID {
                        return Err(ErrorCode::InvalidOwner.into());
                    }
                    let data = account.try_borrow_data()?;
                    process_data(&data);
                }
            }
        "#;
    let findings = run_solana_remaining_accounts(source);
    assert!(
        findings.is_empty(),
        "Should not flag when owner check is present"
    );
}

#[test]
fn test_no_finding_with_cpi_passthrough() {
    let source = r#"
            fn forward_accounts(ctx: Context<Forward>) {
                let cpi_ctx = CpiContext::new(ctx.accounts.program.to_account_info(), Transfer {})
                    .with_remaining_accounts(ctx.remaining_accounts.to_vec());
                invoke(cpi_ctx)?;
            }
        "#;
    let findings = run_solana_remaining_accounts(source);
    assert!(
        findings.is_empty(),
        "Should not flag CPI passthrough of remaining_accounts"
    );
}

#[test]
fn test_no_finding_with_negated_key_check() {
    let source = r#"
            fn process(ctx: Context<Swap>) -> Result<()> {
                for account in ctx.remaining_accounts.iter() {
                    if account.key() != &EXPECTED_ORACLE {
                        return Err(ErrorCode::InvalidOracle.into());
                    }
                    let data = account.try_borrow_data()?;
                    process_data(&data);
                }
                Ok(())
            }
        "#;
    let findings = run_solana_remaining_accounts(source);
    assert!(
        findings.is_empty(),
        "Should not flag a negated key() comparison guard"
    );
}

#[test]
fn test_no_finding_with_delegated_validation_helper() {
    let source = r#"
            fn validate_oracle_account(account: &AccountInfo) -> Result<()> {
                if account.owner != &crate::ID {
                    return Err(ErrorCode::InvalidOwner.into());
                }
                Ok(())
            }

            fn process(ctx: Context<Swap>) -> Result<()> {
                for account in ctx.remaining_accounts.iter() {
                    validate_oracle_account(account)?;
                    let data = account.try_borrow_data()?;
                    process_data(&data);
                }
                Ok(())
            }
        "#;
    let findings = run_solana_remaining_accounts(source);
    assert!(
        findings.is_empty(),
        "Should not flag when validation is delegated to a resolved helper"
    );
}

#[test]
fn test_still_flags_when_helper_does_not_validate() {
    let source = r#"
            fn check_something(account: &AccountInfo) -> Result<()> {
                msg!("no real validation here");
                Ok(())
            }

            fn process(ctx: Context<Swap>) -> Result<()> {
                for account in ctx.remaining_accounts.iter() {
                    check_something(account)?;
                    let data = account.try_borrow_data()?;
                    process_data(&data);
                }
                Ok(())
            }
        "#;
    let findings = run_solana_remaining_accounts(source);
    assert!(
        !findings.is_empty(),
        "A validation-named helper that performs no real check must not suppress the finding"
    );
}

#[test]
fn test_no_finding_with_accountmeta_passthrough() {
    let source = r#"
            fn forward(ctx: Context<Forward>) -> Result<()> {
                let metas: Vec<AccountMeta> = ctx.remaining_accounts
                    .iter()
                    .map(|a| AccountMeta::new_readonly(*a.key, a.is_signer))
                    .collect();
                let ix = Instruction { program_id: TARGET_ID, accounts: metas, data: vec![] };
                invoke(&ix, ctx.remaining_accounts)?;
                Ok(())
            }
        "#;
    let findings = run_solana_remaining_accounts(source);
    assert!(
        findings.is_empty(),
        "Should not flag AccountMeta-building CPI passthrough"
    );
}

#[test]
fn test_no_finding_with_assert_keys_eq() {
    let source = r#"
            fn process(ctx: Context<Swap>) -> Result<()> {
                let acc = &ctx.remaining_accounts[0];
                assert_keys_eq!(acc.key, EXPECTED_MINT, InvalidMint);
                let data = acc.try_borrow_data()?;
                Ok(())
            }
        "#;
    let findings = run_solana_remaining_accounts(source);
    assert!(
        findings.is_empty(),
        "Should not flag when assert_keys_eq! validates the key"
    );
}

#[test]
fn test_no_finding_with_native_key_field_check() {
    let source = r#"
            fn process(ctx: Context<Swap>) -> Result<()> {
                let acc = ctx.remaining_accounts.iter()
                    .find(|a| a.key == &EXPECTED)
                    .ok_or(ErrorCode::Missing)?;
                let data = acc.try_borrow_data()?;
                Ok(())
            }
        "#;
    let findings = run_solana_remaining_accounts(source);
    assert!(
        findings.is_empty(),
        "Should not flag native .key field equality checks"
    );
}

#[test]
fn test_no_finding_with_cardinality_only_guard() {
    let source = r#"
            fn process(ctx: Context<Swap>) -> Result<()> {
                if !ctx.remaining_accounts.is_empty() {
                    return Err(ErrorCode::TooManyAccounts.into());
                }
                Ok(())
            }
        "#;
    let findings = run_solana_remaining_accounts(source);
    assert!(
        findings.is_empty(),
        "Should not flag a cardinality-only guard that never reads accounts"
    );
}

#[test]
fn test_detects_token2022_without_extension_check() {
    let source = r#"
            fn process_transfer(mint: &InterfaceAccount<Mint>, from: &InterfaceAccount<TokenAccount>) {
                let cpi_ctx = CpiContext::new(token_program.to_account_info(), Transfer {
                    from: from.to_account_info(),
                    to: to.to_account_info(),
                    authority: authority.to_account_info(),
                });
                transfer_checked(cpi_ctx, amount, mint.decimals)?;
            }
        "#;
    let findings = run_solana_token_extensions(source);
    assert!(
        !findings.is_empty(),
        "Should detect Token-2022 without extension check"
    );
    assert_eq!(findings[0].detector_id, "SOL-012");
}

#[test]
fn test_no_finding_with_extension_check() {
    let source = r#"
            fn process_transfer(mint: &InterfaceAccount<Mint>) {
                let extensions = get_extension_types(&mint.to_account_info().data.borrow())?;
                if extensions.contains(&ExtensionType::PermanentDelegate) {
                    return Err(ErrorCode::UnsupportedExtension.into());
                }
                transfer_checked(cpi_ctx, amount, mint.decimals)?;
            }
        "#;
    let findings = run_solana_token_extensions(source);
    assert!(
        findings.is_empty(),
        "Should not flag when extension check is present"
    );
}

#[test]
fn test_no_finding_with_spl_token_v1_only() {
    let source = r#"
            fn process_transfer(token_program: AccountInfo) {
                // token_program constrained to spl_token :: ID
                assert_eq!(token_program.key, &spl_token :: ID);
                transfer_checked(cpi_ctx, amount, decimals);
            }
        "#;
    let findings = run_solana_token_extensions(source);
    assert!(
        findings.is_empty(),
        "Should not flag when constrained to spl_token v1"
    );
}

#[test]
fn test_no_finding_classic_token_transfer_checked() {
    let source = r#"
            #[derive(Accounts)]
            pub struct Withdraw<'info> {
                pub token_program: Program<'info, Token>,
                pub mint: Account<'info, Mint>,
            }

            pub fn withdraw(ctx: Context<Withdraw>, amount: u64) -> Result<()> {
                let cpi_ctx = CpiContext::new(
                    ctx.accounts.token_program.to_account_info(),
                    anchor_spl::token::TransferChecked {
                        from: ctx.accounts.vault.to_account_info(),
                        mint: ctx.accounts.mint.to_account_info(),
                        to: ctx.accounts.user_ata.to_account_info(),
                        authority: ctx.accounts.vault_authority.to_account_info(),
                    },
                );
                anchor_spl::token::transfer_checked(cpi_ctx, amount, ctx.accounts.mint.decimals)
            }
        "#;
    let findings = run_solana_token_extensions(source);
    assert!(
        findings.is_empty(),
        "Should not flag classic SPL Token transfer_checked without a Token-2022 signal"
    );
}

#[test]
fn test_no_finding_extension_check_in_helper() {
    let source = r#"
            fn validate_mint_extensions(mint: &InterfaceAccount<Mint>) -> Result<()> {
                let data = mint.to_account_info().data.borrow();
                let state = StateWithExtensions::<Mint>::unpack(&data)?;
                for ext in state.get_extension_types()? {
                    match ext {
                        ExtensionType::PermanentDelegate | ExtensionType::TransferHook => {
                            return Err(ErrorCode::UnsupportedExtension.into())
                        }
                        _ => {}
                    }
                }
                Ok(())
            }

            pub fn deposit(ctx: Context<Deposit>, amount: u64) -> Result<()> {
                validate_mint_extensions(&ctx.accounts.mint)?;
                token_interface::transfer_checked(cpi_ctx(&ctx), amount, ctx.accounts.mint.decimals)
            }
        "#;
    let findings = run_solana_token_extensions(source);
    assert!(
        findings.is_empty(),
        "Should not flag when a resolvable helper performs the extension check"
    );
}

#[test]
fn test_still_flags_helper_that_only_spells_valid_mint() {
    let source = r#"
            fn ensure_mint_ready(mint: &InterfaceAccount<Mint>) -> Result<()> {
                let valid_mint = mint.decimals == 6 && mint.supply > 0;
                if !valid_mint {
                    return Err(EscrowError::MintNotReady.into());
                }
                Ok(())
            }

            pub fn deposit(ctx: Context<Deposit>, amount: u64) -> Result<()> {
                ensure_mint_ready(&ctx.accounts.mint)?;
                let cpi_ctx = CpiContext::new(
                    ctx.accounts.token_program.to_account_info(),
                    TransferChecked {
                        from: ctx.accounts.depositor_ata.to_account_info(),
                        mint: ctx.accounts.mint.to_account_info(),
                        to: ctx.accounts.vault.to_account_info(),
                        authority: ctx.accounts.depositor.to_account_info(),
                    },
                );
                token_interface::transfer_checked(cpi_ctx, amount, ctx.accounts.mint.decimals)?;
                Ok(())
            }
        "#;
    let findings = run_solana_token_extensions(source);
    assert!(
        findings.iter().any(|f| f.detector_id == "SOL-012"),
        "Must flag: helper only checks decimals/supply, a local named `valid_mint` is not an extension check"
    );
}

#[test]
fn test_still_flags_helper_with_renamed_local() {
    let source = r#"
            fn ensure_mint_ready(mint: &InterfaceAccount<Mint>) -> Result<()> {
                let decimals_ok = mint.decimals == 6 && mint.supply > 0;
                if !decimals_ok {
                    return Err(EscrowError::MintNotReady.into());
                }
                Ok(())
            }

            pub fn deposit(ctx: Context<Deposit>, amount: u64) -> Result<()> {
                ensure_mint_ready(&ctx.accounts.mint)?;
                token_interface::transfer_checked(cpi_ctx(&ctx), amount, ctx.accounts.mint.decimals)?;
                Ok(())
            }
        "#;
    let findings = run_solana_token_extensions(source);
    assert!(
        findings.iter().any(|f| f.detector_id == "SOL-012"),
        "Must flag: renaming a local must not change whether the vuln is reported"
    );
}

#[test]
fn test_no_finding_extension_check_inside_require_macro() {
    let source = r#"
            pub fn deposit(ctx: Context<Deposit>, amount: u64) -> Result<()> {
                let exts = get_extension_types(&ctx.accounts.mint.to_account_info().data.borrow())?;
                require!(!exts.contains(&ExtensionType::TransferHook), ErrorCode::BadMint);
                token_interface::transfer_checked(cpi_ctx(&ctx), amount, ctx.accounts.mint.decimals)
            }
        "#;
    let findings = run_solana_token_extensions(source);
    assert!(
        findings.is_empty(),
        "Should not flag when a require! guard rejects a dangerous extension"
    );
}

#[test]
fn test_no_finding_pure_view_function() {
    let source = r#"
            fn ui_amount_to_base(mint: &InterfaceAccount<Mint>, ui_amount: f64) -> u64 {
                (ui_amount * 10f64.powi(mint.decimals as i32)) as u64
            }
        "#;
    let findings = run_solana_token_extensions(source);
    assert!(
        findings.is_empty(),
        "Should not flag a pure read/computation helper that moves no tokens"
    );
}

#[test]
fn test_no_finding_mint_pinned_by_address_constraint() {
    let source = r#"
            #[derive(Accounts)]
            pub struct Pay<'info> {
                #[account(address = USDC_MINT @ ErrorCode::WrongMint)]
                pub mint: InterfaceAccount<'info, Mint>,
                pub token_program: Interface<'info, TokenInterface>,
            }

            pub fn pay(ctx: Context<Pay>, amount: u64) -> Result<()> {
                token_interface::transfer_checked(cpi_ctx(&ctx), amount, ctx.accounts.mint.decimals)
            }
        "#;
    let findings = run_solana_token_extensions(source);
    assert!(
        findings.is_empty(),
        "Should not flag when the mint is hard-pinned by an address constraint"
    );
}

#[test]
fn token_extensions_test_no_finding_cfg_test_module() {
    let source = r#"
            #[cfg(test)]
            mod tests {
                async fn setup_token2022_mint(ctx: &mut ProgramTestContext) -> Pubkey {
                    create_mint(ctx, &spl_token_2022::id()).await
                }

                #[tokio::test]
                async fn transfers_work() {
                    let mint = setup_token2022_mint(&mut ctx).await;
                    token_interface::transfer_checked(cpi, 1, 2);
                }
            }
        "#;
    let findings = run_solana_token_extensions(source);
    assert!(
        findings.is_empty(),
        "Should not flag functions inside a #[cfg(test)] module"
    );
}

fn first_of(findings: Vec<Finding>) -> Finding {
    match findings.into_iter().next() {
        Some(finding) => finding,
        None => panic!("there is a finding"),
    }
}

/// Puts a source text into a module that is compiled for tests only.
fn in_test_module(source: &str) -> String {
    format!("#[cfg(test)]\nmod tests {{\n{}\n}}\n", source)
}

/// Puts a source text into a module that is always compiled.
fn in_module(source: &str) -> String {
    format!("mod inner {{\n{}\n}}\n", source)
}

fn describes<D: Detector>(
    rule: D,
    id: &str,
    name: &str,
    description: &str,
    severity: Severity,
    confidence: Confidence,
    chain: Chain,
) {
    assert_eq!(rule.id(), id);
    assert_eq!(rule.name(), name);
    assert_eq!(rule.description(), description);
    assert_eq!(rule.severity(), severity);
    assert_eq!(rule.confidence(), confidence);
    assert_eq!(rule.chain(), chain);
}

#[test]
fn rules_describe_themselves() {
    describes(
        contract_audit::detectors::near::frontrunning::FrontrunningDetector,
        "NEAR-008",
        "frontrunning-risk",
        "Detects Promise::new().transfer() in functions that take user-provided parameters",
        Severity::High,
        Confidence::Low,
        Chain::Near,
    );
    describes(
        contract_audit::detectors::near::integer_overflow::IntegerOverflowDetector,
        "NEAR-005",
        "near-wrapping-arithmetic",
        "Detects wrapping_*/saturating_* on balance/amount variables",
        Severity::Critical,
        Confidence::Medium,
        Chain::Near,
    );
    describes(
        contract_audit::detectors::near::missing_deposit_check::MissingDepositCheckDetector,
        "NEAR-010",
        "missing-deposit-check",
        "Detects #[payable] methods that don't check env::attached_deposit()",
        Severity::High,
        Confidence::High,
        Chain::Near,
    );
    describes(
        contract_audit::detectors::near::missing_gas_callback::MissingGasCallbackDetector,
        "NEAR-012",
        "missing-gas-for-callbacks",
        "Detects cross-contract calls without explicit gas specification",
        Severity::Medium,
        Confidence::Medium,
        Chain::Near,
    );
    describes(
        contract_audit::detectors::near::missing_private::MissingPrivateDetector,
        "NEAR-006",
        "missing-private-callback",
        "Detects public callback methods (on_* / *_callback) without #[private] attribute",
        Severity::Critical,
        Confidence::High,
        Chain::Near,
    );
    describes(
        contract_audit::detectors::near::promise_reentrancy::PromiseReentrancyDetector,
        "NEAR-001",
        "promise-reentrancy",
        "Detects state mutation before Promise::new() / ext_* calls without #[private] callback",
        Severity::Critical,
        Confidence::Medium,
        Chain::Near,
    );
    describes(
        contract_audit::detectors::near::self_callback::SelfCallbackDetector,
        "NEAR-007",
        "self-callback-state",
        "Detects pending state field writes before ext_self:: calls without guard checks",
        Severity::High,
        Confidence::Medium,
        Chain::Near,
    );
    describes(
        contract_audit::detectors::near::signer_vs_predecessor::SignerVsPredecessorDetector,
        "NEAR-002",
        "signer-vs-predecessor",
        "Detects env::signer_account_id() misuse in access control (should use predecessor)",
        Severity::High,
        Confidence::High,
        Chain::Near,
    );
    describes(
        contract_audit::detectors::near::storage_staking::StorageStakingDetector,
        "NEAR-003",
        "storage-staking-auth",
        "Detects storage_deposit/storage_withdraw without predecessor_account_id check",
        Severity::High,
        Confidence::Medium,
        Chain::Near,
    );
    describes(
        contract_audit::detectors::near::unguarded_storage_unregister::UnguardedStorageUnregisterDetector,
        "NEAR-011",
        "unguarded-storage-unregister",
        "Detects storage_unregister without checking non-zero token balances",
        Severity::Medium,
        Confidence::Medium,
        Chain::Near,
    );
    describes(
        contract_audit::detectors::near::unhandled_promise::UnhandledPromiseDetector,
        "NEAR-004",
        "callback-unwrap-usage",
        "Detects #[callback_unwrap] usage (should use #[callback_result] with Result)",
        Severity::High,
        Confidence::High,
        Chain::Near,
    );
    describes(
        contract_audit::detectors::near::unsafe_storage_keys::UnsafeStorageKeysDetector,
        "NEAR-009",
        "unsafe-storage-keys",
        "Detects storage key construction from user input (collision risk)",
        Severity::Medium,
        Confidence::Medium,
        Chain::Near,
    );
    describes(
        contract_audit::detectors::solana::account_confusion::AccountConfusionDetector,
        "SOL-004",
        "account-confusion",
        "Detects manual account deserialization without discriminator check",
        Severity::High,
        Confidence::Medium,
        Chain::Solana,
    );
    describes(
        contract_audit::detectors::solana::account_data_matching::AccountDataMatchingDetector,
        "SOL-017",
        "account-data-matching",
        "Detects account data deserialization without field validation",
        Severity::High,
        Confidence::Medium,
        Chain::Solana,
    );
    describes(
        contract_audit::detectors::solana::arbitrary_cpi::ArbitraryCpiDetector,
        "SOL-006",
        "arbitrary-cpi",
        "Detects CPI calls where the program target comes from untrusted input",
        Severity::Critical,
        Confidence::Medium,
        Chain::Solana,
    );
    describes(
        contract_audit::detectors::solana::checked_arithmetic_unwrap::CheckedArithmeticUnwrapDetector,
        "SOL-020",
        "checked-arithmetic-unwrap",
        "Detects .checked_add/sub/mul/div(...).unwrap() chains that panic instead of propagating errors",
        Severity::Medium,
        Confidence::High,
        Chain::Solana,
    );
    describes(
        contract_audit::detectors::solana::cpi_reentrancy::CpiReentrancyDetector,
        "SOL-009",
        "cpi-reentrancy",
        "Detects state mutations after CPI calls (CEI violation) - mitigated by Solana's account locking",
        Severity::Medium,
        Confidence::Low,
        Chain::Solana,
    );
    describes(
        contract_audit::detectors::solana::duplicate_mutable_accounts::DuplicateMutableAccountsDetector,
        "SOL-019",
        "duplicate-mutable-accounts",
        "Detects functions with multiple mutable AccountInfo params without key uniqueness check",
        Severity::High,
        Confidence::Medium,
        Chain::Solana,
    );
    describes(
        contract_audit::detectors::solana::init_if_needed::InitIfNeededDetector,
        "SOL-014",
        "init-if-needed-reinitialization",
        "Detects Anchor init_if_needed constraint without guard checks against reinitialization",
        Severity::High,
        Confidence::Medium,
        Chain::Solana,
    );
    describes(
        contract_audit::detectors::solana::insecure_account_close::InsecureAccountCloseDetector,
        "SOL-005",
        "insecure-account-close",
        "Detects account closure that doesn't zero data and set discriminator",
        Severity::High,
        Confidence::Medium,
        Chain::Solana,
    );
    describes(
        contract_audit::detectors::solana::integer_overflow::IntegerOverflowDetector,
        "SOL-003",
        "integer-overflow",
        "Detects unchecked arithmetic operations on integer types",
        Severity::Critical,
        Confidence::Medium,
        Chain::Solana,
    );
    describes(
        contract_audit::detectors::solana::lookup_table::LookupTableDetector,
        "SOL-015",
        "lookup-table-manipulation",
        "Detects AddressLookupTableAccount usage without authority or freeze verification",
        Severity::High,
        Confidence::Medium,
        Chain::Solana,
    );
    describes(
        contract_audit::detectors::solana::missing_owner::MissingOwnerDetector,
        "SOL-002",
        "missing-owner-check",
        "Detects deserialization of account data without verifying account owner",
        Severity::Critical,
        Confidence::High,
        Chain::Solana,
    );
    describes(
        contract_audit::detectors::solana::missing_rent_exempt::MissingRentExemptDetector,
        "SOL-011",
        "missing-rent-exempt",
        "Detects create_account calls without rent-exemption checks",
        Severity::Medium,
        Confidence::Medium,
        Chain::Solana,
    );
    describes(
        contract_audit::detectors::solana::missing_signer::MissingSignerDetector,
        "SOL-001",
        "missing-signer-check",
        "Detects functions accepting AccountInfo without verifying is_signer",
        Severity::Critical,
        Confidence::High,
        Chain::Solana,
    );
    describes(
        contract_audit::detectors::solana::pda_issues::PdaIssuesDetector,
        "SOL-007",
        "pda-bump-misuse",
        "Detects create_program_address with user-provided bump seeds",
        Severity::High,
        Confidence::High,
        Chain::Solana,
    );
    describes(
        contract_audit::detectors::solana::priority_fee::PriorityFeeDetector,
        "SOL-016",
        "missing-priority-fee",
        "Detects set_compute_unit_limit without set_compute_unit_price (missing priority fee)",
        Severity::Low,
        Confidence::Low,
        Chain::Solana,
    );
    describes(
        contract_audit::detectors::solana::remaining_accounts::RemainingAccountsDetector,
        "SOL-013",
        "unsafe-remaining-accounts",
        "Detects ctx.remaining_accounts usage without owner/type/key validation",
        Severity::High,
        Confidence::Medium,
        Chain::Solana,
    );
    describes(
        contract_audit::detectors::solana::token_extensions::TokenExtensionsDetector,
        "SOL-012",
        "token-2022-extension-safety",
        "Detects programs accepting Token-2022 tokens without checking for dangerous extensions",
        Severity::High,
        Confidence::Medium,
        Chain::Solana,
    );
}

#[test]
fn near_frontrunning_reports_exactly() {
    let findings = run_near_frontrunning(
        r#"
            use near_sdk::Promise;
            fn claim_reward(&mut self, amount: u128, recipient: AccountId) {
                Promise::new(recipient).transfer(amount);
            }
        "#,
    );
    assert_eq!(findings.len(), 1);
    let finding = first_of(findings);
    assert_eq!(finding.detector_id, "NEAR-008");
    assert_eq!(finding.severity, Severity::High);
    assert_eq!(finding.confidence, Confidence::Low);
    assert_eq!(finding.file, "test.rs");
    assert_eq!(finding.line, 3);
    assert_eq!(finding.column, 16);
    assert_eq!(finding.snippet, "fn claim_reward(&mut self, amount: u128, recipient: AccountId) {");
    assert_eq!(
        finding.message,
        "Function 'claim_reward' transfers tokens based on user parameters without frontrunning protection"
    );
}

#[test]
fn near_integer_overflow_reports_exactly() {
    let findings = run_near_integer_overflow(
        r#"
            use near_sdk::env;
            fn update_balance(&mut self, amount: u128) {
                self.balance = self.balance.wrapping_add(amount);
            }
        "#,
    );
    assert_eq!(findings.len(), 1);
    let finding = first_of(findings);
    assert_eq!(finding.detector_id, "NEAR-005");
    assert_eq!(finding.severity, Severity::Critical);
    assert_eq!(finding.confidence, Confidence::Medium);
    assert_eq!(finding.file, "test.rs");
    assert_eq!(finding.line, 4);
    assert_eq!(finding.column, 45);
    assert_eq!(finding.snippet, "self.balance = self.balance.wrapping_add(amount);");
    assert_eq!(
        finding.message,
        "wrapping_add() used on financial value - may silently lose precision"
    );
}

#[test]
fn near_missing_deposit_check_reports_exactly() {
    let findings = run_near_missing_deposit_check(
        r#"
            use near_sdk::env;
            impl Contract {
                #[payable]
                pub fn purchase(&mut self, item_id: u64) {
                    self.inventory.remove(&item_id);
                }
            }
        "#,
    );
    assert_eq!(findings.len(), 1);
    let finding = first_of(findings);
    assert_eq!(finding.detector_id, "NEAR-010");
    assert_eq!(finding.severity, Severity::High);
    assert_eq!(finding.confidence, Confidence::High);
    assert_eq!(finding.file, "test.rs");
    assert_eq!(finding.line, 5);
    assert_eq!(finding.column, 24);
    assert_eq!(finding.snippet, "pub fn purchase(&mut self, item_id: u64) {");
    assert_eq!(
        finding.message,
        "#[payable] method 'purchase' does not check env::attached_deposit()"
    );
}

#[test]
fn near_missing_gas_callback_reports_exactly() {
    let findings = run_near_missing_gas_callback(
        r#"
            fn transfer_and_call(&mut self, receiver_id: AccountId, amount: U128) {
                self.internal_transfer(&env::predecessor_account_id(), &receiver_id, amount.0);
                Promise::new(receiver_id).function_call(
                    "on_transfer".to_string(),
                    json!({ "amount": amount }).to_string().into_bytes(),
                    0,
                    0,
                );
                ext_self::on_transfer_complete(env::current_account_id());
            }
        "#,
    );
    assert_eq!(findings.len(), 1);
    let finding = first_of(findings);
    assert_eq!(finding.detector_id, "NEAR-012");
    assert_eq!(finding.severity, Severity::Medium);
    assert_eq!(finding.confidence, Confidence::Medium);
    assert_eq!(finding.file, "test.rs");
    assert_eq!(finding.line, 2);
    assert_eq!(finding.column, 16);
    assert_eq!(finding.snippet, "fn transfer_and_call(&mut self, receiver_id: AccountId, amount: U128) {");
    assert_eq!(
        finding.message,
        "Function 'transfer_and_call' makes cross-contract calls without explicit gas specification"
    );
}

#[test]
fn near_missing_private_reports_exactly() {
    let findings = run_near_missing_private(
        r#"
            use near_sdk::env;
            #[near_bindgen]
            impl Contract {
                pub fn on_transfer_complete(&mut self, amount: U128) {
                    self.total += amount.0;
                }
            }
        "#,
    );
    assert_eq!(findings.len(), 1);
    let finding = first_of(findings);
    assert_eq!(finding.detector_id, "NEAR-006");
    assert_eq!(finding.severity, Severity::Critical);
    assert_eq!(finding.confidence, Confidence::High);
    assert_eq!(finding.file, "test.rs");
    assert_eq!(finding.line, 5);
    assert_eq!(finding.column, 24);
    assert_eq!(finding.snippet, "pub fn on_transfer_complete(&mut self, amount: U128) {");
    assert_eq!(
        finding.message,
        "Callback method 'on_transfer_complete' is public without #[private] attribute"
    );
}

#[test]
fn near_promise_reentrancy_reports_exactly() {
    let findings = run_near_promise_reentrancy(
        r#"
            fn withdraw(&mut self, amount: u128) {
                self.balance -= amount;
                Promise::new(receiver).transfer(amount);
            }
        "#,
    );
    assert_eq!(findings.len(), 1);
    let finding = first_of(findings);
    assert_eq!(finding.detector_id, "NEAR-001");
    assert_eq!(finding.severity, Severity::Critical);
    assert_eq!(finding.confidence, Confidence::Medium);
    assert_eq!(finding.file, "test.rs");
    assert_eq!(finding.line, 2);
    assert_eq!(finding.column, 16);
    assert_eq!(finding.snippet, "fn withdraw(&mut self, amount: u128) {");
    assert_eq!(
        finding.message,
        "Function 'withdraw' mutates state before creating a Promise (reentrancy risk)"
    );
}

#[test]
fn near_self_callback_reports_exactly() {
    let findings = run_near_self_callback(
        r#"
            fn initiate_withdrawal(&mut self, amount: u128) {
                self.pending_amount = amount;
                ext_self::on_withdrawal_complete(env::current_account_id(), 0, GAS);
            }
        "#,
    );
    assert_eq!(findings.len(), 1);
    let finding = first_of(findings);
    assert_eq!(finding.detector_id, "NEAR-007");
    assert_eq!(finding.severity, Severity::High);
    assert_eq!(finding.confidence, Confidence::Medium);
    assert_eq!(finding.file, "test.rs");
    assert_eq!(finding.line, 2);
    assert_eq!(finding.column, 16);
    assert_eq!(finding.snippet, "fn initiate_withdrawal(&mut self, amount: u128) {");
    assert_eq!(
        finding.message,
        "Function 'initiate_withdrawal' sets pending state before ext_self callback without guard"
    );
}

#[test]
fn near_signer_vs_predecessor_reports_exactly() {
    let findings = run_near_signer_vs_predecessor(
        r#"
            fn admin_action(&mut self) {
                assert_eq!(env::signer_account_id(), self.owner, "Not owner");
                self.value = 42;
            }
        "#,
    );
    assert_eq!(findings.len(), 1);
    let finding = first_of(findings);
    assert_eq!(finding.detector_id, "NEAR-002");
    assert_eq!(finding.severity, Severity::High);
    assert_eq!(finding.confidence, Confidence::High);
    assert_eq!(finding.file, "test.rs");
    assert_eq!(finding.line, 3);
    assert_eq!(finding.column, 1);
    assert_eq!(finding.snippet, "assert_eq!(env::signer_account_id(), self.owner, \"Not owner\");");
    assert_eq!(
        finding.message,
        "Function 'admin_action' uses signer_account_id() for access control instead of predecessor_account_id()"
    );
}

#[test]
fn near_storage_staking_reports_exactly() {
    let findings = run_near_storage_staking(
        r#"
            fn storage_withdraw(&mut self, amount: Option<U128>) -> bool {
                self.internal_storage_withdraw(amount.map(|a| a.0));
                true
            }
        "#,
    );
    assert_eq!(findings.len(), 1);
    let finding = first_of(findings);
    assert_eq!(finding.detector_id, "NEAR-003");
    assert_eq!(finding.severity, Severity::High);
    assert_eq!(finding.confidence, Confidence::Medium);
    assert_eq!(finding.file, "test.rs");
    assert_eq!(finding.line, 2);
    assert_eq!(finding.column, 16);
    assert_eq!(finding.snippet, "fn storage_withdraw(&mut self, amount: Option<U128>) -> bool {");
    assert_eq!(
        finding.message,
        "Storage handler 'storage_withdraw' does not check predecessor_account_id"
    );
}

#[test]
fn near_unguarded_storage_unregister_reports_exactly() {
    let findings = run_near_unguarded_storage_unregister(
        r#"
            fn storage_unregister(&mut self) -> bool {
                let account_id = env::predecessor_account_id();
                self.accounts.remove(&account_id);
                env::storage_remove(&account_id.as_bytes());
                true
            }
        "#,
    );
    assert_eq!(findings.len(), 1);
    let finding = first_of(findings);
    assert_eq!(finding.detector_id, "NEAR-011");
    assert_eq!(finding.severity, Severity::Medium);
    assert_eq!(finding.confidence, Confidence::Medium);
    assert_eq!(finding.file, "test.rs");
    assert_eq!(finding.line, 2);
    assert_eq!(finding.column, 16);
    assert_eq!(finding.snippet, "fn storage_unregister(&mut self) -> bool {");
    assert_eq!(
        finding.message,
        "Storage unregister handler 'storage_unregister' does not check for non-zero token balances before removing account"
    );
}

#[test]
fn near_unhandled_promise_reports_exactly() {
    let findings = run_near_unhandled_promise(
        r#"
            use near_sdk::env;
            #[callback_unwrap]
            fn on_transfer_complete(&mut self, amount: U128) {
                self.transferred += amount.0;
            }
        "#,
    );
    assert_eq!(findings.len(), 1);
    let finding = first_of(findings);
    assert_eq!(finding.detector_id, "NEAR-004");
    assert_eq!(finding.severity, Severity::High);
    assert_eq!(finding.confidence, Confidence::High);
    assert_eq!(finding.file, "test.rs");
    assert_eq!(finding.line, 3);
    assert_eq!(finding.column, 1);
    assert_eq!(finding.snippet, "#[callback_unwrap]");
    assert_eq!(
        finding.message,
        "#[callback_unwrap] will panic on failed promise - use #[callback_result] instead"
    );
}

#[test]
fn near_unsafe_storage_keys_reports_exactly() {
    let findings = run_near_unsafe_storage_keys(
        r#"
            use near_sdk::env;
            fn store_user_data(user_id: &str, data: &[u8]) {
                let key = format!("user_{}", user_id);
                env::storage_write(key.as_bytes(), data);
            }
        "#,
    );
    assert_eq!(findings.len(), 1);
    let finding = first_of(findings);
    assert_eq!(finding.detector_id, "NEAR-009");
    assert_eq!(finding.severity, Severity::Medium);
    assert_eq!(finding.confidence, Confidence::Medium);
    assert_eq!(finding.file, "test.rs");
    assert_eq!(finding.line, 3);
    assert_eq!(finding.column, 16);
    assert_eq!(finding.snippet, "fn store_user_data(user_id: &str, data: &[u8]) {");
    assert_eq!(
        finding.message,
        "Function 'store_user_data' constructs storage keys from user input via format!()"
    );
}

#[test]
fn solana_account_confusion_reports_exactly() {
    let findings = run_solana_account_confusion(
        r#"
            fn load_account(account: &AccountInfo) {
                let data = MyState::try_from_slice(&account.data.borrow()).unwrap();
            }
        "#,
    );
    assert_eq!(findings.len(), 1);
    let finding = first_of(findings);
    assert_eq!(finding.detector_id, "SOL-004");
    assert_eq!(finding.severity, Severity::High);
    assert_eq!(finding.confidence, Confidence::Medium);
    assert_eq!(finding.file, "test.rs");
    assert_eq!(finding.line, 2);
    assert_eq!(finding.column, 16);
    assert_eq!(finding.snippet, "fn load_account(account: &AccountInfo) {");
    assert_eq!(
        finding.message,
        "Function 'load_account' deserializes account data without discriminator validation"
    );
}

#[test]
fn solana_account_data_matching_reports_exactly() {
    let findings = run_solana_account_data_matching(
        r#"
            use solana_program::account_info::AccountInfo;
            fn load_data(account: &AccountInfo) {
                let data = account.try_borrow_data().unwrap();
                let state = MyState::try_from_slice(&data).unwrap();
                process(state);
            }
        "#,
    );
    assert_eq!(findings.len(), 1);
    let finding = first_of(findings);
    assert_eq!(finding.detector_id, "SOL-017");
    assert_eq!(finding.severity, Severity::High);
    assert_eq!(finding.confidence, Confidence::Medium);
    assert_eq!(finding.file, "test.rs");
    assert_eq!(finding.line, 3);
    assert_eq!(finding.column, 16);
    assert_eq!(finding.snippet, "fn load_data(account: &AccountInfo) {");
    assert_eq!(
        finding.message,
        "Function 'load_data' borrows/deserializes account data without field validation"
    );
}

#[test]
fn solana_arbitrary_cpi_reports_exactly() {
    let findings = run_solana_arbitrary_cpi(
        r#"
            fn do_transfer(program: &AccountInfo, from: &AccountInfo, to: &AccountInfo) {
                invoke(
                    &transfer_ix,
                    &[from.clone(), to.clone(), program.clone()],
                )?;
            }
        "#,
    );
    assert_eq!(findings.len(), 1);
    let finding = first_of(findings);
    assert_eq!(finding.detector_id, "SOL-006");
    assert_eq!(finding.severity, Severity::Critical);
    assert_eq!(finding.confidence, Confidence::Medium);
    assert_eq!(finding.file, "test.rs");
    assert_eq!(finding.line, 2);
    assert_eq!(finding.column, 16);
    assert_eq!(finding.snippet, "fn do_transfer(program: &AccountInfo, from: &AccountInfo, to: &AccountInfo) {");
    assert_eq!(
        finding.message,
        "Function 'do_transfer' performs CPI without verifying the target program"
    );
}

#[test]
fn solana_checked_arithmetic_unwrap_reports_exactly() {
    let findings = run_solana_checked_arithmetic_unwrap(
        r#"
            use solana_program::account_info::AccountInfo;
            fn calculate(a: u64, b: u64) -> u64 {
                a.checked_add(b).unwrap()
            }
        "#,
    );
    assert_eq!(findings.len(), 1);
    let finding = first_of(findings);
    assert_eq!(finding.detector_id, "SOL-020");
    assert_eq!(finding.severity, Severity::Medium);
    assert_eq!(finding.confidence, Confidence::High);
    assert_eq!(finding.file, "test.rs");
    assert_eq!(finding.line, 4);
    assert_eq!(finding.column, 19);
    assert_eq!(finding.snippet, "a.checked_add(b).unwrap()");
    assert_eq!(
        finding.message,
        "Function 'calculate' calls .checked_add().unwrap() — use .ok_or(...)? to propagate errors instead of panicking"
    );
}

#[test]
fn solana_cpi_reentrancy_reports_exactly() {
    let findings = run_solana_cpi_reentrancy(
        r#"
            fn process(accounts: &[AccountInfo]) -> ProgramResult {
                invoke(&ix, &accounts)?;
                let mut data = account.try_borrow_mut_data()?;
                data[0] = 1;
                Ok(())
            }
        "#,
    );
    assert_eq!(findings.len(), 2);
    let finding = first_of(findings);
    assert_eq!(finding.detector_id, "SOL-009");
    assert_eq!(finding.severity, Severity::Medium);
    assert_eq!(finding.confidence, Confidence::Low);
    assert_eq!(finding.file, "test.rs");
    assert_eq!(finding.line, 4);
    assert_eq!(finding.column, 1);
    assert_eq!(finding.snippet, "let mut data = account.try_borrow_mut_data()?;");
    assert_eq!(
        finding.message,
        "Function 'process' mutates state after CPI call (CEI violation)"
    );
}

#[test]
fn solana_duplicate_mutable_accounts_reports_exactly() {
    let findings = run_solana_duplicate_mutable_accounts(
        r#"
            use solana_program::account_info::AccountInfo;
            fn transfer(from: &AccountInfo, to: &AccountInfo) {
                let mut from_data = from.try_borrow_mut_data()?;
                let mut to_data = to.try_borrow_mut_data()?;
                from_data[0] -= 1;
                to_data[0] += 1;
            }
        "#,
    );
    assert_eq!(findings.len(), 1);
    let finding = first_of(findings);
    assert_eq!(finding.detector_id, "SOL-019");
    assert_eq!(finding.severity, Severity::High);
    assert_eq!(finding.confidence, Confidence::Medium);
    assert_eq!(finding.file, "test.rs");
    assert_eq!(finding.line, 3);
    assert_eq!(finding.column, 16);
    assert_eq!(finding.snippet, "fn transfer(from: &AccountInfo, to: &AccountInfo) {");
    assert_eq!(
        finding.message,
        "Function 'transfer' has 2 AccountInfo params with mutable access but no key uniqueness assertion"
    );
}

#[test]
fn solana_init_if_needed_reports_exactly() {
    let findings = run_solana_init_if_needed(
        r#"
            fn initialize_user(ctx: Context<InitUser>) {
                // #[account(init_if_needed, payer = user, space = 8 + UserData::LEN)]
                let user_data = &mut ctx.accounts.user_data;
                user_data.init_if_needed;
                user_data.authority = ctx.accounts.user.key();
                user_data.balance = 0;
            }
        "#,
    );
    assert_eq!(findings.len(), 1);
    let finding = first_of(findings);
    assert_eq!(finding.detector_id, "SOL-014");
    assert_eq!(finding.severity, Severity::High);
    assert_eq!(finding.confidence, Confidence::Medium);
    assert_eq!(finding.file, "test.rs");
    assert_eq!(finding.line, 2);
    assert_eq!(finding.column, 16);
    assert_eq!(finding.snippet, "fn initialize_user(ctx: Context<InitUser>) {");
    assert_eq!(
        finding.message,
        "Function 'initialize_user' uses init_if_needed without reinitialization guard"
    );
}

#[test]
fn solana_insecure_account_close_reports_exactly() {
    let findings = run_solana_insecure_account_close(
        r#"
            fn close_account(account: &AccountInfo, dest: &AccountInfo) {
                let dest_lamports = dest.lamports();
                **dest.lamports.borrow_mut() = dest_lamports + account.lamports();
                **account.lamports.borrow_mut() = 0;
            }
        "#,
    );
    assert_eq!(findings.len(), 1);
    let finding = first_of(findings);
    assert_eq!(finding.detector_id, "SOL-005");
    assert_eq!(finding.severity, Severity::High);
    assert_eq!(finding.confidence, Confidence::Medium);
    assert_eq!(finding.file, "test.rs");
    assert_eq!(finding.line, 2);
    assert_eq!(finding.column, 16);
    assert_eq!(finding.snippet, "fn close_account(account: &AccountInfo, dest: &AccountInfo) {");
    assert_eq!(
        finding.message,
        "Function 'close_account' closes account by zeroing lamports without clearing data/discriminator"
    );
}

#[test]
fn solana_integer_overflow_reports_exactly() {
    let findings = run_solana_integer_overflow(
        r#"
            fn transfer(amount: u64, fee: u64) -> u64 {
                let total = amount + fee;
                total
            }
        "#,
    );
    assert_eq!(findings.len(), 1);
    let finding = first_of(findings);
    assert_eq!(finding.detector_id, "SOL-003");
    assert_eq!(finding.severity, Severity::Critical);
    assert_eq!(finding.confidence, Confidence::Medium);
    assert_eq!(finding.file, "test.rs");
    assert_eq!(finding.line, 4);
    assert_eq!(finding.column, 36);
    assert_eq!(finding.snippet, "let total = amount + fee;");
    assert_eq!(
        finding.message,
        "Unchecked arithmetic operation: amount + fee"
    );
}

#[test]
fn solana_lookup_table_reports_exactly() {
    let findings = run_solana_lookup_table(
        r#"
            fn build_versioned_tx(lookup_table: AddressLookupTableAccount) {
                let accounts = vec![lookup_table];
                let msg = MessageV0::try_compile(
                    &payer.pubkey(),
                    &instructions,
                    &accounts,
                    recent_blockhash,
                )?;
                let tx = VersionedTransaction::try_new(msg, &[&payer])?;
            }
        "#,
    );
    assert_eq!(findings.len(), 1);
    let finding = first_of(findings);
    assert_eq!(finding.detector_id, "SOL-015");
    assert_eq!(finding.severity, Severity::High);
    assert_eq!(finding.confidence, Confidence::Medium);
    assert_eq!(finding.file, "test.rs");
    assert_eq!(finding.line, 2);
    assert_eq!(finding.column, 16);
    assert_eq!(finding.snippet, "fn build_versioned_tx(lookup_table: AddressLookupTableAccount) {");
    assert_eq!(
        finding.message,
        "Function 'build_versioned_tx' uses AddressLookupTableAccount in transaction context without verifying authority or freeze status"
    );
}

#[test]
fn solana_missing_owner_reports_exactly() {
    let findings = run_solana_missing_owner(
        r#"
            fn process(account: &AccountInfo) {
                let data = MyData::deserialize(&mut &account.data.borrow()[..]).unwrap();
                data.amount += 100;
            }
        "#,
    );
    assert_eq!(findings.len(), 1);
    let finding = first_of(findings);
    assert_eq!(finding.detector_id, "SOL-002");
    assert_eq!(finding.severity, Severity::Critical);
    assert_eq!(finding.confidence, Confidence::High);
    assert_eq!(finding.file, "test.rs");
    assert_eq!(finding.line, 2);
    assert_eq!(finding.column, 16);
    assert_eq!(finding.snippet, "fn process(account: &AccountInfo) {");
    assert_eq!(
        finding.message,
        "Function 'process' deserializes account data without verifying account owner"
    );
}

#[test]
fn solana_missing_rent_exempt_reports_exactly() {
    let findings = run_solana_missing_rent_exempt(
        r#"
            fn initialize(program_id: &Pubkey, accounts: &[AccountInfo]) -> ProgramResult {
                let ix = system_instruction::create_account(
                    payer.key, new_account.key, lamports, space as u64, program_id,
                );
                invoke(&ix, &[payer.clone(), new_account.clone()])?;
                Ok(())
            }
        "#,
    );
    assert_eq!(findings.len(), 1);
    let finding = first_of(findings);
    assert_eq!(finding.detector_id, "SOL-011");
    assert_eq!(finding.severity, Severity::Medium);
    assert_eq!(finding.confidence, Confidence::Medium);
    assert_eq!(finding.file, "test.rs");
    assert_eq!(finding.line, 2);
    assert_eq!(finding.column, 16);
    assert_eq!(finding.snippet, "fn initialize(program_id: &Pubkey, accounts: &[AccountInfo]) -> ProgramResult {");
    assert_eq!(
        finding.message,
        "Function 'initialize' creates account without rent-exemption check"
    );
}

#[test]
fn solana_missing_signer_reports_exactly() {
    let findings = run_solana_missing_signer(
        r#"
            fn withdraw_funds(account: &AccountInfo, recipient: &AccountInfo) {
                let mut data = account.try_borrow_mut_data().unwrap();
                data.serialize(&mut *dest.try_borrow_mut_data().unwrap()).unwrap();
            }
        "#,
    );
    assert_eq!(findings.len(), 1);
    let finding = first_of(findings);
    assert_eq!(finding.detector_id, "SOL-001");
    assert_eq!(finding.severity, Severity::Critical);
    assert_eq!(finding.confidence, Confidence::High);
    assert_eq!(finding.file, "test.rs");
    assert_eq!(finding.line, 2);
    assert_eq!(finding.column, 16);
    assert_eq!(finding.snippet, "fn withdraw_funds(account: &AccountInfo, recipient: &AccountInfo) {");
    assert_eq!(
        finding.message,
        "Function 'withdraw_funds' accepts AccountInfo 'account', 'recipient' without verifying is_signer"
    );
}

#[test]
fn solana_pda_issues_reports_exactly() {
    let findings = run_solana_pda_issues(
        r#"
            fn verify_pda(bump: u8, seeds: &[u8], program_id: &Pubkey) {
                let pda = Pubkey::create_program_address(&[seeds, &[bump]], program_id).unwrap();
            }
        "#,
    );
    assert_eq!(findings.len(), 1);
    let finding = first_of(findings);
    assert_eq!(finding.detector_id, "SOL-007");
    assert_eq!(finding.severity, Severity::High);
    assert_eq!(finding.confidence, Confidence::High);
    assert_eq!(finding.file, "test.rs");
    assert_eq!(finding.line, 2);
    assert_eq!(finding.column, 16);
    assert_eq!(finding.snippet, "fn verify_pda(bump: u8, seeds: &[u8], program_id: &Pubkey) {");
    assert_eq!(
        finding.message,
        "Function 'verify_pda' uses create_program_address without find_program_address (user-provided bump)"
    );
}

#[test]
fn solana_priority_fee_reports_exactly() {
    let findings = run_solana_priority_fee(
        r#"
            fn build_transaction(payer: &Keypair) {
                let limit_ix = ComputeBudgetInstruction::set_compute_unit_limit(200_000);
                let instructions = vec![limit_ix, main_instruction];
                let tx = Transaction::new_signed_with_payer(
                    &instructions,
                    Some(&payer.pubkey()),
                    &[payer],
                    recent_blockhash,
                );
            }
        "#,
    );
    assert_eq!(findings.len(), 1);
    let finding = first_of(findings);
    assert_eq!(finding.detector_id, "SOL-016");
    assert_eq!(finding.severity, Severity::Low);
    assert_eq!(finding.confidence, Confidence::Low);
    assert_eq!(finding.file, "test.rs");
    assert_eq!(finding.line, 2);
    assert_eq!(finding.column, 16);
    assert_eq!(finding.snippet, "fn build_transaction(payer: &Keypair) {");
    assert_eq!(
        finding.message,
        "Function 'build_transaction' sets compute unit limit without setting compute unit price (priority fee)"
    );
}

#[test]
fn solana_remaining_accounts_reports_exactly() {
    let findings = run_solana_remaining_accounts(
        r#"
            fn process_swap(ctx: Context<Swap>) {
                for account in ctx.remaining_accounts.iter() {
                    let data = account.try_borrow_data()?;
                    process_data(&data);
                }
            }
        "#,
    );
    assert_eq!(findings.len(), 1);
    let finding = first_of(findings);
    assert_eq!(finding.detector_id, "SOL-013");
    assert_eq!(finding.severity, Severity::High);
    assert_eq!(finding.confidence, Confidence::Medium);
    assert_eq!(finding.file, "test.rs");
    assert_eq!(finding.line, 2);
    assert_eq!(finding.column, 16);
    assert_eq!(finding.snippet, "fn process_swap(ctx: Context<Swap>) {");
    assert_eq!(
        finding.message,
        "Function 'process_swap' uses ctx.remaining_accounts without owner/type/key validation"
    );
}

#[test]
fn solana_token_extensions_reports_exactly() {
    let findings = run_solana_token_extensions(
        r#"
            fn process_transfer(mint: &InterfaceAccount<Mint>, from: &InterfaceAccount<TokenAccount>) {
                let cpi_ctx = CpiContext::new(token_program.to_account_info(), Transfer {
                    from: from.to_account_info(),
                    to: to.to_account_info(),
                    authority: authority.to_account_info(),
                });
                transfer_checked(cpi_ctx, amount, mint.decimals)?;
            }
        "#,
    );
    assert_eq!(findings.len(), 1);
    let finding = first_of(findings);
    assert_eq!(finding.detector_id, "SOL-012");
    assert_eq!(finding.severity, Severity::High);
    assert_eq!(finding.confidence, Confidence::Medium);
    assert_eq!(finding.file, "test.rs");
    assert_eq!(finding.line, 2);
    assert_eq!(finding.column, 16);
    assert_eq!(finding.snippet, "fn process_transfer(mint: &InterfaceAccount<Mint>, from: &InterfaceAccount<TokenAccount>) {");
    assert_eq!(
        finding.message,
        "Function 'process_transfer' accepts Token-2022 tokens without checking for dangerous extensions (PermanentDelegate, TransferHook, MintCloseAuthority)"
    );
}

#[test]
fn near_frontrunning_spares_test_modules() {
    let source = r#"
            use near_sdk::Promise;
            fn claim_reward(&mut self, amount: u128, recipient: AccountId) {
                Promise::new(recipient).transfer(amount);
            }
        "#;
    assert!(!run_near_frontrunning(&in_module(source)).is_empty());
    assert!(run_near_frontrunning(&in_test_module(source)).is_empty());
}

#[test]
fn near_integer_overflow_spares_test_modules() {
    let source = r#"
            use near_sdk::env;
            fn update_balance(&mut self, amount: u128) {
                self.balance = self.balance.wrapping_add(amount);
            }
        "#;
    assert!(!run_near_integer_overflow(&in_module(source)).is_empty());
    assert!(run_near_integer_overflow(&in_test_module(source)).is_empty());
}

#[test]
fn near_missing_deposit_check_spares_test_modules() {
    let source = r#"
            use near_sdk::env;
            impl Contract {
                #[payable]
                pub fn purchase(&mut self, item_id: u64) {
                    self.inventory.remove(&item_id);
                }
            }
        "#;
    assert!(!run_near_missing_deposit_check(&in_module(source)).is_empty());
    assert!(run_near_missing_deposit_check(&in_test_module(source)).is_empty());
}

#[test]
fn near_missing_private_spares_test_modules() {
    let source = r#"
            use near_sdk::env;
            #[near_bindgen]
            impl Contract {
                pub fn on_transfer_complete(&mut self, amount: U128) {
                    self.total += amount.0;
                }
            }
        "#;
    assert!(!run_near_missing_private(&in_module(source)).is_empty());
    assert!(run_near_missing_private(&in_test_module(source)).is_empty());
}

#[test]
fn near_signer_vs_predecessor_spares_test_modules() {
    let source = r#"
            fn admin_action(&mut self) {
                assert_eq!(env::signer_account_id(), self.owner, "Not owner");
                self.value = 42;
            }
        "#;
    assert!(!run_near_signer_vs_predecessor(&in_module(source)).is_empty());
    assert!(run_near_signer_vs_predecessor(&in_test_module(source)).is_empty());
}

#[test]
fn near_storage_staking_spares_test_modules() {
    let source = r#"
            fn storage_withdraw(&mut self, amount: Option<U128>) -> bool {
                self.internal_storage_withdraw(amount.map(|a| a.0));
                true
            }
        "#;
    assert!(!run_near_storage_staking(&in_module(source)).is_empty());
    assert!(run_near_storage_staking(&in_test_module(source)).is_empty());
}

#[test]
fn near_unguarded_storage_unregister_spares_test_modules() {
    let source = r#"
            fn storage_unregister(&mut self) -> bool {
                let account_id = env::predecessor_account_id();
                self.accounts.remove(&account_id);
                env::storage_remove(&account_id.as_bytes());
                true
            }
        "#;
    assert!(!run_near_unguarded_storage_unregister(&in_module(source)).is_empty());
    assert!(run_near_unguarded_storage_unregister(&in_test_module(source)).is_empty());
}

#[test]
fn near_unhandled_promise_spares_test_modules() {
    let source = r#"
            use near_sdk::env;
            #[callback_unwrap]
            fn on_transfer_complete(&mut self, amount: U128) {
                self.transferred += amount.0;
            }
        "#;
    assert!(!run_near_unhandled_promise(&in_module(source)).is_empty());
    assert!(run_near_unhandled_promise(&in_test_module(source)).is_empty());
}

#[test]
fn near_unsafe_storage_keys_spares_test_modules() {
    let source = r#"
            use near_sdk::env;
            fn store_user_data(user_id: &str, data: &[u8]) {
                let key = format!("user_{}", user_id);
                env::storage_write(key.as_bytes(), data);
            }
        "#;
    assert!(!run_near_unsafe_storage_keys(&in_module(source)).is_empty());
    assert!(run_near_unsafe_storage_keys(&in_test_module(source)).is_empty());
}

#[test]
fn solana_account_confusion_spares_test_modules() {
    let source = r#"
            fn load_account(account: &AccountInfo) {
                let data = MyState::try_from_slice(&account.data.borrow()).unwrap();
            }
        "#;
    assert!(!run_solana_account_confusion(&in_module(source)).is_empty());
    assert!(run_solana_account_confusion(&in_test_module(source)).is_empty());
}

#[test]
fn solana_account_data_matching_spares_test_modules() {
    let source = r#"
            use solana_program::account_info::AccountInfo;
            fn load_data(account: &AccountInfo) {
                let data = account.try_borrow_data().unwrap();
                let state = MyState::try_from_slice(&data).unwrap();
                process(state);
            }
        "#;
    assert!(!run_solana_account_data_matching(&in_module(source)).is_empty());
    assert!(run_solana_account_data_matching(&in_test_module(source)).is_empty());
}

#[test]
fn solana_checked_arithmetic_unwrap_spares_test_modules() {
    let source = r#"
            use solana_program::account_info::AccountInfo;
            fn calculate(a: u64, b: u64) -> u64 {
                a.checked_add(b).unwrap()
            }
        "#;
    assert!(!run_solana_checked_arithmetic_unwrap(&in_module(source)).is_empty());
    assert!(run_solana_checked_arithmetic_unwrap(&in_test_module(source)).is_empty());
}

#[test]
fn solana_cpi_reentrancy_spares_test_modules() {
    let source = r#"
            fn process(accounts: &[AccountInfo]) -> ProgramResult {
                invoke(&ix, &accounts)?;
                let mut data = account.try_borrow_mut_data()?;
                data[0] = 1;
                Ok(())
            }
        "#;
    assert!(!run_solana_cpi_reentrancy(&in_module(source)).is_empty());
    assert!(run_solana_cpi_reentrancy(&in_test_module(source)).is_empty());
}

#[test]
fn solana_duplicate_mutable_accounts_spares_test_modules() {
    let source = r#"
            use solana_program::account_info::AccountInfo;
            fn transfer(from: &AccountInfo, to: &AccountInfo) {
                let mut from_data = from.try_borrow_mut_data()?;
                let mut to_data = to.try_borrow_mut_data()?;
                from_data[0] -= 1;
                to_data[0] += 1;
            }
        "#;
    assert!(!run_solana_duplicate_mutable_accounts(&in_module(source)).is_empty());
    assert!(run_solana_duplicate_mutable_accounts(&in_test_module(source)).is_empty());
}

#[test]
fn solana_init_if_needed_spares_test_modules() {
    let source = r#"
            fn initialize_user(ctx: Context<InitUser>) {
                // #[account(init_if_needed, payer = user, space = 8 + UserData::LEN)]
                let user_data = &mut ctx.accounts.user_data;
                user_data.init_if_needed;
                user_data.authority = ctx.accounts.user.key();
                user_data.balance = 0;
            }
        "#;
    assert!(!run_solana_init_if_needed(&in_module(source)).is_empty());
    assert!(run_solana_init_if_needed(&in_test_module(source)).is_empty());
}

#[test]
fn solana_insecure_account_close_spares_test_modules() {
    let source = r#"
            fn close_account(account: &AccountInfo, dest: &AccountInfo) {
                let dest_lamports = dest.lamports();
                **dest.lamports.borrow_mut() = dest_lamports + account.lamports();
                **account.lamports.borrow_mut() = 0;
            }
        "#;
    assert!(!run_solana_insecure_account_close(&in_module(source)).is_empty());
    assert!(run_solana_insecure_account_close(&in_test_module(source)).is_empty());
}

#[test]
fn solana_integer_overflow_spares_test_modules() {
    let source = r#"
            fn transfer(amount: u64, fee: u64) -> u64 {
                let total = amount + fee;
                total
            }
        "#;
    assert!(!run_solana_integer_overflow(&in_module(source)).is_empty());
    assert!(run_solana_integer_overflow(&in_test_module(source)).is_empty());
}

#[test]
fn solana_lookup_table_spares_test_modules() {
    let source = r#"
            fn build_versioned_tx(lookup_table: AddressLookupTableAccount) {
                let accounts = vec![lookup_table];
                let msg = MessageV0::try_compile(
                    &payer.pubkey(),
                    &instructions,
                    &accounts,
                    recent_blockhash,
                )?;
                let tx = VersionedTransaction::try_new(msg, &[&payer])?;
            }
        "#;
    assert!(!run_solana_lookup_table(&in_module(source)).is_empty());
    assert!(run_solana_lookup_table(&in_test_module(source)).is_empty());
}

#[test]
fn solana_missing_owner_spares_test_modules() {
    let source = r#"
            fn process(account: &AccountInfo) {
                let data = MyData::deserialize(&mut &account.data.borrow()[..]).unwrap();
                data.amount += 100;
            }
        "#;
    assert!(!run_solana_missing_owner(&in_module(source)).is_empty());
    assert!(run_solana_missing_owner(&in_test_module(source)).is_empty());
}

#[test]
fn solana_missing_rent_exempt_spares_test_modules() {
    let source = r#"
            fn initialize(program_id: &Pubkey, accounts: &[AccountInfo]) -> ProgramResult {
                let ix = system_instruction::create_account(
                    payer.key, new_account.key, lamports, space as u64, program_id,
                );
                invoke(&ix, &[payer.clone(), new_account.clone()])?;
                Ok(())
            }
        "#;
    assert!(!run_solana_missing_rent_exempt(&in_module(source)).is_empty());
    assert!(run_solana_missing_rent_exempt(&in_test_module(source)).is_empty());
}

#[test]
fn solana_pda_issues_spares_test_modules() {
    let source = r#"
            fn verify_pda(bump: u8, seeds: &[u8], program_id: &Pubkey) {
                let pda = Pubkey::create_program_address(&[seeds, &[bump]], program_id).unwrap();
            }
        "#;
    assert!(!run_solana_pda_issues(&in_module(source)).is_empty());
    assert!(run_solana_pda_issues(&in_test_module(source)).is_empty());
}

#[test]
fn solana_priority_fee_spares_test_modules() {
    let source = r#"
            fn build_transaction(payer: &Keypair) {
                let limit_ix = ComputeBudgetInstruction::set_compute_unit_limit(200_000);
                let instructions = vec![limit_ix, main_instruction];
                let tx = Transaction::new_signed_with_payer(
                    &instructions,
                    Some(&payer.pubkey()),
                    &[payer],
                    recent_blockhash,
                );
            }
        "#;
    assert!(!run_solana_priority_fee(&in_module(source)).is_empty());
    assert!(run_solana_priority_fee(&in_test_module(source)).is_empty());
}

#[test]
fn solana_remaining_accounts_spares_test_modules() {
    let source = r#"
            fn process_swap(ctx: Context<Swap>) {
                for account in ctx.remaining_accounts.iter() {
                    let data = account.try_borrow_data()?;
                    process_data(&data);
                }
            }
        "#;
    assert!(!run_solana_remaining_accounts(&in_module(source)).is_empty());
    assert!(run_solana_remaining_accounts(&in_test_module(source)).is_empty());
}

#[test]
fn solana_token_extensions_spares_test_modules() {
    let source = r#"
            fn process_transfer(mint: &InterfaceAccount<Mint>, from: &InterfaceAccount<TokenAccount>) {
                let cpi_ctx = CpiContext::new(token_program.to_account_info(), Transfer {
                    from: from.to_account_info(),
                    to: to.to_account_info(),
                    authority: authority.to_account_info(),
                });
                transfer_checked(cpi_ctx, amount, mint.decimals)?;
            }
        "#;
    assert!(!run_solana_token_extensions(&in_module(source)).is_empty());
    assert!(run_solana_token_extensions(&in_test_module(source)).is_empty());
}

/// A file without a mark of the chain is out of scope, whatever it does.
#[test]
fn foreign_files_are_out_of_scope() {
    let source = "fn f(a: u64, b: u64) -> u64 { a.checked_add(b).unwrap() }";
    assert!(run_solana_checked_arithmetic_unwrap(source).is_empty());
    let marked = format!("use solana_program::pubkey::Pubkey;\n{}", source);
    assert_eq!(run_solana_checked_arithmetic_unwrap(&marked).len(), 1);
    let source = "fn f(&mut self, amount: u128) { self.balance.wrapping_add(amount); }";
    assert!(run_near_integer_overflow(source).is_empty());
    let marked = format!("use near_sdk::env;\n{}", source);
    assert_eq!(run_near_integer_overflow(&marked).len(), 1);
}

#[test]
fn each_checked_operation_is_reported_once() {
    let findings = run_solana_checked_arithmetic_unwrap(
        r#"
use solana_program::pubkey::Pubkey;
fn f(a: u64, b: u64) -> u64 {
    let x = a.checked_add(b).unwrap();
    let y = x.checked_add(b).unwrap();
    let z = y.checked_mul(b).unwrap();
    if z.checked_sub(a).is_none() {
        return 0;
    }
    z.checked_sub(a).unwrap()
}
"#,
    );
    let lines: Vec<usize> = findings.iter().map(|f| f.line).collect();
    assert_eq!(lines, vec![4, 6]);
}

#[test]
fn nested_functions_are_reported_behind_the_outer_one() {
    let findings = run_solana_checked_arithmetic_unwrap(
        r#"
use solana_program::pubkey::Pubkey;
fn outer(a: u64) -> u64 {
    fn inner(a: u64) -> u64 {
        a.checked_add(1).unwrap()
    }
    inner(a).checked_mul(2).unwrap()
}
"#,
    );
    let lines: Vec<usize> = findings.iter().map(|f| f.line).collect();
    assert_eq!(lines, vec![7, 5]);
}

#[test]
fn writes_in_front_of_a_call_are_no_violation() {
    let source = r#"
fn process(account: &AccountInfo) {
    let mut data = account.try_borrow_mut_data().unwrap();
    data[0] = 1;
    invoke(&ix, &accounts).unwrap();
}
"#;
    assert!(run_solana_cpi_reentrancy(source).is_empty());
    let source = r#"
fn process(account: &AccountInfo) {
    invoke(&ix, &accounts).unwrap();
    msg!("data = 1");
    let copy = data[0];
    data[0] = 1;
}
"#;
    let findings = run_solana_cpi_reentrancy(source);
    assert_eq!(findings.len(), 1);
    assert_eq!(findings[0].line, 6);
}

#[test]
fn a_rebound_bump_is_no_longer_trusted() {
    let safe = r#"
fn f(ctx: Context<X>, data: Args) {
    let state = &ctx.accounts.vault;
    let bump = state.bump;
    let key = Pubkey::create_program_address(&[b"v", &[bump]], &id).unwrap();
}
"#;
    assert!(run_solana_pda_issues(safe).is_empty());
    let rebound = r#"
fn f(ctx: Context<X>, data: Args) {
    let state = &ctx.accounts.vault;
    let bump = state.bump;
    let bump = data.bump;
    let key = Pubkey::create_program_address(&[b"v", &[bump]], &id).unwrap();
}
"#;
    assert_eq!(run_solana_pda_issues(rebound).len(), 1);
}

#[test]
fn divisions_are_reported_with_doubt() {
    let findings = run_solana_integer_overflow(
        r#"
fn f(a: u64, b: u64) -> u64 {
    let q = a / b;
    let s = a + b;
    q
}
"#,
    );
    let seen: Vec<Confidence> = findings.iter().map(|f| f.confidence).collect();
    assert_eq!(seen, vec![Confidence::Low, Confidence::Medium]);
}

#[test]
fn a_helper_two_calls_away_may_check_the_extensions() {
    let source = |last: &str| {
        format!(
            r#"
fn pay(mint: &InterfaceAccount<Mint>) {{
    first(mint);
    transfer(mint);
}}
fn first(mint: &M) {{ second(mint); }}
fn second(mint: &M) {{ {} }}
fn third(mint: &M) {{ let t = get_extension_types(mint); }}
"#,
            last
        )
    };
    assert!(run_solana_token_extensions(&source("get_extension_types(mint);")).is_empty());
    assert_eq!(run_solana_token_extensions(&source("third(mint);")).len(), 1);
}

#[test]
fn the_number_of_accounts_is_in_the_message() {
    let findings = run_solana_duplicate_mutable_accounts(
        r#"
fn pay(a: &AccountInfo, b: &AccountInfo, c: &AccountInfo) {
    a.try_borrow_mut_lamports().unwrap();
    b.try_borrow_mut_lamports().unwrap();
}
"#,
    );
    assert_eq!(findings.len(), 1);
    assert_eq!(
        findings[0].message,
        "Function 'pay' has 3 AccountInfo params with mutable access but no key uniqueness assertion"
    );
}

#[test]
fn call_graphs_describe_top_level_functions() {
    let ast = tree_of(
        &syn::parse_file(
            r#"
fn outer(a: &AccountInfo) { inner(a); a.go(); }
fn inner(a: &AccountInfo) { if !a.is_signer { return; } }
mod m { fn hidden() {} }
fn inner(a: &AccountInfo) { if a.owner != program_id { return; } }
"#,
        )
        .unwrap(),
    );
    let graph = build_call_graph(&ast);
    assert_eq!(graph.entries.len(), 2);
    let outer = graph.get("outer").unwrap();
    assert_eq!(outer.calls, vec!["inner", "go"]);
    let inner = graph.get("inner").unwrap();
    assert!(!inner.has_signer_check);
    assert!(inner.has_owner_check);
    assert!(graph.get("hidden").is_none());
}

#[test]
fn guards_of_other_functions_do_not_count() {
    let findings = run_solana_checked_arithmetic_unwrap(
        r#"
use solana_program::pubkey::Pubkey;
fn guarded(a: u64) -> u64 {
    fn other(a: u64) -> bool { a.checked_add(1).is_some() }
    a.checked_add(1).unwrap()
}
"#,
    );
    assert_eq!(findings.len(), 1);
}

#[test]
fn names_in_any_case_say_what_a_helper_does() {
    let source = |name: &str| {
        format!(
            r#"
fn handle(ctx: Context<X>) {{
    let list = ctx.remaining_accounts.iter();
    {}(list);
}}
fn {}(list: L) {{ require_keys_eq!(list.a, list.b); }}
"#,
            name, name
        )
    };
    assert!(run_solana_remaining_accounts(&source("do_Validate")).is_empty());
    assert_eq!(run_solana_remaining_accounts(&source("do_load")).len(), 1);
}

// Docs of single rules, on whole files.

#[test]
fn a_note_about_contract_calls_is_none() {
    let source = |arg: &str| {
        format!(
            "impl C {{ }} fn f(&mut self) {{ self.count = 1; self.note = {}.to_string(); }}",
            arg
        )
    };
    assert!(run_near_promise_reentrancy(&source("\"call ext_transfer later\"")).is_empty());
    let call = "fn f(&mut self) { self.count = 1; g(ext_ft::ext(a).ft_transfer(b)); }";
    assert_eq!(run_near_promise_reentrancy(call).len(), 1);
}

#[test]
fn a_literal_does_not_exempt_a_signer_check() {
    let source = "fn f(&mut self) { assert_eq!(env::signer_account_id(), self.owner, \"use predecessor_account_id()\"); }";
    assert_eq!(run_near_signer_vs_predecessor(source).len(), 1);
}

#[test]
fn only_an_exact_call_makes_an_alias() {
    let exact = "fn f(&mut self) { let caller = env::signer_account_id(); assert_eq!(caller, self.owner); }";
    assert_eq!(run_near_signer_vs_predecessor(exact).len(), 1);
    let other = "fn f(&mut self) { let n = g(env::signer_account_id()); assert_eq!(n, self.limit); }";
    assert!(run_near_signer_vs_predecessor(other).is_empty());
}

#[test]
fn production_modules_are_looked_at() {
    let inner = "fn f(&mut self) { assert_eq!(env::signer_account_id(), self.owner); }";
    let module = |cfg: &str| format!("#[cfg({})] mod m {{ {} }}", cfg, inner);
    assert!(run_near_signer_vs_predecessor(&module("test")).is_empty());
    assert!(run_near_signer_vs_predecessor(&module("all(test, feature = \"x\")")).is_empty());
    assert_eq!(run_near_signer_vs_predecessor(&module("not(test)")).len(), 1);
    assert_eq!(run_near_signer_vs_predecessor(&module("any(test, feature = \"x\")")).len(), 1);
}

#[test]
fn a_quote_character_does_not_end_the_code() {
    let source = "fn update(authority: &AccountInfo) { if c == '\"' { x.serialize(&mut data); } }";
    assert_eq!(run_solana_missing_signer(source).len(), 1);
}

#[test]
fn a_conditional_return_is_no_guard() {
    let source = |body: &str| {
        format!(
            "use near_sdk::env; #[near_bindgen] impl C {{ pub fn on_done(&mut self) {{ if env::predecessor_account_id() != env::current_account_id() {{ {} }} self.n = 1; }} }}",
            body
        )
    };
    assert!(run_near_missing_private(&source("return;")).is_empty());
    assert!(run_near_missing_private(&source("match k { 1 => return, _ => panic!() }")).is_empty());
    assert!(run_near_missing_private(&source("unsafe { return; }")).is_empty());
    assert_eq!(run_near_missing_private(&source("if self.strict { return; }")).len(), 1);
    assert_eq!(run_near_missing_private(&source("let g = || return;")).len(), 1);
    assert_eq!(run_near_missing_private(&source("let Some(x) = y else { return };")).len(), 1);
    assert_eq!(run_near_missing_private(&source("match k { 1 => return, _ => {} }")).len(), 1);
}

#[test]
fn a_branch_gives_up_by_leaving() {
    let source = |body: &str| {
        format!(
            "use solana_program::pubkey::Pubkey; fn f(a: u64, b: u64) -> R {{ if a > b {{ {} }} let c = a + b; Ok(c) }}",
            body
        )
    };
    for body in [
        "return Err(E);",
        "panic!(\"x\");",
        "Err(E)?;",
        "bail!(E);",
        "msg!(\"no\"); return Err(E.into());",
    ] {
        assert!(run_solana_integer_overflow(&source(body)).is_empty(), "{}", body);
    }
    for body in ["self.requirements += one;", "self.returned = true;", "log(\"return\");"] {
        assert!(!run_solana_integer_overflow(&source(body)).is_empty(), "{}", body);
    }
    let tail = "use solana_program::pubkey::Pubkey; fn f(a: u64, b: u64) -> R { if a > b { Err(E) } else { Ok(a + b) } }";
    assert!(run_solana_integer_overflow(tail).is_empty());
}

#[test]
fn naming_an_extension_in_a_string_checks_nothing() {
    let source = |arg: &str| {
        format!(
            "use spl_token_2022::instruction; fn pay(mint: &AccountInfo) {{ msg!({}); spl_token_2022::instruction::transfer_checked(mint); }}",
            arg
        )
    };
    assert_eq!(run_solana_token_extensions(&source("\"no TransferHook here\"")).len(), 1);
    assert!(run_solana_token_extensions(&source("TransferHook")).is_empty());
    let tested = format!("{}", source("\"x\"").replace("fn pay", "#[rstest] fn pay"));
    assert!(run_solana_token_extensions(&tested).is_empty());
}

#[test]
fn rules_state_their_confidence() {
    let source = "fn f(&mut self) { assert_eq!(env::signer_account_id(), self.owner); }";
    for finding in run_near_signer_vs_predecessor(source) {
        assert_eq!(finding.confidence, Confidence::High);
    }
}

#[test]
fn strings_do_not_leak_into_statements() {
    let source = "fn f(a: &AccountInfo) {\n invoke(&ix, &a);\n log(\" , \", \"x\", \"data = \");\n }";
    assert!(run_solana_cpi_reentrancy(source).is_empty());
}

#[test]
fn raw_templates_capture_names_too() {
    let key = |template: &str| {
        format!(
            "use near_sdk::env; fn store(user: &str) {{ env::storage_write(format!({}).as_bytes(), b\"\"); }}",
            template
        )
    };
    assert_eq!(run_near_unsafe_storage_keys(&key("r\"user_{user}\"")).len(), 1);
    assert_eq!(run_near_unsafe_storage_keys(&key("r#\"user_{user}\"#")).len(), 1);
    assert!(run_near_unsafe_storage_keys(&key("r#\"user_{PREFIX}\"#")).is_empty());
    assert!(run_near_unsafe_storage_keys(&key("\"caf\\u{e9}\"")).is_empty());
}

#[test]
fn balances_are_checked_before_the_call() {
    let source = |body: &str| {
        format!(
            "fn internal_storage_unregister(&mut self, id: &AccountId) {{ self.accounts.remove(id); }} \
             fn unregister(&mut self, id: &AccountId) {{ {} }}",
            body
        )
    };
    let before = source("assert!(self.balance_of(id) == 0); internal_storage_unregister(id);");
    let behind = source("internal_storage_unregister(id); assert!(self.balance_of(id) == 0);");
    assert!(run_near_unguarded_storage_unregister(&before).is_empty());
    assert_eq!(run_near_unguarded_storage_unregister(&behind).len(), 1);
}

#[test]
fn accounts_are_created_by_what_is_used() {
    let source = |line: &str| format!("fn open(accounts: &[AccountInfo]) {{ {} }}", line);
    let count = |line: &str| run_solana_missing_rent_exempt(&source(line)).len();
    assert_eq!(count("create_account(a, b);"), 1);
    assert_eq!(count("invoke(&CreateAccount { lamports }, accounts);"), 1);
    assert_eq!(count("go(CpiContext::new(program, CreateAccount { from, to }));"), 1);
    assert_eq!(count("invoke(&CreateAccount::of(lamports), accounts);"), 1);
    assert_eq!(count("let ix = CreateAccount { lamports };"), 0);
    assert_eq!(count("invoke(&Transfer { lamports }, accounts);"), 0);
    assert_eq!(count("invoke(&build(vec![CreateAccount { lamports }]), accounts);"), 1);
    assert_eq!(count("invoke(&CreateAccountWithSeed { lamports }, accounts);"), 1);
    assert_eq!(count("let ctx: CpiContext<CreateAccount> = make(accounts); go(ctx);"), 1);
    assert_eq!(count("match ix { Ix::CreateAccount { space } => invoke(&other, accounts), }"), 0);
    assert_eq!(count("if let Some(Ix::CreateAccount(n)) = ix { invoke(&other, accounts); }"), 0);
    assert_eq!(count("use sys::CreateAccount; invoke(&other, accounts);"), 0);
    assert_eq!(count("msg!(\"CreateAccount\"); invoke(&other, accounts);"), 0);
}

#[test]
fn bumps_are_known_before_the_call() {
    let source = |body: &str| format!("fn make(ctx: Context<Make>, bump: u8) {{ {} }}", body);
    let count = |body: String| run_solana_pda_issues(&source(&body)).len();
    let call = "let pda = Pubkey::create_program_address(&[seed, &[bump]], &ID).unwrap();";
    let load = "let bump = ctx.accounts.vault.bump;";
    let forget = "let bump = 0;";
    assert_eq!(count(format!("{} {}", load, call)), 0);
    assert_eq!(count(format!("{} {}", call, load)), 1);
    assert_eq!(count(format!("{} {} {}", load, call, forget)), 0);
    assert_eq!(count(format!("{} {} {}", load, forget, call)), 1);
}

#[test]
fn rent_is_computed_by_a_call() {
    let source = |line: &str| {
        format!(
            "fn fund(space: usize) -> u64 {{ {} }} \
             fn open(program_id: &Pubkey) -> ProgramResult {{ let lamports = fund(space); \
             let ix = system_instruction::create_account(payer.key, new.key, lamports, space, program_id); \
             invoke(&ix, &[payer.clone()])?; Ok(()) }}",
            line
        )
    };
    let call = source("table.minimum_balance(space)");
    let word = source("log(\"minimum_balance (\"); 0");
    let other = source("minimum_balance_hint(space)");
    assert!(run_solana_missing_rent_exempt(&call).is_empty());
    assert_eq!(run_solana_missing_rent_exempt(&word).len(), 1);
    assert_eq!(run_solana_missing_rent_exempt(&other).len(), 1);
}

#[test]
fn limits_are_set_by_code() {
    let source = |line: &str| format!("fn build(payer: &Keypair) {{ {} send(payer); }}", line);
    let call = source("let ix = ComputeBudgetInstruction::set_compute_unit_limit(200_000);");
    let word = source("log(\"set_compute_unit_limit\");");
    assert_eq!(run_solana_priority_fee(&call).len(), 1);
    assert!(run_solana_priority_fee(&word).is_empty());
}

#[test]
fn helpers_of_remaining_accounts_are_called_by_name() {
    let source = |call: &str| {
        format!(
            "fn validate(account: &AccountInfo) {{ require!(account.owner == &ID); }} \
             fn process_swap(ctx: Context<Swap>) {{ for account in ctx.remaining_accounts.iter() {{ {} }} }}",
            call
        )
    };
    assert!(run_solana_remaining_accounts(&source("validate(account);")).is_empty());
    assert_eq!(run_solana_remaining_accounts(&source("revalidate(account);")).len(), 1);
    assert_eq!(run_solana_remaining_accounts(&source("log(\"validate (account)\");")).len(), 1);
}

#[test]
fn lamports_are_drained_near_the_assignment() {
    let source = |line: &str| format!("fn close_account(account: &AccountInfo) {{ {} }}", line);
    let count = |line: &str| run_solana_insecure_account_close(&source(line)).len();
    let message = "m".repeat(70);
    assert_eq!(count("**account.lamports.borrow_mut() = 0;"), 1);
    assert_eq!(count("let bal = account.lamports(); total = 0;"), 1);
    assert_eq!(
        count(&format!("let bal = account.lamports(); msg!(\"{}\"); total = 0;", message)),
        0
    );
}

#[test]
fn tags_are_asserted_by_the_condition() {
    let source = |assertion: &str| {
        format!(
            "fn load_account(account: &AccountInfo) {{ {} let data = MyState::try_from_slice(&account.data.borrow()).unwrap(); }}",
            assertion
        )
    };
    let condition = source("assert!(account.discriminator == TAG, \"wrong\");");
    let message = source("assert!(account.ready, \"discriminator\");");
    let argument = source("assert!(account.ready, \"{}\", discriminator);");
    assert!(run_solana_account_confusion(&condition).is_empty());
    assert_eq!(run_solana_account_confusion(&message).len(), 1);
    assert_eq!(run_solana_account_confusion(&argument).len(), 1);
}

#[test]
fn pinned_mints_are_found_behind_lifetimes() {
    let source = |attribute: &str, field: &str, context: &str| {
        format!(
            "struct Pay<'info> {{ #[account({})] pub mint: InterfaceAccount<'info, {}> }} \
             fn pay(ctx: {}) {{ let ix = CpiContext::new(token_interface::ID, accounts); transfer_checked(ix, 1, 0)?; }}",
            attribute, field, context
        )
    };
    let pinned = |attribute: &str, field: &str, context: &str| {
        run_solana_token_extensions(&source(attribute, field, context)).is_empty()
    };
    assert!(pinned("address = USDC", "Mint", "Context<Pay>"));
    assert!(pinned("mut, address = USDC", "Mint", "Context<Pay<'info>>"));
    assert!(pinned("address = USDC", "Mint", "Context<'_, '_, '_, 'info, Pay<'info>>"));
    assert!(pinned("address = USDC", "Mint", "Context<'_, '_, '_, 'info, crate::Pay<'info>>"));
    assert!(!pinned("address = USDC", "MintLike", "Context<Pay>"));
    assert!(!pinned("has_one = address_book", "Mint", "Context<Pay>"));
    assert!(!pinned("constraint = mint.address == USDC", "Mint", "Context<Pay>"));
    assert!(!pinned("address = USDC", "Mint", "CpiContext<Pay>"));
}

#[test]
fn storage_is_guarded_by_rejecting_outright() {
    let source = |branch: &str| {
        format!(
            "fn assert_holder(&self, holder: &AccountId) {{ \
             if env::predecessor_account_id() != *holder {{ {} }} }} \
             fn storage_withdraw(&mut self, holder: AccountId) {{ \
             self.assert_holder(&holder); self.balances.remove(&holder); }}",
            branch
        )
    };
    assert!(run_near_storage_staking(&source("env::panic_str(\"no\");")).is_empty());
    assert_eq!(
        run_near_storage_staking(&source("if self.strict { env::panic_str(\"no\"); }")).len(),
        1
    );
}

#[test]
fn floats_are_known_by_their_type() {
    let source = |params: &str| format!("fn mix({}) {{ let total = amount + fee; }}", params);
    assert!(run_solana_integer_overflow(&source("amount: f64, fee: f64")).is_empty());
    assert_eq!(run_solana_integer_overflow(&source("amount: Uf64, fee: u64")).len(), 1);
    let cast = "fn mix(rate: f64, fee: u64) { let total = (rate as u64) + fee; }";
    assert_eq!(run_solana_integer_overflow(cast).len(), 1);
}

#[test]
fn programs_are_fixed_by_paths() {
    let source = |value: &str| {
        format!(
            "fn go(accounts: &[AccountInfo], programs: &Programs) {{ \
             let ix = Instruction {{ program_id: {}, accounts: vec![], data: vec![] }}; \
             invoke(&ix, accounts)?; }}",
            value
        )
    };
    assert!(run_solana_arbitrary_cpi(&source("TOKEN_PROGRAM_ID")).is_empty());
    assert!(run_solana_arbitrary_cpi(&source("crate::ids::TOKEN_PROGRAM_ID")).is_empty());
    assert_eq!(run_solana_arbitrary_cpi(&source("*programs[INDEX].key")).len(), 1);
    assert_eq!(run_solana_arbitrary_cpi(&source("pick(programs, INDEX)")).len(), 1);
}

#[test]
fn callbacks_are_guarded_by_flags_of_comparisons() {
    let source = |init: &str, condition: &str| {
        format!(
            "use near_sdk::env; #[near_bindgen] impl Contract {{ \
             pub fn on_transfer_complete(&mut self, amount: U128) {{ \
             let own = {}; assert!({}); self.total += amount.0; }} }}",
            init, condition
        )
    };
    let same = "env::predecessor_account_id() == env::current_account_id()";
    let inner = format!("vec![1].iter().map(|_| {}).count() > 0", same);
    assert!(run_near_missing_private(&source(same, "own")).is_empty());
    assert!(run_near_missing_private(&source(&format!("!({})", same), "!own")).is_empty());
    assert!(!run_near_missing_private(&source(same, "check(\"own\")")).is_empty());
    assert!(!run_near_missing_private(&source(&inner, "own")).is_empty());
}

#[test]
fn pending_fields_are_written_before_the_call() {
    let source = |body: &str| format!("fn start(&mut self, amount: u128) {{ {} }}", body);
    let write = "self.pending_amount = amount;";
    let call = "ext_self::on_done(env::current_account_id(), 0, GAS);";
    let method = "self.ext_self(GAS).on_done();";
    let word = "env::log_str(\"ext_self\");";
    let count = |body: String| run_near_self_callback(&source(&body)).len();
    assert_eq!(count(format!("{} {}", write, call)), 1);
    assert_eq!(count(format!("{} {}", write, method)), 1);
    assert_eq!(count(format!("{} {}", call, write)), 0);
    assert_eq!(count(format!("{} {}", method, write)), 0);
    assert_eq!(count(format!("{} {}", write, word)), 0);
    assert_eq!(count(format!("{} {} assert!(self.locked);", write, call)), 0);
}

#[test]
fn storage_handlers_that_only_log_are_reported() {
    let source = |line: &str| {
        format!(
            "fn storage_withdraw(&mut self, holder: AccountId) {{ {} self.balances.remove(&holder); }}",
            line
        )
    };
    let count = |line: &str| run_near_storage_staking(&source(line)).len();
    assert_eq!(count("require!(env::predecessor_account_id() == holder);"), 0);
    assert_eq!(count("let caller = env::predecessor_account_id();"), 0);
    assert_eq!(count("env::log_str(&format!(\"{}\", env::predecessor_account_id()));"), 1);
    assert_eq!(count("assert!(self.open, \"{}\", env::predecessor_account_id());"), 1);
    assert_eq!(count("env::log_str(\"predecessor_account_id\");"), 1);
    assert_eq!(count("if self.ctx.predecessor_account_id != holder { env::panic_str(\"no\"); }"), 0);
    assert_eq!(count("let Context { predecessor_account_id, .. } = context();"), 0);
    assert_eq!(count("let held = self.ctx.receiver_id;"), 1);
}

#[test]
fn transfers_go_to_a_parameter() {
    let source = |line: &str| {
        format!(
            "use near_sdk::env; fn claim(&mut self, to: AccountId, amount: u128) {{ {} }}",
            line
        )
    };
    assert_eq!(run_near_frontrunning(&source("Promise::new(to).transfer(amount);")).len(), 1);
    assert!(run_near_frontrunning(&source("self.total -= amount;")).is_empty());
}

#[test]
fn deposits_are_checked_in_the_body() {
    let source = |line: &str| {
        format!(
            "use near_sdk::env; impl Contract {{ #[payable] pub fn purchase(&mut self) {{ {} }} }}",
            line
        )
    };
    let checked = source("let paid = env::attached_deposit();");
    let unchecked = source("self.sold += 1;");
    assert!(run_near_missing_deposit_check(&checked).is_empty());
    assert_eq!(run_near_missing_deposit_check(&unchecked).len(), 1);
}

#[test]
fn gas_is_given_in_the_body() {
    let source = |line: &str| {
        format!(
            "use near_sdk::env; fn relay(&self) {{ {} self.promise.function_call(a, b); }}",
            line
        )
    };
    assert!(run_near_missing_gas_callback(&source("let g = env::prepaid_gas();")).is_empty());
    assert_eq!(run_near_missing_gas_callback(&source("self.sent += 1;")).len(), 1);
}

#[test]
fn unwrapped_operations_are_settled_before() {
    let source = |body: &str| {
        format!(
            "use solana_program::msg; fn add(a: u64, b: u64) -> Result<u64, E> {{ {} }}",
            body
        )
    };
    let count = |body: &str| run_solana_checked_arithmetic_unwrap(&source(body)).len();
    let refuse = "if a.checked_add(b).is_none() { return Err(E::Overflow); }";
    let mention = "if a.checked_add(b).is_none() { msg!(\"overflow\"); }";
    let unwrap = "let total = a.checked_add(b).unwrap();";
    assert_eq!(count(&format!("{} {} Ok(total)", refuse, unwrap)), 0);
    assert_eq!(count(&format!("{} {} Ok(total)", unwrap, refuse)), 1);
    assert_eq!(count(&format!("{} {} Ok(total)", mention, unwrap)), 1);
    assert_eq!(count(&format!("if a.checked_add(b).is_some() {{ {} }} Ok(0)", unwrap)), 0);
}

#[test]
fn arithmetic_is_guarded_by_what_precedes_it() {
    let source = |body: &str| {
        format!(
            "fn check_funds(a: u64, b: u64) -> Result<(), E> {{ if a > b {{ return Err(E::Low); }} Ok(()) }} \
             fn add(a: u64, b: u64, key: Pubkey) -> Result<u64, E> {{ {} Ok(total) }}",
            body
        )
    };
    let count = |body: &str| run_solana_integer_overflow(&source(body)).len();
    let sum = "let total = a + b;";
    let bail = "if a > LIMIT { return Err(E::Big); }";
    let delegate = "check_funds(a, b)?;";
    let require = "require!(a < b, E::Big);";
    for guard in [bail, delegate, require] {
        assert_eq!(count(&format!("{} {}", guard, sum)), 0);
        assert_eq!(count(&format!("{} {}", sum, guard)), 1);
    }
    assert_eq!(count(&format!("{} let least = a.min(b);", sum)), 0);
    assert_eq!(count(&format!("{} let who = holder(key);", sum)), 1);
}

#[test]
fn contexts_handed_on_at_once_are_calls() {
    let source = |line: &str| {
        format!(
            "fn pay(vault: &AccountInfo, amount: u64) {{\n    {}\n    vault.try_borrow_mut_data();\n}}",
            line
        )
    };
    let built = source("let cpi = CpiContext::new(program, accounts);");
    let handed = source("let done = token::transfer(CpiContext::new(program, accounts), amount);");
    assert!(run_solana_cpi_reentrancy(&built).is_empty());
    assert_eq!(run_solana_cpi_reentrancy(&handed).len(), 1);
}

#[test]
fn account_data_is_read_by_borrowing() {
    let source = |line: &str| {
        format!(
            "fn load(account: &AccountInfo, borrower: &[u8]) {{ let raw = {}; let state = State::unpack(raw); }}",
            line
        )
    };
    assert_eq!(run_solana_missing_owner(&source("account.try_borrow_data()")).len(), 1);
    assert_eq!(run_solana_missing_owner(&source("account.borrow_data_unchecked()")).len(), 1);
    assert!(run_solana_missing_owner(&source("borrower")).is_empty());
}

#[test]
fn signers_are_checked_by_their_types() {
    let source = |line: &str| {
        format!(
            "fn withdraw(account: &AccountInfo) {{ {} account.try_borrow_mut_data().unwrap(); }}",
            line
        )
    };
    assert_eq!(run_solana_missing_signer(&source("")).len(), 1);
    assert!(run_solana_missing_signer(&source("let s: Signer<'info> = signer;")).is_empty());
}

#[test]
fn deserialization_is_code() {
    let source = |line: &str| format!("fn load(account: &AccountInfo) {{ {} }}", line);
    let code = source("let state = State::deserialize(&mut data);");
    let word = source("msg!(\"State :: deserialize (data)\");");
    assert_eq!(run_solana_account_confusion(&code).len(), 1);
    assert!(run_solana_account_confusion(&word).is_empty());
    assert_eq!(run_solana_account_data_matching(&code).len(), 1);
}

#[test]
fn keys_are_compared_before_both_are_written() {
    let source = |line: &str| {
        format!(
            "fn swap(from: &AccountInfo, to: &AccountInfo) {{ {} from.try_borrow_mut_data(); to.try_borrow_mut_data(); }}",
            line
        )
    };
    assert!(run_solana_duplicate_mutable_accounts(&source("assert_ne!(from.key, to.key);")).is_empty());
    assert_eq!(run_solana_duplicate_mutable_accounts(&source("")).len(), 1);
}

#[test]
fn programs_are_pinned_by_code() {
    let source = |params: &str, line: &str| {
        format!(
            "fn go(accounts: &[AccountInfo], {}) {{ {} invoke(&ix, accounts)?; }}",
            params, line
        )
    };
    let count = |params: &str, line: &str| run_solana_arbitrary_cpi(&source(params, line)).len();
    assert_eq!(count("id: u8", ""), 1);
    assert_eq!(count("id: u8", "log(token_program);"), 0);
    assert_eq!(count("target: Program<'info, Token>", ""), 0);
    assert_eq!(count("target: AnyProgram<'info>", ""), 1);
}

#[test]
fn initialization_is_judged_where_it_stands() {
    let source = |line: &str| {
        format!(
            "use anchor_lang::prelude::*; fn open(ctx: &Ctx) {{ flag(init_if_needed); {} go(TokenAccount); }}",
            line
        )
    };
    let message = format!("msg!(\"{}\");", "m".repeat(400));
    assert_eq!(run_solana_init_if_needed(&source("")).len(), 0);
    assert_eq!(run_solana_init_if_needed(&source(&message)).len(), 1);
}

#[test]
fn extended_tokens_are_known_by_any_mention() {
    let source = |doc: &str, line: &str| {
        format!(
            "#[doc = \"{}\"] fn show(mint: &Holder<Mint>) -> u8 {{ {} mint.decimals }}",
            doc, line
        )
    };
    let count = |doc: &str, line: &str| run_solana_token_extensions(&source(doc, line)).len();
    assert_eq!(count("Shows a mint.", "transfer(mint);"), 0);
    assert_eq!(count("Shows a Token2022 mint.", "transfer(mint);"), 1);
    assert_eq!(count("Shows a mint.", "msg!(\"spl_token_2022\"); transfer(mint);"), 1);
}

/// Asserts that the tokens of `node`, and of every node below it, are printed as the
/// text of the node reads.
fn assert_printed(node: &Node, count: &mut usize) {
    if !node.tokens.is_empty() {
        assert_eq!(code_string_of(&node.tokens), node.text);
        *count += 1;
    }
    for child in &node.children {
        assert_printed(child, count);
    }
    if let Some(args) = &node.args {
        for arg in args {
            assert_printed(arg, count);
        }
    }
}

#[test]
fn tokens_are_printed_as_the_text_reads() {
    let sources = [
        "fn f() {}",
        "fn f<'a, T: Into<u8>>(x: &'a mut [T; 2]) -> Option<&'a T> where T: Copy { x.iter().next() }",
        "fn f(a: u64) -> u64 { let b = a as u128 * 3; if b >= 1 && !g(a)? { a <<= 2; } else { a } }",
        "fn f(v: Vec<Vec<u8>>) { for i in 0..=9 { v[i] += -1; } loop { break 'out; } }",
        "fn f() { m!(a => b; c, { d }, [e]); m!{}; m![]; let g = |x: u8| -> u8 { x }; }",
        "impl A for B { #[inline] pub(crate) fn f(&self) -> [u8; 4] { [0; 4] } }",
        "#[derive(Accounts)] pub struct S<'info> { #[account(mut, has_one = owner @ E::Bad)] pub a: Signer<'info>, }",
        "mod m { use a::{b, c::*}; pub const N: usize = 1_000; static mut X: f64 = 1.5e3; }",
        "fn f(p: P) -> u8 { match p { P { x, .. } if x == 1 => x, P(.., y) | Q::R(y) => y, _ => r#type } }",
        "fn f() { a.0.1; <A as B>::c::<D>(); unsafe { *p = &raw; } x ..= y; async move { z.await }; }",
        "enum E { A = 1, B(u8), C { d: u8 } } trait T { type U; fn v(self: Box<Self>); } macro_rules! w { ($x:expr) => { $x }; }",
    ];
    let mut count = 0;
    for source in sources {
        let file = syn::parse_file(source).expect("the source parses");
        assert_printed(&tree_of(&file), &mut count);
    }
    assert!(count > 30);
}

#[test]
fn emptied_literals_are_printed_as_empty_strings() {
    let source = |one: &str, other: &str| {
        let text = format!("fn f(x: u8) {{ m!({} , x); g(&{}, [{}; 2]); }}", one, other, one);
        tree_of(&syn::parse_file(&text).expect("the source parses"))
    };
    let empty = source("\"\"", "\"\"");
    for one in ["\"a b\"", "'c'", "b'c'", "b\"x\"", "r#\"y \" z\"#", "br\"w\""] {
        let tree = source(one, "\"q\\\"q\"");
        assert_eq!(code_string_of(&tree.children[0].tokens), empty.children[0].text);
    }
}

/// Turns a parsed source file into a tree.
fn tree_of(file: &syn::File) -> Node {
    let mut builder = Builder {
        levels: vec![Vec::new()],
        role: Role::Part,
    };
    builder.visit_file(file);
    builder.take()
}

/// Turns an expression into a tree that plays `role`.
fn expr_tree(expr: &syn::Expr, role: Role) -> Node {
    let mut builder = Builder {
        levels: vec![Vec::new()],
        role,
    };
    builder.visit_expr(expr);
    builder.take()
}

/// Turns a token stream into the library's tokens.
fn tokens_of(stream: TokenStream) -> Vec<Token> {
    stream.into_iter().map(token_of).collect()
}

fn token_of(tree: TokenTree) -> Token {
    match tree {
        TokenTree::Ident(ident) => Token::Ident(ident.to_string()),
        TokenTree::Punct(punct) => Token::Punct {
            mark: punct.as_char(),
            joint: punct.spacing() == proc_macro2::Spacing::Joint,
        },
        TokenTree::Literal(literal) => Token::Literal(literal.to_string()),
        TokenTree::Group(group) => Token::Group {
            delimiter: match group.delimiter() {
                proc_macro2::Delimiter::Parenthesis => Delimiter::Parenthesis,
                proc_macro2::Delimiter::Brace => Delimiter::Brace,
                proc_macro2::Delimiter::Bracket => Delimiter::Bracket,
                proc_macro2::Delimiter::None => Delimiter::Invisible,
            },
            tokens: tokens_of(group.stream()),
        },
    }
}

fn printed<T: ToTokens>(node: &T) -> String {
    node.to_token_stream().to_string()
}

fn segments(path: &syn::Path) -> Vec<String> {
    path.segments.iter().map(|s| s.ident.to_string()).collect()
}

fn joined(path: &syn::Path) -> String {
    let words = segments(path).join("::");
    if path.leading_colon.is_some() {
        format!("::{}", words)
    } else {
        words
    }
}

fn ident_of(path: &syn::Path) -> String {
    match path.get_ident() {
        Some(ident) => ident.to_string(),
        None => String::new(),
    }
}

fn member_name(member: &syn::Member) -> (String, bool) {
    match member {
        syn::Member::Named(ident) => (ident.to_string(), true),
        syn::Member::Unnamed(index) => (index.index.to_string(), false),
    }
}

/// A node without children, with the text of `source`, at `span`.
fn leaf<T: ToTokens>(kind: Kind, source: &T, span: Span) -> Node {
    let start = span.start();
    Node {
        kind,
        role: Role::Part,
        name: String::new(),
        text: printed(source),
        words: Vec::new(),
        tokens: Vec::new(),
        args: None,
        children: Vec::new(),
        line: start.line,
        column: start.column + 1,
    }
}

fn named(mut node: Node, name: String) -> Node {
    node.name = name;
    node
}

fn spelled(mut node: Node, path: &syn::Path) -> Node {
    node.words = segments(path);
    node
}

fn tokenized<T: ToTokens>(mut node: Node, source: &T) -> Node {
    node.tokens = tokens_of(source.to_token_stream());
    node
}

struct Builder {
    /// The children collected so far, one list for each node that is open.
    levels: Vec<Vec<Node>>,
    /// The role of the next node.
    role: Role,
}

impl Builder {
    fn take(mut self) -> Node {
        let mut roots = self.levels.pop().unwrap_or_default();
        match roots.pop() {
            Some(node) => node,
            None => unreachable!("a visit of a file or an expression adds a node"),
        }
    }

    /// Adds `node`, with what `inside` adds as its children.
    fn put<F: FnOnce(&mut Builder)>(&mut self, mut node: Node, inside: F) {
        node.role = std::mem::replace(&mut self.role, Role::Part);
        self.levels.push(Vec::new());
        inside(self);
        node.children = self.levels.pop().unwrap_or_default();
        if let Some(level) = self.levels.last_mut() {
            level.push(node);
        }
    }

    /// Adds what `add` adds in the role `role`.
    fn part<F: FnOnce(&mut Builder)>(&mut self, role: Role, add: F) {
        self.role = role;
        add(self);
        self.role = Role::Part;
    }

    fn attributes(&mut self, attrs: &[syn::Attribute]) {
        for attr in attrs {
            self.visit_attribute(attr);
        }
    }

    fn signature(&mut self, sig: &syn::Signature) {
        if let Some(abi) = &sig.abi {
            self.visit_abi(abi);
        }
        self.visit_generics(&sig.generics);
        for input in &sig.inputs {
            self.part(Role::Param, |b| b.visit_fn_arg(input));
        }
        if let Some(variadic) = &sig.variadic {
            self.visit_variadic(variadic);
        }
        if let syn::ReturnType::Type(_, ty) = &sig.output {
            self.part(Role::Output, |b| b.visit_type(ty));
        }
    }

    fn operand(&mut self, kind: Kind, node: &impl ToTokens, attrs: &[syn::Attribute], expr: &syn::Expr) {
        let leaf = leaf(kind, node, node.span());
        self.put(leaf, |b| {
            b.attributes(attrs);
            b.part(Role::Operand, |b| b.visit_expr(expr));
        });
    }
}

impl<'ast> Visit<'ast> for Builder {
    fn visit_file(&mut self, file: &'ast syn::File) {
        let mut node = leaf(Kind::File, &TokenStream::new(), Span::call_site());
        node.line = 0;
        node.column = 0;
        self.put(node, |b| {
            b.attributes(&file.attrs);
            for item in &file.items {
                b.part(Role::Entry, |b| b.visit_item(item));
            }
        });
    }

    fn visit_item(&mut self, item: &'ast syn::Item) {
        match item {
            syn::Item::Fn(_)
            | syn::Item::Mod(_)
            | syn::Item::Impl(_)
            | syn::Item::Struct(_)
            | syn::Item::Const(_)
            | syn::Item::Static(_) => visit::visit_item(self, item),
            _ => {
                let node = tokenized(leaf(Kind::Item, item, item.span()), item);
                self.put(node, |b| visit::visit_item(b, item));
            }
        }
    }

    fn visit_item_fn(&mut self, item: &'ast syn::ItemFn) {
        let node = tokenized(leaf(Kind::Function, item, item.sig.ident.span()), item);
        self.put(named(node, item.sig.ident.to_string()), |b| {
            b.attributes(&item.attrs);
            b.visit_visibility(&item.vis);
            b.signature(&item.sig);
            b.part(Role::Body, |b| b.visit_block(&item.block));
        });
    }

    fn visit_impl_item_fn(&mut self, item: &'ast syn::ImplItemFn) {
        let public = matches!(item.vis, syn::Visibility::Public(_));
        let node = leaf(Kind::Method { public }, item, item.sig.ident.span());
        self.put(named(node, item.sig.ident.to_string()), |b| {
            b.attributes(&item.attrs);
            b.visit_visibility(&item.vis);
            b.signature(&item.sig);
            b.part(Role::Body, |b| b.visit_block(&item.block));
        });
    }

    fn visit_item_mod(&mut self, item: &'ast syn::ItemMod) {
        let node = tokenized(leaf(Kind::Module, item, item.ident.span()), item);
        self.put(named(node, item.ident.to_string()), |b| {
            b.attributes(&item.attrs);
            b.visit_visibility(&item.vis);
            if let Some((_, items)) = &item.content {
                for inner in items {
                    b.part(Role::Entry, |b| b.visit_item(inner));
                }
            }
        });
    }

    fn visit_item_impl(&mut self, item: &'ast syn::ItemImpl) {
        let node = tokenized(leaf(Kind::Impl, item, item.impl_token.span), item);
        self.put(node, |b| {
            b.attributes(&item.attrs);
            b.visit_generics(&item.generics);
            if let Some((_, path, _)) = &item.trait_ {
                b.visit_path(path);
            }
            b.visit_type(&item.self_ty);
            for inner in &item.items {
                let role = match inner {
                    syn::ImplItem::Fn(_) => Role::Entry,
                    _ => Role::Part,
                };
                b.part(role, |b| b.visit_impl_item(inner));
            }
        });
    }

    fn visit_item_struct(&mut self, item: &'ast syn::ItemStruct) {
        let is_named = matches!(item.fields, syn::Fields::Named(_));
        let kind = Kind::Struct { named: is_named };
        let node = tokenized(leaf(kind, item, item.ident.span()), item);
        self.put(named(node, item.ident.to_string()), |b| {
            b.attributes(&item.attrs);
            b.visit_visibility(&item.vis);
            b.visit_generics(&item.generics);
            for field in &item.fields {
                b.part(Role::Field, |b| b.visit_field(field));
            }
        });
    }

    fn visit_field(&mut self, field: &'ast syn::Field) {
        let name = match &field.ident {
            Some(ident) => ident.to_string(),
            None => String::new(),
        };
        let node = leaf(Kind::FieldDef, field, field.span());
        self.put(named(node, name), |b| {
            b.attributes(&field.attrs);
            b.visit_visibility(&field.vis);
            b.part(Role::Type, |b| b.visit_type(&field.ty));
        });
    }

    fn visit_item_const(&mut self, item: &'ast syn::ItemConst) {
        let node = tokenized(leaf(Kind::Const, item, item.ident.span()), item);
        self.put(named(node, item.ident.to_string()), |b| {
            visit::visit_item_const(b, item)
        });
    }

    fn visit_item_static(&mut self, item: &'ast syn::ItemStatic) {
        let node = tokenized(leaf(Kind::Static, item, item.ident.span()), item);
        self.put(named(node, item.ident.to_string()), |b| {
            visit::visit_item_static(b, item)
        });
    }

    fn visit_attribute(&mut self, attr: &'ast syn::Attribute) {
        let shape = match &attr.meta {
            syn::Meta::Path(_) => Shape::Path,
            syn::Meta::List(_) => Shape::List,
            syn::Meta::NameValue(_) => Shape::NameValue,
        };
        let path = attr.path();
        let span = match path.segments.first() {
            Some(segment) => segment.ident.span(),
            None => Span::call_site(),
        };
        let node = leaf(Kind::Attribute { shape }, &attr.meta, span);
        self.role = Role::Attribute;
        self.put(named(spelled(node, path), joined(path)), |b| {
            b.visit_meta(&attr.meta)
        });
    }

    fn visit_fn_arg(&mut self, arg: &'ast syn::FnArg) {
        match arg {
            syn::FnArg::Receiver(receiver) => {
                let kind = Kind::Receiver {
                    reference: receiver.reference.is_some(),
                    mutable: receiver.mutability.is_some(),
                };
                let node = leaf(kind, receiver, receiver.self_token.span);
                self.put(node, |b| visit::visit_receiver(b, receiver));
            }
            syn::FnArg::Typed(param) => {
                let node = leaf(Kind::Param, param, param.span());
                self.put(node, |b| {
                    b.attributes(&param.attrs);
                    b.part(Role::Pattern, |b| b.visit_pat(&param.pat));
                    b.part(Role::Type, |b| b.visit_type(&param.ty));
                });
            }
        }
    }

    fn visit_block(&mut self, block: &'ast syn::Block) {
        let node = leaf(Kind::Block, block, block.brace_token.span.open());
        self.put(tokenized(node, block), |b| {
            for stmt in &block.stmts {
                b.part(Role::Entry, |b| b.visit_stmt(stmt));
            }
        });
    }

    fn visit_stmt(&mut self, stmt: &'ast syn::Stmt) {
        match stmt {
            syn::Stmt::Expr(expr, semi) => {
                let first = expr.to_token_stream().into_iter().next();
                let span = match first {
                    Some(tree) => tree.span(),
                    None => Span::call_site(),
                };
                let kind = Kind::ExprStmt {
                    semi: semi.is_some(),
                };
                self.put(tokenized(leaf(kind, stmt, span), stmt), |b| {
                    b.part(Role::Operand, |b| b.visit_expr(expr))
                });
            }
            _ => visit::visit_stmt(self, stmt),
        }
    }

    fn visit_stmt_macro(&mut self, stmt: &'ast syn::StmtMacro) {
        let span = match stmt.mac.path.segments.first() {
            Some(segment) => segment.ident.span(),
            None => Span::call_site(),
        };
        self.put(tokenized(leaf(Kind::StmtMacro, stmt, span), stmt), |b| {
            b.attributes(&stmt.attrs);
            b.part(Role::Operand, |b| b.visit_macro(&stmt.mac));
        });
    }

    fn visit_local(&mut self, local: &'ast syn::Local) {
        let node = leaf(Kind::Local, local, local.let_token.span);
        self.put(tokenized(node, local), |b| {
            b.attributes(&local.attrs);
            b.part(Role::Pattern, |b| b.visit_pat(&local.pat));
            if let Some(init) = &local.init {
                b.part(Role::Init, |b| b.visit_expr(&init.expr));
                if let Some((_, diverge)) = &init.diverge {
                    b.visit_expr(diverge);
                }
            }
        });
    }

    fn visit_macro(&mut self, mac: &'ast syn::Macro) {
        let mut node = leaf(Kind::Macro, &mac.tokens, mac.path.span());
        node.tokens = tokens_of(mac.tokens.clone());
        let parser = Punctuated::<syn::Expr, syn::token::Comma>::parse_terminated;
        node.args = match mac.parse_body_with(parser) {
            Ok(args) => Some(
                args.iter()
                    .map(|arg| expr_tree(arg, Role::Argument))
                    .collect(),
            ),
            Err(_) => None,
        };
        self.put(spelled(node, &mac.path), |b| b.visit_path(&mac.path));
    }

    fn visit_path(&mut self, path: &'ast syn::Path) {
        let span = match path.segments.last() {
            Some(segment) => segment.ident.span(),
            None => Span::call_site(),
        };
        let node = leaf(Kind::Path, path, span);
        self.put(named(spelled(node, path), ident_of(path)), |b| {
            visit::visit_path(b, path)
        });
    }

    fn visit_expr(&mut self, expr: &'ast syn::Expr) {
        match expr {
            syn::Expr::Path(_)
            | syn::Expr::Call(_)
            | syn::Expr::MethodCall(_)
            | syn::Expr::Macro(_)
            | syn::Expr::Paren(_)
            | syn::Expr::Group(_)
            | syn::Expr::Reference(_)
            | syn::Expr::Cast(_)
            | syn::Expr::Unary(_)
            | syn::Expr::Try(_)
            | syn::Expr::Field(_)
            | syn::Expr::Index(_)
            | syn::Expr::Range(_)
            | syn::Expr::Block(_)
            | syn::Expr::Unsafe(_)
            | syn::Expr::Binary(_)
            | syn::Expr::Assign(_)
            | syn::Expr::If(_)
            | syn::Expr::Match(_)
            | syn::Expr::Return(_)
            | syn::Expr::Struct(_)
            | syn::Expr::Lit(_) => visit::visit_expr(self, expr),
            _ => {
                let node = leaf(Kind::Expr, expr, expr.span());
                self.put(node, |b| visit::visit_expr(b, expr));
            }
        }
    }

    fn visit_expr_path(&mut self, expr: &'ast syn::ExprPath) {
        let node = leaf(Kind::PathExpr, expr, expr.span());
        self.put(
            named(spelled(node, &expr.path), ident_of(&expr.path)),
            |b| {
                b.attributes(&expr.attrs);
                if let Some(qself) = &expr.qself {
                    b.part(Role::Type, |b| b.visit_type(&qself.ty));
                }
                b.visit_path(&expr.path);
            },
        );
    }

    fn visit_expr_call(&mut self, expr: &'ast syn::ExprCall) {
        self.put(leaf(Kind::Call, expr, expr.span()), |b| {
            b.attributes(&expr.attrs);
            b.part(Role::Callee, |b| b.visit_expr(&expr.func));
            for arg in &expr.args {
                b.part(Role::Argument, |b| b.visit_expr(arg));
            }
        });
    }

    fn visit_expr_method_call(&mut self, expr: &'ast syn::ExprMethodCall) {
        let node = leaf(Kind::MethodCall, expr, expr.method.span());
        self.put(named(node, expr.method.to_string()), |b| {
            b.attributes(&expr.attrs);
            b.part(Role::Receiver, |b| b.visit_expr(&expr.receiver));
            if let Some(turbofish) = &expr.turbofish {
                b.visit_angle_bracketed_generic_arguments(turbofish);
            }
            for arg in &expr.args {
                b.part(Role::Argument, |b| b.visit_expr(arg));
            }
        });
    }

    fn visit_expr_macro(&mut self, expr: &'ast syn::ExprMacro) {
        self.put(leaf(Kind::MacroExpr, expr, expr.span()), |b| {
            b.attributes(&expr.attrs);
            b.part(Role::Operand, |b| b.visit_macro(&expr.mac));
        });
    }

    fn visit_expr_paren(&mut self, expr: &'ast syn::ExprParen) {
        self.operand(Kind::Paren, expr, &expr.attrs, &expr.expr);
    }

    fn visit_expr_group(&mut self, expr: &'ast syn::ExprGroup) {
        self.operand(Kind::Group, expr, &expr.attrs, &expr.expr);
    }

    fn visit_expr_reference(&mut self, expr: &'ast syn::ExprReference) {
        let mutable = expr.mutability.is_some();
        self.operand(Kind::Reference { mutable }, expr, &expr.attrs, &expr.expr);
    }

    fn visit_expr_try(&mut self, expr: &'ast syn::ExprTry) {
        self.operand(Kind::Try, expr, &expr.attrs, &expr.expr);
    }

    fn visit_expr_cast(&mut self, expr: &'ast syn::ExprCast) {
        self.put(leaf(Kind::Cast, expr, expr.span()), |b| {
            b.attributes(&expr.attrs);
            b.part(Role::Operand, |b| b.visit_expr(&expr.expr));
            b.part(Role::Type, |b| b.visit_type(&expr.ty));
        });
    }

    fn visit_expr_unary(&mut self, expr: &'ast syn::ExprUnary) {
        let node = leaf(Kind::Unary, expr, expr.span());
        self.put(named(node, printed(&expr.op)), |b| {
            b.attributes(&expr.attrs);
            b.part(Role::Operand, |b| b.visit_expr(&expr.expr));
        });
    }

    fn visit_expr_field(&mut self, expr: &'ast syn::ExprField) {
        let (name, is_named) = member_name(&expr.member);
        let node = leaf(Kind::Field { named: is_named }, expr, expr.span());
        self.put(named(node, name), |b| {
            b.attributes(&expr.attrs);
            b.part(Role::Operand, |b| b.visit_expr(&expr.base));
        });
    }

    fn visit_expr_index(&mut self, expr: &'ast syn::ExprIndex) {
        self.put(leaf(Kind::Index, expr, expr.span()), |b| {
            b.attributes(&expr.attrs);
            b.part(Role::Operand, |b| b.visit_expr(&expr.expr));
            b.part(Role::Index, |b| b.visit_expr(&expr.index));
        });
    }

    fn visit_expr_range(&mut self, expr: &'ast syn::ExprRange) {
        let closed = matches!(expr.limits, syn::RangeLimits::Closed(_));
        self.put(leaf(Kind::Range { closed }, expr, expr.span()), |b| {
            b.attributes(&expr.attrs);
            if let Some(start) = &expr.start {
                b.part(Role::Left, |b| b.visit_expr(start));
            }
            if let Some(end) = &expr.end {
                b.part(Role::Right, |b| b.visit_expr(end));
            }
        });
    }

    fn visit_expr_block(&mut self, expr: &'ast syn::ExprBlock) {
        self.put(leaf(Kind::BlockExpr, expr, expr.span()), |b| {
            b.attributes(&expr.attrs);
            b.part(Role::Body, |b| b.visit_block(&expr.block));
        });
    }

    fn visit_expr_unsafe(&mut self, expr: &'ast syn::ExprUnsafe) {
        self.put(leaf(Kind::Unsafe, expr, expr.span()), |b| {
            b.attributes(&expr.attrs);
            b.part(Role::Body, |b| b.visit_block(&expr.block));
        });
    }

    fn visit_expr_binary(&mut self, expr: &'ast syn::ExprBinary) {
        let node = leaf(Kind::Binary, expr, expr.op.span());
        self.put(named(node, printed(&expr.op)), |b| {
            b.attributes(&expr.attrs);
            b.part(Role::Left, |b| b.visit_expr(&expr.left));
            b.part(Role::Right, |b| b.visit_expr(&expr.right));
        });
    }

    fn visit_expr_assign(&mut self, expr: &'ast syn::ExprAssign) {
        self.put(leaf(Kind::Assign, expr, expr.span()), |b| {
            b.attributes(&expr.attrs);
            b.part(Role::Left, |b| b.visit_expr(&expr.left));
            b.part(Role::Right, |b| b.visit_expr(&expr.right));
        });
    }

    fn visit_expr_if(&mut self, expr: &'ast syn::ExprIf) {
        self.put(leaf(Kind::If, expr, expr.span()), |b| {
            b.attributes(&expr.attrs);
            b.part(Role::Condition, |b| b.visit_expr(&expr.cond));
            b.part(Role::Then, |b| b.visit_block(&expr.then_branch));
            if let Some((_, other)) = &expr.else_branch {
                b.part(Role::Else, |b| b.visit_expr(other));
            }
        });
    }

    fn visit_expr_match(&mut self, expr: &'ast syn::ExprMatch) {
        self.put(leaf(Kind::Match, expr, expr.span()), |b| {
            b.attributes(&expr.attrs);
            b.part(Role::Operand, |b| b.visit_expr(&expr.expr));
            for arm in &expr.arms {
                b.attributes(&arm.attrs);
                b.part(Role::Pattern, |b| b.visit_pat(&arm.pat));
                if let Some((_, guard)) = &arm.guard {
                    b.part(Role::Condition, |b| b.visit_expr(guard));
                }
                b.part(Role::Then, |b| b.visit_expr(&arm.body));
            }
        });
    }

    fn visit_expr_return(&mut self, expr: &'ast syn::ExprReturn) {
        self.put(leaf(Kind::Return, expr, expr.span()), |b| {
            b.attributes(&expr.attrs);
            if let Some(value) = &expr.expr {
                b.part(Role::Operand, |b| b.visit_expr(value));
            }
        });
    }

    fn visit_expr_struct(&mut self, expr: &'ast syn::ExprStruct) {
        let node = leaf(Kind::StructExpr, expr, expr.span());
        self.put(spelled(node, &expr.path), |b| {
            b.attributes(&expr.attrs);
            if let Some(qself) = &expr.qself {
                b.visit_qself(qself);
            }
            b.visit_path(&expr.path);
            for field in &expr.fields {
                b.part(Role::Field, |b| b.visit_field_value(field));
            }
            if let Some(rest) = &expr.rest {
                b.visit_expr(rest);
            }
        });
    }

    fn visit_field_value(&mut self, field: &'ast syn::FieldValue) {
        let (name, _) = member_name(&field.member);
        let node = leaf(Kind::FieldValue, field, field.span());
        self.put(named(node, name), |b| {
            b.attributes(&field.attrs);
            b.part(Role::Operand, |b| b.visit_expr(&field.expr));
        });
    }

    fn visit_expr_lit(&mut self, expr: &'ast syn::ExprLit) {
        let kind = match &expr.lit {
            syn::Lit::Int(_) => Kind::LitInt,
            syn::Lit::Float(_) => Kind::LitFloat,
            _ => Kind::Literal,
        };
        self.put(leaf(kind, &expr.lit, expr.lit.span()), |b| {
            b.attributes(&expr.attrs)
        });
    }

    fn visit_pat(&mut self, pat: &'ast syn::Pat) {
        match pat {
            syn::Pat::Ident(_)
            | syn::Pat::Type(_)
            | syn::Pat::Tuple(_)
            | syn::Pat::Reference(_)
            | syn::Pat::TupleStruct(_) => visit::visit_pat(self, pat),
            _ => {
                let node = leaf(Kind::Pat, pat, pat.span());
                self.put(node, |b| visit::visit_pat(b, pat));
            }
        }
    }

    fn visit_pat_ident(&mut self, pat: &'ast syn::PatIdent) {
        let node = leaf(Kind::PatIdent, pat, pat.ident.span());
        self.put(named(node, pat.ident.to_string()), |b| {
            visit::visit_pat_ident(b, pat)
        });
    }

    fn visit_pat_type(&mut self, pat: &'ast syn::PatType) {
        self.put(leaf(Kind::PatType, pat, pat.span()), |b| {
            b.attributes(&pat.attrs);
            b.part(Role::Pattern, |b| b.visit_pat(&pat.pat));
            b.part(Role::Type, |b| b.visit_type(&pat.ty));
        });
    }

    fn visit_pat_tuple(&mut self, pat: &'ast syn::PatTuple) {
        self.put(leaf(Kind::PatTuple, pat, pat.span()), |b| {
            b.attributes(&pat.attrs);
            for elem in &pat.elems {
                b.part(Role::Pattern, |b| b.visit_pat(elem));
            }
        });
    }

    fn visit_pat_reference(&mut self, pat: &'ast syn::PatReference) {
        self.put(leaf(Kind::PatReference, pat, pat.span()), |b| {
            b.attributes(&pat.attrs);
            b.part(Role::Pattern, |b| b.visit_pat(&pat.pat));
        });
    }

    fn visit_pat_tuple_struct(&mut self, pat: &'ast syn::PatTupleStruct) {
        self.put(leaf(Kind::PatTupleStruct, pat, pat.span()), |b| {
            b.attributes(&pat.attrs);
            if let Some(qself) = &pat.qself {
                b.visit_qself(qself);
            }
            b.visit_path(&pat.path);
            for elem in &pat.elems {
                b.part(Role::Pattern, |b| b.visit_pat(elem));
            }
        });
    }

    fn visit_type(&mut self, ty: &'ast syn::Type) {
        let node = leaf(Kind::Type, ty, ty.span());
        self.put(node, |b| visit::visit_type(b, ty));
    }
}
