use early_wage::{BalanceQuery, EarlyWageContract, LedgerError, TransferFault, TransferOrder};
use soroban_sdk::testutils::{Address as _, EnvTestConfig};
use soroban_sdk::token::{StellarAssetClient, TokenClient};
use soroban_sdk::{Address, Env};

fn quiet_env() -> Env {
    let env = Env::new_with_config(EnvTestConfig {
        capture_snapshot_at_drop: false,
    });
    env.mock_all_auths();
    env
}

/// A token contract, with `amount` of it minted to `holder`.
fn token_with(env: &Env, holder: &Address, amount: i128) -> Address {
    let issuer = Address::generate(env);
    let token = env.register_stellar_asset_contract_v2(issuer).address();
    if amount > 0 {
        StellarAssetClient::new(env, &token).mint(holder, &amount);
    }
    token
}

fn held(env: &Env, token: &Address, holder: &Address) -> i128 {
    TokenClient::new(env, token).balance(holder)
}

/// The address of an account: nothing can be called there.
fn account(env: &Env) -> Address {
    Address::from_str(
        env,
        "GAAAAAAAAAAAAAAAAAAAAAAAAAAAAAAAAAAAAAAAAAAAAAAAAAAAAWHF",
    )
}

const NOT_A_CONTRACT: LedgerError = LedgerError::Transfer(TransferFault::NotAContract);

#[test]
fn deposit_asks_what_the_depositor_holds() {
    let env = quiet_env();
    let vault = Address::generate(&env);
    let employer = Address::generate(&env);
    let stranger = Address::generate(&env);
    let token = Address::generate(&env);
    let ledger = EarlyWageContract::new(&env, vault);
    assert_eq!(
        ledger.deposit_query(&employer, &employer, 5, &token),
        Ok(BalanceQuery {
            token: token.clone(),
            holder: employer.clone(),
        })
    );
    assert_eq!(
        ledger.deposit_query(&stranger, &employer, 5, &token),
        Err(LedgerError::Unauthorized)
    );
    assert_eq!(
        ledger.deposit_query(&employer, &employer, 0, &token),
        Err(LedgerError::InvalidAmount)
    );
    assert_eq!(
        ledger.deposit_query(&employer, &employer, 5, &account(&env)),
        Err(NOT_A_CONTRACT)
    );
    // the caller and the amount are looked at before the asset
    assert_eq!(
        ledger.deposit_query(&stranger, &employer, 5, &account(&env)),
        Err(LedgerError::Unauthorized)
    );
    assert_eq!(
        ledger.deposit_query(&employer, &employer, -1, &account(&env)),
        Err(LedgerError::InvalidAmount)
    );
}

#[test]
fn deposit_asks_about_the_depositor_and_not_the_vault() {
    let env = quiet_env();
    let vault = Address::generate(&env);
    let employer = Address::generate(&env);
    let token = token_with(&env, &vault, 900);
    let ledger = EarlyWageContract::new(&env, vault.clone());
    // the vault holds enough, the depositor nothing
    assert_eq!(
        ledger.deposit_to_vault(&env, &employer, &employer, 100, &token),
        Err(LedgerError::InsufficientBalance)
    );
    assert_eq!(held(&env, &token, &vault), 900);
}

#[test]
fn deposit_of_an_asset_that_is_an_account_is_refused() {
    let env = quiet_env();
    let vault = Address::generate(&env);
    let employer = Address::generate(&env);
    let ledger = EarlyWageContract::new(&env, vault);
    assert_eq!(
        ledger.deposit_to_vault(&env, &employer, &employer, 100, &account(&env)),
        Err(NOT_A_CONTRACT)
    );
    assert_eq!(
        ledger.plan_deposit(&employer, &employer, 100, &account(&env), 500),
        Err(NOT_A_CONTRACT)
    );
}

#[test]
fn an_account_can_deposit_and_be_paid() {
    let env = quiet_env();
    let vault = Address::generate(&env);
    let holder = account(&env);
    let token = token_with(&env, &vault, 5000);
    let mut ledger = EarlyWageContract::new(&env, vault.clone());
    // only the asset has to be a contract: a wallet may be an account
    assert_eq!(ledger.register_employee(holder.clone(), 1000, token.clone()), Ok(()));
    assert_eq!(
        ledger.plan_advance(1, 400, &token),
        Ok(TransferOrder {
            token: token.clone(),
            from: vault,
            to: holder.clone(),
            amount: 395,
        })
    );
    assert_eq!(ledger.get_emp_id_by_wallet(&holder), 1);
}

#[test]
fn advance_in_an_asset_that_is_an_account_changes_nothing() {
    let env = quiet_env();
    let vault = Address::generate(&env);
    let wallet = Address::generate(&env);
    let token = token_with(&env, &vault, 5000);
    let mut ledger = EarlyWageContract::new(&env, vault.clone());
    assert_eq!(ledger.register_employee(wallet.clone(), 1000, token.clone()), Ok(()));
    assert_eq!(
        ledger.request_advance(&env, 1, 400, &account(&env)),
        Err(NOT_A_CONTRACT)
    );
    assert_eq!(ledger.plan_advance(1, 400, &account(&env)), Err(NOT_A_CONTRACT));
    assert_eq!(
        ledger.conclude_advance(1, 400, &account(&env), Ok(())),
        Err(NOT_A_CONTRACT)
    );
    assert_eq!(ledger.get_remaining_salary(1), Ok(1000));
    // the ledger's own refusals come first
    assert_eq!(
        ledger.request_advance(&env, 1, 0, &account(&env)),
        Err(LedgerError::InvalidAmount)
    );
    assert_eq!(
        ledger.request_advance(&env, 2, 400, &account(&env)),
        Err(LedgerError::EmployeeNotFound)
    );
    assert_eq!(
        ledger.request_advance(&env, 1, 1000, &account(&env)),
        Err(LedgerError::AmountExceedsRemainingSalary)
    );
}

#[test]
fn release_in_an_asset_that_is_an_account_changes_nothing() {
    let env = quiet_env();
    let vault = Address::generate(&env);
    let wallet = Address::generate(&env);
    let token = token_with(&env, &vault, 5000);
    let mut ledger = EarlyWageContract::new(&env, vault.clone());
    assert_eq!(ledger.register_employee(wallet.clone(), 1000, token.clone()), Ok(()));
    assert_eq!(
        ledger.release_remaining_salary(&env, 1, &account(&env), 7),
        Err(NOT_A_CONTRACT)
    );
    assert_eq!(ledger.plan_release(1, &account(&env)), Err(NOT_A_CONTRACT));
    assert_eq!(ledger.get_remaining_salary(1), Ok(1000));
    assert_eq!(
        ledger.release_remaining_salary(&env, 2, &account(&env), 7),
        Err(LedgerError::EmployeeNotFound)
    );
    assert!(ledger.release_remaining_salary(&env, 1, &token, 0).is_ok());
    assert_eq!(
        ledger.release_remaining_salary(&env, 1, &account(&env), 7),
        Err(LedgerError::NoRemainingSalary)
    );
}

#[test]
fn query_is_copied_as_it_is() {
    let env = quiet_env();
    let query = BalanceQuery {
        token: Address::generate(&env),
        holder: account(&env),
    };
    assert_eq!(query.clone(), query);
}

#[test]
fn deposit_moves_the_amount_into_the_vault() {
    let env = quiet_env();
    let vault = Address::generate(&env);
    let employer = Address::generate(&env);
    let token = token_with(&env, &employer, 8000);
    let ledger = EarlyWageContract::new(&env, vault.clone());
    assert_eq!(
        ledger.deposit_to_vault(&env, &employer, &employer, 5000, &token),
        Ok(TransferOrder {
            token: token.clone(),
            from: employer.clone(),
            to: vault.clone(),
            amount: 5000,
        })
    );
    assert_eq!(held(&env, &token, &vault), 5000);
    assert_eq!(held(&env, &token, &employer), 3000);
    assert_eq!(ledger.vault_balance(&env, &token), Ok(5000));
}

#[test]
fn deposit_of_the_whole_balance_is_covered() {
    let env = quiet_env();
    let vault = Address::generate(&env);
    let employer = Address::generate(&env);
    let token = token_with(&env, &employer, 8000);
    let ledger = EarlyWageContract::new(&env, vault.clone());
    assert!(ledger
        .deposit_to_vault(&env, &employer, &employer, 8000, &token)
        .is_ok());
    assert_eq!(held(&env, &token, &vault), 8000);
    assert_eq!(held(&env, &token, &employer), 0);
}

#[test]
fn deposit_above_the_balance_is_refused_and_moves_nothing() {
    let env = quiet_env();
    let vault = Address::generate(&env);
    let employer = Address::generate(&env);
    let token = token_with(&env, &employer, 8000);
    let ledger = EarlyWageContract::new(&env, vault.clone());
    assert_eq!(
        ledger.deposit_to_vault(&env, &employer, &employer, 8001, &token),
        Err(LedgerError::InsufficientBalance)
    );
    assert_eq!(held(&env, &token, &vault), 0);
    assert_eq!(held(&env, &token, &employer), 8000);
    // a depositor who holds nothing
    let poor = Address::generate(&env);
    assert_eq!(
        ledger.deposit_to_vault(&env, &poor, &poor, 1, &token),
        Err(LedgerError::InsufficientBalance)
    );
}

#[test]
fn deposit_needs_a_positive_amount() {
    let env = quiet_env();
    let vault = Address::generate(&env);
    let employer = Address::generate(&env);
    let token = token_with(&env, &employer, 8000);
    let ledger = EarlyWageContract::new(&env, vault.clone());
    for amount in [0i128, -1, i128::MIN] {
        assert_eq!(
            ledger.deposit_to_vault(&env, &employer, &employer, amount, &token),
            Err(LedgerError::InvalidAmount)
        );
    }
    assert_eq!(held(&env, &token, &employer), 8000);
}

#[test]
fn deposit_needs_the_authority_of_the_depositor() {
    let env = quiet_env();
    let vault = Address::generate(&env);
    let employer = Address::generate(&env);
    let stranger = Address::generate(&env);
    let token = token_with(&env, &employer, 8000);
    let ledger = EarlyWageContract::new(&env, vault.clone());
    assert_eq!(
        ledger.deposit_to_vault(&env, &stranger, &employer, 100, &token),
        Err(LedgerError::Unauthorized)
    );
    // the caller is looked at before the amount
    assert_eq!(
        ledger.deposit_to_vault(&env, &stranger, &employer, 0, &token),
        Err(LedgerError::Unauthorized)
    );
    assert_eq!(held(&env, &token, &vault), 0);
    assert_eq!(held(&env, &token, &employer), 8000);
}

#[test]
fn deposit_to_what_is_no_token_fails_as_a_transfer() {
    let env = quiet_env();
    let vault = Address::generate(&env);
    let employer = Address::generate(&env);
    let no_token = Address::generate(&env);
    let ledger = EarlyWageContract::new(&env, vault);
    assert!(matches!(
        ledger.deposit_to_vault(&env, &employer, &employer, 100, &no_token),
        Err(LedgerError::Transfer(TransferFault::Rejected(_)))
    ));
}

#[test]
fn plan_deposit_decides_by_the_reported_balance() {
    let env = quiet_env();
    let vault = Address::generate(&env);
    let from = Address::generate(&env);
    let stranger = Address::generate(&env);
    let token = Address::generate(&env);
    let ledger = EarlyWageContract::new(&env, vault.clone());
    assert_eq!(
        ledger.plan_deposit(&from, &from, 100, &token, 100),
        Ok(TransferOrder {
            token: token.clone(),
            from: from.clone(),
            to: vault,
            amount: 100,
        })
    );
    assert_eq!(
        ledger.plan_deposit(&from, &from, 100, &token, 99),
        Err(LedgerError::InsufficientBalance)
    );
    assert_eq!(
        ledger.plan_deposit(&from, &from, 0, &token, 99),
        Err(LedgerError::InvalidAmount)
    );
    assert_eq!(
        ledger.plan_deposit(&from, &from, -5, &token, -10),
        Err(LedgerError::InvalidAmount)
    );
    assert_eq!(
        ledger.plan_deposit(&stranger, &from, 100, &token, 1000),
        Err(LedgerError::Unauthorized)
    );
}

#[test]
fn advance_of_1000_pays_988_and_leaves_9000() {
    let env = quiet_env();
    let vault = Address::generate(&env);
    let employer = Address::generate(&env);
    let wallet = Address::generate(&env);
    let token = token_with(&env, &employer, 20000);
    let mut ledger = EarlyWageContract::new(&env, vault.clone());
    assert!(ledger
        .deposit_to_vault(&env, &employer, &employer, 15000, &token)
        .is_ok());
    assert_eq!(ledger.register_employee(wallet.clone(), 10000, token.clone()), Ok(()));
    assert_eq!(ledger.get_emp_id_by_wallet(&wallet), 1);
    assert_eq!(ledger.get_remaining_salary(1), Ok(10000));

    assert_eq!(
        ledger.request_advance(&env, 1, 1000, &token),
        Ok(TransferOrder {
            token: token.clone(),
            from: vault.clone(),
            to: wallet.clone(),
            amount: 988,
        })
    );
    assert_eq!(held(&env, &token, &wallet), 988);
    assert_eq!(held(&env, &token, &vault), 15000 - 988);
    assert_eq!(ledger.get_remaining_salary(1), Ok(9000));
}

#[test]
fn advances_add_up() {
    let env = quiet_env();
    let vault = Address::generate(&env);
    let wallet = Address::generate(&env);
    let token = token_with(&env, &vault, 50000);
    let mut ledger = EarlyWageContract::new(&env, vault.clone());
    assert_eq!(ledger.register_employee(wallet.clone(), 10000, token.clone()), Ok(()));
    assert!(ledger.request_advance(&env, 1, 80, &token).is_ok());
    assert_eq!(held(&env, &token, &wallet), 79);
    assert!(ledger.request_advance(&env, 1, 79, &token).is_ok());
    assert_eq!(held(&env, &token, &wallet), 79 + 79);
    assert!(ledger.request_advance(&env, 1, 9840, &token).is_ok());
    assert_eq!(held(&env, &token, &wallet), 79 + 79 + (9840 - 123));
    assert_eq!(ledger.get_remaining_salary(1), Ok(1));
    // one unit is left, and no advance is below it
    assert_eq!(
        ledger.request_advance(&env, 1, 1, &token),
        Err(LedgerError::AmountExceedsRemainingSalary)
    );
}

#[test]
fn the_fee_is_one_and_a_quarter_percent_rounded_down() {
    let env = quiet_env();
    let vault = Address::generate(&env);
    let wallet = Address::generate(&env);
    let token = Address::generate(&env);
    let mut ledger = EarlyWageContract::new(&env, vault.clone());
    assert_eq!(ledger.register_employee(wallet.clone(), u128::MAX, token.clone()), Ok(()));
    let cases: [(i128, i128); 10] = [
        (1, 1),
        (79, 79),
        (80, 79),
        (159, 158),
        (160, 158),
        (1000, 988),
        (9999, 9875),
        (10000, 9875),
        (123456789, 121913580),
        (
            i128::MAX,
            168014418667213366335041212419435554406,
        ),
    ];
    for (amount, payout) in cases {
        assert_eq!(
            ledger.plan_advance(1, amount, &token),
            Ok(TransferOrder {
                token: token.clone(),
                from: vault.clone(),
                to: wallet.clone(),
                amount: payout,
            })
        );
    }
}

#[test]
fn advance_of_the_remaining_salary_or_more_is_refused() {
    let env = quiet_env();
    let vault = Address::generate(&env);
    let wallet = Address::generate(&env);
    let token = token_with(&env, &vault, 50000);
    let mut ledger = EarlyWageContract::new(&env, vault.clone());
    assert_eq!(ledger.register_employee(wallet.clone(), 10000, token.clone()), Ok(()));
    for amount in [10000i128, 10001, i128::MAX] {
        assert_eq!(
            ledger.request_advance(&env, 1, amount, &token),
            Err(LedgerError::AmountExceedsRemainingSalary)
        );
    }
    assert_eq!(ledger.get_remaining_salary(1), Ok(10000));
    assert_eq!(held(&env, &token, &wallet), 0);
    assert_eq!(held(&env, &token, &vault), 50000);
    // one below the remaining salary goes through
    assert!(ledger.request_advance(&env, 1, 9999, &token).is_ok());
    assert_eq!(ledger.get_remaining_salary(1), Ok(1));
    assert_eq!(held(&env, &token, &wallet), 9875);
}

#[test]
fn advance_needs_a_positive_amount() {
    let env = quiet_env();
    let vault = Address::generate(&env);
    let wallet = Address::generate(&env);
    let token = token_with(&env, &vault, 50000);
    let mut ledger = EarlyWageContract::new(&env, vault.clone());
    assert_eq!(ledger.register_employee(wallet, 10000, token.clone()), Ok(()));
    for amount in [0i128, -1, i128::MIN] {
        assert_eq!(
            ledger.request_advance(&env, 1, amount, &token),
            Err(LedgerError::InvalidAmount)
        );
        // the amount is looked at before the id
        assert_eq!(
            ledger.request_advance(&env, 7, amount, &token),
            Err(LedgerError::InvalidAmount)
        );
    }
    assert_eq!(ledger.get_remaining_salary(1), Ok(10000));
}

#[test]
fn advance_needs_an_employee() {
    let env = quiet_env();
    let vault = Address::generate(&env);
    let wallet = Address::generate(&env);
    let token = token_with(&env, &vault, 50000);
    let mut ledger = EarlyWageContract::new(&env, vault.clone());
    assert_eq!(
        ledger.request_advance(&env, 1, 10, &token),
        Err(LedgerError::EmployeeNotFound)
    );
    assert_eq!(ledger.register_employee(wallet, 10000, token.clone()), Ok(()));
    for id in [0u128, 2, u128::MAX] {
        assert_eq!(
            ledger.request_advance(&env, id, 10, &token),
            Err(LedgerError::EmployeeNotFound)
        );
    }
    assert_eq!(held(&env, &token, &vault), 50000);
}

#[test]
fn advance_that_the_vault_cannot_pay_changes_nothing() {
    let env = quiet_env();
    let vault = Address::generate(&env);
    let wallet = Address::generate(&env);
    let token = token_with(&env, &vault, 500);
    let mut ledger = EarlyWageContract::new(&env, vault.clone());
    assert_eq!(ledger.register_employee(wallet.clone(), 10000, token.clone()), Ok(()));
    assert!(matches!(
        ledger.request_advance(&env, 1, 1000, &token),
        Err(LedgerError::Transfer(TransferFault::Rejected(_)))
    ));
    assert_eq!(ledger.get_remaining_salary(1), Ok(10000));
    assert_eq!(held(&env, &token, &wallet), 0);
    assert_eq!(held(&env, &token, &vault), 500);
}

#[test]
fn advance_is_paid_in_the_asset_that_the_call_names() {
    let env = quiet_env();
    let vault = Address::generate(&env);
    let wallet = Address::generate(&env);
    let agreed = token_with(&env, &vault, 1000);
    let named = token_with(&env, &vault, 1000);
    let mut ledger = EarlyWageContract::new(&env, vault.clone());
    assert_eq!(ledger.register_employee(wallet.clone(), 10000, agreed.clone()), Ok(()));
    assert!(ledger.request_advance(&env, 1, 400, &named).is_ok());
    assert_eq!(held(&env, &named, &wallet), 395);
    assert_eq!(held(&env, &agreed, &wallet), 0);
    assert_eq!(ledger.get_remaining_salary(1), Ok(9600));
}

#[test]
fn conclude_advance_books_by_the_answer() {
    let env = quiet_env();
    let vault = Address::generate(&env);
    let wallet = Address::generate(&env);
    let token = Address::generate(&env);
    let mut ledger = EarlyWageContract::new(&env, vault.clone());
    assert_eq!(ledger.register_employee(wallet.clone(), 10000, token.clone()), Ok(()));
    assert_eq!(
        ledger.conclude_advance(1, 1000, &token, Err(TransferFault::BadReturn)),
        Err(LedgerError::Transfer(TransferFault::BadReturn))
    );
    assert_eq!(ledger.get_remaining_salary(1), Ok(10000));
    assert_eq!(
        ledger.conclude_advance(1, 1000, &token, Ok(())),
        Ok(TransferOrder {
            token: token.clone(),
            from: vault,
            to: wallet,
            amount: 988,
        })
    );
    assert_eq!(ledger.get_remaining_salary(1), Ok(9000));
    // a refusal comes before the answer
    assert_eq!(
        ledger.conclude_advance(1, 9000, &token, Ok(())),
        Err(LedgerError::AmountExceedsRemainingSalary)
    );
    assert_eq!(
        ledger.conclude_advance(2, 10, &token, Err(TransferFault::BadReturn)),
        Err(LedgerError::EmployeeNotFound)
    );
    assert_eq!(ledger.get_remaining_salary(1), Ok(9000));
}

#[test]
fn release_pays_what_is_left_and_sets_the_new_salary() {
    let env = quiet_env();
    let vault = Address::generate(&env);
    let wallet = Address::generate(&env);
    let token = token_with(&env, &vault, 50000);
    let mut ledger = EarlyWageContract::new(&env, vault.clone());
    assert_eq!(ledger.register_employee(wallet.clone(), 10000, token.clone()), Ok(()));
    assert!(ledger.request_advance(&env, 1, 1000, &token).is_ok());
    assert_eq!(
        ledger.release_remaining_salary(&env, 1, &token, 12000),
        Ok(TransferOrder {
            token: token.clone(),
            from: vault.clone(),
            to: wallet.clone(),
            amount: 9000,
        })
    );
    assert_eq!(held(&env, &token, &wallet), 988 + 9000);
    assert_eq!(held(&env, &token, &vault), 50000 - 988 - 9000);
    assert_eq!(ledger.get_remaining_salary(1), Ok(12000));
}

#[test]
fn release_to_zero_then_nothing_is_left() {
    let env = quiet_env();
    let vault = Address::generate(&env);
    let wallet = Address::generate(&env);
    let token = token_with(&env, &vault, 50000);
    let mut ledger = EarlyWageContract::new(&env, vault.clone());
    assert_eq!(ledger.register_employee(wallet.clone(), 10000, token.clone()), Ok(()));
    assert!(ledger.release_remaining_salary(&env, 1, &token, 0).is_ok());
    assert_eq!(ledger.get_remaining_salary(1), Ok(0));
    assert_eq!(held(&env, &token, &wallet), 10000);
    assert_eq!(
        ledger.release_remaining_salary(&env, 1, &token, 700),
        Err(LedgerError::NoRemainingSalary)
    );
    // the salary that the refused call named is not set
    assert_eq!(ledger.get_remaining_salary(1), Ok(0));
    assert_eq!(held(&env, &token, &wallet), 10000);
}

#[test]
fn release_for_an_employee_registered_with_nothing_is_refused() {
    let env = quiet_env();
    let vault = Address::generate(&env);
    let wallet = Address::generate(&env);
    let token = token_with(&env, &vault, 50000);
    let mut ledger = EarlyWageContract::new(&env, vault.clone());
    assert_eq!(ledger.register_employee(wallet, 0, token.clone()), Ok(()));
    assert_eq!(
        ledger.release_remaining_salary(&env, 1, &token, 5),
        Err(LedgerError::NoRemainingSalary)
    );
    assert_eq!(
        ledger.request_advance(&env, 1, 1, &token),
        Err(LedgerError::AmountExceedsRemainingSalary)
    );
}

#[test]
fn release_needs_an_employee() {
    let env = quiet_env();
    let vault = Address::generate(&env);
    let token = token_with(&env, &vault, 50000);
    let mut ledger = EarlyWageContract::new(&env, vault.clone());
    for id in [0u128, 1, u128::MAX] {
        assert_eq!(
            ledger.release_remaining_salary(&env, id, &token, 5),
            Err(LedgerError::EmployeeNotFound)
        );
    }
}

#[test]
fn release_that_the_vault_cannot_pay_changes_nothing() {
    let env = quiet_env();
    let vault = Address::generate(&env);
    let wallet = Address::generate(&env);
    let token = token_with(&env, &vault, 9999);
    let mut ledger = EarlyWageContract::new(&env, vault.clone());
    assert_eq!(ledger.register_employee(wallet.clone(), 10000, token.clone()), Ok(()));
    assert!(matches!(
        ledger.release_remaining_salary(&env, 1, &token, 0),
        Err(LedgerError::Transfer(TransferFault::Rejected(_)))
    ));
    assert_eq!(ledger.get_remaining_salary(1), Ok(10000));
    assert_eq!(held(&env, &token, &wallet), 0);
    assert_eq!(held(&env, &token, &vault), 9999);
}

#[test]
fn release_of_more_than_a_token_can_move_is_a_failed_transfer() {
    let env = quiet_env();
    let vault = Address::generate(&env);
    let wallet = Address::generate(&env);
    let token = token_with(&env, &vault, 9999);
    let mut ledger = EarlyWageContract::new(&env, vault.clone());
    let too_much = i128::MAX as u128 + 1;
    assert_eq!(ledger.register_employee(wallet.clone(), too_much, token.clone()), Ok(()));
    assert_eq!(
        ledger.plan_release(1, &token),
        Err(LedgerError::Transfer(TransferFault::AmountOutOfRange))
    );
    assert_eq!(
        ledger.release_remaining_salary(&env, 1, &token, 0),
        Err(LedgerError::Transfer(TransferFault::AmountOutOfRange))
    );
    assert_eq!(ledger.get_remaining_salary(1), Ok(too_much));
    assert_eq!(held(&env, &token, &vault), 9999);
}

#[test]
fn plan_release_is_for_all_that_is_left() {
    let env = quiet_env();
    let vault = Address::generate(&env);
    let wallet = Address::generate(&env);
    let token = Address::generate(&env);
    let mut ledger = EarlyWageContract::new(&env, vault.clone());
    assert_eq!(
        ledger.register_employee(wallet.clone(), i128::MAX as u128, token.clone()),
        Ok(())
    );
    assert_eq!(
        ledger.plan_release(1, &token),
        Ok(TransferOrder {
            token: token.clone(),
            from: vault,
            to: wallet,
            amount: i128::MAX,
        })
    );
    assert_eq!(ledger.plan_release(2, &token), Err(LedgerError::EmployeeNotFound));
}

#[test]
fn conclude_release_books_by_the_answer() {
    let env = quiet_env();
    let vault = Address::generate(&env);
    let wallet = Address::generate(&env);
    let token = Address::generate(&env);
    let mut ledger = EarlyWageContract::new(&env, vault.clone());
    assert_eq!(ledger.register_employee(wallet.clone(), 300, token.clone()), Ok(()));
    assert_eq!(
        ledger.conclude_release(1, &token, 50, Err(TransferFault::BadReturn)),
        Err(LedgerError::Transfer(TransferFault::BadReturn))
    );
    assert_eq!(ledger.get_remaining_salary(1), Ok(300));
    assert_eq!(
        ledger.conclude_release(1, &token, 50, Ok(())),
        Ok(TransferOrder {
            token: token.clone(),
            from: vault,
            to: wallet,
            amount: 300,
        })
    );
    assert_eq!(ledger.get_remaining_salary(1), Ok(50));
}

#[test]
fn payments_leave_the_other_records_alone() {
    let env = quiet_env();
    let vault = Address::generate(&env);
    let first = Address::generate(&env);
    let second = Address::generate(&env);
    let token = token_with(&env, &vault, 50000);
    let mut ledger = EarlyWageContract::new(&env, vault.clone());
    assert_eq!(ledger.register_employee(first.clone(), 1000, token.clone()), Ok(()));
    assert_eq!(ledger.register_employee(second.clone(), 2000, token.clone()), Ok(()));
    let before = ledger.get_emp_details(1).unwrap();
    assert!(ledger.request_advance(&env, 2, 500, &token).is_ok());
    assert!(ledger.release_remaining_salary(&env, 2, &token, 40).is_ok());
    assert_eq!(ledger.get_emp_details(1), Ok(before));
    let changed = ledger.get_emp_details(2).unwrap();
    assert_eq!(changed.emp_id, 2);
    assert_eq!(changed.wallet, second);
    assert_eq!(changed.salary_token, token);
    assert_eq!(changed.rem_salary, 40);
    assert_eq!(ledger.get_emp_id_by_wallet(&first), 1);
    assert_eq!(ledger.get_emp_id_by_wallet(&second), 2);
    assert_eq!(ledger.employee_count(), 2);
}

#[test]
fn order_is_copied_as_it_is() {
    let env = quiet_env();
    let order = TransferOrder {
        token: Address::generate(&env),
        from: Address::generate(&env),
        to: Address::generate(&env),
        amount: 41,
    };
    assert_eq!(order.clone(), order);
}
