use lending_pool::account::{AccountId, AccountKind};
use lending_pool::account_map::AccountMap;
use lending_pool::contract::LendingPoolContract;
use lending_pool::error::PoolError;
use lending_pool::ledger::{LenderContribution, LoanRequest, LoanStatus, Pool};

fn account(number: u128) -> AccountId {
    AccountId { kind: AccountKind::Account, high: 0, low: number }
}

// Everything that can be observed of a pool, in enumeration order.
fn snapshot(pool: &Pool) -> (i64, Vec<(AccountId, LenderContribution)>, Vec<(AccountId, LoanRequest)>) {
    let mut contributions = Vec::new();
    for index in 0..pool.contributions.len() {
        contributions.push(pool.contributions.entry_at(index).unwrap());
    }
    let mut loans = Vec::new();
    for index in 0..pool.active_loans.len() {
        loans.push(pool.active_loans.entry_at(index).unwrap());
    }
    (pool.total_funds, contributions, loans)
}

fn funded_pool(lender: AccountId, amount: i64) -> Pool {
    let mut pool = LendingPoolContract::initialize_pool();
    LendingPoolContract::contribute_to_pool(&mut pool, lender, amount).unwrap();
    pool
}

#[test]
fn load_or_initialize_starts_empty_when_nothing_is_stored() {
    let pool = LendingPoolContract::load_or_initialize(None);
    assert_eq!(snapshot(&pool), (0, vec![], vec![]));
}

#[test]
fn load_or_initialize_keeps_a_stored_pool() {
    let stored = funded_pool(account(1), 700);
    let before = snapshot(&stored);
    let pool = LendingPoolContract::load_or_initialize(Some(stored));
    assert_eq!(snapshot(&pool), before);
    assert_eq!(pool.total_funds, 700);
}

#[test]
fn two_contributions_of_one_lender_add_up() {
    let lender = account(1);
    let mut pool = LendingPoolContract::initialize_pool();
    LendingPoolContract::contribute_to_pool(&mut pool, lender, 300).unwrap();
    LendingPoolContract::contribute_to_pool(&mut pool, lender, 450).unwrap();
    assert_eq!(LendingPoolContract::view_lender_balance(&pool, lender), 750);
    assert_eq!(pool.total_funds, 750);
    assert_eq!(pool.contributions.len(), 1);
    assert_eq!(
        pool.contributions.get(lender),
        Some(LenderContribution { lender, amount: 750 })
    );
}

#[test]
fn contributions_of_two_lenders_are_kept_apart() {
    let mut pool = funded_pool(account(1), 1000);
    LendingPoolContract::contribute_to_pool(&mut pool, account(2), 2000).unwrap();
    assert_eq!(pool.total_funds, 3000);
    assert_eq!(LendingPoolContract::view_lender_balance(&pool, account(1)), 1000);
    assert_eq!(LendingPoolContract::view_lender_balance(&pool, account(2)), 2000);
    assert_eq!(pool.contributions.len(), 2);
}

#[test]
fn balance_of_an_unknown_lender_is_zero() {
    let pool = funded_pool(account(1), 1000);
    assert_eq!(LendingPoolContract::view_lender_balance(&pool, account(9)), 0);
}

#[test]
fn a_negative_contribution_is_accepted_and_lowers_funds_and_balance() {
    let lender = account(1);
    let mut pool = funded_pool(lender, 1000);
    assert_eq!(LendingPoolContract::contribute_to_pool(&mut pool, lender, -400), Ok(()));
    assert_eq!(pool.total_funds, 600);
    assert_eq!(LendingPoolContract::view_lender_balance(&pool, lender), 600);
}

#[test]
fn a_contribution_that_overflows_the_funds_is_refused() {
    let mut pool = funded_pool(account(1), i64::MAX);
    let before = snapshot(&pool);
    assert_eq!(
        LendingPoolContract::contribute_to_pool(&mut pool, account(2), 1),
        Err(PoolError::ArithmeticOverflow)
    );
    assert_eq!(snapshot(&pool), before);
}

#[test]
fn a_contribution_that_overflows_the_balance_is_refused() {
    let lender = account(1);
    let mut pool = funded_pool(lender, i64::MAX);
    // Lending out the funds leaves room in the pool but not in the balance.
    LendingPoolContract::request_loan(&mut pool, account(2), 100, 0, 0).unwrap();
    let before = snapshot(&pool);
    assert_eq!(
        LendingPoolContract::contribute_to_pool(&mut pool, lender, 1),
        Err(PoolError::ArithmeticOverflow)
    );
    assert_eq!(snapshot(&pool), before);
}

#[test]
fn a_loan_of_all_the_funds_is_granted() {
    let borrower = account(2);
    let mut pool = funded_pool(account(1), 1000);
    let loan = LendingPoolContract::request_loan(&mut pool, borrower, 1000, 7, 99);
    assert_eq!(
        loan,
        Ok(LoanRequest { borrower, principal: 1000, interest_rate: 7, due_date: 99, repaid: false })
    );
    assert_eq!(pool.total_funds, 0);
    assert_eq!(pool.active_loans.get(borrower), loan.ok());
}

#[test]
fn a_loan_above_the_funds_is_refused_and_changes_nothing() {
    let mut pool = funded_pool(account(1), 1000);
    let before = snapshot(&pool);
    assert_eq!(
        LendingPoolContract::request_loan(&mut pool, account(2), 1001, 10, 1672531200),
        Err(PoolError::InsufficientPoolFunds)
    );
    assert_eq!(snapshot(&pool), before);
    assert_eq!(
        LendingPoolContract::view_loan_status(&pool, account(2)),
        LoanStatus::NotFound
    );
}

#[test]
fn a_loan_from_an_empty_pool_is_refused() {
    let mut pool = LendingPoolContract::initialize_pool();
    assert_eq!(
        LendingPoolContract::request_loan(&mut pool, account(2), 1, 10, 0),
        Err(PoolError::InsufficientPoolFunds)
    );
    assert_eq!(snapshot(&pool), (0, vec![], vec![]));
}

#[test]
fn a_loan_that_overflows_the_funds_is_refused() {
    let mut pool = funded_pool(account(1), i64::MAX);
    let before = snapshot(&pool);
    assert_eq!(
        LendingPoolContract::request_loan(&mut pool, account(2), -1, 10, 0),
        Err(PoolError::ArithmeticOverflow)
    );
    assert_eq!(snapshot(&pool), before);
}

#[test]
fn a_new_loan_replaces_an_outstanding_one() {
    let borrower = account(2);
    let mut pool = funded_pool(account(1), 1000);
    LendingPoolContract::request_loan(&mut pool, borrower, 500, 10, 1672531200).unwrap();
    let second = LendingPoolContract::request_loan(&mut pool, borrower, 200, 5, 1700000000);
    assert_eq!(
        second,
        Ok(LoanRequest {
            borrower,
            principal: 200,
            interest_rate: 5,
            due_date: 1700000000,
            repaid: false
        })
    );
    // One record per borrower: the first loan's record is gone and its
    // principal stays lent out.
    assert_eq!(pool.active_loans.len(), 1);
    assert_eq!(pool.active_loans.get(borrower), second.ok());
    assert_eq!(pool.total_funds, 300);
    // What is due now is what the second loan asks.
    assert_eq!(
        LendingPoolContract::repay_loan(&mut pool, borrower, 209),
        Err(PoolError::InsufficientRepayment)
    );
    assert_eq!(LendingPoolContract::repay_loan(&mut pool, borrower, 210), Ok(()));
    assert_eq!(pool.total_funds, 510);
}

#[test]
fn a_new_loan_reopens_a_repaid_one() {
    let borrower = account(2);
    let mut pool = funded_pool(account(1), 1000);
    LendingPoolContract::request_loan(&mut pool, borrower, 500, 10, 1672531200).unwrap();
    LendingPoolContract::repay_loan(&mut pool, borrower, 550).unwrap();
    assert_eq!(LendingPoolContract::view_loan_status(&pool, borrower), LoanStatus::Repaid);
    LendingPoolContract::request_loan(&mut pool, borrower, 100, 20, 1700000000).unwrap();
    assert_eq!(LendingPoolContract::view_loan_status(&pool, borrower), LoanStatus::Outstanding);
    assert_eq!(pool.active_loans.len(), 1);
    assert_eq!(pool.total_funds, 950);
}

#[test]
fn contribute_borrow_and_repay() {
    let lender = account(1);
    let borrower = account(2);
    let mut pool = LendingPoolContract::initialize_pool();
    LendingPoolContract::contribute_to_pool(&mut pool, lender, 1000).unwrap();
    assert!(LendingPoolContract::request_loan(&mut pool, borrower, 500, 10, 1672531200).is_ok());
    assert_eq!(pool.total_funds, 500);
    assert_eq!(LendingPoolContract::repay_loan(&mut pool, borrower, 550), Ok(()));
    assert_eq!(pool.total_funds, 1050);
    assert_eq!(LendingPoolContract::view_loan_status(&pool, borrower), LoanStatus::Repaid);
}

#[test]
fn a_repayment_one_short_is_refused_and_changes_nothing() {
    let borrower = account(2);
    let mut pool = funded_pool(account(1), 1000);
    LendingPoolContract::request_loan(&mut pool, borrower, 500, 10, 1672531200).unwrap();
    let before = snapshot(&pool);
    assert_eq!(
        LendingPoolContract::repay_loan(&mut pool, borrower, 549),
        Err(PoolError::InsufficientRepayment)
    );
    assert_eq!(snapshot(&pool), before);
    assert_eq!(LendingPoolContract::view_loan_status(&pool, borrower), LoanStatus::Outstanding);
}

#[test]
fn an_overpayment_goes_to_the_pool_in_full() {
    let borrower = account(2);
    let mut pool = funded_pool(account(1), 1000);
    LendingPoolContract::request_loan(&mut pool, borrower, 500, 10, 1672531200).unwrap();
    assert_eq!(LendingPoolContract::repay_loan(&mut pool, borrower, 800), Ok(()));
    assert_eq!(pool.total_funds, 1300);
}

#[test]
fn a_repayment_without_a_loan_is_refused() {
    let mut pool = funded_pool(account(1), 1000);
    let before = snapshot(&pool);
    assert_eq!(
        LendingPoolContract::repay_loan(&mut pool, account(2), 550),
        Err(PoolError::LoanNotFound)
    );
    assert_eq!(snapshot(&pool), before);
}

#[test]
fn a_second_repayment_is_refused_and_leaves_the_funds() {
    let borrower = account(2);
    let mut pool = funded_pool(account(1), 1000);
    LendingPoolContract::request_loan(&mut pool, borrower, 500, 10, 1672531200).unwrap();
    LendingPoolContract::repay_loan(&mut pool, borrower, 550).unwrap();
    let before = snapshot(&pool);
    assert_eq!(
        LendingPoolContract::repay_loan(&mut pool, borrower, 550),
        Err(PoolError::LoanAlreadyRepaid)
    );
    assert_eq!(
        LendingPoolContract::repay_loan(&mut pool, borrower, 0),
        Err(PoolError::LoanAlreadyRepaid)
    );
    assert_eq!(pool.total_funds, 1050);
    assert_eq!(snapshot(&pool), before);
    assert!(pool.active_loans.get(borrower).unwrap().repaid);
}

#[test]
fn a_repayment_whose_interest_overflows_is_refused() {
    let borrower = account(2);
    let mut pool = funded_pool(account(1), i64::MAX);
    LendingPoolContract::request_loan(&mut pool, borrower, 1_000_000_000_000, 100_000_000, 0)
        .unwrap();
    let before = snapshot(&pool);
    assert_eq!(
        LendingPoolContract::repay_loan(&mut pool, borrower, i64::MAX),
        Err(PoolError::ArithmeticOverflow)
    );
    assert_eq!(snapshot(&pool), before);
}

#[test]
fn a_repayment_that_overflows_the_funds_is_refused() {
    let borrower = account(2);
    let mut pool = funded_pool(account(1), i64::MAX);
    LendingPoolContract::request_loan(&mut pool, borrower, 10, 0, 0).unwrap();
    let before = snapshot(&pool);
    assert_eq!(
        LendingPoolContract::repay_loan(&mut pool, borrower, 11),
        Err(PoolError::ArithmeticOverflow)
    );
    assert_eq!(snapshot(&pool), before);
    assert_eq!(LendingPoolContract::repay_loan(&mut pool, borrower, 10), Ok(()));
    assert_eq!(pool.total_funds, i64::MAX);
}

#[test]
fn status_of_a_borrower_without_a_loan() {
    let pool = funded_pool(account(1), 1000);
    let status = LendingPoolContract::view_loan_status(&pool, account(2));
    assert_eq!(status, LoanStatus::NotFound);
    assert_eq!(status.message(), "No loan found for this borrower.");
}

#[test]
fn earnings_follow_the_funds_at_the_time_of_asking() {
    let mut pool = funded_pool(account(1), 1000);
    LendingPoolContract::contribute_to_pool(&mut pool, account(2), 2000).unwrap();
    LendingPoolContract::request_loan(&mut pool, account(3), 500, 10, 1672531200).unwrap();
    LendingPoolContract::repay_loan(&mut pool, account(3), 550).unwrap();
    // With funds of 3000 when the question is asked:
    pool.total_funds = 3000;
    let first = LendingPoolContract::calculate_lender_earnings(&pool, account(1)).unwrap();
    let second = LendingPoolContract::calculate_lender_earnings(&pool, account(2)).unwrap();
    assert_eq!(first, 16);
    assert_eq!(second, 33);
    // What rounding takes stays in the pool.
    assert_eq!(first + second, 49);
    assert!(first + second <= 50);
}

#[test]
fn earnings_count_every_recorded_loan() {
    let lender = account(1);
    let mut pool = funded_pool(lender, 10_000);
    LendingPoolContract::request_loan(&mut pool, account(2), 500, 10, 0).unwrap();
    LendingPoolContract::request_loan(&mut pool, account(3), 1000, 5, 0).unwrap();
    LendingPoolContract::request_loan(&mut pool, account(4), 333, 1, 0).unwrap();
    LendingPoolContract::repay_loan(&mut pool, account(2), 550).unwrap();
    // Interest: 50 of the repaid loan, 50 and 3 of the outstanding ones.
    // Funds: 10000 - 500 - 1000 - 333 + 550 = 8717.
    assert_eq!(pool.total_funds, 8717);
    assert_eq!(
        LendingPoolContract::calculate_lender_earnings(&pool, lender),
        Ok(103 * 10_000 / 8717)
    );
    assert_eq!(LendingPoolContract::calculate_lender_earnings(&pool, lender), Ok(118));
}

#[test]
fn earnings_can_exceed_the_interest_while_principal_is_lent_out() {
    let lender = account(1);
    let mut pool = funded_pool(lender, 1000);
    LendingPoolContract::request_loan(&mut pool, account(2), 500, 10, 0).unwrap();
    assert_eq!(LendingPoolContract::calculate_lender_earnings(&pool, lender), Ok(100));
}

#[test]
fn earnings_of_an_unknown_lender_are_zero() {
    let mut pool = funded_pool(account(1), 1000);
    LendingPoolContract::request_loan(&mut pool, account(2), 500, 10, 0).unwrap();
    assert_eq!(LendingPoolContract::calculate_lender_earnings(&pool, account(9)), Ok(0));
}

#[test]
fn earnings_without_loans_are_zero() {
    let pool = funded_pool(account(1), 1000);
    assert_eq!(LendingPoolContract::calculate_lender_earnings(&pool, account(1)), Ok(0));
}

#[test]
fn earnings_of_a_pool_without_funds_are_an_error() {
    let pool = LendingPoolContract::initialize_pool();
    assert_eq!(
        LendingPoolContract::calculate_lender_earnings(&pool, account(1)),
        Err(PoolError::PoolEmpty)
    );
    // Also once everything has been lent out.
    let mut lent = funded_pool(account(1), 1000);
    LendingPoolContract::request_loan(&mut lent, account(2), 1000, 10, 0).unwrap();
    assert_eq!(
        LendingPoolContract::calculate_lender_earnings(&lent, account(1)),
        Err(PoolError::PoolEmpty)
    );
    assert_eq!(
        LendingPoolContract::calculate_lender_earnings(&lent, account(9)),
        Err(PoolError::PoolEmpty)
    );
}

#[test]
fn earnings_with_an_interest_that_overflows_are_an_error() {
    let mut pool = funded_pool(account(1), i64::MAX);
    LendingPoolContract::request_loan(&mut pool, account(2), 1_000_000_000_000, 100_000_000, 0)
        .unwrap();
    assert_eq!(
        LendingPoolContract::calculate_lender_earnings(&pool, account(1)),
        Err(PoolError::ArithmeticOverflow)
    );
}

// A pool with funds of 2, one lender with 1, and for each group `count`
// loans of `principal` at 100 percent.
fn pool_with_loans(groups: &[(u128, i64)]) -> Pool {
    let mut loans = AccountMap::new();
    let mut number = 100;
    for (count, principal) in groups {
        for _ in 0..*count {
            loans.set(
                account(number),
                LoanRequest {
                    borrower: account(number),
                    principal: *principal,
                    interest_rate: 100,
                    due_date: 0,
                    repaid: false,
                },
            );
            number += 1;
        }
    }
    let mut contributions = AccountMap::new();
    contributions.set(account(1), LenderContribution { lender: account(1), amount: 1 });
    Pool { total_funds: 2, contributions, active_loans: loans }
}

#[test]
fn earnings_with_a_total_interest_that_overflows_are_an_error() {
    // Each interest fits; a hundred of them do too, one more does not.
    let large = i64::MAX / 100;
    let fits = pool_with_loans(&[(100, large)]);
    assert_eq!(fits.active_loans.len(), 100);
    assert_eq!(
        LendingPoolContract::calculate_lender_earnings(&fits, account(1)),
        Ok(100 * large / 2)
    );
    let overflows = pool_with_loans(&[(101, large)]);
    assert_eq!(
        LendingPoolContract::calculate_lender_earnings(&overflows, account(1)),
        Err(PoolError::ArithmeticOverflow)
    );
    let underflows = pool_with_loans(&[(101, -large)]);
    assert_eq!(
        LendingPoolContract::calculate_lender_earnings(&underflows, account(1)),
        Err(PoolError::ArithmeticOverflow)
    );
}

#[test]
fn interests_of_opposite_sign_cancel_in_any_order() {
    // The total decides, not the sums on the way to it.
    let large = i64::MAX / 100;
    let rising = pool_with_loans(&[(150, large), (150, -large), (1, 40)]);
    assert_eq!(rising.active_loans.len(), 301);
    assert_eq!(LendingPoolContract::calculate_lender_earnings(&rising, account(1)), Ok(20));
    let falling = pool_with_loans(&[(150, -large), (1, 40), (150, large)]);
    assert_eq!(LendingPoolContract::calculate_lender_earnings(&falling, account(1)), Ok(20));
}

#[test]
fn earnings_with_a_share_that_overflows_are_an_error() {
    let lender = account(1);
    let mut pool = funded_pool(lender, i64::MAX);
    LendingPoolContract::request_loan(&mut pool, account(2), 500, 10, 0).unwrap();
    // 50 * i64::MAX does not fit.
    assert_eq!(
        LendingPoolContract::calculate_lender_earnings(&pool, lender),
        Err(PoolError::ArithmeticOverflow)
    );
}

#[test]
fn a_copy_of_a_pool_is_in_the_same_state() {
    let mut pool = funded_pool(account(1), 1000);
    LendingPoolContract::request_loan(&mut pool, account(2), 500, 10, 0).unwrap();
    let copy = pool.clone();
    assert_eq!(snapshot(&copy), snapshot(&pool));
    LendingPoolContract::repay_loan(&mut pool, account(2), 550).unwrap();
    assert_eq!(copy.total_funds, 500);
    assert_eq!(pool.total_funds, 1050);
}

#[test]
fn funds_are_contributions_less_principal_plus_repayments() {
    let mut pool = LendingPoolContract::initialize_pool();
    LendingPoolContract::contribute_to_pool(&mut pool, account(1), 1000).unwrap();
    LendingPoolContract::contribute_to_pool(&mut pool, account(2), 2500).unwrap();
    LendingPoolContract::request_loan(&mut pool, account(3), 700, 10, 0).unwrap();
    // Refused operations move nothing.
    assert!(LendingPoolContract::request_loan(&mut pool, account(4), 5000, 10, 0).is_err());
    assert!(LendingPoolContract::repay_loan(&mut pool, account(3), 769).is_err());
    LendingPoolContract::request_loan(&mut pool, account(4), 300, 3, 0).unwrap();
    LendingPoolContract::repay_loan(&mut pool, account(3), 770).unwrap();
    LendingPoolContract::contribute_to_pool(&mut pool, account(1), -200).unwrap();
    LendingPoolContract::repay_loan(&mut pool, account(4), 1000).unwrap();
    assert_eq!(pool.total_funds, 1000 + 2500 - 700 - 300 + 770 - 200 + 1000);
    assert_eq!(pool.total_funds, 4070);
    // Records stay, each under the account it names.
    assert_eq!(pool.contributions.len(), 2);
    assert_eq!(pool.active_loans.len(), 2);
    for index in 0..2 {
        let (lender, contribution) = pool.contributions.entry_at(index).unwrap();
        assert_eq!(contribution.lender, lender);
        let (borrower, loan) = pool.active_loans.entry_at(index).unwrap();
        assert_eq!(loan.borrower, borrower);
        assert!(loan.repaid);
    }
    assert_eq!(LendingPoolContract::view_lender_balance(&pool, account(1)), 800);
}

#[test]
fn total_interest_adds_the_interest_of_every_loan() {
    let mut pool = funded_pool(account(1), 10_000);
    assert_eq!(LendingPoolContract::total_interest_earned(&pool), Ok(0));
    LendingPoolContract::request_loan(&mut pool, account(2), 500, 10, 0).unwrap();
    assert_eq!(LendingPoolContract::total_interest_earned(&pool), Ok(50));
    LendingPoolContract::request_loan(&mut pool, account(3), 333, 1, 0).unwrap();
    assert_eq!(LendingPoolContract::total_interest_earned(&pool), Ok(53));
    // A repaid loan still counts.
    LendingPoolContract::repay_loan(&mut pool, account(2), 550).unwrap();
    assert_eq!(LendingPoolContract::total_interest_earned(&pool), Ok(53));
    // A replaced record counts with its new terms only.
    LendingPoolContract::request_loan(&mut pool, account(2), 1000, 7, 0).unwrap();
    assert_eq!(LendingPoolContract::total_interest_earned(&pool), Ok(73));
}

#[test]
fn total_interest_rounds_each_loan_on_its_own() {
    // Three loans of 99 at 1 percent earn nothing each, so nothing together.
    let pool = pool_with_rates(&[(99, 1), (99, 1), (99, 1), (-150, 1), (250, 1)]);
    assert_eq!(LendingPoolContract::total_interest_earned(&pool), Ok(0 + 0 + 0 - 1 + 2));
}

#[test]
fn total_interest_that_does_not_fit_is_an_error() {
    let large = i64::MAX / 100;
    assert_eq!(
        LendingPoolContract::total_interest_earned(&pool_with_loans(&[(100, large)])),
        Ok(100 * large)
    );
    assert_eq!(
        LendingPoolContract::total_interest_earned(&pool_with_loans(&[(101, large)])),
        Err(PoolError::ArithmeticOverflow)
    );
    assert_eq!(
        LendingPoolContract::total_interest_earned(&pool_with_rates(&[(i64::MAX, 2)])),
        Err(PoolError::ArithmeticOverflow)
    );
}

// A pool with one loan for each pair of principal and rate.
fn pool_with_rates(terms: &[(i64, i64)]) -> Pool {
    let mut loans = AccountMap::new();
    let mut number = 100;
    for (principal, interest_rate) in terms {
        loans.set(
            account(number),
            LoanRequest {
                borrower: account(number),
                principal: *principal,
                interest_rate: *interest_rate,
                due_date: 0,
                repaid: false,
            },
        );
        number += 1;
    }
    Pool { total_funds: 1, contributions: AccountMap::new(), active_loans: loans }
}
