//! Making, keeping, restoring and archiving backups.

use quicklendx::bytes::{Address, Bytes32, Text};
use quicklendx::contract::QuickLendXContract;
use quicklendx::env::Env;
use quicklendx::errors::QuickLendXError;
use quicklendx::types::{BackupStatus, InvoiceCategory, InvoiceStatus};

fn id(n: u64) -> Bytes32 {
    Bytes32 { w0: 0, w1: 0, w2: 0, w3: n }
}

fn account(n: u64) -> Address {
    Address::Account(id(n))
}

const ADMIN: u64 = 1;
const BUSINESS: u64 = 2;
const INVESTOR: u64 = 3;
const CURRENCY: u64 = 4;

/// A ledger with an admin, a vetted business and a vetted investor, all of whom sign.
fn ledger() -> Env {
    let mut env = Env::new();
    env.set_timestamp(1_700_000_000);
    env.sign(account(ADMIN));
    env.sign(account(BUSINESS));
    env.sign(account(INVESTOR));
    assert_eq!(QuickLendXContract::initialize_admin(&mut env, account(ADMIN)), Ok(()));
    let applied =
        QuickLendXContract::submit_kyc_application(&mut env, account(BUSINESS), text("papers"));
    assert_eq!(applied, Ok(()));
    let granted =
        QuickLendXContract::verify_business(&mut env, account(ADMIN), account(BUSINESS));
    assert_eq!(granted, Ok(()));
    QuickLendXContract::verify_investor(&mut env, account(INVESTOR), 1_000_000);
    env
}

fn text(s: &str) -> Text {
    Text::new(s.as_bytes().to_vec())
}

fn try_store(
    env: &mut Env,
    amount: i128,
    description: Text,
    tags: Vec<Text>,
    nonce: u64,
) -> Result<Bytes32, QuickLendXError> {
    QuickLendXContract::store_invoice(
        env,
        account(BUSINESS),
        amount,
        account(CURRENCY),
        1_800_000_000,
        description,
        InvoiceCategory::Products,
        tags,
        id(nonce),
    )
}

/// Stores an invoice one second later than the one before.
fn store(env: &mut Env, amount: i128, nonce: u64) -> Bytes32 {
    let now = env.timestamp + 1;
    env.set_timestamp(now);
    try_store(env, amount, text("goods"), Vec::new(), nonce).unwrap()
}

#[test]
fn backup_saves_what_was_not_cancelled() {
    let mut env = ledger();
    let (admin, business) = (account(ADMIN), account(BUSINESS));
    let a = store(&mut env, 500, 1);
    let b = store(&mut env, 600, 2);
    let c = store(&mut env, 700, 3);
    QuickLendXContract::verify_invoice(&mut env, admin, a).unwrap();
    QuickLendXContract::cancel_invoice(&mut env, business, b, id(9)).unwrap();
    let backup = QuickLendXContract::create_backup(&mut env, admin).unwrap();
    assert_eq!(QuickLendXContract::get_backups(&env), vec![backup]);
    assert!(QuickLendXContract::validate_backup(&env, backup));
    let details = QuickLendXContract::get_backup_details(&env, backup).unwrap();
    assert_eq!(details.backup_id, backup);
    assert_eq!(details.timestamp, env.timestamp);
    assert_eq!(details.description.bytes, b"Automatic Backup".to_vec());
    assert_eq!(details.invoice_count, 2);
    assert_eq!(details.status, BackupStatus::Active);
    assert_eq!(details.format_version, 2);
    let data = &env.backups.records.entries[0].val.data;
    assert_eq!(data.len(), 2);
    assert_eq!((data[0].id, data[1].id), (c, a));
}

#[test]
fn restore_brings_back_what_was_saved() {
    let mut env = ledger();
    let (admin, business) = (account(ADMIN), account(BUSINESS));
    let a = store(&mut env, 500, 1);
    let backup = QuickLendXContract::create_backup(&mut env, admin).unwrap();
    QuickLendXContract::cancel_invoice(&mut env, business, a, id(9)).unwrap();
    let b = store(&mut env, 600, 2);
    assert_eq!(QuickLendXContract::restore_backup(&mut env, admin, backup), Ok(()));
    let i = QuickLendXContract::get_invoice(&env, a).unwrap();
    assert_eq!(i.status, InvoiceStatus::Pending);
    assert_eq!(i.amount, 500);
    assert_eq!(QuickLendXContract::get_invoice(&env, b).unwrap().amount, 600);
    assert_eq!(QuickLendXContract::get_total_invoice_count(&env), 2);
    assert_eq!(QuickLendXContract::restore_backup(&mut env, admin, backup), Ok(()));
    assert_eq!(QuickLendXContract::get_business_invoices(&env, business), vec![a, b]);
}

#[test]
fn only_a_sound_backup_is_restored() {
    let mut env = ledger();
    let admin = account(ADMIN);
    assert!(!QuickLendXContract::validate_backup(&env, id(9)));
    assert!(QuickLendXContract::get_backup_details(&env, id(9)).is_none());
    assert_eq!(
        QuickLendXContract::restore_backup(&mut env, admin, id(9)),
        Err(QuickLendXError::StorageKeyNotFound)
    );
    store(&mut env, 500, 1);
    let backup = QuickLendXContract::create_backup(&mut env, admin).unwrap();
    env.backups.records.entries[0].val.backup.invoice_count = 7;
    assert!(!QuickLendXContract::validate_backup(&env, backup));
    assert_eq!(
        QuickLendXContract::restore_backup(&mut env, admin, backup),
        Err(QuickLendXError::StorageError)
    );
    assert_eq!(
        QuickLendXContract::restore_backup(&mut env, account(BUSINESS), backup),
        Err(QuickLendXError::NotAdmin)
    );
}

#[test]
fn policy_keeps_the_newest_backups() {
    let mut env = ledger();
    let admin = account(ADMIN);
    let set = QuickLendXContract::set_backup_retention_policy(&mut env, admin, 2, 100, true);
    assert_eq!(set, Ok(()));
    let mut made = Vec::new();
    for _ in 0..3 {
        made.push(QuickLendXContract::create_backup(&mut env, admin).unwrap());
    }
    assert_eq!(QuickLendXContract::get_backups(&env), vec![made[1], made[2]]);
    assert!(!QuickLendXContract::validate_backup(&env, made[0]));
    let now = env.timestamp;
    env.set_timestamp(now + 101);
    let last = QuickLendXContract::create_backup(&mut env, admin).unwrap();
    assert_eq!(QuickLendXContract::get_backups(&env), vec![last]);
    let set = QuickLendXContract::set_backup_retention_policy(&mut env, admin, 0, 0, false);
    assert_eq!(set, Ok(()));
    let kept = QuickLendXContract::create_backup(&mut env, admin).unwrap();
    assert_eq!(QuickLendXContract::get_backups(&env), vec![last, kept]);
    assert_eq!(
        QuickLendXContract::set_backup_retention_policy(&mut env, account(BUSINESS), 1, 1, true),
        Err(QuickLendXError::NotAdmin)
    );
}

#[test]
fn five_backups_are_kept_by_default() {
    let mut env = ledger();
    let admin = account(ADMIN);
    for _ in 0..7 {
        QuickLendXContract::create_backup(&mut env, admin).unwrap();
    }
    assert_eq!(QuickLendXContract::get_backups(&env).len(), 5);
}

#[test]
fn archived_backup_stays_off_the_list() {
    let mut env = ledger();
    let admin = account(ADMIN);
    let a = store(&mut env, 500, 1);
    let backup = QuickLendXContract::create_backup(&mut env, admin).unwrap();
    let other = QuickLendXContract::create_backup(&mut env, admin).unwrap();
    env.set_proposal_open(true);
    assert_eq!(
        QuickLendXContract::archive_backup(&mut env, admin, backup),
        Err(QuickLendXError::GovernanceProposalOpen)
    );
    env.set_proposal_open(false);
    assert_eq!(
        QuickLendXContract::archive_backup(&mut env, admin, id(9)),
        Err(QuickLendXError::OperationNotAllowed)
    );
    assert_eq!(QuickLendXContract::archive_backup(&mut env, admin, backup), Ok(()));
    assert_eq!(QuickLendXContract::get_backups(&env), vec![other]);
    let details = QuickLendXContract::get_backup_details(&env, backup).unwrap();
    assert_eq!(details.status, BackupStatus::Archived);
    QuickLendXContract::verify_invoice(&mut env, admin, a).unwrap();
    assert_eq!(QuickLendXContract::restore_backup(&mut env, admin, backup), Ok(()));
    let i = QuickLendXContract::get_invoice(&env, a).unwrap();
    assert_eq!(i.status, InvoiceStatus::Pending);
}

#[test]
fn backups_are_refused_when_the_numbers_run_out() {
    let mut env = ledger();
    let admin = account(ADMIN);
    env.backups.next = u64::MAX;
    assert_eq!(
        QuickLendXContract::create_backup(&mut env, admin),
        Err(QuickLendXError::StorageError)
    );
    assert_eq!(
        QuickLendXContract::create_backup(&mut env, account(BUSINESS)),
        Err(QuickLendXError::NotAdmin)
    );
}
