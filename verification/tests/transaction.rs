use layerfs::transaction::error::TransactionError;
use layerfs::storage::discover::DiscoveredStore;
use layerfs::storage::validate::{verify_root, RootProbe};
use layerfs::transaction::manifest::{manifest_entry, manifest_lines, manifest_path};
use layerfs::transaction::state::TransactionState;
use layerfs::transaction::transaction::{lock_path, staged_stack, Staged, Transaction, UpdateSource};
use layerfs::semantics::layer::LayerKind;

fn staged() -> Staged {
    Staged {
        update_next: "/s/generations/update-1-0".to_string(),
        head_next: "/s/generations/head-1-1".to_string(),
        target: "/s/transaction-root".to_string(),
        superseded_update: Some("/s/generations/update-0-0".to_string()),
        superseded_update_head: None,
    }
}

fn store(update: bool, head: bool) -> DiscoveredStore {
    DiscoveredStore {
        base: "/s/base".to_string(),
        update: if update { Some("/s/update".to_string()) } else { None },
        update_head: if head { Some("/s/update-head".to_string()) } else { None },
        override_layer: None,
        data: None,
        work: "/s/work".to_string(),
    }
}

#[test]
fn missing_manifest_reads_as_empty() {
    assert!(manifest_lines("").is_empty());
}

#[test]
fn append_then_read_round_trips_in_order() {
    let mut contents = String::new();
    contents.push_str(&manifest_entry("{\"args\":[\"install\",\"vim\"]}"));
    contents.push_str(&manifest_entry("{\"args\":[\"install\",\"curl\"]}"));
    let entries = manifest_lines(&contents);
    assert_eq!(entries.len(), 2);
    assert_eq!(entries[0], "{\"args\":[\"install\",\"vim\"]}");
    assert_eq!(entries[1], "{\"args\":[\"install\",\"curl\"]}");
    assert_eq!(manifest_path("/s"), "/s/manifest.log");
}

#[test]
fn blank_manifest_lines_are_skipped() {
    assert_eq!(manifest_lines("a\n\n\r\nb"), vec!["a", "b"]);
}

#[test]
fn transaction_commits_what_it_staged() {
    let mut txn = Transaction::begin("/s", "txn-1", "layerctl");
    assert_eq!(txn.state(), TransactionState::Preparing);
    assert!(!txn.is_staged());
    match txn.update_source(&store(true, true)).unwrap() {
        UpdateSource::Squash { update, update_head } => {
            assert_eq!(update, "/s/update");
            assert_eq!(update_head, "/s/update-head");
        }
        other => panic!("unexpected {other:?}"),
    }
    txn.record_staged(staged());
    assert_eq!(txn.state(), TransactionState::Running);
    assert_eq!(txn.execution_root().unwrap(), "/s/transaction-root");
    let ok = verify_root(RootProbe { usr: true, etc: true, bin: true, usr_bin: true });
    assert!(txn.validate(&ok).is_ok());
    assert_eq!(txn.state(), TransactionState::Validating);
    let handed = txn.begin_commit().unwrap();
    assert_eq!(handed.update_next, "/s/generations/update-1-0");
    assert_eq!(txn.state(), TransactionState::Committing);
    txn.generation_activated(false);
    txn.generation_activated(true);
    txn.finish_commit();
    assert_eq!(txn.state(), TransactionState::Committed);
    assert!(txn.abandon().is_none());
}

#[test]
fn abandoned_transaction_hands_back_its_generations() {
    let mut txn = Transaction::begin("/s", "txn-2", "dnf");
    txn.record_staged(staged());
    let bad = verify_root(RootProbe { usr: false, etc: true, bin: false, usr_bin: false });
    let err = txn.validate(&bad).unwrap_err();
    assert_eq!(err.message(), "staged root failed validation: /usr exists, /bin or /usr/bin exists");
    let back = txn.abandon().unwrap();
    assert_eq!(back.target, "/s/transaction-root");
    assert_eq!(back.generations, vec!["/s/generations/update-1-0", "/s/generations/head-1-1"]);
    assert!(txn.abandon().is_none());
}

#[test]
fn failed_commit_still_hands_back_its_generations() {
    let mut txn = Transaction::begin("/s", "txn-4", "dnf");
    txn.record_staged(staged());
    let handed = txn.begin_commit().unwrap();
    assert_eq!(handed.head_next, "/s/generations/head-1-1");
    assert_eq!(txn.state(), TransactionState::Committing);
    assert!(txn.is_staged());
    let back = txn.abandon().unwrap();
    assert_eq!(back.target, "/s/transaction-root");
    assert!(back.restore.is_empty());
    assert_eq!(back.generations, vec!["/s/generations/update-1-0", "/s/generations/head-1-1"]);
}

#[test]
fn abandoning_after_partial_activation_puts_the_pointer_back() {
    let mut txn = Transaction::begin("/s", "txn-5", "dnf");
    txn.record_staged(staged());
    txn.begin_commit().unwrap();
    txn.generation_activated(false);
    let back = txn.abandon().unwrap();
    assert_eq!(back.restore.len(), 1);
    assert_eq!(back.restore[0].name, "update");
    assert_eq!(back.restore[0].previous.as_deref(), Some("/s/generations/update-0-0"));
    assert_eq!(back.generations, vec!["/s/generations/update-1-0", "/s/generations/head-1-1"]);
    assert!(txn.abandon().is_none());
}

#[test]
fn inconsistent_store_and_double_staging_are_refused() {
    let mut txn = Transaction::begin("/s", "txn-3", "dnf");
    assert!(txn.update_source(&store(false, true)).is_err());
    assert!(matches!(txn.update_source(&store(false, false)).unwrap(), UpdateSource::Fresh));
    assert!(matches!(txn.update_source(&store(true, false)).unwrap(), UpdateSource::Clone { .. }));
    assert!(txn.execution_root().is_err());
    assert!(txn.begin_commit().is_err());
    txn.record_staged(staged());
    assert!(txn.update_source(&store(true, false)).is_err());
}

#[test]
fn staged_stack_never_includes_override() {
    let stack = staged_stack("/h", "/u", "/b");
    let kinds: Vec<_> = stack.layers.iter().map(|l| l.kind).collect();
    assert_eq!(kinds, [LayerKind::UpdateHead, LayerKind::Update, LayerKind::Base]);
    assert_eq!(stack.upper().unwrap().path, "/h");
    assert_eq!(lock_path("/s"), "/s/transaction.lock");
}

#[test]
fn transaction_error_messages() {
    assert_eq!(TransactionError::AlreadyStaged.message(), "transaction is already staged");
    assert_eq!(TransactionError::NotStaged.message(), "transaction has not been staged");
    assert_eq!(TransactionError::Lock("EBADF".to_string()).message(), "failed to acquire transaction lock: EBADF");
    let mut txn = Transaction::begin("/s", "txn-4", "dnf");
    let err = txn.update_source(&store(false, true)).unwrap_err();
    assert_eq!(err.message(), "inconsistent store state: update-head is active without an active update");
}
