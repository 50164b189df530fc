use mwc713::error::ErrorKind;
use mwc713::handlers::{stored_tx_decision, PostTransactionQueryParams, RetrieveOutputsQueryParams};
use mwc713::slate::Slate;
use mwc713::wallet::{NodeStatus, OutputEntry, TxLogEntrySummary, Wallet};

fn output(commit: Option<&str>, value: u64, eligible: bool) -> OutputEntry {
    OutputEntry { commit: commit.map(|c| c.to_string()), value, eligible }
}

fn simple_slate(amount: u64) -> Slate {
    let doc = format!(
        "{{\"id\":\"abc\",\"amount\":{},\"num_participants\":2,\"participant_data\":[]}}",
        amount
    );
    Slate::parse(doc.into_bytes()).unwrap()
}

#[test]
fn wallet_lock_cycle() {
    let mut w = Wallet::new(None);
    assert_eq!(w.active_account, "default");
    assert!(w.is_locked());
    assert_eq!(w.unlock("savings", false), Err(ErrorKind::WalletUnlockFailed));
    assert!(w.is_locked());
    assert_eq!(w.active_account, "default");
    assert_eq!(w.unlock("savings", true), Ok(()));
    assert!(!w.is_locked());
    assert_eq!(w.active_account, "savings");
    w.lock();
    assert!(w.is_locked());
}

#[test]
fn wallet_gates_on_lock() {
    let w = Wallet::new(None);
    assert_eq!(w.account_exists("a", &vec![]), Err(ErrorKind::NoWallet));
    assert_eq!(w.node_info(5, 5), Err(ErrorKind::NoWallet));
    assert_eq!(w.txs_count(&vec![]), Err(ErrorKind::NoWallet));
    assert_eq!(w.all_output_count(&vec![]), Err(ErrorKind::NoWallet));
    assert_eq!(w.info(true, true), Err(ErrorKind::NoWallet));
}

#[test]
fn wallet_account_lookup() {
    let mut w = Wallet::new(None);
    w.unlock("default", true).unwrap();
    let labels = vec!["default".to_string(), "savings".to_string()];
    assert_eq!(w.account_exists("savings", &labels), Ok(true));
    assert_eq!(w.account_exists("missing", &labels), Ok(false));
    assert_eq!(w.list_accounts(labels.clone()), Ok(labels));
}

#[test]
fn wallet_node_info_classification() {
    let mut w = Wallet::new(None);
    w.unlock("default", true).unwrap();
    assert_eq!(w.node_info(0, 0), Ok(NodeStatus::Unreachable));
    assert_eq!(w.node_info(100, 0), Ok(NodeStatus::Reachable));
    assert_eq!(w.info(true, false), Ok(false));
    assert_eq!(w.info(false, false), Ok(true));
}

#[test]
fn wallet_total_value_and_counts() {
    let mut w = Wallet::new(None);
    w.unlock("default", true).unwrap();
    let outputs = vec![
        output(Some("c1"), 10, true),
        output(Some("c2"), 20, false),
        output(Some("c3"), 40, true),
        output(None, 80, true),
    ];
    // without a list: every spendable output counts
    assert_eq!(w.total_value(None, &outputs), Ok(130));
    assert_eq!(w.output_count(None, &outputs), Ok(3));
    assert_eq!(w.all_output_count(&outputs), Ok(4));
    // with a list: only listed commitments count
    let list = Some(vec!["c1".to_string(), "c2".to_string()]);
    assert_eq!(w.total_value(list.clone(), &outputs), Ok(10));
    assert_eq!(w.output_count(list, &outputs), Ok(1));
}

#[test]
fn wallet_invoice_rules() {
    let mut closed = Wallet::new(None);
    closed.unlock("default", true).unwrap();
    let s = simple_slate(5);
    assert_eq!(
        closed.process_receiver_initiated_slate(&s, true),
        Err(ErrorKind::DoesNotAcceptInvoices)
    );
    let mut open = Wallet::new(Some(100));
    open.unlock("default", true).unwrap();
    let big = simple_slate(101);
    assert_eq!(
        open.process_receiver_initiated_slate(&big, true),
        Err(ErrorKind::InvoiceAmountTooBig(101))
    );
    let ok = simple_slate(100);
    assert_eq!(open.process_receiver_initiated_slate(&ok, true), Ok(()));
}

#[test]
fn wallet_engine_error_mapping() {
    let mut w = Wallet::new(None);
    w.unlock("default", true).unwrap();
    assert!(matches!(
        w.process_sender_initiated_slate(false),
        Err(ErrorKind::GrinWalletReceiveError(_))
    ));
    assert_eq!(w.process_sender_initiated_slate(true), Ok(()));
    assert!(matches!(w.submit(false), Err(ErrorKind::GrinWalletPostError(_))));
    assert_eq!(w.submit(true), Ok(()));
}

#[test]
fn wallet_finalize_stages() {
    let mut w = Wallet::new(None);
    w.unlock("default", true).unwrap();
    assert!(matches!(
        w.finalize_slate(false, Some(true), true),
        Err(ErrorKind::GrinWalletVerifySlateMessagesError(_))
    ));
    assert!(matches!(
        w.finalize_slate(true, None, true),
        Err(ErrorKind::GrinWalletFinalizeError(_))
    ));
    assert!(matches!(
        w.finalize_slate(true, Some(true), false),
        Err(ErrorKind::GrinWalletPostError(_))
    ));
    assert_eq!(w.finalize_slate(true, Some(false), false), Ok(false));
    assert_eq!(w.finalize_slate(true, Some(true), true), Ok(true));
}

#[test]
fn wallet_repost_rules() {
    let mut w = Wallet::new(None);
    w.unlock("default", true).unwrap();
    assert!(matches!(w.repost(7, &vec![]), Err(ErrorKind::GenericError(_))));
    let no_slate = vec![TxLogEntrySummary { id: 7, tx_slate_id: None, confirmed: false }];
    assert!(matches!(w.repost(7, &no_slate), Err(ErrorKind::GenericError(_))));
    let with_slate = vec![TxLogEntrySummary {
        id: 7,
        tx_slate_id: Some("sid-1".to_string()),
        confirmed: true,
    }];
    assert_eq!(w.repost(7, &with_slate), Ok("sid-1".to_string()));
}

#[test]
fn wallet_initiate_receive() {
    let mut w = Wallet::new(None);
    w.unlock("default", true).unwrap();
    let s = simple_slate(3);
    let got = w.initiate_receive_tx(3, Some(s)).unwrap();
    assert_eq!(got.amount, 3);
    assert!(matches!(
        w.initiate_receive_tx(3, None),
        Err(ErrorKind::GenericError(_))
    ));
}

#[test]
fn stored_tx_lookup() {
    assert_eq!(stored_tx_decision(&vec![]), Err(ErrorKind::TransactionModelNotFound));
    let two = vec![
        TxLogEntrySummary { id: 1, tx_slate_id: None, confirmed: false },
        TxLogEntrySummary { id: 2, tx_slate_id: None, confirmed: false },
    ];
    assert_eq!(stored_tx_decision(&two), Err(ErrorKind::TransactionModelNotFound));
    let one = vec![TxLogEntrySummary {
        id: 1,
        tx_slate_id: Some("sid-9".to_string()),
        confirmed: true,
    }];
    assert_eq!(stored_tx_decision(&one), Ok((true, "sid-9".to_string())));
}

#[test]
fn query_param_defaults() {
    let q = RetrieveOutputsQueryParams { refresh: None, show_spent: Some(true), tx_id: Some(4) };
    assert_eq!(q.effective(), (false, true, Some(4)));
    let p = PostTransactionQueryParams { fluff: None };
    assert!(!p.effective());
}

#[test]
fn slate_parse_reads_fields() {
    let s = simple_slate(12345);
    assert_eq!(s.id, "abc");
    assert_eq!(s.amount, 12345);
    assert_eq!(s.num_participants, 2);
    assert_eq!(s.participant_count, 0);
    assert!(Slate::parse(b"[]".to_vec()).is_err());
}
