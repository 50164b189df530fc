use vstd::prelude::*;
use vstd::string::StringExecFns;
use crate::error::ErrorKind;
use crate::slate::Slate;
use crate::strutil::str_eq;
use crate::txproof::{st_stored_ok, TxProof};

verus! {

// ---------------------------------------------------------------------------
// Plain models of what the wallet engine hands back
// ---------------------------------------------------------------------------

/// One unspent-output row as the engine reports it: its commitment, its
/// value, and whether the engine considers it spendable right now.
#[derive(Clone, Debug)]
pub struct OutputEntry {
    pub commit: Option<String>,
    pub value: u64,
    pub eligible: bool,
}

/// One transaction-log row as the engine reports it.
#[derive(Clone, Debug)]
pub struct TxLogEntrySummary {
    pub id: u32,
    pub tx_slate_id: Option<String>,
    pub confirmed: bool,
}

/// What the node's reported state means.
#[derive(Clone, Copy, Debug, PartialEq, Eq, Structural)]
pub enum NodeStatus {
    Unreachable,
    Reachable,
}

/// The output lists handed around, as ghost sequences.
pub open spec fn list_view(l: Option<Vec<String>>) -> Option<Seq<Seq<char>>> {
    match l {
        Some(v) => Some(v@.map_values(|x: String| x@)),
        None => None,
    }
}

/// Whether one output is selected by an optional commitment list.
pub open spec fn spec_selected(o: OutputEntry, list: Option<Seq<Seq<char>>>) -> bool {
    match list {
        None => true,
        Some(l) => match o.commit {
            Some(c) => l.contains(c@),
            None => false,
        },
    }
}

/// The total value of the selected, spendable outputs.
pub open spec fn spec_total(outputs: Seq<OutputEntry>, list: Option<Seq<Seq<char>>>) -> nat
    decreases outputs.len(),
{
    if outputs.len() == 0 {
        0
    } else {
        (spec_total(outputs.drop_last(), list) + (if spec_selected(outputs.last(), list)
            && outputs.last().eligible {
            outputs.last().value as nat
        } else {
            0
        })) as nat
    }
}

/// How many of the outputs are selected and spendable.
pub open spec fn spec_count(outputs: Seq<OutputEntry>, list: Option<Seq<Seq<char>>>) -> nat
    decreases outputs.len(),
{
    if outputs.len() == 0 {
        0
    } else {
        (spec_count(outputs.drop_last(), list) + (if spec_selected(outputs.last(), list)
            && outputs.last().eligible {
            1nat
        } else {
            0nat
        })) as nat
    }
}

/// A prefix never sums to more than the whole.
proof fn lemma_total_prefix(outputs: Seq<OutputEntry>, list: Option<Seq<Seq<char>>>, i: int)
    requires
        0 <= i <= outputs.len(),
    ensures
        spec_total(outputs.take(i), list) <= spec_total(outputs, list),
    decreases outputs.len() - i,
{
    if i == outputs.len() {
        assert(outputs.take(i) =~= outputs);
    } else {
        lemma_total_prefix(outputs, list, i + 1);
        assert(outputs.take(i + 1).drop_last() =~= outputs.take(i));
    }
}

/// Whether a list of commitment strings holds one.
fn list_contains(l: &Vec<String>, c: &str) -> (r: bool)
    ensures
        r == exists|j: int| 0 <= j < l@.len() && #[trigger] l@[j]@ == c@,
{
    let n = l.len();
    let mut i: usize = 0;
    while i < n
        invariant
            i <= n,
            n == l@.len(),
            forall|k: int| 0 <= k < i ==> #[trigger] l@[k]@ != c@,
        decreases n - i,
    {
        if str_eq(l[i].as_str(), c) {
            return true;
        }
        i = i + 1;
    }
    false
}

/// Whether one output is selected, executably.
fn output_selected(o: &OutputEntry, list: &Option<Vec<String>>) -> (r: bool)
    ensures
        r == spec_selected(*o, spec_opt_list(list)),
{
    match list {
        None => true,
        Some(l) => match &o.commit {
            Some(c) => {
                let b = list_contains(l, c.as_str());
                proof {
                    let m = l@.map_values(|x: String| x@);
                    if b {
                        let j = choose|j: int| 0 <= j < l@.len() && #[trigger] l@[j]@ == c@;
                        assert(m[j] == c@);
                        assert(m.contains(c@));
                    } else {
                        if m.contains(c@) {
                            let j = choose|j: int| 0 <= j < m.len() && m[j] == c@;
                            assert(l@[j]@ == c@);
                            assert(false);
                        }
                    }
                }
                b
            },
            None => false,
        },
    }
}

/// The ghost view of a borrowed optional list.
pub open spec fn spec_opt_list(l: &Option<Vec<String>>) -> Option<Seq<Seq<char>>> {
    match *l {
        Some(v) => Some(v@.map_values(|x: String| x@)),
        None => None,
    }
}

// ---------------------------------------------------------------------------
// The wallet facade
// ---------------------------------------------------------------------------

/// The wallet's session state and the decision rules around the external
/// wallet engine. Everything the engine itself computes arrives here as
/// plain values; every method first demands an open session.
pub struct Wallet {
    pub active_account: String,
    pub backend_open: bool,
    pub max_auto_accept_invoice: Option<u64>,
}

impl Wallet {
    /// Whether a backend session is open.
    pub open spec fn spec_unlocked(&self) -> bool {
        self.backend_open
    }

    /// The largest invoice this wallet accepts unattended, if any.
    pub open spec fn spec_max_invoice(&self) -> Option<u64> {
        self.max_auto_accept_invoice
    }

    /// A fresh, locked wallet on the default account.
    pub fn new(max_auto_accept_invoice: Option<u64>) -> (r: Wallet)
        ensures
            r.active_account@ == "default"@,
            !r.spec_unlocked(),
            r.spec_max_invoice() == max_auto_accept_invoice,
    {
        Wallet {
            active_account: String::from_str("default"),
            backend_open: false,
            max_auto_accept_invoice,
        }
    }

    /// Opens the wallet for an account, given whether the engine could open
    /// its backend with the supplied passphrase.
    pub fn unlock(&mut self, account: &str, engine_opened: bool) -> (r: Result<
        (),
        ErrorKind,
    >)
        ensures
            final(self).spec_max_invoice() == old(self).spec_max_invoice(),
            match r {
                Ok(()) => engine_opened && final(self).spec_unlocked()
                    && final(self).active_account@ == account@,
                Err(e) => {
                    &&& !engine_opened
                    &&& e == ErrorKind::WalletUnlockFailed
                    &&& !final(self).spec_unlocked()
                    &&& final(self).active_account@ == old(self).active_account@
                },
            },
    {
        self.lock();
        if !engine_opened {
            return Err(ErrorKind::WalletUnlockFailed);
        }
        self.backend_open = true;
        self.active_account = String::from_str(account);
        Ok(())
    }

    /// Closes the backend session.
    pub fn lock(&mut self)
        ensures
            !final(self).spec_unlocked(),
            final(self).active_account@ == old(self).active_account@,
            final(self).spec_max_invoice() == old(self).spec_max_invoice(),
    {
        self.backend_open = false;
    }

    /// Whether no backend session is open.
    pub fn is_locked(&self) -> (r: bool)
        ensures
            r == !self.spec_unlocked(),
    {
        !self.backend_open
    }

    /// Whether an account of this name exists among the engine's accounts.
    pub fn account_exists(&self, account: &str, labels: &Vec<String>) -> (r: Result<
        bool,
        ErrorKind,
    >)
        ensures
            match r {
                Ok(b) => self.spec_unlocked() && b == exists|j: int|
                    0 <= j < labels@.len() && #[trigger] labels@[j]@ == account@,
                Err(e) => !self.spec_unlocked() && e == ErrorKind::NoWallet,
            },
    {
        if self.is_locked() {
            return Err(ErrorKind::NoWallet);
        }
        Ok(list_contains(labels, account))
    }

    /// Classifies the node's reported state: a zero height beside a zero
    /// total difficulty means the node could not be reached.
    pub fn node_info(&self, height: u64, total_difficulty: u64) -> (r: Result<
        NodeStatus,
        ErrorKind,
    >)
        ensures
            match r {
                Ok(st) => self.spec_unlocked() && st == (if height == 0
                    && total_difficulty == 0 {
                    NodeStatus::Unreachable
                } else {
                    NodeStatus::Reachable
                }),
                Err(e) => !self.spec_unlocked() && e == ErrorKind::NoWallet,
            },
    {
        if self.is_locked() {
            return Err(ErrorKind::NoWallet);
        }
        if height == 0 && total_difficulty == 0 {
            Ok(NodeStatus::Unreachable)
        } else {
            Ok(NodeStatus::Reachable)
        }
    }

    /// Whether a summary may be shown as validated: an unrefreshed view
    /// always counts as validated.
    pub fn info(&self, refresh: bool, validated: bool) -> (r: Result<bool, ErrorKind>)
        ensures
            match r {
                Ok(b) => self.spec_unlocked() && b == (validated || !refresh),
                Err(e) => !self.spec_unlocked() && e == ErrorKind::NoWallet,
            },
    {
        if self.is_locked() {
            return Err(ErrorKind::NoWallet);
        }
        Ok(validated || !refresh)
    }

    /// The engine's account labels, behind the session gate.
    pub fn list_accounts(&self, labels: Vec<String>) -> (r: Result<Vec<String>, ErrorKind>)
        ensures
            match r {
                Ok(l) => self.spec_unlocked() && l == labels,
                Err(e) => !self.spec_unlocked() && e == ErrorKind::NoWallet,
            },
    {
        if self.is_locked() {
            return Err(ErrorKind::NoWallet);
        }
        Ok(labels)
    }

    /// How many transaction-log rows the engine reported.
    pub fn txs_count(&self, txs: &Vec<TxLogEntrySummary>) -> (r: Result<usize, ErrorKind>)
        ensures
            match r {
                Ok(n) => self.spec_unlocked() && n == txs@.len(),
                Err(e) => !self.spec_unlocked() && e == ErrorKind::NoWallet,
            },
    {
        if self.is_locked() {
            return Err(ErrorKind::NoWallet);
        }
        Ok(txs.len())
    }

    /// The total value of the selected, spendable outputs.
    pub fn total_value(&self, output_list: Option<Vec<String>>, outputs: &Vec<OutputEntry>)
        -> (r: Result<u64, ErrorKind>)
        requires
            spec_total(outputs@, list_view(output_list)) <= u64::MAX,
        ensures
            match r {
                Ok(v) => self.spec_unlocked() && v == spec_total(
                    outputs@,
                    list_view(output_list),
                ),
                Err(e) => !self.spec_unlocked() && e == ErrorKind::NoWallet,
            },
    {
        if self.is_locked() {
            return Err(ErrorKind::NoWallet);
        }
        let ghost lv = list_view(output_list);
        let n = outputs.len();
        let mut value: u64 = 0;
        let mut i: usize = 0;
        proof {
            assert(outputs@.take(0) =~= Seq::<OutputEntry>::empty());
        }
        while i < n
            invariant
                i <= n,
                n == outputs@.len(),
                lv == list_view(output_list),
                lv == spec_opt_list(&output_list),
                value == spec_total(outputs@.take(i as int), lv),
                spec_total(outputs@, lv) <= u64::MAX,
            decreases n - i,
        {
            let o = &outputs[i];
            let sel = output_selected(o, &output_list);
            proof {
                assert(outputs@.take(i + 1).drop_last() =~= outputs@.take(i as int));
                assert(outputs@.take(i + 1).last() == outputs@[i as int]);
                lemma_total_prefix(outputs@, lv, i + 1);
            }
            if sel && o.eligible {
                value = value + o.value;
            }
            i = i + 1;
        }
        proof {
            assert(outputs@.take(n as int) =~= outputs@);
        }
        Ok(value)
    }

    /// How many outputs are selected and spendable.
    pub fn output_count(&self, output_list: Option<Vec<String>>, outputs: &Vec<OutputEntry>)
        -> (r: Result<usize, ErrorKind>)
        ensures
            match r {
                Ok(v) => self.spec_unlocked() && v == spec_count(
                    outputs@,
                    list_view(output_list),
                ),
                Err(e) => !self.spec_unlocked() && e == ErrorKind::NoWallet,
            },
    {
        if self.is_locked() {
            return Err(ErrorKind::NoWallet);
        }
        let ghost lv = list_view(output_list);
        let n = outputs.len();
        let mut count: usize = 0;
        let mut i: usize = 0;
        proof {
            assert(outputs@.take(0) =~= Seq::<OutputEntry>::empty());
        }
        while i < n
            invariant
                i <= n,
                n == outputs@.len(),
                lv == list_view(output_list),
                lv == spec_opt_list(&output_list),
                count == spec_count(outputs@.take(i as int), lv),
                count <= i,
            decreases n - i,
        {
            let o = &outputs[i];
            let sel = output_selected(o, &output_list);
            proof {
                assert(outputs@.take(i + 1).drop_last() =~= outputs@.take(i as int));
                assert(outputs@.take(i + 1).last() == outputs@[i as int]);
            }
            if sel && o.eligible {
                count = count + 1;
            }
            i = i + 1;
        }
        proof {
            assert(outputs@.take(n as int) =~= outputs@);
        }
        Ok(count)
    }

    /// How many outputs the engine retrieved in all.
    pub fn all_output_count(&self, outputs: &Vec<OutputEntry>) -> (r: Result<
        usize,
        ErrorKind,
    >)
        ensures
            match r {
                Ok(n) => self.spec_unlocked() && n == outputs@.len(),
                Err(e) => !self.spec_unlocked() && e == ErrorKind::NoWallet,
            },
    {
        if self.is_locked() {
            return Err(ErrorKind::NoWallet);
        }
        Ok(outputs.len())
    }

    /// Accepts or rejects a receiver-initiated (invoice) slate: invoices are
    /// rejected outright unless auto-acceptance is configured, and any
    /// amount over the configured bound is rejected by name.
    pub fn process_receiver_initiated_slate(&self, slate: &Slate, engine_ok: bool) -> (r:
        Result<(), ErrorKind>)
        ensures
            match r {
                Ok(()) => {
                    &&& self.spec_max_invoice() matches Some(m) && slate.amount <= m
                    &&& self.spec_unlocked()
                    &&& engine_ok
                },
                Err(e) => match e {
                    ErrorKind::DoesNotAcceptInvoices => self.spec_max_invoice() is None,
                    ErrorKind::InvoiceAmountTooBig(a) => {
                        &&& self.spec_max_invoice() matches Some(m) && slate.amount > m
                        &&& a == slate.amount
                    },
                    ErrorKind::NoWallet => {
                        &&& self.spec_max_invoice() matches Some(m) && slate.amount <= m
                        &&& !self.spec_unlocked()
                    },
                    ErrorKind::GenericError(_) => {
                        &&& self.spec_max_invoice() matches Some(m) && slate.amount <= m
                        &&& self.spec_unlocked()
                        &&& !engine_ok
                    },
                    _ => false,
                },
            },
    {
        let max = match self.max_auto_accept_invoice {
            Some(m) => m,
            None => {
                return Err(ErrorKind::DoesNotAcceptInvoices);
            },
        };
        if slate.amount > max {
            return Err(ErrorKind::InvoiceAmountTooBig(slate.amount));
        }
        if self.is_locked() {
            return Err(ErrorKind::NoWallet);
        }
        if !engine_ok {
            return Err(ErrorKind::GenericError(String::from_str(
                "invoice transaction failed",
            )));
        }
        Ok(())
    }

    /// Processes a sender-initiated slate, mapping an engine failure to the
    /// receive error.
    pub fn process_sender_initiated_slate(&self, engine_ok: bool) -> (r: Result<
        (),
        ErrorKind,
    >)
        ensures
            match r {
                Ok(()) => self.spec_unlocked() && engine_ok,
                Err(e) => match e {
                    ErrorKind::NoWallet => !self.spec_unlocked(),
                    ErrorKind::GrinWalletReceiveError(_) => self.spec_unlocked()
                        && !engine_ok,
                    _ => false,
                },
            },
    {
        if self.is_locked() {
            return Err(ErrorKind::NoWallet);
        }
        if !engine_ok {
            return Err(ErrorKind::GrinWalletReceiveError(String::from_str(
                "failed receiving slate",
            )));
        }
        Ok(())
    }

    /// Submits a finished transaction, mapping an engine failure to the post
    /// error.
    pub fn submit(&self, engine_ok: bool) -> (r: Result<(), ErrorKind>)
        ensures
            match r {
                Ok(()) => self.spec_unlocked() && engine_ok,
                Err(e) => match e {
                    ErrorKind::NoWallet => !self.spec_unlocked(),
                    ErrorKind::GrinWalletPostError(_) => self.spec_unlocked() && !engine_ok,
                    _ => false,
                },
            },
    {
        if self.is_locked() {
            return Err(ErrorKind::NoWallet);
        }
        if !engine_ok {
            return Err(ErrorKind::GrinWalletPostError(String::from_str(
                "failed posting transaction",
            )));
        }
        Ok(())
    }

    /// Finalizes a slate: the messages must verify, the engine must
    /// finalize, and when the engine asks for it the transaction must post.
    /// Each stage fails with its own error; the result says whether the
    /// transaction was posted.
    pub fn finalize_slate(&self, verify_ok: bool, finalize_res: Option<bool>, post_ok: bool)
        -> (r: Result<bool, ErrorKind>)
        ensures
            match r {
                Ok(posted) => {
                    &&& self.spec_unlocked()
                    &&& verify_ok
                    &&& finalize_res == Some(posted)
                    &&& posted ==> post_ok
                },
                Err(e) => match e {
                    ErrorKind::NoWallet => !self.spec_unlocked(),
                    ErrorKind::GrinWalletVerifySlateMessagesError(_) => self.spec_unlocked()
                        && !verify_ok,
                    ErrorKind::GrinWalletFinalizeError(_) => self.spec_unlocked()
                        && verify_ok && finalize_res is None,
                    ErrorKind::GrinWalletPostError(_) => self.spec_unlocked() && verify_ok
                        && finalize_res == Some(true) && !post_ok,
                    _ => false,
                },
            },
    {
        if self.is_locked() {
            return Err(ErrorKind::NoWallet);
        }
        if !verify_ok {
            return Err(ErrorKind::GrinWalletVerifySlateMessagesError(String::from_str(
                "failed verifying slate messages",
            )));
        }
        let should_post = match finalize_res {
            Some(b) => b,
            None => {
                return Err(ErrorKind::GrinWalletFinalizeError(String::from_str(
                    "failed finalizing slate",
                )));
            },
        };
        if should_post && !post_ok {
            return Err(ErrorKind::GrinWalletPostError(String::from_str(
                "failed posting transaction",
            )));
        }
        Ok(should_post)
    }

    /// Picks the stored transaction to repost for an id: there must be a
    /// matching row, and it must carry a slate id.
    pub fn repost(&self, id: u32, txs: &Vec<TxLogEntrySummary>) -> (r: Result<
        String,
        ErrorKind,
    >)
        ensures
            match r {
                Ok(sid) => {
                    &&& self.spec_unlocked()
                    &&& txs@.len() > 0
                    &&& txs@[0].tx_slate_id matches Some(s) && sid@ == s@
                },
                Err(e) => match e {
                    ErrorKind::NoWallet => !self.spec_unlocked(),
                    ErrorKind::GenericError(_) => self.spec_unlocked() && (txs@.len() == 0
                        || txs@[0].tx_slate_id is None),
                    _ => false,
                },
            },
    {
        if self.is_locked() {
            return Err(ErrorKind::NoWallet);
        }
        if txs.len() == 0 {
            let mut m = String::from_str("could not find transaction with id ");
            let ids = crate::strutil::u64_to_string(id as u64);
            m.append(ids.as_str());
            return Err(ErrorKind::GenericError(m));
        }
        match &txs[0].tx_slate_id {
            Some(s) => Ok(s.clone()),
            None => {
                let mut m = String::from_str("no transaction data stored for id ");
                let ids = crate::strutil::u64_to_string(id as u64);
                m.append(ids.as_str());
                Err(ErrorKind::GenericError(m))
            },
        }
    }

    /// Re-verifies a stored payment proof and reports what it evidences:
    /// the sender, the receiver, the amount, and the commitments the engine
    /// recorded for the exchange.
    pub fn verify_tx_proof(&self, proof: &TxProof) -> (r: Result<
        (Option<String>, String, u64, Vec<String>, String),
        ErrorKind,
    >)
        requires
            proof.address.wf(),
        ensures
            match r {
                Ok(t) => {
                    &&& self.spec_unlocked()
                    &&& st_stored_ok(proof)
                    &&& t.0 matches Some(sdr) && sdr@ == proof.address@.key
                    &&& t.1@ == proof.receiver@.key
                    &&& t.2 == proof.amount
                    &&& t.3@.len() == proof.outputs@.len()
                    &&& forall|i: int| 0 <= i < t.3@.len()
                        ==> #[trigger] t.3@[i]@ == proof.outputs@[i]@
                    &&& t.4@ == (match proof.kernel_excess {
                        Some(k) => k@,
                        None => Seq::<char>::empty(),
                    })
                },
                Err(e) => match e {
                    ErrorKind::NoWallet => !self.spec_unlocked(),
                    ErrorKind::VerifyProof(_) => self.spec_unlocked()
                        && !st_stored_ok(proof),
                    _ => false,
                },
            },
    {
        if self.is_locked() {
            return Err(ErrorKind::NoWallet);
        }
        if let Err(_) = proof.verify() {
            return Err(ErrorKind::VerifyProof(String::from_str(
                "stored proof does not re-verify",
            )));
        }
        let mut outputs: Vec<String> = Vec::new();
        let mut i: usize = 0;
        while i < proof.outputs.len()
            invariant
                i <= proof.outputs@.len(),
                outputs@.len() == i,
                forall|k: int| 0 <= k < i
                    ==> #[trigger] outputs@[k]@ == proof.outputs@[k]@,
            decreases proof.outputs@.len() - i,
        {
            outputs.push(proof.outputs[i].clone());
            i = i + 1;
        }
        let excess = match &proof.kernel_excess {
            Some(k) => k.clone(),
            None => String::new(),
        };
        Ok((
            Some(proof.address.stripped()),
            proof.receiver.stripped(),
            proof.amount,
            outputs,
            excess,
        ))
    }

    /// Hands out the slate the engine built for an incoming amount.
    pub fn initiate_receive_tx(&self, amount: u64, engine_slate: Option<Slate>) -> (r: Result<
        Slate,
        ErrorKind,
    >)
        ensures
            match r {
                Ok(s) => {
                    &&& self.spec_unlocked()
                    &&& engine_slate matches Some(es) && s == es
                },
                Err(e) => match e {
                    ErrorKind::NoWallet => !self.spec_unlocked(),
                    ErrorKind::GenericError(_) => self.spec_unlocked()
                        && engine_slate is None,
                    _ => false,
                },
            },
    {
        let _ = amount;
        if self.is_locked() {
            return Err(ErrorKind::NoWallet);
        }
        match engine_slate {
            Some(s) => Ok(s),
            None => Err(ErrorKind::GenericError(String::from_str(
                "could not initiate receive transaction",
            ))),
        }
    }
}

} // verus!
