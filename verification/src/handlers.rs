use vstd::prelude::*;
use crate::error::ErrorKind;
use crate::wallet::TxLogEntrySummary;

verus! {

// ---------------------------------------------------------------------------
// Query parameters of the REST surface
// ---------------------------------------------------------------------------

/// Which long-running refresh flow a request asked for.
#[derive(Clone, Copy, Debug, PartialEq, Eq, Structural)]
pub enum ProcType {
    IssueSend,
    SummaryInfo,
    Cancel,
}

/// Query parameters of the outputs listing.
#[derive(Clone, Debug)]
pub struct RetrieveOutputsQueryParams {
    pub refresh: Option<bool>,
    pub show_spent: Option<bool>,
    pub tx_id: Option<u32>,
}

impl RetrieveOutputsQueryParams {
    /// The effective flags, with absent ones off.
    pub fn effective(&self) -> (r: (bool, bool, Option<u32>))
        ensures
            r.0 == (self.refresh == Some(true)),
            r.1 == (self.show_spent == Some(true)),
            r.2 == self.tx_id,
    {
        (
            matches!(self.refresh, Some(true)),
            matches!(self.show_spent, Some(true)),
            self.tx_id,
        )
    }
}

/// Query parameters of the transactions listing.
#[derive(Clone, Debug)]
pub struct RetrieveTransactionsQueryParams {
    pub refresh: Option<bool>,
    pub id: Option<u32>,
    pub tx_id: Option<String>,
}

/// Query parameter of the stored-transaction lookup.
#[derive(Clone, Copy, Debug, PartialEq, Eq, Structural)]
pub struct RetrieveStoredTransactionQueryParams {
    pub id: u32,
}

/// Query parameter of a cancel request.
#[derive(Clone, Copy, Debug, PartialEq, Eq, Structural)]
pub struct CancelTransactionQueryParams {
    pub id: u32,
}

/// Query parameter of a post request.
#[derive(Clone, Copy, Debug, PartialEq, Eq, Structural)]
pub struct PostTransactionQueryParams {
    pub fluff: Option<bool>,
}

impl PostTransactionQueryParams {
    /// The effective fluff flag, off when absent.
    pub fn effective(&self) -> (r: bool)
        ensures
            r == (self.fluff == Some(true)),
    {
        matches!(self.fluff, Some(true))
    }
}

// ---------------------------------------------------------------------------
// Decisions behind the handlers
// ---------------------------------------------------------------------------

/// Picks the one stored transaction a lookup may return: the engine must
/// have found exactly one row, and that row must carry a slate id.
pub fn stored_tx_decision(txs: &Vec<TxLogEntrySummary>) -> (r: Result<
    (bool, String),
    ErrorKind,
>)
    ensures
        match r {
            Ok(p) => {
                &&& txs@.len() == 1
                &&& txs@[0].tx_slate_id matches Some(s) && p.1@ == s@
                &&& p.0 == txs@[0].confirmed
            },
            Err(e) => {
                &&& e == ErrorKind::TransactionModelNotFound
                &&& txs@.len() != 1 || txs@[0].tx_slate_id is None
            },
        },
{
    if txs.len() != 1 {
        return Err(ErrorKind::TransactionModelNotFound);
    }
    match &txs[0].tx_slate_id {
        Some(s) => Ok((txs[0].confirmed, s.clone())),
        None => Err(ErrorKind::TransactionModelNotFound),
    }
}

} // verus!
