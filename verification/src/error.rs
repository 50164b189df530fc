use vstd::prelude::*;

verus! {

/// The error taxonomy of the wallet's relay subsystem.
///
/// Address errors, crypto errors, transport errors, protocol framing errors
/// and state errors are all recoverable; none is fatal to a listener loop.
#[derive(Clone, Debug, PartialEq, Eq)]
pub enum ErrorKind {
    Secp(String),
    TransactionModelNotFound,
    WalletSeedCouldNotBeOpened,
    TransactionHasNoProof,
    InvalidTxId(String),
    InvalidAmount(String),
    CustomWithNoOutputs,
    NonCustomWithOutputs,
    InvalidStrategy,
    InvalidMinConfirmations(String),
    InvalidPaginationLength(String),
    InvalidTxIdNumber(String),
    InvalidTxUuid(String),
    InvalidPaginationStart(String),
    InvalidNumOutputs(String),
    InvalidSlateVersion(String),
    WalletUnlockFailed,
    ZeroConfNotAllowed,
    NoWallet,
    ClosedListener(String),
    InvalidRespose(String),
    AlreadyListening(String),
    ContactAlreadyExists(String),
    ContactNotFound(String),
    InvalidBase58Character(char, usize),
    InvalidBase58Length,
    InvalidBase58Checksum,
    InvalidBase58Version,
    InvalidBase58Key,
    NumberParsingError,
    UnknownAddressType(String),
    GrinboxAddressParsingError(String),
    KeybaseAddressParsingError(String),
    HttpsAddressParsingError(String),
    KeybaseMessageSendError(String),
    GrinWalletReceiveError(String),
    GrinWalletVerifySlateMessagesError(String),
    GrinWalletFinalizeError(String),
    GrinWalletPostError(String),
    KeybaseNotFound,
    GrinboxWebsocketAbnormalTermination,
    DoesNotAcceptInvoices,
    InvoiceAmountTooBig(u64),
    HasListener,
    WalletAlreadyUnlocked,
    Encryption(String),
    Decryption(String),
    HttpRequest(String),
    GenericError(String),
    VerifyProof(String),
    FileNotFound(String, String),
    FileUnableToDelete(String),
    FileUnableToCreate(String, String),
    TxProofParseAddress(String),
    TxProofParsePublicKey,
    TxProofParseSignature(String),
    TxProofVerifySignature,
    TxProofParseEncryptedMessage,
    TxProofVerifyDestination,
    TxProofDecryptionKey,
    TxProofDecryptMessage,
    TxProofParseSlate(String),
}

} // verus!
