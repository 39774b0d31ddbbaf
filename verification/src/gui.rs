//! What the desktop front end decides between the user and the node.
//!
//! The front end turns what the user typed or clicked into requests to the
//! node, and the node's events into messages on named channels of the user
//! interface.  Windows, channels and the node itself are left to the caller;
//! the functions here are the decisions in between.

use vstd::prelude::*;
use vstd::string::*;
use crate::strings::str_equal;

verus! {

/// The network that the node is started on.
#[derive(Debug, Clone, Copy, PartialEq, Eq, Structural)]
pub enum InitNetwork {
    Mainnet,
    Testnet,
}

/// Whether the wallets of the node hold keys on a machine that is online.
#[derive(Debug, Clone, Copy, PartialEq, Eq, Structural)]
pub enum WalletMode {
    Hot,
    Cold,
}

/// Whether a wallet holds its keys on a machine that is online.
#[derive(Debug, Clone, Copy, PartialEq, Eq, Structural)]
pub enum WalletType {
    Hot,
    Cold,
}

/// Whether a wallet is restored from a mnemonic or made new.
#[derive(Debug, Clone, Copy, PartialEq, Eq, Structural)]
pub enum ImportOrCreate {
    Import,
    Create,
}

/// What is to be done to the encryption of a wallet.
#[derive(Debug, Clone, PartialEq, Eq)]
pub enum EncryptionAction {
    SetPassword(String),
    RemovePassword,
    Unlock(String),
    Lock,
}

/// Why a request of the user cannot be passed on.
#[derive(Debug, Clone, Copy, PartialEq, Eq, Structural)]
pub enum RequestError {
    InvalidNetwork,
    InvalidWalletMode,
    InvalidWalletType,
    PasswordMissing,
    UnknownEncryptionAction,
}

impl RequestError {
    /// The words in which the error is told to the user.
    pub open spec fn spec_message(&self) -> Seq<char> {
        match self {
            RequestError::InvalidNetwork => "Invalid network selection"@,
            RequestError::InvalidWalletMode => "Invalid wallet mode selection"@,
            RequestError::InvalidWalletType => "Invalid wallet type selection"@,
            RequestError::PasswordMissing => "Password cannot be empty"@,
            RequestError::UnknownEncryptionAction => "Invalid encryption action"@,
        }
    }

    pub fn message(&self) -> (text: &'static str)
        ensures
            text@ == self.spec_message(),
    {
        match self {
            RequestError::InvalidNetwork => "Invalid network selection",
            RequestError::InvalidWalletMode => "Invalid wallet mode selection",
            RequestError::InvalidWalletType => "Invalid wallet type selection",
            RequestError::PasswordMissing => "Password cannot be empty",
            RequestError::UnknownEncryptionAction => "Invalid encryption action",
        }
    }
}

/// The network that a name of the user interface stands for.
pub open spec fn network_named(name: Seq<char>) -> Option<InitNetwork> {
    if name == "Mainnet"@ {
        Some(InitNetwork::Mainnet)
    } else if name == "Testnet"@ {
        Some(InitNetwork::Testnet)
    } else {
        None
    }
}

/// The wallet kind that a name of the user interface stands for.
pub open spec fn wallet_type_named(name: Seq<char>) -> Option<WalletType> {
    if name == "Hot"@ {
        Some(WalletType::Hot)
    } else if name == "Cold"@ {
        Some(WalletType::Cold)
    } else {
        None
    }
}

/// Reads the network that the user selected.
pub fn parse_network(network: &str) -> (result: Result<InitNetwork, RequestError>)
    ensures
        result == match network_named(network@) {
            Some(net) => Ok::<InitNetwork, RequestError>(net),
            None => Err(RequestError::InvalidNetwork),
        },
{
    if str_equal(network, "Mainnet") {
        Ok(InitNetwork::Mainnet)
    } else if str_equal(network, "Testnet") {
        Ok(InitNetwork::Testnet)
    } else {
        Err(RequestError::InvalidNetwork)
    }
}

/// Reads the wallet mode that the user selected.
pub fn parse_wallet_mode(mode: &str) -> (result: Result<WalletMode, RequestError>)
    ensures
        result == match wallet_type_named(mode@) {
            Some(WalletType::Hot) => Ok::<WalletMode, RequestError>(WalletMode::Hot),
            Some(WalletType::Cold) => Ok(WalletMode::Cold),
            None => Err(RequestError::InvalidWalletMode),
        },
{
    if str_equal(mode, "Hot") {
        Ok(WalletMode::Hot)
    } else if str_equal(mode, "Cold") {
        Ok(WalletMode::Cold)
    } else {
        Err(RequestError::InvalidWalletMode)
    }
}

/// Reads the selections with which the node is started: the network first,
/// then the wallet mode.  Where both are wrong, the network is the one that
/// is complained about.
pub fn read_selections(network: &str, mode: &str) -> (result: Result<(InitNetwork, WalletMode), RequestError>)
    ensures
        result == match (network_named(network@), wallet_type_named(mode@)) {
            (None, _) => Err::<(InitNetwork, WalletMode), RequestError>(RequestError::InvalidNetwork),
            (Some(_), None) => Err(RequestError::InvalidWalletMode),
            (Some(net), Some(WalletType::Hot)) => Ok((net, WalletMode::Hot)),
            (Some(net), Some(WalletType::Cold)) => Ok((net, WalletMode::Cold)),
        },
{
    let network = match parse_network(network) {
        Ok(network) => network,
        Err(err) => {
            return Err(err);
        },
    };
    match parse_wallet_mode(mode) {
        Ok(mode) => Ok((network, mode)),
        Err(err) => Err(err),
    }
}

/// Reads the kind of wallet that the user selected.
pub fn parse_wallet_type(wallet_type: &str) -> (result: Result<WalletType, RequestError>)
    ensures
        result == match wallet_type_named(wallet_type@) {
            Some(kind) => Ok::<WalletType, RequestError>(kind),
            None => Err(RequestError::InvalidWalletType),
        },
{
    if str_equal(wallet_type, "Hot") {
        Ok(WalletType::Hot)
    } else if str_equal(wallet_type, "Cold") {
        Ok(WalletType::Cold)
    } else {
        Err(RequestError::InvalidWalletType)
    }
}

/// The user asks for a wallet to be made or restored.
#[derive(Debug, Clone)]
pub struct OpenCreateWalletRequest {
    pub mnemonic: String,
    pub file_path: String,
    pub import: bool,
    pub wallet_type: String,
}

/// The user asks for a wallet file to be opened.
#[derive(Debug, Clone)]
pub struct OpenWalletRequest {
    pub file_path: String,
    pub wallet_type: String,
}

impl OpenCreateWalletRequest {
    /// Whether the wallet is restored or made new.
    pub fn import_or_create(&self) -> (choice: ImportOrCreate)
        ensures
            choice == if self.import {
                ImportOrCreate::Import
            } else {
                ImportOrCreate::Create
            },
    {
        match self.import {
            true => ImportOrCreate::Import,
            false => ImportOrCreate::Create,
        }
    }

    /// The kind of the wallet.
    pub fn parsed_wallet_type(&self) -> (result: Result<WalletType, RequestError>)
        ensures
            result == match wallet_type_named(self.wallet_type@) {
                Some(kind) => Ok::<WalletType, RequestError>(kind),
                None => Err(RequestError::InvalidWalletType),
            },
    {
        parse_wallet_type(self.wallet_type.as_str())
    }
}

impl OpenWalletRequest {
    /// The kind of the wallet.
    pub fn parsed_wallet_type(&self) -> (result: Result<WalletType, RequestError>)
        ensures
            result == match wallet_type_named(self.wallet_type@) {
                Some(kind) => Ok::<WalletType, RequestError>(kind),
                None => Err(RequestError::InvalidWalletType),
            },
    {
        parse_wallet_type(self.wallet_type.as_str())
    }
}

/// What `str::to_lowercase` makes of a string with the given characters.
pub uninterp spec fn lowercased(s: Seq<char>) -> Seq<char>;

/// Calls `str::to_lowercase`, which gives the lowercase equivalent of the
/// string as a new string.  The contract only gives the result its name.
#[verifier::external_body]
fn to_lowercase(s: &str) -> (lower: String)
    ensures
        lower@ == lowercased(s@),
{
    s.to_lowercase()
}

/// What is to be done to the encryption of a wallet, given the name of the
/// action in lower case and the password that came with it.
pub open spec fn encryption_action_named(lower: Seq<char>, password: Option<String>) -> Result<
    EncryptionAction,
    RequestError,
> {
    if lower == "set_password"@ {
        match password {
            Some(pass) => Ok(EncryptionAction::SetPassword(pass)),
            None => Err(RequestError::PasswordMissing),
        }
    } else if lower == "remove_password"@ {
        Ok(EncryptionAction::RemovePassword)
    } else if lower == "unlock"@ {
        match password {
            Some(pass) => Ok(EncryptionAction::Unlock(pass)),
            None => Err(RequestError::PasswordMissing),
        }
    } else if lower == "lock"@ {
        Ok(EncryptionAction::Lock)
    } else {
        Err(RequestError::UnknownEncryptionAction)
    }
}

/// Decides what is to be done to the encryption of a wallet, given the name
/// of the action in lower case.
pub fn encryption_action_for(lower: &str, password: Option<String>) -> (result: Result<
    EncryptionAction,
    RequestError,
>)
    ensures
        result == encryption_action_named(lower@, password),
{
    if str_equal(lower, "set_password") {
        match password {
            Some(pass) => Ok(EncryptionAction::SetPassword(pass)),
            None => Err(RequestError::PasswordMissing),
        }
    } else if str_equal(lower, "remove_password") {
        Ok(EncryptionAction::RemovePassword)
    } else if str_equal(lower, "unlock") {
        match password {
            Some(pass) => Ok(EncryptionAction::Unlock(pass)),
            None => Err(RequestError::PasswordMissing),
        }
    } else if str_equal(lower, "lock") {
        Ok(EncryptionAction::Lock)
    } else {
        Err(RequestError::UnknownEncryptionAction)
    }
}

/// Reads the action on the encryption of a wallet that the user asked for.
/// The name of the action is read without regard to case.
pub fn parse_encryption_action(action: &str, password: Option<String>) -> (result: Result<
    EncryptionAction,
    RequestError,
>)
    ensures
        result == encryption_action_named(lowercased(action@), password),
{
    let lower = to_lowercase(action);
    encryption_action_for(lower.as_str(), password)
}

/// The kinds of events that the node reports to the front end.
#[derive(Debug, Clone, Copy, PartialEq, Eq, Structural)]
pub enum BackendEventKind {
    P2p,
    ChainInfo,
    ImportWallet,
    OpenWallet,
    SendAmount,
    NewAddress,
    UpdateEncryption,
    CloseWallet,
    StakeAmount,
    DecommissionPool,
    CreateDelegation,
    DelegateStaking,
    SendDelegationToAddress,
    NewAccount,
    ToggleStaking,
    ConsoleResponse,
    Broadcast,
    Balance,
    StakingBalance,
    DelegationsBalance,
    TransactionList,
}

/// The two queues on which events arrive.
#[derive(Debug, Clone, Copy, PartialEq, Eq, Structural)]
pub enum EventPriority {
    Normal,
    Low,
}

/// What is sent to the user interface for an event.
#[derive(Debug, Clone, Copy, PartialEq, Eq)]
pub struct Emission {
    /// The channel on which the message is sent.
    pub channel: &'static str,
    /// Whether the message carries the transaction of the event in
    /// serialized form beside the event's own data.
    pub with_serialized_tx: bool,
}

impl BackendEventKind {
    /// Whether events of this kind carry a transaction that is shown to
    /// the user in serialized form.
    pub open spec fn spec_carries_transaction(&self) -> bool {
        matches!(
            self,
            BackendEventKind::SendAmount | BackendEventKind::StakeAmount | BackendEventKind::DecommissionPool
                | BackendEventKind::CreateDelegation | BackendEventKind::DelegateStaking
                | BackendEventKind::SendDelegationToAddress
        )
    }

    /// Whether events of this kind are looked at when they arrive on the
    /// given queue.
    pub open spec fn spec_handled_on(&self, priority: EventPriority) -> bool {
        match priority {
            EventPriority::Normal => !matches!(
                self,
                BackendEventKind::Balance | BackendEventKind::StakingBalance | BackendEventKind::DelegationsBalance
                    | BackendEventKind::TransactionList
            ),
            EventPriority::Low => matches!(
                self,
                BackendEventKind::Balance | BackendEventKind::StakingBalance | BackendEventKind::DelegationsBalance
                    | BackendEventKind::TransactionList | BackendEventKind::NewAddress
            ),
        }
    }

    /// Whether events of this kind can tell of a failure.
    pub open spec fn spec_can_fail(&self) -> bool {
        !matches!(
            self,
            BackendEventKind::P2p | BackendEventKind::ChainInfo | BackendEventKind::CloseWallet
                | BackendEventKind::Balance | BackendEventKind::StakingBalance | BackendEventKind::DelegationsBalance
        )
    }

    /// The channel on which a success of this kind is told.
    pub open spec fn spec_channel(&self) -> Seq<char> {
        match self {
            BackendEventKind::P2p => "P2p"@,
            BackendEventKind::ChainInfo => "ChainInfo"@,
            BackendEventKind::ImportWallet => "ImportWallet"@,
            BackendEventKind::OpenWallet => "OpenWallet"@,
            BackendEventKind::SendAmount => "SendAmount"@,
            BackendEventKind::NewAddress => "NewAddress"@,
            BackendEventKind::UpdateEncryption => "UpdateEncryption"@,
            BackendEventKind::CloseWallet => "CloseWallet"@,
            BackendEventKind::StakeAmount => "StakeAmount"@,
            BackendEventKind::DecommissionPool => "DecommissionPool"@,
            BackendEventKind::CreateDelegation => "CreateDelegation"@,
            BackendEventKind::DelegateStaking => "DelegateStaking"@,
            BackendEventKind::SendDelegationToAddress => "SendDelegationToAddress"@,
            BackendEventKind::NewAccount => "NewAccount"@,
            BackendEventKind::ToggleStaking => "ToggleStaking"@,
            BackendEventKind::ConsoleResponse => "ConsoleResponse"@,
            BackendEventKind::Broadcast => "Broadcast"@,
            BackendEventKind::Balance => "Balance"@,
            BackendEventKind::StakingBalance => "StakingBalance"@,
            BackendEventKind::DelegationsBalance => "DelegationBalance"@,
            BackendEventKind::TransactionList => "TransactionList"@,
        }
    }

    #[verifier::when_used_as_spec(spec_carries_transaction)]
    pub fn carries_transaction(&self) -> (carries: bool)
        ensures
            carries == self.spec_carries_transaction(),
    {
        match self {
            BackendEventKind::SendAmount => true,
            BackendEventKind::StakeAmount => true,
            BackendEventKind::DecommissionPool => true,
            BackendEventKind::CreateDelegation => true,
            BackendEventKind::DelegateStaking => true,
            BackendEventKind::SendDelegationToAddress => true,
            _ => false,
        }
    }

    #[verifier::when_used_as_spec(spec_handled_on)]
    pub fn handled_on(&self, priority: EventPriority) -> (handled: bool)
        ensures
            handled == self.spec_handled_on(priority),
    {
        let balance_like = match self {
            BackendEventKind::Balance => true,
            BackendEventKind::StakingBalance => true,
            BackendEventKind::DelegationsBalance => true,
            BackendEventKind::TransactionList => true,
            _ => false,
        };
        match priority {
            EventPriority::Normal => !balance_like,
            EventPriority::Low => balance_like || match self {
                BackendEventKind::NewAddress => true,
                _ => false,
            },
        }
    }

    #[verifier::when_used_as_spec(spec_can_fail)]
    pub fn can_fail(&self) -> (fallible: bool)
        ensures
            fallible == self.spec_can_fail(),
    {
        match self {
            BackendEventKind::P2p => false,
            BackendEventKind::ChainInfo => false,
            BackendEventKind::CloseWallet => false,
            BackendEventKind::Balance => false,
            BackendEventKind::StakingBalance => false,
            BackendEventKind::DelegationsBalance => false,
            _ => true,
        }
    }

    /// The channel on which a success of this kind is told.
    pub fn channel(&self) -> (name: &'static str)
        ensures
            name@ == self.spec_channel(),
    {
        match self {
            BackendEventKind::P2p => "P2p",
            BackendEventKind::ChainInfo => "ChainInfo",
            BackendEventKind::ImportWallet => "ImportWallet",
            BackendEventKind::OpenWallet => "OpenWallet",
            BackendEventKind::SendAmount => "SendAmount",
            BackendEventKind::NewAddress => "NewAddress",
            BackendEventKind::UpdateEncryption => "UpdateEncryption",
            BackendEventKind::CloseWallet => "CloseWallet",
            BackendEventKind::StakeAmount => "StakeAmount",
            BackendEventKind::DecommissionPool => "DecommissionPool",
            BackendEventKind::CreateDelegation => "CreateDelegation",
            BackendEventKind::DelegateStaking => "DelegateStaking",
            BackendEventKind::SendDelegationToAddress => "SendDelegationToAddress",
            BackendEventKind::NewAccount => "NewAccount",
            BackendEventKind::ToggleStaking => "ToggleStaking",
            BackendEventKind::ConsoleResponse => "ConsoleResponse",
            BackendEventKind::Broadcast => "Broadcast",
            BackendEventKind::Balance => "Balance",
            BackendEventKind::StakingBalance => "StakingBalance",
            BackendEventKind::DelegationsBalance => "DelegationBalance",
            BackendEventKind::TransactionList => "TransactionList",
        }
    }
}

/// The channel and the form of the message that the user interface gets for
/// an event; nothing if the event is not looked at on the queue on which it
/// arrived.
///
/// A success is told on the channel of its kind.  A failure is told on the
/// channel `Error`, except that a failed console command is told on the
/// channel of console responses, where the user typed it.
pub open spec fn emission_for(kind: BackendEventKind, priority: EventPriority, succeeded: bool) -> Option<
    (Seq<char>, bool),
> {
    if !kind.spec_handled_on(priority) {
        None
    } else if succeeded || !kind.spec_can_fail() {
        Some((kind.spec_channel(), kind.spec_carries_transaction()))
    } else if kind == BackendEventKind::ConsoleResponse {
        Some((kind.spec_channel(), false))
    } else {
        Some(("Error"@, false))
    }
}

/// Decides what the user interface is sent for an event.
pub fn route_event(kind: BackendEventKind, priority: EventPriority, succeeded: bool) -> (emission: Option<Emission>)
    ensures
        match emission {
            Some(e) => emission_for(kind, priority, succeeded) == Some((e.channel@, e.with_serialized_tx)),
            None => emission_for(kind, priority, succeeded).is_none(),
        },
{
    if !kind.handled_on(priority) {
        None
    } else if succeeded || !kind.can_fail() {
        Some(Emission { channel: kind.channel(), with_serialized_tx: kind.carries_transaction() })
    } else {
        match kind {
            BackendEventKind::ConsoleResponse => Some(Emission { channel: kind.channel(), with_serialized_tx: false }),
            _ => Some(Emission { channel: "Error", with_serialized_tx: false }),
        }
    }
}

/// The wallet that a request or an event is about.
#[derive(Debug, Clone, Copy, PartialEq, Eq, Structural)]
pub struct WalletId {
    pub id: u64,
}

/// The account of a wallet that a request or an event is about.
#[derive(Debug, Clone, Copy, PartialEq, Eq, Structural)]
pub struct AccountId {
    pub index: u32,
}

/// The user asks for coins to be sent.
#[derive(Debug, Clone)]
pub struct SendAmountRequest {
    pub wallet_id: WalletId,
    pub account_id: AccountId,
    pub amount: String,
    pub address: String,
}

/// The user asks for a staking pool to be made.
#[derive(Debug, Clone)]
pub struct StakeAmountRequest {
    pub wallet_id: WalletId,
    pub account_id: AccountId,
    pub pledge_amount: String,
    pub mpt: String,
    pub cost_per_block: String,
    pub decommission_address: String,
}

/// The user asks for a staking pool to be closed down.
#[derive(Debug, Clone)]
pub struct DecommissionStakingPoolRequest {
    pub wallet_id: WalletId,
    pub account_id: AccountId,
    pub pool_id: String,
    pub output_address: String,
}

/// The user asks for a delegation to a pool to be made.
#[derive(Debug, Clone)]
pub struct DelegationCreateRequest {
    pub wallet_id: WalletId,
    pub account_id: AccountId,
    pub pool_id: String,
    pub delegation_address: String,
}

/// The user asks for coins to be put into a delegation.
#[derive(Debug, Clone)]
pub struct StakingDelegateRequest {
    pub wallet_id: WalletId,
    pub account_id: AccountId,
    pub delegation_id: String,
    pub delegation_amount: String,
}

/// The user asks for a new receiving address.
#[derive(Debug, Clone, Copy, PartialEq, Eq, Structural)]
pub struct NewAddressRequest {
    pub wallet_id: WalletId,
    pub account_id: AccountId,
}

/// The user asks for the encryption of a wallet to be changed.
#[derive(Debug, Clone)]
pub struct UpdateEncryptionRequest {
    pub wallet_id: WalletId,
    pub action: String,
    pub password: Option<String>,
}

/// The user asks for coins to be taken out of a delegation.
#[derive(Debug, Clone)]
pub struct SendDelegateRequest {
    pub wallet_id: WalletId,
    pub account_id: AccountId,
    pub address: String,
    pub amount: String,
    pub delegation_id: String,
}

/// The user asks for a new account.
#[derive(Debug, Clone)]
pub struct NewAccountRequest {
    pub wallet_id: WalletId,
    pub name: String,
}

/// The user switches staking on or off.
#[derive(Debug, Clone, Copy, PartialEq, Eq, Structural)]
pub struct ToggleStakingRequest {
    pub wallet_id: WalletId,
    pub account_id: AccountId,
    pub enabled: bool,
}

/// The user typed a command into the console.
#[derive(Debug, Clone)]
pub struct ConsoleRequest {
    pub wallet_id: WalletId,
    pub account_id: AccountId,
    pub command: String,
}

/// The user confirmed a transaction that was shown to him.
#[derive(Debug, Clone)]
pub struct SubmitTransactionRequest {
    /// The transaction in its encoded form.
    pub tx: Vec<u8>,
    pub wallet_id: WalletId,
}

/// What the node is asked to do.
#[derive(Debug, Clone, PartialEq, Eq)]
pub enum BackendRequest {
    RecoverWallet { file_path: String, wallet_type: WalletType, mnemonic: String, import: ImportOrCreate },
    OpenWallet { file_path: String, wallet_type: WalletType },
    SendAmount { wallet_id: WalletId, account_id: AccountId, amount: String, address: String },
    NewAddress(WalletId, AccountId),
    UpdateEncryption { wallet_id: WalletId, action: EncryptionAction },
    CloseWallet(WalletId),
    StakeAmount {
        wallet_id: WalletId,
        account_id: AccountId,
        pledge_amount: String,
        mpt: String,
        cost_per_block: String,
        decommission_address: String,
    },
    DecommissionPool { wallet_id: WalletId, account_id: AccountId, pool_id: String, output_address: String },
    CreateDelegation { wallet_id: WalletId, account_id: AccountId, pool_id: String, delegation_address: String },
    DelegateStaking { wallet_id: WalletId, account_id: AccountId, delegation_id: String, delegation_amount: String },
    SendDelegationToAddress {
        wallet_id: WalletId,
        account_id: AccountId,
        address: String,
        amount: String,
        delegation_id: String,
    },
    NewAccount { wallet_id: WalletId, name: String },
    ToggleStaking(WalletId, AccountId, bool),
    ConsoleCommand { wallet_id: WalletId, account_id: AccountId, command: String },
    SubmitTx { wallet_id: WalletId, tx: Vec<u8> },
    Shutdown,
}

impl OpenCreateWalletRequest {
    /// What the node is asked for this request.
    pub fn into_backend_request(self) -> (result: Result<BackendRequest, RequestError>)
        ensures
            result == match wallet_type_named(self.wallet_type@) {
                Some(kind) => Ok::<BackendRequest, RequestError>(
                    BackendRequest::RecoverWallet {
                        file_path: self.file_path,
                        wallet_type: kind,
                        mnemonic: self.mnemonic,
                        import: if self.import {
                            ImportOrCreate::Import
                        } else {
                            ImportOrCreate::Create
                        },
                    },
                ),
                None => Err(RequestError::InvalidWalletType),
            },
    {
        let wallet_type = match self.parsed_wallet_type() {
            Ok(kind) => kind,
            Err(err) => {
                return Err(err);
            },
        };
        let import = self.import_or_create();
        Ok(BackendRequest::RecoverWallet { file_path: self.file_path, wallet_type, mnemonic: self.mnemonic, import })
    }
}

impl OpenWalletRequest {
    /// What the node is asked for this request.
    pub fn into_backend_request(self) -> (result: Result<BackendRequest, RequestError>)
        ensures
            result == match wallet_type_named(self.wallet_type@) {
                Some(kind) => Ok::<BackendRequest, RequestError>(
                    BackendRequest::OpenWallet { file_path: self.file_path, wallet_type: kind },
                ),
                None => Err(RequestError::InvalidWalletType),
            },
    {
        match self.parsed_wallet_type() {
            Ok(wallet_type) => Ok(BackendRequest::OpenWallet { file_path: self.file_path, wallet_type }),
            Err(err) => Err(err),
        }
    }
}

impl UpdateEncryptionRequest {
    /// What the node is asked for this request.
    pub fn into_backend_request(self) -> (result: Result<BackendRequest, RequestError>)
        ensures
            result == match encryption_action_named(lowercased(self.action@), self.password) {
                Ok(action) => Ok::<BackendRequest, RequestError>(
                    BackendRequest::UpdateEncryption { wallet_id: self.wallet_id, action },
                ),
                Err(err) => Err(err),
            },
    {
        match parse_encryption_action(self.action.as_str(), self.password) {
            Ok(action) => Ok(BackendRequest::UpdateEncryption { wallet_id: self.wallet_id, action }),
            Err(err) => Err(err),
        }
    }
}

impl SendAmountRequest {
    pub fn into_backend_request(self) -> (request: BackendRequest)
        ensures
            request == (BackendRequest::SendAmount {
                wallet_id: self.wallet_id,
                account_id: self.account_id,
                amount: self.amount,
                address: self.address,
            }),
    {
        BackendRequest::SendAmount {
            wallet_id: self.wallet_id,
            account_id: self.account_id,
            amount: self.amount,
            address: self.address,
        }
    }
}

impl StakeAmountRequest {
    pub fn into_backend_request(self) -> (request: BackendRequest)
        ensures
            request == (BackendRequest::StakeAmount {
                wallet_id: self.wallet_id,
                account_id: self.account_id,
                pledge_amount: self.pledge_amount,
                mpt: self.mpt,
                cost_per_block: self.cost_per_block,
                decommission_address: self.decommission_address,
            }),
    {
        BackendRequest::StakeAmount {
            wallet_id: self.wallet_id,
            account_id: self.account_id,
            pledge_amount: self.pledge_amount,
            mpt: self.mpt,
            cost_per_block: self.cost_per_block,
            decommission_address: self.decommission_address,
        }
    }
}

impl DecommissionStakingPoolRequest {
    pub fn into_backend_request(self) -> (request: BackendRequest)
        ensures
            request == (BackendRequest::DecommissionPool {
                wallet_id: self.wallet_id,
                account_id: self.account_id,
                pool_id: self.pool_id,
                output_address: self.output_address,
            }),
    {
        BackendRequest::DecommissionPool {
            wallet_id: self.wallet_id,
            account_id: self.account_id,
            pool_id: self.pool_id,
            output_address: self.output_address,
        }
    }
}

impl DelegationCreateRequest {
    pub fn into_backend_request(self) -> (request: BackendRequest)
        ensures
            request == (BackendRequest::CreateDelegation {
                wallet_id: self.wallet_id,
                account_id: self.account_id,
                pool_id: self.pool_id,
                delegation_address: self.delegation_address,
            }),
    {
        BackendRequest::CreateDelegation {
            wallet_id: self.wallet_id,
            account_id: self.account_id,
            pool_id: self.pool_id,
            delegation_address: self.delegation_address,
        }
    }
}

impl StakingDelegateRequest {
    pub fn into_backend_request(self) -> (request: BackendRequest)
        ensures
            request == (BackendRequest::DelegateStaking {
                wallet_id: self.wallet_id,
                account_id: self.account_id,
                delegation_id: self.delegation_id,
                delegation_amount: self.delegation_amount,
            }),
    {
        BackendRequest::DelegateStaking {
            wallet_id: self.wallet_id,
            account_id: self.account_id,
            delegation_id: self.delegation_id,
            delegation_amount: self.delegation_amount,
        }
    }
}

impl SendDelegateRequest {
    pub fn into_backend_request(self) -> (request: BackendRequest)
        ensures
            request == (BackendRequest::SendDelegationToAddress {
                wallet_id: self.wallet_id,
                account_id: self.account_id,
                address: self.address,
                amount: self.amount,
                delegation_id: self.delegation_id,
            }),
    {
        BackendRequest::SendDelegationToAddress {
            wallet_id: self.wallet_id,
            account_id: self.account_id,
            address: self.address,
            amount: self.amount,
            delegation_id: self.delegation_id,
        }
    }
}

impl NewAddressRequest {
    pub fn into_backend_request(self) -> (request: BackendRequest)
        ensures
            request == BackendRequest::NewAddress(self.wallet_id, self.account_id),
    {
        BackendRequest::NewAddress(self.wallet_id, self.account_id)
    }
}

impl NewAccountRequest {
    pub fn into_backend_request(self) -> (request: BackendRequest)
        ensures
            request == (BackendRequest::NewAccount { wallet_id: self.wallet_id, name: self.name }),
    {
        BackendRequest::NewAccount { wallet_id: self.wallet_id, name: self.name }
    }
}

impl ToggleStakingRequest {
    pub fn into_backend_request(self) -> (request: BackendRequest)
        ensures
            request == BackendRequest::ToggleStaking(self.wallet_id, self.account_id, self.enabled),
    {
        BackendRequest::ToggleStaking(self.wallet_id, self.account_id, self.enabled)
    }
}

impl ConsoleRequest {
    pub fn into_backend_request(self) -> (request: BackendRequest)
        ensures
            request == (BackendRequest::ConsoleCommand {
                wallet_id: self.wallet_id,
                account_id: self.account_id,
                command: self.command,
            }),
    {
        BackendRequest::ConsoleCommand {
            wallet_id: self.wallet_id,
            account_id: self.account_id,
            command: self.command,
        }
    }
}

impl SubmitTransactionRequest {
    pub fn into_backend_request(self) -> (request: BackendRequest)
        ensures
            request == (BackendRequest::SubmitTx { wallet_id: self.wallet_id, tx: self.tx }),
    {
        BackendRequest::SubmitTx { wallet_id: self.wallet_id, tx: self.tx }
    }
}

} // verus!
