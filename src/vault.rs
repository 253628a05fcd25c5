//! Custodial vaults: balance accounting, an idempotent per-order deposit
//! ledger, authority-gated reconfiguration, and a sweep of the whole
//! balance to a destination fixed beforehand.
//!
//! A vault holds either the ledger's native asset or a fungible token. Its
//! own identities (state account and holding account) are derived from the
//! program's identity, so every guard below can recompute them.
use crate::address::{
    address_bytes, associated_address_of, associated_token_address, opt_view, program_address_of,
    token_program_bytes, try_find_program_address, zero_bytes, Address,
};
use anchor_spl::token::TokenAccount;
use anchor_lang::AccountDeserialize;
use vstd::prelude::*;

verus! {

/// Longest accepted order identifier, in bytes.
pub const MAX_ORDER_ID_LEN: usize = 32;

/// Byte length of a token holding account's data.
pub const TOKEN_ACCOUNT_LEN: usize = 165;

/// Why a vault operation was refused.
#[derive(Clone, Copy, Debug, PartialEq, Eq, Structural)]
pub enum VaultError {
    InvalidAmount,
    MintMismatch,
    NoFunds,
    WalletNotSet,
    Unauthorized,
    NotRentExempt,
    MathOverflow,
    InvalidWithdrawalWallet,
    InvalidAuthority,
    OrderIdEmpty,
    OrderIdTooLong,
    DuplicateOrder,
    DepositNotFound,
    InvalidDataLength,
    CorruptedTokenAccount,
    WalletAccountMissing,
    WalletAccountMismatch,
    AuthorityCannotBeVaultAccount,
    NoDerivedAddress,
}

impl VaultError {
    /// Human-readable description of the error.
    pub fn message(&self) -> &'static str {
        match self {
            VaultError::InvalidAmount => "Invalid deposit amount",
            VaultError::MintMismatch => "Token mint mismatch",
            VaultError::NoFunds => "No funds available for withdrawal",
            VaultError::WalletNotSet => "Withdrawal wallet not set",
            VaultError::Unauthorized => "Unauthorized access",
            VaultError::NotRentExempt => "Account is not rent exempt",
            VaultError::MathOverflow => "Math overflow",
            VaultError::InvalidWithdrawalWallet => "Invalid withdrawal wallet address",
            VaultError::InvalidAuthority => "Invalid authority address",
            VaultError::OrderIdEmpty => "Order ID cannot be empty",
            VaultError::OrderIdTooLong => "Order ID is longer than 32 bytes",
            VaultError::DuplicateOrder => "A deposit with this order ID already exists",
            VaultError::DepositNotFound => "Deposit record not found",
            VaultError::InvalidDataLength => "Invalid token account data length",
            VaultError::CorruptedTokenAccount => "Token account state is corrupted or invalid",
            VaultError::WalletAccountMissing => "Withdrawal destination account not provided",
            VaultError::WalletAccountMismatch => "Provided account does not match the configured withdrawal wallet",
            VaultError::AuthorityCannotBeVaultAccount => "Authority cannot be a vault account",
            VaultError::NoDerivedAddress => "No program-derived address exists for these seeds",
        }
    }
}

/// Which asset a vault holds.
#[derive(Clone, Copy, Debug, PartialEq, Eq, Structural)]
pub enum AssetKind {
    /// The ledger's native asset, held by a program-derived account.
    Native,
    /// A fungible token, held by the vault's associated token account.
    Token,
}

/// The vault program: its asset kind and its own identity.
#[derive(Clone, Copy, Debug, PartialEq, Eq)]
pub struct VaultProgram {
    pub kind: AssetKind,
    pub program_id: Address,
}

/// One vault's configuration and locally tracked balance.
#[derive(Clone, Copy, Debug, PartialEq, Eq)]
pub struct VaultState {
    pub authority: Address,
    /// The asset held (the null identity for the native asset).
    pub token_mint: Address,
    /// Where withdrawals go; the null identity until configured.
    pub wallet_account: Address,
    /// Amount received by deposits since the last withdrawal.
    pub balance: u64,
}

/// One deposit, recorded once per (asset, depositor, order id).
#[derive(Clone, Debug, PartialEq, Eq)]
pub struct DepositRecord {
    pub order_id: String,
    pub user: Address,
    pub token_mint: Address,
    /// Amount the holding account actually received.
    pub amount: u64,
    pub timestamp: i64,
}

/// The deposit records of one program, each key present at most once.
#[derive(Debug)]
pub struct DepositLedger {
    records: Vec<DepositRecord>,
}

impl View for DepositLedger {
    type V = Seq<DepositRecord>;

    closed spec fn view(&self) -> Seq<DepositRecord> {
        self.records@
    }
}

/// What the ledger shows of an account that may be a token holding account.
#[derive(Clone, Debug)]
pub struct AccountSnapshot {
    pub key: Address,
    /// The program that owns the account.
    pub owner_program: Address,
    pub data: Vec<u8>,
    pub lamports: u64,
}

/// The fields of a token holding account the vault checks.
#[derive(Clone, Copy, Debug)]
pub struct TokenAccountFields {
    pub mint: Address,
    pub owner: Address,
}

/// What remains to be done for a destination holding account.
#[derive(Clone, Copy, Debug, PartialEq, Eq)]
pub enum HoldingAccountStep {
    /// The account exists and was validated.
    Ready(Address),
    /// The account does not exist yet and must be created at this address.
    Create(Address),
}

/// What a status query reports.
#[derive(Clone, Copy, Debug, PartialEq, Eq)]
pub struct VaultStatus {
    pub token_mint: Address,
    pub authority: Address,
    pub wallet_account: Address,
    pub tracked_balance: u64,
    pub holding_balance: u64,
    pub rent_exempt: bool,
}

/// Whether `r` is the record of `order_id` by `user` for asset `mint`.
pub open spec fn record_has_key(r: DepositRecord, mint: Seq<u8>, user: Seq<u8>, order_id: Seq<char>) -> bool {
    r.token_mint@ == mint && r.user@ == user && r.order_id@ == order_id
}

pub open spec fn ledger_has(records: Seq<DepositRecord>, mint: Seq<u8>, user: Seq<u8>, order_id: Seq<char>) -> bool {
    exists|i: int| 0 <= i < records.len() && record_has_key(#[trigger] records[i], mint, user, order_id)
}

/// No two records share a key.
pub open spec fn keys_unique(records: Seq<DepositRecord>) -> bool {
    forall|i: int, j: int|
        0 <= i < j < records.len() ==> !record_has_key(
            #[trigger] records[i],
            #[trigger] records[j].token_mint@,
            records[j].user@,
            records[j].order_id@,
        )
}

/// Byte length of an order identifier.
pub open spec fn order_id_bytes(order_id: String) -> nat {
    vstd::utf8::encode_utf8(order_id@).len()
}

/// The outcome of a deposit of nominal `amount` under `order_id`, the
/// holding account holding `balance_before` before the transfer and
/// `balance_after` after it: the vault, the ledger, and the amount
/// actually received, or the error.
pub open spec fn deposit_outcome(
    vault: VaultState,
    records: Seq<DepositRecord>,
    user: Address,
    order_id: String,
    amount: u64,
    balance_before: u64,
    balance_after: u64,
    timestamp: i64,
) -> Result<(VaultState, Seq<DepositRecord>, u64), VaultError> {
    let received = balance_after - balance_before;
    if amount == 0 {
        Err(VaultError::InvalidAmount)
    } else if order_id@.len() == 0 {
        Err(VaultError::OrderIdEmpty)
    } else if order_id_bytes(order_id) > MAX_ORDER_ID_LEN {
        Err(VaultError::OrderIdTooLong)
    } else if ledger_has(records, vault.token_mint@, user@, order_id@) {
        Err(VaultError::DuplicateOrder)
    } else if received < 0 || vault.balance + received > u64::MAX {
        Err(VaultError::MathOverflow)
    } else {
        Ok(
            (
                VaultState { balance: (vault.balance + received) as u64, ..vault },
                records.push(
                    DepositRecord {
                        order_id,
                        user,
                        token_mint: vault.token_mint,
                        amount: received as u64,
                        timestamp,
                    },
                ),
                received as u64,
            ),
        )
    }
}

/// Seeds of a vault's state account.
pub open spec fn vault_state_seeds(kind: AssetKind, mint: Seq<u8>) -> Seq<Seq<u8>> {
    match kind {
        AssetKind::Native => seq![seq![118u8, 97, 117, 108, 116, 95, 115, 116, 97, 116, 101]],
        AssetKind::Token => seq![seq![118u8, 97, 117, 108, 116, 95, 115, 116, 97, 116, 101], mint],
    }
}

/// Seeds of the native vault's holding account.
pub open spec fn native_holding_seeds() -> Seq<Seq<u8>> {
    seq![seq![118u8, 97, 117, 108, 116, 95, 112, 100, 97]]
}

/// The vault's state account.
pub open spec fn vault_address_of(program: VaultProgram, mint: Seq<u8>) -> Option<Seq<u8>> {
    match program_address_of(vault_state_seeds(program.kind, mint), program.program_id@) {
        Some(found) => Some(found.0),
        None => None,
    }
}

/// The account that physically holds the vault's asset.
pub open spec fn holding_address_of(program: VaultProgram, mint: Seq<u8>) -> Option<Seq<u8>> {
    match program.kind {
        AssetKind::Native => match program_address_of(native_holding_seeds(), program.program_id@) {
            Some(found) => Some(found.0),
            None => None,
        },
        AssetKind::Token => match vault_address_of(program, mint) {
            Some(v) => associated_address_of(v, mint),
            None => None,
        },
    }
}

/// Whether `a` is one of the vault's own identities: its state account,
/// its holding account, or its asset.
pub open spec fn is_vault_identity(program: VaultProgram, mint: Seq<u8>, a: Seq<u8>) -> bool {
    ||| vault_address_of(program, mint) == Some(a)
    ||| holding_address_of(program, mint) == Some(a)
    ||| a == mint
}

/// Whether `a` may become the withdrawal destination: not the null
/// identity, not the program, and none of the vault's own identities.
pub open spec fn destination_allowed(program: VaultProgram, mint: Seq<u8>, a: Seq<u8>) -> bool {
    &&& a != zero_bytes()
    &&& a != program.program_id@
    &&& !is_vault_identity(program, mint, a)
}

fn seed_vault_state() -> (r: Vec<u8>)
    ensures
        r@ == seq![118u8, 97, 117, 108, 116, 95, 115, 116, 97, 116, 101],
{
    let r = vec![118u8, 97, 117, 108, 116, 95, 115, 116, 97, 116, 101];
    assert(r@ =~= seq![118u8, 97, 117, 108, 116, 95, 115, 116, 97, 116, 101]);
    r
}

/// The vault's state account for asset `mint`.
pub fn vault_state_address(program: &VaultProgram, mint: &Address) -> (r: Option<Address>)
    ensures
        opt_view(r) == vault_address_of(*program, mint@),
{
    let mut seeds: Vec<Vec<u8>> = Vec::new();
    seeds.push(seed_vault_state());
    match program.kind {
        AssetKind::Native => {},
        AssetKind::Token => {
            seeds.push(address_bytes(mint));
        },
    }
    proof {
        assert(seeds@[0].deep_view() =~= seq![118u8, 97, 117, 108, 116, 95, 115, 116, 97, 116, 101]);
        if program.kind == AssetKind::Token {
            assert(seeds@[1].deep_view() =~= mint@);
        }
        assert(seeds.deep_view() =~= vault_state_seeds(program.kind, mint@));
    }
    match try_find_program_address(&seeds, &program.program_id) {
        Some(found) => Some(found.0),
        None => None,
    }
}

/// The account that holds the vault's asset.
pub fn vault_holding_address(program: &VaultProgram, mint: &Address) -> (r: Option<Address>)
    ensures
        opt_view(r) == holding_address_of(*program, mint@),
{
    match program.kind {
        AssetKind::Native => {
            let mut seeds: Vec<Vec<u8>> = Vec::new();
            seeds.push(vec![118u8, 97, 117, 108, 116, 95, 112, 100, 97]);
            proof {
                assert(seeds@[0].deep_view() =~= seq![118u8, 97, 117, 108, 116, 95, 112, 100, 97]);
                assert(seeds.deep_view() =~= native_holding_seeds());
            }
            match try_find_program_address(&seeds, &program.program_id) {
                Some(found) => Some(found.0),
                None => None,
            }
        },
        AssetKind::Token => match vault_state_address(program, mint) {
            Some(v) => associated_token_address(&v, mint),
            None => None,
        },
    }
}

/// Whether `a` is one of the vault's own identities.
pub fn vault_identity(program: &VaultProgram, mint: &Address, a: &Address) -> (r: bool)
    ensures
        r == is_vault_identity(*program, mint@, a@),
{
    let own = vault_state_address(program, mint);
    if let Some(v) = own {
        if v.same(a) {
            return true;
        }
    }
    let holding = vault_holding_address(program, mint);
    if let Some(h) = holding {
        if h.same(a) {
            return true;
        }
    }
    a.same(mint)
}

/// Relies on `TokenAccount::try_deserialize` (anchor-spl, through
/// `spl_token::state::Account::unpack`): it refuses data that is not exactly
/// 165 bytes, and on success the mint is bytes 0..32 and the owner bytes
/// 32..64.
#[verifier::external_body]
fn unpack_token_account(data: &Vec<u8>) -> (r: Option<TokenAccountFields>)
    ensures
        data@.len() != TOKEN_ACCOUNT_LEN ==> r is None,
        r matches Some(f) ==> f.mint@ == data@.subrange(0, 32) && f.owner@ == data@.subrange(32, 64),
{
    match TokenAccount::try_deserialize(&mut data.as_slice()) {
        Ok(account) => Some(TokenAccountFields {
            mint: Address::from_bytes(account.mint.to_bytes()),
            owner: Address::from_bytes(account.owner.to_bytes()),
        }),
        Err(_) => None,
    }
}

impl DepositLedger {
    pub fn new() -> (r: DepositLedger)
        ensures
            r@ == Seq::<DepositRecord>::empty(),
    {
        DepositLedger { records: Vec::new() }
    }

    pub fn len(&self) -> (r: usize)
        ensures
            r == self@.len(),
    {
        self.records.len()
    }

    pub fn get(&self, i: usize) -> (r: &DepositRecord)
        requires
            i < self@.len(),
        ensures
            *r == self@[i as int],
    {
        &self.records[i]
    }

    /// Position of the record of `order_id` by `user` for asset `mint`.
    pub fn find(&self, mint: &Address, user: &Address, order_id: &String) -> (r: Option<usize>)
        ensures
            r matches Some(i) ==> i < self@.len() && record_has_key(self@[i as int], mint@, user@, order_id@),
            r is None <==> !ledger_has(self@, mint@, user@, order_id@),
    {
        let mut i: usize = 0;
        while i < self.records.len()
            invariant
                i <= self.records@.len(),
                forall|j: int| 0 <= j < i ==> !record_has_key(#[trigger] self.records@[j], mint@, user@, order_id@),
            decreases self.records@.len() - i,
        {
            let r = &self.records[i];
            if r.token_mint.same(mint) && r.user.same(user) && r.order_id == *order_id {
                return Some(i);
            }
            i = i + 1;
        }
        None
    }
}

/// A new vault for asset `token_mint` (the null identity for the native
/// asset) administered by `authority`, with no destination and no balance.
pub fn initialize(authority: &Address, token_mint: &Address) -> (r: VaultState)
    ensures
        r.authority == *authority,
        r.token_mint == *token_mint,
        r.wallet_account@ == zero_bytes(),
        r.balance == 0,
{
    VaultState { authority: *authority, token_mint: *token_mint, wallet_account: Address::zero(), balance: 0 }
}

/// Records a deposit of nominal `amount` by `user` under `order_id`. The
/// amount recorded is what the holding account actually received
/// (`balance_after - balance_before`), which differs from `amount` for
/// assets that charge a fee on transfer. A key already in the ledger is
/// refused, so each order is recorded once.
pub fn deposit(
    vault: &mut VaultState,
    ledger: &mut DepositLedger,
    user: &Address,
    order_id: String,
    amount: u64,
    balance_before: u64,
    balance_after: u64,
    timestamp: i64,
) -> (r: Result<u64, VaultError>)
    ensures
        match deposit_outcome(
            *old(vault),
            old(ledger)@,
            *user,
            order_id,
            amount,
            balance_before,
            balance_after,
            timestamp,
        ) {
            Ok((v, records, received)) => {
                &&& r == Ok::<u64, VaultError>(received)
                &&& *final(vault) == v
                &&& final(ledger)@ == records
            },
            Err(e) => {
                &&& r == Err::<u64, VaultError>(e)
                &&& *final(vault) == *old(vault)
                &&& final(ledger)@ == old(ledger)@
            },
        },
{
    if amount == 0 {
        return Err(VaultError::InvalidAmount);
    }
    if order_id.as_str().is_empty() {
        return Err(VaultError::OrderIdEmpty);
    }
    if order_id.as_str().as_bytes().len() > MAX_ORDER_ID_LEN {
        return Err(VaultError::OrderIdTooLong);
    }
    if ledger.find(&vault.token_mint, user, &order_id).is_some() {
        return Err(VaultError::DuplicateOrder);
    }
    let received = match balance_after.checked_sub(balance_before) {
        Some(v) => v,
        None => {
            return Err(VaultError::MathOverflow);
        },
    };
    let balance = match vault.balance.checked_add(received) {
        Some(v) => v,
        None => {
            return Err(VaultError::MathOverflow);
        },
    };
    let record = DepositRecord {
        order_id,
        user: *user,
        token_mint: vault.token_mint,
        amount: received,
        timestamp,
    };
    ledger.records.push(record);
    vault.balance = balance;
    Ok(received)
}

/// The record of `order_id` by `depositor` for asset `token_mint`.
pub fn check_deposit(ledger: &DepositLedger, token_mint: &Address, depositor: &Address, order_id: &String) -> (r: Result<DepositRecord, VaultError>)
    ensures
        !ledger_has(ledger@, token_mint@, depositor@, order_id@) ==> r == Err::<DepositRecord, VaultError>(
            VaultError::DepositNotFound,
        ),
        ledger_has(ledger@, token_mint@, depositor@, order_id@) ==> (r is Ok && exists|i: int|
            0 <= i < ledger@.len() && record_has_key(#[trigger] ledger@[i], token_mint@, depositor@, order_id@)
                && r->Ok_0 == ledger@[i]),
{
    match ledger.find(token_mint, depositor, order_id) {
        Some(i) => {
            let rec = ledger.get(i);
            let copy = DepositRecord {
                order_id: rec.order_id.clone(),
                user: rec.user,
                token_mint: rec.token_mint,
                amount: rec.amount,
                timestamp: rec.timestamp,
            };
            assert(copy == ledger@[i as int]);
            Ok(copy)
        },
        None => Err(VaultError::DepositNotFound),
    }
}

/// Checks the fields of an existing token holding account: it must parse,
/// hold asset `mint`, and belong to `owner`; `owner_error` is the error
/// for an account that belongs to someone else.
pub fn validate_token_account(
    fields: Option<TokenAccountFields>,
    mint: &Address,
    owner: &Address,
    owner_error: VaultError,
) -> (r: Result<(), VaultError>)
    ensures
        fields is None ==> r == Err::<(), VaultError>(VaultError::CorruptedTokenAccount),
        fields matches Some(f) ==> r == (if f.mint@ != mint@ {
            Err::<(), VaultError>(VaultError::MintMismatch)
        } else if f.owner@ != owner@ {
            Err::<(), VaultError>(owner_error)
        } else {
            Ok::<(), VaultError>(())
        }),
{
    match fields {
        None => Err(VaultError::CorruptedTokenAccount),
        Some(f) => {
            if !f.mint.same(mint) {
                Err(VaultError::MintMismatch)
            } else if !f.owner.same(owner) {
                Err(owner_error)
            } else {
                Ok(())
            }
        },
    }
}

/// Whether the account's data records asset `mint` and owner `owner`.
pub open spec fn holds_token_of(data: Seq<u8>, mint: Seq<u8>, owner: Seq<u8>) -> bool {
    &&& data.len() == TOKEN_ACCOUNT_LEN
    &&& data.subrange(0, 32) == mint
    &&& data.subrange(32, 64) == owner
}

/// `vault` with a new withdrawal destination.
pub open spec fn with_wallet(vault: VaultState, wallet: Address) -> VaultState {
    VaultState { wallet_account: wallet, ..vault }
}

/// Sets where withdrawals go; authority only. The destination may not be
/// the null identity, the program, or one of the vault's own identities.
/// For a token vault the destination's associated holding account must be
/// supplied: it is validated if it exists, and otherwise reported for
/// creation.
pub fn set_withdrawal_account(
    vault: &mut VaultState,
    program: &VaultProgram,
    signer: &Address,
    new_wallet: &Address,
    destination: Option<&AccountSnapshot>,
) -> (r: Result<HoldingAccountStep, VaultError>)
    ensures
        r is Err ==> *final(vault) == *old(vault),
        r is Ok ==> *final(vault) == with_wallet(*old(vault), *new_wallet),
        signer@ != old(vault).authority@ ==> r == Err::<HoldingAccountStep, VaultError>(
            VaultError::Unauthorized,
        ),
        signer@ == old(vault).authority@ && !destination_allowed(
            *program,
            old(vault).token_mint@,
            new_wallet@,
        ) ==> r == Err::<HoldingAccountStep, VaultError>(VaultError::InvalidWithdrawalWallet),
        signer@ == old(vault).authority@ && destination_allowed(
            *program,
            old(vault).token_mint@,
            new_wallet@,
        ) ==> match program.kind {
            AssetKind::Native => r == Ok::<HoldingAccountStep, VaultError>(
                HoldingAccountStep::Ready(*new_wallet),
            ),
            AssetKind::Token => match destination {
                None => r == Err::<HoldingAccountStep, VaultError>(VaultError::WalletAccountMissing),
                Some(d) => match associated_address_of(new_wallet@, old(vault).token_mint@) {
                    None => r == Err::<HoldingAccountStep, VaultError>(VaultError::NoDerivedAddress),
                    Some(ata) => if d.key@ != ata {
                        r == Err::<HoldingAccountStep, VaultError>(VaultError::InvalidWithdrawalWallet)
                    } else if d.owner_program@ != token_program_bytes() {
                        r == Ok::<HoldingAccountStep, VaultError>(HoldingAccountStep::Create(d.key))
                    } else if d.data@.len() != TOKEN_ACCOUNT_LEN {
                        r == Err::<HoldingAccountStep, VaultError>(VaultError::CorruptedTokenAccount)
                    } else {
                        r is Ok ==> r == Ok::<HoldingAccountStep, VaultError>(
                            HoldingAccountStep::Ready(d.key),
                        ) && holds_token_of(d.data@, old(vault).token_mint@, new_wallet@)
                    },
                },
            },
        },
{
    if !signer.same(&vault.authority) {
        return Err(VaultError::Unauthorized);
    }
    if new_wallet.is_zero() || new_wallet.same(&program.program_id) || vault_identity(
        program,
        &vault.token_mint,
        new_wallet,
    ) {
        return Err(VaultError::InvalidWithdrawalWallet);
    }
    let step = match program.kind {
        AssetKind::Native => HoldingAccountStep::Ready(*new_wallet),
        AssetKind::Token => {
            let d = match destination {
                Some(d) => d,
                None => {
                    return Err(VaultError::WalletAccountMissing);
                },
            };
            let ata = match associated_token_address(new_wallet, &vault.token_mint) {
                Some(a) => a,
                None => {
                    return Err(VaultError::NoDerivedAddress);
                },
            };
            if !d.key.same(&ata) {
                return Err(VaultError::InvalidWithdrawalWallet);
            }
            if d.owner_program.same(&Address::token_program()) {
                let fields = unpack_token_account(&d.data);
                validate_token_account(
                    fields,
                    &vault.token_mint,
                    new_wallet,
                    VaultError::InvalidWithdrawalWallet,
                )?;
                HoldingAccountStep::Ready(d.key)
            } else {
                HoldingAccountStep::Create(d.key)
            }
        },
    };
    vault.wallet_account = *new_wallet;
    Ok(step)
}

/// Prepares the associated holding account of `wallet` for asset `mint`:
/// an existing one (owned by the token program) must have the expected
/// size, be rent exempt and hold `mint` for `wallet`; a missing one is
/// reported for creation.
pub fn create_wallet_ata_if_needed(
    wallet: &Address,
    mint: &Address,
    account: &AccountSnapshot,
    min_rent: u64,
) -> (r: Result<HoldingAccountStep, VaultError>)
    ensures
        match associated_address_of(wallet@, mint@) {
            None => r == Err::<HoldingAccountStep, VaultError>(VaultError::NoDerivedAddress),
            Some(ata) => if account.owner_program@ != token_program_bytes() {
                r matches Ok(HoldingAccountStep::Create(a)) && a@ == ata
            } else if account.data@.len() != TOKEN_ACCOUNT_LEN {
                r == Err::<HoldingAccountStep, VaultError>(VaultError::InvalidDataLength)
            } else if account.lamports < min_rent {
                r == Err::<HoldingAccountStep, VaultError>(VaultError::NotRentExempt)
            } else {
                r is Ok ==> (r matches Ok(HoldingAccountStep::Ready(a)) && a@ == ata && holds_token_of(
                    account.data@,
                    mint@,
                    wallet@,
                ))
            },
        },
{
    let ata = match associated_token_address(wallet, mint) {
        Some(a) => a,
        None => {
            return Err(VaultError::NoDerivedAddress);
        },
    };
    if !account.owner_program.same(&Address::token_program()) {
        return Ok(HoldingAccountStep::Create(ata));
    }
    if account.data.len() != TOKEN_ACCOUNT_LEN {
        return Err(VaultError::InvalidDataLength);
    }
    if account.lamports < min_rent {
        return Err(VaultError::NotRentExempt);
    }
    let fields = unpack_token_account(&account.data);
    validate_token_account(fields, mint, wallet, VaultError::CorruptedTokenAccount)?;
    Ok(HoldingAccountStep::Ready(ata))
}

/// The account withdrawals are sent to: the wallet itself for the native
/// asset, the wallet's associated holding account for a token.
pub open spec fn payout_address_of(program: VaultProgram, wallet: Seq<u8>, mint: Seq<u8>) -> Option<Seq<u8>> {
    match program.kind {
        AssetKind::Native => Some(wallet),
        AssetKind::Token => associated_address_of(wallet, mint),
    }
}

/// The outcome of sweeping the vault: the amount to transfer to the
/// configured destination, or the error.
pub open spec fn withdraw_outcome(
    vault: VaultState,
    program: VaultProgram,
    signer: Address,
    destination: Option<Address>,
    holding_balance: u64,
    reserve: u64,
) -> Result<u64, VaultError> {
    let sweep = if holding_balance > reserve {
        holding_balance - reserve
    } else {
        0
    };
    if signer@ != vault.authority@ {
        Err(VaultError::Unauthorized)
    } else if vault.wallet_account@ == zero_bytes() {
        Err(VaultError::WalletNotSet)
    } else if destination is None {
        Err(VaultError::WalletAccountMissing)
    } else if payout_address_of(program, vault.wallet_account@, vault.token_mint@) is None {
        Err(VaultError::NoDerivedAddress)
    } else if payout_address_of(program, vault.wallet_account@, vault.token_mint@) != Some(
        destination->Some_0@,
    ) {
        Err(VaultError::WalletAccountMismatch)
    } else if sweep == 0 {
        Err(VaultError::NoFunds)
    } else {
        Ok(sweep as u64)
    }
}

/// Sweeps the whole available balance (the holding account's balance less
/// the `reserve` it must keep) to the configured destination; authority
/// only. Returns the amount to transfer and resets the tracked balance.
pub fn withdraw(
    vault: &mut VaultState,
    program: &VaultProgram,
    signer: &Address,
    destination: Option<Address>,
    holding_balance: u64,
    reserve: u64,
) -> (r: Result<u64, VaultError>)
    ensures
        r == withdraw_outcome(*old(vault), *program, *signer, destination, holding_balance, reserve),
        r is Ok ==> *final(vault) == (VaultState { balance: 0, ..*old(vault) }),
        r is Err ==> *final(vault) == *old(vault),
{
    if !signer.same(&vault.authority) {
        return Err(VaultError::Unauthorized);
    }
    if vault.wallet_account.is_zero() {
        return Err(VaultError::WalletNotSet);
    }
    let dest = match destination {
        Some(d) => d,
        None => {
            return Err(VaultError::WalletAccountMissing);
        },
    };
    let payout = match program.kind {
        AssetKind::Native => vault.wallet_account,
        AssetKind::Token => match associated_token_address(&vault.wallet_account, &vault.token_mint) {
            Some(a) => a,
            None => {
                return Err(VaultError::NoDerivedAddress);
            },
        },
    };
    if !payout.same(&dest) {
        return Err(VaultError::WalletAccountMismatch);
    }
    let sweep = holding_balance.saturating_sub(reserve);
    if sweep == 0 {
        return Err(VaultError::NoFunds);
    }
    vault.balance = 0;
    Ok(sweep)
}

/// Hands the vault to `new_authority`; authority only. The null identity
/// and the vault's own identities are refused.
pub fn update_authority(
    vault: &mut VaultState,
    program: &VaultProgram,
    signer: &Address,
    new_authority: &Address,
) -> (r: Result<(), VaultError>)
    ensures
        signer@ != old(vault).authority@ ==> r == Err::<(), VaultError>(VaultError::Unauthorized),
        signer@ == old(vault).authority@ && new_authority@ == zero_bytes() ==> r == Err::<(), VaultError>(
            VaultError::InvalidAuthority,
        ),
        signer@ == old(vault).authority@ && new_authority@ != zero_bytes() && is_vault_identity(
            *program,
            old(vault).token_mint@,
            new_authority@,
        ) ==> r == Err::<(), VaultError>(VaultError::AuthorityCannotBeVaultAccount),
        r is Ok <==> (signer@ == old(vault).authority@ && new_authority@ != zero_bytes()
            && !is_vault_identity(*program, old(vault).token_mint@, new_authority@)),
        r is Ok ==> *final(vault) == (VaultState { authority: *new_authority, ..*old(vault) }),
        r is Err ==> *final(vault) == *old(vault),
{
    if !signer.same(&vault.authority) {
        return Err(VaultError::Unauthorized);
    }
    if new_authority.is_zero() {
        return Err(VaultError::InvalidAuthority);
    }
    if vault_identity(program, &vault.token_mint, new_authority) {
        return Err(VaultError::AuthorityCannotBeVaultAccount);
    }
    vault.authority = *new_authority;
    Ok(())
}

/// Status report: configuration, tracked and actual balances, and whether
/// the holding account keeps the rent-exempt minimum.
pub fn check(vault: &VaultState, holding_balance: u64, lamports: u64, min_rent: u64) -> (r: VaultStatus)
    ensures
        r == (VaultStatus {
            token_mint: vault.token_mint,
            authority: vault.authority,
            wallet_account: vault.wallet_account,
            tracked_balance: vault.balance,
            holding_balance,
            rent_exempt: lamports >= min_rent,
        }),
{
    VaultStatus {
        token_mint: vault.token_mint,
        authority: vault.authority,
        wallet_account: vault.wallet_account,
        tracked_balance: vault.balance,
        holding_balance,
        rent_exempt: lamports >= min_rent,
    }
}

/// A deposit repeated under the same (asset, depositor, order id) fails,
/// so it changes neither the balance nor the ledger; with a nonzero
/// amount it fails as a duplicate.
pub proof fn lemma_deposit_idempotent(
    vault: VaultState,
    records: Seq<DepositRecord>,
    user: Address,
    order_id: String,
    amount: u64,
    balance_before: u64,
    balance_after: u64,
    timestamp: i64,
    repeat_order_id: String,
    repeat_amount: u64,
    repeat_before: u64,
    repeat_after: u64,
    repeat_timestamp: i64,
)
    requires
        deposit_outcome(vault, records, user, order_id, amount, balance_before, balance_after, timestamp) is Ok,
        repeat_order_id@ == order_id@,
    ensures
        ({
            let (v1, r1, received) = deposit_outcome(
                vault,
                records,
                user,
                order_id,
                amount,
                balance_before,
                balance_after,
                timestamp,
            )->Ok_0;
            &&& deposit_outcome(
                v1,
                r1,
                user,
                repeat_order_id,
                repeat_amount,
                repeat_before,
                repeat_after,
                repeat_timestamp,
            ) is Err
            &&& repeat_amount > 0 ==> deposit_outcome(
                v1,
                r1,
                user,
                repeat_order_id,
                repeat_amount,
                repeat_before,
                repeat_after,
                repeat_timestamp,
            ) == Err::<(VaultState, Seq<DepositRecord>, u64), VaultError>(VaultError::DuplicateOrder)
        }),
{
    let (v1, r1, received) = deposit_outcome(
        vault,
        records,
        user,
        order_id,
        amount,
        balance_before,
        balance_after,
        timestamp,
    )->Ok_0;
    assert(record_has_key(r1[records.len() as int], v1.token_mint@, user@, repeat_order_id@));
}

/// Deposits keep every key in the ledger unique.
pub proof fn lemma_deposit_keeps_keys_unique(
    vault: VaultState,
    records: Seq<DepositRecord>,
    user: Address,
    order_id: String,
    amount: u64,
    balance_before: u64,
    balance_after: u64,
    timestamp: i64,
)
    requires
        keys_unique(records),
        deposit_outcome(vault, records, user, order_id, amount, balance_before, balance_after, timestamp) is Ok,
    ensures
        keys_unique(
            deposit_outcome(vault, records, user, order_id, amount, balance_before, balance_after, timestamp)->Ok_0.1,
        ),
{
    let r1 = deposit_outcome(vault, records, user, order_id, amount, balance_before, balance_after, timestamp)->Ok_0.1;
    assert forall|i: int, j: int| 0 <= i < j < r1.len() implies !record_has_key(
        #[trigger] r1[i],
        #[trigger] r1[j].token_mint@,
        r1[j].user@,
        r1[j].order_id@,
    ) by {
        if j == records.len() {
            assert(r1[i] == records[i]);
            if record_has_key(r1[i], r1[j].token_mint@, r1[j].user@, r1[j].order_id@) {
                assert(ledger_has(records, vault.token_mint@, user@, order_id@));
            }
        } else {
            assert(r1[i] == records[i]);
            assert(r1[j] == records[j]);
        }
    }
}

/// For every vault variant, the withdrawal-destination guard refuses the
/// null identity, the program, the vault's state account, its holding
/// account and its asset.
pub proof fn lemma_destination_guard(program: VaultProgram, mint: Seq<u8>, a: Seq<u8>)
    requires
        a == zero_bytes() || a == program.program_id@ || vault_address_of(program, mint) == Some(a)
            || holding_address_of(program, mint) == Some(a) || a == mint,
    ensures
        !destination_allowed(program, mint, a),
{
}

} // verus!
