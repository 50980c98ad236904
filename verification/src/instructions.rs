//! Byte-exact construction of the host instructions that drive the vault
//! program: the discriminator-tagged data payloads and the ordered account
//! lists of the initialize, deposit and withdraw instructions.

use vstd::prelude::*;
use vstd::bytes::spec_u64_to_le_bytes;
use vstd::bytes::u64_to_le_bytes;

verus! {

/// One account reference of an instruction: its address and how the
/// instruction may use it.
#[derive(Debug, Clone)]
pub struct AccountMeta {
    pub pubkey: Vec<u8>,
    pub is_signer: bool,
    pub is_writable: bool,
}

/// A fully planned instruction: target program, ordered account references
/// and data payload.
#[derive(Debug, Clone)]
pub struct Instruction {
    pub program_id: Vec<u8>,
    pub accounts: Vec<AccountMeta>,
    pub data: Vec<u8>,
}

/// The account reference `m` names `key` with the given usage flags.
pub open spec fn meta_is(m: AccountMeta, key: Seq<u8>, is_signer: bool, is_writable: bool) -> bool {
    &&& m.pubkey@ == key
    &&& m.is_signer == is_signer
    &&& m.is_writable == is_writable
}

/// The 8-byte tag selecting the vault-creation instruction.
pub open spec fn spec_initialize_vault_discriminator() -> Seq<u8> {
    seq![48u8, 191u8, 163u8, 44u8, 71u8, 129u8, 63u8, 164u8]
}

/// The 8-byte tag selecting the deposit instruction.
pub open spec fn spec_deposit_discriminator() -> Seq<u8> {
    seq![242u8, 35u8, 198u8, 137u8, 82u8, 225u8, 242u8, 182u8]
}

/// The 8-byte tag selecting the withdraw instruction.
pub open spec fn spec_withdraw_discriminator() -> Seq<u8> {
    seq![183u8, 18u8, 70u8, 156u8, 148u8, 109u8, 161u8, 34u8]
}

/// Data payload of the vault-creation instruction: the tag alone.
pub open spec fn spec_initialize_vault_instruction_data() -> Seq<u8> {
    spec_initialize_vault_discriminator()
}

/// Data payload of a deposit: the tag followed by the little-endian amount.
pub open spec fn spec_deposit_instruction_data(amount: u64) -> Seq<u8> {
    spec_deposit_discriminator() + spec_u64_to_le_bytes(amount)
}

/// Data payload of a withdrawal: the tag followed by the little-endian
/// amount.
pub open spec fn spec_withdraw_instruction_data(amount: u64) -> Seq<u8> {
    spec_withdraw_discriminator() + spec_u64_to_le_bytes(amount)
}

fn push_bytes_8(v: &mut Vec<u8>, b0: u8, b1: u8, b2: u8, b3: u8, b4: u8, b5: u8, b6: u8, b7: u8)
    ensures
        final(v)@ == old(v)@ + seq![b0, b1, b2, b3, b4, b5, b6, b7],
{
    v.push(b0);
    v.push(b1);
    v.push(b2);
    v.push(b3);
    v.push(b4);
    v.push(b5);
    v.push(b6);
    v.push(b7);
    proof {
        assert(final(v)@ =~= old(v)@ + seq![b0, b1, b2, b3, b4, b5, b6, b7]);
    }
}

/// Builds the data payload of the vault-creation instruction.
pub fn initialize_vault_instruction_data() -> (r: Vec<u8>)
    ensures
        r@ == spec_initialize_vault_instruction_data(),
{
    let mut r: Vec<u8> = Vec::new();
    push_bytes_8(&mut r, 48, 191, 163, 44, 71, 129, 63, 164);
    proof {
        assert(r@ =~= spec_initialize_vault_instruction_data());
    }
    r
}

/// Builds the data payload of a deposit of `amount` units.
pub fn deposit_instruction_data(amount: u64) -> (r: Vec<u8>)
    ensures
        r@ == spec_deposit_instruction_data(amount),
{
    let mut r: Vec<u8> = Vec::new();
    push_bytes_8(&mut r, 242, 35, 198, 137, 82, 225, 242, 182);
    let mut le = u64_to_le_bytes(amount);
    r.append(&mut le);
    proof {
        assert(r@ =~= spec_deposit_instruction_data(amount));
    }
    r
}

/// Builds the data payload of a withdrawal of `amount` units.
pub fn withdraw_instruction_data(amount: u64) -> (r: Vec<u8>)
    ensures
        r@ == spec_withdraw_instruction_data(amount),
{
    let mut r: Vec<u8> = Vec::new();
    push_bytes_8(&mut r, 183, 18, 70, 156, 148, 109, 161, 34);
    let mut le = u64_to_le_bytes(amount);
    r.append(&mut le);
    proof {
        assert(r@ =~= spec_withdraw_instruction_data(amount));
    }
    r
}

fn meta(pubkey: &Vec<u8>, is_signer: bool, is_writable: bool) -> (r: AccountMeta)
    ensures
        meta_is(r, pubkey@, is_signer, is_writable),
{
    AccountMeta { pubkey: pubkey.clone(), is_signer, is_writable }
}

/// The instruction that creates an associated token account, in the layout
/// the account-creation program documents: the funding account signs and
/// pays, the account to create follows, then the wallet, the mint and the
/// two programs that carry the creation out; the data is the single tag of
/// the creation request.
pub fn build_create_associated_token_account_instruction(
    associated_token_program: &Vec<u8>,
    funding_address: &Vec<u8>,
    associated_token_account: &Vec<u8>,
    wallet_address: &Vec<u8>,
    token_mint_address: &Vec<u8>,
    system_program: &Vec<u8>,
    token_program: &Vec<u8>,
) -> (r: Instruction)
    ensures
        r.program_id@ == associated_token_program@,
        r.data@ == seq![0u8],
        r.accounts@.len() == 6,
        meta_is(r.accounts@[0], funding_address@, true, true),
        meta_is(r.accounts@[1], associated_token_account@, false, true),
        meta_is(r.accounts@[2], wallet_address@, false, false),
        meta_is(r.accounts@[3], token_mint_address@, false, false),
        meta_is(r.accounts@[4], system_program@, false, false),
        meta_is(r.accounts@[5], token_program@, false, false),
{
    let mut accounts: Vec<AccountMeta> = Vec::new();
    accounts.push(meta(funding_address, true, true));
    accounts.push(meta(associated_token_account, false, true));
    accounts.push(meta(wallet_address, false, false));
    accounts.push(meta(token_mint_address, false, false));
    accounts.push(meta(system_program, false, false));
    accounts.push(meta(token_program, false, false));
    let mut data: Vec<u8> = Vec::new();
    data.push(0);
    proof {
        assert(data@ =~= seq![0u8]);
    }
    Instruction { program_id: associated_token_program.clone(), accounts, data }
}

/// Builds the three instructions of the vault program for one target
/// program id.
#[derive(Debug, Clone)]
pub struct TransactionBuilder {
    program_id: Vec<u8>,
}

impl TransactionBuilder {
    /// The program the built instructions target.
    pub closed spec fn spec_program_id(self) -> Seq<u8> {
        self.program_id@
    }

    pub fn new(program_id: Vec<u8>) -> (r: TransactionBuilder)
        ensures
            r.spec_program_id() == program_id@,
    {
        TransactionBuilder { program_id }
    }

    /// The vault-creation instruction: the user signs and pays; the vault
    /// record and its custody account are created; the three programs at
    /// the tail carry out account creation.
    pub fn build_initialize_vault_instruction(
        &self,
        user: &Vec<u8>,
        vault: &Vec<u8>,
        vault_token_account: &Vec<u8>,
        mint: &Vec<u8>,
        vault_authority_pda: &Vec<u8>,
        vault_authority: &Vec<u8>,
        token_program: &Vec<u8>,
        associated_token_program: &Vec<u8>,
        system_program: &Vec<u8>,
    ) -> (r: Instruction)
        ensures
            r.program_id@ == self.spec_program_id(),
            r.data@ == spec_initialize_vault_instruction_data(),
            r.accounts@.len() == 9,
            meta_is(r.accounts@[0], user@, true, true),
            meta_is(r.accounts@[1], vault@, false, true),
            meta_is(r.accounts@[2], vault_token_account@, false, true),
            meta_is(r.accounts@[3], mint@, false, false),
            meta_is(r.accounts@[4], vault_authority_pda@, false, false),
            meta_is(r.accounts@[5], vault_authority@, false, false),
            meta_is(r.accounts@[6], token_program@, false, false),
            meta_is(r.accounts@[7], associated_token_program@, false, false),
            meta_is(r.accounts@[8], system_program@, false, false),
    {
        let mut accounts: Vec<AccountMeta> = Vec::new();
        accounts.push(meta(user, true, true));
        accounts.push(meta(vault, false, true));
        accounts.push(meta(vault_token_account, false, true));
        accounts.push(meta(mint, false, false));
        accounts.push(meta(vault_authority_pda, false, false));
        accounts.push(meta(vault_authority, false, false));
        accounts.push(meta(token_program, false, false));
        accounts.push(meta(associated_token_program, false, false));
        accounts.push(meta(system_program, false, false));
        Instruction {
            program_id: self.program_id.clone(),
            accounts,
            data: initialize_vault_instruction_data(),
        }
    }

    /// The deposit instruction: the user signs; the user's token account
    /// pays into the vault's custody account.
    pub fn build_deposit_instruction(
        &self,
        user: &Vec<u8>,
        vault: &Vec<u8>,
        user_token_account: &Vec<u8>,
        vault_token_account: &Vec<u8>,
        mint: &Vec<u8>,
        vault_authority: &Vec<u8>,
        token_program: &Vec<u8>,
        amount: u64,
    ) -> (r: Instruction)
        ensures
            r.program_id@ == self.spec_program_id(),
            r.data@ == spec_deposit_instruction_data(amount),
            r.accounts@.len() == 7,
            meta_is(r.accounts@[0], user@, true, true),
            meta_is(r.accounts@[1], vault@, false, true),
            meta_is(r.accounts@[2], user_token_account@, false, true),
            meta_is(r.accounts@[3], vault_token_account@, false, true),
            meta_is(r.accounts@[4], mint@, false, false),
            meta_is(r.accounts@[5], vault_authority@, false, false),
            meta_is(r.accounts@[6], token_program@, false, false),
    {
        let mut accounts: Vec<AccountMeta> = Vec::new();
        accounts.push(meta(user, true, true));
        accounts.push(meta(vault, false, true));
        accounts.push(meta(user_token_account, false, true));
        accounts.push(meta(vault_token_account, false, true));
        accounts.push(meta(mint, false, false));
        accounts.push(meta(vault_authority, false, false));
        accounts.push(meta(token_program, false, false));
        Instruction {
            program_id: self.program_id.clone(),
            accounts,
            data: deposit_instruction_data(amount),
        }
    }

    /// The withdraw instruction: the user signs; the vault's custody
    /// account pays out to the user's token account under the vault's
    /// derived authority.
    pub fn build_withdraw_instruction(
        &self,
        user: &Vec<u8>,
        vault: &Vec<u8>,
        user_token_account: &Vec<u8>,
        vault_token_account: &Vec<u8>,
        mint: &Vec<u8>,
        vault_authority_pda: &Vec<u8>,
        vault_authority: &Vec<u8>,
        token_program: &Vec<u8>,
        amount: u64,
    ) -> (r: Instruction)
        ensures
            r.program_id@ == self.spec_program_id(),
            r.data@ == spec_withdraw_instruction_data(amount),
            r.accounts@.len() == 8,
            meta_is(r.accounts@[0], user@, true, true),
            meta_is(r.accounts@[1], vault@, false, true),
            meta_is(r.accounts@[2], user_token_account@, false, true),
            meta_is(r.accounts@[3], vault_token_account@, false, true),
            meta_is(r.accounts@[4], mint@, false, false),
            meta_is(r.accounts@[5], vault_authority_pda@, false, false),
            meta_is(r.accounts@[6], vault_authority@, false, false),
            meta_is(r.accounts@[7], token_program@, false, false),
    {
        let mut accounts: Vec<AccountMeta> = Vec::new();
        accounts.push(meta(user, true, true));
        accounts.push(meta(vault, false, true));
        accounts.push(meta(user_token_account, false, true));
        accounts.push(meta(vault_token_account, false, true));
        accounts.push(meta(mint, false, false));
        accounts.push(meta(vault_authority_pda, false, false));
        accounts.push(meta(vault_authority, false, false));
        accounts.push(meta(token_program, false, false));
        Instruction {
            program_id: self.program_id.clone(),
            accounts,
            data: withdraw_instruction_data(amount),
        }
    }
}

} // verus!
