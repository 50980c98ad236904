//! Planning of vault transactions: derives every account address a vault
//! instruction names and assembles the instruction, byte for byte.
//!
//! The host around the ledger signs and submits what is planned here; the
//! planning itself is pure.

use vstd::prelude::*;
use crate::errors::Error;
use crate::instructions::Instruction;
use crate::instructions::TransactionBuilder;
use crate::instructions::meta_is;
use crate::instructions::spec_deposit_instruction_data;
use crate::instructions::spec_initialize_vault_instruction_data;
use crate::instructions::spec_withdraw_instruction_data;
use crate::pda::ata_of;
use crate::pda::pda_of;

verus! {

/// The seed tag of a vault address: the bytes of the word "vault".
pub open spec fn spec_vault_seed() -> Seq<u8> {
    seq![118u8, 97u8, 117u8, 108u8, 116u8]
}

/// The seed tag of the authority registry address: the bytes of the words
/// "vault_authority".
pub open spec fn spec_vault_authority_seed() -> Seq<u8> {
    seq![
        118u8,
        97u8,
        117u8,
        108u8,
        116u8,
        95u8,
        97u8,
        117u8,
        116u8,
        104u8,
        111u8,
        114u8,
        105u8,
        116u8,
        121u8,
    ]
}

/// The derived address and bump of the vault of `user` under `program_id`.
pub open spec fn spec_vault_pda(user: Seq<u8>, program_id: Seq<u8>) -> Option<(Seq<u8>, u8)> {
    pda_of(seq![spec_vault_seed(), user], program_id)
}

/// The derived address and bump of the authority registry under
/// `program_id`.
pub open spec fn spec_authority_pda(program_id: Seq<u8>) -> Option<(Seq<u8>, u8)> {
    pda_of(seq![spec_vault_authority_seed()], program_id)
}

fn vault_seed() -> (r: Vec<u8>)
    ensures
        r@ == spec_vault_seed(),
{
    let mut r: Vec<u8> = Vec::new();
    r.push(118);
    r.push(97);
    r.push(117);
    r.push(108);
    r.push(116);
    proof {
        assert(r@ =~= spec_vault_seed());
    }
    r
}

fn vault_authority_seed() -> (r: Vec<u8>)
    ensures
        r@ == spec_vault_authority_seed(),
{
    let mut r: Vec<u8> = Vec::new();
    r.push(118);
    r.push(97);
    r.push(117);
    r.push(108);
    r.push(116);
    r.push(95);
    r.push(97);
    r.push(117);
    r.push(116);
    r.push(104);
    r.push(111);
    r.push(114);
    r.push(105);
    r.push(116);
    r.push(121);
    proof {
        assert(r@ =~= spec_vault_authority_seed());
    }
    r
}

/// Derives the vault address and bump of `user` under `program_id`.
pub fn derive_vault_pda(user: &Vec<u8>, program_id: &Vec<u8>) -> (r: Option<(Vec<u8>, u8)>)
    requires
        user@.len() == 32,
        program_id@.len() == 32,
    ensures
        r is Some <==> spec_vault_pda(user@, program_id@) is Some,
        r matches Some(p) ==> Some((p.0@, p.1)) == spec_vault_pda(user@, program_id@)
            && p.0@.len() == 32,
{
    let mut seeds: Vec<Vec<u8>> = Vec::new();
    seeds.push(vault_seed());
    seeds.push(user.clone());
    proof {
        assert(seeds.deep_view() =~~= seq![spec_vault_seed(), user@]);
    }
    crate::pda::try_find_program_address(&seeds, program_id)
}

/// Derives the authority registry address and bump under `program_id`.
pub fn derive_authority_pda(program_id: &Vec<u8>) -> (r: Option<(Vec<u8>, u8)>)
    requires
        program_id@.len() == 32,
    ensures
        r is Some <==> spec_authority_pda(program_id@) is Some,
        r matches Some(p) ==> Some((p.0@, p.1)) == spec_authority_pda(program_id@)
            && p.0@.len() == 32,
{
    let mut seeds: Vec<Vec<u8>> = Vec::new();
    seeds.push(vault_authority_seed());
    proof {
        assert(seeds.deep_view() =~~= seq![spec_vault_authority_seed()]);
    }
    crate::pda::try_find_program_address(&seeds, program_id)
}

/// Plans the transactions of the vault program for one deployment:
/// program, mint and the fixed helper programs an instruction names.
pub struct VaultManager {
    program_id: Vec<u8>,
    mint: Vec<u8>,
    token_program: Vec<u8>,
    associated_token_program: Vec<u8>,
    system_program: Vec<u8>,
    tx_builder: TransactionBuilder,
}

impl VaultManager {
    /// All stored addresses are 32 bytes and the builder targets the
    /// program.
    pub closed spec fn wf(self) -> bool {
        &&& self.program_id@.len() == 32
        &&& self.mint@.len() == 32
        &&& self.token_program@.len() == 32
        &&& self.associated_token_program@.len() == 32
        &&& self.system_program@.len() == 32
        &&& self.tx_builder.spec_program_id() == self.program_id@
    }

    /// The planned program's address.
    pub closed spec fn spec_program_id(self) -> Seq<u8> {
        self.program_id@
    }

    /// The asset mint every planned instruction denominates in.
    pub closed spec fn spec_mint(self) -> Seq<u8> {
        self.mint@
    }

    /// The token program carrying out asset movements.
    pub closed spec fn spec_token_program(self) -> Seq<u8> {
        self.token_program@
    }

    /// The program that creates associated token accounts.
    pub closed spec fn spec_associated_token_program(self) -> Seq<u8> {
        self.associated_token_program@
    }

    /// The system program paying for account creation.
    pub closed spec fn spec_system_program(self) -> Seq<u8> {
        self.system_program@
    }

    pub fn new(
        program_id: Vec<u8>,
        mint: Vec<u8>,
        token_program: Vec<u8>,
        associated_token_program: Vec<u8>,
        system_program: Vec<u8>,
    ) -> (r: VaultManager)
        requires
            program_id@.len() == 32,
            mint@.len() == 32,
            token_program@.len() == 32,
            associated_token_program@.len() == 32,
            system_program@.len() == 32,
        ensures
            r.wf(),
            r.spec_program_id() == program_id@,
            r.spec_mint() == mint@,
            r.spec_token_program() == token_program@,
            r.spec_associated_token_program() == associated_token_program@,
            r.spec_system_program() == system_program@,
    {
        let tx_builder = TransactionBuilder::new(program_id.clone());
        VaultManager {
            program_id,
            mint,
            token_program,
            associated_token_program,
            system_program,
            tx_builder,
        }
    }

    /// Plans the creation of `user`'s vault: derives the vault address, its
    /// custody token account and the registry address, and assembles the
    /// instruction.
    pub fn initialize_vault(&self, user: &Vec<u8>) -> (r: Result<Instruction, Error>)
        requires
            self.wf(),
            user@.len() == 32,
        ensures
            r is Ok <==> spec_vault_pda(user@, self.spec_program_id()) is Some
                && spec_authority_pda(self.spec_program_id()) is Some,
            r is Err ==> r == Err::<Instruction, Error>(Error::InvalidAccount),
            r matches Ok(ix) ==> ix.program_id@ == self.spec_program_id(),
            r matches Ok(ix) ==> ix.data@ == spec_initialize_vault_instruction_data(),
            r matches Ok(ix) ==> ix.accounts@.len() == 9,
            r matches Ok(ix) ==> meta_is(ix.accounts@[0], user@, true, true),
            r matches Ok(ix) ==> meta_is(
                ix.accounts@[1],
                spec_vault_pda(user@, self.spec_program_id()).unwrap().0,
                false,
                true,
            ),
            r matches Ok(ix) ==> meta_is(
                ix.accounts@[2],
                ata_of(spec_vault_pda(user@, self.spec_program_id()).unwrap().0, self.spec_mint()),
                false,
                true,
            ),
            r matches Ok(ix) ==> meta_is(ix.accounts@[3], self.spec_mint(), false, false),
            r matches Ok(ix) ==> meta_is(
                ix.accounts@[4],
                spec_vault_pda(user@, self.spec_program_id()).unwrap().0,
                false,
                false,
            ),
            r matches Ok(ix) ==> meta_is(
                ix.accounts@[5],
                spec_authority_pda(self.spec_program_id()).unwrap().0,
                false,
                false,
            ),
            r matches Ok(ix) ==> meta_is(ix.accounts@[6], self.spec_token_program(), false, false),
            r matches Ok(ix) ==> meta_is(
                ix.accounts@[7],
                self.spec_associated_token_program(),
                false,
                false,
            ),
            r matches Ok(ix) ==> meta_is(ix.accounts@[8], self.spec_system_program(), false, false),
    {
        let (vault_pda, _vault_bump) = match derive_vault_pda(user, &self.program_id) {
            Some(p) => p,
            None => {
                return Err(Error::InvalidAccount);
            },
        };
        let (authority_pda, _authority_bump) = match derive_authority_pda(&self.program_id) {
            Some(p) => p,
            None => {
                return Err(Error::InvalidAccount);
            },
        };
        // The vault record and its signing authority are derived from the
        // same seeds, so one derivation serves both account references.
        let vault_token_account = crate::pda::get_associated_token_address(&vault_pda, &self.mint);
        Ok(
            self.tx_builder.build_initialize_vault_instruction(
                user,
                &vault_pda,
                &vault_token_account,
                &self.mint,
                &vault_pda,
                &authority_pda,
                &self.token_program,
                &self.associated_token_program,
                &self.system_program,
            ),
        )
    }

    /// Plans a deposit: checks the amount, derives the vault and the two
    /// token accounts, and assembles the instruction.
    pub fn deposit(&self, user: &Vec<u8>, amount: u64) -> (r: Result<Instruction, Error>)
        requires
            self.wf(),
            user@.len() == 32,
        ensures
            r is Ok <==> amount > 0 && spec_vault_pda(user@, self.spec_program_id()) is Some,
            r is Err ==> r == Err::<Instruction, Error>(Error::InvalidAccount),
            r matches Ok(ix) ==> ix.program_id@ == self.spec_program_id(),
            r matches Ok(ix) ==> ix.data@ == spec_deposit_instruction_data(amount),
            r matches Ok(ix) ==> ix.accounts@.len() == 7,
            r matches Ok(ix) ==> meta_is(ix.accounts@[0], user@, true, true),
            r matches Ok(ix) ==> meta_is(
                ix.accounts@[1],
                spec_vault_pda(user@, self.spec_program_id()).unwrap().0,
                false,
                true,
            ),
            r matches Ok(ix) ==> meta_is(
                ix.accounts@[2],
                ata_of(user@, self.spec_mint()),
                false,
                true,
            ),
            r matches Ok(ix) ==> meta_is(
                ix.accounts@[3],
                ata_of(spec_vault_pda(user@, self.spec_program_id()).unwrap().0, self.spec_mint()),
                false,
                true,
            ),
            r matches Ok(ix) ==> meta_is(ix.accounts@[4], self.spec_mint(), false, false),
            r matches Ok(ix) ==> meta_is(
                ix.accounts@[5],
                spec_vault_pda(user@, self.spec_program_id()).unwrap().0,
                false,
                false,
            ),
            r matches Ok(ix) ==> meta_is(ix.accounts@[6], self.spec_token_program(), false, false),
    {
        if amount == 0 {
            return Err(Error::InvalidAccount);
        }
        let (vault_pda, _vault_bump) = match derive_vault_pda(user, &self.program_id) {
            Some(p) => p,
            None => {
                return Err(Error::InvalidAccount);
            },
        };
        let user_token_account = crate::pda::get_associated_token_address(user, &self.mint);
        let vault_token_account = crate::pda::get_associated_token_address(&vault_pda, &self.mint);
        Ok(
            self.tx_builder.build_deposit_instruction(
                user,
                &vault_pda,
                &user_token_account,
                &vault_token_account,
                &self.mint,
                &vault_pda,
                &self.token_program,
                amount,
            ),
        )
    }

    /// Plans the creation of `user`'s own token account for the planned
    /// mint, funded by `payer`. The host prepends this to a deposit when
    /// the account does not exist yet.
    pub fn create_user_token_account(&self, payer: &Vec<u8>, user: &Vec<u8>) -> (r: Instruction)
        requires
            self.wf(),
            payer@.len() == 32,
            user@.len() == 32,
        ensures
            r.program_id@ == self.spec_associated_token_program(),
            r.data@ == seq![0u8],
            r.accounts@.len() == 6,
            meta_is(r.accounts@[0], payer@, true, true),
            meta_is(r.accounts@[1], ata_of(user@, self.spec_mint()), false, true),
            meta_is(r.accounts@[2], user@, false, false),
            meta_is(r.accounts@[3], self.spec_mint(), false, false),
            meta_is(r.accounts@[4], self.spec_system_program(), false, false),
            meta_is(r.accounts@[5], self.spec_token_program(), false, false),
    {
        let user_token_account = crate::pda::get_associated_token_address(user, &self.mint);
        crate::instructions::build_create_associated_token_account_instruction(
            &self.associated_token_program,
            payer,
            &user_token_account,
            user,
            &self.mint,
            &self.system_program,
            &self.token_program,
        )
    }

    /// Plans a withdrawal: checks the amount, derives the vault, the two
    /// token accounts and the registry address, and assembles the
    /// instruction.
    pub fn withdraw(&self, user: &Vec<u8>, amount: u64) -> (r: Result<Instruction, Error>)
        requires
            self.wf(),
            user@.len() == 32,
        ensures
            r is Ok <==> amount > 0 && spec_vault_pda(user@, self.spec_program_id()) is Some
                && spec_authority_pda(self.spec_program_id()) is Some,
            r is Err ==> r == Err::<Instruction, Error>(Error::InvalidAccount),
            r matches Ok(ix) ==> ix.program_id@ == self.spec_program_id(),
            r matches Ok(ix) ==> ix.data@ == spec_withdraw_instruction_data(amount),
            r matches Ok(ix) ==> ix.accounts@.len() == 8,
            r matches Ok(ix) ==> meta_is(ix.accounts@[0], user@, true, true),
            r matches Ok(ix) ==> meta_is(
                ix.accounts@[1],
                spec_vault_pda(user@, self.spec_program_id()).unwrap().0,
                false,
                true,
            ),
            r matches Ok(ix) ==> meta_is(
                ix.accounts@[2],
                ata_of(user@, self.spec_mint()),
                false,
                true,
            ),
            r matches Ok(ix) ==> meta_is(
                ix.accounts@[3],
                ata_of(spec_vault_pda(user@, self.spec_program_id()).unwrap().0, self.spec_mint()),
                false,
                true,
            ),
            r matches Ok(ix) ==> meta_is(ix.accounts@[4], self.spec_mint(), false, false),
            r matches Ok(ix) ==> meta_is(
                ix.accounts@[5],
                spec_vault_pda(user@, self.spec_program_id()).unwrap().0,
                false,
                false,
            ),
            r matches Ok(ix) ==> meta_is(
                ix.accounts@[6],
                spec_authority_pda(self.spec_program_id()).unwrap().0,
                false,
                false,
            ),
            r matches Ok(ix) ==> meta_is(ix.accounts@[7], self.spec_token_program(), false, false),
    {
        if amount == 0 {
            return Err(Error::InvalidAccount);
        }
        let (vault_pda, _vault_bump) = match derive_vault_pda(user, &self.program_id) {
            Some(p) => p,
            None => {
                return Err(Error::InvalidAccount);
            },
        };
        let (authority_pda, _authority_bump) = match derive_authority_pda(&self.program_id) {
            Some(p) => p,
            None => {
                return Err(Error::InvalidAccount);
            },
        };
        let user_token_account = crate::pda::get_associated_token_address(user, &self.mint);
        let vault_token_account = crate::pda::get_associated_token_address(&vault_pda, &self.mint);
        Ok(
            self.tx_builder.build_withdraw_instruction(
                user,
                &vault_pda,
                &user_token_account,
                &vault_token_account,
                &self.mint,
                &vault_pda,
                &authority_pda,
                &self.token_program,
                amount,
            ),
        )
    }
}

} // verus!
