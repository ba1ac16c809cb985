use vstd::prelude::*;

use vstd::utf8::encode_utf8;

use crate::address::{agent_address, derive_agent_address};
use crate::pubkey::Pubkey;
use crate::store::{AgentAccount, AgentStore, StoredAgent};

verus! {

/// The stake, in lamports, that registration moves from the owner into the record.
pub const STAKE_LAMPORTS: u64 = 100_000_000;

/// The reputation that one authorized update adds.
pub const REPUTATION_STEP: u64 = 10;

/// The largest display name or external reference, in bytes.
pub const MAX_TEXT_BYTES: usize = 50;

/// The bytes allocated to an agent account: discriminator, owner, two
/// length-prefixed texts of at most `MAX_TEXT_BYTES`, score, verified flag.
pub const AGENT_ACCOUNT_SPACE: usize = 8 + 32 + 4 + 50 + 4 + 50 + 8 + 1;

/// Why an operation was refused. A refused operation changes nothing.
#[derive(Clone, Copy, Debug, PartialEq, Eq, Structural)]
pub enum AgentError {
    /// A record already lives at the derived address.
    AlreadyExists,
    /// No record lives at the supplied address.
    NotFound,
    /// The supplied address is not the one derived from the owner.
    AddressMismatch,
    /// The stored owner differs from the claimed owner.
    OwnerMismatch,
    /// The payer cannot fund the stake.
    InsufficientFunds,
    /// A missing signature, an oversized text, or a score that would overflow.
    ConstraintViolation,
}

/// The accounts of a registration.
#[derive(Clone, Copy, Debug)]
pub struct RegisterAgent {
    /// The address at which the record is to be created.
    pub agent_account: Pubkey,
    /// The registrant, who becomes the owner and pays the stake.
    pub user: Pubkey,
    /// Whether the transaction carries the registrant's signature.
    pub user_is_signer: bool,
    /// The registrant's balance.
    pub user_lamports: u64,
}

/// The accounts of a reputation update.
#[derive(Clone, Copy, Debug)]
pub struct UpdateAgent {
    /// The address of the record to update.
    pub agent_account: Pubkey,
    /// The claimed owner of the record; it does not sign.
    pub owner: Pubkey,
    /// The delegated authority that asks for the update.
    pub oracle: Pubkey,
    /// Whether the transaction carries the authority's signature.
    pub oracle_is_signer: bool,
}

/// Whether a text fits its field: at most `MAX_TEXT_BYTES` bytes in UTF-8.
pub open spec fn text_fits(s: Seq<char>) -> bool {
    encode_utf8(s).len() <= MAX_TEXT_BYTES
}

/// The error that a registration meets, or `None` where it succeeds. The
/// checks are made in this order: the accounts first (signature, derived
/// address, free address, funds for the stake), the texts last.
pub open spec fn register_error(
    store: AgentStore,
    ctx: RegisterAgent,
    name: Seq<char>,
    github: Seq<char>,
) -> Option<AgentError> {
    if !ctx.user_is_signer {
        Some(AgentError::ConstraintViolation)
    } else if agent_address(store.program_id@, ctx.user@) != Some(ctx.agent_account@) {
        Some(AgentError::AddressMismatch)
    } else if store.records().contains_key(ctx.agent_account@) {
        Some(AgentError::AlreadyExists)
    } else if ctx.user_lamports < STAKE_LAMPORTS {
        Some(AgentError::InsufficientFunds)
    } else if !text_fits(name) || !text_fits(github) {
        Some(AgentError::ConstraintViolation)
    } else {
        None
    }
}

/// The account that a successful registration creates.
pub open spec fn new_agent(ctx: RegisterAgent, name: String, github: String) -> StoredAgent {
    StoredAgent {
        address: ctx.agent_account,
        account: AgentAccount {
            owner: ctx.user,
            name,
            github,
            reputation_score: 0,
            is_verified: false,
        },
        lamports: STAKE_LAMPORTS,
        space: AGENT_ACCOUNT_SPACE,
    }
}

/// The error that a reputation update meets, or `None` where it succeeds.
/// The checks are made in this order: the record is loaded, the authority's
/// signature is checked, then the address and the stored owner are held
/// against the claimed owner.
pub open spec fn update_error(store: AgentStore, ctx: UpdateAgent) -> Option<AgentError> {
    if !store.records().contains_key(ctx.agent_account@) {
        Some(AgentError::NotFound)
    } else if !ctx.oracle_is_signer {
        Some(AgentError::ConstraintViolation)
    } else if agent_address(store.program_id@, ctx.owner@) != Some(ctx.agent_account@) {
        Some(AgentError::AddressMismatch)
    } else if store.records()[ctx.agent_account@].account.owner@ != ctx.owner@ {
        Some(AgentError::OwnerMismatch)
    } else if store.records()[ctx.agent_account@].account.reputation_score + REPUTATION_STEP
        > u64::MAX {
        Some(AgentError::ConstraintViolation)
    } else {
        None
    }
}

/// The account `e` with its reputation raised by one step.
pub open spec fn raised(e: StoredAgent) -> StoredAgent {
    StoredAgent {
        account: AgentAccount {
            reputation_score: (e.account.reputation_score + REPUTATION_STEP) as u64,
            ..e.account
        },
        ..e
    }
}

/// `after` is `before` with the reputation of the record at `address` raised
/// by one step, and nothing else changed.
pub open spec fn reputation_added(before: AgentStore, after: AgentStore, address: Seq<u8>) -> bool {
    &&& before.records().contains_key(address)
    &&& before.records()[address].account.reputation_score + REPUTATION_STEP <= u64::MAX
    &&& after.program_id == before.program_id
    &&& after.records() == before.records().insert(address, raised(before.records()[address]))
}

/// The `Result` that an optional error stands for.
pub open spec fn outcome(e: Option<AgentError>) -> Result<(), AgentError> {
    match e {
        Some(err) => Err(err),
        None => Ok(()),
    }
}

/// Registers the signing `ctx.user` as the owner of a new agent record at
/// `ctx.agent_account`, which must be the address derived from the user's
/// key, and moves the stake from the user into the record. Creation and
/// stake transfer happen together or not at all.
pub fn register_agent(
    store: &mut AgentStore,
    ctx: &mut RegisterAgent,
    name: String,
    github: String,
) -> (r: Result<(), AgentError>)
    requires
        old(store).wf(),
    ensures
        final(store).wf(),
        r == outcome(register_error(*old(store), *old(ctx), name@, github@)),
        records_bound(*old(store)) ==> records_bound(*final(store)),
        r is Err ==> *final(store) == *old(store) && *final(ctx) == *old(ctx),
        r is Ok ==> {
            &&& final(store).program_id == old(store).program_id
            &&& final(store).records() == old(store).records().insert(
                old(ctx).agent_account@,
                new_agent(*old(ctx), name, github),
            )
            &&& *final(ctx) == (RegisterAgent {
                user_lamports: (old(ctx).user_lamports - STAKE_LAMPORTS) as u64,
                ..*old(ctx)
            })
        },
{
    let ghost ctx_before = *ctx;
    let ghost name_view = name;
    let ghost github_view = github;
    if !ctx.user_is_signer {
        return Err(AgentError::ConstraintViolation);
    }
    match derive_agent_address(&store.program_id, &ctx.user) {
        Some(derived) => {
            if !derived.eq(&ctx.agent_account) {
                return Err(AgentError::AddressMismatch);
            }
        },
        None => {
            return Err(AgentError::AddressMismatch);
        },
    }
    if store.find(&ctx.agent_account).is_some() {
        return Err(AgentError::AlreadyExists);
    }
    if ctx.user_lamports < STAKE_LAMPORTS {
        return Err(AgentError::InsufficientFunds);
    }
    let name_bytes = name.as_str().as_bytes().len();
    let github_bytes = github.as_str().as_bytes().len();
    if name_bytes > MAX_TEXT_BYTES || github_bytes > MAX_TEXT_BYTES {
        return Err(AgentError::ConstraintViolation);
    }
    ctx.user_lamports = ctx.user_lamports - STAKE_LAMPORTS;
    let record = StoredAgent {
        address: ctx.agent_account,
        account: AgentAccount {
            owner: ctx.user,
            name,
            github,
            reputation_score: 0,
            is_verified: false,
        },
        lamports: STAKE_LAMPORTS,
        space: AGENT_ACCOUNT_SPACE,
    };
    let ghost before = *store;
    store.insert_new(record);
    proof {
        if records_bound(before) {
            lemma_registration_keeps_binding(before, *store, ctx_before, name_view, github_view);
        }
    }
    Ok(())
}

/// Raises by `REPUTATION_STEP` the reputation of the record at
/// `ctx.agent_account`, on the request of the signing authority `ctx.oracle`.
/// The address must be the one derived from the claimed owner `ctx.owner`,
/// and the record's stored owner must be that owner.
pub fn add_reputation(store: &mut AgentStore, ctx: &UpdateAgent) -> (r: Result<(), AgentError>)
    requires
        old(store).wf(),
    ensures
        final(store).wf(),
        r == outcome(update_error(*old(store), *ctx)),
        records_bound(*old(store)) ==> records_bound(*final(store)),
        r is Err ==> *final(store) == *old(store),
        r is Ok ==> reputation_added(*old(store), *final(store), ctx.agent_account@),
{
    let i = match store.find(&ctx.agent_account) {
        Some(i) => i,
        None => {
            return Err(AgentError::NotFound);
        },
    };
    if !ctx.oracle_is_signer {
        return Err(AgentError::ConstraintViolation);
    }
    match derive_agent_address(&store.program_id, &ctx.owner) {
        Some(derived) => {
            if !derived.eq(&ctx.agent_account) {
                return Err(AgentError::AddressMismatch);
            }
        },
        None => {
            return Err(AgentError::AddressMismatch);
        },
    }
    if !store.accounts[i].account.owner.eq(&ctx.owner) {
        return Err(AgentError::OwnerMismatch);
    }
    let score = store.accounts[i].account.reputation_score;
    if score > u64::MAX - REPUTATION_STEP {
        return Err(AgentError::ConstraintViolation);
    }
    let ghost before = *store;
    store.set_score(i, score + REPUTATION_STEP);
    proof {
        if records_bound(before) {
            lemma_update_keeps_binding(before, *store, ctx.agent_account@);
        }
    }
    Ok(())
}

/// Every record sits at the address derived from its stored owner.
pub open spec fn records_bound(store: AgentStore) -> bool {
    forall|a: Seq<u8>|
        #[trigger] store.records().contains_key(a) ==> agent_address(
            store.program_id@,
            store.records()[a].account.owner@,
        ) == Some(a)
}

/// A store whose records sit at their owners' derived addresses holds at most
/// one record per owner.
pub proof fn lemma_one_record_per_owner(store: AgentStore, a1: Seq<u8>, a2: Seq<u8>)
    requires
        records_bound(store),
        store.records().contains_key(a1),
        store.records().contains_key(a2),
        store.records()[a1].account.owner@ == store.records()[a2].account.owner@,
    ensures
        a1 == a2,
{
}

/// A successful registration keeps every record at the address derived from
/// its stored owner: the new record sits at its signer's derived address.
pub proof fn lemma_registration_keeps_binding(
    before: AgentStore,
    after: AgentStore,
    ctx: RegisterAgent,
    name: String,
    github: String,
)
    requires
        records_bound(before),
        register_error(before, ctx, name@, github@) is None,
        after.program_id == before.program_id,
        after.records() == before.records().insert(ctx.agent_account@, new_agent(ctx, name, github)),
    ensures
        records_bound(after),
{
    assert forall|a: Seq<u8>| #[trigger] after.records().contains_key(a) implies agent_address(
        after.program_id@,
        after.records()[a].account.owner@,
    ) == Some(a) by {
        if a != ctx.agent_account@ {
            assert(before.records().contains_key(a));
        }
    }
}

/// A successful update keeps every record at the address derived from its
/// stored owner: it changes no owner and no address.
pub proof fn lemma_update_keeps_binding(before: AgentStore, after: AgentStore, address: Seq<u8>)
    requires
        records_bound(before),
        reputation_added(before, after, address),
    ensures
        records_bound(after),
{
    assert forall|a: Seq<u8>| #[trigger] after.records().contains_key(a) implies agent_address(
        after.program_id@,
        after.records()[a].account.owner@,
    ) == Some(a) by {
        assert(before.records().contains_key(a));
    }
}

/// Registration happens once per owner. After a registration of `ctx.user`
/// succeeds, it has added exactly one record, at the derived address that was
/// empty before; any later registration of the same user fails, and a signed
/// one at that same address fails with `AlreadyExists` whatever its texts.
/// Where every record sat at its owner's derived address before, the new
/// record is the only one owned by `ctx.user`.
pub proof fn lemma_register_once(
    before: AgentStore,
    after: AgentStore,
    ctx: RegisterAgent,
    name: String,
    github: String,
    again: RegisterAgent,
    name2: Seq<char>,
    github2: Seq<char>,
)
    requires
        register_error(before, ctx, name@, github@) is None,
        after.program_id == before.program_id,
        after.records() == before.records().insert(ctx.agent_account@, new_agent(ctx, name, github)),
        again.user@ == ctx.user@,
    ensures
        !before.records().contains_key(ctx.agent_account@),
        after.records().dom() == before.records().dom().insert(ctx.agent_account@),
        register_error(after, again, name2, github2) is Some,
        again.user_is_signer && again.agent_account@ == ctx.agent_account@ ==> register_error(
            after,
            again,
            name2,
            github2,
        ) == Some(AgentError::AlreadyExists),
        records_bound(before) ==> forall|a: Seq<u8>|
            #[trigger] after.records().contains_key(a) && after.records()[a].account.owner@
                == ctx.user@ ==> a == ctx.agent_account@,
{
    assert(after.records().contains_key(ctx.agent_account@));
    if records_bound(before) {
        assert forall|a: Seq<u8>|
            #[trigger] after.records().contains_key(a) && after.records()[a].account.owner@
                == ctx.user@ implies a == ctx.agent_account@ by {
            if a != ctx.agent_account@ {
                assert(before.records().contains_key(a));
            }
        }
    }
}

/// A registration whose payer cannot fund the stake fails, so it creates no
/// record and moves no lamports. Where it is signed and targets the empty
/// derived address, the error is `InsufficientFunds` whatever its texts.
pub proof fn lemma_unfunded_registration(
    store: AgentStore,
    ctx: RegisterAgent,
    name: Seq<char>,
    github: Seq<char>,
)
    requires
        ctx.user_lamports < STAKE_LAMPORTS,
    ensures
        register_error(store, ctx, name, github) is Some,
        outcome(register_error(store, ctx, name, github)) is Err,
        ctx.user_is_signer && agent_address(store.program_id@, ctx.user@) == Some(
            ctx.agent_account@,
        ) && !store.records().contains_key(ctx.agent_account@) ==> register_error(
            store,
            ctx,
            name,
            github,
        ) == Some(AgentError::InsufficientFunds),
{
}

/// The reputation score of the record at `address` in `store`.
pub open spec fn score_at(store: AgentStore, address: Seq<u8>) -> int {
    store.records()[address].account.reputation_score as int
}

/// `after` still holds the record at `address` exactly as `before` did.
pub open spec fn record_kept(before: AgentStore, after: AgentStore, address: Seq<u8>) -> bool {
    &&& after.records().contains_key(address)
    &&& after.records()[address] == before.records()[address]
}

/// The number of `true` entries of `s`.
pub open spec fn count_true(s: Seq<bool>) -> nat
    decreases s.len(),
{
    if s.len() == 0 {
        0
    } else {
        count_true(s.drop_last()) + if s.last() {
            1nat
        } else {
            0nat
        }
    }
}

/// One step on the record at `address`: a successful update adds one step to
/// its score, any other step keeps it.
proof fn lemma_reputation_step(before: AgentStore, after: AgentStore, ok: bool, address: Seq<u8>)
    requires
        before.records().contains_key(address),
        ok ==> reputation_added(before, after, address),
        !ok ==> record_kept(before, after, address),
    ensures
        after.records().contains_key(address),
        score_at(after, address) == score_at(before, address) + if ok {
            REPUTATION_STEP as int
        } else {
            0int
        },
{
    if ok {
        assert(after.records()[address] == raised(before.records()[address]));
    }
}

/// Reputation only grows, by one step per successful update. Along a run of
/// steps on the record at `address`, each a successful update of it
/// (`succeeded[k]`) or a step that keeps it as it was (a failed update, or an
/// operation on another record), the record stays, its score after `k` steps
/// is its first score plus `10` times the successful updates among them, and
/// no score is below an earlier one. A fresh record thus holds `10 * n` after
/// `n` successful updates.
#[verifier::rlimit(60)]
pub proof fn lemma_reputation_grows(
    stores: Seq<AgentStore>,
    succeeded: Seq<bool>,
    address: Seq<u8>,
)
    requires
        stores.len() == succeeded.len() + 1,
        stores[0].records().contains_key(address),
        forall|k: int|
            0 <= k < succeeded.len() ==> (succeeded[k] ==> reputation_added(
                #[trigger] stores[k],
                stores[k + 1],
                address,
            )) && (!succeeded[k] ==> record_kept(stores[k], stores[k + 1], address)),
    ensures
        forall|k: int|
            0 <= k < stores.len() ==> (#[trigger] stores[k]).records().contains_key(address)
                && score_at(stores[k], address) == score_at(stores[0], address) + REPUTATION_STEP
                * count_true(succeeded.subrange(0, k)),
        forall|j: int, k: int|
            0 <= j <= k < stores.len() ==> score_at(stores[j], address) <= score_at(
                stores[k],
                address,
            ),
        score_at(stores[0], address) == 0 ==> score_at(stores.last(), address) == REPUTATION_STEP
            * count_true(succeeded),
    decreases stores.len(),
{
    let n = succeeded.len() as int;
    if n == 0 {
        assert(succeeded.subrange(0, 0) =~= Seq::<bool>::empty());
    } else {
        let prefix = stores.drop_last();
        let sprefix = succeeded.drop_last();
        assert forall|k: int| 0 <= k < sprefix.len() implies (sprefix[k] ==> reputation_added(
            #[trigger] prefix[k],
            prefix[k + 1],
            address,
        )) && (!sprefix[k] ==> record_kept(prefix[k], prefix[k + 1], address)) by {
            assert(prefix[k] == stores[k]);
            assert(prefix[k + 1] == stores[k + 1]);
            assert(sprefix[k] == succeeded[k]);
        }
        lemma_reputation_grows(prefix, sprefix, address);
        let base = score_at(stores[0], address);
        assert(prefix[0] == stores[0]);
        assert(prefix[n - 1] == stores[n - 1]);
        assert(stores[n - 1].records().contains_key(address));
        assert(score_at(stores[n - 1], address) == base + REPUTATION_STEP * count_true(sprefix)) by {
            assert(sprefix.subrange(0, n - 1) =~= sprefix);
        }
        lemma_reputation_step(stores[n - 1], stores[n], succeeded[n - 1], address);
        assert(count_true(succeeded) == count_true(sprefix) + if succeeded[n - 1] {
            1nat
        } else {
            0nat
        });
        assert(score_at(stores[n], address) == base + REPUTATION_STEP * count_true(succeeded))
            by (nonlinear_arith)
            requires
                score_at(stores[n - 1], address) == base + REPUTATION_STEP * count_true(sprefix),
                score_at(stores[n], address) == score_at(stores[n - 1], address) + if succeeded[n
                    - 1] {
                    REPUTATION_STEP as int
                } else {
                    0int
                },
                count_true(succeeded) == count_true(sprefix) + if succeeded[n - 1] {
                    1nat
                } else {
                    0nat
                },
        ;
        assert(succeeded.subrange(0, n) =~= succeeded);
        assert forall|k: int| 0 <= k < stores.len() implies (#[trigger] stores[k]).records().contains_key(
            address,
        ) && score_at(stores[k], address) == base + REPUTATION_STEP * count_true(
            succeeded.subrange(0, k),
        ) by {
            if k < stores.len() - 1 {
                assert(prefix[k] == stores[k]);
                assert(sprefix.subrange(0, k) =~= succeeded.subrange(0, k));
            }
        }
        assert forall|j: int, k: int| 0 <= j <= k < stores.len() implies score_at(
            stores[j],
            address,
        ) <= score_at(stores[k], address) by {
            if k < stores.len() - 1 {
                assert(prefix[k] == stores[k]);
                assert(prefix[j] == stores[j]);
            } else if j < stores.len() - 1 {
                assert(prefix[j] == stores[j]);
            }
        }
    }
}

/// Updates are bound to the claimed owner. An update whose address is the
/// one derived from the claimed owner fails with `NotFound` where no record
/// lives there, signed or not; a signed one fails with `OwnerMismatch` where
/// the record there has another stored owner.
pub proof fn lemma_update_binding(store: AgentStore, ctx: UpdateAgent)
    requires
        agent_address(store.program_id@, ctx.owner@) == Some(ctx.agent_account@),
    ensures
        !store.records().contains_key(ctx.agent_account@) ==> update_error(store, ctx) == Some(
            AgentError::NotFound,
        ),
        ctx.oracle_is_signer && store.records().contains_key(ctx.agent_account@)
            && store.records()[ctx.agent_account@].account.owner@ != ctx.owner@ ==> update_error(
            store,
            ctx,
        ) == Some(AgentError::OwnerMismatch),
{
}

} // verus!
