//! Boot bank selection: a pure state machine from the boot record and the
//! validation results of the two banks to the bank that is booted.
//!
//! The state machine reads no flash. The caller validates both banks and hands
//! the results in, so every decision can be stated and proved over plain values.

use vstd::prelude::*;
use crate::protocol::BootData;

verus! {

/// Maximum number of boot attempts before rolling back to the other bank.
pub const MAX_BOOT_ATTEMPTS: u8 = 3;

/// Information about a firmware bank.
#[derive(Clone, Copy, Debug)]
pub struct BankInfo {
    pub addr: u32,
    pub crc: u32,
    pub size: u32,
    pub bank_id: u8,
}

/// Validation results for a bank (computed by the caller).
#[derive(Clone, Copy, Debug)]
pub struct BankValidation {
    /// The vector table is plausible and the CRC matches the recorded size.
    pub crc_valid: bool,
    /// The vector table is plausible.
    pub basic_valid: bool,
}

impl Default for BankValidation {
    fn default() -> (v: Self)
        ensures
            !v.crc_valid,
            !v.basic_valid,
    {
        BankValidation { crc_valid: false, basic_valid: false }
    }
}

/// Pair of primary and fallback banks with their validation results.
#[derive(Debug)]
pub struct BankPair {
    pub primary: BankInfo,
    pub primary_validation: BankValidation,
    pub fallback: BankInfo,
    pub fallback_validation: BankValidation,
}

/// Result of boot bank selection.
#[derive(Clone, Copy, Debug, PartialEq, Eq, Structural)]
pub struct BootDecision {
    pub flash_addr: u32,
    pub active_bank: u8,
    pub boot_attempts: u8,
    pub confirmed: u8,
}

/// Boot strategies in priority order.
#[derive(Clone, Copy, Debug, PartialEq, Eq, Structural)]
pub enum BootStrategy {
    PrimaryWithCrc,
    FallbackWithCrc,
    PrimaryBasic,
    FallbackBasic,
}

/// All boot strategies in priority order.
pub const BOOT_STRATEGIES: [BootStrategy; 4] = [
    BootStrategy::PrimaryWithCrc,
    BootStrategy::FallbackWithCrc,
    BootStrategy::PrimaryBasic,
    BootStrategy::FallbackBasic,
];

// --- Model ---

/// The other bank: 1 for bank 0, and 0 for every other number.
pub open spec fn toggled(bank: u8) -> u8 {
    if bank == 0 {
        1
    } else {
        0
    }
}

/// CRC and size that the record holds for `bank`; any non-zero number means bank B.
pub open spec fn metadata_of(bd: BootData, bank: u8) -> (u32, u32) {
    if bank == 0 {
        (bd.crc_a, bd.size_a)
    } else {
        (bd.crc_b, bd.size_b)
    }
}

/// The active image has used up its attempts without confirming itself.
pub open spec fn rollback_due(bd: BootData) -> bool {
    bd.boot_attempts >= MAX_BOOT_ATTEMPTS && bd.confirmed == 0
}

/// The attempt counter that the strategies start from: 0 after a rollback.
pub open spec fn starting_attempts(bd: BootData) -> u8 {
    if rollback_due(bd) {
        0
    } else {
        bd.boot_attempts
    }
}

/// The confirmation that the strategies start from: none after a rollback.
pub open spec fn starting_confirmed(bd: BootData) -> u8 {
    if rollback_due(bd) {
        0
    } else {
        bd.confirmed
    }
}

/// What a strategy decides that boots the primary bank once more. A single
/// strategy knows no record, so its decision reads unconfirmed.
pub open spec fn primary_decision(banks: BankPair, current_attempts: u8) -> BootDecision {
    BootDecision {
        flash_addr: banks.primary.addr,
        active_bank: banks.primary.bank_id,
        boot_attempts: (current_attempts + 1) as u8,
        confirmed: 0,
    }
}

/// What a strategy decides that switches to the fallback bank.
pub open spec fn fallback_decision(banks: BankPair) -> BootDecision {
    BootDecision {
        flash_addr: banks.fallback.addr,
        active_bank: banks.fallback.bank_id,
        boot_attempts: 1,
        confirmed: 0,
    }
}

/// Whether `strategy` applies to `banks`.
pub open spec fn strategy_applies(strategy: BootStrategy, banks: BankPair) -> bool {
    match strategy {
        BootStrategy::PrimaryWithCrc => banks.primary_validation.crc_valid,
        BootStrategy::FallbackWithCrc => banks.fallback_validation.crc_valid,
        BootStrategy::PrimaryBasic => banks.primary_validation.basic_valid,
        BootStrategy::FallbackBasic => banks.fallback_validation.basic_valid,
    }
}

/// Whether `strategy` boots the primary bank.
pub open spec fn strategy_is_primary(strategy: BootStrategy) -> bool {
    strategy is PrimaryWithCrc || strategy is PrimaryBasic
}

/// What one strategy decides, if it applies.
pub open spec fn strategy_decision(
    strategy: BootStrategy,
    banks: BankPair,
    current_attempts: u8,
) -> Option<BootDecision> {
    if !strategy_applies(strategy, banks) {
        None
    } else if strategy_is_primary(strategy) {
        Some(primary_decision(banks, current_attempts))
    } else {
        Some(fallback_decision(banks))
    }
}

/// Whether the selection ends on the primary bank: its CRC validates, or the
/// fallback's does not and either the primary is plausible or nothing is.
pub open spec fn boots_primary(banks: BankPair) -> bool {
    ||| banks.primary_validation.crc_valid
    ||| (!banks.fallback_validation.crc_valid && (banks.primary_validation.basic_valid
        || !banks.fallback_validation.basic_valid))
}

/// The pair with primary and fallback in each other's place.
pub open spec fn swapped(banks: BankPair) -> BankPair {
    BankPair {
        primary: banks.fallback,
        primary_validation: banks.fallback_validation,
        fallback: banks.primary,
        fallback_validation: banks.primary_validation,
    }
}

/// Whether the rollback has to turn the pair round: a rollback is due and the
/// bank to roll back to, the complement of the recorded active bank, is the
/// pair's fallback and not its primary.
pub open spec fn rollback_turns(bd: BootData, banks: BankPair) -> bool {
    &&& rollback_due(bd)
    &&& banks.primary.bank_id != toggled(bd.active_bank)
    &&& banks.fallback.bank_id == toggled(bd.active_bank)
}

/// The pair as the strategies see it: after a rollback the primary is the
/// complement of the recorded active bank, whichever bank the pair was built
/// on.
pub open spec fn rolled_back_pair(bd: BootData, banks: BankPair) -> BankPair {
    if rollback_turns(bd, banks) {
        swapped(banks)
    } else {
        banks
    }
}

/// The selection. After the rollback step the first strategy that applies
/// decides, in priority order, and the primary bank is booted if none does.
/// Booting the primary counts one more attempt and keeps the confirmation. A
/// switch to a fallback that validates with CRC starts at the first attempt,
/// unconfirmed; a switch to a fallback that is only plausible starts at the
/// first attempt and keeps the confirmation.
pub open spec fn fsm_decision(bd: BootData, banks: BankPair) -> BootDecision {
    let pair = rolled_back_pair(bd, banks);
    if boots_primary(pair) {
        BootDecision {
            confirmed: starting_confirmed(bd),
            ..primary_decision(pair, starting_attempts(bd))
        }
    } else if pair.fallback_validation.crc_valid {
        fallback_decision(pair)
    } else {
        BootDecision { confirmed: starting_confirmed(bd), ..fallback_decision(pair) }
    }
}

impl BankPair {
    /// The pair that `new` builds.
    pub open spec fn new_spec(active_bank: u8, fw_a_addr: u32, fw_b_addr: u32, bd: BootData) -> BankPair {
        BankPair {
            primary: BankInfo {
                addr: if active_bank == 0 { fw_a_addr } else { fw_b_addr },
                crc: metadata_of(bd, active_bank).0,
                size: metadata_of(bd, active_bank).1,
                bank_id: active_bank,
            },
            primary_validation: BankValidation { crc_valid: false, basic_valid: false },
            fallback: BankInfo {
                addr: if active_bank == 0 { fw_b_addr } else { fw_a_addr },
                crc: metadata_of(bd, toggled(active_bank)).0,
                size: metadata_of(bd, toggled(active_bank)).1,
                bank_id: toggled(active_bank),
            },
            fallback_validation: BankValidation { crc_valid: false, basic_valid: false },
        }
    }

    /// The pair built on `active_bank`, with the validation results of bank
    /// A and bank B in their places.
    pub open spec fn validated(
        active_bank: u8,
        fw_a_addr: u32,
        fw_b_addr: u32,
        bd: BootData,
        bank_a: BankValidation,
        bank_b: BankValidation,
    ) -> BankPair {
        BankPair {
            primary_validation: if active_bank == 0 {
                bank_a
            } else {
                bank_b
            },
            fallback_validation: if active_bank == 0 {
                bank_b
            } else {
                bank_a
            },
            ..Self::new_spec(active_bank, fw_a_addr, fw_b_addr, bd)
        }
    }

    /// Create a new bank pair from the active bank selection. Neither bank
    /// counts as valid until `with_validation` says so.
    pub fn new(active_bank: u8, fw_a_addr: u32, fw_b_addr: u32, bd: &BootData) -> (pair: Self)
        ensures
            pair == Self::new_spec(active_bank, fw_a_addr, fw_b_addr, *bd),
    {
        let fallback_bank: u8 = toggle_bank(active_bank);
        let (primary_addr, fallback_addr) = if active_bank == 0 {
            (fw_a_addr, fw_b_addr)
        } else {
            (fw_b_addr, fw_a_addr)
        };
        let (primary_crc, primary_size) = bank_metadata(bd, active_bank);
        let (fallback_crc, fallback_size) = bank_metadata(bd, fallback_bank);

        Self {
            primary: BankInfo {
                addr: primary_addr,
                crc: primary_crc,
                size: primary_size,
                bank_id: active_bank,
            },
            primary_validation: BankValidation { crc_valid: false, basic_valid: false },
            fallback: BankInfo {
                addr: fallback_addr,
                crc: fallback_crc,
                size: fallback_size,
                bank_id: fallback_bank,
            },
            fallback_validation: BankValidation { crc_valid: false, basic_valid: false },
        }
    }

    /// Set validation results for both banks.
    pub fn with_validation(
        self,
        primary_validation: BankValidation,
        fallback_validation: BankValidation,
    ) -> (pair: Self)
        ensures
            pair == (BankPair { primary_validation, fallback_validation, ..self }),
    {
        let mut pair = self;
        pair.primary_validation = primary_validation;
        pair.fallback_validation = fallback_validation;
        pair
    }
}

impl BootDecision {
    /// The record after the decision: bank, attempt counter and confirmation
    /// come from the decision, the rest from `bd`.
    pub open spec fn applied(self, bd: BootData) -> BootData {
        BootData {
            active_bank: self.active_bank,
            boot_attempts: self.boot_attempts,
            confirmed: self.confirmed,
            ..bd
        }
    }

    /// Apply this decision to create an updated BootData: bank, attempt
    /// counter and confirmation come from the decision, the rest from `bd`.
    pub fn apply_to(&self, bd: &BootData) -> (updated: BootData)
        ensures
            updated == self.applied(*bd),
    {
        BootData {
            active_bank: self.active_bank,
            boot_attempts: self.boot_attempts,
            confirmed: self.confirmed,
            ..*bd
        }
    }
}

/// Toggle between bank 0 and bank 1.
pub fn toggle_bank(bank: u8) -> (other: u8)
    ensures
        other == toggled(bank),
{
    if bank == 0 {
        1
    } else {
        0
    }
}

/// Get the CRC and size metadata for a specific bank.
pub fn bank_metadata(bd: &BootData, bank: u8) -> (meta: (u32, u32))
    ensures
        meta == metadata_of(*bd, bank),
{
    if bank == 0 {
        (bd.crc_a, bd.size_a)
    } else {
        (bd.crc_b, bd.size_b)
    }
}

/// Check if we need to rollback to the other bank.
pub fn needs_rollback(bd: &BootData) -> (due: bool)
    ensures
        due == rollback_due(*bd),
{
    bd.boot_attempts >= MAX_BOOT_ATTEMPTS && bd.confirmed == 0
}

/// Try a specific boot strategy and return a decision if successful.
///
/// A primary strategy that applies counts one more attempt, so the counter
/// must have room for it.
pub fn try_boot_strategy(
    strategy: BootStrategy,
    banks: &BankPair,
    current_attempts: u8,
) -> (decision: Option<BootDecision>)
    requires
        strategy_applies(strategy, *banks) && strategy_is_primary(strategy) ==> current_attempts
            < u8::MAX,
    ensures
        decision == strategy_decision(strategy, *banks, current_attempts),
{
    match strategy {
        BootStrategy::PrimaryWithCrc => {
            if banks.primary_validation.crc_valid {
                Some(
                    BootDecision {
                        flash_addr: banks.primary.addr,
                        active_bank: banks.primary.bank_id,
                        boot_attempts: current_attempts + 1,
                        confirmed: 0,
                    },
                )
            } else {
                None
            }
        },
        BootStrategy::FallbackWithCrc => {
            if banks.fallback_validation.crc_valid {
                Some(
                    BootDecision {
                        flash_addr: banks.fallback.addr,
                        active_bank: banks.fallback.bank_id,
                        boot_attempts: 1,
                        confirmed: 0,
                    },
                )
            } else {
                None
            }
        },
        BootStrategy::PrimaryBasic => {
            if banks.primary_validation.basic_valid {
                Some(
                    BootDecision {
                        flash_addr: banks.primary.addr,
                        active_bank: banks.primary.bank_id,
                        boot_attempts: current_attempts + 1,
                        confirmed: 0,
                    },
                )
            } else {
                None
            }
        },
        BootStrategy::FallbackBasic => {
            if banks.fallback_validation.basic_valid {
                Some(
                    BootDecision {
                        flash_addr: banks.fallback.addr,
                        active_bank: banks.fallback.bank_id,
                        boot_attempts: 1,
                        confirmed: 0,
                    },
                )
            } else {
                None
            }
        },
    }
}

/// Select the boot bank using the FSM logic.
///
/// Returns the decision containing flash address and updated boot state.
/// After three unconfirmed attempts the pass rolls back first: the other bank
/// becomes the primary, whichever bank `banks` was built on, and counter and
/// confirmation start afresh. If no strategy applies the primary bank is
/// returned all the same; the caller sees that from its own validation
/// results. Booting the primary counts one more attempt, so the counter must
/// have room for it.
pub fn select_boot_bank_fsm(bd: &BootData, banks: BankPair) -> (decision: BootDecision)
    requires
        boots_primary(rolled_back_pair(*bd, banks)) ==> starting_attempts(*bd) < u8::MAX,
    ensures
        decision == fsm_decision(*bd, banks),
{
    // Handle rollback if needed
    let rollback: bool = needs_rollback(bd);
    let (boot_attempts, confirmed) = if rollback {
        (0u8, 0u8)
    } else {
        (bd.boot_attempts, bd.confirmed)
    };
    let target: u8 = toggle_bank(bd.active_bank);
    let pair = if rollback && banks.primary.bank_id != target && banks.fallback.bank_id == target {
        BankPair {
            primary: banks.fallback,
            primary_validation: banks.fallback_validation,
            fallback: banks.primary,
            fallback_validation: banks.primary_validation,
        }
    } else {
        banks
    };

    // Try each strategy in priority order
    let mut i: usize = 0;
    while i < 4
        invariant
            i <= 4,
            pair == rolled_back_pair(*bd, banks),
            boot_attempts == starting_attempts(*bd),
            confirmed == starting_confirmed(*bd),
            boots_primary(pair) ==> boot_attempts < u8::MAX,
            forall|j: int| 0 <= j < i ==> !strategy_applies(#[trigger] BOOT_STRATEGIES[j], pair),
        decreases 4 - i,
    {
        let strategy = BOOT_STRATEGIES[i];
        if let Some(decision) = try_boot_strategy(strategy, &pair, boot_attempts) {
            assert(i >= 1 ==> !strategy_applies(BOOT_STRATEGIES[0], pair));
            assert(i >= 2 ==> !strategy_applies(BOOT_STRATEGIES[1], pair));
            assert(i >= 3 ==> !strategy_applies(BOOT_STRATEGIES[2], pair));
            // only the switch to a fallback that validates with CRC drops the confirmation
            let confirmed: u8 = match strategy {
                BootStrategy::FallbackWithCrc => 0,
                _ => confirmed,
            };
            return BootDecision {
                flash_addr: decision.flash_addr,
                active_bank: decision.active_bank,
                boot_attempts: decision.boot_attempts,
                confirmed,
            };
        }
        i += 1;
    }
    assert(!strategy_applies(BOOT_STRATEGIES[0], pair));
    assert(!strategy_applies(BOOT_STRATEGIES[1], pair));
    assert(!strategy_applies(BOOT_STRATEGIES[2], pair));
    assert(!strategy_applies(BOOT_STRATEGIES[3], pair));
    BootDecision {
        flash_addr: pair.primary.addr,
        active_bank: pair.primary.bank_id,
        boot_attempts: boot_attempts + 1,
        confirmed,
    }
}

// --- Laws ---

/// A confirmed image is never rolled back, however many attempts were
/// counted: the pair is not turned round and the counter is not reset. Where
/// the selection boots the primary bank, the decision names that bank and is
/// still confirmed, and while the counter has room it is advanced by one.
pub proof fn lemma_confirmed_never_rolls_back(bd: BootData, banks: BankPair)
    requires
        bd.confirmed == 1,
    ensures
        !rollback_due(bd),
        rolled_back_pair(bd, banks) == banks,
        starting_attempts(bd) == bd.boot_attempts,
        starting_confirmed(bd) == 1,
        boots_primary(banks) ==> {
            &&& fsm_decision(bd, banks).flash_addr == banks.primary.addr
            &&& fsm_decision(bd, banks).active_bank == banks.primary.bank_id
            &&& fsm_decision(bd, banks).confirmed == 1
            &&& fsm_decision(bd, banks).applied(bd).confirmed == 1
            &&& bd.boot_attempts < u8::MAX ==> fsm_decision(bd, banks).boot_attempts
                == bd.boot_attempts + 1
        },
        !boots_primary(banks) ==> {
            &&& fsm_decision(bd, banks).flash_addr == banks.fallback.addr
            &&& fsm_decision(bd, banks).active_bank == banks.fallback.bank_id
            &&& fsm_decision(bd, banks).boot_attempts == 1
        },
{
}

/// After three unconfirmed attempts the selection starts afresh on the other
/// bank, whether the pair was built on the recorded active bank or on its
/// complement: the decision is the same for both, it counts the first attempt
/// and is unconfirmed, and it names the complement of the recorded bank
/// exactly if the selection ends on the bank it rolled back to. The address is
/// that of the bank it names.
pub proof fn lemma_rollback_selects_other_bank(
    bd: BootData,
    fw_a_addr: u32,
    fw_b_addr: u32,
    bank_a: BankValidation,
    bank_b: BankValidation,
)
    requires
        bd.active_bank <= 1,
        rollback_due(bd),
    ensures
        ({
            let recorded = BankPair::validated(bd.active_bank, fw_a_addr, fw_b_addr, bd, bank_a, bank_b);
            let other = BankPair::validated(
                toggled(bd.active_bank),
                fw_a_addr,
                fw_b_addr,
                bd,
                bank_a,
                bank_b,
            );
            let decision = fsm_decision(bd, recorded);
            &&& rolled_back_pair(bd, recorded) == other
            &&& rolled_back_pair(bd, other) == other
            &&& fsm_decision(bd, other) == decision
            &&& decision.boot_attempts == 1
            &&& decision.confirmed == 0
            &&& boots_primary(other) <==> decision.active_bank == toggled(bd.active_bank)
            &&& !boots_primary(other) <==> decision.active_bank == bd.active_bank
            &&& decision.flash_addr == (if decision.active_bank == 0 {
                fw_a_addr
            } else {
                fw_b_addr
            })
        }),
{
}

} // verus!
