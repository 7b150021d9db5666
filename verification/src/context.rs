//! Register arithmetic: the trap flag, the instruction pointer and the debug registers.
use vstd::prelude::*;

use crate::system::{Address, ContextPart, ThreadContext};

verus! {

/// The flag that stops a thread after one instruction.
pub const TRAP_FLAG: u32 = 0x100;

/// How many breakpoints the processor itself holds.
pub const HARDWARE_SLOTS: usize = 4;

/// The bits of DR6 that say which slot was hit.
pub const HIT_BITS: u32 = 0xF;

/// The bit of DR7 that enables a slot for the thread.
pub open spec fn enable_bit(slot: int) -> u32 {
    if slot == 0 {
        0x1
    } else if slot == 1 {
        0x4
    } else if slot == 2 {
        0x10
    } else {
        0x40
    }
}

/// The four bits of DR7 that say on what access, and on how many bytes, a slot stops; all zero
/// stand for the execution of one byte.
pub open spec fn condition_bits(slot: int) -> u32 {
    if slot == 0 {
        0x000F_0000
    } else if slot == 1 {
        0x00F0_0000
    } else if slot == 2 {
        0x0F00_0000
    } else {
        0xF000_0000
    }
}

/// DR7 with one slot enabled or disabled, and set to stop on execution.
pub open spec fn dr7_with_slot(dr7: u32, slot: int, enabled: bool) -> u32 {
    (if enabled {
        dr7 | enable_bit(slot)
    } else {
        dr7 & !enable_bit(slot)
    }) & !condition_bits(slot)
}

/// One change to the registers of a thread.
#[derive(Debug, Clone, Copy, PartialEq, Eq, Structural)]
pub enum Edit {
    /// Stop after the next instruction.
    EnableTrap,
    /// Run on.
    ClearTrap,
    /// Move the instruction pointer back over the breakpoint instruction, unless it is zero.
    StepBack,
    /// Put an address into a hardware slot, or empty the slot.
    HardwareSlot { slot: usize, address: Option<Address> },
    /// Forget which hardware slot was hit.
    ClearStatus,
}

impl Edit {
    /// Which registers the change reads and writes.
    pub open spec fn part_spec(self) -> ContextPart {
        match self {
            Edit::EnableTrap | Edit::ClearTrap | Edit::StepBack => ContextPart::Control,
            Edit::HardwareSlot { .. } | Edit::ClearStatus => ContextPart::Debug,
        }
    }

    /// Whether the change is possible: the processor has four slots.
    pub open spec fn in_range(self) -> bool {
        match self {
            Edit::HardwareSlot { slot, .. } => slot < HARDWARE_SLOTS,
            _ => true,
        }
    }

    /// The registers after the change.
    pub open spec fn applied(self, context: ThreadContext) -> ThreadContext {
        match self {
            Edit::EnableTrap => ThreadContext { eflags: context.eflags | TRAP_FLAG, ..context },
            Edit::ClearTrap => ThreadContext { eflags: context.eflags & !TRAP_FLAG, ..context },
            Edit::StepBack => if context.eip > 0 {
                ThreadContext { eip: (context.eip - 1) as u32, ..context }
            } else {
                context
            },
            Edit::HardwareSlot { slot, address } => {
                let value = match address {
                    Some(a) => a,
                    None => 0,
                };
                let placed = if slot == 0 {
                    ThreadContext { dr0: value, ..context }
                } else if slot == 1 {
                    ThreadContext { dr1: value, ..context }
                } else if slot == 2 {
                    ThreadContext { dr2: value, ..context }
                } else {
                    ThreadContext { dr3: value, ..context }
                };
                ThreadContext {
                    dr6: 0,
                    dr7: dr7_with_slot(context.dr7, slot as int, address is Some),
                    ..placed
                }
            },
            Edit::ClearStatus => ThreadContext { dr6: 0, ..context },
        }
    }

    /// Which registers the change reads and writes.
    pub fn part(&self) -> (part: ContextPart)
        ensures
            part == self.part_spec(),
    {
        match self {
            Edit::EnableTrap | Edit::ClearTrap | Edit::StepBack => ContextPart::Control,
            Edit::HardwareSlot { .. } | Edit::ClearStatus => ContextPart::Debug,
        }
    }

    /// Whether the change is possible.
    pub fn is_in_range(&self) -> (possible: bool)
        ensures
            possible == self.in_range(),
    {
        match self {
            Edit::HardwareSlot { slot, .. } => *slot < HARDWARE_SLOTS,
            _ => true,
        }
    }

    /// Makes the change.
    pub fn apply(&self, context: ThreadContext) -> (changed: ThreadContext)
        requires
            self.in_range(),
        ensures
            changed == self.applied(context),
    {
        match self {
            Edit::EnableTrap => enable_trap_flag(context),
            Edit::ClearTrap => clear_trap_flag(context),
            Edit::StepBack => adjust_ip_back_after_int3(context),
            Edit::HardwareSlot { slot, address } => set_hardware_breakpoint_slot(
                context,
                *slot,
                *address,
            ),
            Edit::ClearStatus => clear_hardware_breakpoint_status(context),
        }
    }
}

/// Sets the trap flag.
fn enable_trap_flag(context: ThreadContext) -> (changed: ThreadContext)
    ensures
        changed == Edit::EnableTrap.applied(context),
{
    let mut changed = context;
    changed.eflags = changed.eflags | TRAP_FLAG;
    changed
}

/// Clears the trap flag.
fn clear_trap_flag(context: ThreadContext) -> (changed: ThreadContext)
    ensures
        changed == Edit::ClearTrap.applied(context),
{
    let mut changed = context;
    changed.eflags = changed.eflags & !TRAP_FLAG;
    changed
}

/// Moves the instruction pointer back over a one-byte breakpoint instruction.
fn adjust_ip_back_after_int3(context: ThreadContext) -> (changed: ThreadContext)
    ensures
        changed == Edit::StepBack.applied(context),
{
    let mut changed = context;
    if context.eip > 0 {
        changed.eip = context.eip - 1;
    }
    changed
}

/// Puts an address into one of the processor's four slots, or empties it.
fn set_hardware_breakpoint_slot(
    context: ThreadContext,
    slot: usize,
    address: Option<Address>,
) -> (changed: ThreadContext)
    requires
        slot < HARDWARE_SLOTS,
    ensures
        changed == (Edit::HardwareSlot { slot, address }).applied(context),
{
    let mut changed = context;
    let value: u32 = match address {
        Some(a) => a,
        None => 0,
    };
    match slot {
        0 => changed.dr0 = value,
        1 => changed.dr1 = value,
        2 => changed.dr2 = value,
        _ => changed.dr3 = value,
    }
    let enable: u32 = 1u32 << (slot * 2);
    let conditions: u32 = 0xFu32 << (16 + slot * 4);
    proof {
        assert(1u32 << 0usize == 0x1u32) by (bit_vector);
        assert(1u32 << 2usize == 0x4u32) by (bit_vector);
        assert(1u32 << 4usize == 0x10u32) by (bit_vector);
        assert(1u32 << 6usize == 0x40u32) by (bit_vector);
        assert(0xFu32 << 16usize == 0x000F_0000u32) by (bit_vector);
        assert(0xFu32 << 20usize == 0x00F0_0000u32) by (bit_vector);
        assert(0xFu32 << 24usize == 0x0F00_0000u32) by (bit_vector);
        assert(0xFu32 << 28usize == 0xF000_0000u32) by (bit_vector);
    }
    if address.is_some() {
        changed.dr7 = changed.dr7 | enable;
    } else {
        changed.dr7 = changed.dr7 & !enable;
    }
    changed.dr7 = changed.dr7 & !conditions;
    changed.dr6 = 0;
    changed
}

/// Clears the record of hit slots.
fn clear_hardware_breakpoint_status(context: ThreadContext) -> (changed: ThreadContext)
    ensures
        changed == Edit::ClearStatus.applied(context),
{
    let mut changed = context;
    changed.dr6 = 0;
    changed
}

/// Whether a hardware slot was hit.
pub open spec fn slot_hit(context: ThreadContext) -> bool {
    context.dr6 & HIT_BITS != 0
}

/// Whether a single-step exception comes from a hardware slot.
pub fn is_hardware_breakpoint_exception(context: &ThreadContext) -> (hit: bool)
    ensures
        hit == slot_hit(*context),
{
    (context.dr6 & HIT_BITS) != 0
}

/// The number that four bytes hold, the lowest byte first.
pub open spec fn little_endian(bytes: Seq<u8>) -> int {
    bytes[0] + 0x100 * bytes[1] + 0x1_0000 * bytes[2] + 0x100_0000 * bytes[3]
}

/// Reads a number from its four bytes.
pub fn u32_from_bytes(bytes: &Vec<u8>) -> (number: u32)
    requires
        bytes@.len() == 4,
    ensures
        number == little_endian(bytes@),
{
    bytes[0] as u32 + 0x100 * (bytes[1] as u32) + 0x1_0000 * (bytes[2] as u32) + 0x100_0000 * (
    bytes[3] as u32)
}

/// Enabling the trap flag sets that bit and no other; clearing it after that gives back the flags
/// that had it clear.
pub proof fn law_trap_flag(context: ThreadContext)
    ensures
        Edit::EnableTrap.applied(context).eflags & TRAP_FLAG == TRAP_FLAG,
        Edit::ClearTrap.applied(context).eflags & TRAP_FLAG == 0,
        Edit::EnableTrap.applied(context).eflags & !TRAP_FLAG == context.eflags & !TRAP_FLAG,
        context.eflags & TRAP_FLAG == 0 ==> Edit::ClearTrap.applied(
            Edit::EnableTrap.applied(context),
        ) == context,
{
    let flags = context.eflags;
    assert((flags | 0x100u32) & 0x100u32 == 0x100u32) by (bit_vector);
    assert((flags & !0x100u32) & 0x100u32 == 0u32) by (bit_vector);
    assert((flags | 0x100u32) & !0x100u32 == flags & !0x100u32) by (bit_vector);
    assert(flags & 0x100u32 == 0u32 ==> flags & !0x100u32 == flags) by (bit_vector);
}

/// The register that holds the address of a slot.
pub open spec fn slot_register(context: ThreadContext, slot: int) -> u32 {
    if slot == 0 {
        context.dr0
    } else if slot == 1 {
        context.dr1
    } else if slot == 2 {
        context.dr2
    } else {
        context.dr3
    }
}

/// Setting a hardware slot enables that slot exactly if it gets an address, makes it stop on
/// execution, leaves every other bit of DR7 alone, and holds the address in the slot's register
/// and in no other.
pub proof fn law_hardware_slot(context: ThreadContext, slot: usize, address: Option<Address>)
    requires
        slot < HARDWARE_SLOTS,
    ensures
        ({
            let changed = (Edit::HardwareSlot { slot, address }).applied(context);
            let enable = enable_bit(slot as int);
            let conditions = condition_bits(slot as int);
            &&& changed.dr7 & enable == (if address is Some {
                enable
            } else {
                0
            })
            &&& changed.dr7 & conditions == 0
            &&& changed.dr7 & !(enable | conditions) == context.dr7 & !(enable | conditions)
            &&& forall|other: int|
                0 <= other < HARDWARE_SLOTS ==> #[trigger] slot_register(changed, other) == (
                if other != slot {
                    slot_register(context, other)
                } else if address is Some {
                    address->0
                } else {
                    0
                })
            &&& changed.eip == context.eip
            &&& changed.eflags == context.eflags
            &&& !slot_hit(changed)
        }),
{
    let dr7 = context.dr7;
    let e = enable_bit(slot as int);
    let c = condition_bits(slot as int);
    assert(e & c == 0u32) by {
        assert(0x1u32 & 0x000F_0000u32 == 0u32) by (bit_vector);
        assert(0x4u32 & 0x00F0_0000u32 == 0u32) by (bit_vector);
        assert(0x10u32 & 0x0F00_0000u32 == 0u32) by (bit_vector);
        assert(0x40u32 & 0xF000_0000u32 == 0u32) by (bit_vector);
    }
    assert(e & c == 0u32 ==> ((dr7 | e) & !c) & e == e) by (bit_vector);
    assert(((dr7 & !e) & !c) & e == 0u32) by (bit_vector);
    assert(((dr7 | e) & !c) & c == 0u32) by (bit_vector);
    assert(((dr7 & !e) & !c) & c == 0u32) by (bit_vector);
    assert(((dr7 | e) & !c) & !(e | c) == dr7 & !(e | c)) by (bit_vector);
    assert(((dr7 & !e) & !c) & !(e | c) == dr7 & !(e | c)) by (bit_vector);
    assert(0u32 & 0xFu32 == 0u32) by (bit_vector);
}

/// The registers with every slot set, one after the other.
pub open spec fn with_slots(context: ThreadContext, slots: Seq<Option<Address>>) -> ThreadContext {
    let first = (Edit::HardwareSlot { slot: 0, address: slots[0] }).applied(context);
    let second = (Edit::HardwareSlot { slot: 1, address: slots[1] }).applied(first);
    let third = (Edit::HardwareSlot { slot: 2, address: slots[2] }).applied(second);
    (Edit::HardwareSlot { slot: 3, address: slots[3] }).applied(third)
}

/// Whether the debug registers stop a thread at the given addresses and nowhere else: each slot
/// holds its address or zero, is enabled exactly if it has an address, and stops on the execution
/// of one byte; no hit is on record.
pub open spec fn armed(context: ThreadContext, slots: Seq<Option<Address>>) -> bool {
    &&& forall|slot: int|
        0 <= slot < HARDWARE_SLOTS ==> #[trigger] slot_register(context, slot) == (
        match slots[slot] {
            Some(address) => address,
            None => 0,
        })
    &&& forall|slot: int|
        0 <= slot < HARDWARE_SLOTS ==> context.dr7 & #[trigger] enable_bit(slot) == (
        if slots[slot] is Some {
            enable_bit(slot)
        } else {
            0
        })
    &&& context.dr7 & 0xFFFF_0000 == 0
    &&& context.dr6 == 0
}

/// The bits of DR7 that belong to no slot of the thread.
pub const OTHER_BITS: u32 = 0xFFAA;

/// Whether two sets of registers differ at most in what belongs to the slots.
pub open spec fn same_beside_slots(context: ThreadContext, other: ThreadContext) -> bool {
    &&& context == (ThreadContext {
        dr0: context.dr0,
        dr1: context.dr1,
        dr2: context.dr2,
        dr3: context.dr3,
        dr6: context.dr6,
        dr7: context.dr7,
        ..other
    })
    &&& context.dr7 & OTHER_BITS == other.dr7 & OTHER_BITS
}

/// Setting every slot arms a thread at exactly the given addresses, whatever its registers held,
/// and leaves everything else in them alone.
pub proof fn law_slots_arm_the_thread(context: ThreadContext, slots: Seq<Option<Address>>)
    ensures
        armed(with_slots(context, slots), slots),
        same_beside_slots(with_slots(context, slots), context),
{
    let a = slots[0] is Some;
    let b = slots[1] is Some;
    let c = slots[2] is Some;
    let d = slots[3] is Some;
    let d0 = context.dr7;
    let d1 = dr7_with_slot(d0, 0, a);
    let d2 = dr7_with_slot(d1, 1, b);
    let d3 = dr7_with_slot(d2, 2, c);
    let d4 = dr7_with_slot(d3, 3, d);
    assert(with_slots(context, slots).dr7 == d4);
    assert((d4 & 0x1 == if a {
        0x1u32
    } else {
        0
    }) && (d4 & 0x4 == if b {
        0x4u32
    } else {
        0
    }) && (d4 & 0x10 == if c {
        0x10u32
    } else {
        0
    }) && (d4 & 0x40 == if d {
        0x40u32
    } else {
        0
    }) && d4 & 0xFFFF_0000 == 0 && d4 & 0xFFAA == d0 & 0xFFAA) by (bit_vector)
        requires
            d1 == (if a {
                d0 | 0x1
            } else {
                d0 & !0x1
            }) & !0x000F_0000,
            d2 == (if b {
                d1 | 0x4
            } else {
                d1 & !0x4
            }) & !0x00F0_0000,
            d3 == (if c {
                d2 | 0x10
            } else {
                d2 & !0x10
            }) & !0x0F00_0000,
            d4 == (if d {
                d3 | 0x40
            } else {
                d3 & !0x40
            }) & !0xF000_0000,
    ;
}

/// A thread ran into a hardware slot exactly if DR6 has the bit of one of the four slots, whatever
/// its other bits are: the lowest bit stands for the first slot, and so on.
pub proof fn law_hits_of_every_slot(context: ThreadContext)
    ensures
        context.dr6 & 0x1 != 0 ==> slot_hit(context),
        context.dr6 & 0x2 != 0 ==> slot_hit(context),
        context.dr6 & 0x4 != 0 ==> slot_hit(context),
        context.dr6 & 0x8 != 0 ==> slot_hit(context),
        slot_hit(context) ==> context.dr6 & 0x1 != 0 || context.dr6 & 0x2 != 0 || context.dr6 & 0x4
            != 0 || context.dr6 & 0x8 != 0,
        context.dr6 % 16 == 0 ==> !slot_hit(context),
        context.dr6 % 16 != 0 ==> slot_hit(context),
{
    let dr6 = context.dr6;
    assert(dr6 & 0x1u32 != 0 ==> dr6 & 0xFu32 != 0) by (bit_vector);
    assert(dr6 & 0x2u32 != 0 ==> dr6 & 0xFu32 != 0) by (bit_vector);
    assert(dr6 & 0x4u32 != 0 ==> dr6 & 0xFu32 != 0) by (bit_vector);
    assert(dr6 & 0x8u32 != 0 ==> dr6 & 0xFu32 != 0) by (bit_vector);
    assert(dr6 & 0xFu32 != 0 ==> dr6 & 0x1u32 != 0 || dr6 & 0x2u32 != 0 || dr6 & 0x4u32 != 0 || dr6
        & 0x8u32 != 0) by (bit_vector);
    assert(dr6 & 0xFu32 == dr6 % 16) by (bit_vector);
}

/// Once the record of a hit is cleared, there is no hit, and nothing else changed; a second look
/// finds the thread as a single step would leave it.
pub proof fn law_cleared_hits_are_gone(context: ThreadContext)
    ensures
        !slot_hit(Edit::ClearStatus.applied(context)),
        Edit::ClearStatus.applied(context).dr6 == 0,
        (ThreadContext { dr6: context.dr6, ..Edit::ClearStatus.applied(context) }) == context,
{
    assert(0u32 & 0xFu32 == 0u32) by (bit_vector);
}

/// What setting every slot leaves in the registers, slot by slot: the addresses in DR0 to DR3, and
/// in the lower half of DR7 the bits 0, 2, 4 and 6 for those that there are. An address that is
/// there stops the thread when it is run, and only there.
pub proof fn law_slots_in_the_registers(context: ThreadContext, slots: Seq<Option<Address>>)
    requires
        slots.len() == 4,
    ensures
        ({
            let armed = with_slots(context, slots);
            &&& slots[0] is Some ==> armed.dr0 == slots[0]->0 && armed.dr7 & 0x1 == 0x1
            &&& slots[1] is Some ==> armed.dr1 == slots[1]->0 && armed.dr7 & 0x4 == 0x4
            &&& slots[2] is Some ==> armed.dr2 == slots[2]->0 && armed.dr7 & 0x10 == 0x10
            &&& slots[3] is Some ==> armed.dr3 == slots[3]->0 && armed.dr7 & 0x40 == 0x40
            &&& slots[0] is None ==> armed.dr0 == 0 && armed.dr7 & 0x1 == 0
            &&& slots[1] is None ==> armed.dr1 == 0 && armed.dr7 & 0x4 == 0
            &&& slots[2] is None ==> armed.dr2 == 0 && armed.dr7 & 0x10 == 0
            &&& slots[3] is None ==> armed.dr3 == 0 && armed.dr7 & 0x40 == 0
            &&& armed.dr7 <= 0xFFFF
            &&& armed.dr6 == 0
            &&& armed.eip == context.eip && armed.esp == context.esp && armed.ebp == context.ebp
            &&& armed.eflags == context.eflags && armed.seg_cs == context.seg_cs && armed.seg_ss
                == context.seg_ss
        }),
{
    law_slots_arm_the_thread(context, slots);
    let armed = with_slots(context, slots);
    assert(slot_register(armed, 0) == armed.dr0 && slot_register(armed, 1) == armed.dr1
        && slot_register(armed, 2) == armed.dr2 && slot_register(armed, 3) == armed.dr3);
    assert(enable_bit(0) == 0x1 && enable_bit(1) == 0x4 && enable_bit(2) == 0x10 && enable_bit(3)
        == 0x40);
    let dr7 = armed.dr7;
    assert(dr7 & 0xFFFF_0000u32 == 0u32 ==> dr7 <= 0xFFFFu32) by (bit_vector);
}

/// A change to the flags or to the instruction pointer changes just that register: the trap flag
/// is the ninth bit of the flags, and stepping back goes back by one byte, but not below zero.
pub proof fn law_edits_change_one_register(context: ThreadContext)
    ensures
        ({
            let set = Edit::EnableTrap.applied(context);
            let clear = Edit::ClearTrap.applied(context);
            let back = Edit::StepBack.applied(context);
            &&& set.eflags & 0x100 == 0x100
            &&& clear.eflags & 0x100 == 0
            &&& set.eflags & !0x100u32 == context.eflags & !0x100u32
            &&& clear.eflags & !0x100u32 == context.eflags & !0x100u32
            &&& (ThreadContext { eflags: context.eflags, ..set }) == context
            &&& (ThreadContext { eflags: context.eflags, ..clear }) == context
            &&& (ThreadContext { eip: context.eip, ..back }) == context
            &&& context.eip > 0 ==> back.eip + 1 == context.eip
            &&& context.eip == 0 ==> back.eip == 0
        }),
{
    let flags = context.eflags;
    assert((flags | 0x100u32) & 0x100u32 == 0x100u32) by (bit_vector);
    assert((flags & !0x100u32) & 0x100u32 == 0u32) by (bit_vector);
    assert((flags | 0x100u32) & !0x100u32 == flags & !0x100u32) by (bit_vector);
    assert((flags & !0x100u32) & !0x100u32 == flags & !0x100u32) by (bit_vector);
}

/// Each kind of change reads and writes the registers that it is about: the flags and the
/// instruction pointer are control registers, slots and hits debug registers. There are four
/// slots and no more.
pub proof fn law_edits_and_their_registers(slot: usize, address: Option<Address>)
    ensures
        Edit::EnableTrap.part_spec() is Control && Edit::EnableTrap.in_range(),
        Edit::ClearTrap.part_spec() is Control && Edit::ClearTrap.in_range(),
        Edit::StepBack.part_spec() is Control && Edit::StepBack.in_range(),
        Edit::ClearStatus.part_spec() is Debug && Edit::ClearStatus.in_range(),
        (Edit::HardwareSlot { slot, address }).part_spec() is Debug,
        (Edit::HardwareSlot { slot, address }).in_range() <==> slot <= 3,
{
}

/// A number of four bytes has its lowest byte first: each byte is the number divided by a power
/// of 256, up to a byte.
pub proof fn law_little_endian(bytes: Seq<u8>)
    requires
        bytes.len() == 4,
    ensures
        0 <= little_endian(bytes) <= u32::MAX,
        little_endian(bytes) % 0x100 == bytes[0],
        little_endian(bytes) / 0x100 % 0x100 == bytes[1],
        little_endian(bytes) / 0x1_0000 % 0x100 == bytes[2],
        little_endian(bytes) / 0x100_0000 == bytes[3],
{
    let number = little_endian(bytes);
    let (a, b, c, d) = (bytes[0] as int, bytes[1] as int, bytes[2] as int, bytes[3] as int);
    lemma_quotient(number, 0x100, b + 0x100 * c + 0x1_0000 * d, a);
    lemma_quotient(b + 0x100 * c + 0x1_0000 * d, 0x100, c + 0x100 * d, b);
    lemma_quotient(number, 0x1_0000, c + 0x100 * d, a + 0x100 * b);
    lemma_quotient(c + 0x100 * d, 0x100, d, c);
    lemma_quotient(number, 0x100_0000, d, a + 0x100 * b + 0x1_0000 * c);
}

/// A number that is a multiple and a rest has them as its quotient and its remainder.
proof fn lemma_quotient(number: int, divisor: int, quotient: int, rest: int)
    requires
        0 <= rest < divisor,
        number == quotient * divisor + rest,
    ensures
        number / divisor == quotient,
        number % divisor == rest,
{
    vstd::arithmetic::div_mod::lemma_fundamental_div_mod_converse(number, divisor, quotient, rest);
}

} // verus!
