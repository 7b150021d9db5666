//! The registry of function breakpoints: who asks for them, and who takes them up.
//!
//! Every change gives the registry a new generation number, by which whoever takes the breakpoints
//! up sees whether there is anything new. Whoever shares the registry lets one thread at it at a
//! time.
use vstd::prelude::*;

use crate::symbols::{read_address, BareDigits, SymbolTable, SymbolsView};
use crate::system::Address;
use crate::text::owned;

verus! {

/// How many breakpoints are taken up.
pub const BREAKPOINT_LIMIT: usize = 4;

/// Reads an address from text: a text of decimal digits alone is decimal here.
pub fn parse_address_literal(name: &str) -> (address: Option<Address>)
    ensures
        address == crate::symbols::address_literal(name@, BareDigits::Decimal),
{
    read_address(name, BareDigits::Decimal)
}

/// The registry.
pub struct BreakpointState {
    pub symbols: SymbolTable,
    pub requested_function_breakpoints: Vec<String>,
    pub generation: u64,
}

/// What the registry holds.
pub struct BreakpointView {
    pub symbols: SymbolsView,
    pub requested: Seq<Seq<char>>,
    pub generation: u64,
}

impl View for BreakpointState {
    type V = BreakpointView;

    open spec fn view(&self) -> BreakpointView {
        BreakpointView {
            symbols: self.symbols@,
            requested: crate::symbols::names_view(self.requested_function_breakpoints@),
            generation: self.generation,
        }
    }
}

/// The generation after another; zero comes only before the first change.
pub open spec fn next_generation(generation: u64) -> u64 {
    if generation == u64::MAX {
        1
    } else {
        (generation + 1) as u64
    }
}

impl BreakpointView {
    /// The registry before anyone used it.
    pub open spec fn initial() -> BreakpointView {
        BreakpointView { symbols: SymbolsView::none(), requested: Seq::empty(), generation: 0 }
    }

    /// The registry with other symbols, in a new generation.
    pub open spec fn with_symbols(self, symbols: SymbolsView) -> BreakpointView {
        BreakpointView { symbols, generation: next_generation(self.generation), ..self }
    }

    /// The registry with other requests, in a new generation.
    pub open spec fn with_requested(self, requested: Seq<Seq<char>>) -> BreakpointView {
        BreakpointView { requested, generation: next_generation(self.generation), ..self }
    }

    /// The registry with the image at an address; nothing changes where it lies there already.
    pub open spec fn with_image_base(self, image_base: Address) -> BreakpointView {
        if self.symbols.image_base == Some(image_base) {
            self
        } else {
            self.with_symbols(SymbolsView { image_base: Some(image_base), ..self.symbols })
        }
    }

    /// The registry with a function at an offset in the image.
    pub open spec fn with_rva(self, name: Seq<char>, rva: Address) -> BreakpointView {
        self.with_symbols(SymbolsView { rva: self.symbols.rva.insert(name, rva), ..self.symbols })
    }

    /// The registry with a function at an address.
    pub open spec fn with_va(self, name: Seq<char>, va: Address) -> BreakpointView {
        self.with_symbols(SymbolsView { va: self.symbols.va.insert(name, va), ..self.symbols })
    }

    /// The registry without functions.
    pub open spec fn without_symbols(self) -> BreakpointView {
        self.with_symbols(
            SymbolsView { image_base: self.symbols.image_base, ..SymbolsView::none() },
        )
    }

    /// The addresses to break at: the first few that the requests resolve to, each once.
    pub open spec fn desired(self) -> Seq<Address> {
        let all = self.symbols.distinct_addresses(self.requested, BareDigits::Decimal);
        all.take(if all.len() < BREAKPOINT_LIMIT {
            all.len() as int
        } else {
            BREAKPOINT_LIMIT as int
        })
    }

    /// What someone takes up who has seen a generation.
    pub open spec fn taken(self, last_seen: u64) -> Option<Seq<Address>> {
        if self.generation == last_seen {
            None
        } else {
            Some(self.desired())
        }
    }
}

impl Default for BreakpointState {
    /// The registry before anyone used it.
    fn default() -> (state: Self)
        ensures
            state@ == BreakpointView::initial(),
    {
        let state = BreakpointState {
            symbols: SymbolTable::new(),
            requested_function_breakpoints: Vec::new(),
            generation: 0,
        };
        assert(state@.requested =~= Seq::empty());
        state
    }
}

/// Starts a new generation.
fn bump_generation(state: &mut BreakpointState)
    ensures
        final(state)@ == (BreakpointView {
            generation: next_generation(old(state)@.generation),
            ..old(state)@
        }),
{
    state.generation = state.generation.wrapping_add(1);
    if state.generation == 0 {
        state.generation = 1;
    }
}

/// Records where the image lies.
pub fn set_image_base(state: &mut BreakpointState, image_base: Address)
    ensures
        final(state)@ == old(state)@.with_image_base(image_base),
{
    if let Some(known) = state.symbols.image_base {
        if known == image_base {
            return;
        }
    }
    state.symbols.image_base = Some(image_base);
    bump_generation(state);
}

/// Registers a function by its offset in the image.
pub fn register_function_symbol_rva(state: &mut BreakpointState, name: &str, rva: Address)
    ensures
        final(state)@ == old(state)@.with_rva(name@, rva),
{
    state.symbols.rva.insert(owned(name), rva);
    bump_generation(state);
}

/// Registers a function by its address.
pub fn register_function_symbol_va(state: &mut BreakpointState, name: &str, va: Address)
    ensures
        final(state)@ == old(state)@.with_va(name@, va),
{
    state.symbols.va.insert(owned(name), va);
    bump_generation(state);
}

/// Forgets every function; where the image lies stays known.
pub fn clear_function_symbols(state: &mut BreakpointState)
    ensures
        final(state)@ == old(state)@.without_symbols(),
{
    state.symbols.clear();
    bump_generation(state);
}

/// Replaces the requested breakpoints, and says of each whether its name is a function or writes
/// an address.
pub fn set_requested_function_breakpoints(state: &mut BreakpointState, names: Vec<String>) -> (known:
    Vec<bool>)
    ensures
        final(state)@ == old(state)@.with_requested(crate::symbols::names_view(names@)),
        known@ == crate::symbols::names_view(names@).map_values(
            |name: Seq<char>| old(state)@.symbols.known(name, BareDigits::Decimal),
        ),
{
    let known = state.symbols.knows_each(&names, BareDigits::Decimal);
    state.requested_function_breakpoints = names;
    bump_generation(state);
    known
}

/// The number of the generation.
pub fn current_generation(state: &BreakpointState) -> (generation: u64)
    ensures
        generation == state@.generation,
{
    state.generation
}

/// The addresses to break at, where anything changed since the generation that was seen last.
pub fn take_desired_function_breakpoint_addresses(
    state: &BreakpointState,
    last_seen_generation: &mut u64,
) -> (addresses: Option<Vec<Address>>)
    ensures
        match addresses {
            Some(addresses) => state@.taken(*old(last_seen_generation)) == Some(addresses@),
            None => state@.taken(*old(last_seen_generation)) is None,
        },
        *final(last_seen_generation) == state@.generation,
{
    if state.generation == *last_seen_generation {
        return None;
    }
    *last_seen_generation = state.generation;
    Some(
        state.symbols.distinct_addresses(
            &state.requested_function_breakpoints,
            BareDigits::Decimal,
            BREAKPOINT_LIMIT,
        ),
    )
}

/// Forgets every function.
pub fn mist_clear_function_symbols(state: &mut BreakpointState)
    ensures
        final(state)@ == old(state)@.without_symbols(),
{
    clear_function_symbols(state);
}

/// Registers a function by its offset in the image; without a name there is nothing to register.
pub fn mist_register_function_symbol_rva(
    state: &mut BreakpointState,
    name: Option<String>,
    rva: Address,
)
    ensures
        final(state)@ == (match name {
            Some(name) => old(state)@.with_rva(name@, rva),
            None => old(state)@,
        }),
{
    if let Some(name) = name {
        register_function_symbol_rva(state, name.as_str(), rva);
    }
}

/// Registers a function by its address; without a name there is nothing to register.
pub fn mist_register_function_symbol_va(
    state: &mut BreakpointState,
    name: Option<String>,
    va: Address,
)
    ensures
        final(state)@ == (match name {
            Some(name) => old(state)@.with_va(name@, va),
            None => old(state)@,
        }),
{
    if let Some(name) = name {
        register_function_symbol_va(state, name.as_str(), va);
    }
}

/// What has been taken up once is not handed out again, until something changes: any change is
/// seen by whoever had seen everything before it, and by whoever never looked.
pub proof fn law_changes_are_taken_once(
    state: BreakpointView,
    symbols: SymbolsView,
    requested: Seq<Seq<char>>,
)
    ensures
        state.taken(state.generation) is None,
        state.with_symbols(symbols).taken(state.generation) is Some,
        state.with_requested(requested).taken(state.generation) is Some,
        state.with_symbols(symbols).taken(0) is Some,
        state.with_requested(requested).taken(0) is Some,
        BreakpointView::initial().taken(0) is None,
{
}

/// Only as many addresses are taken up as the debug registers hold, no address twice, and each is
/// one that a request resolves to.
pub proof fn law_desired_addresses(state: BreakpointView)
    ensures
        state.desired().len() <= BREAKPOINT_LIMIT,
        state.desired().no_duplicates(),
        forall|address: Address| #[trigger]
            state.desired().contains(address) ==> exists|i: int|
                0 <= i < state.requested.len() && state.symbols.resolved(
                    #[trigger] state.requested[i],
                    BareDigits::Decimal,
                ) == Some(address),
{
    crate::symbols::law_distinct_addresses(state.symbols, state.requested, BareDigits::Decimal);
    let all = state.symbols.distinct_addresses(state.requested, BareDigits::Decimal);
    assert forall|address: Address| #[trigger] state.desired().contains(address) implies exists|
        i: int,
    |
        0 <= i < state.requested.len() && state.symbols.resolved(
            #[trigger] state.requested[i],
            BareDigits::Decimal,
        ) == Some(address) by {
        let k = choose|k: int| 0 <= k < state.desired().len() && state.desired()[k] == address;
        assert(all[k] == address);
        assert(all.contains(address));
    }
}

/// Recording where the image lies twice is the same as once.
pub proof fn law_image_base_is_recorded_once(state: BreakpointView, image_base: Address)
    ensures
        state.with_image_base(image_base).symbols.image_base == Some(image_base),
        state.with_image_base(image_base).with_image_base(image_base) == state.with_image_base(
            image_base,
        ),
{
}

/// Generations count up by one; behind the last number comes one, so that zero never comes back.
pub proof fn law_generations_count_up(generation: u64)
    ensures
        next_generation(generation) != generation,
        next_generation(generation) != 0,
        generation < 0xffff_ffff_ffff_ffff ==> next_generation(generation) == generation + 1,
        generation == 0xffff_ffff_ffff_ffff ==> next_generation(generation) == 1,
{
}

/// A function is found where it was registered last, by address or by offset; every other
/// function, where the image lies and what is requested stay, and the change is there to take up.
pub proof fn law_registered_functions(
    state: BreakpointView,
    name: Seq<char>,
    other: Seq<char>,
    address: Address,
)
    requires
        other != name,
    ensures
        ({
            let after = state.with_va(name, address);
            &&& after.symbols.va.contains_key(name) && after.symbols.va[name] == address
            &&& after.symbols.va.contains_key(other) == state.symbols.va.contains_key(other)
            &&& after.symbols.va.contains_key(other) ==> after.symbols.va[other]
                == state.symbols.va[other]
            &&& after.symbols.rva == state.symbols.rva
            &&& after.symbols.image_base == state.symbols.image_base
            &&& after.requested == state.requested
            &&& after.generation != state.generation
            &&& after.taken(state.generation) == Some(after.desired())
            &&& after.symbols.resolved(name, BareDigits::Decimal) == Some(address)
        }),
        ({
            let after = state.with_rva(name, address);
            &&& after.symbols.rva.contains_key(name) && after.symbols.rva[name] == address
            &&& after.symbols.rva.contains_key(other) == state.symbols.rva.contains_key(other)
            &&& after.symbols.rva.contains_key(other) ==> after.symbols.rva[other]
                == state.symbols.rva[other]
            &&& after.symbols.va == state.symbols.va
            &&& after.symbols.image_base == state.symbols.image_base
            &&& after.requested == state.requested
            &&& after.generation != state.generation
            &&& after.taken(state.generation) == Some(after.desired())
        }),
{
}

/// Without functions there is none by any name, while where the image lies and what is requested
/// stay; other requests leave the functions and the image, and a move of the image leaves the
/// functions and the requests. What has changed is there to take up.
pub proof fn law_changes_of_the_registry(
    state: BreakpointView,
    name: Seq<char>,
    requested: Seq<Seq<char>>,
    image_base: Address,
)
    ensures
        ({
            let after = state.without_symbols();
            &&& !after.symbols.rva.contains_key(name) && !after.symbols.va.contains_key(name)
            &&& after.symbols.image_base == state.symbols.image_base
            &&& after.requested == state.requested
            &&& after.taken(state.generation) == Some(after.desired())
        }),
        ({
            let after = state.with_requested(requested);
            &&& after.requested == requested
            &&& after.symbols == state.symbols
            &&& after.taken(state.generation) == Some(after.desired())
        }),
        ({
            let after = state.with_image_base(image_base);
            &&& after.symbols.image_base == Some(image_base)
            &&& after.symbols.rva == state.symbols.rva
            &&& after.symbols.va == state.symbols.va
            &&& after.requested == state.requested
            &&& state.symbols.image_base != Some(image_base) ==> after.taken(state.generation)
                == Some(after.desired())
            &&& state.symbols.image_base == Some(image_base) ==> after.taken(state.generation)
                is None
        }),
{
}

/// Up to four breakpoints at different addresses are all taken up, in the order of the requests,
/// and of more of them the first four.
pub proof fn law_requests_are_taken_up(state: BreakpointView, addresses: Seq<Address>)
    requires
        state.requested.len() == addresses.len(),
        addresses.no_duplicates(),
        forall|i: int|
            0 <= i < addresses.len() ==> state.symbols.resolved(
                #[trigger] state.requested[i],
                BareDigits::Decimal,
            ) == Some(addresses[i]),
    ensures
        addresses.len() <= 4 ==> state.desired() == addresses,
        addresses.len() > 4 ==> state.desired() == addresses.take(4),
{
    assert forall|i: int, j: int| 0 <= i < j < state.requested.len() implies state.symbols.resolved(
        #[trigger] state.requested[i],
        BareDigits::Decimal,
    ) != state.symbols.resolved(#[trigger] state.requested[j], BareDigits::Decimal) by {
        assert(addresses[i] != addresses[j]);
    }
    crate::symbols::law_distinct_names_all_count(
        state.symbols,
        state.requested,
        BareDigits::Decimal,
    );
    let all = state.symbols.distinct_addresses(state.requested, BareDigits::Decimal);
    assert forall|i: int| 0 <= i < addresses.len() implies all[i] == addresses[i] by {
        assert(state.symbols.resolved(state.requested[i], BareDigits::Decimal) == Some(
            addresses[i],
        ));
    }
    assert(all =~= addresses);
    assert(addresses.take(addresses.len() as int) =~= addresses);
}

} // verus!
