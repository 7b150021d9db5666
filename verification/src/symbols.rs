//! Function symbols: how the name of a breakpoint becomes an address.
use std::collections::HashSet;

use vstd::hash_map::StringHashMap;
use vstd::prelude::*;

use crate::system::Address;
use crate::text::{self, digit_of, parse_u32, trim};

verus! {

broadcast use vstd::std_specs::hash::group_hash_axioms;

/// How a text of decimal digits alone is read, where nothing before them tells.
#[derive(Debug, Clone, Copy, PartialEq, Eq, Structural)]
pub enum BareDigits {
    Decimal,
    Hexadecimal,
}

/// The address that a text writes: hexadecimal behind `0x` or `0X`, and wherever every character
/// is a hexadecimal digit and one of them is a letter. A text of decimal digits alone is read as
/// `bare` says, and any other in decimal. White space around it does not count.
pub open spec fn address_literal(name: Seq<char>, bare: BareDigits) -> Option<Address> {
    let text = text::trimmed(name);
    if text.len() == 0 {
        None
    } else if text.len() >= 2 && text[0] == '0' && (text[1] == 'x' || text[1] == 'X') {
        text::parsed_u32(text.skip(2), 16)
    } else if text::all_digits(text, 16) && (bare is Hexadecimal || !text::all_digits(text, 10)) {
        text::parsed_u32(text, 16)
    } else {
        text::parsed_u32(text, 10)
    }
}

/// Whether every character is a digit of the radix.
fn only_digits(chars: &Vec<char>, radix: u32) -> (only: bool)
    requires
        2 <= radix <= 36,
    ensures
        only == text::all_digits(chars@, radix as nat),
{
    let mut i: usize = 0;
    while i < chars.len()
        invariant
            i <= chars@.len(),
            2 <= radix <= 36,
            forall|j: int| 0 <= j < i ==> text::is_digit(#[trigger] chars@[j], radix as nat),
        decreases chars@.len() - i,
    {
        if digit_of(chars[i], radix).is_none() {
            assert(!text::is_digit(chars@[i as int], radix as nat));
            return false;
        }
        i += 1;
    }
    true
}

/// Reads an address from text.
pub fn read_address(name: &str, bare: BareDigits) -> (address: Option<Address>)
    ensures
        address == address_literal(name@, bare),
{
    let chars = trim(name);
    assert(chars@.skip(0) =~= chars@);
    if chars.len() == 0 {
        return None;
    }
    if chars.len() >= 2 && chars[0] == '0' && (chars[1] == 'x' || chars[1] == 'X') {
        return parse_u32(&chars, 2, 16);
    }
    let hexadecimal = match bare {
        BareDigits::Hexadecimal => only_digits(&chars, 16),
        BareDigits::Decimal => only_digits(&chars, 16) && !only_digits(&chars, 10),
    };
    if hexadecimal {
        return parse_u32(&chars, 0, 16);
    }
    parse_u32(&chars, 0, 10)
}

/// What a symbol table knows: where the image lies, and the functions by offset and by address.
pub struct SymbolsView {
    pub image_base: Option<Address>,
    pub rva: Map<Seq<char>, Address>,
    pub va: Map<Seq<char>, Address>,
}

impl SymbolsView {
    /// The table that knows nothing.
    pub open spec fn none() -> SymbolsView {
        SymbolsView { image_base: None, rva: Map::empty(), va: Map::empty() }
    }

    /// The address of a name: that of the symbol where it has one, else the sum, without the
    /// carry, of the image base and the symbol's offset where it has one, else what the name
    /// itself writes. An offset without an image base gives no address.
    pub open spec fn resolved(self, name: Seq<char>, bare: BareDigits) -> Option<Address> {
        if self.va.contains_key(name) {
            Some(self.va[name])
        } else if self.rva.contains_key(name) {
            match self.image_base {
                Some(base) => Some(((base + self.rva[name]) % 0x1_0000_0000) as u32),
                None => None,
            }
        } else {
            address_literal(name, bare)
        }
    }

    /// Whether a name is a symbol or writes an address.
    pub open spec fn known(self, name: Seq<char>, bare: BareDigits) -> bool {
        self.va.contains_key(name) || self.rva.contains_key(name) || address_literal(
            name,
            bare,
        ) is Some
    }

    /// The addresses of the names, each once, in the order in which they first come up.
    pub open spec fn distinct_addresses(
        self,
        names: Seq<Seq<char>>,
        bare: BareDigits,
    ) -> Seq<Address>
        decreases names.len(),
    {
        if names.len() == 0 {
            Seq::empty()
        } else {
            let earlier = self.distinct_addresses(names.drop_last(), bare);
            match self.resolved(names.last(), bare) {
                Some(address) => if earlier.contains(address) {
                    earlier
                } else {
                    earlier.push(address)
                },
                None => earlier,
            }
        }
    }
}

/// The names as sequences of characters.
pub open spec fn names_view(names: Seq<String>) -> Seq<Seq<char>> {
    names.map_values(|name: String| name@)
}

/// A table of function symbols.
pub struct SymbolTable {
    pub image_base: Option<Address>,
    pub rva: StringHashMap<Address>,
    pub va: StringHashMap<Address>,
}

impl View for SymbolTable {
    type V = SymbolsView;

    open spec fn view(&self) -> SymbolsView {
        SymbolsView { image_base: self.image_base, rva: self.rva@, va: self.va@ }
    }
}

impl SymbolTable {
    /// An empty table.
    pub fn new() -> (table: SymbolTable)
        ensures
            table@ == SymbolsView::none(),
    {
        SymbolTable { image_base: None, rva: StringHashMap::new(), va: StringHashMap::new() }
    }

    /// Forgets every symbol; the image base stays.
    pub fn clear(&mut self)
        ensures
            final(self)@ == (SymbolsView {
                image_base: old(self)@.image_base,
                ..SymbolsView::none()
            }),
    {
        self.rva.clear();
        self.va.clear();
    }

    /// The address of a name.
    pub fn resolve(&self, name: &str, bare: BareDigits) -> (address: Option<Address>)
        ensures
            address == self@.resolved(name@, bare),
    {
        if let Some(va) = self.va.get(name) {
            return Some(*va);
        }
        if let Some(rva) = self.rva.get(name) {
            return match self.image_base {
                Some(base) => Some(base.wrapping_add(*rva)),
                None => None,
            };
        }
        read_address(name, bare)
    }

    /// Whether a name is a symbol or writes an address.
    pub fn knows(&self, name: &str, bare: BareDigits) -> (known: bool)
        ensures
            known == self@.known(name@, bare),
    {
        self.va.contains_key(name) || self.rva.contains_key(name) || read_address(
            name,
            bare,
        ).is_some()
    }

    /// For each name, whether it is a symbol or writes an address.
    pub fn knows_each(&self, names: &Vec<String>, bare: BareDigits) -> (known: Vec<bool>)
        ensures
            known@ == names_view(names@).map_values(|name: Seq<char>| self@.known(name, bare)),
    {
        let mut known: Vec<bool> = Vec::new();
        let mut i: usize = 0;
        while i < names.len()
            invariant
                i <= names@.len(),
                known@.len() == i,
                forall|j: int| 0 <= j < i ==> known@[j] == self@.known(#[trigger] names@[j]@, bare),
            decreases names@.len() - i,
        {
            known.push(self.knows(names[i].as_str(), bare));
            i += 1;
        }
        assert(known@ =~= names_view(names@).map_values(|name: Seq<char>| self@.known(name, bare)));
        known
    }

    /// The first `limit` of the addresses of the names, each once, in the order in which they
    /// first come up.
    pub fn distinct_addresses(
        &self,
        names: &Vec<String>,
        bare: BareDigits,
        limit: usize,
    ) -> (out: Vec<Address>)
        requires
            limit > 0,
        ensures
            ({
                let all = self@.distinct_addresses(names_view(names@), bare);
                out@ == all.take(if all.len() < limit {
                    all.len() as int
                } else {
                    limit as int
                })
            }),
    {
        let ghost views = names_view(names@);
        let mut out: Vec<Address> = Vec::new();
        let mut seen: HashSet<Address> = HashSet::new();
        let mut i: usize = 0;
        assert(views.take(0) =~= Seq::empty());
        while i < names.len()
            invariant
                i <= names@.len(),
                views == names_view(names@),
                out@ == self@.distinct_addresses(views.take(i as int), bare),
                forall|address: Address| seen@.contains(address) <==> out@.contains(address),
                out@.len() < limit,
            decreases names@.len() - i,
        {
            assert(views.take(i + 1).drop_last() =~= views.take(i as int));
            assert(views.take(i + 1).last() == names@[i as int]@);
            if let Some(address) = self.resolve(names[i].as_str(), bare) {
                let ghost before = out@;
                if seen.insert(address) {
                    out.push(address);
                    assert forall|other: Address| seen@.contains(other) <==> out@.contains(
                        other,
                    ) by {
                        assert(out@[before.len() as int] == address);
                        if out@.contains(other) && other != address {
                            let k = choose|k: int| 0 <= k < out@.len() && out@[k] == other;
                            assert(before[k] == other);
                        }
                        if before.contains(other) {
                            let k = choose|k: int| 0 <= k < before.len() && before[k] == other;
                            assert(out@[k] == other);
                        }
                    }
                    if out.len() == limit {
                        proof {
                            lemma_distinct_addresses_extend(self@, views, bare, i + 1);
                            let all = self@.distinct_addresses(views, bare);
                            assert(all.take(limit as int) =~= out@);
                        }
                        return out;
                    }
                }
            }
            i += 1;
        }
        proof {
            assert(views.take(views.len() as int) =~= views);
            let all = self@.distinct_addresses(views, bare);
            assert(all.take(all.len() as int) =~= all);
        }
        out
    }
}

/// The addresses of the first names are the first addresses.
pub proof fn lemma_distinct_addresses_extend(
    symbols: SymbolsView,
    names: Seq<Seq<char>>,
    bare: BareDigits,
    count: int,
)
    requires
        0 <= count <= names.len(),
    ensures
        ({
            let some = symbols.distinct_addresses(names.take(count), bare);
            let all = symbols.distinct_addresses(names, bare);
            some.len() <= all.len() && all.take(some.len() as int) == some
        }),
    decreases names.len() - count,
{
    let some = symbols.distinct_addresses(names.take(count), bare);
    if count == names.len() {
        assert(names.take(count) =~= names);
        assert(some.take(some.len() as int) =~= some);
    } else {
        lemma_distinct_addresses_extend(symbols, names, bare, count + 1);
        assert(names.take(count + 1).drop_last() =~= names.take(count));
        let more = symbols.distinct_addresses(names.take(count + 1), bare);
        let all = symbols.distinct_addresses(names, bare);
        assert(more.take(some.len() as int) =~= some);
        assert(all.take(some.len() as int) =~= all.take(more.len() as int).take(some.len() as int));
    }
}

/// There are no more addresses than names.
pub proof fn lemma_distinct_addresses_len(
    symbols: SymbolsView,
    names: Seq<Seq<char>>,
    bare: BareDigits,
)
    ensures
        symbols.distinct_addresses(names, bare).len() <= names.len(),
    decreases names.len(),
{
    if names.len() > 0 {
        lemma_distinct_addresses_len(symbols, names.drop_last(), bare);
    }
}

/// The addresses of the names are those that some name resolves to, and no address comes twice.
pub proof fn law_distinct_addresses(
    symbols: SymbolsView,
    names: Seq<Seq<char>>,
    bare: BareDigits,
)
    ensures
        symbols.distinct_addresses(names, bare).no_duplicates(),
        forall|address: Address| #[trigger]
            symbols.distinct_addresses(names, bare).contains(address) <==> exists|i: int|
                0 <= i < names.len() && symbols.resolved(#[trigger] names[i], bare) == Some(address),
    decreases names.len(),
{
    let out = symbols.distinct_addresses(names, bare);
    if names.len() > 0 {
        let shorter = names.drop_last();
        let earlier = symbols.distinct_addresses(shorter, bare);
        law_distinct_addresses(symbols, shorter, bare);
        assert forall|address: Address| #[trigger] out.contains(address) <==> exists|i: int|
            0 <= i < names.len() && symbols.resolved(#[trigger] names[i], bare) == Some(address) by {
            if out.contains(address) {
                let k = choose|k: int| 0 <= k < out.len() && out[k] == address;
                if k < earlier.len() {
                    assert(earlier[k] == address);
                    assert(earlier.contains(address));
                    let i = choose|i: int|
                        0 <= i < shorter.len() && symbols.resolved(#[trigger] shorter[i], bare) == Some(
                            address,
                        );
                    assert(symbols.resolved(names[i], bare) == Some(address));
                } else {
                    assert(symbols.resolved(names[names.len() - 1], bare) == Some(address));
                }
            }
            if exists|i: int|
                0 <= i < names.len() && symbols.resolved(#[trigger] names[i], bare) == Some(address) {
                let i = choose|i: int|
                    0 <= i < names.len() && symbols.resolved(#[trigger] names[i], bare) == Some(address);
                if i < shorter.len() {
                    assert(symbols.resolved(shorter[i], bare) == Some(address));
                    assert(earlier.contains(address));
                }
                if earlier.contains(address) {
                    let k = choose|k: int| 0 <= k < earlier.len() && earlier[k] == address;
                    assert(out[k] == address);
                } else {
                    assert(out[earlier.len() as int] == address);
                }
            }
        }
    }
}

/// A name resolves only if it is known; the reverse fails only for a symbol by offset while the
/// image base is unknown.
pub proof fn law_resolved_names_are_known(
    symbols: SymbolsView,
    name: Seq<char>,
    bare: BareDigits,
)
    ensures
        symbols.resolved(name, bare) is Some ==> symbols.known(name, bare),
        symbols.known(name, bare) && symbols.resolved(name, bare) is None <==> !symbols.va.contains_key(name)
            && symbols.rva.contains_key(name) && symbols.image_base is None,
{
}

/// An address written in hexadecimal behind `0x` reads back as that address.
pub proof fn law_hexadecimal_addresses_read_back(address: Address, bare: BareDigits)
    ensures
        address_literal(seq!['0', 'x'] + text::numeral(address as nat, 16), bare) == Some(address),
{
    let digits = text::numeral(address as nat, 16);
    let name = seq!['0', 'x'] + digits;
    text::law_numerals_read_back(address as nat, 16);
    assert(text::is_digit(digits[0], 16));
    assert(text::is_digit(digits.last(), 16));
    text::law_trimming(name, ' ');
    assert(name.skip(2) =~= digits);
}

/// White space around a text does not count for the address that it writes.
pub proof fn law_white_space_does_not_count(name: Seq<char>, c: char, bare: BareDigits)
    requires
        text::white_space(c),
    ensures
        address_literal(seq![c] + name, bare) == address_literal(name, bare),
        address_literal(name.push(c), bare) == address_literal(name, bare),
{
    text::law_trimming(name, c);
}

/// An address written in decimal reads back as that address, where bare digits are decimal.
pub proof fn law_decimal_addresses_read_back(address: Address)
    ensures
        address_literal(text::numeral(address as nat, 10), BareDigits::Decimal) == Some(
            address,
        ),
{
    let digits = text::numeral(address as nat, 10);
    text::law_numerals_read_back(address as nat, 10);
    assert(text::is_digit(digits[0], 10));
    assert(text::is_digit(digits.last(), 10));
    text::law_trimming(digits, ' ');
    assert(digits.len() >= 2 ==> text::is_digit(digits[1], 10));
}

/// An address written in hexadecimal reads back as that address without `0x` too, where bare
/// digits are hexadecimal, and wherever a letter among its digits tells it from a decimal one.
pub proof fn law_unprefixed_addresses_read_back(address: Address, bare: BareDigits)
    requires
        bare is Hexadecimal || !text::all_digits(text::numeral(address as nat, 16), 10),
    ensures
        address_literal(text::numeral(address as nat, 16), bare) == Some(address),
{
    let digits = text::numeral(address as nat, 16);
    text::law_numerals_read_back(address as nat, 16);
    assert(text::is_digit(digits[0], 16));
    assert(text::is_digit(digits.last(), 16));
    text::law_trimming(digits, ' ');
    assert(digits.len() >= 2 ==> text::is_digit(digits[1], 16));
}

/// How a name gets its address: the address of a symbol that has one comes before everything; then
/// a symbol's offset counts from the image base, wrapping round at the end of memory, and gives
/// nothing while the base is unknown; only then is the name read as an address.
pub proof fn law_how_names_resolve(
    symbols: SymbolsView,
    name: Seq<char>,
    other: Seq<char>,
    address: Address,
    rva: Address,
    base: Address,
    bare: BareDigits,
)
    requires
        name != other,
    ensures
        ({
            let with_va = SymbolsView { va: symbols.va.insert(name, address), ..symbols };
            with_va.resolved(name, bare) == Some(address) && with_va.resolved(other, bare)
                == symbols.resolved(other, bare)
        }),
        !symbols.va.contains_key(name) ==> ({
            let with_rva = SymbolsView { rva: symbols.rva.insert(name, rva), ..symbols };
            let placed = SymbolsView { image_base: Some(base), ..with_rva };
            let unplaced = SymbolsView { image_base: None, ..with_rva };
            &&& placed.resolved(name, bare) is Some
            &&& (placed.resolved(name, bare)->0 - base - rva) % 0x1_0000_0000 == 0
            &&& unplaced.resolved(name, bare) is None
            &&& with_rva.resolved(other, bare) == symbols.resolved(other, bare)
        }),
        !symbols.va.contains_key(name) && !symbols.rva.contains_key(name) ==> symbols.resolved(
            name,
            bare,
        ) == address_literal(name, bare),
        SymbolsView::none().resolved(name, bare) == address_literal(name, bare),
{
}

/// A name that is registered is known, with or without an image base; a name that is not is known
/// exactly if it writes an address.
pub proof fn law_which_names_are_known(
    symbols: SymbolsView,
    name: Seq<char>,
    address: Address,
    bare: BareDigits,
)
    ensures
        (SymbolsView { va: symbols.va.insert(name, address), ..symbols }).known(name, bare),
        (SymbolsView { rva: symbols.rva.insert(name, address), ..symbols }).known(name, bare),
        SymbolsView::none().known(name, bare) == (address_literal(name, bare) is Some),
        !symbols.va.contains_key(name) && !symbols.rva.contains_key(name) ==> symbols.known(
            name,
            bare,
        ) == SymbolsView::none().known(name, bare),
{
}

/// The addresses come in the order of the names: each of them belongs to a name before which every
/// name that resolves gives an earlier address. However many names there are, none is left out.
pub proof fn law_addresses_keep_the_order_of_names(
    symbols: SymbolsView,
    names: Seq<Seq<char>>,
    bare: BareDigits,
)
    ensures
        forall|k: int|
            0 <= k < symbols.distinct_addresses(names, bare).len() ==> #[trigger] in_order(
                symbols,
                names,
                bare,
                symbols.distinct_addresses(names, bare),
                k,
            ),
    decreases names.len(),
{
    let out = symbols.distinct_addresses(names, bare);
    if names.len() > 0 {
        let shorter = names.drop_last();
        let earlier = symbols.distinct_addresses(shorter, bare);
        law_addresses_keep_the_order_of_names(symbols, shorter, bare);
        law_distinct_addresses(symbols, shorter, bare);
        assert forall|k: int| 0 <= k < out.len() implies #[trigger] in_order(
            symbols,
            names,
            bare,
            out,
            k,
        ) by {
            if k < earlier.len() {
                assert(in_order(symbols, shorter, bare, earlier, k));
                let i = choose|i: int|
                    {
                        &&& 0 <= i < shorter.len()
                        &&& symbols.resolved(#[trigger] shorter[i], bare) == Some(earlier[k])
                        &&& comes_first(symbols, shorter, bare, i, earlier.take(k))
                    };
                assert(out.take(k) =~= earlier.take(k));
                assert forall|j: int|
                    0 <= j < i && symbols.resolved(#[trigger] names[j], bare) is Some implies out.take(
                    k,
                ).contains(symbols.resolved(names[j], bare)->0) by {
                    assert(shorter[j] == names[j]);
                }
                assert(names[i] == shorter[i]);
            } else {
                let i = names.len() - 1;
                assert(out.take(k) =~= earlier);
                assert forall|j: int|
                    0 <= j < i && symbols.resolved(#[trigger] names[j], bare) is Some implies out.take(
                    k,
                ).contains(symbols.resolved(names[j], bare)->0) by {
                    assert(shorter[j] == names[j]);
                    assert(earlier.contains(symbols.resolved(shorter[j], bare)->0));
                }
                assert(symbols.resolved(names[i], bare) == Some(out[k]));
            }
        }
    }
}

/// Whether the address at a place belongs to a name before which every name that resolves gives an
/// address before that place.
pub open spec fn in_order(
    symbols: SymbolsView,
    names: Seq<Seq<char>>,
    bare: BareDigits,
    addresses: Seq<Address>,
    place: int,
) -> bool {
    exists|i: int|
        {
            &&& 0 <= i < names.len()
            &&& symbols.resolved(#[trigger] names[i], bare) == Some(addresses[place])
            &&& comes_first(symbols, names, bare, i, addresses.take(place))
        }
}

/// Whether every name before a place that resolves gives one of these addresses.
pub open spec fn comes_first(
    symbols: SymbolsView,
    names: Seq<Seq<char>>,
    bare: BareDigits,
    place: int,
    addresses: Seq<Address>,
) -> bool {
    forall|j: int|
        0 <= j < place && symbols.resolved(#[trigger] names[j], bare) is Some
            ==> addresses.contains(symbols.resolved(names[j], bare)->0)
}

/// Where every name resolves to an address of its own, there is one address for each name, in the
/// order of the names.
pub proof fn law_distinct_names_all_count(
    symbols: SymbolsView,
    names: Seq<Seq<char>>,
    bare: BareDigits,
)
    requires
        forall|i: int| 0 <= i < names.len() ==> symbols.resolved(#[trigger] names[i], bare) is Some,
        forall|i: int, j: int|
            0 <= i < j < names.len() ==> symbols.resolved(#[trigger] names[i], bare)
                != symbols.resolved(#[trigger] names[j], bare),
    ensures
        symbols.distinct_addresses(names, bare).len() == names.len(),
        forall|i: int|
            0 <= i < names.len() ==> symbols.resolved(#[trigger] names[i], bare) == Some(
                symbols.distinct_addresses(names, bare)[i],
            ),
    decreases names.len(),
{
    if names.len() > 0 {
        let shorter = names.drop_last();
        let last = names.len() - 1;
        assert forall|i: int| 0 <= i < shorter.len() implies symbols.resolved(
            #[trigger] shorter[i],
            bare,
        ) is Some by {
            assert(shorter[i] == names[i]);
        }
        assert forall|i: int, j: int| 0 <= i < j < shorter.len() implies symbols.resolved(
            #[trigger] shorter[i],
            bare,
        ) != symbols.resolved(#[trigger] shorter[j], bare) by {
            assert(shorter[i] == names[i] && shorter[j] == names[j]);
        }
        law_distinct_names_all_count(symbols, shorter, bare);
        let earlier = symbols.distinct_addresses(shorter, bare);
        let address = symbols.resolved(names[last], bare)->0;
        assert(symbols.resolved(names[last], bare) is Some);
        assert(!earlier.contains(address)) by {
            if earlier.contains(address) {
                let k = choose|k: int| 0 <= k < earlier.len() && earlier[k] == address;
                assert(shorter[k] == names[k]);
                assert(symbols.resolved(shorter[k], bare) == Some(earlier[k]));
                assert(symbols.resolved(names[k], bare) != symbols.resolved(names[last], bare));
            }
        }
        assert forall|i: int| 0 <= i < names.len() implies symbols.resolved(
            #[trigger] names[i],
            bare,
        ) == Some(symbols.distinct_addresses(names, bare)[i]) by {
            if i < last {
                assert(shorter[i] == names[i]);
            }
        }
    }
}

/// Which texts write no address at all: a text of white space, and one that holds, between the
/// white space around it, anything but letters, digits and one plus sign.
pub proof fn law_texts_without_an_address(name: Seq<char>, i: int, bare: BareDigits)
    ensures
        text::trimmed(name).len() == 0 ==> address_literal(name, bare) is None,
        0 <= i < text::trimmed(name).len() && i != 0 && i != 2 && text::digit_value(
            text::trimmed(name)[i],
        ) is None ==> address_literal(name, bare) is None,
{
    let all = text::trimmed(name);
    if 0 <= i < all.len() && i != 0 && i != 2 && text::digit_value(all[i]) is None {
        assert(!text::is_digit(all[i], 16) && !text::is_digit(all[i], 10));
        if i >= 1 {
            assert(all.drop_first()[i - 1] == all[i]);
        }
        if i >= 3 {
            assert(all.skip(2)[i - 2] == all[i]);
            assert(all.skip(2).drop_first()[i - 3] == all[i]);
        }
    }
}

/// Behind `0x` or `0X` a number is hexadecimal, and without them it is where bare digits are; the
/// case of its letters does not matter there, and neither does how bare digits are read. Digits
/// alone are decimal where bare digits are, and behind a plus sign they always are.
pub proof fn law_how_addresses_are_written(digits: Seq<char>, bare: BareDigits)
    requires
        digits.len() > 0,
        text::all_digits(digits, 16),
    ensures
        address_literal(seq!['0', 'x'] + digits, bare) == text::parsed_u32(digits, 16),
        address_literal(seq!['0', 'X'] + digits, bare) == text::parsed_u32(digits, 16),
        address_literal(digits, BareDigits::Hexadecimal) == text::parsed_u32(digits, 16),
        !text::all_digits(digits, 10) ==> address_literal(digits, BareDigits::Decimal)
            == text::parsed_u32(digits, 16),
        text::all_digits(digits, 10) ==> address_literal(digits, BareDigits::Decimal)
            == text::parsed_u32(digits, 10),
        text::all_digits(digits, 10) ==> address_literal(seq!['+'] + digits, bare)
            == text::parsed_u32(digits, 10),
        !text::all_digits(digits, 10) ==> address_literal(seq!['+'] + digits, bare) is None,
        address_literal(seq!['0', 'x', '+'] + digits, bare) == text::parsed_u32(digits, 16),
{
    let small = seq!['0', 'x'] + digits;
    let large = seq!['0', 'X'] + digits;
    let plus = seq!['+'] + digits;
    let both = seq!['0', 'x', '+'] + digits;
    assert(text::is_digit(digits[0], 16));
    assert(text::is_digit(digits.last(), 16));
    assert(digits.len() >= 2 ==> text::is_digit(digits[1], 16));
    text::law_trimming(small, ' ');
    text::law_trimming(large, ' ');
    text::law_trimming(digits, ' ');
    text::law_trimming(plus, ' ');
    text::law_trimming(both, ' ');
    assert(small.skip(2) =~= digits);
    assert(large.skip(2) =~= digits);
    assert(both.skip(2) =~= plus);
    assert(plus.drop_first() =~= digits);
    assert(plus[0] == '+' && !text::is_digit(plus[0], 16));
    assert(digits[0] != '+');
}

/// No address lies behind the last one that 32 bits hold.
pub proof fn law_addresses_fit(digits: Seq<char>, bare: BareDigits)
    requires
        text::all_digits(digits, 16),
        text::digits_value(digits, 16) > 0xffff_ffff,
    ensures
        address_literal(seq!['0', 'x'] + digits, bare) is None,
        address_literal(digits, BareDigits::Hexadecimal) is None,
{
    if digits.len() > 0 {
        law_how_addresses_are_written(digits, bare);
        assert(text::is_digit(digits[0], 16));
    }
}

} // verus!
