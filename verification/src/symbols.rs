//! The assembler's symbol table: an insertion-ordered list of named
//! offsets, built during the first pass and queried during the second.
//! Lookup returns the first-inserted match; an offset rewrite also hits
//! the first match, so a rewrite is visible to every later lookup.

use vstd::prelude::*;

verus! {

/// What a symbol marks. Labels are the only kind the assembler emits.
#[derive(Debug, PartialEq, Eq, Structural, Copy, Clone)]
pub enum SymbolType {
    Label,
}

/// A named offset: a byte address within the code section, or within the
/// read-only section for string constants.
#[derive(Debug)]
pub struct Symbol {
    name: String,
    offset: u32,
    symbol_type: SymbolType,
}

/// The mathematical value of one symbol.
pub struct SymbolV {
    pub name: Seq<char>,
    pub offset: u32,
    pub symbol_type: SymbolType,
}

impl View for Symbol {
    type V = SymbolV;

    closed spec fn view(&self) -> SymbolV {
        SymbolV { name: self.name@, offset: self.offset, symbol_type: self.symbol_type }
    }
}

impl Symbol {
    /// Builds a symbol from its parts.
    pub fn new(name: String, offset: u32, symbol_type: SymbolType) -> (r: Symbol)
        ensures
            r@ == (SymbolV { name: name@, offset, symbol_type }),
    {
        Symbol { name, offset, symbol_type }
    }
}

/// The offset of the first symbol at or after position `i` whose name is
/// `name`, or `None` when no such symbol follows.
pub open spec fn lookup_from(t: Seq<SymbolV>, name: Seq<char>, i: int) -> Option<u32>
    decreases t.len() - i,
{
    if i < 0 || i >= t.len() {
        None
    } else if t[i].name == name {
        Some(t[i].offset)
    } else {
        lookup_from(t, name, i + 1)
    }
}

/// The offset of the first-inserted symbol named `name`.
pub open spec fn lookup_symbol(t: Seq<SymbolV>, name: Seq<char>) -> Option<u32> {
    lookup_from(t, name, 0)
}

/// The table after rewriting the offset of the first symbol at or after
/// position `i` whose name is `name`; the table is unchanged when no such
/// symbol follows.
pub open spec fn set_first_from(t: Seq<SymbolV>, name: Seq<char>, offset: u32, i: int) -> Seq<
    SymbolV,
>
    decreases t.len() - i,
{
    if i < 0 || i >= t.len() {
        t
    } else if t[i].name == name {
        t.update(i, SymbolV { name: t[i].name, offset, symbol_type: t[i].symbol_type })
    } else {
        set_first_from(t, name, offset, i + 1)
    }
}

/// The table after rewriting the first-inserted symbol named `name`.
pub open spec fn set_first_symbol(t: Seq<SymbolV>, name: Seq<char>, offset: u32) -> Seq<SymbolV> {
    set_first_from(t, name, offset, 0)
}

/// An insertion-ordered collection of symbols, scanned linearly.
#[derive(Debug)]
pub struct SymbolTable {
    symbols: Vec<Symbol>,
}

impl View for SymbolTable {
    type V = Seq<SymbolV>;

    closed spec fn view(&self) -> Seq<SymbolV> {
        self.symbols@.map_values(|s: Symbol| s@)
    }
}

impl SymbolTable {
    /// An empty table.
    pub fn new() -> (r: SymbolTable)
        ensures
            r@ == Seq::<SymbolV>::empty(),
    {
        let r = SymbolTable { symbols: Vec::new() };
        proof {
            assert(r@ =~= Seq::<SymbolV>::empty());
        }
        r
    }

    /// Appends a symbol; earlier entries keep their positions.
    pub fn add_symbol(&mut self, symbol: Symbol)
        ensures
            final(self)@ == old(self)@.push(symbol@),
    {
        let ghost before = self@;
        let ghost sv = symbol@;
        self.symbols.push(symbol);
        proof {
            assert(self@ =~= before.push(sv));
        }
    }

    /// The offset of the first-inserted symbol named `s`, if any.
    pub fn symbol_value(&self, s: &str) -> (r: Option<u32>)
        ensures
            r == lookup_symbol(self@, s@),
    {
        let key: String = s.to_owned();
        let n = self.symbols.len();
        let mut i: usize = 0;
        while i < n
            invariant
                n == self.symbols.len(),
                0 <= i <= n,
                key@ == s@,
                lookup_from(self@, s@, 0) == lookup_from(self@, s@, i as int),
            decreases n - i,
        {
            if self.symbols[i].name == key {
                return Some(self.symbols[i].offset);
            }
            i = i + 1;
        }
        None
    }

    /// Rewrites the offset of the first-inserted symbol named `s` and
    /// reports whether such a symbol exists; without one the table is
    /// unchanged.
    pub fn set_symbol_offset(&mut self, s: &str, offset: u32) -> (r: bool)
        ensures
            final(self)@ == set_first_symbol(old(self)@, s@, offset),
            r == (lookup_symbol(old(self)@, s@) is Some),
    {
        let ghost before = self@;
        let key: String = s.to_owned();
        let n = self.symbols.len();
        let mut i: usize = 0;
        while i < n
            invariant
                n == self.symbols.len(),
                0 <= i <= n,
                key@ == s@,
                before == old(self)@,
                self@ == before,
                set_first_from(before, s@, offset, 0) == set_first_from(before, s@, offset, i as int),
                lookup_from(before, s@, 0) == lookup_from(before, s@, i as int),
            decreases n - i,
        {
            if self.symbols[i].name == key {
                proof {
                    assert(before[i as int] == self.symbols@[i as int]@);
                    assert(before[i as int].name == s@);
                    assert(lookup_from(before, s@, i as int) == Some(before[i as int].offset));
                    assert(set_first_from(before, s@, offset, i as int) == before.update(
                        i as int,
                        SymbolV {
                            name: before[i as int].name,
                            offset,
                            symbol_type: before[i as int].symbol_type,
                        },
                    ));
                }
                let name = self.symbols[i].name.clone();
                let symbol_type = self.symbols[i].symbol_type;
                self.symbols[i] = Symbol { name, offset, symbol_type };
                proof {
                    assert(self@ =~= before.update(
                        i as int,
                        SymbolV {
                            name: before[i as int].name,
                            offset,
                            symbol_type: before[i as int].symbol_type,
                        },
                    ));
                }
                return true;
            }
            i = i + 1;
        }
        false
    }
}

proof fn lemma_lookup_first_match_from(t: Seq<SymbolV>, name: Seq<char>, k: int, i: int)
    requires
        0 <= k <= i < t.len(),
        t[i].name == name,
        forall|j: int| k <= j < i ==> t[j].name != name,
    ensures
        lookup_from(t, name, k) == Some(t[i].offset),
    decreases i - k,
{
    if k < i {
        lemma_lookup_first_match_from(t, name, k + 1, i);
    }
}

/// The lookup answer is the first-inserted match: when position `i` holds
/// a symbol named `name` and no earlier position does, looking the name
/// up yields exactly that symbol's offset.
pub proof fn lemma_lookup_first_match(t: Seq<SymbolV>, name: Seq<char>, i: int)
    requires
        0 <= i < t.len(),
        t[i].name == name,
        forall|j: int| 0 <= j < i ==> t[j].name != name,
    ensures
        lookup_symbol(t, name) == Some(t[i].offset),
{
    lemma_lookup_first_match_from(t, name, 0, i);
}

proof fn lemma_set_from_frame(t: Seq<SymbolV>, name: Seq<char>, offset: u32, i: int)
    ensures
        set_first_from(t, name, offset, i).len() == t.len(),
        forall|j: int|
            0 <= j < i && j < t.len() ==> set_first_from(t, name, offset, i)[j] == t[j],
    decreases t.len() - i,
{
    if 0 <= i < t.len() && t[i].name != name {
        lemma_set_from_frame(t, name, offset, i + 1);
    }
}

proof fn lemma_set_then_lookup_from(t: Seq<SymbolV>, name: Seq<char>, offset: u32, k: int)
    requires
        0 <= k,
        lookup_from(t, name, k) is Some,
    ensures
        lookup_from(set_first_from(t, name, offset, k), name, k) == Some(offset),
    decreases t.len() - k,
{
    if k < t.len() {
        if t[k].name == name {
            let u = t.update(
                k,
                SymbolV { name: t[k].name, offset, symbol_type: t[k].symbol_type },
            );
            assert(u[k].name == name);
        } else {
            let u = set_first_from(t, name, offset, k + 1);
            lemma_set_from_frame(t, name, offset, k + 1);
            assert(u[k] == t[k]);
            lemma_set_then_lookup_from(t, name, offset, k + 1);
        }
    }
}

/// Rewriting a symbol's offset is observable: after rewriting a name that
/// the table holds, looking that name up yields the new offset.
pub proof fn lemma_set_then_lookup(t: Seq<SymbolV>, name: Seq<char>, offset: u32)
    requires
        lookup_symbol(t, name) is Some,
    ensures
        lookup_symbol(set_first_symbol(t, name, offset), name) == Some(offset),
{
    lemma_set_then_lookup_from(t, name, offset, 0);
}

} // verus!
