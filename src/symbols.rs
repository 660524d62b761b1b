//! Resolution of code addresses to the symbol they fall in.

use vstd::prelude::*;

verus! {

/// A symbol of the firmware image: where it starts, and its name.
pub struct Symbol {
    pub address: u32,
    pub name: String,
}

/// Symbols ordered by strictly increasing start address; read-only once built.
pub struct SymbolTable {
    symbols: Vec<Symbol>,
}

/// Start addresses strictly increase along the sequence.
pub open spec fn sorted_by_address(s: Seq<Symbol>) -> bool {
    forall|i: int, j: int| 0 <= i < j < s.len() ==> s[i].address < s[j].address
}

/// Index `i` holds the nearest symbol at or before `addr`.
pub open spec fn is_nearest_preceding(s: Seq<Symbol>, i: int, addr: u32) -> bool {
    &&& 0 <= i < s.len()
    &&& s[i].address <= addr
    &&& (i + 1 == s.len() || s[i + 1].address > addr)
}

/// No symbol starts at or before `addr`.
pub open spec fn precedes_all(s: Seq<Symbol>, addr: u32) -> bool {
    s.len() == 0 || addr < s[0].address
}

impl SymbolTable {
    pub closed spec fn view(&self) -> Seq<Symbol> {
        self.symbols@
    }

    pub closed spec fn wf(&self) -> bool {
        sorted_by_address(self.symbols@)
    }

    /// Builds a table from symbols listed by increasing start address;
    /// `None` where the list is out of order or holds an address twice.
    pub fn from_sorted(symbols: Vec<Symbol>) -> (r: Option<SymbolTable>)
        ensures
            r.is_some() <==> sorted_by_address(symbols@),
            r.is_some() ==> r.unwrap().wf() && r.unwrap()@ == symbols@,
    {
        let n = symbols.len();
        let mut i: usize = 1;
        while i < n
            invariant
                n == symbols@.len(),
                1 <= i || n == 0,
                forall|a: int, b: int| 0 <= a < b < i && b < n ==> symbols@[a].address < symbols@[b].address,
            decreases n - i,
        {
            if symbols[i - 1].address >= symbols[i].address {
                return None;
            }
            proof {
                assert forall|a: int, b: int| 0 <= a < b < i + 1 && b < n implies symbols@[a].address
                    < symbols@[b].address by {
                    if b == i && a < i - 1 {
                        assert(symbols@[a].address < symbols@[i - 1].address);
                    }
                }
            }
            i = i + 1;
        }
        Some(SymbolTable { symbols })
    }

    /// Number of symbols in the table.
    pub fn len(&self) -> (r: usize)
        ensures
            r == self@.len(),
    {
        self.symbols.len()
    }

    /// The nearest symbol at or before `addr` and the offset of `addr` from
    /// its start; `None` when `addr` lies before every symbol.
    pub fn lookup(&self, addr: u32) -> (r: Option<(String, u32)>)
        requires
            self.wf(),
        ensures
            r.is_none() <==> precedes_all(self@, addr),
            r.is_some() ==> exists|i: int|
                #![trigger self@[i]]
                is_nearest_preceding(self@, i, addr) && r.unwrap().0@ == self@[i].name@
                    && r.unwrap().1 == addr - self@[i].address,
    {
        let n = self.symbols.len();
        if n == 0 || addr < self.symbols[0].address {
            return None;
        }
        let mut i: usize = 0;
        while i + 1 < n && self.symbols[i + 1].address <= addr
            invariant
                n == self@.len(),
                i < n,
                self@[i as int].address <= addr,
                sorted_by_address(self@),
            decreases n - i,
        {
            i = i + 1;
        }
        let s = &self.symbols[i];
        let r = Some((s.name.clone(), addr - s.address));
        assert(is_nearest_preceding(self@, i as int, addr));
        r
    }
}

/// Looks `addr` up in an optional table: unknown when there is no table.
pub fn resolve(table: Option<&SymbolTable>, addr: u32) -> (r: Option<(String, u32)>)
    requires
        table.is_some() ==> table.unwrap().wf(),
    ensures
        table.is_none() ==> r.is_none(),
        table.is_some() ==> (r.is_none() <==> precedes_all(table.unwrap()@, addr)),
        table.is_some() && r.is_some() ==> exists|i: int|
            #![trigger table.unwrap()@[i]]
            is_nearest_preceding(table.unwrap()@, i, addr) && r.unwrap().0@ == table.unwrap()@[i].name@
                && r.unwrap().1 == addr - table.unwrap()@[i].address,
{
    match table {
        Some(t) => t.lookup(addr),
        None => None,
    }
}

} // verus!
