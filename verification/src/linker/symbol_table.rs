//! The symbols of all object files together.

use vstd::prelude::*;
use vstd::string::StringExecFns;
use crate::object::object::ObjectFile;
use crate::object::symbol::{ObjectSymbol, SymbolBinding};

verus! {

/// A symbol with the place that defines it.
pub struct ResolvedSymbol {
    pub name: String,
    pub object_index: Option<usize>,
    pub section_index: Option<usize>,
    pub value: u64,
    pub size: u64,
    pub binding: SymbolBinding,
}

/// What the table knows of a name.
pub struct Definition {
    pub object_index: Option<usize>,
    pub section_index: Option<usize>,
    pub value: u64,
    pub size: u64,
    pub binding: SymbolBinding,
}

/// The resolved symbols, at most one for each name.
pub struct SymbolTable {
    pub symbols: Vec<ResolvedSymbol>,
}

/// What the entry `r` says of its name.
pub open spec fn definition_of(r: ResolvedSymbol) -> Definition {
    Definition {
        object_index: r.object_index,
        section_index: r.section_index,
        value: r.value,
        size: r.size,
        binding: r.binding,
    }
}

/// The map from names to definitions that the first `n` entries make.
pub open spec fn table_map(entries: Seq<ResolvedSymbol>, n: int) -> Map<Seq<char>, Definition>
    decreases n,
{
    if n <= 0 {
        Map::empty()
    } else {
        table_map(entries, n - 1).insert(entries[n - 1].name@, definition_of(entries[n - 1]))
    }
}

/// Where taking symbols in stopped: the table as it then stood, and the
/// message of the error.
pub struct Clash {
    pub table: Map<Seq<char>, Definition>,
    pub message: Seq<char>,
}

/// The table after the symbol `sym` of the object file at `object_index`
/// was taken in, or the error. A symbol that no section defines is passed
/// over. A global symbol must not be defined where the table holds a
/// definition already: the table is then left as it is. Any other
/// definition replaces what the table held.
pub open spec fn with_symbol(
    table: Map<Seq<char>, Definition>,
    object_index: int,
    sym: ObjectSymbol,
) -> Result<Map<Seq<char>, Definition>, Clash> {
    if sym.section_index is None {
        Ok(table)
    } else if table.contains_key(sym.name@) && table[sym.name@].section_index is Some
        && sym.binding == SymbolBinding::Global {
        Err(Clash { table, message: "Duplicate global symbol: "@ + sym.name@ })
    } else {
        Ok(
            table.insert(
                sym.name@,
                Definition {
                    object_index: Some(object_index as usize),
                    section_index: sym.section_index,
                    value: sym.value,
                    size: sym.size,
                    binding: sym.binding,
                },
            ),
        )
    }
}

/// The table after the first `n` symbols of an object file were taken in,
/// or the first error, with the table as the symbols before it left it.
pub open spec fn with_symbols(
    table: Map<Seq<char>, Definition>,
    object_index: int,
    syms: Seq<ObjectSymbol>,
    n: int,
) -> Result<Map<Seq<char>, Definition>, Clash>
    decreases n,
{
    if n <= 0 {
        Ok(table)
    } else {
        match with_symbols(table, object_index, syms, n - 1) {
            Err(e) => Err(e),
            Ok(t) => with_symbol(t, object_index, syms[n - 1]),
        }
    }
}

/// The table after the first `n` object files were taken in, or the first
/// error, with the table as it stood when the error was found.
pub open spec fn with_objects(
    table: Map<Seq<char>, Definition>,
    objects: Seq<ObjectFile>,
    n: int,
) -> Result<Map<Seq<char>, Definition>, Clash>
    decreases n,
{
    if n <= 0 {
        Ok(table)
    } else {
        match with_objects(table, objects, n - 1) {
            Err(e) => Err(e),
            Ok(t) => with_symbols(
                t,
                n - 1,
                objects[n - 1].symbols@,
                objects[n - 1].symbols@.len() as int,
            ),
        }
    }
}

/// An error among the first symbols is the error of all.
pub proof fn lemma_with_symbols_err(
    table: Map<Seq<char>, Definition>,
    object_index: int,
    syms: Seq<ObjectSymbol>,
    k: int,
    n: int,
)
    requires
        0 <= k <= n,
        with_symbols(table, object_index, syms, k) is Err,
    ensures
        with_symbols(table, object_index, syms, n) == with_symbols(table, object_index, syms, k),
    decreases n - k,
{
    if k < n {
        lemma_with_symbols_err(table, object_index, syms, k, n - 1);
    }
}

/// An error among the first object files is the error of all.
pub proof fn lemma_with_objects_err(
    table: Map<Seq<char>, Definition>,
    objects: Seq<ObjectFile>,
    k: int,
    n: int,
)
    requires
        0 <= k <= n,
        with_objects(table, objects, k) is Err,
    ensures
        with_objects(table, objects, n) == with_objects(table, objects, k),
    decreases n - k,
{
    if k < n {
        lemma_with_objects_err(table, objects, k, n - 1);
    }
}

/// What the map of a table with distinct names holds: each entry under its
/// name, and nothing else.
pub proof fn lemma_table_map(entries: Seq<ResolvedSymbol>, n: int)
    requires
        0 <= n <= entries.len(),
        forall|i: int, j: int|
            0 <= i < j < entries.len() ==> (#[trigger] entries[i]).name@ != (
            #[trigger] entries[j]).name@,
    ensures
        forall|i: int|
            0 <= i < n ==> table_map(entries, n).contains_key((#[trigger] entries[i]).name@)
                && table_map(entries, n)[entries[i].name@] == definition_of(entries[i]),
        forall|k: Seq<char>|
            table_map(entries, n).contains_key(k) ==> exists|i: int|
                0 <= i < n && (#[trigger] entries[i]).name@ == k,
    decreases n,
{
    if n > 0 {
        lemma_table_map(entries, n - 1);
        assert forall|k: Seq<char>| table_map(entries, n).contains_key(k) implies exists|i: int|
            0 <= i < n && (#[trigger] entries[i]).name@ == k by {
            if k == entries[n - 1].name@ {
                assert(entries[n - 1].name@ == k);
            } else {
                let i = choose|i: int| 0 <= i < n - 1 && (#[trigger] entries[i]).name@ == k;
                assert(entries[i].name@ == k);
            }
        }
    }
}

impl SymbolTable {
    /// No two entries have the same name.
    pub open spec fn wf(&self) -> bool {
        forall|i: int, j: int|
            0 <= i < j < self.symbols@.len() ==> (#[trigger] self.symbols@[i]).name@ != (
            #[trigger] self.symbols@[j]).name@
    }

    /// The table as a map from names to definitions.
    pub open spec fn map(&self) -> Map<Seq<char>, Definition> {
        table_map(self.symbols@, self.symbols@.len() as int)
    }

    /// A table without symbols.
    pub fn new() -> (r: Self)
        ensures
            r.symbols@.len() == 0,
            r.wf(),
            r.map() == Map::<Seq<char>, Definition>::empty(),
    {
        SymbolTable { symbols: Vec::new() }
    }

    /// The index of the entry for `name`, if there is one.
    fn find(&self, name: &String) -> (r: Option<usize>)
        requires
            self.wf(),
        ensures
            match r {
                Some(i) => i < self.symbols@.len() && self.symbols@[i as int].name@ == name@,
                None => !self.map().contains_key(name@),
            },
            r is Some <==> self.map().contains_key(name@),
            r matches Some(i) ==> self.map()[name@] == definition_of(self.symbols@[i as int]),
    {
        proof {
            lemma_table_map(self.symbols@, self.symbols@.len() as int);
        }
        let mut i: usize = 0;
        while i < self.symbols.len()
            invariant
                i <= self.symbols@.len(),
                forall|k: int| 0 <= k < i ==> (#[trigger] self.symbols@[k]).name@ != name@,
                forall|k: int|
                    0 <= k < self.symbols@.len() ==> self.map().contains_key(
                        (#[trigger] self.symbols@[k]).name@,
                    ) && self.map()[self.symbols@[k].name@] == definition_of(self.symbols@[k]),
            decreases self.symbols@.len() - i,
        {
            if self.symbols[i].name == *name {
                return Some(i);
            }
            i += 1;
        }
        proof {
            if self.map().contains_key(name@) {
                let k = choose|k: int|
                    0 <= k < self.symbols@.len() && (#[trigger] self.symbols@[k]).name@ == name@;
                assert(self.symbols@[k].name@ != name@);
            }
        }
        None
    }

    /// Puts `entry` into the table in place of the entry of the same name,
    /// if there is one.
    fn put(&mut self, at: Option<usize>, entry: ResolvedSymbol)
        requires
            old(self).wf(),
            match at {
                Some(i) => i < old(self).symbols@.len() && old(self).symbols@[i as int].name@
                    == entry.name@,
                None => !old(self).map().contains_key(entry.name@),
            },
        ensures
            final(self).wf(),
            final(self).map() == old(self).map().insert(entry.name@, definition_of(entry)),
    {
        proof {
            lemma_table_map(self.symbols@, self.symbols@.len() as int);
        }
        match at {
            Some(i) => {
                self.symbols[i] = entry;
            },
            None => {
                self.symbols.push(entry);
                proof {
                    assert forall|i: int, j: int|
                        0 <= i < j < self.symbols@.len() implies (#[trigger] self.symbols@[i]).name@
                        != (#[trigger] self.symbols@[j]).name@ by {
                        assert(self.symbols@[i] == old(self).symbols@[i]);
                        if j < old(self).symbols@.len() {
                            assert(self.symbols@[j] == old(self).symbols@[j]);
                        } else {
                            assert(old(self).map().contains_key(old(self).symbols@[i].name@));
                        }
                    }
                }
            },
        }
        proof {
            lemma_table_map(self.symbols@, self.symbols@.len() as int);
            let want = old(self).map().insert(entry.name@, definition_of(entry));
            assert forall|k: Seq<char>| self.map().contains_key(k) == want.contains_key(k) by {
                if self.map().contains_key(k) {
                    let i = choose|i: int|
                        0 <= i < self.symbols@.len() && (#[trigger] self.symbols@[i]).name@ == k;
                    if k != entry.name@ {
                        assert(self.symbols@[i] == old(self).symbols@[i]);
                        assert(old(self).map().contains_key(old(self).symbols@[i].name@));
                    }
                }
                if want.contains_key(k) && k != entry.name@ {
                    let i = choose|i: int|
                        0 <= i < old(self).symbols@.len() && (
                        #[trigger] old(self).symbols@[i]).name@ == k;
                    assert(self.symbols@[i] == old(self).symbols@[i]);
                    assert(self.map().contains_key(self.symbols@[i].name@));
                }
                if k == entry.name@ {
                    match at {
                        Some(i) => {
                            assert(self.map().contains_key(self.symbols@[i as int].name@));
                        },
                        None => {
                            assert(self.map().contains_key(
                                self.symbols@[self.symbols@.len() - 1].name@,
                            ));
                        },
                    }
                }
            }
            assert forall|k: Seq<char>| self.map().contains_key(k) implies self.map()[k]
                == want[k] by {
                let i = choose|i: int|
                    0 <= i < self.symbols@.len() && (#[trigger] self.symbols@[i]).name@ == k;
                assert(self.map()[self.symbols@[i].name@] == definition_of(self.symbols@[i]));
                if k != entry.name@ {
                    assert(self.symbols@[i] == old(self).symbols@[i]);
                    assert(old(self).map()[old(self).symbols@[i].name@] == definition_of(
                        old(self).symbols@[i],
                    ));
                } else {
                    match at {
                        Some(a) => {
                            if i != a {
                                assert(self.symbols@[i].name@ != self.symbols@[a as int].name@);
                            }
                        },
                        None => {
                            if i != self.symbols@.len() - 1 {
                                assert(self.symbols@[i].name@ != self.symbols@[self.symbols@.len()
                                    - 1].name@);
                            }
                        },
                    }
                }
            }
            assert(self.map() =~= want);
        }
    }

    /// Takes the defined symbols of the object files into the table, file
    /// by file and symbol by symbol, and stops at the first global symbol
    /// that is defined twice. The table then holds what was taken in before
    /// that symbol.
    pub fn resolve(&mut self, objects: &[ObjectFile]) -> (r: Result<(), String>)
        requires
            old(self).wf(),
        ensures
            final(self).wf(),
            match with_objects(old(self).map(), objects@, objects@.len() as int) {
                Ok(table) => r is Ok && final(self).map() == table,
                Err(c) => r is Err && r->Err_0@ == c.message && final(self).map() == c.table,
            },
    {
        let mut obj_idx: usize = 0;
        while obj_idx < objects.len()
            invariant
                obj_idx <= objects@.len(),
                self.wf(),
                with_objects(old(self).map(), objects@, obj_idx as int) == Ok::<
                    Map<Seq<char>, Definition>,
                    Clash,
                >(self.map()),
            decreases objects@.len() - obj_idx,
        {
            let obj = &objects[obj_idx];
            let ghost start = self.map();
            let mut k: usize = 0;
            while k < obj.symbols.len()
                invariant
                    k <= obj.symbols@.len(),
                    obj_idx < objects@.len(),
                    *obj == objects@[obj_idx as int],
                    self.wf(),
                    with_objects(old(self).map(), objects@, obj_idx as int) == Ok::<
                        Map<Seq<char>, Definition>,
                        Clash,
                    >(start),
                    with_symbols(start, obj_idx as int, obj.symbols@, k as int) == Ok::<
                        Map<Seq<char>, Definition>,
                        Clash,
                    >(self.map()),
                decreases obj.symbols@.len() - k,
            {
                let sym = &obj.symbols[k];
                if sym.section_index.is_some() {
                    let at = self.find(&sym.name);
                    match at {
                        Some(i) => {
                            if self.symbols[i].section_index.is_some() && matches!(
                                sym.binding,
                                SymbolBinding::Global
                            ) {
                                let mut msg = String::from_str("Duplicate global symbol: ");
                                msg.append(sym.name.as_str());
                                proof {
                                    lemma_with_symbols_err(
                                        start,
                                        obj_idx as int,
                                        obj.symbols@,
                                        k + 1,
                                        obj.symbols@.len() as int,
                                    );
                                    lemma_with_objects_err(
                                        old(self).map(),
                                        objects@,
                                        obj_idx + 1,
                                        objects@.len() as int,
                                    );
                                }
                                return Err(msg);
                            }
                        },
                        None => {},
                    }
                    self.put(
                        at,
                        ResolvedSymbol {
                            name: sym.name.clone(),
                            object_index: Some(obj_idx),
                            section_index: sym.section_index,
                            value: sym.value,
                            size: sym.size,
                            binding: sym.binding,
                        },
                    );
                }
                k += 1;
            }
            obj_idx += 1;
        }
        Ok(())
    }
}

} // verus!
