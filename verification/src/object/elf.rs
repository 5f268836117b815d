//! The ELF64 relocatable file: what goes where, and the bytes.
//!
//! The file holds, in this order: the file header; the bytes of every
//! section that has bytes in the file; the symbol table; the string table of
//! the symbols; one relocation table for every section that has
//! relocations; the string table of the section names; and the section
//! headers. Every number is written lowest byte first.

use vstd::prelude::*;
use vstd::utf8::encode_utf8;
use crate::bytes::{le_bytes, push_all, push_le, twos_complement, unsigned_form};
use crate::object::object::ObjectFile;
use crate::object::reloc::{ObjectRelocation, RelocKind};
use crate::object::section::{Section, SectionKind};
use crate::object::symbol::{ObjectSymbol, SymbolBinding};

verus! {

/// A section header.
#[derive(Clone, Copy, Debug)]
pub struct Elf64Shdr {
    pub name: u32,
    pub type_: u32,
    pub flags: u64,
    pub addr: u64,
    pub offset: u64,
    pub size: u64,
    pub link: u32,
    pub info: u32,
    pub addralign: u64,
    pub entsize: u64,
}

/// An entry of the symbol table.
#[derive(Clone, Copy, Debug)]
pub struct Elf64Sym {
    pub name: u32,
    pub info: u8,
    pub other: u8,
    pub shndx: u16,
    pub value: u64,
    pub size: u64,
}

/// An entry of a relocation table.
#[derive(Clone, Copy, Debug)]
pub struct Elf64Rela {
    pub offset: u64,
    pub info: u64,
    pub addend: i64,
}

/// The section header with every field zero.
pub open spec fn zero_shdr() -> Elf64Shdr {
    Elf64Shdr {
        name: 0,
        type_: 0,
        flags: 0,
        addr: 0,
        offset: 0,
        size: 0,
        link: 0,
        info: 0,
        addralign: 0,
        entsize: 0,
    }
}

/// The symbol with every field zero.
pub open spec fn zero_sym() -> Elf64Sym {
    Elf64Sym { name: 0, info: 0, other: 0, shndx: 0, value: 0, size: 0 }
}

/// The 64 bytes of a section header.
pub open spec fn shdr_bytes(h: Elf64Shdr) -> Seq<u8> {
    Seq::<u8>::empty() + le_bytes(h.name as nat, 4) + le_bytes(h.type_ as nat, 4) + le_bytes(
        h.flags as nat,
        8,
    ) + le_bytes(h.addr as nat, 8) + le_bytes(h.offset as nat, 8) + le_bytes(h.size as nat, 8)
        + le_bytes(h.link as nat, 4) + le_bytes(h.info as nat, 4) + le_bytes(
        h.addralign as nat,
        8,
    ) + le_bytes(h.entsize as nat, 8)
}

/// The 24 bytes of a symbol.
pub open spec fn sym_bytes(s: Elf64Sym) -> Seq<u8> {
    Seq::<u8>::empty() + le_bytes(s.name as nat, 4) + le_bytes(s.info as nat, 1) + le_bytes(
        s.other as nat,
        1,
    ) + le_bytes(s.shndx as nat, 2) + le_bytes(s.value as nat, 8) + le_bytes(s.size as nat, 8)
}

/// The 24 bytes of a relocation.
pub open spec fn rela_bytes(r: Elf64Rela) -> Seq<u8> {
    Seq::<u8>::empty() + le_bytes(r.offset as nat, 8) + le_bytes(r.info as nat, 8) + le_bytes(
        twos_complement(r.addend as int, 64),
        8,
    )
}

/// The 16 bytes that identify the file: the magic number, 64-bit class,
/// little-endian data, version 1, and padding.
pub open spec fn ident() -> Seq<u8> {
    seq![0x7fu8, 0x45u8, 0x4cu8, 0x46u8, 2u8, 1u8, 1u8, 0u8, 0u8, 0u8, 0u8, 0u8, 0u8, 0u8, 0u8, 0u8]
}

/// The 64 bytes of the file header of a relocatable file for x86-64 with
/// `shnum` section headers at the offset `shoff`, the section names being
/// in section `shstrndx`.
pub open spec fn header_bytes(shoff: u64, shnum: u16, shstrndx: u16) -> Seq<u8> {
    ident() + le_bytes(1, 2) + le_bytes(0x3e, 2) + le_bytes(1, 4) + le_bytes(0, 8) + le_bytes(0, 8)
        + le_bytes(shoff as nat, 8) + le_bytes(0, 4) + le_bytes(64, 2) + le_bytes(0, 2)
        + le_bytes(0, 2) + le_bytes(64, 2) + le_bytes(shnum as nat, 2) + le_bytes(
        shstrndx as nat,
        2,
    )
}

/// The type of the header of a section of the kind `kind`: no bits in the
/// file for uninitialized data, program bits for all else.
pub open spec fn section_type(kind: SectionKind) -> u32 {
    if kind == SectionKind::Bss {
        8
    } else {
        1
    }
}

/// The flags of a section of the kind `kind`.
pub open spec fn section_flags(kind: SectionKind) -> u64 {
    match kind {
        SectionKind::Text => 6,
        SectionKind::Data => 3,
        SectionKind::ReadOnlyData => 2,
        SectionKind::Bss => 3,
    }
}

/// The section names collected so far, the section headers made so far,
/// and the file offset behind what is placed so far.
pub struct Tables {
    pub names: Seq<u8>,
    pub headers: Seq<Elf64Shdr>,
    pub offset: u64,
}

/// The tables after the first `n` sections of the object file: the null
/// header first, then one header for each section, its data placed behind
/// the data before it. The data begins behind the file header.
pub open spec fn with_sections(sections: Seq<Section>, n: int) -> Tables
    decreases n,
{
    if n <= 0 {
        Tables { names: seq![0u8], headers: seq![zero_shdr()], offset: 64 }
    } else {
        let t = with_sections(sections, n - 1);
        let s = sections[n - 1];
        Tables {
            names: t.names + encode_utf8(s.name@) + seq![0u8],
            headers: t.headers.push(
                Elf64Shdr {
                    name: t.names.len() as u32,
                    type_: section_type(s.kind),
                    flags: section_flags(s.kind),
                    addr: 0,
                    offset: t.offset,
                    size: s.data@.len() as u64,
                    link: 0,
                    info: 0,
                    addralign: s.align,
                    entsize: 0,
                },
            ),
            offset: if s.kind != SectionKind::Bss {
                t.offset.wrapping_add(s.data@.len() as u64)
            } else {
                t.offset
            },
        }
    }
}

/// The tables with the headers of the symbol table and of its string table
/// added. The symbol table links to the string table behind it.
pub open spec fn with_symtab(t: Tables) -> Tables {
    let names1 = t.names + encode_utf8(".symtab"@) + seq![0u8];
    Tables {
        names: names1 + encode_utf8(".strtab"@) + seq![0u8],
        headers: t.headers.push(
            Elf64Shdr {
                name: t.names.len() as u32,
                type_: 2,
                link: (t.headers.len() as u32).wrapping_add(1),
                entsize: 24,
                addralign: 8,
                ..zero_shdr()
            },
        ).push(Elf64Shdr { name: names1.len() as u32, type_: 3, addralign: 1, ..zero_shdr() }),
        offset: t.offset,
    }
}

/// Whether a relocation applies to section `sec`.
pub open spec fn has_relocs(relocs: Seq<ObjectRelocation>, sec: int) -> bool {
    exists|k: int| 0 <= k < relocs.len() && (#[trigger] relocs[k]).section_index == sec
}

/// The tables with one relocation header added for every one of the first
/// `n` sections that has relocations. `symtab` is the index of the header
/// of the symbol table.
pub open spec fn with_relas(t: Tables, obj: ObjectFile, n: int, symtab: int) -> Tables
    decreases n,
{
    if n <= 0 {
        t
    } else {
        let p = with_relas(t, obj, n - 1, symtab);
        if has_relocs(obj.relocations@, n - 1) {
            Tables {
                names: p.names + encode_utf8(".rela"@) + encode_utf8(obj.sections@[n - 1].name@)
                    + seq![0u8],
                headers: p.headers.push(
                    Elf64Shdr {
                        name: p.names.len() as u32,
                        type_: 4,
                        flags: 0x40,
                        link: symtab as u32,
                        info: n as u32,
                        addralign: 8,
                        entsize: 24,
                        ..zero_shdr()
                    },
                ),
                offset: p.offset,
            }
        } else {
            p
        }
    }
}

/// The sections among the first `n` that have relocations, in order.
pub open spec fn rela_sections(obj: ObjectFile, n: int) -> Seq<int>
    decreases n,
{
    if n <= 0 {
        Seq::empty()
    } else if has_relocs(obj.relocations@, n - 1) {
        rela_sections(obj, n - 1).push(n - 1)
    } else {
        rela_sections(obj, n - 1)
    }
}

/// The tables with the header of the string table of the section names
/// added.
pub open spec fn with_shstrtab(t: Tables) -> Tables {
    Tables {
        names: t.names + encode_utf8(".shstrtab"@) + seq![0u8],
        headers: t.headers.push(
            Elf64Shdr { name: t.names.len() as u32, type_: 3, addralign: 1, ..zero_shdr() },
        ),
        offset: t.offset,
    }
}

/// The tables of an object file before anything behind the section data is
/// placed.
pub open spec fn planned(obj: ObjectFile) -> Tables {
    let n = obj.sections@.len() as int;
    with_shstrtab(with_relas(with_symtab(with_sections(obj.sections@, n)), obj, n, n + 1))
}

/// The symbol names collected so far and the symbols made so far.
pub struct Symbols {
    pub names: Seq<u8>,
    pub entries: Seq<Elf64Sym>,
}

/// The number of a binding in the high half of the info byte.
pub open spec fn binding_info(b: SymbolBinding) -> u8 {
    match b {
        SymbolBinding::Local => 0,
        SymbolBinding::Global => 16,
        SymbolBinding::Weak => 32,
    }
}

/// The symbols after the first `n` symbols of the object file: the null
/// symbol first. A symbol that section `i` defines names header `i + 1`.
pub open spec fn with_symbols(symbols: Seq<ObjectSymbol>, n: int) -> Symbols
    decreases n,
{
    if n <= 0 {
        Symbols { names: seq![0u8], entries: seq![zero_sym()] }
    } else {
        let t = with_symbols(symbols, n - 1);
        let s = symbols[n - 1];
        Symbols {
            names: t.names + encode_utf8(s.name@) + seq![0u8],
            entries: t.entries.push(
                Elf64Sym {
                    name: t.names.len() as u32,
                    info: binding_info(s.binding),
                    other: 0,
                    shndx: match s.section_index {
                        Some(i) => (i + 1) as u16,
                        None => 0,
                    },
                    value: s.value,
                    size: s.size,
                },
            ),
        }
    }
}

/// The number in the symbol table of the first symbol named `name` at or
/// behind index `from`, or zero where there is none.
pub open spec fn symbol_number(symbols: Seq<ObjectSymbol>, name: Seq<char>, from: int) -> int
    decreases symbols.len() - from,
{
    if from < 0 || from >= symbols.len() {
        0
    } else if symbols[from].name@ == name {
        from + 1
    } else {
        symbol_number(symbols, name, from + 1)
    }
}

/// The relocation type of a kind of relocation on x86-64.
pub open spec fn reloc_type(kind: RelocKind) -> u64 {
    match kind {
        RelocKind::Absolute64 => 1,
        RelocKind::Relative32 => 2,
        RelocKind::GOTPCREL => 9,
        RelocKind::PLT32 => 4,
    }
}

/// The entry for the relocation `r`: the number of its symbol in the high
/// half of the info word and its type in the low half.
pub open spec fn rela_of(symbols: Seq<ObjectSymbol>, r: ObjectRelocation) -> Elf64Rela {
    Elf64Rela {
        offset: r.offset as u64,
        info: ((symbol_number(symbols, r.symbol@, 0) as u64) << 32) | reloc_type(r.kind),
        addend: r.addend,
    }
}

/// The entries for those among the first `n` relocations that apply to
/// section `sec`, in order.
pub open spec fn group(obj: ObjectFile, sec: int, n: int) -> Seq<Elf64Rela>
    decreases n,
{
    if n <= 0 {
        Seq::empty()
    } else if obj.relocations@[n - 1].section_index == sec {
        group(obj, sec, n - 1).push(rela_of(obj.symbols@, obj.relocations@[n - 1]))
    } else {
        group(obj, sec, n - 1)
    }
}

/// The header `h` with offset and size set.
pub open spec fn placed(h: Elf64Shdr, offset: u64, size: u64) -> Elf64Shdr {
    Elf64Shdr { offset, size, ..h }
}

/// The size in bytes of a table of `n` entries of 24 bytes.
pub open spec fn table_size(n: nat) -> u64 {
    ((n as usize).wrapping_mul(24)) as u64
}

/// The headers and the file offset after the first `k` relocation tables
/// were placed one behind the other, the first at `start`. The header of
/// table `k` stands at index `base + k`.
pub open spec fn place_relas(
    headers: Seq<Elf64Shdr>,
    obj: ObjectFile,
    secs: Seq<int>,
    k: int,
    base: int,
    start: u64,
) -> (Seq<Elf64Shdr>, u64)
    decreases k,
{
    if k <= 0 {
        (headers, start)
    } else {
        let p = place_relas(headers, obj, secs, k - 1, base, start);
        let size = table_size(group(obj, secs[k - 1], obj.relocations@.len() as int).len());
        (
            p.0.update(base + k - 1, placed(p.0[base + k - 1], p.1, size)),
            p.1.wrapping_add(size),
        )
    }
}

/// The final section headers of an object file and the offset at which
/// they stand in the file.
pub open spec fn final_headers(obj: ObjectFile) -> (Seq<Elf64Shdr>, u64) {
    let n = obj.sections@.len() as int;
    let t = planned(obj);
    let syms = with_symbols(obj.symbols@, obj.symbols@.len() as int);
    let secs = rela_sections(obj, n);
    let symtab = n + 1;
    let shstr = t.headers.len() - 1;
    let symtab_size = table_size(syms.entries.len());
    let h1 = t.headers.update(symtab, placed(t.headers[symtab], t.offset, symtab_size));
    let o1 = t.offset.wrapping_add(symtab_size);
    let strtab_size = syms.names.len() as u64;
    let h2 = h1.update(symtab + 1, placed(h1[symtab + 1], o1, strtab_size));
    let o2 = o1.wrapping_add(strtab_size);
    let p = place_relas(h2, obj, secs, secs.len() as int, symtab + 2, o2);
    let names_size = t.names.len() as u64;
    let h3 = p.0.update(shstr, placed(p.0[shstr], p.1, names_size));
    (h3, p.1.wrapping_add(names_size))
}

/// `acc` followed by the bytes of those among the first `n` sections that
/// have bytes in the file.
pub open spec fn with_data(acc: Seq<u8>, sections: Seq<Section>, n: int) -> Seq<u8>
    decreases n,
{
    if n <= 0 {
        acc
    } else if sections[n - 1].kind != SectionKind::Bss {
        with_data(acc, sections, n - 1) + sections[n - 1].data@
    } else {
        with_data(acc, sections, n - 1)
    }
}

/// `acc` followed by the bytes of the first `n` symbols.
pub open spec fn with_syms(acc: Seq<u8>, entries: Seq<Elf64Sym>, n: int) -> Seq<u8>
    decreases n,
{
    if n <= 0 {
        acc
    } else {
        with_syms(acc, entries, n - 1) + sym_bytes(entries[n - 1])
    }
}

/// `acc` followed by the bytes of the first `n` relocations of a table.
pub open spec fn with_entries(acc: Seq<u8>, entries: Seq<Elf64Rela>, n: int) -> Seq<u8>
    decreases n,
{
    if n <= 0 {
        acc
    } else {
        with_entries(acc, entries, n - 1) + rela_bytes(entries[n - 1])
    }
}

/// `acc` followed by the first `k` relocation tables.
pub open spec fn with_groups(acc: Seq<u8>, obj: ObjectFile, secs: Seq<int>, k: int) -> Seq<u8>
    decreases k,
{
    if k <= 0 {
        acc
    } else {
        let g = group(obj, secs[k - 1], obj.relocations@.len() as int);
        with_entries(with_groups(acc, obj, secs, k - 1), g, g.len() as int)
    }
}

/// `acc` followed by the bytes of the first `n` section headers.
pub open spec fn with_shdrs(acc: Seq<u8>, headers: Seq<Elf64Shdr>, n: int) -> Seq<u8>
    decreases n,
{
    if n <= 0 {
        acc
    } else {
        with_shdrs(acc, headers, n - 1) + shdr_bytes(headers[n - 1])
    }
}

/// The bytes of the ELF64 relocatable file for an object file.
pub open spec fn elf_bytes(obj: ObjectFile) -> Seq<u8> {
    let n = obj.sections@.len() as int;
    let t = planned(obj);
    let syms = with_symbols(obj.symbols@, obj.symbols@.len() as int);
    let secs = rela_sections(obj, n);
    let fin = final_headers(obj);
    let head = header_bytes(fin.1, fin.0.len() as u16, (fin.0.len() - 1) as u16);
    let data = with_data(head, obj.sections@, n);
    let symtab = with_syms(data, syms.entries, syms.entries.len() as int);
    let relas = with_groups(symtab + syms.names, obj, secs, secs.len() as int);
    with_shdrs(relas + t.names, fin.0, fin.0.len() as int)
}

/// Every symbol that a section defines names a section of the object
/// file.
pub open spec fn symbols_in_range(obj: ObjectFile) -> bool {
    forall|k: int|
        0 <= k < obj.symbols@.len() ==> ((#[trigger] obj.symbols@[k]).section_index matches Some(i)
            ==> i < obj.sections@.len())
}

/// The tables in executable form.
struct Plan {
    names: Vec<u8>,
    headers: Vec<Elf64Shdr>,
    offset: u64,
}

impl Plan {
    /// The mathematical value of the plan.
    spec fn tables(&self) -> Tables {
        Tables { names: self.names@, headers: self.headers@, offset: self.offset }
    }
}

/// The section header with every field zero.
fn blank() -> (h: Elf64Shdr)
    ensures
        h == zero_shdr(),
{
    Elf64Shdr {
        name: 0,
        type_: 0,
        flags: 0,
        addr: 0,
        offset: 0,
        size: 0,
        link: 0,
        info: 0,
        addralign: 0,
        entsize: 0,
    }
}

/// Appends the bytes of `name` and a zero byte.
fn push_name(out: &mut Vec<u8>, name: &str)
    ensures
        final(out)@ == old(out)@ + encode_utf8(name@) + seq![0u8],
{
    push_all(out, name.as_bytes());
    out.push(0);
    assert(out@ =~= old(out)@ + encode_utf8(name@) + seq![0u8]);
}

/// Plans the sections of the object file.
fn plan_sections(obj: &ObjectFile) -> (p: Plan)
    ensures
        p.tables() == with_sections(obj.sections@, obj.sections@.len() as int),
        p.headers@.len() == obj.sections@.len() + 1,
{
    let mut names: Vec<u8> = Vec::new();
    names.push(0);
    let mut headers: Vec<Elf64Shdr> = Vec::new();
    headers.push(blank());
    let mut p = Plan { names, headers, offset: 64 };
    assert(p.names@ =~= seq![0u8]);
    assert(p.headers@ =~= seq![zero_shdr()]);
    let mut i: usize = 0;
    while i < obj.sections.len()
        invariant
            i <= obj.sections@.len(),
            p.tables() == with_sections(obj.sections@, i as int),
            p.headers@.len() == i + 1,
        decreases obj.sections@.len() - i,
    {
        let section = &obj.sections[i];
        let name_idx = #[verifier::truncate]
        (p.names.len() as u32);
        push_name(&mut p.names, section.name.as_str());
        let type_: u32 = match section.kind {
            SectionKind::Bss => 8,
            _ => 1,
        };
        let flags: u64 = match section.kind {
            SectionKind::Text => 6,
            SectionKind::Data => 3,
            SectionKind::ReadOnlyData => 2,
            SectionKind::Bss => 3,
        };
        p.headers.push(
            Elf64Shdr {
                name: name_idx,
                type_,
                flags,
                addr: 0,
                offset: p.offset,
                size: section.data.len() as u64,
                link: 0,
                info: 0,
                addralign: section.align,
                entsize: 0,
            },
        );
        match section.kind {
            SectionKind::Bss => {},
            _ => {
                p.offset = p.offset.wrapping_add(section.data.len() as u64);
            },
        }
        i += 1;
    }
    p
}

/// Adds the headers of the symbol table and of its string table.
fn add_symtab(p: &mut Plan)
    ensures
        final(p).tables() == with_symtab(old(p).tables()),
{
    let symtab_name = #[verifier::truncate]
    (p.names.len() as u32);
    let link = (#[verifier::truncate]
    (p.headers.len() as u32)).wrapping_add(1);
    push_name(&mut p.names, ".symtab");
    let mut symtab = blank();
    symtab.name = symtab_name;
    symtab.type_ = 2;
    symtab.link = link;
    symtab.entsize = 24;
    symtab.addralign = 8;
    p.headers.push(symtab);
    let strtab_name = #[verifier::truncate]
    (p.names.len() as u32);
    push_name(&mut p.names, ".strtab");
    let mut strtab = blank();
    strtab.name = strtab_name;
    strtab.type_ = 3;
    strtab.addralign = 1;
    p.headers.push(strtab);
}

/// Whether a relocation applies to section `sec`.
fn section_has_relocs(obj: &ObjectFile, sec: usize) -> (r: bool)
    ensures
        r == has_relocs(obj.relocations@, sec as int),
{
    let mut k: usize = 0;
    while k < obj.relocations.len()
        invariant
            k <= obj.relocations@.len(),
            forall|j: int| 0 <= j < k ==> (#[trigger] obj.relocations@[j]).section_index != sec,
        decreases obj.relocations@.len() - k,
    {
        if obj.relocations[k].section_index == sec {
            return true;
        }
        k += 1;
    }
    false
}

/// Adds one relocation header for every section that has relocations, and
/// gives those sections.
fn add_relas(p: &mut Plan, obj: &ObjectFile, symtab: usize) -> (secs: Vec<usize>)
    ensures
        final(p).tables() == with_relas(
            old(p).tables(),
            *obj,
            obj.sections@.len() as int,
            symtab as int,
        ),
        secs@.len() == rela_sections(*obj, obj.sections@.len() as int).len(),
        forall|k: int|
            0 <= k < secs@.len() ==> #[trigger] secs@[k] == rela_sections(
                *obj,
                obj.sections@.len() as int,
            )[k] && secs@[k] < obj.sections@.len(),
        final(p).headers@.len() == old(p).headers@.len() + secs@.len(),
{
    let mut secs: Vec<usize> = Vec::new();
    let mut i: usize = 0;
    while i < obj.sections.len()
        invariant
            i <= obj.sections@.len(),
            p.tables() == with_relas(old(p).tables(), *obj, i as int, symtab as int),
            secs@.len() == rela_sections(*obj, i as int).len(),
            forall|k: int|
                0 <= k < secs@.len() ==> #[trigger] secs@[k] == rela_sections(*obj, i as int)[k]
                    && secs@[k] < obj.sections@.len(),
            p.headers@.len() == old(p).headers@.len() + secs@.len(),
        decreases obj.sections@.len() - i,
    {
        if section_has_relocs(obj, i) {
            let name_idx = #[verifier::truncate]
            (p.names.len() as u32);
            push_all(&mut p.names, ".rela".as_bytes());
            push_name(&mut p.names, obj.sections[i].name.as_str());
            let mut h = blank();
            h.name = name_idx;
            h.type_ = 4;
            h.flags = 0x40;
            h.link = #[verifier::truncate]
            (symtab as u32);
            h.info = #[verifier::truncate]
            ((i + 1) as u32);
            h.addralign = 8;
            h.entsize = 24;
            p.headers.push(h);
            secs.push(i);
            proof {
                assert(p.names@ =~= with_relas(
                    old(p).tables(),
                    *obj,
                    i + 1,
                    symtab as int,
                ).names);
            }
        }
        i += 1;
    }
    secs
}

/// Adds the header of the string table of the section names.
fn add_shstrtab(p: &mut Plan)
    ensures
        final(p).tables() == with_shstrtab(old(p).tables()),
{
    let name = #[verifier::truncate]
    (p.names.len() as u32);
    push_name(&mut p.names, ".shstrtab");
    let mut h = blank();
    h.name = name;
    h.type_ = 3;
    h.addralign = 1;
    p.headers.push(h);
}

/// Makes the symbol table and its string table.
fn build_symbols(obj: &ObjectFile) -> (r: (Vec<u8>, Vec<Elf64Sym>))
    requires
        symbols_in_range(*obj),
    ensures
        r.0@ == with_symbols(obj.symbols@, obj.symbols@.len() as int).names,
        r.1@ == with_symbols(obj.symbols@, obj.symbols@.len() as int).entries,
{
    let mut names: Vec<u8> = Vec::new();
    names.push(0);
    let mut entries: Vec<Elf64Sym> = Vec::new();
    entries.push(Elf64Sym { name: 0, info: 0, other: 0, shndx: 0, value: 0, size: 0 });
    assert(names@ =~= seq![0u8]);
    assert(entries@ =~= seq![zero_sym()]);
    let count = obj.sections.len();
    let mut i: usize = 0;
    while i < obj.symbols.len()
        invariant
            i <= obj.symbols@.len(),
            count == obj.sections@.len(),
            symbols_in_range(*obj),
            names@ == with_symbols(obj.symbols@, i as int).names,
            entries@ == with_symbols(obj.symbols@, i as int).entries,
        decreases obj.symbols@.len() - i,
    {
        let s = &obj.symbols[i];
        let name_idx = #[verifier::truncate]
        (names.len() as u32);
        push_name(&mut names, s.name.as_str());
        let info: u8 = match s.binding {
            SymbolBinding::Local => 0,
            SymbolBinding::Global => 16,
            SymbolBinding::Weak => 32,
        };
        let shndx: u16 = match s.section_index {
            Some(k) => {
                assert(k < obj.sections@.len());
                #[verifier::truncate]
                ((k + 1) as u16)
            },
            None => 0,
        };
        entries.push(
            Elf64Sym { name: name_idx, info, other: 0, shndx, value: s.value, size: s.size },
        );
        i += 1;
    }
    (names, entries)
}

/// The number in the symbol table of the first symbol named `name`, or
/// zero.
fn find_symbol(obj: &ObjectFile, name: &String) -> (r: usize)
    ensures
        r == symbol_number(obj.symbols@, name@, 0),
{
    let mut i: usize = 0;
    while i < obj.symbols.len()
        invariant
            i <= obj.symbols@.len(),
            symbol_number(obj.symbols@, name@, 0) == symbol_number(obj.symbols@, name@, i as int),
        decreases obj.symbols@.len() - i,
    {
        if obj.symbols[i].name == *name {
            return i + 1;
        }
        i += 1;
    }
    0
}

/// Makes the relocation table of section `sec`.
fn build_group(obj: &ObjectFile, sec: usize) -> (r: Vec<Elf64Rela>)
    ensures
        r@ == group(*obj, sec as int, obj.relocations@.len() as int),
{
    let mut entries: Vec<Elf64Rela> = Vec::new();
    let mut k: usize = 0;
    assert(entries@ =~= group(*obj, sec as int, 0));
    while k < obj.relocations.len()
        invariant
            k <= obj.relocations@.len(),
            entries@ == group(*obj, sec as int, k as int),
        decreases obj.relocations@.len() - k,
    {
        let r = &obj.relocations[k];
        if r.section_index == sec {
            let sym_idx = find_symbol(obj, &r.symbol);
            let type_: u64 = match r.kind {
                RelocKind::Absolute64 => 1,
                RelocKind::Relative32 => 2,
                RelocKind::GOTPCREL => 9,
                RelocKind::PLT32 => 4,
            };
            entries.push(
                Elf64Rela {
                    offset: r.offset as u64,
                    info: ((sym_idx as u64) << 32) | type_,
                    addend: r.addend,
                },
            );
        }
        k += 1;
    }
    entries
}

/// The bytes of a section header.
fn shdr_to_bytes(h: &Elf64Shdr) -> (r: Vec<u8>)
    ensures
        r@ == shdr_bytes(*h),
{
    let mut r: Vec<u8> = Vec::new();
    assert(r@ =~= Seq::<u8>::empty());
    push_le(&mut r, h.name as u64, 4);
    push_le(&mut r, h.type_ as u64, 4);
    push_le(&mut r, h.flags, 8);
    push_le(&mut r, h.addr, 8);
    push_le(&mut r, h.offset, 8);
    push_le(&mut r, h.size, 8);
    push_le(&mut r, h.link as u64, 4);
    push_le(&mut r, h.info as u64, 4);
    push_le(&mut r, h.addralign, 8);
    push_le(&mut r, h.entsize, 8);
    r
}

/// The bytes of a symbol.
fn sym_to_bytes(s: &Elf64Sym) -> (r: Vec<u8>)
    ensures
        r@ == sym_bytes(*s),
{
    let mut r: Vec<u8> = Vec::new();
    assert(r@ =~= Seq::<u8>::empty());
    push_le(&mut r, s.name as u64, 4);
    push_le(&mut r, s.info as u64, 1);
    push_le(&mut r, s.other as u64, 1);
    push_le(&mut r, s.shndx as u64, 2);
    push_le(&mut r, s.value, 8);
    push_le(&mut r, s.size, 8);
    r
}

/// The bytes of a relocation.
fn rela_to_bytes(e: &Elf64Rela) -> (r: Vec<u8>)
    ensures
        r@ == rela_bytes(*e),
{
    let mut r: Vec<u8> = Vec::new();
    assert(r@ =~= Seq::<u8>::empty());
    push_le(&mut r, e.offset, 8);
    push_le(&mut r, e.info, 8);
    push_le(&mut r, unsigned_form(e.addend, 64), 8);
    r
}

/// The bytes of the file header.
fn header_to_bytes(shoff: u64, shnum: u16, shstrndx: u16) -> (r: Vec<u8>)
    ensures
        r@ == header_bytes(shoff, shnum, shstrndx),
{
    let mut r: Vec<u8> = Vec::new();
    r.push(0x7f);
    r.push(0x45);
    r.push(0x4c);
    r.push(0x46);
    r.push(2);
    r.push(1);
    r.push(1);
    r.push(0);
    r.push(0);
    r.push(0);
    r.push(0);
    r.push(0);
    r.push(0);
    r.push(0);
    r.push(0);
    r.push(0);
    assert(r@ =~= ident());
    push_le(&mut r, 1, 2);
    push_le(&mut r, 0x3e, 2);
    push_le(&mut r, 1, 4);
    push_le(&mut r, 0, 8);
    push_le(&mut r, 0, 8);
    push_le(&mut r, shoff, 8);
    push_le(&mut r, 0, 4);
    push_le(&mut r, 64, 2);
    push_le(&mut r, 0, 2);
    push_le(&mut r, 0, 2);
    push_le(&mut r, 64, 2);
    push_le(&mut r, shnum as u64, 2);
    push_le(&mut r, shstrndx as u64, 2);
    r
}

/// Sets the offset and the size of the header at `index`.
fn place(headers: &mut Vec<Elf64Shdr>, index: usize, offset: u64, size: u64)
    requires
        index < old(headers)@.len(),
    ensures
        final(headers)@ == old(headers)@.update(
            index as int,
            placed(old(headers)@[index as int], offset, size),
        ),
{
    let mut h = headers[index];
    h.offset = offset;
    h.size = size;
    headers.set(index, h);
}

/// Writes an object file as an ELF64 relocatable file for x86-64. Every
/// symbol that a section defines must name a section of the object file.
/// Offsets and sizes wrap at 64 bits.
pub fn write_elf(obj: &ObjectFile) -> (r: Result<Vec<u8>, String>)
    requires
        symbols_in_range(*obj),
    ensures
        r is Ok,
        r->Ok_0@ == elf_bytes(*obj),
{
    let n = obj.sections.len();
    let mut p = plan_sections(obj);
    let symtab = p.headers.len();
    add_symtab(&mut p);
    let secs = add_relas(&mut p, obj, symtab);
    add_shstrtab(&mut p);
    let shstr = p.headers.len() - 1;
    proof {
        assert(p.tables() == planned(*obj));
    }
    let (strtab, syms) = build_symbols(obj);
    let ghost t = planned(*obj);
    let ghost want_secs = rela_sections(*obj, n as int);
    let mut headers = p.headers;
    let names = p.names;
    let mut offset = p.offset;
    let symtab_size = (syms.len().wrapping_mul(24)) as u64;
    place(&mut headers, symtab, offset, symtab_size);
    offset = offset.wrapping_add(symtab_size);
    let strtab_size = strtab.len() as u64;
    place(&mut headers, symtab + 1, offset, strtab_size);
    offset = offset.wrapping_add(strtab_size);
    let ghost h2 = headers@;
    let ghost o2 = offset;
    let mut groups: Vec<Vec<Elf64Rela>> = Vec::new();
    let total = headers.len();
    let mut k: usize = 0;
    while k < secs.len()
        invariant
            k <= secs@.len(),
            total == headers@.len(),
            secs@.len() == want_secs.len(),
            want_secs == rela_sections(*obj, n as int),
            n == obj.sections@.len(),
            forall|j: int|
                0 <= j < secs@.len() ==> #[trigger] secs@[j] == want_secs[j] && secs@[j] < n,
            symtab == n + 1,
            headers@.len() == symtab + 2 + secs@.len() + 1,
            headers@.len() == h2.len(),
            (headers@, offset) == place_relas(h2, *obj, want_secs, k as int, symtab + 2, o2),
            groups@.len() == k,
            forall|j: int|
                0 <= j < k ==> (#[trigger] groups@[j])@ == group(
                    *obj,
                    want_secs[j],
                    obj.relocations@.len() as int,
                ),
        decreases secs@.len() - k,
    {
        let g = build_group(obj, secs[k]);
        let size = (g.len().wrapping_mul(24)) as u64;
        place(&mut headers, symtab + 2 + k, offset, size);
        offset = offset.wrapping_add(size);
        groups.push(g);
        k += 1;
    }
    let names_size = names.len() as u64;
    place(&mut headers, shstr, offset, names_size);
    offset = offset.wrapping_add(names_size);
    proof {
        assert((headers@, offset) == final_headers(*obj));
    }
    let shnum = #[verifier::truncate]
    (headers.len() as u16);
    let shstrndx = #[verifier::truncate]
    (shstr as u16);
    let mut out = header_to_bytes(offset, shnum, shstrndx);
    let ghost head = out@;
    let mut i: usize = 0;
    while i < obj.sections.len()
        invariant
            i <= obj.sections@.len(),
            out@ == with_data(head, obj.sections@, i as int),
        decreases obj.sections@.len() - i,
    {
        match obj.sections[i].kind {
            SectionKind::Bss => {},
            _ => {
                push_all(&mut out, obj.sections[i].data.as_slice());
            },
        }
        i += 1;
    }
    let ghost data = out@;
    let mut i: usize = 0;
    while i < syms.len()
        invariant
            i <= syms@.len(),
            out@ == with_syms(data, syms@, i as int),
        decreases syms@.len() - i,
    {
        let b = sym_to_bytes(&syms[i]);
        push_all(&mut out, b.as_slice());
        i += 1;
    }
    push_all(&mut out, strtab.as_slice());
    let ghost before_relas = out@;
    let mut k: usize = 0;
    while k < groups.len()
        invariant
            k <= groups@.len(),
            groups@.len() == want_secs.len(),
            forall|j: int|
                0 <= j < groups@.len() ==> (#[trigger] groups@[j])@ == group(
                    *obj,
                    want_secs[j],
                    obj.relocations@.len() as int,
                ),
            out@ == with_groups(before_relas, *obj, want_secs, k as int),
        decreases groups@.len() - k,
    {
        let g = &groups[k];
        let ghost start = out@;
        let mut j: usize = 0;
        while j < g.len()
            invariant
                j <= g@.len(),
                out@ == with_entries(start, g@, j as int),
            decreases g@.len() - j,
        {
            let b = rela_to_bytes(&g[j]);
            push_all(&mut out, b.as_slice());
            j += 1;
        }
        k += 1;
    }
    push_all(&mut out, names.as_slice());
    let ghost before_headers = out@;
    let mut i: usize = 0;
    while i < headers.len()
        invariant
            i <= headers@.len(),
            out@ == with_shdrs(before_headers, headers@, i as int),
        decreases headers@.len() - i,
    {
        let b = shdr_to_bytes(&headers[i]);
        push_all(&mut out, b.as_slice());
        i += 1;
    }
    Ok(out)
}

/// What begins one sequence of bytes and is followed by more begins the
/// longer sequence.
pub proof fn lemma_begins_longer(p: Seq<u8>, a: Seq<u8>, b: Seq<u8>)
    requires
        p.is_prefix_of(a),
    ensures
        p.is_prefix_of(a + b),
{
    assert(p =~= (a + b).subrange(0, p.len() as int)) by {
        assert(p =~= a.subrange(0, p.len() as int));
    }
}

/// The bytes of sections are added behind what was there.
pub proof fn lemma_data_follows(p: Seq<u8>, acc: Seq<u8>, sections: Seq<Section>, n: int)
    requires
        p.is_prefix_of(acc),
    ensures
        p.is_prefix_of(with_data(acc, sections, n)),
    decreases n,
{
    if n > 0 {
        lemma_data_follows(p, acc, sections, n - 1);
        if sections[n - 1].kind != SectionKind::Bss {
            lemma_begins_longer(p, with_data(acc, sections, n - 1), sections[n - 1].data@);
        }
    }
}

/// The bytes of symbols are added behind what was there.
pub proof fn lemma_syms_follow(p: Seq<u8>, acc: Seq<u8>, entries: Seq<Elf64Sym>, n: int)
    requires
        p.is_prefix_of(acc),
    ensures
        p.is_prefix_of(with_syms(acc, entries, n)),
    decreases n,
{
    if n > 0 {
        lemma_syms_follow(p, acc, entries, n - 1);
        lemma_begins_longer(p, with_syms(acc, entries, n - 1), sym_bytes(entries[n - 1]));
    }
}

/// The bytes of relocations are added behind what was there.
pub proof fn lemma_entries_follow(p: Seq<u8>, acc: Seq<u8>, entries: Seq<Elf64Rela>, n: int)
    requires
        p.is_prefix_of(acc),
    ensures
        p.is_prefix_of(with_entries(acc, entries, n)),
    decreases n,
{
    if n > 0 {
        lemma_entries_follow(p, acc, entries, n - 1);
        lemma_begins_longer(p, with_entries(acc, entries, n - 1), rela_bytes(entries[n - 1]));
    }
}

/// Relocation tables are added behind what was there.
pub proof fn lemma_groups_follow(p: Seq<u8>, acc: Seq<u8>, obj: ObjectFile, secs: Seq<int>, k: int)
    requires
        p.is_prefix_of(acc),
    ensures
        p.is_prefix_of(with_groups(acc, obj, secs, k)),
    decreases k,
{
    if k > 0 {
        lemma_groups_follow(p, acc, obj, secs, k - 1);
        let g = group(obj, secs[k - 1], obj.relocations@.len() as int);
        lemma_entries_follow(p, with_groups(acc, obj, secs, k - 1), g, g.len() as int);
    }
}

/// The bytes of section headers are added behind what was there.
pub proof fn lemma_shdrs_follow(p: Seq<u8>, acc: Seq<u8>, headers: Seq<Elf64Shdr>, n: int)
    requires
        p.is_prefix_of(acc),
    ensures
        p.is_prefix_of(with_shdrs(acc, headers, n)),
    decreases n,
{
    if n > 0 {
        lemma_shdrs_follow(p, acc, headers, n - 1);
        lemma_begins_longer(p, with_shdrs(acc, headers, n - 1), shdr_bytes(headers[n - 1]));
    }
}

/// The file header has 64 bytes and begins with the bytes that identify
/// the file.
pub proof fn lemma_header_is_64_bytes(shoff: u64, shnum: u16, shstrndx: u16)
    ensures
        header_bytes(shoff, shnum, shstrndx).len() == 64,
        ident().is_prefix_of(header_bytes(shoff, shnum, shstrndx)),
{
    assert(ident() =~= header_bytes(shoff, shnum, shstrndx).subrange(0, 16));
}

/// Every file that is written begins with its file header, and so with
/// the magic number `7f 45 4c 46`: whatever the object file holds, the
/// sections, tables and section headers come behind the 64 bytes of the
/// header.
pub proof fn lemma_file_begins_with_its_header(obj: ObjectFile)
    ensures
        ({
            let fin = final_headers(obj);
            header_bytes(fin.1, fin.0.len() as u16, (fin.0.len() - 1) as u16).is_prefix_of(
                elf_bytes(obj),
            )
        }),
        elf_bytes(obj).len() >= 64,
        elf_bytes(obj)[0] == 0x7f,
        elf_bytes(obj)[1] == 0x45,
        elf_bytes(obj)[2] == 0x4c,
        elf_bytes(obj)[3] == 0x46,
{
    let n = obj.sections@.len() as int;
    let t = planned(obj);
    let syms = with_symbols(obj.symbols@, obj.symbols@.len() as int);
    let secs = rela_sections(obj, n);
    let fin = final_headers(obj);
    let head = header_bytes(fin.1, fin.0.len() as u16, (fin.0.len() - 1) as u16);
    lemma_header_is_64_bytes(fin.1, fin.0.len() as u16, (fin.0.len() - 1) as u16);
    assert(head.is_prefix_of(head));
    lemma_data_follows(head, head, obj.sections@, n);
    let data = with_data(head, obj.sections@, n);
    lemma_syms_follow(head, data, syms.entries, syms.entries.len() as int);
    let symtab = with_syms(data, syms.entries, syms.entries.len() as int);
    lemma_begins_longer(head, symtab, syms.names);
    lemma_groups_follow(head, symtab + syms.names, obj, secs, secs.len() as int);
    let relas = with_groups(symtab + syms.names, obj, secs, secs.len() as int);
    lemma_begins_longer(head, relas, t.names);
    lemma_shdrs_follow(head, relas + t.names, fin.0, fin.0.len() as int);
    let all = elf_bytes(obj);
    assert(head =~= all.subrange(0, 64));
    assert(all[0] == head[0] && all[1] == head[1] && all[2] == head[2] && all[3] == head[3]) by {
        assert(all.subrange(0, 64)[0] == all[0]);
        assert(all.subrange(0, 64)[1] == all[1]);
        assert(all.subrange(0, 64)[2] == all[2]);
        assert(all.subrange(0, 64)[3] == all[3]);
    }
    assert(head[0] == ident()[0] && head[1] == ident()[1] && head[2] == ident()[2] && head[3]
        == ident()[3]) by {
        assert(ident() =~= head.subrange(0, 16));
        assert(head.subrange(0, 16)[0] == head[0]);
        assert(head.subrange(0, 16)[1] == head[1]);
        assert(head.subrange(0, 16)[2] == head[2]);
        assert(head.subrange(0, 16)[3] == head[3]);
    }
}

} // verus!
