use whale::linker::layout::Layout;
use whale::linker::linker::{Linker, OutputFormat};
use whale::linker::symbol_table::{ResolvedSymbol, SymbolTable};
use whale::object::elf::write_elf;
use whale::object::{
    ObjectFile, ObjectFormat, ObjectRelocation, ObjectSymbol, RelocKind, SectionKind, SymbolBinding,
    SymbolVisibility,
};

fn symbol(name: &str, section_index: Option<usize>, value: u64, binding: SymbolBinding) -> ObjectSymbol {
    ObjectSymbol {
        name: name.to_string(),
        section_index,
        value,
        size: 3,
        binding,
        visibility: SymbolVisibility::Default,
    }
}

fn u16_at(bytes: &[u8], at: usize) -> u16 {
    u16::from_le_bytes([bytes[at], bytes[at + 1]])
}

fn u32_at(bytes: &[u8], at: usize) -> u32 {
    u32::from_le_bytes([bytes[at], bytes[at + 1], bytes[at + 2], bytes[at + 3]])
}

fn u64_at(bytes: &[u8], at: usize) -> u64 {
    let mut b = [0u8; 8];
    b.copy_from_slice(&bytes[at..at + 8]);
    u64::from_le_bytes(b)
}

#[test]
fn sections_are_added_at_the_end() {
    let mut obj = ObjectFile::new(ObjectFormat::ELF64);
    assert!(obj.sections.is_empty() && obj.symbols.is_empty() && obj.relocations.is_empty());
    assert_eq!(obj.add_section(".text", SectionKind::Text, 16), 0);
    assert_eq!(obj.add_section(".bss", SectionKind::Bss, 8), 1);
    assert_eq!(obj.sections[1].name, ".bss");
    assert_eq!(obj.sections[1].kind, SectionKind::Bss);
    assert_eq!(obj.sections[1].align, 8);
    assert!(obj.sections[1].data.is_empty());
    assert_eq!(obj.sections[0].name, ".text");
}

#[test]
fn empty_object_file_is_a_header_and_four_section_headers() {
    let obj = ObjectFile::new(ObjectFormat::ELF64);
    assert!(obj.can_write());
    let bytes = obj.write().unwrap();
    assert_eq!(&bytes[0..16], &[0x7f, b'E', b'L', b'F', 2, 1, 1, 0, 0, 0, 0, 0, 0, 0, 0, 0]);
    assert_eq!(u16_at(&bytes, 16), 1);
    assert_eq!(u16_at(&bytes, 18), 0x3e);
    assert_eq!(u32_at(&bytes, 20), 1);
    assert_eq!(u64_at(&bytes, 24), 0);
    assert_eq!(u64_at(&bytes, 32), 0);
    assert_eq!(u64_at(&bytes, 40), 64 + 24 + 1 + 27);
    assert_eq!(u32_at(&bytes, 48), 0);
    assert_eq!(u16_at(&bytes, 52), 64);
    assert_eq!(u16_at(&bytes, 54), 0);
    assert_eq!(u16_at(&bytes, 56), 0);
    assert_eq!(u16_at(&bytes, 58), 64);
    assert_eq!(u16_at(&bytes, 60), 4);
    assert_eq!(u16_at(&bytes, 62), 3);
    assert_eq!(&bytes[64..88], &[0u8; 24]);
    assert_eq!(bytes[88], 0);
    assert_eq!(&bytes[89..116], b"\0.symtab\0.strtab\0.shstrtab\0");
    assert_eq!(bytes.len(), 116 + 4 * 64);
}

#[test]
fn object_file_is_laid_out_part_behind_part() {
    let mut obj = ObjectFile::new(ObjectFormat::ELF64);
    let text = obj.add_section(".text", SectionKind::Text, 16);
    obj.sections[text].data = vec![0x90, 0xC3];
    let bss = obj.add_section(".bss", SectionKind::Bss, 4);
    obj.sections[bss].data = vec![0, 0, 0];
    obj.symbols.push(symbol("start", Some(text), 0, SymbolBinding::Global));
    obj.symbols.push(symbol("ext", None, 9, SymbolBinding::Weak));
    obj.relocations.push(ObjectRelocation {
        section_index: text,
        offset: 1,
        symbol: "ext".to_string(),
        addend: -4,
        kind: RelocKind::PLT32,
    });
    obj.relocations.push(ObjectRelocation {
        section_index: 7,
        offset: 0,
        symbol: "start".to_string(),
        addend: 0,
        kind: RelocKind::Absolute64,
    });
    obj.relocations.push(ObjectRelocation {
        section_index: text,
        offset: 0,
        symbol: "nowhere".to_string(),
        addend: 1,
        kind: RelocKind::GOTPCREL,
    });
    assert!(obj.can_write());
    let bytes = write_elf(&obj).unwrap();

    let names = b"\0.text\0.bss\0.symtab\0.strtab\0.rela.text\0.shstrtab\0";
    let strtab = b"\0start\0ext\0";
    let data_at = 64;
    let symtab_at = data_at + 2;
    let strtab_at = symtab_at + 3 * 24;
    let rela_at = strtab_at + strtab.len();
    let names_at = rela_at + 2 * 24;
    let headers_at = names_at + names.len();
    assert_eq!(bytes.len(), headers_at + 7 * 64);
    assert_eq!(u64_at(&bytes, 40), headers_at as u64);
    assert_eq!(u16_at(&bytes, 60), 7);
    assert_eq!(u16_at(&bytes, 62), 6);
    assert_eq!(&bytes[data_at..symtab_at], &[0x90, 0xC3]);
    assert_eq!(&bytes[symtab_at..symtab_at + 24], &[0u8; 24]);
    let s1 = symtab_at + 24;
    assert_eq!(u32_at(&bytes, s1), 1);
    assert_eq!(bytes[s1 + 4], 16);
    assert_eq!(bytes[s1 + 5], 0);
    assert_eq!(u16_at(&bytes, s1 + 6), 1);
    assert_eq!(u64_at(&bytes, s1 + 8), 0);
    assert_eq!(u64_at(&bytes, s1 + 16), 3);
    let s2 = s1 + 24;
    assert_eq!(u32_at(&bytes, s2), 7);
    assert_eq!(bytes[s2 + 4], 32);
    assert_eq!(u16_at(&bytes, s2 + 6), 0);
    assert_eq!(u64_at(&bytes, s2 + 8), 9);
    assert_eq!(&bytes[strtab_at..rela_at], strtab);
    assert_eq!(u64_at(&bytes, rela_at), 1);
    assert_eq!(u64_at(&bytes, rela_at + 8), (2u64 << 32) | 4);
    assert_eq!(u64_at(&bytes, rela_at + 16), (-4i64) as u64);
    assert_eq!(u64_at(&bytes, rela_at + 24), 0);
    assert_eq!(u64_at(&bytes, rela_at + 32), 9);
    assert_eq!(u64_at(&bytes, rela_at + 40), 1);
    assert_eq!(&bytes[names_at..headers_at], names);

    let header = |i: usize| headers_at + i * 64;
    assert_eq!(&bytes[header(0)..header(1)], &[0u8; 64]);
    let h = header(1);
    assert_eq!(u32_at(&bytes, h), 1);
    assert_eq!(u32_at(&bytes, h + 4), 1);
    assert_eq!(u64_at(&bytes, h + 8), 6);
    assert_eq!(u64_at(&bytes, h + 16), 0);
    assert_eq!(u64_at(&bytes, h + 24), 64);
    assert_eq!(u64_at(&bytes, h + 32), 2);
    assert_eq!(u32_at(&bytes, h + 40), 0);
    assert_eq!(u32_at(&bytes, h + 44), 0);
    assert_eq!(u64_at(&bytes, h + 48), 16);
    assert_eq!(u64_at(&bytes, h + 56), 0);
    let h = header(2);
    assert_eq!(u32_at(&bytes, h), 7);
    assert_eq!(u32_at(&bytes, h + 4), 8);
    assert_eq!(u64_at(&bytes, h + 8), 3);
    assert_eq!(u64_at(&bytes, h + 24), 66);
    assert_eq!(u64_at(&bytes, h + 32), 3);
    assert_eq!(u64_at(&bytes, h + 48), 4);
    let h = header(3);
    assert_eq!(u32_at(&bytes, h), 12);
    assert_eq!(u32_at(&bytes, h + 4), 2);
    assert_eq!(u64_at(&bytes, h + 24), symtab_at as u64);
    assert_eq!(u64_at(&bytes, h + 32), 72);
    assert_eq!(u32_at(&bytes, h + 40), 4);
    assert_eq!(u64_at(&bytes, h + 48), 8);
    assert_eq!(u64_at(&bytes, h + 56), 24);
    let h = header(4);
    assert_eq!(u32_at(&bytes, h), 20);
    assert_eq!(u32_at(&bytes, h + 4), 3);
    assert_eq!(u64_at(&bytes, h + 24), strtab_at as u64);
    assert_eq!(u64_at(&bytes, h + 32), strtab.len() as u64);
    assert_eq!(u64_at(&bytes, h + 48), 1);
    let h = header(5);
    assert_eq!(u32_at(&bytes, h), 28);
    assert_eq!(u32_at(&bytes, h + 4), 4);
    assert_eq!(u64_at(&bytes, h + 8), 0x40);
    assert_eq!(u64_at(&bytes, h + 24), rela_at as u64);
    assert_eq!(u64_at(&bytes, h + 32), 48);
    assert_eq!(u32_at(&bytes, h + 40), 3);
    assert_eq!(u32_at(&bytes, h + 44), 1);
    assert_eq!(u64_at(&bytes, h + 48), 8);
    assert_eq!(u64_at(&bytes, h + 56), 24);
    let h = header(6);
    assert_eq!(u32_at(&bytes, h), 39);
    assert_eq!(u32_at(&bytes, h + 4), 3);
    assert_eq!(u64_at(&bytes, h + 24), names_at as u64);
    assert_eq!(u64_at(&bytes, h + 32), names.len() as u64);
    assert_eq!(u64_at(&bytes, h + 48), 1);
}

#[test]
fn symbol_of_a_missing_section_cannot_be_written() {
    let mut obj = ObjectFile::new(ObjectFormat::ELF64);
    obj.symbols.push(symbol("s", Some(0), 0, SymbolBinding::Local));
    assert!(!obj.can_write());
    obj.add_section(".data", SectionKind::Data, 1);
    assert!(obj.can_write());
}

fn object_with(sections: Vec<(u64, usize)>) -> ObjectFile {
    let mut obj = ObjectFile::new(ObjectFormat::ELF64);
    for (align, len) in sections {
        let i = obj.add_section(".s", SectionKind::Data, align);
        obj.sections[i].data = vec![0; len];
    }
    obj
}

#[test]
fn layout_places_sections_at_their_alignment() {
    let objects = vec![object_with(vec![(16, 3), (4, 5), (1, 1)]), object_with(vec![]), object_with(vec![(8, 0), (8, 1)])];
    let layout = Layout::compute(&objects, 0x1001);
    assert_eq!(layout.base_address, 0x1001);
    assert!(layout.section_sizes.is_empty());
    assert_eq!(
        layout.section_offsets,
        vec![vec![0x1010, 0x1014, 0x1019], vec![], vec![0x1020, 0x1020]]
    );
    let none: Vec<ObjectFile> = vec![];
    assert!(Layout::compute(&none, 5).section_offsets.is_empty());
}

#[test]
fn linker_links_to_an_empty_image() {
    let mut linker = Linker::new(OutputFormat::ELF64Executable);
    assert!(linker.objects.is_empty());
    linker.add_object(object_with(vec![(1, 1)]));
    linker.add_object(object_with(vec![]));
    assert_eq!(linker.objects.len(), 2);
    assert_eq!(linker.objects[0].sections.len(), 1);
    assert_eq!(linker.link().unwrap(), Vec::<u8>::new());
    assert_eq!(linker.link_elf64().unwrap(), Vec::<u8>::new());
    assert_eq!(linker.objects.len(), 2);
}

fn object_with_symbols(symbols: Vec<ObjectSymbol>) -> ObjectFile {
    let mut obj = object_with(vec![(1, 1)]);
    obj.symbols = symbols;
    obj
}

fn entry<'a>(table: &'a SymbolTable, name: &str) -> Option<&'a ResolvedSymbol> {
    table.symbols.iter().find(|s| s.name == name)
}

#[test]
fn definitions_are_taken_into_the_table() {
    let objects = vec![
        object_with_symbols(vec![
            symbol("a", Some(0), 1, SymbolBinding::Global),
            symbol("undefined", None, 2, SymbolBinding::Global),
            symbol("w", Some(0), 3, SymbolBinding::Weak),
        ]),
        object_with_symbols(vec![
            symbol("w", Some(0), 4, SymbolBinding::Local),
            symbol("b", Some(0), 5, SymbolBinding::Global),
        ]),
    ];
    let mut table = SymbolTable::new();
    assert!(table.symbols.is_empty());
    table.resolve(&objects).unwrap();
    assert_eq!(table.symbols.len(), 3);
    let a = entry(&table, "a").unwrap();
    assert_eq!((a.object_index, a.section_index, a.value, a.size), (Some(0), Some(0), 1, 3));
    assert_eq!(a.binding, SymbolBinding::Global);
    let w = entry(&table, "w").unwrap();
    assert_eq!((w.object_index, w.value), (Some(1), 4));
    assert_eq!(w.binding, SymbolBinding::Local);
    assert_eq!(entry(&table, "b").unwrap().object_index, Some(1));
    assert!(entry(&table, "undefined").is_none());
}

#[test]
fn second_definition_of_a_global_is_an_error() {
    let objects = vec![
        object_with_symbols(vec![symbol("a", Some(0), 1, SymbolBinding::Weak)]),
        object_with_symbols(vec![
            symbol("first", Some(0), 2, SymbolBinding::Global),
            symbol("a", Some(0), 3, SymbolBinding::Global),
            symbol("late", Some(0), 4, SymbolBinding::Global),
        ]),
    ];
    let mut table = SymbolTable::new();
    assert_eq!(table.resolve(&objects).unwrap_err(), "Duplicate global symbol: a");
    assert_eq!(entry(&table, "a").unwrap().value, 1);
    assert!(entry(&table, "first").is_some());
    assert!(entry(&table, "late").is_none());
}
