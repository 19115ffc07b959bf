use cold::model::ObjectFile;
use cold::opt::{parse_opts, Opt};
use cold::pipeline::link;
use object::read::elf::{Dyn, ElfFile64, FileHeader, ProgramHeader};
use object::write::{Object as Writable, Relocation, StandardSection, Symbol, SymbolSection};
use object::{
    elf, Architecture, BinaryFormat, Endianness, Object, ObjectSection, ObjectSymbol,
    RelocationEncoding, RelocationFlags, RelocationKind, SymbolFlags, SymbolKind, SymbolScope,
};

const EXIT_42: [u8; 12] = [0xb8, 0x3c, 0x00, 0x00, 0x00, 0xbf, 0x2a, 0x00, 0x00, 0x00, 0x0f, 0x05];

fn options(list: &[&str]) -> Opt {
    parse_opts(&list.iter().map(|s| s.to_string()).collect()).unwrap()
}

fn file(name: &str, content: Vec<u8>) -> ObjectFile {
    ObjectFile { name: name.to_string(), as_needed: false, content }
}

fn relocatable() -> Writable<'static> {
    Writable::new(BinaryFormat::Elf, Architecture::X86_64, Endianness::Little)
}

fn global(name: &str, value: u64, section: object::write::SectionId) -> Symbol {
    Symbol {
        name: name.as_bytes().to_vec(),
        value,
        size: 0,
        kind: SymbolKind::Text,
        scope: SymbolScope::Dynamic,
        weak: false,
        section: SymbolSection::Section(section),
        flags: SymbolFlags::None,
    }
}

fn undefined(name: &str) -> Symbol {
    Symbol {
        name: name.as_bytes().to_vec(),
        value: 0,
        size: 0,
        kind: SymbolKind::Text,
        scope: SymbolScope::Dynamic,
        weak: false,
        section: SymbolSection::Undefined,
        flags: SymbolFlags::None,
    }
}

fn branch(offset: u64, symbol: object::write::SymbolId) -> Relocation {
    Relocation {
        offset,
        symbol,
        addend: -4,
        flags: RelocationFlags::Generic {
            kind: RelocationKind::PltRelative,
            encoding: RelocationEncoding::Generic,
            size: 32,
        },
    }
}

/// An object that defines `_start` at the start of `.text`, with the given
/// code.
fn start_object(code: &[u8]) -> Vec<u8> {
    let mut object = relocatable();
    let text = object.section_id(StandardSection::Text);
    object.append_section_data(text, code, 1);
    object.add_symbol(global("_start", 0, text));
    object.write().unwrap()
}

/// An object whose `_start` calls `callee`, which it does not define.
fn caller_object(callee: &str) -> Vec<u8> {
    let mut object = relocatable();
    let text = object.section_id(StandardSection::Text);
    let mut code = vec![0xe8, 0, 0, 0, 0];
    code.extend_from_slice(&[0x90; 11]);
    object.append_section_data(text, &code, 1);
    object.add_symbol(global("_start", 0, text));
    let callee = object.add_symbol(undefined(callee));
    object.add_relocation(text, branch(1, callee)).unwrap();
    object.write().unwrap()
}

/// An object that defines `name` at the start of `.text`, which is one
/// return instruction.
fn callee_object(name: &str) -> Vec<u8> {
    let mut object = relocatable();
    let text = object.section_id(StandardSection::Text);
    object.append_section_data(text, &[0xc3], 1);
    object.add_symbol(global(name, 0, text));
    object.write().unwrap()
}

/// A shared object, linked here, that exports `name`.
fn shared_object(name: &str, soname: &str) -> Vec<u8> {
    let opt = options(&["-shared", "-soname", soname, "-o", soname, "callee.o"]);
    link(&opt, &vec![file("callee.o", callee_object(name))]).unwrap()
}

fn section_data(bytes: &[u8], name: &str) -> Vec<u8> {
    let parsed = object::File::parse(bytes).unwrap();
    parsed.section_by_name(name).unwrap().data().unwrap().to_vec()
}

fn section_address(bytes: &[u8], name: &str) -> u64 {
    let parsed = object::File::parse(bytes).unwrap();
    parsed.section_by_name(name).unwrap().address()
}

fn has_section(bytes: &[u8], name: &str) -> bool {
    object::File::parse(bytes).unwrap().section_by_name(name).is_some()
}

fn segment_types(bytes: &[u8]) -> Vec<u32> {
    let parsed = ElfFile64::<Endianness>::parse(bytes).unwrap();
    parsed.elf_program_headers().iter().map(|h| h.p_type(Endianness::Little)).collect()
}

/// The entries of the dynamic table, as tags and values.
fn dynamic_entries(bytes: &[u8]) -> Vec<(u32, u64)> {
    let parsed = ElfFile64::<Endianness>::parse(bytes).unwrap();
    let mut entries = vec![];
    for header in parsed.elf_program_headers() {
        if let Some(table) = header.dynamic(Endianness::Little, bytes).unwrap() {
            for entry in table {
                let tag = entry.d_tag(Endianness::Little) as u32;
                entries.push((tag, entry.d_val(Endianness::Little)));
            }
        }
    }
    entries
}

fn dynamic_string(bytes: &[u8], offset: u64) -> String {
    let table = section_data(bytes, ".dynstr");
    let tail = &table[offset as usize..];
    let end = tail.iter().position(|b| *b == 0).unwrap();
    String::from_utf8(tail[..end].to_vec()).unwrap()
}

fn count_tag(entries: &[(u32, u64)], tag: u32) -> usize {
    entries.iter().filter(|e| e.0 == tag).count()
}

#[test]
fn minimal_static_executable() {
    let opt = options(&["-o", "a.out", "start.o"]);
    let bytes = link(&opt, &vec![file("start.o", start_object(&EXIT_42))]).unwrap();
    let parsed = ElfFile64::<Endianness>::parse(bytes.as_slice()).unwrap();
    assert_eq!(parsed.kind(), object::ObjectKind::Executable);
    assert_eq!(parsed.entry(), 0x401000);
    assert_eq!(parsed.architecture(), Architecture::X86_64);
    assert_eq!(&bytes[0..7], &[0x7f, b'E', b'L', b'F', 2, 1, 1]);
    assert_eq!(segment_types(&bytes), vec![elf::PT_LOAD]);
    let load = &parsed.elf_program_headers()[0];
    assert_eq!(load.p_offset(Endianness::Little), 0);
    assert_eq!(load.p_vaddr(Endianness::Little), 0x400000);
    assert_eq!(load.p_filesz(Endianness::Little), bytes.len() as u64);
    assert_eq!(load.p_align(Endianness::Little), 4096);
    assert_eq!(load.p_flags(Endianness::Little), 7);
    assert_eq!(section_address(&bytes, ".text"), 0x401000);
    assert_eq!(section_data(&bytes, ".text"), EXIT_42.to_vec());
    assert_eq!(&bytes[0x1000..0x100c], &EXIT_42);
}

#[test]
fn two_objects_cross_section_call() {
    let opt = options(&["-o", "a.out", "a.o", "b.o"]);
    let files = vec![file("a.o", caller_object("foo")), file("b.o", callee_object("foo"))];
    let bytes = link(&opt, &files).unwrap();
    let text = section_data(&bytes, ".text");
    assert_eq!(text.len(), 17);
    assert_eq!(text[16], 0xc3);
    // foo lies at 0x401010, the place of the relocation at 0x401001
    assert_eq!(&text[0..5], &[0xe8, 0x0b, 0x00, 0x00, 0x00]);
    let parsed = object::File::parse(bytes.as_slice()).unwrap();
    let foo = parsed.symbols().find(|s| s.name() == Ok("foo")).unwrap();
    assert_eq!(foo.address(), 0x401010);
    let value = (foo.address() as i64 - (0x401001 + 4)) as i32;
    assert_eq!(&text[1..5], &value.to_le_bytes());
}

/// An object with four bytes of code that hold a 32-bit address of its own
/// read-only data, and `size` bytes of such data.
fn data_user(size: usize, with_start: bool) -> Vec<u8> {
    let mut object = relocatable();
    let text = object.section_id(StandardSection::Text);
    let rodata = object.section_id(StandardSection::ReadOnlyData);
    object.append_section_data(text, &[0, 0, 0, 0], 1);
    object.append_section_data(rodata, &vec![0x55; size], 1);
    if with_start {
        object.add_symbol(global("_start", 0, text));
    }
    let target = object.section_symbol(rodata);
    object
        .add_relocation(
            text,
            Relocation {
                offset: 0,
                symbol: target,
                addend: 0,
                flags: RelocationFlags::Generic {
                    kind: RelocationKind::Absolute,
                    encoding: RelocationEncoding::X86Signed,
                    size: 32,
                },
            },
        )
        .unwrap();
    object.write().unwrap()
}

#[test]
fn section_relocation_keeps_its_referent() {
    let opt = options(&["-o", "a.out", "a.o", "b.o"]);
    let files = vec![file("a.o", data_user(8, true)), file("b.o", data_user(16, false))];
    let bytes = link(&opt, &files).unwrap();
    let rodata = section_address(&bytes, ".rodata");
    assert_eq!(rodata % 4096, 0);
    assert_eq!(section_data(&bytes, ".rodata").len(), 24);
    let text = section_data(&bytes, ".text");
    assert_eq!(text.len(), 8);
    // the first object's data starts the section, the second one's follows
    assert_eq!(&text[0..4], &(rodata as u32).to_le_bytes());
    assert_eq!(&text[4..8], &(rodata as u32 + 8).to_le_bytes());
}

#[test]
fn shared_library_import() {
    let library = shared_object("puts", "libputs.so");
    let opt = options(&[
        "-dynamic-linker",
        "/lib64/ld-linux-x86-64.so.2",
        "-o",
        "hello",
        "hello.o",
        "libputs.so",
    ]);
    let files = vec![file("hello.o", caller_object("puts")), file("libputs.so", library)];
    let bytes = link(&opt, &files).unwrap();
    for name in [".interp", ".plt", ".got.plt", ".rela.plt", ".dynamic", ".dynsym", ".dynstr"] {
        assert!(has_section(&bytes, name), "{}", name);
    }
    assert_eq!(section_data(&bytes, ".interp"), b"/lib64/ld-linux-x86-64.so.2\0".to_vec());
    assert_eq!(section_data(&bytes, ".plt").len(), 32);
    assert_eq!(section_data(&bytes, ".got.plt").len(), 32);
    assert_eq!(section_data(&bytes, ".rela.plt").len(), 24);
    assert_eq!(segment_types(&bytes), vec![elf::PT_LOAD, elf::PT_DYNAMIC, elf::PT_INTERP]);

    // exactly one jump slot, for puts, at the fourth word of .got.plt
    let parsed = object::File::parse(bytes.as_slice()).unwrap();
    let got = section_address(&bytes, ".got.plt");
    let slots: Vec<_> = parsed.dynamic_relocations().unwrap().collect();
    assert_eq!(slots.len(), 1);
    assert_eq!(slots[0].0, got + 24);
    assert_eq!(slots[0].1.flags(), RelocationFlags::Elf { r_type: elf::R_X86_64_JUMP_SLOT });
    let imports: Vec<_> = parsed.dynamic_symbols().collect();
    assert_eq!(imports.len(), 1);
    assert_eq!(imports[0].name(), Ok("puts"));
    assert!(imports[0].is_undefined());
    assert_eq!(slots[0].1.target(), object::RelocationTarget::Symbol(imports[0].index()));

    // the call goes to the stub, the slot back into the stub
    let plt = section_address(&bytes, ".plt");
    let text = section_data(&bytes, ".text");
    let text_address = section_address(&bytes, ".text");
    let value = ((plt + 16) as i64 - (text_address as i64 + 1 + 4)) as i32;
    assert_eq!(&text[1..5], &value.to_le_bytes());
    let got_data = section_data(&bytes, ".got.plt");
    assert_eq!(&got_data[0..8], &section_address(&bytes, ".dynamic").to_le_bytes());
    assert_eq!(&got_data[24..32], &(plt + 16 + 6).to_le_bytes());

    let entries = dynamic_entries(&bytes);
    let needed: Vec<_> = entries.iter().filter(|e| e.0 == elf::DT_NEEDED).collect();
    assert_eq!(needed.len(), 1);
    assert_eq!(dynamic_string(&bytes, needed[0].1), "libputs.so");
    assert_eq!(count_tag(&entries, elf::DT_PLTGOT), 1);
    assert_eq!(count_tag(&entries, elf::DT_JMPREL), 1);
    assert!(entries.contains(&(elf::DT_PLTRELSZ, 24)));
    assert!(entries.contains(&(elf::DT_PLTREL, elf::DT_RELA as u64)));
    assert!(entries.contains(&(elf::DT_PLTGOT, got)));
}

#[test]
fn build_shared_object() {
    let opt = options(&["-shared", "-soname", "libx.so.1", "--hash-style=both", "-o", "libx.so", "foo.o"]);
    let bytes = link(&opt, &vec![file("foo.o", callee_object("foo"))]).unwrap();
    let parsed = ElfFile64::<Endianness>::parse(bytes.as_slice()).unwrap();
    assert_eq!(parsed.elf_header().e_type(Endianness::Little), elf::ET_DYN);
    assert_eq!(parsed.entry(), 0);
    assert_eq!(parsed.elf_program_headers()[0].p_vaddr(Endianness::Little), 0);
    assert_eq!(segment_types(&bytes), vec![elf::PT_LOAD, elf::PT_DYNAMIC]);
    assert!(has_section(&bytes, ".hash"));
    assert!(has_section(&bytes, ".gnu.hash"));
    let exported: Vec<_> = parsed.dynamic_symbols().collect();
    assert_eq!(exported.len(), 1);
    assert_eq!(exported[0].name(), Ok("foo"));
    assert!(!exported[0].is_undefined());
    assert_eq!(exported[0].address(), section_address(&bytes, ".text"));

    let entries = dynamic_entries(&bytes);
    let soname: Vec<_> = entries.iter().filter(|e| e.0 == elf::DT_SONAME).collect();
    assert_eq!(soname.len(), 1);
    assert_eq!(dynamic_string(&bytes, soname[0].1), "libx.so.1");
    assert_eq!(entries.len(), 8);
    assert_eq!(entries.last(), Some(&(elf::DT_NULL, 0)));
    assert!(entries.contains(&(elf::DT_SYMENT, 24)));
    assert!(entries.contains(&(elf::DT_STRSZ, section_data(&bytes, ".dynstr").len() as u64)));
    assert!(entries.contains(&(elf::DT_HASH, section_address(&bytes, ".hash"))));
    assert!(entries.contains(&(elf::DT_GNU_HASH, section_address(&bytes, ".gnu.hash"))));
    for tag in [elf::DT_STRTAB, elf::DT_SYMTAB, elf::DT_STRSZ, elf::DT_SYMENT, elf::DT_NULL] {
        assert_eq!(count_tag(&entries, tag), 1);
    }
}

#[test]
fn hash_style_switch() {
    let inputs = vec![file("foo.o", callee_object("foo"))];
    let gnu = link(&options(&["-shared", "--hash-style=gnu", "foo.o"]), &inputs).unwrap();
    assert!(!has_section(&gnu, ".hash"));
    assert!(has_section(&gnu, ".gnu.hash"));
    assert_eq!(count_tag(&dynamic_entries(&gnu), elf::DT_HASH), 0);
    assert_eq!(count_tag(&dynamic_entries(&gnu), elf::DT_GNU_HASH), 1);

    let sysv = link(&options(&["-shared", "--hash-style=sysv", "foo.o"]), &inputs).unwrap();
    assert!(has_section(&sysv, ".hash"));
    assert!(!has_section(&sysv, ".gnu.hash"));
    assert_eq!(count_tag(&dynamic_entries(&sysv), elf::DT_HASH), 1);
    assert_eq!(count_tag(&dynamic_entries(&sysv), elf::DT_GNU_HASH), 0);

    let both = link(&options(&["-shared", "--hash-style=both", "foo.o"]), &inputs).unwrap();
    assert!(has_section(&both, ".hash"));
    assert!(has_section(&both, ".gnu.hash"));
    assert_eq!(count_tag(&dynamic_entries(&both), elf::DT_HASH), 1);
    assert_eq!(count_tag(&dynamic_entries(&both), elf::DT_GNU_HASH), 1);
}

#[test]
fn reparsing_gives_the_same_names_and_addresses() {
    let opt = options(&["-o", "a.out", "a.o", "b.o"]);
    let files = vec![file("a.o", caller_object("foo")), file("b.o", callee_object("foo"))];
    let bytes = link(&opt, &files).unwrap();
    let parsed = object::File::parse(bytes.as_slice()).unwrap();
    let sections: Vec<String> = parsed
        .sections()
        .map(|s| s.name().unwrap().to_string())
        .filter(|n| !n.is_empty())
        .collect();
    assert_eq!(sections, vec![".text", ".symtab", ".strtab", ".shstrtab"]);
    let mut symbols: Vec<(String, u64)> =
        parsed.symbols().map(|s| (s.name().unwrap().to_string(), s.address())).collect();
    symbols.sort();
    assert_eq!(
        symbols,
        vec![("_start".to_string(), 0x401000), ("foo".to_string(), 0x401010)]
    );
}

#[test]
fn every_header_lies_within_the_file() {
    let library = shared_object("puts", "libputs.so");
    let opt = options(&["-dynamic-linker", "/lib/ld.so", "hello.o", "libputs.so"]);
    let files = vec![file("hello.o", caller_object("puts")), file("libputs.so", library)];
    let bytes = link(&opt, &files).unwrap();
    let parsed = ElfFile64::<Endianness>::parse(bytes.as_slice()).unwrap();
    let size = bytes.len() as u64;
    for header in parsed.elf_program_headers() {
        assert!(header.p_offset(Endianness::Little) + header.p_filesz(Endianness::Little) <= size);
    }
    for section in parsed.sections() {
        let (offset, length) = section.file_range().unwrap_or((0, 0));
        assert!(offset + length <= size);
    }
    for name in [".text", ".plt", ".got.plt", ".interp"] {
        let section = parsed.section_by_name(name).unwrap();
        let offset = section.file_range().unwrap().0;
        assert_eq!(offset % 4096, 0, "{}", name);
        assert_eq!(section.address(), 0x400000 + offset);
    }
}

#[test]
fn executable_without_start_is_rejected() {
    let opt = options(&["foo.o"]);
    let result = link(&opt, &vec![file("foo.o", callee_object("foo"))]);
    assert!(matches!(result, Err(cold::LinkError::MissingEntry)));
}

#[test]
fn undefined_symbol_is_reported_by_name() {
    let opt = options(&["a.o"]);
    let result = link(&opt, &vec![file("a.o", caller_object("nowhere"))]);
    match result {
        Err(cold::LinkError::Undefined(name)) => assert_eq!(name, "nowhere"),
        _ => panic!("the link must fail on the undefined symbol"),
    }
}

#[test]
fn malformed_and_foreign_inputs_are_rejected() {
    let opt = options(&["junk.o"]);
    match link(&opt, &vec![file("junk.o", vec![1, 2, 3, 4, 5, 6, 7, 8, 9, 10, 11, 12, 13, 14, 15, 16, 17, 18, 19, 20])]) {
        Err(cold::LinkError::Malformed(name)) => assert_eq!(name, "junk.o"),
        _ => panic!("bytes that are no object must be rejected"),
    }
    let mut foreign = Writable::new(BinaryFormat::Elf, Architecture::Aarch64, Endianness::Little);
    let text = foreign.section_id(StandardSection::Text);
    foreign.append_section_data(text, &[0; 4], 4);
    match link(&opt, &vec![file("arm.o", foreign.write().unwrap())]) {
        Err(cold::LinkError::Unsupported(name)) => assert_eq!(name, "arm.o"),
        _ => panic!("an object for another machine must be rejected"),
    }
    let mut narrow = Writable::new(BinaryFormat::Elf, Architecture::I386, Endianness::Little);
    let text = narrow.section_id(StandardSection::Text);
    narrow.append_section_data(text, &[0; 4], 4);
    match link(&opt, &vec![file("x86.o", narrow.write().unwrap())]) {
        Err(cold::LinkError::Unsupported(name)) => assert_eq!(name, "x86.o"),
        _ => panic!("a 32-bit object must be rejected"),
    }
    match link(&opt, &vec![file("libjunk.a", vec![0; 64])]) {
        Err(cold::LinkError::Malformed(name)) => assert_eq!(name, "libjunk.a"),
        _ => panic!("bytes that are no archive must be rejected"),
    }
}

#[test]
fn shared_object_without_a_dynamic_name() {
    let mut object = relocatable();
    let text = object.section_id(StandardSection::Text);
    object.append_section_data(text, &[0xc3], 1);
    let mut helper = global("helper", 0, text);
    helper.scope = SymbolScope::Compilation;
    object.add_symbol(helper);
    let input = object.write().unwrap();

    let opt = options(&["-shared", "-o", "libempty.so", "helper.o"]);
    let bytes = link(&opt, &vec![file("helper.o", input)]).unwrap();
    let parsed = ElfFile64::<Endianness>::parse(bytes.as_slice()).unwrap();
    assert_eq!(parsed.elf_header().e_type(Endianness::Little), elf::ET_DYN);
    assert_eq!(parsed.dynamic_symbols().count(), 0);
    assert_eq!(section_data(&bytes, ".dynstr"), vec![0u8]);
    assert_eq!(section_data(&bytes, ".dynsym").len(), 24);
    let entries = dynamic_entries(&bytes);
    assert!(entries.contains(&(elf::DT_STRSZ, 1)));
    assert!(entries.contains(&(elf::DT_STRTAB, section_address(&bytes, ".dynstr"))));
    assert_eq!(entries.last(), Some(&(elf::DT_NULL, 0)));
}
