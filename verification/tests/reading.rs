use cold::input::{InputSymbolKind, SymbolPlace};
use cold::model::{LinkError, ObjectFile, RelocationEncoding, RelocationKind};
use cold::opt::parse_opts;
use cold::pipeline::{link, link_objects, parse_files};
use cold::reader::read_object;
use object::write::{Object as Writable, Relocation, StandardSection, Symbol, SymbolSection};
use object::{
    Architecture, BinaryFormat, Endianness, Object, ObjectSection, RelocationFlags, SymbolFlags,
    SymbolKind, SymbolScope,
};

fn symbol(name: &str, value: u64, section: SymbolSection, scope: SymbolScope) -> Symbol {
    Symbol {
        name: name.as_bytes().to_vec(),
        value,
        size: 0,
        kind: SymbolKind::Text,
        scope,
        weak: false,
        section,
        flags: SymbolFlags::None,
    }
}

/// An object with code, data, uninitialised data, a local and a global
/// symbol, an undefined symbol and three relocations.
fn sample() -> Vec<u8> {
    let mut object = Writable::new(BinaryFormat::Elf, Architecture::X86_64, Endianness::Little);
    let text = object.section_id(StandardSection::Text);
    let data = object.section_id(StandardSection::Data);
    let bss = object.section_id(StandardSection::UninitializedData);
    object.append_section_data(text, &[0x90; 24], 1);
    object.append_section_data(data, &[1, 2, 3, 4, 5, 6, 7, 8], 1);
    object.append_section_bss(bss, 40, 1);
    object.add_symbol(symbol("helper", 3, SymbolSection::Section(text), SymbolScope::Compilation));
    object.add_symbol(symbol("_start", 8, SymbolSection::Section(text), SymbolScope::Dynamic));
    let far = object.add_symbol(symbol("far", 0, SymbolSection::Undefined, SymbolScope::Dynamic));
    let data_symbol = object.section_symbol(data);
    let generic = |kind, encoding, size| RelocationFlags::Generic { kind, encoding, size };
    object
        .add_relocation(
            text,
            Relocation {
                offset: 2,
                symbol: far,
                addend: -4,
                flags: generic(RelocationKind_::PltRelative, RelocationEncoding_::Generic, 32),
            },
        )
        .unwrap();
    object
        .add_relocation(
            text,
            Relocation {
                offset: 10,
                symbol: data_symbol,
                addend: 5,
                flags: generic(RelocationKind_::Absolute, RelocationEncoding_::X86Signed, 32),
            },
        )
        .unwrap();
    object
        .add_relocation(
            data,
            Relocation {
                offset: 0,
                symbol: far,
                addend: 0,
                flags: generic(RelocationKind_::Absolute, RelocationEncoding_::Generic, 64),
            },
        )
        .unwrap();
    object.write().unwrap()
}

use object::RelocationEncoding as RelocationEncoding_;
use object::RelocationKind as RelocationKind_;

fn member(name: &str, data: &[u8]) -> Vec<u8> {
    let mut bytes = format!("{:<16}{:<12}{:<6}{:<6}{:<8}{:<10}`\n", format!("{}/", name), 0, 0, 0, 644, data.len())
        .into_bytes();
    assert_eq!(bytes.len(), 60);
    bytes.extend_from_slice(data);
    if data.len() % 2 == 1 {
        bytes.push(b'\n');
    }
    bytes
}

fn archive(members: &[(&str, Vec<u8>)]) -> Vec<u8> {
    let mut bytes = b"!<arch>\n".to_vec();
    for (name, data) in members {
        bytes.extend(member(name, data));
    }
    bytes
}

fn start_object(code: &[u8]) -> Vec<u8> {
    let mut object = Writable::new(BinaryFormat::Elf, Architecture::X86_64, Endianness::Little);
    let text = object.section_id(StandardSection::Text);
    object.append_section_data(text, code, 1);
    object.add_symbol(symbol("_start", 0, SymbolSection::Section(text), SymbolScope::Dynamic));
    object.write().unwrap()
}

fn function_object(name: &str, code: &[u8]) -> Vec<u8> {
    let mut object = Writable::new(BinaryFormat::Elf, Architecture::X86_64, Endianness::Little);
    let text = object.section_id(StandardSection::Text);
    object.append_section_data(text, code, 1);
    object.add_symbol(symbol(name, 0, SymbolSection::Section(text), SymbolScope::Dynamic));
    object.write().unwrap()
}

#[test]
fn an_object_is_read_as_the_reader_sees_it() {
    let bytes = sample();
    let read = read_object("sample.o", &bytes).unwrap();
    assert_eq!(read.name, "sample.o");
    assert!(!read.is_dynamic);
    assert!(read.dynamic_symbols.is_empty());

    let parsed = object::File::parse(bytes.as_slice()).unwrap();
    assert_eq!(read.sections.len(), parsed.sections().count() + 1);
    assert_eq!(read.sections[0].name, "");
    for section in parsed.sections() {
        let mine = &read.sections[section.index().0];
        assert_eq!(mine.name, section.name().unwrap());
        assert_eq!(mine.data, section.data().unwrap());
        assert_eq!(mine.size, section.size());
        assert_eq!(mine.relocations.len(), section.relocations().count());
    }
    let text = read.sections.iter().position(|s| s.name == ".text").unwrap();
    let data = read.sections.iter().position(|s| s.name == ".data").unwrap();
    let bss = read.sections.iter().position(|s| s.name == ".bss").unwrap();
    assert_eq!(read.sections[text].data, vec![0x90; 24]);
    assert_eq!(read.sections[text].flags & 0x7, 0x6);
    assert_eq!(read.sections[data].flags & 0x7, 0x3);
    assert!(!read.sections[text].is_bss && !read.sections[data].is_bss);
    assert!(read.sections[bss].is_bss);
    assert!(read.sections[bss].data.is_empty());
    assert_eq!(read.sections[bss].size, 40);

    let index = |name: &str| read.symbols.iter().position(|s| s.name == name).unwrap();
    let helper = &read.symbols[index("helper")];
    assert_eq!(helper.place, SymbolPlace::Section(text));
    assert_eq!(helper.address, 3);
    assert!(!helper.is_global);
    assert_eq!(helper.kind, InputSymbolKind::Other);
    let start = &read.symbols[index("_start")];
    assert_eq!(start.place, SymbolPlace::Section(text));
    assert_eq!(start.address, 8);
    assert!(start.is_global);
    let far = &read.symbols[index("far")];
    assert_eq!(far.place, SymbolPlace::Undefined);
    assert!(far.is_global);
    assert_eq!(read.symbols[0].place, SymbolPlace::Undefined);
    let of_data = read
        .symbols
        .iter()
        .position(|s| s.kind == InputSymbolKind::Section && s.place == SymbolPlace::Section(data))
        .unwrap();

    let relocations = &read.sections[text].relocations;
    assert_eq!(relocations.len(), 2);
    assert_eq!(relocations[0].offset, 2);
    assert_eq!(relocations[0].kind, RelocationKind::PltRelative);
    assert_eq!(relocations[0].encoding, RelocationEncoding::Generic);
    assert_eq!(relocations[0].size, 32);
    assert_eq!(relocations[0].addend, -4);
    assert_eq!(relocations[0].symbol, Some(index("far")));
    assert_eq!(relocations[1].offset, 10);
    assert_eq!(relocations[1].kind, RelocationKind::Absolute);
    assert_eq!(relocations[1].encoding, RelocationEncoding::X86Signed);
    assert_eq!(relocations[1].size, 32);
    assert_eq!(relocations[1].addend, 5);
    assert_eq!(relocations[1].symbol, Some(of_data));
    let relocations = &read.sections[data].relocations;
    assert_eq!(relocations.len(), 1);
    assert_eq!(relocations[0].kind, RelocationKind::Absolute);
    assert_eq!(relocations[0].encoding, RelocationEncoding::Generic);
    assert_eq!(relocations[0].size, 64);
    assert_eq!(relocations[0].symbol, Some(index("far")));
}

#[test]
fn of_a_shared_object_the_dynamic_symbols_are_read() {
    let opt = parse_opts(&vec!["-shared".to_string(), "f.o".to_string()]).unwrap();
    let objects = vec![
        read_object("f.o", &function_object("first", &[0xc3])).unwrap(),
        read_object("g.o", &function_object("second", &[0x90, 0xc3])).unwrap(),
    ];
    let library = link_objects(&opt, &objects).unwrap();
    let read = read_object("libf.so", &library).unwrap();
    assert!(read.is_dynamic);
    assert!(read.sections.is_empty());
    assert!(read.symbols.is_empty());
    let mut exported: Vec<(&str, bool)> = read
        .dynamic_symbols
        .iter()
        .skip(1)
        .map(|s| (s.name.as_str(), s.place == SymbolPlace::Undefined))
        .collect();
    exported.sort();
    assert_eq!(exported, vec![("first", false), ("second", false)]);
    assert_eq!(read.dynamic_symbols[0].place, SymbolPlace::Undefined);
}

#[test]
fn an_archive_gives_the_objects_in_its_members() {
    let library = archive(&[
        ("start.o", start_object(&[0x90, 0x90, 0xc3])),
        ("foo.o", function_object("foo", &[0xc3])),
    ]);
    let files = vec![ObjectFile { name: "libboth.a".to_string(), as_needed: false, content: library }];
    let objects = parse_files(&files).unwrap();
    let listed: Vec<&str> = objects.iter().map(|o| o.name.as_str()).collect();
    assert_eq!(listed, vec!["libboth.a(start.o)", "libboth.a(foo.o)"]);

    let opt = parse_opts(&vec!["libboth.a".to_string()]).unwrap();
    let bytes = link(&opt, &files).unwrap();
    let parsed = object::File::parse(bytes.as_slice()).unwrap();
    assert_eq!(parsed.entry(), 0x401000);
    assert_eq!(parsed.section_by_name(".text").unwrap().data().unwrap(), &[0x90, 0x90, 0xc3, 0xc3]);

    let empty = vec![ObjectFile { name: "none.a".to_string(), as_needed: false, content: archive(&[]) }];
    assert!(parse_files(&empty).unwrap().is_empty());
}

#[test]
fn a_member_that_is_no_object_fails_the_archive() {
    let library = archive(&[("start.o", start_object(&[0xc3])), ("junk.o", vec![b'x'; 40])]);
    let files = vec![ObjectFile { name: "libbad.a".to_string(), as_needed: false, content: library }];
    match parse_files(&files) {
        Err(LinkError::Malformed(name)) => assert_eq!(name, "libbad.a(junk.o)"),
        _ => panic!("a member that is no object must be reported by its name"),
    }
    let cut = vec![ObjectFile {
        name: "libcut.a".to_string(),
        as_needed: false,
        content: archive(&[("start.o", start_object(&[0xc3]))])[..100].to_vec(),
    }];
    match parse_files(&cut) {
        Err(LinkError::Malformed(name)) => assert_eq!(name, "libcut.a"),
        _ => panic!("an archive that is cut short must be reported"),
    }
}

#[test]
fn files_are_parsed_in_order() {
    let files = vec![
        ObjectFile { name: "b.o".to_string(), as_needed: false, content: function_object("b", &[0xc3]) },
        ObjectFile { name: "a.o".to_string(), as_needed: true, content: start_object(&[0xc3]) },
    ];
    let objects = parse_files(&files).unwrap();
    let listed: Vec<&str> = objects.iter().map(|o| o.name.as_str()).collect();
    assert_eq!(listed, vec!["b.o", "a.o"]);
    assert!(parse_files(&vec![]).unwrap().is_empty());
}
