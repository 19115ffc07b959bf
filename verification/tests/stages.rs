use cold::accrete::{accrete, enter_symbol};
use cold::dynamic::{
    build_dynamic_table, DynamicInfo, DynamicValue, DT_GNU_HASH, DT_HASH, DT_JMPREL, DT_NULL,
    DT_PLTGOT, DT_PLTREL, DT_PLTRELSZ, DT_STRSZ, DT_STRTAB, DT_SYMENT, DT_SYMTAB,
};
use cold::hash::sort_by_bucket;
use cold::image::{make_gnu_hashes, make_sysv_hashes};
use cold::input::{
    InputObject, InputRelocation, InputSection, InputSymbol, InputSymbolKind, SymbolPlace,
};
use cold::link::Linker;
use cold::model::{
    DynamicSymbol, LinkError, OutputSection, Relocation, RelocationEncoding, RelocationKind,
    RelocationTarget, Symbol,
};
use cold::opt::{parse_opts, HashStyle};
use cold::plt::synthesize;
use cold::relocate::{apply_relocation, assign_addresses, section_address, SectionAddress};
use cold::symtab::{count_locals, order_symbols};

fn null_section() -> InputSection {
    InputSection {
        name: String::new(),
        data: vec![],
        size: 0,
        flags: 0,
        is_bss: false,
        relocations: vec![],
    }
}

fn null_symbol() -> InputSymbol {
    InputSymbol {
        name: String::new(),
        kind: InputSymbolKind::Other,
        place: SymbolPlace::Undefined,
        address: 0,
        is_global: false,
    }
}

fn section(name: &str, data: &[u8], flags: u64) -> InputSection {
    InputSection {
        name: name.to_string(),
        data: data.to_vec(),
        size: data.len() as u64,
        flags,
        is_bss: false,
        relocations: vec![],
    }
}

fn defined(name: &str, section: usize, address: u64, is_global: bool) -> InputSymbol {
    InputSymbol {
        name: name.to_string(),
        kind: InputSymbolKind::Other,
        place: SymbolPlace::Section(section),
        address,
        is_global,
    }
}

fn section_symbol(section: usize) -> InputSymbol {
    InputSymbol {
        name: String::new(),
        kind: InputSymbolKind::Section,
        place: SymbolPlace::Section(section),
        address: 0,
        is_global: false,
    }
}

fn object(name: &str, sections: Vec<InputSection>, symbols: Vec<InputSymbol>) -> InputObject {
    let mut all_sections = vec![null_section()];
    all_sections.extend(sections);
    let mut all_symbols = vec![null_symbol()];
    all_symbols.extend(symbols);
    InputObject {
        name: name.to_string(),
        is_dynamic: false,
        sections: all_sections,
        symbols: all_symbols,
        dynamic_symbols: vec![],
    }
}

fn relocation(offset: u64, symbol: Option<usize>) -> InputRelocation {
    InputRelocation {
        offset,
        kind: RelocationKind::Absolute,
        encoding: RelocationEncoding::X86Signed,
        size: 32,
        addend: 3,
        symbol,
    }
}

fn plain_symbol(name: &str, section: &str, offset: u64, is_global: bool) -> Symbol {
    Symbol {
        name: name.to_string(),
        section_name: section.to_string(),
        offset,
        symbol_name_string_id: None,
        symbol_name_dynamic_string_id: None,
        is_global,
        is_plt: false,
    }
}

fn names(list: &[&str]) -> Vec<DynamicSymbol> {
    list.iter().map(|n| DynamicSymbol { name: n.to_string() }).collect()
}

fn find<'a>(sections: &'a [OutputSection], name: &str) -> &'a OutputSection {
    sections.iter().find(|s| s.name == name).unwrap()
}

#[test]
fn sections_of_one_name_are_appended_in_input_order() {
    let mut sections = vec![];
    let mut symbols = vec![];
    let mut exports = vec![];
    let a = object("a.o", vec![section(".text", &[1, 2, 3], 0x6), section(".data", &[9], 0x3)], vec![]);
    let b = object("b.o", vec![section(".data", &[8, 7], 0x3), section(".text", &[4, 5], 0x6)], vec![]);
    accrete(&mut sections, &mut symbols, &mut exports, &a, false).unwrap();
    accrete(&mut sections, &mut symbols, &mut exports, &b, false).unwrap();
    let order: Vec<&str> = sections.iter().map(|s| s.name.as_str()).collect();
    assert_eq!(order, vec![".text", ".data"]);
    assert_eq!(find(&sections, ".text").content, vec![1, 2, 3, 4, 5]);
    assert_eq!(find(&sections, ".data").content, vec![9, 8, 7]);
    assert!(find(&sections, ".text").is_executable);
    assert!(!find(&sections, ".text").is_writable);
    assert!(find(&sections, ".data").is_writable);
    assert!(!find(&sections, ".data").is_executable);
}

#[test]
fn flags_add_up_and_unallocated_sections_are_left_out() {
    let mut sections = vec![];
    let mut symbols = vec![];
    let mut exports = vec![];
    let a = object(
        "a.o",
        vec![section(".mix", &[1], 0x2), section(".comment", &[1, 2, 3], 0x0), section("", &[1], 0x2)],
        vec![],
    );
    let b = object("b.o", vec![section(".mix", &[2], 0x6), section(".mix", &[3], 0x3)], vec![]);
    accrete(&mut sections, &mut symbols, &mut exports, &a, false).unwrap();
    assert_eq!(sections.len(), 1);
    assert!(!sections[0].is_executable && !sections[0].is_writable);
    accrete(&mut sections, &mut symbols, &mut exports, &b, false).unwrap();
    assert_eq!(sections.len(), 1);
    assert_eq!(sections[0].content, vec![1, 2, 3]);
    assert!(sections[0].is_executable && sections[0].is_writable);
}

#[test]
fn uninitialised_data_is_extended_with_zeros() {
    let mut sections = vec![];
    let mut symbols = vec![];
    let mut exports = vec![];
    let mut bss = section(".bss", &[], 0x3);
    bss.size = 5;
    bss.is_bss = true;
    let mut partly = section(".bss", &[7, 7], 0x3);
    partly.size = 4;
    let a = object("a.o", vec![bss, partly], vec![defined("buffer", 2, 1, false)]);
    accrete(&mut sections, &mut symbols, &mut exports, &a, false).unwrap();
    assert_eq!(sections[0].content, vec![0, 0, 0, 0, 0, 7, 7, 0, 0]);
    assert!(sections[0].is_bss);
    assert_eq!(symbols[0].offset, 1);
}

#[test]
fn offsets_are_rebased_by_the_sizes_before_the_object() {
    let mut sections = vec![];
    let mut symbols = vec![];
    let mut exports = vec![];
    let first = object(
        "a.o",
        vec![section(".text", &[0; 10], 0x6), section(".rodata", &[0; 16], 0x2)],
        vec![defined("f", 1, 4, true)],
    );
    let mut text = section(".text", &[0; 8], 0x6);
    text.relocations = vec![relocation(2, Some(1)), relocation(6, Some(3))];
    let second = object(
        "b.o",
        vec![text, section(".rodata", &[0; 4], 0x2)],
        vec![section_symbol(2), defined("g", 1, 1, false), defined("h", 2, 3, true)],
    );
    accrete(&mut sections, &mut symbols, &mut exports, &first, false).unwrap();
    accrete(&mut sections, &mut symbols, &mut exports, &second, false).unwrap();

    assert_eq!(find(&sections, ".text").content.len(), 18);
    assert_eq!(find(&sections, ".rodata").content.len(), 20);
    let recorded = &find(&sections, ".text").relocations;
    assert_eq!(recorded.len(), 2);
    assert_eq!(recorded[0].offset, 12);
    assert_eq!(recorded[0].addend, 3);
    assert_eq!(recorded[0].size, 32);
    match &recorded[0].target {
        RelocationTarget::Section(target) => {
            assert_eq!(target.0, ".rodata");
            assert_eq!(target.1, 16);
        },
        RelocationTarget::Symbol(_) => panic!("the relocation points at a section"),
    }
    assert_eq!(recorded[1].offset, 16);
    match &recorded[1].target {
        RelocationTarget::Symbol(name) => assert_eq!(name, "h"),
        RelocationTarget::Section(_) => panic!("the relocation points at a symbol"),
    }
    let listed: Vec<(&str, &str, u64, bool)> = symbols
        .iter()
        .map(|s| (s.name.as_str(), s.section_name.as_str(), s.offset, s.is_global))
        .collect();
    assert_eq!(
        listed,
        vec![("f", ".text", 4, true), ("g", ".text", 11, false), ("h", ".rodata", 19, true)]
    );
    for symbol in &symbols {
        assert!(symbol.offset <= find(&sections, &symbol.section_name).content.len() as u64);
    }
    assert!(exports.is_empty());
}

#[test]
fn a_later_definition_replaces_an_earlier_one_in_place() {
    let mut sections = vec![];
    let mut symbols = vec![];
    let mut exports = vec![];
    let a = object(
        "a.o",
        vec![section(".text", &[0; 4], 0x6)],
        vec![defined("f", 1, 0, true), defined("g", 1, 1, true)],
    );
    let b = object("b.o", vec![section(".text", &[0; 4], 0x6)], vec![defined("f", 1, 2, false)]);
    accrete(&mut sections, &mut symbols, &mut exports, &a, true).unwrap();
    accrete(&mut sections, &mut symbols, &mut exports, &b, true).unwrap();
    assert_eq!(symbols.len(), 2);
    assert_eq!(symbols[0].name, "f");
    assert_eq!(symbols[0].offset, 6);
    assert!(!symbols[0].is_global);
    assert_eq!(symbols[1].name, "g");
    let exported: Vec<&str> = exports.iter().map(|e| e.name.as_str()).collect();
    assert_eq!(exported, vec!["f", "g"]);
}

#[test]
fn accretion_rejects_what_it_cannot_place() {
    let mut sections = vec![];
    let mut symbols = vec![];
    let mut exports = vec![];

    let mut text = section(".text", &[0; 4], 0x6);
    text.relocations = vec![relocation(0, None)];
    let no_symbol = object("a.o", vec![text], vec![]);
    match accrete(&mut sections, &mut symbols, &mut exports, &no_symbol, false) {
        Err(LinkError::UnsupportedRelocation(name)) => assert_eq!(name, ".text"),
        _ => panic!("a relocation against no symbol must be rejected"),
    }

    let mut text = section(".text", &[0; 4], 0x6);
    text.relocations = vec![relocation(0, Some(9))];
    let bad_index = object("b.o", vec![text], vec![]);
    match accrete(&mut vec![], &mut symbols, &mut exports, &bad_index, false) {
        Err(LinkError::Malformed(name)) => assert_eq!(name, "b.o"),
        _ => panic!("a relocation against a symbol that is not there must be rejected"),
    }

    let mut common = defined("shared_buffer", 0, 0, true);
    common.place = SymbolPlace::Other;
    let odd = object("c.o", vec![section(".text", &[0; 4], 0x6)], vec![common]);
    match accrete(&mut vec![], &mut symbols, &mut exports, &odd, false) {
        Err(LinkError::UnsupportedSymbol(name)) => assert_eq!(name, "shared_buffer"),
        _ => panic!("a symbol that lies in no section must be rejected"),
    }

    let far = object("d.o", vec![section(".text", &[0; 4], 0x6)], vec![defined("f", 7, 0, true)]);
    match accrete(&mut vec![], &mut symbols, &mut exports, &far, false) {
        Err(LinkError::Malformed(name)) => assert_eq!(name, "d.o"),
        _ => panic!("a symbol in a section that is not there must be rejected"),
    }
}

#[test]
fn entering_a_symbol_twice_keeps_its_place() {
    let mut symbols = vec![];
    enter_symbol(&mut symbols, plain_symbol("a", ".text", 1, true));
    enter_symbol(&mut symbols, plain_symbol("b", ".text", 2, true));
    enter_symbol(&mut symbols, plain_symbol("a", ".data", 3, false));
    assert_eq!(symbols.len(), 2);
    assert_eq!(symbols[0].name, "a");
    assert_eq!(symbols[0].section_name, ".data");
    assert_eq!(symbols[0].offset, 3);
    assert_eq!(symbols[1].name, "b");
}

fn addresses() -> Vec<SectionAddress> {
    vec![
        SectionAddress { name: ".text".to_string(), address: 0x401000 },
        SectionAddress { name: ".data".to_string(), address: 0x402000 },
    ]
}

fn patch(kind: RelocationKind, encoding: RelocationEncoding, size: u8, target: RelocationTarget) -> Relocation {
    Relocation { offset: 4, kind, encoding, size, addend: -4, target }
}

#[test]
fn each_relocation_type_patches_its_formula() {
    let symbols = vec![plain_symbol("f", ".data", 0x10, true)];
    let to_f = || RelocationTarget::Symbol("f".to_string());

    // S + A in eight bytes
    let mut content = vec![0xaa; 16];
    let absolute = patch(RelocationKind::Absolute, RelocationEncoding::Generic, 64, to_f());
    apply_relocation(&mut content, &absolute, 0x401000, ".text", &addresses(), &symbols).unwrap();
    assert_eq!(&content[4..12], &0x40200cu64.to_le_bytes());
    assert_eq!(&content[0..4], &[0xaa; 4]);
    assert_eq!(&content[12..16], &[0xaa; 4]);

    // S + A in four bytes
    let mut content = vec![0xaa; 16];
    let signed = patch(RelocationKind::Absolute, RelocationEncoding::X86Signed, 32, to_f());
    apply_relocation(&mut content, &signed, 0x401000, ".text", &addresses(), &symbols).unwrap();
    assert_eq!(&content[4..8], &0x40200cu32.to_le_bytes());
    assert_eq!(&content[8..16], &[0xaa; 8]);

    // S + A - P, the place being 0x401004
    for kind in [RelocationKind::Relative, RelocationKind::PltRelative] {
        let mut content = vec![0xaa; 16];
        let relative = patch(kind, RelocationEncoding::Generic, 32, to_f());
        apply_relocation(&mut content, &relative, 0x401000, ".text", &addresses(), &symbols).unwrap();
        assert_eq!(&content[4..8], &0x1008u32.to_le_bytes());
    }

    // a negative value wraps in two's complement
    let mut content = vec![0xaa; 16];
    let back = patch(
        RelocationKind::Relative,
        RelocationEncoding::Generic,
        32,
        RelocationTarget::Section((".text".to_string(), 0)),
    );
    apply_relocation(&mut content, &back, 0x402000, ".data", &addresses(), &symbols).unwrap();
    assert_eq!(&content[4..8], &(-0x1008i32).to_le_bytes());

    // a section target adds the recorded size
    let mut content = vec![0xaa; 16];
    let section = patch(
        RelocationKind::Absolute,
        RelocationEncoding::Generic,
        64,
        RelocationTarget::Section((".data".to_string(), 0x20)),
    );
    apply_relocation(&mut content, &section, 0x401000, ".text", &addresses(), &symbols).unwrap();
    assert_eq!(&content[4..12], &0x40201cu64.to_le_bytes());
}

#[test]
fn relocation_reports_what_it_cannot_do() {
    let symbols = vec![plain_symbol("f", ".data", 0x10, true), plain_symbol("lost", ".gone", 0, true)];
    let to = |name: &str| RelocationTarget::Symbol(name.to_string());
    let mut content = vec![0; 16];

    let narrow = patch(RelocationKind::Absolute, RelocationEncoding::Generic, 16, to("f"));
    match apply_relocation(&mut content, &narrow, 0, ".text", &addresses(), &symbols) {
        Err(LinkError::UnsupportedRelocation(name)) => assert_eq!(name, ".text"),
        _ => panic!("a 16-bit relocation is not supported"),
    }
    let other = patch(RelocationKind::Other, RelocationEncoding::Generic, 32, to("f"));
    assert!(matches!(
        apply_relocation(&mut content, &other, 0, ".text", &addresses(), &symbols),
        Err(LinkError::UnsupportedRelocation(_))
    ));
    let wide = patch(RelocationKind::Relative, RelocationEncoding::Generic, 64, to("f"));
    assert!(matches!(
        apply_relocation(&mut content, &wide, 0, ".text", &addresses(), &symbols),
        Err(LinkError::UnsupportedRelocation(_))
    ));

    let missing = patch(RelocationKind::Relative, RelocationEncoding::Generic, 32, to("g"));
    match apply_relocation(&mut content, &missing, 0, ".text", &addresses(), &symbols) {
        Err(LinkError::Undefined(name)) => assert_eq!(name, "g"),
        _ => panic!("an undefined symbol must be reported"),
    }
    let homeless = patch(RelocationKind::Relative, RelocationEncoding::Generic, 32, to("lost"));
    match apply_relocation(&mut content, &homeless, 0, ".text", &addresses(), &symbols) {
        Err(LinkError::Undefined(name)) => assert_eq!(name, ".gone"),
        _ => panic!("a symbol in a section without address must be reported"),
    }

    let mut short = vec![0; 7];
    let fits_not = patch(RelocationKind::Relative, RelocationEncoding::Generic, 32, to("f"));
    match apply_relocation(&mut short, &fits_not, 0, ".text", &addresses(), &symbols) {
        Err(LinkError::Malformed(name)) => assert_eq!(name, ".text"),
        _ => panic!("a place beyond the section must be reported"),
    }
    assert_eq!(short, vec![0; 7]);
    let mut exact = vec![0; 8];
    apply_relocation(&mut exact, &fits_not, 0, ".text", &addresses(), &symbols).unwrap();
    assert_eq!(content, vec![0; 16]);
}

#[test]
fn addresses_are_load_address_plus_offset() {
    let mut text = OutputSection {
        name: ".text".to_string(),
        content: vec![0; 4],
        offset: 0x1000,
        relocations: vec![],
        is_executable: true,
        is_writable: false,
        is_bss: false,
        section_index: None,
        name_string_id: None,
    };
    let assigned = assign_addresses(&vec![], &vec![], None, 0x400000);
    assert!(assigned.is_empty());
    text.offset = 0x3000;
    let assigned = assign_addresses(&[text].into_iter().collect(), &vec![], Some(0x5008), 0x400000);
    assert_eq!(section_address(&assigned, ".text"), Some(0x403000));
    assert_eq!(section_address(&assigned, ".dynamic"), Some(0x405008));
    assert_eq!(section_address(&assigned, ".data"), None);
    let twice = vec![
        SectionAddress { name: ".x".to_string(), address: 1 },
        SectionAddress { name: ".x".to_string(), address: 2 },
    ];
    assert_eq!(section_address(&twice, ".x"), Some(2));
}

#[test]
fn linkage_tables_for_two_imports() {
    let mut sections = vec![];
    let mut symbols = vec![plain_symbol("puts", ".text", 0, true)];
    let slots = synthesize(&mut sections, &mut symbols, &names(&["puts", "exit"])).unwrap();
    assert_eq!(sections.len(), 2);
    assert_eq!(sections[0].name, ".plt");
    assert_eq!(sections[1].name, ".got.plt");
    assert!(sections[0].is_executable);
    assert_eq!(sections[0].content.len(), 16 + 16 * 2);
    assert_eq!(sections[1].content.len(), 24 + 8 * 2);
    assert_eq!(slots.len(), 2);
    assert_eq!(
        sections[0].content,
        vec![
            0xff, 0x35, 0, 0, 0, 0, 0xff, 0x25, 0, 0, 0, 0, 0x0f, 0x1f, 0x40, 0x00, // header
            0xff, 0x25, 0, 0, 0, 0, 0x68, 0, 0, 0, 0, 0xe9, 0, 0, 0, 0, // stub 0
            0xff, 0x25, 0, 0, 0, 0, 0x68, 1, 0, 0, 0, 0xe9, 0, 0, 0, 0, // stub 1
        ]
    );
    assert_eq!(sections[1].content, vec![0; 40]);

    let plt: Vec<(u64, i64, String)> = sections[0]
        .relocations
        .iter()
        .map(|r| match &r.target {
            RelocationTarget::Section(t) => (r.offset, r.addend, t.0.clone()),
            RelocationTarget::Symbol(_) => panic!("the stubs point at sections"),
        })
        .collect();
    assert_eq!(
        plt,
        vec![
            (2, 4, ".got.plt".to_string()),
            (8, 12, ".got.plt".to_string()),
            (18, 20, ".got.plt".to_string()),
            (28, -4, ".plt".to_string()),
            (34, 28, ".got.plt".to_string()),
            (44, -4, ".plt".to_string()),
        ]
    );
    for r in &sections[0].relocations {
        assert_eq!((r.kind, r.encoding, r.size), (RelocationKind::Relative, RelocationEncoding::Generic, 32));
    }
    let got: Vec<(u64, i64, String)> = sections[1]
        .relocations
        .iter()
        .map(|r| match &r.target {
            RelocationTarget::Section(t) => (r.offset, r.addend, t.0.clone()),
            RelocationTarget::Symbol(_) => panic!("the slots point at sections"),
        })
        .collect();
    assert_eq!(
        got,
        vec![(0, 0, ".dynamic".to_string()), (24, 22, ".plt".to_string()), (32, 38, ".plt".to_string())]
    );
    for r in &sections[1].relocations {
        assert_eq!((r.kind, r.encoding, r.size), (RelocationKind::Absolute, RelocationEncoding::Generic, 64));
    }

    let records: Vec<(u64, u32, u32, i64)> =
        slots.iter().map(|r| (r.r_offset, r.r_sym, r.r_type, r.r_addend)).collect();
    assert_eq!(records, vec![(24, 1, 7, 0), (32, 2, 7, 0)]);

    let listed: Vec<(&str, &str, u64, bool, bool)> = symbols
        .iter()
        .map(|s| (s.name.as_str(), s.section_name.as_str(), s.offset, s.is_global, s.is_plt))
        .collect();
    assert_eq!(
        listed,
        vec![
            ("puts", ".plt", 16, true, true),
            ("_GLOBAL_OFFSET_TABLE_", ".got.plt", 0, false, false),
            ("exit", ".plt", 32, true, true),
        ]
    );
}

#[test]
fn linkage_tables_are_made_once() {
    let mut sections = vec![];
    let mut symbols = vec![];
    let slots = synthesize(&mut sections, &mut symbols, &vec![]).unwrap();
    assert!(slots.is_empty());
    assert_eq!(sections[0].content.len(), 16);
    assert_eq!(sections[1].content.len(), 24);
    assert!(matches!(synthesize(&mut sections, &mut symbols, &vec![]), Err(LinkError::Bug)));
}

#[test]
fn hashes_of_known_names() {
    let exports = names(&["", "printf", "exit", "syscall"]);
    assert_eq!(make_gnu_hashes(&exports), vec![0x0000_1505, 0x156b_2bb8, 0x7c96_7e3f, 0xbac2_12a0]);
    assert_eq!(
        make_sysv_hashes(2, &exports),
        vec![None, None, None, Some(0), Some(0x0779_05a6), Some(0x0006_cf04), Some(0x0b09_985c)]
    );
    assert_eq!(make_sysv_hashes(0, &vec![]), vec![None]);
    assert!(make_gnu_hashes(&vec![]).is_empty());
}

#[test]
fn exports_are_ordered_by_bucket() {
    let exports = names(&["printf", "exit", "syscall", "puts", "malloc", "free", "exit2"]);
    let sorted = sort_by_bucket(&exports);
    assert_eq!(sorted.len(), exports.len());
    let hashes = make_gnu_hashes(&sorted);
    let buckets: Vec<u32> = hashes.iter().map(|h| h % 7).collect();
    for pair in buckets.windows(2) {
        assert!(pair[0] <= pair[1]);
    }
    let mut before: Vec<&str> = exports.iter().map(|e| e.name.as_str()).collect();
    let mut after: Vec<&str> = sorted.iter().map(|e| e.name.as_str()).collect();
    before.sort();
    after.sort();
    assert_eq!(before, after);

    // of three buckets, syscall falls in bucket 0, printf and exit in bucket 1
    let three = sort_by_bucket(&names(&["printf", "exit", "syscall"]));
    let order: Vec<&str> = three.iter().map(|e| e.name.as_str()).collect();
    assert_eq!(order, vec!["syscall", "printf", "exit"]);
    // of two buckets, printf and syscall fall in bucket 0, exit in bucket 1
    let two = sort_by_bucket(&names(&["exit", "printf"]));
    let order: Vec<&str> = two.iter().map(|e| e.name.as_str()).collect();
    assert_eq!(order, vec!["printf", "exit"]);
    assert!(sort_by_bucket(&vec![]).is_empty());
}

#[test]
fn local_symbols_come_first() {
    let symbols = vec![
        plain_symbol("a", ".text", 0, true),
        plain_symbol("b", ".text", 0, false),
        plain_symbol("c", ".text", 0, true),
        plain_symbol("d", ".text", 0, false),
        plain_symbol("e", ".text", 0, false),
    ];
    assert_eq!(order_symbols(&symbols), vec![1, 3, 4, 0, 2]);
    assert_eq!(count_locals(&symbols), 3);
    assert_eq!(order_symbols(&vec![]), Vec::<usize>::new());
    assert_eq!(count_locals(&vec![]), 0);
}

fn info(sysv: bool, gnu: bool, dynamic_link: bool) -> DynamicInfo {
    DynamicInfo {
        hash_style: HashStyle { sysv, gnu },
        hash: 0x100,
        gnu_hash: 0x200,
        strtab: 0x300,
        symtab: 0x400,
        strsz: 77,
        soname: None,
        dynamic_link,
        pltgot: 0x500,
        pltrelsz: 48,
        jmprel: 0x600,
    }
}

fn numbers(info: &DynamicInfo) -> Vec<(u32, u64)> {
    build_dynamic_table(info, &vec![])
        .iter()
        .map(|e| match e.value {
            DynamicValue::Number(value) => (e.tag, value),
            DynamicValue::String(_) => panic!("no string was given"),
        })
        .collect()
}

#[test]
fn dynamic_table_in_its_order() {
    assert_eq!(
        numbers(&info(true, true, true)),
        vec![
            (DT_HASH, 0x100),
            (DT_GNU_HASH, 0x200),
            (DT_STRTAB, 0x300),
            (DT_SYMTAB, 0x400),
            (DT_STRSZ, 77),
            (DT_SYMENT, 24),
            (DT_PLTGOT, 0x500),
            (DT_PLTRELSZ, 48),
            (DT_PLTREL, 7),
            (DT_JMPREL, 0x600),
            (DT_NULL, 0),
        ]
    );
    assert_eq!(
        numbers(&info(false, false, false)),
        vec![(DT_STRTAB, 0x300), (DT_SYMTAB, 0x400), (DT_STRSZ, 77), (DT_SYMENT, 24), (DT_NULL, 0)]
    );
    assert_eq!(numbers(&info(true, false, false)).len(), 6);
    assert_eq!(numbers(&info(false, true, false))[0], (DT_GNU_HASH, 0x200));
}

#[test]
fn stages_of_the_linker_on_plain_inputs() {
    let opt = parse_opts(&vec!["-shared".to_string(), "a.o".to_string()]).unwrap();
    let mut linker = Linker::new(opt);
    let a = object(
        "a.o",
        vec![section(".text", &[0xc3], 0x6)],
        vec![defined("printf", 1, 0, true), defined("exit", 1, 0, true), defined("hidden", 1, 0, false)],
    );
    let library = InputObject {
        name: "libc.so".to_string(),
        is_dynamic: true,
        sections: vec![],
        symbols: vec![],
        dynamic_symbols: vec![null_symbol(), defined("write", 1, 0, true), null_symbol()],
    };
    linker.add_objects(&vec![a, library]).unwrap();
    assert!(linker.dynamic_link);
    assert_eq!(linker.needed.len(), 1);
    assert_eq!(linker.needed[0].name, "libc.so");
    let imports: Vec<&str> = linker.plt_dynamic_symbols.iter().map(|s| s.name.as_str()).collect();
    assert_eq!(imports, vec!["write"]);
    let exports: Vec<&str> = linker.dynamic_symbols.iter().map(|s| s.name.as_str()).collect();
    assert_eq!(exports, vec!["printf", "exit"]);

    linker.synthesize().unwrap();
    let exports: Vec<&str> = linker.dynamic_symbols.iter().map(|s| s.name.as_str()).collect();
    // of two buckets, printf falls in bucket 0 and exit in bucket 1
    assert_eq!(exports, vec!["printf", "exit"]);
    let order: Vec<&str> = linker.output_sections.iter().map(|s| s.name.as_str()).collect();
    assert_eq!(order, vec![".text", ".plt", ".got.plt"]);
    assert_eq!(linker.output_relocations.len(), 1);
    assert_eq!(linker.output_relocations[0].name, ".rela.plt");
    assert_eq!(linker.output_relocations[0].relocations.len(), 1);
    let listed: Vec<&str> = linker.symbols.iter().map(|s| s.name.as_str()).collect();
    assert_eq!(listed, vec!["printf", "exit", "hidden", "_DYNAMIC", "_GLOBAL_OFFSET_TABLE_", "write"]);

    linker.relocate().unwrap();
    assert_eq!(section_address(&linker.section_address, ".text"), Some(0));
    assert_eq!(section_address(&linker.section_address, ".dynamic"), Some(0));
}

#[test]
fn an_executable_that_imports_needs_a_dynamic_linker() {
    let opt = parse_opts(&vec!["a.o".to_string()]).unwrap();
    let mut linker = Linker::new(opt);
    let library = InputObject {
        name: "libc.so".to_string(),
        is_dynamic: true,
        sections: vec![],
        symbols: vec![],
        dynamic_symbols: vec![null_symbol(), defined("write", 1, 0, true)],
    };
    linker.add_objects(&vec![library]).unwrap();
    assert!(matches!(linker.synthesize(), Err(LinkError::Bug)));
}
