use cold::model::LinkError;
use cold::opt::{parse_opts, ObjectFileOpt, Opt, OptError, ValueFlag};
use cold::resolve::{input_files, is_among, join, library_candidates, lookup_file, path_resolution};
use cold::text::{appended, ends_with, same_text, starts_with, tail_from};

fn strings(list: &[&str]) -> Vec<String> {
    list.iter().map(|s| s.to_string()).collect()
}

fn options(list: &[&str]) -> Opt {
    parse_opts(&strings(list)).unwrap()
}

fn file_names(opt: &Opt) -> Vec<(String, bool)> {
    opt.obj_file
        .iter()
        .map(|item| match item {
            ObjectFileOpt::File(f) => (f.name.clone(), f.as_needed),
            _ => panic!("every input must be a file"),
        })
        .collect()
}

#[test]
fn paths_are_joined_with_one_slash() {
    assert_eq!(join("/usr/lib", "libc.so"), "/usr/lib/libc.so");
    assert_eq!(join("/usr/lib/", "libc.so"), "/usr/lib/libc.so");
    assert_eq!(join("", "libc.so"), "libc.so");
    assert_eq!(join(".", "libc.a"), "./libc.a");
    assert_eq!(join("/", "x"), "/x");
}

#[test]
fn a_file_is_found_in_the_first_directory_that_has_it() {
    let dirs = strings(&["/a", "/b", "/c"]);
    let existing = strings(&["/c/libx.so", "/b/libx.so", "/b/liby.a"]);
    assert_eq!(lookup_file("libx.so", &dirs, &existing).unwrap(), "/b/libx.so");
    assert_eq!(lookup_file("liby.a", &dirs, &existing).unwrap(), "/b/liby.a");
    match lookup_file("libz.so", &dirs, &existing) {
        Err(LinkError::FileNotFound(name)) => assert_eq!(name, "libz.so"),
        _ => panic!("a file that is nowhere must be reported"),
    }
    assert!(matches!(lookup_file("libx.so", &vec![], &existing), Err(LinkError::FileNotFound(_))));
    assert!(is_among(&existing, "/b/liby.a"));
    assert!(!is_among(&existing, "/b/liby"));
}

#[test]
fn a_shared_object_is_taken_before_an_archive() {
    let opt = options(&["-L/a", "-L/b", "start.o", "-lx", "--as-needed", "-ly", "-static", "-lx"]);
    let existing = strings(&["/a/libx.a", "/b/libx.so", "/b/liby.a"]);
    let resolved = path_resolution(&opt, &existing).unwrap();
    assert_eq!(
        file_names(&resolved),
        vec![
            ("start.o".to_string(), false),
            ("/b/libx.so".to_string(), false),
            ("/b/liby.a".to_string(), true),
            ("/a/libx.a".to_string(), true),
        ]
    );
    assert_eq!(resolved.search_dir, strings(&["/a", "/b"]));
    assert_eq!(resolved.shared, opt.shared);
}

#[test]
fn a_library_that_is_nowhere_fails_the_resolution() {
    let opt = options(&["-L/a", "-lx"]);
    match path_resolution(&opt, &vec![]) {
        Err(LinkError::FileNotFound(name)) => assert_eq!(name, "libx.a"),
        _ => panic!("a library that is nowhere must be reported"),
    }
    // a shared object does not serve a library that is linked statically
    let fixed = options(&["-L/a", "-static", "-lx"]);
    assert!(matches!(
        path_resolution(&fixed, &strings(&["/a/libx.so"])),
        Err(LinkError::FileNotFound(_))
    ));
}

#[test]
fn groups_pass_through_the_resolution() {
    let opt = options(&["--start-group", "a.o", "--end-group"]);
    let resolved = path_resolution(&opt, &vec![]).unwrap();
    assert_eq!(resolved.obj_file.len(), 3);
    assert!(matches!(resolved.obj_file[0], ObjectFileOpt::StartGroup));
    assert!(matches!(resolved.obj_file[2], ObjectFileOpt::EndGroup));
    let files = input_files(&resolved).unwrap();
    assert_eq!(files.len(), 1);
    assert_eq!(files[0].name, "a.o");
}

#[test]
fn candidates_are_asked_in_the_order_of_the_lookup() {
    let opt = options(&["-L/a", "-L/b/", "x.o", "-lm", "-static", "-lc"]);
    assert_eq!(
        library_candidates(&opt),
        strings(&["/a/libm.so", "/a/libm.a", "/b/libm.so", "/b/libm.a", "/a/libc.a", "/b/libc.a"])
    );
    assert!(library_candidates(&options(&["x.o"])).is_empty());
}

#[test]
fn an_unresolved_library_is_no_input_file() {
    assert!(matches!(input_files(&options(&["a.o", "-lc"])), Err(LinkError::Bug)));
    let files = input_files(&options(&["a.o", "--as-needed", "b.o"])).unwrap();
    let listed: Vec<(&str, bool)> = files.iter().map(|f| (f.name.as_str(), f.as_needed)).collect();
    assert_eq!(listed, vec![("a.o", false), ("b.o", true)]);
}

#[test]
fn text_helpers() {
    assert!(starts_with("-lfoo", "-l"));
    assert!(starts_with("abc", ""));
    assert!(!starts_with("-", "-l"));
    assert!(!starts_with("xl", "-l"));
    assert!(ends_with("libc.a", ".a"));
    assert!(!ends_with("libc.so", ".a"));
    assert!(!ends_with("a", ".a"));
    assert!(same_text("é", "é"));
    assert!(!same_text("a", "ab"));
    assert_eq!(tail_from("-Lé/x", 2), "é/x");
    assert_eq!(tail_from("ab", 2), "");
    assert_eq!(appended("lib", "c"), "libc");
}

#[test]
fn every_flag_is_read() {
    let opt = options(&[
        "--build-id",
        "--eh-frame-hdr",
        "-pie",
        "-shared",
        "-plugin",
        "liblto.so",
        "-plugin-opt=-pass-through=-lgcc",
        "-L/usr/lib",
        "-L",
        "-m",
        "elf_x86_64",
        "--hash-style=gnu",
        "--start-group",
        "-lc",
        "--end-group",
        "crt1.o",
    ]);
    assert!(opt.build_id && opt.eh_frame_hdr && opt.pie && opt.shared);
    assert_eq!(opt.search_dir, strings(&["/usr/lib", ""]));
    assert_eq!(opt.emulation.as_deref(), Some("elf_x86_64"));
    assert!(!opt.hash_style.sysv && opt.hash_style.gnu);
    assert_eq!(opt.output, None);
    assert_eq!(opt.obj_file.len(), 4);
    assert!(matches!(opt.obj_file[0], ObjectFileOpt::StartGroup));
    match &opt.obj_file[1] {
        ObjectFileOpt::Library(lib) => {
            assert_eq!(lib.name, "c");
            assert!(!lib.link_static);
        },
        _ => panic!("-lc names a library"),
    }
    assert!(matches!(opt.obj_file[2], ObjectFileOpt::EndGroup));
    match &opt.obj_file[3] {
        ObjectFileOpt::File(f) => assert_eq!(f.name, "crt1.o"),
        _ => panic!("crt1.o names a file"),
    }
}

#[test]
fn defaults_and_hash_styles() {
    let opt = options(&[]);
    assert!(opt.hash_style.sysv && opt.hash_style.gnu);
    assert!(!opt.shared && !opt.pie && !opt.build_id && !opt.eh_frame_hdr);
    assert!(opt.obj_file.is_empty() && opt.search_dir.is_empty());
    assert_eq!(opt.soname, None);
    let sysv = options(&["--hash-style=sysv"]);
    assert!(sysv.hash_style.sysv && !sysv.hash_style.gnu);
    let both = options(&["--hash-style=gnu", "--hash-style=both"]);
    assert!(both.hash_style.sysv && both.hash_style.gnu);
    let odd = options(&["--hash-style=sysv", "--hash-style=fancy"]);
    assert!(odd.hash_style.sysv && !odd.hash_style.gnu);
    let fixed = Opt::default();
    assert!(fixed.hash_style.sysv && fixed.hash_style.gnu);
}

#[test]
fn static_and_as_needed_follow_the_state_stack() {
    let opt = options(&[
        "-static", "--push-state", "--as-needed", "-la", "--push-state", "--pop-state", "--pop-state", "-lb", "c.o",
    ]);
    let seen: Vec<(String, bool, bool)> = opt
        .obj_file
        .iter()
        .map(|item| match item {
            ObjectFileOpt::Library(l) => (l.name.clone(), l.as_needed, l.link_static),
            ObjectFileOpt::File(f) => (f.name.clone(), f.as_needed, false),
            _ => panic!("no group was given"),
        })
        .collect();
    assert_eq!(
        seen,
        vec![
            ("a".to_string(), true, true),
            ("b".to_string(), false, true),
            ("c.o".to_string(), false, false),
        ]
    );
}

#[test]
fn rejected_command_lines() {
    for (flag, which, text) in [
        ("-o", ValueFlag::Output, "Missing output after -o"),
        ("-m", ValueFlag::Emulation, "Missing emulation after -m"),
        ("-dynamic-linker", ValueFlag::DynamicLinker, "Missing dynamic linker after -dynamic-linker"),
        ("-soname", ValueFlag::Soname, "Missing soname after -soname"),
    ] {
        match parse_opts(&strings(&["a.o", flag])) {
            Err(OptError::MissingValue(found)) => {
                assert_eq!(found, which);
                assert_eq!(OptError::MissingValue(found).message(), text);
            },
            _ => panic!("a flag without its value must be rejected"),
        }
    }
    match parse_opts(&strings(&["a.o", "--gc-sections", "b.o"])) {
        Err(OptError::UnknownArgument(arg)) => {
            assert_eq!(arg, "--gc-sections");
            assert_eq!(
                OptError::UnknownArgument(arg).message(),
                "Unknown argument: --gc-sections"
            );
        },
        _ => panic!("an unknown flag must be rejected"),
    }
    assert!(matches!(parse_opts(&strings(&["-"])), Err(OptError::UnknownArgument(_))));
    match parse_opts(&strings(&["--push-state", "--pop-state", "--pop-state"])) {
        Err(OptError::UnbalancedPopState) => {
            assert_eq!(OptError::UnbalancedPopState.message(), "--pop-state without --push-state")
        },
        _ => panic!("a state that was not saved cannot be restored"),
    }
    // the value of -plugin is passed over, also where it is missing
    assert!(parse_opts(&strings(&["-plugin"])).unwrap().obj_file.is_empty());
    assert!(parse_opts(&strings(&["-plugin", "--nonsense"])).unwrap().obj_file.is_empty());
    // a value may look like a flag
    assert_eq!(parse_opts(&strings(&["-o", "-x"])).unwrap().output.as_deref(), Some("-x"));
}
