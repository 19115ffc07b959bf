use cold::opt::{parse_opts, ObjectFileOpt};

fn args(list: &[&str]) -> Vec<String> {
    list.iter().map(|s| s.to_string()).collect()
}

#[test]
fn lib_test_push_pop_state() {
    let opts = cold::parse_opts(&vec![
        "-la".to_string(),
        "--push-state".to_string(),
        "--as-needed".to_string(),
        "-lb".to_string(),
        "--pop-state".to_string(),
        "-lc".to_string(),
    ])
    .unwrap();

    assert_eq!(opts.obj_file.len(), 3);
    if let cold::ObjectFileOpt::Library(lib) = &opts.obj_file[0] {
        assert_eq!(lib.name, "a");
        assert_eq!(lib.as_needed, false);
    } else {
        assert!(false);
    }

    if let cold::ObjectFileOpt::Library(lib) = &opts.obj_file[1] {
        assert_eq!(lib.name, "b");
        assert_eq!(lib.as_needed, true);
    } else {
        assert!(false);
    }

    if let cold::ObjectFileOpt::Library(lib) = &opts.obj_file[2] {
        assert_eq!(lib.name, "c");
        assert_eq!(lib.as_needed, false);
    } else {
        assert!(false);
    }
}

#[test]
fn opt_test_push_pop_state() {
    let opts = parse_opts(&vec![
        "-la".to_string(),
        "--push-state".to_string(),
        "--as-needed".to_string(),
        "-lb".to_string(),
        "--pop-state".to_string(),
        "-lc".to_string(),
    ])
    .unwrap();

    assert_eq!(opts.obj_file.len(), 3);
    if let ObjectFileOpt::Library(lib) = &opts.obj_file[0] {
        assert_eq!(lib.name, "a");
        assert_eq!(lib.as_needed, false);
    } else {
        assert!(false);
    }

    if let ObjectFileOpt::Library(lib) = &opts.obj_file[1] {
        assert_eq!(lib.name, "b");
        assert_eq!(lib.as_needed, true);
    } else {
        assert!(false);
    }

    if let ObjectFileOpt::Library(lib) = &opts.obj_file[2] {
        assert_eq!(lib.name, "c");
        assert_eq!(lib.as_needed, false);
    } else {
        assert!(false);
    }
}

#[test]
fn flags_with_values_take_the_next_argument() {
    let opts = parse_opts(&args(&[
        "-o", "a.out", "-m", "elf_x86_64", "-dynamic-linker", "/lib64/ld.so", "-soname", "libx.so.1",
    ]))
    .unwrap();
    assert_eq!(opts.output.as_deref(), Some("a.out"));
    assert_eq!(opts.emulation.as_deref(), Some("elf_x86_64"));
    assert_eq!(opts.dynamic_linker.as_deref(), Some("/lib64/ld.so"));
    assert_eq!(opts.soname.as_deref(), Some("libx.so.1"));
    assert!(opts.obj_file.is_empty());
}
