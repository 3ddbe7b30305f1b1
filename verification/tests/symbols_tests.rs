use lib::linux_symbols::{
    parse_kallsyms_text, parse_system_map_text, LinuxKernelSymbol, LinuxSymbolTable, ProfileError,
};

fn detail(err: ProfileError) -> String {
    match err {
        ProfileError::MalformedProfile { detail } => detail,
        other => panic!("unexpected {other:?}"),
    }
}

#[test]
fn kallsyms_text_is_read_and_sorted_by_address() {
    let text = "# comment\nffffffff81000200 T do_sys_open\n\nffffffff81000100 t helper [ext4]\n0xffffffff81000300 D ext4_data [ext4]\n";
    let table = parse_kallsyms_text(text).unwrap();
    let names: Vec<&str> = table.symbols().iter().map(|s| s.name.as_str()).collect();
    assert_eq!(names, vec!["helper", "do_sys_open", "ext4_data"]);
    assert_eq!(table.symbols()[0].module.as_deref(), Some("ext4"));
    assert_eq!(table.symbols()[2].address, 0xffffffff81000300);
    assert_eq!(table.unique_by_name("do_sys_open").unwrap().kind, 'T');
    let containing = table.symbol_containing(0xffffffff81000250).unwrap();
    assert_eq!(containing.name, "do_sys_open");
    assert!(table.symbol_containing(0x10).is_none());
}

#[test]
fn symbol_table_lookups_report_missing_and_ambiguous_names() {
    let mut table = LinuxSymbolTable::new();
    for address in [0x20u64, 0x10] {
        table.insert(LinuxKernelSymbol { address, kind: 't', name: "dup".to_string(), module: None });
    }
    assert_eq!(table.by_name("dup").len(), 2);
    assert_eq!(table.by_name("dup")[0].address, 0x20);
    assert_eq!(table.symbols()[0].address, 0x10);
    match table.unique_by_name("dup").unwrap_err() {
        ProfileError::InconsistentSnapshot { detail } => {
            assert_eq!(detail, "symbol 'dup' is ambiguous in guest symbol table")
        }
        other => panic!("unexpected {other:?}"),
    }
    match table.unique_by_name("none").unwrap_err() {
        ProfileError::MissingProfileIdentity { os, arch, kernel_or_build } => {
            assert_eq!((os.as_str(), arch.as_str(), kernel_or_build.as_str()), ("linux", "x86_64", "symbol:none"))
        }
        other => panic!("unexpected {other:?}"),
    }
}

#[test]
fn symbol_text_errors_name_line_and_field() {
    assert_eq!(detail(parse_kallsyms_text("# only\n\n").unwrap_err()), "symbol map does not contain any symbols");
    assert_eq!(detail(parse_kallsyms_text("zz T a\n").unwrap_err()), "line 1: invalid symbol address 'zz'");
    assert_eq!(detail(parse_kallsyms_text("10\n").unwrap_err()), "line 1: missing symbol type");
    assert_eq!(detail(parse_kallsyms_text("10 TT a\n").unwrap_err()), "line 1: invalid symbol type 'TT'");
    assert_eq!(detail(parse_kallsyms_text("\n10 T\n").unwrap_err()), "line 2: missing symbol name");
    assert_eq!(detail(parse_kallsyms_text("10 T a b\n").unwrap_err()), "module suffix 'b' must use [module] form");
    assert_eq!(detail(parse_kallsyms_text("10 T a [m] x\n").unwrap_err()), "line 1: symbol line has too many fields");
    assert_eq!(detail(parse_kallsyms_text("10 T a$b\n").unwrap_err()), "line 1: symbol name 'a$b' is not valid");
    assert_eq!(
        detail(parse_system_map_text("10 T a [m]\n").unwrap_err()),
        "line 1: System.map entries must not include a module suffix"
    );
    assert_eq!(
        detail(parse_kallsyms_text("00000000000000001 T a\n").unwrap_err()),
        "line 1: invalid symbol address '00000000000000001'"
    );
    assert_eq!(parse_system_map_text("+ff T a\n").unwrap().symbols()[0].address, 0xff);
}
