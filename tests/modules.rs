use dbg_rs::error::DbgError;
use dbg_rs::module::{
    is_unloaded_name, loaded_module_names, module_segment_of, removal_step, synthetic_module, Module, RemovalCall,
};

#[test]
fn module_from_address_and_name() {
    assert_eq!(Module::from(0x7fff_0000u64), Module::Address(0x7fff_0000));
    assert_eq!(Module::from("example.dll"), Module::Name("example.dll".to_string()));
    assert_eq!(Module::from_name("a"), Module::Name("a".to_string()));
}

#[test]
fn removal_by_address_is_direct() {
    assert_eq!(removal_step(&Module::Address(0x1000), None), Ok(RemovalCall::RemoveAt(0x1000)));
}

#[test]
fn removal_by_name_looks_up_first() {
    let m = Module::Name("mod".to_string());
    assert_eq!(removal_step(&m, None), Ok(RemovalCall::ResolveName(vec![109, 111, 100, 0])));
    assert_eq!(removal_step(&m, Some(0x2000)), Ok(RemovalCall::RemoveAt(0x2000)));
}

#[test]
fn removal_by_name_with_nul_is_refused() {
    let m = Module::Name("mo\0d".to_string());
    assert_eq!(removal_step(&m, None), Err(DbgError::InvalidString(2)));
}

#[test]
fn removal_by_name_matches_removal_by_address() {
    let m = synthetic_module(0x4000, 0x100, "synth", Ok(Some("C:\\img\\synth.dll"))).unwrap();
    let by_name = Module::from("synth");
    match removal_step(&by_name, None) {
        Ok(RemovalCall::ResolveName(c)) => assert_eq!(c, m.module_name),
        other => panic!("unexpected {:?}", other),
    }
    let resolved = m.base;
    assert_eq!(removal_step(&by_name, Some(resolved)), removal_step(&Module::from(m.base), None));
}

#[test]
fn synthetic_module_encodes_name_and_path() {
    let m = synthetic_module(0x4000, 0x100, "ab", Ok(Some("/p"))).unwrap();
    assert_eq!(m.base, 0x4000);
    assert_eq!(m.size, 0x100);
    assert_eq!(m.module_name, vec![97, 98, 0]);
    assert_eq!(m.image_path, vec![47, 112, 0]);
}

#[test]
fn synthetic_module_errors() {
    assert_eq!(
        synthetic_module(0, 1, "ab", Ok(None)),
        Err(DbgError::DbgGeneralError("Invalid Image Path"))
    );
    assert_eq!(
        synthetic_module(0, 1, "ab", Err(DbgError::IoError("not found".to_string()))),
        Err(DbgError::IoError("not found".to_string()))
    );
    assert_eq!(synthetic_module(0, 1, "ab", Ok(Some("/a\0"))), Err(DbgError::InvalidString(2)));
    assert_eq!(synthetic_module(0, 1, "\0", Ok(None)), Err(DbgError::InvalidString(0)));
}

#[test]
fn unloaded_marker_is_recognized() {
    assert!(is_unloaded_name("<Unloaded_foo.dll>+0x10"));
    assert!(is_unloaded_name("x<Unloaded_"));
    assert!(!is_unloaded_name("ntdll!RtlUserThreadStart"));
    assert!(!is_unloaded_name("<Unloaded"));
    assert!(!is_unloaded_name(""));
}

#[test]
fn module_segment_stops_at_bang() {
    assert_eq!(module_segment_of("ntdll!NtClose"), "ntdll");
    assert_eq!(module_segment_of("kernel32"), "kernel32");
    assert_eq!(module_segment_of("a!b!c"), "a");
    assert_eq!(module_segment_of("!x"), "");
}

#[test]
fn listing_yields_loaded_modules_only() {
    let names = vec![
        Some("ntdll!RtlUserThreadStart".to_string()),
        Some("<Unloaded_old.dll>+0x0".to_string()),
        None,
        Some("kernel32".to_string()),
    ];
    let listed = loaded_module_names(&names);
    assert_eq!(listed, vec!["ntdll".to_string(), "<unknown>".to_string(), "kernel32".to_string()]);
}

#[test]
fn listing_of_no_modules_is_empty() {
    assert!(loaded_module_names(&Vec::new()).is_empty());
}
