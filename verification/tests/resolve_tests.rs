//! Discovery and resolution decisions: the executable-name byte match,
//! the module-path selection, and the module-count arithmetic.

use classic_trackers::resolve::{
    interpret_exit_code, matches_target_exe, module_count, select_module_base,
    target_exe_name_bytes, ModuleInfo, MODULE_LIST_CAPACITY, STILL_ACTIVE_EXIT_CODE,
};

#[test]
fn exact_name_with_terminator_matches() {
    let buf = b"Spelunky.exe\0".to_vec();
    assert!(matches_target_exe(&buf));
}

#[test]
fn garbage_after_the_name_is_ignored() {
    let mut buf = b"Spelunky.exe\0".to_vec();
    buf.extend_from_slice(&[0xCC; 10]);
    assert!(matches_target_exe(&buf));
}

#[test]
fn name_match_is_case_sensitive_and_length_checked() {
    assert!(!matches_target_exe(&b"spelunky.exe\0".to_vec()));
    assert!(!matches_target_exe(&b"Spelunky.exe".to_vec())); // no terminator
    assert!(!matches_target_exe(&b"Spelunky.exf\0".to_vec()));
    assert!(!matches_target_exe(&Vec::new()));
}

#[test]
fn exported_name_bytes_spell_the_target_executable() {
    assert_eq!(target_exe_name_bytes(), b"Spelunky.exe\0".to_vec());
}

#[test]
fn first_module_matching_the_image_path_wins() {
    let image = b"C:\\Games\\Spelunky\\Spelunky.exe\0".to_vec();
    let modules = vec![
        ModuleInfo { base: 0x1000_0000, path: b"C:\\Windows\\System32\\kernel32.dll\0".to_vec() },
        ModuleInfo { base: 0x0040_0000, path: image.clone() },
        ModuleInfo { base: 0x0050_0000, path: image.clone() },
    ];
    assert_eq!(select_module_base(&image, &modules), Some(0x0040_0000));
}

#[test]
fn no_matching_module_path_resolves_to_nothing() {
    let image = b"C:\\Games\\Spelunky\\Spelunky.exe\0".to_vec();
    let modules = vec![
        ModuleInfo { base: 0x1000_0000, path: b"C:\\Windows\\System32\\ntdll.dll\0".to_vec() },
    ];
    assert_eq!(select_module_base(&image, &modules), None);
    assert_eq!(select_module_base(&image, &Vec::new()), None);
}

#[test]
fn module_path_comparison_is_byte_for_byte() {
    let image = b"C:\\A\\Spelunky.exe\0".to_vec();
    // Same prefix, one extra trailing byte: not a match.
    let mut longer = image.clone();
    longer.push(0);
    let modules = vec![ModuleInfo { base: 0x0040_0000, path: longer }];
    assert_eq!(select_module_base(&image, &modules), None);
}

#[test]
fn module_count_requires_even_division_and_capacity() {
    assert_eq!(module_count(4096, 8, MODULE_LIST_CAPACITY), Some(512));
    assert_eq!(module_count(4097, 8, MODULE_LIST_CAPACITY), None); // uneven
    assert_eq!(module_count(8192, 8, MODULE_LIST_CAPACITY), Some(1024)); // at capacity
    assert_eq!(module_count(8200, 8, MODULE_LIST_CAPACITY), None); // over capacity
    assert_eq!(module_count(0, 8, MODULE_LIST_CAPACITY), Some(0));
}

#[test]
fn only_the_still_active_status_counts_as_alive() {
    assert!(interpret_exit_code(STILL_ACTIVE_EXIT_CODE));
    assert!(!interpret_exit_code(0));
    assert!(!interpret_exit_code(1));
    assert!(!interpret_exit_code(259 + 1));
}
