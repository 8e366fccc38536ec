//! Canonical register-set resolution.

use debug_sessions::registers::{canonical_registers, lookup_register, resolve_read_set};

#[test]
fn register_names_resolve_case_insensitively() {
    assert_eq!(lookup_register("R0"), Some(0));
    assert_eq!(lookup_register("r0"), Some(0));
    assert_eq!(lookup_register("r7"), Some(7));
    assert_eq!(lookup_register("R12"), Some(12));
    assert_eq!(lookup_register("r12"), Some(12));
}

#[test]
fn register_aliases_resolve_to_the_same_ids() {
    assert_eq!(lookup_register("SP"), Some(13));
    assert_eq!(lookup_register("sp"), Some(13));
    assert_eq!(lookup_register("Sp"), Some(13));
    assert_eq!(lookup_register("R13"), Some(13));
    assert_eq!(lookup_register("LR"), Some(14));
    assert_eq!(lookup_register("lr"), Some(14));
    assert_eq!(lookup_register("r14"), Some(14));
    assert_eq!(lookup_register("PC"), Some(15));
    assert_eq!(lookup_register("pc"), Some(15));
    assert_eq!(lookup_register("r15"), Some(15));
}

#[test]
fn unknown_register_names_resolve_to_nothing() {
    assert_eq!(lookup_register("bogus"), None);
    assert_eq!(lookup_register(""), None);
    assert_eq!(lookup_register("R16"), None);
    assert_eq!(lookup_register("X0"), None);
    assert_eq!(lookup_register("R1X"), None);
}

#[test]
fn canonical_set_is_the_sixteen_core_registers() {
    let regs = canonical_registers();
    let names: Vec<&str> = regs.iter().map(|p| p.0.as_str()).collect();
    assert_eq!(
        names,
        vec![
            "R0", "R1", "R2", "R3", "R4", "R5", "R6", "R7", "R8", "R9", "R10", "R11", "R12",
            "SP", "LR", "PC",
        ]
    );
    let ids: Vec<u8> = regs.iter().map(|p| p.1).collect();
    assert_eq!(ids, (0u8..16).collect::<Vec<u8>>());
}

#[test]
fn canonical_names_resolve_to_their_own_ids() {
    for (name, id) in canonical_registers() {
        assert_eq!(lookup_register(&name), Some(id));
    }
}

#[test]
fn empty_request_reads_the_whole_canonical_set() {
    let plan = resolve_read_set(&vec![]);
    assert_eq!(plan.len(), 16);
    assert_eq!(plan[0].0.as_str(), "R0");
    assert_eq!(plan[13].0.as_str(), "SP");
    assert_eq!(plan[15], ("PC".to_string(), 15));
}

#[test]
fn unknown_names_are_skipped_from_the_read_plan() {
    let plan = resolve_read_set(&vec!["bogus".to_string()]);
    assert!(plan.is_empty());

    let plan = resolve_read_set(&vec![
        "pc".to_string(),
        "bogus".to_string(),
        "r13".to_string(),
    ]);
    assert_eq!(
        plan,
        vec![("pc".to_string(), 15), ("r13".to_string(), 13)]
    );
}
