use stozher_kernel::keys::{
    derivation_path, require_owner_only, KeyId, Seed, ROLE_KERNEL_CHECKPOINT,
};

#[test]
fn key_material_is_not_in_the_debug_output() {
    let seed = Seed::generate().unwrap();
    assert_eq!(seed.shown(), "Seed(<redacted>)");
}

#[test]
fn a_seed_that_was_written_is_read_back() {
    let seed = Seed::generate().unwrap();
    let held = seed.file_text();
    assert_eq!(held.trim().len(), 64);
    let again = Seed::parse(&held, "kernel.seed").unwrap();
    assert_eq!(again.material(), seed.material());
    assert_ne!(Seed::generate().unwrap().material(), seed.material());
}

#[test]
fn a_seed_file_holds_sixty_four_lowercase_hexadecimal_digits() {
    assert_eq!(Seed::parse(&"ab".repeat(32), "s").unwrap().material(), [0xab_u8; 32]);
    for bad in ["", "zz", &"AB".repeat(32), &"ab".repeat(31), &"zz".repeat(32)] {
        assert!(Seed::parse(bad, "s").is_err(), "{bad}");
    }
}

#[test]
fn only_the_owner_may_read_a_seed() {
    assert!(require_owner_only("kernel.seed", 0o600).is_ok());
    assert!(require_owner_only("kernel.seed", 0o100_400).is_ok());
    let refused = require_owner_only("kernel.seed", 0o100_640).unwrap_err();
    assert_eq!(refused.code(), "key-file-permissions");
    assert!(refused.detail().contains("0640"), "{}", refused.detail());
}

#[test]
fn keys_are_named_and_derived_by_path() {
    assert_eq!(derivation_path(ROLE_KERNEL_CHECKPOINT, 0), "m/1054'/3'/0'");
    let name = format!("ed25519:{}", "0a".repeat(32));
    assert_eq!(KeyId::parse(&name).unwrap().as_str(), name);
    for bad in ["ed25519:00", "rsa:0a", "", &name.to_uppercase()] {
        assert_eq!(KeyId::parse(bad).unwrap_err().code(), "key-id-malformed");
    }
}
