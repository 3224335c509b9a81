use powdr::riscv::{
    bundle_asm, cargo_build_args, cargo_manifest_path, crate_manifest, is_asm_file, may_write,
    merge_asm, powdr_asm_file_name, riscv_asm_file_name,
};

#[test]
fn manifest_path_of_a_crate() {
    assert_eq!(cargo_manifest_path("crates/foo/Cargo.toml"), "crates/foo/Cargo.toml");
    assert_eq!(cargo_manifest_path("crates/foo"), "crates/foo/Cargo.toml");
}

#[test]
fn output_file_names() {
    assert_eq!(riscv_asm_file_name("examples/sum.rs"), Some("sum_riscv.asm".to_string()));
    assert_eq!(powdr_asm_file_name("examples/sum.rs"), Some("sum.asm".to_string()));
    assert_eq!(powdr_asm_file_name("archive.tar.gz"), Some("archive.tar.asm".to_string()));
    assert_eq!(riscv_asm_file_name(".."), None);
    assert_eq!(powdr_asm_file_name("/"), None);
}

#[test]
fn existing_files_are_kept_unless_forced() {
    assert!(may_write(false, false));
    assert!(may_write(false, true));
    assert!(may_write(true, true));
    assert!(!may_write(true, false));
}

#[test]
fn merging_puts_each_file_on_new_lines() {
    let files = vec![
        ("a.s".to_string(), "A".to_string()),
        ("b.s".to_string(), "B\nC".to_string()),
    ];
    assert_eq!(merge_asm(&files), "\nA\nB\nC");
    assert_eq!(merge_asm(&[]), "");
    assert_eq!(bundle_asm(&["x".to_string(), "y".to_string()]), "\n\nx\n\ny");
}

#[test]
fn crate_manifest_names_the_crate() {
    assert_eq!(
        crate_manifest("programs/sum.rs"),
        Some(
            "[package]\nname = \"sum\"\nversion = \"0.1.0\"\nedition = \"2021\"\n            "
                .to_string()
        )
    );
    assert_eq!(crate_manifest(".."), None);
}

#[test]
fn asm_files_and_cargo_arguments() {
    assert!(is_asm_file("lib-1234.s"));
    assert!(!is_asm_file("lib.rs"));
    assert_eq!(
        cargo_build_args("/tmp/t", "/x/Cargo.toml"),
        vec![
            "build",
            "--release",
            "-Z",
            "build-std=core",
            "--target",
            "riscv32imc-unknown-none-elf",
            "--lib",
            "--target-dir",
            "/tmp/t",
            "--manifest-path",
            "/x/Cargo.toml",
        ]
    );
}
