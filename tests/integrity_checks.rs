use vtg::integrity::{
    fnv1a_32, hash_header, read_version_from_script, sanity_check_python_script,
    sanity_check_toml, toml_compute_fnv1a_32, toml_hash_reader, IntegrityError,
    FNV_OFFSET_BASIS,
};

#[test]
fn fnv_known_values() {
    assert_eq!(fnv1a_32(&Vec::new()), FNV_OFFSET_BASIS);
    assert_eq!(fnv1a_32(&b"a".to_vec()), 0xE1A9_0405);
    assert_eq!(fnv1a_32(&b"hello".to_vec()), 0x34DD_EA06);
}

#[test]
fn instruction_body_hash_skips_two_lines() {
    let file = b"# HASH 0x8B5C652C\n\nbody\n".to_vec();
    assert_eq!(toml_compute_fnv1a_32(&file), 0x8B5C_652C);
    assert_eq!(toml_compute_fnv1a_32(&b"one line only\n".to_vec()), FNV_OFFSET_BASIS);
    assert_eq!(sanity_check_toml("# HASH 0x8B5C652C\n", &file), Ok(()));
    assert_eq!(
        sanity_check_toml("# HASH 0x8B5C652D\n", &file),
        Err(IntegrityError::Tampered)
    );
}

#[test]
fn header_parsing() {
    assert_eq!(toml_hash_reader("# HASH 0xDEADBEEF\r\n"), Ok(0xDEAD_BEEF));
    assert_eq!(toml_hash_reader("  # HASH 0x0x1f"), Ok(0x1F));
    assert_eq!(toml_hash_reader("# HASH ff"), Ok(0xFF));
    assert_eq!(toml_hash_reader("# HASH"), Err(IntegrityError::MissingHeader));
    assert_eq!(toml_hash_reader("[group]"), Err(IntegrityError::MissingHeader));
    assert_eq!(toml_hash_reader("# HASH 0x1FFFFFFFF"), Err(IntegrityError::MalformedHash));
    assert_eq!(toml_hash_reader("# HASH 0xZZ"), Err(IntegrityError::MalformedHash));
}

#[test]
fn header_writing() {
    assert_eq!(hash_header(0x8B5C_652C), "# HASH 0x8B5C652C");
    assert_eq!(hash_header(0x1F), "# HASH 0x0000001F");
    assert_eq!(toml_hash_reader(&hash_header(0xA06F_D7C9)), Ok(0xA06F_D7C9));
}

#[test]
fn script_versions() {
    assert_eq!(read_version_from_script("# VERSION 1.1.4\n"), Some("1.1.4".to_string()));
    assert_eq!(read_version_from_script("#VERSION 1.1.4"), None);
    assert_eq!(read_version_from_script("# VERSION \n"), None);
    let content = b"# VERSION 1.1.4\nprint(1)\n".to_vec();
    let h = fnv1a_32(&content);
    assert_eq!(sanity_check_python_script("# VERSION 1.1.4\n", &content, "1.1.4", h), Ok(()));
    assert_eq!(
        sanity_check_python_script("# VERSION 1.1.3\n", &content, "1.1.4", h),
        Err(IntegrityError::VersionMismatch)
    );
    assert_eq!(
        sanity_check_python_script("# VERSION 1.1.4\n", &content, "1.1.4", h ^ 1),
        Err(IntegrityError::Tampered)
    );
    assert_eq!(
        sanity_check_python_script("print(1)\n", &content, "1.1.4", h),
        Err(IntegrityError::MissingVersion)
    );
}
