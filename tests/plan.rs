use cargo_cook::container::directory_entries;
use cargo_cook::digest::{digest, sidecar_matches, sidecar_text, to_hex};
use cargo_cook::plan::{
    archive_name, hash_file_name, parse_config, parse_container, parse_deploy_target, parse_hash, ConfigError,
    ContainerFormat, DeployTarget, HashAlgorithm,
};
use cargo_cook::resolve::FileEntry;

fn strings(v: &[&str]) -> Vec<String> {
    v.iter().map(|s| s.to_string()).collect()
}

#[test]
fn container_tags_parse() {
    assert_eq!(parse_container(&"tar".to_string()), Some(ContainerFormat::Tar));
    assert_eq!(parse_container(&"tar.gz".to_string()), Some(ContainerFormat::TarGz));
    assert_eq!(parse_container(&"zip".to_string()), Some(ContainerFormat::Zip));
    assert_eq!(parse_container(&"rar".to_string()), None);
}

#[test]
fn hash_and_target_tags_parse() {
    assert_eq!(parse_hash(&"md5".to_string()), Some(HashAlgorithm::Md5));
    assert_eq!(parse_hash(&"sha256".to_string()), Some(HashAlgorithm::Sha256));
    assert_eq!(parse_hash(&"sha512".to_string()), Some(HashAlgorithm::Sha512));
    assert_eq!(parse_hash(&"crc32".to_string()), None);
    assert_eq!(parse_deploy_target(&"fs".to_string()), Some(DeployTarget::Filesystem));
    assert_eq!(parse_deploy_target(&"ftp".to_string()), None);
}

#[test]
fn valid_config_gives_plan_in_order() {
    let p = parse_config(
        &strings(&["zip", "tar"]),
        &Some(strings(&["sha256", "md5"])),
        &Some(strings(&["fs"])),
    )
    .unwrap();
    assert_eq!(p.containers, vec![ContainerFormat::Zip, ContainerFormat::Tar]);
    assert_eq!(p.hashes, vec![HashAlgorithm::Sha256, HashAlgorithm::Md5]);
    assert_eq!(p.targets, vec![DeployTarget::Filesystem]);
}

#[test]
fn config_errors_name_the_first_bad_tag() {
    let r = parse_config(&strings(&["tar", "rar", "7z"]), &Some(strings(&["crc"])), &None);
    assert_eq!(r.err(), Some(ConfigError::UnsupportedContainer(1)));
    let r = parse_config(&strings(&["tar"]), &Some(strings(&["md5", "crc"])), &None);
    assert_eq!(r.err(), Some(ConfigError::UnsupportedHash(1)));
    let r = parse_config(&strings(&["tar"]), &None, &Some(strings(&["ssh"])));
    assert_eq!(r.err(), Some(ConfigError::UnsupportedDeployTarget(0)));
}

#[test]
fn archive_and_sidecar_names() {
    let a = archive_name("target/cook", "app", "1.2.0", ContainerFormat::TarGz);
    assert_eq!(a, "target/cook/app-1.2.0.tar.gz");
    assert_eq!(hash_file_name(&a, HashAlgorithm::Sha512), "target/cook/app-1.2.0.tar.gz.sha512");
}

#[test]
fn hex_is_lowercase_two_digits_per_byte() {
    assert_eq!(to_hex(&vec![0x00, 0x0f, 0xa5, 0xff]), "000fa5ff");
    assert_eq!(to_hex(&vec![]), "");
}

#[test]
fn known_digests() {
    assert_eq!(sidecar_text(HashAlgorithm::Md5, &vec![]), "d41d8cd98f00b204e9800998ecf8427e");
    assert_eq!(
        sidecar_text(HashAlgorithm::Sha256, &b"abc".to_vec()),
        "ba7816bf8f01cfea414140de5dae2223b00361a396177a9cb410ff61f20015ad"
    );
    assert_eq!(
        sidecar_text(HashAlgorithm::Sha512, &vec![]),
        "cf83e1357eefb8bdf1542850d66d8007d620e4050b5715dc83f4a921d36ce9ce47d0d13c5d85f2b0ff8318d2877eec2f63b931bd47417a81a538327af927da3e"
    );
    assert_eq!(digest(HashAlgorithm::Md5, &b"abc".to_vec()).len(), 16);
}

#[test]
fn sidecar_recomputes_to_the_same_text() {
    let archive = b"some archive bytes".to_vec();
    for h in [HashAlgorithm::Md5, HashAlgorithm::Sha256, HashAlgorithm::Sha512] {
        let text = sidecar_text(h, &archive);
        assert!(sidecar_matches(h, &archive, &text));
        assert!(!sidecar_matches(h, &b"other bytes".to_vec(), &text));
    }
}

#[test]
fn directory_entries_cover_every_parent_once() {
    let files = vec![
        FileEntry { destination: "a/b/c.txt".to_string(), source: "x".to_string() },
        FileEntry { destination: "a/d.txt".to_string(), source: "y".to_string() },
        FileEntry { destination: "top.txt".to_string(), source: "z".to_string() },
        FileEntry { destination: "a/b/e.txt".to_string(), source: "w".to_string() },
    ];
    assert_eq!(directory_entries(&files), vec!["a/".to_string(), "a/b/".to_string()]);
}
