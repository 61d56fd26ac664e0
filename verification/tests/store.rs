use aistatus::commands::{DoctorCommand, ProfileCommand, ProfileCommandAction, TuiCommand};
use aistatus::config::SecretRef;
use aistatus::locations::{self, resolve_doctor_config_path, resolve_profile_config_path};
use aistatus::paths::{self, FilePath};
use aistatus::store::{
    AppPaths, EncryptedSecretFile, FileObservations, FileSecretStore, KeyringSecretStore,
    StoreError, ENCRYPTED_FILE_VERSION,
};
use base64::engine::general_purpose::URL_SAFE_NO_PAD;
use base64::Engine;
use directories::ProjectDirs;

fn store() -> FileSecretStore {
    FileSecretStore::new(FilePath::new("/data/secrets"), FilePath::new("/data/master.key"))
}

fn key(store: &FileSecretStore) -> Vec<u8> {
    store.load_or_create_master_key(None).expect("a new key").bytes
}

#[test]
fn file_secret_store_roundtrips_api_keys() {
    let store = store();
    let secret = br#"{"kind":"api_key","api_key":"sk-test-123"}"#.to_vec();
    let key = key(&store);

    let write = store.write_secret("acct-api-key");
    let file = store.encrypt_secret(&secret, &key).expect("secret should save");
    assert!(matches!(write.secret_ref, SecretRef::File { .. }));

    let read = store
        .read_secret(&write.secret_ref, "acct-api-key", false)
        .expect("secret should be found");
    assert_eq!(read.path, write.path);
    assert_eq!(read.key_path, FilePath::new("/data/master.key"));
    let loaded = store.decrypt_secret(&file, &key).expect("secret should load");
    assert_eq!(loaded, secret);
    assert_ne!(file.ciphertext, URL_SAFE_NO_PAD.encode(&secret));
}

#[test]
fn file_secret_store_reports_corrupted_payload() {
    let store = store();
    let key = key(&store);
    let mut file = store
        .encrypt_secret(&b"cookie=value".to_vec(), &key)
        .expect("secret should save");
    file.ciphertext = "not-json".to_owned();
    let error = store
        .decrypt_secret(&file, &key)
        .expect_err("corrupted secret should fail");
    assert!(matches!(error, StoreError::Json(_)) || matches!(error, StoreError::Decryption));
}

#[test]
fn file_secret_store_rejects_invalid_nonce_length() {
    let store = store();
    let key = key(&store);
    let bad_envelope = EncryptedSecretFile {
        version: ENCRYPTED_FILE_VERSION,
        nonce: URL_SAFE_NO_PAD.encode([0u8; 11]),
        ciphertext: URL_SAFE_NO_PAD.encode([1u8; 16]),
    };
    let error = store
        .decrypt_secret(&bad_envelope, &key)
        .expect_err("invalid nonce length should fail");
    assert!(matches!(error, StoreError::Decryption));
}

#[test]
fn a_known_message_encrypts_to_known_bytes() {
    let plaintext = b"Ladies and Gentlemen of the class of '99: If I could offer you only one tip for the future, sunscreen would be it.".to_vec();
    let key: Vec<u8> = (0x80..=0x9fu8).collect();
    let nonce: Vec<u8> = vec![7, 0, 0, 0, 0x40, 0x41, 0x42, 0x43, 0x44, 0x45, 0x46, 0x47];
    let file = FileSecretStore::encrypt_with_nonce(&plaintext, &key, &nonce).unwrap();
    assert_eq!(file.version, 1);
    assert_eq!(file.nonce, "BwAAAEBBQkNERUZH");
    let bytes = URL_SAFE_NO_PAD.decode(&file.ciphertext).unwrap();
    assert_eq!(&bytes[..4], &[0xd3, 0x1a, 0x8d, 0x34]);
    assert_eq!(bytes.len(), plaintext.len() + 16);
    assert_eq!(store().decrypt_secret(&file, &key), Ok(plaintext));
}

#[test]
fn each_fault_of_a_file_is_a_decryption_failure() {
    let store = store();
    let key = key(&store);
    let good = store.encrypt_secret(&b"secret".to_vec(), &key).unwrap();
    assert_eq!(store.decrypt_secret(&good, &key), Ok(b"secret".to_vec()));

    let mut other_version = good.clone();
    other_version.version = 2;
    assert_eq!(FileSecretStore::check_version(&other_version), Err(StoreError::Decryption));
    assert_eq!(FileSecretStore::check_version(&good), Ok(()));
    assert_eq!(store.decrypt_secret(&other_version, &key), Err(StoreError::Decryption));

    let mut padded = good.clone();
    padded.nonce.push('=');
    assert_eq!(store.decrypt_secret(&padded, &key), Err(StoreError::Decryption));

    let mut standard_alphabet = good.clone();
    standard_alphabet.ciphertext = "+/+/".to_owned();
    assert_eq!(store.decrypt_secret(&standard_alphabet, &key), Err(StoreError::Decryption));

    let mut loose_bits = good.clone();
    loose_bits.nonce = "AB".to_owned();
    assert_eq!(store.decrypt_secret(&loose_bits, &key), Err(StoreError::Decryption));

    let mut short = good.clone();
    short.ciphertext = URL_SAFE_NO_PAD.encode([0u8; 15]);
    assert_eq!(store.decrypt_secret(&short, &key), Err(StoreError::Decryption));

    let mut wrong_key = key.clone();
    wrong_key[0] ^= 1;
    assert_eq!(store.decrypt_secret(&good, &wrong_key), Err(StoreError::Decryption));
}

#[test]
fn two_files_for_one_secret_differ() {
    let store = store();
    let key = key(&store);
    let a = store.encrypt_secret(&b"secret".to_vec(), &key).unwrap();
    let b = store.encrypt_secret(&b"secret".to_vec(), &key).unwrap();
    assert_ne!(a.nonce, b.nonce);
    assert_ne!(a.ciphertext, b.ciphertext);
}

#[test]
fn the_master_key_is_taken_or_made() {
    let store = store();
    let made = store.load_or_create_master_key(None).unwrap();
    assert!(made.is_new);
    assert_eq!(made.bytes.len(), 32);
    assert_ne!(made.bytes, vec![0u8; 32]);
    assert_ne!(made.bytes, key(&store));
    let taken = store.load_or_create_master_key(Some(vec![7; 32])).unwrap();
    assert_eq!(taken.bytes, vec![7; 32]);
    assert!(!taken.is_new);
    let error = store.load_or_create_master_key(Some(vec![7; 31])).unwrap_err();
    assert_eq!(error, StoreError::InvalidMasterKey(31));
    assert_eq!(
        error.message(),
        "invalid master key length: expected 32 bytes, got 31"
    );
}

#[test]
fn entry_paths_are_made_from_the_encoded_id() {
    let store = store();
    assert_eq!(
        store.entry_path("acct-1").to_text(),
        format!("/data/secrets/{}.secret.json", URL_SAFE_NO_PAD.encode("acct-1"))
    );
    assert_eq!(
        store.entry_path("konto/ü~?").to_text(),
        format!("/data/secrets/{}.secret.json", URL_SAFE_NO_PAD.encode("konto/ü~?"))
    );
    assert_eq!(store.entry_path(""), FilePath::new("/data/secrets/.secret.json"));
    assert_ne!(store.entry_path("a"), store.entry_path("b"));
}

#[test]
fn references_say_what_is_read_and_removed() {
    let store = store();
    let bare = SecretRef::File {
        path: "/other/dir".to_owned(),
        key_path: None,
    };
    let read = store.read_secret(&bare, "a", false).unwrap();
    assert_eq!(read.path, FilePath::new("/other/dir"));
    assert_eq!(read.key_path, FilePath::new("/data/master.key"));
    let inside = store.read_secret(&bare, "a", true).unwrap();
    assert_eq!(inside.path, FilePath::new("/other/YQ.secret.json"));
    assert_eq!(store.delete_secret(&bare, "a", false).unwrap(), FilePath::new("/other/dir"));
    assert_eq!(
        store.delete_secret(&bare, "a", true).unwrap(),
        FilePath::new("/data/secrets/YQ.secret.json")
    );
    let managed = SecretRef::Managed { id: "m".to_owned() };
    assert_eq!(
        store.read_secret(&managed, "a", false),
        Err(StoreError::InvalidSecretRef)
    );
    assert_eq!(
        store.delete_secret(&managed, "a", false),
        Err(StoreError::InvalidSecretRef)
    );
}

#[test]
fn probes_of_the_file_store_follow_what_exists() {
    let store = store();
    let file = SecretRef::File {
        path: "/p".to_owned(),
        key_path: Some("/k".to_owned()),
    };
    let none = FileObservations {
        file: false,
        key: false,
        root_dir: false,
        master_key: false,
    };
    let probe = store.probe(
        Some(&file),
        FileObservations { file: true, key: true, ..none },
    );
    assert!(probe.available);
    assert_eq!(probe.detail, "file-backed secret store reachable");
    let probe = store.probe(
        Some(&file),
        FileObservations { file: true, root_dir: true, master_key: true, ..none },
    );
    assert!(probe.available);
    assert_eq!(probe.detail, "file-backed secret store not initialized");
    assert!(!store.probe(None, none).available);
    assert!(store.probe(None, FileObservations { master_key: true, ..none }).available);
    let managed = SecretRef::Managed { id: "m".to_owned() };
    assert!(!store.probe(Some(&managed), FileObservations { file: true, key: true, ..none }).available);
}

#[test]
fn the_keyring_store_addresses_entries() {
    let store = KeyringSecretStore::new("aistatus".to_owned());
    let (entry, secret_ref) = store.write_secret("acct-1");
    assert_eq!(entry.service, "aistatus");
    assert_eq!(entry.account, "acct-1");
    assert_eq!(store.read_secret(&secret_ref), Ok(entry.clone()));
    assert_eq!(store.delete_secret(&secret_ref), Ok(entry));
    let file = SecretRef::File { path: "/p".to_owned(), key_path: None };
    assert_eq!(store.read_secret(&file), Err(StoreError::InvalidSecretRef));
    assert_eq!(store.delete_secret(&file), Err(StoreError::InvalidSecretRef));
    assert_eq!(store.probe_entry(Some(&file)), Err(StoreError::InvalidSecretRef));
    assert_eq!(store.probe_entry(None).unwrap().account, "probe");
    assert_eq!(store.probe_entry(Some(&secret_ref)).unwrap().account, "acct-1");
    let probe = store.probe(&Ok(()));
    assert!(probe.available);
    assert_eq!(probe.detail, "native keyring entry is addressable");
    let probe = store.probe(&Err(StoreError::Keyring("locked".to_owned())));
    assert!(!probe.available);
    assert_eq!(probe.detail, "keyring failure: locked");
}

#[test]
fn errors_of_the_store_have_their_texts() {
    let text = |error: StoreError| error.message();
    assert_eq!(text(StoreError::PathResolution("x".to_owned())), "path resolution failed: x");
    assert_eq!(text(StoreError::Io("x".to_owned())), "io failure: x");
    assert_eq!(text(StoreError::Json("x".to_owned())), "json failure: x");
    assert_eq!(text(StoreError::Encryption), "encryption failure");
    assert_eq!(text(StoreError::Decryption), "decryption failure");
    assert_eq!(
        text(StoreError::MissingSecret("a".to_owned())),
        "missing secret entry for profile `a`"
    );
    assert_eq!(
        text(StoreError::InvalidSecretRef),
        "invalid secret reference kind for this backend"
    );
}

#[test]
fn app_paths_are_laid_out_below_their_directories() {
    let paths = AppPaths::from_project_dirs(Some((
        FilePath::new("/c/aistatus"),
        FilePath::new("/d/aistatus/"),
    )))
    .unwrap();
    assert_eq!(paths.config_dir.to_text(), "/c/aistatus");
    assert_eq!(paths.config_file.to_text(), "/c/aistatus/config.toml");
    assert_eq!(paths.data_dir.to_text(), "/d/aistatus/");
    assert_eq!(paths.secrets_dir.to_text(), "/d/aistatus/secrets");
    assert_eq!(paths.master_key_file.to_text(), "/d/aistatus/master.key");
    assert_eq!(paths.doctor_log_file.to_text(), "/d/aistatus/codex-login.log");
    assert_eq!(
        paths.ensure(),
        vec![
            FilePath::new("/c/aistatus"),
            FilePath::new("/d/aistatus/"),
            FilePath::new("/d/aistatus/secrets"),
        ]
    );
    let store = FileSecretStore::from_app_paths(&paths);
    assert_eq!(store.root_dir.to_text(), "/d/aistatus/secrets");
    assert_eq!(store.master_key_path.to_text(), "/d/aistatus/master.key");
    let error = AppPaths::from_project_dirs(None).unwrap_err();
    assert_eq!(
        error,
        StoreError::PathResolution("unable to resolve project dirs".to_owned())
    );
}

fn path_of(bytes: &[u8]) -> FilePath {
    FilePath {
        bytes: bytes.to_vec(),
    }
}

#[test]
fn directories_that_are_no_text_are_kept() {
    let paths = AppPaths::from_project_dirs(Some((path_of(b"/c\xff"), path_of(b"/d\xfe/"))))
        .unwrap();
    assert_eq!(paths.config_file, path_of(b"/c\xff/config.toml"));
    assert_eq!(paths.secrets_dir, path_of(b"/d\xfe/secrets"));
    assert_eq!(paths.master_key_file, path_of(b"/d\xfe/master.key"));
    assert_eq!(paths.config_file.to_text(), "/c\u{fffd}/config.toml");

    let store = FileSecretStore::from_app_paths(&paths);
    assert_eq!(store.entry_path("a"), path_of(b"/d\xfe/secrets/YQ.secret.json"));
    let write = store.write_secret("a");
    assert_eq!(write.directory, path_of(b"/d\xfe/secrets"));
    assert_eq!(write.path, path_of(b"/d\xfe/secrets/YQ.secret.json"));
    assert_eq!(
        write.secret_ref,
        SecretRef::File {
            path: "/d\u{fffd}/secrets/YQ.secret.json".to_owned(),
            key_path: Some("/d\u{fffd}/master.key".to_owned()),
        }
    );
    let read = store.read_secret(&write.secret_ref, "a", false).unwrap();
    assert_ne!(read.path, write.path);
    let keyless = SecretRef::File {
        path: "/p".to_owned(),
        key_path: None,
    };
    let read = store.read_secret(&keyless, "a", false).unwrap();
    assert_eq!(read.key_path, FilePath::new("/d\u{fffd}/master.key"));

    assert_eq!(
        locations::infer_secret_material_path(&path_of(b"/x\xff/config.toml")),
        Some(path_of(b"/x\xff/secrets.json"))
    );
    assert_eq!(
        locations::infer_secret_material_path(&path_of(b"/x\xff/w\xffrk.toml")),
        Some(path_of(b"/x\xff/w\xef\xbf\xbdrk.secrets.json"))
    );
}

#[test]
fn paths_are_shown_as_std_shows_them() {
    let samples: [&[u8]; 8] = [
        b"",
        b"/etc",
        "/\u{fc}ber".as_bytes(),
        b"\xff",
        b"a\xffb",
        b"\xe2\x82",
        b"\xf0\x9f\x92/x",
        b"\xc0\xaf",
    ];
    for bytes in samples {
        assert_eq!(path_of(bytes).to_text(), String::from_utf8_lossy(bytes));
    }
}

#[test]
fn resolved_paths_are_those_of_the_project() {
    let command = ProfileCommand {
        config: None,
        action: ProfileCommandAction::List,
    };
    let doctor = DoctorCommand {
        config: None,
        fixtures: None,
    };
    match ProjectDirs::from("dev", "xsiry", "aistatus") {
        Some(dirs) => {
            let paths = AppPaths::resolve("aistatus").unwrap();
            assert_eq!(
                paths.config_dir.bytes,
                dirs.config_dir().as_os_str().as_encoded_bytes()
            );
            assert_eq!(
                paths.data_dir.bytes,
                dirs.data_local_dir().as_os_str().as_encoded_bytes()
            );
            assert_eq!(
                paths.config_file.bytes,
                dirs.config_dir().join("config.toml").as_os_str().as_encoded_bytes()
            );
            let other = AppPaths::resolve("another").unwrap();
            assert_ne!(other.config_dir, paths.config_dir);
            assert_eq!(resolve_profile_config_path(&command).unwrap(), paths.config_file);
            assert_eq!(resolve_doctor_config_path(&doctor, &None).unwrap(), paths.config_file);
        }
        None => {
            let error = AppPaths::resolve("aistatus").unwrap_err();
            assert_eq!(
                error.message(),
                "path resolution failed: unable to resolve project dirs"
            );
            assert_eq!(resolve_profile_config_path(&command).unwrap_err(), error);
            assert_eq!(resolve_doctor_config_path(&doctor, &None).unwrap_err(), error);
        }
    }
}

#[test]
fn paths_behave_as_those_of_the_platform() {
    let samples = [
        "", "/", "//", ".", "..", "./", "a", "a/", "a//", "a/.", "a/./", "a/./.", "/a", "//a", "/a/b",
        "a/b", "a/b/", "a//b", "a/./b", "./a", "/./a", "a/..", "../a", "/.", "/..", "./.", "a/b/.",
        ".config", "x/.config", "config.toml", "/etc/config.toml", "a.b.c", "dir.d/file", "a.", "..a",
        "/\u{fc}ber/\u{e9}.\u{e8}",
    ];
    for text in samples {
        let path = FilePath::new(text);
        let std_path = std::path::Path::new(text);
        assert_eq!(
            paths::parent(&path),
            std_path.parent().map(|p| FilePath::new(p.to_str().unwrap())),
            "{}",
            text
        );
        let name = std_path.file_name().map(|n| FilePath::new(n.to_str().unwrap()));
        assert_eq!(paths::file_name(&path), name, "{}", text);
        if let Some(name) = name {
            let stem = std_path.file_stem().map(|s| FilePath::new(s.to_str().unwrap()));
            assert_eq!(Some(paths::file_stem(&name)), stem, "{}", text);
        }
        for other in ["x", "/x", "", "x/y"] {
            assert_eq!(
                paths::join(&path, other).to_text(),
                std_path.join(other).to_str().unwrap(),
                "{} {}",
                text,
                other
            );
        }
        assert_eq!(
            paths::with_file_name(&path, "new.json").to_text(),
            std_path.with_file_name("new.json").to_str().unwrap(),
            "{}",
            text
        );
    }
}

#[test]
fn secret_material_is_looked_for_beside_the_configuration() {
    let infer = |p: &str| {
        locations::infer_secret_material_path(&FilePath::new(p)).map(|path| path.to_text())
    };
    assert_eq!(infer("/a/config.toml").as_deref(), Some("/a/secrets.json"));
    assert_eq!(infer("/a/sample-config.toml").as_deref(), Some("/a/sample-secrets.json"));
    assert_eq!(infer("/a/config.yaml").as_deref(), Some("/a/config.yaml"));
    assert_eq!(infer("work.toml").as_deref(), Some("work.secrets.json"));
    assert_eq!(infer("/"), None);
    assert_eq!(
        locations::resolve_secret_material(
            &FilePath::new("/a/config.toml"),
            &Some(FilePath::new("/f"))
        ),
        vec![FilePath::new("/f/secrets.json"), FilePath::new("/a/secrets.json")]
    );
    let root = FilePath::new("/w");
    assert_eq!(
        locations::fixture_root(&root, &Some("corrupted-session".to_owned())),
        Some(FilePath::new("/w/.sisyphus/fixtures/corrupted-session"))
    );
    assert_eq!(locations::fixture_root(&root, &None), None);
}

#[test]
fn the_panel_shows_the_fixture_asked_for_or_the_sample() {
    let named = TuiCommand {
        fixtures: Some("other".to_owned()),
    };
    assert_eq!(
        locations::tui_fixture_path(&named),
        "crates/tui/tests/fixtures/other.json"
    );
    assert_eq!(
        locations::tui_fixture_path(&TuiCommand::default()),
        "crates/tui/tests/fixtures/sample-quotas.json"
    );
}
