//! Where secrets are kept: the places of the files, the encrypted file, and the rules of the two
//! stores. Reading and writing files and keychain entries is left to the caller, who is told what
//! to read or write and hands back what came of it.
use directories::ProjectDirs;
use vstd::prelude::*;
use vstd::string::*;
use vstd::utf8::{encode_utf8, encode_utf8_decode_utf8, valid_utf8};

use crate::base64url::{self, decoded, encoded, fits};
use crate::cipher::{self, opened, outruns_key_stream, sealed, too_long, KEY_LEN, NONCE_LEN};
use crate::config::{SecretRef, SecretRefView};
use crate::paths::{self, joined_text, parent_of, shown, FilePath};
use crate::text::{self, decimal};

verus! {

/// The version of the encrypted file.
pub const ENCRYPTED_FILE_VERSION: u32 = 1;

/// The places of the program's files.
#[derive(Debug, Clone, PartialEq, Eq)]
pub struct AppPaths {
    pub config_dir: FilePath,
    pub config_file: FilePath,
    pub data_dir: FilePath,
    pub secrets_dir: FilePath,
    pub master_key_file: FilePath,
    pub doctor_log_file: FilePath,
}

/// The model of [`AppPaths`].
#[verifier::ext_equal]
pub struct AppPathsView {
    pub config_dir: Seq<u8>,
    pub config_file: Seq<u8>,
    pub data_dir: Seq<u8>,
    pub secrets_dir: Seq<u8>,
    pub master_key_file: Seq<u8>,
    pub doctor_log_file: Seq<u8>,
}

impl View for AppPaths {
    type V = AppPathsView;

    open spec fn view(&self) -> AppPathsView {
        AppPathsView {
            config_dir: self.config_dir@,
            config_file: self.config_file@,
            data_dir: self.data_dir@,
            secrets_dir: self.secrets_dir@,
            master_key_file: self.master_key_file@,
            doctor_log_file: self.doctor_log_file@,
        }
    }
}

/// The places of the files below a configuration directory and a data directory.
pub open spec fn layout(config_dir: Seq<u8>, data_dir: Seq<u8>) -> AppPathsView {
    AppPathsView {
        config_dir,
        config_file: joined_text(config_dir, "config.toml"@),
        data_dir,
        secrets_dir: joined_text(data_dir, "secrets"@),
        master_key_file: joined_text(data_dir, "master.key"@),
        doctor_log_file: joined_text(data_dir, "codex-login.log"@),
    }
}

/// The error where the directories cannot be told.
pub open spec fn no_project_dirs() -> StoreErrorView {
    StoreErrorView::PathResolution("unable to resolve project dirs"@)
}

/// `ProjectDirs::from`, and of what it returns `config_dir` and `data_local_dir`, each as the bytes
/// that `OsStr::as_encoded_bytes` gives, which on Linux and macOS are those of the path itself. They
/// depend on the environment and on the platform, so nothing is promised of them, nor that they are
/// found.
#[verifier::external_body]
pub fn project_dirs(qualifier: &str, organization: &str, application: &str) -> (r: Option<
    (FilePath, FilePath),
>) {
    match ProjectDirs::from(qualifier, organization, application) {
        Some(dirs) => Some((
            FilePath { bytes: dirs.config_dir().as_os_str().as_encoded_bytes().to_vec() },
            FilePath { bytes: dirs.data_local_dir().as_os_str().as_encoded_bytes().to_vec() },
        )),
        None => None,
    }
}

/// What the directories that the platform names come to: the places of the files under them, or the
/// error where it names none.
pub open spec fn resolves(
    dirs: Option<(FilePath, FilePath)>,
    r: Result<AppPaths, StoreError>,
) -> bool {
    match dirs {
        Some((config_dir, data_dir)) => r matches Ok(paths) && paths@ == layout(
            config_dir@,
            data_dir@,
        ),
        None => r matches Err(error) && error@ == no_project_dirs(),
    }
}

impl AppPaths {
    /// The places of the files for the configuration directory and the data directory that the
    /// platform names, if it names them.
    pub fn from_project_dirs(dirs: Option<(FilePath, FilePath)>) -> (r: Result<Self, StoreError>)
        ensures
            resolves(dirs, r),
    {
        match dirs {
            Some((config_dir, data_dir)) => Ok(
                AppPaths {
                    config_file: paths::join(&config_dir, "config.toml"),
                    secrets_dir: paths::join(&data_dir, "secrets"),
                    master_key_file: paths::join(&data_dir, "master.key"),
                    doctor_log_file: paths::join(&data_dir, "codex-login.log"),
                    config_dir,
                    data_dir,
                },
            ),
            None => Err(
                StoreError::PathResolution("unable to resolve project dirs".to_owned()),
            ),
        }
    }

    /// The places of the files of `app_name` on this machine: those for the directories that the
    /// platform names for it.
    pub fn resolve(app_name: &str) -> (r: Result<Self, StoreError>)
        ensures
            exists|dirs: Option<(FilePath, FilePath)>| #[trigger]
                call_ensures(project_dirs, ("dev", "xsiry", app_name), dirs) && resolves(dirs, r),
    {
        let dirs = project_dirs("dev", "xsiry", app_name);
        assert(call_ensures(project_dirs, ("dev", "xsiry", app_name), dirs));
        AppPaths::from_project_dirs(dirs)
    }

    /// The directories that must exist before the program works, in the order in which they are
    /// to be made, each open to its owner only.
    pub fn ensure(&self) -> (r: Vec<FilePath>)
        ensures
            r.deep_view() == seq![self@.config_dir, self@.data_dir, self@.secrets_dir],
    {
        let r = vec![self.config_dir.clone(), self.data_dir.clone(), self.secrets_dir.clone()];
        assert(r.deep_view() =~= seq![self@.config_dir, self@.data_dir, self@.secrets_dir]);
        r
    }
}

/// Whether a store can be reached.
#[derive(Debug, Clone, PartialEq, Eq)]
pub struct StoreProbe {
    pub available: bool,
    pub detail: String,
}

/// Why a store did not do what it was asked to; what the system or a reader reports is kept as
/// its text.
#[derive(Debug, PartialEq, Eq)]
pub enum StoreError {
    PathResolution(String),
    Io(String),
    Json(String),
    Keyring(String),
    Encryption,
    Decryption,
    MissingSecret(String),
    InvalidSecretRef,
    InvalidMasterKey(usize),
}

/// The model of a [`StoreError`].
#[verifier::ext_equal]
pub enum StoreErrorView {
    PathResolution(Seq<char>),
    Io(Seq<char>),
    Json(Seq<char>),
    Keyring(Seq<char>),
    Encryption,
    Decryption,
    MissingSecret(Seq<char>),
    InvalidSecretRef,
    InvalidMasterKey(usize),
}

impl View for StoreError {
    type V = StoreErrorView;

    open spec fn view(&self) -> StoreErrorView {
        match *self {
            StoreError::PathResolution(s) => StoreErrorView::PathResolution(s@),
            StoreError::Io(s) => StoreErrorView::Io(s@),
            StoreError::Json(s) => StoreErrorView::Json(s@),
            StoreError::Keyring(s) => StoreErrorView::Keyring(s@),
            StoreError::Encryption => StoreErrorView::Encryption,
            StoreError::Decryption => StoreErrorView::Decryption,
            StoreError::MissingSecret(s) => StoreErrorView::MissingSecret(s@),
            StoreError::InvalidSecretRef => StoreErrorView::InvalidSecretRef,
            StoreError::InvalidMasterKey(n) => StoreErrorView::InvalidMasterKey(n),
        }
    }
}

impl Clone for StoreError {
    fn clone(&self) -> (r: Self)
        ensures
            r@ == self@,
    {
        match self {
            StoreError::PathResolution(s) => StoreError::PathResolution(s.clone()),
            StoreError::Io(s) => StoreError::Io(s.clone()),
            StoreError::Json(s) => StoreError::Json(s.clone()),
            StoreError::Keyring(s) => StoreError::Keyring(s.clone()),
            StoreError::Encryption => StoreError::Encryption,
            StoreError::Decryption => StoreError::Decryption,
            StoreError::MissingSecret(s) => StoreError::MissingSecret(s.clone()),
            StoreError::InvalidSecretRef => StoreError::InvalidSecretRef,
            StoreError::InvalidMasterKey(n) => StoreError::InvalidMasterKey(*n),
        }
    }
}

impl StoreErrorView {
    /// The text of the error.
    pub open spec fn text(self) -> Seq<char> {
        match self {
            StoreErrorView::PathResolution(s) => "path resolution failed: "@ + s,
            StoreErrorView::Io(s) => "io failure: "@ + s,
            StoreErrorView::Json(s) => "json failure: "@ + s,
            StoreErrorView::Keyring(s) => "keyring failure: "@ + s,
            StoreErrorView::Encryption => "encryption failure"@,
            StoreErrorView::Decryption => "decryption failure"@,
            StoreErrorView::MissingSecret(s) => "missing secret entry for profile `"@ + s + "`"@,
            StoreErrorView::InvalidSecretRef => "invalid secret reference kind for this backend"@,
            StoreErrorView::InvalidMasterKey(n) =>
                "invalid master key length: expected 32 bytes, got "@ + decimal(n as nat),
        }
    }
}

impl StoreError {
    /// The text of the error.
    pub fn message(&self) -> (r: String)
        ensures
            r@ == self@.text(),
    {
        match self {
            StoreError::PathResolution(s) => text::concat("path resolution failed: ", s.as_str()),
            StoreError::Io(s) => text::concat("io failure: ", s.as_str()),
            StoreError::Json(s) => text::concat("json failure: ", s.as_str()),
            StoreError::Keyring(s) => text::concat("keyring failure: ", s.as_str()),
            StoreError::Encryption => "encryption failure".to_owned(),
            StoreError::Decryption => "decryption failure".to_owned(),
            StoreError::MissingSecret(s) => {
                let mut m = text::concat("missing secret entry for profile `", s.as_str());
                m.append("`");
                m
            },
            StoreError::InvalidSecretRef =>
                "invalid secret reference kind for this backend".to_owned(),
            StoreError::InvalidMasterKey(n) => {
                let number = text::from_u64(*n as u64);
                text::concat("invalid master key length: expected 32 bytes, got ", number.as_str())
            },
        }
    }
}

/// The key of the file store, and whether it has just been made and is still to be written.
#[derive(Debug, Clone, PartialEq, Eq)]
pub struct MasterKey {
    pub bytes: Vec<u8>,
    pub is_new: bool,
}

/// An encrypted secret as it stands in its file.
#[derive(Debug, Clone, PartialEq, Eq)]
pub struct EncryptedSecretFile {
    pub version: u32,
    pub nonce: String,
    pub ciphertext: String,
}

/// The model of an [`EncryptedSecretFile`].
#[verifier::ext_equal]
pub struct EncryptedSecretFileView {
    pub version: u32,
    pub nonce: Seq<char>,
    pub ciphertext: Seq<char>,
}

impl View for EncryptedSecretFile {
    type V = EncryptedSecretFileView;

    open spec fn view(&self) -> EncryptedSecretFileView {
        EncryptedSecretFileView {
            version: self.version,
            nonce: self.nonce@,
            ciphertext: self.ciphertext@,
        }
    }
}

/// The file that holds `plaintext` under `key` and `nonce`.
pub open spec fn sealed_file(
    key: Seq<u8>,
    nonce: Seq<u8>,
    plaintext: Seq<u8>,
) -> EncryptedSecretFileView {
    EncryptedSecretFileView {
        version: ENCRYPTED_FILE_VERSION,
        nonce: encoded(nonce),
        ciphertext: encoded(sealed(key, nonce, plaintext)),
    }
}

/// What a file holds under `key`: nothing where its version is another, where its nonce is no
/// text of 12 bytes or its ciphertext no text of bytes, or where the tag does not fit.
pub open spec fn decrypted(key: Seq<u8>, file: EncryptedSecretFileView) -> Option<Seq<u8>> {
    if file.version != ENCRYPTED_FILE_VERSION {
        None
    } else {
        match (decoded(file.nonce), decoded(file.ciphertext)) {
            (Some(nonce), Some(ciphertext)) if nonce.len() == NONCE_LEN => opened(
                key,
                nonce,
                ciphertext,
            ),
            _ => None,
        }
    }
}

/// A file that is to be written, readable by its owner only, in a directory that must exist.
#[derive(Debug, Clone, PartialEq, Eq)]
pub struct FileWrite {
    pub directory: FilePath,
    pub path: FilePath,
    pub secret_ref: SecretRef,
}

/// A file that is to be read, and the file of the key it is encrypted under.
#[derive(Debug, Clone, PartialEq, Eq)]
pub struct FileRead {
    pub path: FilePath,
    pub key_path: FilePath,
}

/// Which of the paths that a probe of the file store looks at exist: the file of the secret
/// reference, the key that the reference names, the store's directory and the store's key.
#[derive(Debug, Clone, Copy, PartialEq, Eq, Structural)]
pub struct FileObservations {
    pub file: bool,
    pub key: bool,
    pub root_dir: bool,
    pub master_key: bool,
}

/// The store that keeps each secret in an encrypted file of its own.
#[derive(Debug, Clone)]
pub struct FileSecretStore {
    pub root_dir: FilePath,
    pub master_key_path: FilePath,
}

/// The path of the file for a profile's secret.
pub open spec fn entry_path_of(root_dir: Seq<u8>, profile_id: Seq<char>) -> Seq<u8> {
    joined_text(root_dir, encoded(encode_utf8(profile_id)) + ".secret.json"@)
}

/// The reference to the file for a profile's secret: it names the paths by the texts they are shown
/// by.
pub open spec fn written_ref(
    root_dir: Seq<u8>,
    master_key_path: Seq<u8>,
    profile_id: Seq<char>,
) -> SecretRefView {
    SecretRefView::File {
        path: shown(entry_path_of(root_dir, profile_id)),
        key_path: Some(shown(master_key_path)),
    }
}

/// The file that is read for a file reference, and its key: the reference's own path, or, where
/// that is a directory, the profile's file beside it; the reference's own key, or else the
/// store's, by the text it is shown by.
pub open spec fn read_of(
    root_dir: Seq<u8>,
    master_key_path: Seq<u8>,
    path: Seq<char>,
    key_path: Option<Seq<char>>,
    profile_id: Seq<char>,
    path_is_dir: bool,
) -> (Seq<u8>, Seq<u8>) {
    (
        if path_is_dir {
            entry_path_of(
                match parent_of(encode_utf8(path)) {
                    Some(dir) => dir,
                    None => root_dir,
                },
                profile_id,
            )
        } else {
            encode_utf8(path)
        },
        encode_utf8(
            match key_path {
                Some(key) => key,
                None => shown(master_key_path),
            },
        ),
    )
}

impl FileSecretStore {
    pub fn new(root_dir: FilePath, master_key_path: FilePath) -> (r: Self)
        ensures
            r.root_dir@ == root_dir@,
            r.master_key_path@ == master_key_path@,
    {
        FileSecretStore { root_dir, master_key_path }
    }

    pub fn from_app_paths(paths: &AppPaths) -> (r: Self)
        ensures
            r.root_dir@ == paths@.secrets_dir,
            r.master_key_path@ == paths@.master_key_file,
    {
        FileSecretStore::new(paths.secrets_dir.clone(), paths.master_key_file.clone())
    }

    pub fn entry_path(&self, profile_id: &str) -> (r: FilePath)
        requires
            fits(encode_utf8(profile_id@).len()),
        ensures
            r@ == entry_path_of(self.root_dir@, profile_id@),
    {
        let mut name = base64url::encode(profile_id.as_bytes());
        name.append(".secret.json");
        paths::join(&self.root_dir, name.as_str())
    }

    /// The key of the store, from the bytes of its file, or a new one of random bytes where there is
    /// no file.
    pub fn load_or_create_master_key(&self, existing: Option<Vec<u8>>) -> (r: Result<
        MasterKey,
        StoreError,
    >)
        ensures
            match existing {
                Some(bytes) if bytes@.len() == KEY_LEN => r matches Ok(key) && key.bytes@ == bytes@
                    && !key.is_new,
                Some(bytes) => r matches Err(error) && error@ == StoreErrorView::InvalidMasterKey(
                    bytes@.len() as usize,
                ),
                None => r matches Ok(key) && key.bytes@.len() == KEY_LEN && key.is_new
                    && call_ensures(cipher::random_bytes, (KEY_LEN,), key.bytes),
            },
    {
        match existing {
            Some(bytes) => {
                if bytes.len() != KEY_LEN {
                    return Err(StoreError::InvalidMasterKey(bytes.len()));
                }
                Ok(MasterKey { bytes, is_new: false })
            },
            None => {
                let bytes = cipher::random_bytes(KEY_LEN);
                Ok(MasterKey { bytes, is_new: true })
            },
        }
    }

    /// The file for a serialized secret under a key and a nonce.
    pub fn encrypt_with_nonce(serialized: &Vec<u8>, key: &Vec<u8>, nonce: &Vec<u8>) -> (r: Result<
        EncryptedSecretFile,
        StoreError,
    >)
        requires
            key@.len() == KEY_LEN,
            nonce@.len() == NONCE_LEN,
            !outruns_key_stream(serialized@.len() as int),
            fits(serialized@.len() + 16),
        ensures
            match r {
                Ok(file) => {
                    &&& !too_long(serialized@.len() as int)
                    &&& file@ == sealed_file(key@, nonce@, serialized@)
                    &&& decrypted(key@, file@) == Some(serialized@)
                    &&& file@.ciphertext.len() * 3 / 4 == serialized@.len() + 16
                },
                Err(error) => too_long(serialized@.len() as int) && error@
                    == StoreErrorView::Encryption,
            },
    {
        match cipher::encrypt(key, nonce, serialized) {
            Ok(ciphertext) => {
                proof {
                    base64url::lemma_decoded_encoded(nonce@);
                    base64url::lemma_decoded_encoded(ciphertext@);
                    base64url::lemma_decoded_len(encoded(ciphertext@));
                }
                Ok(
                    EncryptedSecretFile {
                        version: ENCRYPTED_FILE_VERSION,
                        nonce: base64url::encode(nonce.as_slice()),
                        ciphertext: base64url::encode(ciphertext.as_slice()),
                    },
                )
            },
            Err(_) => Err(StoreError::Encryption),
        }
    }

    /// The file for a serialized secret under a key, with a random nonce of its own. Decrypting it with
    /// the key gives the secret back.
    pub fn encrypt_secret(&self, serialized: &Vec<u8>, key: &Vec<u8>) -> (r: Result<
        EncryptedSecretFile,
        StoreError,
    >)
        requires
            key@.len() == KEY_LEN,
            !outruns_key_stream(serialized@.len() as int),
            fits(serialized@.len() + 16),
        ensures
            match r {
                Ok(file) => {
                    &&& !too_long(serialized@.len() as int)
                    &&& exists|nonce: Vec<u8>| #[trigger]
                        call_ensures(cipher::random_bytes, (NONCE_LEN,), nonce) && file@
                            == sealed_file(key@, nonce@, serialized@)
                    &&& decrypted(key@, file@) == Some(serialized@)
                    &&& file@.ciphertext.len() * 3 / 4 == serialized@.len() + 16
                },
                Err(error) => too_long(serialized@.len() as int) && error@
                    == StoreErrorView::Encryption,
            },
    {
        let nonce = cipher::random_bytes(NONCE_LEN);
        assert(call_ensures(cipher::random_bytes, (NONCE_LEN,), nonce));
        FileSecretStore::encrypt_with_nonce(serialized, key, &nonce)
    }

    /// Whether the file is of the version that can be read.
    pub fn check_version(envelope: &EncryptedSecretFile) -> (r: Result<(), StoreError>)
        ensures
            match r {
                Ok(_) => envelope@.version == ENCRYPTED_FILE_VERSION,
                Err(error) => envelope@.version != ENCRYPTED_FILE_VERSION && error@
                    == StoreErrorView::Decryption,
            },
    {
        if envelope.version != ENCRYPTED_FILE_VERSION {
            Err(StoreError::Decryption)
        } else {
            Ok(())
        }
    }

    /// The serialized secret that a file holds under a key.
    pub fn decrypt_secret(&self, envelope: &EncryptedSecretFile, key: &Vec<u8>) -> (r: Result<
        Vec<u8>,
        StoreError,
    >)
        requires
            key@.len() == KEY_LEN,
            !outruns_key_stream(envelope@.ciphertext.len() * 3 / 4 - 16),
        ensures
            match r {
                Ok(plaintext) => decrypted(key@, envelope@) == Some(plaintext@),
                Err(error) => decrypted(key@, envelope@) is None && error@
                    == StoreErrorView::Decryption,
            },
    {
        if FileSecretStore::check_version(envelope).is_err() {
            return Err(StoreError::Decryption);
        }
        let nonce = match base64url::decode(envelope.nonce.as_str()) {
            Ok(bytes) => bytes,
            Err(_) => {
                return Err(StoreError::Decryption);
            },
        };
        if nonce.len() != NONCE_LEN {
            return Err(StoreError::Decryption);
        }
        let ciphertext = match base64url::decode(envelope.ciphertext.as_str()) {
            Ok(bytes) => bytes,
            Err(_) => {
                return Err(StoreError::Decryption);
            },
        };
        proof {
            base64url::lemma_decoded_len(envelope.ciphertext@);
        }
        match cipher::decrypt(key, &nonce, &ciphertext) {
            Ok(plaintext) => Ok(plaintext),
            Err(_) => Err(StoreError::Decryption),
        }
    }

    /// Where a profile's secret is to be written, and the reference to keep of it.
    pub fn write_secret(&self, profile_id: &str) -> (r: FileWrite)
        requires
            fits(encode_utf8(profile_id@).len()),
        ensures
            r.directory@ == self.root_dir@,
            r.path@ == entry_path_of(self.root_dir@, profile_id@),
            r.secret_ref@ == written_ref(self.root_dir@, self.master_key_path@, profile_id@),
    {
        let path = self.entry_path(profile_id);
        FileWrite {
            directory: self.root_dir.clone(),
            secret_ref: SecretRef::File {
                path: path.to_text(),
                key_path: Some(self.master_key_path.to_text()),
            },
            path,
        }
    }

    /// What is to be read for a reference, given whether its path is a directory.
    pub fn read_secret(&self, secret_ref: &SecretRef, profile_id: &str, path_is_dir: bool) -> (r:
        Result<FileRead, StoreError>)
        requires
            fits(encode_utf8(profile_id@).len()),
        ensures
            match secret_ref@ {
                SecretRefView::File { path, key_path } => r matches Ok(read) && (
                    read.path@,
                    read.key_path@,
                ) == read_of(
                    self.root_dir@,
                    self.master_key_path@,
                    path,
                    key_path,
                    profile_id@,
                    path_is_dir,
                ),
                _ => r matches Err(error) && error@ == StoreErrorView::InvalidSecretRef,
            },
    {
        match secret_ref {
            SecretRef::File { path, key_path } => {
                let path = FilePath::new(path.as_str());
                let root_dir = match paths::parent(&path) {
                    Some(dir) => dir,
                    None => self.root_dir.clone(),
                };
                let master_key_path = match key_path {
                    Some(key) => FilePath::new(key.as_str()),
                    None => FilePath::new(self.master_key_path.to_text().as_str()),
                };
                let scoped_store = FileSecretStore::new(root_dir, master_key_path);
                let entry_path = if path_is_dir {
                    scoped_store.entry_path(profile_id)
                } else {
                    path
                };
                Ok(FileRead { path: entry_path, key_path: scoped_store.master_key_path })
            },
            _ => Err(StoreError::InvalidSecretRef),
        }
    }

    /// The file that is to be removed for a reference, if it exists, given whether the
    /// reference's path is a directory.
    pub fn delete_secret(&self, secret_ref: &SecretRef, profile_id: &str, path_is_dir: bool) -> (r:
        Result<FilePath, StoreError>)
        requires
            fits(encode_utf8(profile_id@).len()),
        ensures
            match secret_ref@ {
                SecretRefView::File { path, .. } => r matches Ok(removed) && removed@ == (
                if path_is_dir {
                    entry_path_of(self.root_dir@, profile_id@)
                } else {
                    encode_utf8(path)
                }),
                _ => r matches Err(error) && error@ == StoreErrorView::InvalidSecretRef,
            },
    {
        match secret_ref {
            SecretRef::File { path, .. } => {
                if path_is_dir {
                    Ok(self.entry_path(profile_id))
                } else {
                    Ok(FilePath::new(path.as_str()))
                }
            },
            _ => Err(StoreError::InvalidSecretRef),
        }
    }

    /// Whether the store can be reached, given which of its paths exist.
    pub fn probe(&self, secret_ref: Option<&SecretRef>, seen: FileObservations) -> (r: StoreProbe)
        ensures
            ({
                let reached = match secret_ref.deep_view() {
                    Some(SecretRefView::File { key_path, .. }) => seen.file && (if key_path is Some {
                        seen.key
                    } else {
                        seen.master_key
                    }),
                    Some(_) => false,
                    None => seen.root_dir || seen.master_key,
                };
                &&& r.available == (reached || seen.root_dir)
                &&& r.detail@ == (if reached {
                    "file-backed secret store reachable"@
                } else {
                    "file-backed secret store not initialized"@
                })
            }),
    {
        let reached = match secret_ref {
            Some(SecretRef::File { key_path, .. }) => {
                let key_ok = match key_path {
                    Some(_) => seen.key,
                    None => seen.master_key,
                };
                seen.file && key_ok
            },
            Some(_) => false,
            None => seen.root_dir || seen.master_key,
        };
        StoreProbe {
            available: reached || seen.root_dir,
            detail: if reached {
                "file-backed secret store reachable".to_owned()
            } else {
                "file-backed secret store not initialized".to_owned()
            },
        }
    }
}

/// A keychain entry, by its service and its account.
#[derive(Debug, Clone, PartialEq, Eq)]
pub struct KeychainEntry {
    pub service: String,
    pub account: String,
}

/// The store that keeps each secret in an entry of the platform's keychain.
#[derive(Debug, Clone)]
pub struct KeyringSecretStore {
    pub default_service: String,
}

impl KeyringSecretStore {
    pub fn new(default_service: String) -> (r: Self)
        ensures
            r.default_service@ == default_service@,
    {
        KeyringSecretStore { default_service }
    }

    /// The entry that a profile's secret is to be written to; the reference to keep of it names
    /// the same entry.
    pub fn write_secret(&self, profile_id: &str) -> (r: (KeychainEntry, SecretRef))
        ensures
            r.0.service@ == self.default_service@,
            r.0.account@ == profile_id@,
            r.1@ == (SecretRefView::Keychain {
                service: self.default_service@,
                account: profile_id@,
            }),
    {
        (
            KeychainEntry { service: self.default_service.clone(), account: profile_id.to_owned() },
            SecretRef::Keychain {
                service: self.default_service.clone(),
                account: profile_id.to_owned(),
            },
        )
    }

    /// The entry that is to be read for a reference.
    pub fn read_secret(&self, secret_ref: &SecretRef) -> (r: Result<KeychainEntry, StoreError>)
        ensures
            match secret_ref@ {
                SecretRefView::Keychain { service, account } => r matches Ok(entry)
                    && entry.service@ == service && entry.account@ == account,
                _ => r matches Err(error) && error@ == StoreErrorView::InvalidSecretRef,
            },
    {
        match secret_ref {
            SecretRef::Keychain { service, account } => Ok(
                KeychainEntry { service: service.clone(), account: account.clone() },
            ),
            _ => Err(StoreError::InvalidSecretRef),
        }
    }

    /// The entry that is to be deleted for a reference.
    pub fn delete_secret(&self, secret_ref: &SecretRef) -> (r: Result<KeychainEntry, StoreError>)
        ensures
            match secret_ref@ {
                SecretRefView::Keychain { service, account } => r matches Ok(entry)
                    && entry.service@ == service && entry.account@ == account,
                _ => r matches Err(error) && error@ == StoreErrorView::InvalidSecretRef,
            },
    {
        self.read_secret(secret_ref)
    }

    /// The entry that a probe addresses: that of the reference, or one of its own.
    pub fn probe_entry(&self, secret_ref: Option<&SecretRef>) -> (r: Result<
        KeychainEntry,
        StoreError,
    >)
        ensures
            match secret_ref.deep_view() {
                Some(SecretRefView::Keychain { service, account }) => r matches Ok(entry)
                    && entry.service@ == service && entry.account@ == account,
                Some(_) => r matches Err(error) && error@ == StoreErrorView::InvalidSecretRef,
                None => r matches Ok(entry) && entry.service@ == self.default_service@
                    && entry.account@ == "probe"@,
            },
    {
        match secret_ref {
            Some(secret_ref) => self.read_secret(secret_ref),
            None => Ok(
                KeychainEntry {
                    service: self.default_service.clone(),
                    account: "probe".to_owned(),
                },
            ),
        }
    }

    /// Whether the store can be reached, given what addressing the probe's entry gave.
    pub fn probe(&self, addressed: &Result<(), StoreError>) -> (r: StoreProbe)
        ensures
            match addressed {
                Ok(_) => r.available && r.detail@ == "native keyring entry is addressable"@,
                Err(error) => !r.available && r.detail@ == error@.text(),
            },
    {
        match addressed {
            Ok(_) => StoreProbe {
                available: true,
                detail: "native keyring entry is addressable".to_owned(),
            },
            Err(error) => StoreProbe { available: false, detail: error.message() },
        }
    }
}

/// The secrets of two profiles never share a file.
pub proof fn lemma_entry_paths_differ(root_dir: Seq<u8>, a: Seq<char>, b: Seq<char>)
    requires
        a != b,
    ensures
        entry_path_of(root_dir, a) != entry_path_of(root_dir, b),
{
    let (x, y) = (encode_utf8(a), encode_utf8(b));
    encode_utf8_decode_utf8(a);
    encode_utf8_decode_utf8(b);
    let tail = ".secret.json"@;
    reveal_strlit(".secret.json");
    assert(tail.len() == 12 && tail[0] == '.');
    let (s, t) = (encoded(x), encoded(y));
    if s + tail == t + tail {
        assert((s + tail).len() == s.len() + tail.len());
        assert((t + tail).len() == t.len() + tail.len());
        assert((s + tail).take(s.len() as int) =~= s);
        assert((t + tail).take(t.len() as int) =~= t);
        base64url::lemma_encoded_injective(x, y);
    }
    base64url::lemma_encoded_has_no_slash(x);
    base64url::lemma_encoded_has_no_slash(y);
    assert((s + tail)[0] != '/' && (t + tail)[0] != '/');
    encode_utf8_decode_utf8(s + tail);
    encode_utf8_decode_utf8(t + tail);
    paths::lemma_first_byte(s + tail);
    paths::lemma_first_byte(t + tail);
    paths::lemma_joined_path_injective(root_dir, encode_utf8(s + tail), encode_utf8(t + tail));
}

/// Reading by the reference that writing gave finds the file that was written, whatever store it is
/// read through, exactly where the path of the file is UTF-8, and its key exactly where the path of
/// the key is. The path of the file is UTF-8 wherever that of the store's directory is.
pub proof fn lemma_read_finds_what_was_written(
    root_dir: Seq<u8>,
    master_key_path: Seq<u8>,
    profile_id: Seq<char>,
    other_root_dir: Seq<u8>,
    other_master_key_path: Seq<u8>,
)
    ensures
        written_ref(root_dir, master_key_path, profile_id) matches SecretRefView::File {
            path,
            key_path,
        } && ({
            let (file, key) = read_of(
                other_root_dir,
                other_master_key_path,
                path,
                key_path,
                profile_id,
                false,
            );
            &&& file == entry_path_of(root_dir, profile_id) <==> valid_utf8(
                entry_path_of(root_dir, profile_id),
            )
            &&& key == master_key_path <==> valid_utf8(master_key_path)
        }),
        valid_utf8(root_dir) ==> valid_utf8(entry_path_of(root_dir, profile_id)),
{
    let entry = entry_path_of(root_dir, profile_id);
    paths::lemma_shown_is_read_back(entry);
    paths::lemma_shown_is_read_back(master_key_path);
    if valid_utf8(root_dir) {
        paths::lemma_joined_text_is_utf8(
            root_dir,
            encoded(encode_utf8(profile_id)) + ".secret.json"@,
        );
    }
}

/// The program's files stand below its two directories: the configuration below the first, secrets,
/// key and log below the second.
pub proof fn lemma_layout(config_dir: Seq<u8>, data_dir: Seq<u8>)
    ensures
        ({
            let paths = layout(config_dir, data_dir);
            &&& paths.config_dir == config_dir
            &&& paths.data_dir == data_dir
            &&& paths.config_file == joined_text(config_dir, "config.toml"@)
            &&& paths.secrets_dir == joined_text(data_dir, "secrets"@)
            &&& paths.master_key_file == joined_text(data_dir, "master.key"@)
            &&& paths.doctor_log_file == joined_text(data_dir, "codex-login.log"@)
        }),
{
}

/// What is read for a reference: the reference's own file and key, whatever the store; for a path
/// that is a directory the profile's file beside it, named after the profile; for a reference
/// without a key that of the store.
pub proof fn lemma_what_is_read(
    root_dir: Seq<u8>,
    master_key_path: Seq<u8>,
    path: Seq<char>,
    key: Seq<char>,
    profile_id: Seq<char>,
)
    ensures
        read_of(root_dir, master_key_path, path, Some(key), profile_id, false) == (
            encode_utf8(path),
            encode_utf8(key),
        ),
        read_of(root_dir, master_key_path, path, None, profile_id, false) == (
            encode_utf8(path),
            encode_utf8(shown(master_key_path)),
        ),
        parent_of(encode_utf8(path)) matches Some(dir) ==> read_of(
            root_dir,
            master_key_path,
            path,
            Some(key),
            profile_id,
            true,
        ).0 == joined_text(dir, encoded(encode_utf8(profile_id)) + ".secret.json"@),
        parent_of(encode_utf8(path)) is None ==> read_of(
            root_dir,
            master_key_path,
            path,
            Some(key),
            profile_id,
            true,
        ).0 == joined_text(root_dir, encoded(encode_utf8(profile_id)) + ".secret.json"@),
{
}

/// A file gives nothing where its version is another, where its nonce does not decode to 12 bytes or
/// its ciphertext to any; else it gives what the cipher opens, and one that was sealed gives back
/// what was sealed wherever the cipher does.
pub proof fn lemma_what_a_file_gives(
    key: Seq<u8>,
    file: EncryptedSecretFileView,
    nonce: Seq<u8>,
    plaintext: Seq<u8>,
)
    requires
        nonce.len() == 12,
    ensures
        decrypted(key, file) is Some ==> file.version == 1 && (decoded(file.nonce) matches Some(n)
            && n.len() == 12) && decoded(file.ciphertext) is Some,
        decrypted(key, sealed_file(key, nonce, plaintext)) == opened(
            key,
            nonce,
            sealed(key, nonce, plaintext),
        ),
        sealed_file(key, nonce, plaintext).version == 1,
{
    base64url::lemma_decoded_encoded(nonce);
    base64url::lemma_decoded_encoded(sealed(key, nonce, plaintext));
}

/// The file store can be reached exactly where its directory is there, or where what was asked about
/// is: the file and its key, or, where nothing was asked about, the store's key.
pub proof fn lemma_reachable_file_store(
    store: FileSecretStore,
    secret_ref: Option<&SecretRef>,
    seen: FileObservations,
    r: StoreProbe,
)
    requires
        call_ensures(FileSecretStore::probe, (&store, secret_ref, seen), r),
    ensures
        ({
            let found = match secret_ref {
                Some(SecretRef::File { key_path: Some(_), .. }) => seen.file && seen.key,
                Some(SecretRef::File { key_path: None, .. }) => seen.file && seen.master_key,
                Some(_) => false,
                None => seen.root_dir || seen.master_key,
            };
            &&& r.available <==> found || seen.root_dir
            &&& found ==> r.detail@ == "file-backed secret store reachable"@
            &&& !found ==> r.detail@ == "file-backed secret store not initialized"@
        }),
{
}

/// What is deleted for a reference to a file is that file, or the profile's own file in the store for
/// a path that is a directory; for any other reference nothing is.
pub proof fn lemma_what_is_deleted(
    store: FileSecretStore,
    secret_ref: SecretRef,
    profile_id: &str,
    path_is_dir: bool,
    r: Result<FilePath, StoreError>,
)
    requires
        call_ensures(
            FileSecretStore::delete_secret,
            (&store, &secret_ref, profile_id, path_is_dir),
            r,
        ),
    ensures
        match (secret_ref, r) {
            (SecretRef::File { path, .. }, Ok(removed)) => if path_is_dir {
                removed@ == entry_path_of(store.root_dir@, profile_id@)
            } else {
                removed@ == encode_utf8(path@)
            },
            (SecretRef::File { .. }, Err(_)) => false,
            (_, Err(error)) => error is InvalidSecretRef,
            _ => false,
        },
{
}

/// A key that is there is used if it has 32 bytes, and refused with its length if it has not; it is
/// never replaced. Only where there is none is a new one made, of 32 bytes.
pub proof fn lemma_master_keys(
    store: FileSecretStore,
    existing: Option<Vec<u8>>,
    r: Result<MasterKey, StoreError>,
)
    requires
        call_ensures(FileSecretStore::load_or_create_master_key, (&store, existing), r),
    ensures
        match (existing, r) {
            (Some(bytes), Ok(key)) => bytes@.len() == 32 && key.bytes@ == bytes@ && !key.is_new,
            (Some(bytes), Err(StoreError::InvalidMasterKey(n))) => bytes@.len() != 32 && n
                == bytes@.len() as usize,
            (None, Ok(key)) => key.bytes@.len() == 32 && key.is_new,
            _ => false,
        },
{
}

/// The keychain reads, deletes and probes the entry that a reference names, and that entry is the one
/// that writing named; a reference of another kind is refused.
pub proof fn lemma_keychain_entries(
    store: KeyringSecretStore,
    profile_id: &str,
    written: (KeychainEntry, SecretRef),
    other: SecretRef,
    read: Result<KeychainEntry, StoreError>,
    deleted: Result<KeychainEntry, StoreError>,
    refused: Result<KeychainEntry, StoreError>,
)
    requires
        call_ensures(KeyringSecretStore::write_secret, (&store, profile_id), written),
        call_ensures(KeyringSecretStore::read_secret, (&store, &written.1), read),
        call_ensures(KeyringSecretStore::delete_secret, (&store, &written.1), deleted),
        call_ensures(KeyringSecretStore::read_secret, (&store, &other), refused),
        !(other is Keychain),
    ensures
        written.0.service@ == store.default_service@,
        written.0.account@ == profile_id@,
        read matches Ok(entry) && entry.service@ == written.0.service@ && entry.account@
            == written.0.account@,
        deleted matches Ok(entry) && entry.service@ == written.0.service@ && entry.account@
            == written.0.account@,
        refused matches Err(error) && error is InvalidSecretRef,
{
    assert(written.1@ is Keychain);
    assert(!(other@ is Keychain));
}

/// A secret that is written goes to the profile's own file in the store's directory.
pub proof fn lemma_what_is_written(store: FileSecretStore, profile_id: &str, r: FileWrite)
    requires
        call_ensures(FileSecretStore::write_secret, (&store, profile_id), r),
    ensures
        r.directory@ == store.root_dir@,
        r.path@ == joined_text(
            store.root_dir@,
            encoded(encode_utf8(profile_id@)) + ".secret.json"@,
        ),
        r.secret_ref matches SecretRef::File { path, key_path } && path@ == shown(r.path@)
            && (key_path matches Some(key) && key@ == shown(store.master_key_path@)),
{
    assert(r.secret_ref@ is File);
}

/// The directories that are made are the three that the program's files stand in.
pub proof fn lemma_ensured_directories(paths: AppPaths, r: Vec<FilePath>)
    requires
        call_ensures(AppPaths::ensure, (&paths,), r),
    ensures
        r@.len() == 3,
        r@[0]@ == paths.config_dir@,
        r@[1]@ == paths.data_dir@,
        r@[2]@ == paths.secrets_dir@,
{
    let all = r.deep_view();
    assert(all == seq![paths@.config_dir, paths@.data_dir, paths@.secrets_dir]);
    assert(all.len() == 3);
    assert(all.len() == r@.len());
    assert(all[0] == r@[0]@ && all[1] == r@[1]@ && all[2] == r@[2]@);
}

/// The text of an error begins with what kind it is and holds all that is known of it.
pub proof fn lemma_error_texts(error: StoreError, r: String)
    requires
        call_ensures(StoreError::message, (&error,), r),
    ensures
        match error {
            StoreError::PathResolution(s) => r@ == "path resolution failed: "@ + s@,
            StoreError::Io(s) => r@ == "io failure: "@ + s@,
            StoreError::Json(s) => r@ == "json failure: "@ + s@,
            StoreError::Keyring(s) => r@ == "keyring failure: "@ + s@,
            StoreError::Encryption => r@ == "encryption failure"@,
            StoreError::Decryption => r@ == "decryption failure"@,
            StoreError::MissingSecret(s) => r@ == "missing secret entry for profile `"@ + s@ + "`"@,
            StoreError::InvalidSecretRef => r@ == "invalid secret reference kind for this backend"@,
            StoreError::InvalidMasterKey(n) => r@
                == "invalid master key length: expected 32 bytes, got "@ + decimal(n as nat),
        },
{
}

} // verus!
