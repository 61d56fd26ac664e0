//! Where the configuration and the secret material of a run are looked for.
use vstd::prelude::*;
use vstd::string::*;
use vstd::utf8::{
    encode_utf8, encode_utf8_decode_utf8, encode_utf8_valid_utf8, is_ascii_chars,
    is_ascii_chars_encode_utf8,
};

use crate::commands::{DoctorCommand, ProfileCommand, RefreshCommand, TuiCommand};
use crate::paths::{self, file_name_of, joined_text, renamed, shown, stem_of, FilePath};
use crate::store::{AppPaths, StoreError};
use crate::text::{self, has_part, replaced};

verus! {

/// The directory of a fixture below the root of the workspace.
pub open spec fn fixture_dir(workspace_root: Seq<u8>, fixture: Seq<char>) -> Seq<u8> {
    joined_text(joined_text(workspace_root, ".sisyphus/fixtures"@), fixture)
}

/// The directory of a fixture, if one is asked for.
pub fn fixture_root(workspace_root: &FilePath, fixture: &Option<String>) -> (r: Option<FilePath>)
    ensures
        r.deep_view() == (match fixture.deep_view() {
            Some(name) => Some(fixture_dir(workspace_root@, name)),
            None => None,
        }),
{
    match fixture {
        Some(name) => {
            let fixtures = paths::join(workspace_root, ".sisyphus/fixtures");
            Some(paths::join(&fixtures, name.as_str()))
        },
        None => None,
    }
}

/// The path of the secret material that belongs to a configuration file: its sibling with
/// `secrets.json` in place of `config.toml`, or, for a name that has no `config` in it, with
/// `.secrets.json` behind the stem. The name goes by the text it is shown by.
pub open spec fn material_path(config_path: Seq<u8>) -> Option<Seq<u8>> {
    match file_name_of(config_path) {
        Some(name) => Some(
            renamed(
                config_path,
                if has_part(shown(name), "config"@) {
                    replaced(shown(name), "config.toml"@, "secrets.json"@)
                } else {
                    shown(stem_of(name)) + ".secrets.json"@
                },
            ),
        ),
        None => None,
    }
}

/// The path of the secret material that belongs to a configuration file.
pub fn infer_secret_material_path(config_path: &FilePath) -> (r: Option<FilePath>)
    ensures
        r.deep_view() == material_path(config_path@),
{
    match paths::file_name(config_path) {
        Some(name) => {
            let file_name = name.to_text();
            let sibling = if text::contains(file_name.as_str(), "config") {
                proof {
                    reveal_strlit("config.toml");
                }
                text::replace(file_name.as_str(), "config.toml", "secrets.json")
            } else {
                let stem = paths::file_stem(&name).to_text();
                text::concat(stem.as_str(), ".secrets.json")
            };
            Some(paths::with_file_name(config_path, sibling.as_str()))
        },
        None => None,
    }
}

/// The paths at which secret material may stand.
pub open spec fn material_candidates(
    config_path: Seq<u8>,
    fixture_root: Option<Seq<u8>>,
) -> Seq<Seq<u8>> {
    let own = match fixture_root {
        Some(root) => seq![joined_text(root, "secrets.json"@)],
        None => Seq::empty(),
    };
    match material_path(config_path) {
        Some(path) => own.push(path),
        None => own,
    }
}

/// The paths at which secret material may stand; the first that exists is the one to read.
pub fn resolve_secret_material(config_path: &FilePath, fixture_root: &Option<FilePath>) -> (r: Vec<
    FilePath,
>)
    ensures
        r.deep_view() == material_candidates(config_path@, fixture_root.deep_view()),
{
    let mut candidates: Vec<FilePath> = Vec::new();
    if let Some(root) = fixture_root {
        candidates.push(paths::join(root, "secrets.json"));
    }
    let ghost own = match fixture_root.deep_view() {
        Some(root) => seq![joined_text(root, "secrets.json"@)],
        None => Seq::empty(),
    };
    assert(candidates.deep_view() =~= own);
    if let Some(path) = infer_secret_material_path(config_path) {
        candidates.push(path);
    }
    assert(candidates.deep_view() =~= material_candidates(config_path@, fixture_root.deep_view()));
    candidates
}

/// The configuration file that is asked for, else the one of the fixture.
pub open spec fn asked_config(
    config: Option<Seq<char>>,
    fixture_root: Option<Seq<u8>>,
) -> Option<Seq<u8>> {
    match (config, fixture_root) {
        (Some(path), _) => Some(encode_utf8(path)),
        (None, Some(root)) => Some(joined_text(root, "config.toml"@)),
        (None, None) => None,
    }
}

fn asked_config_path(config: &Option<String>, fixture_root: &Option<FilePath>) -> (r: Option<
    FilePath,
>)
    ensures
        r.deep_view() == asked_config(config.deep_view(), fixture_root.deep_view()),
{
    match config {
        Some(path) => Some(FilePath::new(path.as_str())),
        None => match fixture_root {
            Some(root) => Some(paths::join(root, "config.toml")),
            None => None,
        },
    }
}

/// The configuration file of a refresh: the one asked for, the one of the fixture, or the sample
/// of the workspace.
pub fn resolve_refresh_config_path(
    command: &RefreshCommand,
    fixture_root: &Option<FilePath>,
    workspace_root: &FilePath,
) -> (r: FilePath)
    ensures
        r@ == (match asked_config(command@.config, fixture_root.deep_view()) {
            Some(path) => path,
            None => joined_text(workspace_root@, ".sisyphus/fixtures/sample-config.toml"@),
        }),
{
    match asked_config_path(&command.config, fixture_root) {
        Some(path) => path,
        None => paths::join(workspace_root, ".sisyphus/fixtures/sample-config.toml"),
    }
}

/// The configuration file of a run: the one asked for, else the program's own.
pub fn config_path_or_default(asked: Option<FilePath>, resolved: Result<AppPaths, StoreError>) -> (r:
    Result<FilePath, StoreError>)
    ensures
        match (asked, resolved) {
            (Some(path), _) => r matches Ok(p) && p@ == path@,
            (None, Ok(paths)) => r matches Ok(p) && p@ == paths@.config_file,
            (None, Err(error)) => r matches Err(e) && e@ == error@,
        },
{
    match (asked, resolved) {
        (Some(path), _) => Ok(path),
        (None, Ok(paths)) => Ok(paths.config_file),
        (None, Err(error)) => Err(error),
    }
}

/// The configuration file of the doctor: the one asked for, the one of the fixture, or the
/// program's own, where the platform names its directory.
pub fn resolve_doctor_config_path(command: &DoctorCommand, fixture_root: &Option<FilePath>) -> (r:
    Result<FilePath, StoreError>)
    ensures
        match asked_config(command@.config, fixture_root.deep_view()) {
            Some(path) => r matches Ok(p) && p@ == path,
            None => exists|resolved: Result<AppPaths, StoreError>| #[trigger]
                call_ensures(AppPaths::resolve, ("aistatus",), resolved) && (match resolved {
                    Ok(paths) => r matches Ok(p) && p@ == paths@.config_file,
                    Err(error) => r matches Err(e) && e@ == error@,
                }),
        },
{
    match asked_config_path(&command.config, fixture_root) {
        Some(path) => Ok(path),
        None => {
            let resolved = AppPaths::resolve("aistatus");
            assert(call_ensures(AppPaths::resolve, ("aistatus",), resolved));
            config_path_or_default(None, resolved)
        },
    }
}

/// The configuration file of a profile command: the one asked for, or the program's own, where
/// the platform names its directory.
pub fn resolve_profile_config_path(command: &ProfileCommand) -> (r: Result<FilePath, StoreError>)
    ensures
        match command@.config {
            Some(path) => r matches Ok(p) && p@ == encode_utf8(path),
            None => exists|resolved: Result<AppPaths, StoreError>| #[trigger]
                call_ensures(AppPaths::resolve, ("aistatus",), resolved) && (match resolved {
                    Ok(paths) => r matches Ok(p) && p@ == paths@.config_file,
                    Err(error) => r matches Err(e) && e@ == error@,
                }),
        },
{
    match &command.config {
        Some(path) => Ok(FilePath::new(path.as_str())),
        None => {
            let resolved = AppPaths::resolve("aistatus");
            assert(call_ensures(AppPaths::resolve, ("aistatus",), resolved));
            config_path_or_default(None, resolved)
        },
    }
}

/// The file that the panel shows: that of the fixture asked for, else of the sample.
pub fn tui_fixture_path(command: &TuiCommand) -> (r: String)
    ensures
        r@ == "crates/tui/tests/fixtures/"@ + (match command@.fixtures {
            Some(name) => name,
            None => "sample-quotas"@,
        }) + ".json"@,
{
    let name = match &command.fixtures {
        Some(name) => name.as_str(),
        None => "sample-quotas",
    };
    let mut path = text::concat("crates/tui/tests/fixtures/", name);
    path.append(".json");
    path
}

/// The configuration that is asked for counts before that of a fixture, and that of a fixture stands
/// in the fixture's directory below the workspace.
pub proof fn lemma_asked_config(
    path: Seq<char>,
    workspace_root: Seq<u8>,
    fixture: Seq<char>,
    root: Option<Seq<u8>>,
)
    ensures
        asked_config(Some(path), root) == Some(encode_utf8(path)),
        asked_config(None, Some(fixture_dir(workspace_root, fixture))) == Some(
            joined_text(
                joined_text(joined_text(workspace_root, ".sisyphus/fixtures"@), fixture),
                "config.toml"@,
            ),
        ),
        asked_config(None, None) is None,
{
}

/// Secret material is looked for in the fixture first, then beside the configuration: for a file that
/// is named after the configuration under the same name but for `config.toml`, else under the stem of
/// the name.
pub proof fn lemma_material_candidates(config_path: Seq<u8>, root: Seq<u8>)
    ensures
        ({
            let beside = match file_name_of(config_path) {
                Some(name) => Some(
                    if has_part(shown(name), "config"@) {
                        renamed(
                            config_path,
                            replaced(shown(name), "config.toml"@, "secrets.json"@),
                        )
                    } else {
                        renamed(config_path, shown(stem_of(name)) + ".secrets.json"@)
                    },
                ),
                None => None,
            };
            let alone = material_candidates(config_path, None);
            let both = material_candidates(config_path, Some(root));
            &&& both[0] == joined_text(root, "secrets.json"@)
            &&& both.len() == 1 + alone.len()
            &&& beside matches Some(path) ==> alone.len() == 1 && alone[0] == path && both[1]
                == path
            &&& beside is None ==> alone.len() == 0
        }),
{
}

/// The configuration of a refresh: the one asked for, whatever else is; else that of the fixture; else
/// the sample of the workspace.
pub proof fn lemma_refresh_configuration(
    command: RefreshCommand,
    fixture_root: Option<FilePath>,
    workspace_root: FilePath,
    r: FilePath,
)
    requires
        call_ensures(resolve_refresh_config_path, (&command, &fixture_root, &workspace_root), r),
    ensures
        match (command.config, fixture_root) {
            (Some(path), _) => r@ == encode_utf8(path@),
            (None, Some(root)) => r@ == joined_text(root@, "config.toml"@),
            (None, None) => r@ == joined_text(
                workspace_root@,
                ".sisyphus/fixtures/sample-config.toml"@,
            ),
        },
{
}

/// The configuration of a profile command or of the doctor: the one asked for, whatever the platform
/// names; else that of the platform's directories, or the error that there are none.
pub proof fn lemma_default_configuration(
    asked: Option<FilePath>,
    resolved: Result<AppPaths, StoreError>,
    r: Result<FilePath, StoreError>,
)
    requires
        call_ensures(config_path_or_default, (asked, resolved), r),
    ensures
        asked matches Some(path) ==> (r matches Ok(p) && p@ == path@),
        asked is None ==> (r is Ok <==> resolved is Ok),
        asked is None ==> (r matches Ok(p) ==> p@ == resolved->Ok_0.config_file@),
        asked is None ==> (r matches Err(e) ==> e@ == resolved->Err_0@),
{
}

/// The panel shows the fixture that is asked for, or the sample, from the place where they stand.
pub proof fn lemma_panel_fixture(command: TuiCommand, r: String)
    requires
        call_ensures(tui_fixture_path, (&command,), r),
    ensures
        command.fixtures matches Some(name) ==> r@ == "crates/tui/tests/fixtures/"@ + name@
            + ".json"@,
        command.fixtures is None ==> r@ == "crates/tui/tests/fixtures/"@ + "sample-quotas"@
            + ".json"@,
{
}

proof fn lemma_config_name()
    ensures
        ({
            let name = encode_utf8("config.toml"@);
            &&& name.len() == 11
            &&& !name.contains(47)
            &&& shown(name) == "config.toml"@
        }),
{
    let text = "config.toml"@;
    reveal_strlit("config.toml");
    assert(is_ascii_chars(text));
    is_ascii_chars_encode_utf8(text);
    let name = encode_utf8(text);
    assert(name.len() == 11);
    if name.contains(47) {
        let i = choose|i: int| 0 <= i < name.len() && name[i] == 47;
        assert(name[i] == text[i] as u8);
    }
    encode_utf8_valid_utf8(text);
    encode_utf8_decode_utf8(text);
}

/// Beside the configuration `config.toml` of a directory the secret material is `secrets.json` of the
/// same directory.
pub proof fn lemma_material_beside_config(dir: Seq<u8>)
    requires
        dir.len() < 2 || (dir.last() != 47 && !(dir.last() == 46 && dir[dir.len() - 2] == 47)),
    ensures
        material_path(joined_text(dir, "config.toml"@)) == Some(
            joined_text(dir, "secrets.json"@),
        ),
        material_candidates(joined_text(dir, "config.toml"@), None) == seq![
            joined_text(dir, "secrets.json"@),
        ],
{
    let text = "config.toml"@;
    let name = encode_utf8(text);
    lemma_config_name();
    paths::lemma_parts_of_a_path(dir, name, "secrets.json"@);
    reveal_strlit("config.toml");
    reveal_strlit("config");
    assert(text.subrange(0, 6) =~= "config"@);
    assert(text::occurs_at(text, "config"@, 0));
    let nothing = Seq::<char>::empty();
    assert(nothing + text + nothing =~= text);
    text::lemma_replaced(nothing, text, nothing, "secrets.json"@);
    assert(text::replaced(nothing, text, "secrets.json"@) =~= nothing);
    assert(nothing + "secrets.json"@ + nothing =~= "secrets.json"@);
    assert(seq![46u8].len() == 1 && seq![46u8, 46u8].len() == 2);
}

/// The directory of a fixture stands below the workspace's fixtures, and is none where none is asked
/// for.
pub proof fn lemma_fixture_directory(
    workspace_root: FilePath,
    fixture: Option<String>,
    r: Option<FilePath>,
)
    requires
        call_ensures(fixture_root, (&workspace_root, &fixture), r),
    ensures
        r is Some <==> fixture is Some,
        fixture matches Some(name) ==> r->0@ == joined_text(
            joined_text(workspace_root@, ".sisyphus/fixtures"@),
            name@,
        ),
{
}

/// The doctor takes the configuration that is asked for, else that of the fixture; a profile command
/// takes the one asked for.
pub proof fn lemma_named_configurations(
    doctor: DoctorCommand,
    profile: ProfileCommand,
    fixture_root: Option<FilePath>,
    of_doctor: Result<FilePath, StoreError>,
    of_profile: Result<FilePath, StoreError>,
)
    requires
        call_ensures(resolve_doctor_config_path, (&doctor, &fixture_root), of_doctor),
        call_ensures(resolve_profile_config_path, (&profile,), of_profile),
    ensures
        doctor.config matches Some(path) ==> (of_doctor matches Ok(p) && p@ == encode_utf8(path@)),
        doctor.config is None && fixture_root is Some ==> (of_doctor matches Ok(p) && p@
            == joined_text(fixture_root->0@, "config.toml"@)),
        profile.config matches Some(path) ==> (of_profile matches Ok(p) && p@ == encode_utf8(path@)),
{
}

} // verus!
