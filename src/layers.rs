use vstd::prelude::*;
use crate::codec::{json_parse, json_text, parse_json_text, render_json};
use crate::json::{
    fields_view, get_field, lemma_object_view, lookup, merge_model, merge_values, Json, JsonModel,
};
use crate::paths::{
    get_config_file, get_project_config_file, project_config_path, user_config_path, RootPaths,
};
use crate::store::{FileStore, Files};
use crate::text::{strip_comments, strip_json_comments, to_owned_string, trim, trim_str};

verus! {

/// Why an operation failed.
#[derive(Debug, PartialEq, Eq, Structural)]
pub enum ConfigError {
    /// Creation of a name that already has a record.
    AlreadyExists,
    /// A JSON layer holds text that is not JSON.
    Parse,
    /// A body field routed to a file reference whose target is blank.
    InvalidReference,
    /// Deletion of a command that has no record anywhere.
    NotFound,
    /// A file that was to be read is not there.
    Io,
    /// A value could not be written out as text.
    Encode,
}

/// One of the three JSON layers.
#[derive(Debug, Clone, Copy, PartialEq, Eq, Structural)]
pub enum Layer {
    User,
    Project,
    Override,
}

pub open spec fn empty_object() -> JsonModel {
    JsonModel::Object(Seq::empty())
}

/// The tree a layer file holds: an empty object where the file is missing
/// or holds only white space and comments; `None` where it is not JSON.
pub open spec fn layer_tree(files: Files, path: Seq<char>) -> Option<JsonModel> {
    if !files.contains_key(path) {
        Some(empty_object())
    } else {
        let t = trim(strip_comments(files[path]));
        if t.len() == 0 {
            Some(empty_object())
        } else {
            json_parse(t)
        }
    }
}

/// Read one JSON layer file.
pub fn read_config_file(store: &FileStore, path: &str) -> (r: Result<Json, ConfigError>)
    ensures
        match layer_tree(store@, path@) {
            Some(t) => r is Ok && r->Ok_0@ == t,
            None => r == Err::<Json, ConfigError>(ConfigError::Parse),
        },
{
    let content = match store.read(path) {
        Some(c) => c,
        None => return Ok(Json::empty_object()),
    };
    let stripped = strip_json_comments(content.as_str());
    let normalized = trim_str(stripped.as_str());
    if normalized.unicode_len() == 0 {
        return Ok(Json::empty_object());
    }
    match parse_json_text(normalized) {
        Some(j) => Ok(j),
        None => Err(ConfigError::Parse),
    }
}

/// The paths of the three layers.
pub struct ConfigPaths {
    pub user: String,
    pub project: Option<String>,
    pub custom: Option<String>,
}

/// The three layers' trees and paths. A layer without a path holds an
/// empty object.
pub struct ConfigLayers {
    pub user: Json,
    pub project: Json,
    pub custom: Json,
    pub paths: ConfigPaths,
}

pub open spec fn opt_view(o: Option<String>) -> Option<Seq<char>> {
    match o {
        Some(s) => Some(s@),
        None => None,
    }
}

pub fn get_config_paths(roots: &RootPaths) -> (r: ConfigPaths)
    ensures
        r.user@ == user_config_path(roots),
        opt_view(r.project) == match roots.project_dir {
            Some(wd) => Some(project_config_path(wd@)),
            None => None::<Seq<char>>,
        },
        opt_view(r.custom) == opt_view(roots.override_file),
{
    ConfigPaths {
        user: get_config_file(roots),
        project: match &roots.project_dir {
            Some(wd) => Some(get_project_config_file(wd.as_str())),
            None => None,
        },
        custom: match &roots.override_file {
            Some(p) => Some(to_owned_string(p.as_str())),
            None => None,
        },
    }
}

/// The tree of an optional layer: empty where it has no path.
pub open spec fn opt_layer_tree(files: Files, path: Option<Seq<char>>) -> Option<JsonModel> {
    match path {
        Some(p) => layer_tree(files, p),
        None => Some(empty_object()),
    }
}

/// Whether all three layers parse.
pub open spec fn layers_parse(files: Files, roots: &RootPaths) -> bool {
    &&& layer_tree(files, user_config_path(roots)) is Some
    &&& opt_layer_tree(files, project_path_of(roots)) is Some
    &&& opt_layer_tree(files, opt_view(roots.override_file)) is Some
}

pub open spec fn project_path_of(roots: &RootPaths) -> Option<Seq<char>> {
    match roots.project_dir {
        Some(wd) => Some(project_config_path(wd@)),
        None => None,
    }
}

impl ConfigLayers {
    /// The layers are those found in `files` from `roots`.
    pub open spec fn loaded_from(&self, files: Files, roots: &RootPaths) -> bool {
        &&& self.paths.user@ == user_config_path(roots)
        &&& opt_view(self.paths.project) == project_path_of(roots)
        &&& opt_view(self.paths.custom) == opt_view(roots.override_file)
        &&& Some(self.user@) == layer_tree(files, user_config_path(roots))
        &&& Some(self.project@) == opt_layer_tree(files, project_path_of(roots))
        &&& Some(self.custom@) == opt_layer_tree(files, opt_view(roots.override_file))
    }

    pub open spec fn tree(&self, l: Layer) -> JsonModel {
        match l {
            Layer::User => self.user@,
            Layer::Project => self.project@,
            Layer::Override => self.custom@,
        }
    }

    pub open spec fn path(&self, l: Layer) -> Seq<char> {
        match l {
            Layer::User => self.paths.user@,
            Layer::Project => opt_view(self.paths.project)->Some_0,
            Layer::Override => opt_view(self.paths.custom)->Some_0,
        }
    }

    /// Whether the layer has a path.
    pub open spec fn has(&self, l: Layer) -> bool {
        match l {
            Layer::User => true,
            Layer::Project => self.paths.project is Some,
            Layer::Override => self.paths.custom is Some,
        }
    }

    pub fn layer_path(&self, l: Layer) -> (r: String)
        requires
            self.has(l),
        ensures
            r@ == self.path(l),
    {
        match l {
            Layer::User => self.paths.user.clone(),
            Layer::Project => self.paths.project.as_ref().unwrap().clone(),
            Layer::Override => self.paths.custom.as_ref().unwrap().clone(),
        }
    }

    pub fn layer_tree(&self, l: Layer) -> (r: &Json)
        ensures
            r@ == self.tree(l),
    {
        match l {
            Layer::User => &self.user,
            Layer::Project => &self.project,
            Layer::Override => &self.custom,
        }
    }
}

/// Read the three JSON layers.
pub fn read_config_layers(store: &FileStore, roots: &RootPaths) -> (r: Result<ConfigLayers, ConfigError>)
    ensures
        layers_parse(store@, roots) ==> r is Ok && r->Ok_0.loaded_from(store@, roots),
        !layers_parse(store@, roots) ==> r == Err::<ConfigLayers, ConfigError>(ConfigError::Parse),
{
    let paths = get_config_paths(roots);
    let user = read_config_file(store, paths.user.as_str())?;
    let project = match &paths.project {
        Some(p) => read_config_file(store, p.as_str())?,
        None => Json::empty_object(),
    };
    let custom = match &paths.custom {
        Some(p) => read_config_file(store, p.as_str())?,
        None => Json::empty_object(),
    };
    Ok(ConfigLayers { user, project, custom, paths })
}

/// The merged view of the layers: user, then project, then override, each
/// merged over the one before.
pub open spec fn merged_view(layers: &ConfigLayers) -> JsonModel {
    merge_model(merge_model(layers.user@, layers.project@), layers.custom@)
}

/// The three layers merged, override over project over user.
pub fn read_config(store: &FileStore, roots: &RootPaths) -> (r: Result<Json, ConfigError>)
    ensures
        layers_parse(store@, roots) ==> r is Ok && exists|l: ConfigLayers|
            l.loaded_from(store@, roots) && r->Ok_0@ == #[trigger] merged_view(&l),
        !layers_parse(store@, roots) ==> r == Err::<Json, ConfigError>(ConfigError::Parse),
{
    let layers = read_config_layers(store, roots)?;
    let base = merge_values(&layers.user, &layers.project);
    let merged = merge_values(&base, &layers.custom);
    assert(merged@ == merged_view(&layers));
    Ok(merged)
}

/// The entry `tree[section][name]`, where `tree` and `tree[section]` are
/// objects.
pub open spec fn entry_in(tree: JsonModel, section: Seq<char>, name: Seq<char>) -> Option<JsonModel> {
    match tree {
        JsonModel::Object(es) => match lookup(es, section) {
            Some(JsonModel::Object(s)) => lookup(s, name),
            _ => None,
        },
        _ => None,
    }
}

/// The highest-precedence layer holding an entry for `name` under
/// `section`, override before project before user, and that entry.
pub open spec fn entry_source(layers: &ConfigLayers, section: Seq<char>, name: Seq<char>) -> Option<(Layer, JsonModel)> {
    if layers.paths.custom is Some && entry_in(layers.custom@, section, name) is Some {
        Some((Layer::Override, entry_in(layers.custom@, section, name)->Some_0))
    } else if layers.paths.project is Some && entry_in(layers.project@, section, name) is Some {
        Some((Layer::Project, entry_in(layers.project@, section, name)->Some_0))
    } else if entry_in(layers.user@, section, name) is Some {
        Some((Layer::User, entry_in(layers.user@, section, name)->Some_0))
    } else {
        None
    }
}

fn get_entry<'a>(tree: &'a Json, section: &str, name: &str) -> (r: Option<&'a Json>)
    ensures
        match r {
            Some(v) => entry_in(tree@, section@, name@) == Some(v@),
            None => entry_in(tree@, section@, name@) is None,
        },
{
    match tree {
        Json::Object(es) => {
            proof {
                lemma_object_view(*es);
            }
            match get_field(es, section) {
                Some(Json::Object(s)) => {
                    proof {
                        lemma_object_view(*s);
                    }
                    get_field(s, name)
                },
                _ => None,
            }
        },
        _ => None,
    }
}

/// Where the JSON entry for `name` under `section` is found: its layer and
/// a copy of it.
pub fn get_json_entry_source(layers: &ConfigLayers, section: &str, name: &str) -> (r: Option<(Layer, Json)>)
    ensures
        match r {
            Some((l, v)) => entry_source(layers, section@, name@) == Some((l, v@)),
            None => entry_source(layers, section@, name@) is None,
        },
{
    if layers.paths.custom.is_some() {
        if let Some(v) = get_entry(&layers.custom, section, name) {
            return Some((Layer::Override, v.deep_clone()));
        }
    }
    if layers.paths.project.is_some() {
        if let Some(v) = get_entry(&layers.project, section, name) {
            return Some((Layer::Project, v.deep_clone()));
        }
    }
    if let Some(v) = get_entry(&layers.user, section, name) {
        return Some((Layer::User, v.deep_clone()));
    }
    None
}

/// The layer new JSON entries go to: the override layer where one is set,
/// else the project layer where a project is known, else the user layer.
pub open spec fn write_target(layers: &ConfigLayers) -> Layer {
    if layers.paths.custom is Some {
        Layer::Override
    } else if layers.paths.project is Some {
        Layer::Project
    } else {
        Layer::User
    }
}

pub fn get_json_write_target(layers: &ConfigLayers) -> (r: Layer)
    ensures
        r == write_target(layers),
        layers.has(r),
{
    if layers.paths.custom.is_some() {
        Layer::Override
    } else if layers.paths.project.is_some() {
        Layer::Project
    } else {
        Layer::User
    }
}

/// The path that keeps the previous text of a file.
pub open spec fn backup_path(path: Seq<char>) -> Seq<char> {
    path + ".openchamber.backup"@
}

/// The files after `text` is written at `path`, the old text, if any, first
/// copied to the backup path.
pub open spec fn written_with_backup(files: Files, path: Seq<char>, text: Seq<char>) -> Files {
    let backed = if files.contains_key(path) {
        files.insert(backup_path(path), files[path])
    } else {
        files
    };
    backed.insert(path, text)
}

/// Write `text` at `path`, first copying the old text to the backup path.
pub fn write_with_backup(store: &mut FileStore, path: &str, text: String)
    requires
        old(store).wf(),
    ensures
        final(store).wf(),
        final(store)@ == written_with_backup(old(store)@, path@, text@),
{
    let mut backup = to_owned_string(path);
    backup.append(".openchamber.backup");
    store.copy(path, backup.as_str());
    store.write(path, text);
}

/// Write a JSON configuration file, keeping a backup of its previous text.
pub fn write_config_at(store: &mut FileStore, config: &Json, config_file: &str) -> (r: Result<(), ConfigError>)
    requires
        old(store).wf(),
    ensures
        final(store).wf(),
        match json_text(config@) {
            Some(t) => r == Ok::<(), ConfigError>(()) && final(store)@ == written_with_backup(old(store)@, config_file@, t),
            None => r == Err::<(), ConfigError>(ConfigError::Encode) && final(store)@ == old(
                store,
            )@,
        },
{
    let text = match render_json(config) {
        Some(t) => t,
        None => return Err(ConfigError::Encode),
    };
    write_with_backup(store, config_file, text);
    Ok(())
}

/// Write the user-level JSON configuration file.
pub fn write_config(store: &mut FileStore, roots: &RootPaths, config: &Json) -> (r: Result<(), ConfigError>)
    requires
        old(store).wf(),
    ensures
        final(store).wf(),
        match json_text(config@) {
            Some(t) => r == Ok::<(), ConfigError>(()) && final(store)@ == written_with_backup(
                old(store)@,
                user_config_path(roots),
                t,
            ),
            None => r == Err::<(), ConfigError>(ConfigError::Encode) && final(store)@ == old(
                store,
            )@,
        },
{
    let path = get_config_file(roots);
    write_config_at(store, config, path.as_str())
}

} // verus!
