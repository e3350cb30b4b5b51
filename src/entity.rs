use vstd::prelude::*;
use crate::codec::json_text;
use crate::json::{
    fields_view, get_field, lemma_object_view, lookup, put, remove_field, remove_key, set_field,
    Entry, Fields, Json, JsonModel,
};
use crate::layers::{
    entry_source, get_json_entry_source, get_json_write_target, layers_parse, opt_view,
    read_config_layers, write_config_at, write_target, written_with_backup, ConfigError,
    ConfigLayers, Layer,
};
use crate::markdown::{md_record, md_text, parse_md_file, write_md_file, MdData};
use crate::paths::{
    get_md_write_path, get_project_md_path, get_user_md_path, kind_dir, md_write_path,
    project_md_path, user_md_path, EntityKind, RootPaths, Scope,
};
use crate::reconcile::{apply_edits, edits_model, EditContext, EditModel, EditState};
use crate::store::{FileStore, Files};

verus! {

/// The layers as read from `files`.
pub open spec fn loaded(files: Files, roots: &RootPaths) -> ConfigLayers {
    choose|l: ConfigLayers| l.loaded_from(files, roots)
}

pub proof fn lemma_loaded(l: &ConfigLayers, files: Files, roots: &RootPaths, section: Seq<char>, name: Seq<char>)
    requires
        l.loaded_from(files, roots),
    ensures
        ({
            let c = loaded(files, roots);
            &&& c.loaded_from(files, roots)
            &&& forall|x: Layer| #[trigger] c.tree(x) == l.tree(x) && c.path(x) == l.path(x) && c.has(x) == l.has(x)
            &&& write_target(&c) == write_target(l)
            &&& entry_source(&c, section, name) == entry_source(l, section, name)
        }),
{
    let c = loaded(files, roots);
    assert(c.loaded_from(files, roots));
}

/// `tree[section][name]` set to `value`; a tree or section that is not an
/// object is replaced by an empty one first, and other entries stay.
pub open spec fn with_entry(tree: JsonModel, section: Seq<char>, name: Seq<char>, value: JsonModel) -> JsonModel {
    let t = match tree {
        JsonModel::Object(es) => es,
        _ => Seq::empty(),
    };
    let sec = match lookup(t, section) {
        Some(JsonModel::Object(s)) => s,
        _ => Seq::empty(),
    };
    JsonModel::Object(put(t, section, JsonModel::Object(put(sec, name, value))))
}

/// `tree[section]` without its entry `name`.
pub open spec fn without_entry(tree: JsonModel, section: Seq<char>, name: Seq<char>) -> JsonModel {
    let t = match tree {
        JsonModel::Object(es) => es,
        _ => Seq::empty(),
    };
    let sec = match lookup(t, section) {
        Some(JsonModel::Object(s)) => s,
        _ => Seq::empty(),
    };
    JsonModel::Object(put(t, section, JsonModel::Object(remove_key(sec, name))))
}

fn object_fields(j: &Json) -> (r: Vec<Entry>)
    ensures
        fields_view(r@) == match j@ {
            JsonModel::Object(es) => es,
            _ => Seq::empty(),
        },
{
    match j {
        Json::Object(es) => {
            proof {
                lemma_object_view(*es);
            }
            crate::json::clone_fields(es)
        },
        _ => {
            let r: Vec<Entry> = Vec::new();
            assert(fields_view(r@) =~= Seq::empty());
            r
        },
    }
}

fn section_of(t: &Vec<Entry>, section: &str) -> (r: Vec<Entry>)
    ensures
        fields_view(r@) == match lookup(fields_view(t@), section@) {
            Some(JsonModel::Object(s)) => s,
            _ => Seq::empty(),
        },
{
    match get_field(t, section) {
        Some(v) => object_fields(v),
        None => {
            let r: Vec<Entry> = Vec::new();
            assert(fields_view(r@) =~= Seq::empty());
            r
        },
    }
}

/// The tree with `tree[section][name]` set to `value`.
pub fn set_entry(tree: &Json, section: &str, name: &str, value: Json) -> (r: Json)
    ensures
        r@ == with_entry(tree@, section@, name@, value@),
{
    let mut t = object_fields(tree);
    let mut sec = section_of(&t, section);
    set_field(&mut sec, crate::text::to_owned_string(name), value);
    proof {
        lemma_object_view(sec);
    }
    set_field(&mut t, crate::text::to_owned_string(section), Json::Object(sec));
    proof {
        lemma_object_view(t);
    }
    Json::Object(t)
}

/// The tree without `tree[section][name]`.
pub fn drop_entry(tree: &Json, section: &str, name: &str) -> (r: Json)
    ensures
        r@ == without_entry(tree@, section@, name@),
{
    let mut t = object_fields(tree);
    let mut sec = section_of(&t, section);
    remove_field(&mut sec, name);
    proof {
        lemma_object_view(sec);
    }
    set_field(&mut t, crate::text::to_owned_string(section), Json::Object(sec));
    proof {
        lemma_object_view(t);
    }
    Json::Object(t)
}

/// What an operation returns together with the files it leaves.
pub type Outcome = (Result<(), ConfigError>, Files);

/// The JSON record an entry holds: its fields where it is an object, else
/// none.
pub open spec fn record_fields(src: Option<(Layer, JsonModel)>) -> Fields {
    match src {
        Some((_, JsonModel::Object(es))) => es,
        _ => Seq::empty(),
    }
}

/// `files` with `text` written at `path` (after a backup), or an encoding
/// failure that leaves `files` as they are.
pub open spec fn write_outcome(files: Files, path: Seq<char>, text: Option<Seq<char>>) -> Outcome {
    match text {
        Some(t) => (Ok(()), written_with_backup(files, path, t)),
        None => (Err(ConfigError::Encode), files),
    }
}

/// The result of an update of entity `name` with `edits`, and the files it
/// leaves, also where it fails.
pub open spec fn update_outcome(files: Files, roots: &RootPaths, kind: EntityKind, name: Seq<char>, edits: Fields) -> Outcome {
    if !layers_parse(files, roots) {
        (Err(ConfigError::Parse), files)
    } else {
        let l = loaded(files, roots);
        let md_path = md_write_path(files, roots, kind, name, None).1;
        let md_exists = files.contains_key(md_path);
        let src = entry_source(&l, kind_dir(kind), name);
        let existing = record_fields(src);
        let target = match src {
            Some((t, _)) => t,
            None => write_target(&l),
        };
        let had_json = existing.len() > 0;
        let creating = !md_exists && !had_json;
        let target_path = if creating {
            user_md_path(roots, kind, name)
        } else {
            md_path
        };
        let md0 = if md_exists {
            Some(md_record(files[md_path]))
        } else if creating {
            Some((Seq::empty(), Seq::empty()))
        } else {
            None
        };
        let ctx = EditContext { kind, config_dir: roots.config_dir, md_exists, creating };
        let s0 = EditModel { md: md0, json: existing, md_dirty: false, json_dirty: false, files };
        match edits_model(ctx, s0, edits, edits.len()) {
            Err(f) => (Err(ConfigError::InvalidReference), f),
            Ok(m) => {
                let md_step = if m.md_dirty && m.md is Some {
                    write_outcome(m.files, target_path, md_text(m.md->Some_0.0, m.md->Some_0.1))
                } else {
                    (Ok(()), m.files)
                };
                if md_step.0 is Err {
                    md_step
                } else if m.json_dirty && !(md_exists && !had_json) {
                    write_outcome(
                        md_step.1,
                        l.path(target),
                        json_text(
                            with_entry(l.tree(target), kind_dir(kind), name, JsonModel::Object(m.json)),
                        ),
                    )
                } else {
                    md_step
                }
            },
        }
    }
}

/// Update fields of an entity: each edit is placed in the Markdown record or
/// the JSON record by the reconciliation rules, and the stores that changed
/// are written back, each with a backup.
pub fn update_entity(store: &mut FileStore, roots: &RootPaths, kind: EntityKind, name: &str, updates: &Vec<Entry>) -> (r: Result<(), ConfigError>)
    requires
        old(store).wf(),
    ensures
        final(store).wf(),
        (r, final(store)@) == update_outcome(old(store)@, roots, kind, name@, fields_view(updates@)),
{
    let ghost files = store@;
    let (_scope, md_path) = get_md_write_path(store, roots, kind, name, None);
    let md_exists = store.contains(md_path.as_str());
    let layers = read_config_layers(store, roots)?;
    let section = kind.dir_name();
    proof {
        lemma_loaded(&layers, files, roots, section@, name@);
    }
    let source = get_json_entry_source(&layers, section, name);
    let (existing, target) = match source {
        Some((l, v)) => (object_fields(&v), l),
        None => (Vec::new(), get_json_write_target(&layers)),
    };
    assert(existing@.len() == 0 ==> fields_view(existing@) =~= Seq::empty());
    let had_json = existing.len() > 0;
    let creating = !md_exists && !had_json;
    let target_path = if creating {
        get_user_md_path(roots, kind, name)
    } else {
        md_path.clone()
    };
    let md = if md_exists {
        Some(parse_md_file(store, md_path.as_str())?)
    } else if creating {
        let d = MdData { frontmatter: Vec::new(), body: String::new() };
        assert(d@.0 =~= Seq::empty());
        Some(d)
    } else {
        None
    };
    let ctx = EditContext { kind, config_dir: roots.config_dir.clone(), md_exists, creating };
    let mut st = EditState { md, json: existing, md_dirty: false, json_dirty: false };
    apply_edits(&ctx, &mut st, store, updates)?;
    if st.md_dirty {
        match &st.md {
            Some(data) => {
                write_md_file(store, target_path.as_str(), &data.frontmatter, data.body.as_str())?;
            },
            None => {},
        }
    }
    if st.json_dirty && !(md_exists && !had_json) {
        assert(layers.has(target));
        let tree = set_entry(layers.layer_tree(target), section, name, Json::Object(st.json));
        proof {
            lemma_object_view(st.json);
        }
        let path = layers.layer_path(target);
        write_config_at(store, &tree, path.as_str())?;
    }
    Ok(())
}

/// The entry that turns a built-in agent off: `{"disable": true}`.
pub open spec fn disable_marker() -> JsonModel {
    JsonModel::Object(seq![("disable"@, JsonModel::Bool(true))])
}

pub open spec fn project_md_of(roots: &RootPaths, kind: EntityKind, name: Seq<char>) -> Option<Seq<char>> {
    match roots.project_dir {
        Some(wd) => Some(project_md_path(wd@, kind, name)),
        None => None,
    }
}

/// The result of deleting entity `name`, and the files it leaves: the
/// layers are read first (a layer that does not parse changes nothing); then
/// both Markdown records go, then the highest-precedence JSON entry; where
/// none of them was there, an agent gets a disabling entry in the
/// write-target layer and a command is not found.
pub open spec fn delete_outcome(files: Files, roots: &RootPaths, kind: EntityKind, name: Seq<char>) -> Outcome {
    if !layers_parse(files, roots) {
        (Err(ConfigError::Parse), files)
    } else {
        let l = loaded(files, roots);
        let pp = project_md_of(roots, kind, name);
        let del_p = pp is Some && files.contains_key(pp->Some_0);
        let f1 = if del_p {
            files.remove(pp->Some_0)
        } else {
            files
        };
        let up = user_md_path(roots, kind, name);
        let del_u = f1.contains_key(up);
        let f2 = if del_u {
            f1.remove(up)
        } else {
            f1
        };
        match entry_source(&l, kind_dir(kind), name) {
            Some((layer, _)) => write_outcome(
                f2,
                l.path(layer),
                json_text(without_entry(l.tree(layer), kind_dir(kind), name)),
            ),
            None => if del_p || del_u {
                (Ok(()), f2)
            } else {
                match kind {
                    EntityKind::Agent => write_outcome(
                        f2,
                        l.path(write_target(&l)),
                        json_text(
                            with_entry(
                                l.tree(write_target(&l)),
                                kind_dir(kind),
                                name,
                                disable_marker(),
                            ),
                        ),
                    ),
                    EntityKind::Command => (Err(ConfigError::NotFound), f2),
                }
            },
        }
    }
}

/// Delete an entity's records.
#[verifier::rlimit(50)]
pub fn delete_entity(store: &mut FileStore, roots: &RootPaths, kind: EntityKind, name: &str) -> (r: Result<(), ConfigError>)
    requires
        old(store).wf(),
    ensures
        final(store).wf(),
        r == delete_outcome(old(store)@, roots, kind, name@).0,
        final(store)@ == delete_outcome(old(store)@, roots, kind, name@).1,
{
    let ghost f0 = store@;
    let layers = read_config_layers(store, roots)?;
    let section = kind.dir_name();
    proof {
        lemma_loaded(&layers, f0, roots, section@, name@);
    }
    let mut deleted = false;
    if let Some(wd) = &roots.project_dir {
        let project_path = get_project_md_path(wd.as_str(), kind, name);
        if store.contains(project_path.as_str()) {
            store.remove(project_path.as_str());
            deleted = true;
        }
    }
    let ghost del_p = deleted;
    let ghost f1 = store@;
    assert(f1 == if del_p { f0.remove(project_md_of(roots, kind, name@)->Some_0) } else { f0 });
    let user_path = get_user_md_path(roots, kind, name);
    if store.contains(user_path.as_str()) {
        store.remove(user_path.as_str());
        deleted = true;
    }
    let ghost f2 = store@;
    assert(f2 == if f1.contains_key(user_path@) { f1.remove(user_path@) } else { f1 });
    match get_json_entry_source(&layers, section, name) {
        Some((layer, _)) => {
            let tree = drop_entry(layers.layer_tree(layer), section, name);
            let path = layers.layer_path(layer);
            return write_config_at(store, &tree, path.as_str());
        },
        None => {},
    }
    if deleted {
        return Ok(());
    }
    match kind {
        EntityKind::Agent => {
            let target = get_json_write_target(&layers);
            let mut marker: Vec<Entry> = Vec::new();
            marker.push(Entry { key: crate::text::to_owned_string("disable"), value: Json::Bool(true) });
            let m = Json::Object(marker);
            proof {
                lemma_object_view(marker);
                assert(fields_view(marker@) =~= seq![("disable"@, JsonModel::Bool(true))]);
            }
            let tree = set_entry(layers.layer_tree(target), section, name, m);
            let path = layers.layer_path(target);
            write_config_at(store, &tree, path.as_str())
        },
        EntityKind::Command => Err(ConfigError::NotFound),
    }
}

/// The result of creating entity `name` from `config`, and the files it
/// leaves: a name with a Markdown record at either scope or a JSON entry in
/// any layer already exists, and nothing is written; else a new Markdown
/// record is written, at project scope where asked for and a project is
/// known, else at user scope. The body field becomes the body and the
/// `scope` key is dropped.
pub open spec fn create_outcome(files: Files, roots: &RootPaths, kind: EntityKind, name: Seq<char>, config: Fields, scope: Option<Scope>) -> Outcome {
    let pp = project_md_of(roots, kind, name);
    let up = user_md_path(roots, kind, name);
    if (pp is Some && files.contains_key(pp->Some_0)) || files.contains_key(up) {
        (Err(ConfigError::AlreadyExists), files)
    } else if !layers_parse(files, roots) {
        (Err(ConfigError::Parse), files)
    } else if entry_source(&loaded(files, roots), kind_dir(kind), name) is Some {
        (Err(ConfigError::AlreadyExists), files)
    } else {
        let target = if scope == Some(Scope::Project) && pp is Some {
            pp->Some_0
        } else {
            up
        };
        let body = match lookup(config, crate::paths::body_field(kind)) {
            Some(JsonModel::Str(t)) => t,
            _ => Seq::empty(),
        };
        let fm = remove_key(remove_key(config, crate::paths::body_field(kind)), "scope"@);
        write_outcome(files, target, md_text(fm, body))
    }
}

/// Create a new entity as a Markdown record.
pub fn create_entity(store: &mut FileStore, roots: &RootPaths, kind: EntityKind, name: &str, config: &Vec<Entry>, scope: Option<Scope>) -> (r: Result<(), ConfigError>)
    requires
        old(store).wf(),
    ensures
        final(store).wf(),
        r == create_outcome(old(store)@, roots, kind, name@, fields_view(config@), scope).0,
        final(store)@ == create_outcome(old(store)@, roots, kind, name@, fields_view(config@), scope).1,
{
    let mut project_path: Option<String> = None;
    if let Some(wd) = &roots.project_dir {
        let p = get_project_md_path(wd.as_str(), kind, name);
        if store.contains(p.as_str()) {
            return Err(ConfigError::AlreadyExists);
        }
        project_path = Some(p);
    }
    let user_path = get_user_md_path(roots, kind, name);
    if store.contains(user_path.as_str()) {
        return Err(ConfigError::AlreadyExists);
    }
    let layers = read_config_layers(store, roots)?;
    let section = kind.dir_name();
    proof {
        lemma_loaded(&layers, store@, roots, section@, name@);
    }
    if get_json_entry_source(&layers, section, name).is_some() {
        return Err(ConfigError::AlreadyExists);
    }
    let target = match project_path {
        Some(p) => if scope == Some(Scope::Project) {
            p
        } else {
            user_path
        },
        None => user_path,
    };
    let mut frontmatter = crate::json::clone_fields(config);
    let bf = kind.body_field_name();
    let body = match get_field(config, bf) {
        Some(Json::Str(t)) => t.clone(),
        _ => String::new(),
    };
    remove_field(&mut frontmatter, bf);
    remove_field(&mut frontmatter, "scope");
    write_md_file(store, target.as_str(), &frontmatter, body.as_str())
}

/// Where one representation of an entity is stored.
#[derive(Debug)]
pub struct SourceInfo {
    pub exists: bool,
    pub path: Option<String>,
    pub fields: Vec<String>,
    pub scope: Option<Scope>,
}

/// Whether a Markdown record is at one location.
#[derive(Debug)]
pub struct MdLocationInfo {
    pub exists: bool,
    pub path: Option<String>,
}

/// Where an entity is stored: its authoritative Markdown record, its
/// authoritative JSON entry, and each Markdown location on its own.
#[derive(Debug)]
pub struct ConfigSources {
    pub md: SourceInfo,
    pub json: SourceInfo,
    pub project_md: Option<MdLocationInfo>,
    pub user_md: Option<MdLocationInfo>,
}

pub open spec fn keys_of(f: Fields) -> Seq<Seq<char>> {
    f.map_values(|e: (Seq<char>, JsonModel)| e.0)
}

pub open spec fn names_view(v: Seq<String>) -> Seq<Seq<char>> {
    v.map_values(|s: String| s@)
}

/// The fields a Markdown record shows: its frontmatter keys, then the body
/// field where the body is not blank.
pub open spec fn md_fields(kind: EntityKind, rec: (Fields, Seq<char>)) -> Seq<Seq<char>> {
    keys_of(rec.0) + if crate::text::trim(rec.1).len() > 0 {
        seq![crate::paths::body_field(kind)]
    } else {
        Seq::empty()
    }
}

fn field_names(f: &Vec<Entry>) -> (r: Vec<String>)
    ensures
        names_view(r@) == keys_of(fields_view(f@)),
{
    let mut out: Vec<String> = Vec::new();
    let mut i: usize = 0;
    while i < f.len()
        invariant
            i <= f.len(),
            out.len() == i,
            names_view(out@) == keys_of(fields_view(f@)).take(i as int),
        decreases f.len() - i,
    {
        let k = f[i].key.clone();
        let ghost prev = out@;
        out.push(k);
        assert(out@ == prev.push(k));
        assert forall|j: int| 0 <= j <= i implies #[trigger] names_view(out@)[j] == keys_of(fields_view(f@))[j] by {
            if j < i {
                assert(out@[j] == prev[j]);
                assert(names_view(prev)[j] == keys_of(fields_view(f@)).take(i as int)[j]);
            }
        }
        i = i + 1;
        assert(names_view(out@) =~= keys_of(fields_view(f@)).take(i as int));
    }
    assert(keys_of(fields_view(f@)).take(i as int) =~= keys_of(fields_view(f@)));
    out
}

/// The sources are those found in `files` for entity `name`.
pub open spec fn sources_match(c: ConfigSources, files: Files, roots: &RootPaths, kind: EntityKind, name: Seq<char>) -> bool {
    let pp = project_md_of(roots, kind, name);
    let p_exists = pp is Some && files.contains_key(pp->Some_0);
    let up = user_md_path(roots, kind, name);
    let u_exists = files.contains_key(up);
    let l = loaded(files, roots);
    let src = entry_source(&l, kind_dir(kind), name);
    let json_path = match src {
        Some((layer, _)) => l.path(layer),
        None => l.path(write_target(&l)),
    };
    &&& c.project_md is Some && c.project_md->Some_0.exists == p_exists && opt_view(
        c.project_md->Some_0.path,
    ) == pp
    &&& c.user_md is Some && c.user_md->Some_0.exists == u_exists && opt_view(
        c.user_md->Some_0.path,
    ) == Some(up)
    &&& c.md.exists == (p_exists || u_exists)
    &&& c.md.scope == if p_exists {
        Some(Scope::Project)
    } else if u_exists {
        Some(Scope::User)
    } else {
        None
    }
    &&& opt_view(c.md.path) == if p_exists {
        pp
    } else if u_exists {
        Some(up)
    } else {
        None
    }
    &&& names_view(c.md.fields@) == if p_exists {
        md_fields(kind, md_record(files[pp->Some_0]))
    } else if u_exists {
        md_fields(kind, md_record(files[up]))
    } else {
        Seq::empty()
    }
    &&& c.json.exists == (src is Some)
    &&& opt_view(c.json.path) == Some(json_path)
    &&& names_view(c.json.fields@) == match src {
        Some((_, JsonModel::Object(es))) => keys_of(es),
        _ => Seq::empty(),
    }
    &&& c.json.scope == if src is None {
        None
    } else if opt_view(l.paths.project) == Some(json_path) {
        Some(Scope::Project)
    } else {
        Some(Scope::User)
    }
}

/// The Markdown field list of `c` is the one found in `files`.
spec fn md_fields_found_in(c: ConfigSources, files: Files, roots: &RootPaths, kind: EntityKind, name: Seq<char>) -> bool {
    let pp = project_md_of(roots, kind, name);
    let p_exists = pp is Some && files.contains_key(pp->Some_0);
    let up = user_md_path(roots, kind, name);
    let u_exists = files.contains_key(up);
    names_view(c.md.fields@) == if p_exists {
        md_fields(kind, md_record(files[pp->Some_0]))
    } else if u_exists {
        md_fields(kind, md_record(files[up]))
    } else {
        Seq::empty()
    }
}

/// Describe where an entity is stored. Fails only where a JSON layer does
/// not parse.
pub fn get_entity_sources(store: &FileStore, roots: &RootPaths, kind: EntityKind, name: &str) -> (r: Result<ConfigSources, ConfigError>)
    ensures
        layers_parse(store@, roots) ==> r is Ok && sources_match(r->Ok_0, store@, roots, kind, name@),
        !layers_parse(store@, roots) ==> r is Err && r->Err_0 == ConfigError::Parse,
{
    let project_path = match &roots.project_dir {
        Some(wd) => Some(get_project_md_path(wd.as_str(), kind, name)),
        None => None,
    };
    let project_exists = match &project_path {
        Some(p) => store.contains(p.as_str()),
        None => false,
    };
    let user_path = get_user_md_path(roots, kind, name);
    let user_exists = store.contains(user_path.as_str());
    let (md_path, md_scope) = if project_exists {
        (project_path.clone(), Some(Scope::Project))
    } else if user_exists {
        (Some(user_path.clone()), Some(Scope::User))
    } else {
        (None, None)
    };
    let mut md_fields_found: Vec<String> = Vec::new();
    match &md_path {
        Some(p) => {
            let data = parse_md_file(store, p.as_str())?;
            md_fields_found = field_names(&data.frontmatter);
            let ghost before = md_fields_found@;
            if crate::text::trim_str(data.body.as_str()).unicode_len() > 0 {
                md_fields_found.push(crate::text::to_owned_string(kind.body_field_name()));
            }
            assert(names_view(md_fields_found@) =~= md_fields(kind, data@));
        },
        None => {
            assert(names_view(md_fields_found@) =~= Seq::empty());
        },
    }
    let layers = read_config_layers(store, roots)?;
    let section = kind.dir_name();
    proof {
        lemma_loaded(&layers, store@, roots, section@, name@);
    }
    let source = get_json_entry_source(&layers, section, name);
    let (json_exists, json_fields, json_path) = match &source {
        Some((l, v)) => {
            let f = object_fields(v);
            (true, field_names(&f), layers.layer_path(*l))
        },
        None => {
            let t = get_json_write_target(&layers);
            let e: Vec<String> = Vec::new();
            assert(names_view(e@) =~= Seq::empty());
            (false, e, layers.layer_path(t))
        },
    };
    let in_project = match &layers.paths.project {
        Some(p) => crate::text::str_eq(p.as_str(), json_path.as_str()),
        None => false,
    };
    let json_scope = if !json_exists {
        None
    } else if in_project {
        Some(Scope::Project)
    } else {
        Some(Scope::User)
    };
    let project_md = Some(MdLocationInfo { exists: project_exists, path: project_path });
    let user_md = Some(MdLocationInfo { exists: user_exists, path: Some(user_path) });
    let res = ConfigSources {
        md: SourceInfo { exists: md_path.is_some(), path: md_path, fields: md_fields_found, scope: md_scope },
        json: SourceInfo { exists: json_exists, path: Some(json_path), fields: json_fields, scope: json_scope },
        project_md,
        user_md,
    };
    proof {
        let pp = project_md_of(roots, kind, name@);
        let l = loaded(store@, roots);
        let src = entry_source(&l, kind_dir(kind), name@);
        assert(opt_view(res.project_md->Some_0.path) == pp);
        assert(res.md.exists == (project_exists || user_exists));
        assert(md_fields_found_in(res, store@, roots, kind, name@));
        assert(res.json.exists == (src is Some));
        assert(names_view(res.json.fields@) == match src {
            Some((_, JsonModel::Object(es))) => keys_of(es),
            _ => Seq::empty(),
        });
    }
    Ok(res)
}

} // verus!
