use opencode_config::api::{
    create_agent, delete_agent, delete_command, get_agent_sources, update_agent, update_command,
};
use opencode_config::codec::parse_json_text;
use opencode_config::entity::get_entity_sources;
use opencode_config::json::{merge_values, Entry, Json};
use opencode_config::layers::{
    get_json_entry_source, read_config, read_config_layers, write_config_at, ConfigError, Layer,
};
use opencode_config::markdown::{parse_md_file, write_md_file};
use opencode_config::paths::{
    get_agent_scope, get_command_scope, AgentScope, CommandScope, EntityKind, RootPaths, Scope,
};
use opencode_config::store::FileStore;
use opencode_config::text::{
    is_prompt_file_reference, resolve_prompt_file_path, split_md, strip_json_comments, trim_str,
};

const CONFIG_DIR: &str = "/home/u/.config/opencode";
const PROJECT: &str = "/work/proj";
const USER_JSON: &str = "/home/u/.config/opencode/opencode.json";
const PROJECT_JSON: &str = "/work/proj/opencode.json";

fn s(x: &str) -> String {
    x.to_string()
}

fn entry(k: &str, v: Json) -> Entry {
    Entry { key: s(k), value: v }
}

fn text(x: &str) -> Json {
    Json::Str(s(x))
}

fn num(x: &str) -> Json {
    Json::Number(s(x))
}

fn obj(es: Vec<Entry>) -> Json {
    Json::Object(es)
}

fn roots(project: bool) -> RootPaths {
    RootPaths {
        config_dir: s(CONFIG_DIR),
        project_dir: if project { Some(s(PROJECT)) } else { None },
        override_file: None,
    }
}

fn user_md(kind: &str, name: &str) -> String {
    format!("{}/{}/{}.md", CONFIG_DIR, kind, name)
}

fn project_md(kind: &str, name: &str) -> String {
    format!("{}/.opencode/{}/{}.md", PROJECT, kind, name)
}

fn read_json(store: &FileStore, path: &str) -> Json {
    parse_json_text(store.read(path).expect("file present").as_str()).expect("valid JSON")
}

fn field<'a>(j: &'a Json, k: &str) -> Option<&'a Json> {
    match j {
        Json::Object(es) => es.iter().find(|e| e.key == k).map(|e| &e.value),
        _ => None,
    }
}

#[test]
fn merge_with_empty_overlay_keeps_base() {
    let x = obj(vec![entry("a", num("1")), entry("b", obj(vec![entry("c", text("d"))]))]);
    let merged = merge_values(&x, &obj(vec![]));
    assert_eq!(merged, x);
}

#[test]
fn merge_overlay_wins_scalar_conflict() {
    let merged = merge_values(&obj(vec![entry("a", num("1"))]), &obj(vec![entry("a", num("2"))]));
    assert_eq!(merged, obj(vec![entry("a", num("2"))]));
}

#[test]
fn merge_recurses_through_objects() {
    let base = obj(vec![entry("a", obj(vec![entry("x", num("1"))]))]);
    let overlay = obj(vec![entry("a", obj(vec![entry("y", num("2"))]))]);
    let merged = merge_values(&base, &overlay);
    assert_eq!(merged, obj(vec![entry("a", obj(vec![entry("x", num("1")), entry("y", num("2"))]))]));
}

#[test]
fn merge_replaces_arrays() {
    let base = obj(vec![entry("a", Json::Array(vec![num("1")]))]);
    let overlay = obj(vec![entry("a", Json::Array(vec![num("2")]))]);
    assert_eq!(merge_values(&base, &overlay), obj(vec![entry("a", Json::Array(vec![num("2")]))]));
}

#[test]
fn merge_scalar_base_takes_overlay() {
    assert_eq!(merge_values(&num("5"), &obj(vec![])), obj(vec![]));
    assert_eq!(merge_values(&obj(vec![entry("a", num("1"))]), &num("3")), num("3"));
}

#[test]
fn project_scope_wins_over_user() {
    let mut store = FileStore::new();
    store.write(&project_md("agent", "rev"), s("p"));
    store.write(&user_md("agent", "rev"), s("u"));
    let (scope, path) = get_agent_scope(&store, &roots(true), "rev");
    assert_eq!(scope, Some(AgentScope::Project));
    assert_eq!(path, Some(project_md("agent", "rev")));
    let (scope, path) = get_agent_scope(&store, &roots(false), "rev");
    assert_eq!(scope, Some(AgentScope::User));
    assert_eq!(path, Some(user_md("agent", "rev")));
}

#[test]
fn command_scope_none_when_absent() {
    let mut store = FileStore::new();
    assert_eq!(get_command_scope(&store, &roots(true), "c"), (None, None));
    store.write(&user_md("command", "c"), s("body"));
    assert_eq!(get_command_scope(&store, &roots(true), "c"), (Some(CommandScope::User), Some(user_md("command", "c"))));
}

#[test]
fn json_project_layer_wins_over_user() {
    let mut store = FileStore::new();
    store.write(USER_JSON, s(r#"{"agent":{"x":{"model":"user"}}}"#));
    store.write(PROJECT_JSON, s(r#"{"agent":{"x":{"model":"project"}}}"#));
    let layers = read_config_layers(&store, &roots(true)).unwrap();
    let (layer, value) = get_json_entry_source(&layers, "agent", "x").unwrap();
    assert_eq!(layer, Layer::Project);
    assert_eq!(field(&value, "model"), Some(&text("project")));
    let r = roots(true);
    let sources = get_agent_sources(&store, &r, "x").unwrap();
    assert_eq!(sources.json.path, Some(s(PROJECT_JSON)));
    assert_eq!(sources.json.scope, Some(Scope::Project));
    assert_eq!(sources.json.fields, vec![s("model")]);
}

#[test]
fn override_layer_wins_over_project() {
    let mut store = FileStore::new();
    store.write(PROJECT_JSON, s(r#"{"agent":{"x":{"model":"project"}}}"#));
    store.write("/etc/oc.json", s(r#"{"agent":{"x":{"model":"override"}}}"#));
    let mut r = roots(true);
    r.override_file = Some(s("/etc/oc.json"));
    let layers = read_config_layers(&store, &r).unwrap();
    let (layer, value) = get_json_entry_source(&layers, "agent", "x").unwrap();
    assert_eq!(layer, Layer::Override);
    assert_eq!(field(&value, "model"), Some(&text("override")));
}

#[test]
fn md_write_then_parse_round_trips() {
    let mut store = FileStore::new();
    let path = user_md("agent", "rt");
    let fm = vec![entry("model", text("gpt-5")), entry("gone", Json::Null), entry("temperature", num("0.5"))];
    write_md_file(&mut store, &path, &fm, "Do the work").unwrap();
    let data = parse_md_file(&store, &path).unwrap();
    assert_eq!(data.body, "Do the work");
    assert_eq!(data.frontmatter, vec![entry("model", text("gpt-5")), entry("temperature", num("0.5"))]);
}

#[test]
fn project_markdown_scenario_rewrites_markdown_only() {
    let mut store = FileStore::new();
    let path = project_md("agent", "auditor");
    store.write(&path, s("---\nmodel: gpt-4\n---\n\nReview code"));
    let updates = vec![entry("model", text("gpt-5")), entry("prompt", text("Review code carefully"))];
    update_agent(&mut store, &roots(true), "auditor", &updates).unwrap();
    let data = parse_md_file(&store, &path).unwrap();
    assert_eq!(data.frontmatter, vec![entry("model", text("gpt-5"))]);
    assert_eq!(data.body, "Review code carefully");
    assert!(!store.contains(USER_JSON));
    assert!(!store.contains(PROJECT_JSON));
    assert_eq!(store.read(&format!("{}.openchamber.backup", path)), Some(&s("---\nmodel: gpt-4\n---\n\nReview code")));
}

#[test]
fn field_only_in_json_is_updated_in_json() {
    let mut store = FileStore::new();
    let md = user_md("agent", "a");
    store.write(&md, s("---\nmodel: m1\n---\n\nBody"));
    store.write(USER_JSON, s(r#"{"agent":{"a":{"temperature":0.1}}}"#));
    let updates = vec![entry("temperature", num("0.7"))];
    update_agent(&mut store, &roots(false), "a", &updates).unwrap();
    assert_eq!(store.read(&md), Some(&s("---\nmodel: m1\n---\n\nBody")));
    let tree = read_json(&store, USER_JSON);
    let a = field(field(&tree, "agent").unwrap(), "a").unwrap();
    assert_eq!(field(a, "temperature"), Some(&num("0.7")));
}

#[test]
fn json_wins_when_field_is_in_both_stores() {
    let mut store = FileStore::new();
    let md = user_md("agent", "a");
    store.write(&md, s("---\nmodel: m1\n---\n\nBody"));
    store.write(USER_JSON, s(r#"{"agent":{"a":{"model":"j1"}}}"#));
    update_agent(&mut store, &roots(false), "a", &vec![entry("model", text("j2"))]).unwrap();
    assert_eq!(parse_md_file(&store, &md).unwrap().frontmatter, vec![entry("model", text("m1"))]);
    let tree = read_json(&store, USER_JSON);
    assert_eq!(field(field(field(&tree, "agent").unwrap(), "a").unwrap(), "model"), Some(&text("j2")));
}

#[test]
fn null_edit_removes_field_from_both_stores() {
    let mut store = FileStore::new();
    let md = user_md("agent", "a");
    store.write(&md, s("---\nmodel: m1\ncolor: red\n---\n\nBody"));
    store.write(USER_JSON, s(r#"{"agent":{"a":{"model":"j1","steps":3}}}"#));
    update_agent(&mut store, &roots(false), "a", &vec![entry("model", Json::Null)]).unwrap();
    assert_eq!(parse_md_file(&store, &md).unwrap().frontmatter, vec![entry("color", text("red"))]);
    let tree = read_json(&store, USER_JSON);
    let a = field(field(&tree, "agent").unwrap(), "a").unwrap();
    assert_eq!(field(a, "model"), None);
    assert_eq!(field(a, "steps"), Some(&num("3")));
}

#[test]
fn null_edit_of_absent_field_writes_nothing() {
    let mut store = FileStore::new();
    let md = user_md("agent", "a");
    store.write(&md, s("---\nmodel: m1\n---\n\nBody"));
    store.write(USER_JSON, s(r#"{"agent":{"a":{"steps":3}}}"#));
    update_agent(&mut store, &roots(false), "a", &vec![entry("color", Json::Null)]).unwrap();
    assert_eq!(store.to_pairs().len(), 2);
    assert!(!store.contains(&format!("{}.openchamber.backup", md)));
    assert!(!store.contains(&format!("{}.openchamber.backup", USER_JSON)));
}

#[test]
fn builtin_override_materializes_user_markdown() {
    let mut store = FileStore::new();
    store.write(PROJECT_JSON, s(r#"{"agent":{"other":{"model":"q"}}}"#));
    let updates = vec![entry("model", text("gpt-5")), entry("prompt", text("Hello"))];
    update_agent(&mut store, &roots(true), "build", &updates).unwrap();
    let data = parse_md_file(&store, &user_md("agent", "build")).unwrap();
    assert_eq!(data.frontmatter, vec![entry("model", text("gpt-5"))]);
    assert_eq!(data.body, "Hello");
    assert_eq!(store.read(PROJECT_JSON), Some(&s(r#"{"agent":{"other":{"model":"q"}}}"#)));
    assert!(!store.contains(&project_md("agent", "build")));
}

#[test]
fn json_only_agent_gets_new_field_in_json() {
    let mut store = FileStore::new();
    store.write(USER_JSON, s(r#"{"agent":{"j":{"model":"a"},"k":{"model":"b"}}}"#));
    update_agent(&mut store, &roots(false), "j", &vec![entry("steps", num("4")), entry("prompt", text("P"))]).unwrap();
    let tree = read_json(&store, USER_JSON);
    let agents = field(&tree, "agent").unwrap();
    let j = field(agents, "j").unwrap();
    assert_eq!(field(j, "steps"), Some(&num("4")));
    assert_eq!(field(j, "prompt"), Some(&text("P")));
    assert_eq!(field(field(agents, "k").unwrap(), "model"), Some(&text("b")));
    assert!(!store.contains(&user_md("agent", "j")));
}

#[test]
fn body_edit_goes_to_referenced_file() {
    let mut store = FileStore::new();
    let before = r#"{"command":{"t":{"template":"{file:./prompts/t.txt}"}}}"#;
    store.write(USER_JSON, s(before));
    update_command(&mut store, &roots(false), "t", &vec![entry("template", text("New text"))]).unwrap();
    assert_eq!(store.read("/home/u/.config/opencode/prompts/t.txt"), Some(&s("New text")));
    assert_eq!(store.read(USER_JSON), Some(&s(before)));
}

#[test]
fn blank_file_reference_is_invalid() {
    let mut store = FileStore::new();
    store.write(USER_JSON, s(r#"{"agent":{"t":{"prompt":"{FILE:  }"}}}"#));
    let r = update_agent(&mut store, &roots(false), "t", &vec![entry("prompt", text("x"))]);
    assert_eq!(r, Err(ConfigError::InvalidReference));
}

#[test]
fn delete_json_only_agent_removes_entry_with_backup() {
    let mut store = FileStore::new();
    let before = r#"{"agent":{"x":{"model":"a"}}}"#;
    store.write(USER_JSON, s(before));
    delete_agent(&mut store, &roots(false), "x").unwrap();
    let tree = read_json(&store, USER_JSON);
    assert_eq!(field(field(&tree, "agent").unwrap(), "x"), None);
    assert_eq!(store.read(&format!("{}.openchamber.backup", USER_JSON)), Some(&s(before)));
}

#[test]
fn delete_missing_command_is_not_found() {
    let mut store = FileStore::new();
    assert_eq!(delete_command(&mut store, &roots(true), "y"), Err(ConfigError::NotFound));
}

#[test]
fn delete_builtin_agent_writes_disable_marker() {
    let mut store = FileStore::new();
    delete_agent(&mut store, &roots(true), "z").unwrap();
    let tree = read_json(&store, PROJECT_JSON);
    let z = field(field(&tree, "agent").unwrap(), "z").unwrap();
    assert_eq!(z, &obj(vec![entry("disable", Json::Bool(true))]));
    assert!(!store.contains(USER_JSON));
}

#[test]
fn delete_removes_both_markdown_files() {
    let mut store = FileStore::new();
    store.write(&project_md("command", "c"), s("p"));
    store.write(&user_md("command", "c"), s("u"));
    delete_command(&mut store, &roots(true), "c").unwrap();
    assert!(!store.contains(&project_md("command", "c")));
    assert!(!store.contains(&user_md("command", "c")));
}

#[test]
fn create_fails_when_entity_exists() {
    let mut store = FileStore::new();
    store.write(USER_JSON, s(r#"{"agent":{"e":{}}}"#));
    let r = create_agent(&mut store, &roots(false), "e", &vec![], None);
    assert_eq!(r, Err(ConfigError::AlreadyExists));
    store.write(&user_md("agent", "m"), s("x"));
    let r = create_agent(&mut store, &roots(false), "m", &vec![], None);
    assert_eq!(r, Err(ConfigError::AlreadyExists));
}

#[test]
fn create_writes_project_markdown_without_scope_key() {
    let mut store = FileStore::new();
    let config = vec![entry("model", text("m")), entry("scope", text("project")), entry("prompt", text("Hi"))];
    create_agent(&mut store, &roots(true), "n", &config, Some(AgentScope::Project)).unwrap();
    let data = parse_md_file(&store, &project_md("agent", "n")).unwrap();
    assert_eq!(data.frontmatter, vec![entry("model", text("m"))]);
    assert_eq!(data.body, "Hi");
    create_agent(&mut store, &roots(false), "q", &vec![], Some(AgentScope::Project)).unwrap();
    assert!(store.contains(&user_md("agent", "q")));
}

#[test]
fn unparsable_layer_is_a_parse_error() {
    let mut store = FileStore::new();
    store.write(USER_JSON, s("{ not json"));
    assert!(matches!(read_config(&store, &roots(false)), Err(ConfigError::Parse)));
    assert!(matches!(get_entity_sources(&store, &roots(false), EntityKind::Agent, "a"), Err(ConfigError::Parse)));
}

#[test]
fn blank_or_missing_layer_is_empty_object() {
    let mut store = FileStore::new();
    store.write(USER_JSON, s("  // only a comment\n  "));
    assert_eq!(read_config(&store, &roots(true)).unwrap(), obj(vec![]));
}

#[test]
fn merged_view_prefers_project() {
    let mut store = FileStore::new();
    store.write(USER_JSON, s(r#"{"model":"u","theme":"dark"}"#));
    store.write(PROJECT_JSON, s(r#"{"model":"p"}"#));
    let merged = read_config(&store, &roots(true)).unwrap();
    assert_eq!(field(&merged, "model"), Some(&text("p")));
    assert_eq!(field(&merged, "theme"), Some(&text("dark")));
}

#[test]
fn comments_are_stripped_outside_strings() {
    assert_eq!(strip_json_comments("{\"a\": 1} // c\n"), "{\"a\": 1} \n");
    assert_eq!(strip_json_comments("/* x */{\"u\": \"http://e\"}"), "{\"u\": \"http://e\"}");
    assert_eq!(strip_json_comments("\"a\\\"//b\""), "\"a\\\"//b\"");
    assert_eq!(strip_json_comments("1 /*/ 2 */3"), "1 3");
    assert_eq!(strip_json_comments("// open"), "");
}

#[test]
fn file_reference_syntax() {
    assert!(is_prompt_file_reference("  {file:./p.txt} "));
    assert!(is_prompt_file_reference("{FiLe:x}"));
    assert!(!is_prompt_file_reference("{file:}"));
    assert!(!is_prompt_file_reference("{file:a\nb}"));
    assert!(!is_prompt_file_reference("file:a"));
    assert_eq!(resolve_prompt_file_path("/c", "{file:./p/a.txt}"), Some(s("/c/p/a.txt")));
    assert_eq!(resolve_prompt_file_path("/c", "{file:rel.txt}"), Some(s("/c/rel.txt")));
    assert_eq!(resolve_prompt_file_path("/c", "{file:/abs/x.txt}"), Some(s("/abs/x.txt")));
    assert_eq!(resolve_prompt_file_path("/c", "{file:   }"), None);
}

#[test]
fn trim_and_frontmatter_split() {
    assert_eq!(trim_str("\u{a0} a b \t\n"), "a b");
    assert_eq!(split_md("---\nk: v\n---\n\nbody"), Some(("k: v", "\nbody")));
    assert_eq!(split_md("---\r\nk: v\r\n---\r\nbody"), Some(("k: v", "body")));
    assert_eq!(split_md("no block"), None);
}

#[test]
fn sources_describe_both_locations() {
    let mut store = FileStore::new();
    store.write(&project_md("agent", "a"), s("---\nmodel: m\n---\n\nText"));
    store.write(&user_md("agent", "a"), s("plain"));
    let sources = get_agent_sources(&store, &roots(true), "a").unwrap();
    assert!(sources.md.exists);
    assert_eq!(sources.md.scope, Some(Scope::Project));
    assert_eq!(sources.md.fields, vec![s("model"), s("prompt")]);
    assert!(sources.project_md.unwrap().exists);
    assert!(sources.user_md.unwrap().exists);
    assert!(!sources.json.exists);
    assert_eq!(sources.json.path, Some(s(PROJECT_JSON)));
    assert_eq!(sources.json.scope, None);
}

#[test]
fn write_config_keeps_one_backup() {
    let mut store = FileStore::new();
    write_config_at(&mut store, &obj(vec![entry("a", num("1"))]), USER_JSON).unwrap();
    assert!(!store.contains(&format!("{}.openchamber.backup", USER_JSON)));
    let first = store.read(USER_JSON).unwrap().clone();
    write_config_at(&mut store, &obj(vec![entry("a", num("2"))]), USER_JSON).unwrap();
    assert_eq!(store.read(&format!("{}.openchamber.backup", USER_JSON)), Some(&first));
    assert_eq!(field(&read_json(&store, USER_JSON), "a"), Some(&num("2")));
}

#[test]
fn scope_conversions() {
    assert_eq!(Scope::from(AgentScope::Project), Scope::Project);
    assert_eq!(Scope::from(CommandScope::User), Scope::User);
}

#[test]
fn null_edit_removes_field_from_record_being_built() {
    let mut store = FileStore::new();
    let updates = vec![entry("model", text("x")), entry("color", text("red")), entry("model", Json::Null)];
    update_agent(&mut store, &roots(false), "fresh", &updates).unwrap();
    let data = parse_md_file(&store, &user_md("agent", "fresh")).unwrap();
    assert_eq!(data.frontmatter, vec![entry("color", text("red"))]);
}

#[test]
fn not_found_and_exists_errors_change_nothing() {
    let mut store = FileStore::new();
    store.write(USER_JSON, s(r#"{"command":{"other":{}}}"#));
    assert_eq!(delete_command(&mut store, &roots(true), "y"), Err(ConfigError::NotFound));
    assert_eq!(store.to_pairs(), vec![(s(USER_JSON), s(r#"{"command":{"other":{}}}"#))]);
    let r = opencode_config::api::create_command(&mut store, &roots(true), "other", &vec![], None);
    assert_eq!(r, Err(ConfigError::AlreadyExists));
    assert_eq!(store.to_pairs().len(), 1);
}

#[test]
fn parse_error_on_delete_keeps_markdown() {
    let mut store = FileStore::new();
    store.write(USER_JSON, s("{ broken"));
    store.write(&user_md("agent", "a"), s("body"));
    assert_eq!(delete_agent(&mut store, &roots(false), "a"), Err(ConfigError::Parse));
    assert!(store.contains(&user_md("agent", "a")));
}

#[test]
fn invalid_reference_writes_no_file() {
    let mut store = FileStore::new();
    store.write(USER_JSON, s(r#"{"agent":{"t":{"prompt":"{file: }"}}}"#));
    let r = update_agent(&mut store, &roots(false), "t", &vec![entry("model", text("m")), entry("prompt", text("x"))]);
    assert_eq!(r, Err(ConfigError::InvalidReference));
    assert_eq!(store.to_pairs().len(), 1);
}
