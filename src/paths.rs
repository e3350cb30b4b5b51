use vstd::prelude::*;
use crate::store::{FileStore, Files};
use crate::text::{join, join_path, to_owned_string};

verus! {

/// The two kinds of named entities.
#[derive(Debug, Clone, Copy, PartialEq, Eq, Structural)]
pub enum EntityKind {
    Agent,
    Command,
}

/// Where a Markdown record of an agent lives.
#[derive(Debug, Clone, Copy, PartialEq, Eq, Structural)]
pub enum AgentScope {
    User,
    Project,
}

/// Where a Markdown record of a command lives.
#[derive(Debug, Clone, Copy, PartialEq, Eq, Structural)]
pub enum CommandScope {
    User,
    Project,
}

/// Where a Markdown record lives, for either kind.
#[derive(Debug, Clone, Copy, PartialEq, Eq, Structural)]
pub enum Scope {
    User,
    Project,
}

impl From<AgentScope> for Scope {
    fn from(scope: AgentScope) -> (r: Scope) {
        match scope {
            AgentScope::User => Scope::User,
            AgentScope::Project => Scope::Project,
        }
    }
}

impl vstd::std_specs::convert::FromSpecImpl<AgentScope> for Scope {
    open spec fn obeys_from_spec() -> bool {
        true
    }

    open spec fn from_spec(scope: AgentScope) -> Scope {
        match scope {
            AgentScope::User => Scope::User,
            AgentScope::Project => Scope::Project,
        }
    }
}

impl From<CommandScope> for Scope {
    fn from(scope: CommandScope) -> (r: Scope) {
        match scope {
            CommandScope::User => Scope::User,
            CommandScope::Project => Scope::Project,
        }
    }
}

impl vstd::std_specs::convert::FromSpecImpl<CommandScope> for Scope {
    open spec fn obeys_from_spec() -> bool {
        true
    }

    open spec fn from_spec(scope: CommandScope) -> Scope {
        match scope {
            CommandScope::User => Scope::User,
            CommandScope::Project => Scope::Project,
        }
    }
}

/// The roots that every path is found from: the user configuration
/// directory, the project (working) directory if one is known, and the path
/// of the override configuration file if one is set.
pub struct RootPaths {
    pub config_dir: String,
    pub project_dir: Option<String>,
    pub override_file: Option<String>,
}

pub open spec fn kind_dir(kind: EntityKind) -> Seq<char> {
    match kind {
        EntityKind::Agent => "agent"@,
        EntityKind::Command => "command"@,
    }
}

/// The field that a Markdown record keeps in its body.
pub open spec fn body_field(kind: EntityKind) -> Seq<char> {
    match kind {
        EntityKind::Agent => "prompt"@,
        EntityKind::Command => "template"@,
    }
}

impl EntityKind {
    /// Directory name of the kind's Markdown records; also its section key in
    /// the JSON layers.
    pub fn dir_name(&self) -> (r: &'static str)
        ensures
            r@ == kind_dir(*self),
    {
        match self {
            EntityKind::Agent => "agent",
            EntityKind::Command => "command",
        }
    }

    /// The field held in a Markdown record's body.
    pub fn body_field_name(&self) -> (r: &'static str)
        ensures
            r@ == body_field(*self),
    {
        match self {
            EntityKind::Agent => "prompt",
            EntityKind::Command => "template",
        }
    }
}

pub open spec fn md_file_name(name: Seq<char>) -> Seq<char> {
    name + ".md"@
}

/// `<config_dir>/<kind>/<name>.md`
pub open spec fn user_md_path(roots: &RootPaths, kind: EntityKind, name: Seq<char>) -> Seq<char> {
    join_path(join_path(roots.config_dir@, kind_dir(kind)), md_file_name(name))
}

/// `<project_dir>/.opencode/<kind>/<name>.md`
pub open spec fn project_md_path(wd: Seq<char>, kind: EntityKind, name: Seq<char>) -> Seq<char> {
    join_path(join_path(join_path(wd, ".opencode"@), kind_dir(kind)), md_file_name(name))
}

/// `<config_dir>/opencode.json`
pub open spec fn user_config_path(roots: &RootPaths) -> Seq<char> {
    join_path(roots.config_dir@, "opencode.json"@)
}

/// `<project_dir>/opencode.json`
pub open spec fn project_config_path(wd: Seq<char>) -> Seq<char> {
    join_path(wd, "opencode.json"@)
}

fn md_name(name: &str) -> (r: String)
    ensures
        r@ == md_file_name(name@),
{
    let mut f = to_owned_string(name);
    f.append(".md");
    f
}

pub fn get_user_md_path(roots: &RootPaths, kind: EntityKind, name: &str) -> (r: String)
    ensures
        r@ == user_md_path(roots, kind, name@),
{
    let dir = join(roots.config_dir.as_str(), kind.dir_name());
    join(dir.as_str(), md_name(name).as_str())
}

pub fn get_project_md_path(wd: &str, kind: EntityKind, name: &str) -> (r: String)
    ensures
        r@ == project_md_path(wd@, kind, name@),
{
    let base = join(wd, ".opencode");
    let dir = join(base.as_str(), kind.dir_name());
    join(dir.as_str(), md_name(name).as_str())
}

pub fn get_config_file(roots: &RootPaths) -> (r: String)
    ensures
        r@ == user_config_path(roots),
{
    join(roots.config_dir.as_str(), "opencode.json")
}

pub fn get_project_config_file(wd: &str) -> (r: String)
    ensures
        r@ == project_config_path(wd@),
{
    join(wd, "opencode.json")
}

/// Which Markdown record of an entity is authoritative: the project one if
/// a project directory is known and it exists, else the user one if it
/// exists.
pub open spec fn md_scope(files: Files, roots: &RootPaths, kind: EntityKind, name: Seq<char>) -> Option<(Scope, Seq<char>)> {
    if roots.project_dir is Some && files.contains_key(
        project_md_path(roots.project_dir->Some_0@, kind, name),
    ) {
        Some((Scope::Project, project_md_path(roots.project_dir->Some_0@, kind, name)))
    } else if files.contains_key(user_md_path(roots, kind, name)) {
        Some((Scope::User, user_md_path(roots, kind, name)))
    } else {
        None
    }
}

/// The authoritative Markdown record of an entity: its scope and path.
pub fn resolve_entity_scope(store: &FileStore, roots: &RootPaths, kind: EntityKind, name: &str) -> (r: Option<(Scope, String)>)
    ensures
        match r {
            Some((s, p)) => md_scope(store@, roots, kind, name@) == Some((s, p@)),
            None => md_scope(store@, roots, kind, name@) is None,
        },
{
    if let Some(wd) = &roots.project_dir {
        let project_path = get_project_md_path(wd.as_str(), kind, name);
        if store.contains(project_path.as_str()) {
            return Some((Scope::Project, project_path));
        }
    }
    let user_path = get_user_md_path(roots, kind, name);
    if store.contains(user_path.as_str()) {
        return Some((Scope::User, user_path));
    }
    None
}

/// Where an agent's Markdown record is: its scope and path.
pub fn get_agent_scope(store: &FileStore, roots: &RootPaths, agent_name: &str) -> (r: (Option<AgentScope>, Option<String>))
    ensures
        match md_scope(store@, roots, EntityKind::Agent, agent_name@) {
            Some((s, p)) => r.0 == Some(if s == Scope::Project { AgentScope::Project } else { AgentScope::User })
                && r.1 is Some && r.1->Some_0@ == p,
            None => r.0 is None && r.1 is None,
        },
{
    match resolve_entity_scope(store, roots, EntityKind::Agent, agent_name) {
        Some((Scope::Project, p)) => (Some(AgentScope::Project), Some(p)),
        Some((Scope::User, p)) => (Some(AgentScope::User), Some(p)),
        None => (None, None),
    }
}

/// Where a command's Markdown record is: its scope and path.
pub fn get_command_scope(store: &FileStore, roots: &RootPaths, command_name: &str) -> (r: (Option<CommandScope>, Option<String>))
    ensures
        match md_scope(store@, roots, EntityKind::Command, command_name@) {
            Some((s, p)) => r.0 == Some(if s == Scope::Project { CommandScope::Project } else { CommandScope::User })
                && r.1 is Some && r.1->Some_0@ == p,
            None => r.0 is None && r.1 is None,
        },
{
    match resolve_entity_scope(store, roots, EntityKind::Command, command_name) {
        Some((Scope::Project, p)) => (Some(CommandScope::Project), Some(p)),
        Some((Scope::User, p)) => (Some(CommandScope::User), Some(p)),
        None => (None, None),
    }
}

/// The path a Markdown record of an entity is written at: the existing one
/// if there is one, else the requested scope's, where project scope needs a
/// known project directory; user scope by default.
pub open spec fn md_write_path(files: Files, roots: &RootPaths, kind: EntityKind, name: Seq<char>, requested: Option<Scope>) -> (Scope, Seq<char>) {
    match md_scope(files, roots, kind, name) {
        Some(sp) => sp,
        None => if requested == Some(Scope::Project) && roots.project_dir is Some {
            (Scope::Project, project_md_path(roots.project_dir->Some_0@, kind, name))
        } else {
            (Scope::User, user_md_path(roots, kind, name))
        },
    }
}

pub fn get_md_write_path(store: &FileStore, roots: &RootPaths, kind: EntityKind, name: &str, requested: Option<Scope>) -> (r: (Scope, String))
    ensures
        (r.0, r.1@) == md_write_path(store@, roots, kind, name@, requested),
{
    if let Some((s, p)) = resolve_entity_scope(store, roots, kind, name) {
        return (s, p);
    }
    if requested == Some(Scope::Project) {
        if let Some(wd) = &roots.project_dir {
            return (Scope::Project, get_project_md_path(wd.as_str(), kind, name));
        }
    }
    (Scope::User, get_user_md_path(roots, kind, name))
}

} // verus!
