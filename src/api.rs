use vstd::prelude::*;
use crate::entity::{
    create_entity, create_outcome, delete_entity, delete_outcome, get_entity_sources,
    sources_match, update_entity, update_outcome, ConfigSources,
};
use crate::json::{fields_view, Entry};
use crate::layers::{layers_parse, ConfigError};
use crate::paths::{AgentScope, CommandScope, EntityKind, RootPaths, Scope};
use crate::store::FileStore;

verus! {

pub open spec fn agent_scope(s: Option<AgentScope>) -> Option<Scope> {
    match s {
        Some(AgentScope::Project) => Some(Scope::Project),
        Some(AgentScope::User) => Some(Scope::User),
        None => None,
    }
}

pub open spec fn command_scope(s: Option<CommandScope>) -> Option<Scope> {
    match s {
        Some(CommandScope::Project) => Some(Scope::Project),
        Some(CommandScope::User) => Some(Scope::User),
        None => None,
    }
}

/// Where an agent is stored.
pub fn get_agent_sources(store: &FileStore, roots: &RootPaths, agent_name: &str) -> (r: Result<ConfigSources, ConfigError>)
    ensures
        layers_parse(store@, roots) ==> r is Ok && sources_match(r->Ok_0, store@, roots, EntityKind::Agent, agent_name@),
        !layers_parse(store@, roots) ==> r is Err && r->Err_0 == ConfigError::Parse,
{
    get_entity_sources(store, roots, EntityKind::Agent, agent_name)
}

/// Where a command is stored.
pub fn get_command_sources(store: &FileStore, roots: &RootPaths, command_name: &str) -> (r: Result<ConfigSources, ConfigError>)
    ensures
        layers_parse(store@, roots) ==> r is Ok && sources_match(r->Ok_0, store@, roots, EntityKind::Command, command_name@),
        !layers_parse(store@, roots) ==> r is Err && r->Err_0 == ConfigError::Parse,
{
    get_entity_sources(store, roots, EntityKind::Command, command_name)
}

/// Create a new agent as a Markdown record.
pub fn create_agent(store: &mut FileStore, roots: &RootPaths, agent_name: &str, config: &Vec<Entry>, scope: Option<AgentScope>) -> (r: Result<(), ConfigError>)
    requires
        old(store).wf(),
    ensures
        final(store).wf(),
        (r, final(store)@) == create_outcome(old(store)@, roots, EntityKind::Agent, agent_name@, fields_view(config@), agent_scope(scope)),
{
    let s = match scope {
        Some(AgentScope::Project) => Some(Scope::Project),
        Some(AgentScope::User) => Some(Scope::User),
        None => None,
    };
    create_entity(store, roots, EntityKind::Agent, agent_name, config, s)
}

/// Create a new command as a Markdown record.
pub fn create_command(store: &mut FileStore, roots: &RootPaths, command_name: &str, config: &Vec<Entry>, scope: Option<CommandScope>) -> (r: Result<(), ConfigError>)
    requires
        old(store).wf(),
    ensures
        final(store).wf(),
        (r, final(store)@) == create_outcome(old(store)@, roots, EntityKind::Command, command_name@, fields_view(config@), command_scope(scope)),
{
    let s = match scope {
        Some(CommandScope::Project) => Some(Scope::Project),
        Some(CommandScope::User) => Some(Scope::User),
        None => None,
    };
    create_entity(store, roots, EntityKind::Command, command_name, config, s)
}

/// Update fields of an agent.
pub fn update_agent(store: &mut FileStore, roots: &RootPaths, agent_name: &str, updates: &Vec<Entry>) -> (r: Result<(), ConfigError>)
    requires
        old(store).wf(),
    ensures
        final(store).wf(),
        (r, final(store)@) == update_outcome(old(store)@, roots, EntityKind::Agent, agent_name@, fields_view(updates@)),
{
    update_entity(store, roots, EntityKind::Agent, agent_name, updates)
}

/// Update fields of a command.
pub fn update_command(store: &mut FileStore, roots: &RootPaths, command_name: &str, updates: &Vec<Entry>) -> (r: Result<(), ConfigError>)
    requires
        old(store).wf(),
    ensures
        final(store).wf(),
        (r, final(store)@) == update_outcome(old(store)@, roots, EntityKind::Command, command_name@, fields_view(updates@)),
{
    update_entity(store, roots, EntityKind::Command, command_name, updates)
}

/// Delete an agent; a built-in agent is turned off instead.
pub fn delete_agent(store: &mut FileStore, roots: &RootPaths, agent_name: &str) -> (r: Result<(), ConfigError>)
    requires
        old(store).wf(),
    ensures
        final(store).wf(),
        (r, final(store)@) == delete_outcome(old(store)@, roots, EntityKind::Agent, agent_name@),
{
    delete_entity(store, roots, EntityKind::Agent, agent_name)
}

/// Delete a command; one with no record anywhere is not found.
pub fn delete_command(store: &mut FileStore, roots: &RootPaths, command_name: &str) -> (r: Result<(), ConfigError>)
    requires
        old(store).wf(),
    ensures
        final(store).wf(),
        (r, final(store)@) == delete_outcome(old(store)@, roots, EntityKind::Command, command_name@),
{
    delete_entity(store, roots, EntityKind::Command, command_name)
}

} // verus!
