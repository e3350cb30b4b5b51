use vstd::prelude::*;
use crate::json::{
    get_field, has_key, lookup, put, remove_field, remove_key, set_field, Entry, Fields, Json,
    JsonModel,
};
use crate::layers::ConfigError;
use crate::markdown::MdData;
use crate::paths::{body_field, EntityKind};
use crate::store::{FileStore, Files};
use crate::text::{
    is_file_reference, is_prompt_file_reference, resolve_prompt_file_path, resolve_reference,
    str_eq, to_owned_string,
};

verus! {

/// Where an update stands: the Markdown record being edited (if one is
/// active), the JSON record, which of the two changed, and the files.
pub struct EditModel {
    pub md: Option<(Fields, Seq<char>)>,
    pub json: Fields,
    pub md_dirty: bool,
    pub json_dirty: bool,
    pub files: Files,
}

/// How an update is placed: the kind, the configuration directory that file
/// references are found from, whether a Markdown record existed, and whether
/// one is being made for an entity that had no record at all.
pub struct EditContext {
    pub kind: EntityKind,
    pub config_dir: String,
    pub md_exists: bool,
    pub creating: bool,
}

/// The text a body edit sets: the value where it is a string, else empty.
pub open spec fn body_text(v: JsonModel) -> Seq<char> {
    match v {
        JsonModel::Str(t) => t,
        _ => Seq::empty(),
    }
}

/// The JSON record's body field, where it is a file reference.
pub open spec fn json_reference(json: Fields, field: Seq<char>) -> Option<Seq<char>> {
    match lookup(json, field) {
        Some(JsonModel::Str(t)) => if is_file_reference(t) {
            Some(t)
        } else {
            None
        },
        _ => None,
    }
}

pub open spec fn set_md(s: EditModel, md: (Fields, Seq<char>)) -> EditModel {
    EditModel { md: Some(md), json: s.json, md_dirty: true, json_dirty: s.json_dirty, files: s.files }
}

pub open spec fn set_json(s: EditModel, json: Fields) -> EditModel {
    EditModel { md: s.md, json, md_dirty: s.md_dirty, json_dirty: true, files: s.files }
}

pub open spec fn set_files(s: EditModel, files: Files) -> EditModel {
    EditModel { md: s.md, json: s.json, md_dirty: s.md_dirty, json_dirty: s.json_dirty, files }
}

/// One edit of field `k` to value `v`; `None` where a body edit meets a
/// file reference with a blank target.
///
/// - A null value removes the field from the frontmatter of the active
///   Markdown record and from the JSON record, wherever it is.
/// - The body field goes to the Markdown body where a record is active; else
///   to the file that the JSON record's body field refers to; else into the
///   JSON record.
/// - Any other field: a field the JSON record has is set there (JSON wins);
///   else one the frontmatter has, or any field where a record is being
///   made, is set in the frontmatter; else a new field goes to the
///   frontmatter of an existing record, or to the JSON record.
pub open spec fn edit_step(ctx: EditContext, s: EditModel, k: Seq<char>, v: JsonModel) -> Option<EditModel> {
    let bf = body_field(ctx.kind);
    if v is Null {
        let s1 = if s.md is Some && has_key(s.md->Some_0.0, k) {
            set_md(s, (remove_key(s.md->Some_0.0, k), s.md->Some_0.1))
        } else {
            s
        };
        Some(
            if has_key(s1.json, k) {
                set_json(s1, remove_key(s1.json, k))
            } else {
                s1
            },
        )
    } else if k == bf {
        if ctx.md_exists || ctx.creating {
            match s.md {
                Some((fm, _)) => Some(set_md(s, (fm, body_text(v)))),
                None => Some(s),
            }
        } else if json_reference(s.json, bf) is Some {
            match resolve_reference(ctx.config_dir@, json_reference(s.json, bf)->Some_0) {
                Some(p) => Some(set_files(s, s.files.insert(p, body_text(v)))),
                None => None,
            }
        } else {
            Some(set_json(s, put(s.json, k, JsonModel::Str(body_text(v)))))
        }
    } else if has_key(s.json, k) {
        Some(set_json(s, put(s.json, k, v)))
    } else if (s.md is Some && has_key(s.md->Some_0.0, k)) || ctx.creating {
        match s.md {
            Some((fm, b)) => Some(set_md(s, (put(fm, k, v), b))),
            None => Some(s),
        }
    } else if ctx.md_exists && s.md is Some {
        Some(set_md(s, (put(s.md->Some_0.0, k, v), s.md->Some_0.1)))
    } else {
        Some(set_json(s, put(s.json, k, v)))
    }
}

/// The first `n` edits applied in order; at the first that fails, the
/// files as they stand then.
pub open spec fn edits_model(ctx: EditContext, s: EditModel, edits: Fields, n: nat) -> Result<EditModel, Files>
    decreases n,
{
    if n == 0 || n > edits.len() {
        Ok(s)
    } else {
        match edits_model(ctx, s, edits, (n - 1) as nat) {
            Ok(m) => match edit_step(ctx, m, edits[n - 1].0, edits[n - 1].1) {
                Some(m2) => Ok(m2),
                None => Err(m.files),
            },
            Err(f) => Err(f),
        }
    }
}

/// The records an update is working on.
pub struct EditState {
    pub md: Option<MdData>,
    pub json: Vec<Entry>,
    pub md_dirty: bool,
    pub json_dirty: bool,
}

impl EditState {
    pub open spec fn model(&self, files: Files) -> EditModel {
        EditModel {
            md: match self.md {
                Some(d) => Some(d@),
                None => None,
            },
            json: crate::json::fields_view(self.json@),
            md_dirty: self.md_dirty,
            json_dirty: self.json_dirty,
            files,
        }
    }
}

/// Apply one edit.
pub fn apply_edit(ctx: &EditContext, st: &mut EditState, store: &mut FileStore, field: &String, value: &Json) -> (r: Result<(), ConfigError>)
    requires
        old(store).wf(),
    ensures
        final(store).wf(),
        match edit_step(*ctx, old(st).model(old(store)@), field@, value@) {
            Some(m) => r is Ok && final(st).model(final(store)@) == m,
            None => r == Err::<(), ConfigError>(ConfigError::InvalidReference) && final(store)@
                == old(store)@,
        },
{
    let bf = ctx.kind.body_field_name();
    if value.is_null() {
        match &mut st.md {
            Some(data) => {
                if remove_field(&mut data.frontmatter, field.as_str()) {
                    st.md_dirty = true;
                }
            },
            None => {},
        }
        if remove_field(&mut st.json, field.as_str()) {
            st.json_dirty = true;
        }
        return Ok(());
    }
    if str_eq(field.as_str(), bf) {
        let text = match value {
            Json::Str(t) => t.clone(),
            _ => String::new(),
        };
        if ctx.md_exists || ctx.creating {
            match &mut st.md {
                Some(data) => {
                    data.body = text;
                    st.md_dirty = true;
                },
                None => {},
            }
            return Ok(());
        }
        let mut target: Option<String> = None;
        let mut is_ref = false;
        match get_field(&st.json, bf) {
            Some(Json::Str(reference)) => {
                if is_prompt_file_reference(reference.as_str()) {
                    is_ref = true;
                    target = resolve_prompt_file_path(ctx.config_dir.as_str(), reference.as_str());
                }
            },
            _ => {},
        }
        if is_ref {
            return match target {
                Some(p) => {
                    store.write(p.as_str(), text);
                    Ok(())
                },
                None => Err(ConfigError::InvalidReference),
            };
        }
        set_field(&mut st.json, to_owned_string(bf), Json::Str(text));
        st.json_dirty = true;
        return Ok(());
    }
    let in_md = match &st.md {
        Some(data) => get_field(&data.frontmatter, field.as_str()).is_some(),
        None => false,
    };
    let in_json = get_field(&st.json, field.as_str()).is_some();
    proof {
        crate::json::lemma_index_of(crate::json::fields_view(st.json@), field@);
        if st.md is Some {
            crate::json::lemma_index_of(crate::json::fields_view(st.md->Some_0.frontmatter@), field@);
        }
    }
    if in_json {
        set_field(&mut st.json, field.clone(), value.deep_clone());
        st.json_dirty = true;
    } else if in_md || ctx.creating || ctx.md_exists && st.md.is_some() {
        match &mut st.md {
            Some(data) => {
                set_field(&mut data.frontmatter, field.clone(), value.deep_clone());
                st.md_dirty = true;
            },
            None => {},
        }
    } else {
        set_field(&mut st.json, field.clone(), value.deep_clone());
        st.json_dirty = true;
    }
    Ok(())
}

/// Apply the edits in order, stopping at the first that fails.
pub fn apply_edits(ctx: &EditContext, st: &mut EditState, store: &mut FileStore, edits: &Vec<Entry>) -> (r: Result<(), ConfigError>)
    requires
        old(store).wf(),
    ensures
        final(store).wf(),
        match edits_model(*ctx, old(st).model(old(store)@), crate::json::fields_view(edits@), edits@.len()) {
            Ok(m) => r is Ok && final(st).model(final(store)@) == m,
            Err(f) => r == Err::<(), ConfigError>(ConfigError::InvalidReference) && final(store)@ == f,
        },
{
    let ghost s0 = st.model(store@);
    let ghost ev = crate::json::fields_view(edits@);
    let mut i: usize = 0;
    while i < edits.len()
        invariant
            store.wf(),
            i <= edits.len(),
            ev == crate::json::fields_view(edits@),
            s0 == old(st).model(old(store)@),
            edits_model(*ctx, s0, ev, i as nat) == Ok::<EditModel, Files>(st.model(store@)),
        decreases edits.len() - i,
    {
        assert(ev[i as int] == (edits[i as int].key@, edits[i as int].value@));
        let ghost before = store@;
        let res = apply_edit(ctx, st, store, &edits[i].key, &edits[i].value);
        if res.is_err() {
            proof {
                assert(edits_model(*ctx, s0, ev, (i + 1) as nat) == Err::<EditModel, Files>(before));
                lemma_edits_stop(*ctx, s0, ev, (i + 1) as nat);
            }
            return Err(ConfigError::InvalidReference);
        }
        i = i + 1;
    }
    Ok(())
}

proof fn lemma_edits_stop(ctx: EditContext, s: EditModel, edits: Fields, n: nat)
    requires
        n <= edits.len(),
        edits_model(ctx, s, edits, n) is Err,
    ensures
        edits_model(ctx, s, edits, edits.len()) == edits_model(ctx, s, edits, n),
    decreases edits.len() - n,
{
    if n < edits.len() {
        lemma_edits_stop(ctx, s, edits, n + 1);
    }
}

} // verus!
