use vstd::prelude::*;
use crate::codec::yaml_fields;
use crate::entity::{loaded, record_fields, update_outcome};
use crate::json::{
    has_key, has_unique_keys, lemma_index_of, lemma_remove_lookup, lookup, put, Fields, JsonModel,
};
use crate::layers::{ConfigError, entry_in, entry_source, layers_parse, opt_view, written_with_backup, ConfigLayers, Layer};
use crate::markdown::{md_record, md_text, drop_nulls};
use crate::paths::{
    body_field, kind_dir, md_scope, md_write_path, project_md_path, user_md_path, EntityKind,
    RootPaths, Scope,
};
use crate::reconcile::{body_text, edit_step, edits_model, set_json, EditContext, EditModel};
use crate::store::Files;
use crate::text::{first_sep, header_len, is_ws, lemma_trim, sep_len, split_frontmatter, trim, trim_bounds};

verus! {

/// With a project directory known and Markdown records at both scopes, the
/// project record is the authoritative one.
pub proof fn lemma_project_scope_wins(files: Files, roots: &RootPaths, kind: EntityKind, name: Seq<char>)
    requires
        roots.project_dir is Some,
        files.contains_key(project_md_path(roots.project_dir->Some_0@, kind, name)),
        files.contains_key(user_md_path(roots, kind, name)),
    ensures
        md_scope(files, roots, kind, name) == Some(
            (Scope::Project, project_md_path(roots.project_dir->Some_0@, kind, name)),
        ),
{
}

/// An entry present in both the project and the user layer is found in the
/// project layer, with the project layer's value, where the override layer
/// does not hold it.
pub proof fn lemma_project_layer_wins(layers: &ConfigLayers, section: Seq<char>, name: Seq<char>)
    requires
        layers.paths.project is Some,
        entry_in(layers.project@, section, name) is Some,
        entry_in(layers.user@, section, name) is Some,
        layers.paths.custom is None || entry_in(layers.custom@, section, name) is None,
    ensures
        entry_source(layers, section, name) == Some(
            (Layer::Project, entry_in(layers.project@, section, name)->Some_0),
        ),
        layers.path(Layer::Project) == opt_view(layers.paths.project)->Some_0,
{
}

/// A field that the JSON record holds is edited in the JSON record; the
/// Markdown record, and which of the two is marked changed besides, stay as
/// they were.
pub proof fn lemma_json_field_routed_to_json(ctx: EditContext, s: EditModel, k: Seq<char>, v: JsonModel)
    requires
        !(v is Null),
        k != body_field(ctx.kind),
        has_key(s.json, k),
    ensures
        edit_step(ctx, s, k, v) == Some(set_json(s, put(s.json, k, v))),
        edit_step(ctx, s, k, v)->Some_0.md == s.md,
        edit_step(ctx, s, k, v)->Some_0.md_dirty == s.md_dirty,
        edit_step(ctx, s, k, v)->Some_0.files == s.files,
{
}

/// A null edit takes the field out of the JSON record and out of the active
/// Markdown record's frontmatter; where neither holds it, nothing changes
/// and no store is marked changed.
pub proof fn lemma_null_edit_removes(ctx: EditContext, s: EditModel, k: Seq<char>)
    requires
        has_unique_keys(s.json),
        s.md is Some ==> has_unique_keys(s.md->Some_0.0),
    ensures
        edit_step(ctx, s, k, JsonModel::Null) is Some,
        !has_key(edit_step(ctx, s, k, JsonModel::Null)->Some_0.json, k),
        s.md is Some ==> !has_key(
            edit_step(ctx, s, k, JsonModel::Null)->Some_0.md->Some_0.0,
            k,
        ),
        !has_key(s.json, k) && !(s.md is Some && has_key(s.md->Some_0.0, k)) ==> edit_step(
            ctx,
            s,
            k,
            JsonModel::Null,
        ) == Some(s),
{
    let m = edit_step(ctx, s, k, JsonModel::Null)->Some_0;
    lemma_remove_lookup(s.json, k, k);
    lemma_index_of(s.json, k);
    lemma_index_of(crate::json::remove_key(s.json, k), k);
    if s.md is Some {
        let fm = s.md->Some_0.0;
        lemma_remove_lookup(fm, k, k);
        lemma_index_of(fm, k);
        lemma_index_of(crate::json::remove_key(fm, k), k);
    }
}

/// An update whose one edit is a null value for a field that neither the
/// authoritative Markdown record nor the highest-precedence JSON entry holds
/// succeeds and leaves every file as it was.
pub proof fn lemma_absent_null_edit_writes_nothing(files: Files, roots: &RootPaths, kind: EntityKind, name: Seq<char>, k: Seq<char>)
    requires
        layers_parse(files, roots),
        !has_key(record_fields(entry_source(&loaded(files, roots), kind_dir(kind), name)), k),
        files.contains_key(md_write_path(files, roots, kind, name, None).1) ==> !has_key(
            md_record(files[md_write_path(files, roots, kind, name, None).1]).0,
            k,
        ),
    ensures
        update_outcome(files, roots, kind, name, seq![(k, JsonModel::Null)]) == (
            Ok::<(), ConfigError>(()),
            files,
        ),
{
    let edits = seq![(k, JsonModel::Null)];
    assert(edits.len() == 1 && edits[0] == (k, JsonModel::Null));
    assert(!has_key(Seq::<(Seq<char>, JsonModel)>::empty(), k));
    let l = loaded(files, roots);
    let md_path = md_write_path(files, roots, kind, name, None).1;
    let md_exists = files.contains_key(md_path);
    let existing = record_fields(entry_source(&l, kind_dir(kind), name));
    let creating = !md_exists && !(existing.len() > 0);
    let md0 = if md_exists {
        Some(md_record(files[md_path]))
    } else if creating {
        Some((Seq::<(Seq<char>, JsonModel)>::empty(), Seq::<char>::empty()))
    } else {
        None
    };
    let ctx = EditContext { kind, config_dir: roots.config_dir, md_exists, creating };
    let s0 = EditModel { md: md0, json: existing, md_dirty: false, json_dirty: false, files };
    assert(edit_step(ctx, s0, k, JsonModel::Null) == Some(s0));
    assert(edits_model(ctx, s0, edits, 0) == Ok::<EditModel, Files>(s0));
    assert(edits_model(ctx, s0, edits, 1) == Ok::<EditModel, Files>(s0));
}

/// The frontmatter and body that a first update of an entity with no record
/// builds from the first `n` edits, and whether any edit changed them: a
/// null edit removes the field, the body field sets the body, any other
/// field is set in the frontmatter.
pub open spec fn materialized(kind: EntityKind, edits: Fields, n: nat) -> (Fields, Seq<char>, bool)
    decreases n,
{
    if n == 0 || n > edits.len() {
        (Seq::empty(), Seq::empty(), false)
    } else {
        let prev = materialized(kind, edits, (n - 1) as nat);
        let k = edits[n - 1].0;
        let v = edits[n - 1].1;
        if v is Null {
            if has_key(prev.0, k) {
                (crate::json::remove_key(prev.0, k), prev.1, true)
            } else {
                prev
            }
        } else if k == body_field(kind) {
            (prev.0, body_text(v), true)
        } else {
            (put(prev.0, k, v), prev.1, true)
        }
    }
}

proof fn lemma_materialize_steps(ctx: EditContext, files: Files, edits: Fields, n: nat)
    requires
        n <= edits.len(),
        !ctx.md_exists,
        ctx.creating,
    ensures
        ({
            let m = materialized(ctx.kind, edits, n);
            edits_model(
                ctx,
                EditModel {
                    md: Some((Seq::empty(), Seq::empty())),
                    json: Seq::empty(),
                    md_dirty: false,
                    json_dirty: false,
                    files,
                },
                edits,
                n,
            ) == Ok::<EditModel, Files>(
                EditModel { md: Some((m.0, m.1)), json: Seq::empty(), md_dirty: m.2, json_dirty: false, files },
            )
        }),
    decreases n,
{
    if n > 0 {
        lemma_materialize_steps(ctx, files, edits, (n - 1) as nat);
        let k = edits[n - 1].0;
        assert(!has_key(Seq::<(Seq<char>, JsonModel)>::empty(), k));
    }
}

/// The first update of an entity that has no Markdown record and no JSON
/// fields in any layer writes a new user-scope Markdown record holding
/// exactly the edited fields, and touches no other file; where no edit
/// changes anything, nothing is written.
pub proof fn lemma_builtin_override_materializes(files: Files, roots: &RootPaths, kind: EntityKind, name: Seq<char>, edits: Fields)
    requires
        layers_parse(files, roots),
        md_scope(files, roots, kind, name) is None,
        record_fields(entry_source(&loaded(files, roots), kind_dir(kind), name)).len() == 0,
    ensures
        ({
            let m = materialized(kind, edits, edits.len());
            let up = user_md_path(roots, kind, name);
            update_outcome(files, roots, kind, name, edits) == if !m.2 {
                (Ok::<(), ConfigError>(()), files)
            } else {
                match md_text(m.0, m.1) {
                    Some(t) => (Ok::<(), ConfigError>(()), files.insert(up, t)),
                    None => (Err::<(), ConfigError>(ConfigError::Encode), files),
                }
            }
        }),
{
    let ctx = EditContext { kind, config_dir: roots.config_dir, md_exists: false, creating: true };
    lemma_materialize_steps(ctx, files, edits, edits.len());
    let up = user_md_path(roots, kind, name);
    assert(md_write_path(files, roots, kind, name, None).1 == up);
    assert(!files.contains_key(up));
    let m = materialized(kind, edits, edits.len());
    let s0 = EditModel {
        md: Some((Seq::empty(), Seq::empty())),
        json: record_fields(entry_source(&loaded(files, roots), kind_dir(kind), name)),
        md_dirty: false,
        json_dirty: false,
        files,
    };
    assert(record_fields(entry_source(&loaded(files, roots), kind_dir(kind), name)) =~= Seq::empty());
    assert(edits_model(ctx, s0, edits, edits.len()) == Ok::<EditModel, Files>(
        EditModel { md: Some((m.0, m.1)), json: Seq::empty(), md_dirty: m.2, json_dirty: false, files },
    ));
}

/// The text of a Markdown record: the frontmatter text `y` framed by `---`
/// lines, a blank line, then the body.
pub open spec fn framed(y: Seq<char>, body: Seq<char>) -> Seq<char> {
    "---\n"@ + y + "---\n\n"@ + body
}

proof fn lemma_trim_exists(s: Seq<char>)
    ensures
        exists|ab: (int, int)| trim_bounds(s, ab.0, ab.1),
    decreases s.len(),
{
    if s.len() == 0 {
        assert(trim_bounds(s, (0int, 0int).0, (0int, 0int).1));
    } else {
        let t = s.drop_first();
        lemma_trim_exists(t);
        let ab = choose|ab: (int, int)| trim_bounds(t, ab.0, ab.1);
        assert(forall|m: int| 0 <= m < t.len() ==> t[m] == s[m + 1]);
        if is_ws(s[0]) {
            let w = (ab.0 + 1, ab.1 + 1);
            assert forall|m: int| 0 <= m < w.0 implies is_ws(#[trigger] s[m]) by {
                if m > 0 {
                    assert(is_ws(t[m - 1]));
                }
            }
            assert forall|m: int| w.1 <= m < s.len() implies is_ws(#[trigger] s[m]) by {
                assert(is_ws(t[m - 1]));
            }
            assert(trim_bounds(s, w.0, w.1));
        } else {
            let w = (0int, if ab.0 < ab.1 { ab.1 + 1 } else { 1 });
            assert forall|m: int| w.1 <= m < s.len() implies is_ws(#[trigger] s[m]) by {
                assert(is_ws(t[m - 1]));
            }
            assert(trim_bounds(s, w.0, w.1));
        }
    }
}

proof fn lemma_trim_leading_break(body: Seq<char>)
    ensures
        trim(seq!['\n'] + body) == trim(body),
{
    lemma_trim_exists(body);
    let ab = choose|ab: (int, int)| trim_bounds(body, ab.0, ab.1);
    let s = seq!['\n'] + body;
    assert(forall|m: int| 0 <= m < body.len() ==> s[m + 1] == body[m]);
    assert(is_ws(s[0]));
    assert forall|m: int| 0 <= m < ab.0 + 1 implies is_ws(#[trigger] s[m]) by {
        if m > 0 {
            assert(is_ws(body[m - 1]));
        }
    }
    assert forall|m: int| ab.1 + 1 <= m < s.len() implies is_ws(#[trigger] s[m]) by {
        assert(is_ws(body[m - 1]));
    }
    assert(trim_bounds(s, ab.0 + 1, ab.1 + 1));
    lemma_trim(s, ab.0 + 1, ab.1 + 1);
    lemma_trim(body, ab.0, ab.1);
    assert(s.subrange(ab.0 + 1, ab.1 + 1) =~= body.subrange(ab.0, ab.1));
}

/// A Markdown record written from frontmatter text `y` and a body reads back
/// as the fields the YAML reader finds in `y` without its final line break,
/// and the body trimmed; where `y` ends with a line break and holds no
/// `---` line of its own.
pub proof fn lemma_md_frame_round_trip(y: Seq<char>, body: Seq<char>)
    requires
        y.len() > 0,
        y.last() == '\n',
        forall|m: int| 4 <= m < 3 + y.len() ==> sep_len(#[trigger] framed(y, body), m) < 0,
    ensures
        md_record(framed(y, body)) == (
            match yaml_fields(y.drop_last()) {
                Some(f) => f,
                None => Seq::empty(),
            },
            trim(body),
        ),
{
    let c = framed(y, body);
    let p = 3 + y.len() as int;
    reveal_strlit("---\n");
    reveal_strlit("---\n\n");
    assert(c[0] == '-' && c[1] == '-' && c[2] == '-' && c[3] == '\n');
    assert(header_len(c) == 4);
    assert(c[p] == '\n');
    assert(c[p + 1] == '-' && c[p + 2] == '-' && c[p + 3] == '-' && c[p + 4] == '\n');
    assert(c[p + 4] != '\r');
    assert(sep_len(c, p) == 5);
    assert(first_sep(c, 4, p));
    let q = choose|q: int| first_sep(c, 4, q);
    if q < p {
        assert(sep_len(c, q) < 0);
    } else if p < q {
        assert(sep_len(c, p) < 0);
    }
    assert(c.subrange(4, p) =~= y.drop_last());
    assert(c.subrange(p + 5, c.len() as int) =~= seq!['\n'] + body);
    lemma_trim_leading_break(body);
}

/// What `md_text` writes is such a framed record.
pub proof fn lemma_md_text_framed(fm: Fields, body: Seq<char>)
    ensures
        md_text(fm, body) == match crate::codec::yaml_text(drop_nulls(fm)) {
            Some(y) => Some(framed(y, body)),
            None => None,
        },
{
}

} // verus!
