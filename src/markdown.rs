use vstd::prelude::*;
use crate::codec::{parse_yaml_fields, render_yaml, yaml_fields, yaml_text};
use crate::json::{fields_view, Entry, Fields, JsonModel};
use crate::layers::{write_with_backup, written_with_backup, ConfigError};
use crate::store::{FileStore, Files};
use crate::text::{split_frontmatter, split_md, to_owned_string, trim, trim_str};

verus! {

/// A Markdown record: frontmatter fields and body text.
#[derive(Debug)]
pub struct MdData {
    pub frontmatter: Vec<Entry>,
    pub body: String,
}

impl MdData {
    pub open spec fn view(&self) -> (Fields, Seq<char>) {
        (fields_view(self.frontmatter@), self.body@)
    }
}

/// What a Markdown text holds: the fields of its frontmatter block (none
/// where the block is missing or is not a YAML mapping) and its body, trimmed.
pub open spec fn md_record(c: Seq<char>) -> (Fields, Seq<char>) {
    match split_frontmatter(c) {
        Some((y, b)) => (
            match yaml_fields(y) {
                Some(f) => f,
                None => Seq::empty(),
            },
            trim(b),
        ),
        None => (Seq::empty(), trim(c)),
    }
}

/// The fields whose value is not null, in order.
pub open spec fn drop_nulls(f: Fields) -> Fields
    decreases f.len(),
{
    if f.len() == 0 {
        f
    } else {
        let r = drop_nulls(f.drop_last());
        if f.last().1 is Null {
            r
        } else {
            r.push(f.last())
        }
    }
}

/// The text of a Markdown record: the non-null fields as a YAML block
/// between `---` lines, a blank line, then the body; `None` where the
/// fields have no YAML text.
pub open spec fn md_text(fm: Fields, body: Seq<char>) -> Option<Seq<char>> {
    match yaml_text(drop_nulls(fm)) {
        Some(y) => Some("---\n"@ + y + "---\n\n"@ + body),
        None => None,
    }
}

/// Read and parse a Markdown record.
pub fn parse_md_file(store: &FileStore, path: &str) -> (r: Result<MdData, ConfigError>)
    ensures
        store@.contains_key(path@) ==> r is Ok && r->Ok_0@ == md_record(store@[path@]),
        !store@.contains_key(path@) ==> r == Err::<MdData, ConfigError>(ConfigError::Io),
{
    let content = match store.read(path) {
        Some(c) => c,
        None => return Err(ConfigError::Io),
    };
    match split_md(content.as_str()) {
        Some((yaml, body)) => {
            let frontmatter = match parse_yaml_fields(yaml) {
                Some(f) => f,
                None => Vec::new(),
            };
            let r = MdData { frontmatter, body: to_owned_string(trim_str(body)) };
            assert(r@.0 =~= md_record(content@).0);
            Ok(r)
        },
        None => {
            let r = MdData { frontmatter: Vec::new(), body: to_owned_string(trim_str(content.as_str())) };
            assert(r@.0 =~= md_record(content@).0);
            Ok(r)
        },
    }
}

/// The fields whose value is not null.
pub fn without_nulls(fm: &Vec<Entry>) -> (r: Vec<Entry>)
    ensures
        fields_view(r@) == drop_nulls(fields_view(fm@)),
{
    let ghost f = fields_view(fm@);
    let mut out: Vec<Entry> = Vec::new();
    let mut i: usize = 0;
    while i < fm.len()
        invariant
            i <= fm.len(),
            f == fields_view(fm@),
            fields_view(out@) == drop_nulls(f.take(i as int)),
        decreases fm.len() - i,
    {
        assert(f.take(i + 1).drop_last() =~= f.take(i as int));
        if !fm[i].value.is_null() {
            let v = fm[i].value.deep_clone();
            out.push(Entry { key: fm[i].key.clone(), value: v });
        }
        assert(fields_view(out@) =~= drop_nulls(f.take(i + 1)));
        i = i + 1;
    }
    assert(f.take(fm.len() as int) =~= f);
    out
}

/// Write a Markdown record, keeping a backup of the file's previous text.
pub fn write_md_file(store: &mut FileStore, path: &str, frontmatter: &Vec<Entry>, body: &str) -> (r: Result<(), ConfigError>)
    requires
        old(store).wf(),
    ensures
        final(store).wf(),
        match md_text(fields_view(frontmatter@), body@) {
            Some(t) => r == Ok::<(), ConfigError>(()) && final(store)@ == written_with_backup(old(store)@, path@, t),
            None => r == Err::<(), ConfigError>(ConfigError::Encode) && final(store)@ == old(
                store,
            )@,
        },
{
    let cleaned = without_nulls(frontmatter);
    let yaml = match render_yaml(&cleaned) {
        Some(y) => y,
        None => return Err(ConfigError::Encode),
    };
    let mut content = String::new();
    content.append("---\n");
    content.append(yaml.as_str());
    content.append("---\n\n");
    content.append(body);
    assert(content@ =~= md_text(fields_view(frontmatter@), body@)->Some_0);
    write_with_backup(store, path, content);
    Ok(())
}

} // verus!
