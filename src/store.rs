use vstd::prelude::*;
use crate::json::{first_at, has_key, has_unique_keys, index_of, lemma_index_of, lemma_put_lookup,
    lemma_put_unique, lemma_remove_lookup, lemma_unique_index, lookup, put, remove_key};
use crate::text::str_eq;

verus! {

/// One file of a store: its path and its text.
pub struct FileEntry {
    pub path: String,
    pub content: String,
}

/// Files addressed by path, as the configuration engine reads and writes
/// them. Each path occurs once.
pub struct FileStore {
    files: Vec<FileEntry>,
}

pub type Files = Map<Seq<char>, Seq<char>>;

pub open spec fn entries_model(fs: Seq<FileEntry>) -> Seq<(Seq<char>, Seq<char>)> {
    Seq::new(fs.len(), |i: int| (fs[i].path@, fs[i].content@))
}

pub open spec fn as_map(es: Seq<(Seq<char>, Seq<char>)>) -> Files {
    Map::new(|p: Seq<char>| has_key(es, p), |p: Seq<char>| lookup(es, p)->Some_0)
}

proof fn lemma_as_map(es: Seq<(Seq<char>, Seq<char>)>, p: Seq<char>)
    ensures
        as_map(es).contains_key(p) == (lookup(es, p) is Some),
        lookup(es, p) is Some ==> as_map(es)[p] == lookup(es, p)->Some_0,
{
    lemma_index_of(es, p);
}

impl FileStore {
    pub closed spec fn entries(&self) -> Seq<(Seq<char>, Seq<char>)> {
        entries_model(self.files@)
    }

    /// The files: path to text.
    pub closed spec fn view(&self) -> Files {
        as_map(self.entries())
    }

    pub closed spec fn wf(&self) -> bool {
        has_unique_keys(self.entries())
    }

    /// A store with no files.
    pub fn new() -> (r: FileStore)
        ensures
            r.wf(),
            r@ == Map::<Seq<char>, Seq<char>>::empty(),
    {
        let r = FileStore { files: Vec::new() };
        assert(r@ =~= Map::<Seq<char>, Seq<char>>::empty());
        r
    }

    fn find(&self, path: &str) -> (r: Option<usize>)
        ensures
            match r {
                Some(j) => j < self.files.len() && j as int == index_of(self.entries(), path@),
                None => index_of(self.entries(), path@) == -1,
            },
    {
        let ghost f = self.entries();
        proof {
            lemma_index_of(f, path@);
        }
        let mut i: usize = 0;
        while i < self.files.len()
            invariant
                i <= self.files.len(),
                f == self.entries(),
                forall|m: int| 0 <= m < i ==> f[m].0 != path@,
            decreases self.files.len() - i,
        {
            if str_eq(self.files[i].path.as_str(), path) {
                assert(first_at(f, path@, i as int));
                return Some(i);
            }
            i = i + 1;
        }
        proof {
            if index_of(f, path@) >= 0 {
                assert(f[index_of(f, path@)].0 == path@);
            }
        }
        None
    }

    /// Whether a file is at `path`.
    pub fn contains(&self, path: &str) -> (r: bool)
        ensures
            r == self@.contains_key(path@),
    {
        proof {
            lemma_as_map(self.entries(), path@);
            lemma_index_of(self.entries(), path@);
        }
        self.find(path).is_some()
    }

    /// The text of the file at `path`.
    pub fn read(&self, path: &str) -> (r: Option<&String>)
        ensures
            match r {
                Some(t) => self@.contains_key(path@) && self@[path@] == t@,
                None => !self@.contains_key(path@),
            },
    {
        proof {
            lemma_as_map(self.entries(), path@);
            lemma_index_of(self.entries(), path@);
        }
        match self.find(path) {
            Some(j) => Some(&self.files[j].content),
            None => None,
        }
    }

    /// Put `content` at `path`, replacing what was there.
    pub fn write(&mut self, path: &str, content: String)
        requires
            old(self).wf(),
        ensures
            final(self).wf(),
            final(self)@ == old(self)@.insert(path@, content@),
    {
        let ghost e = self.entries();
        let ghost c = content@;
        let mut key = String::new();
        key.append(path);
        match self.find(path) {
            Some(j) => {
                self.files.set(j, FileEntry { path: key, content });
            },
            None => {
                self.files.push(FileEntry { path: key, content });
            },
        }
        assert(self.entries() =~= put(e, path@, c));
        proof {
            lemma_put_unique(e, path@, c);
            assert forall|q: Seq<char>| true implies #[trigger] self@.contains_key(q) == old(
                self,
            )@.insert(path@, c).contains_key(q) && (self@.contains_key(q) ==> self@[q] == old(
                self,
            )@.insert(path@, c)[q]) by {
                lemma_put_lookup(e, path@, c, q);
                lemma_as_map(e, q);
                lemma_as_map(self.entries(), q);
            }
            assert(self@ =~= old(self)@.insert(path@, c));
        }
    }

    /// Remove the file at `path`; says whether there was one.
    pub fn remove(&mut self, path: &str) -> (r: bool)
        requires
            old(self).wf(),
        ensures
            final(self).wf(),
            r == old(self)@.contains_key(path@),
            final(self)@ == old(self)@.remove(path@),
    {
        let ghost e = self.entries();
        proof {
            lemma_as_map(e, path@);
            lemma_index_of(e, path@);
        }
        let r = match self.find(path) {
            Some(j) => {
                self.files.remove(j);
                true
            },
            None => false,
        };
        assert(self.entries() =~= remove_key(e, path@));
        proof {
            lemma_remove_lookup(e, path@, path@);
            assert forall|q: Seq<char>| true implies #[trigger] self@.contains_key(q) == old(
                self,
            )@.remove(path@).contains_key(q) && (self@.contains_key(q) ==> self@[q] == old(
                self,
            )@.remove(path@)[q]) by {
                lemma_remove_lookup(e, path@, q);
                lemma_as_map(e, q);
                lemma_as_map(self.entries(), q);
            }
            assert(self@ =~= old(self)@.remove(path@));
        }
        r
    }

    /// Copy the file at `from` to `to`; says whether there was one to copy.
    pub fn copy(&mut self, from: &str, to: &str) -> (r: bool)
        requires
            old(self).wf(),
        ensures
            final(self).wf(),
            r == old(self)@.contains_key(from@),
            r ==> final(self)@ == old(self)@.insert(to@, old(self)@[from@]),
            !r ==> final(self)@ == old(self)@,
    {
        match self.read(from) {
            Some(t) => {
                let c = t.clone();
                self.write(to, c);
                true
            },
            None => false,
        }
    }

    /// The paths and texts of all files, for handing them back to disk.
    pub fn to_pairs(&self) -> (r: Vec<(String, String)>)
        ensures
            r.len() == self.entries().len(),
            forall|i: int| 0 <= i < r.len() ==> (#[trigger] r[i].0@, r[i].1@) == self.entries()[i],
    {
        let mut out: Vec<(String, String)> = Vec::new();
        let mut i: usize = 0;
        while i < self.files.len()
            invariant
                i <= self.files.len(),
                out.len() == i,
                forall|m: int| 0 <= m < i ==> (#[trigger] out[m].0@, out[m].1@) == self.entries()[m],
            decreases self.files.len() - i,
        {
            out.push((self.files[i].path.clone(), self.files[i].content.clone()));
            i = i + 1;
        }
        out
    }
}

} // verus!
