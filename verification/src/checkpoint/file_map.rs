//! A map from files to values.

use crate::data::Data;
use vstd::prelude::*;

verus! {

/// A file: the environment that it is in and its path there.
#[derive(Debug)]
pub struct FileKey {
    pub environment_id: String,
    pub path: String,
}

/// The model of a file.
pub type FileId = (Seq<char>, Seq<char>);

impl DeepView for FileKey {
    type V = (Seq<char>, Seq<char>);

    open spec fn deep_view(&self) -> Self::V {
        (self.environment_id@, self.path@)
    }
}

impl Data for FileKey {
    fn same(&self, other: &Self) -> (r: bool) {
        self.environment_id == other.environment_id && self.path == other.path
    }

    fn duplicate(&self) -> (r: Self) {
        FileKey { environment_id: self.environment_id.clone(), path: self.path.clone() }
    }
}

/// A map from files to values, kept as a list of pairs in which no file occurs twice.
pub struct FileMap<V> {
    entries: Vec<(FileKey, V)>,
}

pub closed spec fn no_file_twice<V>(entries: Seq<(FileKey, V)>) -> bool {
    forall|i: int, j: int|
        0 <= i < j < entries.len() ==> (#[trigger] entries[i]).0.deep_view() != (
        #[trigger] entries[j]).0.deep_view()
}

pub closed spec fn map_of<V: DeepView>(entries: Seq<(FileKey, V)>) -> Map<FileId, V::V>
    decreases entries.len(),
{
    if entries.len() == 0 {
        Map::empty()
    } else {
        map_of(entries.drop_last()).insert(
            entries.last().0.deep_view(),
            entries.last().1.deep_view(),
        )
    }
}

proof fn lemma_map_of<V: DeepView>(entries: Seq<(FileKey, V)>)
    requires
        no_file_twice(entries),
    ensures
        forall|i: int|
            0 <= i < entries.len() ==> map_of(entries).contains_key(
                (#[trigger] entries[i]).0.deep_view(),
            ) && map_of(entries)[entries[i].0.deep_view()] == entries[i].1.deep_view(),
        forall|k: FileId| #[trigger]
            map_of(entries).contains_key(k) ==> exists|i: int|
                0 <= i < entries.len() && (#[trigger] entries[i]).0.deep_view() == k,
        map_of(entries).dom().finite(),
    decreases entries.len(),
{
    if entries.len() > 0 {
        let before = entries.drop_last();
        lemma_map_of(before);
        assert forall|i: int| 0 <= i < entries.len() implies map_of(entries).contains_key(
            (#[trigger] entries[i]).0.deep_view(),
        ) && map_of(entries)[entries[i].0.deep_view()] == entries[i].1.deep_view() by {
            if i < before.len() {
                assert(before[i] == entries[i]);
                assert(entries[i].0.deep_view() != entries[entries.len() - 1].0.deep_view());
            }
        }
        assert forall|k: FileId| #[trigger] map_of(entries).contains_key(k) implies exists|i: int|
            0 <= i < entries.len() && (#[trigger] entries[i]).0.deep_view() == k by {
            if map_of(before).contains_key(k) {
                let i = choose|i: int|
                    0 <= i < before.len() && (#[trigger] before[i]).0.deep_view() == k;
                assert(entries[i] == before[i]);
            } else {
                assert(entries[entries.len() - 1].0.deep_view() == k);
            }
        }
    }
}

/// Replacing the value at one place changes the map at that file alone.
proof fn lemma_map_update<V: DeepView>(entries: Seq<(FileKey, V)>, at: int, entry: (FileKey, V))
    requires
        no_file_twice(entries),
        0 <= at < entries.len(),
        entries[at].0.deep_view() == entry.0.deep_view(),
    ensures
        no_file_twice(entries.update(at, entry)),
        map_of(entries.update(at, entry)) == map_of(entries).insert(
            entry.0.deep_view(),
            entry.1.deep_view(),
        ),
    decreases entries.len(),
{
    let after = entries.update(at, entry);
    assert forall|i: int, j: int| 0 <= i < j < after.len() implies (
    #[trigger] after[i]).0.deep_view() != (#[trigger] after[j]).0.deep_view() by {
        assert(entries[i].0.deep_view() != entries[j].0.deep_view());
    }
    let before = entries.drop_last();
    if at == entries.len() - 1 {
        assert(after.drop_last() =~= before);
        assert(map_of(after) =~= map_of(entries).insert(
            entry.0.deep_view(),
            entry.1.deep_view(),
        ));
    } else {
        assert(no_file_twice(before)) by {
            assert forall|i: int, j: int| 0 <= i < j < before.len() implies (
            #[trigger] before[i]).0.deep_view() != (#[trigger] before[j]).0.deep_view() by {
                assert(entries[i].0.deep_view() != entries[j].0.deep_view());
            }
        }
        lemma_map_update(before, at, entry);
        assert(after.drop_last() =~= before.update(at, entry));
        assert(entries[at].0.deep_view() != entries[entries.len() - 1].0.deep_view());
        assert(map_of(after) =~= map_of(entries).insert(
            entry.0.deep_view(),
            entry.1.deep_view(),
        ));
    }
}

impl<V: Data> View for FileMap<V> {
    type V = Map<FileId, V::V>;

    closed spec fn view(&self) -> Map<FileId, V::V> {
        map_of(self.entries@)
    }
}

impl<V> FileMap<V> {
    #[verifier::type_invariant]
    spec fn well_formed(self) -> bool {
        no_file_twice(self.entries@)
    }
}

impl<V: Data> FileMap<V> {
    /// The pair at a place of the list.
    pub closed spec fn at(self, i: int) -> (FileKey, V) {
        self.entries@[i]
    }

    /// The length of the list.
    pub closed spec fn size(self) -> nat {
        self.entries@.len()
    }

    /// A map without files.
    pub fn new() -> (r: Self)
        ensures
            r@ == Map::<FileId, V::V>::empty(),
    {
        FileMap { entries: Vec::new() }
    }

    /// How many files the map holds. The places of the list hold the files of the map, each
    /// once.
    pub fn len(&self) -> (r: usize)
        ensures
            r == self.size(),
            forall|i: int|
                0 <= i < self.size() ==> self@.contains_key((#[trigger] self.at(i)).0.deep_view())
                    && self@[self.at(i).0.deep_view()] == self.at(i).1.deep_view(),
            forall|k: FileId| #[trigger]
                self@.contains_key(k) ==> exists|i: int|
                    0 <= i < self.size() && (#[trigger] self.at(i)).0.deep_view() == k,
            forall|i: int, j: int|
                0 <= i < j < self.size() ==> (#[trigger] self.at(i)).0.deep_view() != (
                #[trigger] self.at(j)).0.deep_view(),
    {
        proof {
            use_type_invariant(self);
            lemma_map_of(self.entries@);
            assert forall|k: FileId| #[trigger] self@.contains_key(k) implies exists|i: int|
                0 <= i < self.size() && (#[trigger] self.at(i)).0.deep_view() == k by {
                let i = choose|i: int|
                    0 <= i < self.entries@.len() && (#[trigger] self.entries@[i]).0.deep_view()
                        == k;
                assert(self.at(i).0.deep_view() == k);
            }
        }
        self.entries.len()
    }

    /// The pair at a place of the list.
    pub fn entry_at(&self, i: usize) -> (r: &(FileKey, V))
        requires
            i < self.size(),
        ensures
            *r == self.at(i as int),
            self@.contains_key(r.0.deep_view()),
            self@[r.0.deep_view()] == r.1.deep_view(),
    {
        proof {
            use_type_invariant(self);
            lemma_map_of(self.entries@);
        }
        &self.entries[i]
    }

    /// Where in the list a file stands.
    fn position(&self, file: &FileKey) -> (r: Option<usize>)
        ensures
            match r {
                Some(i) => i < self.entries@.len() && self.entries@[i as int].0.deep_view()
                    == file.deep_view() && self@.contains_key(file.deep_view())
                    && self@[file.deep_view()] == self.entries@[i as int].1.deep_view(),
                None => !self@.contains_key(file.deep_view()) && forall|i: int|
                    0 <= i < self.entries@.len() ==> (#[trigger] self.entries@[i]).0.deep_view()
                        != file.deep_view(),
            },
    {
        proof {
            use_type_invariant(self);
            lemma_map_of(self.entries@);
        }
        let mut i: usize = 0;
        while i < self.entries.len()
            invariant
                i <= self.entries@.len(),
                forall|k: int|
                    0 <= k < i ==> (#[trigger] self.entries@[k]).0.deep_view()
                        != file.deep_view(),
            decreases self.entries@.len() - i,
        {
            if self.entries[i].0.same(file) {
                proof {
                    use_type_invariant(self);
                    lemma_map_of(self.entries@);
                }
                return Some(i);
            }
            i += 1;
        }
        None
    }

    /// Whether the map holds the file.
    pub fn contains(&self, file: &FileKey) -> (r: bool)
        ensures
            r == self@.contains_key(file.deep_view()),
    {
        self.position(file).is_some()
    }

    /// The value of a file.
    pub fn get(&self, file: &FileKey) -> (r: Option<V>)
        ensures
            match r {
                Some(value) => self@.contains_key(file.deep_view()) && value.deep_view()
                    == self@[file.deep_view()],
                None => !self@.contains_key(file.deep_view()),
            },
    {
        match self.position(file) {
            Some(i) => Some(self.entries[i].1.duplicate()),
            None => None,
        }
    }

    /// Gives the file the value, in place of another one that it may have.
    pub fn insert(&mut self, file: FileKey, value: V)
        ensures
            final(self)@ == old(self)@.insert(file.deep_view(), value.deep_view()),
    {
        proof {
            use_type_invariant(&*self);
        }
        let at = self.position(&file);
        let mut entries: Vec<(FileKey, V)> = Vec::new();
        std::mem::swap(&mut entries, &mut self.entries);
        let ghost before = entries@;
        let ghost entry = (file, value);
        match at {
            Some(i) => {
                proof {
                    lemma_map_update(before, i as int, entry);
                }
                entries.set(i, (file, value));
            },
            None => {
                entries.push((file, value));
                assert(entries@.drop_last() =~= before);
            },
        }
        self.entries = entries;
    }

    /// Gives the file the value, unless it has one.
    pub fn insert_if_absent(&mut self, file: FileKey, value: V)
        ensures
            final(self)@ == (if old(self)@.contains_key(file.deep_view()) {
                old(self)@
            } else {
                old(self)@.insert(file.deep_view(), value.deep_view())
            }),
    {
        if !self.contains(&file) {
            self.insert(file, value);
        }
    }
}

} // verus!
