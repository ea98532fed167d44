use crate::library::error::VcsError;
use crate::library::files::{File, FileView};
use crate::utils::work_with_commit_files::file_views;
use std::collections::HashMap;
use vstd::prelude::*;

verus! {

/// What the store holds after `files` was stored under `id`.
pub open spec fn store_spec(
    containers: Map<u64, Seq<FileView>>,
    id: u64,
    files: Seq<FileView>,
) -> Map<u64, Seq<FileView>> {
    containers.insert(id, files)
}

/// What loading `id` gives: the files stored under it, if a container exists.
pub open spec fn load_spec(containers: Map<u64, Seq<FileView>>, id: u64) -> Option<
    Seq<FileView>,
> {
    if containers.contains_key(id) {
        Some(containers[id])
    } else {
        None
    }
}

/// What the store holds after the container of `id` was deleted.
pub open spec fn delete_spec(containers: Map<u64, Seq<FileView>>, id: u64) -> Map<
    u64,
    Seq<FileView>,
> {
    containers.remove(id)
}

/// The snapshot store: for each commit identifier a full copy of the tracked
/// files at the time of that commit.
pub struct SnapshotStore {
    containers: HashMap<u64, Vec<File>>,
}

impl View for SnapshotStore {
    type V = Map<u64, Seq<FileView>>;

    closed spec fn view(&self) -> Map<u64, Seq<FileView>> {
        self.containers@.map_values(|files: Vec<File>| file_views(files@))
    }
}

/// Copies a list of files, one by one.
fn copy_files(files: &Vec<File>) -> (copy: Vec<File>)
    ensures
        file_views(copy@) == file_views(files@),
{
    let mut copy: Vec<File> = Vec::new();
    let mut i: usize = 0;
    while i < files.len()
        invariant
            i <= files.len(),
            copy@.len() == i,
            forall|j: int| 0 <= j < i ==> copy@[j]@ == files@[j]@,
        decreases files.len() - i,
    {
        copy.push(files[i].clone());
        i += 1;
    }
    assert(file_views(copy@) =~= file_views(files@));
    copy
}

impl SnapshotStore {
    /// Creates a store that holds nothing.
    pub fn new() -> (store: Self)
        ensures
            store@ == Map::<u64, Seq<FileView>>::empty(),
    {
        let store = Self { containers: HashMap::new() };
        assert(store@ =~= Map::<u64, Seq<FileView>>::empty());
        store
    }

    /// Stores a copy of `files` under `id`, in place of what was there.
    pub fn store(&mut self, id: u64, files: &Vec<File>)
        ensures
            final(self)@ == store_spec(old(self)@, id, file_views(files@)),
    {
        let copy = copy_files(files);
        self.containers.insert(id, copy);
        assert(self@ =~= store_spec(old(self)@, id, file_views(files@)));
    }

    /// Returns a copy of the files stored under `id`.
    pub fn load(&self, id: u64) -> (loaded: Result<Vec<File>, VcsError>)
        ensures
            match load_spec(self@, id) {
                Some(files) => loaded matches Ok(copy) && file_views(copy@) == files,
                None => loaded matches Err(VcsError::SnapshotNotFound),
            },
    {
        match self.containers.get(&id) {
            Some(files) => Ok(copy_files(files)),
            None => Err(VcsError::SnapshotNotFound),
        }
    }

    /// Removes the container of `id`; nothing happens where there is none.
    pub fn delete(&mut self, id: u64)
        ensures
            final(self)@ == delete_spec(old(self)@, id),
    {
        self.containers.remove(&id);
        assert(self@ =~= delete_spec(old(self)@, id));
    }

    /// Checks whether a container exists for `id`.
    pub fn contains(&self, id: u64) -> (found: bool)
        ensures
            found == self@.contains_key(id),
    {
        self.containers.contains_key(&id)
    }
}

/// Round trip: what was stored under an identifier is what loading that
/// identifier gives, content and identity of every file, whatever the store
/// held before.
pub proof fn lemma_load_after_store(
    containers: Map<u64, Seq<FileView>>,
    id: u64,
    files: Seq<FileView>,
)
    ensures
        load_spec(store_spec(containers, id, files), id) == Some(files),
{
}

/// Deleting twice is deleting once, and an identifier that was deleted cannot
/// be loaded.
pub proof fn lemma_delete_idempotent(containers: Map<u64, Seq<FileView>>, id: u64)
    ensures
        delete_spec(delete_spec(containers, id), id) == delete_spec(containers, id),
        load_spec(delete_spec(containers, id), id).is_none(),
{
    assert(delete_spec(delete_spec(containers, id), id) =~= delete_spec(containers, id));
}

} // verus!
