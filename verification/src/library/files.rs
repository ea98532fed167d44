use vstd::prelude::*;
use vstd::std_specs::cmp::PartialEqSpecImpl;

verus! {

/// What a tracked file is, mathematically: its identity (name and path) and
/// its content.
pub struct FileView {
    pub name: Seq<char>,
    pub path: Seq<char>,
    pub data: Seq<u8>,
}

/// Two files are the same entry when name and path agree, whatever they hold.
pub open spec fn same_entry(a: FileView, b: FileView) -> bool {
    a.name == b.name && a.path == b.path
}

/// A tracked file: a name, the path it was read from, and its bytes.
#[derive(Debug, Hash)]
pub struct File {
    name: String,
    data: Vec<u8>,
    path: String,
}

impl View for File {
    type V = FileView;

    closed spec fn view(&self) -> FileView {
        FileView { name: self.name@, path: self.path@, data: self.data@ }
    }
}

impl File {
    /// Builds a file from its name, the path it lives at, and its content.
    pub fn init(name: &str, path: &str, data: Vec<u8>) -> (file: Self)
        ensures
            file@ == (FileView { name: name@, path: path@, data: data@ }),
    {
        Self { name: name.to_owned(), data, path: path.to_owned() }
    }

    /// Returns the file name.
    pub fn get_name(&self) -> (name: &str)
        ensures
            name@ == self@.name,
    {
        self.name.as_str()
    }

    /// Returns the path of the file at the time it was read.
    pub fn get_path(&self) -> (path: &str)
        ensures
            path@ == self@.path,
    {
        self.path.as_str()
    }

    /// Checks that two files have equal paths and file names.
    pub fn is_change_only_data(&self, other: &Self) -> (same: bool)
        ensures
            same == same_entry(self@, other@),
    {
        if self.name != other.name {
            return false;
        }
        if self.path != other.path {
            return false;
        }
        true
    }

    /// Returns the file's content.
    pub fn get_data(&self) -> (data: &Vec<u8>)
        ensures
            data@ == self@.data,
    {
        &self.data
    }

    /// Replaces the content and keeps the identity.
    pub fn change_data(&mut self, new_data: &Vec<u8>)
        ensures
            final(self)@ == (FileView { data: new_data@, ..old(self)@ }),
    {
        self.data = new_data.clone();
    }
}

impl Clone for File {
    fn clone(&self) -> (copy: Self)
        ensures
            copy@ == self@,
    {
        Self { name: self.name.clone(), data: self.data.clone(), path: self.path.clone() }
    }
}

impl Default for File {
    fn default() -> (file: Self)
        ensures
            file@ == (FileView { name: Seq::empty(), path: Seq::empty(), data: Seq::empty() }),
    {
        Self { name: String::new(), data: Vec::new(), path: String::new() }
    }
}

impl PartialEq for File {
    fn eq(&self, other: &Self) -> (equal: bool) {
        if self.name != other.name {
            return false;
        }
        if self.path != other.path {
            return false;
        }
        if self.data.len() != other.data.len() {
            return false;
        }
        let n: usize = self.data.len();
        let mut i: usize = 0;
        while i < n
            invariant
                n == self.data@.len(),
                n == other.data@.len(),
                i <= n,
                forall|j: int| 0 <= j < i ==> self.data@[j] == other.data@[j],
            decreases n - i,
        {
            if self.data[i] != other.data[i] {
                return false;
            }
            i += 1;
        }
        assert(self.data@ =~= other.data@);
        true
    }
}

impl PartialEqSpecImpl for File {
    open spec fn obeys_eq_spec() -> bool {
        true
    }

    open spec fn eq_spec(&self, other: &Self) -> bool {
        self@ == other@
    }
}

} // verus!
