use vstd::prelude::*;

verus! {

/// A row that carries a generated identifier.
pub trait Keyed {
    spec fn key(&self) -> i64;

    fn row_id(&self) -> (r: i64)
        ensures
            r == self.key(),
    ;
}

/// A platform that software runs on.
#[derive(Debug)]
pub struct System {
    pub id: i64,
    pub name: String,
}

/// A program that runs software of one or more systems.
#[derive(Debug)]
pub struct Emulator {
    pub id: i64,
    pub name: String,
    pub executable: String,
    pub extract_files: bool,
}

/// A link from an emulator to a system it runs, with the launch arguments.
#[derive(Debug)]
pub struct EmulatorSystem {
    pub emulator_id: i64,
    pub system_id: i64,
    pub arguments: String,
}

/// An emulator's link to a system, with the system's name filled in.
#[derive(Debug)]
pub struct EmulatorSystemAssociation {
    pub system_id: i64,
    pub system_name: String,
    pub arguments: String,
}

/// A piece of software, independent of its releases.
#[derive(Debug)]
pub struct SoftwareTitle {
    pub id: i64,
    pub name: String,
}

/// A named set of files in the collection.
#[derive(Debug)]
pub struct FileSet {
    pub id: i64,
    pub file_set_name: String,
}

/// A release: the root that ties software titles, file sets and systems.
#[derive(Debug)]
pub struct Release {
    pub id: i64,
    pub name: String,
}

impl Keyed for System {
    open spec fn key(&self) -> i64 {
        self.id
    }

    fn row_id(&self) -> (r: i64) {
        self.id
    }
}

impl Keyed for Emulator {
    open spec fn key(&self) -> i64 {
        self.id
    }

    fn row_id(&self) -> (r: i64) {
        self.id
    }
}

impl Keyed for SoftwareTitle {
    open spec fn key(&self) -> i64 {
        self.id
    }

    fn row_id(&self) -> (r: i64) {
        self.id
    }
}

impl Keyed for FileSet {
    open spec fn key(&self) -> i64 {
        self.id
    }

    fn row_id(&self) -> (r: i64) {
        self.id
    }
}

impl Keyed for Release {
    open spec fn key(&self) -> i64 {
        self.id
    }

    fn row_id(&self) -> (r: i64) {
        self.id
    }
}

/// Some row of `rows` has the identifier `id`.
pub open spec fn has_id<T: Keyed>(rows: Seq<T>, id: i64) -> bool {
    exists|i: int| 0 <= i < rows.len() && (#[trigger] rows[i]).key() == id
}

/// Identifiers are unique, at least 1, and below `next`.
pub open spec fn ids_ok<T: Keyed>(rows: Seq<T>, next: i64) -> bool {
    &&& 1 <= next
    &&& forall|i: int| 0 <= i < rows.len() ==> 1 <= (#[trigger] rows[i]).key() < next
    &&& forall|i: int, j: int|
        0 <= i < rows.len() && 0 <= j < rows.len() && i != j ==> (#[trigger] rows[i]).key()
            != (#[trigger] rows[j]).key()
}

/// Every identifier of `ids` names a row of `rows`.
pub open spec fn all_present<T: Keyed>(rows: Seq<T>, ids: Seq<i64>) -> bool {
    forall|k: int| 0 <= k < ids.len() ==> has_id(rows, #[trigger] ids[k])
}

/// The position of the row with identifier `id`.
pub fn index_of<T: Keyed>(rows: &Vec<T>, id: i64) -> (r: Option<usize>)
    ensures
        match r {
            Some(i) => i < rows@.len() && rows@[i as int].key() == id,
            None => !has_id(rows@, id),
        },
{
    let mut i: usize = 0;
    while i < rows.len()
        invariant
            i <= rows@.len(),
            forall|j: int| 0 <= j < i ==> (#[trigger] rows@[j]).key() != id,
        decreases rows@.len() - i,
    {
        if rows[i].row_id() == id {
            return Some(i);
        }
        i = i + 1;
    }
    None
}

/// Whether every identifier of `ids` names a row of `rows`.
pub fn all_ids_present<T: Keyed>(rows: &Vec<T>, ids: &Vec<i64>) -> (r: bool)
    ensures
        r == all_present(rows@, ids@),
{
    let mut k: usize = 0;
    while k < ids.len()
        invariant
            k <= ids@.len(),
            forall|m: int| 0 <= m < k ==> has_id(rows@, #[trigger] ids@[m]),
        decreases ids@.len() - k,
    {
        if index_of(rows, ids[k]).is_none() {
            return false;
        }
        k = k + 1;
    }
    true
}

} // verus!
