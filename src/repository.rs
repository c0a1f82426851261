use vstd::prelude::*;

use crate::error::DatabaseError;
use crate::models::{
    all_ids_present, all_present, has_id, ids_ok, index_of, Emulator, EmulatorSystem,
    EmulatorSystemAssociation, FileSet, Keyed, Release, SoftwareTitle, System,
};
use crate::settings::SettingRepository;

verus! {

/// Links of `owner`: the targets that some row `(owner, target)` names.
pub open spec fn links_of(rows: Seq<(i64, i64)>, owner: i64) -> Set<i64> {
    Set::new(|t: i64| rows.contains((owner, t)))
}

/// One link row from `owner` to each target, in order.
pub open spec fn link_rows(owner: i64, targets: Seq<i64>) -> Seq<(i64, i64)> {
    targets.map_values(|t: i64| (owner, t))
}

/// Whether a link row survives a removal of the links of `owner`, or of
/// its link to `only` alone.
pub open spec fn link_kept(row: (i64, i64), owner: i64, only: Option<i64>) -> bool {
    !(row.0 == owner && match only {
        Some(t) => row.1 == t,
        None => true,
    })
}

/// The rows that survive a removal of the links of `owner`.
pub open spec fn without_links(rows: Seq<(i64, i64)>, owner: i64, only: Option<i64>) -> Seq<
    (i64, i64),
> {
    rows.filter(|r: (i64, i64)| link_kept(r, owner, only))
}

/// Each link row's owner is a row of `owners` and its target a row of
/// `targets`.
pub open spec fn links_valid<A: Keyed, B: Keyed>(
    rows: Seq<(i64, i64)>,
    owners: Seq<A>,
    targets: Seq<B>,
) -> bool {
    forall|i: int|
        0 <= i < rows.len() ==> has_id(owners, (#[trigger] rows[i]).0) && has_id(targets, rows[i].1)
}

proof fn lemma_has_id_push<T: Keyed>(s: Seq<T>, x: T)
    ensures
        forall|id: i64| has_id(s, id) ==> #[trigger] has_id(s.push(x), id),
        has_id(s.push(x), x.key()),
{
    assert forall|id: i64| has_id(s, id) implies #[trigger] has_id(s.push(x), id) by {
        let i = choose|i: int| 0 <= i < s.len() && (#[trigger] s[i]).key() == id;
        assert(s.push(x)[i] == s[i]);
    }
    assert(s.push(x)[s.len() as int] == x);
}

proof fn lemma_has_id_update<T: Keyed>(s: Seq<T>, n: int, x: T)
    requires
        0 <= n < s.len(),
        s[n].key() == x.key(),
    ensures
        forall|id: i64| has_id(s, id) ==> #[trigger] has_id(s.update(n, x), id),
{
    assert forall|id: i64| has_id(s, id) implies #[trigger] has_id(s.update(n, x), id) by {
        let i = choose|i: int| 0 <= i < s.len() && (#[trigger] s[i]).key() == id;
        assert(s.update(n, x)[i].key() == id);
    }
}

proof fn lemma_links_valid_widen<A: Keyed, B: Keyed>(
    rows: Seq<(i64, i64)>,
    owners: Seq<A>,
    owners2: Seq<A>,
    targets: Seq<B>,
    targets2: Seq<B>,
)
    requires
        links_valid(rows, owners, targets),
        forall|id: i64| has_id(owners, id) ==> #[trigger] has_id(owners2, id),
        forall|id: i64| has_id(targets, id) ==> #[trigger] has_id(targets2, id),
    ensures
        links_valid(rows, owners2, targets2),
{
    assert forall|i: int| 0 <= i < rows.len() implies has_id(owners2, (#[trigger] rows[i]).0)
        && has_id(targets2, rows[i].1) by {
        assert(has_id(owners, rows[i].0));
        assert(has_id(targets, rows[i].1));
    }
}

proof fn lemma_links_valid_append<A: Keyed, B: Keyed>(
    rows: Seq<(i64, i64)>,
    owners: Seq<A>,
    targets: Seq<B>,
    owner: i64,
    ids: Seq<i64>,
)
    requires
        links_valid(rows, owners, targets),
        has_id(owners, owner),
        all_present(targets, ids),
    ensures
        links_valid(rows + link_rows(owner, ids), owners, targets),
{
    let all = rows + link_rows(owner, ids);
    assert forall|i: int| 0 <= i < all.len() implies has_id(owners, (#[trigger] all[i]).0) && has_id(
        targets,
        all[i].1,
    ) by {
        if i < rows.len() {
            assert(all[i] == rows[i]);
        } else {
            let k = i - rows.len();
            assert(all[i] == (owner, ids[k]));
        }
    }
}

proof fn lemma_links_valid_filter<A: Keyed, B: Keyed>(
    rows: Seq<(i64, i64)>,
    owners: Seq<A>,
    targets: Seq<B>,
    owner: i64,
    only: Option<i64>,
)
    requires
        links_valid(rows, owners, targets),
    ensures
        links_valid(without_links(rows, owner, only), owners, targets),
{
    let pred = |r: (i64, i64)| link_kept(r, owner, only);
    let kept = rows.filter(pred);
    assert(without_links(rows, owner, only) == kept);
    assert forall|i: int| 0 <= i < kept.len() implies has_id(owners, (#[trigger] kept[i]).0) && has_id(
        targets,
        kept[i].1,
    ) by {
        assert(kept.contains(kept[i]));
        rows.lemma_filter_contains_rev(pred, kept[i]);
        let j = choose|j: int| 0 <= j < rows.len() && rows[j] == kept[i];
        assert(has_id(owners, rows[j].0));
    }
}

/// Whether an emulator's link row survives a removal of its links from
/// `emulator_id` to `system_id`.
pub open spec fn emulator_link_kept(e: EmulatorSystem, emulator_id: i64, system_id: i64) -> bool {
    !(e.emulator_id == emulator_id && e.system_id == system_id)
}

/// The table of systems.
pub struct SystemRepository {
    rows: Vec<System>,
    next_id: i64,
}

impl SystemRepository {
    /// The systems, in the order in which they were added.
    pub closed spec fn rows(&self) -> Seq<System> {
        self.rows@
    }

    /// The identifier that the next added system gets.
    pub closed spec fn next_id(&self) -> i64 {
        self.next_id
    }

    pub closed spec fn wf(&self) -> bool {
        ids_ok(self.rows@, self.next_id)
    }

    fn rows_vec(&self) -> (r: &Vec<System>)
        ensures
            r@ == self.rows(),
    {
        &self.rows
    }

    /// An empty table whose first system gets the identifier 1.
    pub fn new() -> (r: Self)
        ensures
            r.wf(),
            r.rows() == Seq::<System>::empty(),
            r.next_id() == 1,
    {
        SystemRepository { rows: Vec::new(), next_id: 1 }
    }

    /// The system with identifier `id`; `NotFound` when there is none.
    pub fn get_system(&self, id: i64) -> (r: Result<System, DatabaseError>)
        requires
            self.wf(),
        ensures
            r is Ok <==> has_id(self.rows(), id),
            r matches Ok(s) ==> s.id == id && self.rows().contains(s),
            r matches Err(e) ==> e == DatabaseError::NotFound,
    {
        match index_of(&self.rows, id) {
            Some(i) => {
                let s = System { id: self.rows[i].id, name: self.rows[i].name.clone() };
                assert(s == self.rows@[i as int]);
                Ok(s)
            },
            None => Err(DatabaseError::NotFound),
        }
    }

    /// Every system, in the order in which they were added.
    pub fn get_systems(&self) -> (r: Vec<System>)
        ensures
            r@ == self.rows(),
    {
        let mut out: Vec<System> = Vec::new();
        let mut i: usize = 0;
        while i < self.rows.len()
            invariant
                i <= self.rows@.len(),
                out@ == self.rows@.take(i as int),
            decreases self.rows@.len() - i,
        {
            out.push(System { id: self.rows[i].id, name: self.rows[i].name.clone() });
            assert(self.rows@.take(i + 1) =~= self.rows@.take(i as int).push(self.rows@[i as int]));
            i = i + 1;
        }
        assert(self.rows@.take(self.rows@.len() as int) =~= self.rows@);
        out
    }

    /// Removes the system at position `n`.
    fn remove_at(&mut self, n: usize)
        requires
            old(self).wf(),
            n < old(self).rows().len(),
        ensures
            final(self).wf(),
            final(self).rows() == old(self).rows().remove(n as int),
            final(self).next_id() == old(self).next_id(),
    {
        self.rows.remove(n);
        proof {
            let before = old(self).rows@;
            let after = self.rows@;
            assert forall|i: int| 0 <= i < after.len() implies #[trigger] after[i] == before[if i < n {
                i
            } else {
                i + 1
            }] by {}
            assert forall|i: int, j: int|
                0 <= i < after.len() && 0 <= j < after.len() && i != j implies (
            #[trigger] after[i]).key() != (#[trigger] after[j]).key() by {
                let bi = if i < n { i } else { i + 1 };
                let bj = if j < n { j } else { j + 1 };
                assert(after[i] == before[bi] && after[j] == before[bj]);
            }
        }
    }

    /// Adds a system named `name` and returns its new identifier;
    /// `StorageError`, with the table unchanged, once identifiers run out.
    pub fn add_system(&mut self, name: &String) -> (r: Result<i64, DatabaseError>)
        requires
            old(self).wf(),
        ensures
            final(self).wf(),
            r is Ok <==> old(self).next_id() < i64::MAX,
            r matches Ok(id) ==> {
                &&& id == old(self).next_id()
                &&& !has_id(old(self).rows(), id)
                &&& final(self).rows() == old(self).rows().push(System { id, name: *name })
                &&& final(self).next_id() == id + 1
            },
            r matches Err(e) ==> e == DatabaseError::StorageError && *final(self) == *old(self),
    {
        if self.next_id == i64::MAX {
            return Err(DatabaseError::StorageError);
        }
        let id = self.next_id;
        self.rows.push(System { id, name: name.clone() });
        self.next_id = id + 1;
        assert(forall|i: int| 0 <= i < old(self).rows@.len() ==> self.rows@[i] == old(self).rows@[i]);
        Ok(id)
    }
}

/// What the whole catalog holds: every table, and the identifier that the
/// next row of each entity table gets.
pub struct CatalogView {
    pub settings: Map<Seq<char>, Seq<char>>,
    pub systems: Seq<System>,
    pub emulators: Seq<Emulator>,
    pub emulator_systems: Seq<EmulatorSystem>,
    pub software_titles: Seq<SoftwareTitle>,
    pub file_sets: Seq<FileSet>,
    pub releases: Seq<Release>,
    pub release_software_titles: Seq<(i64, i64)>,
    pub release_file_sets: Seq<(i64, i64)>,
    pub release_systems: Seq<(i64, i64)>,
    pub next_system_id: i64,
    pub next_emulator_id: i64,
    pub next_software_title_id: i64,
    pub next_file_set_id: i64,
    pub next_release_id: i64,
}

impl CatalogView {
    /// Every link row names rows that exist at both of its ends.
    pub open spec fn integrity(&self) -> bool {
        &&& links_valid(self.release_systems, self.releases, self.systems)
        &&& links_valid(self.release_software_titles, self.releases, self.software_titles)
        &&& links_valid(self.release_file_sets, self.releases, self.file_sets)
        &&& forall|i: int|
            0 <= i < self.emulator_systems.len() ==> has_id(
                self.emulators,
                (#[trigger] self.emulator_systems[i]).emulator_id,
            ) && has_id(self.systems, self.emulator_systems[i].system_id)
    }

    /// Some release or some emulator is linked to the system `id`.
    pub open spec fn system_in_use(&self, id: i64) -> bool {
        ||| exists|i: int|
            0 <= i < self.release_systems.len() && (#[trigger] self.release_systems[i]).1 == id
        ||| exists|i: int|
            0 <= i < self.emulator_systems.len() && (#[trigger] self.emulator_systems[i]).system_id
                == id
    }

    /// The link rows of the emulator `emulator_id`, in row order.
    pub open spec fn emulator_links(&self, emulator_id: i64) -> Seq<EmulatorSystem> {
        self.emulator_systems.filter(|e: EmulatorSystem| e.emulator_id == emulator_id)
    }

    /// The name of the system `id`, when it exists.
    pub open spec fn system_name(&self, id: i64) -> Seq<char> {
        self.systems[choose|i: int|
            0 <= i < self.systems.len() && (#[trigger] self.systems[i]).id == id].name@
    }
}

/// The catalog: settings, systems, emulators, software titles, file sets and
/// releases, with the link tables between them.
pub struct RepositoryManager {
    settings: SettingRepository,
    pub systems: SystemRepository,
    emulators: Vec<Emulator>,
    emulator_systems: Vec<EmulatorSystem>,
    software_titles: Vec<SoftwareTitle>,
    file_sets: Vec<FileSet>,
    releases: Vec<Release>,
    release_software_titles: Vec<(i64, i64)>,
    release_file_sets: Vec<(i64, i64)>,
    release_systems: Vec<(i64, i64)>,
    next_emulator_id: i64,
    next_software_title_id: i64,
    next_file_set_id: i64,
    next_release_id: i64,
}

impl View for RepositoryManager {
    type V = CatalogView;

    closed spec fn view(&self) -> CatalogView {
        CatalogView {
            settings: self.settings@,
            systems: self.systems.rows(),
            emulators: self.emulators@,
            emulator_systems: self.emulator_systems@,
            software_titles: self.software_titles@,
            file_sets: self.file_sets@,
            releases: self.releases@,
            release_software_titles: self.release_software_titles@,
            release_file_sets: self.release_file_sets@,
            release_systems: self.release_systems@,
            next_system_id: self.systems.next_id(),
            next_emulator_id: self.next_emulator_id,
            next_software_title_id: self.next_software_title_id,
            next_file_set_id: self.next_file_set_id,
            next_release_id: self.next_release_id,
        }
    }
}

/// Appends one link row from `owner` to each of `targets`.
fn append_links(rows: &mut Vec<(i64, i64)>, owner: i64, targets: &Vec<i64>)
    ensures
        final(rows)@ == old(rows)@ + link_rows(owner, targets@),
{
    let mut k: usize = 0;
    while k < targets.len()
        invariant
            k <= targets@.len(),
            rows@ == old(rows)@ + link_rows(owner, targets@.take(k as int)),
        decreases targets@.len() - k,
    {
        rows.push((owner, targets[k]));
        assert(link_rows(owner, targets@.take(k + 1)) =~= link_rows(owner, targets@.take(k as int)).push(
            (owner, targets@[k as int]),
        ));
        k = k + 1;
    }
    assert(targets@.take(targets@.len() as int) =~= targets@);
}

/// Removes the link rows of `owner` (only the one to `only`, when given).
fn remove_links(rows: &mut Vec<(i64, i64)>, owner: i64, only: Option<i64>)
    ensures
        final(rows)@ == without_links(old(rows)@, owner, only),
{
    let mut kept: Vec<(i64, i64)> = Vec::new();
    let mut i: usize = 0;
    while i < rows.len()
        invariant
            i <= rows@.len(),
            kept@ == without_links(rows@.take(i as int), owner, only),
        decreases rows@.len() - i,
    {
        let row = rows[i];
        let keep = match only {
            Some(t) => !(row.0 == owner && row.1 == t),
            None => row.0 != owner,
        };
        if keep {
            kept.push(row);
        }
        proof {
            let pred = |r: (i64, i64)| link_kept(r, owner, only);
            assert(rows@.take(i + 1).drop_last() =~= rows@.take(i as int));
            assert(rows@.take(i + 1).last() == row);
            reveal(Seq::filter);
            assert(without_links(rows@.take(i + 1), owner, only) == rows@.take(i + 1).filter(pred));
        }
        i = i + 1;
    }
    assert(rows@.take(rows@.len() as int) =~= rows@);
    *rows = kept;
}

/// The targets of the link rows of `owner`, in row order.
fn targets_of(rows: &Vec<(i64, i64)>, owner: i64) -> (r: Vec<i64>)
    ensures
        r@.to_set() == links_of(rows@, owner),
{
    let mut out: Vec<i64> = Vec::new();
    let mut i: usize = 0;
    while i < rows.len()
        invariant
            i <= rows@.len(),
            forall|t: i64| out@.contains(t) <==> rows@.take(i as int).contains((owner, t)),
        decreases rows@.len() - i,
    {
        let ghost prev = out@;
        if rows[i].0 == owner {
            out.push(rows[i].1);
        }
        proof {
            let next = rows@.take(i + 1);
            assert(next =~= rows@.take(i as int).push(rows@[i as int]));
            assert forall|t: i64| out@.contains(t) <==> next.contains((owner, t)) by {
                if next.contains((owner, t)) {
                    let j = choose|j: int| 0 <= j < next.len() && next[j] == (owner, t);
                    if j < i {
                        assert(rows@.take(i as int)[j] == (owner, t));
                    } else {
                        assert(out@[out@.len() - 1] == t);
                    }
                }
                if out@.contains(t) && !prev.contains(t) {
                    assert(next[i as int] == (owner, t));
                }
                if prev.contains(t) {
                    let j = choose|j: int| 0 <= j < rows@.take(i as int).len() && rows@.take(i as int)[j] == (owner, t);
                    assert(next[j] == (owner, t));
                    let m = choose|m: int| 0 <= m < prev.len() && prev[m] == t;
                    assert(out@[m] == t);
                }
            }
        }
        i = i + 1;
    }
    assert(rows@.take(rows@.len() as int) =~= rows@);
    assert(out@.to_set() =~= links_of(rows@, owner));
    out
}

impl RepositoryManager {
    pub closed spec fn wf(&self) -> bool {
        &&& self.settings.wf()
        &&& self.systems.wf()
        &&& ids_ok(self.emulators@, self.next_emulator_id)
        &&& ids_ok(self.software_titles@, self.next_software_title_id)
        &&& ids_ok(self.file_sets@, self.next_file_set_id)
        &&& ids_ok(self.releases@, self.next_release_id)
        &&& self@.integrity()
    }

    /// A well-formed catalog keeps its links valid and its identifiers
    /// unique and below the next ones it hands out.
    pub proof fn lemma_wf(&self)
        requires
            self.wf(),
        ensures
            self@.integrity(),
            ids_ok(self@.systems, self@.next_system_id),
            ids_ok(self@.emulators, self@.next_emulator_id),
            ids_ok(self@.software_titles, self@.next_software_title_id),
            ids_ok(self@.file_sets, self@.next_file_set_id),
            ids_ok(self@.releases, self@.next_release_id),
    {
    }

    /// An empty catalog; the first row of each entity table gets the
    /// identifier 1.
    pub fn new() -> (r: Self)
        ensures
            r.wf(),
            r@.settings == Map::<Seq<char>, Seq<char>>::empty(),
            r@.systems.len() == 0 && r@.emulators.len() == 0 && r@.emulator_systems.len() == 0,
            r@.software_titles.len() == 0 && r@.file_sets.len() == 0 && r@.releases.len() == 0,
            r@.release_software_titles.len() == 0 && r@.release_file_sets.len() == 0,
            r@.release_systems.len() == 0,
            r@.next_system_id == 1 && r@.next_emulator_id == 1 && r@.next_software_title_id == 1,
            r@.next_file_set_id == 1 && r@.next_release_id == 1,
    {
        RepositoryManager {
            settings: SettingRepository::new(),
            systems: SystemRepository::new(),
            emulators: Vec::new(),
            emulator_systems: Vec::new(),
            software_titles: Vec::new(),
            file_sets: Vec::new(),
            releases: Vec::new(),
            release_software_titles: Vec::new(),
            release_file_sets: Vec::new(),
            release_systems: Vec::new(),
            next_emulator_id: 1,
            next_software_title_id: 1,
            next_file_set_id: 1,
            next_release_id: 1,
        }
    }

    /// The settings store.
    pub fn settings(&self) -> (r: &SettingRepository)
        ensures
            r@ == self@.settings,
            self.wf() ==> r.wf(),
    {
        &self.settings
    }

    /// Adds the setting `key = value`; `Conflict`, with nothing changed,
    /// when the key is already present.
    pub fn add_setting(&mut self, key: &str, value: &str) -> (r: Result<(), DatabaseError>)
        requires
            old(self).wf(),
        ensures
            final(self).wf(),
            r is Ok <==> !old(self)@.settings.contains_key(key@),
            r is Ok ==> final(self)@ == (CatalogView {
                settings: old(self)@.settings.insert(key@, value@),
                ..old(self)@
            }),
            r matches Err(e) ==> e == DatabaseError::Conflict && final(self)@ == old(self)@,
    {
        let r = self.settings.add_setting(key, value);
        assert(self@.settings == self.settings@);
        r
    }

    /// Sets the value under `key` when the key is present; an absent key
    /// leaves the catalog as it was, and that is no error.
    pub fn update_setting(&mut self, key: &str, value: &str) -> (r: Result<(), DatabaseError>)
        requires
            old(self).wf(),
        ensures
            final(self).wf(),
            r is Ok,
            final(self)@ == (CatalogView {
                settings: if old(self)@.settings.contains_key(key@) {
                    old(self)@.settings.insert(key@, value@)
                } else {
                    old(self)@.settings
                },
                ..old(self)@
            }),
    {
        self.settings.update_setting(key, value)
    }

    /// Sets `key` to `value`, adding the key when it is absent.
    pub fn add_or_update_setting(&mut self, key: &str, value: &str) -> (r: Result<(), DatabaseError>)
        requires
            old(self).wf(),
        ensures
            final(self).wf(),
            r is Ok,
            final(self)@ == (CatalogView {
                settings: old(self)@.settings.insert(key@, value@),
                ..old(self)@
            }),
    {
        self.settings.add_or_update_setting(key, value)
    }

    /// The table of systems.
    pub fn get_system_repository(&self) -> (r: &SystemRepository)
        ensures
            r.rows() == self@.systems,
            self.wf() ==> r.wf(),
    {
        &self.systems
    }

    /// Whether some release or some emulator is linked to the system
    /// `system_id`.
    pub fn is_system_in_use(&self, system_id: i64) -> (r: bool)
        ensures
            r == self@.system_in_use(system_id),
    {
        let mut i: usize = 0;
        while i < self.release_systems.len()
            invariant
                i <= self.release_systems@.len(),
                forall|j: int| 0 <= j < i ==> (#[trigger] self.release_systems@[j]).1 != system_id,
            decreases self.release_systems@.len() - i,
        {
            if self.release_systems[i].1 == system_id {
                assert(self@.release_systems[i as int].1 == system_id);
                return true;
            }
            i = i + 1;
        }
        let mut k: usize = 0;
        while k < self.emulator_systems.len()
            invariant
                k <= self.emulator_systems@.len(),
                forall|j: int| 0 <= j < self.release_systems@.len() ==> (#[trigger] self.release_systems@[j]).1 != system_id,
                forall|j: int| 0 <= j < k ==> (#[trigger] self.emulator_systems@[j]).system_id != system_id,
            decreases self.emulator_systems@.len() - k,
        {
            if self.emulator_systems[k].system_id == system_id {
                assert(self@.emulator_systems[k as int].system_id == system_id);
                return true;
            }
            k = k + 1;
        }
        false
    }
}

impl RepositoryManager {
    /// Adds a release named `name` together with its links to the given
    /// software titles, file sets and systems, and returns its identifier.
    /// The write is all or nothing: when an identifier names no row
    /// (`IntegrityError`) or identifiers have run out (`StorageError`), the
    /// catalog is left exactly as it was.
    pub fn add_release_full(
        &mut self,
        name: String,
        software_title_ids: Vec<i64>,
        file_set_ids: Vec<i64>,
        system_ids: Vec<i64>,
    ) -> (r: Result<i64, DatabaseError>)
        requires
            old(self).wf(),
        ensures
            final(self).wf(),
            r is Ok <==> old(self)@.next_release_id < i64::MAX && all_present(
                old(self)@.software_titles,
                software_title_ids@,
            ) && all_present(old(self)@.file_sets, file_set_ids@) && all_present(
                old(self)@.systems,
                system_ids@,
            ),
            r matches Ok(id) ==> {
                &&& id == old(self)@.next_release_id
                &&& !has_id(old(self)@.releases, id)
                &&& final(self)@ == (CatalogView {
                    releases: old(self)@.releases.push(Release { id, name }),
                    release_software_titles: old(self)@.release_software_titles + link_rows(
                        id,
                        software_title_ids@,
                    ),
                    release_file_sets: old(self)@.release_file_sets + link_rows(id, file_set_ids@),
                    release_systems: old(self)@.release_systems + link_rows(id, system_ids@),
                    next_release_id: (id + 1) as i64,
                    ..old(self)@
                })
            },
            r matches Err(e) ==> *final(self) == *old(self) && (if old(self)@.next_release_id
                == i64::MAX {
                e == DatabaseError::StorageError
            } else {
                e == DatabaseError::IntegrityError
            }),
    {
        if self.next_release_id == i64::MAX {
            return Err(DatabaseError::StorageError);
        }
        if !all_ids_present(&self.software_titles, &software_title_ids) || !all_ids_present(
            &self.file_sets,
            &file_set_ids,
        ) || !all_ids_present(self.systems.rows_vec(), &system_ids) {
            return Err(DatabaseError::IntegrityError);
        }
        let id = self.next_release_id;
        let ghost before = self@;
        let release = Release { id, name };
        proof {
            lemma_has_id_push(self.releases@, release);
            assert(!has_id(self.releases@, id));
        }
        self.releases.push(release);
        self.next_release_id = id + 1;
        append_links(&mut self.release_software_titles, id, &software_title_ids);
        append_links(&mut self.release_file_sets, id, &file_set_ids);
        append_links(&mut self.release_systems, id, &system_ids);
        proof {
            let after = self@;
            lemma_links_valid_widen(
                before.release_systems,
                before.releases,
                after.releases,
                before.systems,
                after.systems,
            );
            lemma_links_valid_append(before.release_systems, after.releases, after.systems, id, system_ids@);
            lemma_links_valid_widen(
                before.release_software_titles,
                before.releases,
                after.releases,
                before.software_titles,
                after.software_titles,
            );
            lemma_links_valid_append(
                before.release_software_titles,
                after.releases,
                after.software_titles,
                id,
                software_title_ids@,
            );
            lemma_links_valid_widen(
                before.release_file_sets,
                before.releases,
                after.releases,
                before.file_sets,
                after.file_sets,
            );
            lemma_links_valid_append(
                before.release_file_sets,
                after.releases,
                after.file_sets,
                id,
                file_set_ids@,
            );
            assert(forall|i: int| 0 <= i < before.releases.len() ==> after.releases[i] == before.releases[i]);
            assert(after =~= (CatalogView {
                releases: before.releases.push(Release { id, name }),
                release_software_titles: before.release_software_titles + link_rows(id, software_title_ids@),
                release_file_sets: before.release_file_sets + link_rows(id, file_set_ids@),
                release_systems: before.release_systems + link_rows(id, system_ids@),
                next_release_id: (id + 1) as i64,
                ..before
            }));
        }
        Ok(id)
    }

    /// Gives the release `id` the name `name` and replaces all its links by
    /// links to the given software titles, file sets and systems; returns
    /// `id`. All or nothing: on `NotFound` (no such release) or
    /// `IntegrityError` (an identifier names no row) nothing changes.
    pub fn update_release_full(
        &mut self,
        id: i64,
        name: String,
        software_title_ids: Vec<i64>,
        file_set_ids: Vec<i64>,
        system_ids: Vec<i64>,
    ) -> (r: Result<i64, DatabaseError>)
        requires
            old(self).wf(),
        ensures
            final(self).wf(),
            r is Ok <==> has_id(old(self)@.releases, id) && all_present(
                old(self)@.software_titles,
                software_title_ids@,
            ) && all_present(old(self)@.file_sets, file_set_ids@) && all_present(
                old(self)@.systems,
                system_ids@,
            ),
            r matches Ok(rid) ==> {
                &&& rid == id
                &&& exists|n: int|
                    0 <= n < old(self)@.releases.len() && old(self)@.releases[n].id == id
                        && final(self)@ == (CatalogView {
                        releases: old(self)@.releases.update(n, Release { id, name }),
                        release_software_titles: without_links(
                            old(self)@.release_software_titles,
                            id,
                            None,
                        ) + link_rows(id, software_title_ids@),
                        release_file_sets: without_links(old(self)@.release_file_sets, id, None)
                            + link_rows(id, file_set_ids@),
                        release_systems: without_links(old(self)@.release_systems, id, None)
                            + link_rows(id, system_ids@),
                        ..old(self)@
                    })
            },
            r matches Err(e) ==> *final(self) == *old(self) && (if has_id(old(self)@.releases, id) {
                e == DatabaseError::IntegrityError
            } else {
                e == DatabaseError::NotFound
            }),
    {
        let n = match index_of(&self.releases, id) {
            Some(n) => n,
            None => {
                return Err(DatabaseError::NotFound);
            },
        };
        if !all_ids_present(&self.software_titles, &software_title_ids) || !all_ids_present(
            &self.file_sets,
            &file_set_ids,
        ) || !all_ids_present(self.systems.rows_vec(), &system_ids) {
            return Err(DatabaseError::IntegrityError);
        }
        let ghost before = self@;
        let release = Release { id, name };
        proof {
            lemma_has_id_update(self.releases@, n as int, release);
            assert(has_id(self.releases@.update(n as int, release), id)) by {
                assert(self.releases@.update(n as int, release)[n as int].id == id);
            }
        }
        self.releases.set(n, release);
        remove_links(&mut self.release_software_titles, id, None);
        remove_links(&mut self.release_file_sets, id, None);
        remove_links(&mut self.release_systems, id, None);
        append_links(&mut self.release_software_titles, id, &software_title_ids);
        append_links(&mut self.release_file_sets, id, &file_set_ids);
        append_links(&mut self.release_systems, id, &system_ids);
        proof {
            let after = self@;
            let rs = without_links(before.release_systems, id, None);
            let rt = without_links(before.release_software_titles, id, None);
            let rf = without_links(before.release_file_sets, id, None);
            lemma_links_valid_filter(before.release_systems, before.releases, before.systems, id, None);
            lemma_links_valid_widen(rs, before.releases, after.releases, before.systems, after.systems);
            lemma_links_valid_append(rs, after.releases, after.systems, id, system_ids@);
            lemma_links_valid_filter(
                before.release_software_titles,
                before.releases,
                before.software_titles,
                id,
                None,
            );
            lemma_links_valid_widen(
                rt,
                before.releases,
                after.releases,
                before.software_titles,
                after.software_titles,
            );
            lemma_links_valid_append(rt, after.releases, after.software_titles, id, software_title_ids@);
            lemma_links_valid_filter(before.release_file_sets, before.releases, before.file_sets, id, None);
            lemma_links_valid_widen(rf, before.releases, after.releases, before.file_sets, after.file_sets);
            lemma_links_valid_append(rf, after.releases, after.file_sets, id, file_set_ids@);
            assert forall|i: int, j: int|
                0 <= i < after.releases.len() && 0 <= j < after.releases.len() && i != j implies (
            #[trigger] after.releases[i]).key() != (#[trigger] after.releases[j]).key() by {
                assert(after.releases[i].key() == before.releases[i].key());
                assert(after.releases[j].key() == before.releases[j].key());
            }
            assert forall|i: int| 0 <= i < after.releases.len() implies 1 <= (
            #[trigger] after.releases[i]).key() < after.next_release_id by {
                assert(after.releases[i].key() == before.releases[i].key());
            }
            assert(after =~= (CatalogView {
                releases: before.releases.update(n as int, Release { id, name }),
                release_software_titles: rt + link_rows(id, software_title_ids@),
                release_file_sets: rf + link_rows(id, file_set_ids@),
                release_systems: rs + link_rows(id, system_ids@),
                ..before
            }));
        }
        Ok(id)
    }

    /// Adds a system named `name` and returns its new identifier;
    /// `StorageError`, with the catalog unchanged, once identifiers run out.
    pub fn add_system(&mut self, name: &String) -> (r: Result<i64, DatabaseError>)
        requires
            old(self).wf(),
        ensures
            final(self).wf(),
            r is Ok <==> old(self)@.next_system_id < i64::MAX,
            r matches Ok(id) ==> {
                &&& id == old(self)@.next_system_id
                &&& !has_id(old(self)@.systems, id)
                &&& final(self)@ == (CatalogView {
                    systems: old(self)@.systems.push(System { id, name: *name }),
                    next_system_id: (id + 1) as i64,
                    ..old(self)@
                })
            },
            r matches Err(e) ==> e == DatabaseError::StorageError && *final(self) == *old(self),
    {
        let ghost before = self@;
        let r = self.systems.add_system(name);
        proof {
            if let Ok(id) = r {
                let after = self@;
                lemma_has_id_push(before.systems, System { id, name: *name });
                lemma_links_valid_widen(
                    before.release_systems,
                    before.releases,
                    after.releases,
                    before.systems,
                    after.systems,
                );
                assert forall|i: int| 0 <= i < after.emulator_systems.len() implies has_id(
                    after.emulators,
                    (#[trigger] after.emulator_systems[i]).emulator_id,
                ) && has_id(after.systems, after.emulator_systems[i].system_id) by {
                    assert(has_id(before.systems, before.emulator_systems[i].system_id));
                }
                assert(after =~= (CatalogView {
                    systems: before.systems.push(System { id, name: *name }),
                    next_system_id: (id + 1) as i64,
                    ..before
                }));
            }
        }
        r
    }

    /// Deletes the system `system_id` when nothing links to it, checking
    /// and deleting in one step; `NotFound` when there is no such system and
    /// `IntegrityError` when a release or an emulator links to it, and then
    /// nothing changes.
    pub fn delete_system(&mut self, system_id: i64) -> (r: Result<(), DatabaseError>)
        requires
            old(self).wf(),
        ensures
            final(self).wf(),
            r is Ok <==> has_id(old(self)@.systems, system_id) && !old(self)@.system_in_use(
                system_id,
            ),
            r is Ok ==> exists|n: int|
                0 <= n < old(self)@.systems.len() && old(self)@.systems[n].id == system_id
                    && final(self)@ == (CatalogView { systems: old(self)@.systems.remove(n), ..old(self)@ }),
            r matches Err(e) ==> *final(self) == *old(self) && (if has_id(old(self)@.systems, system_id) {
                e == DatabaseError::IntegrityError
            } else {
                e == DatabaseError::NotFound
            }),
    {
        let n = match index_of(self.systems.rows_vec(), system_id) {
            Some(n) => n,
            None => {
                return Err(DatabaseError::NotFound);
            },
        };
        if self.is_system_in_use(system_id) {
            return Err(DatabaseError::IntegrityError);
        }
        let ghost before = self@;
        self.systems.remove_at(n);
        proof {
            let after = self@;
            let s = before.systems;
            assert forall|id: i64| has_id(s, id) && id != system_id implies #[trigger] has_id(
                after.systems,
                id,
            ) by {
                let i = choose|i: int| 0 <= i < s.len() && (#[trigger] s[i]).key() == id;
                assert(i != n);
                if i < n {
                    assert(after.systems[i] == s[i]);
                } else {
                    assert(after.systems[i - 1] == s[i]);
                }
            }
            assert forall|i: int| 0 <= i < after.release_systems.len() implies has_id(
                after.releases,
                (#[trigger] after.release_systems[i]).0,
            ) && has_id(after.systems, after.release_systems[i].1) by {
                assert(has_id(s, before.release_systems[i].1));
                assert(before.release_systems[i].1 != system_id);
            }
            assert forall|i: int| 0 <= i < after.emulator_systems.len() implies has_id(
                after.emulators,
                (#[trigger] after.emulator_systems[i]).emulator_id,
            ) && has_id(after.systems, after.emulator_systems[i].system_id) by {
                assert(has_id(s, before.emulator_systems[i].system_id));
                assert(before.emulator_systems[i].system_id != system_id);
            }
            assert(after =~= (CatalogView { systems: s.remove(n as int), ..before }));
        }
        Ok(())
    }

    /// Adds an emulator and returns its new identifier; `StorageError`, with
    /// the catalog unchanged, once identifiers run out.
    pub fn add_emulator(&mut self, name: String, executable: String, extract_files: bool) -> (r:
        Result<i64, DatabaseError>)
        requires
            old(self).wf(),
        ensures
            final(self).wf(),
            r is Ok <==> old(self)@.next_emulator_id < i64::MAX,
            r matches Ok(id) ==> {
                &&& id == old(self)@.next_emulator_id
                &&& !has_id(old(self)@.emulators, id)
                &&& final(self)@ == (CatalogView {
                    emulators: old(self)@.emulators.push(
                        Emulator { id, name, executable, extract_files },
                    ),
                    next_emulator_id: (id + 1) as i64,
                    ..old(self)@
                })
            },
            r matches Err(e) ==> e == DatabaseError::StorageError && *final(self) == *old(self),
    {
        if self.next_emulator_id == i64::MAX {
            return Err(DatabaseError::StorageError);
        }
        let id = self.next_emulator_id;
        let ghost before = self@;
        let e = Emulator { id, name, executable, extract_files };
        proof {
            lemma_has_id_push(self.emulators@, e);
        }
        self.emulators.push(e);
        self.next_emulator_id = id + 1;
        proof {
            let after = self@;
            assert forall|i: int| 0 <= i < after.emulator_systems.len() implies has_id(
                after.emulators,
                (#[trigger] after.emulator_systems[i]).emulator_id,
            ) && has_id(after.systems, after.emulator_systems[i].system_id) by {
                assert(has_id(before.emulators, before.emulator_systems[i].emulator_id));
            }
            assert(forall|i: int| 0 <= i < before.emulators.len() ==> after.emulators[i] == before.emulators[i]);
            assert(after =~= (CatalogView {
                emulators: before.emulators.push(Emulator { id, name, executable, extract_files }),
                next_emulator_id: (id + 1) as i64,
                ..before
            }));
        }
        Ok(id)
    }

    /// Adds a software title and returns its new identifier; `StorageError`,
    /// with the catalog unchanged, once identifiers run out.
    pub fn add_software_title(&mut self, name: String) -> (r: Result<i64, DatabaseError>)
        requires
            old(self).wf(),
        ensures
            final(self).wf(),
            r is Ok <==> old(self)@.next_software_title_id < i64::MAX,
            r matches Ok(id) ==> {
                &&& id == old(self)@.next_software_title_id
                &&& !has_id(old(self)@.software_titles, id)
                &&& final(self)@ == (CatalogView {
                    software_titles: old(self)@.software_titles.push(SoftwareTitle { id, name }),
                    next_software_title_id: (id + 1) as i64,
                    ..old(self)@
                })
            },
            r matches Err(e) ==> e == DatabaseError::StorageError && *final(self) == *old(self),
    {
        if self.next_software_title_id == i64::MAX {
            return Err(DatabaseError::StorageError);
        }
        let id = self.next_software_title_id;
        let ghost before = self@;
        let s = SoftwareTitle { id, name };
        proof {
            lemma_has_id_push(self.software_titles@, s);
        }
        self.software_titles.push(s);
        self.next_software_title_id = id + 1;
        proof {
            let after = self@;
            lemma_links_valid_widen(
                before.release_software_titles,
                before.releases,
                after.releases,
                before.software_titles,
                after.software_titles,
            );
            assert(forall|i: int| 0 <= i < before.software_titles.len() ==> after.software_titles[i] == before.software_titles[i]);
            assert(after =~= (CatalogView {
                software_titles: before.software_titles.push(SoftwareTitle { id, name }),
                next_software_title_id: (id + 1) as i64,
                ..before
            }));
        }
        Ok(id)
    }

    /// Adds a file set and returns its new identifier; `StorageError`, with
    /// the catalog unchanged, once identifiers run out.
    pub fn add_file_set(&mut self, file_set_name: String) -> (r: Result<i64, DatabaseError>)
        requires
            old(self).wf(),
        ensures
            final(self).wf(),
            r is Ok <==> old(self)@.next_file_set_id < i64::MAX,
            r matches Ok(id) ==> {
                &&& id == old(self)@.next_file_set_id
                &&& !has_id(old(self)@.file_sets, id)
                &&& final(self)@ == (CatalogView {
                    file_sets: old(self)@.file_sets.push(FileSet { id, file_set_name }),
                    next_file_set_id: (id + 1) as i64,
                    ..old(self)@
                })
            },
            r matches Err(e) ==> e == DatabaseError::StorageError && *final(self) == *old(self),
    {
        if self.next_file_set_id == i64::MAX {
            return Err(DatabaseError::StorageError);
        }
        let id = self.next_file_set_id;
        let ghost before = self@;
        let f = FileSet { id, file_set_name };
        proof {
            lemma_has_id_push(self.file_sets@, f);
        }
        self.file_sets.push(f);
        self.next_file_set_id = id + 1;
        proof {
            let after = self@;
            lemma_links_valid_widen(
                before.release_file_sets,
                before.releases,
                after.releases,
                before.file_sets,
                after.file_sets,
            );
            assert(forall|i: int| 0 <= i < before.file_sets.len() ==> after.file_sets[i] == before.file_sets[i]);
            assert(after =~= (CatalogView {
                file_sets: before.file_sets.push(FileSet { id, file_set_name }),
                next_file_set_id: (id + 1) as i64,
                ..before
            }));
        }
        Ok(id)
    }


    /// Links the emulator `emulator_id` to the system `system_id` with the
    /// launch arguments `arguments`; `IntegrityError`, with nothing changed,
    /// when either row does not exist.
    pub fn add_emulator_system(&mut self, emulator_id: i64, system_id: i64, arguments: String) -> (r:
        Result<(), DatabaseError>)
        requires
            old(self).wf(),
        ensures
            final(self).wf(),
            r is Ok <==> has_id(old(self)@.emulators, emulator_id) && has_id(
                old(self)@.systems,
                system_id,
            ),
            r is Ok ==> final(self)@ == (CatalogView {
                emulator_systems: old(self)@.emulator_systems.push(
                    EmulatorSystem { emulator_id, system_id, arguments },
                ),
                ..old(self)@
            }),
            r matches Err(e) ==> e == DatabaseError::IntegrityError && *final(self) == *old(self),
    {
        if index_of(&self.emulators, emulator_id).is_none() || index_of(
            self.systems.rows_vec(),
            system_id,
        ).is_none() {
            return Err(DatabaseError::IntegrityError);
        }
        let ghost before = self@;
        self.emulator_systems.push(EmulatorSystem { emulator_id, system_id, arguments });
        proof {
            let after = self@;
            assert forall|i: int| 0 <= i < after.emulator_systems.len() implies has_id(
                after.emulators,
                (#[trigger] after.emulator_systems[i]).emulator_id,
            ) && has_id(after.systems, after.emulator_systems[i].system_id) by {
                if i < before.emulator_systems.len() {
                    assert(after.emulator_systems[i] == before.emulator_systems[i]);
                }
            }
            assert(after =~= (CatalogView {
                emulator_systems: before.emulator_systems.push(
                    EmulatorSystem { emulator_id, system_id, arguments },
                ),
                ..before
            }));
        }
        Ok(())
    }

    /// Removes every link from the emulator `emulator_id` to the system
    /// `system_id`.
    pub fn remove_emulator_system(&mut self, emulator_id: i64, system_id: i64)
        requires
            old(self).wf(),
        ensures
            final(self).wf(),
            final(self)@ == (CatalogView {
                emulator_systems: old(self)@.emulator_systems.filter(
                    |e: EmulatorSystem| emulator_link_kept(e, emulator_id, system_id),
                ),
                ..old(self)@
            }),
    {
        let ghost before = self@;
        let mut kept: Vec<EmulatorSystem> = Vec::new();
        let mut i: usize = 0;
        while i < self.emulator_systems.len()
            invariant
                i <= self.emulator_systems@.len(),
                self@ == before,
                kept@ == self.emulator_systems@.take(i as int).filter(|e: EmulatorSystem| emulator_link_kept(e, emulator_id, system_id)),
            decreases self.emulator_systems@.len() - i,
        {
            let ghost prev = kept@;
            if !(self.emulator_systems[i].emulator_id == emulator_id
                && self.emulator_systems[i].system_id == system_id) {
                let copy = EmulatorSystem {
                    emulator_id: self.emulator_systems[i].emulator_id,
                    system_id: self.emulator_systems[i].system_id,
                    arguments: self.emulator_systems[i].arguments.clone(),
                };
                assert(copy == self.emulator_systems@[i as int]);
                kept.push(copy);
            }
            proof {
                assert(self.emulator_systems@.take(i + 1).drop_last() =~= self.emulator_systems@.take(
                    i as int,
                ));
                assert(self.emulator_systems@.take(i + 1).last() == self.emulator_systems@[i as int]);
                if emulator_link_kept(self.emulator_systems@[i as int], emulator_id, system_id) {
                    assert(kept@ == prev.push(self.emulator_systems@[i as int]));
                } else {
                    assert(kept@ == prev);
                }
                reveal(Seq::filter);
                assert(self.emulator_systems@.take(i + 1).filter(|e: EmulatorSystem| emulator_link_kept(e, emulator_id, system_id)) == if emulator_link_kept(
                    self.emulator_systems@[i as int], emulator_id, system_id,
                ) {
                    self.emulator_systems@.take(i as int).filter(|e: EmulatorSystem| emulator_link_kept(e, emulator_id, system_id)).push(self.emulator_systems@[i as int])
                } else {
                    self.emulator_systems@.take(i as int).filter(|e: EmulatorSystem| emulator_link_kept(e, emulator_id, system_id))
                });
            }
            i = i + 1;
        }
        assert(self.emulator_systems@.take(self.emulator_systems@.len() as int)
            =~= self.emulator_systems@);
        self.emulator_systems = kept;
        proof {
            let pred = |e: EmulatorSystem| emulator_link_kept(e, emulator_id, system_id);
            let after = self@;
            assert forall|i: int| 0 <= i < after.emulator_systems.len() implies has_id(
                after.emulators,
                (#[trigger] after.emulator_systems[i]).emulator_id,
            ) && has_id(after.systems, after.emulator_systems[i].system_id) by {
                let x = after.emulator_systems[i];
                assert(after.emulator_systems.contains(x));
                before.emulator_systems.lemma_filter_contains_rev(pred, x);
                let j = choose|j: int|
                    0 <= j < before.emulator_systems.len() && before.emulator_systems[j] == x;
                assert(has_id(before.emulators, before.emulator_systems[j].emulator_id));
            }
            assert(after =~= (CatalogView {
                emulator_systems: before.emulator_systems.filter(pred),
                ..before
            }));
        }
    }

    /// Links the release `release_id` to the system `system_id`;
    /// `IntegrityError`, with nothing changed, when either row does not
    /// exist.
    pub fn add_release_system(&mut self, release_id: i64, system_id: i64) -> (r: Result<
        (),
        DatabaseError,
    >)
        requires
            old(self).wf(),
        ensures
            final(self).wf(),
            r is Ok <==> has_id(old(self)@.releases, release_id) && has_id(
                old(self)@.systems,
                system_id,
            ),
            r is Ok ==> final(self)@ == (CatalogView {
                release_systems: old(self)@.release_systems.push((release_id, system_id)),
                ..old(self)@
            }),
            r matches Err(e) ==> e == DatabaseError::IntegrityError && *final(self) == *old(self),
    {
        if index_of(&self.releases, release_id).is_none() || index_of(
            self.systems.rows_vec(),
            system_id,
        ).is_none() {
            return Err(DatabaseError::IntegrityError);
        }
        let ghost before = self@;
        self.release_systems.push((release_id, system_id));
        proof {
            let after = self@;
            assert forall|i: int| 0 <= i < after.release_systems.len() implies has_id(
                after.releases,
                (#[trigger] after.release_systems[i]).0,
            ) && has_id(after.systems, after.release_systems[i].1) by {
                if i < before.release_systems.len() {
                    assert(after.release_systems[i] == before.release_systems[i]);
                }
            }
            assert(after =~= (CatalogView {
                release_systems: before.release_systems.push((release_id, system_id)),
                ..before
            }));
        }
        Ok(())
    }

    /// Removes every link from the release `release_id` to the system
    /// `system_id`.
    pub fn remove_release_system(&mut self, release_id: i64, system_id: i64)
        requires
            old(self).wf(),
        ensures
            final(self).wf(),
            final(self)@ == (CatalogView {
                release_systems: without_links(old(self)@.release_systems, release_id, Some(system_id)),
                ..old(self)@
            }),
    {
        let ghost before = self@;
        remove_links(&mut self.release_systems, release_id, Some(system_id));
        proof {
            lemma_links_valid_filter(
                before.release_systems,
                before.releases,
                before.systems,
                release_id,
                Some(system_id),
            );
            assert(self@ =~= (CatalogView {
                release_systems: without_links(before.release_systems, release_id, Some(system_id)),
                ..before
            }));
        }
    }

    /// The release with identifier `id`; `NotFound` when there is none.
    pub fn get_release(&self, id: i64) -> (r: Result<Release, DatabaseError>)
        ensures
            r is Ok <==> has_id(self@.releases, id),
            r matches Ok(x) ==> x.id == id && self@.releases.contains(x),
            r matches Err(e) ==> e == DatabaseError::NotFound,
    {
        match index_of(&self.releases, id) {
            Some(i) => {
                let x = Release { id: self.releases[i].id, name: self.releases[i].name.clone() };
                assert(x == self@.releases[i as int]);
                Ok(x)
            },
            None => Err(DatabaseError::NotFound),
        }
    }

    /// The software titles that the release `release_id` is linked to.
    pub fn get_release_software_title_ids(&self, release_id: i64) -> (r: Vec<i64>)
        ensures
            r@.to_set() == links_of(self@.release_software_titles, release_id),
    {
        targets_of(&self.release_software_titles, release_id)
    }

    /// The file sets that the release `release_id` is linked to.
    pub fn get_release_file_set_ids(&self, release_id: i64) -> (r: Vec<i64>)
        ensures
            r@.to_set() == links_of(self@.release_file_sets, release_id),
    {
        targets_of(&self.release_file_sets, release_id)
    }

    /// The systems that the release `release_id` is linked to.
    pub fn get_release_system_ids(&self, release_id: i64) -> (r: Vec<i64>)
        ensures
            r@.to_set() == links_of(self@.release_systems, release_id),
    {
        targets_of(&self.release_systems, release_id)
    }


    /// The emulator `emulator_id` and its links to systems, in row order,
    /// each with the system's name; `NotFound` when there is no such
    /// emulator.
    pub fn get_emulator_with_systems(&self, emulator_id: i64) -> (r: Result<
        (Emulator, Vec<EmulatorSystemAssociation>),
        DatabaseError,
    >)
        requires
            self.wf(),
        ensures
            r is Ok <==> has_id(self@.emulators, emulator_id),
            r matches Ok((e, assoc)) ==> {
                let links = self@.emulator_links(emulator_id);
                &&& e.id == emulator_id
                &&& self@.emulators.contains(e)
                &&& assoc@.len() == links.len()
                &&& forall|k: int|
                    0 <= k < links.len() ==> (#[trigger] assoc@[k]).system_id == links[k].system_id
                        && assoc@[k].arguments == links[k].arguments && assoc@[k].system_name@
                        == self@.system_name(links[k].system_id)
            },
            r matches Err(e) ==> e == DatabaseError::NotFound,
    {
        let n = match index_of(&self.emulators, emulator_id) {
            Some(n) => n,
            None => {
                return Err(DatabaseError::NotFound);
            },
        };
        let emulator = Emulator {
            id: self.emulators[n].id,
            name: self.emulators[n].name.clone(),
            executable: self.emulators[n].executable.clone(),
            extract_files: self.emulators[n].extract_files,
        };
        assert(emulator == self@.emulators[n as int]);
        let ghost rows = self.emulator_systems@;
        let mut out: Vec<EmulatorSystemAssociation> = Vec::new();
        let mut i: usize = 0;
        while i < self.emulator_systems.len()
            invariant
                self.wf(),
                i <= rows.len(),
                rows == self@.emulator_systems,
                out@.len() == rows.take(i as int).filter(
                    |e: EmulatorSystem| e.emulator_id == emulator_id,
                ).len(),
                forall|k: int|
                    0 <= k < out@.len() ==> {
                        let link = rows.take(i as int).filter(
                            |e: EmulatorSystem| e.emulator_id == emulator_id,
                        )[k];
                        &&& (#[trigger] out@[k]).system_id == link.system_id
                        &&& out@[k].arguments == link.arguments
                        &&& out@[k].system_name@ == self@.system_name(link.system_id)
                    },
            decreases rows.len() - i,
        {
            let ghost prev = out@;
            if self.emulator_systems[i].emulator_id == emulator_id {
                let sid = self.emulator_systems[i].system_id;
                assert(has_id(self@.systems, sid));
                let j = match index_of(self.systems.rows_vec(), sid) {
                    Some(j) => j,
                    None => {
                        return Err(DatabaseError::NotFound);
                    },
                };
                let system_name = self.systems.rows_vec()[j].name.clone();
                proof {
                    let systems = self@.systems;
                    let c = choose|c: int| 0 <= c < systems.len() && (#[trigger] systems[c]).id == sid;
                    assert(systems[j as int].key() == sid);
                    assert(c == j);
                }
                out.push(
                    EmulatorSystemAssociation {
                        system_id: sid,
                        system_name,
                        arguments: self.emulator_systems[i].arguments.clone(),
                    },
                );
            }
            proof {
                let pred = |e: EmulatorSystem| e.emulator_id == emulator_id;
                assert(rows.take(i + 1).drop_last() =~= rows.take(i as int));
                assert(rows.take(i + 1).last() == rows[i as int]);
                reveal(Seq::filter);
                assert(rows.take(i + 1).filter(pred) == if rows[i as int].emulator_id == emulator_id {
                    rows.take(i as int).filter(pred).push(rows[i as int])
                } else {
                    rows.take(i as int).filter(pred)
                });
                assert forall|k: int| 0 <= k < prev.len() implies #[trigger] out@[k] == prev[k] by {}
            }
            i = i + 1;
        }
        assert(rows.take(rows.len() as int) =~= rows);
        Ok((emulator, out))
    }

}

/// The links of `owner` among `rows` followed by fresh link rows of `owner`
/// are exactly the fresh targets, when `rows` holds no link of `owner`; the
/// links of every other owner stay as they were.
proof fn lemma_links_of_append(rows: Seq<(i64, i64)>, owner: i64, targets: Seq<i64>)
    requires
        forall|i: int| 0 <= i < rows.len() ==> (#[trigger] rows[i]).0 != owner,
    ensures
        links_of(rows + link_rows(owner, targets), owner) == targets.to_set(),
        forall|other: i64|
            other != owner ==> #[trigger] links_of(rows + link_rows(owner, targets), other)
                == links_of(rows, other),
{
    let all = rows + link_rows(owner, targets);
    assert forall|t: i64| all.contains((owner, t)) <==> targets.contains(t) by {
        if all.contains((owner, t)) {
            let i = choose|i: int| 0 <= i < all.len() && all[i] == (owner, t);
            if i < rows.len() {
                assert(all[i] == rows[i]);
            } else {
                assert(targets[i - rows.len()] == t);
            }
        }
        if targets.contains(t) {
            let k = choose|k: int| 0 <= k < targets.len() && targets[k] == t;
            assert(all[rows.len() + k] == (owner, t));
        }
    }
    assert(links_of(all, owner) =~= targets.to_set());
    assert forall|other: i64| other != owner implies #[trigger] links_of(all, other) == links_of(
        rows,
        other,
    ) by {
        assert forall|t: i64| all.contains((other, t)) <==> rows.contains((other, t)) by {
            if all.contains((other, t)) {
                let i = choose|i: int| 0 <= i < all.len() && all[i] == (other, t);
                assert(i < rows.len());
                assert(all[i] == rows[i]);
            }
            if rows.contains((other, t)) {
                let i = choose|i: int| 0 <= i < rows.len() && rows[i] == (other, t);
                assert(all[i] == rows[i]);
            }
        }
        assert(links_of(all, other) =~= links_of(rows, other));
    }
}

/// Removing the links of `owner` leaves no link of `owner`, and keeps every
/// link of the other owners.
proof fn lemma_without_links(rows: Seq<(i64, i64)>, owner: i64)
    ensures
        forall|i: int|
            0 <= i < without_links(rows, owner, None).len() ==> (#[trigger] without_links(
                rows,
                owner,
                None,
            )[i]).0 != owner,
        forall|other: i64|
            other != owner ==> #[trigger] links_of(without_links(rows, owner, None), other)
                == links_of(rows, other),
{
    let pred = |r: (i64, i64)| link_kept(r, owner, None);
    let kept = rows.filter(pred);
    assert(without_links(rows, owner, None) == kept);
    assert forall|i: int| 0 <= i < kept.len() implies (#[trigger] kept[i]).0 != owner by {
        rows.lemma_filter_pred(pred, i);
    }
    assert forall|other: i64| other != owner implies #[trigger] links_of(kept, other) == links_of(
        rows,
        other,
    ) by {
        assert forall|t: i64| kept.contains((other, t)) <==> rows.contains((other, t)) by {
            if kept.contains((other, t)) {
                rows.lemma_filter_contains_rev(pred, (other, t));
            }
            if rows.contains((other, t)) {
                let i = choose|i: int| 0 <= i < rows.len() && rows[i] == (other, t);
                rows.lemma_filter_contains(pred, i);
            }
        }
        assert(links_of(kept, other) =~= links_of(rows, other));
    }
}

/// A system that was just added is not in use.
pub proof fn lemma_new_system_not_in_use(v: CatalogView, id: i64, name: String)
    requires
        v.integrity(),
        !has_id(v.systems, id),
    ensures
        !(CatalogView {
            systems: v.systems.push(System { id, name }),
            next_system_id: (id + 1) as i64,
            ..v
        }).system_in_use(id),
{
    assert forall|i: int| 0 <= i < v.release_systems.len() implies (
    #[trigger] v.release_systems[i]).1 != id by {
        assert(has_id(v.systems, v.release_systems[i].1));
    }
    assert forall|i: int| 0 <= i < v.emulator_systems.len() implies (
    #[trigger] v.emulator_systems[i]).system_id != id by {
        assert(has_id(v.systems, v.emulator_systems[i].system_id));
    }
}

/// A system is in use once a release links to it, and once an emulator
/// links to it.
pub proof fn lemma_linked_system_in_use(
    v: CatalogView,
    release_id: i64,
    emulator_id: i64,
    system_id: i64,
    arguments: String,
)
    ensures
        (CatalogView {
            release_systems: v.release_systems.push((release_id, system_id)),
            ..v
        }).system_in_use(system_id),
        (CatalogView {
            emulator_systems: v.emulator_systems.push(
                EmulatorSystem { emulator_id, system_id, arguments },
            ),
            ..v
        }).system_in_use(system_id),
{
    let a = CatalogView { release_systems: v.release_systems.push((release_id, system_id)), ..v };
    assert(a.release_systems[v.release_systems.len() as int].1 == system_id);
    let b = CatalogView {
        emulator_systems: v.emulator_systems.push(EmulatorSystem { emulator_id, system_id, arguments }),
        ..v
    };
    assert(b.emulator_systems[v.emulator_systems.len() as int].system_id == system_id);
}

/// A system is out of use again once every link to it, from releases and
/// from emulators, has been removed.
pub proof fn lemma_unlinked_system_not_in_use(v: CatalogView, system_id: i64)
    ensures
        !(CatalogView {
            release_systems: v.release_systems.filter(|r: (i64, i64)| r.1 != system_id),
            emulator_systems: v.emulator_systems.filter(
                |e: EmulatorSystem| e.system_id != system_id,
            ),
            ..v
        }).system_in_use(system_id),
{
    let rp = |r: (i64, i64)| r.1 != system_id;
    let ep = |e: EmulatorSystem| e.system_id != system_id;
    let rs = v.release_systems.filter(rp);
    let es = v.emulator_systems.filter(ep);
    assert forall|i: int| 0 <= i < rs.len() implies (#[trigger] rs[i]).1 != system_id by {
        v.release_systems.lemma_filter_pred(rp, i);
    }
    assert forall|i: int| 0 <= i < es.len() implies (#[trigger] es[i]).system_id != system_id by {
        v.emulator_systems.lemma_filter_pred(ep, i);
    }
}

/// After `add_release_full`, the new release carries the given name, and
/// its links are exactly the given software titles, file sets and systems;
/// no other release's links change.
pub proof fn lemma_added_release_links(
    v: CatalogView,
    id: i64,
    name: String,
    software_title_ids: Seq<i64>,
    file_set_ids: Seq<i64>,
    system_ids: Seq<i64>,
)
    requires
        v.integrity(),
        !has_id(v.releases, id),
    ensures
        ({
            let w = CatalogView {
                releases: v.releases.push(Release { id, name }),
                release_software_titles: v.release_software_titles + link_rows(
                    id,
                    software_title_ids,
                ),
                release_file_sets: v.release_file_sets + link_rows(id, file_set_ids),
                release_systems: v.release_systems + link_rows(id, system_ids),
                next_release_id: (id + 1) as i64,
                ..v
            };
            &&& w.releases.contains(Release { id, name })
            &&& links_of(w.release_software_titles, id) == software_title_ids.to_set()
            &&& links_of(w.release_file_sets, id) == file_set_ids.to_set()
            &&& links_of(w.release_systems, id) == system_ids.to_set()
            &&& forall|other: i64|
                other != id ==> links_of(w.release_systems, other) == links_of(
                    v.release_systems,
                    other,
                ) && links_of(w.release_file_sets, other) == links_of(v.release_file_sets, other)
                    && links_of(w.release_software_titles, other) == links_of(
                    v.release_software_titles,
                    other,
                )
        }),
{
    assert(v.releases.push(Release { id, name })[v.releases.len() as int] == Release { id, name });
    assert forall|i: int| 0 <= i < v.release_systems.len() implies (
    #[trigger] v.release_systems[i]).0 != id by {
        assert(has_id(v.releases, v.release_systems[i].0));
    }
    assert forall|i: int| 0 <= i < v.release_file_sets.len() implies (
    #[trigger] v.release_file_sets[i]).0 != id by {
        assert(has_id(v.releases, v.release_file_sets[i].0));
    }
    assert forall|i: int| 0 <= i < v.release_software_titles.len() implies (
    #[trigger] v.release_software_titles[i]).0 != id by {
        assert(has_id(v.releases, v.release_software_titles[i].0));
    }
    lemma_links_of_append(v.release_systems, id, system_ids);
    lemma_links_of_append(v.release_file_sets, id, file_set_ids);
    lemma_links_of_append(v.release_software_titles, id, software_title_ids);
}

/// After `update_release_full`, the release's links are exactly the new
/// ones, with nothing left over from the old ones; no other release's links
/// change.
pub proof fn lemma_updated_release_links(
    v: CatalogView,
    id: i64,
    software_title_ids: Seq<i64>,
    file_set_ids: Seq<i64>,
    system_ids: Seq<i64>,
)
    ensures
        links_of(without_links(v.release_software_titles, id, None) + link_rows(id, software_title_ids), id)
            == software_title_ids.to_set(),
        links_of(without_links(v.release_file_sets, id, None) + link_rows(id, file_set_ids), id)
            == file_set_ids.to_set(),
        links_of(without_links(v.release_systems, id, None) + link_rows(id, system_ids), id)
            == system_ids.to_set(),
        forall|other: i64|
            other != id ==> #[trigger] links_of(
                without_links(v.release_systems, id, None) + link_rows(id, system_ids),
                other,
            ) == links_of(v.release_systems, other),
{
    lemma_without_links(v.release_systems, id);
    lemma_without_links(v.release_file_sets, id);
    lemma_without_links(v.release_software_titles, id);
    lemma_links_of_append(without_links(v.release_systems, id, None), id, system_ids);
    lemma_links_of_append(without_links(v.release_file_sets, id, None), id, file_set_ids);
    lemma_links_of_append(
        without_links(v.release_software_titles, id, None),
        id,
        software_title_ids,
    );
}

/// A failed `add_release_full` leaves the catalog as it was, and in such a
/// catalog the identifier that the attempt would have taken names no
/// release and no link row.
pub proof fn lemma_no_rows_for_unissued_release(v: CatalogView)
    requires
        v.integrity(),
        ids_ok(v.releases, v.next_release_id),
    ensures
        !has_id(v.releases, v.next_release_id),
        links_of(v.release_systems, v.next_release_id) == Set::<i64>::empty(),
        links_of(v.release_file_sets, v.next_release_id) == Set::<i64>::empty(),
        links_of(v.release_software_titles, v.next_release_id) == Set::<i64>::empty(),
{
    let id = v.next_release_id;
    assert forall|t: i64| !v.release_systems.contains((id, t)) by {
        if v.release_systems.contains((id, t)) {
            let i = choose|i: int| 0 <= i < v.release_systems.len() && v.release_systems[i] == (id, t);
            assert(has_id(v.releases, v.release_systems[i].0));
        }
    }
    assert forall|t: i64| !v.release_file_sets.contains((id, t)) by {
        if v.release_file_sets.contains((id, t)) {
            let i = choose|i: int| 0 <= i < v.release_file_sets.len() && v.release_file_sets[i] == (id, t);
            assert(has_id(v.releases, v.release_file_sets[i].0));
        }
    }
    assert forall|t: i64| !v.release_software_titles.contains((id, t)) by {
        if v.release_software_titles.contains((id, t)) {
            let i = choose|i: int|
                0 <= i < v.release_software_titles.len() && v.release_software_titles[i] == (id, t);
            assert(has_id(v.releases, v.release_software_titles[i].0));
        }
    }
    assert(links_of(v.release_systems, id) =~= Set::<i64>::empty());
    assert(links_of(v.release_file_sets, id) =~= Set::<i64>::empty());
    assert(links_of(v.release_software_titles, id) =~= Set::<i64>::empty());
}

} // verus!
