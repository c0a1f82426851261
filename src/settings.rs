use vstd::prelude::*;

use crate::error::DatabaseError;

verus! {

/// One row of the settings table.
pub struct Setting {
    pub key: String,
    pub value: String,
}

/// Some row of `rows` has the key `key`.
pub open spec fn has_key(rows: Seq<Setting>, key: Seq<char>) -> bool {
    exists|i: int| 0 <= i < rows.len() && (#[trigger] rows[i]).key@ == key
}

/// No two rows share a key.
pub open spec fn keys_unique(rows: Seq<Setting>) -> bool {
    forall|i: int, j: int|
        0 <= i < rows.len() && 0 <= j < rows.len() && i != j ==> (#[trigger] rows[i]).key@
            != (#[trigger] rows[j]).key@
}

/// The value stored under `key`, when some row has that key.
pub open spec fn value_of(rows: Seq<Setting>, key: Seq<char>) -> Seq<char> {
    rows[choose|i: int| 0 <= i < rows.len() && (#[trigger] rows[i]).key@ == key].value@
}

/// The key/value mapping that a table of rows stands for.
pub open spec fn settings_map(rows: Seq<Setting>) -> Map<Seq<char>, Seq<char>> {
    Map::new(|k: Seq<char>| has_key(rows, k), |k: Seq<char>| value_of(rows, k))
}

proof fn lemma_value_at(rows: Seq<Setting>, i: int)
    requires
        keys_unique(rows),
        0 <= i < rows.len(),
    ensures
        has_key(rows, rows[i].key@),
        value_of(rows, rows[i].key@) == rows[i].value@,
{
    let k = rows[i].key@;
    assert(rows[i].key@ == k);
    let j = choose|j: int| 0 <= j < rows.len() && (#[trigger] rows[j]).key@ == k;
    assert(j == i);
}

/// Two tables whose rows agree position by position stand for one mapping.
proof fn lemma_same_map(a: Seq<Setting>, b: Seq<Setting>)
    requires
        keys_unique(a),
        a.len() == b.len(),
        forall|i: int|
            0 <= i < a.len() ==> (#[trigger] b[i]).key@ == a[i].key@ && b[i].value@ == a[i].value@,
    ensures
        keys_unique(b),
        settings_map(a) == settings_map(b),
{
    assert forall|i: int, j: int|
        0 <= i < b.len() && 0 <= j < b.len() && i != j implies (#[trigger] b[i]).key@
        != (#[trigger] b[j]).key@ by {
        assert(a[i].key@ != a[j].key@);
    }
    assert forall|k: Seq<char>| has_key(a, k) implies has_key(b, k) && value_of(a, k) == value_of(
        b,
        k,
    ) by {
        let i = choose|i: int| 0 <= i < a.len() && (#[trigger] a[i]).key@ == k;
        lemma_value_at(a, i);
        assert(b[i].key@ == k);
        lemma_value_at(b, i);
    }
    assert forall|k: Seq<char>| has_key(b, k) implies has_key(a, k) by {
        let j = choose|j: int| 0 <= j < b.len() && (#[trigger] b[j]).key@ == k;
        assert(a[j].key@ == k);
    }
    assert(settings_map(a) =~= settings_map(b));
}

/// Appending a row with a new key adds that key to the mapping.
proof fn lemma_push(before: Seq<Setting>, s: Setting)
    requires
        keys_unique(before),
        !has_key(before, s.key@),
    ensures
        keys_unique(before.push(s)),
        settings_map(before.push(s)) == settings_map(before).insert(s.key@, s.value@),
{
    let after = before.push(s);
    let n = before.len() as int;
    assert forall|i: int, j: int|
        0 <= i < after.len() && 0 <= j < after.len() && i != j implies (#[trigger] after[i]).key@
        != (#[trigger] after[j]).key@ by {
        if i < n && j < n {
            assert(after[i] == before[i] && after[j] == before[j]);
        } else if i < n {
            assert(after[i] == before[i]);
        } else {
            assert(after[j] == before[j]);
        }
    }
    let m = settings_map(before).insert(s.key@, s.value@);
    assert forall|q: Seq<char>| #[trigger] settings_map(after).contains_key(q) == m.contains_key(q) by {
        if has_key(before, q) {
            let i = choose|i: int| 0 <= i < before.len() && (#[trigger] before[i]).key@ == q;
            assert(after[i] == before[i]);
        }
        if has_key(after, q) {
            let i = choose|i: int| 0 <= i < after.len() && (#[trigger] after[i]).key@ == q;
            if i < n {
                assert(after[i] == before[i]);
            }
        }
        if q == s.key@ {
            assert(after[n] == s);
        }
    }
    assert forall|q: Seq<char>| settings_map(after).contains_key(q) implies #[trigger] settings_map(
        after,
    )[q] == m[q] by {
        let i = choose|i: int| 0 <= i < after.len() && (#[trigger] after[i]).key@ == q;
        lemma_value_at(after, i);
        if i < n {
            assert(after[i] == before[i]);
            lemma_value_at(before, i);
        }
    }
    assert(settings_map(after) =~= m);
}

/// Replacing a row by one with the same key sets that key's value.
proof fn lemma_set(before: Seq<Setting>, n: int, s: Setting)
    requires
        keys_unique(before),
        0 <= n < before.len(),
        before[n].key@ == s.key@,
    ensures
        keys_unique(before.update(n, s)),
        settings_map(before.update(n, s)) == settings_map(before).insert(s.key@, s.value@),
{
    let after = before.update(n, s);
    assert forall|i: int, j: int|
        0 <= i < after.len() && 0 <= j < after.len() && i != j implies (#[trigger] after[i]).key@
        != (#[trigger] after[j]).key@ by {
        assert(after[i].key@ == before[i].key@);
        assert(after[j].key@ == before[j].key@);
    }
    let m = settings_map(before).insert(s.key@, s.value@);
    assert forall|q: Seq<char>| #[trigger] settings_map(after).contains_key(q) == m.contains_key(q) by {
        if has_key(before, q) {
            let i = choose|i: int| 0 <= i < before.len() && (#[trigger] before[i]).key@ == q;
            assert(after[i].key@ == before[i].key@);
        }
        if has_key(after, q) {
            let i = choose|i: int| 0 <= i < after.len() && (#[trigger] after[i]).key@ == q;
            assert(after[i].key@ == before[i].key@);
        }
        if q == s.key@ {
            assert(after[n] == s);
        }
    }
    assert forall|q: Seq<char>| settings_map(after).contains_key(q) implies #[trigger] settings_map(
        after,
    )[q] == m[q] by {
        let i = choose|i: int| 0 <= i < after.len() && (#[trigger] after[i]).key@ == q;
        lemma_value_at(after, i);
        if i != n {
            assert(after[i] == before[i]);
            lemma_value_at(before, i);
        }
    }
    assert(settings_map(after) =~= m);
}

/// The settings store: a mapping from setting keys to values.
pub struct SettingRepository {
    rows: Vec<Setting>,
}

impl View for SettingRepository {
    type V = Map<Seq<char>, Seq<char>>;

    closed spec fn view(&self) -> Map<Seq<char>, Seq<char>> {
        settings_map(self.rows@)
    }
}

impl SettingRepository {
    /// The store's rows have unique keys.
    pub closed spec fn wf(&self) -> bool {
        keys_unique(self.rows@)
    }

    /// An empty store.
    pub fn new() -> (r: Self)
        ensures
            r.wf(),
            r@ == Map::<Seq<char>, Seq<char>>::empty(),
    {
        let r = SettingRepository { rows: Vec::new() };
        assert(settings_map(r.rows@) =~= Map::<Seq<char>, Seq<char>>::empty());
        r
    }

    /// The index of the row whose key is `key`.
    fn find(&self, key: &String) -> (r: Option<usize>)
        requires
            self.wf(),
        ensures
            match r {
                Some(i) => i < self.rows@.len() && self.rows@[i as int].key@ == key@,
                None => !has_key(self.rows@, key@),
            },
    {
        let mut i: usize = 0;
        while i < self.rows.len()
            invariant
                i <= self.rows@.len(),
                forall|j: int| 0 <= j < i ==> (#[trigger] self.rows@[j]).key@ != key@,
            decreases self.rows@.len() - i,
        {
            if self.rows[i].key == *key {
                return Some(i);
            }
            i = i + 1;
        }
        None
    }

    /// Every row of the store, in the order in which they were added.
    pub fn get_settings(&self) -> (r: Vec<Setting>)
        requires
            self.wf(),
        ensures
            keys_unique(r@),
            settings_map(r@) == self@,
    {
        let mut out: Vec<Setting> = Vec::new();
        let mut i: usize = 0;
        while i < self.rows.len()
            invariant
                i <= self.rows@.len(),
                keys_unique(self.rows@),
                out@.len() == i,
                forall|j: int|
                    0 <= j < i ==> (#[trigger] out@[j]).key@ == self.rows@[j].key@ && out@[j].value@
                        == self.rows@[j].value@,
            decreases self.rows@.len() - i,
        {
            let row = Setting { key: self.rows[i].key.clone(), value: self.rows[i].value.clone() };
            out.push(row);
            i = i + 1;
        }
        proof {
            lemma_same_map(self.rows@, out@);
        }
        out
    }

    /// The value stored under `key`; `NotFound` when the key is absent.
    pub fn get_setting(&self, key: &str) -> (r: Result<String, DatabaseError>)
        requires
            self.wf(),
        ensures
            r is Ok <==> self@.contains_key(key@),
            r matches Ok(v) ==> v@ == self@[key@],
            r matches Err(e) ==> e == DatabaseError::NotFound,
    {
        let k = key.to_owned();
        match self.find(&k) {
            Some(i) => {
                proof {
                    lemma_value_at(self.rows@, i as int);
                }
                Ok(self.rows[i].value.clone())
            },
            None => Err(DatabaseError::NotFound),
        }
    }

    /// Adds the row `key = value`; `Conflict`, with the store unchanged, when
    /// the key is already present.
    pub fn add_setting(&mut self, key: &str, value: &str) -> (r: Result<(), DatabaseError>)
        requires
            old(self).wf(),
        ensures
            final(self).wf(),
            r is Ok <==> !old(self)@.contains_key(key@),
            r is Ok ==> final(self)@ == old(self)@.insert(key@, value@),
            r matches Err(e) ==> e == DatabaseError::Conflict && final(self)@ == old(self)@,
    {
        let k = key.to_owned();
        match self.find(&k) {
            Some(_) => Err(DatabaseError::Conflict),
            None => {
                let s = Setting { key: k, value: value.to_owned() };
                proof {
                    lemma_push(self.rows@, s);
                }
                self.rows.push(s);
                Ok(())
            },
        }
    }

    /// Sets the value under `key` when the key is present; an absent key
    /// leaves the store as it was, and that is no error.
    pub fn update_setting(&mut self, key: &str, value: &str) -> (r: Result<(), DatabaseError>)
        requires
            old(self).wf(),
        ensures
            final(self).wf(),
            r is Ok,
            old(self)@.contains_key(key@) ==> final(self)@ == old(self)@.insert(key@, value@),
            !old(self)@.contains_key(key@) ==> final(self)@ == old(self)@,
    {
        let k = key.to_owned();
        match self.find(&k) {
            Some(i) => {
                let s = Setting { key: k, value: value.to_owned() };
                proof {
                    lemma_set(self.rows@, i as int, s);
                }
                self.rows.set(i, s);
            },
            None => {},
        }
        Ok(())
    }

    /// Sets `key` to `value`, adding the key when it is absent.
    pub fn add_or_update_setting(&mut self, key: &str, value: &str) -> (r: Result<(), DatabaseError>)
        requires
            old(self).wf(),
        ensures
            final(self).wf(),
            r is Ok,
            final(self)@ == old(self)@.insert(key@, value@),
    {
        if self.get_setting(key).is_ok() {
            self.update_setting(key, value)
        } else {
            self.add_setting(key, value)
        }
    }

}

/// A key that was added reads back as the value added, and a second add of
/// that key finds it present (and so is refused).
pub proof fn lemma_added_setting_reads_back(
    before: Map<Seq<char>, Seq<char>>,
    key: Seq<char>,
    value: Seq<char>,
)
    requires
        !before.contains_key(key),
    ensures
        before.insert(key, value).contains_key(key),
        before.insert(key, value)[key] == value,
{
}

/// Writing a key twice with `add_or_update_setting` leaves the last value,
/// whether or not the key was there before, and touches no other key.
pub proof fn lemma_upsert_keeps_last_value(
    before: Map<Seq<char>, Seq<char>>,
    key: Seq<char>,
    first: Seq<char>,
    last: Seq<char>,
)
    ensures
        before.insert(key, first).insert(key, last) == before.insert(key, last),
        before.insert(key, last)[key] == last,
        before.insert(key, last).remove(key) == before.remove(key),
{
    assert(before.insert(key, first).insert(key, last) =~= before.insert(key, last));
    assert(before.insert(key, last).remove(key) =~= before.remove(key));
}

} // verus!
