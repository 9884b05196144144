use vstd::prelude::*;

use crate::error::ScriptError;

verus! {

/// What the state document records for one contract: the instance address
/// once `instantiate` has run, and the code id once `upload` has run.
#[derive(Debug, Clone, PartialEq, Eq)]
pub struct ContractRecord {
    pub addr: Option<String>,
    pub code_id: Option<u64>,
}

/// Mathematical model of a [`ContractRecord`].
pub struct RecordModel {
    pub addr: Option<Seq<char>>,
    pub code_id: Option<u64>,
}

impl View for ContractRecord {
    type V = RecordModel;

    open spec fn view(&self) -> RecordModel {
        RecordModel {
            addr: match self.addr {
                Some(a) => Some(a@),
                None => None,
            },
            code_id: self.code_id,
        }
    }
}

/// One leaf of the state document: the record for contract `name` within
/// group `group`.
#[derive(Debug, Clone, PartialEq, Eq)]
pub struct StateEntry {
    pub group: String,
    pub name: String,
    pub record: ContractRecord,
}

/// Mathematical model of a [`StateEntry`].
pub struct EntryModel {
    pub group: Seq<char>,
    pub name: Seq<char>,
    pub record: RecordModel,
}

impl View for StateEntry {
    type V = EntryModel;

    open spec fn view(&self) -> EntryModel {
        EntryModel { group: self.group@, name: self.name@, record: self.record@ }
    }
}

/// The persisted state document: a mapping from (group, contract name) to a
/// [`ContractRecord`]. Every mutation patches exactly one leaf and leaves
/// every sibling untouched; persistence to disk is the caller's business and
/// always rewrites the whole document.
#[derive(Debug, Clone, PartialEq, Eq)]
pub struct StateDoc {
    pub entries: Vec<StateEntry>,
}

impl View for StateDoc {
    type V = Seq<EntryModel>;

    open spec fn view(&self) -> Seq<EntryModel> {
        self.entries@.map_values(|e: StateEntry| e@)
    }
}

/// Whether entry `e` is the leaf for (`group`, `name`).
pub open spec fn entry_matches(e: EntryModel, group: Seq<char>, name: Seq<char>) -> bool {
    e.group == group && e.name == name
}

/// Whether two entries occupy the same (group, name) leaf.
pub open spec fn same_key(a: EntryModel, b: EntryModel) -> bool {
    a.group == b.group && a.name == b.name
}

/// The document holds at most one leaf per (group, name) pair.
pub open spec fn distinct_keys(d: Seq<EntryModel>) -> bool {
    forall|i: int, j: int|
        0 <= i < d.len() && 0 <= j < d.len() && i != j ==> !(#[trigger] same_key(d[i], d[j]))
}

/// Whether the document holds a leaf for (`group`, `name`).
pub open spec fn has_entry(d: Seq<EntryModel>, group: Seq<char>, name: Seq<char>) -> bool {
    exists|i: int| 0 <= i < d.len() && #[trigger] entry_matches(d[i], group, name)
}

/// The index of the leaf for (`group`, `name`); meaningful when `has_entry`
/// holds and the keys are distinct.
pub open spec fn entry_index(d: Seq<EntryModel>, group: Seq<char>, name: Seq<char>) -> int {
    choose|i: int| 0 <= i < d.len() && #[trigger] entry_matches(d[i], group, name)
}

/// The record for (`group`, `name`), if the document holds that leaf.
pub open spec fn lookup(d: Seq<EntryModel>, group: Seq<char>, name: Seq<char>) -> Option<
    RecordModel,
> {
    if has_entry(d, group, name) {
        Some(d[entry_index(d, group, name)].record)
    } else {
        None
    }
}

/// The recorded address for (`group`, `name`), if any.
pub open spec fn addr_of(d: Seq<EntryModel>, group: Seq<char>, name: Seq<char>) -> Option<
    Seq<char>,
> {
    match lookup(d, group, name) {
        Some(r) => r.addr,
        None => None,
    }
}

/// The recorded code id for (`group`, `name`), if any.
pub open spec fn code_id_of(d: Seq<EntryModel>, group: Seq<char>, name: Seq<char>) -> Option<
    u64,
> {
    match lookup(d, group, name) {
        Some(r) => r.code_id,
        None => None,
    }
}

/// A record with neither address nor code id: the scaffold inserted on the
/// first touch of a (group, name) pair.
pub open spec fn empty_record() -> RecordModel {
    RecordModel { addr: None, code_id: None }
}

/// `r` with its address replaced.
pub open spec fn with_addr(r: RecordModel, addr: Seq<char>) -> RecordModel {
    RecordModel { addr: Some(addr), code_id: r.code_id }
}

/// `r` with its code id replaced.
pub open spec fn with_code_id(r: RecordModel, code_id: u64) -> RecordModel {
    RecordModel { addr: r.addr, code_id: Some(code_id) }
}

/// The document after `ensure_scaffold(group, name)`: unchanged when the
/// leaf exists, extended by an empty record otherwise.
pub open spec fn scaffold_spec(d: Seq<EntryModel>, group: Seq<char>, name: Seq<char>) -> Seq<
    EntryModel,
> {
    if has_entry(d, group, name) {
        d
    } else {
        d.push(EntryModel { group, name, record: empty_record() })
    }
}

/// The document after `set_addr(group, name, addr)`: the one leaf patched,
/// or created with only the address set.
pub open spec fn set_addr_spec(
    d: Seq<EntryModel>,
    group: Seq<char>,
    name: Seq<char>,
    addr: Seq<char>,
) -> Seq<EntryModel> {
    if has_entry(d, group, name) {
        let i = entry_index(d, group, name);
        d.update(i, EntryModel { group, name, record: with_addr(d[i].record, addr) })
    } else {
        d.push(EntryModel { group, name, record: with_addr(empty_record(), addr) })
    }
}

/// The document after `set_code_id(group, name, code_id)`: the one leaf
/// patched, or created with only the code id set.
pub open spec fn set_code_id_spec(
    d: Seq<EntryModel>,
    group: Seq<char>,
    name: Seq<char>,
    code_id: u64,
) -> Seq<EntryModel> {
    if has_entry(d, group, name) {
        let i = entry_index(d, group, name);
        d.update(i, EntryModel { group, name, record: with_code_id(d[i].record, code_id) })
    } else {
        d.push(EntryModel { group, name, record: with_code_id(empty_record(), code_id) })
    }
}

/// With distinct keys, a matching index is the `entry_index`.
pub proof fn lemma_index_unique(d: Seq<EntryModel>, group: Seq<char>, name: Seq<char>, i: int)
    requires
        distinct_keys(d),
        0 <= i < d.len(),
        entry_matches(d[i], group, name),
    ensures
        has_entry(d, group, name),
        entry_index(d, group, name) == i,
{
    assert(has_entry(d, group, name));
    let k = entry_index(d, group, name);
    assert(0 <= k < d.len() && entry_matches(d[k], group, name));
    if k != i {
        assert(same_key(d[i], d[k]));
    }
}

impl StateDoc {
    /// The document never holds two leaves for the same (group, name) pair.
    pub open spec fn well_formed(&self) -> bool {
        distinct_keys(self@)
    }

    /// An empty state document.
    pub fn new() -> (r: StateDoc)
        ensures
            r@ == Seq::<EntryModel>::empty(),
            r.well_formed(),
    {
        let r = StateDoc { entries: Vec::new() };
        proof {
            assert(r@ =~= Seq::<EntryModel>::empty());
        }
        r
    }

    /// The position of the leaf for (`group`, `name`), if present.
    fn find_entry(&self, group: &String, name: &String) -> (r: Option<usize>)
        ensures
            match r {
                Some(i) => 0 <= i < self@.len() && entry_matches(self@[i as int], group@, name@),
                None => !has_entry(self@, group@, name@),
            },
    {
        let mut i: usize = 0;
        while i < self.entries.len()
            invariant
                i <= self.entries.len(),
                self@.len() == self.entries@.len(),
                forall|j: int| 0 <= j < i ==> !(#[trigger] entry_matches(self@[j], group@, name@)),
            decreases self.entries.len() - i,
        {
            let e = &self.entries[i];
            if e.group == *group && e.name == *name {
                return Some(i);
            }
            i += 1;
        }
        None
    }

    /// The recorded address for (`group`, `name`); `NotFound` when the leaf
    /// or the field is absent. Callers must not build a transaction against
    /// a contract without it.
    pub fn get_addr(&self, group: &String, name: &String) -> (r: Result<String, ScriptError>)
        requires
            self.well_formed(),
        ensures
            match addr_of(self@, group@, name@) {
                Some(a) => r matches Ok(s) && s@ == a,
                None => r matches Err(e) && e == ScriptError::NotFound,
            },
    {
        match self.find_entry(group, name) {
            Some(i) => {
                proof {
                    lemma_index_unique(self@, group@, name@, i as int);
                }
                match &self.entries[i].record.addr {
                    Some(a) => Ok(a.clone()),
                    None => Err(ScriptError::NotFound),
                }
            },
            None => Err(ScriptError::NotFound),
        }
    }

    /// The recorded code id for (`group`, `name`); `NotFound` when the leaf
    /// or the field is absent.
    pub fn get_code_id(&self, group: &String, name: &String) -> (r: Result<u64, ScriptError>)
        requires
            self.well_formed(),
        ensures
            match code_id_of(self@, group@, name@) {
                Some(id) => r matches Ok(got) && got == id,
                None => r matches Err(e) && e == ScriptError::NotFound,
            },
    {
        match self.find_entry(group, name) {
            Some(i) => {
                proof {
                    lemma_index_unique(self@, group@, name@, i as int);
                }
                match self.entries[i].record.code_id {
                    Some(id) => Ok(id),
                    None => Err(ScriptError::NotFound),
                }
            },
            None => Err(ScriptError::NotFound),
        }
    }

    /// Insert an empty record for (`group`, `name`) if the leaf is absent;
    /// otherwise leave the document exactly as it is. Idempotent.
    pub fn ensure_scaffold(&mut self, group: &String, name: &String)
        requires
            old(self).well_formed(),
        ensures
            final(self)@ == scaffold_spec(old(self)@, group@, name@),
            final(self).well_formed(),
    {
        match self.find_entry(group, name) {
            Some(_i) => {},
            None => {
                let entry = StateEntry {
                    group: group.clone(),
                    name: name.clone(),
                    record: ContractRecord { addr: None, code_id: None },
                };
                proof {
                    assert(entry@ == EntryModel {
                        group: group@,
                        name: name@,
                        record: empty_record(),
                    });
                }
                self.entries.push(entry);
                proof {
                    assert(self@ =~= scaffold_spec(old(self)@, group@, name@));
                    assert forall|i: int, j: int|
                        0 <= i < self@.len() && 0 <= j < self@.len() && i != j implies !(
                    #[trigger] same_key(self@[i], self@[j])) by {
                        let d = old(self)@;
                        if i < d.len() && j < d.len() {
                            assert(!same_key(d[i], d[j]));
                        } else if i < d.len() {
                            assert(!entry_matches(d[i], group@, name@));
                        } else {
                            assert(!entry_matches(d[j], group@, name@));
                        }
                    }
                }
            },
        }
    }

    /// Record `addr` as the address of (`group`, `name`), creating the leaf
    /// if absent. No other leaf changes.
    pub fn set_addr(&mut self, group: &String, name: &String, addr: String)
        requires
            old(self).well_formed(),
        ensures
            final(self)@ == set_addr_spec(old(self)@, group@, name@, addr@),
            final(self).well_formed(),
    {
        match self.find_entry(group, name) {
            Some(i) => {
                proof {
                    lemma_index_unique(old(self)@, group@, name@, i as int);
                }
                let e = &mut self.entries[i];
                e.record.addr = Some(addr);
                e.group = group.clone();
                e.name = name.clone();
                proof {
                    assert(self@ =~= set_addr_spec(old(self)@, group@, name@, addr@));
                    Self::lemma_patch_keeps_distinct(old(self)@, self@);
                }
            },
            None => {
                let entry = StateEntry {
                    group: group.clone(),
                    name: name.clone(),
                    record: ContractRecord { addr: Some(addr), code_id: None },
                };
                self.entries.push(entry);
                proof {
                    assert(self@ =~= set_addr_spec(old(self)@, group@, name@, addr@));
                    Self::lemma_push_keeps_distinct(old(self)@, self@, group@, name@);
                }
            },
        }
    }

    /// Record `code_id` as the code id of (`group`, `name`), creating the
    /// leaf if absent. No other leaf changes.
    pub fn set_code_id(&mut self, group: &String, name: &String, code_id: u64)
        requires
            old(self).well_formed(),
        ensures
            final(self)@ == set_code_id_spec(old(self)@, group@, name@, code_id),
            final(self).well_formed(),
    {
        match self.find_entry(group, name) {
            Some(i) => {
                proof {
                    lemma_index_unique(old(self)@, group@, name@, i as int);
                }
                let e = &mut self.entries[i];
                e.record.code_id = Some(code_id);
                e.group = group.clone();
                e.name = name.clone();
                proof {
                    assert(self@ =~= set_code_id_spec(old(self)@, group@, name@, code_id));
                    Self::lemma_patch_keeps_distinct(old(self)@, self@);
                }
            },
            None => {
                let entry = StateEntry {
                    group: group.clone(),
                    name: name.clone(),
                    record: ContractRecord { addr: None, code_id: Some(code_id) },
                };
                self.entries.push(entry);
                proof {
                    assert(self@ =~= set_code_id_spec(old(self)@, group@, name@, code_id));
                    Self::lemma_push_keeps_distinct(old(self)@, self@, group@, name@);
                }
            },
        }
    }

    /// A document whose keys agree pointwise with a distinct-keyed one has
    /// distinct keys too.
    proof fn lemma_patch_keeps_distinct(d: Seq<EntryModel>, d2: Seq<EntryModel>)
        requires
            distinct_keys(d),
            d2.len() == d.len(),
            forall|i: int|
                0 <= i < d.len() ==> #[trigger] d2[i].group == d[i].group && d2[i].name
                    == d[i].name,
        ensures
            distinct_keys(d2),
    {
        assert forall|i: int, j: int|
            0 <= i < d2.len() && 0 <= j < d2.len() && i != j implies !(#[trigger] same_key(
            d2[i],
            d2[j],
        )) by {
            assert(!same_key(d[i], d[j]));
        }
    }

    /// Appending a key that the document does not hold keeps the keys
    /// distinct.
    proof fn lemma_push_keeps_distinct(
        d: Seq<EntryModel>,
        d2: Seq<EntryModel>,
        group: Seq<char>,
        name: Seq<char>,
    )
        requires
            distinct_keys(d),
            !has_entry(d, group, name),
            d2.len() == d.len() + 1,
            forall|i: int| 0 <= i < d.len() ==> d2[i] == d[i],
            entry_matches(d2[d.len() as int], group, name),
        ensures
            distinct_keys(d2),
    {
        assert forall|i: int, j: int|
            0 <= i < d2.len() && 0 <= j < d2.len() && i != j implies !(#[trigger] same_key(
            d2[i],
            d2[j],
        )) by {
            if i < d.len() && j < d.len() {
                assert(!same_key(d[i], d[j]));
            } else if i < d.len() {
                assert(!entry_matches(d[i], group, name));
            } else {
                assert(!entry_matches(d[j], group, name));
            }
        }
    }
}

/// Scaffolding the same leaf twice produces the same document as
/// scaffolding it once.
pub proof fn lemma_scaffold_idempotent(d: Seq<EntryModel>, group: Seq<char>, name: Seq<char>)
    ensures
        scaffold_spec(scaffold_spec(d, group, name), group, name) == scaffold_spec(
            d,
            group,
            name,
        ),
{
    let d1 = scaffold_spec(d, group, name);
    if has_entry(d, group, name) {
        assert(d1 == d);
    } else {
        assert(entry_matches(d1[d.len() as int], group, name));
        assert(has_entry(d1, group, name));
    }
}

/// After scaffolding, the leaf for (`group`, `name`) exists.
pub proof fn lemma_scaffold_creates(d: Seq<EntryModel>, group: Seq<char>, name: Seq<char>)
    ensures
        has_entry(scaffold_spec(d, group, name), group, name),
{
    let d1 = scaffold_spec(d, group, name);
    if !has_entry(d, group, name) {
        assert(entry_matches(d1[d.len() as int], group, name));
    }
}

/// Recording an address makes `addr_of` return exactly it, and leaves the
/// code id of that leaf as it was.
pub proof fn lemma_set_addr_lookup(
    d: Seq<EntryModel>,
    group: Seq<char>,
    name: Seq<char>,
    addr: Seq<char>,
)
    requires
        distinct_keys(d),
    ensures
        addr_of(set_addr_spec(d, group, name, addr), group, name) == Some(addr),
        code_id_of(set_addr_spec(d, group, name, addr), group, name) == code_id_of(
            d,
            group,
            name,
        ),
{
    let d2 = set_addr_spec(d, group, name, addr);
    if has_entry(d, group, name) {
        let i = entry_index(d, group, name);
        assert(0 <= i < d.len() && entry_matches(d[i], group, name));
        StateDoc::lemma_patch_keeps_distinct(d, d2);
        lemma_index_unique(d2, group, name, i);
    } else {
        let i = d.len() as int;
        assert(entry_matches(d2[i], group, name));
        StateDoc::lemma_push_keeps_distinct(d, d2, group, name);
        lemma_index_unique(d2, group, name, i);
    }
}

/// Recording a code id makes `code_id_of` return exactly it, and leaves the
/// address of that leaf as it was.
pub proof fn lemma_set_code_id_lookup(
    d: Seq<EntryModel>,
    group: Seq<char>,
    name: Seq<char>,
    code_id: u64,
)
    requires
        distinct_keys(d),
    ensures
        code_id_of(set_code_id_spec(d, group, name, code_id), group, name) == Some(code_id),
        addr_of(set_code_id_spec(d, group, name, code_id), group, name) == addr_of(
            d,
            group,
            name,
        ),
{
    let d2 = set_code_id_spec(d, group, name, code_id);
    if has_entry(d, group, name) {
        let i = entry_index(d, group, name);
        assert(0 <= i < d.len() && entry_matches(d[i], group, name));
        StateDoc::lemma_patch_keeps_distinct(d, d2);
        lemma_index_unique(d2, group, name, i);
    } else {
        let i = d.len() as int;
        assert(entry_matches(d2[i], group, name));
        StateDoc::lemma_push_keeps_distinct(d, d2, group, name);
        lemma_index_unique(d2, group, name, i);
    }
}

/// A mutation of the leaf for (`group`, `name`) does not alter the record
/// of any other leaf, in the same group or another.
pub proof fn lemma_set_addr_preserves_others(
    d: Seq<EntryModel>,
    group: Seq<char>,
    name: Seq<char>,
    addr: Seq<char>,
    g2: Seq<char>,
    n2: Seq<char>,
)
    requires
        distinct_keys(d),
        !(g2 == group && n2 == name),
    ensures
        lookup(set_addr_spec(d, group, name, addr), g2, n2) == lookup(d, g2, n2),
{
    lemma_mutation_preserves_others(d, set_addr_spec(d, group, name, addr), group, name, g2, n2);
}

/// As [`lemma_set_addr_preserves_others`], for `set_code_id`.
pub proof fn lemma_set_code_id_preserves_others(
    d: Seq<EntryModel>,
    group: Seq<char>,
    name: Seq<char>,
    code_id: u64,
    g2: Seq<char>,
    n2: Seq<char>,
)
    requires
        distinct_keys(d),
        !(g2 == group && n2 == name),
    ensures
        lookup(set_code_id_spec(d, group, name, code_id), g2, n2) == lookup(d, g2, n2),
{
    lemma_mutation_preserves_others(
        d,
        set_code_id_spec(d, group, name, code_id),
        group,
        name,
        g2,
        n2,
    );
}

/// As [`lemma_set_addr_preserves_others`], for `ensure_scaffold`.
pub proof fn lemma_scaffold_preserves_others(
    d: Seq<EntryModel>,
    group: Seq<char>,
    name: Seq<char>,
    g2: Seq<char>,
    n2: Seq<char>,
)
    requires
        distinct_keys(d),
        !(g2 == group && n2 == name),
    ensures
        lookup(scaffold_spec(d, group, name), g2, n2) == lookup(d, g2, n2),
{
    lemma_mutation_preserves_others(d, scaffold_spec(d, group, name), group, name, g2, n2);
}

/// The common shape of the three mutations: `d2` agrees with `d` except
/// possibly at the (`group`, `name`) leaf, so every other leaf reads the
/// same in both.
proof fn lemma_mutation_preserves_others(
    d: Seq<EntryModel>,
    d2: Seq<EntryModel>,
    group: Seq<char>,
    name: Seq<char>,
    g2: Seq<char>,
    n2: Seq<char>,
)
    requires
        distinct_keys(d),
        !(g2 == group && n2 == name),
        d2.len() == d.len() || d2.len() == d.len() + 1,
        forall|i: int|
            0 <= i < d.len() && !entry_matches(d[i], group, name) ==> #[trigger] d2[i] == d[i],
        forall|i: int|
            0 <= i < d.len() && entry_matches(d[i], group, name) ==> #[trigger] entry_matches(
                d2[i],
                group,
                name,
            ),
        d2.len() == d.len() + 1 ==> entry_matches(d2[d.len() as int], group, name),
    ensures
        lookup(d2, g2, n2) == lookup(d, g2, n2),
{
    if has_entry(d, g2, n2) {
        let i = entry_index(d, g2, n2);
        assert(0 <= i < d.len() && entry_matches(d[i], g2, n2));
        assert(!entry_matches(d[i], group, name));
        assert(d2[i] == d[i]);
        assert(entry_matches(d2[i], g2, n2));
        assert(has_entry(d2, g2, n2));
        let k = entry_index(d2, g2, n2);
        assert(0 <= k < d2.len() && entry_matches(d2[k], g2, n2));
        if k != i {
            // k cannot be the appended or patched (group, name) leaf
            if k < d.len() {
                if entry_matches(d[k], group, name) {
                    assert(entry_matches(d2[k], group, name));
                    assert(false);
                } else {
                    assert(d2[k] == d[k]);
                    assert(same_key(d[i], d[k]));
                    assert(false);
                }
            } else {
                assert(entry_matches(d2[k], group, name));
                assert(false);
            }
        }
    } else {
        if has_entry(d2, g2, n2) {
            let k = entry_index(d2, g2, n2);
            assert(0 <= k < d2.len() && entry_matches(d2[k], g2, n2));
            if k < d.len() {
                if entry_matches(d[k], group, name) {
                    assert(entry_matches(d2[k], group, name));
                    assert(false);
                } else {
                    assert(d2[k] == d[k]);
                    assert(entry_matches(d[k], g2, n2));
                    assert(false);
                }
            } else {
                assert(entry_matches(d2[k], group, name));
                assert(false);
            }
        }
    }
}

} // verus!
