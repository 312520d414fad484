//! The catalog of applications that the process scanner looks for.

use crate::json::{items_model, Json, JsonModel};
use vstd::prelude::*;
use vstd::string::*;

verus! {

/// An executable by which an application is recognized.
#[derive(Debug, Clone, Default, PartialEq, Eq)]
pub struct DetectableExecutable {
    pub name: String,
    pub is_launcher: bool,
}

/// An application of the catalog.
#[derive(Debug, Clone, Default, PartialEq, Eq)]
pub struct DetectableEntry {
    pub id: Option<String>,
    pub name: String,
    pub executables: Vec<DetectableExecutable>,
}

/// The catalog.
#[derive(Debug, Default)]
pub struct Detectables {
    pub inner: Vec<DetectableEntry>,
}

impl DetectableExecutable {
    /// A copy of the executable.
    pub fn copy(&self) -> (r: DetectableExecutable)
        ensures
            r == *self,
    {
        DetectableExecutable { name: self.name.clone(), is_launcher: self.is_launcher }
    }
}

impl DetectableEntry {
    /// A copy of the entry.
    pub fn copy(&self) -> (r: DetectableEntry)
        ensures
            r@ == self@,
    {
        let mut executables: Vec<DetectableExecutable> = Vec::new();
        let mut i: usize = 0;
        while i < self.executables.len()
            invariant
                i <= self.executables.len(),
                executables@ =~= self.executables@.take(i as int),
            decreases self.executables.len() - i,
        {
            executables.push(self.executables[i].copy());
            i += 1;
        }
        let id = match &self.id {
            Some(x) => Some(x.clone()),
            None => None,
        };
        assert(self.executables@.take(self.executables@.len() as int) =~= self.executables@);
        DetectableEntry { id, name: self.name.clone(), executables }
    }
}

impl Detectables {
    /// A catalog of the given entries.
    pub fn new(entries: Vec<DetectableEntry>) -> (r: Detectables)
        ensures
            r.inner == entries,
    {
        Detectables { inner: entries }
    }

    /// A copy of the entries, in their order.
    pub fn list(&self) -> (r: Vec<DetectableEntry>)
        ensures
            catalog_model(r@) == catalog_model(self.inner@),
    {
        let mut out: Vec<DetectableEntry> = Vec::new();
        let mut i: usize = 0;
        while i < self.inner.len()
            invariant
                i <= self.inner.len(),
                out@.len() == i,
                forall|j: int| 0 <= j < i ==> (#[trigger] out@[j])@ == self.inner@[j]@,
            decreases self.inner.len() - i,
        {
            out.push(self.inner[i].copy());
            i += 1;
        }
        assert(catalog_model(out@) =~= catalog_model(self.inner@));
        out
    }

    /// Puts new entries in the place of the old ones.
    pub fn replace(&mut self, entries: Vec<DetectableEntry>)
        ensures
            final(self).inner == entries,
    {
        self.inner = entries;
    }
}

/// Whether the catalog has to be fetched anew: when that is asked for, when
/// there is no stored copy, or when the stored copy is older than the given
/// number of hours.
pub fn needs_fetch(force_refresh: bool, stored_age_secs: Option<u64>, ttl_hours: u64) -> (r: bool)
    ensures
        r == (force_refresh || match stored_age_secs {
            None => true,
            Some(age) => age > ttl_hours * 3600,
        }),
{
    if force_refresh {
        return true;
    }
    match stored_age_secs {
        None => true,
        Some(age) => {
            // ttl_hours * 3600 may not fit 64 bits; the age then cannot exceed it.
            if ttl_hours > u64::MAX / 3600 {
                assert(ttl_hours * 3600 > u64::MAX) by (nonlinear_arith)
                    requires
                        ttl_hours > u64::MAX / 3600,
                ;
                false
            } else {
                assert(ttl_hours * 3600 <= u64::MAX) by (nonlinear_arith)
                    requires
                        ttl_hours <= u64::MAX / 3600,
                ;
                age > ttl_hours * 3600
            }
        },
    }
}


/// The mathematical value of an executable.
pub ghost struct ExecutableModel {
    pub name: Seq<char>,
    pub is_launcher: bool,
}

/// The mathematical value of an entry.
pub ghost struct EntryModel {
    pub id: Option<Seq<char>>,
    pub name: Seq<char>,
    pub executables: Seq<ExecutableModel>,
}

impl View for DetectableExecutable {
    type V = ExecutableModel;

    open spec fn view(&self) -> ExecutableModel {
        ExecutableModel { name: self.name@, is_launcher: self.is_launcher }
    }
}

/// The models of a list of executables, one by one.
pub open spec fn executables_model(v: Seq<DetectableExecutable>) -> Seq<ExecutableModel> {
    Seq::new(v.len(), |i: int| v[i]@)
}

impl View for DetectableEntry {
    type V = EntryModel;

    open spec fn view(&self) -> EntryModel {
        EntryModel {
            id: match self.id {
                Some(x) => Some(x@),
                None => None,
            },
            name: self.name@,
            executables: executables_model(self.executables@),
        }
    }
}

/// The models of a list of entries, one by one.
pub open spec fn catalog_model(v: Seq<DetectableEntry>) -> Seq<EntryModel> {
    Seq::new(v.len(), |i: int| v[i]@)
}

/// The executable that a JSON value spells: an object with a string `name`
/// and, where it is there, a truth value `is_launcher`.
pub open spec fn executable_of(m: JsonModel) -> Option<ExecutableModel> {
    match (m.get("name"@), m.get("is_launcher"@)) {
        (Some(JsonModel::Str(name)), None) => Some(ExecutableModel { name, is_launcher: false }),
        (Some(JsonModel::Str(name)), Some(JsonModel::Bool(is_launcher))) => Some(
            ExecutableModel { name, is_launcher },
        ),
        _ => None,
    }
}

/// The executables that a JSON array spells, if each item spells one.
pub open spec fn executables_of(m: JsonModel) -> Option<Seq<ExecutableModel>> {
    match m {
        JsonModel::Arr(a) => if forall|i: int| 0 <= i < a.len() ==> executable_of(#[trigger] a[i])
            is Some {
            Some(Seq::new(a.len(), |i: int| executable_of(a[i])->0))
        } else {
            None
        },
        _ => None,
    }
}

/// The entry that a JSON value spells: an object with a string `name`, an
/// `id` that is a string, null or missing, and `executables` that are an
/// array of executables or missing.
pub open spec fn entry_of(m: JsonModel) -> Option<EntryModel> {
    let id: Option<Option<Seq<char>>> = match m.get("id"@) {
        None => Some(None),
        Some(JsonModel::Null) => Some(None),
        Some(JsonModel::Str(s)) => Some(Some(s)),
        Some(_) => None,
    };
    let executables = match m.get("executables"@) {
        None => Some(Seq::empty()),
        Some(x) => executables_of(x),
    };
    match m.get("name"@) {
        Some(JsonModel::Str(name)) => if id is Some && executables is Some {
            Some(EntryModel { id: id->0, name, executables: executables->0 })
        } else {
            None
        },
        _ => None,
    }
}

impl DetectableExecutable {
    /// Reads an executable from its object.
    pub fn from_json(v: &Json) -> (r: Option<DetectableExecutable>)
        ensures
            match r {
                Some(e) => executable_of(v@) == Some(e@),
                None => executable_of(v@) is None,
            },
    {
        let name = match v.get("name") {
            Some(n) => match n.as_str() {
                Some(s) => s.to_owned(),
                None => {
                    return None;
                },
            },
            None => {
                return None;
            },
        };
        let is_launcher = match v.get("is_launcher") {
            None => false,
            Some(b) => match b.as_bool() {
                Some(x) => x,
                None => {
                    return None;
                },
            },
        };
        Some(DetectableExecutable { name, is_launcher })
    }
}

impl DetectableEntry {
    /// Reads an entry from its object.
    pub fn from_json(v: &Json) -> (r: Option<DetectableEntry>)
        ensures
            match r {
                Some(e) => entry_of(v@) == Some(e@),
                None => entry_of(v@) is None,
            },
    {
        let name = match v.get("name") {
            Some(n) => match n.as_str() {
                Some(s) => s.to_owned(),
                None => {
                    return None;
                },
            },
            None => {
                return None;
            },
        };
        let id = match v.get("id") {
            None => None,
            Some(x) => match x.as_str() {
                Some(s) => Some(s.to_owned()),
                None => if x.is_null() {
                    None
                } else {
                    return None;
                },
            },
        };
        let executables = match v.get("executables") {
            None => {
                let empty: Vec<DetectableExecutable> = Vec::new();
                assert(executables_model(empty@) =~= Seq::empty());
                empty
            },
            Some(x) => match x.as_array() {
                Some(a) => {
                    let mut out: Vec<DetectableExecutable> = Vec::new();
                    let mut i: usize = 0;
                    while i < a.len()
                        invariant
                            i <= a.len(),
                            out@.len() == i,
                            x@ == JsonModel::Arr(items_model(a@)),
                            v@.get("executables"@) == Some(x@),
                            forall|j: int|
                                0 <= j < i ==> executable_of(#[trigger] items_model(a@)[j])
                                    == Some(out@[j]@),
                        decreases a.len() - i,
                    {
                        assert(items_model(a@)[i as int] == a@[i as int]@);
                        match DetectableExecutable::from_json(&a[i]) {
                            Some(e) => {
                                out.push(e);
                            },
                            None => {
                                return None;
                            },
                        }
                        i += 1;
                    }
                    assert(executables_of(x@)->0 =~= executables_model(out@));
                    out
                },
                None => {
                    return None;
                },
            },
        };
        Some(DetectableEntry { id, name, executables })
    }
}

/// The entries among the items of an array that spell one, in their order:
/// how a catalog that was fetched is read.
pub open spec fn readable_entries(items: Seq<JsonModel>) -> Seq<EntryModel>
    decreases items.len(),
{
    if items.len() == 0 {
        Seq::empty()
    } else {
        let rest = readable_entries(items.drop_last());
        match entry_of(items.last()) {
            Some(e) => rest.push(e),
            None => rest,
        }
    }
}

/// Reads a catalog that was fetched: the items of the array that spell an
/// entry; nothing at all for a value that is no array.
pub fn read_fetched_catalog(v: &Json) -> (r: Vec<DetectableEntry>)
    ensures
        catalog_model(r@) == match v@ {
            JsonModel::Arr(items) => readable_entries(items),
            _ => Seq::empty(),
        },
{
    let mut out: Vec<DetectableEntry> = Vec::new();
    assert(catalog_model(out@) =~= Seq::empty());
    match v.as_array() {
        Some(a) => {
            let mut i: usize = 0;
            assert(items_model(a@).take(0) =~= Seq::empty());
            while i < a.len()
                invariant
                    i <= a.len(),
                    catalog_model(out@) == readable_entries(items_model(a@).take(i as int)),
                decreases a.len() - i,
            {
                assert(items_model(a@).take(i + 1).drop_last() =~= items_model(a@).take(i as int));
                assert(items_model(a@).take(i + 1).last() == a@[i as int]@);
                match DetectableEntry::from_json(&a[i]) {
                    Some(e) => {
                        let ghost before = catalog_model(out@);
                        out.push(e);
                        assert(catalog_model(out@) =~= before.push(e@));
                    },
                    None => {},
                }
                i += 1;
            }
            assert(items_model(a@).take(a.len() as int) =~= items_model(a@));
            out
        },
        None => out,
    }
}

/// The entries that an array spells where each of its items spells one.
pub open spec fn stored_entries(m: JsonModel) -> Option<Seq<EntryModel>> {
    match m {
        JsonModel::Arr(a) => if forall|i: int| 0 <= i < a.len() ==> entry_of(#[trigger] a[i])
            is Some {
            Some(Seq::new(a.len(), |i: int| entry_of(a[i])->0))
        } else {
            None
        },
        _ => None,
    }
}

/// Reads a catalog that was stored: every item of the array must spell an entry.
pub fn read_stored_catalog(v: &Json) -> (r: Option<Vec<DetectableEntry>>)
    ensures
        match r {
            Some(list) => stored_entries(v@) == Some(catalog_model(list@)),
            None => stored_entries(v@) is None,
        },
{
    match v.as_array() {
        Some(a) => {
            let mut out: Vec<DetectableEntry> = Vec::new();
            let mut i: usize = 0;
            while i < a.len()
                invariant
                    i <= a.len(),
                    out@.len() == i,
                    v@ == JsonModel::Arr(items_model(a@)),
                    forall|j: int|
                        0 <= j < i ==> entry_of(#[trigger] items_model(a@)[j]) == Some(out@[j]@),
                decreases a.len() - i,
            {
                assert(items_model(a@)[i as int] == a@[i as int]@);
                match DetectableEntry::from_json(&a[i]) {
                    Some(e) => {
                        out.push(e);
                    },
                    None => {
                        return None;
                    },
                }
                i += 1;
            }
            assert(stored_entries(v@)->0 =~= catalog_model(out@));
            Some(out)
        },
        None => None,
    }
}

} // verus!
