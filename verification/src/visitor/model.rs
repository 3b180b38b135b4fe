//! The model of a `resources.arsc` file: its packages, with their string tables, type
//! specs and entries, built by a visitor.

use super::{walks, ChunkVisitor, Origin, Visit};
use crate::chunks::package::package_name;
use crate::chunks::table_type::table_entries;
use crate::chunks::{
    PackageWrapper, ResourceWrapper, StringTableCache, StringTableWrapper, TableTypeWrapper,
    TypeSpecWrapper, XmlNamespaceEndWrapper, XmlNamespaceStartWrapper, XmlTagEndWrapper,
    XmlTagStartWrapper, XmlTextWrapper,
};
use crate::errors::Error;
use crate::model::owned::{entry_id, entry_views, Entry, EntryView};
use crate::model::{
    package_of, spec_of, string_result, Identifier, Package, StringTable, TypeSpec,
};
use crate::text::push_str;
use vstd::hash_map::HashMapWithView;
use vstd::prelude::*;

verus! {

/// A string table of a package, remembering its strings.
pub type PackageStringTable<'a> = StringTableCache<StringTableWrapper<'a>>;

/// What looking up `idx` in an optional string table gives: its string, or `missing`.
pub open spec fn optional_table_string<'a>(
    table: Option<PackageStringTable<'a>>,
    idx: u32,
    missing: Error,
) -> Result<Seq<char>, Error> {
    match table {
        Some(t) => t.spec_string(idx),
        None => Err(missing),
    }
}

/// The text of a reference to the entry of id `id` and key `key`, in a package whose type
/// names and entry names are given: the prefix, the namespace and a colon when there is
/// one, then the entry name, after the type name and a slash unless the type is `attr`.
pub open spec fn reference_text(
    spec_name: Result<Seq<char>, Error>,
    entry_name: Result<Seq<char>, Error>,
    namespace: Option<Seq<char>>,
    prefix: Seq<char>,
) -> Result<Seq<char>, Error> {
    match spec_name {
        Err(e) => Err(e),
        Ok(spec_str) => match entry_name {
            Err(e) => Err(e),
            Ok(name) => {
                let ending = if spec_str == "attr"@ {
                    name
                } else {
                    spec_str + "/"@ + name
                };
                match namespace {
                    Some(ns) => Ok(prefix + ns + ":"@ + ending),
                    None => Ok(prefix + ending),
                }
            },
        },
    }
}

/// A package of resources: the package chunk, its type specs, its string tables and its
/// entries, by resource id.
pub struct Library<'a> {
    package: PackageWrapper<'a>,
    specs: HashMapWithView<u32, TypeSpecWrapper<'a>>,
    string_table: Option<PackageStringTable<'a>>,
    spec_string_table: Option<PackageStringTable<'a>>,
    entries_string_table: Option<PackageStringTable<'a>>,
    entries: HashMapWithView<u32, Entry>,
}

impl<'a> Library<'a> {
    /// The bytes of the package chunk.
    pub closed spec fn spec_package(&self) -> Seq<u8> {
        self.package@
    }

    /// The ids of the type specs.
    pub closed spec fn spec_specs(&self) -> Set<u32> {
        self.specs@.dom()
    }

    /// The string table of the given origin.
    pub closed spec fn spec_table(&self, origin: Origin) -> Option<PackageStringTable<'a>> {
        match origin {
            Origin::Global => self.string_table,
            Origin::Spec => self.spec_string_table,
            Origin::Entries => self.entries_string_table,
        }
    }

    /// The entries, by resource id.
    pub closed spec fn spec_entries(&self) -> Map<u32, EntryView> {
        self.entries@.map_values(|e: Entry| e@)
    }

    /// The name of the type whose id is `spec_id`: the string just before that index on
    /// the type names, when the type spec was seen.
    pub open spec fn spec_type_name(&self, spec_id: u32) -> Result<Seq<char>, Error> {
        let index = if spec_id == 0 {
            u32::MAX
        } else {
            (spec_id - 1) as u32
        };
        if !self.spec_specs().contains(spec_id) {
            Err(Error::SpecNotFound)
        } else {
            match self.spec_table(Origin::Spec) {
                None => Err(Error::SpecNotFound),
                Some(t) => match t.spec_string(index) {
                    Ok(s) => Ok(s),
                    Err(_) => Err(Error::SpecNotFound),
                },
            }
        }
    }

    /// A package with no type specs, string tables or entries.
    pub fn new(package: PackageWrapper<'a>) -> (r: Self)
        ensures
            r.spec_package() == package@,
            r.spec_specs() == Set::<u32>::empty(),
            r.spec_table(Origin::Global) is None,
            r.spec_table(Origin::Spec) is None,
            r.spec_table(Origin::Entries) is None,
            r.spec_entries() == Map::<u32, EntryView>::empty(),
    {
        broadcast use vstd::std_specs::hash::group_hash_axioms;

        let r = Self {
            package,
            specs: HashMapWithView::new(),
            string_table: None,
            spec_string_table: None,
            entries_string_table: None,
            entries: HashMapWithView::new(),
        };
        assert(r.spec_entries() =~= Map::<u32, EntryView>::empty());
        r
    }

    /// The name of the package, when it can be read.
    pub fn name(&self) -> (r: Option<String>)
        ensures
            match package_name(self.spec_package()) {
                Ok(chars) => r matches Some(s) && s@ == chars,
                Err(_) => r is None,
            },
    {
        match self.package.name() {
            Ok(s) => Some(s),
            Err(_) => None,
        }
    }

    /// The entry of resource id `id`.
    pub fn entry(&self, id: u32) -> (r: Result<&Entry, Error>)
        ensures
            match r {
                Ok(e) => self.spec_entries().contains_key(id) && e@ == self.spec_entries()[id],
                Err(e) => !self.spec_entries().contains_key(id) && e == Error::UnknownEntry,
            },
    {
        match self.entries.get(&id) {
            Some(e) => Ok(e),
            None => Err(Error::UnknownEntry),
        }
    }

    /// The string at `str_id` of the entry names.
    pub fn entries_string(&self, str_id: u32) -> (r: Result<String, Error>)
        ensures
            string_result(r) == optional_table_string(
                self.spec_table(Origin::Entries),
                str_id,
                Error::NoEntriesStringTable,
            ),
    {
        match &self.entries_string_table {
            Some(table) => table.get_string(str_id),
            None => Err(Error::NoEntriesStringTable),
        }
    }

    /// The string at `str_id` of the type names.
    pub fn spec_string(&self, str_id: u32) -> (r: Result<String, Error>)
        ensures
            string_result(r) == optional_table_string(
                self.spec_table(Origin::Spec),
                str_id,
                Error::NoSpecStringTable,
            ),
    {
        match &self.spec_string_table {
            Some(table) => table.get_string(str_id),
            None => Err(Error::NoSpecStringTable),
        }
    }

    /// The name of the type whose id is `spec_id`.
    fn spec_as_str(&self, spec_id: u32) -> (r: Result<String, Error>)
        ensures
            string_result(r) == self.spec_type_name(spec_id),
    {
        if self.specs.contains_key(&spec_id) {
            if let Some(table) = &self.spec_string_table {
                if let Ok(s) = table.get_string(spec_id.wrapping_sub(1)) {
                    return Ok(s);
                }
            }
        }
        Err(Error::SpecNotFound)
    }

    /// The text of a reference to the entry `id`, whose key is `key`.
    pub fn format_reference(&self, id: u32, key: u32, namespace: Option<String>, prefix: &str) -> (r:
        Result<String, Error>)
        ensures
            string_result(r) == reference_text(
                self.spec_type_name(spec_of(id) as u32),
                optional_table_string(
                    self.spec_table(Origin::Entries),
                    key,
                    Error::NoEntriesStringTable,
                ),
                match namespace {
                    Some(ns) => Some(ns@),
                    None => None,
                },
                prefix@,
            ),
    {
        let spec_id = id.spec() as u32;
        let spec_str = self.spec_as_str(spec_id)?;
        let name = self.entries_string(key)?;
        let mut out = String::new();
        push_str(&mut out, prefix);
        if let Some(ns) = &namespace {
            push_str(&mut out, ns.as_str());
            push_str(&mut out, ":");
        }
        let attr = "attr".to_owned();
        proof {
            reveal_strlit("attr");
            reveal_strlit(":");
            reveal_strlit("/");
        }
        let ghost head = out@;
        if spec_str == attr {
            push_str(&mut out, name.as_str());
        } else {
            push_str(&mut out, spec_str.as_str());
            push_str(&mut out, "/");
            push_str(&mut out, name.as_str());
            assert(out@ =~= head + (spec_str@ + "/"@ + name@));
        }
        Ok(out)
    }

    /// Sets the string table of the given origin.
    pub fn set_string_table(&mut self, string_table: PackageStringTable<'a>, origin: Origin)
        ensures
            final(self).spec_table(origin) == Some(string_table),
            forall|o: Origin| o != origin ==> final(self).spec_table(o) == old(self).spec_table(o),
            final(self).spec_package() == old(self).spec_package(),
            final(self).spec_specs() == old(self).spec_specs(),
            final(self).spec_entries() == old(self).spec_entries(),
    {
        match origin {
            Origin::Global => self.string_table = Some(string_table),
            Origin::Spec => self.spec_string_table = Some(string_table),
            Origin::Entries => self.entries_string_table = Some(string_table),
        }
    }

    /// Adds entries, in order; an entry replaces one of the same id.
    pub fn add_entries(&mut self, entries: Vec<(u32, Entry)>)
        ensures
            final(self).spec_entries() == insert_entries(
                old(self).spec_entries(),
                entries@,
                entries@.len(),
            ),
            forall|o: Origin| final(self).spec_table(o) == old(self).spec_table(o),
            final(self).spec_package() == old(self).spec_package(),
            final(self).spec_specs() == old(self).spec_specs(),
    {
        let mut i: usize = 0;
        while i < entries.len()
            invariant
                i <= entries@.len(),
                self.spec_entries() == insert_entries(old(self).spec_entries(), entries@, i as nat),
                forall|o: Origin| self.spec_table(o) == old(self).spec_table(o),
                self.spec_package() == old(self).spec_package(),
                self.spec_specs() == old(self).spec_specs(),
            decreases entries@.len() - i,
        {
            let id = entries[i].0;
            let e = entries[i].1.clone();
            let ghost before = self.spec_entries();
            self.entries.insert(id, e);
            assert(self.spec_entries() =~= before.insert(id, e@));
            i = i + 1;
        }
    }

    /// Adds a type spec under its id.
    pub fn add_type_spec(&mut self, type_spec: TypeSpecWrapper<'a>) -> (r: Result<(), Error>)
        ensures
            match type_spec.spec_id() {
                Ok(id) => r is Ok && final(self).spec_specs() == old(self).spec_specs().insert(
                    id as u32,
                ),
                Err(e) => r == Err::<(), Error>(e) && final(self).spec_specs() == old(self).spec_specs(),
            },
            forall|o: Origin| final(self).spec_table(o) == old(self).spec_table(o),
            final(self).spec_package() == old(self).spec_package(),
            final(self).spec_entries() == old(self).spec_entries(),
    {
        let id = type_spec.id()? as u32;
        let ghost before = self.specs@;
        self.specs.insert(id, type_spec);
        assert(self.specs@.dom() =~= before.dom().insert(id));
        Ok(())
    }
}

/// The entries of `base` with the first `n` of `entries` set, in order.
pub open spec fn insert_entries(base: Map<u32, EntryView>, entries: Seq<(u32, Entry)>, n: nat) -> Map<
    u32,
    EntryView,
>
    decreases n,
{
    if n == 0 || n > entries.len() {
        base
    } else {
        insert_entries(base, entries, (n - 1) as nat).insert(entries[n - 1].0, entries[n - 1].1@)
    }
}

/// The packages of a `resources.arsc` file, by package id, and which one came first.
pub struct Resources<'a> {
    packages: HashMapWithView<u8, Library<'a>>,
    main_package: Option<u8>,
}

impl<'a> Resources<'a> {
    pub closed spec fn spec_packages(&self) -> Map<u8, Library<'a>> {
        self.packages@
    }

    /// The id of the first package pushed.
    pub closed spec fn spec_main(&self) -> Option<u8> {
        self.main_package
    }

    /// No packages.
    pub fn new() -> (r: Self)
        ensures
            r.spec_packages() == Map::<u8, Library<'a>>::empty(),
            r.spec_main() == None::<u8>,
    {
        broadcast use vstd::std_specs::hash::group_hash_axioms;

        Self { packages: HashMapWithView::new(), main_package: None }
    }

    /// Adds a package under `package_id`, replacing one of the same id; the first package
    /// pushed is the main one.
    pub fn push_package(&mut self, package_id: u8, package: Library<'a>)
        ensures
            final(self).spec_packages() == old(self).spec_packages().insert(package_id, package),
            final(self).spec_main() == if old(self).spec_packages().is_empty() {
                Some(package_id)
            } else {
                old(self).spec_main()
            },
    {
        if self.packages.is_empty() {
            self.main_package = Some(package_id);
        }
        self.packages.insert(package_id, package);
    }

    /// The package of id `package_id`.
    pub fn package(&self, package_id: u8) -> (r: Option<&Library<'a>>)
        ensures
            match r {
                Some(p) => self.spec_packages().contains_key(package_id) && *p
                    == self.spec_packages()[package_id],
                None => !self.spec_packages().contains_key(package_id),
            },
    {
        self.packages.get(&package_id)
    }

    /// The main package, when it is there.
    pub fn main_package(&self) -> (r: Option<&Library<'a>>)
        ensures
            match r {
                Some(p) => self.spec_main() matches Some(id) && self.spec_packages().contains_key(
                    id,
                ) && *p == self.spec_packages()[id],
                None => !(self.spec_main() matches Some(id) && self.spec_packages().contains_key(
                    id,
                )),
            },
    {
        match self.main_package {
            Some(id) => self.packages.get(&id),
            None => None,
        }
    }

    /// Whether `package_id` is the id of the main package.
    pub fn is_main_package(&self, package_id: u8) -> (r: bool)
        ensures
            r == (self.spec_main() == Some(package_id)),
    {
        match self.main_package {
            Some(id) => id == package_id,
            None => false,
        }
    }

    /// Takes the package of id `package_id` out, to be changed and put back by
    /// `put_package`.
    pub fn take_package(&mut self, package_id: u8) -> (r: Option<Library<'a>>)
        ensures
            match r {
                Some(p) => old(self).spec_packages().contains_key(package_id) && p == old(self).spec_packages()[package_id] && final(self).spec_packages() == old(self).spec_packages().remove(package_id),
                None => !old(self).spec_packages().contains_key(package_id) && final(self).spec_packages() == old(self).spec_packages(),
            },
            final(self).spec_main() == old(self).spec_main(),
    {
        self.packages.remove(&package_id)
    }

    /// Puts a package back under `package_id`, leaving the main package as it is.
    pub fn put_package(&mut self, package_id: u8, package: Library<'a>)
        ensures
            final(self).spec_packages() == old(self).spec_packages().insert(package_id, package),
            final(self).spec_main() == old(self).spec_main(),
    {
        self.packages.insert(package_id, package);
    }
}

/// Putting back a package just taken out, under its id, gives back the packages as they
/// were, and the main package stays the same.
pub proof fn lemma_take_put_package<'a>(resources: Resources<'a>, package_id: u8)
    requires
        resources.spec_packages().contains_key(package_id),
    ensures
        resources.spec_packages().remove(package_id).insert(
            package_id,
            resources.spec_packages()[package_id],
        ) == resources.spec_packages(),
{
    assert(resources.spec_packages().remove(package_id).insert(
        package_id,
        resources.spec_packages()[package_id],
    ) =~= resources.spec_packages());
}

/// Whether `t` is a string table over `st` that remembers nothing yet.
pub open spec fn fresh_table<'a>(t: PackageStringTable<'a>, st: StringTableWrapper<'a>) -> bool {
    t.spec_inner() == st && t.spec_cache() == Map::<u32, Seq<char>>::empty()
}

/// Whether `new` is `old` with only the string table of `origin` changed, to a fresh table
/// over `st`.
pub open spec fn library_with_table<'a>(
    new: Library<'a>,
    old: Library<'a>,
    origin: Origin,
    st: StringTableWrapper<'a>,
) -> bool {
    &&& new.spec_package() == old.spec_package()
    &&& new.spec_specs() == old.spec_specs()
    &&& new.spec_entries() == old.spec_entries()
    &&& new.spec_table(origin) matches Some(t) && fresh_table(t, st)
    &&& forall|o: Origin| o != origin ==> new.spec_table(o) == old.spec_table(o)
}

/// The entries of a table type that are not empty, with the mask added to their ids.
pub open spec fn masked_entries(entries: Seq<EntryView>, mask: u32, n: nat) -> Seq<(u32, EntryView)>
    decreases n,
{
    if n == 0 || n > entries.len() {
        Seq::empty()
    } else if entries[n - 1] is Empty {
        masked_entries(entries, mask, (n - 1) as nat)
    } else {
        masked_entries(entries, mask, (n - 1) as nat).push(
            (mask | entry_id(entries[n - 1]), entries[n - 1]),
        )
    }
}

/// The views of a list of entries with their ids.
pub open spec fn id_entry_views(entries: Seq<(u32, Entry)>) -> Seq<(u32, EntryView)> {
    entries.map_values(|p: (u32, Entry)| (p.0, p.1@))
}

impl<'a> Default for Resources<'a> {
    fn default() -> (r: Self)
        ensures
            r.spec_packages() == Map::<u8, Library<'a>>::empty(),
            r.spec_main() == None::<u8>,
    {
        Resources::new()
    }
}

/// Builds the model of a `resources.arsc` file from its chunks.
pub struct ModelVisitor<'a> {
    package_mask: u32,
    resources: Resources<'a>,
    current_spec: Option<TypeSpecWrapper<'a>>,
    global_table: Option<PackageStringTable<'a>>,
}

/// The mask of the resource ids of a package: its id in the top byte.
pub open spec fn package_mask_of(package_id: u32) -> u32 {
    package_id << 24u32
}

impl<'a> ModelVisitor<'a> {
    pub closed spec fn spec_mask(&self) -> u32 {
        self.package_mask
    }

    pub closed spec fn spec_resources(&self) -> Resources<'a> {
        self.resources
    }

    pub closed spec fn spec_current_spec(&self) -> Option<TypeSpecWrapper<'a>> {
        self.current_spec
    }

    /// The global string table, until a package takes it.
    pub closed spec fn spec_global_table(&self) -> Option<PackageStringTable<'a>> {
        self.global_table
    }

    pub fn new() -> (r: Self)
        ensures
            r.spec_mask() == 0,
            r.spec_resources().spec_packages() == Map::<u8, Library<'a>>::empty(),
            r.spec_resources().spec_main() == None::<u8>,
            r.spec_current_spec() is None,
            r.spec_global_table() is None,
    {
        Self {
            package_mask: 0,
            resources: Resources::new(),
            current_spec: None,
            global_table: None,
        }
    }

    pub fn resources(&self) -> (r: &Resources<'a>)
        ensures
            *r == self.spec_resources(),
    {
        &self.resources
    }

    /// The resources, to be changed in place.
    pub fn mut_resources(&mut self) -> (r: &mut Resources<'a>)
        ensures
            *r == old(self).spec_resources(),
            final(self).spec_resources() == *final(r),
            final(self).spec_mask() == old(self).spec_mask(),
            final(self).spec_current_spec() == old(self).spec_current_spec(),
            final(self).spec_global_table() == old(self).spec_global_table(),
    {
        &mut self.resources
    }

    /// The resources, taking them out of the visitor.
    pub fn into_resources(self) -> (r: Resources<'a>)
        ensures
            r == self.spec_resources(),
    {
        self.resources
    }

    /// The entries of a table type under the current type spec, with their full
    /// resource ids; empty entries are left out.
    fn table_entries_with_ids(&self, table_type: &TableTypeWrapper<'a>) -> (r: Vec<(u32, Entry)>)
        ensures
            match self.spec_current_spec() {
                None => r@.len() == 0,
                Some(ts) => {
                    let mask = match ts.spec_id() {
                        Ok(id) => self.spec_mask() | ((id as u32) << 16u32),
                        Err(_) => 0u32,
                    };
                    match table_entries(table_type@, table_type.spec_data_offset()) {
                        Err(_) => r@.len() == 0,
                        Ok(es) => id_entry_views(r@) == masked_entries(es, mask, es.len()),
                    }
                },
            },
    {
        let mut entries: Vec<(u32, Entry)> = Vec::new();
        if let Some(ts) = &self.current_spec {
            let mask: u32 = match ts.id() {
                Ok(id) => self.package_mask | ((id as u32) << 16),
                Err(_) => 0,
            };
            if let Ok(found) = table_type.entries() {
                let ghost es = entry_views(found@);
                let mut i: usize = 0;
                while i < found.len()
                    invariant
                        i <= found@.len(),
                        es == entry_views(found@),
                        id_entry_views(entries@) == masked_entries(es, mask, i as nat),
                    decreases found@.len() - i,
                {
                    let e = &found[i];
                    assert(e@ == es[i as int]);
                    if !e.is_empty() {
                        let c = e.clone();
                        entries.push((mask | e.get_id(), c));
                        assert(id_entry_views(entries@) =~= masked_entries(
                            es,
                            mask,
                            (i + 1) as nat,
                        ));
                    }
                    i = i + 1;
                }
            }
        }
        entries
    }
}

impl<'a> Default for ModelVisitor<'a> {
    fn default() -> (r: Self)
        ensures
            r.spec_mask() == 0,
            r.spec_resources().spec_packages() == Map::<u8, Library<'a>>::empty(),
            r.spec_resources().spec_main() == None::<u8>,
            r.spec_current_spec() is None,
            r.spec_global_table() is None,
    {
        ModelVisitor::new()
    }
}

/// Whether `m` is a model that has seen nothing yet: no package, no current type spec
/// and no global string table.
pub open spec fn empty_model<'a>(m: ModelVisitor<'a>) -> bool {
    &&& m.spec_mask() == 0
    &&& m.spec_resources().spec_packages() == Map::<u8, Library<'a>>::empty()
    &&& m.spec_resources().spec_main() == None::<u8>
    &&& m.spec_current_spec() is None
    &&& m.spec_global_table() is None
}

/// Whether `m` is what an empty model becomes when it is handed `visits`, one after the
/// other.
pub open spec fn model_built_from<'a>(m: ModelVisitor<'a>, visits: Seq<Visit>) -> bool {
    exists|m0: ModelVisitor<'a>| empty_model(m0) && #[trigger] walks(m0, m, visits)
}


/// Keeps the global string table until a package takes it; the others go to the
/// current package.
pub open spec fn model_on_string_table<'a>(
    before: ModelVisitor<'a>,
    after: ModelVisitor<'a>,
    string_table: StringTableWrapper<'a>,
    origin: Origin,
) -> bool {
    &&& after.spec_mask() == before.spec_mask()
    &&& after.spec_current_spec() == before.spec_current_spec()
    &&& after.spec_resources().spec_main() == before.spec_resources().spec_main()
    &&& ({
            let packages = before.spec_resources().spec_packages();
            let id = package_of(before.spec_mask());
            if origin == Origin::Global {
                &&& after.spec_global_table() matches Some(t) && fresh_table(
                    t,
                    string_table,
                )
                &&& after.spec_resources().spec_packages() == packages
            } else {
                &&& after.spec_global_table() == before.spec_global_table()
                &&& if packages.contains_key(id) {
                    &&& after.spec_resources().spec_packages().dom() == packages.dom()
                    &&& forall|k: u8|
                        k != id && packages.contains_key(k) ==> after.spec_resources().spec_packages()[k] == packages[k]
                    &&& library_with_table(
                        after.spec_resources().spec_packages()[id],
                        packages[id],
                        origin,
                        string_table,
                    )
                } else {
                    after.spec_resources().spec_packages() == packages
                }
            }
        })
}

/// Makes the package the current one, with the global string table if there is one.
pub open spec fn model_on_package<'a>(
    before: ModelVisitor<'a>,
    after: ModelVisitor<'a>,
    package: PackageWrapper<'a>,
) -> bool {
    &&& after.spec_current_spec() == before.spec_current_spec()
    &&& match package.spec_id() {
            Err(_) => {
                &&& after.spec_mask() == before.spec_mask()
                &&& after.spec_global_table() == before.spec_global_table()
                &&& after.spec_resources() == before.spec_resources()
            },
            Ok(pid) => {
                let mask = package_mask_of(pid);
                let id = package_of(mask);
                let packages = after.spec_resources().spec_packages();
                &&& after.spec_mask() == mask
                &&& after.spec_global_table() is None
                &&& packages.dom() == before.spec_resources().spec_packages().dom().insert(
                    id,
                )
                &&& forall|k: u8|
                    k != id && packages.contains_key(k) ==> packages[k] == before.spec_resources().spec_packages()[k]
                &&& after.spec_resources().spec_main() == if before.spec_resources().spec_packages().is_empty() {
                    Some(id)
                } else {
                    before.spec_resources().spec_main()
                }
                &&& packages[id].spec_package() == package@
                &&& packages[id].spec_specs() == Set::<u32>::empty()
                &&& packages[id].spec_entries() == Map::<u32, EntryView>::empty()
                &&& packages[id].spec_table(Origin::Global) == before.spec_global_table()
                &&& packages[id].spec_table(Origin::Spec) is None
                &&& packages[id].spec_table(Origin::Entries) is None
            },
        }
}

/// Adds the entries of the table type to the current package.
pub open spec fn model_on_table_type<'a>(
    before: ModelVisitor<'a>,
    after: ModelVisitor<'a>,
    table_type: TableTypeWrapper<'a>,
) -> bool {
    &&& after.spec_mask() == before.spec_mask()
    &&& after.spec_current_spec() == before.spec_current_spec()
    &&& after.spec_global_table() == before.spec_global_table()
    &&& after.spec_resources().spec_main() == before.spec_resources().spec_main()
    &&& after.spec_resources().spec_packages().dom() == before.spec_resources().spec_packages().dom()
    &&& ({
            let packages = before.spec_resources().spec_packages();
            let id = package_of(before.spec_mask());
            &&& forall|k: u8|
                k != id && packages.contains_key(k) ==> after.spec_resources().spec_packages()[k] == packages[k]
            &&& packages.contains_key(id) ==> {
                let new = after.spec_resources().spec_packages()[id];
                &&& new.spec_package() == packages[id].spec_package()
                &&& new.spec_specs() == packages[id].spec_specs()
                &&& forall|o: Origin| new.spec_table(o) == packages[id].spec_table(o)
                &&& exists|added: Seq<(u32, Entry)>|
                    {
                        &&& new.spec_entries() == insert_entries(
                            packages[id].spec_entries(),
                            added,
                            added.len(),
                        )
                        &&& match before.spec_current_spec() {
                            None => added.len() == 0,
                            Some(ts) => {
                                let mask = match ts.spec_id() {
                                    Ok(tid) => before.spec_mask() | ((tid as u32)
                                        << 16u32),
                                    Err(_) => 0u32,
                                };
                                match table_entries(
                                    table_type@,
                                    table_type.spec_data_offset(),
                                ) {
                                    Err(_) => added.len() == 0,
                                    Ok(es) => id_entry_views(added) == masked_entries(
                                        es,
                                        mask,
                                        es.len(),
                                    ),
                                }
                            },
                        }
                    }
            }
        })
}

/// Makes the type spec the current one and adds it to the current package.
pub open spec fn model_on_type_spec<'a>(
    before: ModelVisitor<'a>,
    after: ModelVisitor<'a>,
    type_spec: TypeSpecWrapper<'a>,
) -> bool {
    &&& after.spec_mask() == before.spec_mask()
    &&& after.spec_current_spec() == Some(type_spec)
    &&& after.spec_global_table() == before.spec_global_table()
    &&& after.spec_resources().spec_main() == before.spec_resources().spec_main()
    &&& after.spec_resources().spec_packages().dom() == before.spec_resources().spec_packages().dom()
    &&& ({
            let packages = before.spec_resources().spec_packages();
            let id = (before.spec_mask() >> 24u32) as u8;
            &&& forall|k: u8|
                k != id && packages.contains_key(k) ==> after.spec_resources().spec_packages()[k] == packages[k]
            &&& packages.contains_key(id) ==> {
                let new = after.spec_resources().spec_packages()[id];
                &&& new.spec_package() == packages[id].spec_package()
                &&& new.spec_entries() == packages[id].spec_entries()
                &&& forall|o: Origin| new.spec_table(o) == packages[id].spec_table(o)
                &&& new.spec_specs() == match type_spec.spec_id() {
                    Ok(tid) => packages[id].spec_specs().insert(tid as u32),
                    Err(_) => packages[id].spec_specs(),
                }
            }
        })
}

/// Not a chunk of a `resources.arsc` file: left out.
pub open spec fn model_on_namespace_start<'a>(
    before: ModelVisitor<'a>,
    after: ModelVisitor<'a>,
    chunk: XmlNamespaceStartWrapper<'a>,
) -> bool {
    &&& after.spec_mask() == before.spec_mask()
    &&& after.spec_resources() == before.spec_resources()
    &&& after.spec_current_spec() == before.spec_current_spec()
    &&& after.spec_global_table() == before.spec_global_table()
}

/// Not a chunk of a `resources.arsc` file: left out.
pub open spec fn model_on_namespace_end<'a>(
    before: ModelVisitor<'a>,
    after: ModelVisitor<'a>,
    chunk: XmlNamespaceEndWrapper<'a>,
) -> bool {
    &&& after.spec_mask() == before.spec_mask()
    &&& after.spec_resources() == before.spec_resources()
    &&& after.spec_current_spec() == before.spec_current_spec()
    &&& after.spec_global_table() == before.spec_global_table()
}

/// Not a chunk of a `resources.arsc` file: left out.
pub open spec fn model_on_tag_start<'a>(
    before: ModelVisitor<'a>,
    after: ModelVisitor<'a>,
    chunk: XmlTagStartWrapper<'a>,
) -> bool {
    &&& after.spec_mask() == before.spec_mask()
    &&& after.spec_resources() == before.spec_resources()
    &&& after.spec_current_spec() == before.spec_current_spec()
    &&& after.spec_global_table() == before.spec_global_table()
}

/// Not a chunk of a `resources.arsc` file: left out.
pub open spec fn model_on_tag_end<'a>(
    before: ModelVisitor<'a>,
    after: ModelVisitor<'a>,
    chunk: XmlTagEndWrapper<'a>,
) -> bool {
    &&& after.spec_mask() == before.spec_mask()
    &&& after.spec_resources() == before.spec_resources()
    &&& after.spec_current_spec() == before.spec_current_spec()
    &&& after.spec_global_table() == before.spec_global_table()
}

/// Not a chunk of a `resources.arsc` file: left out.
pub open spec fn model_on_text<'a>(
    before: ModelVisitor<'a>,
    after: ModelVisitor<'a>,
    chunk: XmlTextWrapper<'a>,
) -> bool {
    &&& after.spec_mask() == before.spec_mask()
    &&& after.spec_resources() == before.spec_resources()
    &&& after.spec_current_spec() == before.spec_current_spec()
    &&& after.spec_global_table() == before.spec_global_table()
}

/// Not a chunk of a `resources.arsc` file: left out.
pub open spec fn model_on_resource<'a>(
    before: ModelVisitor<'a>,
    after: ModelVisitor<'a>,
    chunk: ResourceWrapper<'a>,
) -> bool {
    &&& after.spec_mask() == before.spec_mask()
    &&& after.spec_resources() == before.spec_resources()
    &&& after.spec_current_spec() == before.spec_current_spec()
    &&& after.spec_global_table() == before.spec_global_table()
}

impl<'a> ChunkVisitor<'a> for ModelVisitor<'a> {
    open spec fn steps(before: Self, after: Self, visit: Visit) -> bool {
        match visit {
            Visit::StringTable(bytes, origin) => exists|w: StringTableWrapper<'a>|
                w@ == bytes && #[trigger] model_on_string_table(before, after, w, origin),
            Visit::Package(bytes) => exists|w: PackageWrapper<'a>|
                w@ == bytes && #[trigger] model_on_package(before, after, w),
            Visit::TableType(bytes, offset) => exists|w: TableTypeWrapper<'a>|
                w@ == bytes && w.spec_data_offset() == offset && #[trigger] model_on_table_type(
                    before,
                    after,
                    w,
                ),
            Visit::TypeSpec(bytes) => exists|w: TypeSpecWrapper<'a>|
                w@ == bytes && #[trigger] model_on_type_spec(before, after, w),
            Visit::XmlNamespaceStart(bytes) => exists|w: XmlNamespaceStartWrapper<'a>|
                w@ == bytes && #[trigger] model_on_namespace_start(before, after, w),
            Visit::XmlNamespaceEnd(bytes) => exists|w: XmlNamespaceEndWrapper<'a>|
                w@ == bytes && #[trigger] model_on_namespace_end(before, after, w),
            Visit::XmlTagStart(bytes) => exists|w: XmlTagStartWrapper<'a>|
                w@ == bytes && #[trigger] model_on_tag_start(before, after, w),
            Visit::XmlTagEnd(bytes) => exists|w: XmlTagEndWrapper<'a>|
                w@ == bytes && #[trigger] model_on_tag_end(before, after, w),
            Visit::XmlText(bytes) => exists|w: XmlTextWrapper<'a>|
                w@ == bytes && #[trigger] model_on_text(before, after, w),
            Visit::Resource(bytes) => exists|w: ResourceWrapper<'a>|
                w@ == bytes && #[trigger] model_on_resource(before, after, w),
        }
    }

    /// Keeps the global string table until a package takes it; the others go to the
    /// current package.
    fn visit_string_table(&mut self, string_table: StringTableWrapper<'a>, origin: Origin)
        ensures
            model_on_string_table(*old(self), *final(self), string_table, origin),
    {
        let ghost witness = string_table;
        if origin == Origin::Global {
            self.global_table = Some(StringTableCache::new(string_table));
        } else {
            let package_id = self.package_mask.package();
            if let Some(mut package) = self.resources.take_package(package_id) {
                package.set_string_table(StringTableCache::new(string_table), origin);
                self.resources.put_package(package_id, package);
            }
        }
        proof {
            assert(model_on_string_table(*old(self), *self, witness, origin));
        }
    }

    /// Makes the package the current one, with the global string table if there is one.
    fn visit_package(&mut self, package: PackageWrapper<'a>)
        ensures
            model_on_package(*old(self), *final(self), package),
    {
        let ghost witness = package;
        if let Ok(id) = package.id() {
            self.package_mask = id << 24;
            let package_id = self.package_mask.package();
            let mut library = Library::new(package);
            if let Some(st) = self.global_table.take() {
                library.set_string_table(st, Origin::Global);
            }
            self.resources.push_package(package_id, library);
        }
        proof {
            assert(model_on_package(*old(self), *self, witness));
        }
    }

    /// Adds the entries of the table type to the current package.
    fn visit_table_type(&mut self, table_type: TableTypeWrapper<'a>)
        ensures
            model_on_table_type(*old(self), *final(self), table_type),
    {
        let ghost witness = table_type;
        let entries = self.table_entries_with_ids(&table_type);
        let package_id = self.package_mask.package();
        if let Some(mut package) = self.resources.take_package(package_id) {
            package.add_entries(entries);
            self.resources.put_package(package_id, package);
        }
        proof {
            assert(model_on_table_type(*old(self), *self, witness));
        }
    }

    /// Makes the type spec the current one and adds it to the current package.
    fn visit_type_spec(&mut self, type_spec: TypeSpecWrapper<'a>)
        ensures
            model_on_type_spec(*old(self), *final(self), type_spec),
    {
        let ghost witness = type_spec;
        self.current_spec = Some(type_spec);
        let package_id = (self.package_mask >> 24) as u8;
        if let Some(mut package) = self.resources.take_package(package_id) {
            let _ = package.add_type_spec(type_spec);
            self.resources.put_package(package_id, package);
        }
        proof {
            assert(model_on_type_spec(*old(self), *self, witness));
        }
    }

    /// Not a chunk of a `resources.arsc` file: left out.
    fn visit_xml_namespace_start(&mut self, chunk: XmlNamespaceStartWrapper<'a>)
        ensures
            model_on_namespace_start(*old(self), *final(self), chunk),
    {
        let ghost witness = chunk;
        proof {
            assert(model_on_namespace_start(*old(self), *self, witness));
        }
    }

    /// Not a chunk of a `resources.arsc` file: left out.
    fn visit_xml_namespace_end(&mut self, chunk: XmlNamespaceEndWrapper<'a>)
        ensures
            model_on_namespace_end(*old(self), *final(self), chunk),
    {
        let ghost witness = chunk;
        proof {
            assert(model_on_namespace_end(*old(self), *self, witness));
        }
    }

    /// Not a chunk of a `resources.arsc` file: left out.
    fn visit_xml_tag_start(&mut self, chunk: XmlTagStartWrapper<'a>)
        ensures
            model_on_tag_start(*old(self), *final(self), chunk),
    {
        let ghost witness = chunk;
        proof {
            assert(model_on_tag_start(*old(self), *self, witness));
        }
    }

    /// Not a chunk of a `resources.arsc` file: left out.
    fn visit_xml_tag_end(&mut self, chunk: XmlTagEndWrapper<'a>)
        ensures
            model_on_tag_end(*old(self), *final(self), chunk),
    {
        let ghost witness = chunk;
        proof {
            assert(model_on_tag_end(*old(self), *self, witness));
        }
    }

    /// Not a chunk of a `resources.arsc` file: left out.
    fn visit_xml_text(&mut self, chunk: XmlTextWrapper<'a>)
        ensures
            model_on_text(*old(self), *final(self), chunk),
    {
        let ghost witness = chunk;
        proof {
            assert(model_on_text(*old(self), *self, witness));
        }
    }

    /// Not a chunk of a `resources.arsc` file: left out.
    fn visit_resource(&mut self, chunk: ResourceWrapper<'a>)
        ensures
            model_on_resource(*old(self), *final(self), chunk),
    {
        let ghost witness = chunk;
        proof {
            assert(model_on_resource(*old(self), *self, witness));
        }
    }
}

} // verus!
