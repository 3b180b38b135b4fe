//! Decoding of binary XML documents into a tree of elements, with the values of their
//! attributes resolved against the resources of the application.

use super::model::{
    fresh_table, optional_table_string, reference_text, Library, PackageStringTable, Resources,
};
use super::{runs, walks, ChunkVisitor, Origin, Visit};
use crate::chunks::package::package_name;
use crate::chunks::resource::resources_spec;
use crate::chunks::{
    PackageWrapper, ResourceWrapper, StringTableCache, StringTableWrapper, TableTypeWrapper,
    TypeSpecWrapper, XmlNamespaceEndWrapper, XmlNamespaceStartWrapper, XmlTagEndWrapper,
    XmlTagStartWrapper, XmlTextWrapper,
};
use crate::errors::Error;
use crate::model::owned::{
    entry_key, simple_views, ComplexEntryView, EntryView, SimpleEntry, SimpleEntryView,
};
use crate::chunks::xml::{attribute_start, field_u32, tag_start_attributes_amount, AttributeWrapper};
use crate::endian::u32_at;
use crate::model::value::{
    color_text, has_invalid_unit, is_value_of, value_text, TOKEN_TYPE_ARGB4, TOKEN_TYPE_ARGB8, TOKEN_TYPE_ATTRIBUTE_REFERENCE_ID,
    TOKEN_TYPE_BOOLEAN, TOKEN_TYPE_DIMENSION, TOKEN_TYPE_DYN_ATTRIBUTE, TOKEN_TYPE_DYN_REFERENCE,
    TOKEN_TYPE_FLAGS, TOKEN_TYPE_FLOAT, TOKEN_TYPE_FRACTION, TOKEN_TYPE_INTEGER,
    TOKEN_TYPE_REFERENCE_ID, TOKEN_TYPE_RGB4, TOKEN_TYPE_RGB8, TOKEN_TYPE_STRING,
};
use crate::model::element::ended;
use crate::model::{
    lookup, package_of, spec_of, string_result, AttributeTrait, AttributeValue, Element,
    ElementContainer, Identifier, NamespaceStart, StringTable, Tag, TagStart, Value,
};
use crate::text::{decimal, push_decimal, push_str};
use vstd::prelude::*;

verus! {

/// The amount of bits set in `v`.
pub open spec fn popcount(v: u32) -> nat
    decreases v,
{
    if v == 0 {
        0
    } else {
        (v % 2) as nat + popcount(v / 2)
    }
}

/// The entries among the first `n` whose value has `c` bits set, in order.
pub open spec fn with_popcount(s: Seq<SimpleEntryView>, c: nat, n: nat) -> Seq<SimpleEntryView>
    decreases n,
{
    if n == 0 || n > s.len() {
        Seq::empty()
    } else if popcount(s[n - 1].value) == c {
        with_popcount(s, c, (n - 1) as nat).push(s[n - 1])
    } else {
        with_popcount(s, c, (n - 1) as nat)
    }
}

/// The entries whose value has from 32 down to `c` bits set, by decreasing amount of
/// bits set, and in their order among equals.
pub open spec fn by_popcount(s: Seq<SimpleEntryView>, c: int) -> Seq<SimpleEntryView>
    decreases 33 - c,
{
    if c > 32 || c < 0 {
        Seq::empty()
    } else {
        by_popcount(s, c + 1) + with_popcount(s, c as nat, s.len())
    }
}

/// There is nothing to sort in nothing.
proof fn lemma_by_popcount_empty(c: int)
    ensures
        by_popcount(Seq::<SimpleEntryView>::empty(), c) == Seq::<SimpleEntryView>::empty(),
    decreases 33 - c,
{
    if c <= 32 && c >= 0 {
        lemma_by_popcount_empty(c + 1);
        assert(by_popcount(Seq::<SimpleEntryView>::empty(), c) =~= Seq::<SimpleEntryView>::empty());
    }
}

/// The values of the complex entry of id `entry_ref`, or none when there is no such
/// complex entry.
pub open spec fn flag_values(package: Library, entry_ref: u32) -> Seq<SimpleEntryView> {
    match package.spec_entries().get(entry_ref) {
        Some(EntryView::Complex(c)) => c.entries,
        _ => Seq::empty(),
    }
}

/// Whether `mask` is covered by one of `masks`.
pub open spec fn covered(mask: u32, masks: Seq<u32>) -> bool {
    exists|k: int| 0 <= k < masks.len() && mask & #[trigger] masks[k] == mask
}

/// The keys of the flags that `flags` sets, from the first `n` candidates: a candidate is
/// taken when all of its bits are in `flags`, its entry is a simple entry of the package
/// and its bits are not all in a candidate taken before. Gives the keys and the masks
/// taken.
pub open spec fn select_flags(
    package: Library,
    flags: u32,
    candidates: Seq<SimpleEntryView>,
    n: nat,
) -> (Seq<u32>, Seq<u32>)
    decreases n,
{
    if n == 0 || n > candidates.len() {
        (Seq::empty(), Seq::empty())
    } else {
        let (keys, masks) = select_flags(package, flags, candidates, (n - 1) as nat);
        let c = candidates[n - 1];
        let mask = c.value;
        if mask & flags == mask && !covered(mask, masks) {
            match package.spec_entries().get(c.id) {
                Some(EntryView::Simple(s)) => (keys.push(s.key), masks.push(mask)),
                _ => (keys, masks),
            }
        } else {
            (keys, masks)
        }
    }
}

/// The type byte of the attribute whose twenty bytes are `a`.
pub open spec fn attribute_type(a: Seq<u8>) -> u8 {
    (u32_at(a, 12) / 0x0100_0000) as u8
}

/// An attribute given by its type and payload alone (no string of the table, no
/// reference to resolve, and for an integer or flags value no flag name that resolves)
/// has as text the rendering of the value that `Value::new` makes of its type and
/// payload: the rendering itself, or the value to render in floating point.
pub proof fn lemma_attribute_text_is_value_rendering(
    string_table: PackageStringTable,
    resources: Resources,
    res: Seq<u32>,
    a: Seq<u8>,
    v: Value,
)
    requires
        a.len() == 20,
        u32_at(a, 8) == 0xFFFF_FFFF,
        !has_invalid_unit(attribute_type(a), u32_at(a, 16)),
        is_value_of(v, attribute_type(a), u32_at(a, 16)),
        attribute_type(a) != TOKEN_TYPE_STRING,
        attribute_type(a) != TOKEN_TYPE_REFERENCE_ID,
        attribute_type(a) != TOKEN_TYPE_DYN_REFERENCE,
        attribute_type(a) != TOKEN_TYPE_ATTRIBUTE_REFERENCE_ID,
        attribute_type(a) != TOKEN_TYPE_DYN_ATTRIBUTE,
        attribute_type(a) == TOKEN_TYPE_INTEGER || attribute_type(a) == TOKEN_TYPE_FLAGS
            ==> flags_resolution(u32_at(a, 4), u32_at(a, 16), res, resources) is None,
    ensures
        match value_text(v) {
            Some(text) => attribute_text(string_table, resources, res, a) == Ok::<
                AttributeText,
                Error,
            >(AttributeText::Text(text)),
            None => attribute_text(string_table, resources, res, a) == Ok::<AttributeText, Error>(
                AttributeText::Unformatted(v),
            ),
        },
{
    reveal(attribute_text);
    let t = attribute_type(a);
    let d = u32_at(a, 16);
    assert(!(u32_at(a, 8) != 0xFFFF_FFFF || (t == TOKEN_TYPE_STRING && !has_invalid_unit(t, d))));
    if t == TOKEN_TYPE_INTEGER {
        assert(v == Value::Integer(d));
        assert(value_text(v) == Some(decimal(d as nat)));
    } else if t == TOKEN_TYPE_FLAGS {
        assert(v == Value::Flags(d));
        assert(value_text(v) == Some(decimal(d as nat)));
    } else if t == TOKEN_TYPE_BOOLEAN {
        assert(v == Value::Boolean(d > 0));
    }
}

/// A boolean attribute reads `true` exactly when its payload is not zero, and `false`
/// when it is.
pub proof fn lemma_boolean_attribute_text(
    string_table: PackageStringTable,
    resources: Resources,
    res: Seq<u32>,
    a: Seq<u8>,
)
    requires
        a.len() == 20,
        u32_at(a, 8) == 0xFFFF_FFFF,
        attribute_type(a) == TOKEN_TYPE_BOOLEAN,
    ensures
        u32_at(a, 16) != 0 ==> attribute_text(string_table, resources, res, a) == Ok::<
            AttributeText,
            Error,
        >(AttributeText::Text("true"@)),
        u32_at(a, 16) == 0 ==> attribute_text(string_table, resources, res, a) == Ok::<
            AttributeText,
            Error,
        >(AttributeText::Text("false"@)),
{
    let v = Value::Boolean(u32_at(a, 16) > 0);
    lemma_attribute_text_is_value_rendering(string_table, resources, res, a, v);
}

/// An integer or flags attribute for which no flag name resolves reads as the decimal
/// digits of its payload.
pub proof fn lemma_integer_attribute_text(
    string_table: PackageStringTable,
    resources: Resources,
    res: Seq<u32>,
    a: Seq<u8>,
)
    requires
        a.len() == 20,
        u32_at(a, 8) == 0xFFFF_FFFF,
        attribute_type(a) == TOKEN_TYPE_INTEGER || attribute_type(a) == TOKEN_TYPE_FLAGS,
        flags_resolution(u32_at(a, 4), u32_at(a, 16), res, resources) is None,
    ensures
        attribute_text(string_table, resources, res, a) == Ok::<AttributeText, Error>(
            AttributeText::Text(decimal(u32_at(a, 16) as nat)),
        ),
{
    let d = u32_at(a, 16);
    let v = if attribute_type(a) == TOKEN_TYPE_INTEGER {
        Value::Integer(d)
    } else {
        Value::Flags(d)
    };
    lemma_attribute_text_is_value_rendering(string_table, resources, res, a, v);
}

/// The flags chosen among the first `n` candidates are all set in `flags`, none of them
/// has all its bits in a flag chosen before it, and every candidate that is set in
/// `flags` and names a simple entry has all its bits in a chosen flag.
pub proof fn lemma_select_flags(
    package: Library,
    flags: u32,
    candidates: Seq<SimpleEntryView>,
    n: nat,
)
    requires
        n <= candidates.len(),
    ensures
        ({
            let (keys, masks) = select_flags(package, flags, candidates, n);
            &&& keys.len() == masks.len()
            &&& forall|i: int| 0 <= i < masks.len() ==> #[trigger] masks[i] & flags == masks[i]
            &&& forall|i: int, j: int|
                0 <= i < j < masks.len() ==> #[trigger] masks[j] & #[trigger] masks[i] != masks[j]
            &&& forall|k: int|
                #![trigger candidates[k]]
                0 <= k < n && candidates[k].value & flags == candidates[k].value
                    && (package.spec_entries().get(candidates[k].id) matches Some(
                    EntryView::Simple(_),
                )) ==> exists|i: int|
                    0 <= i < masks.len() && candidates[k].value & #[trigger] masks[i]
                        == candidates[k].value
        }),
    decreases n,
{
    if n > 0 {
        lemma_select_flags(package, flags, candidates, (n - 1) as nat);
        let (keys0, masks0) = select_flags(package, flags, candidates, (n - 1) as nat);
        let (keys, masks) = select_flags(package, flags, candidates, n);
        let c = candidates[n - 1];
        let mask = c.value;
        assert(mask & mask == mask) by (bit_vector);
        if mask & flags == mask && !covered(mask, masks0) {
            match package.spec_entries().get(c.id) {
                Some(EntryView::Simple(_)) => {
                    assert(masks == masks0.push(mask));
                    assert forall|i: int, j: int|
                        0 <= i < j < masks.len() implies #[trigger] masks[j] & #[trigger] masks[i]
                            != masks[j] by {
                        if j == masks.len() - 1 {
                            assert(masks[i] == masks0[i]);
                            assert(!(mask & masks0[i] == mask));
                        } else {
                            assert(masks[i] == masks0[i] && masks[j] == masks0[j]);
                        }
                    }
                    assert forall|k: int|
                        #![trigger candidates[k]]
                        0 <= k < n && candidates[k].value & flags == candidates[k].value
                            && (package.spec_entries().get(candidates[k].id) matches Some(
                            EntryView::Simple(_),
                        )) implies exists|i: int|
                        0 <= i < masks.len() && candidates[k].value & #[trigger] masks[i]
                            == candidates[k].value by {
                        if k == n - 1 {
                            assert(candidates[k].value & masks[masks.len() - 1]
                                == candidates[k].value);
                        } else {
                            let i0 = choose|i: int|
                                0 <= i < masks0.len() && candidates[k].value & #[trigger] masks0[i]
                                    == candidates[k].value;
                            assert(masks[i0] == masks0[i0]);
                        }
                    }
                },
                _ => {},
            }
        } else if mask & flags == mask {
            assert forall|k: int|
                #![trigger candidates[k]]
                0 <= k < n && candidates[k].value & flags == candidates[k].value
                    && (package.spec_entries().get(candidates[k].id) matches Some(
                    EntryView::Simple(_),
                )) implies exists|i: int|
                0 <= i < masks.len() && candidates[k].value & #[trigger] masks[i]
                    == candidates[k].value by {
                if k == n - 1 {
                    let i0 = choose|i: int| 0 <= i < masks0.len() && mask & #[trigger] masks0[i] == mask;
                    assert(masks[i0] == masks0[i0]);
                }
            }
        }
    }
}

/// The keys of the names of the flags that `flags` sets, for the flag values of the
/// entry `entry_ref`, the ones with more bits first.
pub open spec fn flag_keys(package: Library, flags: u32, entry_ref: u32) -> Seq<u32> {
    let candidates = by_popcount(flag_values(package, entry_ref), 0);
    select_flags(package, flags, candidates, candidates.len()).0
}

/// The name of the entry key `key`, or nothing when it cannot be read.
pub open spec fn key_name(package: Library, key: u32) -> Seq<char> {
    match optional_table_string(
        package.spec_table(Origin::Entries),
        key,
        Error::NoEntriesStringTable,
    ) {
        Ok(s) => s,
        Err(_) => Seq::empty(),
    }
}

/// The first `n` texts, joined with `|`.
pub open spec fn joined(parts: Seq<Seq<char>>, n: nat) -> Seq<char>
    decreases n,
{
    if n == 0 || n > parts.len() {
        Seq::empty()
    } else if n == 1 {
        parts[0]
    } else {
        joined(parts, (n - 1) as nat) + "|"@ + parts[n - 1]
    }
}

/// The names of the flags that `flags` sets, joined with `|`, or nothing when it sets
/// none.
pub open spec fn flags_text(package: Library, flags: u32, entry_ref: u32) -> Option<Seq<char>> {
    let keys = flag_keys(package, flags, entry_ref);
    if keys.len() == 0 {
        None
    } else {
        Some(joined(keys.map_values(|k: u32| key_name(package, k)), keys.len()))
    }
}

/// The names of the flags that `flags` sets for the attribute whose resource id is at
/// `name_index` of the resource ids of the document, when that package is loaded.
pub open spec fn search_values_text(
    flags: u32,
    name_index: u32,
    xml_resources: Seq<u32>,
    resources: Resources,
) -> Option<Seq<char>> {
    if name_index >= xml_resources.len() {
        None
    } else {
        let entry_ref = xml_resources[name_index as int];
        match resources.spec_packages().get(package_of(entry_ref)) {
            Some(package) => flags_text(package, flags, entry_ref),
            None => None,
        }
    }
}

/// The text of an integer or flags attribute whose name is at `name_index`.
pub open spec fn flags_resolution(
    name_index: u32,
    flags: u32,
    xml_resources: Seq<u32>,
    resources: Resources,
) -> Option<Seq<char>> {
    if name_index < xml_resources.len() as u32 {
        search_values_text(flags, name_index, xml_resources, resources)
    } else {
        Some("@flags:"@ + decimal(flags as nat))
    }
}

/// The text of a reference to the resource `id`.
pub open spec fn reference_resolution(resources: Resources, id: u32, prefix: Seq<char>) -> Result<
    Seq<char>,
    Error,
> {
    if id == 0 {
        Ok("@null"@)
    } else {
        let package_id = package_of(id);
        match resources.spec_packages().get(package_id) {
            None => Err(Error::PackageNotFound),
            Some(package) => match package.spec_entries().get(id) {
                None => Err(Error::ReferenceNotResolved),
                Some(entry) => reference_text(
                    package.spec_type_name(spec_of(id) as u32),
                    optional_table_string(
                        package.spec_table(Origin::Entries),
                        entry_key(entry),
                        Error::NoEntriesStringTable,
                    ),
                    if resources.spec_main() == Some(package_id) {
                        None
                    } else {
                        match package_name(package.spec_package()) {
                            Ok(name) => Some(name),
                            Err(_) => None,
                        }
                    },
                    prefix,
                ),
            },
        }
    }
}

/// Rendering and resolution of the values of attributes.
pub struct AttributeHelper;

/// At most as many bits are set in `v` as its value.
proof fn lemma_popcount_bound(v: u32)
    ensures
        popcount(v) <= v,
    decreases v,
{
    if v > 0 {
        lemma_popcount_bound(v / 2);
    }
}

/// The amount of bits set in `v`.
fn count_bits(v: u32) -> (r: u32)
    ensures
        r == popcount(v),
{
    proof {
        lemma_popcount_bound(v);
    }
    let mut rest = v;
    let mut count: u32 = 0;
    while rest > 0
        invariant
            count + popcount(rest) == popcount(v),
            popcount(v) <= v,
        decreases rest,
    {
        count = count + rest % 2;
        rest = rest / 2;
    }
    count
}

impl AttributeHelper {
    /// The values, by decreasing amount of bits set, and in their order among equals.
    fn sort_by_popcount(values: &Vec<SimpleEntry>) -> (r: Vec<SimpleEntry>)
        ensures
            simple_views(r@) == by_popcount(simple_views(values@), 0),
    {
        let ghost s = simple_views(values@);
        let mut bits: Vec<u32> = Vec::new();
        let mut i: usize = 0;
        while i < values.len()
            invariant
                i <= values@.len(),
                bits@.len() == i,
                s == simple_views(values@),
                forall|k: int| 0 <= k < i ==> bits@[k] == popcount(#[trigger] s[k].value),
            decreases values@.len() - i,
        {
            bits.push(count_bits(values[i].get_value()));
            i = i + 1;
        }
        let mut out: Vec<SimpleEntry> = Vec::new();
        let mut level: u32 = 33;
        while level > 0
            invariant
                level <= 33,
                bits@.len() == values@.len(),
                s == simple_views(values@),
                forall|k: int| 0 <= k < values@.len() ==> bits@[k] == popcount(#[trigger] s[k].value),
                simple_views(out@) == by_popcount(s, level as int),
            decreases level,
        {
            level = level - 1;
            let ghost before = simple_views(out@);
            let mut j: usize = 0;
            while j < values.len()
                invariant
                    j <= values@.len(),
                    bits@.len() == values@.len(),
                    s == simple_views(values@),
                    forall|k: int| 0 <= k < values@.len() ==> bits@[k] == popcount(#[trigger] s[k].value),
                    simple_views(out@) == before + with_popcount(s, level as nat, j as nat),
                decreases values@.len() - j,
            {
                assert(s[j as int] == values@[j as int]@);
                assert(bits@[j as int] == popcount(s[j as int].value));
                if bits[j] == level {
                    let ghost prev = simple_views(out@);
                    out.push(values[j]);
                    assert(simple_views(out@) =~= prev.push(values@[j as int]@));
                    assert(with_popcount(s, level as nat, (j + 1) as nat) == with_popcount(
                        s,
                        level as nat,
                        j as nat,
                    ).push(s[j as int]));
                    assert(simple_views(out@) =~= before + with_popcount(s, level as nat, (j + 1) as nat));
                }
                j = j + 1;
            }
            assert(simple_views(out@) =~= by_popcount(s, level as int));
        }
        out
    }

    /// The keys of the names of the flags that `flags` sets, among the values of the
    /// complex entry `entry_ref` of the package.
    fn get_strings(flags: u32, entry_ref: u32, package: &Library) -> (r: Vec<u32>)
        ensures
            r@ == flag_keys(*package, flags, entry_ref),
    {
        let sorted = match package.entry(entry_ref) {
            Ok(e) => match e.complex() {
                Ok(c) => Self::sort_by_popcount(c.get_entries()),
                Err(_) => Vec::new(),
            },
            Err(_) => Vec::new(),
        };
        let ghost candidates = simple_views(sorted@);
        proof {
            lemma_by_popcount_empty(0);
            if sorted@.len() == 0 {
                assert(candidates =~= Seq::<SimpleEntryView>::empty());
            }
        }
        assert(candidates == by_popcount(flag_values(*package, entry_ref), 0));
        let mut strs: Vec<u32> = Vec::new();
        let mut masks: Vec<u32> = Vec::new();
        let mut i: usize = 0;
        while i < sorted.len()
            invariant
                i <= sorted@.len(),
                candidates == simple_views(sorted@),
                (strs@, masks@) == select_flags(*package, flags, candidates, i as nat),
            decreases sorted@.len() - i,
        {
            let ie = sorted[i];
            assert(ie@ == candidates[i as int]);
            let mask = ie.get_value();
            if (mask & flags) == mask {
                let mut has_to_add = true;
                let mut k: usize = 0;
                while k < masks.len()
                    invariant
                        k <= masks@.len(),
                        has_to_add <==> !(exists|j: int|
                            0 <= j < k && mask & #[trigger] masks@[j] == mask),
                    decreases masks@.len() - k,
                {
                    if mask & masks[k] == mask {
                        has_to_add = false;
                    }
                    k = k + 1;
                }
                if has_to_add {
                    match package.entry(ie.get_id()) {
                        Ok(entry) => match entry.simple() {
                            Ok(simple) => {
                                strs.push(simple.get_key());
                                masks.push(mask);
                            },
                            Err(_) => {},
                        },
                        Err(_) => {},
                    }
                }
            }
            i = i + 1;
        }
        strs
    }

    /// The names of the flags that `flags` sets for the entry `entry_ref`, joined with
    /// `|`, or `None` when it sets none.
    fn search_flags(flags: u32, entry_ref: u32, package: &Library) -> (r: Option<String>)
        ensures
            match (r, flags_text(*package, flags, entry_ref)) {
                (Some(s), Some(t)) => s@ == t,
                (None, None) => true,
                _ => false,
            },
    {
        let keys = Self::get_strings(flags, entry_ref, package);
        if keys.len() == 0 {
            return None;
        }
        let ghost names = keys@.map_values(|k: u32| key_name(*package, k));
        let mut out = String::new();
        let mut i: usize = 0;
        while i < keys.len()
            invariant
                i <= keys@.len(),
                keys@.len() > 0,
                names == keys@.map_values(|k: u32| key_name(*package, k)),
                out@ == joined(names, i as nat),
            decreases keys@.len() - i,
        {
            if i > 0 {
                push_str(&mut out, "|");
            }
            match package.entries_string(keys[i]) {
                Ok(name) => push_str(&mut out, name.as_str()),
                Err(_) => {},
            }
            proof {
                reveal_strlit("|");
                assert(names[i as int] == key_name(*package, keys@[i as int]));
            }
            i = i + 1;
            assert(out@ =~= joined(names, i as nat));
        }
        Some(out)
    }

    /// The names of the flags that `flags` sets for the attribute whose resource id is at
    /// `name_index` of the resource ids of the document.
    fn search_values(flags: u32, name_index: u32, xml_resources: &[u32], resources: &Resources) -> (r:
        Option<String>)
        ensures
            match (r, search_values_text(flags, name_index, xml_resources@, *resources)) {
                (Some(s), Some(t)) => s@ == t,
                (None, None) => true,
                _ => false,
            },
    {
        let i = name_index as usize;
        if i >= xml_resources.len() {
            return None;
        }
        let entry_ref = xml_resources[i];
        let package_id = entry_ref.package();
        match resources.package(package_id) {
            Some(package) => Self::search_flags(flags, entry_ref, package),
            None => None,
        }
    }

    /// The text of an integer or flags attribute: the names of the flags it sets when its
    /// name has a resource id, `@flags:` and the value when it has none.
    pub fn resolve_flags<A: AttributeTrait>(
        attribute: &A,
        flags: u32,
        xml_resources: &[u32],
        resources: &Resources,
    ) -> (r: Option<String>)
        requires
            attribute.spec_name() is Ok,
        ensures
            match (r, flags_resolution(attribute.spec_name()->Ok_0, flags, xml_resources@, *resources)) {
                (Some(s), Some(t)) => s@ == t,
                (None, None) => true,
                _ => false,
            },
    {
        let name_index = match attribute.name() {
            Ok(n) => n,
            Err(_) => 0,
        };
        if name_index < xml_resources.len() as u32 {
            Self::search_values(flags, name_index, xml_resources, resources)
        } else {
            let mut out = String::new();
            push_str(&mut out, "@flags:");
            push_decimal(&mut out, flags as u64);
            proof {
                reveal_strlit("@flags:");
            }
            Some(out)
        }
    }

    /// The text of a reference to the resource `id`: `@null` for 0, else the reference
    /// that its package formats, with the name of the package as namespace unless it is
    /// the main one.
    pub fn resolve_reference(resources: &Resources, id: u32, prefix: &str) -> (r: Result<
        String,
        Error,
    >)
        ensures
            string_result(r) == reference_resolution(*resources, id, prefix@),
    {
        let package_id = id.package();
        if id == 0 {
            let null = "@null";
            proof {
                reveal_strlit("@null");
            }
            return Ok(null.to_owned());
        }
        let is_main = resources.is_main_package(package_id);
        let package = match resources.package(package_id) {
            Some(p) => p,
            None => {
                return Err(Error::PackageNotFound);
            },
        };
        let key = match package.entry(id) {
            Ok(e) => e.get_key(),
            Err(_) => {
                return Err(Error::ReferenceNotResolved);
            },
        };
        let namespace = if !is_main {
            package.name()
        } else {
            None
        };
        package.format_reference(id, key, namespace, prefix)
    }

}

/// The text of an attribute value: its text, or a value rendered in floating point.
pub enum AttributeText {
    Text(Seq<char>),
    Unformatted(Value),
}

impl View for AttributeValue {
    type V = AttributeText;

    open spec fn view(&self) -> AttributeText {
        match self {
            AttributeValue::Text(s) => AttributeText::Text(s@),
            AttributeValue::Unformatted(v) => AttributeText::Unformatted(*v),
        }
    }
}

/// The view of a list of pairs of a name and a value.
pub open spec fn pairs_view<X: View>(s: Seq<(String, X)>) -> Seq<(Seq<char>, X::V)> {
    s.map_values(|p: (String, X)| (p.0@, p.1@))
}

/// The first index from `i` on whose name is `key`.
pub open spec fn key_index<X>(s: Seq<(Seq<char>, X)>, key: Seq<char>, i: int) -> Option<int>
    decreases s.len() - i,
{
    if i < 0 || i >= s.len() {
        None
    } else if s[i].0 == key {
        Some(i)
    } else {
        key_index(s, key, i + 1)
    }
}

/// A found index is a pair named `key` at or after `i`.
pub proof fn lemma_key_index<X>(s: Seq<(Seq<char>, X)>, key: Seq<char>, i: int)
    ensures
        key_index(s, key, i) matches Some(k) ==> (i <= k < s.len() && s[k].0 == key),
    decreases s.len() - i,
{
    if 0 <= i < s.len() && s[i].0 != key {
        lemma_key_index(s, key, i + 1);
    }
}

/// The value of the first pair named `key`.
pub open spec fn value_of<X>(s: Seq<(Seq<char>, X)>, key: Seq<char>) -> Option<X> {
    match key_index(s, key, 0) {
        Some(k) => Some(s[k].1),
        None => None,
    }
}

/// The pairs with `value` set for `key`: in place of the first pair named `key`, or at
/// the end when there is none.
pub open spec fn set_key<X>(s: Seq<(Seq<char>, X)>, key: Seq<char>, value: X) -> Seq<
    (Seq<char>, X),
> {
    match key_index(s, key, 0) {
        Some(k) => s.update(k, (key, value)),
        None => s.push((key, value)),
    }
}

/// The index of the first pair named `key`.
pub(crate) fn find_key<X: View>(v: &Vec<(String, X)>, key: &String) -> (r: Option<usize>)
    ensures
        match r {
            Some(k) => key_index(pairs_view(v@), key@, 0) == Some(k as int),
            None => key_index(pairs_view(v@), key@, 0) is None,
        },
{
    let ghost s = pairs_view(v@);
    let mut i: usize = 0;
    while i < v.len()
        invariant
            i <= v@.len(),
            s == pairs_view(v@),
            key_index(s, key@, 0) == key_index(s, key@, i as int),
        decreases v@.len() - i,
    {
        assert(s[i as int].0 == v@[i as int].0@);
        if v[i].0 == *key {
            return Some(i);
        }
        i = i + 1;
    }
    None
}

/// Sets `value` for `key`.
fn set_pair<X: View>(v: &mut Vec<(String, X)>, key: String, value: X)
    ensures
        pairs_view(final(v)@) == set_key(pairs_view(old(v)@), key@, value@),
{
    proof {
        lemma_key_index(pairs_view(v@), key@, 0);
    }
    match find_key(v, &key) {
        Some(k) => {
            let ghost kv = key@;
            let ghost vv = value@;
            v.set(k, (key, value));
            assert(pairs_view(v@) =~= pairs_view(old(v)@).update(k as int, (kv, vv)));
        },
        None => {
            let ghost kv = key@;
            let ghost vv = value@;
            v.push((key, value));
            assert(pairs_view(v@) =~= pairs_view(old(v)@).push((kv, vv)));
        },
    }
}

/// The text of the attribute whose twenty bytes are `a`, resolved with the main string
/// table, the resources and the resource ids of the document.
#[verifier::opaque]
pub open spec fn attribute_text(
    string_table: PackageStringTable,
    resources: Resources,
    res: Seq<u32>,
    a: Seq<u8>,
) -> Result<AttributeText, Error> {
    let class = u32_at(a, 8);
    let t = (u32_at(a, 12) / 0x0100_0000) as u8;
    let d = u32_at(a, 16);
    if class != 0xFFFF_FFFF || (t == TOKEN_TYPE_STRING && !has_invalid_unit(t, d)) {
        let index = if class != 0xFFFF_FFFF {
            class
        } else {
            d
        };
        match string_table.spec_string(index) {
            Ok(s) => Ok(AttributeText::Text(s)),
            Err(e) => Err(e),
        }
    } else if has_invalid_unit(t, d) {
        Err(Error::InvalidUnitIndex { index: d % 16 })
    } else if t == TOKEN_TYPE_REFERENCE_ID || t == TOKEN_TYPE_DYN_REFERENCE {
        match reference_resolution(resources, d, "@"@) {
            Ok(s) => Ok(AttributeText::Text(s)),
            Err(e) => Err(e),
        }
    } else if t == TOKEN_TYPE_ATTRIBUTE_REFERENCE_ID || t == TOKEN_TYPE_DYN_ATTRIBUTE {
        match reference_resolution(resources, d, "?"@) {
            Ok(s) => Ok(AttributeText::Text(s)),
            Err(e) => Err(e),
        }
    } else if t == TOKEN_TYPE_INTEGER || t == TOKEN_TYPE_FLAGS {
        match flags_resolution(u32_at(a, 4), d, res, resources) {
            Some(s) => Ok(AttributeText::Text(s)),
            None => Ok(AttributeText::Text(decimal(d as nat))),
        }
    } else if t == TOKEN_TYPE_DIMENSION {
        Ok(AttributeText::Unformatted(Value::Dimension(d)))
    } else if t == TOKEN_TYPE_FRACTION {
        Ok(AttributeText::Unformatted(Value::Fraction(d)))
    } else if t == TOKEN_TYPE_FLOAT {
        Ok(AttributeText::Unformatted(Value::Float(d)))
    } else if t == TOKEN_TYPE_BOOLEAN {
        Ok(
            AttributeText::Text(
                if d > 0 {
                    "true"@
                } else {
                    "false"@
                },
            ),
        )
    } else if t == TOKEN_TYPE_ARGB8 || t == TOKEN_TYPE_RGB8 || t == TOKEN_TYPE_ARGB4 || t
        == TOKEN_TYPE_RGB4 {
        Ok(AttributeText::Text(color_text(d)))
    } else {
        Ok(AttributeText::Text("Unknown"@))
    }
}

/// The prefix of the name of the attribute `a`: the prefix of its namespace and a colon,
/// or nothing when it has no namespace.
pub open spec fn attribute_prefix(
    string_table: PackageStringTable,
    namespaces: Seq<(Seq<char>, Seq<char>)>,
    a: Seq<u8>,
) -> Result<Seq<char>, Error> {
    let index = u32_at(a, 0);
    if index == 0xFFFF_FFFF {
        Ok(Seq::empty())
    } else {
        match string_table.spec_string(index) {
            Err(e) => Err(e),
            Ok(namespace) => match value_of(namespaces, namespace) {
                None => Err(Error::NamespaceNotFound),
                Some(prefix) => Ok(prefix + ":"@),
            },
        }
    }
}

/// The name and text of the attribute whose twenty bytes are `a`.
pub open spec fn attribute_pair_of_bytes(
    string_table: PackageStringTable,
    namespaces: Seq<(Seq<char>, Seq<char>)>,
    resources: Resources,
    res: Seq<u32>,
    a: Seq<u8>,
) -> Result<(Seq<char>, AttributeText), Error> {
    match attribute_prefix(string_table, namespaces, a) {
        Err(e) => Err(e),
        Ok(prefix) => match string_table.spec_string(u32_at(a, 4)) {
            Err(e) => Err(e),
            Ok(name) => match attribute_text(string_table, resources, res, a) {
                Err(e) => Err(e),
                Ok(text) => Ok((prefix + name, text)),
            },
        },
    }
}

/// The view of a result of an attribute's name and value.
pub open spec fn pair_result(r: Result<(String, AttributeValue), Error>) -> Result<
    (Seq<char>, AttributeText),
    Error,
> {
    match r {
        Ok((name, value)) => Ok((name@, value@)),
        Err(e) => Err(e),
    }
}

/// The name and text of the attribute at `i` of the tag start `t`.
pub open spec fn attribute_pair(
    string_table: PackageStringTable,
    namespaces: Seq<(Seq<char>, Seq<char>)>,
    resources: Resources,
    res: Seq<u32>,
    t: Seq<u8>,
    i: u32,
) -> Result<(Seq<char>, AttributeText), Error> {
    if attribute_start(i) + 20 > t.len() {
        Err(Error::AttributeOutOfBounds)
    } else {
        attribute_pair_of_bytes(
            string_table,
            namespaces,
            resources,
            res,
            t.subrange(attribute_start(i), attribute_start(i) + 20),
        )
    }
}

/// The attributes of the first `n` of the tag start `t`, each name once.
pub open spec fn attribute_pairs(
    string_table: PackageStringTable,
    namespaces: Seq<(Seq<char>, Seq<char>)>,
    resources: Resources,
    res: Seq<u32>,
    t: Seq<u8>,
    n: nat,
) -> Result<Seq<(Seq<char>, AttributeText)>, Error>
    decreases n,
{
    if n == 0 {
        Ok(Seq::empty())
    } else {
        match attribute_pairs(string_table, namespaces, resources, res, t, (n - 1) as nat) {
            Err(e) => Err(e),
            Ok(before) => match attribute_pair(
                string_table,
                namespaces,
                resources,
                res,
                t,
                (n - 1) as u32,
            ) {
                Err(e) => Err(e),
                Ok((name, text)) => Ok(set_key(before, name, text)),
            },
        }
    }
}

/// The name and the attributes of the element that the tag start `t` begins.
pub open spec fn element_data(
    string_table: PackageStringTable,
    namespaces: Seq<(Seq<char>, Seq<char>)>,
    resources: Resources,
    res: Seq<u32>,
    t: Seq<u8>,
) -> Result<(Seq<char>, Seq<(Seq<char>, AttributeText)>), Error> {
    match field_u32(t, 20) {
        Err(e) => Err(e),
        Ok(index) => match string_table.spec_string(index) {
            Err(e) => Err(e),
            Ok(name) => match tag_start_attributes_amount(t) {
                Err(e) => Err(e),
                Ok(n) => match attribute_pairs(string_table, namespaces, resources, res, t, n as nat) {
                    Err(e) => Err(e),
                    Ok(attributes) => Ok((name, attributes)),
                },
            },
        },
    }
}

/// The view of a result of element data.
pub open spec fn element_data_result(r: Result<(String, Vec<(String, AttributeValue)>), Error>) -> Result<
    (Seq<char>, Seq<(Seq<char>, AttributeText)>),
    Error,
> {
    match r {
        Ok((name, attributes)) => Ok((name@, pairs_view(attributes@))),
        Err(e) => Err(e),
    }
}

/// Decodes a binary XML document into a tree of elements.
pub struct XmlVisitor<'a> {
    main_string_table: Option<PackageStringTable<'a>>,
    namespaces: Vec<(String, String)>,
    container: ElementContainer,
    res: Vec<u32>,
    resources: &'a Resources<'a>,
}

impl<'a> XmlVisitor<'a> {
    pub closed spec fn spec_string_table(&self) -> Option<PackageStringTable<'a>> {
        self.main_string_table
    }

    /// The prefixes of the namespaces, by namespace.
    pub closed spec fn spec_namespaces(&self) -> Seq<(Seq<char>, Seq<char>)> {
        pairs_view(self.namespaces@)
    }

    pub closed spec fn spec_container(&self) -> ElementContainer {
        self.container
    }

    /// The resource ids of the names of the attributes.
    pub closed spec fn spec_res(&self) -> Seq<u32> {
        self.res@
    }

    pub closed spec fn spec_resources(&self) -> Resources<'a> {
        *self.resources
    }

    pub fn new(resources: &'a Resources<'a>) -> (r: Self)
        ensures
            r.spec_string_table() is None,
            r.spec_namespaces() == Seq::<(Seq<char>, Seq<char>)>::empty(),
            r.spec_container().spec_stack() == Seq::<Element>::empty(),
            r.spec_container().spec_root() is None,
            r.spec_res() == Seq::<u32>::empty(),
            r.spec_resources() == *resources,
    {
        let r = XmlVisitor {
            main_string_table: None,
            namespaces: Vec::new(),
            container: ElementContainer::new(),
            res: Vec::new(),
            resources,
        };
        assert(r.spec_namespaces() =~= Seq::<(Seq<char>, Seq<char>)>::empty());
        r
    }

    pub fn get_namespaces(&self) -> (r: &Vec<(String, String)>)
        ensures
            pairs_view(r@) == self.spec_namespaces(),
    {
        &self.namespaces
    }

    pub fn get_root(&self) -> (r: &Option<Element>)
        ensures
            *r == self.spec_container().spec_root(),
    {
        self.container.root()
    }

    pub fn get_string_table(&self) -> (r: &Option<PackageStringTable<'a>>)
        ensures
            *r == self.spec_string_table(),
    {
        &self.main_string_table
    }

    pub fn get_resources(&self) -> (r: &Vec<u32>)
        ensures
            r@ == self.spec_res(),
    {
        &self.res
    }

    pub fn arsc(&self) -> (r: &Resources<'a>)
        ensures
            *r == self.spec_resources(),
    {
        self.resources
    }

    /// The root element of the document, to be encoded: there has to be one, and a
    /// string table.
    pub fn document_root(&self) -> (r: Result<&Element, Error>)
        ensures
            match self.spec_container().spec_root() {
                None => r == Err::<&Element, Error>(Error::NoRootElement),
                Some(root) => if self.spec_string_table() is Some {
                    r matches Ok(e) && *e == root
                } else {
                    r == Err::<&Element, Error>(Error::NoStringTable)
                },
            },
    {
        match self.container.root() {
            None => Err(Error::NoRootElement),
            Some(root) => if self.main_string_table.is_some() {
                Ok(root)
            } else {
                Err(Error::NoStringTable)
            },
        }
    }

    /// The text of the value of an attribute.
    fn attribute_value(&self, string_table: &PackageStringTable<'a>, attribute: &AttributeWrapper) -> (r:
        Result<AttributeValue, Error>)
        requires
            attribute@.len() == 20,
        ensures
            match r {
                Ok(v) => attribute_text(
                    *string_table,
                    self.spec_resources(),
                    self.spec_res(),
                    attribute@,
                ) == Ok::<AttributeText, Error>(v@),
                Err(e) => attribute_text(
                    *string_table,
                    self.spec_resources(),
                    self.spec_res(),
                    attribute@,
                ) == Err::<AttributeText, Error>(e),
            },
    {
        proof {
            reveal(attribute_text);
        }
        let value = attribute.value()?;
        match value {
            Value::StringReference(index) => {
                let s = string_table.get_string(index)?;
                Ok(AttributeValue::Text(s))
            },
            Value::ReferenceId(id) => {
                let s = AttributeHelper::resolve_reference(self.resources, id, "@")?;
                proof {
                    reveal_strlit("@");
                }
                Ok(AttributeValue::Text(s))
            },
            Value::AttributeReferenceId(id) => {
                let s = AttributeHelper::resolve_reference(self.resources, id, "?")?;
                proof {
                    reveal_strlit("?");
                }
                Ok(AttributeValue::Text(s))
            },
            Value::Integer(v) | Value::Flags(v) => {
                match AttributeHelper::resolve_flags(attribute, v, self.res.as_slice(), self.resources) {
                    Some(s) => Ok(AttributeValue::Text(s)),
                    None => {
                        let mut s = String::new();
                        push_decimal(&mut s, v as u64);
                        Ok(AttributeValue::Text(s))
                    },
                }
            },
            _ => match value.to_string() {
                Some(s) => Ok(AttributeValue::Text(s)),
                None => Ok(AttributeValue::Unformatted(value)),
            },
        }
    }

    /// The name and the attributes of the element that a tag start begins.
    fn get_element_data(
        &self,
        string_table: &PackageStringTable<'a>,
        tag_start: &XmlTagStartWrapper,
    ) -> (r: Result<(String, Vec<(String, AttributeValue)>), Error>)
        ensures
            element_data_result(r) == element_data(
                *string_table,
                self.spec_namespaces(),
                self.spec_resources(),
                self.spec_res(),
                tag_start@,
            ),
    {
        let name_index = tag_start.element_name_index()?;
        let name = string_table.get_string(name_index)?;
        let amount = tag_start.attributes_amount()?;
        let ghost t = tag_start@;
        let ghost nss = self.spec_namespaces();
        let ghost resources = self.spec_resources();
        let ghost res = self.spec_res();
        let mut attributes: Vec<(String, AttributeValue)> = Vec::new();
        assert(pairs_view(attributes@) =~= Seq::<(Seq<char>, AttributeText)>::empty());
        let mut i: u32 = 0;
        while i < amount
            invariant
                i <= amount,
                t == tag_start@,
                nss == self.spec_namespaces(),
                resources == self.spec_resources(),
                res == self.spec_res(),
                field_u32(t, 20) == Ok::<u32, Error>(name_index),
                string_table.spec_string(name_index) == Ok::<Seq<char>, Error>(name@),
                tag_start_attributes_amount(t) == Ok::<u32, Error>(amount),
                attribute_pairs(*string_table, nss, resources, res, t, i as nat) == Ok::<
                    Seq<(Seq<char>, AttributeText)>,
                    Error,
                >(pairs_view(attributes@)),
            decreases amount - i,
        {
            let ghost before = pairs_view(attributes@);
            proof {
                lemma_attribute_pairs_step(*string_table, nss, resources, res, t, i, before);
            }
            let attribute = match tag_start.attribute(i) {
                Ok(a) => a,
                Err(e) => {
                    proof {
                        lemma_attribute_pairs_error(
                            *string_table,
                            nss,
                            resources,
                            res,
                            t,
                            (i + 1) as nat,
                            amount as nat,
                        );
                    }
                    return Err(e);
                },
            };
            let pair = self.attribute_pair_of(string_table, &attribute);
            match pair {
                Ok((final_name, value)) => {
                    set_pair(&mut attributes, final_name, value);
                },
                Err(e) => {
                    proof {
                        lemma_attribute_pairs_error(
                            *string_table,
                            nss,
                            resources,
                            res,
                            t,
                            (i + 1) as nat,
                            amount as nat,
                        );
                    }
                    return Err(e);
                },
            }
            i = i + 1;
        }
        Ok((name, attributes))
    }

    /// The name and the value of an attribute.
    fn attribute_pair_of(&self, string_table: &PackageStringTable<'a>, attribute: &AttributeWrapper) -> (r:
        Result<(String, AttributeValue), Error>)
        requires
            attribute@.len() == 20,
        ensures
            pair_result(r) == attribute_pair_of_bytes(
                *string_table,
                self.spec_namespaces(),
                self.spec_resources(),
                self.spec_res(),
                attribute@,
            ),
    {
        let mut final_name = String::new();
        let namespace_index = attribute.namespace()?;
        if namespace_index != 0xFFFF_FFFF {
            let namespace = string_table.get_string(namespace_index)?;
            proof {
                lemma_key_index(self.spec_namespaces(), namespace@, 0);
            }
            match find_key(&self.namespaces, &namespace) {
                Some(k) => {
                    push_str(&mut final_name, self.namespaces[k].1.as_str());
                    push_str(&mut final_name, ":");
                    proof {
                        reveal_strlit(":");
                    }
                },
                None => {
                    return Err(Error::NamespaceNotFound);
                },
            }
        }
        let name_index = attribute.name()?;
        let name = string_table.get_string(name_index)?;
        push_str(&mut final_name, name.as_str());
        let value = self.attribute_value(string_table, attribute)?;
        Ok((final_name, value))
    }

}

/// Whether `e` is a new element with the given name and attributes, and no prefixes.
pub open spec fn element_built(e: Element, name: Seq<char>, attributes: Seq<(Seq<char>, AttributeText)>) -> bool {
    &&& e.spec_tag().spec_name() == name
    &&& e.spec_tag().spec_prefixes() == Seq::<Seq<char>>::empty()
    &&& pairs_view(e.spec_attributes()) == attributes
    &&& e.spec_children() == Seq::<Element>::empty()
    &&& e.spec_level() == 0
}

/// The element that a tag start begins, for a visitor.
pub open spec fn built_element_data(v: XmlVisitor, t: Seq<u8>) -> Result<
    (Seq<char>, Seq<(Seq<char>, AttributeText)>),
    Error,
> {
    match v.spec_string_table() {
        None => Err(Error::NoMainStringTable),
        Some(st) => element_data(st, v.spec_namespaces(), v.spec_resources(), v.spec_res(), t),
    }
}

impl<'a> XmlVisitor<'a> {
    /// The element that a tag start begins.
    fn build_element(&self, tag_start: &XmlTagStartWrapper) -> (r: Result<Element, Error>)
        ensures
            match (r, built_element_data(*self, tag_start@)) {
                (Ok(e), Ok((name, attributes))) => element_built(e, name, attributes),
                (Err(e), Err(f)) => e == f,
                _ => false,
            },
    {
        match &self.main_string_table {
            Some(string_table) => {
                let (name, attributes) = self.get_element_data(string_table, tag_start)?;
                let prefixes: Vec<String> = Vec::new();
                let tag = Tag::new(name, prefixes);
                proof {
                    assert(prefixes@.map_values(|p: String| p@) =~= Seq::<Seq<char>>::empty());
                }
                Ok(Element::new(tag, attributes))
            },
            None => Err(Error::NoMainStringTable),
        }
    }
}

/// Whether `v` is a visitor over `resources` that has seen nothing yet.
pub open spec fn fresh_xml_visitor<'a>(v: XmlVisitor<'a>, resources: Resources<'a>) -> bool {
    &&& v.spec_string_table() is None
    &&& v.spec_namespaces() == Seq::<(Seq<char>, Seq<char>)>::empty()
    &&& v.spec_container().spec_stack() == Seq::<Element>::empty()
    &&& v.spec_container().spec_root() is None
    &&& v.spec_res() == Seq::<u32>::empty()
    &&& v.spec_resources() == resources
}

/// Whether `v` is what a visitor over `resources` becomes when it is handed `visits`,
/// one after the other, from the start.
pub open spec fn xml_built_from<'a>(
    v: XmlVisitor<'a>,
    resources: Resources<'a>,
    visits: Seq<Visit>,
) -> bool {
    exists|v0: XmlVisitor<'a>| fresh_xml_visitor(v0, resources) && #[trigger] walks(v0, v, visits)
}

/// A visitor keeps the resources it was made with, whatever it is handed.
pub proof fn lemma_xml_walk_keeps_resources<'a>(
    first: XmlVisitor<'a>,
    last: XmlVisitor<'a>,
    visits: Seq<Visit>,
)
    requires
        walks(first, last, visits),
    ensures
        last.spec_resources() == first.spec_resources(),
{
    let states = choose|states: Seq<XmlVisitor<'a>>|
        #[trigger] runs(states, visits) && states[0] == first && states.last() == last;
    lemma_xml_states_keep_resources(states, visits, visits.len() as int);
}

/// Each of the states of a run has the resources of the first.
proof fn lemma_xml_states_keep_resources<'a>(
    states: Seq<XmlVisitor<'a>>,
    visits: Seq<Visit>,
    i: int,
)
    requires
        runs(states, visits),
        0 <= i <= visits.len(),
    ensures
        states[i].spec_resources() == states[0].spec_resources(),
    decreases i,
{
    if i > 0 {
        let j = i - 1;
        lemma_xml_states_keep_resources(states, visits, j);
        assert(XmlVisitor::steps(states[j], states[j + 1], visits[j]));
    }
}


/// The first string table is the main one; later ones are left out.
pub open spec fn xml_on_string_table<'a>(
    before: XmlVisitor<'a>,
    after: XmlVisitor<'a>,
    string_table: StringTableWrapper<'a>,
    origin: Origin,
) -> bool {
    &&& before.spec_string_table() is None ==> (after.spec_string_table() matches Some(
            t,
        ) && fresh_table(t, string_table))
    &&& before.spec_string_table() is Some ==> after.spec_string_table() == before.spec_string_table()
    &&& after.spec_namespaces() == before.spec_namespaces()
    &&& after.spec_container() == before.spec_container()
    &&& after.spec_res() == before.spec_res()
    &&& after.spec_resources() == before.spec_resources()
}

/// Records the prefix of the namespace, when both can be read.
pub open spec fn xml_on_namespace_start<'a>(
    before: XmlVisitor<'a>,
    after: XmlVisitor<'a>,
    namespace_start: XmlNamespaceStartWrapper<'a>,
) -> bool {
    &&& after.spec_namespaces() == match before.spec_string_table() {
            Some(st) => match (
                lookup(&st, namespace_start.spec_namespace_index()),
                lookup(&st, namespace_start.spec_prefix_index()),
            ) {
                (Ok(namespace), Ok(prefix)) => set_key(
                    before.spec_namespaces(),
                    namespace,
                    prefix,
                ),
                _ => before.spec_namespaces(),
            },
            None => before.spec_namespaces(),
        }
    &&& after.spec_string_table() == before.spec_string_table()
    &&& after.spec_container() == before.spec_container()
    &&& after.spec_res() == before.spec_res()
    &&& after.spec_resources() == before.spec_resources()
}

/// Starts the element that the tag begins, when it can be built.
pub open spec fn xml_on_tag_start<'a>(
    before: XmlVisitor<'a>,
    after: XmlVisitor<'a>,
    tag_start: XmlTagStartWrapper<'a>,
) -> bool {
    &&& match built_element_data(before, tag_start@) {
            Err(_) => after.spec_container() == before.spec_container(),
            Ok((name, attributes)) => exists|e: Element|
                {
                    &&& element_built(e, name, attributes)
                    &&& after.spec_container().spec_stack() == before.spec_container().spec_stack().push(
                        e.with_level(before.spec_container().spec_stack().len() as u32),
                    )
                    &&& after.spec_container().spec_root() == before.spec_container().spec_root()
                },
        }
    &&& after.spec_string_table() == before.spec_string_table()
    &&& after.spec_namespaces() == before.spec_namespaces()
    &&& after.spec_res() == before.spec_res()
    &&& after.spec_resources() == before.spec_resources()
}

/// Ends the innermost open element.
pub open spec fn xml_on_tag_end<'a>(
    before: XmlVisitor<'a>,
    after: XmlVisitor<'a>,
    tag_end: XmlTagEndWrapper<'a>,
) -> bool {
    &&& ended(after.spec_container(), before.spec_container())
    &&& after.spec_string_table() == before.spec_string_table()
    &&& after.spec_namespaces() == before.spec_namespaces()
    &&& after.spec_res() == before.spec_res()
    &&& after.spec_resources() == before.spec_resources()
}

/// Keeps the resource ids of the names of the attributes, when they can be read.
pub open spec fn xml_on_resource<'a>(
    before: XmlVisitor<'a>,
    after: XmlVisitor<'a>,
    resource: ResourceWrapper<'a>,
) -> bool {
    &&& after.spec_res() == if resources_spec(resource@) is Ok {
            resources_spec(resource@)->Ok_0
        } else {
            before.spec_res()
        }
    &&& after.spec_string_table() == before.spec_string_table()
    &&& after.spec_namespaces() == before.spec_namespaces()
    &&& after.spec_container() == before.spec_container()
    &&& after.spec_resources() == before.spec_resources()
}

/// Not a chunk of a binary XML document: left out.
pub open spec fn xml_on_package<'a>(
    before: XmlVisitor<'a>,
    after: XmlVisitor<'a>,
    chunk: PackageWrapper<'a>,
) -> bool {
    &&& after.spec_string_table() == before.spec_string_table()
    &&& after.spec_namespaces() == before.spec_namespaces()
    &&& after.spec_container() == before.spec_container()
    &&& after.spec_res() == before.spec_res()
    &&& after.spec_resources() == before.spec_resources()
}

/// Not a chunk of a binary XML document: left out.
pub open spec fn xml_on_table_type<'a>(
    before: XmlVisitor<'a>,
    after: XmlVisitor<'a>,
    chunk: TableTypeWrapper<'a>,
) -> bool {
    &&& after.spec_string_table() == before.spec_string_table()
    &&& after.spec_namespaces() == before.spec_namespaces()
    &&& after.spec_container() == before.spec_container()
    &&& after.spec_res() == before.spec_res()
    &&& after.spec_resources() == before.spec_resources()
}

/// Not a chunk of a binary XML document: left out.
pub open spec fn xml_on_type_spec<'a>(
    before: XmlVisitor<'a>,
    after: XmlVisitor<'a>,
    chunk: TypeSpecWrapper<'a>,
) -> bool {
    &&& after.spec_string_table() == before.spec_string_table()
    &&& after.spec_namespaces() == before.spec_namespaces()
    &&& after.spec_container() == before.spec_container()
    &&& after.spec_res() == before.spec_res()
    &&& after.spec_resources() == before.spec_resources()
}

/// The prefixes of namespaces are kept to the end of the document.
pub open spec fn xml_on_namespace_end<'a>(
    before: XmlVisitor<'a>,
    after: XmlVisitor<'a>,
    chunk: XmlNamespaceEndWrapper<'a>,
) -> bool {
    &&& after.spec_string_table() == before.spec_string_table()
    &&& after.spec_namespaces() == before.spec_namespaces()
    &&& after.spec_container() == before.spec_container()
    &&& after.spec_res() == before.spec_res()
    &&& after.spec_resources() == before.spec_resources()
}

/// Texts are left out of the element tree.
pub open spec fn xml_on_text<'a>(
    before: XmlVisitor<'a>,
    after: XmlVisitor<'a>,
    chunk: XmlTextWrapper<'a>,
) -> bool {
    &&& after.spec_string_table() == before.spec_string_table()
    &&& after.spec_namespaces() == before.spec_namespaces()
    &&& after.spec_container() == before.spec_container()
    &&& after.spec_res() == before.spec_res()
    &&& after.spec_resources() == before.spec_resources()
}

impl<'a> ChunkVisitor<'a> for XmlVisitor<'a> {
    open spec fn steps(before: Self, after: Self, visit: Visit) -> bool {
        match visit {
            Visit::StringTable(bytes, origin) => exists|w: StringTableWrapper<'a>|
                w@ == bytes && #[trigger] xml_on_string_table(before, after, w, origin),
            Visit::Package(bytes) => exists|w: PackageWrapper<'a>|
                w@ == bytes && #[trigger] xml_on_package(before, after, w),
            Visit::TableType(bytes, offset) => exists|w: TableTypeWrapper<'a>|
                w@ == bytes && w.spec_data_offset() == offset && #[trigger] xml_on_table_type(
                    before,
                    after,
                    w,
                ),
            Visit::TypeSpec(bytes) => exists|w: TypeSpecWrapper<'a>|
                w@ == bytes && #[trigger] xml_on_type_spec(before, after, w),
            Visit::XmlNamespaceStart(bytes) => exists|w: XmlNamespaceStartWrapper<'a>|
                w@ == bytes && #[trigger] xml_on_namespace_start(before, after, w),
            Visit::XmlNamespaceEnd(bytes) => exists|w: XmlNamespaceEndWrapper<'a>|
                w@ == bytes && #[trigger] xml_on_namespace_end(before, after, w),
            Visit::XmlTagStart(bytes) => exists|w: XmlTagStartWrapper<'a>|
                w@ == bytes && #[trigger] xml_on_tag_start(before, after, w),
            Visit::XmlTagEnd(bytes) => exists|w: XmlTagEndWrapper<'a>|
                w@ == bytes && #[trigger] xml_on_tag_end(before, after, w),
            Visit::XmlText(bytes) => exists|w: XmlTextWrapper<'a>|
                w@ == bytes && #[trigger] xml_on_text(before, after, w),
            Visit::Resource(bytes) => exists|w: ResourceWrapper<'a>|
                w@ == bytes && #[trigger] xml_on_resource(before, after, w),
        }
    }

    /// The first string table is the main one; later ones are left out.
    fn visit_string_table(&mut self, string_table: StringTableWrapper<'a>, origin: Origin)
        ensures
            xml_on_string_table(*old(self), *final(self), string_table, origin),
    {
        let ghost witness = string_table;
        if self.main_string_table.is_none() {
            self.main_string_table = Some(StringTableCache::new(string_table));
        }
        proof {
            assert(xml_on_string_table(*old(self), *self, witness, origin));
        }
    }

    /// Records the prefix of the namespace, when both can be read.
    fn visit_xml_namespace_start(&mut self, namespace_start: XmlNamespaceStartWrapper<'a>)
        ensures
            xml_on_namespace_start(*old(self), *final(self), namespace_start),
    {
        let ghost witness = namespace_start;
        if let Some(string_table) = &self.main_string_table {
            match (namespace_start.namespace(string_table), namespace_start.prefix(string_table)) {
                (Ok(namespace), Ok(prefix)) => {
                    set_pair(&mut self.namespaces, namespace, prefix);
                },
                _ => {},
            }
        }
        proof {
            assert(xml_on_namespace_start(*old(self), *self, witness));
        }
    }

    /// Starts the element that the tag begins, when it can be built.
    fn visit_xml_tag_start(&mut self, tag_start: XmlTagStartWrapper<'a>)
        ensures
            xml_on_tag_start(*old(self), *final(self), tag_start),
    {
        let ghost witness = tag_start;
        match self.build_element(&tag_start) {
            Ok(element) => self.container.start_element(element),
            Err(_) => {},
        }
        proof {
            assert(xml_on_tag_start(*old(self), *self, witness));
        }
    }

    /// Ends the innermost open element.
    fn visit_xml_tag_end(&mut self, tag_end: XmlTagEndWrapper<'a>)
        ensures
            xml_on_tag_end(*old(self), *final(self), tag_end),
    {
        let ghost witness = tag_end;
        self.container.end_element();
        proof {
            assert(xml_on_tag_end(*old(self), *self, witness));
        }
    }

    /// Keeps the resource ids of the names of the attributes, when they can be read.
    fn visit_resource(&mut self, resource: ResourceWrapper<'a>)
        ensures
            xml_on_resource(*old(self), *final(self), resource),
    {
        let ghost witness = resource;
        if let Ok(res) = resource.get_resources() {
            self.res = res;
        }
        proof {
            assert(xml_on_resource(*old(self), *self, witness));
        }
    }

    /// Not a chunk of a binary XML document: left out.
    fn visit_package(&mut self, chunk: PackageWrapper<'a>)
        ensures
            xml_on_package(*old(self), *final(self), chunk),
    {
        let ghost witness = chunk;
        proof {
            assert(xml_on_package(*old(self), *self, witness));
        }
    }

    /// Not a chunk of a binary XML document: left out.
    fn visit_table_type(&mut self, chunk: TableTypeWrapper<'a>)
        ensures
            xml_on_table_type(*old(self), *final(self), chunk),
    {
        let ghost witness = chunk;
        proof {
            assert(xml_on_table_type(*old(self), *self, witness));
        }
    }

    /// Not a chunk of a binary XML document: left out.
    fn visit_type_spec(&mut self, chunk: TypeSpecWrapper<'a>)
        ensures
            xml_on_type_spec(*old(self), *final(self), chunk),
    {
        let ghost witness = chunk;
        proof {
            assert(xml_on_type_spec(*old(self), *self, witness));
        }
    }

    /// The prefixes of namespaces are kept to the end of the document.
    fn visit_xml_namespace_end(&mut self, chunk: XmlNamespaceEndWrapper<'a>)
        ensures
            xml_on_namespace_end(*old(self), *final(self), chunk),
    {
        let ghost witness = chunk;
        proof {
            assert(xml_on_namespace_end(*old(self), *self, witness));
        }
    }

    /// Texts are left out of the element tree.
    fn visit_xml_text(&mut self, chunk: XmlTextWrapper<'a>)
        ensures
            xml_on_text(*old(self), *final(self), chunk),
    {
        let ghost witness = chunk;
        proof {
            assert(xml_on_text(*old(self), *self, witness));
        }
    }
}

/// Once the attributes of the first `n` fail, the attributes of any more fail with the
/// same error.
pub proof fn lemma_attribute_pairs_error(
    string_table: PackageStringTable,
    namespaces: Seq<(Seq<char>, Seq<char>)>,
    resources: Resources,
    res: Seq<u32>,
    t: Seq<u8>,
    n: nat,
    m: nat,
)
    requires
        n <= m,
        attribute_pairs(string_table, namespaces, resources, res, t, n) is Err,
    ensures
        attribute_pairs(string_table, namespaces, resources, res, t, m) == attribute_pairs(
            string_table,
            namespaces,
            resources,
            res,
            t,
            n,
        ),
    decreases m - n,
{
    if n < m {
        lemma_attribute_pairs_error(string_table, namespaces, resources, res, t, n, (m - 1) as nat);
    }
}

/// The attributes of the first `i + 1` follow from those of the first `i`.
proof fn lemma_attribute_pairs_step(
    string_table: PackageStringTable,
    namespaces: Seq<(Seq<char>, Seq<char>)>,
    resources: Resources,
    res: Seq<u32>,
    t: Seq<u8>,
    i: u32,
    before: Seq<(Seq<char>, AttributeText)>,
)
    requires
        attribute_pairs(string_table, namespaces, resources, res, t, i as nat) == Ok::<
            Seq<(Seq<char>, AttributeText)>,
            Error,
        >(before),
    ensures
        attribute_pairs(string_table, namespaces, resources, res, t, (i + 1) as nat) == match attribute_pair(
            string_table,
            namespaces,
            resources,
            res,
            t,
            i,
        ) {
            Err(e) => Err(e),
            Ok((name, text)) => Ok(set_key(before, name, text)),
        },
{
    assert((((i + 1) as nat) - 1) as u32 == i);
}

} // verus!
