//! The query engine: stateless views over a decoded schema — full
//! listing, single-table / type / enum lookup, substring search, and
//! "did you mean" suggestions.

use vstd::prelude::*;

use crate::detect::{
    detect_spacetimedb_sum_type, detect_spacetimedb_type, spec_product_special, spec_sum_scheduled,
    spec_variant_is_unit,
};
use crate::format::{format_type, spec_format_type, spec_ref_name};
use crate::model::{Element, ProductType, SatsSchema, SumType, TableInfo, TypeDef, Variant};
use crate::names::{NameEntry, NameMap};
use crate::sort::{
    abs_strings, lex_leq_fn, lemma_lex_total_ordering, sort_entries, sort_strings,
    spec_entries_sorted,
};
use crate::text::{
    contains_ignore_case, eq_ignore_case, spec_eq_ignore_case, spec_lower, spec_nat_digits,
    usize_to_string,
};

verus! {

/// One displayed field: its name (or decimal position) and its formatted
/// type.
pub struct FieldView {
    pub name: String,
    pub ty: String,
}

/// One displayed variant: its name, and its formatted payload type unless
/// the payload is the unit product.
pub struct VariantView {
    pub name: String,
    pub payload: Option<String>,
}

/// The abstract content of a field list.
pub open spec fn abs_fields(s: Seq<FieldView>) -> Seq<(Seq<char>, Seq<char>)> {
    s.map_values(|f: FieldView| (f.name@, f.ty@))
}

/// The abstract content of a variant list.
pub open spec fn abs_variants(s: Seq<VariantView>) -> Seq<(Seq<char>, Option<Seq<char>>)> {
    s.map_values(
        |v: VariantView|
            (
                v.name@,
                match v.payload {
                    Some(t) => Some(t@),
                    None => None,
                },
            ),
    )
}

/// The displayed named fields of a product: unnamed elements are skipped.
pub open spec fn spec_named_fields(es: Seq<Element>, m: Map<int, Seq<char>>) -> Seq<
    (Seq<char>, Seq<char>),
>
    decreases es.len(),
{
    if es.len() == 0 {
        Seq::empty()
    } else {
        spec_named_fields(es.drop_last(), m) + if es.last().name.is_named() {
            seq![
                (es.last().name.spec_name(), spec_format_type(es.last().algebraic_type, m)),
            ]
        } else {
            Seq::empty()
        }
    }
}

/// The displayed fields of a product with positional fallback names: an
/// unnamed element shows its decimal position.
pub open spec fn spec_all_fields(es: Seq<Element>, m: Map<int, Seq<char>>) -> Seq<
    (Seq<char>, Seq<char>),
> {
    Seq::new(
        es.len(),
        |i: int|
            (
                if es[i].name.is_named() {
                    es[i].name.spec_name()
                } else {
                    spec_nat_digits(i)
                },
                spec_format_type(es[i].algebraic_type, m),
            ),
    )
}

/// The displayed variants of a sum: unnamed variants are skipped, a unit
/// payload shows no type.
pub open spec fn spec_variants_view(vs: Seq<Variant>, m: Map<int, Seq<char>>) -> Seq<
    (Seq<char>, Option<Seq<char>>),
>
    decreases vs.len(),
{
    if vs.len() == 0 {
        Seq::empty()
    } else {
        spec_variants_view(vs.drop_last(), m) + if vs.last().name.is_named() {
            seq![
                (
                    vs.last().name.spec_name(),
                    if spec_variant_is_unit(vs.last()) {
                        None
                    } else {
                        Some(spec_format_type(vs.last().algebraic_type, m))
                    },
                ),
            ]
        } else {
            Seq::empty()
        }
    }
}

/// Build the named-field list of a product.
pub fn named_fields(p: &ProductType, names: &NameMap) -> (r: Vec<FieldView>)
    requires
        names.wf(),
    ensures
        abs_fields(r@) == spec_named_fields(p.elements@, names.as_map()),
{
    let ghost m = names.as_map();
    let mut r: Vec<FieldView> = Vec::new();
    let n = p.elements.len();
    let mut i: usize = 0;
    proof {
        assert(p.elements@.take(0) =~= Seq::<Element>::empty());
        assert(abs_fields(r@) =~= spec_named_fields(p.elements@.take(0), m));
    }
    while i < n
        invariant
            n == p.elements@.len(),
            i <= n,
            names.wf(),
            m == names.as_map(),
            abs_fields(r@) == spec_named_fields(p.elements@.take(i as int), m),
        decreases n - i,
    {
        let e = &p.elements[i];
        proof {
            assert(p.elements@.take(i as int + 1).drop_last() =~= p.elements@.take(i as int));
            assert(p.elements@.take(i as int + 1).last() == p.elements@[i as int]);
        }
        match e.name.as_option() {
            Some(field_name) => {
                let ty = format_type(&e.algebraic_type, names);
                let fv = FieldView { name: string_of(field_name), ty };
                r.push(fv);
                proof {
                    assert(abs_fields(r@) =~= spec_named_fields(p.elements@.take(i as int + 1), m));
                }
            },
            None => {
                proof {
                    assert(abs_fields(r@) =~= spec_named_fields(p.elements@.take(i as int + 1), m));
                }
            },
        }
        i += 1;
    }
    proof {
        assert(p.elements@.take(n as int) =~= p.elements@);
    }
    r
}

/// Build the full field list of a product, with positional fallback names.
pub fn all_fields(p: &ProductType, names: &NameMap) -> (r: Vec<FieldView>)
    requires
        names.wf(),
    ensures
        abs_fields(r@) == spec_all_fields(p.elements@, names.as_map()),
{
    let ghost m = names.as_map();
    let mut r: Vec<FieldView> = Vec::new();
    let n = p.elements.len();
    let mut i: usize = 0;
    while i < n
        invariant
            n == p.elements@.len(),
            i <= n,
            names.wf(),
            m == names.as_map(),
            r@.len() == i,
            forall|k: int|
                0 <= k < i ==> #[trigger] abs_fields(r@)[k] == spec_all_fields(p.elements@, m)[k],
        decreases n - i,
    {
        let e = &p.elements[i];
        let ty = format_type(&e.algebraic_type, names);
        let name = match e.name.as_option() {
            Some(field_name) => string_of(field_name),
            None => usize_to_string(i),
        };
        let fv = FieldView { name, ty };
        proof {
            assert((fv.name@, fv.ty@) == spec_all_fields(p.elements@, m)[i as int]);
        }
        let ghost prev = r@;
        r.push(fv);
        proof {
            assert forall|k: int|
                0 <= k < i + 1 implies #[trigger] abs_fields(r@)[k] == spec_all_fields(
                p.elements@,
                m,
            )[k] by {
                if k < i {
                    assert(r@[k] == prev[k]);
                    assert(abs_fields(prev)[k] == spec_all_fields(p.elements@, m)[k]);
                    assert(abs_fields(r@)[k] == (r@[k].name@, r@[k].ty@));
                    assert(abs_fields(prev)[k] == (prev[k].name@, prev[k].ty@));
                } else {
                    assert(r@[k] == fv);
                    assert(abs_fields(r@)[k] == (r@[k].name@, r@[k].ty@));
                }
            }
        }
        i += 1;
    }
    proof {
        assert(abs_fields(r@) =~= spec_all_fields(p.elements@, m));
    }
    r
}

/// Build the displayed variant list of a sum.
pub fn variants_view(s: &SumType, names: &NameMap) -> (r: Vec<VariantView>)
    requires
        names.wf(),
    ensures
        abs_variants(r@) == spec_variants_view(s.variants@, names.as_map()),
{
    let ghost m = names.as_map();
    let mut r: Vec<VariantView> = Vec::new();
    let n = s.variants.len();
    let mut i: usize = 0;
    proof {
        assert(s.variants@.take(0) =~= Seq::<Variant>::empty());
        assert(abs_variants(r@) =~= spec_variants_view(s.variants@.take(0), m));
    }
    while i < n
        invariant
            n == s.variants@.len(),
            i <= n,
            names.wf(),
            m == names.as_map(),
            abs_variants(r@) == spec_variants_view(s.variants@.take(i as int), m),
        decreases n - i,
    {
        let v = &s.variants[i];
        proof {
            assert(s.variants@.take(i as int + 1).drop_last() =~= s.variants@.take(i as int));
            assert(s.variants@.take(i as int + 1).last() == s.variants@[i as int]);
        }
        match v.name.as_option() {
            Some(variant_name) => {
                let is_unit = match &v.algebraic_type {
                    crate::model::AlgebraicType::Product(p) => p.elements.len() == 0,
                    _ => false,
                };
                let payload = if is_unit {
                    None
                } else {
                    Some(format_type(&v.algebraic_type, names))
                };
                r.push(VariantView { name: string_of(variant_name), payload });
                proof {
                    assert(abs_variants(r@) =~= spec_variants_view(
                        s.variants@.take(i as int + 1),
                        m,
                    ));
                }
            },
            None => {
                proof {
                    assert(abs_variants(r@) =~= spec_variants_view(
                        s.variants@.take(i as int + 1),
                        m,
                    ));
                }
            },
        }
        i += 1;
    }
    proof {
        assert(s.variants@.take(n as int) =~= s.variants@);
    }
    r
}

/// Copy a borrowed string slice into an owned string.
fn string_of(s: &str) -> (r: String)
    ensures
        r@ == s@,
{
    String::from_str(s)
}

/// One table shown with its resolved row-type name and named fields.
pub struct TableView {
    pub name: String,
    pub row_type: String,
    pub fields: Vec<FieldView>,
}

/// One struct shown with a possible idiom tag and its fields.
pub struct StructView {
    pub index: usize,
    pub name: String,
    pub special: Option<String>,
    pub field_count: usize,
    pub fields: Vec<FieldView>,
}

/// One enum shown with a possible idiom tag and its variants.
pub struct EnumView {
    pub index: usize,
    pub name: String,
    pub special: Option<String>,
    pub variant_count: usize,
    pub variants: Vec<VariantView>,
}

/// One standalone type in the full listing.
pub enum TypeEntryView {
    /// A well-known idiom shown by its tag alone.
    Special { index: usize, name: String, tag: String },
    /// An enum with its variants expanded.
    EnumEntry(EnumView),
    /// A struct with its fields expanded, positional names included.
    StructEntry(StructView),
}

/// The full listing: every table, every standalone type, and the counts.
pub struct SchemaOverview {
    pub tables: Vec<TableView>,
    pub types: Vec<TypeEntryView>,
    pub table_count: usize,
    pub type_count: usize,
    pub enum_count: usize,
}

/// The displayed named fields of a table's row type; empty when the row
/// type does not resolve to a product.
pub open spec fn spec_table_fields(s: SatsSchema, m: Map<int, Seq<char>>, t: TableInfo) -> Seq<
    (Seq<char>, Seq<char>),
> {
    match spec_typespace_at(s, t.product_type_ref as int) {
        Some(TypeDef::Product(p)) => spec_named_fields(p.elements@, m),
        _ => Seq::empty(),
    }
}

/// A table view is correct for a table.
pub open spec fn spec_table_ok(
    s: SatsSchema,
    m: Map<int, Seq<char>>,
    t: TableInfo,
    v: TableView,
) -> bool {
    &&& v.name@ == t.name@
    &&& v.row_type@ == spec_ref_name(t.product_type_ref as int, m)
    &&& abs_fields(v.fields@) == spec_table_fields(s, m, t)
}

/// An enum view is correct for a sum at an index.
pub open spec fn spec_enum_view_ok(
    sum: SumType,
    m: Map<int, Seq<char>>,
    idx: int,
    nm: Seq<char>,
    v: EnumView,
) -> bool {
    &&& v.index as int == idx
    &&& v.name@ == nm
    &&& (v.special is Some <==> spec_sum_scheduled(sum))
    &&& (v.special is Some ==> v.special->0@ == "ScheduledAt"@)
    &&& v.variant_count as int == sum.variants@.len()
    &&& abs_variants(v.variants@) == spec_variants_view(sum.variants@, m)
}

/// A struct view with named fields is correct for a product at an index.
pub open spec fn spec_struct_view_ok(
    p: ProductType,
    m: Map<int, Seq<char>>,
    idx: int,
    nm: Seq<char>,
    v: StructView,
) -> bool {
    &&& v.index as int == idx
    &&& v.name@ == nm
    &&& (v.special is Some <==> spec_product_special(p) is Some)
    &&& (v.special is Some ==> v.special->0@ == spec_product_special(p)->0)
    &&& v.field_count as int == p.elements@.len()
    &&& abs_fields(v.fields@) == spec_named_fields(p.elements@, m)
}

/// The (index, name) pair of a standalone type entry.
pub open spec fn spec_entry_pair_of(v: TypeEntryView) -> (int, Seq<char>) {
    match v {
        TypeEntryView::Special { index, name, tag } => (index as int, name@),
        TypeEntryView::EnumEntry(e) => (e.index as int, e.name@),
        TypeEntryView::StructEntry(st) => (st.index as int, st.name@),
    }
}

/// The abstract (index, name) pairs of a standalone type list.
pub open spec fn abs_type_entries(s: Seq<TypeEntryView>) -> Seq<(int, Seq<char>)> {
    s.map_values(|v: TypeEntryView| spec_entry_pair_of(v))
}

/// A standalone type entry is rendered correctly against the typespace.
pub open spec fn spec_entry_ok(s: SatsSchema, m: Map<int, Seq<char>>, v: TypeEntryView) -> bool {
    match v {
        TypeEntryView::Special { index, name, tag } => match spec_typespace_at(s, index as int) {
            Some(TypeDef::Sum(sum)) => spec_sum_scheduled(sum) && tag@ == "ScheduledAt"@,
            Some(TypeDef::Product(p)) => spec_product_special(p) is Some && tag@
                == spec_product_special(p)->0,
            _ => false,
        },
        TypeEntryView::EnumEntry(e) => match spec_typespace_at(s, e.index as int) {
            Some(TypeDef::Sum(sum)) => !spec_sum_scheduled(sum) && e.special is None
                && spec_enum_view_ok(sum, m, e.index as int, e.name@, e),
            _ => false,
        },
        TypeEntryView::StructEntry(st) => match spec_typespace_at(s, st.index as int) {
            Some(TypeDef::Product(p)) => spec_product_special(p) is None && st.special is None
                && st.field_count as int == p.elements@.len() && abs_fields(st.fields@)
                == spec_all_fields(p.elements@, m),
            _ => false,
        },
    }
}

/// Whether a resolved entry is standalone and renderable: not any table's
/// row type, and resolving to a product or sum.
pub open spec fn spec_standalone_cond(s: SatsSchema, p: (int, Seq<char>)) -> bool {
    &&& !spec_is_table_ref(s, p.0)
    &&& match spec_typespace_at(s, p.0) {
        Some(TypeDef::Product(_)) => true,
        Some(TypeDef::Sum(_)) => true,
        _ => false,
    }
}

/// The standalone entries of a resolved pair list, in order.
pub open spec fn spec_standalone_pairs(s: SatsSchema, ps: Seq<(int, Seq<char>)>) -> Seq<
    (int, Seq<char>),
>
    decreases ps.len(),
{
    if ps.len() == 0 {
        Seq::empty()
    } else {
        spec_standalone_pairs(s, ps.drop_last()) + if spec_standalone_cond(s, ps.last()) {
            seq![ps.last()]
        } else {
            Seq::empty()
        }
    }
}

/// Every standalone entry satisfies the standalone condition.
pub proof fn lemma_standalone_cond(s: SatsSchema, ps: Seq<(int, Seq<char>)>)
    ensures
        forall|k: int|
            0 <= k < spec_standalone_pairs(s, ps).len() ==> spec_standalone_cond(
                s,
                #[trigger] spec_standalone_pairs(s, ps)[k],
            ),
    decreases ps.len(),
{
    if ps.len() > 0 {
        lemma_standalone_cond(s, ps.drop_last());
        let f0 = spec_standalone_pairs(s, ps.drop_last());
        let f = spec_standalone_pairs(s, ps);
        assert forall|k: int| 0 <= k < f.len() implies spec_standalone_cond(
            s,
            #[trigger] f[k],
        ) by {
            if k < f0.len() {
                assert(f[k] == f0[k]);
            } else {
                assert(f[k] == ps.last());
            }
        }
    }
}

/// The number of sum-kind slots in the typespace.
pub open spec fn spec_count_sums(ts: Seq<TypeDef>) -> int
    decreases ts.len(),
{
    if ts.len() == 0 {
        0int
    } else {
        spec_count_sums(ts.drop_last()) + if ts.last() is Sum {
            1int
        } else {
            0int
        }
    }
}

/// The typespace slot at an index, when the index is in range.
pub open spec fn spec_typespace_at(s: SatsSchema, idx: int) -> Option<TypeDef> {
    if 0 <= idx < s.typespace.types@.len() {
        Some(s.typespace.types@[idx])
    } else {
        None
    }
}

/// Whether some table uses this typespace index as its row type.
pub open spec fn spec_is_table_ref(s: SatsSchema, idx: int) -> bool {
    exists|k: int|
        0 <= k < s.tables@.len() && (#[trigger] s.tables@[k]).product_type_ref as int == idx
}

/// The typespace slot at an index, by bounds-checked access.
pub fn typespace_get<'a>(schema: &'a SatsSchema, idx: usize) -> (r: Option<&'a TypeDef>)
    ensures
        match spec_typespace_at(*schema, idx as int) {
            Some(d) => r is Some && *r->0 == d,
            None => r is None,
        },
{
    if idx < schema.typespace.types.len() {
        Some(&schema.typespace.types[idx])
    } else {
        None
    }
}

/// Build the view of one table: its name, resolved row-type name, and
/// named fields.
pub fn table_view(schema: &SatsSchema, names: &NameMap, t: &TableInfo) -> (v: TableView)
    requires
        names.wf(),
    ensures
        spec_table_ok(*schema, names.as_map(), *t, v),
{
    let row_type = names.display_name(t.product_type_ref);
    let fields = match typespace_get(schema, t.product_type_ref) {
        Some(TypeDef::Product(p)) => named_fields(p, names),
        _ => Vec::new(),
    };
    proof {
        assert(abs_fields(Seq::<FieldView>::empty()) =~= Seq::<(Seq<char>, Seq<char>)>::empty());
    }
    TableView { name: t.name.clone(), row_type, fields }
}

/// Build the expanded view of an enum, with its idiom tag when detected.
pub fn enum_view(sum: &SumType, idx: usize, name: &String, names: &NameMap) -> (v: EnumView)
    requires
        names.wf(),
    ensures
        spec_enum_view_ok(*sum, names.as_map(), idx as int, name@, v),
{
    let special = detect_spacetimedb_sum_type(sum);
    let variants = variants_view(sum, names);
    EnumView { index: idx, name: name.clone(), special, variant_count: sum.variants.len(), variants }
}

/// Build the expanded view of a struct with its named fields, and its
/// idiom tag when detected.
pub fn struct_view(p: &ProductType, idx: usize, name: &String, names: &NameMap) -> (v: StructView)
    requires
        names.wf(),
    ensures
        spec_struct_view_ok(*p, names.as_map(), idx as int, name@, v),
{
    let special = detect_spacetimedb_type(p);
    let fields = named_fields(p, names);
    StructView { index: idx, name: name.clone(), special, field_count: p.elements.len(), fields }
}

/// The names of all tables, in schema order.
pub fn all_table_names(schema: &SatsSchema) -> (r: Vec<String>)
    ensures
        abs_strings(r@) == schema.tables@.map_values(|t: TableInfo| t.name@),
{
    let n = schema.tables.len();
    let mut r: Vec<String> = Vec::new();
    let mut i: usize = 0;
    while i < n
        invariant
            n == schema.tables@.len(),
            i <= n,
            r@.len() == i,
            forall|k: int| 0 <= k < i ==> #[trigger] abs_strings(r@)[k] == schema.tables@[k].name@,
        decreases n - i,
    {
        let ghost prev = r@;
        r.push(schema.tables[i].name.clone());
        proof {
            assert forall|k: int| 0 <= k < i + 1 implies #[trigger] abs_strings(r@)[k]
                == schema.tables@[k].name@ by {
                assert(abs_strings(r@)[k] == r@[k]@);
                if k < i {
                    assert(r@[k] == prev[k]);
                    assert(abs_strings(prev)[k] == prev[k]@);
                }
            }
        }
        i += 1;
    }
    proof {
        assert(abs_strings(r@) =~= schema.tables@.map_values(|t: TableInfo| t.name@));
    }
    r
}

/// The whole postcondition of the full listing: counts, tables in schema
/// order, and the standalone types sorted for display, each rendered
/// correctly.
pub open spec fn spec_overview_ok(
    s: SatsSchema,
    ps: Seq<(int, Seq<char>)>,
    m: Map<int, Seq<char>>,
    r: SchemaOverview,
) -> bool {
    &&& r.table_count as int == s.tables@.len()
    &&& r.type_count as int == s.typespace.types@.len()
    &&& r.enum_count as int == spec_count_sums(s.typespace.types@)
    &&& r.tables@.len() == s.tables@.len()
    &&& forall|i: int|
        0 <= i < s.tables@.len() ==> spec_table_ok(s, m, s.tables@[i], #[trigger] r.tables@[i])
    &&& spec_entries_sorted(abs_type_entries(r.types@))
    &&& abs_type_entries(r.types@).to_multiset() == spec_standalone_pairs(s, ps).to_multiset()
    &&& forall|i: int| 0 <= i < r.types@.len() ==> spec_entry_ok(s, m, #[trigger] r.types@[i])
}

/// Build the full listing of the schema.
pub fn schema_overview(schema: &SatsSchema, names: &NameMap) -> (r: SchemaOverview)
    requires
        names.wf(),
    ensures
        spec_overview_ok(*schema, names.pairs(), names.as_map(), r),
{
    broadcast use vstd::seq_lib::group_to_multiset_ensures;
    broadcast use vstd::multiset::group_multiset_axioms;

    let ghost m = names.as_map();

    // Tables, in schema order.
    let tn = schema.tables.len();
    let mut tables: Vec<TableView> = Vec::new();
    let mut i: usize = 0;
    while i < tn
        invariant
            tn == schema.tables@.len(),
            i <= tn,
            names.wf(),
            m == names.as_map(),
            tables@.len() == i,
            forall|k: int|
                0 <= k < i ==> spec_table_ok(*schema, m, schema.tables@[k], #[trigger] tables@[k]),
        decreases tn - i,
    {
        let v = table_view(schema, names, &schema.tables[i]);
        tables.push(v);
        i += 1;
    }

    // Standalone entries: not a table row type, resolving to a product or
    // sum; sorted by lowered name with the index breaking ties.
    let en = names.len();
    let mut standalone: Vec<NameEntry> = Vec::new();
    let mut j: usize = 0;
    proof {
        assert(names.pairs().take(0) =~= Seq::<(int, Seq<char>)>::empty());
        assert(crate::names::spec_entry_pairs(standalone@) =~= spec_standalone_pairs(
            *schema,
            names.pairs().take(0),
        ));
    }
    while j < en
        invariant
            en == names.pairs().len(),
            j <= en,
            names.wf(),
            m == names.as_map(),
            crate::names::spec_entry_pairs(standalone@) == spec_standalone_pairs(
                *schema,
                names.pairs().take(j as int),
            ),
        decreases en - j,
    {
        let idx = names.index_at(j);
        let nm = names.name_at(j);
        proof {
            assert(names.pairs().take(j as int + 1).drop_last() =~= names.pairs().take(j as int));
            assert(names.pairs().take(j as int + 1).last() == names.pairs()[j as int]);
        }
        let keep = if is_table_ref(schema, idx) {
            false
        } else {
            match typespace_get(schema, idx) {
                Some(TypeDef::Product(_)) => true,
                Some(TypeDef::Sum(_)) => true,
                _ => false,
            }
        };
        if keep {
            let ghost prev = standalone@;
            standalone.push(NameEntry { index: idx, name: nm.clone() });
            proof {
                assert(crate::names::spec_entry_pairs(standalone@) =~= crate::names::spec_entry_pairs(
                    prev,
                ).push((idx as int, nm@)));
                assert(crate::names::spec_entry_pairs(standalone@) =~= spec_standalone_pairs(
                    *schema,
                    names.pairs().take(j as int + 1),
                ));
            }
        } else {
            proof {
                assert(crate::names::spec_entry_pairs(standalone@) =~= spec_standalone_pairs(
                    *schema,
                    names.pairs().take(j as int + 1),
                ));
            }
        }
        j += 1;
    }
    proof {
        assert(names.pairs().take(en as int) =~= names.pairs());
    }
    let sorted = sort_entries(standalone);

    // Render each standalone entry.
    let ghost filtered = spec_standalone_pairs(*schema, names.pairs());
    let ghost sorted_ps = crate::names::spec_entry_pairs(sorted@);
    let sn = sorted.len();
    let mut types: Vec<TypeEntryView> = Vec::new();
    let mut k: usize = 0;
    while k < sn
        invariant
            sn == sorted@.len(),
            k <= sn,
            names.wf(),
            m == names.as_map(),
            sorted_ps == crate::names::spec_entry_pairs(sorted@),
            spec_entries_sorted(sorted_ps),
            sorted_ps.to_multiset() =~= filtered.to_multiset(),
            filtered == spec_standalone_pairs(*schema, names.pairs()),
            types@.len() == k,
            forall|t: int| 0 <= t < k ==> #[trigger] abs_type_entries(types@)[t] == sorted_ps[t],
            forall|t: int| 0 <= t < k ==> spec_entry_ok(*schema, m, #[trigger] types@[t]),
        decreases sn - k,
    {
        let e = &sorted[k];
        let ghost p = (e.index as int, e.name@);
        proof {
            assert(sorted_ps[k as int] == p);
            assert(sorted_ps.contains(p));
            sorted_ps.to_multiset_ensures();
            filtered.to_multiset_ensures();
            assert(sorted_ps.to_multiset().count(p) > 0);
            assert(filtered.to_multiset().count(p) > 0);
            assert(filtered.contains(p));
            let w = choose|w: int| 0 <= w < filtered.len() && filtered[w] == p;
            lemma_standalone_cond(*schema, names.pairs());
            assert(spec_standalone_cond(*schema, filtered[w]));
            assert(spec_standalone_cond(*schema, p));
        }
        let entry = match typespace_get(schema, e.index) {
            Some(TypeDef::Sum(sum)) => {
                match detect_spacetimedb_sum_type(sum) {
                    Some(tag) => TypeEntryView::Special {
                        index: e.index,
                        name: e.name.clone(),
                        tag,
                    },
                    None => TypeEntryView::EnumEntry(enum_view(sum, e.index, &e.name, names)),
                }
            },
            Some(TypeDef::Product(p2)) => {
                match detect_spacetimedb_type(p2) {
                    Some(tag) => TypeEntryView::Special {
                        index: e.index,
                        name: e.name.clone(),
                        tag,
                    },
                    None => {
                        let fields = all_fields(p2, names);
                        TypeEntryView::StructEntry(
                            StructView {
                                index: e.index,
                                name: e.name.clone(),
                                special: None,
                                field_count: p2.elements.len(),
                                fields,
                            },
                        )
                    },
                }
            },
            _ => {
                proof {
                    assert(false);
                }
                TypeEntryView::Special {
                    index: e.index,
                    name: e.name.clone(),
                    tag: String::new(),
                }
            },
        };
        let ghost prev = types@;
        types.push(entry);
        proof {
            assert forall|t: int| 0 <= t < k + 1 implies #[trigger] abs_type_entries(types@)[t]
                == sorted_ps[t] by {
                assert(abs_type_entries(types@)[t] == spec_entry_pair_of(types@[t]));
                if t < k {
                    assert(types@[t] == prev[t]);
                    assert(abs_type_entries(prev)[t] == spec_entry_pair_of(prev[t]));
                }
            }
        }
        k += 1;
    }
    proof {
        assert(abs_type_entries(types@) =~= sorted_ps);
    }

    // The counts.
    let tsn = schema.typespace.types.len();
    let mut enum_count: usize = 0;
    let mut c: usize = 0;
    proof {
        assert(schema.typespace.types@.take(0) =~= Seq::<TypeDef>::empty());
    }
    while c < tsn
        invariant
            tsn == schema.typespace.types@.len(),
            c <= tsn,
            enum_count <= c,
            enum_count as int == spec_count_sums(schema.typespace.types@.take(c as int)),
        decreases tsn - c,
    {
        proof {
            assert(schema.typespace.types@.take(c as int + 1).drop_last()
                =~= schema.typespace.types@.take(c as int));
            assert(schema.typespace.types@.take(c as int + 1).last()
                == schema.typespace.types@[c as int]);
        }
        match &schema.typespace.types[c] {
            TypeDef::Sum(_) => {
                enum_count += 1;
            },
            _ => {},
        }
        c += 1;
    }
    proof {
        assert(schema.typespace.types@.take(tsn as int) =~= schema.typespace.types@);
    }

    SchemaOverview {
        tables,
        types,
        table_count: tn,
        type_count: tsn,
        enum_count,
    }
}

/// The result of a single-table lookup.
pub enum TableLookup {
    /// The first table whose name matches, case-insensitively.
    Found { table: TableView, field_count: Option<usize>, primary_key: Vec<usize> },
    /// No table matches; all table names are offered as alternatives.
    NotFound { name: String, available: Vec<String> },
}

/// The position of the first table whose name equals `q` up to ASCII
/// case, or `-1`.
pub open spec fn spec_first_table_match(ts: Seq<TableInfo>, q: Seq<char>) -> int
    decreases ts.len(),
{
    if ts.len() == 0 {
        -1
    } else if spec_eq_ignore_case(ts[0].name@, q) {
        0
    } else {
        let r = spec_first_table_match(ts.drop_first(), q);
        if r == -1 {
            -1
        } else {
            r + 1
        }
    }
}

/// Characterization of [`spec_first_table_match`].
pub proof fn lemma_first_table_match(ts: Seq<TableInfo>, q: Seq<char>)
    ensures
        spec_first_table_match(ts, q) == -1 ==> forall|k: int|
            0 <= k < ts.len() ==> !spec_eq_ignore_case((#[trigger] ts[k]).name@, q),
        spec_first_table_match(ts, q) != -1 ==> {
            &&& 0 <= spec_first_table_match(ts, q) < ts.len()
            &&& spec_eq_ignore_case(ts[spec_first_table_match(ts, q)].name@, q)
            &&& forall|k: int|
                0 <= k < spec_first_table_match(ts, q) ==> !spec_eq_ignore_case(
                    (#[trigger] ts[k]).name@,
                    q,
                )
        },
    decreases ts.len(),
{
    if ts.len() > 0 && !spec_eq_ignore_case(ts[0].name@, q) {
        lemma_first_table_match(ts.drop_first(), q);
        assert(forall|k: int| 1 <= k < ts.len() ==> ts[k] == ts.drop_first()[k - 1]);
    }
}

/// A table lookup finds a table exactly when some table's name equals the
/// query up to ASCII case.
pub proof fn lemma_table_match_exists(ts: Seq<TableInfo>, q: Seq<char>)
    ensures
        (spec_first_table_match(ts, q) != -1) <==> exists|k: int|
            0 <= k < ts.len() && spec_eq_ignore_case((#[trigger] ts[k]).name@, q),
{
    lemma_first_table_match(ts, q);
    if spec_first_table_match(ts, q) != -1 {
        let f = spec_first_table_match(ts, q);
        assert(spec_eq_ignore_case(ts[f].name@, q));
    }
}

/// The whole postcondition of a single-table lookup.
pub open spec fn spec_table_lookup_ok(
    s: SatsSchema,
    m: Map<int, Seq<char>>,
    q: Seq<char>,
    r: TableLookup,
) -> bool {
    let f = spec_first_table_match(s.tables@, q);
    if f == -1 {
        r matches TableLookup::NotFound { name, available } && name@ == q && abs_strings(available@)
            == s.tables@.map_values(|t: TableInfo| t.name@)
    } else {
        r matches TableLookup::Found { table, field_count, primary_key } && {
            let t = s.tables@[f];
            &&& spec_table_ok(s, m, t, table)
            &&& primary_key@ == t.primary_key@
            &&& match spec_typespace_at(s, t.product_type_ref as int) {
                Some(TypeDef::Product(p)) => field_count == Some(p.elements@.len() as usize),
                _ => field_count is None,
            }
        }
    }
}

/// Look a table up by name, case-insensitively; the first match in schema
/// order wins. A miss lists every table name as an alternative.
pub fn lookup_table(schema: &SatsSchema, names: &NameMap, query: &str) -> (r: TableLookup)
    requires
        names.wf(),
    ensures
        spec_table_lookup_ok(*schema, names.as_map(), query@, r),
{
    proof {
        lemma_first_table_match(schema.tables@, query@);
    }
    let n = schema.tables.len();
    let mut i: usize = 0;
    while i < n
        invariant
            n == schema.tables@.len(),
            i <= n,
            names.wf(),
            forall|k: int|
                0 <= k < i ==> !spec_eq_ignore_case((#[trigger] schema.tables@[k]).name@, query@),
        decreases n - i,
    {
        let t = &schema.tables[i];
        if eq_ignore_case(t.name.as_str(), query) {
            proof {
                lemma_first_table_match(schema.tables@, query@);
                let f = spec_first_table_match(schema.tables@, query@);
                assert(f != -1) by {
                    if f == -1 {
                        assert(!spec_eq_ignore_case(schema.tables@[i as int].name@, query@));
                    }
                }
                assert(f <= i as int);
                assert(i as int <= f);
            }
            let table = table_view(schema, names, t);
            let field_count = match typespace_get(schema, t.product_type_ref) {
                Some(TypeDef::Product(p)) => Some(p.elements.len()),
                _ => None,
            };
            return TableLookup::Found { table, field_count, primary_key: t.primary_key.clone() };
        }
        i += 1;
    }
    proof {
        let f = spec_first_table_match(schema.tables@, query@);
        if f != -1 {
            assert(spec_eq_ignore_case(schema.tables@[f].name@, query@));
        }
    }
    TableLookup::NotFound { name: string_of(query), available: all_table_names(schema) }
}

/// The position of the first resolved entry whose name equals `q` up to
/// ASCII case, or `-1`.
pub open spec fn spec_first_name_match(ps: Seq<(int, Seq<char>)>, q: Seq<char>) -> int
    decreases ps.len(),
{
    if ps.len() == 0 {
        -1
    } else if spec_eq_ignore_case(ps[0].1, q) {
        0
    } else {
        let r = spec_first_name_match(ps.drop_first(), q);
        if r == -1 {
            -1
        } else {
            r + 1
        }
    }
}

/// Characterization of [`spec_first_name_match`].
pub proof fn lemma_first_name_match(ps: Seq<(int, Seq<char>)>, q: Seq<char>)
    ensures
        spec_first_name_match(ps, q) == -1 ==> forall|k: int|
            0 <= k < ps.len() ==> !spec_eq_ignore_case((#[trigger] ps[k]).1, q),
        spec_first_name_match(ps, q) != -1 ==> {
            &&& 0 <= spec_first_name_match(ps, q) < ps.len()
            &&& spec_eq_ignore_case(ps[spec_first_name_match(ps, q)].1, q)
            &&& forall|k: int|
                0 <= k < spec_first_name_match(ps, q) ==> !spec_eq_ignore_case(
                    (#[trigger] ps[k]).1,
                    q,
                )
        },
    decreases ps.len(),
{
    if ps.len() > 0 && !spec_eq_ignore_case(ps[0].1, q) {
        lemma_first_name_match(ps.drop_first(), q);
        assert(forall|k: int| 1 <= k < ps.len() ==> ps[k] == ps.drop_first()[k - 1]);
    }
}

/// The position of the first resolved entry whose name matches `query` up
/// to ASCII case.
fn find_name_match(names: &NameMap, query: &str) -> (r: Option<usize>)
    ensures
        match r {
            Some(k) => k < names.pairs().len() && spec_first_name_match(names.pairs(), query@)
                == k as int,
            None => spec_first_name_match(names.pairs(), query@) == -1,
        },
{
    proof {
        lemma_first_name_match(names.pairs(), query@);
    }
    let n = names.len();
    let mut i: usize = 0;
    while i < n
        invariant
            n == names.pairs().len(),
            i <= n,
            forall|k: int|
                0 <= k < i ==> !spec_eq_ignore_case((#[trigger] names.pairs()[k]).1, query@),
        decreases n - i,
    {
        if eq_ignore_case(names.name_at(i).as_str(), query) {
            proof {
                lemma_first_name_match(names.pairs(), query@);
                let f = spec_first_name_match(names.pairs(), query@);
                assert(f != -1) by {
                    if f == -1 {
                        assert(!spec_eq_ignore_case(names.pairs()[i as int].1, query@));
                    }
                }
                assert(f <= i as int);
                assert(i as int <= f);
            }
            return Some(i);
        }
        i += 1;
    }
    proof {
        let f = spec_first_name_match(names.pairs(), query@);
        if f != -1 {
            assert(spec_eq_ignore_case(names.pairs()[f].1, query@));
        }
    }
    None
}

/// Whether a name qualifies as a "did you mean" suggestion for a query:
/// either lowered name contains the other, or the name starts with the
/// three-character prefix of the query.
pub open spec fn spec_suggestion_match(name: Seq<char>, pat: Seq<char>) -> bool {
    ||| crate::text::spec_contains_seq(spec_lower(name), spec_lower(pat))
    ||| crate::text::spec_contains_seq(spec_lower(pat), spec_lower(name))
    ||| crate::text::spec_starts_with_prefix3(name, pat)
}

/// The names of the resolved entries qualifying as suggestions, in entry
/// order.
pub open spec fn spec_suggestions(ps: Seq<(int, Seq<char>)>, pat: Seq<char>) -> Seq<Seq<char>>
    decreases ps.len(),
{
    if ps.len() == 0 {
        Seq::empty()
    } else {
        spec_suggestions(ps.drop_last(), pat) + if spec_suggestion_match(ps.last().1, pat) {
            seq![ps.last().1]
        } else {
            Seq::empty()
        }
    }
}

/// A sequence capped to its first `k` elements.
pub open spec fn spec_cap<A>(s: Seq<A>, k: int) -> Seq<A> {
    if s.len() <= k {
        s
    } else {
        s.take(k)
    }
}

/// "Did you mean" suggestions for an unmatched type query: the first five
/// qualifying names, sorted.
pub fn suggest_similar_types(names: &NameMap, search: &str) -> (r: Vec<String>)
    ensures
        abs_strings(r@) == spec_cap(spec_suggestions(names.pairs(), search@), 5).sort_by(
            lex_leq_fn(),
        ),
{
    proof {
        lemma_lex_total_ordering();
    }
    let n = names.len();
    let mut cands: Vec<String> = Vec::new();
    let mut i: usize = 0;
    proof {
        assert(names.pairs().take(0) =~= Seq::<(int, Seq<char>)>::empty());
        assert(abs_strings(cands@) =~= spec_cap(
            spec_suggestions(names.pairs().take(0), search@),
            5,
        ));
    }
    while i < n
        invariant
            n == names.pairs().len(),
            i <= n,
            cands@.len() <= 5,
            abs_strings(cands@) == spec_cap(spec_suggestions(names.pairs().take(i as int), search@), 5),
        decreases n - i,
    {
        let nm = names.name_at(i);
        proof {
            assert(names.pairs().take(i as int + 1).drop_last() =~= names.pairs().take(i as int));
            assert(names.pairs().take(i as int + 1).last() == names.pairs()[i as int]);
        }
        let ghost f0 = spec_suggestions(names.pairs().take(i as int), search@);
        let ghost f1 = spec_suggestions(names.pairs().take(i as int + 1), search@);
        let is_match = contains_ignore_case(nm.as_str(), search) || contains_ignore_case(
            search,
            nm.as_str(),
        ) || crate::text::starts_with_prefix3(nm.as_str(), search);
        if is_match && cands.len() < 5 {
            let ghost prev = cands@;
            cands.push(nm.clone());
            proof {
                assert(f1 =~= f0.push(nm@));
                assert(abs_strings(prev).len() == prev.len());
                assert(f0.len() <= 5) by {
                    if f0.len() > 5 {
                        assert(spec_cap(f0, 5).len() == 5);
                    }
                }
                assert(f0.len() == prev.len());
                assert(abs_strings(cands@) =~= abs_strings(prev).push(nm@));
                assert(abs_strings(cands@) =~= spec_cap(f1, 5));
            }
        } else {
            proof {
                if is_match {
                    assert(f1 =~= f0.push(nm@));
                    assert(f0.len() >= 5);
                    assert(spec_cap(f1, 5) =~= f1.take(5));
                    assert(f1.take(5) =~= spec_cap(f0, 5));
                } else {
                    assert(f1 =~= f0);
                }
            }
        }
        i += 1;
    }
    proof {
        assert(names.pairs().take(n as int) =~= names.pairs());
    }
    sort_strings(cands)
}

/// The suggestion list is capped at five and sorted.
pub proof fn lemma_suggestions_capped_sorted(ps: Seq<(int, Seq<char>)>, pat: Seq<char>)
    ensures
        ({
            let l = spec_cap(spec_suggestions(ps, pat), 5).sort_by(lex_leq_fn());
            l.len() <= 5 && vstd::relations::sorted_by(l, lex_leq_fn())
        }),
{
    broadcast use vstd::seq_lib::group_to_multiset_ensures;

    lemma_lex_total_ordering();
    let capped = spec_cap(spec_suggestions(ps, pat), 5);
    capped.lemma_sort_by_ensures(lex_leq_fn());
    let l = capped.sort_by(lex_leq_fn());
    assert(l.to_multiset().len() == capped.to_multiset().len());
    assert(l.len() == capped.len());
    assert(capped.len() <= 5);
}

/// The names of the resolved entries whose typespace slot is a sum, in
/// entry order.
pub open spec fn spec_enum_names(ps: Seq<(int, Seq<char>)>, s: SatsSchema) -> Seq<Seq<char>>
    decreases ps.len(),
{
    if ps.len() == 0 {
        Seq::empty()
    } else {
        spec_enum_names(ps.drop_last(), s) + if spec_typespace_at(s, ps.last().0) matches Some(
            TypeDef::Sum(_),
        ) {
            seq![ps.last().1]
        } else {
            Seq::empty()
        }
    }
}

/// The available enum names, sorted, capped at ten.
pub fn suggest_enum_types(schema: &SatsSchema, names: &NameMap) -> (r: Vec<String>)
    ensures
        abs_strings(r@) == spec_cap(
            spec_enum_names(names.pairs(), *schema).sort_by(lex_leq_fn()),
            10,
        ),
{
    let n = names.len();
    let mut cands: Vec<String> = Vec::new();
    let mut i: usize = 0;
    proof {
        assert(names.pairs().take(0) =~= Seq::<(int, Seq<char>)>::empty());
        assert(abs_strings(cands@) =~= spec_enum_names(names.pairs().take(0), *schema));
    }
    while i < n
        invariant
            n == names.pairs().len(),
            i <= n,
            abs_strings(cands@) == spec_enum_names(names.pairs().take(i as int), *schema),
        decreases n - i,
    {
        let idx = names.index_at(i);
        let nm = names.name_at(i);
        proof {
            assert(names.pairs().take(i as int + 1).drop_last() =~= names.pairs().take(i as int));
            assert(names.pairs().take(i as int + 1).last() == names.pairs()[i as int]);
        }
        let is_sum = match typespace_get(schema, idx) {
            Some(TypeDef::Sum(_)) => true,
            _ => false,
        };
        if is_sum {
            let ghost prev = cands@;
            cands.push(nm.clone());
            proof {
                assert(abs_strings(cands@) =~= abs_strings(prev).push(nm@));
                assert(abs_strings(cands@) =~= spec_enum_names(
                    names.pairs().take(i as int + 1),
                    *schema,
                ));
            }
        } else {
            proof {
                assert(abs_strings(cands@) =~= spec_enum_names(
                    names.pairs().take(i as int + 1),
                    *schema,
                ));
            }
        }
        i += 1;
    }
    proof {
        assert(names.pairs().take(n as int) =~= names.pairs());
    }
    let sorted = sort_strings(cands);
    let sn = sorted.len();
    let cap: usize = if sn < 10 {
        sn
    } else {
        10
    };
    let mut r: Vec<String> = Vec::new();
    let mut k: usize = 0;
    while k < cap
        invariant
            cap <= sn,
            sn == sorted@.len(),
            k <= cap,
            r@.len() == k,
            forall|t: int| 0 <= t < k ==> #[trigger] abs_strings(r@)[t] == abs_strings(sorted@)[t],
        decreases cap - k,
    {
        let ghost prev = r@;
        r.push(sorted[k].clone());
        proof {
            assert forall|t: int| 0 <= t < k + 1 implies #[trigger] abs_strings(r@)[t]
                == abs_strings(sorted@)[t] by {
                assert(abs_strings(r@)[t] == r@[t]@);
                if t < k {
                    assert(r@[t] == prev[t]);
                    assert(abs_strings(prev)[t] == prev[t]@);
                }
            }
        }
        k += 1;
    }
    proof {
        assert(abs_strings(r@) =~= spec_cap(abs_strings(sorted@), 10));
    }
    r
}

/// The result of a single-type lookup.
pub enum TypeLookup {
    /// The matched name resolves to a product: shown as a struct.
    StructFound(StructView),
    /// The matched name resolves to a sum: shown as an enum.
    EnumFound(EnumView),
    /// The matched name resolves to another typespace kind.
    NotRenderable { name: String },
    /// The matched name points past the end of the typespace.
    Unresolved,
    /// No name matches; suggestions are offered.
    NotFound { name: String, suggestions: Vec<String> },
}

/// The whole postcondition of a single-type lookup.
pub open spec fn spec_type_lookup_ok(
    s: SatsSchema,
    ps: Seq<(int, Seq<char>)>,
    m: Map<int, Seq<char>>,
    q: Seq<char>,
    r: TypeLookup,
) -> bool {
    let f = spec_first_name_match(ps, q);
    if f == -1 {
        r matches TypeLookup::NotFound { name, suggestions } && name@ == q && abs_strings(
            suggestions@,
        ) == spec_cap(spec_suggestions(ps, q), 5).sort_by(lex_leq_fn())
    } else {
        let idx = ps[f].0;
        let nm = ps[f].1;
        match spec_typespace_at(s, idx) {
            Some(TypeDef::Product(p)) => r matches TypeLookup::StructFound(v)
                && spec_struct_view_ok(p, m, idx, nm, v),
            Some(TypeDef::Sum(sum)) => r matches TypeLookup::EnumFound(v) && spec_enum_view_ok(
                sum,
                m,
                idx,
                nm,
                v,
            ),
            Some(_) => r matches TypeLookup::NotRenderable { name } && name@ == q,
            None => r is Unresolved,
        }
    }
}

/// Look a named type up, case-insensitively, over the whole resolved
/// name table. A miss offers "did you mean" suggestions.
pub fn lookup_type(schema: &SatsSchema, names: &NameMap, query: &str) -> (r: TypeLookup)
    requires
        names.wf(),
    ensures
        spec_type_lookup_ok(*schema, names.pairs(), names.as_map(), query@, r),
{
    match find_name_match(names, query) {
        Some(k) => {
            let idx = names.index_at(k);
            let nm = names.name_at(k);
            match typespace_get(schema, idx) {
                Some(TypeDef::Product(p)) => TypeLookup::StructFound(
                    struct_view(p, idx, nm, names),
                ),
                Some(TypeDef::Sum(sum)) => TypeLookup::EnumFound(enum_view(sum, idx, nm, names)),
                Some(_) => TypeLookup::NotRenderable { name: string_of(query) },
                None => TypeLookup::Unresolved,
            }
        },
        None => TypeLookup::NotFound {
            name: string_of(query),
            suggestions: suggest_similar_types(names, query),
        },
    }
}

/// The result of a single-enum lookup.
pub enum EnumLookup {
    /// The matched name resolves to a sum: shown as an enum.
    Found(EnumView),
    /// The matched name resolves to something else.
    NotAnEnum { name: String, enums: Vec<String> },
    /// No name matches.
    NotFound { name: String, enums: Vec<String> },
}

/// The whole postcondition of a single-enum lookup.
pub open spec fn spec_enum_lookup_ok(
    s: SatsSchema,
    ps: Seq<(int, Seq<char>)>,
    m: Map<int, Seq<char>>,
    q: Seq<char>,
    r: EnumLookup,
) -> bool {
    let f = spec_first_name_match(ps, q);
    let enum_list = spec_cap(spec_enum_names(ps, s).sort_by(lex_leq_fn()), 10);
    if f == -1 {
        r matches EnumLookup::NotFound { name, enums } && name@ == q && abs_strings(enums@)
            == enum_list
    } else {
        let idx = ps[f].0;
        let nm = ps[f].1;
        match spec_typespace_at(s, idx) {
            Some(TypeDef::Sum(sum)) => r matches EnumLookup::Found(v) && spec_enum_view_ok(
                sum,
                m,
                idx,
                nm,
                v,
            ),
            _ => r matches EnumLookup::NotAnEnum { name, enums } && name@ == q && abs_strings(
                enums@,
            ) == enum_list,
        }
    }
}

/// Look an enum up by name, case-insensitively. A miss, or a match that
/// is not a sum, lists up to ten available enum names.
pub fn lookup_enum(schema: &SatsSchema, names: &NameMap, query: &str) -> (r: EnumLookup)
    requires
        names.wf(),
    ensures
        spec_enum_lookup_ok(*schema, names.pairs(), names.as_map(), query@, r),
{
    match find_name_match(names, query) {
        Some(k) => {
            let idx = names.index_at(k);
            let nm = names.name_at(k);
            match typespace_get(schema, idx) {
                Some(TypeDef::Sum(sum)) => EnumLookup::Found(enum_view(sum, idx, nm, names)),
                _ => EnumLookup::NotAnEnum {
                    name: string_of(query),
                    enums: suggest_enum_types(schema, names),
                },
            }
        },
        None => EnumLookup::NotFound {
            name: string_of(query),
            enums: suggest_enum_types(schema, names),
        },
    }
}

/// One table matched by a substring search.
pub struct TableMatch {
    pub name: String,
    pub row_type: String,
}

/// One standalone type matched by a substring search, as a summary.
pub enum TypeMatch {
    EnumSummary { name: String, variant_count: usize },
    StructSummary { name: String, field_count: usize },
}

/// The matches of a substring search.
pub struct SearchMatches {
    pub tables: Vec<TableMatch>,
    pub types: Vec<TypeMatch>,
    pub name_match_count: usize,
}

/// The abstract content of a table-match list.
pub open spec fn abs_table_matches(s: Seq<TableMatch>) -> Seq<(Seq<char>, Seq<char>)> {
    s.map_values(|t: TableMatch| (t.name@, t.row_type@))
}

/// The abstract content of a type-match list: name, whether an enum, and
/// the variant or field count.
pub open spec fn abs_type_matches(s: Seq<TypeMatch>) -> Seq<(Seq<char>, bool, int)> {
    s.map_values(
        |t: TypeMatch|
            match t {
                TypeMatch::EnumSummary { name, variant_count } => (name@, true, variant_count as int),
                TypeMatch::StructSummary { name, field_count } => (name@, false, field_count as int),
            },
    )
}

/// The tables whose lowered name contains the lowered pattern, each with
/// its resolved row-type name.
pub open spec fn spec_search_tables(
    ts: Seq<TableInfo>,
    m: Map<int, Seq<char>>,
    pat: Seq<char>,
) -> Seq<(Seq<char>, Seq<char>)>
    decreases ts.len(),
{
    if ts.len() == 0 {
        Seq::empty()
    } else {
        spec_search_tables(ts.drop_last(), m, pat) + if crate::text::spec_contains_seq(
            spec_lower(ts.last().name@),
            spec_lower(pat),
        ) {
            seq![(ts.last().name@, spec_ref_name(ts.last().product_type_ref as int, m))]
        } else {
            Seq::empty()
        }
    }
}

/// Whether a resolved entry's name matches the pattern and the entry is
/// not any table's row type.
pub open spec fn spec_search_name_cond(s: SatsSchema, p: (int, Seq<char>), pat: Seq<char>) -> bool {
    crate::text::spec_contains_seq(spec_lower(p.1), spec_lower(pat)) && !spec_is_table_ref(s, p.0)
}

/// The number of resolved entries matching the pattern by name alone.
pub open spec fn spec_count_name_matches(
    s: SatsSchema,
    ps: Seq<(int, Seq<char>)>,
    pat: Seq<char>,
) -> int
    decreases ps.len(),
{
    if ps.len() == 0 {
        0int
    } else {
        spec_count_name_matches(s, ps.drop_last(), pat) + if spec_search_name_cond(
            s,
            ps.last(),
            pat,
        ) {
            1int
        } else {
            0int
        }
    }
}

/// The standalone types matched by name, summarized: enums with their
/// variant count, structs with their field count.
pub open spec fn spec_search_types(
    s: SatsSchema,
    ps: Seq<(int, Seq<char>)>,
    pat: Seq<char>,
) -> Seq<(Seq<char>, bool, int)>
    decreases ps.len(),
{
    if ps.len() == 0 {
        Seq::empty()
    } else {
        spec_search_types(s, ps.drop_last(), pat) + if spec_search_name_cond(s, ps.last(), pat) {
            match spec_typespace_at(s, ps.last().0) {
                Some(TypeDef::Sum(sum)) => seq![(ps.last().1, true, sum.variants@.len() as int)],
                Some(TypeDef::Product(p)) => seq![(ps.last().1, false, p.elements@.len() as int)],
                _ => Seq::empty(),
            }
        } else {
            Seq::empty()
        }
    }
}

/// The whole postcondition of a substring search.
pub open spec fn spec_search_ok(
    s: SatsSchema,
    ps: Seq<(int, Seq<char>)>,
    m: Map<int, Seq<char>>,
    pat: Seq<char>,
    r: SearchMatches,
) -> bool {
    &&& abs_table_matches(r.tables@) == spec_search_tables(s.tables@, m, pat)
    &&& abs_type_matches(r.types@) == spec_search_types(s, ps, pat)
    &&& r.name_match_count as int == spec_count_name_matches(s, ps, pat)
}

/// Substring search, case-insensitively, over table names and resolved
/// type names; a type used as some table's row type is not reported
/// again among the types.
pub fn search_schema(schema: &SatsSchema, names: &NameMap, pattern: &str) -> (r: SearchMatches)
    requires
        names.wf(),
    ensures
        spec_search_ok(*schema, names.pairs(), names.as_map(), pattern@, r),
{
    let ghost m = names.as_map();

    let tn = schema.tables.len();
    let mut tables: Vec<TableMatch> = Vec::new();
    let mut i: usize = 0;
    proof {
        assert(schema.tables@.take(0) =~= Seq::<TableInfo>::empty());
        assert(abs_table_matches(tables@) =~= spec_search_tables(schema.tables@.take(0), m, pattern@));
    }
    while i < tn
        invariant
            tn == schema.tables@.len(),
            i <= tn,
            names.wf(),
            m == names.as_map(),
            abs_table_matches(tables@) == spec_search_tables(
                schema.tables@.take(i as int),
                m,
                pattern@,
            ),
        decreases tn - i,
    {
        let t = &schema.tables[i];
        proof {
            assert(schema.tables@.take(i as int + 1).drop_last() =~= schema.tables@.take(i as int));
            assert(schema.tables@.take(i as int + 1).last() == schema.tables@[i as int]);
        }
        if contains_ignore_case(t.name.as_str(), pattern) {
            let row_type = names.display_name(t.product_type_ref);
            let ghost prev = tables@;
            tables.push(TableMatch { name: t.name.clone(), row_type });
            proof {
                assert(abs_table_matches(tables@) =~= abs_table_matches(prev).push(
                    (t.name@, spec_ref_name(t.product_type_ref as int, m)),
                ));
                assert(abs_table_matches(tables@) =~= spec_search_tables(
                    schema.tables@.take(i as int + 1),
                    m,
                    pattern@,
                ));
            }
        } else {
            proof {
                assert(abs_table_matches(tables@) =~= spec_search_tables(
                    schema.tables@.take(i as int + 1),
                    m,
                    pattern@,
                ));
            }
        }
        i += 1;
    }
    proof {
        assert(schema.tables@.take(tn as int) =~= schema.tables@);
    }

    let en = names.len();
    let mut types: Vec<TypeMatch> = Vec::new();
    let mut count: usize = 0;
    let mut j: usize = 0;
    proof {
        assert(names.pairs().take(0) =~= Seq::<(int, Seq<char>)>::empty());
        assert(abs_type_matches(types@) =~= spec_search_types(
            *schema,
            names.pairs().take(0),
            pattern@,
        ));
    }
    while j < en
        invariant
            en == names.pairs().len(),
            j <= en,
            names.wf(),
            m == names.as_map(),
            count <= j,
            abs_type_matches(types@) == spec_search_types(
                *schema,
                names.pairs().take(j as int),
                pattern@,
            ),
            count as int == spec_count_name_matches(*schema, names.pairs().take(j as int), pattern@),
        decreases en - j,
    {
        let idx = names.index_at(j);
        let nm = names.name_at(j);
        proof {
            assert(names.pairs().take(j as int + 1).drop_last() =~= names.pairs().take(j as int));
            assert(names.pairs().take(j as int + 1).last() == names.pairs()[j as int]);
        }
        let name_hit = contains_ignore_case(nm.as_str(), pattern) && !is_table_ref(schema, idx);
        if name_hit {
            count += 1;
            match typespace_get(schema, idx) {
                Some(TypeDef::Sum(sum)) => {
                    let ghost prev = types@;
                    types.push(
                        TypeMatch::EnumSummary { name: nm.clone(), variant_count: sum.variants.len() },
                    );
                    proof {
                        assert(abs_type_matches(types@) =~= abs_type_matches(prev).push(
                            (nm@, true, sum.variants@.len() as int),
                        ));
                        assert(abs_type_matches(types@) =~= spec_search_types(
                            *schema,
                            names.pairs().take(j as int + 1),
                            pattern@,
                        ));
                    }
                },
                Some(TypeDef::Product(p)) => {
                    let ghost prev = types@;
                    types.push(
                        TypeMatch::StructSummary { name: nm.clone(), field_count: p.elements.len() },
                    );
                    proof {
                        assert(abs_type_matches(types@) =~= abs_type_matches(prev).push(
                            (nm@, false, p.elements@.len() as int),
                        ));
                        assert(abs_type_matches(types@) =~= spec_search_types(
                            *schema,
                            names.pairs().take(j as int + 1),
                            pattern@,
                        ));
                    }
                },
                _ => {
                    proof {
                        assert(abs_type_matches(types@) =~= spec_search_types(
                            *schema,
                            names.pairs().take(j as int + 1),
                            pattern@,
                        ));
                    }
                },
            }
        } else {
            proof {
                assert(abs_type_matches(types@) =~= spec_search_types(
                    *schema,
                    names.pairs().take(j as int + 1),
                    pattern@,
                ));
            }
        }
        j += 1;
    }
    proof {
        assert(names.pairs().take(en as int) =~= names.pairs());
    }

    SearchMatches { tables, types, name_match_count: count }
}

/// One full schema report: exactly one view, chosen by the first filter
/// present, in the order table, type, enum, search, full listing.
pub enum SchemaReport {
    TableReport(TableLookup),
    TypeReport(TypeLookup),
    EnumReport(EnumLookup),
    SearchReport { pattern: String, matches: SearchMatches },
    FullReport(SchemaOverview),
}

/// Select and build the one view of a schema that the filters ask for:
/// a table lookup, a type lookup, an enum lookup, a substring search, or
/// the full listing when no filter is given.
pub fn display_schema_pretty(
    schema: &SatsSchema,
    names: &NameMap,
    table_filter: Option<&str>,
    type_filter: Option<&str>,
    enum_filter: Option<&str>,
    search_pattern: Option<&str>,
) -> (r: SchemaReport)
    requires
        names.wf(),
    ensures
        match table_filter {
            Some(q) => r matches SchemaReport::TableReport(t) && spec_table_lookup_ok(
                *schema,
                names.as_map(),
                q@,
                t,
            ),
            None => match type_filter {
                Some(q) => r matches SchemaReport::TypeReport(t) && spec_type_lookup_ok(
                    *schema,
                    names.pairs(),
                    names.as_map(),
                    q@,
                    t,
                ),
                None => match enum_filter {
                    Some(q) => r matches SchemaReport::EnumReport(t) && spec_enum_lookup_ok(
                        *schema,
                        names.pairs(),
                        names.as_map(),
                        q@,
                        t,
                    ),
                    None => match search_pattern {
                        Some(q) => r matches SchemaReport::SearchReport { pattern, matches }
                            && pattern@ == q@ && spec_search_ok(
                            *schema,
                            names.pairs(),
                            names.as_map(),
                            q@,
                            matches,
                        ),
                        None => r matches SchemaReport::FullReport(o) && spec_overview_ok(
                            *schema,
                            names.pairs(),
                            names.as_map(),
                            o,
                        ),
                    },
                },
            },
        },
{
    if let Some(q) = table_filter {
        return SchemaReport::TableReport(lookup_table(schema, names, q));
    }
    if let Some(q) = type_filter {
        return SchemaReport::TypeReport(lookup_type(schema, names, q));
    }
    if let Some(q) = enum_filter {
        return SchemaReport::EnumReport(lookup_enum(schema, names, q));
    }
    if let Some(q) = search_pattern {
        return SchemaReport::SearchReport {
            pattern: string_of(q),
            matches: search_schema(schema, names, q),
        };
    }
    SchemaReport::FullReport(schema_overview(schema, names))
}

/// Executable test of [`spec_is_table_ref`].
pub fn is_table_ref(schema: &SatsSchema, idx: usize) -> (r: bool)
    ensures
        r == spec_is_table_ref(*schema, idx as int),
{
    let n = schema.tables.len();
    let mut k: usize = 0;
    while k < n
        invariant
            n == schema.tables@.len(),
            k <= n,
            forall|t: int|
                0 <= t < k ==> (#[trigger] schema.tables@[t]).product_type_ref as int != idx as int,
        decreases n - k,
    {
        if schema.tables[k].product_type_ref == idx {
            return true;
        }
        k += 1;
    }
    false
}

} // verus!
