//! The pattern detector: pure predicates recognizing well-known structural
//! idioms (identity, timestamp, duration, scheduled-time, optional value)
//! from raw product and sum shapes, independent of any resolved name.

use vstd::prelude::*;

use crate::model::{AlgebraicType, OptionalName, ProductType, SumType, Variant};
use crate::text::eq_str;

verus! {

/// Whether a variant's name is present and equal to `name`.
pub open spec fn spec_variant_named(v: Variant, name: Seq<char>) -> bool {
    v.name.is_named() && v.name.spec_name() == name
}

/// The well-known single-field product idioms: a product is `Identity`,
/// `Timestamp`, or `Duration` iff it has exactly one element whose name is
/// the reserved marker and whose type is the expected scalar.
pub open spec fn spec_product_special(p: ProductType) -> Option<Seq<char>> {
    if p.elements@.len() == 1 && p.elements@[0].name.is_named() {
        let n = p.elements@[0].name.spec_name();
        let t = p.elements@[0].algebraic_type;
        if n == "__identity__"@ && t is U256 {
            Some("Identity"@)
        } else if n == "__timestamp_micros_since_unix_epoch__"@ && t is I64 {
            Some("Timestamp"@)
        } else if n == "__time_duration_micros__"@ && t is I64 {
            Some("Duration"@)
        } else {
            None
        }
    } else {
        None
    }
}

/// The scheduled-time sum idiom: exactly two variants whose names, as a
/// set, are `Interval` and `Time`.
pub open spec fn spec_sum_scheduled(s: SumType) -> bool {
    &&& s.variants@.len() == 2
    &&& (spec_variant_named(s.variants@[0], "Interval"@) || spec_variant_named(
        s.variants@[1],
        "Interval"@,
    ))
    &&& (spec_variant_named(s.variants@[0], "Time"@) || spec_variant_named(s.variants@[1], "Time"@))
}

/// Whether a variant carries the unit payload: a product with no elements.
pub open spec fn spec_variant_is_unit(v: Variant) -> bool {
    v.algebraic_type is Product && v.algebraic_type->Product_0.elements@.len() == 0
}

/// The optional-value sum idiom. Rule (a): exactly two variants, both
/// named, one `Some` and one `None`. Rule (b): exactly two variants, one
/// with a unit payload and one with any other payload.
pub open spec fn spec_sum_is_option(s: SumType) -> bool {
    let vs = s.variants@;
    vs.len() == 2 && {
        ||| {
            &&& vs[0].name.is_named()
            &&& vs[1].name.is_named()
            &&& (spec_variant_named(vs[0], "Some"@) || spec_variant_named(vs[1], "Some"@))
            &&& (spec_variant_named(vs[0], "None"@) || spec_variant_named(vs[1], "None"@))
        }
        ||| {
            &&& (spec_variant_is_unit(vs[0]) || spec_variant_is_unit(vs[1]))
            &&& (!spec_variant_is_unit(vs[0]) || !spec_variant_is_unit(vs[1]))
        }
    }
}

/// The payload type of the first variant named `Some`, if any.
pub open spec fn spec_first_some_variant(vs: Seq<Variant>) -> Option<AlgebraicType>
    decreases vs.len(),
{
    if vs.len() == 0 {
        None
    } else if spec_variant_named(vs[0], "Some"@) {
        Some(vs[0].algebraic_type)
    } else {
        spec_first_some_variant(vs.drop_first())
    }
}

/// The payload of the first variant that is not a unit product, with one
/// level of tupling unwrapped: a single-element product yields that
/// element's type.
pub open spec fn spec_first_data_variant(vs: Seq<Variant>) -> Option<AlgebraicType>
    decreases vs.len(),
{
    if vs.len() == 0 {
        None
    } else {
        match vs[0].algebraic_type {
            AlgebraicType::Product(p) => if p.elements@.len() == 0 {
                spec_first_data_variant(vs.drop_first())
            } else if p.elements@.len() == 1 {
                Some(p.elements@[0].algebraic_type)
            } else {
                Some(vs[0].algebraic_type)
            },
            _ => Some(vs[0].algebraic_type),
        }
    }
}

/// The inner type of an optional-value sum: the payload of the first
/// variant named `Some`, or else of the first variant carrying data.
pub open spec fn spec_option_inner(s: SumType) -> Option<AlgebraicType> {
    match spec_first_some_variant(s.variants@) {
        Some(t) => Some(t),
        None => spec_first_data_variant(s.variants@),
    }
}

/// Recognize the well-known single-field product idioms.
pub fn detect_spacetimedb_type(product: &ProductType) -> (r: Option<String>)
    ensures
        match spec_product_special(*product) {
            Some(n) => r is Some && r->0@ == n,
            None => r is None,
        },
{
    if product.elements.len() == 1 {
        let element = &product.elements[0];
        match element.name.as_option() {
            Some(field_name) => {
                let is_u256 = match element.algebraic_type {
                    AlgebraicType::U256 => true,
                    _ => false,
                };
                let is_i64 = match element.algebraic_type {
                    AlgebraicType::I64 => true,
                    _ => false,
                };
                if eq_str(field_name, "__identity__") && is_u256 {
                    Some(String::from_str("Identity"))
                } else if eq_str(field_name, "__timestamp_micros_since_unix_epoch__") && is_i64 {
                    Some(String::from_str("Timestamp"))
                } else if eq_str(field_name, "__time_duration_micros__") && is_i64 {
                    Some(String::from_str("Duration"))
                } else {
                    None
                }
            },
            None => None,
        }
    } else {
        None
    }
}

/// Recognize the scheduled-time sum idiom.
pub fn detect_spacetimedb_sum_type(sum: &SumType) -> (r: Option<String>)
    ensures
        spec_sum_scheduled(*sum) <==> (r is Some),
        r is Some ==> r->0@ == "ScheduledAt"@,
{
    if sum.variants.len() == 2 {
        let has_interval = variant_named(&sum.variants[0], "Interval") || variant_named(
            &sum.variants[1],
            "Interval",
        );
        let has_time = variant_named(&sum.variants[0], "Time") || variant_named(
            &sum.variants[1],
            "Time",
        );
        if has_interval && has_time {
            return Some(String::from_str("ScheduledAt"));
        }
        None
    } else {
        None
    }
}

/// Recognize the optional-value sum idiom.
pub fn is_option_type(sum: &SumType) -> (r: bool)
    ensures
        r == spec_sum_is_option(*sum),
{
    if sum.variants.len() != 2 {
        return false;
    }
    let v0 = &sum.variants[0];
    let v1 = &sum.variants[1];

    let both_named = matches!(v0.name, OptionalName::Named(_)) && matches!(
        v1.name,
        OptionalName::Named(_),
    );
    if both_named {
        let has_some = variant_named(v0, "Some") || variant_named(v1, "Some");
        let has_none = variant_named(v0, "None") || variant_named(v1, "None");
        if has_some && has_none {
            return true;
        }
    }

    let unit0 = variant_is_unit(v0);
    let unit1 = variant_is_unit(v1);
    (unit0 || unit1) && (!unit0 || !unit1)
}

/// Extract the inner type of an optional-value sum: the payload of the
/// first variant named `Some`, or else of the first variant carrying data.
pub fn get_option_inner_type(sum: &SumType) -> (r: Option<&AlgebraicType>)
    ensures
        match spec_option_inner(*sum) {
            Some(t) => r is Some && *r->0 == t,
            None => r is None,
        },
{
    let n = sum.variants.len();
    proof {
        assert(sum.variants@.skip(0) =~= sum.variants@);
    }
    let mut i: usize = 0;
    while i < n
        invariant
            n == sum.variants@.len(),
            i <= n,
            spec_first_some_variant(sum.variants@) == spec_first_some_variant(
                sum.variants@.skip(i as int),
            ),
        decreases n - i,
    {
        let v = &sum.variants[i];
        proof {
            assert(sum.variants@.skip(i as int)[0] == sum.variants@[i as int]);
            assert(sum.variants@.skip(i as int).drop_first() =~= sum.variants@.skip(i as int + 1));
        }
        if let Some(name) = v.name.as_option() {
            if eq_str(name, "Some") {
                return Some(&v.algebraic_type);
            }
        }
        i += 1;
    }
    proof {
        assert(sum.variants@.skip(n as int) =~= Seq::<Variant>::empty());
    }

    let mut i: usize = 0;
    proof {
        assert(sum.variants@.skip(0) =~= sum.variants@);
    }
    while i < n
        invariant
            n == sum.variants@.len(),
            i <= n,
            spec_first_some_variant(sum.variants@) is None,
            spec_first_data_variant(sum.variants@) == spec_first_data_variant(
                sum.variants@.skip(i as int),
            ),
        decreases n - i,
    {
        let v = &sum.variants[i];
        proof {
            assert(sum.variants@.skip(i as int)[0] == sum.variants@[i as int]);
            assert(sum.variants@.skip(i as int).drop_first() =~= sum.variants@.skip(i as int + 1));
        }
        match &v.algebraic_type {
            AlgebraicType::Product(p) => {
                if p.elements.len() == 1 {
                    return Some(&p.elements[0].algebraic_type);
                }
                if p.elements.len() != 0 {
                    return Some(&v.algebraic_type);
                }
            },
            _ => {
                return Some(&v.algebraic_type);
            },
        }
        i += 1;
    }
    proof {
        assert(sum.variants@.skip(n as int) =~= Seq::<Variant>::empty());
    }
    None
}

/// Whether a variant's name is present and equal to `name`.
fn variant_named(v: &Variant, name: &str) -> (r: bool)
    ensures
        r == spec_variant_named(*v, name@),
{
    match v.name.as_option() {
        Some(n) => eq_str(n, name),
        None => false,
    }
}

/// Whether a variant carries the unit payload.
fn variant_is_unit(v: &Variant) -> (r: bool)
    ensures
        r == spec_variant_is_unit(*v),
{
    match &v.algebraic_type {
        AlgebraicType::Product(p) => p.elements.len() == 0,
        _ => false,
    }
}

} // verus!
