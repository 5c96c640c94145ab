//! The recursive type formatter: renders any algebraic type to its
//! canonical display string. A reference always stops at a name and is
//! never expanded into its target, which keeps the rendering total on
//! schemas with cyclic references.

use vstd::prelude::*;

use crate::detect::{
    detect_spacetimedb_sum_type, detect_spacetimedb_type, get_option_inner_type, is_option_type,
    spec_first_data_variant, spec_first_some_variant, spec_option_inner, spec_product_special,
    spec_sum_is_option, spec_sum_scheduled, spec_variant_named,
};
use crate::model::{AlgebraicType, Element, SumType, Variant};
use crate::names::NameMap;
use crate::text::{spec_nat_digits, usize_to_string};

verus! {

/// The display name of a typespace index: the mapped name when present,
/// else the synthetic placeholder `Type_<index>`.
pub open spec fn spec_ref_name(i: int, names: Map<int, Seq<char>>) -> Seq<char> {
    if names.contains_key(i) {
        names[i]
    } else {
        "Type_"@ + spec_nat_digits(i)
    }
}

/// Whether every element of a product is unnamed (a positional tuple).
pub open spec fn spec_all_unnamed(es: Seq<Element>) -> bool {
    forall|i: int| 0 <= i < es.len() ==> !(#[trigger] es[i]).name.is_named()
}

/// Canonical rendering of an algebraic type, given a map from typespace
/// index to display name.
pub open spec fn spec_format_type(t: AlgebraicType, names: Map<int, Seq<char>>) -> Seq<char>
    decreases t,
    via spec_format_type_decreases
{
    match t {
        AlgebraicType::Bool => "bool"@,
        AlgebraicType::I8 => "i8"@,
        AlgebraicType::U8 => "u8"@,
        AlgebraicType::I16 => "i16"@,
        AlgebraicType::U16 => "u16"@,
        AlgebraicType::I32 => "i32"@,
        AlgebraicType::U32 => "u32"@,
        AlgebraicType::I64 => "i64"@,
        AlgebraicType::U64 => "u64"@,
        AlgebraicType::I128 => "i128"@,
        AlgebraicType::U128 => "u128"@,
        AlgebraicType::I256 => "i256"@,
        AlgebraicType::U256 => "u256"@,
        AlgebraicType::F32 => "f32"@,
        AlgebraicType::F64 => "f64"@,
        AlgebraicType::Str => "String"@,
        AlgebraicType::Array(inner) => "Vec<"@ + spec_format_type(*inner, names) + ">"@,
        AlgebraicType::Ref(i) => spec_ref_name(i as int, names),
        AlgebraicType::Sum(s) => if spec_sum_scheduled(s) {
            "ScheduledAt"@
        } else if spec_sum_is_option(s) {
            match spec_option_inner(s) {
                Some(inner) => "Option<"@ + spec_format_type(inner, names) + ">"@,
                None => "Option<?>"@,
            }
        } else {
            "Sum("@ + spec_nat_digits(s.variants@.len() as int) + " variants)"@
        },
        AlgebraicType::Product(p) => if spec_product_special(p) is Some {
            spec_product_special(p)->0
        } else if p.elements@.len() == 0 {
            "()"@
        } else if spec_all_unnamed(p.elements@) {
            "("@ + spec_format_tuple_body(p.elements@, names) + ")"@
        } else {
            "Product("@ + spec_nat_digits(p.elements@.len() as int) + " fields)"@
        },
    }
}

/// The comma-separated element types of a positional tuple.
pub open spec fn spec_format_tuple_body(es: Seq<Element>, names: Map<int, Seq<char>>) -> Seq<char>
    decreases es,
{
    if es.len() == 0 {
        Seq::<char>::empty()
    } else if es.len() == 1 {
        spec_format_type(es[0].algebraic_type, names)
    } else {
        spec_format_tuple_body(es.drop_last(), names) + ", "@ + spec_format_type(
            es.last().algebraic_type,
            names,
        )
    }
}

/// The payload named by [`spec_first_some_variant`] sits structurally
/// inside the variant list.
proof fn lemma_first_some_smaller(vs: Seq<Variant>)
    ensures
        spec_first_some_variant(vs) is Some ==> (decreases_to!(vs => spec_first_some_variant(vs)->0)),
    decreases vs.len(),
{
    if vs.len() > 0 {
        if spec_variant_named(vs[0], "Some"@) {
            assert(decreases_to!(vs => vs[0]));
        } else {
            lemma_first_some_smaller(vs.drop_first());
            if spec_first_some_variant(vs) is Some {
                assert(decreases_to!(vs => vs.drop_first()));
            }
        }
    }
}

/// The payload named by [`spec_first_data_variant`] sits structurally
/// inside the variant list.
proof fn lemma_first_data_smaller(vs: Seq<Variant>)
    ensures
        spec_first_data_variant(vs) is Some ==> (decreases_to!(vs => spec_first_data_variant(vs)->0)),
    decreases vs.len(),
{
    if vs.len() > 0 {
        match vs[0].algebraic_type {
            AlgebraicType::Product(p) => {
                if p.elements@.len() == 0 {
                    lemma_first_data_smaller(vs.drop_first());
                    if spec_first_data_variant(vs) is Some {
                        assert(decreases_to!(vs => vs.drop_first()));
                    }
                } else if p.elements@.len() == 1 {
                    assert(decreases_to!(vs => vs[0]));
                    assert(decreases_to!(p.elements@ => p.elements@[0]));
                } else {
                    assert(decreases_to!(vs => vs[0]));
                }
            },
            _ => {
                assert(decreases_to!(vs => vs[0]));
            },
        }
    }
}

#[via_fn]
proof fn spec_format_type_decreases(t: AlgebraicType, names: Map<int, Seq<char>>) {
    match t {
        AlgebraicType::Sum(s) => {
            lemma_first_some_smaller(s.variants@);
            lemma_first_data_smaller(s.variants@);
            if spec_sum_is_option(s) && !spec_sum_scheduled(s) {
                match spec_option_inner(s) {
                    Some(inner) => {
                        assert(decreases_to!(t => s.variants@));
                        assert(decreases_to!(t => inner));
                    },
                    None => {},
                }
            }
        },
        _ => {},
    }
}

/// An array type renders as `Vec<...>` around exactly the rendering of
/// its element type, whatever the element type and the name map.
pub proof fn lemma_array_compose(t: AlgebraicType, names: Map<int, Seq<char>>)
    ensures
        spec_format_type(AlgebraicType::Array(Box::new(t)), names) == "Vec<"@ + spec_format_type(
            t,
            names,
        ) + ">"@,
{
}

/// A reference to an index absent from the name map renders as the
/// synthetic placeholder `Type_<index>`, and a present index renders as
/// its mapped name: a reference never expands into the slot it points
/// to, so a cyclic typespace cannot make rendering recurse.
pub proof fn lemma_ref_opaque(i: u32, names: Map<int, Seq<char>>)
    ensures
        !names.contains_key(i as int) ==> spec_format_type(AlgebraicType::Ref(i), names) == "Type_"@
            + spec_nat_digits(i as int),
        names.contains_key(i as int) ==> spec_format_type(AlgebraicType::Ref(i), names) == names[
            i as int
        ],
{
}

/// Optional-value detection and rendering are symmetric under variant
/// reordering: a two-variant sum with one variant named `Some` and the
/// other named `None` formats identically whichever of the two comes
/// first.
pub proof fn lemma_option_symmetric(s1: SumType, s2: SumType, names: Map<int, Seq<char>>)
    requires
        s1.variants@.len() == 2,
        s2.variants@.len() == 2,
        s2.variants@[0] == s1.variants@[1],
        s2.variants@[1] == s1.variants@[0],
        spec_variant_named(s1.variants@[0], "Some"@) != spec_variant_named(
            s1.variants@[1],
            "Some"@,
        ),
        spec_variant_named(s1.variants@[0], "None"@) != spec_variant_named(
            s1.variants@[1],
            "None"@,
        ),
    ensures
        spec_format_type(AlgebraicType::Sum(s1), names) == spec_format_type(
            AlgebraicType::Sum(s2),
            names,
        ),
{
    let va = s1.variants@;
    let vb = s2.variants@;
    assert(vb =~= seq![va[1], va[0]]);
    assert(va.drop_first() =~= seq![va[1]]);
    assert(vb.drop_first() =~= seq![va[0]]);
    assert(seq![va[1]].drop_first() =~= Seq::<Variant>::empty());
    assert(seq![va[0]].drop_first() =~= Seq::<Variant>::empty());

    reveal_strlit("Some");
    reveal_strlit("None");
    assert("Some"@[0] == 'S');
    assert("None"@[0] == 'N');
    assert("Some"@ != "None"@);

    assert(spec_sum_scheduled(s1) == spec_sum_scheduled(s2));
    assert(va[0].name.is_named() && va[1].name.is_named());
    assert(spec_sum_is_option(s1));
    assert(spec_sum_is_option(s2));

    if spec_variant_named(va[0], "Some"@) {
        assert(spec_first_some_variant(va) == Some(va[0].algebraic_type));
        assert(!spec_variant_named(vb[0], "Some"@));
        assert(spec_first_some_variant(seq![va[0]]) == Some(va[0].algebraic_type));
        assert(spec_first_some_variant(vb) == Some(va[0].algebraic_type));
    } else {
        assert(spec_variant_named(va[1], "Some"@));
        assert(spec_first_some_variant(va.drop_first()) == Some(va[1].algebraic_type));
        assert(spec_first_some_variant(va) == Some(va[1].algebraic_type));
        assert(spec_first_some_variant(vb) == Some(va[1].algebraic_type));
    }
    assert(spec_option_inner(s1) == spec_option_inner(s2));
}

/// Render an algebraic type to its canonical display string.
pub fn format_type(alg_type: &AlgebraicType, type_names: &NameMap) -> (r: String)
    requires
        type_names.wf(),
    ensures
        r@ == spec_format_type(*alg_type, type_names.as_map()),
    decreases *alg_type,
{
    let ghost m = type_names.as_map();
    match alg_type {
        AlgebraicType::Bool => String::from_str("bool"),
        AlgebraicType::I8 => String::from_str("i8"),
        AlgebraicType::U8 => String::from_str("u8"),
        AlgebraicType::I16 => String::from_str("i16"),
        AlgebraicType::U16 => String::from_str("u16"),
        AlgebraicType::I32 => String::from_str("i32"),
        AlgebraicType::U32 => String::from_str("u32"),
        AlgebraicType::I64 => String::from_str("i64"),
        AlgebraicType::U64 => String::from_str("u64"),
        AlgebraicType::I128 => String::from_str("i128"),
        AlgebraicType::U128 => String::from_str("u128"),
        AlgebraicType::I256 => String::from_str("i256"),
        AlgebraicType::U256 => String::from_str("u256"),
        AlgebraicType::F32 => String::from_str("f32"),
        AlgebraicType::F64 => String::from_str("f64"),
        AlgebraicType::Str => String::from_str("String"),
        AlgebraicType::Array(inner) => {
            let mut s = String::from_str("Vec<");
            let t = format_type(inner, type_names);
            s.append(t.as_str());
            s.append(">");
            proof {
                assert(s@ =~= "Vec<"@ + spec_format_type(**inner, m) + ">"@);
            }
            s
        },
        AlgebraicType::Ref(i) => type_names.display_name(*i as usize),
        AlgebraicType::Sum(sum) => {
            if let Some(special) = detect_spacetimedb_sum_type(sum) {
                return special;
            }
            if is_option_type(sum) {
                match get_option_inner_type(sum) {
                    Some(inner) => {
                        proof {
                            lemma_first_some_smaller(sum.variants@);
                            lemma_first_data_smaller(sum.variants@);
                            assert(decreases_to!(*alg_type => sum.variants@));
                            assert(decreases_to!(*alg_type => *inner));
                        }
                        let mut s = String::from_str("Option<");
                        let t = format_type(inner, type_names);
                        s.append(t.as_str());
                        s.append(">");
                        proof {
                            assert(s@ =~= "Option<"@ + spec_format_type(*inner, m) + ">"@);
                        }
                        s
                    },
                    None => String::from_str("Option<?>"),
                }
            } else {
                let mut s = String::from_str("Sum(");
                let n = usize_to_string(sum.variants.len());
                s.append(n.as_str());
                s.append(" variants)");
                proof {
                    assert(s@ =~= "Sum("@ + spec_nat_digits(sum.variants@.len() as int)
                        + " variants)"@);
                }
                s
            }
        },
        AlgebraicType::Product(product) => {
            if let Some(special) = detect_spacetimedb_type(product) {
                return special;
            }
            let n = product.elements.len();
            if n == 0 {
                return String::from_str("()");
            }
            if all_unnamed(product) {
                let mut s = String::from_str("(");
                let mut i: usize = 0;
                proof {
                    assert(s@ =~= "("@ + spec_format_tuple_body(
                        product.elements@.take(0),
                        m,
                    ));
                }
                while i < n
                    invariant
                        n == product.elements@.len(),
                        0 < n,
                        i <= n,
                        type_names.wf(),
                        m == type_names.as_map(),
                        *alg_type == AlgebraicType::Product(*product),
                        s@ == "("@ + spec_format_tuple_body(product.elements@.take(i as int), m),
                    decreases n - i,
                {
                    if i > 0 {
                        s.append(", ");
                    }
                    proof {
                        assert(decreases_to!(*alg_type => (*alg_type)->Product_0));
                        assert((*alg_type)->Product_0 == *product);
                        assert(decreases_to!(*product => product.elements));
                        assert(decreases_to!(product.elements@ => product.elements@[i as int]));
                    }
                    let t = format_type(&product.elements[i].algebraic_type, type_names);
                    s.append(t.as_str());
                    proof {
                        let es = product.elements@;
                        assert(es.take(i as int + 1).drop_last() =~= es.take(i as int));
                        assert(es.take(i as int + 1).last() == es[i as int]);
                        if i == 0 {
                            assert(es.take(1)[0] == es[0]);
                            assert(s@ =~= "("@ + spec_format_tuple_body(es.take(1), m));
                        } else {
                            assert(s@ =~= "("@ + spec_format_tuple_body(es.take(i as int + 1), m));
                        }
                    }
                    i += 1;
                }
                proof {
                    assert(product.elements@.take(n as int) =~= product.elements@);
                }
                s.append(")");
                proof {
                    assert(s@ =~= "("@ + spec_format_tuple_body(product.elements@, m) + ")"@);
                }
                s
            } else {
                let mut s = String::from_str("Product(");
                let c = usize_to_string(n);
                s.append(c.as_str());
                s.append(" fields)");
                proof {
                    assert(s@ =~= "Product("@ + spec_nat_digits(n as int) + " fields)"@);
                }
                s
            }
        },
    }
}

/// Whether every element of a product is unnamed.
fn all_unnamed(product: &crate::model::ProductType) -> (r: bool)
    ensures
        r == spec_all_unnamed(product.elements@),
{
    let n = product.elements.len();
    let mut i: usize = 0;
    while i < n
        invariant
            n == product.elements@.len(),
            i <= n,
            forall|k: int| 0 <= k < i ==> !(#[trigger] product.elements@[k]).name.is_named(),
        decreases n - i,
    {
        match product.elements[i].name {
            crate::model::OptionalName::Named(_) => {
                return false;
            },
            crate::model::OptionalName::Unnamed => {},
        }
        i += 1;
    }
    true
}

} // verus!
