//! The schema normalizer: converts a loosely-typed schema object into one
//! strict algebraic IR node, encoding the precedence rules for binary
//! formats, const/enum detection, declared primitive types, unions,
//! products, the all-of nullable-reference shortcut, and the unrecognized
//! fallback.

use vstd::prelude::*;

use crate::names::dec_str;
use crate::schema::{SchemaLiteral, SchemaObject, SchemaOrRef, SchemaType, SchemaTypeSet};
use crate::types::{
    clone_opt_string, opt_str_view, AlgType, AlgV, AnnotatedObj, AnnotatedReference, IastV, MetaV,
    PrimV, Primitive, IAST,
};

verus! {

// ===========================================================================
// Ghost formulation of the resolution rules
// ===========================================================================

/// Whether a type set contains the null type.
pub open spec fn ts_contains_null(ts: SchemaTypeSet) -> bool {
    match ts {
        SchemaTypeSet::Single(t) => t is Null,
        SchemaTypeSet::Multiple(v) => v@.contains(SchemaType::Null),
    }
}

/// Whether the schema's own type declaration includes the null type.
pub open spec fn declares_null(s: SchemaObject) -> bool {
    match s.schema_type {
        Option::Some(ts) => ts_contains_null(ts),
        Option::None => false,
    }
}

/// The first non-null entry of a multi-type set, or null if there is none.
pub open spec fn first_non_null(v: Seq<SchemaType>) -> SchemaType
    decreases v,
{
    if v.len() == 0 {
        SchemaType::Null
    } else if !(v[0] is Null) {
        v[0]
    } else {
        first_non_null(v.drop_first())
    }
}

/// The representative scalar type of a type declaration: the type itself,
/// or the first non-null entry of a multi-type set (multiple simultaneous
/// non-null types are not supported).
pub open spec fn representative_type(ts: SchemaTypeSet) -> SchemaType {
    match ts {
        SchemaTypeSet::Single(t) => t,
        SchemaTypeSet::Multiple(v) => first_non_null(v@),
    }
}

/// The metadata attached to a normalized node.
pub open spec fn meta_of(s: SchemaObject, nullable: bool, is_optional: bool) -> MetaV {
    MetaV {
        nullable,
        optional: is_optional,
        is_deprecated: s.deprecated,
        description: opt_str_view(s.description),
        title: opt_str_view(s.title),
    }
}

/// Whether const/enum detection applies: a constant value or a non-empty
/// enumerated value list.
pub open spec fn has_enum_shape(s: SchemaObject) -> bool {
    s.const_value is Some || s.enum_values@.len() > 0
}

/// The enum entries of a const/enum schema: the constant alone, or the
/// enumerated values; with an implicit non-string `"unspecified"` variant
/// appended when the schema carries the extensible-enum marker.
pub open spec fn enum_entries(s: SchemaObject) -> Seq<(Seq<char>, bool)> {
    let base = match s.const_value {
        Option::Some(l) => seq![(l.value@, l.is_string)],
        Option::None => s.enum_values@.map_values(|l: SchemaLiteral| (l.value@, l.is_string)),
    };
    if s.extensible_enum {
        base.push(("unspecified"@, false))
    } else {
        base
    }
}

/// The `Primitive` kind of a non-object, non-array scalar type.
pub open spec fn prim_of_type(t: SchemaType) -> PrimV {
    match t {
        SchemaType::Boolean => PrimV::Boolean,
        SchemaType::Integer => PrimV::Integer,
        SchemaType::Number => PrimV::Number,
        SchemaType::String => PrimV::String,
        _ => PrimV::Never,
    }
}

/// The union member list: `anyOf` takes precedence over `oneOf`.
pub open spec fn union_members(s: SchemaObject) -> Seq<SchemaOrRef> {
    if s.any_of@.len() > 0 {
        s.any_of@
    } else {
        s.one_of@
    }
}

/// Whether a union member is the literal null type schema.
pub open spec fn is_null_literal_schema(x: SchemaOrRef) -> bool {
    match x {
        SchemaOrRef::Object(b) => match b.schema_type {
            Option::Some(SchemaTypeSet::Single(t)) => t is Null,
            _ => false,
        },
        SchemaOrRef::Ref(_) => false,
    }
}

/// The discriminator-mapping key for a member reference path, if any.
pub open spec fn disc_lookup(mapping: Seq<(String, String)>, path: Seq<char>) -> Option<Seq<char>>
    decreases mapping,
{
    if mapping.len() == 0 {
        Option::None
    } else if mapping[0].1@ == path {
        Option::Some(mapping[0].0@)
    } else {
        disc_lookup(mapping.drop_first(), path)
    }
}

/// The variant name of union member `i`: the discriminator-mapping key of
/// its reference path when one lines up, else the zero-based member index
/// (positional fallback; not semantically stable across document edits).
pub open spec fn variant_name(
    mapping: Seq<(String, String)>,
    member: SchemaOrRef,
    i: int,
) -> Seq<char> {
    match member {
        SchemaOrRef::Ref(p) => match disc_lookup(mapping, p@) {
            Option::Some(k) => k,
            Option::None => dec_str(i),
        },
        SchemaOrRef::Object(_) => dec_str(i),
    }
}

/// Whether some member of a union is itself nullable or is the literal
/// null type.
pub open spec fn sum_nullable(members: Seq<SchemaOrRef>) -> bool
    decreases members,
{
    if members.len() == 0 {
        false
    } else {
        is_null_literal_schema(members[0]) || iast_nullable_spec(
            normalize_sor_spec(members[0], false),
        ) || sum_nullable(members.drop_first())
    }
}

/// The variant list of a union whose remaining members are `members`, the
/// first of them having position `base` in the full member list.  Literal
/// null members contribute no variant.
pub open spec fn sum_entries(
    mapping: Seq<(String, String)>,
    members: Seq<SchemaOrRef>,
    base: int,
) -> Seq<(Seq<char>, IastV)>
    decreases members,
{
    if members.len() == 0 {
        Seq::empty()
    } else {
        let rest = sum_entries(mapping, members.drop_first(), base + 1);
        if is_null_literal_schema(members[0]) {
            rest
        } else {
            seq![
                (variant_name(mapping, members[0], base), normalize_sor_spec(members[0], false)),
            ] + rest
        }
    }
}

/// Strict lexicographic order on character sequences, by code point.
pub open spec fn lex_lt(a: Seq<char>, b: Seq<char>) -> bool
    decreases a.len(),
{
    if b.len() == 0 {
        false
    } else if a.len() == 0 {
        true
    } else if (a[0] as u32) < (b[0] as u32) {
        true
    } else if (a[0] as u32) == (b[0] as u32) {
        lex_lt(a.drop_first(), b.drop_first())
    } else {
        false
    }
}

/// Inserts an entry into a name-sorted entry list, after any entries whose
/// names do not compare greater.
pub open spec fn insert_sorted(
    entries: Seq<(Seq<char>, IastV)>,
    e: (Seq<char>, IastV),
) -> Seq<(Seq<char>, IastV)>
    decreases entries,
{
    if entries.len() == 0 {
        seq![e]
    } else if lex_lt(e.0, entries[0].0) {
        seq![e] + entries
    } else {
        seq![entries[0]] + insert_sorted(entries.drop_first(), e)
    }
}

/// Whether a required-name list contains a property name.
pub open spec fn req_contains(required: Seq<String>, name: Seq<char>) -> bool {
    exists|i: int| 0 <= i < required.len() && required[i]@ == name
}

/// The field list of a product: every declared property normalized, a
/// property being optional exactly when its name is not in the schema's
/// required-name set, the whole sorted by field name.
pub open spec fn product_entries(
    props: Seq<(String, SchemaOrRef)>,
    required: Seq<String>,
) -> Seq<(Seq<char>, IastV)>
    decreases props,
{
    if props.len() == 0 {
        Seq::empty()
    } else {
        insert_sorted(
            product_entries(props.drop_last(), required),
            (
                props.last().0@,
                normalize_sor_spec(props.last().1, !req_contains(required, props.last().0@)),
            ),
        )
    }
}

/// How many members of an all-of list are bare references.
pub open spec fn count_refs(v: Seq<SchemaOrRef>) -> int
    decreases v,
{
    if v.len() == 0 {
        0
    } else {
        (if v[0] is Ref {
            1int
        } else {
            0int
        }) + count_refs(v.drop_first())
    }
}

/// The path of the first bare reference in a list.
pub open spec fn first_ref_path(v: Seq<SchemaOrRef>) -> Seq<char>
    decreases v,
{
    if v.len() == 0 {
        Seq::empty()
    } else {
        match v[0] {
            SchemaOrRef::Ref(p) => p@,
            SchemaOrRef::Object(_) => first_ref_path(v.drop_first()),
        }
    }
}

/// The narrow all-of shortcut shape: exactly two members, exactly one of
/// them a bare reference.
pub open spec fn allof_nullable_ref_shape(s: SchemaObject) -> bool {
    s.all_of@.len() == 2 && count_refs(s.all_of@) == 1
}

/// The description of the unrecognized-shape fallback node.
pub open spec fn fallback_desc(d: Option<String>) -> Option<Seq<char>> {
    match d {
        Option::Some(s) => Option::Some(s@),
        Option::None => Option::Some("Couldn't parse Object"@),
    }
}

/// The `nullable` mark of a ghost IR node.
pub open spec fn iast_nullable_spec(v: IastV) -> bool {
    crate::types::iast_nullable(v)
}

/// The normalization of one schema position: a bare reference becomes a
/// `Reference` node (never expanded inline), an inline object is normalized
/// by the resolution rules.
pub open spec fn normalize_sor_spec(x: SchemaOrRef, is_optional: bool) -> IastV
    decreases x,
{
    match x {
        SchemaOrRef::Ref(p) => IastV::Reference {
            path: p@,
            optional: is_optional,
            nullable: false,
        },
        SchemaOrRef::Object(b) => normalize_spec(*b, is_optional),
    }
}

/// The normalization of one inline schema object.  Resolution order, first
/// match wins:
/// 1. binary format; 2. const/enum; 3. declared type (object with
/// properties falling through to the product rule, object without
/// properties wrapped as a map-of-unit); 4. union; 5. product;
/// 6. all-of nullable-reference shortcut; 7. unrecognized fallback.
pub open spec fn normalize_spec(s: SchemaObject, is_optional: bool) -> IastV
    decreases s,
{
    if s.is_binary_format {
        IastV::Primitive(meta_of(s, declares_null(s), is_optional), PrimV::Binary)
    } else if has_enum_shape(s) {
        IastV::Primitive(meta_of(s, declares_null(s), is_optional), PrimV::Enum(enum_entries(s)))
    } else if s.schema_type is Some {
        let rep = representative_type(s.schema_type.unwrap());
        if rep is Object {
            let product = AlgV::Product(product_entries(s.properties@, s.required@));
            if s.properties@.len() == 0 {
                let inner = IastV::Object(meta_of(s, declares_null(s), false), product);
                IastV::Primitive(
                    meta_of(s, declares_null(s), is_optional),
                    PrimV::Mapping(Box::new(inner)),
                )
            } else {
                IastV::Object(meta_of(s, declares_null(s), is_optional), product)
            }
        } else if rep is Array {
            match s.items {
                Option::Some(b) => IastV::Primitive(
                    meta_of(s, declares_null(s), is_optional),
                    PrimV::List(Box::new(normalize_sor_spec(*b, false))),
                ),
                Option::None => IastV::Primitive(
                    meta_of(s, declares_null(s), is_optional),
                    PrimV::Dynamic,
                ),
            }
        } else {
            IastV::Primitive(meta_of(s, declares_null(s), is_optional), prim_of_type(rep))
        }
    } else if union_members(s).len() > 0 {
        IastV::Object(
            meta_of(s, sum_nullable(union_members(s)), is_optional),
            AlgV::Sum(sum_entries(s.discriminator_mapping@, union_members(s), 0)),
        )
    } else if s.properties@.len() > 0 {
        IastV::Object(
            meta_of(s, declares_null(s), is_optional),
            AlgV::Product(product_entries(s.properties@, s.required@)),
        )
    } else if allof_nullable_ref_shape(s) {
        IastV::Reference { path: first_ref_path(s.all_of@), optional: is_optional, nullable: true }
    } else {
        IastV::Primitive(
            MetaV {
                nullable: true,
                optional: is_optional,
                is_deprecated: s.deprecated,
                description: fallback_desc(s.description),
                title: opt_str_view(s.title),
            },
            PrimV::Never,
        )
    }
}

// ===========================================================================
// Laws of the normalizer
// ===========================================================================

/// A scalar schema `{"type": T}` with `T` one of string, number, integer
/// or boolean normalizes to the matching primitive with `nullable` false.
pub proof fn lemma_scalar_type_not_nullable(s: SchemaObject, t: SchemaType, is_optional: bool)
    requires
        !s.is_binary_format,
        s.const_value is None,
        s.enum_values@.len() == 0,
        s.schema_type == Option::Some(SchemaTypeSet::Single(t)),
        t is String || t is Number || t is Integer || t is Boolean,
    ensures
        normalize_spec(s, is_optional) == IastV::Primitive(
            meta_of(s, false, is_optional),
            prim_of_type(t),
        ),
        !iast_nullable_spec(normalize_spec(s, is_optional)),
{
}

/// A scalar schema `{"type": [T, "null"]}` normalizes to the matching
/// primitive with `nullable` true.
pub proof fn lemma_scalar_with_null_nullable(
    s: SchemaObject,
    t: SchemaType,
    tv: Vec<SchemaType>,
    is_optional: bool,
)
    requires
        !s.is_binary_format,
        s.const_value is None,
        s.enum_values@.len() == 0,
        s.schema_type == Option::Some(SchemaTypeSet::Multiple(tv)),
        tv@ == seq![t, SchemaType::Null],
        t is String || t is Number || t is Integer || t is Boolean,
    ensures
        normalize_spec(s, is_optional) == IastV::Primitive(
            meta_of(s, true, is_optional),
            prim_of_type(t),
        ),
        iast_nullable_spec(normalize_spec(s, is_optional)),
{
    assert(tv@[0] == t);
    assert(tv@[1] == SchemaType::Null);
    assert(tv@.contains(SchemaType::Null));
    assert(first_non_null(tv@) == t);
}

/// A schema with a `const` value `v` (and no binary-format or
/// extensible-enum marker, which take precedence or append a variant)
/// normalizes to `Enum([(v, is_string(v))])`.
pub proof fn lemma_const_enum(s: SchemaObject, lit: SchemaLiteral, is_optional: bool)
    requires
        !s.is_binary_format,
        s.const_value == Option::Some(lit),
        !s.extensible_enum,
    ensures
        normalize_spec(s, is_optional) == IastV::Primitive(
            meta_of(s, declares_null(s), is_optional),
            PrimV::Enum(seq![(lit.value@, lit.is_string)]),
        ),
{
}

proof fn lemma_sum_nullable_exists(members: Seq<SchemaOrRef>)
    ensures
        sum_nullable(members) <==> exists|k: int|
            0 <= k < members.len() && (is_null_literal_schema(#[trigger] members[k])
                || iast_nullable_spec(normalize_sor_spec(members[k], false))),
    decreases members,
{
    if members.len() > 0 {
        lemma_sum_nullable_exists(members.drop_first());
        assert(forall|k: int|
            1 <= k < members.len() ==> members.drop_first()[k - 1] == #[trigger] members[k]);
        if sum_nullable(members) {
            if is_null_literal_schema(members[0]) || iast_nullable_spec(
                normalize_sor_spec(members[0], false),
            ) {
                assert(is_null_literal_schema(members[0]) || iast_nullable_spec(
                    normalize_sor_spec(members[0], false),
                ));
            } else {
                let k = choose|k: int|
                    0 <= k < members.drop_first().len() && (is_null_literal_schema(
                        #[trigger] members.drop_first()[k],
                    ) || iast_nullable_spec(normalize_sor_spec(members.drop_first()[k], false)));
                assert(is_null_literal_schema(members[k + 1]) || iast_nullable_spec(
                    normalize_sor_spec(members[k + 1], false),
                ));
            }
        }
    }
}

/// The union-nullability rule: a union normalizes to a sum whose
/// `nullable` mark is set exactly when some member is the literal null
/// type or itself normalizes nullable.  In particular an `anyOf` list
/// containing a `{"type":"null"}` member yields a nullable sum, and
/// removing every such member (with all others non-nullable) yields a
/// non-nullable one.
pub proof fn lemma_union_nullability(s: SchemaObject, is_optional: bool)
    requires
        !s.is_binary_format,
        !has_enum_shape(s),
        s.schema_type is None,
        union_members(s).len() > 0,
    ensures
        iast_nullable_spec(normalize_spec(s, is_optional)) <==> exists|k: int|
            0 <= k < union_members(s).len() && (is_null_literal_schema(
                #[trigger] union_members(s)[k],
            ) || iast_nullable_spec(normalize_sor_spec(union_members(s)[k], false))),
{
    lemma_sum_nullable_exists(union_members(s));
}

/// Whether an entry list is sorted by name: no later name compares below
/// an earlier one.
pub open spec fn entries_sorted(entries: Seq<(Seq<char>, IastV)>) -> bool {
    forall|i: int, j: int|
        0 <= i < j < entries.len() ==> !lex_lt(#[trigger] entries[j].0, #[trigger] entries[i].0)
}

proof fn lemma_lex_lt_irrefl(a: Seq<char>)
    ensures
        !lex_lt(a, a),
    decreases a.len(),
{
    if a.len() > 0 {
        lemma_lex_lt_irrefl(a.drop_first());
    }
}

proof fn lemma_lex_lt_trans(a: Seq<char>, b: Seq<char>, c: Seq<char>)
    requires
        lex_lt(a, b),
        lex_lt(b, c),
    ensures
        lex_lt(a, c),
    decreases a.len(),
{
    if a.len() > 0 && b.len() > 0 && c.len() > 0 && (a[0] as u32) == (b[0] as u32) && (b[0]
        as u32) == (c[0] as u32) {
        lemma_lex_lt_trans(a.drop_first(), b.drop_first(), c.drop_first());
    }
}

proof fn lemma_insert_sorted_elems(entries: Seq<(Seq<char>, IastV)>, e: (Seq<char>, IastV))
    ensures
        insert_sorted(entries, e).len() == entries.len() + 1,
        forall|k: int|
            0 <= k < insert_sorted(entries, e).len() ==> (#[trigger] insert_sorted(entries, e)[k]
                == e || entries.contains(insert_sorted(entries, e)[k])),
    decreases entries,
{
    if entries.len() > 0 && !lex_lt(e.0, entries[0].0) {
        lemma_insert_sorted_elems(entries.drop_first(), e);
        let r = insert_sorted(entries, e);
        assert forall|k: int| 0 <= k < r.len() implies (#[trigger] r[k] == e || entries.contains(
            r[k],
        )) by {
            if k == 0 {
                assert(entries.contains(entries[0]));
            } else {
                let rr = insert_sorted(entries.drop_first(), e);
                assert(r[k] == rr[k - 1]);
                if rr[k - 1] != e {
                    let t = choose|t: int|
                        0 <= t < entries.drop_first().len() && entries.drop_first()[t] == rr[k
                            - 1];
                    assert(entries[t + 1] == rr[k - 1]);
                    assert(entries.contains(entries[t + 1]));
                }
            }
        }
    }
}

proof fn lemma_insert_sorted_preserves(entries: Seq<(Seq<char>, IastV)>, e: (Seq<char>, IastV))
    requires
        entries_sorted(entries),
    ensures
        entries_sorted(insert_sorted(entries, e)),
    decreases entries,
{
    let r = insert_sorted(entries, e);
    if entries.len() == 0 {
    } else if lex_lt(e.0, entries[0].0) {
        assert forall|i: int, j: int| 0 <= i < j < r.len() implies !lex_lt(
            #[trigger] r[j].0,
            #[trigger] r[i].0,
        ) by {
            if i == 0 {
                assert(r[j] == entries[j - 1]);
                if lex_lt(entries[j - 1].0, e.0) {
                    lemma_lex_lt_trans(entries[j - 1].0, e.0, entries[0].0);
                    if j == 1 {
                        lemma_lex_lt_irrefl(entries[0].0);
                    }
                }
            } else {
                assert(r[i] == entries[i - 1]);
                assert(r[j] == entries[j - 1]);
            }
        }
    } else {
        let rest = entries.drop_first();
        assert(forall|i: int, j: int|
            0 <= i < j < rest.len() ==> !lex_lt(#[trigger] rest[j].0, #[trigger] rest[i].0));
        lemma_insert_sorted_preserves(rest, e);
        lemma_insert_sorted_elems(rest, e);
        let rr = insert_sorted(rest, e);
        assert forall|i: int, j: int| 0 <= i < j < r.len() implies !lex_lt(
            #[trigger] r[j].0,
            #[trigger] r[i].0,
        ) by {
            if i == 0 {
                assert(r[j] == rr[j - 1]);
                if lex_lt(rr[j - 1].0, entries[0].0) {
                    if rr[j - 1] == e {
                        assert(!lex_lt(e.0, entries[0].0));
                    } else {
                        let t = choose|t: int| 0 <= t < rest.len() && rest[t] == rr[j - 1];
                        assert(entries[t + 1] == rr[j - 1]);
                        assert(!lex_lt(entries[t + 1].0, entries[0].0));
                    }
                }
            } else {
                assert(r[i] == rr[i - 1]);
                assert(r[j] == rr[j - 1]);
            }
        }
    }
}

/// Sortedness law: the field list of every normalized product is sorted
/// by field name, so emission order is deterministic regardless of the
/// order the document stored the properties in.
pub proof fn lemma_product_entries_sorted(props: Seq<(String, SchemaOrRef)>, required: Seq<String>)
    ensures
        entries_sorted(product_entries(props, required)),
    decreases props,
{
    if props.len() > 0 {
        lemma_product_entries_sorted(props.drop_last(), required);
        lemma_insert_sorted_preserves(
            product_entries(props.drop_last(), required),
            (
                props.last().0@,
                normalize_sor_spec(props.last().1, !req_contains(required, props.last().0@)),
            ),
        );
    }
}

// ===========================================================================
// Supporting lemmas
// ===========================================================================

/// `entries_view` maps an entry list pointwise.
proof fn lemma_entries_view_index(v: Seq<(String, IAST)>)
    ensures
        crate::types::entries_view(v).len() == v.len(),
        forall|i: int|
            0 <= i < v.len() ==> crate::types::entries_view(v)[i] == (
                v[i].0@,
                crate::types::iast_view(v[i].1),
            ),
    decreases v,
{
    if v.len() > 0 {
        lemma_entries_view_index(v.drop_last());
    }
}

/// `insert_sorted` places the new entry at the first position whose name
/// compares greater.
proof fn lemma_insert_sorted_at(entries: Seq<(Seq<char>, IastV)>, e: (Seq<char>, IastV), j: int)
    requires
        0 <= j <= entries.len(),
        forall|i: int| 0 <= i < j ==> !lex_lt(e.0, #[trigger] entries[i].0),
        j < entries.len() ==> lex_lt(e.0, entries[j].0),
    ensures
        insert_sorted(entries, e) =~= entries.subrange(0, j) + seq![e] + entries.subrange(
            j,
            entries.len() as int,
        ),
    decreases entries.len(),
{
    if entries.len() == 0 {
    } else if lex_lt(e.0, entries[0].0) {
        assert(j == 0);
    } else {
        assert(j >= 1);
        lemma_insert_sorted_at(entries.drop_first(), e, j - 1);
        assert(entries.drop_first().subrange(0, j - 1) =~= entries.subrange(1, j));
        assert(entries.drop_first().subrange(j - 1, entries.drop_first().len() as int)
            =~= entries.subrange(j, entries.len() as int));
    }
}

// ===========================================================================
// Executable helpers
// ===========================================================================

fn vec_contains_null(v: &Vec<SchemaType>) -> (r: bool)
    ensures
        r == v@.contains(SchemaType::Null),
{
    let mut i: usize = 0;
    while i < v.len()
        invariant
            i <= v@.len(),
            forall|k: int| 0 <= k < i ==> v@[k] != SchemaType::Null,
        decreases v@.len() - i,
    {
        if v[i] == SchemaType::Null {
            proof {
                assert(v@.contains(SchemaType::Null)) by {
                    assert(v@[i as int] == SchemaType::Null);
                }
            }
            return true;
        }
        i = i + 1;
    }
    proof {
        assert(!v@.contains(SchemaType::Null)) by {
            if v@.contains(SchemaType::Null) {
                let k = choose|k: int| 0 <= k < v@.len() && v@[k] == SchemaType::Null;
                assert(v@[k] != SchemaType::Null);
            }
        }
    }
    false
}

fn ts_contains_null_exec(ts: &SchemaTypeSet) -> (r: bool)
    ensures
        r == ts_contains_null(*ts),
{
    match ts {
        SchemaTypeSet::Single(t) => *t == SchemaType::Null,
        SchemaTypeSet::Multiple(v) => vec_contains_null(v),
    }
}

fn declares_null_exec(s: &SchemaObject) -> (r: bool)
    ensures
        r == declares_null(*s),
{
    match &s.schema_type {
        Option::Some(ts) => ts_contains_null_exec(ts),
        Option::None => false,
    }
}

fn first_non_null_exec(v: &Vec<SchemaType>) -> (r: SchemaType)
    ensures
        r == first_non_null(v@),
{
    let mut i: usize = 0;
    proof {
        assert(v@.skip(0) =~= v@);
    }
    while i < v.len()
        invariant
            i <= v@.len(),
            first_non_null(v@) == first_non_null(v@.skip(i as int)),
        decreases v@.len() - i,
    {
        proof {
            assert(v@.skip(i as int)[0] == v@[i as int]);
            assert(v@.skip(i as int).drop_first() =~= v@.skip(i as int + 1));
        }
        if v[i] != SchemaType::Null {
            proof {
                assert(first_non_null(v@.skip(i as int)) == v@[i as int]);
            }
            return v[i];
        }
        i = i + 1;
    }
    proof {
        assert(v@.skip(v@.len() as int).len() == 0);
    }
    SchemaType::Null
}

fn representative_type_exec(ts: &SchemaTypeSet) -> (r: SchemaType)
    ensures
        r == representative_type(*ts),
{
    match ts {
        SchemaTypeSet::Single(t) => *t,
        SchemaTypeSet::Multiple(v) => first_non_null_exec(v),
    }
}

fn prim_of_type_exec(t: SchemaType) -> (r: Primitive)
    ensures
        crate::types::prim_view(r) == prim_of_type(t),
{
    match t {
        SchemaType::Boolean => Primitive::Boolean,
        SchemaType::Integer => Primitive::Integer,
        SchemaType::Number => Primitive::Number,
        SchemaType::String => Primitive::String,
        _ => Primitive::Never,
    }
}

/// Compares two strings in strict lexicographic (code point) order.
fn str_lex_lt(a: &str, b: &str) -> (r: bool)
    ensures
        r == lex_lt(a@, b@),
{
    let alen = a.unicode_len();
    let blen = b.unicode_len();
    let mut i: usize = 0;
    proof {
        assert(a@.skip(0) =~= a@);
        assert(b@.skip(0) =~= b@);
    }
    while i < alen && i < blen
        invariant
            alen == a@.len(),
            blen == b@.len(),
            i <= alen,
            i <= blen,
            lex_lt(a@, b@) == lex_lt(a@.skip(i as int), b@.skip(i as int)),
        decreases alen - i,
    {
        proof {
            assert(a@.skip(i as int)[0] == a@[i as int]);
            assert(b@.skip(i as int)[0] == b@[i as int]);
            assert(a@.skip(i as int).drop_first() =~= a@.skip(i as int + 1));
            assert(b@.skip(i as int).drop_first() =~= b@.skip(i as int + 1));
        }
        let ca = a.get_char(i) as u32;
        let cb = b.get_char(i) as u32;
        if ca < cb {
            return true;
        }
        if ca > cb {
            return false;
        }
        i = i + 1;
    }
    proof {
        if i >= alen {
            assert(a@.skip(i as int).len() == 0);
        } else {
            assert(b@.skip(i as int).len() == 0);
        }
    }
    alen < blen
}

fn required_contains(required: &Vec<String>, name: &String) -> (r: bool)
    ensures
        r == req_contains(required@, name@),
{
    let mut i: usize = 0;
    while i < required.len()
        invariant
            i <= required@.len(),
            forall|k: int| 0 <= k < i ==> #[trigger] required@[k]@ != name@,
        decreases required@.len() - i,
    {
        if required[i].eq(name) {
            proof {
                assert(req_contains(required@, name@)) by {
                    assert(required@[i as int]@ == name@);
                }
            }
            return true;
        }
        i = i + 1;
    }
    false
}

/// Inserts an entry into a name-sorted field list, keeping it sorted.
fn insert_entry_sorted(out: &mut Vec<(String, IAST)>, name: String, node: IAST)
    ensures
        crate::types::entries_view(final(out)@) == insert_sorted(
            crate::types::entries_view(old(out)@),
            (name@, crate::types::iast_view(node)),
        ),
{
    let ghost oldv = old(out)@;
    let ghost ev = crate::types::entries_view(oldv);
    let ghost e = (name@, crate::types::iast_view(node));
    let mut j: usize = 0;
    while j < out.len() && !str_lex_lt(name.as_str(), out[j].0.as_str())
        invariant
            out@ == oldv,
            j <= oldv.len(),
            forall|k: int| 0 <= k < j ==> !lex_lt(name@, #[trigger] oldv[k].0@),
        decreases oldv.len() - j,
    {
        j = j + 1;
    }
    proof {
        lemma_entries_view_index(oldv);
    }
    let ghost jj = j as int;
    out.insert(j, (name, node));
    proof {
        lemma_insert_sorted_at(ev, e, jj);
        lemma_entries_view_index(out@);
        assert(out@ == oldv.insert(jj, (name, node)));
        assert forall|i: int| 0 <= i < out@.len() implies crate::types::entries_view(out@)[i]
            == (ev.subrange(0, jj) + seq![e] + ev.subrange(jj, ev.len() as int))[i] by {
            if i < jj {
                assert(oldv.insert(jj, (name, node))[i] == oldv[i]);
            } else if i == jj {
                assert(oldv.insert(jj, (name, node))[i] == (name, node));
            } else {
                assert(oldv.insert(jj, (name, node))[i] == oldv[i - 1]);
            }
        }
        assert(crate::types::entries_view(out@) =~= insert_sorted(ev, e));
    }
}

/// Normalizes every declared property and collects the fields sorted by
/// name, a field being optional exactly when it is not in `required`.
fn build_product(props: &Vec<(String, SchemaOrRef)>, required: &Vec<String>) -> (r: Vec<
    (String, IAST),
>)
    ensures
        crate::types::entries_view(r@) == product_entries(props@, required@),
    decreases *props, 0int,
{
    let mut out: Vec<(String, IAST)> = Vec::new();
    let mut i: usize = 0;
    proof {
        assert(props@.subrange(0, 0) =~= Seq::<(String, SchemaOrRef)>::empty());
    }
    while i < props.len()
        invariant
            i <= props@.len(),
            crate::types::entries_view(out@) == product_entries(
                props@.subrange(0, i as int),
                required@,
            ),
        decreases props@.len() - i,
    {
        let name = props[i].0.clone();
        let is_required = required_contains(required, &props[i].0);
        let node = normalize_schema_or_ref(&props[i].1, !is_required);
        insert_entry_sorted(&mut out, name, node);
        i = i + 1;
        proof {
            assert(props@.subrange(0, i as int).drop_last() =~= props@.subrange(0, i - 1));
            assert(props@.subrange(0, i as int).last() == props@[i - 1]);
        }
    }
    proof {
        assert(props@.subrange(0, props@.len() as int) =~= props@);
    }
    out
}

fn is_null_literal_exec(x: &SchemaOrRef) -> (r: bool)
    ensures
        r == is_null_literal_schema(*x),
{
    match x {
        SchemaOrRef::Object(b) => match &b.schema_type {
            Option::Some(SchemaTypeSet::Single(t)) => *t == SchemaType::Null,
            _ => false,
        },
        SchemaOrRef::Ref(_) => false,
    }
}

fn disc_lookup_exec(mapping: &Vec<(String, String)>, path: &String) -> (r: Option<String>)
    ensures
        opt_str_view(r) == disc_lookup(mapping@, path@),
{
    let mut i: usize = 0;
    proof {
        assert(mapping@.skip(0) =~= mapping@);
    }
    while i < mapping.len()
        invariant
            i <= mapping@.len(),
            disc_lookup(mapping@, path@) == disc_lookup(mapping@.skip(i as int), path@),
        decreases mapping@.len() - i,
    {
        proof {
            assert(mapping@.skip(i as int)[0] == mapping@[i as int]);
            assert(mapping@.skip(i as int).drop_first() =~= mapping@.skip(i as int + 1));
        }
        if mapping[i].1.eq(path) {
            proof {
                assert(disc_lookup(mapping@.skip(i as int), path@) == Option::Some(
                    mapping@[i as int].0@,
                ));
            }
            return Option::Some(mapping[i].0.clone());
        }
        i = i + 1;
    }
    proof {
        assert(mapping@.skip(mapping@.len() as int).len() == 0);
    }
    Option::None
}

fn variant_name_exec(mapping: &Vec<(String, String)>, member: &SchemaOrRef, i: usize) -> (r:
    String)
    ensures
        r@ == variant_name(mapping@, *member, i as int),
{
    match member {
        SchemaOrRef::Ref(p) => match disc_lookup_exec(mapping, p) {
            Option::Some(k) => k,
            Option::None => crate::names::usize_to_string(i),
        },
        SchemaOrRef::Object(_) => crate::names::usize_to_string(i),
    }
}

// ===========================================================================
// The normalizer
// ===========================================================================

/// Normalizes one schema position: a bare `$ref` becomes a `Reference`
/// node, an inline object goes through the resolution rules.
pub fn normalize_schema_or_ref(x: &SchemaOrRef, is_optional: bool) -> (r: IAST)
    ensures
        crate::types::iast_view(r) == normalize_sor_spec(*x, is_optional),
    decreases *x, 2int,
{
    match x {
        SchemaOrRef::Ref(p) => IAST::Reference(
            AnnotatedReference { path: p.clone(), optional: is_optional, nullable: false },
        ),
        SchemaOrRef::Object(b) => normalize(b, is_optional),
    }
}

/// Normalizes one inline schema object into an IR node, by the resolution
/// rules stated by [`normalize_spec`].  Never fails: unrecognized shapes
/// degrade to a `Never` node.
pub fn normalize(schema: &SchemaObject, is_optional: bool) -> (r: IAST)
    ensures
        crate::types::iast_view(r) == normalize_spec(*schema, is_optional),
    decreases *schema, 1int,
{
    let nullable = declares_null_exec(schema);
    if schema.is_binary_format {
        return IAST::Primitive(
            AnnotatedObj {
                nullable,
                optional: is_optional,
                is_deprecated: schema.deprecated,
                description: clone_opt_string(&schema.description),
                title: clone_opt_string(&schema.title),
                value: Primitive::Binary,
            },
        );
    }
    let has_enum = match &schema.const_value {
        Option::Some(_) => true,
        Option::None => schema.enum_values.len() > 0,
    };
    if has_enum {
        let mut vals: Vec<(String, bool)> = Vec::new();
        match &schema.const_value {
            Option::Some(l) => {
                vals.push((l.value.clone(), l.is_string));
            },
            Option::None => {
                let mut i: usize = 0;
                while i < schema.enum_values.len()
                    invariant
                        i <= schema.enum_values@.len(),
                        vals@.len() == i,
                        forall|k: int|
                            0 <= k < i ==> #[trigger] vals@[k] == (
                                schema.enum_values@[k].value,
                                schema.enum_values@[k].is_string,
                            ),
                    decreases schema.enum_values@.len() - i,
                {
                    vals.push((schema.enum_values[i].value.clone(), schema.enum_values[i].is_string));
                    i = i + 1;
                }
            },
        }
        if schema.extensible_enum {
            vals.push((String::from_str("unspecified"), false));
        }
        proof {
            assert(vals@.map_values(|e: (String, bool)| (e.0@, e.1)) =~= enum_entries(*schema));
        }
        return IAST::Primitive(
            AnnotatedObj {
                nullable,
                optional: is_optional,
                is_deprecated: schema.deprecated,
                description: clone_opt_string(&schema.description),
                title: clone_opt_string(&schema.title),
                value: Primitive::Enum(vals),
            },
        );
    }
    match &schema.schema_type {
        Option::Some(ts) => {
            let rep = representative_type_exec(ts);
            if rep == SchemaType::Object {
                let entries = build_product(&schema.properties, &schema.required);
                if schema.properties.len() == 0 {
                    let inner = IAST::Object(
                        AnnotatedObj {
                            nullable,
                            optional: false,
                            is_deprecated: schema.deprecated,
                            description: clone_opt_string(&schema.description),
                            title: clone_opt_string(&schema.title),
                            value: AlgType::Product(entries),
                        },
                    );
                    proof {
                        assert(crate::types::iast_view(inner) == IastV::Object(
                            meta_of(*schema, declares_null(*schema), false),
                            AlgV::Product(product_entries(schema.properties@, schema.required@)),
                        ));
                    }
                    IAST::Primitive(
                        AnnotatedObj {
                            nullable,
                            optional: is_optional,
                            is_deprecated: schema.deprecated,
                            description: clone_opt_string(&schema.description),
                            title: clone_opt_string(&schema.title),
                            value: Primitive::Mapping(Box::new(inner)),
                        },
                    )
                } else {
                    IAST::Object(
                        AnnotatedObj {
                            nullable,
                            optional: is_optional,
                            is_deprecated: schema.deprecated,
                            description: clone_opt_string(&schema.description),
                            title: clone_opt_string(&schema.title),
                            value: AlgType::Product(entries),
                        },
                    )
                }
            } else if rep == SchemaType::Array {
                let value = match &schema.items {
                    Option::Some(b) => Primitive::List(
                        Box::new(normalize_schema_or_ref(b, false)),
                    ),
                    Option::None => Primitive::Dynamic,
                };
                IAST::Primitive(
                    AnnotatedObj {
                        nullable,
                        optional: is_optional,
                        is_deprecated: schema.deprecated,
                        description: clone_opt_string(&schema.description),
                        title: clone_opt_string(&schema.title),
                        value,
                    },
                )
            } else {
                IAST::Primitive(
                    AnnotatedObj {
                        nullable,
                        optional: is_optional,
                        is_deprecated: schema.deprecated,
                        description: clone_opt_string(&schema.description),
                        title: clone_opt_string(&schema.title),
                        value: prim_of_type_exec(rep),
                    },
                )
            }
        },
        Option::None => {
            if schema.any_of.len() > 0 || schema.one_of.len() > 0 {
                let (entries, sum_null) = if schema.any_of.len() > 0 {
                    normalize_union_list(&schema.any_of, &schema.discriminator_mapping)
                } else {
                    normalize_union_list(&schema.one_of, &schema.discriminator_mapping)
                };
                IAST::Object(
                    AnnotatedObj {
                        nullable: sum_null,
                        optional: is_optional,
                        is_deprecated: schema.deprecated,
                        description: clone_opt_string(&schema.description),
                        title: clone_opt_string(&schema.title),
                        value: AlgType::Sum(entries),
                    },
                )
            } else if schema.properties.len() > 0 {
                let entries = build_product(&schema.properties, &schema.required);
                IAST::Object(
                    AnnotatedObj {
                        nullable,
                        optional: is_optional,
                        is_deprecated: schema.deprecated,
                        description: clone_opt_string(&schema.description),
                        title: clone_opt_string(&schema.title),
                        value: AlgType::Product(entries),
                    },
                )
            } else {
                normalize_allof_or_fallback(schema, is_optional)
            }
        },
    }
}

/// Normalizes the member list of a union schema (rule 4): every
/// non-null-literal member becomes a variant named by the discriminator
/// mapping or its position; reports whether any member is the literal null
/// type or itself normalizes nullable.
fn normalize_union_list(members: &Vec<SchemaOrRef>, mapping: &Vec<(String, String)>) -> (r: (
    Vec<(String, IAST)>,
    bool,
))
    ensures
        crate::types::entries_view(r.0@) == sum_entries(mapping@, members@, 0),
        r.1 == sum_nullable(members@),
    decreases *members, 0int,
{
    let ghost mseq = members@;
    let mut entries: Vec<(String, IAST)> = Vec::new();
    let mut nullable = false;
    let mut i: usize = 0;
    proof {
        assert(mseq.skip(0) =~= mseq);
        assert(crate::types::entries_view(entries@) + sum_entries(mapping@, mseq, 0) =~= sum_entries(
            mapping@,
            mseq,
            0,
        ));
    }
    while i < members.len()
        invariant
            i <= mseq.len(),
            members@ == mseq,
            sum_entries(mapping@, mseq, 0) == crate::types::entries_view(entries@) + sum_entries(
                mapping@,
                mseq.skip(i as int),
                i as int,
            ),
            sum_nullable(mseq) == (nullable || sum_nullable(mseq.skip(i as int))),
        decreases mseq.len() - i,
    {
        proof {
            assert(mseq.skip(i as int)[0] == mseq[i as int]);
            assert(mseq.skip(i as int).drop_first() =~= mseq.skip(i as int + 1));
        }
        let m = &members[i];
        if is_null_literal_exec(m) {
            nullable = true;
        } else {
            let node = normalize_schema_or_ref(m, false);
            if node.is_nullable() {
                nullable = true;
            }
            let name = variant_name_exec(mapping, m, i);
            let ghost before = entries@;
            entries.push((name, node));
            proof {
                assert(entries@.drop_last() =~= before);
                assert(entries@.last() == (name, node));
                assert(crate::types::entries_view(entries@) == crate::types::entries_view(
                    before,
                ).push((name@, crate::types::iast_view(node))));
                assert(crate::types::entries_view(before).push(
                    (name@, crate::types::iast_view(node)),
                ) + sum_entries(mapping@, mseq.skip(i as int + 1), i as int + 1)
                    =~= crate::types::entries_view(before) + sum_entries(
                    mapping@,
                    mseq.skip(i as int),
                    i as int,
                ));
            }
        }
        i = i + 1;
    }
    proof {
        assert(mseq.skip(mseq.len() as int).len() == 0);
        assert(crate::types::entries_view(entries@) + sum_entries(
            mapping@,
            mseq.skip(mseq.len() as int),
            mseq.len() as int,
        ) =~= crate::types::entries_view(entries@));
    }
    (entries, nullable)
}

/// Handles the all-of nullable-reference shortcut (rule 6) and the
/// unrecognized-shape fallback (rule 7).
fn normalize_allof_or_fallback(schema: &SchemaObject, is_optional: bool) -> (r: IAST)
    requires
        !schema.is_binary_format,
        !has_enum_shape(*schema),
        schema.schema_type is None,
        union_members(*schema).len() == 0,
        schema.properties@.len() == 0,
    ensures
        crate::types::iast_view(r) == normalize_spec(*schema, is_optional),
{
    let ghost aseq = schema.all_of@;
    let mut ref_count: usize = 0;
    let mut first_ref: Option<String> = Option::None;
    let mut i: usize = 0;
    proof {
        assert(aseq.skip(0) =~= aseq);
    }
    while i < schema.all_of.len()
        invariant
            i <= aseq.len(),
            schema.all_of@ == aseq,
            ref_count <= i,
            count_refs(aseq) == ref_count + count_refs(aseq.skip(i as int)),
            match first_ref {
                Option::Some(p) => ref_count > 0 && first_ref_path(aseq) == p@,
                Option::None => ref_count == 0 && first_ref_path(aseq) == first_ref_path(
                    aseq.skip(i as int),
                ),
            },
        decreases aseq.len() - i,
    {
        proof {
            assert(aseq.skip(i as int)[0] == aseq[i as int]);
            assert(aseq.skip(i as int).drop_first() =~= aseq.skip(i as int + 1));
        }
        match &schema.all_of[i] {
            SchemaOrRef::Ref(p) => {
                if ref_count == 0 {
                    first_ref = Option::Some(p.clone());
                }
                ref_count = ref_count + 1;
            },
            SchemaOrRef::Object(_) => {},
        }
        i = i + 1;
    }
    proof {
        assert(aseq.skip(aseq.len() as int).len() == 0);
    }
    if schema.all_of.len() == 2 && ref_count == 1 {
        let path = match first_ref {
            Option::Some(p) => p,
            Option::None => String::new(),
        };
        IAST::Reference(AnnotatedReference { path, optional: is_optional, nullable: true })
    } else {
        let description = match &schema.description {
            Option::Some(d) => Option::Some(d.clone()),
            Option::None => Option::Some(String::from_str("Couldn't parse Object")),
        };
        IAST::Primitive(
            AnnotatedObj {
                nullable: true,
                optional: is_optional,
                is_deprecated: schema.deprecated,
                description,
                title: clone_opt_string(&schema.title),
                value: Primitive::Never,
            },
        )
    }
}

} // verus!
