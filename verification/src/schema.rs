//! The schema model and the size calculator.
//!
//! A schema is a version stamp plus an ordered list of subtypes, each an
//! ordered list of typed fields.  The width resolver maps a field's type tag
//! to its storage width in bytes; a type with no width (here: `Boolean`) is
//! unsupported, and a single unsupported field makes the whole schema's size
//! unknown.  The computed size is a raw sum of declared widths and does not
//! model target struct padding; it is advisory only.

use vstd::prelude::*;

verus! {

/// Type tag of a telemetry field.  The width table below is the sole source
/// of "is this type supported": `Boolean` is deliberately absent from it, so
/// a boolean field makes a schema uncompilable.
#[derive(Clone, Copy, Debug, PartialEq, Eq, Structural)]
pub enum FieldType {
    U8,
    I8,
    U16,
    I16,
    U32,
    I32,
    U64,
    I64,
    F32,
    F64,
    Boolean,
}

/// One named, typed telemetry value with a physical unit (may be empty) and a
/// human-readable description.
pub struct Field {
    pub name: String,
    pub ty: FieldType,
    pub unit: String,
    pub description: String,
}

/// A named group of fields.  In generated code every field of one subtype
/// shares exactly one lock, so the subtype is the unit of locking granularity.
#[allow(non_camel_case_types)]
pub struct vsr_subtype {
    pub name: String,
    pub fields: Vec<Field>,
}

/// The whole schema: an opaque version stamp and the ordered subtypes.
#[allow(non_camel_case_types)]
pub struct vsr_type {
    pub version: u32,
    pub subtypes: Vec<vsr_subtype>,
}

/// Mathematical model of a `Field`.
pub struct FieldV {
    pub name: Seq<char>,
    pub ty: FieldType,
    pub unit: Seq<char>,
    pub description: Seq<char>,
}

/// Mathematical model of a `vsr_subtype`.
pub struct SubtypeV {
    pub name: Seq<char>,
    pub fields: Seq<FieldV>,
}

/// Mathematical model of a `vsr_type`.
pub struct SchemaV {
    pub version: u32,
    pub subtypes: Seq<SubtypeV>,
}

impl View for Field {
    type V = FieldV;

    open spec fn view(&self) -> FieldV {
        FieldV { name: self.name@, ty: self.ty, unit: self.unit@, description: self.description@ }
    }
}

impl View for vsr_subtype {
    type V = SubtypeV;

    open spec fn view(&self) -> SubtypeV {
        SubtypeV { name: self.name@, fields: self.fields@.map_values(|f: Field| f@) }
    }
}

impl View for vsr_type {
    type V = SchemaV;

    open spec fn view(&self) -> SchemaV {
        SchemaV {
            version: self.version,
            subtypes: self.subtypes@.map_values(|st: vsr_subtype| st@),
        }
    }
}

/// The width table: bytes of storage for each supported type tag, `None` for
/// an unsupported one.
pub open spec fn spec_width(t: FieldType) -> Option<usize> {
    match t {
        FieldType::U8 => Some(1usize),
        FieldType::I8 => Some(1usize),
        FieldType::U16 => Some(2usize),
        FieldType::I16 => Some(2usize),
        FieldType::U32 => Some(4usize),
        FieldType::I32 => Some(4usize),
        FieldType::U64 => Some(8usize),
        FieldType::I64 => Some(8usize),
        FieldType::F32 => Some(4usize),
        FieldType::F64 => Some(8usize),
        FieldType::Boolean => None,
    }
}

/// Width of a resolved type, and 0 for an unresolved one (only meaningful
/// where resolution has been established).
pub open spec fn width_val(t: FieldType) -> int {
    match spec_width(t) {
        Some(w) => w as int,
        None => 0,
    }
}

pub open spec fn field_resolves(f: FieldV) -> bool {
    spec_width(f.ty) is Some
}

pub open spec fn fields_resolve(fs: Seq<FieldV>) -> bool {
    forall|j: int| 0 <= j < fs.len() ==> field_resolves(#[trigger] fs[j])
}

pub open spec fn schema_resolves(s: SchemaV) -> bool {
    forall|i: int| 0 <= i < s.subtypes.len() ==> fields_resolve(#[trigger] s.subtypes[i].fields)
}

/// Sum of the widths of the fields from index `j` on.
pub open spec fn fields_width_sum_from(fs: Seq<FieldV>, j: int) -> int
    decreases fs.len() - j,
{
    if j < 0 || j >= fs.len() {
        0
    } else {
        width_val(fs[j].ty) + fields_width_sum_from(fs, j + 1)
    }
}

pub open spec fn fields_width_sum(fs: Seq<FieldV>) -> int {
    fields_width_sum_from(fs, 0)
}

/// Sum of the widths of every field of every subtype from index `i` on.
pub open spec fn subtypes_width_sum_from(ss: Seq<SubtypeV>, i: int) -> int
    decreases ss.len() - i,
{
    if i < 0 || i >= ss.len() {
        0
    } else {
        fields_width_sum(ss[i].fields) + subtypes_width_sum_from(ss, i + 1)
    }
}

pub open spec fn subtypes_width_sum(ss: Seq<SubtypeV>) -> int {
    subtypes_width_sum_from(ss, 0)
}

/// The schema's total byte footprint: the sum of every field's resolved
/// width, or unknown as soon as any field's type does not resolve.
pub open spec fn spec_total_size(s: SchemaV) -> Option<int> {
    if schema_resolves(s) {
        Some(subtypes_width_sum(s.subtypes))
    } else {
        None
    }
}

proof fn lemma_fields_width_sum_from_nonneg(fs: Seq<FieldV>, j: int)
    ensures
        fields_width_sum_from(fs, j) >= 0,
    decreases fs.len() - j,
{
    if 0 <= j < fs.len() {
        lemma_fields_width_sum_from_nonneg(fs, j + 1);
    }
}

proof fn lemma_subtypes_width_sum_from_nonneg(ss: Seq<SubtypeV>, i: int)
    ensures
        subtypes_width_sum_from(ss, i) >= 0,
    decreases ss.len() - i,
{
    if 0 <= i < ss.len() {
        lemma_fields_width_sum_from_nonneg(ss[i].fields, 0);
        lemma_subtypes_width_sum_from_nonneg(ss, i + 1);
    }
}

/// The executable width resolver.
pub fn resolve_width(t: FieldType) -> (r: Option<usize>)
    ensures
        r == spec_width(t),
{
    match t {
        FieldType::U8 => Some(1),
        FieldType::I8 => Some(1),
        FieldType::U16 => Some(2),
        FieldType::I16 => Some(2),
        FieldType::U32 => Some(4),
        FieldType::I32 => Some(4),
        FieldType::U64 => Some(8),
        FieldType::I64 => Some(8),
        FieldType::F32 => Some(4),
        FieldType::F64 => Some(8),
        FieldType::Boolean => None,
    }
}

/// Width sum of the fields of `fs` from index `j` on, or `None` as soon as
/// one of them does not resolve.
fn fields_size_from(fs: &Vec<Field>, j: usize) -> (r: Option<usize>)
    requires
        j <= fs.len(),
        fields_width_sum_from(fs@.map_values(|f: Field| f@), j as int) <= usize::MAX,
    ensures
        ({
            let fv = fs@.map_values(|f: Field| f@);
            match r {
                Some(n) => (forall|j2: int| j <= j2 < fv.len() ==> field_resolves(#[trigger] fv[j2]))
                    && n == fields_width_sum_from(fv, j as int),
                None => !(forall|j2: int|
                    j <= j2 < fv.len() ==> field_resolves(#[trigger] fv[j2])),
            }
        }),
    decreases fs.len() - j,
{
    let ghost fv = fs@.map_values(|f: Field| f@);
    if j == fs.len() {
        Some(0)
    } else {
        proof {
            assert(fv[j as int] == fs@[j as int]@);
        }
        match resolve_width(fs[j].ty) {
            None => None,
            Some(w) => match fields_size_from(fs, j + 1) {
                None => None,
                Some(rest) => {
                    proof {
                        lemma_fields_width_sum_from_nonneg(fv, j + 1);
                    }
                    Some(w + rest)
                },
            },
        }
    }
}

/// Width sum of every field of every subtype from index `i` on, or `None` as
/// soon as one field does not resolve.
fn subtypes_size_from(subtypes: &Vec<vsr_subtype>, i: usize) -> (r: Option<usize>)
    requires
        i <= subtypes.len(),
        subtypes_width_sum_from(subtypes@.map_values(|st: vsr_subtype| st@), i as int)
            <= usize::MAX,
    ensures
        ({
            let sv = subtypes@.map_values(|st: vsr_subtype| st@);
            match r {
                Some(n) => (forall|i2: int|
                    i <= i2 < sv.len() ==> fields_resolve(#[trigger] sv[i2].fields)) && n
                    == subtypes_width_sum_from(sv, i as int),
                None => !(forall|i2: int|
                    i <= i2 < sv.len() ==> fields_resolve(#[trigger] sv[i2].fields)),
            }
        }),
    decreases subtypes.len() - i,
{
    let ghost sv = subtypes@.map_values(|st: vsr_subtype| st@);
    if i == subtypes.len() {
        Some(0)
    } else {
        proof {
            assert(sv[i as int] == subtypes@[i as int]@);
            lemma_fields_width_sum_from_nonneg(sv[i as int].fields, 0);
            lemma_subtypes_width_sum_from_nonneg(sv, i + 1);
        }
        match fields_size_from(&subtypes[i].fields, 0) {
            None => None,
            Some(group) => match subtypes_size_from(subtypes, i + 1) {
                None => None,
                Some(rest) => Some(group + rest),
            },
        }
    }
}

impl vsr_type {
    /// Total byte footprint of the schema: the exact sum of every field's
    /// resolved width, in declared order, or `None` as soon as any single
    /// field's type has no width.  A raw sum of declared widths; target
    /// struct padding is not modelled.
    pub fn get_size(&self) -> (r: Option<usize>)
        requires
            subtypes_width_sum(self@.subtypes) <= usize::MAX,
        ensures
            match r {
                Some(n) => spec_total_size(self@) == Some(n as int),
                None => spec_total_size(self@) is None,
            },
    {
        subtypes_size_from(&self.subtypes, 0)
    }
}

/// Whether two schemas agree in shape: same number of subtypes, same number
/// of fields in each, and the same type tag at every position.  Names, units
/// and descriptions are free to differ.
pub open spec fn same_layout(a: SchemaV, b: SchemaV) -> bool {
    &&& a.subtypes.len() == b.subtypes.len()
    &&& forall|i: int|
        0 <= i < a.subtypes.len() ==> (#[trigger] a.subtypes[i]).fields.len()
            == b.subtypes[i].fields.len()
    &&& forall|i: int, j: int|
        0 <= i < a.subtypes.len() && 0 <= j < a.subtypes[i].fields.len() ==> (
        #[trigger] a.subtypes[i].fields[j]).ty == b.subtypes[i].fields[j].ty
}

proof fn lemma_fields_width_sum_same(fa: Seq<FieldV>, fb: Seq<FieldV>, j: int)
    requires
        fa.len() == fb.len(),
        forall|j2: int| 0 <= j2 < fa.len() ==> (#[trigger] fa[j2]).ty == fb[j2].ty,
    ensures
        fields_width_sum_from(fa, j) == fields_width_sum_from(fb, j),
    decreases fa.len() - j,
{
    if 0 <= j < fa.len() {
        lemma_fields_width_sum_same(fa, fb, j + 1);
    }
}

proof fn lemma_subtypes_width_sum_same(sa: Seq<SubtypeV>, sb: Seq<SubtypeV>, i: int)
    requires
        sa.len() == sb.len(),
        forall|i2: int|
            0 <= i2 < sa.len() ==> (#[trigger] sa[i2]).fields.len() == sb[i2].fields.len(),
        forall|i2: int, j: int|
            0 <= i2 < sa.len() && 0 <= j < sa[i2].fields.len() ==> (
            #[trigger] sa[i2].fields[j]).ty == sb[i2].fields[j].ty,
    ensures
        subtypes_width_sum_from(sa, i) == subtypes_width_sum_from(sb, i),
    decreases sa.len() - i,
{
    if 0 <= i < sa.len() {
        assert forall|j2: int| 0 <= j2 < sa[i].fields.len() implies (#[trigger] sa[i].fields[j2]).ty
            == sb[i].fields[j2].ty by {
            assert(sa[i].fields[j2] == sa[i].fields[j2]);
        }
        lemma_fields_width_sum_same(sa[i].fields, sb[i].fields, 0);
        lemma_subtypes_width_sum_same(sa, sb, i + 1);
    }
}

/// The total size depends on the layout alone: two schemas with the same
/// subtype and field counts and the same type tag at every position have the
/// same total size, whatever their names, units and descriptions say.
pub proof fn lemma_size_ignores_text(a: SchemaV, b: SchemaV)
    requires
        same_layout(a, b),
    ensures
        spec_total_size(a) == spec_total_size(b),
{
    assert forall|i: int| 0 <= i < a.subtypes.len() implies (fields_resolve(
        #[trigger] a.subtypes[i].fields,
    ) <==> fields_resolve(b.subtypes[i].fields)) by {
        let fa = a.subtypes[i].fields;
        let fb = b.subtypes[i].fields;
        assert forall|j: int| 0 <= j < fa.len() implies (field_resolves(#[trigger] fa[j])
            <==> field_resolves(fb[j])) by {
            assert(a.subtypes[i].fields[j].ty == b.subtypes[i].fields[j].ty);
        }
        if fields_resolve(fa) {
            assert forall|j: int| 0 <= j < fb.len() implies field_resolves(#[trigger] fb[j]) by {
                assert(field_resolves(fa[j]));
            }
        }
        if fields_resolve(fb) {
            assert forall|j: int| 0 <= j < fa.len() implies field_resolves(#[trigger] fa[j]) by {
                assert(field_resolves(fb[j]));
            }
        }
    }
    if schema_resolves(a) {
        assert forall|i: int| 0 <= i < b.subtypes.len() implies fields_resolve(
            #[trigger] b.subtypes[i].fields,
        ) by {
            assert(fields_resolve(a.subtypes[i].fields));
        }
    }
    if schema_resolves(b) {
        assert forall|i: int| 0 <= i < a.subtypes.len() implies fields_resolve(
            #[trigger] a.subtypes[i].fields,
        ) by {
            assert(fields_resolve(b.subtypes[i].fields));
        }
    }
    lemma_subtypes_width_sum_same(a.subtypes, b.subtypes, 0);
}

} // verus!
