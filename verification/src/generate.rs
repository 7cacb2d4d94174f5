//! The code generator and its validation steps.
//!
//! Generation is a pure function from a schema to two text artifacts, a C
//! header and a C source file.  Before any text is produced the schema is
//! validated: duplicate subtype or field names are a `SchemaConflict`, and a
//! field whose type has no width is an `UnsupportedFieldType`.  Either
//! failure aborts the whole compilation with zero output artifacts.

use crate::schema::{
    field_resolves, fields_resolve, schema_resolves, spec_total_size, spec_width, vsr_subtype,
    vsr_type, Field, FieldType, FieldV, SchemaV, SubtypeV,
};
use vstd::prelude::*;
use vstd::string::StringExecFns;

verus! {

/// Why a compilation was refused.  Every variant names the part of the
/// schema to fix; no failure produces partial output.
#[derive(Debug, PartialEq, Eq)]
pub enum GenError {
    /// A field's declared type has no entry in the width table.
    UnsupportedFieldType { subtype: String, field: String },
    /// A subtype name repeats within the schema, or a field name repeats
    /// within its subtype.
    SchemaConflict { name: String },
}

/// The two generated text artifacts.
#[derive(Debug, PartialEq, Eq)]
pub struct GeneratedCode {
    pub header: String,
    pub source: String,
}

pub open spec fn field_names(fs: Seq<FieldV>) -> Seq<Seq<char>> {
    fs.map_values(|f: FieldV| f.name)
}

pub open spec fn subtype_names(ss: Seq<SubtypeV>) -> Seq<Seq<char>> {
    ss.map_values(|st: SubtypeV| st.name)
}

/// Whether the name at position `j` already occurred before it.
pub open spec fn dup_at(names: Seq<Seq<char>>, j: int) -> bool {
    exists|k: int| 0 <= k < j && #[trigger] names[k] == names[j]
}

/// The first name from position `j` on that repeats an earlier one.
pub open spec fn first_dup_from(names: Seq<Seq<char>>, j: int) -> Option<Seq<char>>
    decreases names.len() - j,
{
    if j < 0 || j >= names.len() {
        None
    } else if dup_at(names, j) {
        Some(names[j])
    } else {
        first_dup_from(names, j + 1)
    }
}

/// The first duplicated name in the schema, scanning subtypes in declared
/// order: at each subtype first its own name against the earlier subtype
/// names, then its field names among themselves.
pub open spec fn first_conflict_from(ss: Seq<SubtypeV>, i: int) -> Option<Seq<char>>
    decreases ss.len() - i,
{
    if i < 0 || i >= ss.len() {
        None
    } else if dup_at(subtype_names(ss), i) {
        Some(ss[i].name)
    } else {
        match first_dup_from(field_names(ss[i].fields), 0) {
            Some(n) => Some(n),
            None => first_conflict_from(ss, i + 1),
        }
    }
}

pub open spec fn first_conflict(s: SchemaV) -> Option<Seq<char>> {
    first_conflict_from(s.subtypes, 0)
}

/// The name of the first field from position `j` on whose type has no width.
pub open spec fn first_unresolved_in_fields_from(fs: Seq<FieldV>, j: int) -> Option<Seq<char>>
    decreases fs.len() - j,
{
    if j < 0 || j >= fs.len() {
        None
    } else if !field_resolves(fs[j]) {
        Some(fs[j].name)
    } else {
        first_unresolved_in_fields_from(fs, j + 1)
    }
}

/// The (subtype name, field name) of the first field, in declared order from
/// subtype `i` on, whose type has no width.
pub open spec fn first_unresolved_from(ss: Seq<SubtypeV>, i: int) -> Option<(Seq<char>, Seq<char>)>
    decreases ss.len() - i,
{
    if i < 0 || i >= ss.len() {
        None
    } else {
        match first_unresolved_in_fields_from(ss[i].fields, 0) {
            Some(f) => Some((ss[i].name, f)),
            None => first_unresolved_from(ss, i + 1),
        }
    }
}

pub open spec fn first_unresolved(s: SchemaV) -> Option<(Seq<char>, Seq<char>)> {
    first_unresolved_from(s.subtypes, 0)
}

proof fn lemma_fields_unresolved_none(fs: Seq<FieldV>, j: int)
    requires
        0 <= j <= fs.len(),
    ensures
        (first_unresolved_in_fields_from(fs, j) is None) <==> (forall|j2: int|
            j <= j2 < fs.len() ==> field_resolves(#[trigger] fs[j2])),
    decreases fs.len() - j,
{
    if j < fs.len() {
        lemma_fields_unresolved_none(fs, j + 1);
    }
}

proof fn lemma_unresolved_none(ss: Seq<SubtypeV>, i: int)
    requires
        0 <= i <= ss.len(),
    ensures
        (first_unresolved_from(ss, i) is None) <==> (forall|i2: int|
            i <= i2 < ss.len() ==> fields_resolve(#[trigger] ss[i2].fields)),
    decreases ss.len() - i,
{
    if i < ss.len() {
        lemma_fields_unresolved_none(ss[i].fields, 0);
        lemma_unresolved_none(ss, i + 1);
    }
}

/// Size computation and generation agree on failure: the size is unknown
/// exactly when there is an unresolved field for the generator to report.
pub proof fn lemma_size_none_iff_unresolved(s: SchemaV)
    ensures
        (spec_total_size(s) is None) <==> (first_unresolved(s) is Some),
{
    lemma_unresolved_none(s.subtypes, 0);
}

/// All or nothing: one field whose type has no width makes the whole
/// schema's size unknown — never a partial sum — and leaves the generator an
/// unresolved field to name when it aborts.
pub proof fn lemma_unresolved_all_or_nothing(s: SchemaV, i: int, j: int)
    requires
        0 <= i < s.subtypes.len(),
        0 <= j < s.subtypes[i].fields.len(),
        !field_resolves(s.subtypes[i].fields[j]),
    ensures
        spec_total_size(s) is None,
        first_unresolved(s) is Some,
{
    assert(!fields_resolve(s.subtypes[i].fields));
    assert(!schema_resolves(s));
    lemma_size_none_iff_unresolved(s);
}

/// Whether some field in `[k, j)` carries the same name as the field at `j`.
fn field_dup_before(fs: &Vec<Field>, j: usize, k: usize) -> (r: bool)
    requires
        k <= j < fs.len(),
    ensures
        ({
            let names = field_names(fs@.map_values(|f: Field| f@));
            r == exists|k2: int| k <= k2 < j && #[trigger] names[k2] == names[j as int]
        }),
    decreases j - k,
{
    let ghost names = field_names(fs@.map_values(|f: Field| f@));
    if k == j {
        false
    } else if fs[k].name.eq(&fs[j].name) {
        proof {
            assert(names[k as int] == fs@[k as int].name@);
            assert(names[j as int] == fs@[j as int].name@);
        }
        true
    } else {
        proof {
            assert(names[k as int] == fs@[k as int].name@);
            assert(names[j as int] == fs@[j as int].name@);
        }
        let r = field_dup_before(fs, j, k + 1);
        proof {
            if !r {
                assert forall|k2: int| k <= k2 < j implies !(#[trigger] names[k2] == names[j as int])
                    by {
                    if k2 != k {
                        assert(!(names[k2] == names[j as int]));
                    }
                }
            }
        }
        r
    }
}

/// The first field name from position `j` on that repeats an earlier field
/// name of the same subtype.
fn field_dup_from(fs: &Vec<Field>, j: usize) -> (r: Option<String>)
    requires
        j <= fs.len(),
    ensures
        ({
            let names = field_names(fs@.map_values(|f: Field| f@));
            match r {
                Some(n) => first_dup_from(names, j as int) == Some(n@),
                None => first_dup_from(names, j as int) is None,
            }
        }),
    decreases fs.len() - j,
{
    let ghost names = field_names(fs@.map_values(|f: Field| f@));
    if j == fs.len() {
        None
    } else if field_dup_before(fs, j, 0) {
        proof {
            assert(names[j as int] == fs@[j as int].name@);
        }
        Some(fs[j].name.clone())
    } else {
        field_dup_from(fs, j + 1)
    }
}

/// Whether some subtype in `[k, i)` carries the same name as the subtype at
/// `i`.
fn subtype_dup_before(subtypes: &Vec<vsr_subtype>, i: usize, k: usize) -> (r: bool)
    requires
        k <= i < subtypes.len(),
    ensures
        ({
            let names = subtype_names(subtypes@.map_values(|st: vsr_subtype| st@));
            r == exists|k2: int| k <= k2 < i && #[trigger] names[k2] == names[i as int]
        }),
    decreases i - k,
{
    let ghost names = subtype_names(subtypes@.map_values(|st: vsr_subtype| st@));
    if k == i {
        false
    } else if subtypes[k].name.eq(&subtypes[i].name) {
        proof {
            assert(names[k as int] == subtypes@[k as int].name@);
            assert(names[i as int] == subtypes@[i as int].name@);
        }
        true
    } else {
        proof {
            assert(names[k as int] == subtypes@[k as int].name@);
            assert(names[i as int] == subtypes@[i as int].name@);
        }
        let r = subtype_dup_before(subtypes, i, k + 1);
        proof {
            if !r {
                assert forall|k2: int| k <= k2 < i implies !(#[trigger] names[k2] == names[i as int])
                    by {
                    if k2 != k {
                        assert(!(names[k2] == names[i as int]));
                    }
                }
            }
        }
        r
    }
}

/// The first duplicated name from subtype `i` on, in the scan order of
/// `first_conflict_from`.
fn conflict_from(subtypes: &Vec<vsr_subtype>, i: usize) -> (r: Option<String>)
    requires
        i <= subtypes.len(),
    ensures
        ({
            let sv = subtypes@.map_values(|st: vsr_subtype| st@);
            match r {
                Some(n) => first_conflict_from(sv, i as int) == Some(n@),
                None => first_conflict_from(sv, i as int) is None,
            }
        }),
    decreases subtypes.len() - i,
{
    let ghost sv = subtypes@.map_values(|st: vsr_subtype| st@);
    if i == subtypes.len() {
        None
    } else {
        proof {
            assert(sv[i as int] == subtypes@[i as int]@);
        }
        if subtype_dup_before(subtypes, i, 0) {
            Some(subtypes[i].name.clone())
        } else {
            proof {
                assert(sv[i as int].fields == subtypes@[i as int].fields@.map_values(
                    |f: Field| f@,
                ));
            }
            match field_dup_from(&subtypes[i].fields, 0) {
                Some(n) => Some(n),
                None => conflict_from(subtypes, i + 1),
            }
        }
    }
}

/// The name of the first field from position `j` on whose type has no width.
fn unresolved_in_fields_from(fs: &Vec<Field>, j: usize) -> (r: Option<String>)
    requires
        j <= fs.len(),
    ensures
        ({
            let fv = fs@.map_values(|f: Field| f@);
            match r {
                Some(n) => first_unresolved_in_fields_from(fv, j as int) == Some(n@),
                None => first_unresolved_in_fields_from(fv, j as int) is None,
            }
        }),
    decreases fs.len() - j,
{
    let ghost fv = fs@.map_values(|f: Field| f@);
    if j == fs.len() {
        None
    } else {
        proof {
            assert(fv[j as int] == fs@[j as int]@);
        }
        match crate::schema::resolve_width(fs[j].ty) {
            None => Some(fs[j].name.clone()),
            Some(_) => unresolved_in_fields_from(fs, j + 1),
        }
    }
}

/// The (subtype name, field name) of the first field from subtype `i` on
/// whose type has no width.
fn unresolved_from(subtypes: &Vec<vsr_subtype>, i: usize) -> (r: Option<(String, String)>)
    requires
        i <= subtypes.len(),
    ensures
        ({
            let sv = subtypes@.map_values(|st: vsr_subtype| st@);
            match r {
                Some(p) => first_unresolved_from(sv, i as int) == Some((p.0@, p.1@)),
                None => first_unresolved_from(sv, i as int) is None,
            }
        }),
    decreases subtypes.len() - i,
{
    let ghost sv = subtypes@.map_values(|st: vsr_subtype| st@);
    if i == subtypes.len() {
        None
    } else {
        proof {
            assert(sv[i as int] == subtypes@[i as int]@);
            assert(sv[i as int].fields == subtypes@[i as int].fields@.map_values(|f: Field| f@));
        }
        match unresolved_in_fields_from(&subtypes[i].fields, 0) {
            Some(f) => Some((subtypes[i].name.clone(), f)),
            None => unresolved_from(subtypes, i + 1),
        }
    }
}

/// The decimal digit `d` as a character.
pub open spec fn digit_char(d: int) -> char {
    if d == 0 {
        '0'
    } else if d == 1 {
        '1'
    } else if d == 2 {
        '2'
    } else if d == 3 {
        '3'
    } else if d == 4 {
        '4'
    } else if d == 5 {
        '5'
    } else if d == 6 {
        '6'
    } else if d == 7 {
        '7'
    } else if d == 8 {
        '8'
    } else {
        '9'
    }
}

/// The decimal rendering of `n`, most significant digit first.
pub open spec fn dec_digits(n: int) -> Seq<char>
    decreases n,
{
    if n < 10 {
        seq![digit_char(n)]
    } else {
        dec_digits(n / 10) + seq![digit_char(n % 10)]
    }
}

/// The fixed-width C type that stands for a resolved type tag.
pub open spec fn spec_c_type(t: FieldType) -> Seq<char> {
    match t {
        FieldType::U8 => "uint8_t"@,
        FieldType::I8 => "int8_t"@,
        FieldType::U16 => "uint16_t"@,
        FieldType::I16 => "int16_t"@,
        FieldType::U32 => "uint32_t"@,
        FieldType::I32 => "int32_t"@,
        FieldType::U64 => "uint64_t"@,
        FieldType::I64 => "int64_t"@,
        FieldType::F32 => "float"@,
        FieldType::F64 => "double"@,
        FieldType::Boolean => Seq::<char>::empty(),
    }
}

/// The unit rendered after a description, empty when the unit is empty.
pub open spec fn spec_unit_note(unit: Seq<char>) -> Seq<char> {
    if unit.len() == 0 {
        Seq::<char>::empty()
    } else {
        " ("@ + unit + ")"@
    }
}

/// A field's unit and description as one C comment.
pub open spec fn spec_doc_comment(f: FieldV) -> Seq<char> {
    "/* "@ + f.description + spec_unit_note(f.unit) + " */"@
}

/// One struct member line of the generated header.
pub open spec fn spec_member_line(f: FieldV) -> Seq<char> {
    "    "@ + spec_c_type(f.ty) + " "@ + f.name + "; "@ + spec_doc_comment(f) + "\n"@
}

pub open spec fn spec_getter_name(st: Seq<char>, f: Seq<char>) -> Seq<char> {
    "vsr_get_"@ + st + "_"@ + f
}

pub open spec fn spec_setter_name(st: Seq<char>, f: Seq<char>) -> Seq<char> {
    "vsr_set_"@ + st + "_"@ + f
}

/// The one lock of a subtype; the name is a function of the subtype name
/// alone, so two subtypes can never share a lock and two fields of one
/// subtype can never get two.
pub open spec fn spec_lock_name(st: Seq<char>) -> Seq<char> {
    "vsr_"@ + st + "_lock"@
}

/// The one storage instance of a subtype.
pub open spec fn spec_storage_name(st: Seq<char>) -> Seq<char> {
    "vsr_"@ + st + "_storage"@
}

/// Two subtypes can never share a synchronization primitive: the lock name
/// is injective in the subtype name, so distinct subtypes always get
/// distinct locks in the generated source.
pub proof fn lemma_lock_names_distinct(a: Seq<char>, b: Seq<char>)
    requires
        a != b,
    ensures
        spec_lock_name(a) != spec_lock_name(b),
{
    reveal_strlit("vsr_");
    reveal_strlit("_lock");
    if a.len() == b.len() {
        assert(exists|i: int| 0 <= i < a.len() && a[i] != b[i]) by {
            if forall|i: int| 0 <= i < a.len() ==> a[i] == b[i] {
                assert(a =~= b);
            }
        }
        let i = choose|i: int| 0 <= i < a.len() && a[i] != b[i];
        assert(spec_lock_name(a)[4 + i] == a[i]);
        assert(spec_lock_name(b)[4 + i] == b[i]);
    } else {
        assert(spec_lock_name(a).len() == 9 + a.len());
        assert(spec_lock_name(b).len() == 9 + b.len());
    }
}

/// The accessor prototypes of one field, with its documentation comment.
pub open spec fn spec_proto_block(st: Seq<char>, f: FieldV) -> Seq<char> {
    spec_doc_comment(f) + "\n"@ + spec_c_type(f.ty) + " "@ + spec_getter_name(st, f.name)
        + "(void);\n"@ + "void "@ + spec_setter_name(st, f.name) + "("@ + spec_c_type(f.ty)
        + " value);\n"@
}

pub open spec fn spec_members_from(fs: Seq<FieldV>, j: int) -> Seq<char>
    decreases fs.len() - j,
{
    if j < 0 || j >= fs.len() {
        Seq::<char>::empty()
    } else {
        spec_member_line(fs[j]) + spec_members_from(fs, j + 1)
    }
}

pub open spec fn spec_protos_from(st: Seq<char>, fs: Seq<FieldV>, j: int) -> Seq<char>
    decreases fs.len() - j,
{
    if j < 0 || j >= fs.len() {
        Seq::<char>::empty()
    } else {
        spec_proto_block(st, fs[j]) + spec_protos_from(st, fs, j + 1)
    }
}

/// One subtype's part of the header: its struct and its accessor prototypes.
pub open spec fn spec_header_subtype(st: SubtypeV) -> Seq<char> {
    "typedef struct {\n"@ + spec_members_from(st.fields, 0) + "} vsr_"@ + st.name + "_t;\n\n"@
        + spec_protos_from(st.name, st.fields, 0) + "\n"@
}

pub open spec fn spec_header_subtypes_from(ss: Seq<SubtypeV>, i: int) -> Seq<char>
    decreases ss.len() - i,
{
    if i < 0 || i >= ss.len() {
        Seq::<char>::empty()
    } else {
        spec_header_subtype(ss[i]) + spec_header_subtypes_from(ss, i + 1)
    }
}

/// The whole generated header.
pub open spec fn spec_header(s: SchemaV) -> Seq<char> {
    "#ifndef VSR_GENERATED_H\n#define VSR_GENERATED_H\n\n#include <stdint.h>\n\n#define VSR_VERSION "@
        + dec_digits(s.version as int) + "\n\n"@ + spec_header_subtypes_from(s.subtypes, 0)
        + "#endif\n"@
}

/// One field's getter body: lock the owning subtype's lock, copy the field
/// out of the subtype's storage, unlock on the way out.
pub open spec fn spec_getter_def(st: Seq<char>, f: FieldV) -> Seq<char> {
    spec_c_type(f.ty) + " "@ + spec_getter_name(st, f.name) + "(void) {\n    pthread_mutex_lock(&"@
        + spec_lock_name(st) + ");\n    "@ + spec_c_type(f.ty) + " value = "@ + spec_storage_name(
        st,
    ) + "."@ + f.name + ";\n    pthread_mutex_unlock(&"@ + spec_lock_name(st)
        + ");\n    return value;\n}\n\n"@
}

/// One field's setter body: lock, copy the new value in, unlock.
pub open spec fn spec_setter_def(st: Seq<char>, f: FieldV) -> Seq<char> {
    "void "@ + spec_setter_name(st, f.name) + "("@ + spec_c_type(f.ty)
        + " value) {\n    pthread_mutex_lock(&"@ + spec_lock_name(st) + ");\n    "@
        + spec_storage_name(st) + "."@ + f.name + " = value;\n    pthread_mutex_unlock(&"@
        + spec_lock_name(st) + ");\n}\n\n"@
}

pub open spec fn spec_accessors_from(st: Seq<char>, fs: Seq<FieldV>, j: int) -> Seq<char>
    decreases fs.len() - j,
{
    if j < 0 || j >= fs.len() {
        Seq::<char>::empty()
    } else {
        spec_getter_def(st, fs[j]) + spec_setter_def(st, fs[j]) + spec_accessors_from(st, fs, j + 1)
    }
}

/// One subtype's part of the source: exactly one lock, exactly one storage
/// instance, and one accessor pair per field, all derived from the subtype's
/// own name.
pub open spec fn spec_source_subtype(st: SubtypeV) -> Seq<char> {
    "static pthread_mutex_t "@ + spec_lock_name(st.name) + " = PTHREAD_MUTEX_INITIALIZER;\n"@
        + "static vsr_"@ + st.name + "_t "@ + spec_storage_name(st.name) + ";\n\n"@
        + spec_accessors_from(st.name, st.fields, 0)
}

pub open spec fn spec_source_subtypes_from(ss: Seq<SubtypeV>, i: int) -> Seq<char>
    decreases ss.len() - i,
{
    if i < 0 || i >= ss.len() {
        Seq::<char>::empty()
    } else {
        spec_source_subtype(ss[i]) + spec_source_subtypes_from(ss, i + 1)
    }
}

/// The whole generated source file.
pub open spec fn spec_source(s: SchemaV) -> Seq<char> {
    "#include \"vsr_generated.h\"\n#include <pthread.h>\n\n"@ + spec_source_subtypes_from(
        s.subtypes,
        0,
    )
}

/// The decimal digit `d` as C source text.
fn digit_str(d: u32) -> (r: &'static str)
    requires
        d < 10,
    ensures
        r@ == seq![digit_char(d as int)],
{
    proof {
        reveal_strlit("0");
        reveal_strlit("1");
        reveal_strlit("2");
        reveal_strlit("3");
        reveal_strlit("4");
        reveal_strlit("5");
        reveal_strlit("6");
        reveal_strlit("7");
        reveal_strlit("8");
        reveal_strlit("9");
        assert("0"@ =~= seq!['0']);
        assert("1"@ =~= seq!['1']);
        assert("2"@ =~= seq!['2']);
        assert("3"@ =~= seq!['3']);
        assert("4"@ =~= seq!['4']);
        assert("5"@ =~= seq!['5']);
        assert("6"@ =~= seq!['6']);
        assert("7"@ =~= seq!['7']);
        assert("8"@ =~= seq!['8']);
        assert("9"@ =~= seq!['9']);
    }
    match d {
        0 => "0",
        1 => "1",
        2 => "2",
        3 => "3",
        4 => "4",
        5 => "5",
        6 => "6",
        7 => "7",
        8 => "8",
        _ => "9",
    }
}

/// Appends the decimal rendering of `n`.
fn push_decimal(out: &mut String, n: u32)
    ensures
        final(out)@ == old(out)@ + dec_digits(n as int),
    decreases n,
{
    if n < 10 {
        out.append(digit_str(n));
    } else {
        push_decimal(out, n / 10);
        out.append(digit_str(n % 10));
        proof {
            assert(out@ =~= old(out)@ + dec_digits(n as int));
        }
    }
}

/// Appends the C type of a resolved type tag.
fn push_c_type(out: &mut String, t: FieldType)
    requires
        spec_width(t) is Some,
    ensures
        final(out)@ == old(out)@ + spec_c_type(t),
{
    match t {
        FieldType::U8 => out.append("uint8_t"),
        FieldType::I8 => out.append("int8_t"),
        FieldType::U16 => out.append("uint16_t"),
        FieldType::I16 => out.append("int16_t"),
        FieldType::U32 => out.append("uint32_t"),
        FieldType::I32 => out.append("int32_t"),
        FieldType::U64 => out.append("uint64_t"),
        FieldType::I64 => out.append("int64_t"),
        FieldType::F32 => out.append("float"),
        FieldType::F64 => out.append("double"),
        FieldType::Boolean => {},
    }
}

fn push_doc_comment(out: &mut String, f: &Field)
    ensures
        final(out)@ == old(out)@ + spec_doc_comment(f@),
{
    out.append("/* ");
    out.append(f.description.as_str());
    if !f.unit.as_str().is_empty() {
        out.append(" (");
        out.append(f.unit.as_str());
        out.append(")");
    }
    out.append(" */");
    proof {
        assert(out@ =~= old(out)@ + spec_doc_comment(f@));
    }
}

fn push_member_line(out: &mut String, f: &Field)
    requires
        field_resolves(f@),
    ensures
        final(out)@ == old(out)@ + spec_member_line(f@),
{
    out.append("    ");
    push_c_type(out, f.ty);
    out.append(" ");
    out.append(f.name.as_str());
    out.append("; ");
    push_doc_comment(out, f);
    out.append("\n");
    proof {
        assert(out@ =~= old(out)@ + spec_member_line(f@));
    }
}

fn push_getter_name(out: &mut String, st: &String, f: &String)
    ensures
        final(out)@ == old(out)@ + spec_getter_name(st@, f@),
{
    out.append("vsr_get_");
    out.append(st.as_str());
    out.append("_");
    out.append(f.as_str());
    proof {
        assert(out@ =~= old(out)@ + spec_getter_name(st@, f@));
    }
}

fn push_setter_name(out: &mut String, st: &String, f: &String)
    ensures
        final(out)@ == old(out)@ + spec_setter_name(st@, f@),
{
    out.append("vsr_set_");
    out.append(st.as_str());
    out.append("_");
    out.append(f.as_str());
    proof {
        assert(out@ =~= old(out)@ + spec_setter_name(st@, f@));
    }
}

fn push_lock_name(out: &mut String, st: &String)
    ensures
        final(out)@ == old(out)@ + spec_lock_name(st@),
{
    out.append("vsr_");
    out.append(st.as_str());
    out.append("_lock");
    proof {
        assert(out@ =~= old(out)@ + spec_lock_name(st@));
    }
}

fn push_storage_name(out: &mut String, st: &String)
    ensures
        final(out)@ == old(out)@ + spec_storage_name(st@),
{
    out.append("vsr_");
    out.append(st.as_str());
    out.append("_storage");
    proof {
        assert(out@ =~= old(out)@ + spec_storage_name(st@));
    }
}

fn push_proto_block(out: &mut String, st: &String, f: &Field)
    requires
        field_resolves(f@),
    ensures
        final(out)@ == old(out)@ + spec_proto_block(st@, f@),
{
    push_doc_comment(out, f);
    out.append("\n");
    push_c_type(out, f.ty);
    out.append(" ");
    push_getter_name(out, st, &f.name);
    out.append("(void);\n");
    out.append("void ");
    push_setter_name(out, st, &f.name);
    out.append("(");
    push_c_type(out, f.ty);
    out.append(" value);\n");
    proof {
        assert(out@ =~= old(out)@ + spec_proto_block(st@, f@));
    }
}

fn push_members_from(out: &mut String, fs: &Vec<Field>, j: usize)
    requires
        j <= fs.len(),
        fields_resolve(fs@.map_values(|f: Field| f@)),
    ensures
        final(out)@ == old(out)@ + spec_members_from(fs@.map_values(|f: Field| f@), j as int),
    decreases fs.len() - j,
{
    let ghost fv = fs@.map_values(|f: Field| f@);
    if j < fs.len() {
        proof {
            assert(fv[j as int] == fs@[j as int]@);
        }
        push_member_line(out, &fs[j]);
        push_members_from(out, fs, j + 1);
        proof {
            assert(out@ =~= old(out)@ + spec_members_from(fv, j as int));
        }
    } else {
        proof {
            assert(out@ =~= old(out)@ + spec_members_from(fv, j as int));
        }
    }
}

fn push_protos_from(out: &mut String, st: &String, fs: &Vec<Field>, j: usize)
    requires
        j <= fs.len(),
        fields_resolve(fs@.map_values(|f: Field| f@)),
    ensures
        final(out)@ == old(out)@ + spec_protos_from(st@, fs@.map_values(|f: Field| f@), j as int),
    decreases fs.len() - j,
{
    let ghost fv = fs@.map_values(|f: Field| f@);
    if j < fs.len() {
        proof {
            assert(fv[j as int] == fs@[j as int]@);
        }
        push_proto_block(out, st, &fs[j]);
        push_protos_from(out, st, fs, j + 1);
        proof {
            assert(out@ =~= old(out)@ + spec_protos_from(st@, fv, j as int));
        }
    } else {
        proof {
            assert(out@ =~= old(out)@ + spec_protos_from(st@, fv, j as int));
        }
    }
}

fn push_header_subtype(out: &mut String, st: &vsr_subtype)
    requires
        fields_resolve(st@.fields),
    ensures
        final(out)@ == old(out)@ + spec_header_subtype(st@),
{
    out.append("typedef struct {\n");
    push_members_from(out, &st.fields, 0);
    out.append("} vsr_");
    out.append(st.name.as_str());
    out.append("_t;\n\n");
    push_protos_from(out, &st.name, &st.fields, 0);
    out.append("\n");
    proof {
        assert(out@ =~= old(out)@ + spec_header_subtype(st@));
    }
}

fn push_header_subtypes_from(out: &mut String, subtypes: &Vec<vsr_subtype>, i: usize)
    requires
        i <= subtypes.len(),
        forall|i2: int|
            0 <= i2 < subtypes@.len() ==> fields_resolve((#[trigger] subtypes@[i2])@.fields),
    ensures
        final(out)@ == old(out)@ + spec_header_subtypes_from(
            subtypes@.map_values(|st: vsr_subtype| st@),
            i as int,
        ),
    decreases subtypes.len() - i,
{
    let ghost sv = subtypes@.map_values(|st: vsr_subtype| st@);
    if i < subtypes.len() {
        proof {
            assert(sv[i as int] == subtypes@[i as int]@);
        }
        push_header_subtype(out, &subtypes[i]);
        push_header_subtypes_from(out, subtypes, i + 1);
        proof {
            assert(out@ =~= old(out)@ + spec_header_subtypes_from(sv, i as int));
        }
    } else {
        proof {
            assert(out@ =~= old(out)@ + spec_header_subtypes_from(sv, i as int));
        }
    }
}

#[verifier::rlimit(30)]
fn push_getter_def(out: &mut String, st: &String, f: &Field)
    requires
        field_resolves(f@),
    ensures
        final(out)@ == old(out)@ + spec_getter_def(st@, f@),
{
    push_c_type(out, f.ty);
    out.append(" ");
    push_getter_name(out, st, &f.name);
    out.append("(void) {\n    pthread_mutex_lock(&");
    push_lock_name(out, st);
    out.append(");\n    ");
    push_c_type(out, f.ty);
    out.append(" value = ");
    push_storage_name(out, st);
    out.append(".");
    out.append(f.name.as_str());
    out.append(";\n    pthread_mutex_unlock(&");
    push_lock_name(out, st);
    out.append(");\n    return value;\n}\n\n");
    proof {
        assert(out@ =~= old(out)@ + spec_getter_def(st@, f@));
    }
}

#[verifier::rlimit(30)]
fn push_setter_def(out: &mut String, st: &String, f: &Field)
    requires
        field_resolves(f@),
    ensures
        final(out)@ == old(out)@ + spec_setter_def(st@, f@),
{
    out.append("void ");
    push_setter_name(out, st, &f.name);
    out.append("(");
    push_c_type(out, f.ty);
    out.append(" value) {\n    pthread_mutex_lock(&");
    push_lock_name(out, st);
    out.append(");\n    ");
    push_storage_name(out, st);
    out.append(".");
    out.append(f.name.as_str());
    out.append(" = value;\n    pthread_mutex_unlock(&");
    push_lock_name(out, st);
    out.append(");\n}\n\n");
    proof {
        assert(out@ =~= old(out)@ + spec_setter_def(st@, f@));
    }
}

fn push_accessors_from(out: &mut String, st: &String, fs: &Vec<Field>, j: usize)
    requires
        j <= fs.len(),
        fields_resolve(fs@.map_values(|f: Field| f@)),
    ensures
        final(out)@ == old(out)@ + spec_accessors_from(
            st@,
            fs@.map_values(|f: Field| f@),
            j as int,
        ),
    decreases fs.len() - j,
{
    let ghost fv = fs@.map_values(|f: Field| f@);
    if j < fs.len() {
        proof {
            assert(fv[j as int] == fs@[j as int]@);
        }
        push_getter_def(out, st, &fs[j]);
        push_setter_def(out, st, &fs[j]);
        push_accessors_from(out, st, fs, j + 1);
        proof {
            assert(out@ =~= old(out)@ + spec_accessors_from(st@, fv, j as int));
        }
    } else {
        proof {
            assert(out@ =~= old(out)@ + spec_accessors_from(st@, fv, j as int));
        }
    }
}

fn push_source_subtype(out: &mut String, st: &vsr_subtype)
    requires
        fields_resolve(st@.fields),
    ensures
        final(out)@ == old(out)@ + spec_source_subtype(st@),
{
    out.append("static pthread_mutex_t ");
    push_lock_name(out, &st.name);
    out.append(" = PTHREAD_MUTEX_INITIALIZER;\n");
    out.append("static vsr_");
    out.append(st.name.as_str());
    out.append("_t ");
    push_storage_name(out, &st.name);
    out.append(";\n\n");
    push_accessors_from(out, &st.name, &st.fields, 0);
    proof {
        assert(out@ =~= old(out)@ + spec_source_subtype(st@));
    }
}

fn push_source_subtypes_from(out: &mut String, subtypes: &Vec<vsr_subtype>, i: usize)
    requires
        i <= subtypes.len(),
        forall|i2: int|
            0 <= i2 < subtypes@.len() ==> fields_resolve((#[trigger] subtypes@[i2])@.fields),
    ensures
        final(out)@ == old(out)@ + spec_source_subtypes_from(
            subtypes@.map_values(|st: vsr_subtype| st@),
            i as int,
        ),
    decreases subtypes.len() - i,
{
    let ghost sv = subtypes@.map_values(|st: vsr_subtype| st@);
    if i < subtypes.len() {
        proof {
            assert(sv[i as int] == subtypes@[i as int]@);
        }
        push_source_subtype(out, &subtypes[i]);
        push_source_subtypes_from(out, subtypes, i + 1);
        proof {
            assert(out@ =~= old(out)@ + spec_source_subtypes_from(sv, i as int));
        }
    } else {
        proof {
            assert(out@ =~= old(out)@ + spec_source_subtypes_from(sv, i as int));
        }
    }
}

fn build_header(s: &vsr_type) -> (r: String)
    requires
        schema_resolves(s@),
    ensures
        r@ == spec_header(s@),
{
    let mut out = String::new();
    out.append(
        "#ifndef VSR_GENERATED_H\n#define VSR_GENERATED_H\n\n#include <stdint.h>\n\n#define VSR_VERSION ",
    );
    push_decimal(&mut out, s.version);
    out.append("\n\n");
    proof {
        assert forall|i2: int| 0 <= i2 < s.subtypes@.len() implies fields_resolve(
            (#[trigger] s.subtypes@[i2])@.fields,
        ) by {
            assert(s@.subtypes[i2] == s.subtypes@[i2]@);
            assert(fields_resolve(s@.subtypes[i2].fields));
        }
    }
    push_header_subtypes_from(&mut out, &s.subtypes, 0);
    out.append("#endif\n");
    proof {
        assert(out@ =~= spec_header(s@));
    }
    out
}

fn build_source(s: &vsr_type) -> (r: String)
    requires
        schema_resolves(s@),
    ensures
        r@ == spec_source(s@),
{
    let mut out = String::new();
    out.append("#include \"vsr_generated.h\"\n#include <pthread.h>\n\n");
    proof {
        assert forall|i2: int| 0 <= i2 < s.subtypes@.len() implies fields_resolve(
            (#[trigger] s.subtypes@[i2])@.fields,
        ) by {
            assert(s@.subtypes[i2] == s.subtypes@[i2]@);
            assert(fields_resolve(s@.subtypes[i2].fields));
        }
    }
    push_source_subtypes_from(&mut out, &s.subtypes, 0);
    proof {
        assert(out@ =~= spec_source(s@));
    }
    out
}

impl vsr_type {
    /// The first duplicated name in the schema, if any: a subtype name that
    /// repeats an earlier subtype name, or a field name that repeats an
    /// earlier field name of the same subtype.
    pub fn find_conflict(&self) -> (r: Option<String>)
        ensures
            match r {
                Some(n) => first_conflict(self@) == Some(n@),
                None => first_conflict(self@) is None,
            },
    {
        conflict_from(&self.subtypes, 0)
    }

    /// The code generator: a pure function from the schema to the header and
    /// source text.  The schema is validated first — duplicate names, then
    /// width resolution — and any failure aborts the whole compilation with
    /// no partial artifact.  The output is a function of the schema model
    /// alone, so an unchanged schema always reproduces byte-identical text.
    pub fn generate(&self) -> (r: Result<GeneratedCode, GenError>)
        ensures
            r is Ok <==> (first_conflict(self@) is None && schema_resolves(self@)),
            match r {
                Ok(out) => out.header@ == spec_header(self@) && out.source@ == spec_source(self@),
                Err(e) => match e {
                    GenError::SchemaConflict { name } => first_conflict(self@) == Some(name@),
                    GenError::UnsupportedFieldType { subtype, field } => first_conflict(self@)
                        is None && first_unresolved(self@) == Some((subtype@, field@)),
                },
            },
    {
        proof {
            assert(self@.subtypes == self.subtypes@.map_values(|st: vsr_subtype| st@));
        }
        match self.find_conflict() {
            Some(name) => {
                return Err(GenError::SchemaConflict { name });
            },
            None => {},
        }
        match unresolved_from(&self.subtypes, 0) {
            Some(p) => {
                proof {
                    lemma_unresolved_none(self@.subtypes, 0);
                }
                return Err(GenError::UnsupportedFieldType { subtype: p.0, field: p.1 });
            },
            None => {},
        }
        proof {
            lemma_unresolved_none(self@.subtypes, 0);
            assert(schema_resolves(self@));
        }
        let header = build_header(self);
        let source = build_source(self);
        Ok(GeneratedCode { header, source })
    }
}

} // verus!
