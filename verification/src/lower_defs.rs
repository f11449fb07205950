//! Lowering of struct and enum declarations to definitions.
use vstd::prelude::*;
use crate::capabilities::{contains_string, type_error};
use crate::const_eval::consts_safe;
use crate::derivation::{Derivation, Outcome, Step, deriv_at, enums_at, fields_at, seq_outcome, structs_at, ty_at, tys_at, variants_at};
use crate::diagnostics::Diagnostic;
use crate::lower_expr::{enums_named_ok, quoted_message, type_error_at};
use crate::lower_types::{TypeNames, listed, lower_type, lower_types, type_rel, types_rel};
use crate::model::{EnumDef, EnumVariantDef, StructDef, StructField, Type};
use crate::render::{concat, debug_quoted, quote};
use crate::syntax::{ConstDecl, EnumDecl, StructDecl};

verus! {

/// The first struct from position `i` on whose name an enum or an earlier struct took.
pub open spec fn struct_decl_clash(structs: Vec<StructDecl>, enum_names: Seq<String>, i: int) -> Option<(Seq<char>, usize, usize)>
    decreases structs.len() - i,
{
    if i < 0 || i >= structs.len() {
        None
    } else if listed(enum_names, structs[i].name@) {
        Some(("duplicate type name "@ + debug_quoted(structs[i].name@), structs[i].line, structs[i].column))
    } else if exists|j: int| 0 <= j < i && #[trigger] structs[j].name@ == structs[i].name@ {
        Some(("duplicate struct "@ + debug_quoted(structs[i].name@), structs[i].line, structs[i].column))
    } else {
        struct_decl_clash(structs, enum_names, i + 1)
    }
}

/// `r` lowers the fields of struct `sd` from position `j` on, refusing a repeated field
/// name; each field type is lowered at the field.
pub open spec fn fields_rel(sd: StructDecl, j: int, names: TypeNames, consts: Seq<ConstDecl>, r: Result<Seq<StructField>, Diagnostic>, t: Derivation) -> bool
    decreases sd.fields.len() - j,
{
    if j < 0 || j >= sd.fields.len() {
        r == Ok::<Seq<StructField>, Diagnostic>(Seq::empty())
    } else {
        let f = sd.fields[j];
        if exists|k: int| 0 <= k < j && #[trigger] sd.fields[k].name@ == f.name@ {
            r is Err && type_error(r->Err_0, "duplicate field "@ + debug_quoted(f.name@) + " in struct "@ + debug_quoted(sd.name@), f.line, f.column)
        } else {
            &&& type_rel(f.ty, names, consts, f.line, f.column, ty_at(t, 0), deriv_at(t, 0))
            &&& match ty_at(t, 0) {
                Err(d) => r == Err::<Seq<StructField>, Diagnostic>(d),
                Ok(ty) => fields_rel(sd, j + 1, names, consts, fields_at(t, 1), deriv_at(t, 1)) && match fields_at(t, 1) {
                    Err(d) => r == Err::<Seq<StructField>, Diagnostic>(d),
                    Ok(rest) => r == Ok::<Seq<StructField>, Diagnostic>(seq![StructField { name: f.name, ty }] + rest),
                },
            }
        }
    }
}

/// `r` lowers the structs from position `i` on to definitions, in order.
pub open spec fn struct_defs_rel(structs: Vec<StructDecl>, i: int, names: TypeNames, consts: Seq<ConstDecl>, r: Result<Seq<StructDef>, Diagnostic>, t: Derivation) -> bool
    decreases structs.len() - i,
{
    if i < 0 || i >= structs.len() {
        r == Ok::<Seq<StructDef>, Diagnostic>(Seq::empty())
    } else {
        &&& fields_rel(structs[i], 0, names, consts, fields_at(t, 0), deriv_at(t, 0))
        &&& match fields_at(t, 0) {
            Err(d) => r == Err::<Seq<StructDef>, Diagnostic>(d),
            Ok(fields) => struct_defs_rel(structs, i + 1, names, consts, structs_at(t, 1), deriv_at(t, 1)) && match structs_at(t, 1) {
                Err(d) => r == Err::<Seq<StructDef>, Diagnostic>(d),
                Ok(rest) => {
                    &&& r is Ok
                    &&& r->Ok_0.len() == rest.len() + 1
                    &&& r->Ok_0[0].name == structs[i].name && r->Ok_0[0].fields@ == fields
                    &&& r->Ok_0.drop_first() == rest
                },
            },
        }
    }
}

/// `r` is the lowering of the struct declarations: a name clash first, then each
/// struct's fields in order.
pub open spec fn structs_rel(structs: Vec<StructDecl>, names: TypeNames, consts: Seq<ConstDecl>, r: Result<Seq<StructDef>, Diagnostic>, t: Derivation) -> bool {
    match struct_decl_clash(structs, names.enums@, 0) {
        Some((message, line, column)) => r is Err && type_error(r->Err_0, message, line, column),
        None => struct_defs_rel(structs, 0, names, consts, r, t),
    }
}

/// The first payload name, if any, that repeats an earlier one.
pub open spec fn repeated_payload(names: Seq<String>, j: int) -> Option<Seq<char>>
    decreases names.len() - j,
{
    if j < 0 || j >= names.len() {
        None
    } else if exists|k: int| 0 <= k < j && #[trigger] names[k]@ == names[j]@ {
        Some(names[j]@)
    } else {
        repeated_payload(names, j + 1)
    }
}

/// `r` lowers the variants of enum `ed` from position `j` on: a repeated variant name is
/// refused, payload types are lowered at the variant, named payloads must name each
/// payload once.
pub open spec fn variants_rel(ed: EnumDecl, j: int, names: TypeNames, consts: Seq<ConstDecl>, r: Result<Seq<EnumVariantDef>, Diagnostic>, t: Derivation) -> bool
    decreases ed.variants.len() - j,
{
    if j < 0 || j >= ed.variants.len() {
        r == Ok::<Seq<EnumVariantDef>, Diagnostic>(Seq::empty())
    } else {
        let v = ed.variants[j];
        let q = debug_quoted(v.name@);
        if exists|k: int| 0 <= k < j && #[trigger] ed.variants[k].name@ == v.name@ {
            r is Err && type_error(r->Err_0, "duplicate variant "@ + q + " in enum "@ + debug_quoted(ed.name@), v.line, v.column)
        } else {
            &&& types_rel(v.payload_tys, 0, names, consts, v.line, v.column, tys_at(t, 0), deriv_at(t, 0))
            &&& match tys_at(t, 0) {
                Err(d) => r == Err::<Seq<EnumVariantDef>, Diagnostic>(d),
                Ok(tys) => if v.payload_names.len() > 0 && v.payload_names.len() != tys.len() {
                    r is Err && type_error(r->Err_0, "internal error: enum variant "@ + q + " has mismatched named payload metadata"@, v.line, v.column)
                } else if repeated_payload(v.payload_names@, 0) is Some {
                    r is Err && type_error(r->Err_0, "duplicate payload field "@ + debug_quoted(repeated_payload(v.payload_names@, 0)->0)
                        + " in enum variant "@ + q, v.line, v.column)
                } else {
                    variants_rel(ed, j + 1, names, consts, variants_at(t, 1), deriv_at(t, 1)) && match variants_at(t, 1) {
                        Err(d) => r == Err::<Seq<EnumVariantDef>, Diagnostic>(d),
                        Ok(rest) => {
                            &&& r is Ok
                            &&& r->Ok_0.len() == rest.len() + 1
                            &&& r->Ok_0[0].name == v.name && r->Ok_0[0].payload_tys@ == tys && r->Ok_0[0].payload_names@ == v.payload_names@
                            &&& r->Ok_0.drop_first() == rest
                        },
                    }
                },
            }
        }
    }
}

/// `r` lowers the enums from position `i` on to definitions, in order; an enum must
/// declare a variant.
pub open spec fn enums_rel(enums: Vec<EnumDecl>, i: int, names: TypeNames, consts: Seq<ConstDecl>, r: Result<Seq<EnumDef>, Diagnostic>, t: Derivation) -> bool
    decreases enums.len() - i,
{
    if i < 0 || i >= enums.len() {
        r == Ok::<Seq<EnumDef>, Diagnostic>(Seq::empty())
    } else {
        let ed = enums[i];
        if ed.variants.len() == 0 {
            r is Err && type_error(r->Err_0, "enum "@ + debug_quoted(ed.name@) + " must declare at least one variant"@, ed.line, ed.column)
        } else {
            &&& variants_rel(ed, 0, names, consts, variants_at(t, 0), deriv_at(t, 0))
            &&& match variants_at(t, 0) {
                Err(d) => r == Err::<Seq<EnumDef>, Diagnostic>(d),
                Ok(vs) => enums_rel(enums, i + 1, names, consts, enums_at(t, 1), deriv_at(t, 1)) && match enums_at(t, 1) {
                    Err(d) => r == Err::<Seq<EnumDef>, Diagnostic>(d),
                    Ok(rest) => {
                        &&& r is Ok
                        &&& r->Ok_0.len() == rest.len() + 1
                        &&& r->Ok_0[0].name == ed.name && r->Ok_0[0].variants@ == vs
                        &&& r->Ok_0.drop_first() == rest
                    },
                },
            }
        }
    }
}

// ---------------------------------------------------------------------------
// Lowering.

/// A recorded sub-lowering of struct fields.
pub open spec fn fields_step(r: Result<Vec<StructField>, Diagnostic>, t: Derivation) -> Step {
    Step { out: Outcome::Fields(seq_outcome(r)), env: seq![], edges: seq![], sub: t }
}

/// A recorded sub-lowering of struct definitions.
pub open spec fn structs_step(r: Result<Vec<StructDef>, Diagnostic>, t: Derivation) -> Step {
    Step { out: Outcome::Structs(seq_outcome(r)), env: seq![], edges: seq![], sub: t }
}

/// A recorded sub-lowering of enum variants.
pub open spec fn variants_step(r: Result<Vec<EnumVariantDef>, Diagnostic>, t: Derivation) -> Step {
    Step { out: Outcome::Variants(seq_outcome(r)), env: seq![], edges: seq![], sub: t }
}

/// A recorded sub-lowering of enum definitions.
pub open spec fn enums_step(r: Result<Vec<EnumDef>, Diagnostic>, t: Derivation) -> Step {
    Step { out: Outcome::Enums(seq_outcome(r)), env: seq![], edges: seq![], sub: t }
}

fn lower_fields(sd: &StructDecl, j: usize, names: &TypeNames, consts: &Vec<ConstDecl>) -> (out: (Result<Vec<StructField>, Diagnostic>, Ghost<Derivation>))
    requires
        j <= sd.fields.len(),
        consts_safe(consts@),
    ensures
        fields_rel(*sd, j as int, *names, consts@, seq_outcome(out.0), out.1@),
    decreases sd.fields.len() - j,
{
    if j >= sd.fields.len() {
        return (Ok(Vec::new()), Ghost(Derivation::Leaf));
    }
    let f = &sd.fields[j];
    let mut k: usize = 0;
    while k < j
        invariant
            k <= j,
            j < sd.fields.len(),
            *f == sd.fields@[j as int],
            forall|m: int| 0 <= m < k ==> sd.fields@[m].name@ != f.name@,
        decreases j - k,
    {
        if crate::text::str_eq(sd.fields[k].name.as_str(), f.name.as_str()) {
            let m = concat(quoted_message("duplicate field ", f.name.as_str(), " in struct "), quote(sd.name.as_str()).as_str());
            return (Err(type_error_at(m, f.line, f.column)), Ghost(Derivation::Leaf));
        }
        k = k + 1;
    }
    let (rt, Ghost(tt)) = lower_type(&f.ty, names, consts, f.line, f.column);
    let ghost s0 = Step { out: Outcome::Ty(rt), env: seq![], edges: seq![], sub: tt };
    let ty = match rt {
        Err(d) => return (Err(d), Ghost(Derivation::Node(seq![s0]))),
        Ok(ty) => ty,
    };
    let (rr, Ghost(tr)) = lower_fields(sd, j + 1, names, consts);
    let ghost t = Derivation::Node(seq![s0, fields_step(rr, tr)]);
    match rr {
        Err(d) => (Err(d), Ghost(t)),
        Ok(rest) => {
            let ghost rest_view = rest@;
            let field = StructField { name: f.name.clone(), ty };
            let ghost gfield = field;
            let mut v: Vec<StructField> = Vec::new();
            v.push(field);
            let mut rest = rest;
            v.append(&mut rest);
            proof { assert(v@ =~= seq![gfield] + rest_view); }
            (Ok(v), Ghost(t))
        },
    }
}

fn lower_struct_defs(structs: &Vec<StructDecl>, i: usize, names: &TypeNames, consts: &Vec<ConstDecl>) -> (out: (Result<Vec<StructDef>, Diagnostic>, Ghost<Derivation>))
    requires
        i <= structs.len(),
        consts_safe(consts@),
    ensures
        struct_defs_rel(*structs, i as int, *names, consts@, seq_outcome(out.0), out.1@),
    decreases structs.len() - i,
{
    if i >= structs.len() {
        return (Ok(Vec::new()), Ghost(Derivation::Leaf));
    }
    let (rf, Ghost(tf)) = lower_fields(&structs[i], 0, names, consts);
    let ghost s0 = fields_step(rf, tf);
    let fields = match rf {
        Err(d) => return (Err(d), Ghost(Derivation::Node(seq![s0]))),
        Ok(fields) => fields,
    };
    let (rr, Ghost(tr)) = lower_struct_defs(structs, i + 1, names, consts);
    let ghost t = Derivation::Node(seq![s0, structs_step(rr, tr)]);
    match rr {
        Err(d) => (Err(d), Ghost(t)),
        Ok(rest) => {
            let ghost rest_view = rest@;
            let def = StructDef { name: structs[i].name.clone(), fields };
            let ghost gdef = def;
            let mut v: Vec<StructDef> = Vec::new();
            v.push(def);
            let mut rest = rest;
            v.append(&mut rest);
            proof {
                assert(v@ =~= seq![gdef] + rest_view);
                assert(v@.drop_first() =~= rest_view);
            }
            (Ok(v), Ghost(t))
        },
    }
}

/// Lowers the struct declarations to definitions.
pub fn collect_struct_definitions(structs: &Vec<StructDecl>, names: &TypeNames, consts: &Vec<ConstDecl>) -> (out: (Result<Vec<StructDef>, Diagnostic>, Ghost<Derivation>))
    requires
        consts_safe(consts@),
    ensures
        structs_rel(*structs, *names, consts@, seq_outcome(out.0), out.1@),
{
    let mut seen: Vec<String> = Vec::new();
    let mut i: usize = 0;
    while i < structs.len()
        invariant
            i <= structs.len(),
            seen@.len() == i,
            forall|k: int| 0 <= k < i ==> #[trigger] seen@[k]@ == structs[k].name@,
            struct_decl_clash(*structs, names.enums@, 0) == struct_decl_clash(*structs, names.enums@, i as int),
        decreases structs.len() - i,
    {
        let decl = &structs[i];
        if contains_string(&names.enums, decl.name.as_str()) {
            let m = quoted_message("duplicate type name ", decl.name.as_str(), "");
            proof { reveal_strlit(""); assert(m@ =~= "duplicate type name "@ + debug_quoted(decl.name@)); }
            return (Err(type_error_at(m, decl.line, decl.column)), Ghost(Derivation::Leaf));
        }
        if contains_string(&seen, decl.name.as_str()) {
            proof {
                let j = choose|j: int| 0 <= j < seen@.len() && #[trigger] seen@[j]@ == decl.name@;
                assert(structs[j].name@ == structs[i as int].name@);
            }
            let m = quoted_message("duplicate struct ", decl.name.as_str(), "");
            proof { reveal_strlit(""); assert(m@ =~= "duplicate struct "@ + debug_quoted(decl.name@)); }
            return (Err(type_error_at(m, decl.line, decl.column)), Ghost(Derivation::Leaf));
        }
        proof {
            assert forall|j: int| 0 <= j < i implies #[trigger] structs[j].name@ != structs[i as int].name@ by {
                assert(seen@[j]@ == structs[j].name@);
            }
        }
        seen.push(decl.name.clone());
        i = i + 1;
    }
    lower_struct_defs(structs, 0, names, consts)
}

fn find_repeated(names: &Vec<String>, j: usize) -> (r: Option<usize>)
    requires
        j <= names.len(),
    ensures
        match repeated_payload(names@, j as int) {
            None => r is None,
            Some(n) => r is Some && r->0 < names.len() && names@[r->0 as int]@ == n,
        },
    decreases names.len() - j,
{
    if j >= names.len() {
        return None;
    }
    let mut k: usize = 0;
    while k < j
        invariant
            k <= j,
            j < names.len(),
            forall|m: int| 0 <= m < k ==> names@[m]@ != names@[j as int]@,
        decreases j - k,
    {
        if crate::text::str_eq(names[k].as_str(), names[j].as_str()) {
            return Some(j);
        }
        k = k + 1;
    }
    find_repeated(names, j + 1)
}

fn lower_variants(ed: &EnumDecl, j: usize, names: &TypeNames, consts: &Vec<ConstDecl>) -> (out: (Result<Vec<EnumVariantDef>, Diagnostic>, Ghost<Derivation>))
    requires
        j <= ed.variants.len(),
        consts_safe(consts@),
    ensures
        variants_rel(*ed, j as int, *names, consts@, seq_outcome(out.0), out.1@),
        out.0 is Ok ==> forall|k: int| 0 <= k < out.0->Ok_0@.len() ==> {
            let x = #[trigger] out.0->Ok_0@[k];
            x.payload_names@.len() == 0 || x.payload_names@.len() == x.payload_tys@.len()
        },
    decreases ed.variants.len() - j,
{
    if j >= ed.variants.len() {
        return (Ok(Vec::new()), Ghost(Derivation::Leaf));
    }
    let v = &ed.variants[j];
    let mut k: usize = 0;
    while k < j
        invariant
            k <= j,
            j < ed.variants.len(),
            *v == ed.variants@[j as int],
            forall|m: int| 0 <= m < k ==> ed.variants@[m].name@ != v.name@,
        decreases j - k,
    {
        if crate::text::str_eq(ed.variants[k].name.as_str(), v.name.as_str()) {
            let m = concat(quoted_message("duplicate variant ", v.name.as_str(), " in enum "), quote(ed.name.as_str()).as_str());
            return (Err(type_error_at(m, v.line, v.column)), Ghost(Derivation::Leaf));
        }
        k = k + 1;
    }
    let (rt, Ghost(tt)) = lower_types(&v.payload_tys, 0, names, consts, v.line, v.column);
    let ghost s0 = Step { out: Outcome::Tys(seq_outcome(rt)), env: seq![], edges: seq![], sub: tt };
    let tys = match rt {
        Err(d) => return (Err(d), Ghost(Derivation::Node(seq![s0]))),
        Ok(tys) => tys,
    };
    if v.payload_names.len() > 0 && v.payload_names.len() != tys.len() {
        let m = quoted_message("internal error: enum variant ", v.name.as_str(), " has mismatched named payload metadata");
        return (Err(type_error_at(m, v.line, v.column)), Ghost(Derivation::Node(seq![s0])));
    }
    if let Some(p) = find_repeated(&v.payload_names, 0) {
        let m = concat(concat(String::from_str("duplicate payload field "), quote(v.payload_names[p].as_str()).as_str()), " in enum variant ");
        let m = concat(m, quote(v.name.as_str()).as_str());
        return (Err(type_error_at(m, v.line, v.column)), Ghost(Derivation::Node(seq![s0])));
    }
    let (rr, Ghost(tr)) = lower_variants(ed, j + 1, names, consts);
    let ghost t = Derivation::Node(seq![s0, variants_step(rr, tr)]);
    match rr {
        Err(d) => (Err(d), Ghost(t)),
        Ok(rest) => {
            let ghost rest_view = rest@;
            let def = EnumVariantDef { name: v.name.clone(), payload_tys: tys, payload_names: crate::lower_stmt::clone_strings(&v.payload_names) };
            let ghost gdef = def;
            let mut out: Vec<EnumVariantDef> = Vec::new();
            out.push(def);
            let mut rest = rest;
            out.append(&mut rest);
            proof {
                assert(out@ =~= seq![gdef] + rest_view);
                assert(out@.drop_first() =~= rest_view);
            }
            (Ok(out), Ghost(t))
        },
    }
}

#[verifier::spinoff_prover]
fn lower_enum_defs(enums: &Vec<EnumDecl>, i: usize, names: &TypeNames, consts: &Vec<ConstDecl>) -> (out: (Result<Vec<EnumDef>, Diagnostic>, Ghost<Derivation>))
    requires
        i <= enums.len(),
        consts_safe(consts@),
    ensures
        enums_rel(*enums, i as int, *names, consts@, seq_outcome(out.0), out.1@),
        out.0 is Ok ==> enums_named_ok(out.0->Ok_0@),
    decreases enums.len() - i,
{
    if i >= enums.len() {
        return (Ok(Vec::new()), Ghost(Derivation::Leaf));
    }
    let ed = &enums[i];
    if ed.variants.len() == 0 {
        let m = quoted_message("enum ", ed.name.as_str(), " must declare at least one variant");
        return (Err(type_error_at(m, ed.line, ed.column)), Ghost(Derivation::Leaf));
    }
    let (rv, Ghost(tv)) = lower_variants(ed, 0, names, consts);
    let ghost s0 = variants_step(rv, tv);
    let vs = match rv {
        Err(d) => return (Err(d), Ghost(Derivation::Node(seq![s0]))),
        Ok(vs) => vs,
    };
    let (rr, Ghost(tr)) = lower_enum_defs(enums, i + 1, names, consts);
    let ghost t = Derivation::Node(seq![s0, enums_step(rr, tr)]);
    match rr {
        Err(d) => (Err(d), Ghost(t)),
        Ok(rest) => {
            let ghost rest_view = rest@;
            let def = EnumDef { name: ed.name.clone(), variants: vs };
            let ghost gdef = def;
            let mut out: Vec<EnumDef> = Vec::new();
            out.push(def);
            let mut rest = rest;
            out.append(&mut rest);
            proof {
                assert(out@ =~= seq![gdef] + rest_view);
                assert(out@.drop_first() =~= rest_view);
                assert forall|e: int, v: int| 0 <= e < out@.len() && 0 <= v < out@[e].variants@.len() implies {
                    let x = #[trigger] out@[e].variants@[v];
                    x.payload_names@.len() == 0 || x.payload_names@.len() == x.payload_tys@.len()
                } by {
                    if e > 0 {
                        assert(out@[e] == rest_view[e - 1]);
                    } else {
                        assert(out@[e] == gdef);
                    }
                }
            }
            (Ok(out), Ghost(t))
        },
    }
}

/// Lowers the enum declarations to definitions.
pub fn collect_enum_definitions(enums: &Vec<EnumDecl>, names: &TypeNames, consts: &Vec<ConstDecl>) -> (out: (Result<Vec<EnumDef>, Diagnostic>, Ghost<Derivation>))
    requires
        consts_safe(consts@),
    ensures
        enums_rel(*enums, 0, *names, consts@, seq_outcome(out.0), out.1@),
        out.0 is Ok ==> enums_named_ok(out.0->Ok_0@),
{
    lower_enum_defs(enums, 0, names, consts)
}

} // verus!
