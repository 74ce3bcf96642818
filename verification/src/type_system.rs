//! The user-defined types a project declares, as the table preview reads
//! them, and the sample values the preview fills a table with.

use vstd::prelude::*;
use crate::naming::{string_from_chars, chars_of};
use crate::state_fields::append_str;

verus! {

/// The type of a field of a user-defined struct or enum variant.
#[derive(Debug, Clone, Copy, PartialEq, Eq, Structural)]
pub enum FieldType {
    String,
    F32,
    F64,
    I32,
    I64,
    U32,
    U64,
    Usize,
    Bool,
    /// A user-defined enum, by id.
    CustomEnum(u128),
    /// A user-defined struct, by id.
    CustomStruct(u128),
}

/// A variant of a user-defined enum.
#[derive(Debug)]
pub struct VariantDef {
    pub id: u128,
    pub name: String,
}

/// A user-defined enum: its id, name and variants in order.
#[derive(Debug)]
pub struct EnumDef {
    pub id: u128,
    pub name: String,
    pub variants: Vec<VariantDef>,
}

/// The names of an enum's variants, in order.
pub open spec fn variant_names_spec(e: EnumDef) -> Seq<Seq<char>> {
    e.variants@.map_values(|v: VariantDef| v.name@)
}

impl EnumDef {
    /// The names of the variants, in order.
    pub fn variant_names(&self) -> (r: Vec<String>)
        ensures
            crate::values::strs_view(r@) == variant_names_spec(*self),
    {
        let mut r: Vec<String> = Vec::new();
        let mut i: usize = 0;
        while i < self.variants.len()
            invariant
                i <= self.variants@.len(),
                crate::values::strs_view(r@) == self.variants@.subrange(0, i as int).map_values(|v: VariantDef| v.name@),
            decreases self.variants@.len() - i,
        {
            let n = self.variants[i].name.clone();
            let ghost before = r@;
            let ghost nv = n@;
            r.push(n);
            i = i + 1;
            proof {
                assert(crate::values::strs_view(r@) =~= crate::values::strs_view(before).push(nv));
                assert(self.variants@.subrange(0, i as int).map_values(|v: VariantDef| v.name@)
                    =~= self.variants@.subrange(0, i - 1).map_values(|v: VariantDef| v.name@).push(nv));
            }
        }
        proof {
            assert(self.variants@.subrange(0, self.variants@.len() as int) =~= self.variants@);
        }
        r
    }
}

/// A user-defined struct: its id and name.
#[derive(Debug)]
pub struct StructDef {
    pub id: u128,
    pub name: String,
}

/// The enums and structs a project declares.
#[derive(Debug)]
pub struct TypeSystem {
    pub enums: Vec<EnumDef>,
    pub structs: Vec<StructDef>,
}

/// The first enum with `id`, if any.
pub open spec fn enum_by_id(es: Seq<EnumDef>, id: u128) -> Option<EnumDef>
    decreases es.len(),
{
    if es.len() == 0 {
        None
    } else if es[0].id == id {
        Some(es[0])
    } else {
        enum_by_id(es.drop_first(), id)
    }
}

/// The first struct with `id`, if any.
pub open spec fn struct_by_id(ss: Seq<StructDef>, id: u128) -> Option<StructDef>
    decreases ss.len(),
{
    if ss.len() == 0 {
        None
    } else if ss[0].id == id {
        Some(ss[0])
    } else {
        struct_by_id(ss.drop_first(), id)
    }
}

impl TypeSystem {
    /// The enum with `id`, if any.
    pub fn get_enum(&self, id: u128) -> (r: Option<&EnumDef>)
        ensures
            match r {
                Some(e) => enum_by_id(self.enums@, id) == Some(*e),
                None => enum_by_id(self.enums@, id) is None,
            },
    {
        let mut i: usize = 0;
        proof {
            assert(self.enums@.subrange(0, self.enums@.len() as int) =~= self.enums@);
        }
        while i < self.enums.len()
            invariant
                i <= self.enums@.len(),
                enum_by_id(self.enums@, id) == enum_by_id(self.enums@.subrange(i as int, self.enums@.len() as int), id),
            decreases self.enums@.len() - i,
        {
            proof {
                let rest = self.enums@.subrange(i as int, self.enums@.len() as int);
                assert(rest[0] == self.enums@[i as int]);
                assert(rest.drop_first() =~= self.enums@.subrange(i + 1, self.enums@.len() as int));
            }
            if self.enums[i].id == id {
                return Some(&self.enums[i]);
            }
            i = i + 1;
        }
        None
    }

    /// The struct with `id`, if any.
    pub fn get_struct(&self, id: u128) -> (r: Option<&StructDef>)
        ensures
            match r {
                Some(s) => struct_by_id(self.structs@, id) == Some(*s),
                None => struct_by_id(self.structs@, id) is None,
            },
    {
        let mut i: usize = 0;
        proof {
            assert(self.structs@.subrange(0, self.structs@.len() as int) =~= self.structs@);
        }
        while i < self.structs.len()
            invariant
                i <= self.structs@.len(),
                struct_by_id(self.structs@, id) == struct_by_id(
                    self.structs@.subrange(i as int, self.structs@.len() as int), id),
            decreases self.structs@.len() - i,
        {
            proof {
                let rest = self.structs@.subrange(i as int, self.structs@.len() as int);
                assert(rest[0] == self.structs@[i as int]);
                assert(rest.drop_first() =~= self.structs@.subrange(i + 1, self.structs@.len() as int));
            }
            if self.structs[i].id == id {
                return Some(&self.structs[i]);
            }
            i = i + 1;
        }
        None
    }
}

/// Whether every enum the field type can name has a variant to show.
pub open spec fn sample_ok(t: FieldType, ts: TypeSystem) -> bool {
    match t {
        FieldType::CustomEnum(id) => match enum_by_id(ts.enums@, id) {
            Some(e) => e.variants@.len() > 0,
            None => true,
        },
        _ => true,
    }
}

/// The sample shown in row `row` of a table column of type `t`: the row
/// picks (cyclically) one of three samples for text and numbers, alternates
/// true and false for booleans, walks an enum's variants, and builds a
/// struct with its `new` function; "?" marks an unknown type.
pub open spec fn sample_spec(t: FieldType, ts: TypeSystem, row: nat) -> Seq<char> {
    match t {
        FieldType::String => if row % 3 == 0 { "Hello"@ } else if row % 3 == 1 { "World"@ } else { "Sample"@ },
        FieldType::F32 | FieldType::F64 => if row % 3 == 0 { "1.5"@ } else if row % 3 == 1 { "3.14"@ } else { "42"@ },
        FieldType::I32 | FieldType::I64 => if row % 3 == 0 { "1"@ } else if row % 3 == 1 { "-7"@ } else { "42"@ },
        FieldType::U32 | FieldType::U64 | FieldType::Usize => if row % 3 == 0 {
            "0"@
        } else if row % 3 == 1 {
            "5"@
        } else {
            "100"@
        },
        FieldType::Bool => if row % 2 == 0 { "true"@ } else { "false"@ },
        FieldType::CustomEnum(id) => match enum_by_id(ts.enums@, id) {
            Some(e) => e.variants@[(row % e.variants@.len()) as int].name@,
            None => "?"@,
        },
        FieldType::CustomStruct(id) => match struct_by_id(ts.structs@, id) {
            Some(s) => s.name@ + "::new()"@,
            None => "?"@,
        },
    }
}

/// The sample shown in row `row_idx` of a table column (see
/// [`sample_spec`]).
pub fn sample_value_for_type(field_type: &FieldType, type_system: &TypeSystem, row_idx: usize) -> (r: String)
    requires
        sample_ok(*field_type, *type_system),
    ensures
        r@ == sample_spec(*field_type, *type_system, row_idx as nat),
{
    match field_type {
        FieldType::String => {
            let samples: [&str; 3] = ["Hello", "World", "Sample"];
            samples[row_idx % 3].to_string()
        },
        FieldType::F32 | FieldType::F64 => {
            let samples: [&str; 3] = ["1.5", "3.14", "42"];
            samples[row_idx % 3].to_string()
        },
        FieldType::I32 | FieldType::I64 => {
            let samples: [&str; 3] = ["1", "-7", "42"];
            samples[row_idx % 3].to_string()
        },
        FieldType::U32 | FieldType::U64 | FieldType::Usize => {
            let samples: [&str; 3] = ["0", "5", "100"];
            samples[row_idx % 3].to_string()
        },
        FieldType::Bool => {
            if row_idx % 2 == 0 {
                "true".to_string()
            } else {
                "false".to_string()
            }
        },
        FieldType::CustomEnum(id) => match type_system.get_enum(*id) {
            Some(e) => e.variants[row_idx % e.variants.len()].name.clone(),
            None => "?".to_string(),
        },
        FieldType::CustomStruct(id) => match type_system.get_struct(*id) {
            Some(s) => {
                let mut cs = chars_of(s.name.as_str());
                append_str(&mut cs, "::new()");
                string_from_chars(&cs)
            },
            None => "?".to_string(),
        },
    }
}

} // verus!

verus! {

/// The first enum named `name`, if any.
pub open spec fn enum_by_name(es: Seq<EnumDef>, name: Seq<char>) -> Option<EnumDef>
    decreases es.len(),
{
    if es.len() == 0 {
        None
    } else if es[0].name@ == name {
        Some(es[0])
    } else {
        enum_by_name(es.drop_first(), name)
    }
}

impl TypeSystem {
    /// The enum named `name`, if any.
    pub fn get_enum_by_name(&self, name: &String) -> (r: Option<&EnumDef>)
        ensures
            match r {
                Some(e) => enum_by_name(self.enums@, name@) == Some(*e),
                None => enum_by_name(self.enums@, name@) is None,
            },
    {
        let mut i: usize = 0;
        proof {
            assert(self.enums@.subrange(0, self.enums@.len() as int) =~= self.enums@);
        }
        while i < self.enums.len()
            invariant
                i <= self.enums@.len(),
                enum_by_name(self.enums@, name@) == enum_by_name(
                    self.enums@.subrange(i as int, self.enums@.len() as int), name@),
            decreases self.enums@.len() - i,
        {
            proof {
                let rest = self.enums@.subrange(i as int, self.enums@.len() as int);
                assert(rest[0] == self.enums@[i as int]);
                assert(rest.drop_first() =~= self.enums@.subrange(i + 1, self.enums@.len() as int));
            }
            if self.enums[i].name == *name {
                return Some(&self.enums[i]);
            }
            i = i + 1;
        }
        None
    }
}

} // verus!
