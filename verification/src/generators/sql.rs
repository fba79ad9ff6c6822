use vstd::prelude::*;
use crate::oml_object::{
    ArrayKind, ObjectType, OmlObject, SpecOmlObject, SpecVariable, Variable, VariableModifier,
    objects_view, vars_view,
};
use crate::generate::{Generate, GenerateError, has_undecided};
use crate::text::{decimal, eq_str, push_decimal, str_upper, to_uppercase};

verus! {

/// Generates SQL table definitions from OML objects.
pub struct SqlGenerator;

/// The SQL column type of an OML type name; any other name is a foreign key
/// and stored as `INT`.
pub open spec fn sql_type(t: Seq<char>) -> Seq<char> {
    if t == "int8"@ { "TINYINT"@ }
    else if t == "int16"@ { "SMALLINT"@ }
    else if t == "int32"@ { "INT"@ }
    else if t == "int64"@ { "BIGINT"@ }
    else if t == "uint8"@ { "TINYINT UNSIGNED"@ }
    else if t == "uint16"@ { "SMALLINT UNSIGNED"@ }
    else if t == "uint32"@ { "INT UNSIGNED"@ }
    else if t == "uint64"@ { "BIGINT UNSIGNED"@ }
    else if t == "float"@ { "FLOAT"@ }
    else if t == "double"@ { "DOUBLE"@ }
    else if t == "bool"@ { "BOOLEAN"@ }
    else if t == "string"@ { "TEXT"@ }
    else if t == "char"@ { "CHAR(1)"@ }
    else { "INT"@ }
}

/// Converts an OML type name to an SQL column type.
pub fn convert_type(var_type: &str) -> (r: String)
    ensures
        r@ == sql_type(var_type@),
{
    if eq_str(var_type, "int8") { String::from_str("TINYINT") }
    else if eq_str(var_type, "int16") { String::from_str("SMALLINT") }
    else if eq_str(var_type, "int32") { String::from_str("INT") }
    else if eq_str(var_type, "int64") { String::from_str("BIGINT") }
    else if eq_str(var_type, "uint8") { String::from_str("TINYINT UNSIGNED") }
    else if eq_str(var_type, "uint16") { String::from_str("SMALLINT UNSIGNED") }
    else if eq_str(var_type, "uint32") { String::from_str("INT UNSIGNED") }
    else if eq_str(var_type, "uint64") { String::from_str("BIGINT UNSIGNED") }
    else if eq_str(var_type, "float") { String::from_str("FLOAT") }
    else if eq_str(var_type, "double") { String::from_str("DOUBLE") }
    else if eq_str(var_type, "bool") { String::from_str("BOOLEAN") }
    else if eq_str(var_type, "string") { String::from_str("TEXT") }
    else if eq_str(var_type, "char") { String::from_str("CHAR(1)") }
    else { String::from_str("INT") }
}

/// The `INSERT` values of an enum table: ` ('NAME')`, commas between.
pub open spec fn sql_enum_values(vars: Seq<SpecVariable>, total: nat) -> Seq<char>
    decreases vars.len(),
{
    if vars.len() == 0 {
        Seq::empty()
    } else {
        sql_enum_values(vars.drop_last(), total) + " ('"@ + str_upper(vars.last().name) + "')"@
            + (if vars.len() < total { ","@ } else { Seq::<char>::empty() })
    }
}

/// The lookup table of an enum, with one row per variant.
pub open spec fn sql_enum_table(o: SpecOmlObject) -> Seq<char> {
    "CREATE TABLE "@ + o.name + " (\n"@
        + "\tid   INT          NOT NULL AUTO_INCREMENT PRIMARY KEY,\n"@
        + "\tname VARCHAR(255) NOT NULL\n"@
        + ");\n"@
        + (if o.variables.len() == 0 {
            Seq::<char>::empty()
        } else {
            "\n"@ + "INSERT INTO "@ + o.name + " (name) VALUES"@ + sql_enum_values(o.variables, o.variables.len()) + ";\n"@
        })
}

/// Writes the lookup table of an enum.
pub fn generate_enum_table(oml_object: &OmlObject, sql_file: &mut String)
    ensures
        final(sql_file)@ == old(sql_file)@ + sql_enum_table(oml_object@),
{
    let mut s = String::from_str("CREATE TABLE ");
    s.append(oml_object.name.as_str());
    s.append(" (\n");
    s.append("\tid   INT          NOT NULL AUTO_INCREMENT PRIMARY KEY,\n");
    s.append("\tname VARCHAR(255) NOT NULL\n");
    s.append(");\n");
    let mut rows = String::new();
    if oml_object.variables.len() > 0 {
        rows.append("\n");
        rows.append("INSERT INTO ");
        rows.append(oml_object.name.as_str());
        rows.append(" (name) VALUES");
        let ghost vs = vars_view(oml_object.variables@);
        let length = oml_object.variables.len();
        let mut values = String::new();
        let mut index: usize = 0;
        while index < length
            invariant
                index <= length,
                length == oml_object.variables.len(),
                vs == vars_view(oml_object.variables@),
                values@ == sql_enum_values(vs.take(index as int), length as nat),
            decreases length - index,
        {
            assert(vs.take(index + 1).drop_last() == vs.take(index as int));
            let upper = to_uppercase(oml_object.variables[index].name.as_str());
            let mut l = String::from_str(" ('");
            l.append(upper.as_str());
            l.append("')");
            let mut c = String::new();
            if index < length - 1 {
                c.append(",");
            }
            l.append(c.as_str());
            values.append(l.as_str());
            index += 1;
        }
        assert(vs.take(length as int) == vs);
        rows.append(values.as_str());
        rows.append(";\n");
    }
    s.append(rows.as_str());
    sql_file.append(s.as_str());
}

/// `NULL` for an optional column, `NOT NULL` otherwise.
pub open spec fn sql_null(v: SpecVariable) -> Seq<char> {
    if v.is_optional() { "NULL"@ } else { "NOT NULL"@ }
}

/// The columns `name_0` .. `name_{count-1}` of a static array.
pub open spec fn sql_array_columns(v: SpecVariable, count: nat) -> Seq<char>
    decreases count,
{
    if count == 0 {
        Seq::empty()
    } else {
        sql_array_columns(v, (count - 1) as nat) + "\t"@ + v.name + "_"@ + decimal((count - 1) as nat) + " "@
            + sql_type(v.var_type) + " "@ + sql_null(v) + ",\n"@
    }
}

/// The inline columns of a variable: one per element of a static array,
/// one for a scalar, none for a list.
pub open spec fn sql_columns(v: SpecVariable) -> Seq<char> {
    match v.array_kind {
        ArrayKind::Static(n) => sql_array_columns(v, n as nat),
        ArrayKind::Scalar => "\t"@ + v.name + " "@ + sql_type(v.var_type) + " "@ + sql_null(v) + ",\n"@,
        ArrayKind::Dynamic => Seq::empty(),
    }
}

/// The inline columns of all variables, in order.
pub open spec fn sql_all_columns(vars: Seq<SpecVariable>) -> Seq<char>
    decreases vars.len(),
{
    if vars.len() == 0 { Seq::empty() } else { sql_all_columns(vars.drop_last()) + sql_columns(vars.last()) }
}

/// The junction table of a list member.
pub open spec fn sql_junction(owner: Seq<char>, v: SpecVariable) -> Seq<char> {
    let jn = owner + "_"@ + v.name;
    "\n"@ + "-- Junction table for "@ + owner + "."@ + v.name + " (list "@ + v.var_type + ")\n"@
        + "CREATE TABLE "@ + jn + " (\n"@
        + "\tid         INT NOT NULL AUTO_INCREMENT PRIMARY KEY,\n"@
        + "\tparent_id  INT NOT NULL,\n"@
        + "\tvalue      "@ + sql_type(v.var_type) + " NOT NULL,\n"@
        + "\tCONSTRAINT fk_"@ + jn + "_"@ + owner + " FOREIGN KEY (parent_id) REFERENCES "@ + owner + "(id)\n"@
        + ");\n"@
}

/// The junction tables of the list members, in order.
pub open spec fn sql_junctions(owner: Seq<char>, vars: Seq<SpecVariable>) -> Seq<char>
    decreases vars.len(),
{
    if vars.len() == 0 {
        Seq::empty()
    } else {
        sql_junctions(owner, vars.drop_last())
            + (if vars.last().array_kind == ArrayKind::Dynamic { sql_junction(owner, vars.last()) } else { Seq::<char>::empty() })
    }
}

/// The table of a class or struct, then a junction table per list member.
pub open spec fn sql_table(o: SpecOmlObject) -> Seq<char> {
    "CREATE TABLE "@ + o.name + " (\n"@
        + "\tid INT NOT NULL AUTO_INCREMENT PRIMARY KEY,\n"@
        + sql_all_columns(o.variables)
        + "\tCONSTRAINT pk_"@ + o.name + " PRIMARY KEY (id)\n"@
        + ");\n"@
        + sql_junctions(o.name, o.variables)
}

fn write_columns(var: &Variable) -> (r: String)
    ensures
        r@ == sql_columns(var@),
{
    let t = convert_type(var.var_type.as_str());
    let is_optional = var.has(VariableModifier::OPTIONAL);
    match var.array_kind {
        ArrayKind::Static(n) => {
            let mut cols = String::new();
            let mut i: u32 = 0;
            while i < n
                invariant
                    i <= n,
                    t@ == sql_type(var.var_type@),
                    is_optional == var@.is_optional(),
                    cols@ == sql_array_columns(var@, i as nat),
                decreases n - i,
            {
                let mut l = String::from_str("\t");
                l.append(var.name.as_str());
                l.append("_");
                push_decimal(&mut l, i as u64);
                l.append(" ");
                l.append(t.as_str());
                l.append(" ");
                if is_optional {
                    l.append("NULL");
                } else {
                    l.append("NOT NULL");
                }
                l.append(",\n");
                cols.append(l.as_str());
                i += 1;
            }
            cols
        },
        ArrayKind::Scalar => {
            let mut l = String::from_str("\t");
            l.append(var.name.as_str());
            l.append(" ");
            l.append(t.as_str());
            l.append(" ");
            if is_optional {
                l.append("NULL");
            } else {
                l.append("NOT NULL");
            }
            l.append(",\n");
            l
        },
        ArrayKind::Dynamic => String::new(),
    }
}

fn write_junction(owner: &str, var: &Variable) -> (r: String)
    ensures
        r@ == sql_junction(owner@, var@),
{
    let mut jn = String::from_str(owner);
    jn.append("_");
    jn.append(var.name.as_str());
    let t = convert_type(var.var_type.as_str());
    let mut s = String::from_str("\n");
    s.append("-- Junction table for ");
    s.append(owner);
    s.append(".");
    s.append(var.name.as_str());
    s.append(" (list ");
    s.append(var.var_type.as_str());
    s.append(")\n");
    s.append("CREATE TABLE ");
    s.append(jn.as_str());
    s.append(" (\n");
    s.append("\tid         INT NOT NULL AUTO_INCREMENT PRIMARY KEY,\n");
    s.append("\tparent_id  INT NOT NULL,\n");
    s.append("\tvalue      ");
    s.append(t.as_str());
    s.append(" NOT NULL,\n");
    s.append("\tCONSTRAINT fk_");
    s.append(jn.as_str());
    s.append("_");
    s.append(owner);
    s.append(" FOREIGN KEY (parent_id) REFERENCES ");
    s.append(owner);
    s.append("(id)\n");
    s.append(");\n");
    s
}

/// Writes the table of a class or struct and the junction tables of its lists.
pub fn generate_table(oml_object: &OmlObject, sql_file: &mut String)
    ensures
        final(sql_file)@ == old(sql_file)@ + sql_table(oml_object@),
{
    let ghost vs = vars_view(oml_object.variables@);
    let mut s = String::from_str("CREATE TABLE ");
    s.append(oml_object.name.as_str());
    s.append(" (\n");
    s.append("\tid INT NOT NULL AUTO_INCREMENT PRIMARY KEY,\n");
    let mut cols = String::new();
    let mut i: usize = 0;
    while i < oml_object.variables.len()
        invariant
            i <= oml_object.variables.len(),
            vs == vars_view(oml_object.variables@),
            cols@ == sql_all_columns(vs.take(i as int)),
        decreases oml_object.variables.len() - i,
    {
        assert(vs.take(i + 1).drop_last() == vs.take(i as int));
        let c = write_columns(&oml_object.variables[i]);
        cols.append(c.as_str());
        i += 1;
    }
    assert(vs.take(oml_object.variables.len() as int) == vs);
    s.append(cols.as_str());
    s.append("\tCONSTRAINT pk_");
    s.append(oml_object.name.as_str());
    s.append(" PRIMARY KEY (id)\n");
    s.append(");\n");
    let mut js = String::new();
    let mut k: usize = 0;
    while k < oml_object.variables.len()
        invariant
            k <= oml_object.variables.len(),
            vs == vars_view(oml_object.variables@),
            js@ == sql_junctions(oml_object.name@, vs.take(k as int)),
        decreases oml_object.variables.len() - k,
    {
        assert(vs.take(k + 1).drop_last() == vs.take(k as int));
        let var = &oml_object.variables[k];
        let mut one = String::new();
        if var.array_kind == ArrayKind::Dynamic {
            let j = write_junction(oml_object.name.as_str(), var);
            one.append(j.as_str());
        }
        js.append(one.as_str());
        k += 1;
    }
    assert(vs.take(oml_object.variables.len() as int) == vs);
    s.append(js.as_str());
    sql_file.append(s.as_str());
}

/// The SQL of one object.
pub open spec fn sql_object_text(o: SpecOmlObject) -> Seq<char> {
    if o.oml_type == ObjectType::ENUM { sql_enum_table(o) } else { sql_table(o) }
}

/// The objects one after another, a blank line between two consecutive ones.
pub open spec fn sql_objects_text(objs: Seq<SpecOmlObject>, total: nat) -> Seq<char>
    decreases objs.len(),
{
    if objs.len() == 0 {
        Seq::empty()
    } else {
        sql_objects_text(objs.drop_last(), total) + sql_object_text(objs.last())
            + (if objs.len() < total { "\n"@ } else { Seq::<char>::empty() })
    }
}

/// The SQL file generated for `objs`; an error where some object is `UNDECIDED`.
pub open spec fn sql_file(objs: Seq<SpecOmlObject>, file_name: Seq<char>) -> Result<Seq<char>, GenerateError> {
    if has_undecided(objs) {
        Err(GenerateError::UndecidedForSql)
    } else {
        Ok("-- This file has been generated from "@ + file_name + ".oml\n"@ + "\n"@ + sql_objects_text(objs, objs.len()))
    }
}

impl Generate for SqlGenerator {
    open spec fn spec_generate(&self, objs: Seq<SpecOmlObject>, file_name: Seq<char>) -> Result<Seq<char>, GenerateError> {
        sql_file(objs, file_name)
    }

    open spec fn spec_extension(&self) -> Seq<char> {
        "sql"@
    }

    fn generate(&self, oml_objects: &[OmlObject], file_name: &str) -> (r: Result<String, GenerateError>) {
        let ghost os = objects_view(oml_objects@);
        let mut sql_file = String::from_str("-- This file has been generated from ");
        sql_file.append(file_name);
        sql_file.append(".oml\n");
        sql_file.append("\n");
        let n = oml_objects.len();
        let mut objects = String::new();
        let mut i: usize = 0;
        while i < n
            invariant
                i <= n,
                n == oml_objects.len(),
                os == objects_view(oml_objects@),
                objects@ == sql_objects_text(os.take(i as int), n as nat),
                forall|k: int| 0 <= k < i ==> os[k].oml_type != ObjectType::UNDECIDED,
            decreases n - i,
        {
            assert(os.take(i + 1).drop_last() == os.take(i as int));
            let obj = &oml_objects[i];
            assert(os[i as int] == obj@);
            let mut one = String::new();
            match obj.oml_type {
                ObjectType::ENUM => generate_enum_table(obj, &mut one),
                ObjectType::CLASS | ObjectType::STRUCT => generate_table(obj, &mut one),
                ObjectType::UNDECIDED => {
                    return Err(GenerateError::UndecidedForSql);
                },
            }
            if i < n - 1 {
                one.append("\n");
            }
            objects.append(one.as_str());
            i += 1;
        }
        assert(os.take(n as int) == os);
        sql_file.append(objects.as_str());
        Ok(sql_file)
    }

    fn extension(&self) -> (r: &str) {
        "sql"
    }
}

} // verus!
