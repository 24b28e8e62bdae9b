//! Schemas: column types, how they widen, and how two schemas differ.

use vstd::prelude::*;
use vstd::string::*;
use crate::csvfile::{read_table, write_pair};
use crate::csvfile;
use crate::order::{stable_sort, SortKey, Sortable};
use crate::order;
use crate::report;
use crate::text::{joined, replaced, starts_with, str_before, str_eq, trimmed, uppercase};
use crate::text;
use crate::textmap::TextMap;

verus! {

/// A column of a dataset.
#[derive(Debug)]
pub struct FieldDef {
    pub name: String,
    /// The type of the column in Arrow.
    pub arrow_type: String,
    pub nullable: bool,
    /// The type of the column in the database, where it is known.
    pub duckdb_type: Option<String>,
}

/// What a `FieldDef` says.
#[verifier::ext_equal]
pub struct FieldView {
    pub name: Seq<char>,
    pub arrow_type: Seq<char>,
    pub nullable: bool,
    pub duckdb_type: Option<Seq<char>>,
}

impl View for FieldDef {
    type V = FieldView;

    open spec fn view(&self) -> FieldView {
        FieldView {
            name: self.name@,
            arrow_type: self.arrow_type@,
            nullable: self.nullable,
            duckdb_type: report::opt(self.duckdb_type),
        }
    }
}

pub open spec fn field_views(v: Seq<FieldDef>) -> Seq<FieldView> {
    Seq::new(v.len(), |i: int| v[i]@)
}

/// Columns sort by name.
impl SortKey for FieldDef {
    open spec fn before(self, other: Self) -> bool {
        text::text_lt(self.name@, other.name@)
    }

    proof fn lemma_asymmetric(a: Self, b: Self) {
        text::lemma_text_lt_asymmetric(a.name@, b.name@);
    }

    proof fn lemma_not_before_transitive(a: Self, b: Self, c: Self) {
        text::lemma_text_not_lt_transitive(a.name@, b.name@, c.name@);
    }

    fn is_before(&self, other: &Self) -> (r: bool) {
        str_before(self.name.as_str(), other.name.as_str())
    }
}

impl Sortable for FieldDef {
    fn copy(&self) -> (r: Self) {
        FieldDef {
            name: self.name.clone(),
            arrow_type: self.arrow_type.clone(),
            nullable: self.nullable,
            duckdb_type: report::copy_option(&self.duckdb_type),
        }
    }
}

/// The columns of a dataset, and where they were found.
#[derive(Debug)]
pub struct SchemaDoc {
    pub dataset: String,
    pub source: String,
    pub generated_at_unix: i64,
    pub fields: Vec<FieldDef>,
}

/// A type name as it is compared: trimmed, in capitals.
pub open spec fn normalized(t: Seq<char>) -> Seq<char> {
    text::uppercase_of(text::trim(t))
}

/// A type name as it is compared: trimmed, in capitals.
pub fn normalize_duckdb_type(t: &str) -> (r: String)
    ensures
        r@ == normalized(t@),
        text::all_ascii(text::trim(t@)) ==> r@ == Seq::new(
            text::trim(t@).len(),
            |i: int| text::ascii_upper(text::trim(t@)[i]),
        ),
{
    let s = trimmed(t);
    uppercase(s.as_str())
}

/// The Arrow type for a normalized database type.
pub open spec fn arrow_of(t: Seq<char>) -> Seq<char> {
    if text::has_prefix(t, "STRUCT"@) {
        "struct"@
    } else if text::has_prefix(t, "LIST"@) {
        "list"@
    } else if t == "BOOLEAN"@ {
        "bool"@
    } else if t == "TINYINT"@ {
        "int8"@
    } else if t == "SMALLINT"@ {
        "int16"@
    } else if t == "INTEGER"@ || t == "INT"@ {
        "int32"@
    } else if t == "BIGINT"@ || t == "HUGEINT"@ {
        "int64"@
    } else if t == "FLOAT"@ {
        "float32"@
    } else if t == "DOUBLE"@ || t == "DECIMAL"@ {
        "float64"@
    } else if t == "DATE"@ {
        "date32"@
    } else if t == "TIMESTAMP"@ {
        "timestamp[us]"@
    } else {
        "utf8"@
    }
}

/// The Arrow type for a normalized database type.
pub fn arrow_type_of(t: &str) -> (r: String)
    ensures
        r@ == arrow_of(t@),
{
    if starts_with(t, "STRUCT") {
        "struct".to_owned()
    } else if starts_with(t, "LIST") {
        "list".to_owned()
    } else if str_eq(t, "BOOLEAN") {
        "bool".to_owned()
    } else if str_eq(t, "TINYINT") {
        "int8".to_owned()
    } else if str_eq(t, "SMALLINT") {
        "int16".to_owned()
    } else if str_eq(t, "INTEGER") || str_eq(t, "INT") {
        "int32".to_owned()
    } else if str_eq(t, "BIGINT") || str_eq(t, "HUGEINT") {
        "int64".to_owned()
    } else if str_eq(t, "FLOAT") {
        "float32".to_owned()
    } else if str_eq(t, "DOUBLE") || str_eq(t, "DECIMAL") {
        "float64".to_owned()
    } else if str_eq(t, "DATE") {
        "date32".to_owned()
    } else if str_eq(t, "TIMESTAMP") {
        "timestamp[us]".to_owned()
    } else {
        "utf8".to_owned()
    }
}

/// The Arrow type for a database type.
pub fn duckdb_to_arrow_type(t: &str) -> (r: String)
    ensures
        r@ == arrow_of(normalized(t@)),
{
    let n = normalize_duckdb_type(t);
    arrow_type_of(n.as_str())
}

/// The database type for an Arrow type.
pub open spec fn duckdb_of(t: Seq<char>) -> Seq<char> {
    if t == "bool"@ {
        "BOOLEAN"@
    } else if t == "int8"@ {
        "TINYINT"@
    } else if t == "int16"@ {
        "SMALLINT"@
    } else if t == "int32"@ {
        "INTEGER"@
    } else if t == "int64"@ {
        "BIGINT"@
    } else if t == "float32"@ {
        "FLOAT"@
    } else if t == "float64"@ {
        "DOUBLE"@
    } else if t == "utf8"@ {
        "VARCHAR"@
    } else if t == "date32"@ {
        "DATE"@
    } else if t == "timestamp[us]"@ {
        "TIMESTAMP"@
    } else {
        text::uppercase_of(t)
    }
}

/// The database type for an Arrow type.
pub fn arrow_to_duckdb_type(t: &str) -> (r: String)
    ensures
        r@ == duckdb_of(t@),
{
    if str_eq(t, "bool") {
        "BOOLEAN".to_owned()
    } else if str_eq(t, "int8") {
        "TINYINT".to_owned()
    } else if str_eq(t, "int16") {
        "SMALLINT".to_owned()
    } else if str_eq(t, "int32") {
        "INTEGER".to_owned()
    } else if str_eq(t, "int64") {
        "BIGINT".to_owned()
    } else if str_eq(t, "float32") {
        "FLOAT".to_owned()
    } else if str_eq(t, "float64") {
        "DOUBLE".to_owned()
    } else if str_eq(t, "utf8") {
        "VARCHAR".to_owned()
    } else if str_eq(t, "date32") {
        "DATE".to_owned()
    } else if str_eq(t, "timestamp[us]") {
        "TIMESTAMP".to_owned()
    } else {
        uppercase(t)
    }
}

/// The Arrow types that stand for exactly one database type.
pub open spec fn is_scalar_arrow(t: Seq<char>) -> bool {
    t == "bool"@ || t == "int8"@ || t == "int16"@ || t == "int32"@ || t == "int64"@ || t
        == "float32"@ || t == "float64"@ || t == "utf8"@ || t == "date32"@ || t == "timestamp[us]"@
}

/// The database type for a scalar Arrow type stands for that Arrow type again.
pub proof fn law_arrow_round_trip(t: Seq<char>)
    requires
        is_scalar_arrow(t),
    ensures
        arrow_of(duckdb_of(t)) == t,
{
    reveal_strlit("STRUCT");
    reveal_strlit("LIST");
    reveal_strlit("BOOLEAN");
    reveal_strlit("TINYINT");
    reveal_strlit("SMALLINT");
    reveal_strlit("INTEGER");
    reveal_strlit("INT");
    reveal_strlit("BIGINT");
    reveal_strlit("HUGEINT");
    reveal_strlit("FLOAT");
    reveal_strlit("DOUBLE");
    reveal_strlit("DECIMAL");
    reveal_strlit("DATE");
    reveal_strlit("TIMESTAMP");
    reveal_strlit("VARCHAR");
    reveal_strlit("bool");
    reveal_strlit("int8");
    reveal_strlit("int16");
    reveal_strlit("int32");
    reveal_strlit("int64");
    reveal_strlit("float32");
    reveal_strlit("float64");
    reveal_strlit("utf8");
    reveal_strlit("date32");
    reveal_strlit("timestamp[us]");
    let d = duckdb_of(t);
    assert("STRUCT"@[1] == 'T' && "LIST"@[0] == 'L');
    assert(d[0] != 'L');
    assert(text::has_prefix(d, "STRUCT"@) ==> d.take(6)[0] == 'S' && d.take(6)[1] == 'T');
    assert(text::has_prefix(d, "LIST"@) ==> d.take(4)[0] == 'L');
    assert("BOOLEAN"@[0] == 'B' && "TINYINT"@[0] == 'T' && "INTEGER"@[0] == 'I' && "HUGEINT"@[0]
        == 'H' && "DECIMAL"@[0] == 'D' && "VARCHAR"@[0] == 'V');
    assert("INTEGER"@.len() == 7 && "INT"@.len() == 3 && "BIGINT"@.len() == 6 && "DOUBLE"@.len()
        == 6 && "DATE"@.len() == 4 && "FLOAT"@.len() == 5 && "SMALLINT"@.len() == 8
        && "TIMESTAMP"@.len() == 9);
    assert("BIGINT"@[0] == 'B' && "DOUBLE"@[0] == 'D' && "SMALLINT"@[1] == 'M');
}

/// How wide a numeric type is; nothing for other types.
pub open spec fn width(t: Seq<char>) -> Option<int> {
    if t == "TINYINT"@ {
        Some(0)
    } else if t == "SMALLINT"@ {
        Some(1)
    } else if t == "INTEGER"@ {
        Some(2)
    } else if t == "BIGINT"@ {
        Some(3)
    } else if t == "HUGEINT"@ {
        Some(4)
    } else if t == "FLOAT"@ {
        Some(5)
    } else if t == "DOUBLE"@ {
        Some(6)
    } else {
        None
    }
}

/// Whether a type holds other types.
pub open spec fn is_nested(t: Seq<char>) -> bool {
    text::has_prefix(t, "STRUCT"@) || text::has_prefix(t, "LIST"@) || text::has_prefix(t, "MAP"@)
}

/// The type that holds the values of two normalized types.
pub open spec fn widened(a: Seq<char>, b: Seq<char>) -> Seq<char> {
    if a == b {
        a
    } else if width(a) is Some && width(b) is Some {
        if width(a)->0 >= width(b)->0 {
            a
        } else {
            b
        }
    } else if is_nested(a) {
        a
    } else if is_nested(b) {
        b
    } else {
        "VARCHAR"@
    }
}

fn width_of(t: &str) -> (r: Option<u8>)
    ensures
        match r {
            Some(w) => width(t@) == Some(w as int),
            None => width(t@) is None,
        },
{
    if str_eq(t, "TINYINT") {
        Some(0)
    } else if str_eq(t, "SMALLINT") {
        Some(1)
    } else if str_eq(t, "INTEGER") {
        Some(2)
    } else if str_eq(t, "BIGINT") {
        Some(3)
    } else if str_eq(t, "HUGEINT") {
        Some(4)
    } else if str_eq(t, "FLOAT") {
        Some(5)
    } else if str_eq(t, "DOUBLE") {
        Some(6)
    } else {
        None
    }
}

fn nested(t: &str) -> (r: bool)
    ensures
        r == is_nested(t@),
{
    starts_with(t, "STRUCT") || starts_with(t, "LIST") || starts_with(t, "MAP")
}

/// The type that holds the values of two normalized types.
pub fn widen_normalized(a: &str, b: &str) -> (r: String)
    ensures
        r@ == widened(a@, b@),
{
    if str_eq(a, b) {
        return a.to_owned();
    }
    if let (Some(x), Some(y)) = (width_of(a), width_of(b)) {
        return if x >= y {
            a.to_owned()
        } else {
            b.to_owned()
        };
    }
    if nested(a) {
        a.to_owned()
    } else if nested(b) {
        b.to_owned()
    } else {
        "VARCHAR".to_owned()
    }
}

/// The numeric types, from the narrowest to the widest.
pub open spec fn numeric_types() -> Seq<Seq<char>> {
    seq![
        "TINYINT"@,
        "SMALLINT"@,
        "INTEGER"@,
        "BIGINT"@,
        "HUGEINT"@,
        "FLOAT"@,
        "DOUBLE"@,
    ]
}

/// Whether a text names a type: in letters of either case, with white space around it or
/// without.
pub open spec fn spells(t: Seq<char>, name: Seq<char>) -> bool {
    &&& text::all_ascii(text::trim(t))
    &&& Seq::new(text::trim(t).len(), |i: int| text::ascii_upper(text::trim(t)[i])) == name
}

/// The type that holds the values of two types. Of two numeric types it is the wider one,
/// however they are spelled.
pub fn widen_type(a: &str, b: &str) -> (r: String)
    ensures
        r@ == widened(normalized(a@), normalized(b@)),
        forall|i: int, j: int|
            0 <= i < 7 && 0 <= j < 7 && spells(a@, #[trigger] numeric_types()[i]) && spells(
                b@,
                #[trigger] numeric_types()[j],
            ) ==> r@ == numeric_types()[if i >= j {
                i
            } else {
                j
            }],
{
    let x = normalize_duckdb_type(a);
    let y = normalize_duckdb_type(b);
    proof {
        assert forall|i: int, j: int|
            0 <= i < 7 && 0 <= j < 7 && spells(a@, #[trigger] numeric_types()[i]) && spells(
                b@,
                #[trigger] numeric_types()[j],
            ) implies widened(x@, y@) == numeric_types()[if i >= j {
            i
        } else {
            j
        }] by {
            law_numeric_types_widen_to_the_later(i, j);
        }
    }
    widen_normalized(x.as_str(), y.as_str())
}

proof fn lemma_type_names()
    ensures
        forall|i: int, j: int|
            0 <= i < j < 7 ==> #[trigger] numeric_types()[i] != #[trigger] numeric_types()[j],
        forall|i: int|
            0 <= i < 7 ==> !text::has_prefix(#[trigger] numeric_types()[i], "STRUCT"@)
                && !text::has_prefix(numeric_types()[i], "LIST"@) && !text::has_prefix(
                numeric_types()[i],
                "MAP"@,
            ) && numeric_types()[i] != "VARCHAR"@,
{
    reveal_strlit("TINYINT");
    reveal_strlit("SMALLINT");
    reveal_strlit("INTEGER");
    reveal_strlit("BIGINT");
    reveal_strlit("HUGEINT");
    reveal_strlit("FLOAT");
    reveal_strlit("DOUBLE");
    reveal_strlit("VARCHAR");
    reveal_strlit("STRUCT");
    reveal_strlit("LIST");
    reveal_strlit("MAP");
    let n = numeric_types();
    assert(n[0][0] == 'T' && n[1][0] == 'S' && n[1][1] == 'M' && n[2][0] == 'I' && n[3][0] == 'B'
        && n[4][0] == 'H' && n[5][0] == 'F' && n[6][0] == 'D');
    assert("VARCHAR"@[0] == 'V');
    assert forall|i: int| 0 <= i < 7 implies !text::has_prefix(#[trigger] n[i], "STRUCT"@)
        && !text::has_prefix(n[i], "LIST"@) && !text::has_prefix(n[i], "MAP"@) by {
        if text::has_prefix(n[i], "STRUCT"@) {
            assert(n[i].take(6)[0] == 'S' && n[i].take(6)[1] == 'T');
        }
        if text::has_prefix(n[i], "LIST"@) {
            assert(n[i].take(4)[0] == 'L');
        }
        if text::has_prefix(n[i], "MAP"@) {
            assert(n[i].take(3)[0] == 'M');
        }
    }
}

/// Two numeric types widen to the one that stands later among TINYINT, SMALLINT, INTEGER,
/// BIGINT, HUGEINT, FLOAT and DOUBLE.
pub proof fn law_numeric_types_widen_to_the_later(i: int, j: int)
    requires
        0 <= i < 7,
        0 <= j < 7,
    ensures
        widened(
            seq![
                "TINYINT"@,
                "SMALLINT"@,
                "INTEGER"@,
                "BIGINT"@,
                "HUGEINT"@,
                "FLOAT"@,
                "DOUBLE"@,
            ][i],
            seq![
                "TINYINT"@,
                "SMALLINT"@,
                "INTEGER"@,
                "BIGINT"@,
                "HUGEINT"@,
                "FLOAT"@,
                "DOUBLE"@,
            ][j],
        ) == seq![
            "TINYINT"@,
            "SMALLINT"@,
            "INTEGER"@,
            "BIGINT"@,
            "HUGEINT"@,
            "FLOAT"@,
            "DOUBLE"@,
        ][if i >= j {
            i
        } else {
            j
        }],
{
    lemma_type_names();
    let n = numeric_types();
    assert(n[0] != n[1] && n[1] != n[2] && n[2] != n[3] && n[3] != n[4] && n[4] != n[5] && n[5]
        != n[6]);
}

/// A type that holds other types stays what it is beside one that holds none; two types that
/// hold none, differ and are not both numeric widen to text.
pub proof fn law_other_types_widen_to_text(a: Seq<char>, b: Seq<char>)
    requires
        a != b,
        !(numeric_types().contains(a) && numeric_types().contains(b)),
        !(text::has_prefix(b, "STRUCT"@) || text::has_prefix(b, "LIST"@) || text::has_prefix(
            b,
            "MAP"@,
        )),
    ensures
        widened(a, b) == widened(b, a),
        widened(a, b) == (if text::has_prefix(a, "STRUCT"@) || text::has_prefix(a, "LIST"@)
            || text::has_prefix(a, "MAP"@) {
            a
        } else {
            "VARCHAR"@
        }),
{
    lemma_type_names();
    let n = numeric_types();
    assert(n[0] == "TINYINT"@ && n[1] == "SMALLINT"@ && n[2] == "INTEGER"@ && n[3] == "BIGINT"@
        && n[4] == "HUGEINT"@ && n[5] == "FLOAT"@ && n[6] == "DOUBLE"@);
    assert(width(a) is Some ==> n.contains(a));
    assert(width(b) is Some ==> n.contains(b));
}

/// A column that a file has with another type than is known of it gets the type that both
/// widen to; a column that was not known gets the type that it has; no other column changes.
pub proof fn law_merged_types(
    known: Map<Seq<char>, Seq<char>>,
    cols: Seq<(Seq<char>, Seq<char>)>,
    name: Seq<char>,
    t: Seq<char>,
)
    ensures
        ({
            let before = merge_all(known, cols);
            let after = merge_all(known, cols.push((name, t)));
            &&& after.dom() == before.dom().insert(name)
            &&& forall|n: Seq<char>| n != name && before.dom().contains(n) ==> #[trigger] after[n]
                == before[n]
            &&& !before.dom().contains(name) ==> after[name] == t
            &&& before.dom().contains(name) && before[name] == t ==> after[name] == t
            &&& before.dom().contains(name) && before[name] != t ==> after[name] == widened(
                normalized(before[name]),
                normalized(t),
            )
        }),
        merge_all(known, Seq::empty()) == known,
{
    assert(cols.push((name, t)).drop_last() =~= cols);
    let before = merge_all(known, cols);
    let after = merge_all(known, cols.push((name, t)));
    assert(after.dom() =~= before.dom().insert(name));
}

/// A type widened with itself stays what it is; which of two types comes first
/// does not matter, unless both hold other types; and numeric types widen to the
/// wider of the two.
pub proof fn law_widening(a: Seq<char>, b: Seq<char>)
    ensures
        widened(a, a) == a,
        !(is_nested(a) && is_nested(b)) ==> widened(a, b) == widened(b, a),
        width(a) is Some && width(b) is Some ==> width(widened(a, b)) is Some && width(
            widened(a, b),
        )->0 >= width(a)->0 && width(widened(a, b))->0 >= width(b)->0,
{
    reveal_strlit("TINYINT");
    reveal_strlit("SMALLINT");
    reveal_strlit("INTEGER");
    reveal_strlit("BIGINT");
    reveal_strlit("HUGEINT");
    reveal_strlit("FLOAT");
    reveal_strlit("DOUBLE");
}

/// A column and its type, as a file was found to have it.
#[derive(Debug)]
pub struct Column {
    pub name: String,
    pub duckdb_type: String,
}

pub open spec fn column_views(v: Seq<Column>) -> Seq<(Seq<char>, Seq<char>)> {
    Seq::new(v.len(), |i: int| (v[i].name@, v[i].duckdb_type@))
}

/// The types known so far, after a column with a type has been seen.
pub open spec fn merge_one(
    known: Map<Seq<char>, Seq<char>>,
    col: (Seq<char>, Seq<char>),
) -> Map<Seq<char>, Seq<char>> {
    if known.dom().contains(col.0) {
        if known[col.0] == col.1 {
            known
        } else {
            known.insert(col.0, widened(normalized(known[col.0]), normalized(col.1)))
        }
    } else {
        known.insert(col.0, col.1)
    }
}

/// The types known so far, after several columns have been seen.
pub open spec fn merge_all(
    known: Map<Seq<char>, Seq<char>>,
    cols: Seq<(Seq<char>, Seq<char>)>,
) -> Map<Seq<char>, Seq<char>>
    decreases cols.len(),
{
    if cols.len() == 0 {
        known
    } else {
        merge_one(merge_all(known, cols.drop_last()), cols.last())
    }
}

/// Takes the columns of one more file into the types of a dataset: a column of
/// which another type was known gets the type that holds both.
pub fn merge_columns(merged: &mut TextMap, cols: &Vec<Column>)
    requires
        old(merged).wf(),
    ensures
        final(merged).wf(),
        final(merged)@ == merge_all(old(merged)@, column_views(cols@)),
{
    let ghost before = merged@;
    let ghost all = column_views(cols@);
    let mut i: usize = 0;
    assert(all.take(0) =~= Seq::<(Seq<char>, Seq<char>)>::empty());
    while i < cols.len()
        invariant
            i <= cols@.len(),
            all == column_views(cols@),
            merged.wf(),
            merged@ == merge_all(before, all.take(i as int)),
        decreases cols@.len() - i,
    {
        proof {
            assert(all.take(i + 1).drop_last() =~= all.take(i as int));
            assert(all.take(i + 1).last() == all[i as int]);
        }
        match merged.get(cols[i].name.as_str()) {
            Some(existing) => {
                if !str_eq(existing.as_str(), cols[i].duckdb_type.as_str()) {
                    let wide = widen_type(existing.as_str(), cols[i].duckdb_type.as_str());
                    merged.insert(cols[i].name.clone(), wide);
                }
            },
            None => {
                merged.insert(cols[i].name.clone(), cols[i].duckdb_type.clone());
            },
        }
        i += 1;
    }
    assert(all.take(all.len() as int) =~= all);
}

/// Taking in columns never loses one.
pub proof fn law_merging_keeps_columns(
    known: Map<Seq<char>, Seq<char>>,
    cols: Seq<(Seq<char>, Seq<char>)>,
)
    ensures
        known.dom().subset_of(merge_all(known, cols).dom()),
        forall|i: int|
            0 <= i < cols.len() ==> merge_all(known, cols).dom().contains((#[trigger] cols[i]).0),
    decreases cols.len(),
{
    if cols.len() > 0 {
        law_merging_keeps_columns(known, cols.drop_last());
        assert forall|i: int| 0 <= i < cols.len() implies merge_all(known, cols).dom().contains(
            (#[trigger] cols[i]).0,
        ) by {
            if i < cols.len() - 1 {
                assert(cols.drop_last()[i] == cols[i]);
            }
        }
    }
}

/// A field of a schema that was read from a database type.
pub open spec fn field_of(name: Seq<char>, duckdb_type: Seq<char>) -> FieldView {
    FieldView {
        name,
        arrow_type: arrow_of(normalized(duckdb_type)),
        nullable: true,
        duckdb_type: Some(duckdb_type),
    }
}

fn make_field(name: String, duckdb_type: String) -> (r: FieldDef)
    ensures
        r@ == field_of(name@, duckdb_type@),
{
    let arrow_type = duckdb_to_arrow_type(duckdb_type.as_str());
    FieldDef { name, arrow_type, nullable: true, duckdb_type: Some(duckdb_type) }
}

/// The field of a column in the schema of a dataset: one column of the works,
/// whose keys differ from row to row, is text whatever its type.
pub open spec fn source_field(
    dataset: Seq<char>,
    name: Seq<char>,
    duckdb_type: Seq<char>,
) -> FieldView {
    let f = field_of(name, duckdb_type);
    if dataset == "works"@ && name == "abstract_inverted_index"@ {
        FieldView { arrow_type: "utf8"@, ..f }
    } else {
        f
    }
}

/// The schema of a dataset from the types that its files were found to have: one
/// field for each column, by name.
pub fn schema_doc_from_merged(
    dataset: &str,
    merged: &TextMap,
    generated_at_unix: i64,
) -> (r: SchemaDoc)
    requires
        merged.wf(),
    ensures
        r.dataset@ == dataset@,
        r.source@ == "source"@,
        r.generated_at_unix == generated_at_unix,
        forall|i: int, j: int|
            0 <= i < j < r.fields@.len() ==> text::text_lt(
                (#[trigger] r.fields@[i]).name@,
                (#[trigger] r.fields@[j]).name@,
            ),
        forall|i: int|
            0 <= i < r.fields@.len() ==> merged@.dom().contains((#[trigger] r.fields@[i]).name@)
                && r.fields@[i]@ == source_field(
                dataset@,
                r.fields@[i].name@,
                merged@[r.fields@[i].name@],
            ),
        forall|n: Seq<char>| #[trigger]
            merged@.dom().contains(n) ==> exists|i: int|
                0 <= i < r.fields@.len() && (#[trigger] r.fields@[i]).name@ == n,
{
    let keys = merged.sorted_keys();
    let mut fields: Vec<FieldDef> = Vec::new();
    let ghost names = text::texts(keys@);
    let works = str_eq(dataset, "works");
    let mut i: usize = 0;
    while i < keys.len()
        invariant
            i <= keys@.len(),
            merged.wf(),
            works == (dataset@ == "works"@),
            names == text::texts(keys@),
            forall|k: Seq<char>| #[trigger] names.contains(k) <==> merged@.dom().contains(k),
            fields@.len() == i,
            forall|k: int|
                0 <= k < i ==> (#[trigger] fields@[k]).name@ == names[k] && merged@.dom().contains(
                    names[k],
                ) && fields@[k]@ == source_field(dataset@, names[k], merged@[names[k]]),
        decreases keys@.len() - i,
    {
        assert(names[i as int] == keys@[i as int]@);
        assert(names.contains(names[i as int]));
        match merged.get(keys[i].as_str()) {
            Some(t) => {
                let mut f = make_field(keys[i].clone(), t);
                if works && str_eq(keys[i].as_str(), "abstract_inverted_index") {
                    f.arrow_type = "utf8".to_owned();
                }
                fields.push(f);
            },
            None => {
                proof {
                    assert(false);
                }
            },
        }
        i += 1;
    }
    proof {
        assert forall|n: Seq<char>| #[trigger] merged@.dom().contains(n) implies exists|k: int|
            0 <= k < fields@.len() && (#[trigger] fields@[k]).name@ == n by {
            assert(names.contains(n));
            let k = choose|k: int| 0 <= k < names.len() && names[k] == n;
            assert(fields@[k].name@ == n);
        }
        assert forall|a: int, b: int| 0 <= a < b < fields@.len() implies text::text_lt(
            (#[trigger] fields@[a]).name@,
            (#[trigger] fields@[b]).name@,
        ) by {
            assert(text::text_lt(names[a], names[b]));
        }
    }
    SchemaDoc {
        dataset: dataset.to_owned(),
        source: "source".to_owned(),
        generated_at_unix,
        fields,
    }
}

pub open spec fn fields_of(cols: Seq<(Seq<char>, Seq<char>)>) -> Seq<FieldView> {
    Seq::new(cols.len(), |i: int| field_of(cols[i].0, cols[i].1))
}

/// Whether `r` is `cols` as fields, sorted by name.
pub open spec fn is_sorted_fields_of(
    r: Seq<FieldDef>,
    cols: Seq<(Seq<char>, Seq<char>)>,
) -> bool {
    exists|raw: Seq<FieldDef>|
        field_views(raw) == fields_of(cols) && r == #[trigger] order::stable_sorted(raw)
}

fn sorted_fields(cols: &Vec<Column>) -> (r: Vec<FieldDef>)
    ensures
        is_sorted_fields_of(r@, column_views(cols@)),
{
    let mut raw: Vec<FieldDef> = Vec::new();
    let ghost all = fields_of(column_views(cols@));
    let mut i: usize = 0;
    assert(field_views(raw@) =~= all.take(0));
    while i < cols.len()
        invariant
            i <= cols@.len(),
            all == fields_of(column_views(cols@)),
            field_views(raw@) == all.take(i as int),
        decreases cols@.len() - i,
    {
        let ghost before = raw@;
        let f = make_field(cols[i].name.clone(), cols[i].duckdb_type.clone());
        let ghost fv = f@;
        raw.push(f);
        i += 1;
        assert(field_views(raw@) =~= field_views(before).push(fv));
        assert(all.take(i as int) =~= all.take(i - 1).push(all[i - 1]));
    }
    assert(all.take(i as int) =~= all);
    let out = stable_sort(&raw);
    assert(is_sorted_fields_of(out@, column_views(cols@)));
    out
}

/// The schema that the parquet files of a dataset have.
pub fn parquet_schema_doc(dataset: &str, cols: &Vec<Column>, generated_at_unix: i64) -> (r: SchemaDoc)
    ensures
        r.dataset@ == dataset@,
        r.source@ == "parquet"@,
        r.generated_at_unix == generated_at_unix,
        is_sorted_fields_of(r.fields@, column_views(cols@)),
{
    SchemaDoc {
        dataset: dataset.to_owned(),
        source: "parquet".to_owned(),
        generated_at_unix,
        fields: sorted_fields(cols),
    }
}

/// Why a cached schema cannot be used.
#[derive(Debug)]
pub enum SchemaCsvError {
    /// A row could not be read; the message says why.
    InvalidRow(String),
    MissingName,
    MissingType,
}

/// What a `SchemaCsvError` says.
pub ghost enum CsvFault {
    InvalidRow(Seq<char>),
    MissingName,
    MissingType,
}

impl SchemaCsvError {
    /// The error as a message.
    pub fn message(&self) -> (r: String)
        ensures
            r@ == (match *self {
                SchemaCsvError::InvalidRow(e) => "invalid row in unified_schema.csv: "@ + e@,
                SchemaCsvError::MissingName => "missing col_name in unified_schema.csv"@,
                SchemaCsvError::MissingType => "missing col_type in unified_schema.csv"@,
            }),
    {
        match self {
            SchemaCsvError::InvalidRow(e) => {
                let mut m = "invalid row in unified_schema.csv: ".to_owned();
                m.append(e.as_str());
                m
            },
            SchemaCsvError::MissingName => "missing col_name in unified_schema.csv".to_owned(),
            SchemaCsvError::MissingType => "missing col_type in unified_schema.csv".to_owned(),
        }
    }
}

/// The field of a record under the last column of this name, where the record
/// has one.
pub open spec fn cell(
    headers: Seq<Seq<char>>,
    record: Seq<Seq<char>>,
    name: Seq<char>,
    n: int,
) -> Option<Seq<char>>
    decreases n,
{
    if n <= 0 {
        None
    } else if n <= headers.len() && n <= record.len() && headers[n - 1] == name {
        Some(record[n - 1])
    } else {
        cell(headers, record, name, n - 1)
    }
}

/// What the rows of a schema file from row `i` on say: the columns, or what is
/// wrong with the first row that says nothing.
pub open spec fn schema_rows(
    headers: Result<Seq<Seq<char>>, Seq<char>>,
    records: Seq<Result<Seq<Seq<char>>, Seq<char>>>,
    i: int,
) -> Result<Seq<(Seq<char>, Seq<char>)>, CsvFault>
    decreases records.len() - i,
{
    match headers {
        Err(e) => Err(CsvFault::InvalidRow(e)),
        Ok(h) => if i >= records.len() {
            Ok(Seq::empty())
        } else {
            match records[i] {
                Err(e) => Err(CsvFault::InvalidRow(e)),
                Ok(rec) => match (cell(h, rec, "col_name"@, h.len() as int), cell(
                    h,
                    rec,
                    "col_type"@,
                    h.len() as int,
                )) {
                    (None, _) => Err(CsvFault::MissingName),
                    (_, None) => Err(CsvFault::MissingType),
                    (Some(n), Some(t)) => match schema_rows(headers, records, i + 1) {
                        Ok(rest) => Ok(seq![(n, t)] + rest),
                        Err(e) => Err(e),
                    },
                },
            }
        },
    }
}

pub open spec fn csv_error_view(e: SchemaCsvError) -> CsvFault {
    match e {
        SchemaCsvError::InvalidRow(m) => CsvFault::InvalidRow(m@),
        SchemaCsvError::MissingName => CsvFault::MissingName,
        SchemaCsvError::MissingType => CsvFault::MissingType,
    }
}

fn cell_of(headers: &Vec<String>, record: &Vec<String>, name: &str) -> (r: Option<String>)
    ensures
        report::opt(r) == cell(
            text::texts(headers@),
            text::texts(record@),
            name@,
            headers@.len() as int,
        ),
{
    let mut n: usize = headers.len();
    while n > 0
        invariant
            n <= headers@.len(),
            cell(text::texts(headers@), text::texts(record@), name@, headers@.len() as int) == cell(
                text::texts(headers@),
                text::texts(record@),
                name@,
                n as int,
            ),
        decreases n,
    {
        assert(text::texts(headers@)[n - 1] == headers@[n - 1]@);
        assert(n <= record@.len() ==> text::texts(record@)[n - 1] == record@[n - 1]@);
        if n <= record.len() && str_eq(headers[n - 1].as_str(), name) {
            return Some(record[n - 1].clone());
        }
        n -= 1;
    }
    None
}

/// The columns that a table of a cached schema lists.
pub fn schema_table_columns(table: &csvfile::CsvTable) -> (r: Result<Vec<Column>, SchemaCsvError>)
    ensures
        match r {
            Ok(cols) => schema_rows(table@.headers, table@.records, 0) == Ok::<
                Seq<(Seq<char>, Seq<char>)>,
                CsvFault,
            >(column_views(cols@)),
            Err(e) => schema_rows(table@.headers, table@.records, 0) == Err::<
                Seq<(Seq<char>, Seq<char>)>,
                CsvFault,
            >(csv_error_view(e)),
        },
{
    let headers: &Vec<String> = match &table.headers {
        Ok(h) => h,
        Err(e) => {
            return Err(SchemaCsvError::InvalidRow(e.clone()));
        },
    };
    let ghost h = text::texts(headers@);
    let ghost recs = table@.records;
    let ghost hv = table@.headers;
    assert(hv == Ok::<Seq<Seq<char>>, Seq<char>>(h));
    let mut cols: Vec<Column> = Vec::new();
    let mut i: usize = 0;
    assert(column_views(cols@) =~= Seq::<(Seq<char>, Seq<char>)>::empty());
    proof {
        if schema_rows(hv, recs, 0) is Ok {
            assert(column_views(cols@) + schema_rows(hv, recs, 0)->Ok_0 =~= schema_rows(
                hv,
                recs,
                0,
            )->Ok_0);
        }
    }
    while i < table.records.len()
        invariant
            i <= table.records@.len(),
            hv == table@.headers,
            recs == table@.records,
            table.headers == Ok::<Vec<String>, String>(*headers),
            h == text::texts(headers@),
            hv == Ok::<Seq<Seq<char>>, Seq<char>>(h),
            match schema_rows(hv, recs, i as int) {
                Ok(rest) => schema_rows(hv, recs, 0) == Ok::<
                    Seq<(Seq<char>, Seq<char>)>,
                    CsvFault,
                >(column_views(cols@) + rest),
                Err(e) => schema_rows(hv, recs, 0) == Err::<
                    Seq<(Seq<char>, Seq<char>)>,
                    CsvFault,
                >(e),
            },
        decreases table.records@.len() - i,
    {
        assert(recs[i as int] == csvfile::line_view(table.records@[i as int]));
        match &table.records[i] {
            Err(e) => {
                return Err(SchemaCsvError::InvalidRow(e.clone()));
            },
            Ok(rec) => {
                let name = match cell_of(headers, rec, "col_name") {
                    Some(n) => n,
                    None => {
                        return Err(SchemaCsvError::MissingName);
                    },
                };
                let duckdb_type = match cell_of(headers, rec, "col_type") {
                    Some(t) => t,
                    None => {
                        return Err(SchemaCsvError::MissingType);
                    },
                };
                let ghost before = cols@;
                let ghost pair = (name@, duckdb_type@);
                cols.push(Column { name, duckdb_type });
                proof {
                    assert(column_views(cols@) =~= column_views(before).push(pair));
                    let rest = schema_rows(hv, recs, i + 1);
                    if rest is Ok {
                        assert(column_views(before) + (seq![pair] + rest->Ok_0) =~= column_views(
                            cols@,
                        ) + rest->Ok_0);
                    }
                }
            },
        }
        i += 1;
    }
    assert(column_views(cols@) + Seq::<(Seq<char>, Seq<char>)>::empty() =~= column_views(cols@));
    Ok(cols)
}

/// The schema of a dataset from a table of a cached schema.
pub fn schema_doc_from_table(
    dataset: &str,
    table: &csvfile::CsvTable,
    generated_at_unix: i64,
) -> (r: Result<SchemaDoc, SchemaCsvError>)
    ensures
        match r {
            Ok(doc) => {
                &&& schema_rows(table@.headers, table@.records, 0) matches Ok(cols)
                    && is_sorted_fields_of(doc.fields@, cols)
                &&& doc.dataset@ == dataset@
                &&& doc.source@ == "source"@
                &&& doc.generated_at_unix == generated_at_unix
            },
            Err(e) => schema_rows(table@.headers, table@.records, 0) == Err::<
                Seq<(Seq<char>, Seq<char>)>,
                CsvFault,
            >(csv_error_view(e)),
        },
{
    match schema_table_columns(table) {
        Ok(cols) => Ok(
            SchemaDoc {
                dataset: dataset.to_owned(),
                source: "source".to_owned(),
                generated_at_unix,
                fields: sorted_fields(&cols),
            },
        ),
        Err(e) => Err(e),
    }
}

/// The schema of a dataset from the bytes of its cache file.
pub fn read_unified_schema_csv(
    dataset: &str,
    data: &[u8],
    generated_at_unix: i64,
) -> (r: Result<SchemaDoc, SchemaCsvError>)
    ensures
        ({
            let t = csvfile::table_of(data@);
            match r {
                Ok(doc) => {
                    &&& schema_rows(t.headers, t.records, 0) matches Ok(cols)
                        && is_sorted_fields_of(doc.fields@, cols)
                    &&& doc.dataset@ == dataset@
                    &&& doc.source@ == "source"@
                    &&& doc.generated_at_unix == generated_at_unix
                },
                Err(e) => schema_rows(t.headers, t.records, 0) == Err::<
                    Seq<(Seq<char>, Seq<char>)>,
                    CsvFault,
                >(csv_error_view(e)),
            }
        }),
{
    let table = read_table(data);
    schema_doc_from_table(dataset, &table, generated_at_unix)
}

/// The database type of a field: the one it was read with, else the one for its
/// Arrow type.
pub open spec fn type_of(f: FieldView) -> Seq<char> {
    match f.duckdb_type {
        Some(t) => t,
        None => duckdb_of(f.arrow_type),
    }
}

fn type_of_field(f: &FieldDef) -> (r: String)
    ensures
        r@ == type_of(f@),
{
    match &f.duckdb_type {
        Some(t) => t.clone(),
        None => arrow_to_duckdb_type(f.arrow_type.as_str()),
    }
}

/// The rows of a schema file: its header and a row for each field.
pub open spec fn schema_pairs(fields: Seq<FieldView>) -> Seq<(Seq<char>, Seq<char>)> {
    seq![("col_name"@, "col_type"@)] + Seq::new(
        fields.len(),
        |i: int| (fields[i].name, type_of(fields[i])),
    )
}

/// The text of the cache file of a schema.
pub fn write_unified_schema_csv(fields: &Vec<FieldDef>) -> (r: String)
    ensures
        r@ == csvfile::pair_lines(schema_pairs(field_views(fields@))),
{
    let ghost pairs = schema_pairs(field_views(fields@));
    let mut out = write_pair("col_name", "col_type");
    proof {
        reveal_with_fuel(csvfile::pair_lines, 2);
        assert(pairs.take(1).drop_last() =~= Seq::<(Seq<char>, Seq<char>)>::empty());
        assert(out@ =~= csvfile::pair_lines(pairs.take(1)));
    }
    let mut i: usize = 0;
    while i < fields.len()
        invariant
            i <= fields@.len(),
            pairs == schema_pairs(field_views(fields@)),
            out@ == csvfile::pair_lines(pairs.take(i + 1)),
        decreases fields@.len() - i,
    {
        let t = type_of_field(&fields[i]);
        let line = write_pair(fields[i].name.as_str(), t.as_str());
        out.append(line.as_str());
        proof {
            assert(pairs.take(i + 2).drop_last() =~= pairs.take(i + 1));
            assert(pairs.take(i + 2).last() == (fields@[i as int].name@, t@));
        }
        i += 1;
    }
    assert(pairs.take(pairs.len() as int) =~= pairs);
    out
}

/// The bytes of a text.
pub open spec fn utf8(s: Seq<char>) -> Seq<u8> {
    vstd::utf8::encode_utf8(s)
}

proof fn lemma_pair_rows(pairs: Seq<(Seq<char>, Seq<char>)>, i: int)
    requires
        pairs.len() > 0,
        pairs[0] == ("col_name"@, "col_type"@),
        0 <= i < pairs.len(),
    ensures
        schema_rows(
            csvfile::pair_table(pairs).headers,
            csvfile::pair_table(pairs).records,
            i,
        ) == Ok::<Seq<(Seq<char>, Seq<char>)>, CsvFault>(pairs.skip(i + 1)),
    decreases pairs.len() - i,
{
    let t = csvfile::pair_table(pairs);
    reveal_strlit("col_name");
    reveal_strlit("col_type");
    assert("col_name"@[4] != "col_type"@[4]);
    if i + 1 >= pairs.len() {
        assert(pairs.skip(i + 1) =~= Seq::<(Seq<char>, Seq<char>)>::empty());
    } else {
        lemma_pair_rows(pairs, i + 1);
        let h = t.headers->Ok_0;
        let rec = t.records[i]->Ok_0;
        reveal_with_fuel(cell, 3);
        assert(h[0] == "col_name"@ && h[1] == "col_type"@);
        assert(cell(h, rec, "col_name"@, 2) == Some(pairs[i + 1].0));
        assert(cell(h, rec, "col_type"@, 2) == Some(pairs[i + 1].1));
        assert(pairs.skip(i + 1) =~= seq![pairs[i + 1]] + pairs.skip(i + 2));
    }
}

/// Reading back the cache file of a schema gives the columns that were written,
/// with their types.
pub fn reread_schema(doc: &SchemaDoc, now: i64) -> (r: Result<SchemaDoc, SchemaCsvError>)
    ensures
        r matches Ok(back) && back.dataset@ == doc.dataset@ && is_sorted_fields_of(
            back.fields@,
            schema_pairs(field_views(doc.fields@)).skip(1),
        ),
{
    let text = write_unified_schema_csv(&doc.fields);
    let bytes = text.as_str().as_bytes();
    let table = read_table(bytes);
    proof {
        let pairs = schema_pairs(field_views(doc.fields@));
        reveal_strlit("col_name");
        assert("col_name"@[0] == 'c');
        if text::has_prefix(pairs[0].0, seq!['\u{feff}']) {
            assert("col_name"@.take(1)[0] == '\u{feff}');
        }
        assert(bytes@ == utf8(csvfile::pair_lines(pairs)));
        assert(table@ == csvfile::pair_table(pairs));
        lemma_pair_rows(pairs, 0);
    }
    schema_doc_from_table(doc.dataset.as_str(), &table, now)
}

pub open spec fn column_entry(f: FieldView) -> Seq<char> {
    "'"@ + f.name + "': '"@ + text::replace_char(type_of(f), '\'', "''"@) + "'"@
}

pub open spec fn column_entries(fields: Seq<FieldView>) -> Seq<Seq<char>> {
    Seq::new(fields.len(), |i: int| column_entry(fields[i]))
}

/// The columns of a schema as the database takes them when it reads JSON.
pub fn to_duckdb_columns_clause(fields: &Vec<FieldDef>) -> (r: String)
    ensures
        r@ == "{"@ + text::join(column_entries(field_views(fields@)), ", "@) + "}"@,
{
    broadcast use text::lemma_texts_push;

    let mut entries: Vec<String> = Vec::new();
    let ghost all = column_entries(field_views(fields@));
    let mut i: usize = 0;
    assert(text::texts(entries@) =~= all.take(0));
    while i < fields.len()
        invariant
            i <= fields@.len(),
            all == column_entries(field_views(fields@)),
            text::texts(entries@) == all.take(i as int),
        decreases fields@.len() - i,
    {
        let t = type_of_field(&fields[i]);
        let q = replaced(t.as_str(), '\'', "''");
        let mut e = "'".to_owned();
        e.append(fields[i].name.as_str());
        e.append("': '");
        e.append(q.as_str());
        e.append("'");
        assert(e@ == all[i as int]);
        entries.push(e);
        i += 1;
        assert(all.take(i as int) =~= all.take(i - 1).push(all[i - 1]));
    }
    assert(all.take(i as int) =~= all);
    let mut out = "{".to_owned();
    let list = joined(&entries, ", ");
    out.append(list.as_str());
    out.append("}");
    out
}

pub open spec fn yes_no(b: bool) -> Seq<char> {
    if b {
        "true"@
    } else {
        "false"@
    }
}

/// The lines of a schema table for the first `n` fields.
pub open spec fn table_lines(fields: Seq<FieldView>, n: int) -> Seq<char>
    decreases n,
{
    if n <= 0 {
        Seq::empty()
    } else {
        table_lines(fields, n - 1) + fields[n - 1].name + "\t"@ + fields[n - 1].arrow_type + "\t"@
            + yes_no(fields[n - 1].nullable) + "\n"@
    }
}

/// A schema as a table for people to read.
pub fn render_table(schema: &SchemaDoc) -> (r: String)
    ensures
        r@ == "dataset: "@ + schema.dataset@ + "\n"@ + "source: "@ + schema.source@ + "\n"@
            + "\nname\ttype\tnullable\n"@ + table_lines(
            field_views(schema.fields@),
            schema.fields@.len() as int,
        ),
{
    let mut out = "dataset: ".to_owned();
    out.append(schema.dataset.as_str());
    out.append("\n");
    out.append("source: ");
    out.append(schema.source.as_str());
    out.append("\n");
    out.append("\nname\ttype\tnullable\n");
    let ghost head = out@;
    let ghost fields = field_views(schema.fields@);
    let mut body = String::new();
    let mut i: usize = 0;
    while i < schema.fields.len()
        invariant
            i <= schema.fields@.len(),
            fields == field_views(schema.fields@),
            body@ == table_lines(fields, i as int),
        decreases schema.fields@.len() - i,
    {
        body.append(schema.fields[i].name.as_str());
        body.append("\t");
        body.append(schema.fields[i].arrow_type.as_str());
        body.append("\t");
        if schema.fields[i].nullable {
            body.append("true");
        } else {
            body.append("false");
        }
        body.append("\n");
        i += 1;
    }
    out.append(body.as_str());
    out
}

/// The types of the columns by name; of several columns of one name, the last.
pub open spec fn type_map(fields: Seq<FieldView>, n: int) -> Map<Seq<char>, Seq<char>>
    decreases n,
{
    if n <= 0 {
        Map::empty()
    } else {
        type_map(fields, n - 1).insert(fields[n - 1].name, fields[n - 1].arrow_type)
    }
}

pub open spec fn types_of(fields: Seq<FieldDef>) -> Map<Seq<char>, Seq<char>> {
    type_map(field_views(fields), fields.len() as int)
}

fn type_map_of(fields: &Vec<FieldDef>) -> (r: TextMap)
    ensures
        r.wf(),
        r@ == types_of(fields@),
{
    let mut m = TextMap::new();
    let mut i: usize = 0;
    while i < fields.len()
        invariant
            i <= fields@.len(),
            m.wf(),
            m@ == type_map(field_views(fields@), i as int),
        decreases fields@.len() - i,
    {
        m.insert(fields[i].name.clone(), fields[i].arrow_type.clone());
        i += 1;
    }
    m
}

/// A column whose type differs between two schemas.
#[derive(Debug)]
pub struct ChangedType {
    pub name: String,
    pub left_type: String,
    pub right_type: String,
}

/// How two schemas differ.
#[derive(Debug)]
pub struct SchemaDiff {
    pub dataset: String,
    pub left_source: String,
    pub right_source: String,
    /// Columns of the right schema alone.
    pub added: Vec<String>,
    /// Columns of the left schema alone.
    pub removed: Vec<String>,
    pub changed_types: Vec<ChangedType>,
}

pub open spec fn changed_names(v: Seq<ChangedType>) -> Seq<Seq<char>> {
    Seq::new(v.len(), |i: int| v[i].name@)
}

/// Whether a diff says how the types `l` and `r` differ: it lists, by name, the
/// columns of one alone and those of both with different types.
pub open spec fn is_diff(
    d: SchemaDiff,
    l: Map<Seq<char>, Seq<char>>,
    r: Map<Seq<char>, Seq<char>>,
) -> bool {
    &&& order::strictly_ascending(text::texts(d.added@))
    &&& order::strictly_ascending(text::texts(d.removed@))
    &&& order::strictly_ascending(changed_names(d.changed_types@))
    &&& forall|n: Seq<char>| #[trigger]
        text::texts(d.added@).contains(n) <==> r.dom().contains(n) && !l.dom().contains(n)
    &&& forall|n: Seq<char>| #[trigger]
        text::texts(d.removed@).contains(n) <==> l.dom().contains(n) && !r.dom().contains(n)
    &&& forall|n: Seq<char>| #[trigger]
        changed_names(d.changed_types@).contains(n) <==> l.dom().contains(n) && r.dom().contains(n)
            && l[n] != r[n]
    &&& forall|i: int|
        0 <= i < d.changed_types@.len() ==> (#[trigger] d.changed_types@[i]).left_type@
            == l[d.changed_types@[i].name@] && d.changed_types@[i].right_type@
            == r[d.changed_types@[i].name@]
}

/// The keys of `a` that `b` does not have, in ascending order.
fn only_in(a: &TextMap, b: &TextMap) -> (r: Vec<String>)
    requires
        a.wf(),
        b.wf(),
    ensures
        order::strictly_ascending(text::texts(r@)),
        forall|n: Seq<char>| #[trigger]
            text::texts(r@).contains(n) <==> a@.dom().contains(n) && !b@.dom().contains(n),
{
    broadcast use text::lemma_texts_push;

    let keys = a.sorted_keys();
    let ghost names = text::texts(keys@);
    let mut out: Vec<String> = Vec::new();
    let mut i: usize = 0;
    while i < keys.len()
        invariant
            i <= keys@.len(),
            b.wf(),
            names == text::texts(keys@),
            order::strictly_ascending(names),
            order::strictly_ascending(text::texts(out@)),
            forall|k: int|
                0 <= k < out@.len() ==> names.take(i as int).contains(
                    #[trigger] text::texts(out@)[k],
                ) && !b@.dom().contains(text::texts(out@)[k]),
            forall|k: int|
                0 <= k < i && !b@.dom().contains(#[trigger] names[k]) ==> text::texts(
                    out@,
                ).contains(names[k]),
        decreases keys@.len() - i,
    {
        let ghost o = text::texts(out@);
        assert(names[i as int] == keys@[i as int]@);
        let lacks = !b.contains_key(keys[i].as_str());
        proof {
            assert forall|k: int| 0 <= k < o.len() implies text::text_lt(
                #[trigger] o[k],
                names[i as int],
            ) by {
                assert(names.take(i as int).contains(o[k]));
                let m = choose|m: int| 0 <= m < i && names.take(i as int)[m] == o[k];
                assert(text::text_lt(names[m], names[i as int]));
            }
        }
        if lacks {
            out.push(keys[i].clone());
            assert(text::texts(out@) =~= o.push(names[i as int]));
        }
        proof {
            let n = text::texts(out@);
            assert forall|k: int| 0 <= k < n.len() implies names.take(i + 1).contains(
                #[trigger] n[k],
            ) && !b@.dom().contains(n[k]) by {
                if k < o.len() {
                    assert(n[k] == o[k]);
                    assert(names.take(i as int).contains(o[k]));
                    let m = choose|m: int| 0 <= m < i && names.take(i as int)[m] == o[k];
                    assert(names.take(i + 1)[m] == o[k]);
                } else {
                    assert(names.take(i + 1)[i as int] == n[k]);
                }
            }
            assert forall|k: int|
                0 <= k < i + 1 && !b@.dom().contains(#[trigger] names[k]) implies n.contains(
                names[k],
            ) by {
                if k < i {
                    assert(o.contains(names[k]));
                    let m = choose|m: int| 0 <= m < o.len() && o[m] == names[k];
                    assert(n[m] == names[k]);
                } else {
                    assert(n[n.len() - 1] == names[k]);
                }
            }
        }
        i += 1;
    }
    proof {
        let r = text::texts(out@);
        assert forall|n: Seq<char>| #[trigger] r.contains(n) <==> a@.dom().contains(n)
            && !b@.dom().contains(n) by {
            if r.contains(n) {
                let k = choose|k: int| 0 <= k < r.len() && r[k] == n;
                assert(names.take(names.len() as int).contains(r[k]));
                let m = choose|m: int| 0 <= m < names.len() && names.take(names.len() as int)[m]
                    == r[k];
                assert(names[m] == n);
                assert(names.contains(n));
            }
            if a@.dom().contains(n) && !b@.dom().contains(n) {
                assert(names.contains(n));
                let m = choose|m: int| 0 <= m < names.len() && names[m] == n;
                assert(!b@.dom().contains(names[m]));
            }
        }
    }
    out
}

/// The keys that `a` and `b` both have, with different values, in ascending order.
fn changed_between(a: &TextMap, b: &TextMap) -> (r: Vec<ChangedType>)
    requires
        a.wf(),
        b.wf(),
    ensures
        order::strictly_ascending(changed_names(r@)),
        forall|n: Seq<char>| #[trigger]
            changed_names(r@).contains(n) <==> a@.dom().contains(n) && b@.dom().contains(n) && a@[n]
                != b@[n],
        forall|i: int|
            0 <= i < r@.len() ==> (#[trigger] r@[i]).left_type@ == a@[r@[i].name@]
                && r@[i].right_type@ == b@[r@[i].name@],
{
    let keys = a.sorted_keys();
    let ghost names = text::texts(keys@);
    let mut out: Vec<ChangedType> = Vec::new();
    let mut i: usize = 0;
    while i < keys.len()
        invariant
            i <= keys@.len(),
            a.wf(),
            b.wf(),
            names == text::texts(keys@),
            forall|k: Seq<char>| #[trigger] names.contains(k) <==> a@.dom().contains(k),
            order::strictly_ascending(names),
            order::strictly_ascending(changed_names(out@)),
            forall|k: int|
                0 <= k < out@.len() ==> names.take(i as int).contains(
                    #[trigger] changed_names(out@)[k],
                ) && b@.dom().contains(changed_names(out@)[k]) && a@[changed_names(out@)[k]]
                    != b@[changed_names(out@)[k]],
            forall|k: int|
                0 <= k < i && b@.dom().contains(#[trigger] names[k]) && a@[names[k]]
                    != b@[names[k]] ==> changed_names(out@).contains(names[k]),
            forall|k: int|
                0 <= k < out@.len() ==> (#[trigger] out@[k]).left_type@ == a@[out@[k].name@]
                    && out@[k].right_type@ == b@[out@[k].name@],
        decreases keys@.len() - i,
    {
        let ghost o = changed_names(out@);
        let ghost o0 = out@;
        assert(names[i as int] == keys@[i as int]@);
        assert(names.contains(names[i as int]));
        proof {
            assert forall|k: int| 0 <= k < o.len() implies text::text_lt(
                #[trigger] o[k],
                names[i as int],
            ) by {
                assert(names.take(i as int).contains(o[k]));
                let m = choose|m: int| 0 <= m < i && names.take(i as int)[m] == o[k];
                assert(text::text_lt(names[m], names[i as int]));
            }
        }
        if let (Some(x), Some(y)) = (a.get(keys[i].as_str()), b.get(keys[i].as_str())) {
            if !str_eq(x.as_str(), y.as_str()) {
                out.push(ChangedType { name: keys[i].clone(), left_type: x, right_type: y });
                assert(changed_names(out@) =~= o.push(names[i as int]));
            }
        }
        proof {
            let n = changed_names(out@);
            assert forall|k: int| 0 <= k < n.len() implies names.take(i + 1).contains(
                #[trigger] n[k],
            ) && b@.dom().contains(n[k]) && a@[n[k]] != b@[n[k]] by {
                if k < o.len() {
                    assert(n[k] == o[k]);
                    assert(names.take(i as int).contains(o[k]));
                    let m = choose|m: int| 0 <= m < i && names.take(i as int)[m] == o[k];
                    assert(names.take(i + 1)[m] == o[k]);
                } else {
                    assert(names.take(i + 1)[i as int] == n[k]);
                }
            }
            assert forall|k: int|
                0 <= k < i + 1 && b@.dom().contains(#[trigger] names[k]) && a@[names[k]]
                    != b@[names[k]] implies n.contains(names[k]) by {
                if k < i {
                    assert(o.contains(names[k]));
                    let m = choose|m: int| 0 <= m < o.len() && o[m] == names[k];
                    assert(n[m] == names[k]);
                } else {
                    assert(n[n.len() - 1] == names[k]);
                }
            }
        }
        i += 1;
    }
    proof {
        let r = changed_names(out@);
        assert forall|n: Seq<char>| #[trigger] r.contains(n) <==> a@.dom().contains(n)
            && b@.dom().contains(n) && a@[n] != b@[n] by {
            if r.contains(n) {
                let k = choose|k: int| 0 <= k < r.len() && r[k] == n;
                assert(names.take(names.len() as int).contains(r[k]));
                let m = choose|m: int| 0 <= m < names.len() && names.take(names.len() as int)[m]
                    == r[k];
                assert(names[m] == n);
                assert(names.contains(n));
            }
            if a@.dom().contains(n) && b@.dom().contains(n) && a@[n] != b@[n] {
                assert(names.contains(n));
                let m = choose|m: int| 0 <= m < names.len() && names[m] == n;
                assert(b@.dom().contains(names[m]));
            }
        }
    }
    out
}

/// How two schemas differ.
pub fn schema_diff(left: &SchemaDoc, right: &SchemaDoc) -> (r: SchemaDiff)
    ensures
        r.dataset@ == left.dataset@,
        r.left_source@ == left.source@,
        r.right_source@ == right.source@,
        is_diff(r, types_of(left.fields@), types_of(right.fields@)),
{
    let l = type_map_of(&left.fields);
    let m = type_map_of(&right.fields);
    SchemaDiff {
        dataset: left.dataset.clone(),
        left_source: left.source.clone(),
        right_source: right.source.clone(),
        added: only_in(&m, &l),
        removed: only_in(&l, &m),
        changed_types: changed_between(&l, &m),
    }
}

impl SchemaDiff {
    /// Whether nothing differs.
    pub fn is_empty(&self) -> (r: bool)
        ensures
            r == (self.added@.len() + self.removed@.len() + self.changed_types@.len() == 0),
    {
        self.added.len() == 0 && self.removed.len() == 0 && self.changed_types.len() == 0
    }

    /// The diff as a table for people to read.
    pub fn render_table(&self) -> (r: String)
        ensures
            r@ == "dataset: "@ + self.dataset@ + "\nleft: "@ + self.left_source@ + "\nright: "@
                + self.right_source@ + "\n"@ + "added: "@ + text::decimal(self.added@.len())
                + "\nremoved: "@ + text::decimal(self.removed@.len()) + "\nchanged_types: "@
                + text::decimal(self.changed_types@.len()) + "\n"@,
    {
        let mut s = "dataset: ".to_owned();
        s.append(self.dataset.as_str());
        s.append("\nleft: ");
        s.append(self.left_source.as_str());
        s.append("\nright: ");
        s.append(self.right_source.as_str());
        s.append("\n");
        s.append("added: ");
        text::push_decimal(&mut s, self.added.len() as u128);
        s.append("\nremoved: ");
        text::push_decimal(&mut s, self.removed.len() as u128);
        s.append("\nchanged_types: ");
        text::push_decimal(&mut s, self.changed_types.len() as u128);
        s.append("\n");
        s
    }
}

/// Nothing differs between two schemas exactly where they give the same columns
/// the same types.
pub proof fn law_empty_diff_means_equal_types(
    d: SchemaDiff,
    l: Map<Seq<char>, Seq<char>>,
    r: Map<Seq<char>, Seq<char>>,
)
    requires
        is_diff(d, l, r),
    ensures
        d.added@.len() + d.removed@.len() + d.changed_types@.len() == 0 <==> l == r,
{
    let a = text::texts(d.added@);
    let b = text::texts(d.removed@);
    let c = changed_names(d.changed_types@);
    if d.added@.len() + d.removed@.len() + d.changed_types@.len() == 0 {
        assert forall|n: Seq<char>| l.dom().contains(n) <==> r.dom().contains(n) by {
            assert(!a.contains(n));
            assert(!b.contains(n));
        }
        assert forall|n: Seq<char>| l.dom().contains(n) implies l[n] == r[n] by {
            assert(!c.contains(n));
        }
        assert(l =~= r);
    }
    if l == r {
        if d.added@.len() > 0 {
            assert(a.contains(a[0]));
        }
        if d.removed@.len() > 0 {
            assert(b.contains(b[0]));
        }
        if d.changed_types@.len() > 0 {
            assert(c.contains(c[0]));
        }
    }
}

/// How many files of `n` are sampled, and how far apart: all of them where no
/// sample size is set or the files are no more than that.
pub open spec fn sample_step(n: int, sample_size: int) -> int {
    if sample_size == 0 || n <= sample_size {
        1
    } else {
        n / sample_size
    }
}

pub open spec fn sample_len(n: int, sample_size: int) -> int {
    if sample_size == 0 || n <= sample_size {
        n
    } else {
        sample_size
    }
}

/// Which of `n` files a schema is inferred from: evenly spread over the list.
pub fn sample_indices(n: usize, sample_size: usize) -> (r: Vec<usize>)
    ensures
        r@.len() == sample_len(n as int, sample_size as int),
        forall|i: int|
            0 <= i < r@.len() ==> #[trigger] r@[i] == i * sample_step(n as int, sample_size as int)
                && r@[i] < n,
{
    let (step, count): (usize, usize) = if sample_size == 0 || n <= sample_size {
        (1, n)
    } else {
        (n / sample_size, sample_size)
    };
    proof {
        if !(sample_size == 0 || n <= sample_size) {
            vstd::arithmetic::div_mod::lemma_fundamental_div_mod(n as int, sample_size as int);
            vstd::arithmetic::div_mod::lemma_div_is_ordered_by_denominator(
                n as int,
                1,
                sample_size as int,
            );
            assert(n as int / sample_size as int >= 1) by (nonlinear_arith)
                requires
                    n > sample_size,
                    sample_size > 0,
            ;
            assert(count * step <= n) by (nonlinear_arith)
                requires
                    n as int == sample_size as int * step as int + n as int % sample_size as int,
                    n as int % sample_size as int >= 0,
                    count == sample_size,
            ;
        } else {
            assert(count * step == n);
        }
    }
    let mut out: Vec<usize> = Vec::new();
    let mut i: usize = 0;
    let mut at: usize = 0;
    while i < count
        invariant
            i <= count,
            step >= 1,
            count * step <= n,
            step == sample_step(n as int, sample_size as int),
            count == sample_len(n as int, sample_size as int),
            at == i * step,
            out@.len() == i,
            forall|k: int|
                0 <= k < i ==> #[trigger] out@[k] == k * sample_step(n as int, sample_size as int)
                    && out@[k] < n,
        decreases count - i,
    {
        proof {
            assert((i + 1) * step <= count * step) by (nonlinear_arith)
                requires
                    i + 1 <= count,
                    step >= 1,
            ;
            assert((i + 1) * step == i * step + step) by (nonlinear_arith);
        }
        out.push(at);
        at = at + step;
        i += 1;
    }
    out
}

/// Whether what was merged so far is written down after item `i` of `total`.
pub fn is_checkpoint(i: usize, total: usize, flush_every: usize) -> (r: bool)
    requires
        i < total,
    ensures
        r == ((i + 1) % (if flush_every >= 1 { flush_every as int } else { 1 }) == 0 || i + 1
            == total),
{
    let every: usize = if flush_every >= 1 {
        flush_every
    } else {
        1
    };
    (i + 1) % every == 0 || i + 1 == total
}

/// Where a schema is asked for.
#[derive(Clone, Copy, Debug, PartialEq, Eq, Structural)]
pub enum SchemaFrom {
    Auto,
    Source,
    Cache,
    Parquet,
}

/// How a schema is printed.
#[derive(Clone, Copy, Debug, PartialEq, Eq, Structural)]
pub enum SchemaFormat {
    Table,
    Json,
    Yaml,
    ArrowR,
}

/// Where a schema is taken from.
#[derive(Clone, Copy, Debug, PartialEq, Eq, Structural)]
pub enum SchemaChoice {
    /// From the source files, or from their cache.
    Source,
    /// From the cached CSV file at this place among the candidates.
    Csv(usize),
    /// From the cached JSON file at this place among the candidates.
    Json(usize),
    /// From the parquet files, or from their cache.
    Parquet,
    /// There is no cache to take it from.
    NoCache,
}

/// The first flag that is set, at position `i` or later.
pub open spec fn first_set(flags: Seq<bool>, i: int) -> Option<int>
    decreases flags.len() - i,
{
    if i < 0 || i >= flags.len() {
        None
    } else if flags[i] {
        Some(i)
    } else {
        first_set(flags, i + 1)
    }
}

/// The position of the first flag that is set.
pub fn find_first_set(flags: &Vec<bool>) -> (r: Option<usize>)
    ensures
        match r {
            Some(i) => first_set(flags@, 0) == Some(i as int),
            None => first_set(flags@, 0) is None,
        },
{
    let mut i: usize = 0;
    while i < flags.len()
        invariant
            i <= flags@.len(),
            first_set(flags@, 0) == first_set(flags@, i as int),
        decreases flags@.len() - i,
    {
        if flags[i] {
            return Some(i);
        }
        i += 1;
    }
    None
}

/// Where the schema of a dataset is taken from, by what is asked for, whether
/// there are source files, and which cache files there are.
pub fn schema_choice(
    from: SchemaFrom,
    source_exists: bool,
    csv_exists: &Vec<bool>,
    json_exists: &Vec<bool>,
) -> (r: SchemaChoice)
    ensures
        ({
            let cached = match first_set(csv_exists@, 0) {
                Some(i) => Some(SchemaChoice::Csv(i as usize)),
                None => match first_set(json_exists@, 0) {
                    Some(i) => Some(SchemaChoice::Json(i as usize)),
                    None => None,
                },
            };
            r == (match from {
                SchemaFrom::Source => SchemaChoice::Source,
                SchemaFrom::Parquet => SchemaChoice::Parquet,
                SchemaFrom::Cache => match cached {
                    Some(c) => c,
                    None => SchemaChoice::NoCache,
                },
                SchemaFrom::Auto => if source_exists {
                    SchemaChoice::Source
                } else {
                    match cached {
                        Some(c) => c,
                        None => SchemaChoice::Parquet,
                    }
                },
            })
        }),
{
    match from {
        SchemaFrom::Source => {
            return SchemaChoice::Source;
        },
        SchemaFrom::Parquet => {
            return SchemaChoice::Parquet;
        },
        _ => {},
    }
    let auto = match from {
        SchemaFrom::Auto => true,
        _ => false,
    };
    if auto && source_exists {
        return SchemaChoice::Source;
    }
    if let Some(i) = find_first_set(csv_exists) {
        return SchemaChoice::Csv(i);
    }
    if let Some(i) = find_first_set(json_exists) {
        return SchemaChoice::Json(i);
    }
    if auto {
        SchemaChoice::Parquet
    } else {
        SchemaChoice::NoCache
    }
}

/// The extension of the files that a schema is written to.
pub fn extension_for_format(fmt: SchemaFormat) -> (r: String)
    ensures
        r@ == (match fmt {
            SchemaFormat::Table => "txt"@,
            SchemaFormat::Json | SchemaFormat::ArrowR => "json"@,
            SchemaFormat::Yaml => "yaml"@,
        }),
{
    match fmt {
        SchemaFormat::Table => "txt".to_owned(),
        SchemaFormat::Json | SchemaFormat::ArrowR => "json".to_owned(),
        SchemaFormat::Yaml => "yaml".to_owned(),
    }
}

/// More than one where a command may work on several datasets.
pub fn datasets_len_hint(dataset_arg: &str) -> (r: usize)
    ensures
        r == (if dataset_arg@ == "all"@ { 2int } else { 1 }),
{
    if str_eq(dataset_arg, "all") {
        2
    } else {
        1
    }
}

/// The types of the database that have a type of their own in Arrow have this one, and the
/// types that hold others are told by how they begin; every other type is text.
pub proof fn law_arrow_types(t: Seq<char>, i: int)
    requires
        0 <= i < 12,
    ensures
        arrow_of(
            seq![
                "BOOLEAN"@,
                "TINYINT"@,
                "SMALLINT"@,
                "INTEGER"@,
                "INT"@,
                "BIGINT"@,
                "HUGEINT"@,
                "FLOAT"@,
                "DOUBLE"@,
                "DECIMAL"@,
                "DATE"@,
                "TIMESTAMP"@,
            ][i],
        ) == seq![
            "bool"@,
            "int8"@,
            "int16"@,
            "int32"@,
            "int32"@,
            "int64"@,
            "int64"@,
            "float32"@,
            "float64"@,
            "float64"@,
            "date32"@,
            "timestamp[us]"@,
        ][i],
        text::has_prefix(t, "STRUCT"@) ==> arrow_of(t) == "struct"@,
        text::has_prefix(t, "LIST"@) ==> arrow_of(t) == "list"@,
        !text::has_prefix(t, "STRUCT"@) && !text::has_prefix(t, "LIST"@) && !(seq![
            "BOOLEAN"@,
            "TINYINT"@,
            "SMALLINT"@,
            "INTEGER"@,
            "INT"@,
            "BIGINT"@,
            "HUGEINT"@,
            "FLOAT"@,
            "DOUBLE"@,
            "DECIMAL"@,
            "DATE"@,
            "TIMESTAMP"@,
        ].contains(t)) ==> arrow_of(t) == "utf8"@,
{
    let db = seq![
        "BOOLEAN"@,
        "TINYINT"@,
        "SMALLINT"@,
        "INTEGER"@,
        "INT"@,
        "BIGINT"@,
        "HUGEINT"@,
        "FLOAT"@,
        "DOUBLE"@,
        "DECIMAL"@,
        "DATE"@,
        "TIMESTAMP"@,
    ];
    reveal_strlit("STRUCT");
    reveal_strlit("LIST");
    reveal_strlit("BOOLEAN");
    reveal_strlit("TINYINT");
    reveal_strlit("SMALLINT");
    reveal_strlit("INTEGER");
    reveal_strlit("INT");
    reveal_strlit("BIGINT");
    reveal_strlit("HUGEINT");
    reveal_strlit("FLOAT");
    reveal_strlit("DOUBLE");
    reveal_strlit("DECIMAL");
    reveal_strlit("DATE");
    reveal_strlit("TIMESTAMP");
    assert(db[0][1] == 'O' && db[5][1] == 'I' && db[1][1] == 'I' && db[11][1] == 'I' && db[1][2]
        == 'N' && db[11][2] == 'M');
    assert(db[3].len() == 7 && db[4].len() == 3);
    assert(db[8][1] == 'O' && db[9][1] == 'E' && db[10][1] == 'A');
    assert(db[2][1] == 'M' && db[0][0] == 'B' && db[1][0] == 'T' && db[2][0] == 'S' && db[3][0]
        == 'I' && db[4][0] == 'I' && db[5][0] == 'B' && db[6][0] == 'H' && db[7][0] == 'F'
        && db[8][0] == 'D' && db[9][0] == 'D' && db[10][0] == 'D' && db[11][0] == 'T');
    if text::has_prefix(db[i], "STRUCT"@) {
        assert(db[i].take(6)[0] == 'S' && db[i].take(6)[1] == 'T');
    }
    if text::has_prefix(db[i], "LIST"@) {
        assert(db[i].take(4)[0] == 'L');
    }
    if text::has_prefix(t, "STRUCT"@) {
        assert(t.take(6)[0] == 'S');
    }
    if text::has_prefix(t, "LIST"@) {
        assert(t.take(4)[0] == 'L');
        if text::has_prefix(t, "STRUCT"@) {
            assert(t.take(6)[0] == 'S');
        }
    }
    if !db.contains(t) {
        assert(t != db[0] && t != db[1] && t != db[2] && t != db[3] && t != db[4] && t != db[5]
            && t != db[6] && t != db[7] && t != db[8] && t != db[9] && t != db[10] && t != db[11]);
    }
}

/// A column of a schema keeps its name, takes the Arrow type of its type in the database and
/// may be empty; only the inverted index of the works is text whatever it was found to be.
pub proof fn law_columns_of_a_source(dataset: Seq<char>, name: Seq<char>, t: Seq<char>)
    ensures
        source_field(dataset, name, t).name == name,
        source_field(dataset, name, t).nullable,
        source_field(dataset, name, t).duckdb_type == Some(t),
        dataset != "works"@ || name != "abstract_inverted_index"@ ==> source_field(
            dataset,
            name,
            t,
        ).arrow_type == arrow_of(normalized(t)),
        source_field("works"@, "abstract_inverted_index"@, t).arrow_type == "utf8"@,
        field_of(name, t).name == name,
        field_of(name, t).nullable,
        field_of(name, t).arrow_type == arrow_of(normalized(t)),
        field_of(name, t).duckdb_type == Some(t),
{
}

/// The type under which a column is read is the one that it was found with, else the one
/// that its Arrow type stands for.
pub proof fn law_type_of_a_field(f: FieldView, t: Seq<char>)
    ensures
        type_of((FieldView { duckdb_type: Some(t), ..f })) == t,
        type_of((FieldView { duckdb_type: None, arrow_type: "int64"@, ..f })) == "BIGINT"@,
        type_of((FieldView { duckdb_type: None, arrow_type: "int32"@, ..f })) == "INTEGER"@,
        type_of((FieldView { duckdb_type: None, arrow_type: "utf8"@, ..f })) == "VARCHAR"@,
        type_of((FieldView { duckdb_type: None, arrow_type: "bool"@, ..f })) == "BOOLEAN"@,
        type_of((FieldView { duckdb_type: None, arrow_type: "float64"@, ..f })) == "DOUBLE"@,
        type_of((FieldView { duckdb_type: None, arrow_type: "date32"@, ..f })) == "DATE"@,
        type_of((FieldView { duckdb_type: None, arrow_type: "timestamp[us]"@, ..f }))
            == "TIMESTAMP"@,
{
    reveal_strlit("bool");
    reveal_strlit("int8");
    reveal_strlit("int16");
    reveal_strlit("int32");
    reveal_strlit("int64");
    reveal_strlit("float32");
    reveal_strlit("float64");
    reveal_strlit("utf8");
    reveal_strlit("date32");
    reveal_strlit("timestamp[us]");
    assert("int64"@[3] == '6' && "int32"@[3] == '3' && "int16"@[3] == '1' && "int8"@.len() == 4
        && "bool"@[0] == 'b' && "utf8"@[0] == 'u' && "float64"@[5] == '6' && "float32"@[5] == '3'
        && "date32"@[0] == 'd');
}

/// The type of a column in a diff is that of the last field of its name; a name that no field
/// has is no column.
pub proof fn law_types_by_name(fields: Seq<FieldView>, n: int, i: int)
    requires
        0 <= i < n <= fields.len(),
        forall|k: int| i < k < n ==> (#[trigger] fields[k]).name != fields[i].name,
    ensures
        type_map(fields, n).dom().contains(fields[i].name),
        type_map(fields, n)[fields[i].name] == fields[i].arrow_type,
        forall|name: Seq<char>|
            type_map(fields, n).dom().contains(name) ==> exists|k: int|
                0 <= k < n && (#[trigger] fields[k]).name == name,
    decreases n,
{
    if i < n - 1 {
        law_types_by_name(fields, n - 1, i);
    } else {
        lemma_types_come_from_fields(fields, n - 1);
    }
    assert forall|name: Seq<char>| type_map(fields, n).dom().contains(name) implies exists|k: int|
        0 <= k < n && (#[trigger] fields[k]).name == name by {
        lemma_types_come_from_fields(fields, n);
    }
}

proof fn lemma_types_come_from_fields(fields: Seq<FieldView>, n: int)
    requires
        n <= fields.len(),
    ensures
        forall|name: Seq<char>|
            type_map(fields, n).dom().contains(name) ==> exists|k: int|
                0 <= k < n && (#[trigger] fields[k]).name == name,
    decreases n,
{
    if n > 0 {
        lemma_types_come_from_fields(fields, n - 1);
        assert forall|name: Seq<char>| type_map(fields, n).dom().contains(name) implies exists|
            k: int,
        | 0 <= k < n && (#[trigger] fields[k]).name == name by {
            if name == fields[n - 1].name {
                assert(fields[n - 1].name == name);
            } else {
                assert(type_map(fields, n - 1).dom().contains(name));
                let m = n - 1;
                let k = choose|k: int| 0 <= k < m && (#[trigger] fields[k]).name == name;
                assert(fields[k].name == name);
            }
        }
    }
}

/// A sample is as large as asked for and no larger than what there is, all of it where no
/// size is set; it begins with the first file, and two files of it that follow each other lie
/// as far apart as the sample allows.
pub proof fn law_sample(n: int, sample_size: int)
    requires
        n >= 0,
        sample_size >= 0,
    ensures
        sample_size == 0 ==> sample_len(n, sample_size) == n,
        sample_size > 0 ==> sample_len(n, sample_size) == (if n < sample_size {
            n
        } else {
            sample_size
        }),
        sample_step(n, sample_size) >= 1,
        sample_len(n, sample_size) * sample_step(n, sample_size) <= n,
        sample_len(n, sample_size) > 0 ==> sample_len(n, sample_size) * (sample_step(n, sample_size)
            + 1) > n,
{
    if sample_size > 0 && n > sample_size {
        vstd::arithmetic::div_mod::lemma_fundamental_div_mod(n, sample_size);
        let q = n / sample_size;
        assert(q >= 1) by (nonlinear_arith)
            requires
                n > sample_size,
                sample_size > 0,
                q == n / sample_size,
        ;
        assert(sample_size * (q + 1) == sample_size * q + sample_size) by (nonlinear_arith);
    } else {
        let step = sample_step(n, sample_size);
        assert(n * step == n && n * (step + 1) == n + n) by (nonlinear_arith)
            requires
                step == 1,
        ;
    }
}

/// The first flag that is set is set, and none before it is.
pub proof fn law_first_set(flags: Seq<bool>, i: int)
    requires
        0 <= i,
    ensures
        match first_set(flags, i) {
            Some(k) => i <= k < flags.len() && flags[k] && forall|m: int|
                i <= m < k ==> !#[trigger] flags[m],
            None => forall|m: int| i <= m < flags.len() ==> !#[trigger] flags[m],
        },
    decreases flags.len() - i,
{
    if i < flags.len() && !flags[i] {
        law_first_set(flags, i + 1);
    }
}

/// A cell is that of the last column of its name that the record reaches.
pub proof fn law_cell(headers: Seq<Seq<char>>, record: Seq<Seq<char>>, name: Seq<char>, n: int)
    requires
        0 <= n <= headers.len(),
    ensures
        match cell(headers, record, name, n) {
            Some(v) => exists|k: int|
                0 <= k < n && k < record.len() && #[trigger] headers[k] == name && v == record[k]
                    && forall|m: int|
                    k < m < n && m < record.len() ==> #[trigger] headers[m] != name,
            None => forall|k: int|
                0 <= k < n && k < record.len() ==> #[trigger] headers[k] != name,
        },
    decreases n,
{
    if n > 0 {
        if n <= record.len() && headers[n - 1] == name {
            assert(headers[n - 1] == name);
        } else {
            law_cell(headers, record, name, n - 1);
        }
    }
}
/// The columns of a schema are written under two heads, in their order, with the type
/// that each is read with.
pub proof fn law_schema_in_a_file(fields: Seq<FieldView>, f: FieldView)
    ensures
        schema_pairs(Seq::empty()) == seq![("col_name"@, "col_type"@)],
        schema_pairs(fields.push(f)) == schema_pairs(fields).push((f.name, type_of(f))),
{
    assert(schema_pairs(Seq::empty()) =~= seq![("col_name"@, "col_type"@)]);
    assert(schema_pairs(fields.push(f)) =~= schema_pairs(fields).push((f.name, type_of(f))));
}

/// A column stands in a question with its name and its type, each in quotes, the quotes in
/// the type doubled.
pub proof fn law_columns_in_a_question(fields: Seq<FieldView>, f: FieldView)
    ensures
        !type_of(f).contains('\'') ==> column_entry(f) == "'"@ + f.name + "': '"@ + type_of(f)
            + "'"@,
        column_entries(fields.push(f)) == column_entries(fields).push(column_entry(f)),
        column_entries(Seq::empty()).len() == 0,
{
    if !type_of(f).contains('\'') {
        text::law_replacing_what_is_not_there(type_of(f), '\'', "''"@);
    }
    assert(column_entries(fields.push(f)) =~= column_entries(fields).push(column_entry(f)));
}

/// A column is shown with its name, its type and whether it may be empty, in this order,
/// and with its own end of the line.
pub proof fn law_lines_of_a_schema(fields: Seq<FieldView>, n: int)
    requires
        0 <= n < fields.len(),
    ensures
        table_lines(fields, 0).len() == 0,
        table_lines(fields, n + 1) == table_lines(fields, n) + fields[n].name + "\t"@
            + fields[n].arrow_type + "\t"@ + (if fields[n].nullable {
            "true"@
        } else {
            "false"@
        }) + "\n"@,
{
}

/// A row of a schema gives a column: its name and its type stand under their heads, and a
/// row without either is refused.
pub proof fn law_rows_of_a_schema(
    h: Seq<Seq<char>>,
    records: Seq<Result<Seq<Seq<char>>, Seq<char>>>,
    i: int,
    rec: Seq<Seq<char>>,
    e: Seq<char>,
)
    requires
        0 <= i < records.len(),
        records[i] == Ok::<Seq<Seq<char>>, Seq<char>>(rec),
    ensures
        ({
            let name = cell(h, rec, "col_name"@, h.len() as int);
            let kind = cell(h, rec, "col_type"@, h.len() as int);
            let rest = schema_rows(Ok(h), records, i + 1);
            &&& name is Some && kind is Some && rest is Ok ==> schema_rows(Ok(h), records, i) == Ok::<
                Seq<(Seq<char>, Seq<char>)>,
                CsvFault,
            >(seq![(name->0, kind->0)] + rest->Ok_0)
            &&& name is None ==> schema_rows(Ok(h), records, i) == Err::<
                Seq<(Seq<char>, Seq<char>)>,
                CsvFault,
            >(CsvFault::MissingName)
            &&& name is Some && kind is None ==> schema_rows(Ok(h), records, i) == Err::<
                Seq<(Seq<char>, Seq<char>)>,
                CsvFault,
            >(CsvFault::MissingType)
        }),
        schema_rows(Ok(h), records, records.len() as int) == Ok::<
            Seq<(Seq<char>, Seq<char>)>,
            CsvFault,
        >(Seq::empty()),
        schema_rows(Err(e), records, i) == Err::<Seq<(Seq<char>, Seq<char>)>, CsvFault>(
            CsvFault::InvalidRow(e),
        ),
{
}
} // verus!
