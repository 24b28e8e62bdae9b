//! CSV files, read and written with the `csv` crate.

use vstd::prelude::*;
use vstd::string::*;
use crate::text;

verus! {

/// A CSV file as it was read: its header, and each record below it. What could
/// not be read is an error message in its place.
pub struct CsvTable {
    pub headers: Result<Vec<String>, String>,
    pub records: Vec<Result<Vec<String>, String>>,
}

pub open spec fn line_view(r: Result<Vec<String>, String>) -> Result<Seq<Seq<char>>, Seq<char>> {
    match r {
        Ok(v) => Ok(text::texts(v@)),
        Err(e) => Err(e@),
    }
}

/// What a `CsvTable` says.
#[verifier::ext_equal]
pub struct TableView {
    pub headers: Result<Seq<Seq<char>>, Seq<char>>,
    pub records: Seq<Result<Seq<Seq<char>>, Seq<char>>>,
}

impl View for CsvTable {
    type V = TableView;

    open spec fn view(&self) -> TableView {
        TableView {
            headers: line_view(self.headers),
            records: Seq::new(self.records@.len(), |i: int| line_view(self.records@[i])),
        }
    }
}

/// Whether a field has to stand in quotes.
pub open spec fn needs_quotes(f: Seq<char>) -> bool {
    f.contains(',') || f.contains('"') || f.contains('\r') || f.contains('\n')
}

/// A field as it stands in a CSV file.
pub open spec fn field_text(f: Seq<char>) -> Seq<char> {
    if needs_quotes(f) {
        "\""@ + text::replace_char(f, '"', "\"\""@) + "\""@
    } else {
        f
    }
}

/// A record of two fields as it stands in a CSV file.
pub open spec fn pair_line(p: (Seq<char>, Seq<char>)) -> Seq<char> {
    field_text(p.0) + ","@ + field_text(p.1) + "\n"@
}

/// Records of two fields as they stand in a CSV file.
pub open spec fn pair_lines(rows: Seq<(Seq<char>, Seq<char>)>) -> Seq<char>
    decreases rows.len(),
{
    if rows.len() == 0 {
        Seq::empty()
    } else {
        pair_lines(rows.drop_last()) + pair_line(rows.last())
    }
}

/// What the `csv` crate reads in a file.
pub uninterp spec fn table_of(data: Seq<u8>) -> TableView;

/// The table whose header and records are the pairs `rows`.
pub open spec fn pair_table(rows: Seq<(Seq<char>, Seq<char>)>) -> TableView {
    TableView {
        headers: Ok(seq![rows[0].0, rows[0].1]),
        records: Seq::new(
            (rows.len() - 1) as nat,
            |i: int| Ok::<Seq<Seq<char>>, Seq<char>>(seq![rows[i + 1].0, rows[i + 1].1]),
        ),
    }
}

/// `csv::Reader::from_reader`, `Reader::headers` and `Reader::records`, with the
/// reader's default settings. What they return depends on the bytes alone. Of a
/// file of records of two fields in the form in which the crate's writer writes
/// them, and that does not begin with a byte order mark, they return the header
/// and the records that were written. What they return for other bytes is not
/// stated.
#[verifier::external_body]
pub(crate) fn read_table(data: &[u8]) -> (r: CsvTable)
    ensures
        r@ == table_of(data@),
        forall|rows: Seq<(Seq<char>, Seq<char>)>|
            rows.len() > 0 && !text::has_prefix(rows[0].0, seq!['\u{feff}']) && data@
                == vstd::utf8::encode_utf8(#[trigger] pair_lines(rows)) ==> r@ == pair_table(rows),
{
    let mut reader = csv::Reader::from_reader(data);
    let headers = match reader.headers() {
        Ok(h) => Ok(h.iter().map(str::to_owned).collect()),
        Err(e) => Err(e.to_string()),
    };
    let records = reader
        .records()
        .map(|r| match r {
            Ok(r) => Ok(r.iter().map(str::to_owned).collect()),
            Err(e) => Err(e.to_string()),
        })
        .collect();
    CsvTable { headers, records }
}

/// The fields of a record as they stand in a CSV file.
pub open spec fn field_texts(fields: Seq<Seq<char>>) -> Seq<Seq<char>> {
    Seq::new(fields.len(), |i: int| field_text(fields[i]))
}

/// A record as it stands in a CSV file. One whose only field is empty is written
/// as a pair of quotes, since a line without any character is no record.
pub open spec fn record_line(fields: Seq<Seq<char>>) -> Seq<char> {
    if fields.len() == 1 && fields[0].len() == 0 {
        "\"\"\n"@
    } else {
        text::join(field_texts(fields), ","@) + "\n"@
    }
}

/// `csv::Writer::write_record`, with the writer's default settings: the fields
/// with a comma between two of them and a line feed behind them. A field that
/// holds a comma, a double quote, a carriage return or a line feed stands in
/// double quotes, and its own double quotes are doubled. A single empty field is
/// written as two double quotes.
#[verifier::external_body]
pub(crate) fn write_record(fields: &Vec<String>) -> (r: String)
    requires
        fields@.len() > 0,
    ensures
        r@ == record_line(text::texts(fields@)),
{
    let mut writer = csv::Writer::from_writer(Vec::new());
    writer.write_record(fields).expect("a record in memory");
    let bytes = writer.into_inner().expect("a buffer in memory");
    String::from_utf8(bytes).expect("texts and ASCII between them")
}

/// A record of two fields as it stands in a CSV file.
pub fn write_pair(a: &str, b: &str) -> (r: String)
    ensures
        r@ == pair_line((a@, b@)),
{
    let mut fields: Vec<String> = Vec::new();
    fields.push(a.to_owned());
    fields.push(b.to_owned());
    proof {
        let t = text::texts(fields@);
        assert(t =~= seq![a@, b@]);
        let f = field_texts(t);
        reveal_with_fuel(text::join, 3);
        assert(f.drop_last().len() == 1 && f.drop_last()[0] == field_text(a@));
        assert(text::join(f, ","@) =~= field_text(a@) + ","@ + field_text(b@));
    }
    write_record(&fields)
}

/// A record of one field as it stands in a CSV file.
pub fn write_one(a: &str) -> (r: String)
    ensures
        r@ == record_line(seq![a@]),
{
    let mut fields: Vec<String> = Vec::new();
    fields.push(a.to_owned());
    assert(text::texts(fields@) =~= seq![a@]);
    write_record(&fields)
}

/// A record of three fields as it stands in a CSV file.
pub fn write_three(a: &str, b: &str, c: &str) -> (r: String)
    ensures
        r@ == record_line(seq![a@, b@, c@]),
{
    let mut fields: Vec<String> = Vec::new();
    fields.push(a.to_owned());
    fields.push(b.to_owned());
    fields.push(c.to_owned());
    assert(text::texts(fields@) =~= seq![a@, b@, c@]);
    write_record(&fields)
}

/// The position of a column.
pub open spec fn column_at(headers: Seq<Seq<char>>, name: Seq<char>, i: int) -> bool {
    0 <= i < headers.len() && headers[i] == name
}

/// The last column of this name.
pub fn last_column(headers: &Vec<String>, name: &str) -> (r: Option<usize>)
    ensures
        match r {
            Some(i) => column_at(text::texts(headers@), name@, i as int) && forall|j: int|
                i < j < headers@.len() ==> #[trigger] text::texts(headers@)[j] != name@,
            None => !text::texts(headers@).contains(name@),
        },
{
    let mut i: usize = headers.len();
    while i > 0
        invariant
            i <= headers@.len(),
            forall|j: int| i <= j < headers@.len() ==> #[trigger] text::texts(headers@)[j] != name@,
        decreases i,
    {
        if text::str_eq(headers[i - 1].as_str(), name) {
            assert(text::texts(headers@)[i - 1] == name@);
            return Some(i - 1);
        }
        i -= 1;
    }
    None
}

/// A field stands as it is unless it holds a comma, a quote or the end of a line; then it
/// stands in quotes, with each quote in it doubled.
pub proof fn law_fields(f: Seq<char>, c: char)
    requires
        c == ',' || c == '"' || c == '\r' || c == '\n',
    ensures
        (forall|i: int|
            0 <= i < f.len() ==> #[trigger] f[i] != ',' && f[i] != '"' && f[i] != '\r' && f[i]
                != '\n') ==> field_text(f) == f,
        f.contains(c) ==> field_text(f) == seq!['"'] + text::replace_char(f, '"', seq!['"', '"'])
            + seq!['"'],
        f.contains(c) && !f.contains('"') ==> field_text(f) == seq!['"'] + f + seq!['"'],
{
    reveal_strlit("\"");
    reveal_strlit("\"\"");
    assert("\""@ =~= seq!['"']);
    assert("\"\""@ =~= seq!['"', '"']);
    if !f.contains('"') {
        text::law_replacing_what_is_not_there(f, '"', seq!['"', '"']);
    }
}

/// The fields of a record stand with commas between them, and each record ends its line.
pub proof fn law_records(
    rows: Seq<(Seq<char>, Seq<char>)>,
    a: Seq<char>,
    b: Seq<char>,
    fields: Seq<Seq<char>>,
)
    ensures
        pair_lines(Seq::empty()).len() == 0,
        pair_lines(rows.push((a, b))) == pair_lines(rows) + field_text(a) + seq![','] + field_text(
            b,
        ) + seq!['\n'],
        a.len() > 0 ==> record_line(seq![a]) == field_text(a) + seq!['\n'],
        fields.len() > 1 || (fields.len() == 1 && fields[0].len() > 0) ==> record_line(
            fields.push(a),
        ) == record_line(fields).drop_last() + seq![','] + field_text(a) + seq!['\n'],
{
    reveal_strlit(",");
    reveal_strlit("\n");
    assert(rows.push((a, b)).drop_last() =~= rows);
    assert(pair_lines(rows.push((a, b))) =~= pair_lines(rows) + field_text(a) + seq![',']
        + field_text(b) + seq!['\n']);
    reveal_with_fuel(text::join, 2);
    assert(field_texts(seq![a]) =~= seq![field_text(a)]);
    assert(seq![field_text(a)].drop_last() =~= Seq::<Seq<char>>::empty());
    assert(text::join(field_texts(seq![a]), ","@) =~= field_text(a));
    assert(record_line(seq![a]) =~= (if a.len() > 0 {
        field_text(a) + seq!['\n']
    } else {
        record_line(seq![a])
    }));
    if fields.len() > 1 || (fields.len() == 1 && fields[0].len() > 0) {
        assert(field_texts(fields.push(a)) =~= field_texts(fields).push(field_text(a)));
        assert(field_texts(fields).push(field_text(a)).drop_last() =~= field_texts(fields));
        let line = text::join(field_texts(fields), ","@);
        assert(record_line(fields).drop_last() =~= line);
        assert(record_line(fields.push(a)) =~= line + seq![','] + field_text(a) + seq!['\n']);
    }
}
} // verus!
