//! The statements that are handed to the database, as texts.

use vstd::prelude::*;
use vstd::string::*;
use crate::report;
use crate::text::{
    chars_of, find_char, joined, parse_unsigned, push_decimal, replaced, start_of_text, starts_with,
    str_eq, string_of, to_text, u64_error, uppercase,
};
use crate::text;
use crate::textmap::TextMap;

verus! {

/// `s` as a string literal: backslashes and single quotes doubled, in single
/// quotes.
pub open spec fn quoted(s: Seq<char>) -> Seq<char> {
    "'"@ + text::replace_char(text::replace_char(s, '\\', "\\\\"@), '\'', "''"@) + "'"@
}

/// `s` as a string literal.
pub fn sql_quote(s: &str) -> (r: String)
    ensures
        r@ == quoted(s@),
{
    let slashes = replaced(s, '\\', "\\\\");
    let quotes = replaced(slashes.as_str(), '\'', "''");
    let mut out = "'".to_owned();
    out.append(quotes.as_str());
    out.append("'");
    out
}

/// What stands for one character inside a string literal.
pub open spec fn escaped_char(c: char) -> Seq<char> {
    if c == '\\' || c == '\'' {
        seq![c, c]
    } else {
        seq![c]
    }
}

/// What stands for a text inside a string literal.
pub open spec fn escaped(s: Seq<char>) -> Seq<char>
    decreases s.len(),
{
    if s.len() == 0 {
        Seq::empty()
    } else {
        escaped(s.drop_last()) + escaped_char(s.last())
    }
}

proof fn lemma_replace_concat(a: Seq<char>, b: Seq<char>, c: char, by: Seq<char>)
    ensures
        text::replace_char(a + b, c, by) == text::replace_char(a, c, by) + text::replace_char(
            b,
            c,
            by,
        ),
    decreases b.len(),
{
    if b.len() == 0 {
        assert(a + b =~= a);
        assert(text::replace_char(a, c, by) + text::replace_char(b, c, by) =~= text::replace_char(
            a,
            c,
            by,
        ));
    } else {
        lemma_replace_concat(a, b.drop_last(), c, by);
        assert((a + b).drop_last() =~= a + b.drop_last());
        assert((a + b).last() == b.last());
        assert(text::replace_char(a + b, c, by) =~= text::replace_char(a, c, by)
            + text::replace_char(b, c, by));
    }
}

proof fn lemma_quoted_is_escaped(s: Seq<char>)
    ensures
        text::replace_char(text::replace_char(s, '\\', "\\\\"@), '\'', "''"@) == escaped(s),
    decreases s.len(),
{
    reveal_strlit("\\\\");
    reveal_strlit("''");
    reveal_with_fuel(text::replace_char, 3);
    if s.len() > 0 {
        lemma_quoted_is_escaped(s.drop_last());
        let a = text::replace_char(s.drop_last(), '\\', "\\\\"@);
        let e = if s.last() == '\\' { "\\\\"@ } else { seq![s.last()] };
        lemma_replace_concat(a, e, '\'', "''"@);
        assert("\\\\"@ =~= seq!['\\', '\\']);
        assert("''"@ =~= seq!['\'', '\'']);
        if s.last() == '\\' {
            assert(e.drop_last() =~= seq!['\\']);
            assert(e.drop_last().drop_last() =~= Seq::<char>::empty());
            assert(text::replace_char(e, '\'', "''"@) =~= e);
        } else {
            assert(e.drop_last() =~= Seq::<char>::empty());
            assert(text::replace_char(e, '\'', "''"@) =~= escaped_char(s.last()));
        }
    }
}

proof fn lemma_escaped_injective(a: Seq<char>, b: Seq<char>)
    requires
        escaped(a) == escaped(b),
    ensures
        a == b,
    decreases a.len(),
{
    if a.len() == 0 {
        if b.len() > 0 {
            assert(escaped(b).len() > 0);
        }
        assert(a =~= b);
    } else if b.len() == 0 {
        assert(escaped(a).len() > 0);
    } else {
        let x = a.last();
        let y = b.last();
        assert(escaped(a).last() == x);
        assert(escaped(b).last() == y);
        let n = escaped_char(x).len();
        assert(escaped(a.drop_last()) =~= escaped(a).take(escaped(a).len() - n));
        assert(escaped(b.drop_last()) =~= escaped(b).take(escaped(b).len() - n));
        lemma_escaped_injective(a.drop_last(), b.drop_last());
        assert(a =~= a.drop_last().push(x));
        assert(b =~= b.drop_last().push(y));
    }
}

/// Different texts have different literals: a literal stands for one text alone.
pub proof fn law_quote_is_injective(a: Seq<char>, b: Seq<char>)
    requires
        quoted(a) == quoted(b),
    ensures
        a == b,
{
    reveal_strlit("'");
    lemma_quoted_is_escaped(a);
    lemma_quoted_is_escaped(b);
    assert(quoted(a).subrange(1, quoted(a).len() - 1) =~= escaped(a));
    assert(quoted(b).subrange(1, quoted(b).len() - 1) =~= escaped(b));
    lemma_escaped_injective(a, b);
}

pub open spec fn quoted_list(paths: Seq<Seq<char>>) -> Seq<Seq<char>> {
    Seq::new(paths.len(), |i: int| quoted(paths[i]))
}

/// A list of files as a list of string literals.
pub open spec fn path_list(paths: Seq<Seq<char>>) -> Seq<char> {
    "["@ + text::join(quoted_list(paths), ", "@) + "]"@
}

/// A list of files as a list of string literals.
pub fn sql_path_list(paths: &Vec<String>) -> (r: String)
    ensures
        r@ == path_list(text::texts(paths@)),
{
    broadcast use text::lemma_texts_push;

    let mut all: Vec<String> = Vec::new();
    let mut i: usize = 0;
    let ghost q = quoted_list(text::texts(paths@));
    assert(text::texts(all@) =~= q.take(0));
    while i < paths.len()
        invariant
            i <= paths@.len(),
            q == quoted_list(text::texts(paths@)),
            text::texts(all@) == q.take(i as int),
        decreases paths@.len() - i,
    {
        all.push(sql_quote(paths[i].as_str()));
        i += 1;
        assert(q.take(i as int) =~= q.take(i - 1).push(q[i - 1]));
    }
    assert(q.take(i as int) =~= q);
    let mut out = "[".to_owned();
    let list = joined(&all, ", ");
    out.append(list.as_str());
    out.append("]");
    out
}

/// `sql` with the settings of its session in front of it.
pub open spec fn with_settings(
    sql: Seq<char>,
    memory_mb: Option<usize>,
    threads: Option<usize>,
) -> Seq<char> {
    let t = match threads {
        Some(n) => "SET threads = "@ + text::decimal(if n >= 1 { n as nat } else { 1 }) + "; "@,
        None => Seq::empty(),
    };
    let m = match memory_mb {
        Some(mb) => "SET memory_limit='"@ + text::decimal(mb as nat) + "MB'; "@,
        None => Seq::empty(),
    };
    t + m + sql
}

/// `sql` with the settings of its session in front of it.
pub fn with_session_settings(
    sql: &str,
    memory_mb: Option<usize>,
    threads: Option<usize>,
) -> (r: String)
    ensures
        r@ == with_settings(sql@, memory_mb, threads),
{
    let mut out = String::new();
    if let Some(n) = threads {
        out.append("SET threads = ");
        push_decimal(
            &mut out,
            if n >= 1 {
                n as u128
            } else {
                1
            },
        );
        out.append("; ");
    }
    let ghost t = out@;
    if let Some(mb) = memory_mb {
        out.append("SET memory_limit='");
        push_decimal(&mut out, mb as u128);
        out.append("MB'; ");
    }
    out.append(sql);
    assert(out@ =~= with_settings(sql@, memory_mb, threads));
    out
}

/// Whether a text is a `SET` statement, in letters of either case.
pub open spec fn is_set(t: Seq<char>) -> bool {
    text::has_prefix(text::uppercase_of(t), "SET "@)
}

/// Position of the first semicolon at `i` or later.
pub open spec fn semicolon_at(t: Seq<char>, i: int) -> Option<int>
    decreases t.len() - i,
{
    if i < 0 || i >= t.len() {
        None
    } else if t[i] == ';' {
        Some(i)
    } else {
        semicolon_at(t, i + 1)
    }
}

/// The position in `sql` at which the leading `SET` statements from `from` on
/// end, and what follows them: nothing where only they are left or where one of
/// them is not closed.
pub open spec fn set_prefix(sql: Seq<char>, from: int) -> (int, Seq<char>)
    decreases sql.len() - from,
{
    if from < 0 || from > sql.len() {
        (from, Seq::empty())
    } else {
        let t = text::trim_start(sql.skip(from));
        let off = sql.len() - t.len();
        if t.len() == 0 {
            (off, Seq::empty())
        } else if is_set(t) {
            match semicolon_at(t, 0) {
                Some(i) => if from < off + i + 1 <= sql.len() {
                    set_prefix(sql, off + i + 1)
                } else {
                    (off, Seq::empty())
                },
                None => (off, Seq::empty()),
            }
        } else {
            (off, t)
        }
    }
}

proof fn lemma_semicolon(t: Seq<char>, i: int)
    requires
        0 <= i <= t.len(),
    ensures
        match semicolon_at(t, i) {
            Some(k) => i <= k < t.len() && t[k] == ';' && forall|j: int|
                i <= j < k ==> #[trigger] t[j] != ';',
            None => forall|j: int| i <= j < t.len() ==> #[trigger] t[j] != ';',
        },
    decreases t.len() - i,
{
    if i < t.len() && t[i] != ';' {
        lemma_semicolon(t, i + 1);
    }
}

/// Splits `SET a=1; SET b=2; QUERY` into the settings and the query.
pub fn split_set_prefix(sql: &str) -> (r: (String, String))
    ensures
        r.0@ == sql@.take(set_prefix(sql@, 0).0),
        r.1@ == set_prefix(sql@, 0).1,
        0 <= set_prefix(sql@, 0).0 <= sql@.len(),
{
    let v = chars_of(sql);
    let n: usize = v.len();
    let mut from: usize = 0;
    loop
        invariant
            from <= n,
            n == v@.len(),
            v@ == sql@,
            set_prefix(sql@, 0) == set_prefix(sql@, from as int),
        decreases n - from,
    {
        let rest = text::slice_chars(&v, from, n);
        assert(rest@ == sql@.skip(from as int)) by {
            assert(v@.subrange(from as int, n as int) =~= sql@.skip(from as int));
        }
        let lead = start_of_text(&rest);
        let off: usize = from + lead;
        let trimmed = text::slice_chars(&v, off, n);
        let ghost t = text::trim_start(sql@.skip(from as int));
        proof {
            assert(rest@.skip(lead as int) =~= trimmed@);
            assert(trimmed@ == t);
            assert(off == sql@.len() - t.len());
        }
        let prefix = string_of(&v, 0, off);
        assert(v@.subrange(0, off as int) =~= sql@.take(off as int));
        if trimmed.len() == 0 {
            return (prefix, String::new());
        }
        let query = to_text(&trimmed);
        let upper = uppercase(query.as_str());
        if starts_with(upper.as_str(), "SET ") {
            proof {
                lemma_semicolon(t, 0);
            }
            match find_char(&trimmed, ';') {
                Some(i) => {
                    proof {
                        let k = semicolon_at(t, 0);
                        assert(t[i as int] == ';');
                        assert(k == Some(i as int));
                    }
                    from = off + i + 1;
                },
                None => {
                    proof {
                        if semicolon_at(t, 0) is Some {
                            assert(trimmed@.contains(t[semicolon_at(t, 0)->0]));
                        }
                    }
                    return (prefix, String::new());
                },
            }
        } else {
            return (prefix, query);
        }
    }
}

/// Counts the rows of a source file and sums up their ids.
pub open spec fn metrics_json_sql_of(path: Seq<char>, memory_mb: Option<usize>) -> Seq<char> {
    with_settings(
        "SELECT COUNT(*) AS n, COALESCE(CAST(bit_xor(hash(CAST(id AS VARCHAR))) AS VARCHAR), '0') AS h FROM read_json_auto("@
        + quoted(path)
        + ", union_by_name=true, ignore_errors=true)"@,
        memory_mb,
        Some(1),
    )
}

/// Counts the rows of a source file and sums up their ids.
pub fn metrics_json_sql(path: &str, memory_mb: Option<usize>) -> (r: String)
    ensures
        r@ == metrics_json_sql_of(path@, memory_mb),
{
    let mut s = "SELECT COUNT(*) AS n, COALESCE(CAST(bit_xor(hash(CAST(id AS VARCHAR))) AS VARCHAR), '0') AS h FROM read_json_auto(".to_owned();
    let path_q = sql_quote(path);
    s.append(path_q.as_str());
    s.append(", union_by_name=true, ignore_errors=true)");
    with_session_settings(s.as_str(), memory_mb, Some(1))
}

/// Counts the rows of a source file.
pub open spec fn count_json_sql_of(path: Seq<char>, memory_mb: Option<usize>) -> Seq<char> {
    with_settings(
        "SELECT COUNT(*) AS n FROM read_json_auto("@
        + quoted(path)
        + ", union_by_name=true, ignore_errors=true)"@,
        memory_mb,
        Some(1),
    )
}

/// Counts the rows of a source file.
pub fn count_json_sql(path: &str, memory_mb: Option<usize>) -> (r: String)
    ensures
        r@ == count_json_sql_of(path@, memory_mb),
{
    let mut s = "SELECT COUNT(*) AS n FROM read_json_auto(".to_owned();
    let path_q = sql_quote(path);
    s.append(path_q.as_str());
    s.append(", union_by_name=true, ignore_errors=true)");
    with_session_settings(s.as_str(), memory_mb, Some(1))
}

/// Counts the rows of a parquet file and sums up their ids.
pub open spec fn metrics_parquet_sql_of(path: Seq<char>, memory_mb: Option<usize>) -> Seq<char> {
    with_settings(
        "SELECT COUNT(*) AS n, COALESCE(CAST(bit_xor(hash(CAST(id AS VARCHAR))) AS VARCHAR), '0') AS h FROM read_parquet("@
        + quoted(path)
        + ")"@,
        memory_mb,
        Some(1),
    )
}

/// Counts the rows of a parquet file and sums up their ids.
pub fn metrics_parquet_sql(path: &str, memory_mb: Option<usize>) -> (r: String)
    ensures
        r@ == metrics_parquet_sql_of(path@, memory_mb),
{
    let mut s = "SELECT COUNT(*) AS n, COALESCE(CAST(bit_xor(hash(CAST(id AS VARCHAR))) AS VARCHAR), '0') AS h FROM read_parquet(".to_owned();
    let path_q = sql_quote(path);
    s.append(path_q.as_str());
    s.append(")");
    with_session_settings(s.as_str(), memory_mb, Some(1))
}

/// Counts the rows of a parquet file.
pub open spec fn count_parquet_sql_of(path: Seq<char>, memory_mb: Option<usize>) -> Seq<char> {
    with_settings(
        "SELECT COUNT(*) AS n FROM read_parquet("@
        + quoted(path)
        + ")"@,
        memory_mb,
        Some(1),
    )
}

/// Counts the rows of a parquet file.
pub fn count_parquet_sql(path: &str, memory_mb: Option<usize>) -> (r: String)
    ensures
        r@ == count_parquet_sql_of(path@, memory_mb),
{
    let mut s = "SELECT COUNT(*) AS n FROM read_parquet(".to_owned();
    let path_q = sql_quote(path);
    s.append(path_q.as_str());
    s.append(")");
    with_session_settings(s.as_str(), memory_mb, Some(1))
}

/// Counts the rows of the parts of a parquet file and sums up their ids.
pub open spec fn metrics_parquet_list_sql_of(paths: Seq<Seq<char>>, memory_mb: Option<usize>) -> Seq<char> {
    with_settings(
        "SELECT COUNT(*) AS n, COALESCE(CAST(bit_xor(hash(CAST(id AS VARCHAR))) AS VARCHAR), '0') AS h FROM read_parquet("@
        + path_list(paths)
        + ")"@,
        memory_mb,
        Some(1),
    )
}

/// Counts the rows of the parts of a parquet file and sums up their ids.
pub fn metrics_parquet_list_sql(paths: &Vec<String>, memory_mb: Option<usize>) -> (r: String)
    ensures
        r@ == metrics_parquet_list_sql_of(text::texts(paths@), memory_mb),
{
    let mut s = "SELECT COUNT(*) AS n, COALESCE(CAST(bit_xor(hash(CAST(id AS VARCHAR))) AS VARCHAR), '0') AS h FROM read_parquet(".to_owned();
    let paths_q = sql_path_list(paths);
    s.append(paths_q.as_str());
    s.append(")");
    with_session_settings(s.as_str(), memory_mb, Some(1))
}

/// Counts the rows of the parts of a parquet file.
pub open spec fn count_parquet_list_sql_of(paths: Seq<Seq<char>>, memory_mb: Option<usize>) -> Seq<char> {
    with_settings(
        "SELECT COUNT(*) AS n FROM read_parquet("@
        + path_list(paths)
        + ")"@,
        memory_mb,
        Some(1),
    )
}

/// Counts the rows of the parts of a parquet file.
pub fn count_parquet_list_sql(paths: &Vec<String>, memory_mb: Option<usize>) -> (r: String)
    ensures
        r@ == count_parquet_list_sql_of(text::texts(paths@), memory_mb),
{
    let mut s = "SELECT COUNT(*) AS n FROM read_parquet(".to_owned();
    let paths_q = sql_path_list(paths);
    s.append(paths_q.as_str());
    s.append(")");
    with_session_settings(s.as_str(), memory_mb, Some(1))
}

/// Describes the columns of a source file.
pub open spec fn describe_json_sql_of(file: Seq<char>, extra_options: Seq<char>, memory_mb: Option<usize>) -> Seq<char> {
    with_settings(
        "SELECT * FROM (DESCRIBE SELECT * FROM read_json_auto("@
        + quoted(file)
        + ", union_by_name=true, ignore_errors=true"@
        + extra_options
        + "))"@,
        memory_mb,
        Some(1),
    )
}

/// Describes the columns of a source file.
pub fn describe_json_sql(file: &str, extra_options: &str, memory_mb: Option<usize>) -> (r: String)
    ensures
        r@ == describe_json_sql_of(file@, extra_options@, memory_mb),
{
    let mut s = "SELECT * FROM (DESCRIBE SELECT * FROM read_json_auto(".to_owned();
    let file_q = sql_quote(file);
    s.append(file_q.as_str());
    s.append(", union_by_name=true, ignore_errors=true");
    s.append(extra_options);
    s.append("))");
    with_session_settings(s.as_str(), memory_mb, Some(1))
}

/// Describes the columns of the parquet files that match a pattern.
pub open spec fn describe_parquet_sql_of(glob: Seq<char>, memory_mb: Option<usize>) -> Seq<char> {
    with_settings(
        "SELECT * FROM (DESCRIBE SELECT * FROM read_parquet("@
        + quoted(glob)
        + "))"@,
        memory_mb,
        Some(1),
    )
}

/// Describes the columns of the parquet files that match a pattern.
pub fn describe_parquet_sql(glob: &str, memory_mb: Option<usize>) -> (r: String)
    ensures
        r@ == describe_parquet_sql_of(glob@, memory_mb),
{
    let mut s = "SELECT * FROM (DESCRIBE SELECT * FROM read_parquet(".to_owned();
    let glob_q = sql_quote(glob);
    s.append(glob_q.as_str());
    s.append("))");
    with_session_settings(s.as_str(), memory_mb, Some(1))
}

/// Limits the memory of the database.
pub open spec fn memory_limit_sql_of(total_mb: usize) -> Seq<char> {
    "SET memory_limit='"@
        + text::decimal(total_mb as nat)
        + "MB';"@
}

/// Limits the memory of the database.
pub fn memory_limit_sql(total_mb: usize) -> (r: String)
    ensures
        r@ == memory_limit_sql_of(total_mb),
{
    let mut s = "SET memory_limit='".to_owned();
    push_decimal(&mut s, total_mb as u128);
    s.append("MB';");
    s
}

/// Names the directory that the database spills to.
pub open spec fn temp_directory_sql_of(dir: Seq<char>) -> Seq<char> {
    "SET temp_directory='"@
        + dir
        + "';"@
}

/// Names the directory that the database spills to.
pub fn temp_directory_sql(dir: &str) -> (r: String)
    ensures
        r@ == temp_directory_sql_of(dir@),
{
    let mut s = "SET temp_directory='".to_owned();
    s.append(dir);
    s.append("';");
    s
}

/// Puts the shards of an index together.
pub open spec fn combine_index_sql_of(shards: Seq<char>, index_file: Seq<char>) -> Seq<char> {
    "COPY (SELECT * FROM read_parquet("@
        + quoted(shards)
        + ")) TO "@
        + quoted(index_file)
        + " (FORMAT PARQUET, COMPRESSION SNAPPY);"@
}

/// Puts the shards of an index together.
pub fn combine_index_sql(shards: &str, index_file: &str) -> (r: String)
    ensures
        r@ == combine_index_sql_of(shards@, index_file@),
{
    let mut s = "COPY (SELECT * FROM read_parquet(".to_owned();
    let shards_q = sql_quote(shards);
    s.append(shards_q.as_str());
    s.append(")) TO ");
    let index_file_q = sql_quote(index_file);
    s.append(index_file_q.as_str());
    s.append(" (FORMAT PARQUET, COMPRESSION SNAPPY);");
    s
}

/// Counts the rows of an index and of the parquet files that it is made from.
pub open spec fn index_counts_sql_of(index_file: Seq<char>, corpus: Seq<char>, memory_mb: Option<usize>, workers: usize) -> Seq<char> {
    with_settings(
        "SELECT (SELECT COUNT(*) FROM read_parquet("@
        + quoted(index_file)
        + ")) AS idx_count, (SELECT COUNT(*) FROM read_parquet("@
        + quoted(corpus)
        + ")) AS corpus_count;"@,
        memory_mb,
        Some(workers),
    )
}

/// Counts the rows of an index and of the parquet files that it is made from.
pub fn index_counts_sql(index_file: &str, corpus: &str, memory_mb: Option<usize>, workers: usize) -> (r: String)
    ensures
        r@ == index_counts_sql_of(index_file@, corpus@, memory_mb, workers),
{
    let mut s = "SELECT (SELECT COUNT(*) FROM read_parquet(".to_owned();
    let index_file_q = sql_quote(index_file);
    s.append(index_file_q.as_str());
    s.append(")) AS idx_count, (SELECT COUNT(*) FROM read_parquet(");
    let corpus_q = sql_quote(corpus);
    s.append(corpus_q.as_str());
    s.append(")) AS corpus_count;");
    with_session_settings(s.as_str(), memory_mb, Some(workers))
}

/// Lists the parquet files that an index refers to.
pub open spec fn index_refs_sql_of(index_file: Seq<char>, memory_mb: Option<usize>, workers: usize) -> Seq<char> {
    with_settings(
        "SELECT DISTINCT parquet_file FROM read_parquet("@
        + quoted(index_file)
        + ");"@,
        memory_mb,
        Some(workers),
    )
}

/// Lists the parquet files that an index refers to.
pub fn index_refs_sql(index_file: &str, memory_mb: Option<usize>, workers: usize) -> (r: String)
    ensures
        r@ == index_refs_sql_of(index_file@, memory_mb, workers),
{
    let mut s = "SELECT DISTINCT parquet_file FROM read_parquet(".to_owned();
    let index_file_q = sql_quote(index_file);
    s.append(index_file_q.as_str());
    s.append(");");
    with_session_settings(s.as_str(), memory_mb, Some(workers))
}

/// Looks up the ids of a list in an index.
pub open spec fn find_ids_sql_of(index_file: Seq<char>, ids_file: Seq<char>, memory_mb: Option<usize>) -> Seq<char> {
    with_settings(
        "SELECT DISTINCT CAST(i.id AS VARCHAR) AS id, i.parquet_file AS parquet_file FROM read_parquet("@
        + quoted(index_file)
        + ") i INNER JOIN read_csv_auto("@
        + quoted(ids_file)
        + ", HEADER=true, ALL_VARCHAR=true) r ON CAST(i.id AS VARCHAR)=CAST(r.id AS VARCHAR);"@,
        memory_mb,
        Some(1),
    )
}

/// Looks up the ids of a list in an index.
pub fn find_ids_sql(index_file: &str, ids_file: &str, memory_mb: Option<usize>) -> (r: String)
    ensures
        r@ == find_ids_sql_of(index_file@, ids_file@, memory_mb),
{
    let mut s = "SELECT DISTINCT CAST(i.id AS VARCHAR) AS id, i.parquet_file AS parquet_file FROM read_parquet(".to_owned();
    let index_file_q = sql_quote(index_file);
    s.append(index_file_q.as_str());
    s.append(") i INNER JOIN read_csv_auto(");
    let ids_file_q = sql_quote(ids_file);
    s.append(ids_file_q.as_str());
    s.append(", HEADER=true, ALL_VARCHAR=true) r ON CAST(i.id AS VARCHAR)=CAST(r.id AS VARCHAR);");
    with_session_settings(s.as_str(), memory_mb, Some(1))
}

/// Copies the rows with the ids of a list into a file of their own.
pub open spec fn extract_rows_sql_of(files: Seq<Seq<char>>, ids_file: Seq<char>, out_path: Seq<char>, memory_mb: Option<usize>) -> Seq<char> {
    with_settings(
        "COPY (SELECT s.* FROM read_parquet("@
        + path_list(files)
        + ") s INNER JOIN read_csv_auto("@
        + quoted(ids_file)
        + ", HEADER=true, ALL_VARCHAR=true) m ON CAST(s.id AS VARCHAR)=CAST(m.id AS VARCHAR)) TO "@
        + quoted(out_path)
        + " (FORMAT PARQUET, COMPRESSION SNAPPY);"@,
        memory_mb,
        Some(1),
    )
}

/// Copies the rows with the ids of a list into a file of their own.
pub fn extract_rows_sql(files: &Vec<String>, ids_file: &str, out_path: &str, memory_mb: Option<usize>) -> (r: String)
    ensures
        r@ == extract_rows_sql_of(text::texts(files@), ids_file@, out_path@, memory_mb),
{
    let mut s = "COPY (SELECT s.* FROM read_parquet(".to_owned();
    let files_q = sql_path_list(files);
    s.append(files_q.as_str());
    s.append(") s INNER JOIN read_csv_auto(");
    let ids_file_q = sql_quote(ids_file);
    s.append(ids_file_q.as_str());
    s.append(
        ", HEADER=true, ALL_VARCHAR=true) m ON CAST(s.id AS VARCHAR)=CAST(m.id AS VARCHAR)) TO ",
    );
    let out_path_q = sql_quote(out_path);
    s.append(out_path_q.as_str());
    s.append(" (FORMAT PARQUET, COMPRESSION SNAPPY);");
    with_session_settings(s.as_str(), memory_mb, Some(1))
}

/// Indexes one parquet file: for every row its id, the block of the id, where the
/// file stands and where the row stands in it.
pub open spec fn index_shard_sql_of(
    rel: Seq<char>,
    parquet_file: Seq<char>,
    out_file: Seq<char>,
    memory_mb: Option<usize>,
) -> Seq<char> {
    "SET preserve_insertion_order = false;"@ + "SET threads = 1;"@ + (match memory_mb {
        Some(mb) => "SET memory_limit='"@ + text::decimal(mb as nat) + "MB';"@,
        None => Seq::empty(),
    }) + "COPY (SELECT id, CAST(FLOOR(TRY_CAST(regexp_extract(CAST(id AS VARCHAR), '([0-9]+)$', 1) AS BIGINT) / 10000) AS INTEGER) AS id_block, '"@
        + text::replace_char(rel, '\'', "''"@) + "' AS parquet_file, file_row_number FROM read_parquet("@ + quoted(parquet_file)
        + ", file_row_number = true)) TO "@ + quoted(out_file)
        + " (FORMAT PARQUET, COMPRESSION SNAPPY);"@
}

/// Indexes one parquet file: for every row its id, the block of the id, where the
/// file stands and where the row stands in it.
pub fn index_shard_sql(rel: &str, parquet_file: &str, out_file: &str, memory_mb: Option<usize>) -> (r:
    String)
    ensures
        r@ == index_shard_sql_of(rel@, parquet_file@, out_file@, memory_mb),
{
    let mut s = "SET preserve_insertion_order = false;".to_owned();
    s.append("SET threads = 1;");
    let ghost head = s@;
    if let Some(mb) = memory_mb {
        s.append("SET memory_limit='");
        push_decimal(&mut s, mb as u128);
        s.append("MB';");
    }
    proof {
        let m = match memory_mb {
            Some(mb) => "SET memory_limit='"@ + text::decimal(mb as nat) + "MB';"@,
            None => Seq::empty(),
        };
        assert(s@ =~= head + m);
    }
    s.append(
        "COPY (SELECT id, CAST(FLOOR(TRY_CAST(regexp_extract(CAST(id AS VARCHAR), '([0-9]+)$', 1) AS BIGINT) / 10000) AS INTEGER) AS id_block, '",
    );
    let rel_q = replaced(rel, '\'', "''");
    s.append(rel_q.as_str());
    s.append("' AS parquet_file, file_row_number FROM read_parquet(");
    let parquet_q = sql_quote(parquet_file);
    s.append(parquet_q.as_str());
    s.append(", file_row_number = true)) TO ");
    let out_q = sql_quote(out_file);
    s.append(out_q.as_str());
    s.append(" (FORMAT PARQUET, COMPRESSION SNAPPY);");
    s
}

/// Converts one source file to parquet.
pub open spec fn convert_sql_of(
    input: Seq<char>,
    columns_clause: Seq<char>,
    extra_json_options: Seq<char>,
    out: Seq<char>,
    compression: Seq<char>,
    row_group_rows: usize,
) -> Seq<char> {
    "SET preserve_insertion_order = false;"@ + "COPY (SELECT * FROM read_json("@ + quoted(input)
        + ", columns = "@ + columns_clause + ", union_by_name = true, ignore_errors = true"@ + (
    if extra_json_options.len() == 0 {
        ")) TO "@
    } else {
        extra_json_options + ") ) TO "@
    }) + quoted(out) + " (FORMAT PARQUET, COMPRESSION "@ + text::uppercase_of(compression)
        + ", ROW_GROUP_SIZE "@ + text::decimal(row_group_rows as nat) + ");"@
}

/// Converts one source file to parquet.
pub fn convert_sql(
    input: &str,
    columns_clause: &str,
    extra_json_options: &str,
    out: &str,
    compression: &str,
    row_group_rows: usize,
) -> (r: String)
    ensures
        r@ == convert_sql_of(
            input@,
            columns_clause@,
            extra_json_options@,
            out@,
            compression@,
            row_group_rows,
        ),
{
    let mut s = "SET preserve_insertion_order = false;".to_owned();
    s.append("COPY (SELECT * FROM read_json(");
    let in_q = sql_quote(input);
    s.append(in_q.as_str());
    s.append(", columns = ");
    s.append(columns_clause);
    s.append(", union_by_name = true, ignore_errors = true");
    let ghost head = s@;
    if extra_json_options.is_empty() {
        s.append(")) TO ");
    } else {
        s.append(extra_json_options);
        s.append(") ) TO ");
    }
    proof {
        let m = if extra_json_options@.len() == 0 {
            ")) TO "@
        } else {
            extra_json_options@ + ") ) TO "@
        };
        assert(s@ =~= head + m);
    }
    let out_q = sql_quote(out);
    s.append(out_q.as_str());
    s.append(" (FORMAT PARQUET, COMPRESSION ");
    let codec = uppercase(compression);
    s.append(codec.as_str());
    s.append(", ROW_GROUP_SIZE ");
    push_decimal(&mut s, row_group_rows as u128);
    s.append(");");
    s
}

/// What the database reader takes besides for a dataset: the objects of works are
/// large.
pub open spec fn json_options_of(dataset: Seq<char>) -> Seq<char> {
    if dataset == "works"@ {
        ", maximum_object_size=1000000000"@
    } else {
        ""@
    }
}

/// What the database reader takes besides for a dataset.
pub fn extra_json_options(dataset: &str) -> (r: String)
    ensures
        r@ == json_options_of(dataset@),
{
    if str_eq(dataset, "works") {
        ", maximum_object_size=1000000000".to_owned()
    } else {
        "".to_owned()
    }
}

/// The number in a cell of a database row.
pub open spec fn cell_number(v: Option<Seq<char>>) -> Result<u64, Seq<char>> {
    match v {
        None => Err("missing numeric value"@),
        Some(s) => match text::unsigned_of(s, u64::MAX as nat) {
            Some(n) => Ok(n as u64),
            None => Err("invalid integer in duckdb output: "@ + text::u64_error_of(s)),
        },
    }
}

pub open spec fn number_view(r: Result<u64, String>) -> Result<u64, Seq<char>> {
    match r {
        Ok(n) => Ok(n),
        Err(e) => Err(e@),
    }
}

/// The number in a cell of a database row.
pub fn parse_u64(v: Option<&str>) -> (r: Result<u64, String>)
    ensures
        number_view(r) == cell_number(report::opt_text(v)),
{
    match v {
        None => Err("missing numeric value".to_owned()),
        Some(s) => match parse_unsigned(s, u64::MAX as u128) {
            Some(n) => Ok(n as u64),
            None => {
                let mut m = "invalid integer in duckdb output: ".to_owned();
                let why = u64_error(s);
                m.append(why.as_str());
                Err(m)
            },
        },
    }
}

/// What a row says under a name.
pub open spec fn row_cell(row: Map<Seq<char>, Seq<char>>, name: Seq<char>) -> Option<Seq<char>> {
    if row.dom().contains(name) {
        Some(row[name])
    } else {
        None
    }
}

/// The number that a row says under a name.
pub fn row_number(row: &TextMap, name: &str) -> (r: Result<u64, String>)
    requires
        row.wf(),
    ensures
        number_view(r) == cell_number(row_cell(row@, name@)),
{
    match row.get(name) {
        Some(s) => parse_u64(Some(s.as_str())),
        None => parse_u64(None),
    }
}

/// How many rows a file has, and the sum over their ids.
pub open spec fn metrics_of(row: Map<Seq<char>, Seq<char>>) -> Result<(u64, Seq<char>), Seq<char>> {
    match cell_number(row_cell(row, "n"@)) {
        Ok(n) => Ok((n, row_cell(row, "h"@).unwrap_or("0"@))),
        Err(e) => Err(e),
    }
}

pub open spec fn metrics_view(r: Result<(u64, String), String>) -> Result<
    (u64, Seq<char>),
    Seq<char>,
> {
    match r {
        Ok((n, h)) => Ok((n, h@)),
        Err(e) => Err(e@),
    }
}

/// How many rows a file has, and the sum over their ids, out of the row that the
/// database answered.
pub fn metrics_row(row: &TextMap) -> (r: Result<(u64, String), String>)
    requires
        row.wf(),
    ensures
        metrics_view(r) == metrics_of(row@),
{
    match row_number(row, "n") {
        Ok(n) => {
            let h = match row.get("h") {
                Some(h) => h,
                None => "0".to_owned(),
            };
            Ok((n, h))
        },
        Err(e) => Err(e),
    }
}

/// What a row says under a name, or else under another.
pub open spec fn either_cell(
    row: Map<Seq<char>, Seq<char>>,
    name: Seq<char>,
    other: Seq<char>,
) -> Option<Seq<char>> {
    if row.dom().contains(name) {
        Some(row[name])
    } else {
        row_cell(row, other)
    }
}

fn get_either(row: &TextMap, name: &str, other: &str) -> (r: Option<String>)
    requires
        row.wf(),
    ensures
        report::opt(r) == either_cell(row@, name@, other@),
{
    match row.get(name) {
        Some(s) => Some(s),
        None => row.get(other),
    }
}

pub open spec fn row_views(rows: Seq<TextMap>) -> Seq<Map<Seq<char>, Seq<char>>> {
    Seq::new(rows.len(), |i: int| rows[i]@)
}

/// The columns that the rows of a description name, with their types, or why a
/// row names none.
pub open spec fn described(rows: Seq<Map<Seq<char>, Seq<char>>>) -> Result<
    Map<Seq<char>, Seq<char>>,
    Seq<char>,
>
    decreases rows.len(),
{
    if rows.len() == 0 {
        Ok(Map::empty())
    } else {
        match described(rows.drop_last()) {
            Err(e) => Err(e),
            Ok(m) => match (
                either_cell(rows.last(), "column_name"@, "name"@),
                either_cell(rows.last(), "column_type"@, "type"@),
            ) {
                (None, _) => Err("DESCRIBE row missing column name"@),
                (Some(_), None) => Err("DESCRIBE row missing column type"@),
                (Some(n), Some(t)) => Ok(m.insert(n, t)),
            },
        }
    }
}

proof fn lemma_described_error(rows: Seq<Map<Seq<char>, Seq<char>>>, i: int)
    requires
        0 <= i <= rows.len(),
        described(rows.take(i)) is Err,
    ensures
        described(rows) == described(rows.take(i)),
    decreases rows.len(),
{
    if i == rows.len() {
        assert(rows.take(i) =~= rows);
    } else {
        assert(rows.drop_last().take(i) =~= rows.take(i));
        lemma_described_error(rows.drop_last(), i);
    }
}

/// The columns that the rows of a description name, with their types.
pub fn describe_columns(rows: &Vec<TextMap>) -> (r: Result<TextMap, String>)
    requires
        forall|i: int| 0 <= i < rows@.len() ==> (#[trigger] rows@[i]).wf(),
    ensures
        match (r, described(row_views(rows@))) {
            (Ok(m), Ok(v)) => m.wf() && m@ == v,
            (Err(e), Err(v)) => e@ == v,
            _ => false,
        },
{
    let ghost all = row_views(rows@);
    let mut out = TextMap::new();
    let mut i: usize = 0;
    assert(all.take(0) =~= Seq::<Map<Seq<char>, Seq<char>>>::empty());
    while i < rows.len()
        invariant
            i <= rows@.len(),
            all == row_views(rows@),
            forall|i: int| 0 <= i < rows@.len() ==> (#[trigger] rows@[i]).wf(),
            out.wf(),
            described(all.take(i as int)) == Ok::<Map<Seq<char>, Seq<char>>, Seq<char>>(out@),
        decreases rows@.len() - i,
    {
        proof {
            assert(all.take(i + 1).drop_last() =~= all.take(i as int));
            assert(all.take(i + 1).last() == rows@[i as int]@);
        }
        let name = get_either(&rows[i], "column_name", "name");
        let ty = get_either(&rows[i], "column_type", "type");
        match (name, ty) {
            (None, _) => {
                proof {
                    lemma_described_error(all, i + 1);
                }
                return Err("DESCRIBE row missing column name".to_owned());
            },
            (Some(_), None) => {
                proof {
                    lemma_described_error(all, i + 1);
                }
                return Err("DESCRIBE row missing column type".to_owned());
            },
            (Some(n), Some(t)) => {
                out.insert(n, t);
            },
        }
        i += 1;
    }
    assert(all.take(i as int) =~= all);
    Ok(out)
}

/// A text is quoted character by character: a quote and a backslash are doubled, every
/// other character stands for itself.
pub proof fn law_quoted_characters(s: Seq<char>, c: char)
    ensures
        quoted(Seq::empty()) == seq!['\'', '\''],
        c == '\'' || c == '\\' ==> quoted(s.push(c)) == quoted(s).drop_last().push(c).push(c).push(
            '\'',
        ),
        c != '\'' && c != '\\' ==> quoted(s.push(c)) == quoted(s).drop_last().push(c).push('\''),
{
    reveal_strlit("'");
    lemma_quoted_is_escaped(Seq::empty());
    lemma_quoted_is_escaped(s);
    lemma_quoted_is_escaped(s.push(c));
    assert(s.push(c).drop_last() =~= s);
    let lead = "'"@ + escaped(s);
    assert(quoted(s).drop_last() =~= lead);
    if c == '\'' || c == '\\' {
        assert(quoted(s.push(c)) =~= lead.push(c).push(c).push('\''));
    } else {
        assert(quoted(s.push(c)) =~= lead.push(c).push('\''));
    }
    assert(quoted(Seq::empty()) =~= seq!['\'', '\'']);
}

/// Files are listed in brackets, each as a literal, with a comma and a space between
/// them.
pub proof fn law_listed_files(files: Seq<Seq<char>>, file: Seq<char>)
    ensures
        path_list(Seq::empty()) == seq!['[', ']'],
        path_list(seq![file]) == seq!['['] + quoted(file) + seq![']'],
        files.len() > 0 ==> path_list(files.push(file)) == path_list(files).drop_last() + seq![
            ',',
            ' ',
        ] + quoted(file) + seq![']'],
{
    reveal_strlit("[");
    reveal_strlit("]");
    reveal_strlit(", ");
    assert(quoted_list(files.push(file)) =~= quoted_list(files).push(quoted(file)));
    assert(quoted_list(files).push(quoted(file)).drop_last() =~= quoted_list(files));
    assert(quoted_list(seq![file]) =~= seq![quoted(file)]);
    assert(quoted_list(Seq::empty()) =~= Seq::<Seq<char>>::empty());
    reveal_with_fuel(text::join, 2);
    assert(seq![quoted(file)].drop_last() =~= Seq::<Seq<char>>::empty());
    assert(path_list(seq![file]) =~= seq!['['] + quoted(file) + seq![']']);
    assert(path_list(Seq::empty()) =~= seq!['[', ']']);
    if files.len() > 0 {
        let list = text::join(quoted_list(files), ", "@);
        assert(path_list(files).drop_last() =~= "["@ + list);
        assert(path_list(files.push(file)) =~= "["@ + list + seq![',', ' '] + quoted(file) + seq![
            ']',
        ]);
    }
}

/// The settings of a session stand before its question, the threads first, at least one,
/// then the memory; what is not set is not spoken of.
pub proof fn law_session_settings(question: Seq<char>, n: usize, mb: usize)
    ensures
        with_settings(question, None, None) == question,
        n >= 1 ==> with_settings(question, None, Some(n)) == "SET threads = "@ + text::decimal(
            n as nat,
        ) + "; "@ + question,
        with_settings(question, None, Some(0)) == with_settings(question, None, Some(1)),
        with_settings(question, Some(mb), None) == "SET memory_limit='"@ + text::decimal(mb as nat)
            + "MB'; "@ + question,
        with_settings(question, Some(mb), Some(n)) == with_settings(
            with_settings(question, Some(mb), None),
            None,
            Some(n),
        ),
{
    let none = Seq::<char>::empty();
    assert(with_settings(question, None, None) =~= question);
    assert(with_settings(question, None, Some(n)) =~= "SET threads = "@ + text::decimal(
        (if n >= 1 { n as nat } else { 1 }),
    ) + "; "@ + question);
    assert(with_settings(question, Some(mb), None) =~= "SET memory_limit='"@ + text::decimal(
        mb as nat,
    ) + "MB'; "@ + question);
    assert(with_settings(question, Some(mb), Some(n)) =~= with_settings(
        with_settings(question, Some(mb), None),
        None,
        Some(n),
    ));
}

/// A number is read from its cell, an answer without a sum over ids has none, and an
/// answer without a number is an error.
pub proof fn law_cells(n: u64, h: Seq<char>)
    ensures
        cell_number(Some(text::decimal(n as nat))) == Ok::<u64, Seq<char>>(n),
        cell_number(None) is Err,
        metrics_of(map!["n"@ => text::decimal(n as nat)]) == Ok::<(u64, Seq<char>), Seq<char>>(
            (n, "0"@),
        ),
        metrics_of(map!["h"@ => h]) is Err,
{
    reveal_strlit("n");
    reveal_strlit("h");
    assert("n"@[0] != "h"@[0]);
    text::law_decimal_round_trip(n as nat);
    text::law_unsigned_reading(text::decimal(n as nat), u64::MAX as nat);
}

/// Each row of a description gives the type of a column, under either of two names each;
/// a row without a name or without a type is an error, and what follows an error does
/// not mend it.
pub proof fn law_described_columns(
    rows: Seq<Map<Seq<char>, Seq<char>>>,
    name: Seq<char>,
    kind: Seq<char>,
    row: Map<Seq<char>, Seq<char>>,
)
    ensures
        described(Seq::empty()) == Ok::<Map<Seq<char>, Seq<char>>, Seq<char>>(Map::empty()),
        described(rows) matches Ok(m) ==> {
            &&& described(rows.push(map!["column_name"@ => name, "column_type"@ => kind])) == Ok::<
                Map<Seq<char>, Seq<char>>,
                Seq<char>,
            >(m.insert(name, kind))
            &&& described(rows.push(map!["name"@ => name, "type"@ => kind])) == Ok::<
                Map<Seq<char>, Seq<char>>,
                Seq<char>,
            >(m.insert(name, kind))
            &&& described(rows.push(map!["column_type"@ => kind])) is Err
            &&& described(rows.push(map!["column_name"@ => name])) is Err
        },
        described(rows) is Err ==> described(rows.push(row)) is Err,
{
    reveal_strlit("column_name");
    reveal_strlit("column_type");
    reveal_strlit("name");
    reveal_strlit("type");
    assert("column_name"@[7] != "column_type"@[7]);
    assert("column_name"@.len() == 11 && "column_type"@.len() == 11);
    assert("name"@.len() == 4 && "type"@.len() == 4 && "name"@[0] != "type"@[0]);
    let long = map!["column_name"@ => name, "column_type"@ => kind];
    let short = map!["name"@ => name, "type"@ => kind];
    assert(rows.push(long).drop_last() =~= rows);
    assert(rows.push(short).drop_last() =~= rows);
    assert(rows.push(map!["column_type"@ => kind]).drop_last() =~= rows);
    assert(rows.push(map!["column_name"@ => name]).drop_last() =~= rows);
    assert(rows.push(row).drop_last() =~= rows);
    assert(long["column_name"@] == name && long["column_type"@] == kind);
    assert(short["name"@] == name && short["type"@] == kind);
}

/// Only works are read with room for large objects, a thousand million bytes.
pub proof fn law_reading_options(dataset: Seq<char>)
    ensures
        json_options_of("works"@) == ", maximum_object_size=1000000000"@,
        dataset != "works"@ ==> json_options_of(dataset) == ""@,
{
}
/// A description is asked of the rows of a file as they would be read, with one thread.
pub proof fn law_descriptions(file: Seq<char>, options: Seq<char>, memory_mb: Option<usize>)
    ensures
        describe_json_sql_of(file, options, memory_mb) == with_settings(
            "SELECT * FROM (DESCRIBE SELECT * FROM read_json_auto("@ + quoted(file)
                + ", union_by_name=true, ignore_errors=true"@ + options + "))"@,
            memory_mb,
            Some(1),
        ),
        describe_parquet_sql_of(file, memory_mb) == with_settings(
            "SELECT * FROM (DESCRIBE SELECT * FROM read_parquet("@ + quoted(file) + "))"@,
            memory_mb,
            Some(1),
        ),
{
}

/// The memory and the place for what does not fit in it are set in statements of their
/// own.
pub proof fn law_settings_of_a_connection(mb: usize, dir: Seq<char>)
    ensures
        memory_limit_sql_of(mb) == "SET memory_limit='"@ + text::decimal(mb as nat) + "MB';"@,
        temp_directory_sql_of(dir) == "SET temp_directory='"@ + dir + "';"@,
{
}

/// An index is made in two steps: each parquet file gives a shard that holds, for each of
/// its rows, the id, the block of ten thousand that the number of the id falls in, the
/// path of the file and the place of the row; and all shards together are the index.
pub proof fn law_making_an_index(
    rel: Seq<char>,
    file: Seq<char>,
    shard: Seq<char>,
    shards: Seq<char>,
    index_file: Seq<char>,
    mb: usize,
)
    ensures
        ({
            let block = "CAST(FLOOR(TRY_CAST(regexp_extract(CAST(id AS VARCHAR), '([0-9]+)$', 1) AS BIGINT) / 10000) AS INTEGER) AS id_block"@;
            let copy = "COPY (SELECT id, "@ + block + ", '"@ + text::replace_char(rel, '\'', "''"@)
                + "' AS parquet_file, file_row_number FROM read_parquet("@ + quoted(file)
                + ", file_row_number = true)) TO "@ + quoted(shard)
                + " (FORMAT PARQUET, COMPRESSION SNAPPY);"@;
            let front = "SET preserve_insertion_order = false;SET threads = 1;"@;
            &&& index_shard_sql_of(rel, file, shard, None) == front + copy
            &&& index_shard_sql_of(rel, file, shard, Some(mb)) == front + memory_limit_sql_of(mb)
                + copy
        }),
        combine_index_sql_of(shards, index_file) == "COPY (SELECT * FROM read_parquet("@ + quoted(
            shards,
        ) + ")) TO "@ + quoted(index_file) + " (FORMAT PARQUET, COMPRESSION SNAPPY);"@,
{
    reveal_strlit("CAST(FLOOR(TRY_CAST(regexp_extract(CAST(id AS VARCHAR), '([0-9]+)$', 1) AS BIGINT) / 10000) AS INTEGER) AS id_block");
    reveal_strlit("COPY (SELECT id, ");
    reveal_strlit(", '");
    reveal_strlit("COPY (SELECT id, CAST(FLOOR(TRY_CAST(regexp_extract(CAST(id AS VARCHAR), '([0-9]+)$', 1) AS BIGINT) / 10000) AS INTEGER) AS id_block, '");
    reveal_strlit("SET preserve_insertion_order = false;");
    reveal_strlit("SET threads = 1;");
    reveal_strlit("SET preserve_insertion_order = false;SET threads = 1;");
    let block = "CAST(FLOOR(TRY_CAST(regexp_extract(CAST(id AS VARCHAR), '([0-9]+)$', 1) AS BIGINT) / 10000) AS INTEGER) AS id_block"@;
    let head = "COPY (SELECT id, CAST(FLOOR(TRY_CAST(regexp_extract(CAST(id AS VARCHAR), '([0-9]+)$', 1) AS BIGINT) / 10000) AS INTEGER) AS id_block, '"@;
    assert(head =~= "COPY (SELECT id, "@ + block + ", '"@);
    let copy = "COPY (SELECT id, "@ + block + ", '"@ + text::replace_char(rel, '\'', "''"@)
        + "' AS parquet_file, file_row_number FROM read_parquet("@ + quoted(file)
        + ", file_row_number = true)) TO "@ + quoted(shard)
        + " (FORMAT PARQUET, COMPRESSION SNAPPY);"@;
    let front = "SET preserve_insertion_order = false;SET threads = 1;"@;
    assert(front =~= "SET preserve_insertion_order = false;"@ + "SET threads = 1;"@);
    assert(index_shard_sql_of(rel, file, shard, None) =~= front + copy);
    assert(index_shard_sql_of(rel, file, shard, Some(mb)) =~= front + memory_limit_sql_of(mb)
        + copy);
}

/// An index is checked by its number of rows against that of the corpus, each under its
/// own name, and by the files that it refers to.
pub proof fn law_checking_an_index(
    index_file: Seq<char>,
    corpus: Seq<char>,
    memory_mb: Option<usize>,
    workers: usize,
)
    ensures
        index_counts_sql_of(index_file, corpus, memory_mb, workers) == with_settings(
            "SELECT (SELECT COUNT(*) FROM read_parquet("@ + quoted(index_file)
                + ")) AS idx_count, (SELECT COUNT(*) FROM read_parquet("@ + quoted(corpus)
                + ")) AS corpus_count;"@,
            memory_mb,
            Some(workers),
        ),
        index_refs_sql_of(index_file, memory_mb, workers) == with_settings(
            "SELECT DISTINCT parquet_file FROM read_parquet("@ + quoted(index_file) + ");"@,
            memory_mb,
            Some(workers),
        ),
{
}

/// The rows of ids are found in two steps: the index says which files hold the ids that
/// were asked for, and from those files the rows of these ids are copied.
pub proof fn law_finding_rows(
    index_file: Seq<char>,
    ids_file: Seq<char>,
    files: Seq<Seq<char>>,
    out_path: Seq<char>,
    memory_mb: Option<usize>,
)
    ensures
        ({
            let ids = "read_csv_auto("@ + quoted(ids_file) + ", HEADER=true, ALL_VARCHAR=true)"@;
            &&& find_ids_sql_of(index_file, ids_file, memory_mb) == with_settings(
                "SELECT DISTINCT CAST(i.id AS VARCHAR) AS id, i.parquet_file AS parquet_file FROM read_parquet("@
                    + quoted(index_file) + ") i INNER JOIN "@ + ids
                    + " r ON CAST(i.id AS VARCHAR)=CAST(r.id AS VARCHAR);"@,
                memory_mb,
                Some(1),
            )
            &&& extract_rows_sql_of(files, ids_file, out_path, memory_mb) == with_settings(
                "COPY (SELECT s.* FROM read_parquet("@ + path_list(files) + ") s INNER JOIN "@ + ids
                    + " m ON CAST(s.id AS VARCHAR)=CAST(m.id AS VARCHAR)) TO "@ + quoted(out_path)
                    + " (FORMAT PARQUET, COMPRESSION SNAPPY);"@,
                memory_mb,
                Some(1),
            )
        }),
{
    reveal_strlit("read_csv_auto(");
    reveal_strlit(", HEADER=true, ALL_VARCHAR=true)");
    reveal_strlit(") i INNER JOIN ");
    reveal_strlit(") s INNER JOIN ");
    reveal_strlit(") i INNER JOIN read_csv_auto(");
    reveal_strlit(") s INNER JOIN read_csv_auto(");
    reveal_strlit(" r ON CAST(i.id AS VARCHAR)=CAST(r.id AS VARCHAR);");
    reveal_strlit(", HEADER=true, ALL_VARCHAR=true) r ON CAST(i.id AS VARCHAR)=CAST(r.id AS VARCHAR);");
    reveal_strlit(" m ON CAST(s.id AS VARCHAR)=CAST(m.id AS VARCHAR)) TO ");
    reveal_strlit(", HEADER=true, ALL_VARCHAR=true) m ON CAST(s.id AS VARCHAR)=CAST(m.id AS VARCHAR)) TO ");
    let ids = "read_csv_auto("@ + quoted(ids_file) + ", HEADER=true, ALL_VARCHAR=true)"@;
    assert(") i INNER JOIN read_csv_auto("@ =~= ") i INNER JOIN "@ + "read_csv_auto("@);
    assert(") s INNER JOIN read_csv_auto("@ =~= ") s INNER JOIN "@ + "read_csv_auto("@);
    assert(", HEADER=true, ALL_VARCHAR=true) r ON CAST(i.id AS VARCHAR)=CAST(r.id AS VARCHAR);"@
        =~= ", HEADER=true, ALL_VARCHAR=true)"@
        + " r ON CAST(i.id AS VARCHAR)=CAST(r.id AS VARCHAR);"@);
    assert(", HEADER=true, ALL_VARCHAR=true) m ON CAST(s.id AS VARCHAR)=CAST(m.id AS VARCHAR)) TO "@
        =~= ", HEADER=true, ALL_VARCHAR=true)"@
        + " m ON CAST(s.id AS VARCHAR)=CAST(m.id AS VARCHAR)) TO "@);
    let find = "SELECT DISTINCT CAST(i.id AS VARCHAR) AS id, i.parquet_file AS parquet_file FROM read_parquet("@
        + quoted(index_file) + ") i INNER JOIN "@ + ids
        + " r ON CAST(i.id AS VARCHAR)=CAST(r.id AS VARCHAR);"@;
    assert(find =~= "SELECT DISTINCT CAST(i.id AS VARCHAR) AS id, i.parquet_file AS parquet_file FROM read_parquet("@
        + quoted(index_file) + ") i INNER JOIN read_csv_auto("@ + quoted(ids_file)
        + ", HEADER=true, ALL_VARCHAR=true) r ON CAST(i.id AS VARCHAR)=CAST(r.id AS VARCHAR);"@);
    let copy = "COPY (SELECT s.* FROM read_parquet("@ + path_list(files) + ") s INNER JOIN "@ + ids
        + " m ON CAST(s.id AS VARCHAR)=CAST(m.id AS VARCHAR)) TO "@ + quoted(out_path)
        + " (FORMAT PARQUET, COMPRESSION SNAPPY);"@;
    assert(copy =~= "COPY (SELECT s.* FROM read_parquet("@ + path_list(files)
        + ") s INNER JOIN read_csv_auto("@ + quoted(ids_file)
        + ", HEADER=true, ALL_VARCHAR=true) m ON CAST(s.id AS VARCHAR)=CAST(m.id AS VARCHAR)) TO "@
        + quoted(out_path) + " (FORMAT PARQUET, COMPRESSION SNAPPY);"@);
}

/// A source is converted by copying its rows, read with the columns of its schema, to a
/// parquet file of the given compression and rows to a group.
pub proof fn law_converting(
    input: Seq<char>,
    columns: Seq<char>,
    options: Seq<char>,
    out: Seq<char>,
    compression: Seq<char>,
    rows: usize,
)
    ensures
        ({
            let read = "SET preserve_insertion_order = false;COPY (SELECT * FROM read_json("@
                + quoted(input) + ", columns = "@ + columns
                + ", union_by_name = true, ignore_errors = true"@;
            let write = quoted(out) + " (FORMAT PARQUET, COMPRESSION "@ + text::uppercase_of(
                compression,
            ) + ", ROW_GROUP_SIZE "@ + text::decimal(rows as nat) + ");"@;
            &&& convert_sql_of(input, columns, Seq::empty(), out, compression, rows) == read
                + ")) TO "@ + write
            &&& options.len() > 0 ==> convert_sql_of(
                input,
                columns,
                options,
                out,
                compression,
                rows,
            ) == read + options + ") ) TO "@ + write
        }),
{
    reveal_strlit("SET preserve_insertion_order = false;");
    reveal_strlit("COPY (SELECT * FROM read_json(");
    reveal_strlit("SET preserve_insertion_order = false;COPY (SELECT * FROM read_json(");
    assert("SET preserve_insertion_order = false;COPY (SELECT * FROM read_json("@
        =~= "SET preserve_insertion_order = false;"@ + "COPY (SELECT * FROM read_json("@);
    let read = "SET preserve_insertion_order = false;COPY (SELECT * FROM read_json("@ + quoted(
        input,
    ) + ", columns = "@ + columns + ", union_by_name = true, ignore_errors = true"@;
    let write = quoted(out) + " (FORMAT PARQUET, COMPRESSION "@ + text::uppercase_of(compression)
        + ", ROW_GROUP_SIZE "@ + text::decimal(rows as nat) + ");"@;
    assert(convert_sql_of(input, columns, Seq::empty(), out, compression, rows) =~= read
        + ")) TO "@ + write);
    if options.len() > 0 {
        assert(convert_sql_of(input, columns, options, out, compression, rows) =~= read + options
            + ") ) TO "@ + write);
    }
}

/// A text that begins with no setting, but for spaces, is a question as a whole, and what
/// stands before it is those spaces.
pub proof fn law_questions_without_settings(sql: Seq<char>)
    ensures
        text::trim_start(sql).len() == 0 ==> set_prefix(sql, 0).1.len() == 0,
        text::trim_start(sql).len() > 0 && !is_set(text::trim_start(sql)) ==> set_prefix(sql, 0).1
            == text::trim_start(sql) && set_prefix(sql, 0).0 == sql.len() - text::trim_start(
            sql,
        ).len(),
{
    assert(sql.skip(0) =~= sql);
}

/// A setting at the start is passed over up to its semicolon: what is left is what is left
/// of the rest.
pub proof fn law_settings_are_passed_over(setting: Seq<char>, rest: Seq<char>)
    requires
        setting.len() > 0,
        !text::is_space(setting[0]),
        !setting.contains(';'),
    ensures
        is_set(setting + seq![';'] + rest) ==> set_prefix(setting + seq![';'] + rest, 0)
            == set_prefix(setting + seq![';'] + rest, setting.len() as int + 1),
{
    let sql = setting + seq![';'] + rest;
    let n = setting.len() as int;
    assert(sql.skip(0) =~= sql);
    assert(text::trim_start(sql) == sql) by {
        assert(sql[0] == setting[0]);
        reveal_with_fuel(text::trim_start, 2);
    }
    assert forall|i: int| 0 <= i < n implies sql[i] != ';' by {
        assert(setting.contains(setting[i]));
    }
    assert(sql[n] == ';');
    lemma_first_semicolon(sql, 0, n);
}

proof fn lemma_first_semicolon(t: Seq<char>, i: int, n: int)
    requires
        0 <= i <= n < t.len(),
        t[n] == ';',
        forall|k: int| i <= k < n ==> #[trigger] t[k] != ';',
    ensures
        semicolon_at(t, i) == Some(n),
    decreases n - i,
{
    if i < n {
        lemma_first_semicolon(t, i + 1, n);
    }
}
} // verus!
