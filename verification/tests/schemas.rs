use openalex_snapshot::inference::{
    columns_of, compare_schemas, end_schema, parquet_glob, schema_args, schema_output_path,
    source_schema, verify_schema_verdict, Inference, SchemaOutcome, SourceSchema,
};
use openalex_snapshot::plan::Tuning;
use openalex_snapshot::report::report_new;
use openalex_snapshot::schema::{
    duckdb_to_arrow_type, is_checkpoint, merge_columns, parquet_schema_doc, read_unified_schema_csv,
    render_table, reread_schema, sample_indices, schema_choice, schema_diff, schema_doc_from_merged,
    to_duckdb_columns_clause, widen_type, write_unified_schema_csv, Column, SchemaChoice,
    SchemaCsvError, SchemaFormat, SchemaFrom,
};
use openalex_snapshot::textmap::TextMap;

fn col(name: &str, t: &str) -> Column {
    Column { name: name.to_string(), duckdb_type: t.to_string() }
}

#[test]
fn merging_widens_types_and_loses_no_column() {
    let mut m = TextMap::new();
    merge_columns(&mut m, &vec![col("b", "INTEGER"), col("a", "VARCHAR")]);
    merge_columns(&mut m, &vec![col("b", "DOUBLE"), col("c", "BOOLEAN")]);
    assert_eq!(m.sorted_keys(), ["a", "b", "c"]);
    assert_eq!(m.get("b").as_deref(), Some("DOUBLE"));
    let doc = schema_doc_from_merged("works", &m, 7);
    let shape: Vec<(&str, &str)> =
        doc.fields.iter().map(|f| (f.name.as_str(), f.arrow_type.as_str())).collect();
    assert_eq!(shape, vec![("a", "utf8"), ("b", "float64"), ("c", "bool")]);
    assert_eq!(doc.generated_at_unix, 7);
    assert_eq!(
        to_duckdb_columns_clause(&doc.fields),
        "{'a': 'VARCHAR', 'b': 'DOUBLE', 'c': 'BOOLEAN'}"
    );
}

#[test]
fn types_are_read_in_any_case() {
    assert_eq!(duckdb_to_arrow_type("bigint"), "int64");
    assert_eq!(widen_type("integer", "varchar"), "VARCHAR");
}

#[test]
fn a_written_schema_is_read_back() {
    let doc = parquet_schema_doc("works", &vec![col("x,1", "STRUCT(a \"b\" VARCHAR)"), col("a", "BIGINT")], 3);
    let text = write_unified_schema_csv(&doc.fields);
    assert!(text.starts_with("col_name,col_type\n"));
    let back = read_unified_schema_csv("works", text.as_bytes(), 9).ok().unwrap();
    let shape: Vec<(&str, Option<&str>)> =
        back.fields.iter().map(|f| (f.name.as_str(), f.duckdb_type.as_deref())).collect();
    assert_eq!(shape, vec![("a", Some("BIGINT")), ("x,1", Some("STRUCT(a \"b\" VARCHAR)"))]);
    assert_eq!(back.generated_at_unix, 9);
    let again = reread_schema(&doc, 4).ok().unwrap();
    assert_eq!(again.fields.len(), 2);
}

#[test]
fn a_schema_file_without_its_columns_is_refused() {
    let e = read_unified_schema_csv("w", b"foo,bar\na,b\n", 0).err().unwrap();
    assert!(matches!(e, SchemaCsvError::MissingName));
    let e = read_unified_schema_csv("w", b"col_name,bar\na,b\n", 0).err().unwrap();
    assert!(matches!(e, SchemaCsvError::MissingType));
    let e = read_unified_schema_csv("w", b"col_name,col_type\na\n", 0).err().unwrap();
    assert!(matches!(e, SchemaCsvError::InvalidRow(_)));
    assert!(!e.message().is_empty());
}

#[test]
fn schemas_are_compared_by_name_and_type() {
    let l = parquet_schema_doc("w", &vec![col("a", "BIGINT"), col("b", "VARCHAR")], 0);
    let r = parquet_schema_doc("w", &vec![col("b", "DOUBLE"), col("c", "VARCHAR")], 0);
    let d = schema_diff(&l, &r);
    assert_eq!(d.added, ["c"]);
    assert_eq!(d.removed, ["a"]);
    assert_eq!(d.changed_types.len(), 1);
    assert_eq!(d.changed_types[0].left_type, "utf8");
    assert_eq!(d.changed_types[0].right_type, "float64");
    assert_eq!(
        d.render_table(),
        "dataset: w\nleft: parquet\nright: parquet\nadded: 1\nremoved: 1\nchanged_types: 1\n"
    );
    assert!(schema_diff(&l, &l).is_empty());
    let (agree, line) = compare_schemas("w", &d, SchemaFrom::Source, SchemaFrom::Parquet);
    assert!(!agree);
    assert_eq!(
        line,
        "[verify_schema] dataset=w status=failed added=1 removed=1 changed_types=1 from=Source diff_with=Parquet"
    );
    let (agree, line) = compare_schemas("w", &schema_diff(&l, &l), SchemaFrom::Auto, SchemaFrom::Cache);
    assert!(agree);
    assert_eq!(line, "[verify_schema] dataset=w status=ok from=Auto diff_with=Cache");
    assert_eq!(verify_schema_verdict(0), Ok(()));
    assert_eq!(
        verify_schema_verdict(2),
        Err("[verify_schema] schema differences detected in 2 dataset(s)".to_string())
    );
    assert!(render_table(&l).contains("a"));
}

#[test]
fn samples_are_spread_over_the_files() {
    assert_eq!(sample_indices(3, 0), [0, 1, 2]);
    assert_eq!(sample_indices(3, 5), [0, 1, 2]);
    let want: Vec<usize> = (0..10).step_by(10 / 4).take(4).collect();
    assert_eq!(sample_indices(10, 4), want);
    assert!(is_checkpoint(1, 9, 2));
    assert!(!is_checkpoint(0, 9, 2));
    assert!(is_checkpoint(8, 9, 25));
    assert!(is_checkpoint(0, 9, 0));
}

#[test]
fn the_place_of_a_schema_is_chosen() {
    let f = |from, src, csv: Vec<bool>, json: Vec<bool>| schema_choice(from, src, &csv, &json);
    assert_eq!(f(SchemaFrom::Source, false, vec![true], vec![]), SchemaChoice::Source);
    assert_eq!(f(SchemaFrom::Cache, true, vec![false, true], vec![true]), SchemaChoice::Csv(1));
    assert_eq!(f(SchemaFrom::Cache, true, vec![false], vec![false, true]), SchemaChoice::Json(1));
    assert_eq!(f(SchemaFrom::Cache, true, vec![false], vec![]), SchemaChoice::NoCache);
    assert_eq!(f(SchemaFrom::Parquet, true, vec![true], vec![]), SchemaChoice::Parquet);
    assert_eq!(f(SchemaFrom::Auto, true, vec![true], vec![]), SchemaChoice::Source);
    assert_eq!(f(SchemaFrom::Auto, false, vec![true], vec![]), SchemaChoice::Csv(0));
    assert_eq!(f(SchemaFrom::Auto, false, vec![], vec![]), SchemaChoice::Parquet);
    assert!(matches!(source_schema("w", false, &vec![false, true], 3), SourceSchema::Csv(1)));
    assert!(matches!(source_schema("w", true, &vec![true], 3), SourceSchema::Infer));
    match source_schema("w", true, &vec![true], 0) {
        SourceSchema::NoSources(e) => assert_eq!(e, "no source .gz files found for dataset w"),
        _ => panic!("sources"),
    }
}

#[test]
fn inference_writes_down_what_it_knows() {
    let mut i = Inference::start(3, 2);
    assert!(!i.take(&vec![col("a", "BIGINT")]));
    assert!(i.take(&vec![col("a", "DOUBLE")]));
    assert!(i.take(&vec![col("b", "VARCHAR")]));
    let c = columns_of(&i.merged);
    let shape: Vec<(&str, &str)> =
        c.iter().map(|c| (c.name.as_str(), c.duckdb_type.as_str())).collect();
    assert_eq!(shape, vec![("a", "DOUBLE"), ("b", "VARCHAR")]);
}

#[test]
fn schema_outcomes_are_recorded() {
    let mut r = report_new("schema", "1", 0, 0, vec![]);
    end_schema(&mut r, "w", SchemaOutcome::NoSchema("e1".to_string()), "/s", "/p");
    end_schema(&mut r, "w", SchemaOutcome::NoOther("e2".to_string()), "/s", "/p");
    let nw = SchemaOutcome::NotWritten { path: "/o".to_string(), error: "e3".to_string() };
    end_schema(&mut r, "w", nw, "/s", "/p");
    end_schema(&mut r, "w", SchemaOutcome::Shown, "/s", "/p");
    let phases: Vec<&str> = r.failures.iter().map(|f| f.phase.as_str()).collect();
    assert_eq!(phases, ["schema_load", "schema_diff_rhs", "schema_output"]);
    assert_eq!(r.failures[0].source_path.as_deref(), Some("/s/data/w"));
    assert_eq!(r.failures[2].output_path.as_deref(), Some("/o"));
    let counts: Vec<(u64, u64)> = r.datasets.iter().map(|d| (d.succeeded, d.failed)).collect();
    assert_eq!(counts, vec![(0, 1), (0, 1), (0, 1), (1, 0)]);
}

#[test]
fn schema_paths_and_settings() {
    assert_eq!(schema_output_path("/o", "all", "works", SchemaFormat::Yaml), "/o/works_schema.yaml");
    assert_eq!(schema_output_path("/o", "works", "works", SchemaFormat::Yaml), "/o");
    assert_eq!(schema_output_path("/o", "all", "w", SchemaFormat::ArrowR), "/o/w_schema.json");
    assert_eq!(parquet_glob("/p", "w"), "/p/w/**/*.parquet");
    let t = Tuning { workers: 2, memory_mb: Some(9) };
    let a = schema_args("all", SchemaFrom::Auto, SchemaFormat::ArrowR, &t, 25);
    let shape: Vec<(&str, &str)> = a.iter().map(|x| (x.name.as_str(), x.value.as_str())).collect();
    assert_eq!(
        shape,
        vec![
            ("dataset", "all"),
            ("from", "Auto"),
            ("format", "ArrowR"),
            ("workers", "2"),
            ("memory_mb", "Some(9)"),
            ("state_flush_every", "25")
        ]
    );
}
