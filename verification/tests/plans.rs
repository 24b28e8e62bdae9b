use openalex_snapshot::plan::{
    auto_profile_safe_memory_mb, auto_profile_single_worker_safe_memory_mb, build_convert_plan,
    byte_text_total_mb, derive_stratified_profile_for_ram, light_tuning_with_override,
    meminfo_total_mb, parse_size_checked, parse_size_str, profile_tuning, representative_tuning,
    sort_largest_first, FilePair, ScaledStratum,
};
use openalex_snapshot::profile::{
    builtin_profiles, ram_warning, validate_profile_def, NamedProfile, ProfileDef, ProfileKind, ProfileRegistry,
    Stratum,
};

fn pair(name: &str, size: u64) -> FilePair {
    FilePair {
        input_gz: format!("/s/data/works/{}.gz", name),
        output_parquet: format!("/p/works/{}.parquet", name),
        rel: format!("{}.gz", name),
        gz_size_bytes: size,
    }
}

fn names(v: &[FilePair]) -> Vec<String> {
    v.iter().map(|p| p.rel.clone()).collect()
}

const MIB: u64 = 1024 * 1024;

#[test]
fn single_worker_memory_follows_the_float_formula() {
    assert_eq!(auto_profile_single_worker_safe_memory_mb(None), 8192);
    assert_eq!(auto_profile_single_worker_safe_memory_mb(Some(0)), 8192);
    for t in [1usize, 4096, 16_384, 32_768, 36_864, 65_536, 70_000, 131_072, 33_335, 40_001] {
        let usable = (t as f64 * 0.80).floor() as usize;
        let mb = ((usable as f64) * 0.45).floor() as usize;
        assert_eq!(auto_profile_single_worker_safe_memory_mb(Some(t)), mb.clamp(8192, 24_576));
    }
    assert_eq!(auto_profile_single_worker_safe_memory_mb(Some(36_864)), 13_270);
}

#[test]
fn shared_worker_memory_follows_the_float_formula() {
    assert_eq!(auto_profile_safe_memory_mb(None), 2048);
    for t in [1usize, 4096, 16_384, 32_768, 36_864, 65_536, 70_000, 131_072, 33_335, 40_001] {
        let usable = (t as f64 * 0.80).floor() as usize;
        let mb = ((usable as f64) * 0.15).floor() as usize;
        assert_eq!(auto_profile_safe_memory_mb(Some(t)), mb.clamp(1024, 8192));
    }
    assert_eq!(auto_profile_safe_memory_mb(Some(36_864)), 4423);
}

#[test]
fn light_tuning_takes_the_override() {
    let t = light_tuning_with_override(3, Some(512), Some(16));
    assert_eq!(t.workers, 3);
    assert_eq!(t.memory_mb, Some(512));
    let a = light_tuning_with_override(0, None, Some(2));
    assert!(a.workers >= 1);
}

#[test]
fn safe_profile_clamps_workers() {
    let def = ProfileDef {
        kind: ProfileKind::Safe,
        description: None,
        min_ram_gb: None,
        strata: None,
    };
    assert_eq!(representative_tuning(&def, 0, None, Some(36_864)).workers, 1);
    assert_eq!(representative_tuning(&def, 9, None, Some(36_864)).workers, 2);
    assert_eq!(representative_tuning(&def, 1, Some(100), None).memory_mb, Some(100));
}

#[test]
fn sizes_are_read_with_their_units() {
    assert_eq!(parse_size_str("0"), Ok(0));
    assert_eq!(parse_size_str(" 256MB "), Ok(256_000_000));
    assert_eq!(parse_size_str("1gib"), Ok(1_073_741_824));
    assert_eq!(parse_size_str("2 kib"), Ok(2048));
    assert_eq!(parse_size_str("7b"), Ok(7));
    assert_eq!(parse_size_str("12"), Ok(12));
    assert_eq!(parse_size_str("3kb"), Ok(3000));
    assert_eq!(parse_size_str("1mib"), Ok(1_048_576));
    assert_eq!(parse_size_str("1gb"), Ok(1_000_000_000));
    assert_eq!(
        parse_size_str("Huge"),
        Err("invalid size 'huge': expected number with optional suffix (kb/mb/gb/kib/mib/gib): \
             invalid digit found in string"
            .to_string())
    );
    assert!(parse_size_str("mb").err().unwrap().ends_with(": cannot parse integer from empty string"));
    assert_eq!(parse_size_checked("99999999999999999gib"), None);
    assert_eq!(parse_size_checked("1kb"), Some(Ok(1000)));
}

#[test]
fn total_memory_is_read_from_the_system() {
    assert_eq!(meminfo_total_mb("MemTotal:       16384000 kB\nMemFree: 1 kB\n"), Some(16_000));
    assert_eq!(meminfo_total_mb("MemFree: 1 kB\n"), None);
    assert_eq!(byte_text_total_mb("38654705664\n"), Some(36_864));
    assert_eq!(byte_text_total_mb("x"), None);
}

#[test]
fn largest_files_go_first_and_ties_keep_their_order() {
    let v = vec![pair("a", 5), pair("b", 9), pair("c", 5), pair("d", 7)];
    assert_eq!(names(&sort_largest_first(&v)), ["b.gz", "d.gz", "a.gz", "c.gz"]);
}

#[test]
fn stratified_plan_puts_each_file_into_one_pass() {
    let reg = ProfileRegistry::builtins_only();
    let todo = vec![
        pair("tiny", MIB),
        pair("edge", 400 * MIB),
        pair("over", 400 * MIB + 1),
        pair("big", 700 * MIB),
        pair("huge", 5000 * MIB),
    ];
    let plan = build_convert_plan("stratified-36", None, None, Some(36_864), &todo, &reg).unwrap();
    assert!(!plan.flat);
    let seen: Vec<Vec<String>> = plan.strata.iter().map(|s| names(&s.files)).collect();
    assert_eq!(
        seen,
        vec![
            vec!["huge.gz".to_string()],
            vec!["big.gz".to_string()],
            vec!["over.gz".to_string()],
            vec!["edge.gz".to_string(), "tiny.gz".to_string()],
        ]
    );
    let shape: Vec<(usize, usize)> = plan.strata.iter().map(|s| (s.workers, s.memory_mb)).collect();
    assert_eq!(shape, vec![(1, 13_000), (2, 9600), (3, 6400), (4, 4800)]);
    let flat = build_convert_plan("stratified-36", Some(3), None, Some(36_864), &todo, &reg).unwrap();
    assert!(flat.flat);
    assert_eq!(flat.strata.len(), 1);
    assert_eq!(flat.strata[0].workers, 3);
    assert_eq!(flat.strata[0].memory_mb, 13_000);
    assert_eq!(flat.strata[0].files.len(), 5);
}

#[test]
fn unknown_profile_names_the_known_ones() {
    let reg = ProfileRegistry::builtins_only();
    let e = build_convert_plan("turbo", None, None, None, &vec![], &reg).err().unwrap();
    assert_eq!(e, "unknown profile \"turbo\". Available: safe, stratified-36");
    let odd = build_convert_plan("a\"b", None, None, None, &vec![], &reg).err().unwrap();
    assert_eq!(odd, "unknown profile \"a\\\"b\". Available: safe, stratified-36");
}

fn stratified(strata: Option<Vec<Stratum>>) -> ProfileDef {
    ProfileDef { kind: ProfileKind::Stratified, description: None, min_ram_gb: None, strata }
}

fn stratum(max: Option<u64>, workers: usize, mb: usize) -> Stratum {
    Stratum { max_file_mb: max, workers, per_worker_mb: mb }
}

#[test]
fn profiles_are_validated() {
    let err = |d: &ProfileDef| validate_profile_def("p", d).err().unwrap();
    let safe = ProfileDef {
        kind: ProfileKind::Safe,
        description: None,
        min_ram_gb: None,
        strata: Some(vec![]),
    };
    assert_eq!(err(&safe), "profile 'p': kind=safe must not have strata");
    assert_eq!(err(&stratified(None)), "profile 'p': kind=stratified requires strata");
    assert_eq!(err(&stratified(Some(vec![]))), "profile 'p': strata must not be empty");
    assert_eq!(
        err(&stratified(Some(vec![stratum(Some(1), 1, 256)]))),
        "profile 'p': must have exactly one stratum with max_file_mb omitted (catch-all); found 0"
    );
    assert_eq!(
        err(&stratified(Some(vec![stratum(None, 1, 256), stratum(Some(3), 1, 256)]))),
        "profile 'p': the catch-all stratum (max_file_mb omitted) must be the LAST entry"
    );
    assert_eq!(
        err(&stratified(Some(vec![stratum(None, 0, 256)]))),
        "profile 'p' stratum 0: workers must be >= 1"
    );
    assert_eq!(
        err(&stratified(Some(vec![stratum(None, 1, 255)]))),
        "profile 'p' stratum 0: per_worker_mb must be >= 256 (got 255)"
    );
    assert_eq!(
        err(&stratified(Some(vec![
            stratum(Some(5), 1, 256),
            stratum(Some(5), 1, 256),
            stratum(None, 1, 256)
        ]))),
        "profile 'p' stratum 1: max_file_mb must be strictly ascending; got 5 MB after 5 MB"
    );
    for p in builtin_profiles() {
        assert_eq!(validate_profile_def(&p.name, &p.def), Ok(()));
    }
}

#[test]
fn user_profiles_win_over_builtin_ones() {
    let user = vec![NamedProfile {
        name: "stratified-36".to_string(),
        def: stratified(Some(vec![stratum(None, 2, 300)])),
    }];
    let reg = ProfileRegistry::load(user).unwrap();
    assert_eq!(reg.names(), ["safe", "stratified-36"]);
    let d = reg.get("stratified-36").unwrap();
    assert_eq!(d.strata.as_ref().unwrap()[0].per_worker_mb, 300);
    assert!(reg.get("nope").is_none());
    let bad = vec![NamedProfile { name: "b".to_string(), def: stratified(None) }];
    assert_eq!(
        ProfileRegistry::load(bad).err().unwrap(),
        "profile 'b': kind=stratified requires strata"
    );
}

#[test]
fn derived_profile_keeps_to_its_caps() {
    let scaled = vec![
        ScaledStratum { workers: 7, per_worker_mb: 8533 },
        ScaledStratum { workers: 5, per_worker_mb: 11_378 },
        ScaledStratum { workers: 4, per_worker_mb: 17_067 },
        ScaledStratum { workers: 2, per_worker_mb: 23_111 },
    ];
    let d = derive_stratified_profile_for_ram(Some(65_536), Some(6), &scaled, 36_044, 26_214);
    let s = d.strata.as_ref().unwrap();
    assert_eq!((s[0].workers, s[0].per_worker_mb), (6, 36_044 / 6));
    assert_eq!((s[1].workers, s[1].per_worker_mb), (5, 36_044 / 5));
    assert_eq!(d.min_ram_gb, Some(64));
    assert!(validate_profile_def("auto", &d).is_ok());
    assert_eq!(
        d.description.as_deref(),
        Some("Auto-derived from 64 GB system RAM (scaled from the 36 GB baseline)")
    );
    assert_eq!(ram_warning("auto", &d, Some(65_536)), None);
    let none = derive_stratified_profile_for_ram(None, None, &vec![], 0, 0);
    assert!(validate_profile_def("auto", &none).is_ok());
    assert_eq!(none.strata.as_ref().unwrap().len(), 1);
    assert_eq!(none.strata.as_ref().unwrap()[0].per_worker_mb, 4096);
    assert_eq!(
        none.description.as_deref(),
        Some("Auto-derived from unknown GB system RAM (scaled from the 36 GB baseline)")
    );
}

#[test]
fn a_host_with_little_memory_is_warned() {
    let reg = ProfileRegistry::builtins_only();
    let big = reg.get("stratified-36").unwrap();
    assert_eq!(
        ram_warning("stratified-36", big, Some(16_000)).as_deref(),
        Some(
            "warning: profile 'stratified-36' is meant for hosts with at least 32 GB RAM; \
             this one has 16 GB"
        )
    );
    assert_eq!(ram_warning("stratified-36", big, Some(32_300)), None);
    assert_eq!(ram_warning("stratified-36", big, None), None);
    assert_eq!(ram_warning("safe", reg.get("safe").unwrap(), Some(1)), None);
}

#[test]
fn the_tuning_of_a_named_profile_is_found() {
    let reg = ProfileRegistry::builtins_only();
    let t = profile_tuning(&reg, "safe", 0, Some(1000), None).unwrap();
    assert_eq!((t.workers, t.memory_mb), (1, Some(1000)));
    assert_eq!(
        profile_tuning(&reg, "nope", 0, None, None).err().unwrap(),
        reg.unknown_profile_error("nope")
    );
}
