//! Profiles: named settings for how many workers convert files at a time and
//! how much memory each of them may use.

use vstd::prelude::*;
use vstd::string::*;
use crate::order::sorted_strings;
use crate::order;
use crate::text::{debug_quoted, joined, push_decimal, str_eq};
use crate::text;

verus! {

/// One bucket of a stratified profile: the files of at most `max_file_mb` MiB
/// that no earlier stratum takes. Without a bound it takes every file.
#[derive(Clone, Copy, Debug, PartialEq, Eq, Structural)]
pub struct Stratum {
    pub max_file_mb: Option<u64>,
    pub workers: usize,
    pub per_worker_mb: usize,
}

/// How a profile plans a conversion.
#[derive(Clone, Copy, Debug, PartialEq, Eq, Structural)]
pub enum ProfileKind {
    /// One pass, with workers and memory derived from the system's RAM.
    Safe,
    /// One pass for each stratum of files by size.
    Stratified,
}

/// A profile of a conversion.
pub struct ProfileDef {
    pub kind: ProfileKind,
    pub description: Option<String>,
    /// The RAM in GB below which this profile is not recommended.
    pub min_ram_gb: Option<usize>,
    /// The strata of a stratified profile.
    pub strata: Option<Vec<Stratum>>,
}

/// What a `ProfileDef` says.
#[verifier::ext_equal]
pub struct ProfileView {
    pub kind: ProfileKind,
    pub description: Option<Seq<char>>,
    pub min_ram_gb: Option<usize>,
    pub strata: Option<Seq<Stratum>>,
}

pub open spec fn text_option(o: Option<String>) -> Option<Seq<char>> {
    match o {
        Some(s) => Some(s@),
        None => None,
    }
}

impl View for ProfileDef {
    type V = ProfileView;

    open spec fn view(&self) -> ProfileView {
        ProfileView {
            kind: self.kind,
            description: text_option(self.description),
            min_ram_gb: self.min_ram_gb,
            strata: match self.strata {
                Some(v) => Some(v@),
                None => None,
            },
        }
    }
}

/// The least memory per worker, in MB, that a derived profile gives.
pub const STRATIFIED_MIN_PER_WORKER_MB: usize = 1280;

/// The most workers that a derived profile gives.
pub const STRATIFIED_MAX_WORKERS: usize = 8;

/// The strata measured on a host with 36 GB of RAM.
pub open spec fn baseline_strata() -> Seq<Stratum> {
    seq![
        Stratum { max_file_mb: Some(400), workers: 4, per_worker_mb: 4800 },
        Stratum { max_file_mb: Some(600), workers: 3, per_worker_mb: 6400 },
        Stratum { max_file_mb: Some(800), workers: 2, per_worker_mb: 9600 },
        Stratum { max_file_mb: None, workers: 1, per_worker_mb: 13_000 },
    ]
}

/// The strata of the built-in profile `stratified-36`.
pub fn stratified_baseline_36gb_strata() -> (r: Vec<Stratum>)
    ensures
        r@ == baseline_strata(),
{
    let mut v: Vec<Stratum> = Vec::new();
    v.push(Stratum { max_file_mb: Some(400), workers: 4, per_worker_mb: 4800 });
    v.push(Stratum { max_file_mb: Some(600), workers: 3, per_worker_mb: 6400 });
    v.push(Stratum { max_file_mb: Some(800), workers: 2, per_worker_mb: 9600 });
    v.push(Stratum { max_file_mb: None, workers: 1, per_worker_mb: 13_000 });
    assert(v@ =~= baseline_strata());
    v
}

pub open spec fn safe_profile() -> ProfileView {
    ProfileView {
        kind: ProfileKind::Safe,
        description: Some("Single-worker, max-memory; the conservative universal default"@),
        min_ram_gb: None,
        strata: None,
    }
}

pub open spec fn stratified_36_profile() -> ProfileView {
    ProfileView {
        kind: ProfileKind::Stratified,
        description: Some(
            "Stratified 4/3/2/1 workers by gz size; empirically tuned for ~36 GB RAM"@,
        ),
        min_ram_gb: Some(32),
        strata: Some(baseline_strata()),
    }
}

/// The profiles that are always there.
pub open spec fn builtin_map() -> Map<Seq<char>, ProfileView> {
    Map::<Seq<char>, ProfileView>::empty().insert("safe"@, safe_profile()).insert(
        "stratified-36"@,
        stratified_36_profile(),
    )
}

/// A profile with its name.
pub struct NamedProfile {
    pub name: String,
    pub def: ProfileDef,
}

/// The built-in profiles.
pub fn builtin_profiles() -> (r: Vec<NamedProfile>)
    ensures
        r@.len() == 2,
        r@[0].name@ == "safe"@,
        r@[0].def@ == safe_profile(),
        r@[1].name@ == "stratified-36"@,
        r@[1].def@ == stratified_36_profile(),
{
    let mut v: Vec<NamedProfile> = Vec::new();
    v.push(
        NamedProfile {
            name: "safe".to_owned(),
            def: ProfileDef {
                kind: ProfileKind::Safe,
                description: Some(
                    "Single-worker, max-memory; the conservative universal default".to_owned(),
                ),
                min_ram_gb: None,
                strata: None,
            },
        },
    );
    v.push(
        NamedProfile {
            name: "stratified-36".to_owned(),
            def: ProfileDef {
                kind: ProfileKind::Stratified,
                description: Some(
                    "Stratified 4/3/2/1 workers by gz size; empirically tuned for ~36 GB RAM".to_owned(),
                ),
                min_ram_gb: Some(32),
                strata: Some(stratified_baseline_36gb_strata()),
            },
        },
    );
    v
}

/// How many strata have no size bound.
pub open spec fn catch_all_count(s: Seq<Stratum>) -> nat
    decreases s.len(),
{
    if s.len() == 0 {
        0
    } else {
        catch_all_count(s.drop_last()) + (if s.last().max_file_mb is None { 1nat } else { 0nat })
    }
}

/// The last size bound among the first `i` strata.
pub open spec fn last_bound(s: Seq<Stratum>, i: int) -> Option<u64>
    decreases i,
{
    if i <= 0 {
        None
    } else if s[i - 1].max_file_mb is Some {
        s[i - 1].max_file_mb
    } else {
        last_bound(s, i - 1)
    }
}

/// What is wrong with stratum `i` of the profile `name`.
pub open spec fn stratum_error(name: Seq<char>, s: Seq<Stratum>, i: int) -> Option<Seq<char>> {
    let at = "profile '"@ + name + "' stratum "@ + text::decimal(i as nat);
    if s[i].workers < 1 {
        Some(at + ": workers must be >= 1"@)
    } else if s[i].per_worker_mb < 256 {
        Some(
            at + ": per_worker_mb must be >= 256 (got "@ + text::decimal(s[i].per_worker_mb as nat)
                + ")"@,
        )
    } else {
        match (s[i].max_file_mb, last_bound(s, i)) {
            (Some(here), Some(before)) => if here <= before {
                Some(
                    at + ": max_file_mb must be strictly ascending; got "@ + text::decimal(
                        here as nat,
                    ) + " MB after "@ + text::decimal(before as nat) + " MB"@,
                )
            } else {
                None
            },
            _ => None,
        }
    }
}

/// What is wrong with the first faulty stratum at position `i` or later.
pub open spec fn strata_error(name: Seq<char>, s: Seq<Stratum>, i: int) -> Option<Seq<char>>
    decreases s.len() - i,
{
    if i >= s.len() {
        None
    } else if stratum_error(name, s, i) is Some {
        stratum_error(name, s, i)
    } else {
        strata_error(name, s, i + 1)
    }
}

/// What makes a profile unusable, if anything does.
pub open spec fn profile_error(name: Seq<char>, def: ProfileView) -> Option<Seq<char>> {
    let lead = "profile '"@ + name;
    match def.kind {
        ProfileKind::Safe => if def.strata is Some {
            Some(lead + "': kind=safe must not have strata"@)
        } else {
            None
        },
        ProfileKind::Stratified => match def.strata {
            None => Some(lead + "': kind=stratified requires strata"@),
            Some(s) => if s.len() == 0 {
                Some(lead + "': strata must not be empty"@)
            } else if catch_all_count(s) != 1 {
                Some(
                    lead
                        + "': must have exactly one stratum with max_file_mb omitted (catch-all); found "@
                        + text::decimal(catch_all_count(s)),
                )
            } else if s.last().max_file_mb is Some {
                Some(
                    lead
                        + "': the catch-all stratum (max_file_mb omitted) must be the LAST entry"@,
                )
            } else {
                strata_error(name, s, 0)
            },
        },
    }
}

/// An amount of memory in MB as a whole number of GB, the nearest.
pub open spec fn nearest_gb(mb: int) -> int {
    (mb + 512) / 1024
}

/// Whether a host is known to have less memory than a profile is meant for.
pub open spec fn short_of_ram(def: ProfileView, total_ram_mb: Option<usize>) -> bool {
    match (def.min_ram_gb, total_ram_mb) {
        (Some(gb), Some(mb)) => nearest_gb(mb as int) < gb,
        _ => false,
    }
}

/// The warning for a host that has less memory than the profile `name` is meant for.
pub fn ram_warning(name: &str, def: &ProfileDef, total_ram_mb: Option<usize>) -> (r: Option<
    String,
>)
    ensures
        match r {
            Some(m) => short_of_ram(def@, total_ram_mb) && m@ == "warning: profile '"@ + name@
                + "' is meant for hosts with at least "@ + text::decimal(
                def.min_ram_gb->Some_0 as nat,
            ) + " GB RAM; this one has "@ + text::decimal(
                nearest_gb(total_ram_mb->Some_0 as int) as nat,
            ) + " GB"@,
            None => !short_of_ram(def@, total_ram_mb),
        },
{
    match (def.min_ram_gb, total_ram_mb) {
        (Some(gb), Some(mb)) => {
            let have: u128 = (mb as u128 + 512) / 1024;
            if have >= gb as u128 {
                return None;
            }
            let mut m = "warning: profile '".to_owned();
            m.append(name);
            m.append("' is meant for hosts with at least ");
            push_decimal(&mut m, gb as u128);
            m.append(" GB RAM; this one has ");
            push_decimal(&mut m, have);
            m.append(" GB");
            Some(m)
        },
        _ => None,
    }
}

/// `lead`, `'` and what follows it.
fn profile_message(name: &str, rest: &str) -> (r: String)
    ensures
        r@ == "profile '"@ + name@ + rest@,
{
    let mut m = "profile '".to_owned();
    m.append(name);
    m.append(rest);
    m
}

fn count_catch_all(s: &Vec<Stratum>) -> (r: usize)
    ensures
        r == catch_all_count(s@),
{
    let mut n: usize = 0;
    let mut i: usize = 0;
    while i < s.len()
        invariant
            i <= s@.len(),
            n <= i,
            n == catch_all_count(s@.take(i as int)),
        decreases s@.len() - i,
    {
        assert(s@.take(i + 1).drop_last() == s@.take(i as int));
        if s[i].max_file_mb.is_none() {
            n += 1;
        }
        i += 1;
    }
    assert(s@.take(s@.len() as int) == s@);
    n
}

/// Refuses a profile that the planner cannot follow.
pub fn validate_profile_def(name: &str, def: &ProfileDef) -> (r: Result<(), String>)
    ensures
        match r {
            Ok(_) => profile_error(name@, def@) is None,
            Err(e) => profile_error(name@, def@) == Some(e@),
        },
{
    match def.kind {
        ProfileKind::Safe => {
            if def.strata.is_some() {
                return Err(profile_message(name, "': kind=safe must not have strata"));
            }
            Ok(())
        },
        ProfileKind::Stratified => {
            let s: &Vec<Stratum> = match &def.strata {
                Some(s) => s,
                None => {
                    return Err(profile_message(name, "': kind=stratified requires strata"));
                },
            };
            if s.len() == 0 {
                return Err(profile_message(name, "': strata must not be empty"));
            }
            let catch_all = count_catch_all(s);
            if catch_all != 1 {
                let mut m = profile_message(
                    name,
                    "': must have exactly one stratum with max_file_mb omitted (catch-all); found ",
                );
                push_decimal(&mut m, catch_all as u128);
                return Err(m);
            }
            if s[s.len() - 1].max_file_mb.is_some() {
                return Err(
                    profile_message(
                        name,
                        "': the catch-all stratum (max_file_mb omitted) must be the LAST entry",
                    ),
                );
            }
            let mut previous: Option<u64> = None;
            let mut i: usize = 0;
            while i < s.len()
                invariant
                    i <= s@.len(),
                    previous == last_bound(s@, i as int),
                    profile_error(name@, def@) == strata_error(name@, s@, i as int),
                decreases s@.len() - i,
            {
                let here = s[i];
                let mut at = profile_message(name, "' stratum ");
                push_decimal(&mut at, i as u128);
                if here.workers < 1 {
                    at.append(": workers must be >= 1");
                    return Err(at);
                }
                if here.per_worker_mb < 256 {
                    at.append(": per_worker_mb must be >= 256 (got ");
                    push_decimal(&mut at, here.per_worker_mb as u128);
                    at.append(")");
                    return Err(at);
                }
                if let Some(bound) = here.max_file_mb {
                    if let Some(p) = previous {
                        if bound <= p {
                            at.append(": max_file_mb must be strictly ascending; got ");
                            push_decimal(&mut at, bound as u128);
                            at.append(" MB after ");
                            push_decimal(&mut at, p as u128);
                            at.append(" MB");
                            return Err(at);
                        }
                    }
                    previous = Some(bound);
                }
                i += 1;
            }
            Ok(())
        },
    }
}

/// The profiles that a run can choose from: no two with one name.
pub struct ProfileRegistry {
    pub entries: Vec<NamedProfile>,
}

/// Whether entry `i` has the name `n`.
pub open spec fn names_at(e: Seq<NamedProfile>, i: int, n: Seq<char>) -> bool {
    0 <= i < e.len() && e[i].name@ == n
}

pub open spec fn entries_map(e: Seq<NamedProfile>) -> Map<Seq<char>, ProfileView> {
    Map::new(
        |n: Seq<char>| exists|i: int| names_at(e, i, n),
        |n: Seq<char>| e[choose|i: int| names_at(e, i, n)].def@,
    )
}

pub open spec fn unique_names(e: Seq<NamedProfile>) -> bool {
    forall|i: int, j: int|
        0 <= i < e.len() && 0 <= j < e.len() && #[trigger] e[i].name@ == #[trigger] e[j].name@ ==> i
            == j
}

/// `base` with the entries of `user` on top, the later over the earlier.
pub open spec fn merged(
    base: Map<Seq<char>, ProfileView>,
    user: Seq<NamedProfile>,
) -> Map<Seq<char>, ProfileView>
    decreases user.len(),
{
    if user.len() == 0 {
        base
    } else {
        merged(base, user.drop_last()).insert(user.last().name@, user.last().def@)
    }
}

/// What is wrong with the first unusable profile of `user`.
pub open spec fn first_profile_error(user: Seq<NamedProfile>, i: int) -> Option<Seq<char>>
    decreases user.len() - i,
{
    if i >= user.len() {
        None
    } else if profile_error(user[i].name@, user[i].def@) is Some {
        profile_error(user[i].name@, user[i].def@)
    } else {
        first_profile_error(user, i + 1)
    }
}

impl View for ProfileRegistry {
    type V = Map<Seq<char>, ProfileView>;

    open spec fn view(&self) -> Map<Seq<char>, ProfileView> {
        entries_map(self.entries@)
    }
}

proof fn lemma_entry(e: Seq<NamedProfile>, i: int)
    requires
        unique_names(e),
        0 <= i < e.len(),
    ensures
        entries_map(e).dom().contains(e[i].name@),
        entries_map(e)[e[i].name@] == e[i].def@,
{
    let n = e[i].name@;
    assert(names_at(e, i, n));
    let k = choose|k: int| names_at(e, k, n);
    assert(names_at(e, k, n));
    assert(e[k].name@ == e[i].name@);
}

impl ProfileRegistry {
    pub open spec fn wf(self) -> bool {
        unique_names(self.entries@)
    }

    /// Whether every profile can be planned with.
    pub open spec fn usable(self) -> bool {
        forall|n: Seq<char>| #[trigger]
            self@.dom().contains(n) ==> profile_error(n, self@[n]) is None
    }

    /// The built-in profiles alone.
    pub fn builtins_only() -> (r: Self)
        ensures
            r.wf(),
            r.usable(),
            r@ == builtin_map(),
    {
        let entries = builtin_profiles();
        proof {
            reveal_strlit("safe");
            reveal_strlit("stratified-36");
            let e = entries@;
            assert("safe"@.len() != "stratified-36"@.len());
            assert(unique_names(e));
            lemma_entry(e, 0);
            lemma_entry(e, 1);
            assert forall|n: Seq<char>| entries_map(e).dom().contains(n) <==> builtin_map().dom().contains(
                n,
            ) by {
                if entries_map(e).dom().contains(n) {
                    let i = choose|i: int| names_at(e, i, n);
                    assert(names_at(e, i, n));
                }
            }
            assert(entries_map(e) =~= builtin_map());
            law_builtin_profiles_are_valid("safe"@);
            law_builtin_profiles_are_valid("stratified-36"@);
        }
        ProfileRegistry { entries }
    }

    /// Where the profile `name` stands.
    fn position(&self, name: &str) -> (r: Option<usize>)
        ensures
            match r {
                Some(i) => names_at(self.entries@, i as int, name@),
                None => !self@.dom().contains(name@),
            },
    {
        let mut i: usize = 0;
        while i < self.entries.len()
            invariant
                i <= self.entries@.len(),
                forall|k: int| 0 <= k < i ==> !names_at(self.entries@, k, name@),
            decreases self.entries@.len() - i,
        {
            if str_eq(self.entries[i].name.as_str(), name) {
                return Some(i);
            }
            i += 1;
        }
        None
    }

    /// Adds a profile, in place of the one of its name where there is one.
    pub fn insert(&mut self, name: String, def: ProfileDef)
        requires
            old(self).wf(),
        ensures
            final(self).wf(),
            final(self)@ == old(self)@.insert(name@, def@),
    {
        let ghost before = self.entries@;
        let ghost n = name@;
        let ghost d = def@;
        match self.position(name.as_str()) {
            Some(i) => {
                self.entries.set(i, NamedProfile { name, def });
                proof {
                    let after = self.entries@;
                    assert forall|j: int| 0 <= j < after.len() implies #[trigger] after[j].name@
                        == before[j].name@ by {}
                    assert(unique_names(after)) by {
                        assert forall|a: int, b: int|
                            0 <= a < after.len() && 0 <= b < after.len()
                                && #[trigger] after[a].name@ == #[trigger] after[b].name@ implies a
                            == b by {
                            assert(before[a].name@ == before[b].name@);
                        }
                    }
                    lemma_same_names(before, after, i as int, n, d);
                }
            },
            None => {
                self.entries.push(NamedProfile { name, def });
                proof {
                    let after = self.entries@;
                    let i = before.len() as int;
                    assert forall|j: int| 0 <= j < i implies #[trigger] before[j].name@ != n by {
                        if before[j].name@ == n {
                            assert(names_at(before, j, n));
                        }
                    }
                    assert(unique_names(after)) by {
                        assert forall|a: int, b: int|
                            0 <= a < after.len() && 0 <= b < after.len()
                                && #[trigger] after[a].name@ == #[trigger] after[b].name@ implies a
                            == b by {
                            if a < i && b < i {
                                assert(before[a].name@ == before[b].name@);
                            } else if a < i {
                                assert(before[a].name@ != n);
                            } else if b < i {
                                assert(before[b].name@ != n);
                            }
                        }
                    }
                    lemma_same_names(before, after, i, n, d);
                }
            },
        }
    }

    /// The built-in profiles with those of a user on top, refused as a whole
    /// where one of them is unusable.
    pub fn load(user: Vec<NamedProfile>) -> (r: Result<Self, String>)
        ensures
            match r {
                Ok(reg) => {
                    &&& first_profile_error(user@, 0) is None
                    &&& reg.wf()
                    &&& reg.usable()
                    &&& reg@ == merged(builtin_map(), user@)
                },
                Err(e) => first_profile_error(user@, 0) == Some(e@),
            },
    {
        let ghost all = user@;
        let mut i: usize = 0;
        while i < user.len()
            invariant
                i <= user@.len(),
                all == user@,
                first_profile_error(all, 0) == first_profile_error(all, i as int),
            decreases user@.len() - i,
        {
            match validate_profile_def(user[i].name.as_str(), &user[i].def) {
                Ok(_) => {},
                Err(e) => {
                    return Err(e);
                },
            }
            i += 1;
        }
        let mut reg = ProfileRegistry::builtins_only();
        for entry in it: user
            invariant
                it.seq() == all,
                reg.wf(),
                reg@ == merged(builtin_map(), all.take(it.index() as int)),
        {
            let ghost k = it.index() as int;
            assert(all.take(k + 1).drop_last() =~= all.take(k));
            assert(all.take(k + 1).last() == entry);
            let NamedProfile { name, def } = entry;
            reg.insert(name, def);
        }
        assert(all.take(all.len() as int) =~= all);
        proof {
            assert forall|n: Seq<char>| #[trigger] reg@.dom().contains(n) implies profile_error(
                n,
                reg@[n],
            ) is None by {
                law_loaded_profiles_are_valid(all, n);
            }
        }
        Ok(reg)
    }

    /// The profile of this name.
    pub fn get(&self, name: &str) -> (r: Option<&ProfileDef>)
        requires
            self.wf(),
        ensures
            match r {
                Some(d) => self@.dom().contains(name@) && self@[name@] == d@,
                None => !self@.dom().contains(name@),
            },
    {
        match self.position(name) {
            Some(i) => {
                proof {
                    lemma_entry(self.entries@, i as int);
                }
                Some(&self.entries[i].def)
            },
            None => None,
        }
    }

    /// The names of the profiles, in ascending order.
    pub fn names(&self) -> (r: Vec<String>)
        ensures
            order::ascending(text::texts(r@)),
            text::texts(r@).to_multiset() == entry_names(self.entries@).to_multiset(),
    {
        let mut out: Vec<String> = Vec::new();
        let mut i: usize = 0;
        while i < self.entries.len()
            invariant
                i <= self.entries@.len(),
                text::texts(out@) == entry_names(self.entries@).take(i as int),
            decreases self.entries@.len() - i,
        {
            broadcast use text::lemma_texts_push;
            out.push(self.entries[i].name.clone());
            i += 1;
            assert(text::texts(out@) =~= entry_names(self.entries@).take(i as int));
        }
        assert(entry_names(self.entries@).take(i as int) =~= entry_names(self.entries@));
        sorted_strings(&out)
    }

    /// The message for a profile that is not there, which lists those that are.
    pub fn unknown_profile_error(&self, requested: &str) -> (r: String)
        ensures
            is_unknown_profile_error(self.entries@, requested@, r@),
    {
        let names = self.names();
        let mut m = "unknown profile ".to_owned();
        let q = debug_quoted(requested);
        m.append(q.as_str());
        m.append(". Available: ");
        let list = joined(&names, ", ");
        m.append(list.as_str());
        assert(is_unknown_profile_text(
            self.entries@,
            requested@,
            m@,
            text::texts(names@),
        ));
        m
    }
}

pub open spec fn entry_names(e: Seq<NamedProfile>) -> Seq<Seq<char>> {
    Seq::new(e.len(), |i: int| e[i].name@)
}

pub open spec fn is_unknown_profile_text(
    e: Seq<NamedProfile>,
    requested: Seq<char>,
    message: Seq<char>,
    names: Seq<Seq<char>>,
) -> bool {
    &&& order::ascending(names)
    &&& names.to_multiset() == entry_names(e).to_multiset()
    &&& message == "unknown profile "@ + text::debug_of(requested) + ". Available: "@ + text::join(
        names,
        ", "@,
    )
}

/// Whether `message` names the profile that was asked for and lists the names
/// of `e` in ascending order.
pub open spec fn is_unknown_profile_error(
    e: Seq<NamedProfile>,
    requested: Seq<char>,
    message: Seq<char>,
) -> bool {
    exists|names: Seq<Seq<char>>| is_unknown_profile_text(e, requested, message, names)
}

/// Entries that differ from `before` only in position `i`, which names `n`, map
/// what `before` maps and `n` to `d`.
proof fn lemma_same_names(
    before: Seq<NamedProfile>,
    after: Seq<NamedProfile>,
    i: int,
    n: Seq<char>,
    d: ProfileView,
)
    requires
        unique_names(before),
        unique_names(after),
        0 <= i < after.len(),
        before.len() <= after.len() <= before.len() + 1,
        after.len() == before.len() || i == before.len(),
        after[i].name@ == n,
        after[i].def@ == d,
        i < before.len() ==> before[i].name@ == n,
        forall|j: int| 0 <= j < before.len() && j != i ==> #[trigger] after[j] == before[j],
    ensures
        entries_map(after) == entries_map(before).insert(n, d),
{
    let a = entries_map(after);
    let b = entries_map(before).insert(n, d);
    assert forall|m: Seq<char>| a.dom().contains(m) <==> b.dom().contains(m) by {
        if a.dom().contains(m) {
            let k = choose|k: int| names_at(after, k, m);
            assert(names_at(after, k, m));
            if k != i {
                assert(names_at(before, k, m));
            }
        }
        if b.dom().contains(m) {
            if m == n {
                assert(names_at(after, i, n));
            } else {
                let k = choose|k: int| names_at(before, k, m);
                assert(names_at(before, k, m));
                assert(names_at(after, k, m));
            }
        }
    }
    assert forall|m: Seq<char>| a.dom().contains(m) implies a[m] == b[m] by {
        let k = choose|k: int| names_at(after, k, m);
        assert(names_at(after, k, m));
        lemma_entry(after, k);
        if k == i {
            assert(m == n);
        } else {
            lemma_entry(before, k);
            if m == n {
                assert(after[k].name@ == after[i].name@);
            }
        }
    }
    assert(a =~= b);
}

/// The built-in profiles can be planned with.
pub proof fn law_builtin_profiles_are_valid(name: Seq<char>)
    ensures
        profile_error(name, safe_profile()) is None,
        profile_error(name, stratified_36_profile()) is None,
{
    let s = baseline_strata();
    reveal_with_fuel(catch_all_count, 5);
    reveal_with_fuel(strata_error, 5);
    reveal_with_fuel(last_bound, 4);
    assert(s.drop_last().drop_last().drop_last().drop_last() =~= Seq::<Stratum>::empty());
}

/// An unusable profile stands behind no position from which none is found.
proof fn lemma_no_error(user: Seq<NamedProfile>, i: int, j: int)
    requires
        0 <= i <= j < user.len(),
        first_profile_error(user, i) is None,
    ensures
        profile_error(user[j].name@, user[j].def@) is None,
    decreases j - i,
{
    if i < j {
        lemma_no_error(user, i + 1, j);
    }
}

/// Where no user profile is unusable, every profile there is can be planned with.
pub proof fn law_loaded_profiles_are_valid(user: Seq<NamedProfile>, n: Seq<char>)
    requires
        first_profile_error(user, 0) is None,
        merged(builtin_map(), user).dom().contains(n),
    ensures
        profile_error(n, merged(builtin_map(), user)[n]) is None,
{
    assert(user.take(user.len() as int) =~= user);
    lemma_merged_is_valid(user, user.len() as int, n);
}

proof fn lemma_merged_is_valid(user: Seq<NamedProfile>, k: int, n: Seq<char>)
    requires
        0 <= k <= user.len(),
        first_profile_error(user, 0) is None,
        merged(builtin_map(), user.take(k)).dom().contains(n),
    ensures
        profile_error(n, merged(builtin_map(), user.take(k))[n]) is None,
    decreases k,
{
    if k == 0 {
        law_builtin_profiles_are_valid(n);
    } else {
        assert(user.take(k).drop_last() =~= user.take(k - 1));
        if n == user[k - 1].name@ {
            lemma_no_error(user, 0, k - 1);
        } else {
            lemma_merged_is_valid(user, k - 1, n);
        }
    }
}

/// A user's profile stands over a built-in one of the same name, and a built-in
/// profile that no user profile names stays what it is.
pub proof fn law_user_profiles_win(user: Seq<NamedProfile>, n: Seq<char>)
    ensures
        forall|i: int|
            0 <= i < user.len() && #[trigger] user[i].name@ == n && (forall|j: int|
                i < j < user.len() ==> #[trigger] user[j].name@ != n) ==> merged(
                builtin_map(),
                user,
            ).dom().contains(n) && merged(builtin_map(), user)[n] == user[i].def@,
        (forall|i: int| 0 <= i < user.len() ==> #[trigger] user[i].name@ != n)
            && builtin_map().dom().contains(n) ==> merged(builtin_map(), user).dom().contains(n)
            && merged(builtin_map(), user)[n] == builtin_map()[n],
    decreases user.len(),
{
    if user.len() > 0 {
        let init = user.drop_last();
        law_user_profiles_win(init, n);
        assert forall|i: int|
            0 <= i < user.len() && #[trigger] user[i].name@ == n && (forall|j: int|
                i < j < user.len() ==> #[trigger] user[j].name@ != n) implies merged(
            builtin_map(),
            user,
        ).dom().contains(n) && merged(builtin_map(), user)[n] == user[i].def@ by {
            if i < user.len() - 1 {
                assert(user[user.len() - 1].name@ != n);
                assert(init[i].name@ == n);
                assert forall|j: int| i < j < init.len() implies #[trigger] init[j].name@ != n by {
                    assert(user[j].name@ != n);
                }
            }
        }
        if (forall|i: int| 0 <= i < user.len() ==> #[trigger] user[i].name@ != n)
            && builtin_map().dom().contains(n) {
            assert(user[user.len() - 1].name@ != n);
            assert forall|i: int| 0 <= i < init.len() implies #[trigger] init[i].name@ != n by {
                assert(user[i].name@ != n);
            }
        }
    }
}

/// The profile for about 36 GB has four strata: up to 400, 600 and 800 MiB and
/// without a bound, with four, three, two and one worker, and the fewer the workers
/// the more memory for each, from 19.2 GB to 13 GB in all. It asks for 32 GB.
pub proof fn law_baseline()
    ensures
        builtin_map().dom() == set!["safe"@, "stratified-36"@],
        builtin_map()["safe"@].kind is Safe,
        builtin_map()["safe"@].strata is None,
        builtin_map()["safe"@].min_ram_gb is None,
        builtin_map()["stratified-36"@].kind is Stratified,
        builtin_map()["stratified-36"@].min_ram_gb == Some(32usize),
        ({
            let s = builtin_map()["stratified-36"@].strata->0;
            &&& builtin_map()["stratified-36"@].strata is Some
            &&& s.len() == 4
            &&& s[0] == (Stratum { max_file_mb: Some(400), workers: 4, per_worker_mb: 4800 })
            &&& s[1] == (Stratum { max_file_mb: Some(600), workers: 3, per_worker_mb: 6400 })
            &&& s[2] == (Stratum { max_file_mb: Some(800), workers: 2, per_worker_mb: 9600 })
            &&& s[3] == (Stratum { max_file_mb: None, workers: 1, per_worker_mb: 13000 })
        }),
{
    reveal_strlit("safe");
    reveal_strlit("stratified-36");
    assert("safe"@.len() != "stratified-36"@.len());
    assert(builtin_map().dom() =~= set!["safe"@, "stratified-36"@]);
}

proof fn lemma_catch_alls(s: Seq<Stratum>)
    ensures
        catch_all_count(s) == 0 <==> forall|i: int|
            0 <= i < s.len() ==> (#[trigger] s[i]).max_file_mb is Some,
    decreases s.len(),
{
    if s.len() > 0 {
        let init = s.drop_last();
        lemma_catch_alls(init);
        if catch_all_count(s) == 0 {
            assert forall|i: int| 0 <= i < s.len() implies (#[trigger] s[i]).max_file_mb is Some by {
                if i < s.len() - 1 {
                    assert(init[i] == s[i]);
                }
            }
        }
        if forall|i: int| 0 <= i < s.len() ==> (#[trigger] s[i]).max_file_mb is Some {
            assert forall|i: int| 0 <= i < init.len() implies (#[trigger] init[i]).max_file_mb is Some by {
                assert(init[i] == s[i]);
            }
            assert(s[s.len() - 1].max_file_mb is Some);
        }
    }
}

proof fn lemma_strata_error(name: Seq<char>, s: Seq<Stratum>, i: int)
    requires
        0 <= i <= s.len(),
    ensures
        strata_error(name, s, i) is None <==> forall|j: int|
            i <= j < s.len() ==> #[trigger] stratum_error(name, s, j) is None,
    decreases s.len() - i,
{
    if i < s.len() {
        lemma_strata_error(name, s, i + 1);
    }
}

/// Whether strata can be planned with: all but the last have a bound, each greater
/// than the one before, and each has a worker and 256 MB for it.
pub open spec fn well_ordered(s: Seq<Stratum>) -> bool {
    &&& s.len() > 0
    &&& s.last().max_file_mb is None
    &&& forall|i: int| 0 <= i < s.len() - 1 ==> (#[trigger] s[i]).max_file_mb is Some
    &&& forall|i: int, j: int|
        0 <= i < j < s.len() - 1 ==> (#[trigger] s[i]).max_file_mb->0 < (#[trigger] s[j]).max_file_mb->0
    &&& forall|i: int|
        0 <= i < s.len() ==> (#[trigger] s[i]).workers >= 1 && s[i].per_worker_mb >= 256
}

proof fn lemma_bounds_ascend(name: Seq<char>, s: Seq<Stratum>, i: int, j: int)
    requires
        0 <= i < j < s.len() - 1,
        forall|k: int| 0 <= k < s.len() - 1 ==> (#[trigger] s[k]).max_file_mb is Some,
        forall|k: int| 0 <= k < s.len() ==> #[trigger] stratum_error(name, s, k) is None,
    ensures
        s[i].max_file_mb->0 < s[j].max_file_mb->0,
    decreases j - i,
{
    assert(stratum_error(name, s, j) is None);
    assert(s[j].max_file_mb is Some && s[j - 1].max_file_mb is Some);
    assert(last_bound(s, j) == s[j - 1].max_file_mb);
    if i < j - 1 {
        lemma_bounds_ascend(name, s, i, j - 1);
    }
}

/// A profile can be planned with exactly where a cautious one has no strata and a
/// stratified one has them in order.
pub proof fn law_usable_profiles(name: Seq<char>, def: ProfileView)
    ensures
        def.kind is Safe ==> (profile_error(name, def) is None <==> def.strata is None),
        def.kind is Stratified ==> (profile_error(name, def) is None <==> def.strata is Some
            && well_ordered(def.strata->0)),
{
    if def.kind is Stratified && def.strata is Some && def.strata->0.len() > 0 {
        let s = def.strata->0;
        let init = s.drop_last();
        lemma_catch_alls(init);
        lemma_strata_error(name, s, 0);
        if profile_error(name, def) is None {
            assert(catch_all_count(init) == 0);
            assert forall|i: int| 0 <= i < s.len() - 1 implies (#[trigger] s[i]).max_file_mb is Some by {
                assert(init[i] == s[i]);
            }
            assert forall|i: int| 0 <= i < s.len() implies (#[trigger] s[i]).workers >= 1
                && s[i].per_worker_mb >= 256 by {
                assert(stratum_error(name, s, i) is None);
            }
            assert forall|i: int, j: int| 0 <= i < j < s.len() - 1 implies (#[trigger] s[i]).max_file_mb->0
                < (#[trigger] s[j]).max_file_mb->0 by {
                lemma_bounds_ascend(name, s, i, j);
            }
            assert(well_ordered(s));
        }
        if well_ordered(s) {
            assert forall|i: int| 0 <= i < init.len() implies (#[trigger] init[i]).max_file_mb is Some by {
                assert(init[i] == s[i]);
            }
            assert(catch_all_count(s) == 1);
            assert forall|j: int| 0 <= j < s.len() implies #[trigger] stratum_error(name, s, j) is None by {
                assert(s[j].workers >= 1 && s[j].per_worker_mb >= 256);
                if 0 < j < s.len() - 1 {
                    assert(s[j - 1].max_file_mb is Some);
                    assert(last_bound(s, j) == s[j - 1].max_file_mb);
                    assert(s[j - 1].max_file_mb->0 < s[j].max_file_mb->0);
                }
            }
        }
    }
}

/// A machine is short of memory for a profile where its memory, to the nearest GiB
/// and half up, is less than the profile asks for; where either is not known it is
/// not.
pub proof fn law_short_of_memory(def: ProfileView, gb: usize, mb: usize, nearest: int)
    requires
        1024 * nearest - 512 <= mb < 1024 * nearest + 512,
    ensures
        def.min_ram_gb == Some(gb) ==> (short_of_ram(def, Some(mb)) <==> nearest < gb),
        def.min_ram_gb is None ==> !short_of_ram(def, Some(mb)),
        !short_of_ram(def, None),
{
    assert((mb + 512) / 1024 == nearest);
}

/// The error of the first profile of the user that cannot be used is the one that is
/// told.
pub proof fn law_first_unusable_profile_is_told(user: Seq<NamedProfile>, k: int)
    requires
        0 <= k <= user.len(),
        forall|i: int|
            0 <= i < k ==> profile_error((#[trigger] user[i]).name@, user[i].def@) is None,
    ensures
        k == user.len() ==> first_profile_error(user, 0) is None,
        k < user.len() && profile_error(user[k].name@, user[k].def@) is Some ==> first_profile_error(
            user,
            0,
        ) == profile_error(user[k].name@, user[k].def@),
{
    lemma_first_unusable(user, 0, k);
}

proof fn lemma_first_unusable(user: Seq<NamedProfile>, from: int, k: int)
    requires
        0 <= from <= k <= user.len(),
        forall|i: int|
            from <= i < k ==> profile_error((#[trigger] user[i]).name@, user[i].def@) is None,
    ensures
        k == user.len() ==> first_profile_error(user, from) is None,
        k < user.len() && profile_error(user[k].name@, user[k].def@) is Some ==> first_profile_error(
            user,
            from,
        ) == profile_error(user[k].name@, user[k].def@),
    decreases k - from,
{
    if from < k {
        lemma_first_unusable(user, from + 1, k);
    }
}
/// A profile that is not known is told with the names of those that are, in their order.
pub proof fn law_unknown_profile(
    e: Seq<NamedProfile>,
    requested: Seq<char>,
    message: Seq<char>,
    names: Seq<Seq<char>>,
)
    ensures
        is_unknown_profile_text(e, requested, message, names) ==> {
            &&& message == "unknown profile "@ + text::debug_of(requested) + ". Available: "@
                + text::join(names, ", "@)
            &&& names.len() == e.len()
            &&& order::ascending(names)
            &&& forall|i: int| 0 <= i < e.len() ==> names.contains((#[trigger] e[i]).name@)
        },
{
    broadcast use vstd::seq_lib::group_to_multiset_ensures;

    if is_unknown_profile_text(e, requested, message, names) {
        let all = entry_names(e);
        assert(names.to_multiset().len() == all.to_multiset().len());
        assert forall|i: int| 0 <= i < e.len() implies names.contains((#[trigger] e[i]).name@) by {
            assert(all[i] == e[i].name@);
            assert(all.contains(e[i].name@));
            assert(all.to_multiset().count(e[i].name@) > 0);
        }
    }
}
/// What is wrong with a profile is told with its name; of a stratum also with its place and
/// the numbers that are at odds.
pub proof fn law_words_on_a_profile(name: Seq<char>, def: ProfileView, s: Seq<Stratum>, i: int)
    requires
        0 <= i < s.len(),
    ensures
        def.kind is Safe && def.strata is Some ==> profile_error(name, def) == Some(
            "profile '"@ + name + "': kind=safe must not have strata"@,
        ),
        def.kind is Stratified && def.strata is None ==> profile_error(name, def) == Some(
            "profile '"@ + name + "': kind=stratified requires strata"@,
        ),
        s[i].workers == 0 ==> stratum_error(name, s, i) == Some(
            "profile '"@ + name + "' stratum "@ + text::decimal(i as nat)
                + ": workers must be >= 1"@,
        ),
        s[i].workers >= 1 && s[i].per_worker_mb < 256 ==> stratum_error(name, s, i) == Some(
            "profile '"@ + name + "' stratum "@ + text::decimal(i as nat)
                + ": per_worker_mb must be >= 256 (got "@ + text::decimal(
                s[i].per_worker_mb as nat,
            ) + ")"@,
        ),
        i > 0 && s[i].workers >= 1 && s[i].per_worker_mb >= 256 && s[i].max_file_mb is Some && s[i
            - 1].max_file_mb is Some && s[i].max_file_mb->0 <= s[i - 1].max_file_mb->0
            ==> stratum_error(name, s, i) == Some(
            "profile '"@ + name + "' stratum "@ + text::decimal(i as nat)
                + ": max_file_mb must be strictly ascending; got "@ + text::decimal(
                s[i].max_file_mb->0 as nat,
            ) + " MB after "@ + text::decimal(s[i - 1].max_file_mb->0 as nat) + " MB"@,
        ),
        stratified_36_profile().description == Some(
            "Stratified 4/3/2/1 workers by gz size; empirically tuned for ~36 GB RAM"@,
        ),
        safe_profile().description == Some(
            "Single-worker, max-memory; the conservative universal default"@,
        ),
{
}
} // verus!
