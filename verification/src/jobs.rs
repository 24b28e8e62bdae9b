//! The commands `config` and `skills`: what they are asked to do, and what they say
//! when it is done.

use vstd::prelude::*;
use vstd::string::*;
use crate::order::sorted_strings;
use crate::order;
use crate::templates::ConfigTemplateMode;
use crate::templates;
use crate::text::{joined, push_decimal};
use crate::text;

verus! {

/// What `config` is to do.
#[derive(Clone, Copy, Debug, PartialEq, Eq, Structural)]
pub enum ConfigJob {
    /// Write a template.
    Create(ConfigTemplateMode),
    /// Verify a config file.
    Verify,
}

/// Reads off the command line which of its two jobs `config` has.
pub fn config_job(create: Option<ConfigTemplateMode>, verify: bool) -> (r: Result<ConfigJob, String>)
    ensures
        match r {
            Ok(ConfigJob::Create(m)) => create == Some(m) && !verify,
            Ok(ConfigJob::Verify) => create is None && verify,
            Err(e) => (create is Some) == verify && e@
                == "config requires exactly one mode: use --create <complete|safe|fast> or --verify"@,
        },
{
    match create {
        Some(m) if !verify => Ok(ConfigJob::Create(m)),
        None if verify => Ok(ConfigJob::Verify),
        _ => Err(
            "config requires exactly one mode: use --create <complete|safe|fast> or --verify".to_owned(),
        ),
    }
}

/// Where a template goes.
#[derive(Debug)]
pub enum TemplateTarget {
    /// To the standard output.
    Stdout,
    /// To the file.
    File,
    /// Nowhere: a file is there that is not to be written over.
    Refused(String),
}

/// Decides it.
pub fn template_target(stdout: bool, path: &str, is_there: bool, overwrite: bool) -> (r:
    TemplateTarget)
    ensures
        match r {
            TemplateTarget::Stdout => stdout,
            TemplateTarget::File => !stdout && (!is_there || overwrite),
            TemplateTarget::Refused(e) => !stdout && is_there && !overwrite && e@
                == "config file already exists: "@ + path@ + " (use --overwrite)"@,
        },
{
    if stdout {
        TemplateTarget::Stdout
    } else if is_there && !overwrite {
        let mut e = "config file already exists: ".to_owned();
        e.append(path);
        e.append(" (use --overwrite)");
        TemplateTarget::Refused(e)
    } else {
        TemplateTarget::File
    }
}

/// The keys of a YAML text that is a mapping at its top: each key where it is a text.
/// `None` where the text is no mapping.
pub open spec fn keys_view(o: Option<Vec<Option<String>>>) -> Option<Seq<Option<Seq<char>>>> {
    match o {
        Some(v) => Some(
            Seq::new(
                v@.len(),
                |i: int|
                    match v@[i] {
                        Some(k) => Some(k@),
                        None => None,
                    },
            ),
        ),
        None => None,
    }
}

/// What the `serde_yaml` crate finds at the top of a text, or the message of its error.
pub uninterp spec fn yaml_keys_of(s: Seq<char>) -> Result<Option<Seq<Option<Seq<char>>>>, Seq<char>>;

/// `serde_yaml::from_str` into a `serde_yaml::Value`, and the keys of the mapping that it
/// is, if it is one. What it returns depends on the text alone; which texts it accepts and
/// what it finds in them is not stated.
#[verifier::external_body]
pub(crate) fn yaml_keys(s: &str) -> (r: Result<Option<Vec<Option<String>>>, String>)
    ensures
        match r {
            Ok(o) => yaml_keys_of(s@) == Ok::<Option<Seq<Option<Seq<char>>>>, Seq<char>>(
                keys_view(o),
            ),
            Err(e) => yaml_keys_of(s@) == Err::<Option<Seq<Option<Seq<char>>>>, Seq<char>>(e@),
        },
{
    match serde_yaml::from_str::<serde_yaml::Value>(s) {
        Err(e) => Err(e.to_string()),
        Ok(v) => Ok(v.as_mapping().map(|m| m.keys().map(|k| k.as_str().map(|t| t.to_owned())).collect())),
    }
}

/// The texts among keys.
pub open spec fn text_keys(v: Seq<Option<Seq<char>>>) -> Seq<Seq<char>>
    decreases v.len(),
{
    if v.len() == 0 {
        Seq::empty()
    } else {
        match v.last() {
            Some(k) => text_keys(v.drop_last()).push(k),
            None => text_keys(v.drop_last()),
        }
    }
}

/// The names of sections in a config file, ascending.
pub open spec fn are_sections(names: Seq<Seq<char>>, keys: Option<Seq<Option<Seq<char>>>>) -> bool {
    &&& order::ascending(names)
    &&& names.to_multiset() == (match keys {
        Some(v) => text_keys(v),
        None => Seq::empty(),
    }).to_multiset()
}

/// Sorts the names of the sections.
pub fn sections_of(keys: &Option<Vec<Option<String>>>) -> (r: Vec<String>)
    ensures
        are_sections(text::texts(r@), keys_view(*keys)),
{
    let mut out: Vec<String> = Vec::new();
    assert(text::texts(out@) =~= Seq::<Seq<char>>::empty());
    if let Some(v) = keys {
        let ghost all = keys_view(*keys)->Some_0;
        let mut i: usize = 0;
        assert(text::texts(out@) =~= text_keys(all.take(0)));
        while i < v.len()
            invariant
                i <= v@.len(),
                keys_view(Some(*v)) == Some(all),
                text::texts(out@) == text_keys(all.take(i as int)),
            decreases v@.len() - i,
        {
            broadcast use text::lemma_texts_push;

            assert(all.take(i + 1).drop_last() =~= all.take(i as int));
            assert(all.take(i + 1).last() == all[i as int]);
            if let Some(k) = &v[i] {
                out.push(k.clone());
            }
            i += 1;
        }
        assert(all.take(i as int) =~= all);
    }
    sorted_strings(&out)
}

/// The names of the sections in the text of a config file.
pub fn config_sections(txt: &str) -> (r: Result<Vec<String>, String>)
    ensures
        match r {
            Ok(names) => yaml_keys_of(txt@) matches Ok(keys) && are_sections(
                text::texts(names@),
                keys,
            ),
            Err(e) => yaml_keys_of(txt@) == Err::<Option<Seq<Option<Seq<char>>>>, Seq<char>>(e@),
        },
{
    match yaml_keys(txt) {
        Ok(keys) => Ok(sections_of(&keys)),
        Err(e) => Err(e),
    }
}

/// What is said of a config file that is in order.
pub open spec fn verified_text(path: Seq<char>, sections: Seq<Seq<char>>) -> Seq<char> {
    "[config] path="@ + path + " sections=["@ + text::join(sections, ", "@) + "] status=ok"@
}

/// What is said of a config file that is in order.
pub fn verified_line(path: &str, sections: &Vec<String>) -> (r: String)
    ensures
        r@ == verified_text(path@, text::texts(sections@)),
{
    let mut s = "[config] path=".to_owned();
    s.append(path);
    s.append(" sections=[");
    let names = joined(sections, ", ");
    s.append(names.as_str());
    s.append("] status=ok");
    s
}

/// Why a config file is not in order.
#[derive(Debug)]
pub struct ConfigFault {
    /// What was tried, and with which file.
    pub context: String,
    pub cause: String,
}

pub open spec fn verdict_view(r: Result<String, ConfigFault>) -> Result<
    Seq<char>,
    (Seq<char>, Seq<char>),
> {
    match r {
        Ok(line) => Ok(line@),
        Err(f) => Err((f.context@, f.cause@)),
    }
}

/// Whether `r` is what comes of verifying a config file: `keys` is what was found at the
/// top of it, and `typed` the fault that its sections have, if any.
pub open spec fn is_verdict(
    r: Result<Seq<char>, (Seq<char>, Seq<char>)>,
    path: Seq<char>,
    keys: Result<Option<Seq<Option<Seq<char>>>>, Seq<char>>,
    typed: Option<Seq<char>>,
) -> bool {
    match (keys, typed) {
        (Err(e), _) => r == Err::<Seq<char>, (Seq<char>, Seq<char>)>(("invalid YAML "@ + path, e)),
        (Ok(_), Some(e)) => r == Err::<Seq<char>, (Seq<char>, Seq<char>)>(
            ("schema validation failed "@ + path, e),
        ),
        (Ok(keys), None) => exists|names: Seq<Seq<char>>| #[trigger]
            are_sections(names, keys) && r == Ok::<Seq<char>, (Seq<char>, Seq<char>)>(
                verified_text(path, names),
            ),
    }
}

/// Verifies the text of a config file. `typed` is what comes of reading its sections into
/// settings.
pub fn verify_config(path: &str, txt: &str, typed: Result<(), String>) -> (r: Result<
    String,
    ConfigFault,
>)
    ensures
        is_verdict(
            verdict_view(r),
            path@,
            yaml_keys_of(txt@),
            match typed {
                Ok(_) => None,
                Err(e) => Some(e@),
            },
        ),
{
    match config_sections(txt) {
        Err(cause) => {
            let mut context = "invalid YAML ".to_owned();
            context.append(path);
            Err(ConfigFault { context, cause })
        },
        Ok(sections) => match typed {
            Err(cause) => {
                let mut context = "schema validation failed ".to_owned();
                context.append(path);
                Err(ConfigFault { context, cause })
            },
            Ok(_) => {
                let line = verified_line(path, &sections);
                assert(are_sections(text::texts(sections@), yaml_keys_of(txt@)->Ok_0));
                Ok(line)
            },
        },
    }
}

/// A template that can be read is in order: verifying the file that it was written to says
/// so, whichever template it is.
pub proof fn law_readable_template_is_in_order(
    mode: ConfigTemplateMode,
    path: Seq<char>,
    r: Result<Seq<char>, (Seq<char>, Seq<char>)>,
)
    ensures
        yaml_keys_of(templates::template_of(mode)) is Ok && is_verdict(
            r,
            path,
            yaml_keys_of(templates::template_of(mode)),
            None,
        ) ==> (r matches Ok(line) && text::has_suffix(line, " status=ok"@)),
{
    let keys = yaml_keys_of(templates::template_of(mode));
    if keys is Ok && is_verdict(r, path, keys, None) {
        let names = choose|names: Seq<Seq<char>>| #[trigger]
            are_sections(names, keys->Ok_0) && r == Ok::<Seq<char>, (Seq<char>, Seq<char>)>(
                verified_text(path, names),
            );
        let line = verified_text(path, names);
        reveal_strlit("] status=ok");
        reveal_strlit(" status=ok");
        assert(line.skip(line.len() - " status=ok"@.len()) =~= " status=ok"@);
    }
}

/// What is done with one note.
#[derive(Clone, Copy, Debug, PartialEq, Eq, Structural)]
pub enum NoteAction {
    Create,
    Overwrite,
    Skip,
}

/// How many notes were written.
#[derive(Clone, Copy, Debug, PartialEq, Eq, Structural)]
pub struct NoteTally {
    pub created: usize,
    pub overwritten: usize,
    pub skipped: usize,
}

impl NoteTally {
    /// Nothing is written.
    pub fn start() -> (r: Self)
        ensures
            r.total() == 0,
            r.created == 0,
            r.overwritten == 0,
            r.skipped == 0,
    {
        NoteTally { created: 0, overwritten: 0, skipped: 0 }
    }

    /// How many notes were dealt with.
    pub open spec fn total(self) -> int {
        self.created + self.overwritten + self.skipped
    }

    /// Decides what is done with one more note, and counts it: a note that is there is
    /// written over only where that is asked for.
    pub fn take(&mut self, is_there: bool, overwrite: bool) -> (r: NoteAction)
        requires
            old(self).total() < usize::MAX,
        ensures
            r == (if !is_there {
                NoteAction::Create
            } else if overwrite {
                NoteAction::Overwrite
            } else {
                NoteAction::Skip
            }),
            final(self).created == old(self).created + (if r == NoteAction::Create {
                1int
            } else {
                0
            }),
            final(self).overwritten == old(self).overwritten + (if r == NoteAction::Overwrite {
                1int
            } else {
                0
            }),
            final(self).skipped == old(self).skipped + (if r == NoteAction::Skip {
                1int
            } else {
                0
            }),
            final(self).total() == old(self).total() + 1,
    {
        if !is_there {
            self.created = self.created + 1;
            NoteAction::Create
        } else if overwrite {
            self.overwritten = self.overwritten + 1;
            NoteAction::Overwrite
        } else {
            self.skipped = self.skipped + 1;
            NoteAction::Skip
        }
    }

    /// What is said at the end.
    pub fn line(&self, dir: &str) -> (r: String)
        ensures
            r@ == "[skills] root="@ + dir@ + " created="@ + text::decimal(self.created as nat)
                + " overwritten="@ + text::decimal(self.overwritten as nat) + " skipped="@
                + text::decimal(self.skipped as nat),
    {
        let mut s = "[skills] root=".to_owned();
        s.append(dir);
        s.append(" created=");
        push_decimal(&mut s, self.created as u128);
        s.append(" overwritten=");
        push_decimal(&mut s, self.overwritten as u128);
        s.append(" skipped=");
        push_decimal(&mut s, self.skipped as u128);
        s
    }
}

/// The sections of a file are those of its keys that are texts, in any order.
pub proof fn law_text_keys(v: Seq<Option<Seq<char>>>, k: Seq<char>)
    ensures
        text_keys(Seq::empty()).len() == 0,
        text_keys(v.push(Some(k))) == text_keys(v).push(k),
        text_keys(v.push(None)) == text_keys(v),
{
    assert(v.push(Some(k)).drop_last() =~= v);
    assert(v.push(None).drop_last() =~= v);
}
/// A file that is in order is told with its path and its sections, in their order.
pub proof fn law_line_on_a_file(path: Seq<char>, sections: Seq<Seq<char>>)
    ensures
        verified_text(path, sections) == "[config] path="@ + path + " sections=["@ + text::join(
            sections,
            ", "@,
        ) + "] status=ok"@,
{
}

/// A file is refused where it cannot be read or does not fit, with what went wrong, and is in
/// order otherwise.
pub proof fn law_verdicts(
    r: Result<Seq<char>, (Seq<char>, Seq<char>)>,
    path: Seq<char>,
    keys: Option<Seq<Option<Seq<char>>>>,
    e: Seq<char>,
)
    ensures
        is_verdict(r, path, Err(e), None) <==> r == Err::<Seq<char>, (Seq<char>, Seq<char>)>(
            ("invalid YAML "@ + path, e),
        ),
        is_verdict(r, path, Ok(keys), Some(e)) <==> r == Err::<Seq<char>, (Seq<char>, Seq<char>)>(
            ("schema validation failed "@ + path, e),
        ),
        is_verdict(r, path, Ok(keys), None) ==> r is Ok,
{
}
} // verus!
