//! Classification of source files into action-list sections by glob
//! patterns, and the rules on which packages may declare entrypoints.

use vstd::prelude::*;
use crate::config::{ActionListSection, PackageType, all_sections, sections_in_order};

verus! {

/// globset's error for a pattern it does not accept; carried, never inspected.
#[verifier::external_type_specification]
#[verifier::external_body]
pub struct ExGlobError(globset::Error);

/// Whether a globset `GlobSet` of `patterns`, each with `/` as a literal
/// separator and `\\` as an escape, matches `path` (which holds no `\\`);
/// `None` where globset does not accept one of the patterns.
pub uninterp spec fn glob_set_match_of(patterns: Seq<Seq<char>>, path: Seq<char>) -> Option<bool>;

/// Relies on `globset::GlobBuilder` (`literal_separator(true)`,
/// `backslash_escape(true)`) for each pattern, `GlobSetBuilder::build`, then
/// `GlobSet::is_match`: whether one of `patterns` matches `path`, a bare `*`
/// never crossing a `/`; the error is globset's for a pattern it does not
/// accept. With both options set and no `\\` in `path`, globset answers the
/// same on every platform.
#[verifier::external_body]
fn glob_set_matches(patterns: &Vec<String>, path: &str) -> (r: Result<bool, globset::Error>)
    requires
        portable_path(path@),
    ensures
        match r {
            Ok(b) => glob_set_match_of(patterns@.map_values(|s: String| s@), path@) == Some(b),
            Err(_) => glob_set_match_of(patterns@.map_values(|s: String| s@), path@) is None,
        },
{
    let mut builder = globset::GlobSetBuilder::new();
    for pattern in patterns {
        builder.add(globset::GlobBuilder::new(pattern).literal_separator(true).backslash_escape(true).build()?);
    }
    Ok(builder.build()?.is_match(path))
}

/// Whether `path` is written with `/` separators only: it holds no `\\`.
pub open spec fn portable_path(path: Seq<char>) -> bool {
    !path.contains('\\')
}

/// The entrypoint patterns of a package or version: for each listed section,
/// its glob patterns.
pub struct Entrypoints {
    pub sections: Vec<(ActionListSection, Vec<String>)>,
}

impl View for Entrypoints {
    type V = Seq<(ActionListSection, Seq<Seq<char>>)>;

    open spec fn view(&self) -> Self::V {
        self.sections@.map_values(
            |e: (ActionListSection, Vec<String>)| (e.0, e.1@.map_values(|s: String| s@)),
        )
    }
}

/// Whether some section lists at least one pattern.
pub open spec fn has_patterns(m: Seq<(ActionListSection, Seq<Seq<char>>)>) -> bool {
    exists|i: int| 0 <= i < m.len() && (#[trigger] m[i]).1.len() > 0
}

/// Whether globset accepts every pattern of `m` (with `path` as the candidate).
pub open spec fn patterns_valid(m: Seq<(ActionListSection, Seq<Seq<char>>)>, path: Seq<char>) -> bool {
    forall|i: int| 0 <= i < m.len() ==> glob_set_match_of((#[trigger] m[i]).1, path) is Some
}

/// Whether one of `pats` matches `path`.
pub open spec fn any_matches(pats: Seq<Seq<char>>, path: Seq<char>) -> bool {
    glob_set_match_of(pats, path) == Some(true)
}

/// Whether `path` belongs to section `s`: one of the patterns listed for `s` matches it.
pub open spec fn in_section(
    m: Seq<(ActionListSection, Seq<Seq<char>>)>,
    s: ActionListSection,
    path: Seq<char>,
) -> bool {
    exists|i: int| 0 <= i < m.len() && (#[trigger] m[i]).0 == s && any_matches(m[i].1, path)
}

/// The sections of `secs` that `path` belongs to, in the order of `secs`.
pub open spec fn sections_matching(
    secs: Seq<ActionListSection>,
    m: Seq<(ActionListSection, Seq<Seq<char>>)>,
    path: Seq<char>,
) -> Seq<ActionListSection>
    decreases secs.len(),
{
    if secs.len() == 0 {
        Seq::empty()
    } else {
        let rest = sections_matching(secs.drop_last(), m, path);
        if in_section(m, secs.last(), path) {
            rest.push(secs.last())
        } else {
            rest
        }
    }
}

pub open spec fn section_index(s: ActionListSection) -> int {
    match s {
        ActionListSection::Main => 0,
        ActionListSection::MIDIEditor => 1,
        ActionListSection::MIDIInlineEditor => 2,
        ActionListSection::MIDIEventListEditor => 3,
        ActionListSection::MediaExplorer => 4,
    }
}

fn index_of(s: ActionListSection) -> (r: usize)
    ensures
        r == section_index(s),
        all_sections()[r as int] == s,
{
    match s {
        ActionListSection::Main => 0,
        ActionListSection::MIDIEditor => 1,
        ActionListSection::MIDIInlineEditor => 2,
        ActionListSection::MIDIEventListEditor => 3,
        ActionListSection::MediaExplorer => 4,
    }
}

/// The sections that `relpath` (relative to its version directory, with `/`
/// separators) belongs to, in canonical section order, each at most once.
pub fn classify(m: &Entrypoints, relpath: &str) -> (r: Result<Vec<ActionListSection>, globset::Error>)
    requires
        portable_path(relpath@),
    ensures
        match r {
            Ok(secs) => patterns_valid(m@, relpath@) && secs@ == sections_matching(all_sections(), m@, relpath@),
            Err(_) => !patterns_valid(m@, relpath@),
        },
{
    let mut flags: Vec<bool> = vec![false, false, false, false, false];
    let mut i: usize = 0;
    while i < m.sections.len()
        invariant
            i <= m@.len(),
            portable_path(relpath@),
            m@.len() == m.sections@.len(),
            flags@.len() == 5,
            forall|a: int| 0 <= a < i ==> glob_set_match_of((#[trigger] m@[a]).1, relpath@) is Some,
            forall|k: int| 0 <= k < 5 ==> #[trigger] flags@[k] == exists|a: int|
                0 <= a < i && (#[trigger] m@[a]).0 == all_sections()[k] && any_matches(m@[a].1, relpath@),
        decreases m@.len() - i,
    {
        let sec = m.sections[i].0;
        let k = index_of(sec);
        assert(m@[i as int].1 == m.sections@[i as int].1@.map_values(|s: String| s@));
        match glob_set_matches(&m.sections[i].1, relpath) {
            Err(e) => {
                assert(glob_set_match_of(m@[i as int].1, relpath@) is None);
                return Err(e);
            },
            Ok(b) => {
                let old_flag = flags[k];
                flags.set(k, old_flag || b);
                assert forall|k2: int| 0 <= k2 < 5 implies #[trigger] flags@[k2] == exists|a: int|
                    0 <= a < i + 1 && (#[trigger] m@[a]).0 == all_sections()[k2] && any_matches(
                        m@[a].1,
                        relpath@,
                    ) by {
                    if exists|a: int|
                        0 <= a < i + 1 && (#[trigger] m@[a]).0 == all_sections()[k2] && any_matches(
                            m@[a].1,
                            relpath@,
                        ) {
                        let a = choose|a: int|
                            0 <= a < i + 1 && (#[trigger] m@[a]).0 == all_sections()[k2]
                                && any_matches(m@[a].1, relpath@);
                        if a < i {
                            assert(flags@[k2]);
                        }
                    }
                }
            },
        }
        i = i + 1;
    }
    let order = sections_in_order();
    let mut out: Vec<ActionListSection> = Vec::new();
    let mut k: usize = 0;
    while k < 5
        invariant
            k <= 5,
            order@ == all_sections(),
            flags@.len() == 5,
            i == m@.len(),
            forall|q: int| 0 <= q < 5 ==> #[trigger] flags@[q] == in_section(m@, all_sections()[q], relpath@),
            out@ == sections_matching(all_sections().take(k as int), m@, relpath@),
        decreases 5 - k,
    {
        assert(all_sections().take(k + 1).drop_last() =~= all_sections().take(k as int));
        if flags[k] {
            out.push(order[k]);
        }
        k = k + 1;
    }
    assert(all_sections().take(5) =~= all_sections());
    Ok(out)
}

/// Why a package's entrypoints break the rules, or why they could not be
/// applied.
#[derive(Debug)]
pub enum EntrypointError {
    /// A script package without any pattern.
    NotDefinedForScript,
    /// Patterns on a package that is not a script.
    OnlyAllowedInScripts,
    /// A pattern that globset does not accept.
    InvalidPattern(globset::Error),
}

/// The rule that entrypoints break, where they break one.
#[derive(Debug)]
pub enum PolicyViolation {
    NotDefinedForScript,
    OnlyAllowedInScripts,
}

pub open spec fn optional_view(o: Option<Entrypoints>) -> Option<Seq<(ActionListSection, Seq<Seq<char>>)>> {
    match o {
        Some(m) => Some(m@),
        None => None,
    }
}

/// A script package needs a pattern; any other kind may hold none.
pub open spec fn policy_violation(
    kind: PackageType,
    eff: Option<Seq<(ActionListSection, Seq<Seq<char>>)>>,
) -> Option<PolicyViolation> {
    if kind == PackageType::Script {
        match eff {
            Some(m) => if has_patterns(m) {
                None
            } else {
                Some(PolicyViolation::NotDefinedForScript)
            },
            None => Some(PolicyViolation::NotDefinedForScript),
        }
    } else {
        match eff {
            Some(m) => if has_patterns(m) {
                Some(PolicyViolation::OnlyAllowedInScripts)
            } else {
                None
            },
            None => None,
        }
    }
}

/// The entrypoints that apply to a version: its own where it has them,
/// else its package's (no merge).
pub fn effective_entrypoints<'a>(
    version: &'a Option<Entrypoints>,
    package: &'a Option<Entrypoints>,
) -> (r: &'a Option<Entrypoints>)
    ensures
        version is Some ==> r == version,
        version is None ==> r == package,
{
    match version {
        Some(_) => version,
        None => package,
    }
}

fn any_patterns(m: &Entrypoints) -> (r: bool)
    ensures
        r == has_patterns(m@),
{
    let mut i: usize = 0;
    while i < m.sections.len()
        invariant
            i <= m@.len() == m.sections@.len(),
            forall|a: int| 0 <= a < i ==> (#[trigger] m@[a]).1.len() == 0,
        decreases m@.len() - i,
    {
        assert(m@[i as int].1.len() == m.sections@[i as int].1@.len());
        if m.sections[i].1.len() > 0 {
            return true;
        }
        i = i + 1;
    }
    false
}

/// Checks the entrypoint rules for a package of `kind` whose versions see
/// `eff`.
pub fn check_entrypoint_policy(kind: PackageType, eff: &Option<Entrypoints>) -> (r: Result<
    (),
    EntrypointError,
>)
    ensures
        match r {
            Ok(()) => policy_violation(kind, optional_view(*eff)) is None,
            Err(EntrypointError::NotDefinedForScript) => policy_violation(kind, optional_view(*eff))
                == Some(PolicyViolation::NotDefinedForScript),
            Err(EntrypointError::OnlyAllowedInScripts) => policy_violation(
                kind,
                optional_view(*eff),
            ) == Some(PolicyViolation::OnlyAllowedInScripts),
            Err(EntrypointError::InvalidPattern(_)) => false,
        },
{
    let is_script = match kind {
        PackageType::Script => true,
        _ => false,
    };
    match eff {
        Some(m) => {
            let any = any_patterns(m);
            if is_script && !any {
                Err(EntrypointError::NotDefinedForScript)
            } else if !is_script && any {
                Err(EntrypointError::OnlyAllowedInScripts)
            } else {
                Ok(())
            }
        },
        None => if is_script {
            Err(EntrypointError::NotDefinedForScript)
        } else {
            Ok(())
        },
    }
}

/// The sections of a source at `relpath` in a package of `kind` whose
/// version sees `eff`: the rules are checked first, then the patterns are
/// applied; without patterns a source is in no section.
pub fn source_sections(kind: PackageType, eff: &Option<Entrypoints>, relpath: &str) -> (r: Result<
    Vec<ActionListSection>,
    EntrypointError,
>)
    requires
        portable_path(relpath@),
    ensures
        match r {
            Ok(secs) => policy_violation(kind, optional_view(*eff)) is None && match eff {
                Some(m) => patterns_valid(m@, relpath@) && secs@ == sections_matching(
                    all_sections(),
                    m@,
                    relpath@,
                ),
                None => secs@.len() == 0,
            },
            Err(EntrypointError::NotDefinedForScript) => policy_violation(kind, optional_view(*eff))
                == Some(PolicyViolation::NotDefinedForScript),
            Err(EntrypointError::OnlyAllowedInScripts) => policy_violation(
                kind,
                optional_view(*eff),
            ) == Some(PolicyViolation::OnlyAllowedInScripts),
            Err(EntrypointError::InvalidPattern(_)) => policy_violation(kind, optional_view(*eff)) is None
                && match eff {
                Some(m) => !patterns_valid(m@, relpath@),
                None => false,
            },
        },
{
    check_entrypoint_policy(kind, eff)?;
    match eff {
        Some(m) => match classify(m, relpath) {
            Ok(secs) => Ok(secs),
            Err(e) => Err(EntrypointError::InvalidPattern(e)),
        },
        None => Ok(Vec::new()),
    }
}

} // verus!
