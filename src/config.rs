//! The closed sets of package kinds and action-list sections, with their
//! string tokens, and the template of a new repository configuration.

use vstd::prelude::*;
use crate::text::same_text;
use crate::template::{render_template, rendered_of, pair_views, template_keys_of, has_value};

verus! {

/// The kind of a package, as the package manager names it.
#[derive(Clone, Copy, Debug, PartialEq, Eq, Structural)]
pub enum PackageType {
    Script,
    Extension,
    Effect,
    Data,
    Theme,
    LangPack,
    WebInterface,
    ProjectTemplate,
    TrackTemplate,
    MIDINoteNames,
    AutomationItem,
}

/// A token that names no package kind.
#[derive(Debug)]
pub struct InvalidPackageType(pub String);

/// The token of each package kind.
pub open spec fn package_type_token(t: PackageType) -> Seq<char> {
    match t {
        PackageType::Script => "script"@,
        PackageType::Extension => "extension"@,
        PackageType::Effect => "effect"@,
        PackageType::Data => "data"@,
        PackageType::Theme => "theme"@,
        PackageType::LangPack => "langpack"@,
        PackageType::WebInterface => "webinterface"@,
        PackageType::ProjectTemplate => "projecttpl"@,
        PackageType::TrackTemplate => "tracktpl"@,
        PackageType::MIDINoteNames => "midinotenames"@,
        PackageType::AutomationItem => "autoitem"@,
    }
}

impl PackageType {
    /// The token of this kind.
    pub fn as_str(&self) -> (r: &'static str)
        ensures
            r@ == package_type_token(*self),
    {
        match self {
            PackageType::Script => "script",
            PackageType::Extension => "extension",
            PackageType::Effect => "effect",
            PackageType::Data => "data",
            PackageType::Theme => "theme",
            PackageType::LangPack => "langpack",
            PackageType::WebInterface => "webinterface",
            PackageType::ProjectTemplate => "projecttpl",
            PackageType::TrackTemplate => "tracktpl",
            PackageType::MIDINoteNames => "midinotenames",
            PackageType::AutomationItem => "autoitem",
        }
    }

    /// The kind whose token is exactly `s` (case-sensitive), or
    /// `InvalidPackageType` carrying `s`.
    pub fn from_str(s: &str) -> (r: Result<PackageType, InvalidPackageType>)
        ensures
            match r {
                Ok(t) => package_type_token(t) == s@,
                Err(e) => e.0@ == s@ && forall|t: PackageType| package_type_token(t) != s@,
            },
    {
        let all = [
            PackageType::Script,
            PackageType::Extension,
            PackageType::Effect,
            PackageType::Data,
            PackageType::Theme,
            PackageType::LangPack,
            PackageType::WebInterface,
            PackageType::ProjectTemplate,
            PackageType::TrackTemplate,
            PackageType::MIDINoteNames,
            PackageType::AutomationItem,
        ];
        let mut i: usize = 0;
        while i < 11
            invariant
                i <= 11,
                all@ == seq![
                    PackageType::Script,
                    PackageType::Extension,
                    PackageType::Effect,
                    PackageType::Data,
                    PackageType::Theme,
                    PackageType::LangPack,
                    PackageType::WebInterface,
                    PackageType::ProjectTemplate,
                    PackageType::TrackTemplate,
                    PackageType::MIDINoteNames,
                    PackageType::AutomationItem,
                ],
                forall|j: int| 0 <= j < i ==> package_type_token(#[trigger] all@[j]) != s@,
            decreases 11 - i,
        {
            let t = all[i];
            if same_text(t.as_str(), s) {
                return Ok(t);
            }
            i = i + 1;
        }
        assert forall|t: PackageType| package_type_token(t) != s@ by {
            assert(t == all@[0] || t == all@[1] || t == all@[2] || t == all@[3] || t == all@[4]
                || t == all@[5] || t == all@[6] || t == all@[7] || t == all@[8] || t == all@[9]
                || t == all@[10]);
        }
        Err(InvalidPackageType(crate::text::string_of(&crate::text::chars_of(s))))
    }
}

/// A section of the host application's action list.
#[derive(Clone, Copy, Debug, PartialEq, Eq, Hash, Structural)]
pub enum ActionListSection {
    Main,
    MIDIEditor,
    MIDIInlineEditor,
    MIDIEventListEditor,
    MediaExplorer,
}

/// A token that names no action-list section.
#[derive(Debug)]
pub struct InvalidActionListSection(pub String);

/// The token of each section.
pub open spec fn section_token(s: ActionListSection) -> Seq<char> {
    match s {
        ActionListSection::Main => "main"@,
        ActionListSection::MIDIEditor => "midi_editor"@,
        ActionListSection::MIDIInlineEditor => "midi_inlineeditor"@,
        ActionListSection::MIDIEventListEditor => "midi_eventlisteditor"@,
        ActionListSection::MediaExplorer => "mediaexplorer"@,
    }
}

/// The sections in their canonical order.
pub open spec fn all_sections() -> Seq<ActionListSection> {
    seq![
        ActionListSection::Main,
        ActionListSection::MIDIEditor,
        ActionListSection::MIDIInlineEditor,
        ActionListSection::MIDIEventListEditor,
        ActionListSection::MediaExplorer,
    ]
}

/// The sections in their canonical order.
pub fn sections_in_order() -> (r: [ActionListSection; 5])
    ensures
        r@ == all_sections(),
{
    [
        ActionListSection::Main,
        ActionListSection::MIDIEditor,
        ActionListSection::MIDIInlineEditor,
        ActionListSection::MIDIEventListEditor,
        ActionListSection::MediaExplorer,
    ]
}

impl ActionListSection {
    /// The token of this section.
    pub fn as_str(&self) -> (r: &'static str)
        ensures
            r@ == section_token(*self),
    {
        match self {
            ActionListSection::Main => "main",
            ActionListSection::MIDIEditor => "midi_editor",
            ActionListSection::MIDIInlineEditor => "midi_inlineeditor",
            ActionListSection::MIDIEventListEditor => "midi_eventlisteditor",
            ActionListSection::MediaExplorer => "mediaexplorer",
        }
    }

    /// The section whose token is exactly `s` (case-sensitive), or
    /// `InvalidActionListSection` carrying `s`.
    pub fn from_str(s: &str) -> (r: Result<ActionListSection, InvalidActionListSection>)
        ensures
            match r {
                Ok(t) => section_token(t) == s@,
                Err(e) => e.0@ == s@ && forall|t: ActionListSection| section_token(t) != s@,
            },
    {
        let all = sections_in_order();
        let mut i: usize = 0;
        while i < 5
            invariant
                i <= 5,
                all@ == all_sections(),
                forall|j: int| 0 <= j < i ==> section_token(#[trigger] all@[j]) != s@,
            decreases 5 - i,
        {
            let t = all[i];
            if same_text(t.as_str(), s) {
                return Ok(t);
            }
            i = i + 1;
        }
        assert forall|t: ActionListSection| section_token(t) != s@ by {
            assert(t == all@[0] || t == all@[1] || t == all@[2] || t == all@[3] || t == all@[4]);
        }
        Err(InvalidActionListSection(crate::text::string_of(&crate::text::chars_of(s))))
    }
}

/// Distinct package kinds have distinct tokens, so a token read back gives
/// the kind it was written from.
pub proof fn lemma_package_type_tokens_distinct(a: PackageType, b: PackageType)
    ensures
        package_type_token(a) == package_type_token(b) ==> a == b,
{
    reveal_strlit("script");
    reveal_strlit("extension");
    reveal_strlit("effect");
    reveal_strlit("data");
    reveal_strlit("theme");
    reveal_strlit("langpack");
    reveal_strlit("webinterface");
    reveal_strlit("projecttpl");
    reveal_strlit("tracktpl");
    reveal_strlit("midinotenames");
    reveal_strlit("autoitem");
    if package_type_token(a) == package_type_token(b) && a != b {
        assert(package_type_token(a).len() == package_type_token(b).len());
        assert(package_type_token(a)[0] == package_type_token(b)[0]);
        assert(package_type_token(a)[1] == package_type_token(b)[1]);
    }
}

/// Distinct sections have distinct tokens, so a token read back gives the
/// section it was written from.
pub proof fn lemma_section_tokens_distinct(a: ActionListSection, b: ActionListSection)
    ensures
        section_token(a) == section_token(b) ==> a == b,
{
    reveal_strlit("main");
    reveal_strlit("midi_editor");
    reveal_strlit("midi_inlineeditor");
    reveal_strlit("midi_eventlisteditor");
    reveal_strlit("mediaexplorer");
    if section_token(a) == section_token(b) && a != b {
        assert(section_token(a).len() == section_token(b).len());
        assert(section_token(a)[0] == section_token(b)[0]);
        assert(section_token(a)[5] == section_token(b)[5]);
    }
}

/// The text of a new repository configuration, with a key for each field.
pub const REPOSITORY_TEMPLATE: &'static str = "# Identifier of this repository, shown in the package manager\nidentifier = \"{identifier}\"\n\n# Default author of the packages in this repository\nauthor = \"{author}\"\n\n# URL of each file; it may use the relpath and git_commit variables\nurl_pattern = \"{url_pattern}\"\n";

/// The values that fill the repository configuration template.
pub struct RepositoryConfigParams {
    pub author: String,
    pub url_pattern: String,
    pub identifier: String,
}

/// The key/value pairs of the template, in the order they are handed to it.
pub open spec fn repository_values(p: RepositoryConfigParams) -> Seq<(Seq<char>, Seq<char>)> {
    seq![
        ("author"@, p.author@),
        ("url_pattern"@, p.url_pattern@),
        ("identifier"@, p.identifier@),
    ]
}

impl RepositoryConfigParams {
    /// The value for `key` (`author`, `url_pattern` or `identifier`), or
    /// `None` for any other key.
    pub fn get_value(&self, key: &str) -> (r: Option<String>)
        ensures
            key@ == "author"@ ==> r == Some(self.author),
            key@ == "url_pattern"@ ==> r == Some(self.url_pattern),
            key@ == "identifier"@ ==> r == Some(self.identifier),
            key@ != "author"@ && key@ != "url_pattern"@ && key@ != "identifier"@ ==> r is None,
    {
        proof {
            reveal_strlit("author");
            reveal_strlit("url_pattern");
            reveal_strlit("identifier");
            assert("author"@.len() == 6 && "url_pattern"@.len() == 11 && "identifier"@.len() == 10);
        }
        if same_text(key, "author") {
            Some(self.author.clone())
        } else if same_text(key, "url_pattern") {
            Some(self.url_pattern.clone())
        } else if same_text(key, "identifier") {
            Some(self.identifier.clone())
        } else {
            None
        }
    }

    /// Sets the author.
    pub fn author(&mut self, val: &str)
        ensures
            final(self).author@ == val@,
            final(self).url_pattern == old(self).url_pattern,
            final(self).identifier == old(self).identifier,
    {
        self.author = val.to_owned();
    }

    /// Sets the URL pattern.
    pub fn url_pattern(&mut self, val: &str)
        ensures
            final(self).url_pattern@ == val@,
            final(self).author == old(self).author,
            final(self).identifier == old(self).identifier,
    {
        self.url_pattern = val.to_owned();
    }

    /// Sets the identifier.
    pub fn identifier(&mut self, val: &str)
        ensures
            final(self).identifier@ == val@,
            final(self).author == old(self).author,
            final(self).url_pattern == old(self).url_pattern,
    {
        self.identifier = val.to_owned();
    }
}

impl Default for RepositoryConfigParams {
    /// Placeholder values for a repository that has not been set up yet.
    fn default() -> (r: Self)
        ensures
            r.author@ == "Your Name"@,
            r.url_pattern@
                == "https://raw.githubusercontent.com/YOUR_USERNAME/YOUR_REPOSITORY/{git_commit}/{relpath}"@,
            r.identifier@ == "your-repository-identifier"@,
    {
        RepositoryConfigParams {
            author: "Your Name".to_owned(),
            url_pattern: "https://raw.githubusercontent.com/YOUR_USERNAME/YOUR_REPOSITORY/{git_commit}/{relpath}".to_owned(),
            identifier: "your-repository-identifier".to_owned(),
        }
    }
}

/// The repository configuration template filled with `params`; `None` only
/// where the template engine does not accept the template or finds a key
/// without a value.
pub fn generate_repository_config(params: &RepositoryConfigParams) -> (r: Option<String>)
    ensures
        r is Some <==> template_keys_of(REPOSITORY_TEMPLATE@) is Some && forall|i: int|
            0 <= i < template_keys_of(REPOSITORY_TEMPLATE@)->0.len() ==> has_value(
                repository_values(*params),
                #[trigger] template_keys_of(REPOSITORY_TEMPLATE@)->0[i],
            ),
        r matches Some(s) ==> s@ == rendered_of(REPOSITORY_TEMPLATE@, repository_values(*params)),
{
    let values = vec![
        ("author".to_owned(), params.author.clone()),
        ("url_pattern".to_owned(), params.url_pattern.clone()),
        ("identifier".to_owned(), params.identifier.clone()),
    ];
    assert(pair_views(values@) =~= repository_values(*params));
    match render_template(REPOSITORY_TEMPLATE, &values) {
        Ok(Ok(s)) => Some(s),
        _ => None,
    }
}

} // verus!
