//! The repository model, resolved from its configuration files, and the
//! index document generated from it.

use vstd::prelude::*;
use vstd::utf8::encode_utf8;
use crate::config::{ActionListSection, PackageType, package_type_token, section_token, all_sections};
use crate::entrypoints::{
    Entrypoints, EntrypointError, PolicyViolation, portable_path, source_sections, effective_entrypoints,
    optional_view, policy_violation, patterns_valid, sections_matching,
};
use crate::template::{template_keys_of, rendered_of};
use crate::text::{same_text, chars_of, string_of, extend_chars, same_chars, split_on, views, segments_of, cdata, cdata_text};
use crate::xml::{
    XmlNode, element, add_attribute, add_text, add_child, document, xml_model, xml_document_of,
    parent_node, text_node, elements, children_of,
};
use crate::url::{
    UrlError, render_url, normalize_relpath, normalized_of, encode_path_bytes, url_values, opt_text,
    all_known,
};

verus! {

/// A file of a version.
pub struct Source {
    /// Where the file is, for messages.
    pub path: String,
    /// The file's path relative to its version directory, with `/` separators.
    pub relpath_from_version: String,
    /// The file's path relative to the repository root, with `/` separators.
    pub relpath_from_repo: String,
}

/// A version of a package.
pub struct Version {
    /// The version directory.
    pub path: String,
    /// The version name: the directory's name.
    pub name: String,
    /// The publication time, in RFC 3339 form.
    pub time: String,
    /// The text of the changelog, where there is one.
    pub changelog: Option<String>,
    /// The version's own entrypoints; they replace the package's.
    pub entrypoints: Option<Entrypoints>,
    /// The files of the version.
    pub sources: Vec<Source>,
}

/// A package of the repository.
pub struct Package {
    /// The package directory.
    pub path: String,
    /// The package directory's name.
    pub dir_name: String,
    /// The identifier given in the configuration.
    pub identifier: Option<String>,
    /// The display name given in the configuration.
    pub name: Option<String>,
    /// The category, a relative path.
    pub category: String,
    pub kind: PackageType,
    /// The author, where it differs from the repository's.
    pub author: Option<String>,
    /// The description, where there is one.
    pub readme: Option<String>,
    pub entrypoints: Option<Entrypoints>,
    pub versions: Vec<Version>,
}

/// A package repository.
pub struct Repository {
    /// The repository directory.
    pub path: String,
    /// The repository directory's name.
    pub dir_name: String,
    /// The identifier given in the configuration.
    pub identifier: Option<String>,
    pub author: String,
    /// The pattern of each source's download URL.
    pub url_pattern: String,
    /// The description, where there is one.
    pub readme: Option<String>,
    pub packages: Vec<Package>,
}

/// Why the index could not be generated. Each error names the directory or
/// file where it was found.
#[derive(Debug)]
pub enum IndexError {
    NoSourcesFound(String),
    EntrypointsOnlyAllowedInScriptPackages(String),
    NoEntrypointsDefinedForScriptPackage(String),
    NoEntrypointsFoundForScriptPackage(String),
    InvalidEntrypointPattern(String, globset::Error),
    CategoryEscapesRoot(String),
    UrlTemplate(String, UrlError),
    /// xml_builder's error; `generate_index` never returns it, as its
    /// contract shows.
    Xml(xml_builder::XMLError),
}

/// Whether every file of `v` has a path within its version written with `/` only.
pub open spec fn version_paths_portable(v: Version) -> bool {
    forall|i: int| 0 <= i < v.sources@.len() ==> portable_path(#[trigger] v.sources@[i].relpath_from_version@)
}

/// Whether every file of every version of `p` has a portable path.
pub open spec fn package_paths_portable(p: Package) -> bool {
    forall|i: int| 0 <= i < p.versions@.len() ==> version_paths_portable(#[trigger] p.versions@[i])
}

/// Whether every file of `r` has a portable path within its version.
pub open spec fn repository_paths_portable(r: Repository) -> bool {
    forall|i: int| 0 <= i < r.packages@.len() ==> package_paths_portable(#[trigger] r.packages@[i])
}

/// The identifier of a repository: the configured one, else the directory's name.
pub open spec fn repository_identifier(r: Repository) -> Seq<char> {
    match r.identifier {
        Some(i) => i@,
        None => r.dir_name@,
    }
}

/// The identifier of a package: the configured one, else the directory's name.
pub open spec fn package_identifier(p: Package) -> Seq<char> {
    match p.identifier {
        Some(i) => i@,
        None => p.dir_name@,
    }
}

/// The display name of a package: the configured one, else its identifier.
pub open spec fn package_name(p: Package) -> Seq<char> {
    match p.name {
        Some(n) => n@,
        None => package_identifier(p),
    }
}

/// The author of a package's versions: the package's own, else the repository's.
pub open spec fn package_author(r: Repository, p: Package) -> Seq<char> {
    match p.author {
        Some(a) => a@,
        None => r.author@,
    }
}

/// The entrypoints that a version of `p` sees.
pub open spec fn effective_view(p: Package, v: Version) -> Option<Seq<(ActionListSection, Seq<Seq<char>>)>> {
    match v.entrypoints {
        Some(m) => Some(m@),
        None => optional_view(p.entrypoints),
    }
}

pub open spec fn opt_cdata(t: Option<String>) -> Option<Seq<char>> {
    match t {
        Some(s) => Some(cdata_text(s@)),
        None => None,
    }
}

pub open spec fn opt_string(t: Option<String>) -> Option<Seq<char>> {
    match t {
        Some(s) => Some(s@),
        None => None,
    }
}

impl Repository {
    pub fn identifier(&self) -> (r: &String)
        ensures
            r@ == repository_identifier(*self),
    {
        match &self.identifier {
            Some(i) => i,
            None => &self.dir_name,
        }
    }
}

impl Package {
    pub fn identifier(&self) -> (r: &String)
        ensures
            r@ == package_identifier(*self),
    {
        match &self.identifier {
            Some(i) => i,
            None => &self.dir_name,
        }
    }

    pub fn name(&self) -> (r: &String)
        ensures
            r@ == package_name(*self),
    {
        match &self.name {
            Some(n) => n,
            None => self.identifier(),
        }
    }

    /// The author of this package's versions within `repo`.
    pub fn author<'a>(&'a self, repo: &'a Repository) -> (r: &'a String)
        ensures
            r@ == package_author(*repo, *self),
    {
        match &self.author {
            Some(a) => a,
            None => &repo.author,
        }
    }
}

/// The number of non-empty segments.
pub open spec fn count_nonempty(segs: Seq<Seq<char>>) -> nat
    decreases segs.len(),
{
    if segs.len() == 0 {
        0
    } else {
        count_nonempty(segs.drop_last()) + if segs.last().len() > 0 { 1nat } else { 0 }
    }
}

/// Whether one of the segments is `..`.
pub open spec fn has_parent_segment(segs: Seq<Seq<char>>) -> bool {
    exists|i: int| 0 <= i < segs.len() && #[trigger] segs[i] == ".."@
}

/// A category, normalised, with the number of its path segments.
pub struct Category {
    pub name: String,
    pub depth: usize,
}

/// The normalised form of a category path and its depth; an error where it
/// climbs above the repository root.
pub fn category_of(category: &str) -> (r: Option<Category>)
    ensures
        match r {
            Some(c) => c.name@ == normalized_of(category@) && !has_parent_segment(
                split_on(normalized_of(category@), '/'),
            ) && c.depth == count_nonempty(split_on(normalized_of(category@), '/')),
            None => has_parent_segment(split_on(normalized_of(category@), '/')),
        },
{
    let name = normalize_relpath(category);
    let name_chars = chars_of(name.as_str());
    assert(name_chars@ == normalized_of(category@));
    let segs = segments_of(&name_chars, '/');
    let parent = chars_of("..");
    let ghost sv = views(segs@);
    let mut depth: usize = 0;
    let mut i: usize = 0;
    while i < segs.len()
        invariant
            i <= segs@.len() == sv.len(),
            sv == views(segs@),
            sv == split_on(normalized_of(category@), '/'),
            parent@ == ".."@,
            depth == count_nonempty(sv.take(i as int)),
            depth <= i,
            forall|j: int| 0 <= j < i ==> #[trigger] sv[j] != ".."@,
        decreases segs@.len() - i,
    {
        assert(sv[i as int] == segs@[i as int]@);
        if same_chars(&segs[i], &parent) {
            assert(sv[i as int] == ".."@);
            assert(sv == split_on(normalized_of(category@), '/'));
            assert(has_parent_segment(sv));
            return None;
        }
        assert(sv.take(i + 1).drop_last() =~= sv.take(i as int));
        if segs[i].len() > 0 {
            depth = depth + 1;
        }
        i = i + 1;
    }
    assert(sv.take(i as int) =~= sv);
    Some(Category { name, depth })
}

/// `n` parent-directory steps, each `../`.
pub open spec fn parent_steps(n: nat) -> Seq<char>
    decreases n,
{
    if n == 0 {
        Seq::empty()
    } else {
        parent_steps((n - 1) as nat) + "../"@
    }
}

/// The `file` attribute of a source: from its category folder, one step up
/// per category segment, then the package identifier and the source's path
/// within its version.
pub open spec fn source_file(depth: nat, identifier: Seq<char>, relpath: Seq<char>) -> Seq<char> {
    parent_steps(depth) + identifier + "/"@ + relpath
}

/// The tokens of `secs` joined by single spaces.
pub open spec fn joined_tokens(secs: Seq<ActionListSection>) -> Seq<char>
    decreases secs.len(),
{
    if secs.len() == 0 {
        Seq::empty()
    } else if secs.len() == 1 {
        section_token(secs[0])
    } else {
        joined_tokens(secs.drop_last()) + " "@ + section_token(secs.last())
    }
}

fn join_tokens(secs: &Vec<ActionListSection>) -> (r: String)
    ensures
        r@ == joined_tokens(secs@),
{
    let mut out: Vec<char> = Vec::new();
    let space = chars_of(" ");
    let mut k: usize = 0;
    while k < secs.len()
        invariant
            k <= secs@.len(),
            space@ == " "@,
            out@ == joined_tokens(secs@.take(k as int)),
        decreases secs@.len() - k,
    {
        assert(secs@.take(k + 1).drop_last() =~= secs@.take(k as int));
        if k > 0 {
            extend_chars(&mut out, &space);
        } else {
            assert(out@ =~= Seq::<char>::empty());
        }
        extend_chars(&mut out, &chars_of(secs[k].as_str()));
        k = k + 1;
    }
    assert(secs@.take(k as int) =~= secs@);
    string_of(&out)
}

fn file_path(depth: usize, identifier: &str, relpath: &str) -> (r: String)
    ensures
        r@ == source_file(depth as nat, identifier@, relpath@),
{
    let mut out: Vec<char> = Vec::new();
    let up = chars_of("../");
    let mut k: usize = 0;
    while k < depth
        invariant
            k <= depth,
            up@ == "../"@,
            out@ == parent_steps(k as nat),
        decreases depth - k,
    {
        extend_chars(&mut out, &up);
        k = k + 1;
    }
    extend_chars(&mut out, &chars_of(identifier));
    extend_chars(&mut out, &chars_of("/"));
    extend_chars(&mut out, &chars_of(relpath));
    string_of(&out)
}

/// The `source` element of the index.
pub struct SourceElem {
    /// The download URL, the element's text.
    pub url: String,
    /// The path of the installed file, from the category folder.
    pub file: String,
    /// The space-separated sections of an entrypoint.
    pub main: Option<String>,
}

/// The sections that a source at `relpath` in version `v` of `p` belongs to.
pub open spec fn source_section_list(p: Package, v: Version, relpath: Seq<char>) -> Seq<ActionListSection> {
    match effective_view(p, v) {
        Some(m) => sections_matching(all_sections(), m, relpath),
        None => Seq::empty(),
    }
}

/// What the `source` element of `s` holds.
pub open spec fn source_elem_ok(
    e: SourceElem,
    r: Repository,
    p: Package,
    v: Version,
    s: Source,
    depth: nat,
    commit: Option<Seq<char>>,
) -> bool {
    &&& e.url@ == rendered_of(
        r.url_pattern@,
        url_values(encode_path_bytes(encode_utf8(normalized_of(s.relpath_from_repo@))), commit),
    )
    &&& e.file@ == source_file(depth, package_identifier(p), s.relpath_from_version@)
    &&& source_section_list(p, v, s.relpath_from_version@).len() == 0 ==> e.main is None
    &&& source_section_list(p, v, s.relpath_from_version@).len() > 0 ==> (e.main matches Some(t) && t@
        == joined_tokens(source_section_list(p, v, s.relpath_from_version@)))
}

/// Whether the URL pattern can be rendered: leon accepts it and each of its
/// keys has a value.
pub open spec fn url_renders(r: Repository, commit: Option<Seq<char>>) -> bool {
    template_keys_of(r.url_pattern@) is Some && all_known(template_keys_of(r.url_pattern@)->0, commit)
}

/// Whether the element of source `s` can be built: its URL renders, the
/// entrypoint rules hold and globset accepts every pattern.
pub open spec fn source_succeeds(r: Repository, p: Package, v: Version, s: Source, commit: Option<Seq<char>>) -> bool {
    &&& url_renders(r, commit)
    &&& policy_violation(p.kind, effective_view(p, v)) is None
    &&& match effective_view(p, v) {
        Some(m) => patterns_valid(m, s.relpath_from_version@),
        None => true,
    }
}

/// What an error about source `s` says of its inputs.
pub open spec fn source_error_ok(
    e: IndexError,
    r: Repository,
    p: Package,
    v: Version,
    s: Source,
    commit: Option<Seq<char>>,
) -> bool {
    match e {
        IndexError::UrlTemplate(path, _) => path == s.path && !url_renders(r, commit),
        IndexError::NoEntrypointsDefinedForScriptPackage(path) => path == p.path && policy_violation(
            p.kind,
            effective_view(p, v),
        ) == Some(PolicyViolation::NotDefinedForScript),
        IndexError::EntrypointsOnlyAllowedInScriptPackages(path) => path == p.path
            && policy_violation(p.kind, effective_view(p, v)) == Some(
            PolicyViolation::OnlyAllowedInScripts,
        ),
        IndexError::InvalidEntrypointPattern(path, _) => path == p.path && match effective_view(p, v) {
            Some(m) => !patterns_valid(m, s.relpath_from_version@),
            None => false,
        },
        _ => false,
    }
}

impl Source {
/// The `source` element of this file of version `ver` of package `pkg`
/// in `repo`, whose category is `depth` segments deep.
pub fn element(
    &self,
    repo: &Repository,
    pkg: &Package,
    ver: &Version,
    depth: usize,
    git_commit: Option<&str>,
) -> (r: Result<SourceElem, IndexError>)
    requires
        portable_path(self.relpath_from_version@),
    ensures
        match r {
            Ok(e) => source_succeeds(*repo, *pkg, *ver, *self, opt_text(git_commit))
                && source_elem_ok(e, *repo, *pkg, *ver, *self, depth as nat, opt_text(git_commit)),
            Err(e) => !source_succeeds(*repo, *pkg, *ver, *self, opt_text(git_commit))
                && source_error_ok(e, *repo, *pkg, *ver, *self, opt_text(git_commit)),
        },
{
    let url = match render_url(repo.url_pattern.as_str(), self.relpath_from_repo.as_str(), git_commit) {
        Ok(u) => u,
        Err(e) => {
            return Err(IndexError::UrlTemplate(self.path.clone(), e));
        },
    };
    let file = file_path(depth, pkg.identifier().as_str(), self.relpath_from_version.as_str());
    let eff = effective_entrypoints(&ver.entrypoints, &pkg.entrypoints);
    assert(optional_view(*eff) == effective_view(*pkg, *ver));
    let secs = match source_sections(pkg.kind, eff, self.relpath_from_version.as_str()) {
        Ok(s) => s,
        Err(EntrypointError::NotDefinedForScript) => {
            return Err(IndexError::NoEntrypointsDefinedForScriptPackage(pkg.path.clone()));
        },
        Err(EntrypointError::OnlyAllowedInScripts) => {
            return Err(IndexError::EntrypointsOnlyAllowedInScriptPackages(pkg.path.clone()));
        },
        Err(EntrypointError::InvalidPattern(e)) => {
            return Err(IndexError::InvalidEntrypointPattern(pkg.path.clone(), e));
        },
    };
    let main = if secs.len() == 0 {
        None
    } else {
        Some(join_tokens(&secs))
    };
    Ok(SourceElem { url, file, main })
}

}

/// The `version` element of the index.
pub struct VersionElem {
    pub name: String,
    pub author: String,
    pub time: String,
    /// The changelog, as a CDATA section.
    pub changelog: Option<String>,
    pub sources: Vec<SourceElem>,
}

/// What the `version` element of `v` holds.
pub open spec fn version_elem_ok(
    e: VersionElem,
    r: Repository,
    p: Package,
    v: Version,
    depth: nat,
    commit: Option<Seq<char>>,
) -> bool {
    &&& e.name@ == v.name@
    &&& e.author@ == package_author(r, p)
    &&& e.time@ == v.time@
    &&& opt_string(e.changelog) == opt_cdata(v.changelog)
    &&& e.sources@.len() == v.sources@.len()
    &&& forall|i: int|
        0 <= i < v.sources@.len() ==> source_elem_ok(
            #[trigger] e.sources@[i],
            r,
            p,
            v,
            v.sources@[i],
            depth,
            commit,
        )
    &&& p.kind == PackageType::Script ==> exists|i: int|
        0 <= i < v.sources@.len() && #[trigger] source_section_list(
            p,
            v,
            v.sources@[i].relpath_from_version@,
        ).len() > 0
}

/// Whether the element of version `v` can be built: it has files, each
/// file's element can be built, and in a script one of them is an entrypoint.
pub open spec fn version_succeeds(r: Repository, p: Package, v: Version, commit: Option<Seq<char>>) -> bool {
    &&& v.sources@.len() > 0
    &&& forall|i: int| 0 <= i < v.sources@.len() ==> source_succeeds(r, p, v, #[trigger] v.sources@[i], commit)
    &&& p.kind == PackageType::Script ==> exists|i: int|
        0 <= i < v.sources@.len() && #[trigger] source_section_list(
            p,
            v,
            v.sources@[i].relpath_from_version@,
        ).len() > 0
}

/// Whether the element of package `p` can be built: that of each version can.
pub open spec fn package_succeeds(r: Repository, p: Package, commit: Option<Seq<char>>) -> bool {
    forall|i: int| 0 <= i < p.versions@.len() ==> version_succeeds(r, p, #[trigger] p.versions@[i], commit)
}

/// What an error about version `v` says of its inputs.
pub open spec fn version_error_ok(
    e: IndexError,
    r: Repository,
    p: Package,
    v: Version,
    commit: Option<Seq<char>>,
) -> bool {
    match e {
        IndexError::NoSourcesFound(path) => path == v.path && v.sources@.len() == 0,
        IndexError::NoEntrypointsFoundForScriptPackage(path) => path == p.path && p.kind
            == PackageType::Script && forall|i: int|
            0 <= i < v.sources@.len() ==> #[trigger] source_section_list(
                p,
                v,
                v.sources@[i].relpath_from_version@,
            ).len() == 0,
        _ => exists|i: int|
            0 <= i < v.sources@.len() && source_error_ok(e, r, p, v, #[trigger] v.sources@[i], commit),
    }
}

fn opt_cdata_exec(t: &Option<String>) -> (r: Option<String>)
    ensures
        opt_string(r) == opt_cdata(*t),
{
    match t {
        Some(s) => Some(cdata(s.as_str())),
        None => None,
    }
}

impl Version {
    /// The `version` element of this version of `pkg` in `repo`; a version
    /// without files is an error, and so is a script version none of whose
    /// files is an entrypoint.
    pub fn element(
        &self,
        repo: &Repository,
        pkg: &Package,
        depth: usize,
        git_commit: Option<&str>,
    ) -> (r: Result<VersionElem, IndexError>)
        requires
            version_paths_portable(*self),
        ensures
            match r {
                Ok(e) => version_succeeds(*repo, *pkg, *self, opt_text(git_commit)) && version_elem_ok(
                    e,
                    *repo,
                    *pkg,
                    *self,
                    depth as nat,
                    opt_text(git_commit),
                ),
                Err(e) => !version_succeeds(*repo, *pkg, *self, opt_text(git_commit))
                    && version_error_ok(e, *repo, *pkg, *self, opt_text(git_commit)),
            },
    {
        if self.sources.len() == 0 {
            return Err(IndexError::NoSourcesFound(self.path.clone()));
        }
        let mut sources: Vec<SourceElem> = Vec::new();
        let mut any_entry = false;
        let mut i: usize = 0;
        while i < self.sources.len()
            invariant
                i <= self.sources@.len(),
                version_paths_portable(*self),
                sources@.len() == i,
                forall|j: int|
                    0 <= j < i ==> source_elem_ok(
                        #[trigger] sources@[j],
                        *repo,
                        *pkg,
                        *self,
                        self.sources@[j],
                        depth as nat,
                        opt_text(git_commit),
                    ),
                forall|j: int|
                    0 <= j < i ==> source_succeeds(*repo, *pkg, *self, #[trigger] self.sources@[j], opt_text(git_commit)),
                any_entry == exists|j: int|
                    0 <= j < i && #[trigger] source_section_list(
                        *pkg,
                        *self,
                        self.sources@[j].relpath_from_version@,
                    ).len() > 0,
            decreases self.sources@.len() - i,
        {
            match self.sources[i].element(repo, pkg, self, depth, git_commit) {
                Ok(e) => {
                    let has_main = e.main.is_some();
                    any_entry = any_entry || has_main;
                    sources.push(e);
                    assert(sources@[i as int] == e);
                },
                Err(e) => {
                    assert(source_error_ok(e, *repo, *pkg, *self, self.sources@[i as int], opt_text(git_commit)));
                    return Err(e);
                },
            }
            i = i + 1;
        }
        let is_script = match pkg.kind {
            PackageType::Script => true,
            _ => false,
        };
        if is_script && !any_entry {
            return Err(IndexError::NoEntrypointsFoundForScriptPackage(pkg.path.clone()));
        }
        Ok(VersionElem {
            name: self.name.clone(),
            author: pkg.author(repo).clone(),
            time: self.time.clone(),
            changelog: opt_cdata_exec(&self.changelog),
            sources,
        })
    }
}

/// The `reapack` element of the index, for one package.
pub struct PackageElem {
    /// The display name.
    pub desc: String,
    pub kind: PackageType,
    /// The identifier.
    pub name: String,
    /// The description, as a CDATA section.
    pub description: Option<String>,
    pub versions: Vec<VersionElem>,
}

/// What the element of package `p` holds.
pub open spec fn package_elem_ok(
    e: PackageElem,
    r: Repository,
    p: Package,
    depth: nat,
    commit: Option<Seq<char>>,
) -> bool {
    &&& e.desc@ == package_name(p)
    &&& e.kind == p.kind
    &&& e.name@ == package_identifier(p)
    &&& opt_string(e.description) == opt_cdata(p.readme)
    &&& e.versions@.len() == p.versions@.len()
    &&& forall|i: int|
        0 <= i < p.versions@.len() ==> version_elem_ok(
            #[trigger] e.versions@[i],
            r,
            p,
            p.versions@[i],
            depth,
            commit,
        )
}

impl Package {
    /// The element of this package of `repo`, whose category is `depth`
    /// segments deep.
    pub fn element(&self, repo: &Repository, depth: usize, git_commit: Option<&str>) -> (r: Result<
        PackageElem,
        IndexError,
    >)
        requires
            package_paths_portable(*self),
        ensures
            match r {
                Ok(e) => package_succeeds(*repo, *self, opt_text(git_commit)) && package_elem_ok(
                    e,
                    *repo,
                    *self,
                    depth as nat,
                    opt_text(git_commit),
                ),
                Err(e) => !package_succeeds(*repo, *self, opt_text(git_commit)) && exists|i: int|
                    0 <= i < self.versions@.len() && version_error_ok(
                        e,
                        *repo,
                        *self,
                        #[trigger] self.versions@[i],
                        opt_text(git_commit),
                    ),
            },
    {
        let mut versions: Vec<VersionElem> = Vec::new();
        let mut i: usize = 0;
        while i < self.versions.len()
            invariant
                i <= self.versions@.len(),
                package_paths_portable(*self),
                versions@.len() == i,
                forall|j: int|
                    0 <= j < i ==> version_succeeds(*repo, *self, #[trigger] self.versions@[j], opt_text(git_commit)),
                forall|j: int|
                    0 <= j < i ==> version_elem_ok(
                        #[trigger] versions@[j],
                        *repo,
                        *self,
                        self.versions@[j],
                        depth as nat,
                        opt_text(git_commit),
                    ),
            decreases self.versions@.len() - i,
        {
            match self.versions[i].element(repo, self, depth, git_commit) {
                Ok(e) => {
                    versions.push(e);
                    assert(versions@[i as int] == e);
                },
                Err(e) => {
                    assert(version_error_ok(e, *repo, *self, self.versions@[i as int], opt_text(git_commit)));
                    return Err(e);
                },
            }
            i = i + 1;
        }
        Ok(PackageElem {
            desc: self.name().clone(),
            kind: self.kind,
            name: self.identifier().clone(),
            description: opt_cdata_exec(&self.readme),
            versions,
        })
    }
}

/// A `category` element: its name and the indices, in the document's
/// package list, of the packages under it.
pub struct CategoryElem {
    pub name: String,
    pub members: Vec<usize>,
}

/// The index document: the repository's identifier and description, the
/// element of each package, and the packages grouped by category.
pub struct IndexDoc {
    pub name: String,
    /// The description, as a CDATA section.
    pub description: Option<String>,
    pub packages: Vec<PackageElem>,
    pub categories: Vec<CategoryElem>,
}

/// The normalised category of a package.
pub open spec fn package_category(p: Package) -> Seq<char> {
    normalized_of(p.category@)
}

/// The number of segments of a package's category.
pub open spec fn package_depth(p: Package) -> nat {
    count_nonempty(split_on(normalized_of(p.category@), '/'))
}

/// `cats` groups the packages whose categories are `names`: one category per
/// distinct name, none empty, and each holding, in increasing order, exactly the
/// packages of its name.
pub open spec fn grouped(cats: Seq<CategoryElem>, names: Seq<Seq<char>>) -> bool {
    &&& forall|c: int| 0 <= c < cats.len() ==> (#[trigger] cats[c]).members@.len() > 0
    &&& forall|c1: int, c2: int|
        0 <= c1 < cats.len() && 0 <= c2 < cats.len() && c1 != c2 ==> (#[trigger] cats[c1]).name@
            != (#[trigger] cats[c2]).name@
    &&& forall|c: int, k: int|
        0 <= c < cats.len() && 0 <= k < cats[c].members@.len() ==> #[trigger] cats[c].members@[k]
            < names.len() && names[cats[c].members@[k] as int] == cats[c].name@
    &&& forall|c: int, k1: int, k2: int|
        0 <= c < cats.len() && 0 <= k1 < k2 < cats[c].members@.len() ==> #[trigger] cats[c].members@[k1]
            < #[trigger] cats[c].members@[k2]
    &&& forall|c: int, q: int|
        0 <= c < cats.len() && 0 <= q < names.len() && #[trigger] names[q] == (#[trigger] cats[c]).name@
            ==> cats[c].members@.contains(q as usize)
    &&& forall|q: int| 0 <= q < names.len() ==> has_name(cats, #[trigger] names[q])
}

/// Whether one of `cats` is named `name`.
pub open spec fn has_name(cats: Seq<CategoryElem>, name: Seq<char>) -> bool {
    exists|c: int| 0 <= c < cats.len() && (#[trigger] cats[c]).name@ == name
}

/// The indices of `names` that hold `target`, in increasing order.
fn members_of(names: &Vec<String>, target: &String) -> (r: Vec<usize>)
    ensures
        forall|k: int| 0 <= k < r@.len() ==> #[trigger] r@[k] < names@.len() && names@[r@[k] as int]@ == target@,
        forall|k1: int, k2: int| 0 <= k1 < k2 < r@.len() ==> #[trigger] r@[k1] < #[trigger] r@[k2],
        forall|i: int| 0 <= i < names@.len() && #[trigger] names@[i]@ == target@ ==> r@.contains(i as usize),
{
    let mut r: Vec<usize> = Vec::new();
    let tc = chars_of(target.as_str());
    let mut j: usize = 0;
    while j < names.len()
        invariant
            j <= names@.len(),
            tc@ == target@,
            forall|k: int| 0 <= k < r@.len() ==> #[trigger] r@[k] < j && names@[r@[k] as int]@ == target@,
            forall|k1: int, k2: int| 0 <= k1 < k2 < r@.len() ==> #[trigger] r@[k1] < #[trigger] r@[k2],
            forall|i: int| 0 <= i < j && #[trigger] names@[i]@ == target@ ==> r@.contains(i as usize),
        decreases names@.len() - j,
    {
        let ghost old_r = r@;
        if same_chars(&chars_of(names[j].as_str()), &tc) {
            r.push(j);
            assert(r@[r@.len() - 1] == j);
        }
        proof {
            assert forall|i: int| 0 <= i < j + 1 && #[trigger] names@[i]@ == target@ implies r@.contains(i as usize) by {
                if i == j {
                    assert(r@[r@.len() - 1] == j);
                } else {
                    assert(old_r.contains(i as usize));
                    let k = choose|k: int| 0 <= k < old_r.len() && old_r[k] == i as usize;
                    assert(r@[k] == i as usize);
                }
            }
        }
        j = j + 1;
    }
    r
}

/// Whether one of `cats` is named `name`.
fn has_category(cats: &Vec<CategoryElem>, name: &String) -> (r: bool)
    ensures
        r == exists|c: int| 0 <= c < cats@.len() && (#[trigger] cats@[c]).name@ == name@,
{
    let nc = chars_of(name.as_str());
    let mut c: usize = 0;
    while c < cats.len()
        invariant
            c <= cats@.len(),
            nc@ == name@,
            forall|d: int| 0 <= d < c ==> (#[trigger] cats@[d]).name@ != name@,
        decreases cats@.len() - c,
    {
        if same_chars(&chars_of(cats[c].name.as_str()), &nc) {
            return true;
        }
        c = c + 1;
    }
    false
}

/// Groups package indices by category name, categories in order of first
/// appearance.
fn group_categories(names: &Vec<String>) -> (r: Vec<CategoryElem>)
    ensures
        grouped(r@, views_of(names@)),
{
    let ghost nv = views_of(names@);
    let mut cats: Vec<CategoryElem> = Vec::new();
    let mut i: usize = 0;
    while i < names.len()
        invariant
            i <= names@.len(),
            nv == views_of(names@),
            nv.len() == names@.len(),
            forall|c: int| 0 <= c < cats@.len() ==> (#[trigger] cats@[c]).members@.len() > 0,
            forall|c1: int, c2: int|
                0 <= c1 < cats@.len() && 0 <= c2 < cats@.len() && c1 != c2 ==> (#[trigger] cats@[c1]).name@
                    != (#[trigger] cats@[c2]).name@,
            forall|c: int, k: int|
                0 <= c < cats@.len() && 0 <= k < cats@[c].members@.len() ==> #[trigger] cats@[c].members@[k]
                    < nv.len() && nv[cats@[c].members@[k] as int] == cats@[c].name@,
            forall|c: int, k1: int, k2: int|
                0 <= c < cats@.len() && 0 <= k1 < k2 < cats@[c].members@.len() ==> #[trigger] cats@[c].members@[k1]
                    < #[trigger] cats@[c].members@[k2],
            forall|c: int, j: int|
                0 <= c < cats@.len() && 0 <= j < nv.len() && #[trigger] nv[j] == (#[trigger] cats@[c]).name@
                    ==> cats@[c].members@.contains(j as usize),
            forall|j: int| 0 <= j < i ==> has_name(cats@, #[trigger] nv[j]),
        decreases names@.len() - i,
    {
        assert(nv[i as int] == names@[i as int]@);
        if !has_category(&cats, &names[i]) {
            let members = members_of(names, &names[i]);
            assert(members@.contains(i as usize));
            let ghost old_cats = cats@;
            cats.push(CategoryElem { name: names[i].clone(), members });
            let ghost last = cats@.len() - 1;
            assert(cats@[last].name@ == nv[i as int]);
            assert forall|c: int| 0 <= c < cats@.len() implies (#[trigger] cats@[c]).members@.len() > 0 by {
                if c < last {
                    assert(cats@[c] == old_cats[c]);
                }
            }
            assert forall|j: int| 0 <= j < i + 1 implies has_name(cats@, #[trigger] nv[j]) by {
                if j < i {
                    assert(has_name(old_cats, nv[j]));
                    let c = choose|c: int| 0 <= c < old_cats.len() && (#[trigger] old_cats[c]).name@ == nv[j];
                    assert(cats@[c] == old_cats[c]);
                } else {
                    assert(cats@[last].name@ == nv[j]);
                }
            }
            assert forall|c: int, j: int|
                0 <= c < cats@.len() && 0 <= j < nv.len() && #[trigger] nv[j] == (#[trigger] cats@[c]).name@
                implies cats@[c].members@.contains(j as usize) by {
                if c < last {
                    assert(cats@[c] == old_cats[c]);
                } else {
                    assert(names@[j]@ == nv[j]);
                }
            }
            assert forall|c: int, k: int|
                0 <= c < cats@.len() && 0 <= k < cats@[c].members@.len() implies #[trigger] cats@[c].members@[k]
                    < nv.len() && nv[cats@[c].members@[k] as int] == cats@[c].name@ by {
                if c < last {
                    assert(cats@[c] == old_cats[c]);
                } else {
                    assert(nv[cats@[c].members@[k] as int] == names@[cats@[c].members@[k] as int]@);
                }
            }
            assert forall|c1: int, c2: int|
                0 <= c1 < cats@.len() && 0 <= c2 < cats@.len() && c1 != c2 implies (#[trigger] cats@[c1]).name@
                    != (#[trigger] cats@[c2]).name@ by {
                if c1 < last && c2 < last {
                    assert(cats@[c1] == old_cats[c1]);
                    assert(cats@[c2] == old_cats[c2]);
                } else if c1 == last {
                    assert(cats@[c2] == old_cats[c2]);
                } else {
                    assert(cats@[c1] == old_cats[c1]);
                }
            }
        }
        i = i + 1;
    }
    assert(grouped(cats@, nv));
    cats
}

pub open spec fn views_of(s: Seq<String>) -> Seq<Seq<char>> {
    s.map_values(|x: String| x@)
}

/// The categories of `r`'s packages, in order.
pub open spec fn package_categories(r: Repository) -> Seq<Seq<char>> {
    r.packages@.map_values(|p: Package| package_category(p))
}

/// What the index document of `r` holds.
pub open spec fn index_doc_ok(d: IndexDoc, r: Repository, commit: Option<Seq<char>>) -> bool {
    &&& d.name@ == repository_identifier(r)
    &&& opt_string(d.description) == opt_cdata(r.readme)
    &&& d.packages@.len() == r.packages@.len()
    &&& forall|i: int|
        0 <= i < r.packages@.len() ==> !has_parent_segment(
            split_on(package_category(r.packages@[i]), '/'),
        ) && package_elem_ok(
            #[trigger] d.packages@[i],
            r,
            r.packages@[i],
            package_depth(r.packages@[i]),
            commit,
        )
    &&& grouped(d.categories@, package_categories(r))
}

/// Whether the index document of `r` can be built: no category climbs above
/// the root and the element of each package can be built.
pub open spec fn index_succeeds(r: Repository, commit: Option<Seq<char>>) -> bool {
    forall|i: int|
        0 <= i < r.packages@.len() ==> !has_parent_segment(
            split_on(package_category(#[trigger] r.packages@[i]), '/'),
        ) && package_succeeds(r, r.packages@[i], commit)
}

/// What an error about repository `r` says of its inputs.
pub open spec fn index_error_ok(e: IndexError, r: Repository, commit: Option<Seq<char>>) -> bool {
    exists|i: int|
        0 <= i < r.packages@.len() && match e {
            IndexError::CategoryEscapesRoot(path) => path == r.packages@[i].path && has_parent_segment(
                split_on(package_category(#[trigger] r.packages@[i]), '/'),
            ),
            _ => exists|v: int|
                0 <= v < r.packages@[i].versions@.len() && version_error_ok(
                    e,
                    r,
                    r.packages@[i],
                    #[trigger] r.packages@[i].versions@[v],
                    commit,
                ),
        }
}

impl Repository {
    /// The index document of this repository, with `git_commit` as the
    /// revision id where the URL pattern needs one.
    pub fn element(&self, git_commit: Option<&str>) -> (r: Result<IndexDoc, IndexError>)
        requires
            repository_paths_portable(*self),
        ensures
            match r {
                Ok(d) => index_succeeds(*self, opt_text(git_commit)) && index_doc_ok(
                    d,
                    *self,
                    opt_text(git_commit),
                ),
                Err(e) => !index_succeeds(*self, opt_text(git_commit)) && index_error_ok(
                    e,
                    *self,
                    opt_text(git_commit),
                ),
            },
    {
        let mut packages: Vec<PackageElem> = Vec::new();
        let mut names: Vec<String> = Vec::new();
        let mut i: usize = 0;
        while i < self.packages.len()
            invariant
                i <= self.packages@.len(),
                repository_paths_portable(*self),
                packages@.len() == i,
                names@.len() == i,
                forall|j: int|
                    0 <= j < i ==> (#[trigger] names@[j])@ == package_category(self.packages@[j]),
                forall|j: int|
                    0 <= j < i ==> !has_parent_segment(
                        split_on(package_category(#[trigger] self.packages@[j]), '/'),
                    ),
                forall|j: int|
                    0 <= j < i ==> package_succeeds(*self, #[trigger] self.packages@[j], opt_text(git_commit)),
                forall|j: int|
                    0 <= j < i ==> package_elem_ok(
                        #[trigger] packages@[j],
                        *self,
                        self.packages@[j],
                        package_depth(self.packages@[j]),
                        opt_text(git_commit),
                    ),
            decreases self.packages@.len() - i,
        {
            let pkg = &self.packages[i];
            let cat = match category_of(pkg.category.as_str()) {
                Some(c) => c,
                None => {
                    let e = IndexError::CategoryEscapesRoot(pkg.path.clone());
                    assert(has_parent_segment(split_on(package_category(self.packages@[i as int]), '/')));
                    return Err(e);
                },
            };
            match pkg.element(self, cat.depth, git_commit) {
                Ok(e) => {
                    packages.push(e);
                    names.push(cat.name);
                    assert(packages@[i as int] == e);
                },
                Err(e) => {
                    let ghost v = choose|v: int|
                        0 <= v < pkg.versions@.len() && version_error_ok(
                            e,
                            *self,
                            *pkg,
                            #[trigger] pkg.versions@[v],
                            opt_text(git_commit),
                        );
                    assert(version_error_ok(e, *self, self.packages@[i as int], self.packages@[i as int].versions@[v], opt_text(git_commit)));
                    return Err(e);
                },
            }
            i = i + 1;
        }
        assert(views_of(names@) =~= package_categories(*self));
        let categories = group_categories(&names);
        Ok(IndexDoc {
            name: self.identifier().clone(),
            description: opt_cdata_exec(&self.readme),
            packages,
            categories,
        })
    }
}

/// The `main` attribute of a source, where it has one.
pub open spec fn main_attribute(main: Option<String>) -> Seq<(Seq<char>, Seq<char>)> {
    match main {
        Some(m) => seq![("main"@, m@)],
        None => Seq::empty(),
    }
}

/// The element written for a source: its URL as text, its file and sections
/// as attributes.
pub open spec fn source_node(e: SourceElem) -> XmlNode {
    text_node("source"@, seq![("file"@, e.file@)] + main_attribute(e.main), e.url@)
}

pub open spec fn source_nodes(s: Seq<SourceElem>) -> Seq<XmlNode>
    decreases s.len(),
{
    if s.len() == 0 {
        Seq::empty()
    } else {
        source_nodes(s.drop_last()).push(source_node(s.last()))
    }
}

/// The `changelog` element, where there is a changelog.
pub open spec fn changelog_nodes(c: Option<String>) -> Seq<XmlNode> {
    match c {
        Some(t) => seq![text_node("changelog"@, Seq::empty(), t@)],
        None => Seq::empty(),
    }
}

/// The `metadata` element holding a `description`, where there is one.
pub open spec fn metadata_nodes(d: Option<String>) -> Seq<XmlNode> {
    match d {
        Some(t) => seq![
            parent_node("metadata"@, Seq::empty(), seq![text_node("description"@, Seq::empty(), t@)]),
        ],
        None => Seq::empty(),
    }
}

/// The element written for a version.
pub open spec fn version_node(e: VersionElem) -> XmlNode {
    parent_node(
        "version"@,
        seq![("name"@, e.name@), ("author"@, e.author@), ("time"@, e.time@)],
        changelog_nodes(e.changelog) + source_nodes(e.sources@),
    )
}

pub open spec fn version_nodes(s: Seq<VersionElem>) -> Seq<XmlNode>
    decreases s.len(),
{
    if s.len() == 0 {
        Seq::empty()
    } else {
        version_nodes(s.drop_last()).push(version_node(s.last()))
    }
}

/// The `reapack` element written for a package.
pub open spec fn package_node(e: PackageElem) -> XmlNode {
    parent_node(
        "reapack"@,
        seq![("desc"@, e.desc@), ("type"@, package_type_token(e.kind)), ("name"@, e.name@)],
        metadata_nodes(e.description) + version_nodes(e.versions@),
    )
}

/// The elements of the packages at `members`.
pub open spec fn member_nodes(members: Seq<usize>, packages: Seq<PackageElem>) -> Seq<XmlNode>
    decreases members.len(),
{
    if members.len() == 0 {
        Seq::empty()
    } else {
        member_nodes(members.drop_last(), packages).push(package_node(packages[members.last() as int]))
    }
}

/// The element written for a category.
pub open spec fn category_node(c: CategoryElem, packages: Seq<PackageElem>) -> XmlNode {
    parent_node("category"@, seq![("name"@, c.name@)], member_nodes(c.members@, packages))
}

pub open spec fn category_nodes(cs: Seq<CategoryElem>, packages: Seq<PackageElem>) -> Seq<XmlNode>
    decreases cs.len(),
{
    if cs.len() == 0 {
        Seq::empty()
    } else {
        category_nodes(cs.drop_last(), packages).push(category_node(cs.last(), packages))
    }
}

/// The root `index` element: format version 1, the repository's name, its
/// description, then one element per category.
pub open spec fn index_node(d: IndexDoc) -> XmlNode {
    parent_node(
        "index"@,
        seq![("version"@, "1"@), ("name"@, d.name@)],
        metadata_nodes(d.description) + category_nodes(d.categories@, d.packages@),
    )
}

/// Appends `child` to `x`, which holds no text; its model gains the child.
fn append_child(x: &mut xml_builder::XMLElement, child: xml_builder::XMLElement, Ghost(cs): Ghost<Seq<XmlNode>>)
    requires
        xml_model(*old(x)).content == elements(cs),
    ensures
        xml_model(*final(x)) == (XmlNode { content: elements(cs.push(xml_model(child))), ..xml_model(*old(x)) }),
{
    assert(children_of(elements(cs)) =~= cs);
    assert(cs.push(xml_model(child)).len() > 0);
    let r = add_child(x, child);
    assert(r is Ok);
}

fn source_xml(e: &SourceElem) -> (r: xml_builder::XMLElement)
    ensures
        xml_model(r) == source_node(*e),
{
    let mut x = element("source");
    let t = add_text(&mut x, e.url.clone());
    assert(t is Ok);
    add_attribute(&mut x, "file", e.file.as_str());
    match &e.main {
        Some(m) => add_attribute(&mut x, "main", m.as_str()),
        None => {},
    }
    assert(xml_model(x).attributes =~= seq![("file"@, e.file@)] + main_attribute(e.main));
    x
}

/// A `metadata` element holding a `description` with `text`.
fn description_xml(text: &String) -> (r: xml_builder::XMLElement)
    ensures
        seq![xml_model(r)] == metadata_nodes(Some(*text)),
{
    let mut description = element("description");
    let t = add_text(&mut description, text.clone());
    assert(t is Ok);
    let mut metadata = element("metadata");
    append_child(&mut metadata, description, Ghost(Seq::empty()));
    assert(Seq::<XmlNode>::empty().push(xml_model(description)) =~= seq![xml_model(description)]);
    metadata
}

fn version_xml(e: &VersionElem) -> (r: xml_builder::XMLElement)
    ensures
        xml_model(r) == version_node(*e),
{
    let mut x = element("version");
    add_attribute(&mut x, "name", e.name.as_str());
    add_attribute(&mut x, "author", e.author.as_str());
    add_attribute(&mut x, "time", e.time.as_str());
    let ghost attrs = seq![("name"@, e.name@), ("author"@, e.author@), ("time"@, e.time@)];
    assert(xml_model(x).attributes =~= attrs);
    match &e.changelog {
        Some(text) => {
            let mut changelog = element("changelog");
            let t = add_text(&mut changelog, text.clone());
            assert(t is Ok);
            append_child(&mut x, changelog, Ghost(Seq::empty()));
            assert(Seq::<XmlNode>::empty().push(xml_model(changelog)) =~= changelog_nodes(e.changelog));
        },
        None => {},
    }
    let ghost pre = changelog_nodes(e.changelog);
    let mut i: usize = 0;
    assert(e.sources@.take(0) =~= Seq::<SourceElem>::empty());
    assert(pre + source_nodes(Seq::empty()) =~= pre);
    while i < e.sources.len()
        invariant
            i <= e.sources@.len(),
            xml_model(x) == parent_node("version"@, attrs, pre + source_nodes(e.sources@.take(i as int))),
        decreases e.sources@.len() - i,
    {
        let child = source_xml(&e.sources[i]);
        append_child(&mut x, child, Ghost(pre + source_nodes(e.sources@.take(i as int))));
        assert(e.sources@.take(i + 1).drop_last() =~= e.sources@.take(i as int));
        assert(pre + source_nodes(e.sources@.take(i + 1)) =~= (pre + source_nodes(e.sources@.take(i as int))).push(xml_model(child)));
        i = i + 1;
    }
    assert(e.sources@.take(i as int) =~= e.sources@);
    x
}

fn package_xml(e: &PackageElem) -> (r: xml_builder::XMLElement)
    ensures
        xml_model(r) == package_node(*e),
{
    let mut x = element("reapack");
    add_attribute(&mut x, "desc", e.desc.as_str());
    add_attribute(&mut x, "type", e.kind.as_str());
    add_attribute(&mut x, "name", e.name.as_str());
    let ghost attrs = seq![("desc"@, e.desc@), ("type"@, package_type_token(e.kind)), ("name"@, e.name@)];
    assert(xml_model(x).attributes =~= attrs);
    match &e.description {
        Some(text) => {
            let m = description_xml(text);
            append_child(&mut x, m, Ghost(Seq::empty()));
            assert(Seq::<XmlNode>::empty().push(xml_model(m)) =~= metadata_nodes(e.description));
        },
        None => {},
    }
    let ghost pre = metadata_nodes(e.description);
    let mut i: usize = 0;
    assert(e.versions@.take(0) =~= Seq::<VersionElem>::empty());
    assert(pre + version_nodes(Seq::empty()) =~= pre);
    while i < e.versions.len()
        invariant
            i <= e.versions@.len(),
            xml_model(x) == parent_node("reapack"@, attrs, pre + version_nodes(e.versions@.take(i as int))),
        decreases e.versions@.len() - i,
    {
        let child = version_xml(&e.versions[i]);
        append_child(&mut x, child, Ghost(pre + version_nodes(e.versions@.take(i as int))));
        assert(e.versions@.take(i + 1).drop_last() =~= e.versions@.take(i as int));
        assert(pre + version_nodes(e.versions@.take(i + 1)) =~= (pre + version_nodes(e.versions@.take(i as int))).push(xml_model(child)));
        i = i + 1;
    }
    assert(e.versions@.take(i as int) =~= e.versions@);
    x
}

/// Whether every category member indexes a package of `d`.
pub open spec fn members_in_range(d: IndexDoc) -> bool {
    forall|c: int, k: int|
        0 <= c < d.categories@.len() && 0 <= k < d.categories@[c].members@.len()
            ==> #[trigger] d.categories@[c].members@[k] < d.packages@.len()
}

fn category_xml(cat: &CategoryElem, packages: &Vec<PackageElem>) -> (r: xml_builder::XMLElement)
    requires
        forall|k: int| 0 <= k < cat.members@.len() ==> #[trigger] cat.members@[k] < packages@.len(),
    ensures
        xml_model(r) == category_node(*cat, packages@),
{
    let mut x = element("category");
    add_attribute(&mut x, "name", cat.name.as_str());
    let ghost attrs = seq![("name"@, cat.name@)];
    assert(xml_model(x).attributes =~= attrs);
    let mut k: usize = 0;
    assert(cat.members@.take(0) =~= Seq::<usize>::empty());
    while k < cat.members.len()
        invariant
            k <= cat.members@.len(),
            forall|q: int| 0 <= q < cat.members@.len() ==> #[trigger] cat.members@[q] < packages@.len(),
            xml_model(x) == parent_node("category"@, attrs, member_nodes(cat.members@.take(k as int), packages@)),
        decreases cat.members@.len() - k,
    {
        let m = cat.members[k];
        let child = package_xml(&packages[m]);
        append_child(&mut x, child, Ghost(member_nodes(cat.members@.take(k as int), packages@)));
        assert(cat.members@.take(k + 1).drop_last() =~= cat.members@.take(k as int));
        proof {
            lemma_member_nodes_step(cat.members@, packages@, k as int);
        }
        k = k + 1;
    }
    assert(cat.members@.take(k as int) =~= cat.members@);
    x
}

proof fn lemma_member_nodes_step(members: Seq<usize>, packages: Seq<PackageElem>, k: int)
    requires
        0 <= k < members.len(),
    ensures
        member_nodes(members.take(k + 1), packages) == member_nodes(members.take(k), packages).push(
            package_node(packages[members[k] as int]),
        ),
{
    assert(members.take(k + 1).drop_last() =~= members.take(k));
}

fn index_xml(d: &IndexDoc) -> (r: xml_builder::XMLElement)
    requires
        members_in_range(*d),
    ensures
        xml_model(r) == index_node(*d),
{
    let mut x = element("index");
    add_attribute(&mut x, "version", "1");
    add_attribute(&mut x, "name", d.name.as_str());
    let ghost attrs = seq![("version"@, "1"@), ("name"@, d.name@)];
    assert(xml_model(x).attributes =~= attrs);
    match &d.description {
        Some(text) => {
            let m = description_xml(text);
            append_child(&mut x, m, Ghost(Seq::empty()));
            assert(Seq::<XmlNode>::empty().push(xml_model(m)) =~= metadata_nodes(d.description));
        },
        None => {},
    }
    let ghost pre = metadata_nodes(d.description);
    let mut c: usize = 0;
    assert(d.categories@.take(0) =~= Seq::<CategoryElem>::empty());
    assert(pre + category_nodes(Seq::empty(), d.packages@) =~= pre);
    while c < d.categories.len()
        invariant
            c <= d.categories@.len(),
            members_in_range(*d),
            xml_model(x) == parent_node("index"@, attrs, pre + category_nodes(d.categories@.take(c as int), d.packages@)),
        decreases d.categories@.len() - c,
    {
        assert(forall|k: int| 0 <= k < d.categories@[c as int].members@.len() ==> #[trigger] d.categories@[c as int].members@[k] < d.packages@.len());
        let child = category_xml(&d.categories[c], &d.packages);
        append_child(&mut x, child, Ghost(pre + category_nodes(d.categories@.take(c as int), d.packages@)));
        assert(d.categories@.take(c + 1).drop_last() =~= d.categories@.take(c as int));
        assert(pre + category_nodes(d.categories@.take(c + 1), d.packages@) =~= (pre + category_nodes(d.categories@.take(c as int), d.packages@)).push(xml_model(child)));
        c = c + 1;
    }
    assert(d.categories@.take(c as int) =~= d.categories@);
    x
}

impl Repository {
    /// The XML index of this repository, with `git_commit` as the revision
    /// id where the URL pattern needs one: the document of the index
    /// element built from the repository's document model.
    pub fn generate_index(&self, git_commit: Option<&str>) -> (r: Result<String, IndexError>)
        requires
            repository_paths_portable(*self),
        ensures
            r is Ok <==> index_succeeds(*self, opt_text(git_commit)),
            r matches Ok(s) ==> exists|d: IndexDoc|
                index_doc_ok(d, *self, opt_text(git_commit)) && #[trigger] xml_document_of(index_node(d))
                    == s@,
            r matches Err(e) ==> index_error_ok(e, *self, opt_text(git_commit)),
    {
        let doc = self.element(git_commit)?;
        assert(members_in_range(doc)) by {
            assert(package_categories(*self).len() == self.packages@.len());
        }
        let root = index_xml(&doc);
        let text = document(root);
        match text {
            Ok(t) => {
                assert(index_doc_ok(doc, *self, opt_text(git_commit)) && xml_document_of(index_node(doc)) == t@);
                Ok(t)
            },
            Err(e) => Err(IndexError::Xml(e)),
        }
    }
}

/// Whether `s` holds no `\`.
fn text_portable(s: &str) -> (r: bool)
    ensures
        r == portable_path(s@),
{
    let v = chars_of(s);
    let mut i: usize = 0;
    while i < v.len()
        invariant
            i <= v@.len(),
            v@ == s@,
            forall|j: int| 0 <= j < i ==> v@[j] != '\\',
        decreases v@.len() - i,
    {
        if v[i] == '\\' {
            assert(s@[i as int] == '\\');
            return false;
        }
        i = i + 1;
    }
    true
}

fn version_portable(v: &Version) -> (r: bool)
    ensures
        r == version_paths_portable(*v),
{
    let mut i: usize = 0;
    while i < v.sources.len()
        invariant
            i <= v.sources@.len(),
            forall|j: int| 0 <= j < i ==> portable_path(#[trigger] v.sources@[j].relpath_from_version@),
        decreases v.sources@.len() - i,
    {
        if !text_portable(v.sources[i].relpath_from_version.as_str()) {
            return false;
        }
        i = i + 1;
    }
    true
}

fn package_portable(p: &Package) -> (r: bool)
    ensures
        r == package_paths_portable(*p),
{
    let mut i: usize = 0;
    while i < p.versions.len()
        invariant
            i <= p.versions@.len(),
            forall|j: int| 0 <= j < i ==> version_paths_portable(#[trigger] p.versions@[j]),
        decreases p.versions@.len() - i,
    {
        if !version_portable(&p.versions[i]) {
            return false;
        }
        i = i + 1;
    }
    true
}

impl Repository {
    /// Whether every file's path within its version is written with `/`
    /// only, as entrypoint matching needs.
    pub fn paths_portable(&self) -> (r: bool)
        ensures
            r == repository_paths_portable(*self),
    {
        let mut i: usize = 0;
        while i < self.packages.len()
            invariant
                i <= self.packages@.len(),
                forall|j: int| 0 <= j < i ==> package_paths_portable(#[trigger] self.packages@[j]),
            decreases self.packages@.len() - i,
        {
            if !package_portable(&self.packages[i]) {
                return false;
            }
            i = i + 1;
        }
        true
    }
}

/// Whether a file at `relpath` within its version directory is the version's
/// own configuration file, which is not one of its sources.
pub fn is_version_config(relpath: &str) -> (r: bool)
    ensures
        r == (relpath@ == "version.toml"@),
{
    same_text(relpath, "version.toml")
}

} // verus!
