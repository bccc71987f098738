//! Sync rules and per-subtree context: the declarative mapping from
//! file names to instance file types, ignore globs, pinpoint project
//! overrides, and the syncback filter, inherited from parent to child.

use vstd::prelude::*;

use crate::glob::glob_match;
use crate::glob::Glob;
use crate::middleware::FileType;
use crate::text;
use crate::value::clone_props;
use crate::value::Properties;
use crate::value::ValueView;

verus! {

/// The views of a list of sync rules, in order.
pub open spec fn rule_views(rs: Seq<SyncRule>) -> Seq<SyncRuleView> {
    rs.map_values(|r: SyncRule| r@)
}

/// The patterns of a list of globs, in order.
pub open spec fn glob_pats(gs: Seq<Glob>) -> Seq<Seq<char>> {
    gs.map_values(|g: Glob| g.pat())
}

/// The outcome of matching a path against a sync rule.
pub struct ResolvedSyncRule {
    pub file_type: FileType,
    pub path: String,
    pub name: String,
}

/// A declarative pattern mapping file names to an instance file type.
///
/// `pattern` matches a file representation of an instance;
/// `child_pattern` matches the name of the body file inside a folder
/// representation. A rule matches a path only when `exclude` does not.
/// `suffix`, when present, is cut off the file name to yield the
/// instance name; otherwise the name is the file stem.
pub struct SyncRule {
    pub file_type: FileType,
    pub pattern: Option<Glob>,
    pub child_pattern: Option<Glob>,
    pub exclude: Option<Glob>,
    pub suffix: Option<String>,
}

/// The mathematical content of a sync rule.
pub struct SyncRuleView {
    pub file_type: FileType,
    pub pattern: Option<Seq<char>>,
    pub child_pattern: Option<Seq<char>>,
    pub exclude: Option<Seq<char>>,
    pub suffix: Option<Seq<char>>,
}

impl View for SyncRule {
    type V = SyncRuleView;

    open spec fn view(&self) -> SyncRuleView {
        SyncRuleView {
            file_type: self.file_type,
            pattern: match &self.pattern {
                Some(g) => Some(g.pat()),
                None => None,
            },
            child_pattern: match &self.child_pattern {
                Some(g) => Some(g.pat()),
                None => None,
            },
            exclude: match &self.exclude {
                Some(g) => Some(g.pat()),
                None => None,
            },
            suffix: match &self.suffix {
                Some(s) => Some(s@),
                None => None,
            },
        }
    }
}

impl SyncRuleView {
    /// Whether the exclude pattern matches `p`.
    pub open spec fn excluded_spec(self, p: Seq<char>) -> bool {
        match self.exclude {
            Some(e) => glob_match(e, p),
            None => false,
        }
    }

    /// Whether this rule matches the leaf path `p`: its pattern matches
    /// and its exclude pattern does not.
    pub open spec fn matches_spec(self, p: Seq<char>) -> bool {
        match self.pattern {
            Some(pat) => glob_match(pat, p) && !self.excluded_spec(p),
            None => false,
        }
    }

    /// Whether the rule's child pattern matches `p`'s file name,
    /// before any exclusion is considered.
    pub open spec fn child_name_match_spec(self, p: Seq<char>) -> bool {
        match self.child_pattern {
            Some(cp) => glob_match(cp, text::file_name_of(p)),
            None => false,
        }
    }

    /// Whether `p` is a body file of this rule: the rule has a child
    /// pattern matching `p`'s file name, and `p` is not excluded.
    pub open spec fn matches_child_spec(self, p: Seq<char>) -> bool {
        self.child_name_match_spec(p) && !self.excluded_spec(p)
    }

    /// The instance name this rule derives from the leaf path `p`: the
    /// file name with the suffix cut off when the rule has one, the
    /// file stem otherwise.
    pub open spec fn name_spec(self, p: Seq<char>) -> Seq<char> {
        match self.suffix {
            Some(suf) => text::suffix_stripped(text::file_name_of(p), suf),
            None => text::file_stem_of(p),
        }
    }

    /// Where this rule places the body of an instance at `path` named
    /// `name`: inside the folder for a folder representation, beside it
    /// with the pattern's `*` filled in otherwise.
    pub open spec fn locate_spec(self, path: Seq<char>, name: Seq<char>, is_dir: bool) -> Option<
        Seq<char>,
    > {
        if is_dir {
            match self.child_pattern {
                Some(cp) => Some(text::joined(path, cp)),
                None => None,
            }
        } else {
            match self.pattern {
                Some(pat) => Some(
                    text::with_name_of(path, text::star_expanded(pat, name)),
                ),
                None => None,
            }
        }
    }
}

impl SyncRule {
    /// Whether this rule matches the leaf path `path`.
    pub fn matches(&self, path: &str) -> (r: bool)
        ensures
            r == self@.matches_spec(path@),
    {
        match &self.pattern {
            Some(pattern) => {
                if pattern.matches(path) {
                    !self.is_excluded(path)
                } else {
                    false
                }
            },
            None => false,
        }
    }

    /// Whether `path` is a body file of this rule. The judgment is on
    /// the candidate body file itself: its file name is held against
    /// the child pattern, and the whole path against the exclusion.
    pub fn matches_child(&self, path: &str) -> (r: bool)
        ensures
            r == self@.matches_child_spec(path@),
    {
        match &self.child_pattern {
            Some(child_pattern) => {
                let name = text::get_file_name(path);
                if child_pattern.matches(name) {
                    !self.is_excluded(path)
                } else {
                    false
                }
            },
            None => false,
        }
    }

    /// Whether the exclude pattern matches `path`.
    pub fn is_excluded(&self, path: &str) -> (r: bool)
        ensures
            r == self@.excluded_spec(path@),
    {
        match &self.exclude {
            Some(exclude) => exclude.matches(path),
            None => false,
        }
    }

    /// The instance name this rule derives from the leaf path `path`.
    pub fn get_name(&self, path: &str) -> (r: String)
        ensures
            r@ == self@.name_spec(path@),
    {
        match &self.suffix {
            Some(suffix) => {
                let name = text::get_file_name(path);
                text::strip_suffix_or_self(name, suffix.as_str()).to_owned()
            },
            None => text::get_file_stem(path).to_owned(),
        }
    }

    /// Resolves the leaf path `path` against this rule: the file type,
    /// the path itself and the derived name when the rule matches,
    /// nothing when it does not.
    pub fn resolve(&self, path: &str) -> (r: Option<ResolvedSyncRule>)
        ensures
            match r {
                Some(res) => self@.matches_spec(path@) && res.file_type == self@.file_type
                    && res.path@ == path@ && res.name@ == self@.name_spec(path@),
                None => !self@.matches_spec(path@),
            },
    {
        if self.matches(path) {
            Some(
                ResolvedSyncRule {
                    file_type: self.file_type,
                    path: path.to_owned(),
                    name: self.get_name(path),
                },
            )
        } else {
            None
        }
    }

    /// Where this rule places the body of an instance at `path` named
    /// `name`.
    pub fn locate(&self, path: &str, name: &str, is_dir: bool) -> (r: Option<String>)
        ensures
            match r {
                Some(p) => self@.locate_spec(path@, name@, is_dir) == Some(p@),
                None => self@.locate_spec(path@, name@, is_dir) is None,
            },
    {
        if is_dir {
            match &self.child_pattern {
                Some(cp) => Some(text::path_join(path, cp.as_str())),
                None => None,
            }
        } else {
            match &self.pattern {
                Some(pat) => {
                    let filled = text::expand_star(pat.as_str(), name);
                    Some(text::with_file_name(path, filled.as_str()))
                },
                None => None,
            }
        }
    }

    pub fn clone_rule(&self) -> (r: SyncRule)
        ensures
            r@ == self@,
    {
        SyncRule {
            file_type: self.file_type,
            pattern: match &self.pattern {
                Some(g) => Some(g.clone()),
                None => None,
            },
            child_pattern: match &self.child_pattern {
                Some(g) => Some(g.clone()),
                None => None,
            },
            exclude: match &self.exclude {
                Some(g) => Some(g.clone()),
                None => None,
            },
            suffix: match &self.suffix {
                Some(s) => Some(s.clone()),
                None => None,
            },
        }
    }
}

/// A copy of `rules` with the same content.
pub fn clone_rules(rules: &Vec<SyncRule>) -> (r: Vec<SyncRule>)
    ensures
        rule_views(r@) == rule_views(rules@),
{
    let n = rules.len();
    let mut out: Vec<SyncRule> = Vec::new();
    let mut i: usize = 0;
    while i < n
        invariant
            i <= n,
            n == rules@.len(),
            rule_views(out@) == rule_views(rules@).take(
                i as int,
            ),
        decreases n - i,
    {
        let ghost prev = out@;
        let c = rules[i].clone_rule();
        out.push(c);
        proof {
            assert(rule_views(out@) =~= rule_views(prev).push(c@));
            assert(rule_views(prev).push(c@) =~= rule_views(rules@).take(i + 1));
        }
        i += 1;
    }
    proof {
        assert(rule_views(rules@).take(n as int) =~= rule_views(rules@));
    }
    out
}

/// A copy of `globs` with the same patterns.
pub fn clone_globs(globs: &Vec<Glob>) -> (r: Vec<Glob>)
    ensures
        glob_pats(r@) == glob_pats(globs@),
{
    let n = globs.len();
    let mut out: Vec<Glob> = Vec::new();
    let mut i: usize = 0;
    while i < n
        invariant
            i <= n,
            n == globs@.len(),
            glob_pats(out@) == glob_pats(globs@)
                .take(i as int),
        decreases n - i,
    {
        let ghost prev = out@;
        let c = globs[i].clone();
        out.push(c);
        proof {
            assert(glob_pats(out@) =~= glob_pats(prev).push(c.pat()));
            assert(glob_pats(prev).push(c.pat()) =~= glob_pats(globs@).take(i + 1));
        }
        i += 1;
    }
    proof {
        assert(glob_pats(globs@).take(n as int) =~= glob_pats(globs@));
    }
    out
}

/// Whether any pattern of `globs` matches `s`.
pub open spec fn any_glob_matches(globs: Seq<Seq<char>>, s: Seq<char>) -> bool {
    exists|i: int| 0 <= i < globs.len() && glob_match(#[trigger] globs[i], s)
}

/// Whether any glob of `globs` matches `text`.
pub fn globs_match(globs: &Vec<Glob>, text_arg: &str) -> (r: bool)
    ensures
        r == any_glob_matches(glob_pats(globs@), text_arg@),
{
    let n = globs.len();
    let mut i: usize = 0;
    while i < n
        invariant
            i <= n,
            n == globs@.len(),
            forall|j: int| 0 <= j < i ==> !glob_match(#[trigger] glob_pats(globs@)[j], text_arg@),
        decreases n - i,
    {
        if globs[i].matches(text_arg) {
            proof {
                assert(glob_match(
                    glob_pats(globs@)[i as int],
                    text_arg@,
                ));
            }
            return true;
        }
        i += 1;
    }
    false
}

/// A predicate suppressing write-back for matching names, classes and
/// paths.
pub struct SyncbackFilter {
    pub names: Vec<Glob>,
    pub classes: Vec<Glob>,
    pub paths: Vec<Glob>,
}

/// The mathematical content of a syncback filter.
pub struct SyncbackFilterView {
    pub names: Seq<Seq<char>>,
    pub classes: Seq<Seq<char>>,
    pub paths: Seq<Seq<char>>,
}

impl View for SyncbackFilter {
    type V = SyncbackFilterView;

    open spec fn view(&self) -> SyncbackFilterView {
        SyncbackFilterView {
            names: glob_pats(self.names@),
            classes: glob_pats(self.classes@),
            paths: glob_pats(self.paths@),
        }
    }
}

impl SyncbackFilterView {
    pub open spec fn matches_name_spec(self, name: Seq<char>) -> bool {
        any_glob_matches(self.names, name)
    }

    pub open spec fn matches_class_spec(self, class: Seq<char>) -> bool {
        any_glob_matches(self.classes, class)
    }

    pub open spec fn matches_path_spec(self, path: Seq<char>) -> bool {
        any_glob_matches(self.paths, path)
    }
}

impl SyncbackFilter {
    /// A filter that suppresses nothing.
    pub fn empty() -> (r: SyncbackFilter)
        ensures
            r@.names == Seq::<Seq<char>>::empty(),
            r@.classes == Seq::<Seq<char>>::empty(),
            r@.paths == Seq::<Seq<char>>::empty(),
    {
        let r = SyncbackFilter { names: Vec::new(), classes: Vec::new(), paths: Vec::new() };
        proof {
            assert(r@.names =~= Seq::<Seq<char>>::empty());
            assert(r@.classes =~= Seq::<Seq<char>>::empty());
            assert(r@.paths =~= Seq::<Seq<char>>::empty());
        }
        r
    }

    pub fn matches_name(&self, name: &str) -> (r: bool)
        ensures
            r == self@.matches_name_spec(name@),
    {
        globs_match(&self.names, name)
    }

    pub fn matches_class(&self, class: &str) -> (r: bool)
        ensures
            r == self@.matches_class_spec(class@),
    {
        globs_match(&self.classes, class)
    }

    pub fn matches_path(&self, path: &str) -> (r: bool)
        ensures
            r == self@.matches_path_spec(path@),
    {
        globs_match(&self.paths, path)
    }

    pub fn clone_filter(&self) -> (r: SyncbackFilter)
        ensures
            r@ == self@,
    {
        let r = SyncbackFilter {
            names: clone_globs(&self.names),
            classes: clone_globs(&self.classes),
            paths: clone_globs(&self.paths),
        };
        r
    }
}

/// The first name among `listing`, front first, that `rule`'s child
/// pattern claims; the candidate an in-order folder scan finds first.
pub open spec fn first_child_candidate(rule: SyncRuleView, listing: Seq<Seq<char>>) -> Option<
    Seq<char>,
>
    decreases listing.len(),
{
    if listing.len() == 0 {
        None
    } else if rule.child_name_match_spec(listing[0]) {
        Some(listing[0])
    } else {
        first_child_candidate(rule, listing.skip(1))
    }
}

proof fn lemma_no_match_no_candidate(rule: SyncRuleView, listing: Seq<Seq<char>>)
    requires
        forall|j: int| 0 <= j < listing.len() ==> !rule.child_name_match_spec(#[trigger] listing[j]),
    ensures
        first_child_candidate(rule, listing) is None,
    decreases listing.len(),
{
    if listing.len() > 0 {
        assert(forall|j: int|
            0 <= j < listing.skip(1).len() ==> #[trigger] listing.skip(1)[j] == listing[j + 1]);
        lemma_no_match_no_candidate(rule, listing.skip(1));
    }
}

proof fn lemma_first_candidate_at(rule: SyncRuleView, listing: Seq<Seq<char>>, i: int)
    requires
        0 <= i < listing.len(),
        forall|j: int| 0 <= j < i ==> !rule.child_name_match_spec(#[trigger] listing[j]),
        rule.child_name_match_spec(listing[i]),
    ensures
        first_child_candidate(rule, listing) == Some(listing[i]),
    decreases i,
{
    if i > 0 {
        assert(forall|j: int|
            0 <= j < listing.skip(1).len() ==> #[trigger] listing.skip(1)[j] == listing[j + 1]);
        lemma_first_candidate_at(rule, listing.skip(1), i - 1);
    }
}

impl SyncRule {
    /// Resolves the folder `path` as a folder representation: scans the
    /// folder for the first body-file candidate whose name matches the
    /// child pattern, and derives the instance name from the folder's
    /// own name. An excluded first candidate vetoes the resolution;
    /// later candidates are not considered in its place.
    pub fn resolve_child(&self, path: &str, vfs: &crate::vfs::Vfs) -> (r: Option<
        ResolvedSyncRule,
    >)
        requires
            vfs.wf(),
        ensures
            match r {
                Some(res) => res.file_type == self@.file_type && res.name@
                    == text::file_name_of(path@) && vfs@.contains_key(res.path@)
                    && crate::vfs::direct_child_of(path@, res.path@)
                    && self@.matches_child_spec(res.path@) && first_child_candidate(
                    self@,
                    crate::vfs::child_listing(vfs.entries.kseq(), path@),
                ) == Some(res.path@),
                None => (vfs@.contains_key(path@) && vfs@[path@] is Dir) ==> ((!(exists|
                    k: Seq<char>,
                |
                    #[trigger] vfs@.contains_key(k) && crate::vfs::direct_child_of(
                        path@,
                        k,
                    ) && self@.child_name_match_spec(k))) || (exists|k: Seq<char>|
                    #[trigger] vfs@.contains_key(k) && crate::vfs::direct_child_of(
                        path@,
                        k,
                    ) && self@.child_name_match_spec(k) && self@.excluded_spec(k))),
                None => (vfs@.contains_key(path@) && vfs@[path@] is Dir)
                    ==> (first_child_candidate(
                    self@,
                    crate::vfs::child_listing(vfs.entries.kseq(), path@),
                ) matches Some(c) ==> self@.excluded_spec(c)),
            },
    {
        let has_child_pattern = match &self.child_pattern {
            Some(_) => true,
            None => false,
        };
        if !has_child_pattern {
            proof {
                lemma_no_match_no_candidate(
                    self@,
                    crate::vfs::child_listing(vfs.entries.kseq(), path@),
                );
                if exists|k: Seq<char>|
                    #[trigger] vfs@.contains_key(k) && crate::vfs::direct_child_of(
                        path@,
                        k,
                    ) && self@.child_name_match_spec(k) {
                    let k = choose|k: Seq<char>|
                        #[trigger] vfs@.contains_key(k) && crate::vfs::direct_child_of(
                            path@,
                            k,
                        ) && self@.child_name_match_spec(k);
                }
            }
            return None;
        }
        let children = match vfs.read_dir(path) {
            Ok(v) => v,
            Err(_) => {
                return None;
            },
        };
        let n = children.len();
        let mut i: usize = 0;
        while i < n
            invariant
                i <= n,
                n == children@.len(),
                vfs.wf(),
                forall|j: int|
                    0 <= j < children@.len() ==> vfs@.contains_key(
                        #[trigger] children@[j]@,
                    ) && crate::vfs::direct_child_of(path@, children@[j]@),
                forall|k: Seq<char>|
                    #[trigger] vfs@.contains_key(k) && crate::vfs::direct_child_of(
                        path@,
                        k,
                    ) ==> crate::vfs::str_views(children@).contains(k),
                forall|j: int|
                    0 <= j < i ==> !self@.child_name_match_spec(
                        #[trigger] children@[j]@,
                    ),
                crate::vfs::str_views(children@) == crate::vfs::child_listing(
                    vfs.entries.kseq(),
                    path@,
                ),
            decreases n - i,
        {
            let child = children[i].as_str();
            let name_matches = match &self.child_pattern {
                Some(cp) => cp.matches(text::get_file_name(child)),
                None => false,
            };
            if name_matches {
                proof {
                    let listing = crate::vfs::str_views(children@);
                    assert(forall|j: int|
                        0 <= j < children@.len() ==> #[trigger] listing[j] == children@[j]@);
                    lemma_first_candidate_at(self@, listing, i as int);
                }
                if self.is_excluded(child) {
                    // The candidate the pattern found is excluded: the
                    // folder has no usable body file.
                    return None;
                }
                let name = text::get_file_name(path);
                return Some(
                    ResolvedSyncRule {
                        file_type: self.file_type,
                        path: child.to_owned(),
                        name: name.to_owned(),
                    },
                );
            }
            i += 1;
        }
        proof {
            let listing = crate::vfs::str_views(children@);
            assert(forall|j: int|
                0 <= j < children@.len() ==> #[trigger] listing[j] == children@[j]@);
            lemma_no_match_no_candidate(self@, listing);
            if exists|k: Seq<char>|
                #[trigger] vfs@.contains_key(k) && crate::vfs::direct_child_of(path@, k)
                    && self@.child_name_match_spec(k) {
                let k = choose|k: Seq<char>|
                    #[trigger] vfs@.contains_key(k) && crate::vfs::direct_child_of(
                        path@,
                        k,
                    ) && self@.child_name_match_spec(k);
                let j = choose|j: int|
                    0 <= j < children@.len() && #[trigger] crate::vfs::str_views(
                        children@,
                    )[j] == k;
                assert(children@[j]@ == k);
            }
        }
        None
    }
}

/// A pinpoint override injected by a project file for one path.
pub struct ProjectData {
    pub name: String,
    pub applies_to: String,
    pub class: Option<String>,
    pub properties: Option<Properties>,
}

pub struct ProjectDataView {
    pub name: Seq<char>,
    pub applies_to: Seq<char>,
    pub class: Option<Seq<char>>,
    pub properties: Option<Map<Seq<char>, ValueView>>,
}

impl View for ProjectData {
    type V = ProjectDataView;

    open spec fn view(&self) -> ProjectDataView {
        ProjectDataView {
            name: self.name@,
            applies_to: self.applies_to@,
            class: match &self.class {
                Some(c) => Some(c@),
                None => None,
            },
            properties: match &self.properties {
                Some(p) => Some(p@),
                None => None,
            },
        }
    }
}

impl ProjectData {
    pub open spec fn wf(&self) -> bool {
        match &self.properties {
            Some(p) => p.wf(),
            None => true,
        }
    }

    pub fn new(name: &str, applies_to: &str) -> (r: ProjectData)
        ensures
            r.wf(),
            r@.name == name@,
            r@.applies_to == applies_to@,
            r@.class is None,
            r@.properties is None,
    {
        ProjectData {
            name: name.to_owned(),
            applies_to: applies_to.to_owned(),
            class: None,
            properties: None,
        }
    }

    pub fn set_class(&mut self, class: String)
        ensures
            final(self)@ == (ProjectDataView { class: Some(class@), ..old(self)@ }),
            final(self).wf() == old(self).wf(),
    {
        self.class = Some(class);
    }

    pub fn set_properties(&mut self, properties: Properties)
        requires
            properties.wf(),
        ensures
            final(self)@ == (ProjectDataView {
                properties: Some(properties@),
                ..old(self)@
            }),
            final(self).wf(),
    {
        self.properties = Some(properties);
    }

    pub fn clone_data(&self) -> (r: ProjectData)
        requires
            self.wf(),
        ensures
            r.wf(),
            r@ == self@,
    {
        ProjectData {
            name: self.name.clone(),
            applies_to: self.applies_to.clone(),
            class: match &self.class {
                Some(c) => Some(c.clone()),
                None => None,
            },
            properties: match &self.properties {
                Some(p) => Some(clone_props(p)),
                None => None,
            },
        }
    }
}

/// The per-subtree context of one tree node: its sync rules, ignore
/// globs, pinpoint override, provenance and syncback filter.
pub struct Meta {
    pub sync_rules: Vec<SyncRule>,
    pub ignore_globs: Vec<Glob>,
    pub project_data: Option<ProjectData>,
    pub source: crate::source::Source,
    pub filter: SyncbackFilter,
    pub keep_unknowns: bool,
}

/// The mathematical content of a node's context.
pub struct MetaView {
    pub sync_rules: Seq<SyncRuleView>,
    pub ignore_globs: Seq<Seq<char>>,
    pub project_data: Option<ProjectDataView>,
    pub source: crate::source::SourceView,
    pub filter: SyncbackFilterView,
    pub keep_unknowns: bool,
}

impl View for Meta {
    type V = MetaView;

    open spec fn view(&self) -> MetaView {
        MetaView {
            sync_rules: rule_views(self.sync_rules@),
            ignore_globs: glob_pats(self.ignore_globs@),
            project_data: match &self.project_data {
                Some(d) => Some(d@),
                None => None,
            },
            source: self.source@,
            filter: self.filter@,
            keep_unknowns: self.keep_unknowns,
        }
    }
}

/// The view of every default sync rule, in order: project and instance
/// data locations first, then script, value, table, module and model
/// mappings. The two script dialects carry disjoint leaf patterns, so
/// their relative order never changes which rule matches an existing
/// file; it does decide where a fresh body is placed, and the newer
/// dialect comes first so that a freshly written module lands on its
/// form.
pub open spec fn default_rule_views() -> Seq<SyncRuleView> {
    seq![
        SyncRuleView {
            file_type: FileType::Project,
            pattern: None,
            child_pattern: Some("*.project.json"@),
            exclude: None,
            suffix: None,
        },
        SyncRuleView {
            file_type: FileType::InstanceData,
            pattern: None,
            child_pattern: Some(".data.json"@),
            exclude: None,
            suffix: None,
        },
        SyncRuleView {
            file_type: FileType::ServerScript,
            pattern: Some("*.server.luau"@),
            child_pattern: Some(".src.server.luau"@),
            exclude: None,
            suffix: Some(".server.luau"@),
        },
        SyncRuleView {
            file_type: FileType::ClientScript,
            pattern: Some("*.client.luau"@),
            child_pattern: Some(".src.client.luau"@),
            exclude: None,
            suffix: Some(".client.luau"@),
        },
        SyncRuleView {
            file_type: FileType::ModuleScript,
            pattern: Some("*.luau"@),
            child_pattern: Some(".src.luau"@),
            exclude: None,
            suffix: None,
        },
        SyncRuleView {
            file_type: FileType::ServerScript,
            pattern: Some("*.server.lua"@),
            child_pattern: Some(".src.server.lua"@),
            exclude: None,
            suffix: Some(".server.lua"@),
        },
        SyncRuleView {
            file_type: FileType::ClientScript,
            pattern: Some("*.client.lua"@),
            child_pattern: Some(".src.client.lua"@),
            exclude: None,
            suffix: Some(".client.lua"@),
        },
        SyncRuleView {
            file_type: FileType::ModuleScript,
            pattern: Some("*.lua"@),
            child_pattern: Some(".src.lua"@),
            exclude: None,
            suffix: None,
        },
        SyncRuleView {
            file_type: FileType::StringValue,
            pattern: Some("*.txt"@),
            child_pattern: Some(".src.txt"@),
            exclude: None,
            suffix: None,
        },
        SyncRuleView {
            file_type: FileType::LocalizationTable,
            pattern: Some("*.csv"@),
            child_pattern: Some(".src.csv"@),
            exclude: None,
            suffix: None,
        },
        SyncRuleView {
            file_type: FileType::JsonModule,
            pattern: Some("*.json"@),
            child_pattern: Some(".src.json"@),
            exclude: None,
            suffix: Some(".data.json"@),
        },
        SyncRuleView {
            file_type: FileType::TomlModule,
            pattern: Some("*.toml"@),
            child_pattern: Some(".src.toml"@),
            exclude: None,
            suffix: None,
        },
        SyncRuleView {
            file_type: FileType::RbxmModel,
            pattern: Some("*.rbxm"@),
            child_pattern: Some(".src.rbxm"@),
            exclude: None,
            suffix: None,
        },
        SyncRuleView {
            file_type: FileType::RbxmxModel,
            pattern: Some("*.rbxmx"@),
            child_pattern: Some(".src.rbxmx"@),
            exclude: None,
            suffix: None,
        },
    ]
}

/// One sync rule with a leaf pattern, a child pattern and an optional
/// name suffix.
fn leaf_rule(pattern: &str, child_pattern: &str, file_type: FileType, suffix: Option<&str>) -> (r:
    SyncRule)
    ensures
        r@ == (SyncRuleView {
            file_type,
            pattern: Some(pattern@),
            child_pattern: Some(child_pattern@),
            exclude: None,
            suffix: match suffix {
                Some(s) => Some(s@),
                None => None,
            },
        }),
{
    SyncRule {
        file_type,
        pattern: Some(Glob::new(pattern)),
        child_pattern: Some(Glob::new(child_pattern)),
        exclude: None,
        suffix: match suffix {
            Some(s) => Some(s.to_owned()),
            None => None,
        },
    }
}

/// One sync rule for folder-only types, with a child pattern alone.
fn child_only_rule(child_pattern: &str, file_type: FileType) -> (r: SyncRule)
    ensures
        r@ == (SyncRuleView {
            file_type,
            pattern: None,
            child_pattern: Some(child_pattern@),
            exclude: None,
            suffix: None,
        }),
{
    SyncRule {
        file_type,
        pattern: None,
        child_pattern: Some(Glob::new(child_pattern)),
        exclude: None,
        suffix: None,
    }
}

/// The default sync rules, exactly as `default_rule_views` lists them.
pub fn default_sync_rules() -> (r: Vec<SyncRule>)
    ensures
        rule_views(r@) == default_rule_views(),
{
    let mut out: Vec<SyncRule> = Vec::new();
    out.push(child_only_rule("*.project.json", FileType::Project));
    out.push(child_only_rule(".data.json", FileType::InstanceData));
    out.push(
        leaf_rule(
            "*.server.luau",
            ".src.server.luau",
            FileType::ServerScript,
            Some(".server.luau"),
        ),
    );
    out.push(
        leaf_rule(
            "*.client.luau",
            ".src.client.luau",
            FileType::ClientScript,
            Some(".client.luau"),
        ),
    );
    out.push(leaf_rule("*.luau", ".src.luau", FileType::ModuleScript, None));
    out.push(
        leaf_rule("*.server.lua", ".src.server.lua", FileType::ServerScript, Some(".server.lua")),
    );
    out.push(
        leaf_rule("*.client.lua", ".src.client.lua", FileType::ClientScript, Some(".client.lua")),
    );
    out.push(leaf_rule("*.lua", ".src.lua", FileType::ModuleScript, None));
    out.push(leaf_rule("*.txt", ".src.txt", FileType::StringValue, None));
    out.push(leaf_rule("*.csv", ".src.csv", FileType::LocalizationTable, None));
    out.push(leaf_rule("*.json", ".src.json", FileType::JsonModule, Some(".data.json")));
    out.push(leaf_rule("*.toml", ".src.toml", FileType::TomlModule, None));
    out.push(leaf_rule("*.rbxm", ".src.rbxm", FileType::RbxmModel, None));
    out.push(leaf_rule("*.rbxmx", ".src.rbxmx", FileType::RbxmxModel, None));
    proof {
        assert(rule_views(out@) =~= default_rule_views());
    }
    out
}

impl Meta {
    /// The pinpoint override and the provenance record are well formed.
    pub open spec fn wf(&self) -> bool {
        &&& match &self.project_data {
            Some(d) => d.wf(),
            None => true,
        }
        &&& self.source.wf()
    }

    /// A context with no rules, no ignore globs, no override, no
    /// provenance and an empty filter.
    pub fn new() -> (r: Meta)
        ensures
            r.wf(),
            r@.sync_rules == Seq::<SyncRuleView>::empty(),
            r@.ignore_globs == Seq::<Seq<char>>::empty(),
            r@.project_data is None,
            r@.source.kind is Absent,
            r@.source.relevant == Seq::<crate::source::SourceEntryView>::empty(),
            r@.filter.names == Seq::<Seq<char>>::empty(),
            r@.filter.classes == Seq::<Seq<char>>::empty(),
            r@.filter.paths == Seq::<Seq<char>>::empty(),
            !r@.keep_unknowns,
    {
        let r = Meta {
            sync_rules: Vec::new(),
            ignore_globs: Vec::new(),
            project_data: None,
            source: crate::source::Source::absent(),
            filter: SyncbackFilter::empty(),
            keep_unknowns: false,
        };
        proof {
            assert(r@.sync_rules =~= Seq::<SyncRuleView>::empty());
            assert(r@.ignore_globs =~= Seq::<Seq<char>>::empty());
        }
        r
    }

    /// The context a project file seeds: its own rules and ignore
    /// globs, with the defaults standing in where it declares none.
    pub fn from_project(project: &crate::project::ProjectFileData) -> (r: Meta)
        requires
            project.wf(),
        ensures
            r.wf(),
            r@.sync_rules == match project@.sync_rules {
                Some(rs) => rs,
                None => default_rule_views(),
            },
            r@.ignore_globs == match project@.ignore_globs {
                Some(gs) => gs,
                None => Seq::<Seq<char>>::empty(),
            },
            r@.project_data is None,
            r@.source.kind is Absent,
    {
        let sync_rules = match &project.sync_rules {
            Some(rs) => clone_rules(rs),
            None => default_sync_rules(),
        };
        let ignore_globs = match &project.ignore_globs {
            Some(gs) => clone_globs(gs),
            None => Vec::new(),
        };
        let r = Meta {
            sync_rules,
            ignore_globs,
            project_data: None,
            source: crate::source::Source::absent(),
            filter: SyncbackFilter::empty(),
            keep_unknowns: false,
        };
        proof {
            if project@.ignore_globs is None {
                assert(r@.ignore_globs =~= Seq::<Seq<char>>::empty());
            }
        }
        r
    }

    pub fn with_sync_rules(self, sync_rules: Vec<SyncRule>) -> (r: Meta)
        ensures
            r@ == (MetaView { sync_rules: rule_views(sync_rules@), ..self@ }),
            r.wf() == self.wf(),
    {
        Meta { sync_rules, ..self }
    }

    pub fn with_ignore_globs(self, ignore_globs: Vec<Glob>) -> (r: Meta)
        ensures
            r@ == (MetaView { ignore_globs: glob_pats(ignore_globs@), ..self@ }),
            r.wf() == self.wf(),
    {
        Meta { ignore_globs, ..self }
    }

    pub fn with_project_data(self, project_data: ProjectData) -> (r: Meta)
        requires
            project_data.wf(),
        ensures
            r@ == (MetaView { project_data: Some(project_data@), ..self@ }),
            self.wf() ==> r.wf(),
    {
        Meta { project_data: Some(project_data), ..self }
    }

    /// This context with its provenance record replaced.
    pub fn with_source(self, source: crate::source::Source) -> (r: Meta)
        requires
            source.wf(),
        ensures
            r@ == (MetaView { source: source@, ..self@ }),
            self.wf() ==> r.wf(),
    {
        Meta { source, ..self }
    }

    pub fn set_sync_rules(&mut self, sync_rules: Vec<SyncRule>)
        ensures
            final(self)@ == (MetaView { sync_rules: rule_views(sync_rules@), ..old(self)@ }),
            final(self).wf() == old(self).wf(),
    {
        self.sync_rules = sync_rules;
    }

    pub fn set_ignore_globs(&mut self, ignore_globs: Vec<Glob>)
        ensures
            final(self)@ == (MetaView {
                ignore_globs: glob_pats(ignore_globs@),
                ..old(self)@
            }),
            final(self).wf() == old(self).wf(),
    {
        self.ignore_globs = ignore_globs;
    }

    pub fn set_project_data(&mut self, project_data: ProjectData)
        requires
            project_data.wf(),
        ensures
            final(self)@ == (MetaView { project_data: Some(project_data@), ..old(self)@ }),
            old(self).wf() ==> final(self).wf(),
    {
        self.project_data = Some(project_data);
    }

    /// This context with its provenance record replaced.
    pub fn set_source(&mut self, source: crate::source::Source)
        requires
            source.wf(),
        ensures
            final(self)@ == (MetaView { source: source@, ..old(self)@ }),
            old(self).wf() ==> final(self).wf(),
    {
        self.source = source;
    }

    pub fn add_sync_rule(&mut self, sync_rule: SyncRule)
        ensures
            final(self)@ == (MetaView {
                sync_rules: old(self)@.sync_rules.push(sync_rule@),
                ..old(self)@
            }),
            final(self).wf() == old(self).wf(),
    {
        self.sync_rules.push(sync_rule);
        proof {
            assert(rule_views(self.sync_rules@) =~= old(self)@.sync_rules.push(
                sync_rule@,
            ));
        }
    }

    pub fn add_ignore_glob(&mut self, ignore_glob: Glob)
        ensures
            final(self)@ == (MetaView {
                ignore_globs: old(self)@.ignore_globs.push(ignore_glob.pat()),
                ..old(self)@
            }),
            final(self).wf() == old(self).wf(),
    {
        self.ignore_globs.push(ignore_glob);
        proof {
            assert(glob_pats(self.ignore_globs@) =~= old(self)@.ignore_globs.push(
                ignore_glob.pat(),
            ));
        }
    }

    pub fn extend_sync_rules(&mut self, sync_rules: Vec<SyncRule>)
        ensures
            final(self)@ == (MetaView {
                sync_rules: old(self)@.sync_rules + rule_views(sync_rules@),
                ..old(self)@
            }),
            final(self).wf() == old(self).wf(),
    {
        let ghost gsr = rule_views(sync_rules@);
        let mut rest = sync_rules;
        let n = rest.len();
        let mut i: usize = 0;
        while i < n
            invariant
                i <= n,
                n == gsr.len(),
                rest@.len() == n - i,
                rule_views(rest@) == gsr.skip(i as int),
                rule_views(self.sync_rules@) == old(self)@.sync_rules + gsr.take(i as int),
                self.ignore_globs == old(self).ignore_globs,
                self.project_data == old(self).project_data,
                self.source == old(self).source,
                self.filter == old(self).filter,
                self.keep_unknowns == old(self).keep_unknowns,
            decreases n - i,
        {
            proof {
                assert(rule_views(rest@)[0] == rest@[0]@);
            }
            let ghost prevr = rest@;
            let rule = rest.remove(0);
            proof {
                assert(rule@ == gsr.skip(i as int)[0]);
                assert(rule@ == gsr[i as int]);
                assert(forall|j: int|
                    0 <= j < rest@.len() ==> #[trigger] rest@[j] == prevr[j + 1]);
                assert(forall|j: int|
                    0 <= j < rest@.len() ==> #[trigger] rule_views(rest@)[j]
                        == rule_views(prevr)[j + 1]);
                assert(rule_views(rest@) =~= gsr.skip(i + 1));
            }
            let ghost prev = self.sync_rules@;
            self.sync_rules.push(rule);
            proof {
                assert(rule_views(self.sync_rules@) =~= rule_views(prev).push(rule@));
                assert(rule_views(prev).push(rule@) =~= old(self)@.sync_rules + gsr.take(
                    i + 1,
                ));
            }
            i += 1;
        }
        proof {
            assert(old(self)@.sync_rules + gsr.take(n as int) =~= old(self)@.sync_rules
                + gsr);
            assert(final(self)@ =~= (MetaView {
                sync_rules: old(self)@.sync_rules + gsr,
                ..old(self)@
            }));
        }
    }

    pub fn extend_ignore_globs(&mut self, ignore_globs: Vec<Glob>)
        ensures
            final(self)@ == (MetaView {
                ignore_globs: old(self)@.ignore_globs + glob_pats(ignore_globs@),
                ..old(self)@
            }),
            final(self).wf() == old(self).wf(),
    {
        let ghost ggl = glob_pats(ignore_globs@);
        let mut rest = ignore_globs;
        let n = rest.len();
        let mut i: usize = 0;
        while i < n
            invariant
                i <= n,
                n == ggl.len(),
                rest@.len() == n - i,
                glob_pats(rest@) == ggl.skip(i as int),
                glob_pats(self.ignore_globs@) == old(self)@.ignore_globs + ggl.take(
                    i as int,
                ),
                self.sync_rules == old(self).sync_rules,
                self.project_data == old(self).project_data,
                self.source == old(self).source,
                self.filter == old(self).filter,
                self.keep_unknowns == old(self).keep_unknowns,
            decreases n - i,
        {
            proof {
                assert(glob_pats(rest@)[0] == rest@[0].pat());
            }
            let ghost prevg = rest@;
            let g = rest.remove(0);
            proof {
                assert(g.pat() == ggl.skip(i as int)[0]);
                assert(g.pat() == ggl[i as int]);
                assert(forall|j: int|
                    0 <= j < rest@.len() ==> #[trigger] rest@[j] == prevg[j + 1]);
                assert(forall|j: int|
                    0 <= j < rest@.len() ==> #[trigger] glob_pats(rest@)[j] == glob_pats(
                        prevg,
                    )[j + 1]);
                assert(glob_pats(rest@) =~= ggl.skip(i + 1));
            }
            let ghost prev = self.ignore_globs@;
            self.ignore_globs.push(g);
            proof {
                assert(glob_pats(self.ignore_globs@) =~= glob_pats(prev).push(
                    ggl[i as int],
                ));
                assert(glob_pats(prev).push(ggl[i as int]) =~= old(self)@.ignore_globs
                    + ggl.take(i + 1));
            }
            i += 1;
        }
        proof {
            assert(old(self)@.ignore_globs + ggl.take(n as int) =~= old(
                self,
            )@.ignore_globs + ggl);
            assert(final(self)@ =~= (MetaView {
                ignore_globs: old(self)@.ignore_globs + ggl,
                ..old(self)@
            }));
        }
    }

    /// Appends `meta`'s rules and ignore globs after this context's
    /// own, and lets `meta`'s pinpoint override win when it has one.
    pub fn extend(&mut self, meta: Meta)
        requires
            meta.wf(),
        ensures
            final(self)@.sync_rules == old(self)@.sync_rules + meta@.sync_rules,
            final(self)@.ignore_globs == old(self)@.ignore_globs + meta@.ignore_globs,
            final(self)@.project_data == if meta@.project_data is Some {
                meta@.project_data
            } else {
                old(self)@.project_data
            },
            final(self)@.source == old(self)@.source,
            final(self)@.filter == old(self)@.filter,
            final(self)@.keep_unknowns == old(self)@.keep_unknowns,
            old(self).wf() ==> final(self).wf(),
    {
        let Meta { sync_rules, ignore_globs, project_data, .. } = meta;
        self.extend_sync_rules(sync_rules);
        self.extend_ignore_globs(ignore_globs);
        match project_data {
            Some(d) => {
                self.project_data = Some(d);
            },
            None => {},
        }
    }

    /// Whether this context carries no rules, no ignore globs and no
    /// pinpoint override.
    pub fn is_empty(&self) -> (r: bool)
        ensures
            r == (self@.sync_rules.len() == 0 && self@.ignore_globs.len() == 0
                && self@.project_data is None),
    {
        self.sync_rules.len() == 0 && self.ignore_globs.len() == 0
            && self.project_data.is_none()
    }

    pub fn clone_meta(&self) -> (r: Meta)
        requires
            self.wf(),
        ensures
            r.wf(),
            r@ == self@,
    {
        Meta {
            sync_rules: clone_rules(&self.sync_rules),
            ignore_globs: clone_globs(&self.ignore_globs),
            project_data: match &self.project_data {
                Some(d) => Some(d.clone_data()),
                None => None,
            },
            source: self.source.clone_source(),
            filter: self.filter.clone_filter(),
            keep_unknowns: self.keep_unknowns,
        }
    }
}

impl Default for Meta {
    /// The context every fresh tree starts from: the default sync
    /// rules and nothing else.
    fn default() -> (r: Meta)
        ensures
            r.wf(),
            r@.sync_rules == default_rule_views(),
            r@.ignore_globs == Seq::<Seq<char>>::empty(),
            r@.project_data is None,
            r@.source.kind is Absent,
            !r@.keep_unknowns,
    {
        let r = Meta {
            sync_rules: default_sync_rules(),
            ignore_globs: Vec::new(),
            project_data: None,
            source: crate::source::Source::absent(),
            filter: SyncbackFilter::empty(),
            keep_unknowns: false,
        };
        proof {
            assert(r@.ignore_globs =~= Seq::<Seq<char>>::empty());
        }
        r
    }
}

} // verus!
