//! The bundled configuration presets and their lookup by name.
//!
//! Scanning user template directories on disk belongs to the unverified
//! outer layer; the built-in presets and their selection live here.

use vstd::prelude::*;
use crate::text::str_eq;
use crate::vec_util::push_and_view;

verus! {

/// A template's metadata: its name, a one-line description, and where it
/// came from (`__builtin__` for a bundled one).
#[derive(Debug)]
pub struct TemplateInfo {
    pub name: String,
    pub description: String,
    pub path: String,
}

/// The mathematical value of a template's metadata.
pub struct TemplateInfoData {
    pub name: Seq<char>,
    pub description: Seq<char>,
    pub path: Seq<char>,
}

impl View for TemplateInfo {
    type V = TemplateInfoData;

    open spec fn view(&self) -> TemplateInfoData {
        TemplateInfoData {
            name: self.name@,
            description: self.description@,
            path: self.path@,
        }
    }
}

impl DeepView for TemplateInfo {
    type V = TemplateInfoData;

    open spec fn deep_view(&self) -> TemplateInfoData {
        self.view()
    }
}

impl Clone for TemplateInfo {
    fn clone(&self) -> (r: Self)
        ensures
            r == *self,
    {
        TemplateInfo {
            name: self.name.clone(),
            description: self.description.clone(),
            path: self.path.clone(),
        }
    }
}

/// Discovers and loads templates from its directories; the marker directory
/// `__builtin__` stands for the bundled presets.
#[derive(Debug)]
pub struct TemplateManager {
    pub template_dirs: Vec<String>,
}

const TEMPLATE_STANDARD: &'static str = r#"# Standard GitHub Labels Template
# Common labels used in most GitHub projects

[[labels]]
name = "bug"
color = "d73a49"
description = "Something isn't working"
update_if_match = ["Bug", "bug-report", "bug", "C-bug"]

[[labels]]
name = "feature"
color = "a2eeef"
description = "New feature or request"
update_if_match = ["Feature request", "enhancement", "feature", "C-feature"]

[[labels]]
name = "documentation"
color = "0075ca"
description = "Improvements or additions to documentation"
update_if_match = ["docs", "documentation", "C-documentation"]

[[labels]]
name = "good first issue"
color = "7057ff"
description = "Good for newcomers"
update_if_match = ["good-first-issue", "good first issue", "C-good-first-issue"]

[[labels]]
name = "help wanted"
color = "008672"
description = "Extra attention is needed"
update_if_match = ["help-wanted", "needs-help", "help wanted", "C-help-wanted"]

[[labels]]
name = "invalid"
color = "e4e669"
description = "This doesn't seem right"
update_if_match = ["invalid", "C-invalid"]

[[labels]]
name = "question"
color = "d876e3"
description = "Further information is requested"
update_if_match = ["question", "C-question"]

[[labels]]
name = "wontfix"
color = "ffffff"
description = "This will not be worked on"
update_if_match = ["wontfix", "won't fix", "C-wontfix"]

delete = ["duplicate", "type/bug", "type/feature"]
"#;

const TEMPLATE_SEMANTIC: &'static str = r#"# Semantic Release Labels Template
# Labels following semantic versioning conventions

[[labels]]
name = "breaking"
color = "d73a49"
description = "Breaking change - requires major version bump"
update_if_match = ["S-breaking"]

[[labels]]
name = "feature"
color = "a2eeef"
description = "New feature - requires minor version bump"
update_if_match = ["S-feature"]

[[labels]]
name = "bugfix"
color = "fbca04"
description = "Bug fix - requires patch version bump"
update_if_match = ["S-bugfix"]

[[labels]]
name = "docs"
color = "0075ca"
description = "Documentation updates"
update_if_match = ["S-docs"]

[[labels]]
name = "refactor"
color = "7057ff"
description = "Code refactoring without feature changes"
update_if_match = ["S-refactor"]

[[labels]]
name = "test"
color = "008672"
description = "Test additions or improvements"
update_if_match = ["S-test"]

[[labels]]
name = "chore"
color = "cccccc"
description = "Maintenance or tool updates"
update_if_match = ["S-chore"]

[[labels]]
name = "ci"
color = "e4e669"
description = "CI/CD and automation changes"
update_if_match = ["S-ci"]
"#;

const TEMPLATE_PRIORITY: &'static str = r#"# Priority-Based Labels Template
# Use priority levels to triage and prioritize work

[[labels]]
name = "priority/critical"
color = "b60205"
description = "Critical priority - must be addressed immediately"
update_if_match = ["P0", "critical", "P-critical", "priority/critical", "Critical"]

[[labels]]
name = "priority/high"
color = "d73a49"
description = "High priority - address soon"
update_if_match = ["P1", "urgent", "P-high", "priority/high", "High"]

[[labels]]
name = "priority/medium"
color = "f0883e"
description = "Medium priority - address when available"
update_if_match = ["P2", "P-medium", "priority/medium", "Medium"]

[[labels]]
name = "priority/low"
color = "0075ca"
description = "Low priority - address eventually"
update_if_match = ["P3", "nice-to-have", "P-low", "priority/low", "Low"]

[[labels]]
name = "priority/backlog"
color = "cccccc"
description = "Backlog - not currently planned"
update_if_match = ["P4", "P-backlog", "priority/backlog", "Backlog"]
"#;

const TEMPLATE_PRIORITY_PREFIXED: &'static str = r#"# Priority Labels Template (P- prefixes)
# Rust-style priority labels

[[labels]]
name = "P-critical"
color = "b60205"
description = "Priority: Critical - must be addressed immediately"
update_if_match = ["priority/critical", "critical", "P0", "Critical"]

[[labels]]
name = "P-high"
color = "d73a49"
description = "Priority: High - address soon"
update_if_match = ["priority/high", "urgent", "P1", "High"]

[[labels]]
name = "P-medium"
color = "f0883e"
description = "Priority: Medium - address when available"
update_if_match = ["priority/medium", "P2", "Medium"]

[[labels]]
name = "P-low"
color = "0075ca"
description = "Priority: Low - address eventually"
update_if_match = ["priority/low", "nice-to-have", "P3", "Low"]

[[labels]]
name = "P-backlog"
color = "cccccc"
description = "Priority: Backlog - not currently planned"
update_if_match = ["priority/backlog", "P4", "Backlog"]
"#;

const TEMPLATE_TYPE: &'static str = r#"# Type-Based Labels Template
# Categorize issues and PRs by type

[[labels]]
name = "type/bug"
color = "d73a49"
description = "Bug report"
update_if_match = ["bug", "Bug", "type/bug", "T-bug"]

[[labels]]
name = "type/feature"
color = "a2eeef"
description = "Feature request"
update_if_match = ["feature", "Feature", "type/feature", "T-feature"]

[[labels]]
name = "type/enhancement"
color = "a2eeef"
description = "Enhancement to existing feature"
update_if_match = ["enhancement", "type/enhancement", "Enhancement", "T-enhancement"]

[[labels]]
name = "type/docs"
color = "0075ca"
description = "Documentation"
update_if_match = ["docs", "documentation", "type/docs", "T-docs"]

[[labels]]
name = "type/question"
color = "d876e3"
description = "Question or discussion"
update_if_match = ["question", "discussion", "type/question", "Question", "T-question"]

[[labels]]
name = "type/test"
color = "008672"
description = "Test improvements"
update_if_match = ["type/test", "tests", "T-test"]

[[labels]]
name = "type/refactor"
color = "7057ff"
description = "Refactoring"
update_if_match = ["type/refactor", "refactor", "T-refactor"]

[[labels]]
name = "type/chore"
color = "cccccc"
description = "Chores and maintenance"
update_if_match = ["chore", "type/chore", "Chore", "T-chore"]
"#;

const TEMPLATE_AREA: &'static str = r#"# Area-Based Labels Template (Rust-style prefixes)
# Organize issues and PRs by area of the codebase

[[labels]]
name = "A-api"
color = "0075ca"
description = "Area: API"

[[labels]]
name = "A-cli"
color = "0075ca"
description = "Area: CLI"

[[labels]]
name = "A-docs"
color = "0075ca"
description = "Area: Documentation"

[[labels]]
name = "A-core"
color = "0075ca"
description = "Area: Core"

[[labels]]
name = "A-testing"
color = "0075ca"
description = "Area: Testing"

[[labels]]
name = "A-ci"
color = "0075ca"
description = "Area: CI/CD"

[[labels]]
name = "A-performance"
color = "fbca04"
description = "Area: Performance"

[[labels]]
name = "A-security"
color = "d73a49"
description = "Area: Security"
"#;

const TEMPLATE_OPERATIONAL: &'static str = r#"# Operational Labels Template (O- prefixes)
# Operational workstreams and meta items

[[labels]]
name = "O-hiring"
color = "0075ca"
description = "Operational: Hiring and staffing"

[[labels]]
name = "O-roadmap"
color = "a2eeef"
description = "Operational: Roadmap and planning"

[[labels]]
name = "O-incident"
color = "d73a49"
description = "Operational: Incident response and follow-up"

[[labels]]
name = "O-maintenance"
color = "cccccc"
description = "Operational: Maintenance and chores"

[[labels]]
name = "O-compliance"
color = "e4e669"
description = "Operational: Compliance, audits, and risk"
"#;

/// Whether this name denotes a bundled preset.
pub open spec fn is_builtin_name(n: Seq<char>) -> bool {
    n == "standard"@ || n == "semantic"@ || n == "priority"@ || n == "priority-prefixed"@
        || n == "type"@ || n == "area"@ || n == "operational"@
}

/// The content of the bundled preset of this name.
pub closed spec fn builtin_content(n: Seq<char>) -> Seq<char> {
    if n == "standard"@ {
        TEMPLATE_STANDARD@
    } else if n == "semantic"@ {
        TEMPLATE_SEMANTIC@
    } else if n == "priority"@ {
        TEMPLATE_PRIORITY@
    } else if n == "priority-prefixed"@ {
        TEMPLATE_PRIORITY_PREFIXED@
    } else if n == "type"@ {
        TEMPLATE_TYPE@
    } else if n == "area"@ {
        TEMPLATE_AREA@
    } else {
        TEMPLATE_OPERATIONAL@
    }
}

/// The bundled presets' names and descriptions, in their listed order.
pub closed spec fn builtin_pairs() -> Seq<(Seq<char>, Seq<char>)> {
    seq![
        ("standard"@, "Standard GitHub labels (bug, feature, documentation, etc.)"@),
        ("semantic"@, "Semantic labels (breaking, feature, bugfix, docs, etc.)"@),
        ("priority"@, "Priority-based labels (critical, high, medium, low)"@),
        ("priority-prefixed"@, "Rust-style priority labels (P-critical, P-high, etc.)"@),
        ("type"@, "Type-based labels (type/bug, type/feature, type/docs, etc.)"@),
        ("area"@, "Area-based labels (area/api, area/cli, area/docs, etc.)"@),
        ("operational"@, "Operational labels (O-hiring, O-roadmap, etc.)"@),
    ]
}

impl TemplateManager {
    /// The bundled presets: each name with its one-line description.
    pub fn builtin_templates() -> (r: Vec<(&'static str, &'static str)>)
        ensures
            r@.len() == builtin_pairs().len(),
            forall|i: int|
                0 <= i < r@.len() ==> ((#[trigger] r@[i]).0@, r@[i].1@) == builtin_pairs()[i],
            r@[0].0@ == "standard"@,
            forall|i: int| 0 <= i < 7 ==> is_builtin_name((#[trigger] r@[i]).0@),
    {
        let mut v: Vec<(&'static str, &'static str)> = Vec::new();
        v.push(("standard", "Standard GitHub labels (bug, feature, documentation, etc.)"));
        v.push(("semantic", "Semantic labels (breaking, feature, bugfix, docs, etc.)"));
        v.push(("priority", "Priority-based labels (critical, high, medium, low)"));
        v.push(("priority-prefixed", "Rust-style priority labels (P-critical, P-high, etc.)"));
        v.push(("type", "Type-based labels (type/bug, type/feature, type/docs, etc.)"));
        v.push(("area", "Area-based labels (area/api, area/cli, area/docs, etc.)"));
        v.push(("operational", "Operational labels (O-hiring, O-roadmap, etc.)"));
        v
    }

    /// The content of the bundled preset of this name, when there is one.
    pub fn get_builtin_template(name: &str) -> (r: Option<String>)
        ensures
            match r {
                Some(c) => is_builtin_name(name@) && c@ == builtin_content(name@),
                None => !is_builtin_name(name@),
            },
    {
        if str_eq(name, "standard") {
            Some(String::from_str(TEMPLATE_STANDARD))
        } else if str_eq(name, "semantic") {
            Some(String::from_str(TEMPLATE_SEMANTIC))
        } else if str_eq(name, "priority") {
            Some(String::from_str(TEMPLATE_PRIORITY))
        } else if str_eq(name, "priority-prefixed") {
            Some(String::from_str(TEMPLATE_PRIORITY_PREFIXED))
        } else if str_eq(name, "type") {
            Some(String::from_str(TEMPLATE_TYPE))
        } else if str_eq(name, "area") {
            Some(String::from_str(TEMPLATE_AREA))
        } else if str_eq(name, "operational") {
            Some(String::from_str(TEMPLATE_OPERATIONAL))
        } else {
            None
        }
    }
}

/// Whether some listed template carries this name.
pub open spec fn has_name(s: Seq<TemplateInfoData>, n: Seq<char>) -> bool {
    exists|i: int| 0 <= i < s.len() && (#[trigger] s[i]).name == n
}

/// The entries with every later duplicate of a name dropped: the first
/// occurrence wins.
pub open spec fn dedup_names(s: Seq<TemplateInfoData>) -> Seq<TemplateInfoData>
    decreases s.len(),
{
    if s.len() == 0 {
        Seq::empty()
    } else {
        let prefix = dedup_names(s.drop_last());
        if has_name(s.drop_last(), s.last().name) {
            prefix
        } else {
            prefix.push(s.last())
        }
    }
}

/// A bundled preset's listing entry.
pub open spec fn builtin_info(b: (Seq<char>, Seq<char>)) -> TemplateInfoData {
    TemplateInfoData { name: b.0, description: b.1, path: "__builtin__"@ }
}

/// The listing grown by the bundled presets, in order, each added only when
/// its name is still free.
pub open spec fn add_builtins(
    acc: Seq<TemplateInfoData>,
    bs: Seq<(Seq<char>, Seq<char>)>,
) -> Seq<TemplateInfoData>
    decreases bs.len(),
{
    if bs.len() == 0 {
        acc
    } else {
        let acc1 = if has_name(acc, bs[0].0) {
            acc
        } else {
            acc.push(builtin_info(bs[0]))
        };
        add_builtins(acc1, bs.drop_first())
    }
}

/// The full template listing made of user entries and bundled presets: the
/// user entries first, duplicates dropped in favour of the first occurrence,
/// then every bundled preset whose name no user entry took.
pub open spec fn merged_templates(
    user: Seq<TemplateInfoData>,
    bs: Seq<(Seq<char>, Seq<char>)>,
) -> Seq<TemplateInfoData> {
    add_builtins(dedup_names(user), bs)
}

/// Whether one of the first `upto` entries carries this name.
fn names_contain(list: &Vec<TemplateInfo>, upto: usize, name: &str) -> (r: bool)
    requires
        upto <= list.len(),
    ensures
        r == has_name(list.deep_view().take(upto as int), name@),
{
    let mut j: usize = 0;
    while j < upto
        invariant
            0 <= j <= upto,
            upto <= list.len(),
            forall|k: int| 0 <= k < j ==> (#[trigger] list.deep_view()[k]).name != name@,
        decreases upto - j,
    {
        if str_eq(list[j].name.as_str(), name) {
            proof {
                assert(list.deep_view().take(upto as int)[j as int].name == name@);
            }
            return true;
        }
        j = j + 1;
    }
    proof {
        if has_name(list.deep_view().take(upto as int), name@) {
            let k = choose|k: int|
                0 <= k < upto && (#[trigger] list.deep_view().take(upto as int)[k]).name == name@;
            assert(list.deep_view()[k].name == name@);
        }
    }
    false
}

/// Merges the user templates found on disk, in scan order, with the bundled
/// presets: a name's first occurrence wins, and user entries shadow presets.
pub fn merge_templates(user: Vec<TemplateInfo>) -> (r: Vec<TemplateInfo>)
    ensures
        r.deep_view() == merged_templates(user.deep_view(), builtin_pairs()),
{
    let ghost uview = user.deep_view();
    let mut out: Vec<TemplateInfo> = Vec::new();
    proof {
        assert(out.deep_view() =~= dedup_names(uview.take(0)));
    }
    let n = user.len();
    let mut i: usize = 0;
    while i < n
        invariant
            0 <= i <= n,
            n == user.len(),
            uview == user.deep_view(),
            out.deep_view() == dedup_names(uview.take(i as int)),
        decreases n - i,
    {
        proof {
            assert(uview.take(i + 1).drop_last() =~= uview.take(i as int));
            assert(uview.take(i + 1).last() == user.deep_view()[i as int]);
        }
        if !names_contain(&user, i, user[i].name.as_str()) {
            push_and_view(&mut out, user[i].clone());
        }
        i = i + 1;
    }
    proof {
        assert(uview.take(n as int) =~= uview);
        assert(builtin_pairs().skip(0) =~= builtin_pairs());
    }
    let builtins = TemplateManager::builtin_templates();
    let m = builtins.len();
    let mut k: usize = 0;
    while k < m
        invariant
            0 <= k <= m,
            m == builtin_pairs().len(),
            m == builtins@.len(),
            forall|j: int|
                0 <= j < m ==> ((#[trigger] builtins@[j]).0@, builtins@[j].1@) == builtin_pairs()[j],
            merged_templates(uview, builtin_pairs()) == add_builtins(
                out.deep_view(),
                builtin_pairs().skip(k as int),
            ),
        decreases m - k,
    {
        proof {
            assert(builtin_pairs().skip(k as int)[0] == builtin_pairs()[k as int]);
            assert(builtin_pairs().skip(k as int).drop_first() =~= builtin_pairs().skip(k + 1));
        }
        let b = builtins[k];
        if !names_contain(&out, out.len(), b.0) {
            proof {
                assert(out.deep_view().take(out.deep_view().len() as int) =~= out.deep_view());
            }
            push_and_view(
                &mut out,
                TemplateInfo {
                    name: String::from_str(b.0),
                    description: String::from_str(b.1),
                    path: String::from_str("__builtin__"),
                },
            );
        } else {
            proof {
                assert(out.deep_view().take(out.deep_view().len() as int) =~= out.deep_view());
            }
        }
        k = k + 1;
    }
    proof {
        assert(builtin_pairs().skip(m as int) =~= Seq::<(Seq<char>, Seq<char>)>::empty());
    }
    out
}

impl Default for TemplateManager {
    /// A manager that knows the bundled presets alone.
    fn default() -> (r: Self)
        ensures
            r.template_dirs.deep_view() == seq!["__builtin__"@],
    {
        let mut dirs: Vec<String> = Vec::new();
        dirs.push(String::from_str("__builtin__"));
        let r = TemplateManager { template_dirs: dirs };
        proof {
            assert(r.template_dirs.deep_view() =~= seq!["__builtin__"@]);
        }
        r
    }
}

} // verus!
