//! The configuration model: the declared end state of the label set.

use vstd::prelude::*;

verus! {

/// One desired end-state label.
///
/// `color` is required for first-time creation and optional for updates;
/// `update_if_match` lists existing names to be renamed into `name`, tried in
/// order; the two flags resolve a name conflict on creation, and
/// `update_if_exists` takes precedence over `skip_if_exists`.
#[derive(Debug)]
pub struct Label {
    pub name: String,
    pub color: Option<String>,
    pub description: Option<String>,
    pub update_if_match: Vec<String>,
    pub skip_if_exists: bool,
    pub update_if_exists: bool,
}

/// The mathematical value of a declaration.
pub struct LabelDecl {
    pub name: Seq<char>,
    pub color: Option<Seq<char>>,
    pub description: Option<Seq<char>>,
    pub update_if_match: Seq<Seq<char>>,
    pub skip_if_exists: bool,
    pub update_if_exists: bool,
}

impl View for Label {
    type V = LabelDecl;

    open spec fn view(&self) -> LabelDecl {
        LabelDecl {
            name: self.name@,
            color: self.color.deep_view(),
            description: self.description.deep_view(),
            update_if_match: self.update_if_match.deep_view(),
            skip_if_exists: self.skip_if_exists,
            update_if_exists: self.update_if_exists,
        }
    }
}

impl DeepView for Label {
    type V = LabelDecl;

    open spec fn deep_view(&self) -> LabelDecl {
        self.view()
    }
}

/// A parsed configuration document: declarations in document order, then
/// names to delete in document order.
#[derive(Debug)]
pub struct LabelConfig {
    pub labels: Vec<Label>,
    pub delete: Vec<String>,
}

/// The mathematical value of a configuration.
pub struct ConfigData {
    pub labels: Seq<LabelDecl>,
    pub delete: Seq<Seq<char>>,
}

impl View for LabelConfig {
    type V = ConfigData;

    open spec fn view(&self) -> ConfigData {
        ConfigData { labels: self.labels.deep_view(), delete: self.delete.deep_view() }
    }
}

impl LabelConfig {
    /// True exactly when the configuration declares or deletes at least one
    /// label; an empty configuration is a valid no-op.
    pub fn has_actions(&self) -> (r: bool)
        ensures
            r == (self@.labels.len() > 0 || self@.delete.len() > 0),
    {
        !self.labels.is_empty() || !self.delete.is_empty()
    }
}

} // verus!
