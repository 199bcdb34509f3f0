//! The label values exchanged with the remote label store.

use vstd::prelude::*;

verus! {

/// A label as the store holds it: a unique name, a color, and an optional
/// description.
#[derive(Debug)]
pub struct Label {
    pub name: String,
    pub color: String,
    pub description: Option<String>,
}

/// The mathematical value of a stored label.
pub struct LabelData {
    pub name: Seq<char>,
    pub color: Seq<char>,
    pub description: Option<Seq<char>>,
}

impl View for Label {
    type V = LabelData;

    open spec fn view(&self) -> LabelData {
        LabelData {
            name: self.name@,
            color: self.color@,
            description: self.description.deep_view(),
        }
    }
}

impl DeepView for Label {
    type V = LabelData;

    open spec fn deep_view(&self) -> LabelData {
        self.view()
    }
}

impl Clone for Label {
    fn clone(&self) -> (r: Self)
        ensures
            r == *self,
    {
        Label {
            name: self.name.clone(),
            color: self.color.clone(),
            description: match &self.description {
                Some(d) => Some(d.clone()),
                None => None,
            },
        }
    }
}

/// A label as the remote store reports it, with its store-assigned identity
/// fields.
#[derive(Debug)]
pub struct GithubLabel {
    pub name: String,
    pub color: String,
    pub description: Option<String>,
    pub url: String,
    pub id: u64,
    pub node_id: String,
    pub default: bool,
}

/// What a `create` call carries: the new label's name, color, and optional
/// description.
#[derive(Debug)]
pub struct CreateLabelRequest {
    pub name: String,
    pub color: String,
    pub description: Option<String>,
}

/// The mathematical value of a `create` request.
pub struct CreateRequestData {
    pub name: Seq<char>,
    pub color: Seq<char>,
    pub description: Option<Seq<char>>,
}

impl View for CreateLabelRequest {
    type V = CreateRequestData;

    open spec fn view(&self) -> CreateRequestData {
        CreateRequestData {
            name: self.name@,
            color: self.color@,
            description: self.description.deep_view(),
        }
    }
}

/// What an `update` call carries: each field is changed when present and left
/// as it stands when absent. A present `name` renames the label.
#[derive(Debug)]
pub struct UpdateLabelRequest {
    pub name: Option<String>,
    pub color: Option<String>,
    pub description: Option<String>,
}

/// The mathematical value of an `update` request.
pub struct UpdateRequestData {
    pub name: Option<Seq<char>>,
    pub color: Option<Seq<char>>,
    pub description: Option<Seq<char>>,
}

impl View for UpdateLabelRequest {
    type V = UpdateRequestData;

    open spec fn view(&self) -> UpdateRequestData {
        UpdateRequestData {
            name: self.name.deep_view(),
            color: self.color.deep_view(),
            description: self.description.deep_view(),
        }
    }
}

} // verus!
