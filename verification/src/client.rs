//! The remote client's verified half: the repository coordinates, and the
//! exact paths and argument lists that each remote label call sends.
//!
//! Spawning the transport tool and decoding its replies belong to the
//! unverified outer layer, which takes these argument lists as built here.

use vstd::prelude::*;
use crate::models::{CreateLabelRequest, CreateRequestData, UpdateLabelRequest, UpdateRequestData};
use crate::vec_util::push_and_view;

verus! {

/// The path of the repository's label collection.
pub open spec fn labels_path_data(owner: Seq<char>, repo: Seq<char>) -> Seq<char> {
    "repos/"@ + owner + "/"@ + repo + "/labels"@
}

/// The path of one named label.
pub open spec fn label_path_data(owner: Seq<char>, repo: Seq<char>, name: Seq<char>) -> Seq<char> {
    labels_path_data(owner, repo) + "/"@ + name
}

/// One `-f` field pair, when the value is present.
pub open spec fn opt_field(prefix: Seq<char>, o: Option<Seq<char>>) -> Seq<Seq<char>> {
    match o {
        Some(v) => seq!["-f"@, prefix + v],
        None => Seq::empty(),
    }
}

/// The argument list of a `create` call: the collection path and one field
/// pair per request field.
pub open spec fn create_args_data(
    owner: Seq<char>,
    repo: Seq<char>,
    req: CreateRequestData,
) -> Seq<Seq<char>> {
    seq![labels_path_data(owner, repo), "-f"@, "name="@ + req.name, "-f"@, "color="@ + req.color]
        + opt_field("description="@, req.description)
}

/// The argument list of an `update` call: the label's path, the patch verb,
/// and one field pair per present request field.
pub open spec fn update_args_data(
    owner: Seq<char>,
    repo: Seq<char>,
    name: Seq<char>,
    req: UpdateRequestData,
) -> Seq<Seq<char>> {
    seq![label_path_data(owner, repo, name), "-X"@, "PATCH"@] + opt_field("name="@, req.name)
        + opt_field("color="@, req.color) + opt_field("description="@, req.description)
}

/// The argument list of a `delete` call.
pub open spec fn delete_args_data(owner: Seq<char>, repo: Seq<char>, name: Seq<char>) -> Seq<
    Seq<char>,
> {
    seq![label_path_data(owner, repo, name), "-X"@, "DELETE"@]
}

/// A client bound to one repository, named by owner and repository name.
pub struct GithubClient {
    owner: String,
    repo: String,
}

impl GithubClient {
    /// The owner the client was made with.
    pub closed spec fn spec_owner(&self) -> Seq<char> {
        self.owner@
    }

    /// The repository name the client was made with.
    pub closed spec fn spec_repo(&self) -> Seq<char> {
        self.repo@
    }

    /// Binds a client to a repository.
    pub fn new(owner: String, repo: String) -> (r: GithubClient)
        ensures
            r.spec_owner() == owner@,
            r.spec_repo() == repo@,
    {
        GithubClient { owner, repo }
    }

    /// The repository's display form, `owner/repo`.
    pub fn repo_url(&self) -> (r: String)
        ensures
            r@ == self.spec_owner() + "/"@ + self.spec_repo(),
    {
        let mut s = self.owner.clone();
        s.append("/");
        s.append(self.repo.as_str());
        s
    }

    /// The path of the repository's label collection.
    pub fn labels_path(&self) -> (r: String)
        ensures
            r@ == labels_path_data(self.spec_owner(), self.spec_repo()),
    {
        let mut s = String::from_str("repos/");
        s.append(self.owner.as_str());
        s.append("/");
        s.append(self.repo.as_str());
        s.append("/labels");
        s
    }

    /// The path of one named label.
    pub fn label_path(&self, name: &str) -> (r: String)
        ensures
            r@ == label_path_data(self.spec_owner(), self.spec_repo(), name@),
    {
        let mut s = self.labels_path();
        s.append("/");
        s.append(name);
        s
    }

    /// The argument list a `create` call sends.
    pub fn create_label_args(&self, req: &CreateLabelRequest) -> (r: Vec<String>)
        ensures
            r.deep_view() == create_args_data(self.spec_owner(), self.spec_repo(), req@),
    {
        let mut args: Vec<String> = Vec::new();
        proof {
            assert(args.deep_view() =~= Seq::<Seq<char>>::empty());
        }
        push_and_view(&mut args, self.labels_path());
        push_and_view(&mut args, String::from_str("-f"));
        let mut name_arg = String::from_str("name=");
        name_arg.append(req.name.as_str());
        push_and_view(&mut args, name_arg);
        push_and_view(&mut args, String::from_str("-f"));
        let mut color_arg = String::from_str("color=");
        color_arg.append(req.color.as_str());
        push_and_view(&mut args, color_arg);
        match &req.description {
            Some(d) => {
                push_and_view(&mut args, String::from_str("-f"));
                let mut desc_arg = String::from_str("description=");
                desc_arg.append(d.as_str());
                push_and_view(&mut args, desc_arg);
            },
            None => {},
        }
        proof {
            assert(args.deep_view() =~= create_args_data(
                self.spec_owner(),
                self.spec_repo(),
                req@,
            ));
        }
        args
    }

    /// The argument list an `update` call sends.
    pub fn update_label_args(&self, name: &str, req: &UpdateLabelRequest) -> (r: Vec<String>)
        ensures
            r.deep_view() == update_args_data(self.spec_owner(), self.spec_repo(), name@, req@),
    {
        let mut args: Vec<String> = Vec::new();
        proof {
            assert(args.deep_view() =~= Seq::<Seq<char>>::empty());
        }
        push_and_view(&mut args, self.label_path(name));
        push_and_view(&mut args, String::from_str("-X"));
        push_and_view(&mut args, String::from_str("PATCH"));
        match &req.name {
            Some(n) => {
                push_and_view(&mut args, String::from_str("-f"));
                let mut a = String::from_str("name=");
                a.append(n.as_str());
                push_and_view(&mut args, a);
            },
            None => {},
        }
        match &req.color {
            Some(c) => {
                push_and_view(&mut args, String::from_str("-f"));
                let mut a = String::from_str("color=");
                a.append(c.as_str());
                push_and_view(&mut args, a);
            },
            None => {},
        }
        match &req.description {
            Some(d) => {
                push_and_view(&mut args, String::from_str("-f"));
                let mut a = String::from_str("description=");
                a.append(d.as_str());
                push_and_view(&mut args, a);
            },
            None => {},
        }
        proof {
            assert(args.deep_view() =~= update_args_data(
                self.spec_owner(),
                self.spec_repo(),
                name@,
                req@,
            ));
        }
        args
    }

    /// The argument list a `delete` call sends.
    pub fn delete_label_args(&self, name: &str) -> (r: Vec<String>)
        ensures
            r.deep_view() == delete_args_data(self.spec_owner(), self.spec_repo(), name@),
    {
        let mut args: Vec<String> = Vec::new();
        proof {
            assert(args.deep_view() =~= Seq::<Seq<char>>::empty());
        }
        push_and_view(&mut args, self.label_path(name));
        push_and_view(&mut args, String::from_str("-X"));
        push_and_view(&mut args, String::from_str("DELETE"));
        proof {
            assert(args.deep_view() =~= delete_args_data(
                self.spec_owner(),
                self.spec_repo(),
                name@,
            ));
        }
        args
    }
}

} // verus!
