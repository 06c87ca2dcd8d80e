//! Labels interface: request descriptions for a repository's labels.
//!
//! A [`Labels`] value is bound to one repository and builds one [`Request`]
//! per operation; the caller's transport performs the round trip and decodes
//! the response.

use vstd::prelude::*;
use vstd::string::StringExecFns;

verus! {

/// The HTTP verb of a request.
#[derive(Debug, PartialEq)]
pub enum Method {
    Get,
    Post,
    Patch,
    Delete,
}

/// One HTTP round trip, described as data: the verb, the resource-relative
/// path, and the body to send, if any.
pub struct Request {
    pub method: Method,
    pub path: String,
    pub body: Option<LabelOptions>,
}

/// The desired attributes of a label, sent as the body of a create or
/// update request.
pub struct LabelOptions {
    pub name: String,
    pub color: String,
}

impl LabelOptions {
    pub fn new(name: String, color: String) -> (r: LabelOptions)
        ensures
            r.name@ == name@,
            r.color@ == color@,
    {
        LabelOptions { name, color }
    }
}

/// A label as the server reports it.
pub struct Label {
    pub url: String,
    pub name: String,
    pub color: String,
}

/// The path of a repository's label collection, with `more` appended.
pub open spec fn spec_labels_path(owner: Seq<char>, repo: Seq<char>, more: Seq<char>) -> Seq<
    char,
> {
    "/repos/"@ + owner + "/"@ + repo + "/labels"@ + more
}

/// Access to the labels of one repository.
pub struct Labels {
    pub owner: String,
    pub repo: String,
}

impl Labels {
    pub fn new(owner: String, repo: String) -> (r: Labels)
        ensures
            r.owner@ == owner@,
            r.repo@ == repo@,
    {
        Labels { owner, repo }
    }

    fn path(&self, more: &str) -> (r: String)
        ensures
            r@ == spec_labels_path(self.owner@, self.repo@, more@),
    {
        let mut s = String::from_str("/repos/");
        s.append(self.owner.as_str());
        s.append("/");
        s.append(self.repo.as_str());
        s.append("/labels");
        s.append(more);
        s
    }

    /// A request that creates a label with the given attributes.
    pub fn create(&self, lab: &LabelOptions) -> (r: Request)
        ensures
            r.method is Post,
            r.path@ == spec_labels_path(self.owner@, self.repo@, Seq::empty()),
            r.body matches Some(b) && b.name@ == lab.name@ && b.color@ == lab.color@,
    {
        proof {
            reveal_strlit("");
            assert(""@ =~= Seq::<char>::empty());
        }
        Request {
            method: Method::Post,
            path: self.path(""),
            body: Some(LabelOptions { name: lab.name.clone(), color: lab.color.clone() }),
        }
    }

    /// A request that updates the label now called `prevname`: the path
    /// addresses the old name, the body carries the new attributes.
    pub fn update(&self, prevname: &str, lab: &LabelOptions) -> (r: Request)
        ensures
            r.method is Patch,
            r.path@ == spec_labels_path(self.owner@, self.repo@, seq!['/'] + prevname@),
            r.body matches Some(b) && b.name@ == lab.name@ && b.color@ == lab.color@,
    {
        let mut more = String::from_str("/");
        more.append(prevname);
        proof {
            reveal_strlit("/");
            assert(more@ =~= seq!['/'] + prevname@);
        }
        Request {
            method: Method::Patch,
            path: self.path(more.as_str()),
            body: Some(LabelOptions { name: lab.name.clone(), color: lab.color.clone() }),
        }
    }

    /// A request that deletes the label with the given name.
    pub fn delete(&self, name: &str) -> (r: Request)
        ensures
            r.method is Delete,
            r.path@ == spec_labels_path(self.owner@, self.repo@, seq!['/'] + name@),
            r.body is None,
    {
        let mut more = String::from_str("/");
        more.append(name);
        proof {
            reveal_strlit("/");
            assert(more@ =~= seq!['/'] + name@);
        }
        Request { method: Method::Delete, path: self.path(more.as_str()), body: None }
    }

    /// A request that lists the repository's labels.
    pub fn list(&self) -> (r: Request)
        ensures
            r.method is Get,
            r.path@ == spec_labels_path(self.owner@, self.repo@, Seq::empty()),
            r.body is None,
    {
        proof {
            reveal_strlit("");
            assert(""@ =~= Seq::<char>::empty());
        }
        Request { method: Method::Get, path: self.path(""), body: None }
    }
}

} // verus!
