//! The response envelope and its JSON text.

use crate::json::{array, array_text, quote, quote_each, quoted, quoted_each, texts, EncodeError};
use vstd::prelude::*;
use vstd::string::*;

verus! {

/// One entry of the project list.
#[derive(Debug)]
pub struct Project {
    pub name: String,
    pub description: String,
    pub tech: Vec<String>,
}

/// What a `Project` holds, as plain sequences of characters.
pub struct ProjectView {
    pub name: Seq<char>,
    pub description: Seq<char>,
    pub tech: Seq<Seq<char>>,
}

impl View for Project {
    type V = ProjectView;

    open spec fn view(&self) -> ProjectView {
        ProjectView { name: self.name@, description: self.description@, tech: texts(self.tech@) }
    }
}

/// The views of a list of projects, in order.
pub open spec fn project_views(projects: Seq<Project>) -> Seq<ProjectView> {
    Seq::new(projects.len(), |i: int| projects[i]@)
}

/// The envelope that every command answers with.
#[derive(Debug)]
pub struct CommandResponse {
    pub success: bool,
    pub output: String,
    pub data: Option<Vec<Project>>,
}

/// What a `CommandResponse` holds, as plain values.
pub struct ResponseView {
    pub success: bool,
    pub output: Seq<char>,
    pub data: Option<Seq<ProjectView>>,
}

impl View for CommandResponse {
    type V = ResponseView;

    open spec fn view(&self) -> ResponseView {
        ResponseView {
            success: self.success,
            output: self.output@,
            data: match self.data {
                None => None,
                Some(projects) => Some(project_views(projects@)),
            },
        }
    }
}

/// The JSON object of one project. Its members stand in the alphabetical order
/// of their keys.
pub open spec fn project_text(p: ProjectView) -> Seq<char> {
    "{\"description\":"@ + quoted(p.description) + ",\"name\":"@ + quoted(p.name)
        + ",\"tech\":"@ + array_text(quoted_each(p.tech)) + "}"@
}

/// The JSON objects of `projects`, in order.
pub open spec fn project_texts(projects: Seq<ProjectView>) -> Seq<Seq<char>> {
    Seq::new(projects.len(), |i: int| project_text(projects[i]))
}

/// The JSON text of the `data` member: `null` where there is none, else the
/// array of the projects.
pub open spec fn data_text(data: Option<Seq<ProjectView>>) -> Seq<char> {
    match data {
        None => "null"@,
        Some(projects) => array_text(project_texts(projects)),
    }
}

/// The JSON text of the `success` member.
pub open spec fn flag_text(flag: bool) -> Seq<char> {
    if flag {
        "true"@
    } else {
        "false"@
    }
}

/// The JSON text of a whole envelope: `success`, `output` and `data`, in that
/// order, with no space between the tokens.
pub open spec fn envelope_text(r: ResponseView) -> Seq<char> {
    "{\"success\":"@ + flag_text(r.success) + ",\"output\":"@ + quoted(r.output) + ",\"data\":"@
        + data_text(r.data) + "}"@
}

impl Project {
    /// The JSON object of this project.
    pub fn to_json(&self) -> (r: Result<String, EncodeError>)
        ensures
            r is Ok,
            r->Ok_0@ == project_text(self@),
    {
        let description = quote(self.description.as_str())?;
        let name = quote(self.name.as_str())?;
        let items = quote_each(&self.tech)?;
        let tech = array(&items);
        let mut out = String::from_str("{\"description\":");
        out.append(description.as_str());
        out.append(",\"name\":");
        out.append(name.as_str());
        out.append(",\"tech\":");
        out.append(tech.as_str());
        out.append("}");
        Ok(out)
    }
}

/// The JSON array of `projects`.
pub fn projects_to_json(projects: &Vec<Project>) -> (r: Result<String, EncodeError>)
    ensures
        r is Ok,
        r->Ok_0@ == array_text(project_texts(project_views(projects@))),
{
    let mut elements: Vec<String> = Vec::new();
    let mut i: usize = 0;
    while i < projects.len()
        invariant
            i <= projects.len(),
            elements.len() == i,
            forall|k: int| 0 <= k < i ==> #[trigger] elements[k]@ == project_text(projects[k]@),
        decreases projects.len() - i,
    {
        let element = projects[i].to_json()?;
        elements.push(element);
        i = i + 1;
    }
    proof {
        assert(texts(elements@) =~= project_texts(project_views(projects@)));
    }
    Ok(array(&elements))
}

impl CommandResponse {
    /// A successful response that carries text only.
    pub fn success(output: String) -> (r: Self)
        ensures
            r@ == (ResponseView { success: true, output: output@, data: None }),
    {
        CommandResponse { success: true, output, data: None }
    }

    /// A successful response that carries `data` beside its text.
    pub fn with_data(output: String, data: Vec<Project>) -> (r: Self)
        ensures
            r@ == (ResponseView {
                success: true,
                output: output@,
                data: Some(project_views(data@)),
            }),
    {
        CommandResponse { success: true, output, data: Some(data) }
    }

    /// The JSON text of this envelope.
    pub fn to_json(&self) -> (r: Result<String, EncodeError>)
        ensures
            r is Ok,
            r->Ok_0@ == envelope_text(self@),
    {
        let output = quote(self.output.as_str())?;
        let data = match &self.data {
            None => String::from_str("null"),
            Some(projects) => projects_to_json(projects)?,
        };
        let mut out = String::from_str("{\"success\":");
        if self.success {
            out.append("true");
        } else {
            out.append("false");
        }
        out.append(",\"output\":");
        out.append(output.as_str());
        out.append(",\"data\":");
        out.append(data.as_str());
        out.append("}");
        Ok(out)
    }
}

} // verus!
