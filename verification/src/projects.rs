//! The projects that the `projects` command lists.

use crate::response::{project_views, Project, ProjectView};
use crate::text::owned;
use vstd::prelude::*;
use vstd::string::*;

verus! {

/// The description of the first project. Its line breaks and the indentation
/// after them belong to the text.
pub const SHOEPREME_DESCRIPTION: &'static str = "A sneaker based e-commerce site with a fully functional Stripe payment\n                            system. Built using a MERN stack in a team of three while adhering to a\n                            feature-based Git flow.";

/// The projects, in the order in which they are listed.
pub open spec fn project_list() -> Seq<ProjectView> {
    seq![
        ProjectView {
            name: "Shoepreme"@,
            description: SHOEPREME_DESCRIPTION@,
            tech: seq!["MongoDB"@, "Express"@, "React"@, "Node.js"@, "Stripe"@],
        },
        ProjectView {
            name: "book.pile"@,
            description: "A reader’s handy book search resource."@,
            tech: seq!["React"@, "Material UI"@, "Google Books API"@],
        },
        ProjectView {
            name: "Key Smash"@,
            description: "An interactive typing test game."@,
            tech: seq!["HTML"@, "CSS"@, "JavaScript"@],
        },
    ]
}

/// One project, from its parts.
fn project(name: &'static str, description: &'static str, tech: Vec<&'static str>) -> (r: Project)
    ensures
        r@.name == name@,
        r@.description == description@,
        r@.tech.len() == tech.len(),
        forall|k: int| 0 <= k < tech.len() ==> #[trigger] r@.tech[k] == tech[k]@,
{
    Project {
        name: String::from_str(name),
        description: String::from_str(description),
        tech: owned(&tech),
    }
}

/// The projects, in the order in which they are listed.
pub fn projects() -> (r: Vec<Project>)
    ensures
        project_views(r@) == project_list(),
{
    let mut r: Vec<Project> = Vec::new();
    r.push(
        project(
            "Shoepreme",
            SHOEPREME_DESCRIPTION,
            vec!["MongoDB", "Express", "React", "Node.js", "Stripe"],
        ),
    );
    r.push(
        project(
            "book.pile",
            "A reader’s handy book search resource.",
            vec!["React", "Material UI", "Google Books API"],
        ),
    );
    r.push(
        project("Key Smash", "An interactive typing test game.", vec!["HTML", "CSS", "JavaScript"]),
    );
    proof {
        assert(project_views(r@)[0].tech =~= project_list()[0].tech);
        assert(project_views(r@)[1].tech =~= project_list()[1].tech);
        assert(project_views(r@)[2].tech =~= project_list()[2].tech);
        assert(project_views(r@) =~= project_list());
    }
    r
}

/// The list holds three projects, and each of them has a name, a description
/// and at least one technology.
pub proof fn lemma_projects_complete()
    ensures
        project_list().len() == 3,
        forall|i: int|
            0 <= i < project_list().len() ==> {
                &&& (#[trigger] project_list()[i]).name.len() > 0
                &&& project_list()[i].description.len() > 0
                &&& project_list()[i].tech.len() > 0
            },
{
    reveal_strlit("Shoepreme");
    reveal_strlit("book.pile");
    reveal_strlit("Key Smash");
    reveal_strlit(
        "A sneaker based e-commerce site with a fully functional Stripe payment\n                            system. Built using a MERN stack in a team of three while adhering to a\n                            feature-based Git flow.",
    );
    reveal_strlit("A reader’s handy book search resource.");
    reveal_strlit("An interactive typing test game.");
}

} // verus!
