//! The skill catalogue: categories, their titles and their entries.

use crate::json::{join, joined, texts};
use crate::text::{owned, same_text};
use vstd::prelude::*;
use vstd::string::*;

verus! {

/// Shown where no category is given.
pub const USAGE: &'static str = "Use 'skills <category>' for detailed view:\n\
• skills all                    - All skills\n\
• skills languages              - Programming languages\n\
• skills cloud | infra          - Cloud & Infrastructure\n\
• skills frameworks | libraries - Frameworks & Libraries\n\
• skills databases              - Databases\n\
• skills tools                  - Tools";

/// Shown where the category is none of the catalogue's.
pub const UNKNOWN_CATEGORY: &'static str =
    "Unknown skill category. Use 'skills all' for all skills.";

/// A group of skills. Two keys may name one group.
#[derive(Clone, Copy, Debug, PartialEq, Eq, Structural)]
pub enum SkillCategory {
    Languages,
    Cloud,
    Databases,
    Frameworks,
    Tools,
}

/// The group that `key` names, if it names one. `infra` names the group of
/// `cloud`, and `libraries` that of `frameworks`.
pub open spec fn category_of(key: Seq<char>) -> Option<SkillCategory> {
    if key == "languages"@ {
        Some(SkillCategory::Languages)
    } else if key == "cloud"@ || key == "infra"@ {
        Some(SkillCategory::Cloud)
    } else if key == "databases"@ {
        Some(SkillCategory::Databases)
    } else if key == "frameworks"@ || key == "libraries"@ {
        Some(SkillCategory::Frameworks)
    } else if key == "tools"@ {
        Some(SkillCategory::Tools)
    } else {
        None
    }
}

impl SkillCategory {
    /// The heading of the group.
    pub open spec fn title_text(self) -> Seq<char> {
        match self {
            SkillCategory::Languages => "Programming Languages"@,
            SkillCategory::Cloud => "Cloud & Infrastructure"@,
            SkillCategory::Databases => "Databases"@,
            SkillCategory::Frameworks => "Frameworks & Libraries"@,
            SkillCategory::Tools => "Tools"@,
        }
    }

    /// The entries of the group, in the order in which they are shown.
    pub open spec fn item_texts(self) -> Seq<Seq<char>> {
        match self {
            SkillCategory::Languages => seq![
                "Python"@,
                "Go"@,
                "TypeScript"@,
                "JavaScript"@,
                "Rust"@,
            ],
            SkillCategory::Cloud => seq![
                "Docker"@,
                "Kubernetes"@,
                "Amazon Web Services (AWS)"@,
                "Helm"@,
                "Prometheus"@,
                "Grafana"@,
                "Linux"@,
            ],
            SkillCategory::Databases => seq!["SQL"@, "PostgreSQL"@, "MongoDB"@, "Firebase"@],
            SkillCategory::Frameworks => seq![
                "Pandas"@,
                "NumPy"@,
                "React"@,
                "Next.js"@,
                "Node.js"@,
                "Django"@,
            ],
            SkillCategory::Tools => seq!["Git"@, "GitHub"@, "GitLab"@, "Jira"@],
        }
    }

    /// The section of the group: its heading, then one bulleted line for each
    /// entry.
    pub open spec fn section_text(self) -> Seq<char> {
        self.title_text() + ":\n• "@ + joined(self.item_texts(), "\n• "@)
    }

    /// The group that `key` names, if it names one.
    pub fn from_key(key: &str) -> (r: Option<SkillCategory>)
        ensures
            r == category_of(key@),
    {
        if same_text(key, "languages") {
            Some(SkillCategory::Languages)
        } else if same_text(key, "cloud") || same_text(key, "infra") {
            Some(SkillCategory::Cloud)
        } else if same_text(key, "databases") {
            Some(SkillCategory::Databases)
        } else if same_text(key, "frameworks") || same_text(key, "libraries") {
            Some(SkillCategory::Frameworks)
        } else if same_text(key, "tools") {
            Some(SkillCategory::Tools)
        } else {
            None
        }
    }

    /// The entries of the group, in the order in which they are shown.
    pub fn items(self) -> (r: Vec<String>)
        ensures
            texts(r@) == self.item_texts(),
    {
        let names: Vec<&'static str> = match self {
            SkillCategory::Languages => vec!["Python", "Go", "TypeScript", "JavaScript", "Rust"],
            SkillCategory::Cloud => vec![
                "Docker",
                "Kubernetes",
                "Amazon Web Services (AWS)",
                "Helm",
                "Prometheus",
                "Grafana",
                "Linux",
            ],
            SkillCategory::Databases => vec!["SQL", "PostgreSQL", "MongoDB", "Firebase"],
            SkillCategory::Frameworks => vec![
                "Pandas",
                "NumPy",
                "React",
                "Next.js",
                "Node.js",
                "Django",
            ],
            SkillCategory::Tools => vec!["Git", "GitHub", "GitLab", "Jira"],
        };
        let r = owned(&names);
        proof {
            assert(texts(r@) =~= self.item_texts());
        }
        r
    }

    /// The section of the group: its heading, then one bulleted line for each
    /// entry.
    pub fn section(self) -> (r: String)
        ensures
            r@ == self.section_text(),
    {
        let mut out = String::from_str(self.title());
        out.append(":\n• ");
        let lines = join(&self.items(), "\n• ");
        out.append(lines.as_str());
        out
    }

    /// The heading of the group.
    pub fn title(self) -> (r: &'static str)
        ensures
            r@ == self.title_text(),
    {
        match self {
            SkillCategory::Languages => "Programming Languages",
            SkillCategory::Cloud => "Cloud & Infrastructure",
            SkillCategory::Databases => "Databases",
            SkillCategory::Frameworks => "Frameworks & Libraries",
            SkillCategory::Tools => "Tools",
        }
    }
}

/// The groups that `all` shows, in the order in which it shows them. Each group
/// stands once, under its first key.
pub open spec fn listed() -> Seq<SkillCategory> {
    seq![
        SkillCategory::Languages,
        SkillCategory::Cloud,
        SkillCategory::Databases,
        SkillCategory::Frameworks,
        SkillCategory::Tools,
    ]
}

/// The sections of `groups`, in order.
pub open spec fn section_texts(groups: Seq<SkillCategory>) -> Seq<Seq<char>> {
    Seq::new(groups.len(), |i: int| groups[i].section_text())
}

/// What `all` shows: the section of each listed group, one below the other.
pub open spec fn all_sections_text() -> Seq<char> {
    joined(section_texts(listed()), "\n"@)
}

/// What the skills command shows for `category`: the usage where there is none,
/// every listed section for `all`, the section of the group that the key names,
/// and a fixed complaint for any other key.
pub open spec fn skills_text(category: Option<Seq<char>>) -> Seq<char> {
    match category {
        None => USAGE@,
        Some(key) => if key == "all"@ {
            all_sections_text()
        } else {
            match category_of(key) {
                Some(group) => group.section_text(),
                None => UNKNOWN_CATEGORY@,
            }
        },
    }
}

/// The section of each listed group, one below the other.
pub fn all_sections() -> (r: String)
    ensures
        r@ == all_sections_text(),
{
    let groups: Vec<SkillCategory> = vec![
        SkillCategory::Languages,
        SkillCategory::Cloud,
        SkillCategory::Databases,
        SkillCategory::Frameworks,
        SkillCategory::Tools,
    ];
    proof {
        assert(groups@ =~= listed());
    }
    let mut sections: Vec<String> = Vec::new();
    let mut i: usize = 0;
    while i < groups.len()
        invariant
            i <= groups.len(),
            sections.len() == i,
            forall|k: int| 0 <= k < i ==> #[trigger] sections[k]@ == groups[k].section_text(),
        decreases groups.len() - i,
    {
        sections.push(groups[i].section());
        i = i + 1;
    }
    proof {
        assert(texts(sections@) =~= section_texts(listed()));
    }
    join(&sections, "\n")
}

/// What the skills command shows for `category`.
pub fn skills_output(category: Option<&str>) -> (r: String)
    ensures
        r@ == skills_text(
            match category {
                None => None,
                Some(key) => Some(key@),
            },
        ),
{
    match category {
        None => String::from_str(USAGE),
        Some(key) => {
            if same_text(key, "all") {
                all_sections()
            } else {
                match SkillCategory::from_key(key) {
                    Some(group) => group.section(),
                    None => String::from_str(UNKNOWN_CATEGORY),
                }
            }
        },
    }
}

/// The lengths of the keys, and the first letter of the one key that is as long
/// as `all`: enough to tell every two keys apart.
proof fn lemma_keys_differ()
    ensures
        "all"@.len() == 3,
        "languages"@.len() == 9,
        "cloud"@.len() == 5,
        "infra"@.len() == 5,
        "databases"@.len() == 9,
        "frameworks"@.len() == 10,
        "libraries"@.len() == 9,
        "tools"@.len() == 5,
        "cloud"@[0] == 'c',
        "infra"@[0] == 'i',
        "tools"@[0] == 't',
        "languages"@[0] == 'l',
        "databases"@[0] == 'd',
        "libraries"@[0] == 'l',
        "libraries"@[1] == 'i',
        "languages"@[1] == 'a',
{
    reveal_strlit("all");
    reveal_strlit("languages");
    reveal_strlit("cloud");
    reveal_strlit("infra");
    reveal_strlit("databases");
    reveal_strlit("frameworks");
    reveal_strlit("libraries");
    reveal_strlit("tools");
}

/// Each key names the group that it is the key of, and `all` names none.
pub proof fn lemma_keys()
    ensures
        category_of("languages"@) == Some(SkillCategory::Languages),
        category_of("cloud"@) == Some(SkillCategory::Cloud),
        category_of("infra"@) == Some(SkillCategory::Cloud),
        category_of("databases"@) == Some(SkillCategory::Databases),
        category_of("frameworks"@) == Some(SkillCategory::Frameworks),
        category_of("libraries"@) == Some(SkillCategory::Frameworks),
        category_of("tools"@) == Some(SkillCategory::Tools),
        category_of("all"@) is None,
{
    lemma_keys_differ();
}

/// Two keys of one group show the same text; so `infra` shows what `cloud`
/// shows, and `libraries` what `frameworks` shows.
pub proof fn lemma_aliases_agree(first: Seq<char>, second: Seq<char>)
    requires
        category_of(first) is Some,
        category_of(first) == category_of(second),
    ensures
        skills_text(Some(first)) == skills_text(Some(second)),
        skills_text(Some("infra"@)) == skills_text(Some("cloud"@)),
        skills_text(Some("libraries"@)) == skills_text(Some("frameworks"@)),
{
    lemma_keys_differ();
}

/// A key that names no group, and is not `all`, gets the fixed complaint.
pub proof fn lemma_unknown_key(key: Seq<char>)
    requires
        key != "all"@,
        category_of(key) is None,
    ensures
        skills_text(Some(key)) == UNKNOWN_CATEGORY@,
{
}

/// `all` shows five sections, those of the languages, the cloud, the databases,
/// the frameworks and the tools, in this order and with a line break between
/// each two; each section has a heading and at least one entry, and no entry is
/// empty.
pub proof fn lemma_all_sections()
    ensures
        listed().len() == 5,
        skills_text(Some("all"@)) == SkillCategory::Languages.section_text() + "\n"@
            + SkillCategory::Cloud.section_text() + "\n"@
            + SkillCategory::Databases.section_text() + "\n"@
            + SkillCategory::Frameworks.section_text() + "\n"@
            + SkillCategory::Tools.section_text(),
        forall|group: SkillCategory|
            #![trigger group.title_text()]
            #![trigger group.item_texts()]
            group.title_text().len() > 0 && group.item_texts().len() > 0,
        forall|group: SkillCategory, i: int|
            0 <= i < group.item_texts().len() ==> (#[trigger] group.item_texts()[i]).len() > 0,
{
    let sections = section_texts(listed());
    let four = sections.drop_last();
    let three = four.drop_last();
    let two = three.drop_last();
    let one = two.drop_last();
    reveal_with_fuel(joined, 6);
    assert(joined(one, "\n"@) == SkillCategory::Languages.section_text());
    assert(joined(two, "\n"@) == joined(one, "\n"@) + "\n"@ + two.last());
    assert(joined(three, "\n"@) == joined(two, "\n"@) + "\n"@ + three.last());
    assert(joined(four, "\n"@) == joined(three, "\n"@) + "\n"@ + four.last());
    assert(joined(sections, "\n"@) == joined(four, "\n"@) + "\n"@ + sections.last());
    lemma_titles_and_items();
}

/// No heading and no entry of the catalogue is empty.
proof fn lemma_titles_and_items()
    ensures
        forall|group: SkillCategory|
            #![trigger group.title_text()]
            #![trigger group.item_texts()]
            group.title_text().len() > 0 && group.item_texts().len() > 0,
        forall|group: SkillCategory, i: int|
            0 <= i < group.item_texts().len() ==> (#[trigger] group.item_texts()[i]).len() > 0,
{
    reveal_strlit("Programming Languages");
    reveal_strlit("Cloud & Infrastructure");
    reveal_strlit("Databases");
    reveal_strlit("Frameworks & Libraries");
    reveal_strlit("Tools");
    reveal_strlit("Python");
    reveal_strlit("Go");
    reveal_strlit("TypeScript");
    reveal_strlit("JavaScript");
    reveal_strlit("Rust");
    reveal_strlit("Docker");
    reveal_strlit("Kubernetes");
    reveal_strlit("Amazon Web Services (AWS)");
    reveal_strlit("Helm");
    reveal_strlit("Prometheus");
    reveal_strlit("Grafana");
    reveal_strlit("Linux");
    reveal_strlit("SQL");
    reveal_strlit("PostgreSQL");
    reveal_strlit("MongoDB");
    reveal_strlit("Firebase");
    reveal_strlit("Pandas");
    reveal_strlit("NumPy");
    reveal_strlit("React");
    reveal_strlit("Next.js");
    reveal_strlit("Node.js");
    reveal_strlit("Django");
    reveal_strlit("Git");
    reveal_strlit("GitHub");
    reveal_strlit("GitLab");
    reveal_strlit("Jira");
}

} // verus!
