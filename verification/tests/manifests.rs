use buddies_ai::document::Node;
use buddies_ai::job::Job;
use buddies_ai::manifest::{
    find_buddy, Buddy, Field, ManifestError, Section, Task, Violation,
};

const MANIFEST: &str = "\
buddies:
  - id: writer
    role: Writer
    backstory: Writes a lot
  - id: editor
    role: Editor
    backstory: Cuts a lot
tasks:
  - id: draft
    description: Write about {topic}
    buddy: writer
    expected_output: a draft
  - id: cut
    description: Shorten {draft_output}
    buddy: editor
    expected_output: a short text
";

fn text(s: &str) -> Node {
    Node::Text(s.to_string())
}

fn mapping(entries: &[(&str, Node)]) -> Node {
    let mut out = Vec::new();
    for (key, value) in entries {
        out.push((text(key), copy(value)));
    }
    Node::Mapping(out)
}

fn copy(node: &Node) -> Node {
    match node {
        Node::Text(s) => Node::Text(s.clone()),
        Node::List(items) => Node::List(items.iter().map(copy).collect()),
        Node::Mapping(entries) => {
            Node::Mapping(entries.iter().map(|(k, v)| (copy(k), copy(v))).collect())
        }
        Node::Other => Node::Other,
    }
}

fn buddy_node(id: &str) -> Node {
    mapping(&[("id", text(id)), ("role", text("R")), ("backstory", text("B"))])
}

fn task_node(id: &str, buddy: &str) -> Node {
    mapping(&[
        ("id", text(id)),
        ("description", text("D")),
        ("buddy", text(buddy)),
        ("expected_output", text("E")),
    ])
}

fn manifest(buddies: Vec<Node>, tasks: Vec<Node>) -> Node {
    mapping(&[("buddies", Node::List(buddies)), ("tasks", Node::List(tasks))])
}

fn invalid(violation: Violation) -> ManifestError {
    ManifestError::Invalid(violation)
}

fn error_of(document: &Node) -> ManifestError {
    Job::from_manifest(document).unwrap_err()
}

#[test]
fn reads_buddies_and_tasks_in_order() {
    let job = Job::new(MANIFEST, None).unwrap();
    assert_eq!(
        job.buddies(),
        &vec![
            Buddy {
                id: "writer".to_string(),
                role: "Writer".to_string(),
                backstory: "Writes a lot".to_string(),
            },
            Buddy {
                id: "editor".to_string(),
                role: "Editor".to_string(),
                backstory: "Cuts a lot".to_string(),
            },
        ]
    );
    assert_eq!(
        job.tasks(),
        &vec![
            Task {
                id: "draft".to_string(),
                description: "Write about {topic}".to_string(),
                buddy: "writer".to_string(),
                expected_output: "a draft".to_string(),
            },
            Task {
                id: "cut".to_string(),
                description: "Shorten {draft_output}".to_string(),
                buddy: "editor".to_string(),
                expected_output: "a short text".to_string(),
            },
        ]
    );
    assert!(job.inputs().is_empty());
}

#[test]
fn keeps_the_inputs_in_their_order() {
    let inputs = vec![
        ("topic".to_string(), "tea".to_string()),
        ("tone".to_string(), "dry".to_string()),
    ];
    let job = Job::new(MANIFEST, Some(inputs.clone())).unwrap();
    assert_eq!(job.inputs(), &inputs);
}

#[test]
fn from_manifest_reads_a_document_built_by_hand() {
    let document = manifest(vec![buddy_node("b1")], vec![task_node("t1", "b1")]);
    let (buddies, tasks) = Job::from_manifest(&document).unwrap();
    assert_eq!(
        buddies,
        vec![Buddy { id: "b1".to_string(), role: "R".to_string(), backstory: "B".to_string() }]
    );
    assert_eq!(
        tasks,
        vec![Task {
            id: "t1".to_string(),
            description: "D".to_string(),
            buddy: "b1".to_string(),
            expected_output: "E".to_string(),
        }]
    );
}

#[test]
fn accepts_a_manifest_whose_tasks_all_name_a_buddy() {
    let document = manifest(
        vec![buddy_node("b1"), buddy_node("b2")],
        vec![task_node("t1", "b2"), task_node("t2", "b1"), task_node("t3", "b2")],
    );
    assert!(Job::from_manifest(&document).is_ok());
    assert!(Job::from_documents(&vec![document], None).is_ok());
}

#[test]
fn a_task_with_an_unknown_buddy_makes_the_job_invalid() {
    let text = "\
buddies:
  - id: b1
    role: R
    backstory: B
tasks:
  - id: t1
    description: D
    buddy: ghost
    expected_output: E
";
    assert_eq!(
        Job::new(text, None).unwrap_err(),
        invalid(Violation::UnknownBuddy { task: 0 })
    );
}

#[test]
fn the_first_task_with_an_unknown_buddy_is_named() {
    let document = manifest(
        vec![buddy_node("b1")],
        vec![task_node("t1", "b1"), task_node("t2", "ghost"), task_node("t3", "nobody")],
    );
    assert_eq!(error_of(&document), invalid(Violation::UnknownBuddy { task: 1 }));
}

#[test]
fn tasks_without_any_buddy_to_name() {
    let document = manifest(vec![], vec![task_node("t1", "b1")]);
    assert_eq!(error_of(&document), invalid(Violation::UnknownBuddy { task: 0 }));
}

#[test]
fn an_empty_task_list_is_a_valid_manifest() {
    let with_buddies = manifest(vec![buddy_node("b1")], vec![]);
    let (buddies, tasks) = Job::from_manifest(&with_buddies).unwrap();
    assert_eq!(buddies.len(), 1);
    assert!(tasks.is_empty());
    let bare = manifest(vec![], vec![]);
    assert!(Job::from_manifest(&bare).is_ok());
    assert!(Job::new("buddies: []\ntasks: []\n", None).is_ok());
}

#[test]
fn a_missing_section_is_named() {
    let no_buddies = mapping(&[("tasks", Node::List(vec![]))]);
    assert_eq!(error_of(&no_buddies), invalid(Violation::MissingSection(Section::Buddies)));
    let no_tasks = mapping(&[("buddies", Node::List(vec![]))]);
    assert_eq!(error_of(&no_tasks), invalid(Violation::MissingSection(Section::Tasks)));
    assert_eq!(error_of(&text("buddies")), invalid(Violation::MissingSection(Section::Buddies)));
    assert_eq!(error_of(&Node::Other), invalid(Violation::MissingSection(Section::Buddies)));
    assert_eq!(
        Job::new("tasks: []\n", None).unwrap_err(),
        invalid(Violation::MissingSection(Section::Buddies))
    );
}

#[test]
fn a_section_that_is_no_list_is_named() {
    let document = mapping(&[("buddies", text("b1")), ("tasks", Node::List(vec![]))]);
    assert_eq!(error_of(&document), invalid(Violation::SectionNotList(Section::Buddies)));
    let document = mapping(&[("buddies", Node::List(vec![])), ("tasks", buddy_node("x"))]);
    assert_eq!(error_of(&document), invalid(Violation::SectionNotList(Section::Tasks)));
    assert_eq!(
        Job::new("buddies: []\ntasks: 3\n", None).unwrap_err(),
        invalid(Violation::SectionNotList(Section::Tasks))
    );
}

#[test]
fn a_missing_field_is_named() {
    let buddy = mapping(&[("id", text("b2")), ("backstory", text("B"))]);
    let document = manifest(vec![buddy_node("b1"), buddy], vec![]);
    assert_eq!(
        error_of(&document),
        invalid(Violation::MissingField { section: Section::Buddies, index: 1, field: Field::Role })
    );
    let task = mapping(&[("id", text("t1")), ("description", text("D")), ("buddy", text("b1"))]);
    let document = manifest(vec![buddy_node("b1")], vec![task]);
    assert_eq!(
        error_of(&document),
        invalid(Violation::MissingField {
            section: Section::Tasks,
            index: 0,
            field: Field::ExpectedOutput,
        })
    );
}

#[test]
fn an_element_that_is_no_mapping_lacks_its_id() {
    let document = manifest(vec![text("b1")], vec![]);
    assert_eq!(
        error_of(&document),
        invalid(Violation::MissingField { section: Section::Buddies, index: 0, field: Field::Id })
    );
    let document = manifest(vec![], vec![Node::List(vec![])]);
    assert_eq!(
        error_of(&document),
        invalid(Violation::MissingField { section: Section::Tasks, index: 0, field: Field::Id })
    );
}

#[test]
fn a_field_that_is_no_string_is_named() {
    let text_in = "\
buddies:
  - id: b1
    role: 7
    backstory: B
tasks: []
";
    assert_eq!(
        Job::new(text_in, None).unwrap_err(),
        invalid(Violation::FieldNotText { section: Section::Buddies, index: 0, field: Field::Role })
    );
    let task = mapping(&[
        ("id", text("t1")),
        ("description", Node::List(vec![text("D")])),
        ("buddy", text("b1")),
        ("expected_output", text("E")),
    ]);
    let document = manifest(vec![buddy_node("b1")], vec![task_node("t0", "b1"), task]);
    assert_eq!(
        error_of(&document),
        invalid(Violation::FieldNotText {
            section: Section::Tasks,
            index: 1,
            field: Field::Description,
        })
    );
}

#[test]
fn fields_are_read_in_their_order() {
    let buddy = mapping(&[("backstory", Node::Other)]);
    let document = manifest(vec![buddy], vec![]);
    assert_eq!(
        error_of(&document),
        invalid(Violation::MissingField { section: Section::Buddies, index: 0, field: Field::Id })
    );
    let task = mapping(&[("id", text("t")), ("buddy", Node::Other)]);
    let document = manifest(vec![], vec![task]);
    assert_eq!(
        error_of(&document),
        invalid(Violation::MissingField {
            section: Section::Tasks,
            index: 0,
            field: Field::Description,
        })
    );
}

#[test]
fn buddies_are_read_before_tasks() {
    let bad_buddy = mapping(&[("id", text("b1"))]);
    let document = mapping(&[("buddies", Node::List(vec![bad_buddy]))]);
    assert_eq!(
        error_of(&document),
        invalid(Violation::MissingField { section: Section::Buddies, index: 0, field: Field::Role })
    );
}

#[test]
fn a_repeated_id_is_named() {
    let document = manifest(vec![buddy_node("b1"), buddy_node("b2"), buddy_node("b1")], vec![]);
    assert_eq!(
        error_of(&document),
        invalid(Violation::DuplicateId { section: Section::Buddies, index: 2 })
    );
    let document = manifest(
        vec![buddy_node("b1")],
        vec![task_node("t1", "b1"), task_node("t1", "b1"), task_node("t1", "ghost")],
    );
    assert_eq!(
        error_of(&document),
        invalid(Violation::DuplicateId { section: Section::Tasks, index: 1 })
    );
}

#[test]
fn a_buddy_and_a_task_may_share_an_id() {
    let document = manifest(vec![buddy_node("same")], vec![task_node("same", "same")]);
    assert!(Job::from_manifest(&document).is_ok());
}

#[test]
fn text_that_is_not_yaml_is_a_parse_error() {
    assert_eq!(Job::new("buddies: [", None).unwrap_err(), ManifestError::Parse);
}

#[test]
fn text_without_a_document_lacks_its_buddies() {
    assert_eq!(
        Job::new("", None).unwrap_err(),
        invalid(Violation::MissingSection(Section::Buddies))
    );
    assert_eq!(
        Job::from_documents(&vec![], None).unwrap_err(),
        invalid(Violation::MissingSection(Section::Buddies))
    );
}

#[test]
fn only_the_first_document_is_the_manifest() {
    let good = manifest(vec![], vec![]);
    let documents = vec![good, Node::Other];
    assert!(Job::from_documents(&documents, None).is_ok());
    let documents = vec![Node::Other, manifest(vec![], vec![])];
    assert_eq!(
        Job::from_documents(&documents, None).unwrap_err(),
        invalid(Violation::MissingSection(Section::Buddies))
    );
}

#[test]
fn find_buddy_gives_the_index_of_the_id() {
    let job = Job::new(MANIFEST, None).unwrap();
    assert_eq!(find_buddy(job.buddies(), &"writer".to_string()), Some(0));
    assert_eq!(find_buddy(job.buddies(), &"editor".to_string()), Some(1));
    assert_eq!(find_buddy(job.buddies(), &"ghost".to_string()), None);
    assert_eq!(find_buddy(&vec![], &"writer".to_string()), None);
}

#[test]
fn sections_and_fields_have_their_keys() {
    assert_eq!(Section::Buddies.key(), "buddies");
    assert_eq!(Section::Tasks.key(), "tasks");
    assert_eq!(Field::Id.key(), "id");
    assert_eq!(Field::Role.key(), "role");
    assert_eq!(Field::Backstory.key(), "backstory");
    assert_eq!(Field::Description.key(), "description");
    assert_eq!(Field::Buddy.key(), "buddy");
    assert_eq!(Field::ExpectedOutput.key(), "expected_output");
}
