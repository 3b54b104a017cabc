//! The manifest of a job: its buddies and its tasks, and the rules by which
//! they are read from a document.

use crate::document::Node;
use crate::search::{
    collected, first_index, lemma_collected_error_stays, lemma_first_index_is,
    lemma_first_index_none, lemma_first_index_some,
};
use vstd::prelude::*;

verus! {

/// A persona that tasks are assigned to.
#[derive(Debug, PartialEq, Eq)]
pub struct Buddy {
    /// The name by which tasks refer to this buddy.
    pub id: String,
    /// A short descriptor of the persona.
    pub role: String,
    /// A longer descriptor of the persona.
    pub backstory: String,
}

/// A unit of work of a job.
#[derive(Debug, PartialEq, Eq)]
pub struct Task {
    /// The name under which the task's output is remembered.
    pub id: String,
    /// The prompt template, with zero or more placeholders.
    pub description: String,
    /// The id of the buddy that the task is assigned to.
    pub buddy: String,
    /// Guidance on the form of the answer.
    pub expected_output: String,
}

/// A buddy, with its strings as sequences of characters.
pub struct BuddyView {
    pub id: Seq<char>,
    pub role: Seq<char>,
    pub backstory: Seq<char>,
}

/// A task, with its strings as sequences of characters.
pub struct TaskView {
    pub id: Seq<char>,
    pub description: Seq<char>,
    pub buddy: Seq<char>,
    pub expected_output: Seq<char>,
}

impl View for Buddy {
    type V = BuddyView;

    open spec fn view(&self) -> BuddyView {
        BuddyView { id: self.id@, role: self.role@, backstory: self.backstory@ }
    }
}

impl DeepView for Buddy {
    type V = BuddyView;

    open spec fn deep_view(&self) -> BuddyView {
        self@
    }
}

impl View for Task {
    type V = TaskView;

    open spec fn view(&self) -> TaskView {
        TaskView {
            id: self.id@,
            description: self.description@,
            buddy: self.buddy@,
            expected_output: self.expected_output@,
        }
    }
}

impl DeepView for Task {
    type V = TaskView;

    open spec fn deep_view(&self) -> TaskView {
        self@
    }
}

/// One of the two lists of a manifest.
#[derive(Debug, Clone, Copy, PartialEq, Eq, Structural)]
pub enum Section {
    Buddies,
    Tasks,
}

/// One of the fields of a buddy or of a task.
#[derive(Debug, Clone, Copy, PartialEq, Eq, Structural)]
pub enum Field {
    Id,
    Role,
    Backstory,
    Description,
    Buddy,
    ExpectedOutput,
}

/// The rule that a document breaks as a manifest.
#[derive(Debug, Clone, Copy, PartialEq, Eq, Structural)]
pub enum Violation {
    /// The document is no mapping, or holds nothing under the section's key.
    MissingSection(Section),
    /// What stands under the section's key is no list.
    SectionNotList(Section),
    /// The element at `index` of the section is no mapping, or holds nothing
    /// under the field's key.
    MissingField { section: Section, index: usize, field: Field },
    /// The field of the element at `index` of the section is no string.
    FieldNotText { section: Section, index: usize, field: Field },
    /// The element at `index` of the section has the id of an earlier one.
    DuplicateId { section: Section, index: usize },
    /// The task at index `task` names a buddy that the manifest does not hold.
    UnknownBuddy { task: usize },
}

/// Why no job could be made of a manifest.
#[derive(Debug, Clone, Copy, PartialEq, Eq, Structural)]
pub enum ManifestError {
    /// The text could not be read as a structured document at all.
    Parse,
    /// The document was read and breaks a rule of the manifest.
    Invalid(Violation),
}

impl Section {
    /// The top-level key under which the section stands.
    pub open spec fn name(self) -> Seq<char> {
        match self {
            Section::Buddies => "buddies"@,
            Section::Tasks => "tasks"@,
        }
    }

    /// The top-level key under which the section stands.
    pub fn key(self) -> (key: &'static str)
        ensures
            key@ == self.name(),
    {
        match self {
            Section::Buddies => "buddies",
            Section::Tasks => "tasks",
        }
    }
}

impl Field {
    /// The key under which the field stands in its element.
    pub open spec fn name(self) -> Seq<char> {
        match self {
            Field::Id => "id"@,
            Field::Role => "role"@,
            Field::Backstory => "backstory"@,
            Field::Description => "description"@,
            Field::Buddy => "buddy"@,
            Field::ExpectedOutput => "expected_output"@,
        }
    }

    /// The key under which the field stands in its element.
    pub fn key(self) -> (key: &'static str)
        ensures
            key@ == self.name(),
    {
        match self {
            Field::Id => "id",
            Field::Role => "role",
            Field::Backstory => "backstory",
            Field::Description => "description",
            Field::Buddy => "buddy",
            Field::ExpectedOutput => "expected_output",
        }
    }
}

/// The items of the list that `document` holds under the section's key.
pub open spec fn section_items(document: Node, section: Section) -> Result<Seq<Node>, Violation> {
    match document.field(section.name()) {
        None => Err(Violation::MissingSection(section)),
        Some(node) => match node.items() {
            None => Err(Violation::SectionNotList(section)),
            Some(items) => Ok(items),
        },
    }
}

/// The string that `element`, at `index` of its section, holds under the
/// field's key.
pub open spec fn field_text(element: Node, section: Section, index: usize, field: Field) -> Result<
    Seq<char>,
    Violation,
> {
    match element.field(field.name()) {
        None => Err(Violation::MissingField { section, index, field }),
        Some(node) => match node.text() {
            None => Err(Violation::FieldNotText { section, index, field }),
            Some(text) => Ok(text),
        },
    }
}

/// The buddy that `element` describes: its id, role and backstory, read in
/// that order.
pub open spec fn buddy_of(element: Node, index: usize) -> Result<BuddyView, Violation> {
    match field_text(element, Section::Buddies, index, Field::Id) {
        Err(e) => Err(e),
        Ok(id) => match field_text(element, Section::Buddies, index, Field::Role) {
            Err(e) => Err(e),
            Ok(role) => match field_text(element, Section::Buddies, index, Field::Backstory) {
                Err(e) => Err(e),
                Ok(backstory) => Ok(BuddyView { id, role, backstory }),
            },
        },
    }
}

/// The task that `element` describes: its id, description, buddy and
/// expected output, read in that order.
pub open spec fn task_of(element: Node, index: usize) -> Result<TaskView, Violation> {
    match field_text(element, Section::Tasks, index, Field::Id) {
        Err(e) => Err(e),
        Ok(id) => match field_text(element, Section::Tasks, index, Field::Description) {
            Err(e) => Err(e),
            Ok(description) => match field_text(element, Section::Tasks, index, Field::Buddy) {
                Err(e) => Err(e),
                Ok(buddy) => match field_text(
                    element,
                    Section::Tasks,
                    index,
                    Field::ExpectedOutput,
                ) {
                    Err(e) => Err(e),
                    Ok(expected_output) => Ok(
                        TaskView { id, description, buddy, expected_output },
                    ),
                },
            },
        },
    }
}

/// Reading the item at an index as a buddy.
pub open spec fn buddy_at(items: Seq<Node>) -> spec_fn(int) -> Result<BuddyView, Violation> {
    |i: int| buddy_of(items[i], i as usize)
}

/// Reading the item at an index as a task.
pub open spec fn task_at(items: Seq<Node>) -> spec_fn(int) -> Result<TaskView, Violation> {
    |i: int| task_of(items[i], i as usize)
}

/// The buddies that `items` describe, or what is wrong with the first item
/// that describes none.
pub open spec fn buddies_of(items: Seq<Node>) -> Result<Seq<BuddyView>, Violation> {
    collected(items.len(), buddy_at(items))
}

/// The tasks that `items` describe, or what is wrong with the first item
/// that describes none.
pub open spec fn tasks_of(items: Seq<Node>) -> Result<Seq<TaskView>, Violation> {
    collected(items.len(), task_at(items))
}

/// Reads the string that `element` holds under the field's key.
fn read_field(element: &Node, section: Section, index: usize, field: Field) -> (res: Result<
    String,
    Violation,
>)
    ensures
        match res {
            Ok(text) => field_text(*element, section, index, field) == Ok::<Seq<char>, Violation>(
                text@,
            ),
            Err(e) => field_text(*element, section, index, field) == Err::<Seq<char>, Violation>(e),
        },
{
    match element.get(field.key()) {
        None => Err(Violation::MissingField { section, index, field }),
        Some(node) => match node.as_text() {
            None => Err(Violation::FieldNotText { section, index, field }),
            Some(text) => Ok(text.clone()),
        },
    }
}

/// Reads `element` as a buddy.
fn read_buddy(element: &Node, index: usize) -> (res: Result<Buddy, Violation>)
    ensures
        match res {
            Ok(buddy) => buddy_of(*element, index) == Ok::<BuddyView, Violation>(buddy@),
            Err(e) => buddy_of(*element, index) == Err::<BuddyView, Violation>(e),
        },
{
    let id = read_field(element, Section::Buddies, index, Field::Id)?;
    let role = read_field(element, Section::Buddies, index, Field::Role)?;
    let backstory = read_field(element, Section::Buddies, index, Field::Backstory)?;
    Ok(Buddy { id, role, backstory })
}

/// Reads `element` as a task.
fn read_task(element: &Node, index: usize) -> (res: Result<Task, Violation>)
    ensures
        match res {
            Ok(task) => task_of(*element, index) == Ok::<TaskView, Violation>(task@),
            Err(e) => task_of(*element, index) == Err::<TaskView, Violation>(e),
        },
{
    let id = read_field(element, Section::Tasks, index, Field::Id)?;
    let description = read_field(element, Section::Tasks, index, Field::Description)?;
    let buddy = read_field(element, Section::Tasks, index, Field::Buddy)?;
    let expected_output = read_field(element, Section::Tasks, index, Field::ExpectedOutput)?;
    Ok(Task { id, description, buddy, expected_output })
}

/// Finds the list that `document` holds under the section's key.
pub(crate) fn read_section(document: &Node, section: Section) -> (res: Result<&Vec<Node>, Violation>)
    ensures
        match res {
            Ok(items) => section_items(*document, section) == Ok::<Seq<Node>, Violation>(items@),
            Err(e) => section_items(*document, section) == Err::<Seq<Node>, Violation>(e),
        },
{
    match document.get(section.key()) {
        None => Err(Violation::MissingSection(section)),
        Some(node) => match node.as_list() {
            None => Err(Violation::SectionNotList(section)),
            Some(items) => Ok(items),
        },
    }
}

/// Reads every item as a buddy, first to last, and stops at the first that
/// is none.
pub(crate) fn read_buddies(items: &Vec<Node>) -> (res: Result<Vec<Buddy>, Violation>)
    ensures
        match res {
            Ok(buddies) => buddies_of(items@) == Ok::<Seq<BuddyView>, Violation>(
                buddies.deep_view(),
            ),
            Err(e) => buddies_of(items@) == Err::<Seq<BuddyView>, Violation>(e),
        },
{
    let mut buddies: Vec<Buddy> = Vec::new();
    let mut i: usize = 0;
    proof {
        assert(buddies.deep_view() =~= Seq::empty());
    }
    while i < items.len()
        invariant
            i <= items.len(),
            collected(i as nat, buddy_at(items@)) == Ok::<Seq<BuddyView>, Violation>(
                buddies.deep_view(),
            ),
        decreases items.len() - i,
    {
        let ghost before = buddies.deep_view();
        match read_buddy(&items[i], i) {
            Ok(buddy) => {
                buddies.push(buddy);
                proof {
                    assert(buddies.deep_view() =~= before.push(buddy@));
                }
            },
            Err(e) => {
                proof {
                    lemma_collected_error_stays((i + 1) as nat, items@.len(), buddy_at(items@));
                }
                return Err(e);
            },
        }
        i += 1;
    }
    Ok(buddies)
}

/// Reads every item as a task, first to last, and stops at the first that
/// is none.
pub(crate) fn read_tasks(items: &Vec<Node>) -> (res: Result<Vec<Task>, Violation>)
    ensures
        match res {
            Ok(tasks) => tasks_of(items@) == Ok::<Seq<TaskView>, Violation>(tasks.deep_view()),
            Err(e) => tasks_of(items@) == Err::<Seq<TaskView>, Violation>(e),
        },
{
    let mut tasks: Vec<Task> = Vec::new();
    let mut i: usize = 0;
    proof {
        assert(tasks.deep_view() =~= Seq::empty());
    }
    while i < items.len()
        invariant
            i <= items.len(),
            collected(i as nat, task_at(items@)) == Ok::<Seq<TaskView>, Violation>(
                tasks.deep_view(),
            ),
        decreases items.len() - i,
    {
        let ghost before = tasks.deep_view();
        match read_task(&items[i], i) {
            Ok(task) => {
                tasks.push(task);
                proof {
                    assert(tasks.deep_view() =~= before.push(task@));
                }
            },
            Err(e) => {
                proof {
                    lemma_collected_error_stays((i + 1) as nat, items@.len(), task_at(items@));
                }
                return Err(e);
            },
        }
        i += 1;
    }
    Ok(tasks)
}

/// The ids of `buddies`, in order.
pub open spec fn buddy_ids(buddies: Seq<BuddyView>) -> Seq<Seq<char>> {
    Seq::new(buddies.len(), |i: int| buddies[i].id)
}

/// The ids of `tasks`, in order.
pub open spec fn task_ids(tasks: Seq<TaskView>) -> Seq<Seq<char>> {
    Seq::new(tasks.len(), |i: int| tasks[i].id)
}

/// Whether the id at index `i` stands at an earlier index too.
pub open spec fn stands_before(ids: Seq<Seq<char>>, i: int) -> bool {
    exists|j: int| 0 <= j < i && ids[j] == ids[i]
}

/// Whether the id at an index repeats an earlier one.
pub open spec fn repeated_in(ids: Seq<Seq<char>>) -> spec_fn(int) -> bool {
    |i: int| stands_before(ids, i)
}

/// The least index whose id stands at an earlier index too.
pub open spec fn first_repeat(ids: Seq<Seq<char>>) -> Option<int> {
    first_index(ids.len(), repeated_in(ids))
}

/// No id stands at two indices.
pub open spec fn distinct(ids: Seq<Seq<char>>) -> bool {
    forall|i: int, j: int| 0 <= i < j < ids.len() ==> ids[i] != ids[j]
}

/// Whether the buddy at an index has the id `id`.
pub open spec fn has_id(buddies: Seq<BuddyView>, id: Seq<char>) -> spec_fn(int) -> bool {
    |b: int| buddies[b].id == id
}

/// The index of the first of `buddies` whose id is `id`.
pub open spec fn position(buddies: Seq<BuddyView>, id: Seq<char>) -> Option<int> {
    first_index(buddies.len(), has_id(buddies, id))
}

/// Whether one of `buddies` has the id `id`.
pub open spec fn known(buddies: Seq<BuddyView>, id: Seq<char>) -> bool {
    exists|b: int| 0 <= b < buddies.len() && buddies[b].id == id
}

/// Whether the task at an index names a buddy that is not among `buddies`.
pub open spec fn unassigned_in(tasks: Seq<TaskView>, buddies: Seq<BuddyView>) -> spec_fn(
    int,
) -> bool {
    |t: int| !known(buddies, tasks[t].buddy)
}

/// The index of the first task that names a buddy not among `buddies`.
pub open spec fn first_unassigned(tasks: Seq<TaskView>, buddies: Seq<BuddyView>) -> Option<int> {
    first_index(tasks.len(), unassigned_in(tasks, buddies))
}

/// Every task names one of `buddies`.
pub open spec fn all_assigned(tasks: Seq<TaskView>, buddies: Seq<BuddyView>) -> bool {
    forall|t: int| 0 <= t < tasks.len() ==> known(buddies, #[trigger] tasks[t].buddy)
}

/// What `document` holds as a manifest: its buddies and its tasks, or the
/// first rule that it breaks. The rules are held to in this order: the
/// buddies are read, first to last; the tasks are read, first to last; no two
/// buddies share an id; no two tasks share an id; every task names a buddy of
/// the manifest.
pub open spec fn manifest_of(document: Node) -> Result<(Seq<BuddyView>, Seq<TaskView>), Violation> {
    match section_items(document, Section::Buddies) {
        Err(e) => Err(e),
        Ok(buddy_items) => match buddies_of(buddy_items) {
            Err(e) => Err(e),
            Ok(buddies) => match section_items(document, Section::Tasks) {
                Err(e) => Err(e),
                Ok(task_items) => match tasks_of(task_items) {
                    Err(e) => Err(e),
                    Ok(tasks) => checked(buddies, tasks),
                },
            },
        },
    }
}

/// The buddies and tasks as they are where they keep the rules on ids, else
/// the first of those rules that they break.
pub open spec fn checked(buddies: Seq<BuddyView>, tasks: Seq<TaskView>) -> Result<
    (Seq<BuddyView>, Seq<TaskView>),
    Violation,
> {
    if let Some(index) = first_repeat(buddy_ids(buddies)) {
        Err(Violation::DuplicateId { section: Section::Buddies, index: index as usize })
    } else if let Some(index) = first_repeat(task_ids(tasks)) {
        Err(Violation::DuplicateId { section: Section::Tasks, index: index as usize })
    } else if let Some(task) = first_unassigned(tasks, buddies) {
        Err(Violation::UnknownBuddy { task: task as usize })
    } else {
        Ok((buddies, tasks))
    }
}

/// No id repeats an earlier one exactly where the ids are distinct.
pub proof fn lemma_first_repeat_none(ids: Seq<Seq<char>>)
    ensures
        first_repeat(ids) is None <==> distinct(ids),
{
    lemma_first_index_none(ids.len(), repeated_in(ids));
    if distinct(ids) {
        assert forall|k: int| 0 <= k < ids.len() implies !#[trigger] repeated_in(ids)(k) by {}
    }
    if first_repeat(ids) is None {
        assert forall|i: int, j: int| 0 <= i < j < ids.len() implies ids[i] != ids[j] by {
            assert(!repeated_in(ids)(j));
        }
    }
}

/// A buddy is found exactly where one of the buddies has the id, and what is
/// found has it.
pub proof fn lemma_position(buddies: Seq<BuddyView>, id: Seq<char>)
    ensures
        position(buddies, id) is Some <==> known(buddies, id),
        position(buddies, id) matches Some(b) ==> 0 <= b < buddies.len() && buddies[b].id == id,
{
    lemma_first_index_none(buddies.len(), has_id(buddies, id));
    lemma_first_index_some(buddies.len(), has_id(buddies, id));
    if known(buddies, id) {
        let b = choose|b: int| 0 <= b < buddies.len() && buddies[b].id == id;
        assert(has_id(buddies, id)(b));
    }
}

/// No task is without its buddy exactly where every task names one of the
/// buddies.
pub proof fn lemma_first_unassigned_none(tasks: Seq<TaskView>, buddies: Seq<BuddyView>)
    ensures
        first_unassigned(tasks, buddies) is None <==> all_assigned(tasks, buddies),
{
    lemma_first_index_none(tasks.len(), unassigned_in(tasks, buddies));
    if all_assigned(tasks, buddies) {
        assert forall|t: int| 0 <= t < tasks.len() implies !#[trigger] unassigned_in(
            tasks,
            buddies,
        )(t) by {
            assert(known(buddies, tasks[t].buddy));
        }
    }
    if first_unassigned(tasks, buddies) is None {
        assert forall|t: int| 0 <= t < tasks.len() implies known(
            buddies,
            #[trigger] tasks[t].buddy,
        ) by {
            assert(!unassigned_in(tasks, buddies)(t));
        }
    }
}

/// A document whose two sections can be read, and in which no two buddies
/// and no two tasks share an id, is accepted as a manifest if and only if
/// every task names a buddy of the manifest.
pub proof fn lemma_accepted_iff_buddies_known(
    document: Node,
    buddies: Seq<BuddyView>,
    tasks: Seq<TaskView>,
)
    requires
        section_items(document, Section::Buddies) matches Ok(items) && buddies_of(items) == Ok::<
            Seq<BuddyView>,
            Violation,
        >(buddies),
        section_items(document, Section::Tasks) matches Ok(items) && tasks_of(items) == Ok::<
            Seq<TaskView>,
            Violation,
        >(tasks),
        distinct(buddy_ids(buddies)),
        distinct(task_ids(tasks)),
    ensures
        manifest_of(document) is Ok <==> all_assigned(tasks, buddies),
        manifest_of(document) is Ok ==> manifest_of(document) == Ok::<
            (Seq<BuddyView>, Seq<TaskView>),
            Violation,
        >((buddies, tasks)),
        manifest_of(document) matches Err(e) ==> e is UnknownBuddy,
{
    lemma_first_repeat_none(buddy_ids(buddies));
    lemma_first_repeat_none(task_ids(tasks));
    lemma_first_unassigned_none(tasks, buddies);
}

/// What is accepted as a manifest keeps the rules on ids.
pub proof fn lemma_accepted_keeps_rules(document: Node)
    ensures
        manifest_of(document) matches Ok((buddies, tasks)) ==> distinct(buddy_ids(buddies))
            && distinct(task_ids(tasks)) && all_assigned(tasks, buddies),
{
    if let Ok((buddies, tasks)) = manifest_of(document) {
        lemma_first_repeat_none(buddy_ids(buddies));
        lemma_first_repeat_none(task_ids(tasks));
        lemma_first_unassigned_none(tasks, buddies);
    }
}

/// Whether the id at index `i` stands at an earlier index too.
fn id_stands_before(ids: &Vec<String>, i: usize) -> (found: bool)
    requires
        i < ids.len(),
    ensures
        found == stands_before(ids.deep_view(), i as int),
{
    let mut j: usize = 0;
    while j < i
        invariant
            j <= i < ids.len(),
            forall|k: int| 0 <= k < j ==> ids.deep_view()[k] != ids.deep_view()[i as int],
        decreases i - j,
    {
        if ids[j] == ids[i] {
            assert(ids.deep_view()[j as int] == ids.deep_view()[i as int]);
            return true;
        }
        j += 1;
    }
    false
}

/// Finds the least index whose id stands at an earlier index too.
fn find_repeat(ids: &Vec<String>) -> (res: Option<usize>)
    ensures
        match res {
            Some(i) => first_repeat(ids.deep_view()) == Some(i as int),
            None => first_repeat(ids.deep_view()) is None,
        },
{
    let ghost all = ids.deep_view();
    let mut i: usize = 0;
    while i < ids.len()
        invariant
            i <= ids.len(),
            all == ids.deep_view(),
            forall|k: int| 0 <= k < i ==> !#[trigger] repeated_in(all)(k),
        decreases ids.len() - i,
    {
        if id_stands_before(ids, i) {
            proof {
                assert(repeated_in(all)(i as int));
                lemma_first_index_is(all.len(), repeated_in(all), i as int);
            }
            return Some(i);
        }
        i += 1;
    }
    proof {
        lemma_first_index_none(all.len(), repeated_in(all));
    }
    None
}

/// The ids of the buddies, in order.
fn ids_of_buddies(buddies: &Vec<Buddy>) -> (ids: Vec<String>)
    ensures
        ids.deep_view() == buddy_ids(buddies.deep_view()),
{
    let mut ids: Vec<String> = Vec::new();
    let mut i: usize = 0;
    while i < buddies.len()
        invariant
            i <= buddies.len(),
            ids.len() == i,
            forall|k: int| 0 <= k < i ==> ids@[k]@ == buddies@[k].id@,
        decreases buddies.len() - i,
    {
        ids.push(buddies[i].id.clone());
        i += 1;
    }
    assert(ids.deep_view() =~= buddy_ids(buddies.deep_view()));
    ids
}

/// The ids of the tasks, in order.
fn ids_of_tasks(tasks: &Vec<Task>) -> (ids: Vec<String>)
    ensures
        ids.deep_view() == task_ids(tasks.deep_view()),
{
    let mut ids: Vec<String> = Vec::new();
    let mut i: usize = 0;
    while i < tasks.len()
        invariant
            i <= tasks.len(),
            ids.len() == i,
            forall|k: int| 0 <= k < i ==> ids@[k]@ == tasks@[k].id@,
        decreases tasks.len() - i,
    {
        ids.push(tasks[i].id.clone());
        i += 1;
    }
    assert(ids.deep_view() =~= task_ids(tasks.deep_view()));
    ids
}

/// Finds the first of `buddies` whose id is `id`.
pub fn find_buddy(buddies: &Vec<Buddy>, id: &String) -> (res: Option<usize>)
    ensures
        match res {
            Some(b) => position(buddies.deep_view(), id@) == Some(b as int),
            None => position(buddies.deep_view(), id@) is None,
        },
{
    let ghost all = buddies.deep_view();
    let mut b: usize = 0;
    while b < buddies.len()
        invariant
            b <= buddies.len(),
            all == buddies.deep_view(),
            forall|k: int| 0 <= k < b ==> !#[trigger] has_id(all, id@)(k),
        decreases buddies.len() - b,
    {
        if buddies[b].id == *id {
            proof {
                assert(has_id(all, id@)(b as int));
                lemma_first_index_is(all.len(), has_id(all, id@), b as int);
            }
            return Some(b);
        }
        b += 1;
    }
    proof {
        lemma_first_index_none(all.len(), has_id(all, id@));
    }
    None
}

/// Finds the first task that names a buddy not among `buddies`.
fn find_unassigned(tasks: &Vec<Task>, buddies: &Vec<Buddy>) -> (res: Option<usize>)
    ensures
        match res {
            Some(t) => first_unassigned(tasks.deep_view(), buddies.deep_view()) == Some(t as int),
            None => first_unassigned(tasks.deep_view(), buddies.deep_view()) is None,
        },
{
    let ghost all = tasks.deep_view();
    let ghost among = buddies.deep_view();
    let mut t: usize = 0;
    while t < tasks.len()
        invariant
            t <= tasks.len(),
            all == tasks.deep_view(),
            among == buddies.deep_view(),
            forall|k: int| 0 <= k < t ==> !#[trigger] unassigned_in(all, among)(k),
        decreases tasks.len() - t,
    {
        proof {
            lemma_position(among, tasks[t as int].buddy@);
        }
        if find_buddy(buddies, &tasks[t].buddy).is_none() {
            proof {
                assert(unassigned_in(all, among)(t as int));
                lemma_first_index_is(all.len(), unassigned_in(all, among), t as int);
            }
            return Some(t);
        }
        t += 1;
    }
    proof {
        lemma_first_index_none(all.len(), unassigned_in(all, among));
    }
    None
}

/// Holds the buddies and tasks to the rules on ids.
pub(crate) fn check(buddies: &Vec<Buddy>, tasks: &Vec<Task>) -> (res: Result<(), Violation>)
    ensures
        match res {
            Ok(_) => checked(buddies.deep_view(), tasks.deep_view()) is Ok,
            Err(e) => checked(buddies.deep_view(), tasks.deep_view()) == Err::<
                (Seq<BuddyView>, Seq<TaskView>),
                Violation,
            >(e),
        },
{
    let buddy_ids = ids_of_buddies(buddies);
    if let Some(index) = find_repeat(&buddy_ids) {
        return Err(Violation::DuplicateId { section: Section::Buddies, index });
    }
    let task_ids = ids_of_tasks(tasks);
    if let Some(index) = find_repeat(&task_ids) {
        return Err(Violation::DuplicateId { section: Section::Tasks, index });
    }
    if let Some(task) = find_unassigned(tasks, buddies) {
        return Err(Violation::UnknownBuddy { task });
    }
    Ok(())
}

} // verus!
