//! A job: the buddies and tasks of a manifest that keeps the rules, and the
//! caller's inputs.

use crate::document::Node;
use crate::manifest::{
    all_assigned, buddy_ids, check, distinct, lemma_accepted_keeps_rules, manifest_of,
    read_buddies, read_section, read_tasks, task_ids, Buddy, BuddyView, ManifestError, Section,
    Task, TaskView, Violation,
};
use crate::yaml::{load_documents, yaml_documents};
use vstd::prelude::*;

verus! {

/// A job, with its strings as sequences of characters.
pub struct JobView {
    /// The caller's inputs, each a name and its value.
    pub inputs: Seq<(Seq<char>, Seq<char>)>,
    pub buddies: Seq<BuddyView>,
    /// The tasks, in the order in which they run.
    pub tasks: Seq<TaskView>,
}

impl JobView {
    /// No two buddies and no two tasks share an id, and every task names one
    /// of the buddies.
    pub open spec fn valid(self) -> bool {
        &&& distinct(buddy_ids(self.buddies))
        &&& distinct(task_ids(self.tasks))
        &&& all_assigned(self.tasks, self.buddies)
    }
}

/// A set of buddies, an ordered list of tasks and the caller's inputs. A job
/// is only ever made of a manifest that keeps the rules, and does not change.
#[derive(Debug)]
pub struct Job {
    inputs: Vec<(String, String)>,
    buddies: Vec<Buddy>,
    tasks: Vec<Task>,
}

impl View for Job {
    type V = JobView;

    closed spec fn view(&self) -> JobView {
        JobView {
            inputs: self.inputs.deep_view(),
            buddies: self.buddies.deep_view(),
            tasks: self.tasks.deep_view(),
        }
    }
}

/// The inputs that a caller gave: none where it gave no list.
pub open spec fn inputs_of(inputs: Option<Vec<(String, String)>>) -> Seq<(Seq<char>, Seq<char>)> {
    match inputs {
        Some(list) => list.deep_view(),
        None => Seq::empty(),
    }
}

/// The job that the first of `documents` describes, with `inputs`. Without
/// any document there is nothing under the key of the buddies.
pub open spec fn job_of(documents: Seq<Node>, inputs: Seq<(Seq<char>, Seq<char>)>) -> Result<
    JobView,
    ManifestError,
> {
    if documents.len() == 0 {
        Err(ManifestError::Invalid(Violation::MissingSection(Section::Buddies)))
    } else {
        match manifest_of(documents[0]) {
            Err(violation) => Err(ManifestError::Invalid(violation)),
            Ok((buddies, tasks)) => Ok(JobView { inputs, buddies, tasks }),
        }
    }
}

/// The job that the YAML text `manifest` describes, with `inputs`.
pub open spec fn job_of_text(manifest: Seq<char>, inputs: Seq<(Seq<char>, Seq<char>)>) -> Result<
    JobView,
    ManifestError,
> {
    match yaml_documents(manifest) {
        None => Err(ManifestError::Parse),
        Some(documents) => job_of(documents, inputs),
    }
}

impl Job {
    #[verifier::type_invariant]
    spec fn keeps_rules(&self) -> bool {
        self@.valid()
    }

    /// Reads the buddies and the tasks of a manifest from `document` and
    /// holds them to the rules. Nothing is handed out unless every rule is
    /// kept.
    pub fn from_manifest(document: &Node) -> (res: Result<(Vec<Buddy>, Vec<Task>), ManifestError>)
        ensures
            match res {
                Ok((buddies, tasks)) => manifest_of(*document) == Ok::<
                    (Seq<BuddyView>, Seq<TaskView>),
                    Violation,
                >((buddies.deep_view(), tasks.deep_view())),
                Err(ManifestError::Invalid(violation)) => manifest_of(*document) == Err::<
                    (Seq<BuddyView>, Seq<TaskView>),
                    Violation,
                >(violation),
                Err(ManifestError::Parse) => false,
            },
    {
        let buddy_items = match read_section(document, Section::Buddies) {
            Ok(items) => items,
            Err(violation) => return Err(ManifestError::Invalid(violation)),
        };
        let buddies = match read_buddies(buddy_items) {
            Ok(buddies) => buddies,
            Err(violation) => return Err(ManifestError::Invalid(violation)),
        };
        let task_items = match read_section(document, Section::Tasks) {
            Ok(items) => items,
            Err(violation) => return Err(ManifestError::Invalid(violation)),
        };
        let tasks = match read_tasks(task_items) {
            Ok(tasks) => tasks,
            Err(violation) => return Err(ManifestError::Invalid(violation)),
        };
        match check(&buddies, &tasks) {
            Ok(_) => Ok((buddies, tasks)),
            Err(violation) => Err(ManifestError::Invalid(violation)),
        }
    }

    /// Makes a job of the first of `documents`, read as a manifest, and of
    /// the caller's `inputs`.
    pub fn from_documents(documents: &Vec<Node>, inputs: Option<Vec<(String, String)>>) -> (res:
        Result<Job, ManifestError>)
        ensures
            match res {
                Ok(job) => job_of(documents@, inputs_of(inputs)) == Ok::<JobView, ManifestError>(
                    job@,
                ) && job@.valid(),
                Err(e) => job_of(documents@, inputs_of(inputs)) == Err::<JobView, ManifestError>(
                    e,
                ),
            },
    {
        if documents.len() == 0 {
            return Err(ManifestError::Invalid(Violation::MissingSection(Section::Buddies)));
        }
        match Job::from_manifest(&documents[0]) {
            Err(e) => Err(e),
            Ok((buddies, tasks)) => {
                let inputs = match inputs {
                    Some(list) => list,
                    None => {
                        let list: Vec<(String, String)> = Vec::new();
                        assert(list.deep_view() =~= Seq::empty());
                        list
                    },
                };
                proof {
                    lemma_accepted_keeps_rules(documents[0]);
                }
                Ok(Job { inputs, buddies, tasks })
            },
        }
    }

    /// Makes a job of a manifest written in YAML and of the caller's
    /// `inputs`. The text is read as YAML; its first document is the
    /// manifest.
    pub fn new(manifest: &str, inputs: Option<Vec<(String, String)>>) -> (res: Result<
        Job,
        ManifestError,
    >)
        ensures
            match res {
                Ok(job) => job_of_text(manifest@, inputs_of(inputs)) == Ok::<
                    JobView,
                    ManifestError,
                >(job@) && job@.valid(),
                Err(e) => job_of_text(manifest@, inputs_of(inputs)) == Err::<
                    JobView,
                    ManifestError,
                >(e),
            },
    {
        match load_documents(manifest) {
            Err(_) => Err(ManifestError::Parse),
            Ok(documents) => Job::from_documents(&documents, inputs),
        }
    }

    /// The caller's inputs, in the order in which they are applied.
    pub fn inputs(&self) -> (inputs: &Vec<(String, String)>)
        ensures
            inputs.deep_view() == self@.inputs,
    {
        &self.inputs
    }

    /// The buddies of the job.
    pub fn buddies(&self) -> (buddies: &Vec<Buddy>)
        ensures
            buddies.deep_view() == self@.buddies,
            self@.valid(),
    {
        proof {
            use_type_invariant(self);
        }
        &self.buddies
    }

    /// The tasks of the job, in the order in which they run.
    pub fn tasks(&self) -> (tasks: &Vec<Task>)
        ensures
            tasks.deep_view() == self@.tasks,
            self@.valid(),
    {
        proof {
            use_type_invariant(self);
        }
        &self.tasks
    }
}

} // verus!
