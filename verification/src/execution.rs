//! Executing a job: its tasks run in order, one completion at a time.
//!
//! The completion service is not called from here. An execution hands out
//! the request for the task that is due and waits; the caller has the
//! service answer it and resumes the execution with the outcome.

use crate::job::{Job, JobView};
use crate::manifest::{find_buddy, lemma_position, position, Buddy, Task, TaskView};
use crate::memory::Memory;
use crate::substitution::{resolve, resolved};
use vstd::prelude::*;

verus! {

/// The most tokens that the completion service may answer a request with.
pub const MAX_OUTPUT_TOKENS: u32 = 512;

/// What the completion service is asked for one task.
#[derive(Debug, PartialEq, Eq)]
pub struct Request {
    /// Who the service is to answer as, and in what form.
    pub persona_context: String,
    /// The task's description with its placeholders resolved.
    pub prompt: String,
    pub max_output_tokens: u32,
}

/// A request, with its strings as sequences of characters.
pub struct RequestView {
    pub persona_context: Seq<char>,
    pub prompt: Seq<char>,
    pub max_output_tokens: u32,
}

impl View for Request {
    type V = RequestView;

    open spec fn view(&self) -> RequestView {
        RequestView {
            persona_context: self.persona_context@,
            prompt: self.prompt@,
            max_output_tokens: self.max_output_tokens,
        }
    }
}

/// Why an execution gave no result.
#[derive(Debug, PartialEq, Eq)]
pub enum ExecutionError {
    /// The completion service failed; the message is the one it gave.
    CompletionService(String),
    /// The job has no task, so nothing was produced.
    EmptyResult,
}

/// The persona context: role, backstory and the guidance on the expected
/// output, joined by full stops.
pub open spec fn persona_context_of(
    role: Seq<char>,
    backstory: Seq<char>,
    expected_output: Seq<char>,
) -> Seq<char> {
    role + "."@ + backstory + "."@ + "Expected outputs : "@ + expected_output
}

/// The request for the task at `index` of `job` when `memory` holds the
/// outputs so far: the persona of the task's buddy, and the task's
/// description resolved with the job's inputs and `memory`.
pub open spec fn request_of(job: JobView, index: int, memory: Seq<(Seq<char>, Seq<char>)>) -> RequestView {
    let task = job.tasks[index];
    let buddy = job.buddies[position(job.buddies, task.buddy).unwrap()];
    RequestView {
        persona_context: persona_context_of(buddy.role, buddy.backstory, task.expected_output),
        prompt: resolved(task.description, job.inputs, memory),
        max_output_tokens: MAX_OUTPUT_TOKENS,
    }
}

/// `memory` holds one output for each of the first `count` of `tasks`, in
/// their order and each under its task's id.
pub open spec fn in_task_order(
    memory: Seq<(Seq<char>, Seq<char>)>,
    tasks: Seq<TaskView>,
    count: int,
) -> bool {
    &&& memory.len() == count
    &&& count <= tasks.len()
    &&& forall|k: int| 0 <= k < count ==> (#[trigger] memory[k]).0 == tasks[k].id
}

/// What a service's answer says: the contents of its choices, one after the
/// other, skipping the choices without content.
pub open spec fn joined(contents: Seq<Option<Seq<char>>>) -> Seq<char>
    decreases contents.len(),
{
    if contents.len() == 0 {
        Seq::empty()
    } else {
        joined(contents.drop_last()) + match contents.last() {
            Some(content) => content,
            None => Seq::empty(),
        }
    }
}

/// The text of a service's answer, given the content of each of its choices.
pub fn reply_text(contents: &Vec<Option<String>>) -> (text: String)
    ensures
        text@ == joined(contents.deep_view()),
{
    let ghost all = contents.deep_view();
    let mut text = String::new();
    let mut i: usize = 0;
    proof {
        assert(all.take(0) =~= Seq::empty());
    }
    while i < contents.len()
        invariant
            i <= contents.len(),
            all == contents.deep_view(),
            text@ == joined(all.take(i as int)),
        decreases contents.len() - i,
    {
        proof {
            assert(all.take(i + 1).drop_last() =~= all.take(i as int));
            assert(all.take(i + 1).last() == contents@[i as int].deep_view());
        }
        match &contents[i] {
            Some(content) => {
                text.append(content.as_str());
            },
            None => {
                assert(text@ + Seq::<char>::empty() =~= text@);
            },
        }
        i += 1;
    }
    proof {
        assert(all.take(contents.len() as int) =~= all);
    }
    text
}

/// The persona context of `task` when `buddy` carries it out.
pub fn persona_context(buddy: &Buddy, task: &Task) -> (context: String)
    ensures
        context@ == persona_context_of(buddy@.role, buddy@.backstory, task@.expected_output),
{
    let mut context = buddy.role.clone();
    context.append(".");
    context.append(buddy.backstory.as_str());
    context.append(".");
    context.append("Expected outputs : ");
    context.append(task.expected_output.as_str());
    context
}

/// An execution that has a task due: it has handed out the task's request
/// and waits for the outcome. The tasks before it have run, and their outputs
/// are in the memory.
#[derive(Debug)]
pub struct Pending<'a> {
    job: &'a Job,
    index: usize,
    memory: Memory,
    request: Request,
}

/// Where an execution stands after a step.
#[derive(Debug)]
pub enum Step<'a> {
    /// A task is due: the caller has its request answered and resumes.
    Call(Pending<'a>),
    /// The execution is over, with the job's result or the reason for none.
    Done(Result<String, ExecutionError>),
}

impl<'a> Pending<'a> {
    #[verifier::type_invariant]
    spec fn consistent(&self) -> bool {
        &&& self.index < self.job@.tasks.len()
        &&& in_task_order(self.memory@, self.job@.tasks, self.index as int)
        &&& self.request@ == request_of(self.job@, self.index as int, self.memory@)
    }

    /// The job that is executed.
    pub closed spec fn job(&self) -> Job {
        *self.job
    }

    /// The index of the task that is due.
    pub closed spec fn index(&self) -> int {
        self.index as int
    }

    /// The outputs recorded so far, oldest first, each under its task's id.
    pub closed spec fn memory(&self) -> Seq<(Seq<char>, Seq<char>)> {
        self.memory@
    }

    /// The execution of `job` has the task at `index` due and holds `memory`.
    pub open spec fn awaits(&self, job: Job, index: int, memory: Seq<(Seq<char>, Seq<char>)>) -> bool {
        &&& self.job() == job
        &&& self.index() == index
        &&& self.memory() == memory
    }

    /// The index of the task that is due.
    pub fn task_index(&self) -> (index: usize)
        ensures
            index == self.index(),
            index < self.job()@.tasks.len(),
    {
        proof {
            use_type_invariant(self);
        }
        self.index
    }

    /// The request that the completion service is to answer for the task
    /// that is due.
    pub fn request(&self) -> (request: &Request)
        ensures
            request@ == request_of(self.job()@, self.index(), self.memory()),
    {
        proof {
            use_type_invariant(self);
        }
        &self.request
    }

    /// The outputs of the tasks that have run: one for each task before the
    /// one that is due, in the order of the tasks, each under its task's id.
    pub fn recorded(&self) -> (memory: &Memory)
        ensures
            memory@ == self.memory(),
            in_task_order(self.memory(), self.job()@.tasks, self.index()),
    {
        proof {
            use_type_invariant(self);
        }
        &self.memory
    }

    /// Goes on with the outcome of the request. A failure of the service
    /// ends the execution with its message. An answer is recorded under the
    /// id of the task that was due; then the next task is due, or, after the
    /// last task, the execution ends with the output recorded last.
    pub fn resume(self, outcome: Result<String, String>) -> (step: Step<'a>)
        ensures
            match outcome {
                Err(message) => step matches Step::Done(
                    Err(ExecutionError::CompletionService(reason)),
                ) && reason@ == message@,
                Ok(output) => {
                    let memory = self.memory().push(
                        (self.job()@.tasks[self.index()].id, output@),
                    );
                    if self.index() + 1 < self.job()@.tasks.len() {
                        step matches Step::Call(next) && next.awaits(
                            self.job(),
                            self.index() + 1,
                            memory,
                        )
                    } else {
                        step matches Step::Done(Ok(result)) && result@ == memory.last().1
                    }
                },
            },
    {
        proof {
            use_type_invariant(&self);
        }
        let Pending { job, index, memory, request: _ } = self;
        match outcome {
            Err(message) => Step::Done(Err(ExecutionError::CompletionService(message))),
            Ok(output) => {
                let tasks = job.tasks();
                assert(tasks.deep_view().len() == tasks.len());
                let mut memory = memory;
                memory.record(tasks[index].id.clone(), output);
                if index + 1 < tasks.len() {
                    Step::Call(prepare(job, index + 1, memory))
                } else {
                    Step::Done(finish(&memory))
                }
            },
        }
    }
}

/// The result of an execution that has run every task: the output recorded
/// last, or the lack of any.
fn finish(memory: &Memory) -> (res: Result<String, ExecutionError>)
    ensures
        match res {
            Ok(result) => memory@.len() > 0 && result@ == memory@.last().1,
            Err(e) => memory@.len() == 0 && e == ExecutionError::EmptyResult,
        },
{
    match memory.latest() {
        Some(output) => Ok(output.clone()),
        None => Err(ExecutionError::EmptyResult),
    }
}

/// Makes the task at `index` due: looks up its buddy and resolves its
/// description with the job's inputs and what `memory` holds.
fn prepare<'a>(job: &'a Job, index: usize, memory: Memory) -> (pending: Pending<'a>)
    requires
        index < job@.tasks.len(),
        in_task_order(memory@, job@.tasks, index as int),
    ensures
        pending.awaits(*job, index as int, memory@),
{
    let tasks = job.tasks();
    let buddies = job.buddies();
    let task = &tasks[index];
    proof {
        lemma_position(job@.buddies, task@.buddy);
        assert(task@ == job@.tasks[index as int]);
    }
    let buddy = match find_buddy(buddies, &task.buddy) {
        Some(b) => &buddies[b],
        None => vstd::pervasive::unreached(),
    };
    let request = Request {
        persona_context: persona_context(buddy, task),
        prompt: resolve(task.description.as_str(), job.inputs(), memory.snapshot()),
        max_output_tokens: MAX_OUTPUT_TOKENS,
    };
    Pending { job, index, memory, request }
}

impl Job {
    /// Starts an execution. A job without tasks ends at once, with
    /// [`ExecutionError::EmptyResult`]; else the first task is due, with
    /// nothing recorded yet.
    pub fn execute(&self) -> (step: Step<'_>)
        ensures
            match step {
                Step::Done(outcome) => self@.tasks.len() == 0 && outcome == Err::<
                    String,
                    ExecutionError,
                >(ExecutionError::EmptyResult),
                Step::Call(pending) => self@.tasks.len() > 0 && pending.awaits(
                    *self,
                    0,
                    Seq::empty(),
                ),
            },
    {
        let memory = Memory::new();
        if self.tasks().len() == 0 {
            Step::Done(finish(&memory))
        } else {
            Step::Call(prepare(self, 0, memory))
        }
    }
}

} // verus!
