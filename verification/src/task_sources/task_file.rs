//! Files of tasks, and what was done to them.

use crate::task::Task;
use vstd::prelude::*;
use vstd::string::*;

verus! {

/// A file that holds tasks as JSON, one per line. Nothing is assumed of what it does. An error
/// is a message.
pub trait TaskFile: Send {
    /// Creates the directory of the file.
    fn create_directory(&self) -> Result<(), String>;

    /// Waits until others may read the file too, but not write it.
    fn lock_shared(&self) -> Result<(), String>;

    /// Waits until nobody else may read or write the file.
    fn lock_exclusive(&self) -> Result<(), String>;

    /// Lets others use the file again.
    fn unlock(&self);

    /// The contents of the file; none where there is no file.
    fn read(&self) -> Result<Option<String>, String>;

    /// Replaces the contents of the file.
    fn write(&self, content: &str) -> Result<(), String>;

    /// The task that a line holds; none where it is malformed.
    fn parse_task_line(&self, line: &str) -> Option<Task>;

    /// A task as a line.
    fn encode_task(&self, task: &Task) -> Result<String, String>;
}

/// Something that was done to a file, and what came of it.
pub enum FileStep {
    /// The directory of the file was to be created.
    CreateDirectory(Result<(), String>),
    /// A lock was asked for that lets others read.
    LockShared(Result<(), String>),
    /// A lock was asked for that keeps all others out.
    LockExclusive(Result<(), String>),
    /// The lock was given up.
    Unlock,
    /// The contents were read.
    Read(Result<Option<String>, String>),
    /// The contents were to be replaced by the text.
    Write(Seq<char>, Result<(), String>),
}

/// Whether the file was given the contents to write, with the result.
pub open spec fn given_to_write<F: TaskFile>(
    file: &F,
    content: &str,
    done: Result<(), String>,
) -> bool {
    call_ensures(F::write, (file, content), done)
}

/// Whether a step is one that the file took: what came of it is what the file returned.
pub open spec fn step_of<F: TaskFile>(file: &F, step: FileStep) -> bool {
    match step {
        FileStep::CreateDirectory(done) => call_ensures(F::create_directory, (file,), done),
        FileStep::LockShared(done) => call_ensures(F::lock_shared, (file,), done),
        FileStep::LockExclusive(done) => call_ensures(F::lock_exclusive, (file,), done),
        FileStep::Unlock => call_ensures(F::unlock, (file,), ()),
        FileStep::Read(found) => call_ensures(F::read, (file,), found),
        FileStep::Write(text, done) => exists|content: &str|
            content@ == text && #[trigger] given_to_write(file, content, done),
    }
}

/// A file, with a record of every step that was taken on it. The file is within reach of this
/// module alone, so nothing is done to it that is not recorded.
pub struct RecordedFile<F: TaskFile> {
    file: F,
    record: Ghost<Seq<FileStep>>,
}

impl<F: TaskFile> RecordedFile<F> {
    /// The file.
    pub closed spec fn port(&self) -> F {
        self.file
    }

    /// What was done to the file, from the first step on.
    pub closed spec fn steps(&self) -> Seq<FileStep> {
        self.record@
    }

    /// Whether this is the file after one more step.
    pub open spec fn stepped(&self, before: &Self, step: FileStep) -> bool {
        &&& self.port() == before.port()
        &&& self.steps() == before.steps().push(step)
        &&& step_of(&before.port(), step)
    }

    /// Whether this is the file after the given steps, taken in this order, and no others.
    pub open spec fn after_steps(&self, before: &Self, steps: Seq<FileStep>) -> bool {
        &&& self.port() == before.port()
        &&& self.steps() == before.steps() + steps
        &&& forall|i: int| 0 <= i < steps.len() ==> step_of(&before.port(), #[trigger] steps[i])
    }

    /// A file that nothing was done to.
    pub fn new(file: F) -> (r: Self)
        ensures
            r.port() == file,
            r.steps() == Seq::<FileStep>::empty(),
    {
        RecordedFile { file, record: Ghost(Seq::empty()) }
    }

    /// Creates the directory of the file.
    pub fn create_directory(&mut self) -> (r: Result<(), String>)
        ensures
            final(self).stepped(old(self), FileStep::CreateDirectory(r)),
    {
        let done = self.file.create_directory();
        self.record = Ghost(self.record@.push(FileStep::CreateDirectory(done)));
        done
    }

    /// Waits until others may read the file too, but not write it.
    pub fn lock_shared(&mut self) -> (r: Result<(), String>)
        ensures
            final(self).stepped(old(self), FileStep::LockShared(r)),
    {
        let done = self.file.lock_shared();
        self.record = Ghost(self.record@.push(FileStep::LockShared(done)));
        done
    }

    /// Waits until nobody else may read or write the file.
    pub fn lock_exclusive(&mut self) -> (r: Result<(), String>)
        ensures
            final(self).stepped(old(self), FileStep::LockExclusive(r)),
    {
        let done = self.file.lock_exclusive();
        self.record = Ghost(self.record@.push(FileStep::LockExclusive(done)));
        done
    }

    /// Lets others use the file again.
    pub fn unlock(&mut self)
        ensures
            final(self).stepped(old(self), FileStep::Unlock),
    {
        self.file.unlock();
        self.record = Ghost(self.record@.push(FileStep::Unlock));
    }

    /// The contents of the file; none where there is no file.
    pub fn read(&mut self) -> (r: Result<Option<String>, String>)
        ensures
            final(self).stepped(old(self), FileStep::Read(r)),
    {
        let found = self.file.read();
        self.record = Ghost(self.record@.push(FileStep::Read(found)));
        found
    }

    /// Replaces the contents of the file.
    pub fn write(&mut self, content: &str) -> (r: Result<(), String>)
        ensures
            final(self).stepped(old(self), FileStep::Write(content@, r)),
    {
        let done = self.file.write(content);
        self.record = Ghost(self.record@.push(FileStep::Write(content@, done)));
        assert(given_to_write(&self.file, content, done));
        done
    }

    /// The task that a line holds; none where it is malformed.
    pub fn parse_task_line(&self, line: &str) -> (r: Option<Task>)
        ensures
            call_ensures(F::parse_task_line, (&self.port(), line), r),
    {
        self.file.parse_task_line(line)
    }

    /// A task as a line.
    pub fn encode_task(&self, task: &Task) -> (r: Result<String, String>)
        ensures
            call_ensures(F::encode_task, (&self.port(), task), r),
    {
        self.file.encode_task(task)
    }
}

/// A step by itself.
pub proof fn lemma_one_step<F: TaskFile>(start: RecordedFile<F>, a: FileStep, end: RecordedFile<F>)
    requires
        end.stepped(&start, a),
    ensures
        end.after_steps(&start, seq![a]),
{
    assert(end.steps() =~= start.steps() + seq![a]);
}

/// Three steps in a row.
pub proof fn lemma_three_steps<F: TaskFile>(
    start: RecordedFile<F>,
    a: FileStep,
    first: RecordedFile<F>,
    b: FileStep,
    second: RecordedFile<F>,
    c: FileStep,
    end: RecordedFile<F>,
)
    requires
        first.stepped(&start, a),
        second.stepped(&first, b),
        end.stepped(&second, c),
    ensures
        end.after_steps(&start, seq![a, b, c]),
{
    assert(end.steps() =~= start.steps() + seq![a, b, c]);
}

/// Four steps in a row.
pub proof fn lemma_four_steps<F: TaskFile>(
    start: RecordedFile<F>,
    a: FileStep,
    first: RecordedFile<F>,
    b: FileStep,
    second: RecordedFile<F>,
    c: FileStep,
    third: RecordedFile<F>,
    d: FileStep,
    end: RecordedFile<F>,
)
    requires
        first.stepped(&start, a),
        second.stepped(&first, b),
        third.stepped(&second, c),
        end.stepped(&third, d),
    ensures
        end.after_steps(&start, seq![a, b, c, d]),
{
    assert(end.steps() =~= start.steps() + seq![a, b, c, d]);
}

} // verus!
