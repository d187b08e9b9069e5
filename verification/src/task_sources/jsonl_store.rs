//! The JSONL task source at work on a file.

use crate::clock::{utc_now, Instant};
use crate::config;
use crate::config::ConnectorConfig;
use crate::pattern;
use crate::task;
use crate::task::{Task, TaskView};
use crate::task_laws;
use crate::task_source;
use crate::task_source::{
    from_outside, ErrorView, TaskSource, TaskSourceError, TaskSourceResult,
};
use crate::task_sources::jsonl;
use crate::task_sources::jsonl::{
    file_content, task_lines, tasks_of_lines, JsonlTaskSource, Mutation,
};
use crate::task_sources::task_file;
use crate::task_sources::task_file::{FileStep, RecordedFile, TaskFile};
use crate::text::glue;
use vstd::prelude::*;
use vstd::string::*;

verus! {

/// Whether the file read the line as the given task.
pub open spec fn line_parsed<F: TaskFile>(file: &F, line: &str, t: Option<Task>) -> bool {
    call_ensures(F::parse_task_line, (file, line), t)
}

/// Whether the file read a line with the given text as the given task.
pub open spec fn text_parsed<F: TaskFile>(file: &F, text: Seq<char>, t: Option<Task>) -> bool {
    exists|line: &str| line@ == text && #[trigger] line_parsed(file, line, t)
}

/// Whether the file read each line of the contents that is not blank, and the tasks are those
/// that were read. A file that does not exist holds none.
pub open spec fn tasks_read<F: TaskFile>(
    file: &F,
    content: Option<String>,
    parsed: Seq<Option<Task>>,
    tasks: Seq<TaskView>,
) -> bool {
    match content {
        None => tasks == Seq::<TaskView>::empty(),
        Some(c) => {
            &&& parsed.len() == jsonl::stored_lines(c@).len()
            &&& forall|i: int|
                0 <= i < parsed.len() ==> text_parsed(
                    file,
                    jsonl::stored_lines(c@)[i],
                    #[trigger] parsed[i],
                )
            &&& tasks == jsonl::well_formed(parsed)
        },
    }
}

/// Whether the tasks are those that the contents of the file hold.
pub open spec fn holds_tasks<F: TaskFile>(
    file: &F,
    content: Option<String>,
    tasks: Seq<TaskView>,
) -> bool {
    exists|parsed: Seq<Option<Task>>| #[trigger] tasks_read(file, content, parsed, tasks)
}

/// Whether the file was read, and the tasks are those that it holds.
pub open spec fn read_from<F: TaskFile>(
    before: &RecordedFile<F>,
    after: &RecordedFile<F>,
    tasks: Seq<TaskView>,
) -> bool {
    exists|content: Option<String>| #[trigger]
        holds_tasks(&before.port(), content, tasks) && after.stepped(
            before,
            FileStep::Read(Ok(content)),
        )
}

/// Whether the file encoded the tasks as the lines.
pub open spec fn encoded_as<F: TaskFile>(file: &F, tasks: Seq<Task>, lines: Seq<String>) -> bool {
    lines.len() == tasks.len() && forall|i: int|
        0 <= i < lines.len() ==> call_ensures(
            F::encode_task,
            (file, &tasks[i]),
            Ok(#[trigger] lines[i]),
        )
}

/// Whether the text is that of a file that holds the tasks, one per line.
pub open spec fn encoded_text<F: TaskFile>(file: &F, tasks: Seq<Task>, text: Seq<char>) -> bool {
    exists|lines: Seq<String>| #[trigger]
        encoded_as(file, tasks, lines) && text == jsonl::file_text(pattern::texts(lines))
}

/// Whether the text of the tasks was written to the file, with the result.
pub open spec fn written_to<F: TaskFile>(
    before: &RecordedFile<F>,
    tasks: Seq<Task>,
    done: Result<(), String>,
    after: &RecordedFile<F>,
) -> bool {
    exists|text: Seq<char>| #[trigger]
        encoded_text(&before.port(), tasks, text) && after.stepped(
            before,
            FileStep::Write(text, done),
        )
}

/// Whether the file failed to encode the task, with the message.
pub open spec fn not_encoded<F: TaskFile>(file: &F, t: Task, m: String) -> bool {
    call_ensures(F::encode_task, (file, &t), Err(m))
}

/// Whether encoding the task ended in the error.
pub open spec fn encoding_failed<F: TaskFile>(file: &F, t: Task, e: TaskSourceError) -> bool {
    exists|m: String| #[trigger]
        not_encoded(file, t, m) && e@ == ErrorView::Other("task serialization failed: "@ + m@)
}

/// Whether encoding one of the tasks ended in the error.
pub open spec fn some_not_encoded<F: TaskFile>(
    file: &F,
    tasks: Seq<Task>,
    e: TaskSourceError,
) -> bool {
    exists|i: int| 0 <= i < tasks.len() && encoding_failed(file, #[trigger] tasks[i], e)
}

/// What writing the tasks comes to. Where one of them cannot be encoded nothing is done to the
/// file.
pub open spec fn write_result<F: TaskFile>(
    before: &RecordedFile<F>,
    tasks: Seq<Task>,
    after: &RecordedFile<F>,
    r: TaskSourceResult<()>,
) -> bool {
    match r {
        Ok(_) => written_to(before, tasks, Ok(()), after),
        Err(e) => {
            ||| e is Other && written_to(before, tasks, Err(e->Other_0), after)
            ||| after == before && some_not_encoded(&before.port(), tasks, e)
        },
    }
}

/// Reads the tasks from a file. A file that does not exist holds none, and lines that are
/// blank or malformed are passed over.
pub fn read_tasks_from_file<F: TaskFile>(
    file: &mut RecordedFile<F>,
) -> (r: TaskSourceResult<Vec<Task>>)
    ensures
        match r {
            Ok(tasks) => read_from(old(file), final(file), task::views(tasks@)),
            Err(e) => e is Other && final(file).stepped(
                old(file),
                FileStep::Read(Err(e->Other_0)),
            ),
        },
{
    let ghost before = *file;
    let ghost port = file.port();
    let found = file.read();
    match found {
        Err(m) => Err(TaskSourceError::Other(m)),
        Ok(None) => {
            let none: Vec<Task> = Vec::new();
            proof {
                assert(task::views(none@) =~= Seq::<TaskView>::empty());
                assert(tasks_read(&port, None, Seq::empty(), task::views(none@)));
                assert(holds_tasks(&before.port(), None, task::views(none@)));
            }
            Ok(none)
        },
        Ok(Some(content)) => {
            let lines = task_lines(content.as_str());
            let ghost texts = jsonl::stored_lines(content@);
            let mut parsed: Vec<Option<Task>> = Vec::new();
            let mut i: usize = 0;
            while i < lines.len()
                invariant
                    i <= lines@.len(),
                    port == file.port(),
                    texts == pattern::texts(lines@),
                    parsed@.len() == i,
                    forall|j: int|
                        0 <= j < i ==> text_parsed(&port, texts[j], #[trigger] parsed@[j]),
                decreases lines@.len() - i,
            {
                let line = lines[i].as_str();
                let t = file.parse_task_line(line);
                assert(line_parsed(&port, line, t));
                assert(text_parsed(&port, texts[i as int], t));
                parsed.push(t);
                i = i + 1;
            }
            let tasks = tasks_of_lines(&parsed);
            proof {
                assert(tasks_read(&port, Some(content), parsed@, task::views(tasks@)));
                assert(holds_tasks(&before.port(), Some(content), task::views(tasks@)));
            }
            Ok(tasks)
        },
    }
}

/// Writes the tasks to a file, one per line. Nothing is written where a task cannot be
/// encoded.
pub fn write_tasks_to_file<F: TaskFile>(
    file: &mut RecordedFile<F>,
    tasks: &Vec<Task>,
) -> (r: TaskSourceResult<()>)
    ensures
        write_result(old(file), tasks@, final(file), r),
{
    let ghost before = *file;
    let ghost port = file.port();
    let mut lines: Vec<String> = Vec::new();
    let mut i: usize = 0;
    while i < tasks.len()
        invariant
            i <= tasks@.len(),
            *file == before,
            before == *old(file),
            port == file.port(),
            encoded_as(&port, tasks@.take(i as int), lines@),
        decreases tasks@.len() - i,
    {
        match file.encode_task(&tasks[i]) {
            Ok(line) => {
                let ghost earlier = lines@;
                lines.push(line);
                proof {
                    assert(tasks@.take(i + 1)[i as int] == tasks@[i as int]);
                    assert forall|j: int| 0 <= j < lines@.len() implies call_ensures(
                        F::encode_task,
                        (&port, &tasks@.take(i + 1)[j]),
                        Ok(#[trigger] lines@[j]),
                    ) by {
                        if j < i {
                            assert(lines@[j] == earlier[j]);
                            assert(tasks@.take(i + 1)[j] == tasks@.take(i as int)[j]);
                        }
                    }
                }
            },
            Err(m) => {
                assert(not_encoded(&port, tasks@[i as int], m));
                let e = TaskSourceError::Other(glue("task serialization failed: ", m.as_str()));
                assert(encoding_failed(&port, tasks@[i as int], e));
                assert(some_not_encoded(&before.port(), tasks@, e));
                return Err(e);
            },
        }
        i = i + 1;
    }
    assert(tasks@.take(i as int) =~= tasks@);
    let content = file_content(&lines);
    let done = file.write(content.as_str());
    let ghost result = done;
    assert(encoded_text(&before.port(), tasks@, content@));
    assert(done matches Ok(u) ==> u == ());
    assert(written_to(&before, tasks@, result, file));
    from_outside(done)
}

/// Whether a line holds no task: it is blank, or the file reads it as malformed.
pub open spec fn holds_no_task<F: TaskFile>(file: &F) -> spec_fn(Seq<char>) -> bool {
    |l: Seq<char>|
        !jsonl::not_blank()(l) || forall|t: Option<Task>| #[trigger] text_parsed(file, l, t) ==> t
            is None
}

/// Whether the file reads the line as the task, whenever it reads it.
pub open spec fn reads_as<F: TaskFile>(file: &F, line: Seq<char>, task: TaskView) -> bool {
    forall|t: Option<Task>| #[trigger]
        text_parsed(file, line, t) ==> t is Some && t->0@ == task
}

/// Whether the file reads what it encodes: a task is encoded as a line that can be told from
/// its neighbours, and that is read as the task.
pub open spec fn reads_what_it_encodes<F: TaskFile>(file: &F) -> bool {
    forall|t: Task, line: String| #[trigger]
        call_ensures(F::encode_task, (file, &t), Ok(line)) ==> jsonl::storable(line@) && reads_as(
            file,
            line@,
            t@,
        )
}

/// How the tasks among parsed lines follow from the lines, where they stand for tasks with
/// others between them.
proof fn lemma_tasks_among_lines<F: TaskFile>(
    file: &F,
    all: Seq<Seq<char>>,
    lines: Seq<Seq<char>>,
    tasks: Seq<TaskView>,
    parsed: Seq<Option<Task>>,
)
    requires
        lines.len() == tasks.len(),
        forall|i: int|
            0 <= i < lines.len() ==> jsonl::storable(#[trigger] lines[i]) && reads_as(
                file,
                lines[i],
                tasks[i],
            ),
        jsonl::interspersed(all, lines, holds_no_task(file)),
        parsed.len() == all.filter(jsonl::not_blank()).len(),
        forall|i: int|
            0 <= i < parsed.len() ==> text_parsed(
                file,
                all.filter(jsonl::not_blank())[i],
                #[trigger] parsed[i],
            ),
    ensures
        jsonl::well_formed(parsed) == tasks,
    decreases all.len(),
{
    let p = jsonl::not_blank();
    reveal(Seq::filter);
    if all.len() == 0 {
        assert(all.filter(p) =~= Seq::<Seq<char>>::empty());
        assert(jsonl::well_formed(parsed) =~= tasks);
    } else {
        let init = all.drop_last();
        let l = all.last();
        let kept = all.filter(p);
        if p(l) {
            assert(kept == init.filter(p).push(l));
            let before = parsed.drop_last();
            let t = parsed.last();
            assert(text_parsed(file, kept[parsed.len() - 1], parsed[parsed.len() - 1]));
            assert(text_parsed(file, l, t));
            assert forall|i: int| 0 <= i < before.len() implies text_parsed(
                file,
                init.filter(p)[i],
                #[trigger] before[i],
            ) by {
                assert(text_parsed(file, kept[i], parsed[i]));
            }
            if lines.len() > 0 && l == lines.last() && jsonl::interspersed(
                init,
                lines.drop_last(),
                holds_no_task(file),
            ) {
                let n = lines.len() - 1;
                assert(reads_as(file, lines[n], tasks[n]));
                assert forall|i: int| 0 <= i < n implies jsonl::storable(
                    #[trigger] lines.drop_last()[i],
                ) && reads_as(file, lines.drop_last()[i], tasks.drop_last()[i]) by {
                    assert(jsonl::storable(lines[i]));
                }
                lemma_tasks_among_lines(file, init, lines.drop_last(), tasks.drop_last(), before);
                assert(tasks.drop_last().push(tasks.last()) =~= tasks);
            } else {
                assert(holds_no_task(file)(l));
                assert(t is None);
                lemma_tasks_among_lines(file, init, lines, tasks, before);
            }
        } else {
            assert(kept == init.filter(p));
            if lines.len() > 0 && l == lines.last() {
                assert(jsonl::storable(lines[lines.len() - 1]));
            }
            lemma_tasks_among_lines(file, init, lines, tasks, parsed);
        }
    }
}

/// Tasks that were written to a file are read back from it, all of them and in order, also
/// where blank or malformed lines were put between their lines: for every file that reads what
/// it encodes.
pub proof fn written_tasks_read_back<F: TaskFile>(
    file: &F,
    tasks: Seq<Task>,
    lines: Seq<String>,
    content: String,
    parsed: Seq<Option<Task>>,
    read: Seq<TaskView>,
)
    requires
        reads_what_it_encodes(file),
        encoded_as(file, tasks, lines),
        jsonl::interspersed(
            jsonl::lines_of(content@),
            pattern::texts(lines),
            holds_no_task(file),
        ),
        tasks_read(file, Some(content), parsed, read),
    ensures
        read == task::views(tasks),
{
    let texts = pattern::texts(lines);
    assert forall|i: int| 0 <= i < texts.len() implies jsonl::storable(#[trigger] texts[i])
        && reads_as(file, texts[i], task::views(tasks)[i]) by {
        assert(call_ensures(F::encode_task, (file, &tasks[i]), Ok(lines[i])));
    }
    lemma_tasks_among_lines(
        file,
        jsonl::lines_of(content@),
        texts,
        task::views(tasks),
        parsed,
    );
}

/// Tasks that were written to a file are read back from it where the file holds what was
/// written: for every file that reads what it encodes.
pub proof fn written_file_reads_back<F: TaskFile>(
    file: &F,
    tasks: Seq<Task>,
    text: Seq<char>,
    content: String,
    read: Seq<TaskView>,
)
    requires
        reads_what_it_encodes(file),
        encoded_text(file, tasks, text),
        content@ == text,
        holds_tasks(file, Some(content), read),
    ensures
        read == task::views(tasks),
{
    let lines = choose|lines: Seq<String>| #[trigger]
        encoded_as(file, tasks, lines) && text == jsonl::file_text(pattern::texts(lines));
    let parsed = choose|parsed: Seq<Option<Task>>| #[trigger]
        tasks_read(file, Some(content), parsed, read);
    let texts = pattern::texts(lines);
    assert forall|i: int| 0 <= i < texts.len() implies jsonl::storable(#[trigger] texts[i]) by {
        assert(call_ensures(F::encode_task, (file, &tasks[i]), Ok(lines[i])));
    }
    jsonl::written_lines_read_back(texts);
    jsonl::lines_stand_alone(texts, holds_no_task(file));
    written_tasks_read_back(file, tasks, lines, content, parsed, read);
}

/// The JSONL task source, with the file that it keeps its tasks in.
pub struct JsonlStore<F: TaskFile> {
    source: JsonlTaskSource,
    file: RecordedFile<F>,
}

/// Whether the source holds what a change, made at some time to the tasks that the contents of
/// the file hold, makes of them, with the given reply.
pub open spec fn change_held<F: TaskFile>(
    file: &F,
    m: Mutation,
    content: Option<String>,
    after: JsonlTaskSource,
    reply: Option<TaskView>,
) -> bool {
    exists|base: Seq<TaskView>, at: Instant|
        at.is_valid() && holds_tasks(file, content, base) && #[trigger] task_source::carried_out(
            base,
            jsonl::change_at(m, at),
            after.held(),
            reply,
        )
}

/// Whether a change was made to what the file held, and the changed tasks were written back
/// with the result. In between the file was locked, and nothing else was done to it.
pub open spec fn change_written<F: TaskFile>(
    before: JsonlStore<F>,
    m: Mutation,
    content: Option<String>,
    text: Seq<char>,
    done: Result<(), String>,
    after: JsonlStore<F>,
    reply: Option<TaskView>,
) -> bool {
    &&& change_held(&before.port(), m, content, after.inner(), reply)
    &&& encoded_text(&before.port(), after.inner().values(), text)
    &&& after.recorded().after_steps(
        &before.recorded(),
        seq![
            FileStep::LockExclusive(Ok(())),
            FileStep::Read(Ok(content)),
            FileStep::Write(text, done),
            FileStep::Unlock,
        ],
    )
}

/// Whether a change was made to what the file held, but could not be encoded, and was not
/// written.
pub open spec fn change_not_encoded<F: TaskFile>(
    before: JsonlStore<F>,
    m: Mutation,
    content: Option<String>,
    after: JsonlStore<F>,
    reply: Option<TaskView>,
    e: TaskSourceError,
) -> bool {
    &&& change_held(&before.port(), m, content, after.inner(), reply)
    &&& some_not_encoded(&before.port(), after.inner().values(), e)
    &&& after.recorded().after_steps(
        &before.recorded(),
        seq![FileStep::LockExclusive(Ok(())), FileStep::Read(Ok(content)), FileStep::Unlock],
    )
}

/// Whether a change was made and written back.
pub open spec fn change_made<F: TaskFile>(
    before: JsonlStore<F>,
    m: Mutation,
    after: JsonlStore<F>,
    reply: Option<TaskView>,
) -> bool {
    exists|content: Option<String>, text: Seq<char>| #[trigger]
        change_written(before, m, content, text, Ok(()), after, reply)
}

/// Whether a change ended in the error. Where the file could not be locked or read, nothing is
/// changed and nothing is written. Where the changed tasks could not be encoded or written,
/// they are held all the same.
pub open spec fn change_failed<F: TaskFile>(
    before: JsonlStore<F>,
    m: Mutation,
    after: JsonlStore<F>,
    e: TaskSourceError,
) -> bool {
    ||| e is Other && after.inner() == before.inner() && after.recorded().after_steps(
        &before.recorded(),
        seq![FileStep::LockExclusive(Err(e->Other_0))],
    )
    ||| e is Other && after.inner() == before.inner() && after.recorded().after_steps(
        &before.recorded(),
        seq![
            FileStep::LockExclusive(Ok(())),
            FileStep::Read(Err(e->Other_0)),
            FileStep::Unlock,
        ],
    )
    ||| exists|content: Option<String>, reply: Option<TaskView>| #[trigger]
        change_not_encoded(before, m, content, after, reply, e)
    ||| e is Other && exists|content: Option<String>, text: Seq<char>, reply: Option<TaskView>|
        #[trigger]
        change_written(before, m, content, text, Err(e->Other_0), after, reply)
}

/// What a change comes to. The file that the store is on stays the same.
pub open spec fn change_result<F: TaskFile>(
    before: JsonlStore<F>,
    m: Mutation,
    after: JsonlStore<F>,
    r: TaskSourceResult<Option<Task>>,
) -> bool {
    &&& after.port() == before.port()
    &&& after.inner().file() == before.inner().file()
    &&& match r {
        Ok(t) => change_made(before, m, after, task::opt_view(t)),
        Err(e) => change_failed(before, m, after, e),
    }
}

/// What a change that always has a task to reply with comes to.
pub open spec fn task_result<F: TaskFile>(
    before: JsonlStore<F>,
    m: Mutation,
    after: JsonlStore<F>,
    r: TaskSourceResult<Task>,
) -> bool {
    &&& after.port() == before.port()
    &&& after.inner().file() == before.inner().file()
    &&& match r {
        Ok(t) => change_made(before, m, after, Some(t@)),
        Err(e) => change_failed(before, m, after, e),
    }
}

/// What closing a task comes to.
pub open spec fn close_result<F: TaskFile>(
    before: JsonlStore<F>,
    id: Seq<char>,
    after: JsonlStore<F>,
    r: TaskSourceResult<Option<Task>>,
) -> bool {
    exists|s: String| s@ == id && #[trigger] change_result(before, Mutation::Close(s), after, r)
}

/// What starting a task comes to.
pub open spec fn start_result<F: TaskFile>(
    before: JsonlStore<F>,
    id: Seq<char>,
    after: JsonlStore<F>,
    r: TaskSourceResult<Option<Task>>,
) -> bool {
    exists|s: String| s@ == id && #[trigger] change_result(before, Mutation::Start(s), after, r)
}

/// What failing a task comes to.
pub open spec fn fail_result<F: TaskFile>(
    before: JsonlStore<F>,
    id: Seq<char>,
    after: JsonlStore<F>,
    r: TaskSourceResult<Option<Task>>,
) -> bool {
    exists|s: String| s@ == id && #[trigger] change_result(before, Mutation::Fail(s), after, r)
}

/// What reopening a task comes to.
pub open spec fn reopen_result<F: TaskFile>(
    before: JsonlStore<F>,
    id: Seq<char>,
    after: JsonlStore<F>,
    r: TaskSourceResult<Option<Task>>,
) -> bool {
    exists|s: String| s@ == id && #[trigger] change_result(before, Mutation::Reopen(s), after, r)
}

/// Whether the directory of the file was to be created, with the result, and nothing else was
/// done to the file.
pub open spec fn directory_created<F: TaskFile>(
    before: JsonlStore<F>,
    done: Result<(), String>,
    after: JsonlStore<F>,
) -> bool {
    after.recorded().after_steps(&before.recorded(), seq![FileStep::CreateDirectory(done)])
}

/// What set-up comes to: the directory of the file is created, and nothing else is done.
pub open spec fn setup_result<F: TaskFile>(
    before: JsonlStore<F>,
    after: JsonlStore<F>,
    r: TaskSourceResult<()>,
) -> bool {
    after.inner() == before.inner() && exists|done: Result<(), String>| #[trigger]
        directory_created(before, done, after) && r == task_source::outside_result(done)
}

/// Whether the tasks are those that the file held, which was read while it was locked against
/// writing.
pub open spec fn tasks_refreshed<F: TaskFile>(
    before: JsonlStore<F>,
    content: Option<String>,
    after: JsonlStore<F>,
) -> bool {
    &&& holds_tasks(&before.port(), content, after.inner().held())
    &&& after.recorded().after_steps(
        &before.recorded(),
        seq![FileStep::LockShared(Ok(())), FileStep::Read(Ok(content)), FileStep::Unlock],
    )
}

/// What a refresh comes to: the tasks are those that the file held, or the file could not be
/// locked or read and the tasks stay as they were.
pub open spec fn refresh_result<F: TaskFile>(
    before: JsonlStore<F>,
    after: JsonlStore<F>,
    r: TaskSourceResult<()>,
) -> bool {
    match r {
        Ok(_) => after.inner().file() == before.inner().file() && exists|content: Option<String>|
            #[trigger]
            tasks_refreshed(before, content, after),
        Err(e) => e is Other && after.inner() == before.inner() && {
            ||| after.recorded().after_steps(
                &before.recorded(),
                seq![FileStep::LockShared(Err(e->Other_0))],
            )
            ||| after.recorded().after_steps(
                &before.recorded(),
                seq![
                    FileStep::LockShared(Ok(())),
                    FileStep::Read(Err(e->Other_0)),
                    FileStep::Unlock,
                ],
            )
        },
    }
}

/// Whether the store was opened with the tasks that the file held, which was read while it was
/// locked against writing.
pub open spec fn opened_with<F: TaskFile>(
    file: F,
    content: Option<String>,
    s: JsonlStore<F>,
) -> bool {
    &&& s.port() == file
    &&& s.recorded().steps() == seq![
        FileStep::LockShared(Ok(())),
        FileStep::Read(Ok(content)),
        FileStep::Unlock,
    ]
    &&& task_file::step_of(&file, FileStep::LockShared(Ok(())))
    &&& task_file::step_of(&file, FileStep::Read(Ok(content)))
    &&& task_file::step_of(&file, FileStep::Unlock)
    &&& holds_tasks(&file, content, s.inner().held())
}

/// Whether opening a store ended in the error: the file could not be locked, or it could not be
/// read.
pub open spec fn opening_failed<F: TaskFile>(file: &F, e: TaskSourceError) -> bool {
    ||| e is Other && task_file::step_of(file, FileStep::LockShared(Err(e->Other_0)))
    ||| e is Other && task_file::step_of(file, FileStep::LockShared(Ok(())))
        && task_file::step_of(file, FileStep::Read(Err(e->Other_0))) && task_file::step_of(
        file,
        FileStep::Unlock,
    )
}

impl<F: TaskFile> JsonlStore<F> {
    /// The task source in memory.
    pub closed spec fn inner(&self) -> JsonlTaskSource {
        self.source
    }

    /// The file, with what was done to it.
    pub closed spec fn recorded(&self) -> RecordedFile<F> {
        self.file
    }

    /// The file.
    pub open spec fn port(&self) -> F {
        self.recorded().port()
    }

    /// Opens the task source of a configuration on its file, and reads the tasks under a
    /// shared lock.
    pub fn from_config(
        config: &ConnectorConfig,
        workspace_root: &str,
        file: F,
    ) -> (r: TaskSourceResult<Self>)
        ensures
            match r {
                Ok(s) => {
                    &&& s.inner().filter() is None
                    &&& s.inner().file() == jsonl::tasks_path(
                        config::config_text(*config),
                        workspace_root@,
                    )
                    &&& exists|content: Option<String>| #[trigger] opened_with(file, content, s)
                },
                Err(e) => opening_failed(&file, e),
            },
    {
        let mut file = RecordedFile::new(file);
        let ghost start = file;
        match file.lock_shared() {
            Err(m) => Err(TaskSourceError::Other(m)),
            Ok(u) => {
                assert(u == ());
                let ghost locked = file;
                let stored = read_tasks_from_file(&mut file);
                let ghost read = file;
                file.unlock();
                match JsonlTaskSource::from_config(config, workspace_root, stored) {
                    Err(e) => Err(e),
                    Ok(source) => {
                        let r = JsonlStore { source, file };
                        proof {
                            let held = source.held();
                            let content = choose|content: Option<String>| #[trigger]
                                holds_tasks(&locked.port(), content, held) && read.stepped(
                                    &locked,
                                    FileStep::Read(Ok(content)),
                                );
                            assert(r.recorded().steps() =~= seq![
                                FileStep::LockShared(Ok(())),
                                FileStep::Read(Ok(content)),
                                FileStep::Unlock,
                            ]);
                            assert(opened_with(start.port(), content, r));
                        }
                        Ok(r)
                    },
                }
            },
        }
    }

    /// Makes a change: under an exclusive lock, reads the tasks anew, changes them, and
    /// writes them back.
    fn mutate(&mut self, m: Mutation) -> (r: TaskSourceResult<Option<Task>>)
        ensures
            final(self).inner().filter() == old(self).inner().filter(),
            change_result(*old(self), m, *final(self), r),
    {
        let ghost before = *self;
        let ghost port = self.port();
        let ghost start = self.file;
        match self.file.lock_exclusive() {
            Err(m) => {
                proof {
                    task_file::lemma_one_step(start, FileStep::LockExclusive(Err(m)), self.file);
                }
                Err(TaskSourceError::Other(m))
            },
            Ok(u) => {
                assert(u == ());
                let ghost lock = FileStep::LockExclusive(Ok(()));
                let ghost locked = self.file;
                let found = read_tasks_from_file(&mut self.file);
                let ghost read = self.file;
                match found {
                    Err(e) => {
                        self.file.unlock();
                        proof {
                            task_file::lemma_three_steps(
                                start,
                                lock,
                                locked,
                                FileStep::Read(Err(e->Other_0)),
                                read,
                                FileStep::Unlock,
                                self.file,
                            );
                        }
                        Err(e)
                    },
                    Ok(stored) => {
                        let ghost base = task::views(stored@);
                        let ghost content = choose|content: Option<String>| #[trigger]
                            holds_tasks(&locked.port(), content, base) && read.stepped(
                                &locked,
                                FileStep::Read(Ok(content)),
                            );
                        let at = utc_now();
                        let reply = self.source.mutate(stored, m, at);
                        let ghost said = task::opt_view(reply);
                        assert(task_source::carried_out(
                            base,
                            jsonl::change_at(m, at),
                            self.source.held(),
                            said,
                        ));
                        assert(change_held(&port, m, content, self.source, said));
                        let written = write_tasks_to_file(&mut self.file, self.source.tasks());
                        let ghost wrote = self.file;
                        self.file.unlock();
                        proof {
                            if written is Err {
                                let e = written->Err_0;
                                if written_to(
                                    &read,
                                    self.source.values(),
                                    Err(e->Other_0),
                                    &wrote,
                                ) {
                                    lemma_written(
                                        before,
                                        m,
                                        content,
                                        locked,
                                        read,
                                        Err(e->Other_0),
                                        wrote,
                                        *self,
                                        said,
                                    );
                                } else {
                                    task_file::lemma_three_steps(
                                        start,
                                        lock,
                                        locked,
                                        FileStep::Read(Ok(content)),
                                        read,
                                        FileStep::Unlock,
                                        self.file,
                                    );
                                    assert(change_not_encoded(before, m, content, *self, said, e));
                                }
                            } else {
                                lemma_written(
                                    before,
                                    m,
                                    content,
                                    locked,
                                    read,
                                    Ok(()),
                                    wrote,
                                    *self,
                                    said,
                                );
                            }
                        }
                        match written {
                            Err(e) => Err(e),
                            Ok(_) => Ok(reply),
                        }
                    },
                }
            },
        }
    }
}

/// How a change ends whose tasks were handed to the file.
proof fn lemma_written<F: TaskFile>(
    before: JsonlStore<F>,
    m: Mutation,
    content: Option<String>,
    locked: RecordedFile<F>,
    read: RecordedFile<F>,
    done: Result<(), String>,
    wrote: RecordedFile<F>,
    after: JsonlStore<F>,
    reply: Option<TaskView>,
)
    requires
        change_held(&before.port(), m, content, after.inner(), reply),
        locked.stepped(&before.recorded(), FileStep::LockExclusive(Ok(()))),
        read.stepped(&locked, FileStep::Read(Ok(content))),
        written_to(&read, after.inner().values(), done, &wrote),
        after.recorded().stepped(&wrote, FileStep::Unlock),
    ensures
        exists|text: Seq<char>| #[trigger]
            change_written(before, m, content, text, done, after, reply),
{
    let text = choose|text: Seq<char>| #[trigger]
        encoded_text(&read.port(), after.inner().values(), text) && wrote.stepped(
            &read,
            FileStep::Write(text, done),
        );
    task_file::lemma_four_steps(
        before.recorded(),
        FileStep::LockExclusive(Ok(())),
        locked,
        FileStep::Read(Ok(content)),
        read,
        FileStep::Write(text, done),
        wrote,
        FileStep::Unlock,
        after.recorded(),
    );
    assert(change_written(before, m, content, text, done, after, reply));
}

impl<F: TaskFile> TaskSource for JsonlStore<F> {
    open spec fn tasks(&self) -> Seq<TaskView> {
        self.inner().held()
    }

    open spec fn loop_filter(&self) -> Option<Seq<char>> {
        self.inner().filter()
    }

    open spec fn set_up_to(&self, after: &Self, r: TaskSourceResult<()>) -> bool {
        setup_result(*self, *after, r)
    }

    open spec fn refreshed_to(&self, after: &Self, r: TaskSourceResult<()>) -> bool {
        refresh_result(*self, *after, r)
    }

    open spec fn limited_to(&self, loop_id: Option<Seq<char>>, after: &Self) -> bool {
        &&& after.recorded() == self.recorded()
        &&& after.inner().file() == self.inner().file()
        &&& after.inner().held() == self.inner().held()
        &&& after.inner().filter() == loop_id
    }

    open spec fn added_to(&self, task: Task, after: &Self, r: TaskSourceResult<Task>) -> bool {
        task_result(*self, Mutation::Add(task), *after, r)
    }

    open spec fn ensured_to(&self, task: Task, after: &Self, r: TaskSourceResult<Task>) -> bool {
        task_result(*self, Mutation::Ensure(task), *after, r)
    }

    open spec fn closed_to(
        &self,
        id: Seq<char>,
        after: &Self,
        r: TaskSourceResult<Option<Task>>,
    ) -> bool {
        close_result(*self, id, *after, r)
    }

    open spec fn started_to(
        &self,
        id: Seq<char>,
        after: &Self,
        r: TaskSourceResult<Option<Task>>,
    ) -> bool {
        start_result(*self, id, *after, r)
    }

    open spec fn failed_to(
        &self,
        id: Seq<char>,
        after: &Self,
        r: TaskSourceResult<Option<Task>>,
    ) -> bool {
        fail_result(*self, id, *after, r)
    }

    open spec fn reopened_to(
        &self,
        id: Seq<char>,
        after: &Self,
        r: TaskSourceResult<Option<Task>>,
    ) -> bool {
        reopen_result(*self, id, *after, r)
    }

    fn setup(&mut self) -> (r: TaskSourceResult<()>) {
        let ghost before = *self;
        let done = self.file.create_directory();
        proof {
            task_file::lemma_one_step(
                before.recorded(),
                FileStep::CreateDirectory(done),
                self.recorded(),
            );
            assert(directory_created(before, done, *self));
        }
        from_outside(done)
    }

    fn refresh(&mut self) -> (r: TaskSourceResult<()>) {
        let ghost before = *self;
        let ghost start = self.file;
        match self.file.lock_shared() {
            Err(m) => {
                proof {
                    task_file::lemma_one_step(start, FileStep::LockShared(Err(m)), self.file);
                }
                Err(TaskSourceError::Other(m))
            },
            Ok(u) => {
                assert(u == ());
                let ghost lock = FileStep::LockShared(Ok(()));
                let ghost locked = self.file;
                let stored = read_tasks_from_file(&mut self.file);
                let ghost read = self.file;
                self.file.unlock();
                match stored {
                    Err(e) => {
                        proof {
                            task_file::lemma_three_steps(
                                start,
                                lock,
                                locked,
                                FileStep::Read(Err(e->Other_0)),
                                read,
                                FileStep::Unlock,
                                self.file,
                            );
                        }
                        Err(e)
                    },
                    Ok(tasks) => {
                        let ghost held = task::views(tasks@);
                        self.source.refresh_with(tasks);
                        proof {
                            let content = choose|content: Option<String>| #[trigger]
                                holds_tasks(&locked.port(), content, held) && read.stepped(
                                    &locked,
                                    FileStep::Read(Ok(content)),
                                );
                            task_file::lemma_three_steps(
                                start,
                                lock,
                                locked,
                                FileStep::Read(Ok(content)),
                                read,
                                FileStep::Unlock,
                                self.file,
                            );
                            assert(tasks_refreshed(before, content, *self));
                        }
                        Ok(())
                    },
                }
            },
        }
    }

    fn set_loop_filter(&mut self, loop_id: Option<&str>) {
        self.source.set_loop_filter(loop_id);
    }

    fn get(&self, id: &str) -> (r: TaskSourceResult<Option<Task>>)
        ensures
            r is Ok,
    {
        self.source.get(id)
    }

    fn get_by_key(&self, key: &str) -> (r: TaskSourceResult<Option<Task>>)
        ensures
            r is Ok,
    {
        self.source.get_by_key(key)
    }

    fn all(&self) -> (r: TaskSourceResult<Vec<Task>>)
        ensures
            r is Ok,
    {
        self.source.all()
    }

    fn open(&self) -> (r: TaskSourceResult<Vec<Task>>)
        ensures
            r is Ok,
    {
        self.source.open()
    }

    fn pending(&self) -> (r: TaskSourceResult<Vec<Task>>)
        ensures
            r is Ok,
    {
        self.source.pending()
    }

    fn ready(&self) -> (r: TaskSourceResult<Vec<Task>>)
        ensures
            r is Ok,
    {
        self.source.ready()
    }

    fn add(&mut self, task: Task) -> (r: TaskSourceResult<Task>) {
        match self.mutate(Mutation::Add(task)) {
            Err(e) => Err(e),
            Ok(Some(t)) => {
                assert(TaskView { id: task@.id, ..task@ } == task@);
                Ok(t)
            },
            Ok(None) => {
                assert(false);
                Err(TaskSourceError::Other(String::new()))
            },
        }
    }

    fn close(&mut self, id: &str) -> (r: TaskSourceResult<Option<Task>>) {
        let ghost before = *self;
        let id = id.to_string();
        let r = self.mutate(Mutation::Close(id));
        assert(change_result(before, Mutation::Close(id), *self, r));
        r
    }

    fn start(&mut self, id: &str) -> (r: TaskSourceResult<Option<Task>>) {
        let ghost before = *self;
        let id = id.to_string();
        let r = self.mutate(Mutation::Start(id));
        assert(change_result(before, Mutation::Start(id), *self, r));
        r
    }

    fn fail(&mut self, id: &str) -> (r: TaskSourceResult<Option<Task>>) {
        let ghost before = *self;
        let id = id.to_string();
        let r = self.mutate(Mutation::Fail(id));
        assert(change_result(before, Mutation::Fail(id), *self, r));
        r
    }

    fn reopen(&mut self, id: &str) -> (r: TaskSourceResult<Option<Task>>) {
        let ghost before = *self;
        let id = id.to_string();
        let r = self.mutate(Mutation::Reopen(id));
        assert(change_result(before, Mutation::Reopen(id), *self, r));
        r
    }

    fn ensure(&mut self, task: Task) -> (r: TaskSourceResult<Task>) {
        match self.mutate(Mutation::Ensure(task)) {
            Err(e) => Err(e),
            Ok(Some(t)) => {
                assert(TaskView { id: task@.id, ..task@ } == task@);
                Ok(t)
            },
            Ok(None) => {
                assert(false);
                Err(TaskSourceError::Other(String::new()))
            },
        }
    }
}

/// Ensuring a keyed task twice is ensuring it once, where nobody else writes the file in
/// between: where the second call reads what the first one wrote, it gives the same reply and
/// leaves the tasks as they were. This holds for every file that reads what it encodes.
pub proof fn ensuring_twice_is_ensuring_once<F: TaskFile>(
    s0: JsonlStore<F>,
    t: Task,
    s1: JsonlStore<F>,
    r1: Task,
    s2: JsonlStore<F>,
    r2: Task,
    text: Seq<char>,
    content: String,
)
    requires
        t@.key is Some,
        reads_what_it_encodes(&s0.port()),
        s0.ensured_to(t, &s1, Ok(r1)),
        s1.ensured_to(t, &s2, Ok(r2)),
        s1.recorded().steps()[s0.recorded().steps().len() as int + 2] == FileStep::Write(
            text,
            Ok(()),
        ),
        s2.recorded().steps()[s1.recorded().steps().len() as int + 1] == FileStep::Read(
            Ok(Some(content)),
        ),
        content@ == text,
    ensures
        r2@ == r1@,
        s2.tasks() == s1.tasks(),
{
    let m = Mutation::Ensure(t);
    let (c1, text1) = choose|c: Option<String>, x: Seq<char>| #[trigger]
        change_written(s0, m, c, x, Ok(()), s1, Some(r1@));
    let (c2, text2) = choose|c: Option<String>, x: Seq<char>| #[trigger]
        change_written(s1, m, c, x, Ok(()), s2, Some(r2@));
    let first = seq![
        FileStep::LockExclusive(Ok(())),
        FileStep::Read(Ok(c1)),
        FileStep::Write(text1, Ok(())),
        FileStep::Unlock,
    ];
    let second = seq![
        FileStep::LockExclusive(Ok(())),
        FileStep::Read(Ok(c2)),
        FileStep::Write(text2, Ok(())),
        FileStep::Unlock,
    ];
    let n = s0.recorded().steps().len() as int;
    let k = s1.recorded().steps().len() as int;
    assert(s1.recorded().steps()[n + 2] == first[2]);
    assert(s2.recorded().steps()[k + 1] == second[1]);
    let (base1, at1) = choose|base: Seq<TaskView>, at: Instant|
        at.is_valid() && holds_tasks(&s0.port(), c1, base) && #[trigger] task_source::carried_out(
            base,
            jsonl::change_at(m, at),
            s1.inner().held(),
            Some(r1@),
        );
    let (base2, at2) = choose|base: Seq<TaskView>, at: Instant|
        at.is_valid() && holds_tasks(&s1.port(), c2, base) && #[trigger] task_source::carried_out(
            base,
            jsonl::change_at(m, at),
            s2.inner().held(),
            Some(r2@),
        );
    written_file_reads_back(&s0.port(), s1.inner().values(), text, content, base2);
    task_laws::ensure_is_idempotent(base1, t@);
}

} // verus!
