//! Finding and ending the processes that hold files, with the Restart Manager.

use vstd::prelude::*;
use vstd::string::*;

use crate::text::{append_decimal, contains, decimal, law_contained_text_has_sides};

verus! {

/// The processes that hold files.
pub struct ProcMgr;

/// The result of the Restart Manager when its list has become longer meanwhile.
pub const ERROR_MORE_DATA: u32 = 234;

/// Why the processes that hold files are not known, or why one was not ended.
#[derive(Debug)]
pub enum ProcError {
    /// The session could not be started; this is the result.
    NoSession(u32),
    /// The files could not be registered.
    NotRegistered(u32),
    /// The list could not be read.
    NoList(u32),
    /// The process could not be opened; this is the system's message.
    Refused(String),
    /// The process has no valid handle.
    NotOpened(u32),
    /// The process could not be ended.
    NotEnded(u32),
}

/// What a user is told of an error.
pub open spec fn proc_message(error: ProcError) -> Seq<char> {
    match error {
        ProcError::NoSession(code) => "无法启动 Restart Manager 会话: "@ + decimal(code as nat),
        ProcError::NotRegistered(code) => "无法注册资源: "@ + decimal(code as nat),
        ProcError::NoList(code) => "获取进程列表失败: "@ + decimal(code as nat),
        ProcError::Refused(text) => text@,
        ProcError::NotOpened(pid) => "无法打开进程 "@ + decimal(pid as nat),
        ProcError::NotEnded(pid) => "无法结束进程 "@ + decimal(pid as nat)
            + ": (错误码不明)"@,
    }
}

impl ProcError {
    /// What a user is told of the error.
    pub fn message(&self) -> (r: String)
        ensures
            r@ == proc_message(*self),
    {
        match self {
            ProcError::NoSession(code) => {
                let mut r = "无法启动 Restart Manager 会话: ".to_owned();
                append_decimal(&mut r, *code as u64);
                r
            },
            ProcError::NotRegistered(code) => {
                let mut r = "无法注册资源: ".to_owned();
                append_decimal(&mut r, *code as u64);
                r
            },
            ProcError::NoList(code) => {
                let mut r = "获取进程列表失败: ".to_owned();
                append_decimal(&mut r, *code as u64);
                r
            },
            ProcError::Refused(text) => text.clone(),
            ProcError::NotOpened(pid) => {
                let mut r = "无法打开进程 ".to_owned();
                append_decimal(&mut r, *pid as u64);
                r
            },
            ProcError::NotEnded(pid) => {
                let mut r = "无法结束进程 ".to_owned();
                append_decimal(&mut r, *pid as u64);
                r.append(": (错误码不明)");
                r
            },
        }
    }
}

/// The work that is due.
#[derive(Debug)]
pub enum QueryStep {
    /// Start a session; the files will be asked for.
    Start { files: Vec<String> },
    /// Register the files with the session.
    Register { files: Vec<String> },
    /// How many processes are there?
    Count,
    /// Read the list into a buffer of this length.
    Fetch { length: u32 },
    /// End the session; failures do not matter.
    End { result: Result<Vec<u32>, ProcError> },
    /// Nothing.
    Finished(Result<Vec<u32>, ProcError>),
}

/// What came of the work.
#[derive(Debug)]
pub enum QueryReply {
    /// The result; zero means success.
    Code(u32),
    /// The number of processes.
    Needed(u32),
    /// The result, the number of entries that were filled in, and the ids in the whole buffer.
    Fetched { code: u32, filled: u32, pids: Vec<u32> },
    Done,
}

impl QueryStep {
    /// Whether `reply` is an answer to the work of this step.
    pub open spec fn accepts(self, reply: QueryReply) -> bool {
        match self {
            QueryStep::Start { .. } | QueryStep::Register { .. } => reply is Code,
            QueryStep::Count => reply is Needed,
            QueryStep::Fetch { .. } => reply is Fetched,
            QueryStep::End { .. } => reply is Done,
            QueryStep::Finished(_) => false,
        }
    }
}

/// The ids that were filled in: the first `filled` of the buffer.
pub open spec fn filled_in(pids: Seq<u32>, filled: u32) -> Seq<u32> {
    if filled <= pids.len() {
        pids.take(filled as int)
    } else {
        pids
    }
}

/// Whether `next` is the step that follows `step` when its work came to `reply`.
pub open spec fn query_leads_to(step: QueryStep, reply: QueryReply, next: QueryStep) -> bool {
    match step {
        QueryStep::Start { files } => next == if reply->Code_0 == 0 {
            QueryStep::Register { files }
        } else {
            QueryStep::Finished(Err(ProcError::NoSession(reply->Code_0)))
        },
        QueryStep::Register { .. } => next == if reply->Code_0 == 0 {
            QueryStep::Count
        } else {
            QueryStep::End { result: Err(ProcError::NotRegistered(reply->Code_0)) }
        },
        QueryStep::Count => if reply->Needed_0 == 0 {
            next matches QueryStep::End { result: Ok(found) } && found@ == Seq::<u32>::empty()
        } else {
            next == QueryStep::Fetch { length: reply->Needed_0 }
        },
        QueryStep::Fetch { .. } => if reply->code == 0 || reply->code == ERROR_MORE_DATA {
            next matches QueryStep::End { result: Ok(found) } && found@ == filled_in(
                reply->pids@,
                reply->filled,
            )
        } else {
            next == QueryStep::End { result: Err(ProcError::NoList(reply->code)) }
        },
        QueryStep::End { result } => next == QueryStep::Finished(result),
        QueryStep::Finished(_) => next == step,
    }
}

/// The files that are asked for: the path itself, and every file that was found below it.
pub open spec fn files_asked_for(path: String, below: Seq<String>) -> Seq<String> {
    seq![path] + below
}

/// What ending the process `pid` comes to, by whether it could be opened and was ended.
pub open spec fn kill_result(pid: u32, opened: Result<bool, String>, ended: bool) -> Result<
    (),
    ProcError,
> {
    match opened {
        Err(text) => Err(ProcError::Refused(text)),
        Ok(false) => Err(ProcError::NotOpened(pid)),
        Ok(true) => if ended {
            Ok(())
        } else {
            Err(ProcError::NotEnded(pid))
        },
    }
}

impl ProcMgr {
    /// Begins to look for the processes that hold `path` or a file below it; `below` are the
    /// files that were found below it, none where it is no directory.
    pub fn check_locking_processes(path: String, below: Vec<String>) -> (r: QueryStep)
        ensures
            r matches QueryStep::Start { files } && files@ == files_asked_for(path, below@),
    {
        let mut files: Vec<String> = Vec::new();
        files.push(path);
        for file in it: below
            invariant
                it.seq() == below@,
                files@ == files_asked_for(path, below@.take(it.index())),
        {
            files.push(file);
            assert(files@ =~= files_asked_for(path, below@.take(it.index() as int + 1)));
        }
        assert(below@.take(below@.len() as int) =~= below@);
        QueryStep::Start { files }
    }

    /// What ending the process `pid` comes to: `opened` tells whether its handle is valid
    /// or why there is none, `ended` whether it was ended through that handle.
    pub fn kill_process(pid: u32, opened: Result<bool, String>, ended: bool) -> (r: Result<
        (),
        ProcError,
    >)
        ensures
            r == kill_result(pid, opened, ended),
    {
        match opened {
            Err(text) => Err(ProcError::Refused(text)),
            Ok(valid) => {
                if !valid {
                    Err(ProcError::NotOpened(pid))
                } else if !ended {
                    Err(ProcError::NotEnded(pid))
                } else {
                    Ok(())
                }
            },
        }
    }
}

impl QueryStep {
    /// Takes what came of the work to the next step.
    pub fn next(self, reply: QueryReply) -> (r: QueryStep)
        requires
            self.accepts(reply),
        ensures
            query_leads_to(self, reply, r),
    {
        match (self, reply) {
            (QueryStep::Start { files }, QueryReply::Code(code)) => {
                if code == 0 {
                    QueryStep::Register { files }
                } else {
                    QueryStep::Finished(Err(ProcError::NoSession(code)))
                }
            },
            (QueryStep::Register { .. }, QueryReply::Code(code)) => {
                if code == 0 {
                    QueryStep::Count
                } else {
                    QueryStep::End { result: Err(ProcError::NotRegistered(code)) }
                }
            },
            (QueryStep::Count, QueryReply::Needed(needed)) => {
                if needed == 0 {
                    QueryStep::End { result: Ok(Vec::new()) }
                } else {
                    QueryStep::Fetch { length: needed }
                }
            },
            (QueryStep::Fetch { .. }, QueryReply::Fetched { code, filled, pids }) => {
                if code != 0 && code != ERROR_MORE_DATA {
                    QueryStep::End { result: Err(ProcError::NoList(code)) }
                } else {
                    let ghost all = pids@;
                    let mut found = pids;
                    if (filled as usize) < found.len() {
                        found.truncate(filled as usize);
                    }
                    assert(found@ =~= filled_in(all, filled));
                    QueryStep::End { result: Ok(found) }
                }
            },
            (QueryStep::End { result }, _) => QueryStep::Finished(result),
            (step, _) => step,
        }
    }
}

/// Whether a session is open while `step` is due.
pub open spec fn session_is_open(step: QueryStep) -> bool {
    !(step is Start) && !(step is Finished)
}

/// A session that was started is always ended: from a step at which it is open the work
/// only comes to its end through the step that ends it.
pub proof fn law_session_is_ended(step: QueryStep, reply: QueryReply, next: QueryStep)
    requires
        step.accepts(reply),
        query_leads_to(step, reply, next),
        session_is_open(step),
        next is Finished,
    ensures
        step is End,
        next->Finished_0 == step->result,
{
}

/// A session is open exactly from its successful start on, and is never opened twice.
pub proof fn law_session_is_opened_once(step: QueryStep, reply: QueryReply, next: QueryStep)
    requires
        step.accepts(reply),
        query_leads_to(step, reply, next),
    ensures
        !(next is Start),
        step is Start ==> session_is_open(next) == (reply->Code_0 == 0),
{
}

/// Whether the work can have gone through `steps` while it came to `replies`, for a path and
/// the files that were found below it.
pub open spec fn query_history(
    path: String,
    below: Seq<String>,
    steps: Seq<QueryStep>,
    replies: Seq<QueryReply>,
) -> bool {
    &&& steps.len() == replies.len() + 1
    &&& steps[0] matches QueryStep::Start { files } && files@ == files_asked_for(path, below)
    &&& forall|i: int|
        0 <= i < replies.len() ==> (#[trigger] steps[i]).accepts(replies[i]) && query_leads_to(
            steps[i],
            replies[i],
            steps[i + 1],
        )
}

/// The path and every file below it are registered, and nothing else.
pub proof fn law_files_below_are_registered(
    path: String,
    below: Seq<String>,
    steps: Seq<QueryStep>,
    replies: Seq<QueryReply>,
    i: int,
)
    requires
        query_history(path, below, steps, replies),
        0 <= i < steps.len(),
        steps[i] is Register,
    ensures
        i == 1,
        steps[i]->Register_files@ == files_asked_for(path, below),
        steps[i]->Register_files@.contains(path),
        forall|file: String| #[trigger]
            below.contains(file) ==> steps[i]->Register_files@.contains(file),
{
    let asked = files_asked_for(path, below);
    lemma_one_before(steps, replies, i);
    assert(asked[0] == path);
    assert forall|file: String| #[trigger] below.contains(file) implies asked.contains(file) by {
        let k = choose|k: int| 0 <= k < below.len() && below[k] == file;
        assert(asked[k + 1] == file);
    }
}

proof fn lemma_one_before(steps: Seq<QueryStep>, replies: Seq<QueryReply>, i: int)
    requires
        steps.len() == replies.len() + 1,
        steps[0] is Start,
        forall|i: int|
            0 <= i < replies.len() ==> (#[trigger] steps[i]).accepts(replies[i])
                && query_leads_to(steps[i], replies[i], steps[i + 1]),
        0 <= i < steps.len(),
    ensures
        steps[i] is Start ==> i == 0,
        steps[i] is Register ==> i == 1 && steps[1]->Register_files == steps[0]->Start_files,
    decreases i,
{
    if i > 0 {
        lemma_one_before(steps, replies, i - 1);
        assert(steps[i - 1].accepts(replies[i - 1]));
        assert(query_leads_to(steps[i - 1], replies[i - 1], steps[i - 1 + 1]));
    }
}

/// Whether the Restart Manager worked and told the truth about the files it was given: every
/// call succeeded, it counts no process only if none holds one of the files, and its list
/// names each process that holds one. `holds` tells which process holds which file.
pub open spec fn manager_tells_truth(
    files: Seq<String>,
    replies: Seq<QueryReply>,
    holds: spec_fn(u32, String) -> bool,
) -> bool {
    forall|i: int|
        0 <= i < replies.len() ==> match #[trigger] replies[i] {
            QueryReply::Code(code) => code == 0,
            QueryReply::Needed(needed) => needed == 0 ==> forall|pid: u32, file: String|
                files.contains(file) ==> !#[trigger] holds(pid, file),
            QueryReply::Fetched { code, filled, pids } => code == 0 && forall|
                pid: u32,
                file: String,
            |
                files.contains(file) && #[trigger] holds(pid, file) ==> filled_in(
                    pids@,
                    filled,
                ).contains(pid),
            QueryReply::Done => true,
        }
}

/// What is known of the processes at a step, when nothing failed: all that hold a file are
/// among those found.
spec fn found_so_far(step: QueryStep, files: Seq<String>, holds: spec_fn(u32, String) -> bool) -> bool {
    match step {
        QueryStep::End { result } | QueryStep::Finished(result) => {
            &&& result is Ok
            &&& forall|pid: u32, file: String|
                files.contains(file) && #[trigger] holds(pid, file) ==> result->Ok_0@.contains(pid)
        },
        _ => true,
    }
}

proof fn lemma_lockers_are_found(
    files: Seq<String>,
    steps: Seq<QueryStep>,
    replies: Seq<QueryReply>,
    holds: spec_fn(u32, String) -> bool,
    i: int,
)
    requires
        steps.len() == replies.len() + 1,
        steps[0] is Start,
        forall|i: int|
            0 <= i < replies.len() ==> (#[trigger] steps[i]).accepts(replies[i])
                && query_leads_to(steps[i], replies[i], steps[i + 1]),
        manager_tells_truth(files, replies, holds),
        0 <= i < steps.len(),
    ensures
        found_so_far(steps[i], files, holds),
    decreases i,
{
    if i > 0 {
        lemma_lockers_are_found(files, steps, replies, holds, i - 1);
        let reply = replies[i - 1];
        assert(steps[i - 1].accepts(reply));
        assert(query_leads_to(steps[i - 1], reply, steps[i - 1 + 1]));
    }
}

/// Every process that holds the path or a file below it is found, if the Restart Manager does
/// its part.
pub proof fn law_lockers_are_found(
    path: String,
    below: Seq<String>,
    steps: Seq<QueryStep>,
    replies: Seq<QueryReply>,
    holds: spec_fn(u32, String) -> bool,
)
    requires
        query_history(path, below, steps, replies),
        steps.last() is Finished,
        manager_tells_truth(files_asked_for(path, below), replies, holds),
    ensures
        steps.last()->Finished_0 is Ok,
        forall|pid: u32, file: String|
            (file == path || below.contains(file)) && #[trigger] holds(pid, file)
                ==> steps.last()->Finished_0->Ok_0@.contains(pid),
{
    let asked = files_asked_for(path, below);
    lemma_lockers_are_found(asked, steps, replies, holds, steps.len() - 1);
    assert(asked[0] == path);
    assert forall|pid: u32, file: String|
        (file == path || below.contains(file)) && #[trigger] holds(
            pid,
            file,
        ) implies steps.last()->Finished_0->Ok_0@.contains(pid) by {
        if below.contains(file) {
            let k = choose|k: int| 0 <= k < below.len() && below[k] == file;
            assert(asked[k + 1] == file);
        }
        assert(asked.contains(file));
    }
}

/// The ids that count are those that were filled in: the first ones of the buffer, as many as
/// were filled in, or all if there are not so many.
pub proof fn law_filled_in_is_the_front(pids: Seq<u32>, filled: u32)
    ensures
        filled <= pids.len() ==> filled_in(pids, filled).len() == filled,
        filled > pids.len() ==> filled_in(pids, filled).len() == pids.len(),
        forall|i: int|
            0 <= i < filled_in(pids, filled).len() ==> #[trigger] filled_in(pids, filled)[i]
                == pids[i],
{
}

/// No step is due without its cause: the files are registered once the session is there, the
/// list is read with the length that was told, what is found is the front of a list that was
/// read in full or has become longer, and each error has the result that it tells of.
pub proof fn law_query_step_has_cause(step: QueryStep, reply: QueryReply, next: QueryStep)
    requires
        step.accepts(reply),
        query_leads_to(step, reply, next),
    ensures
        match next {
            QueryStep::Start { .. } => false,
            QueryStep::Register { files } => {
                step == (QueryStep::Start { files }) && reply == QueryReply::Code(0)
            },
            QueryStep::Count => step is Register && reply == QueryReply::Code(0),
            QueryStep::Fetch { length } => {
                step is Count && reply == QueryReply::Needed(length) && length > 0
            },
            QueryStep::End { result: Ok(found) } => {
                ||| step is Count && reply == QueryReply::Needed(0) && found@.len() == 0
                ||| step is Fetch && (reply->code == 0 || reply->code == 234) && found@.len()
                    <= reply->filled && found@.len() <= reply->pids@.len() && (found@.len()
                    == reply->filled || found@.len() == reply->pids@.len()) && forall|i: int|
                    0 <= i < found@.len() ==> #[trigger] found@[i] == reply->pids@[i]
            },
            QueryStep::End { result: Err(error) } => match error {
                ProcError::NotRegistered(code) => {
                    step is Register && reply == QueryReply::Code(code) && code != 0
                },
                ProcError::NoList(code) => {
                    step is Fetch && reply->code == code && code != 0 && code != 234
                },
                _ => false,
            },
            QueryStep::Finished(result) => {
                ||| step == (QueryStep::End { result })
                ||| step is Start && reply->Code_0 != 0 && result == Err::<Vec<u32>, ProcError>(
                    ProcError::NoSession(reply->Code_0),
                )
            },
        },
{
}

/// A process counts as ended exactly if it could be opened, its handle is valid and it was
/// ended; each error tells what stood in the way, and the process it is about.
pub proof fn law_process_is_ended(pid: u32, opened: Result<bool, String>, ended: bool)
    ensures
        kill_result(pid, opened, ended) is Ok <==> (opened == Ok::<bool, String>(true) && ended),
        opened is Err <==> kill_result(pid, opened, ended) == Err::<(), ProcError>(
            ProcError::Refused(opened->Err_0),
        ),
        opened == Ok::<bool, String>(false) <==> kill_result(pid, opened, ended) == Err::<
            (),
            ProcError,
        >(ProcError::NotOpened(pid)),
        (opened == Ok::<bool, String>(true) && !ended) <==> kill_result(pid, opened, ended)
            == Err::<(), ProcError>(ProcError::NotEnded(pid)),
{
}

/// What a user is told of an error holds the result or the process it is about.
pub proof fn law_proc_message_tells_number(error: ProcError)
    ensures
        match error {
            ProcError::NoSession(n)
            | ProcError::NotRegistered(n)
            | ProcError::NoList(n)
            | ProcError::NotOpened(n)
            | ProcError::NotEnded(n) => contains(proc_message(error), decimal(n as nat)),
            ProcError::Refused(text) => proc_message(error) == text@,
        },
{
    let none = Seq::<char>::empty();
    match error {
        ProcError::NoSession(n)
        | ProcError::NotRegistered(n)
        | ProcError::NoList(n)
        | ProcError::NotOpened(n)
        | ProcError::NotEnded(n) => {
            let number = decimal(n as nat);
            let message = proc_message(error);
            let front = match error {
                ProcError::NoSession(_) => "无法启动 Restart Manager 会话: "@,
                ProcError::NotRegistered(_) => "无法注册资源: "@,
                ProcError::NoList(_) => "获取进程列表失败: "@,
                ProcError::NotOpened(_) => "无法打开进程 "@,
                _ => "无法结束进程 "@,
            };
            let back = if error is NotEnded {
                ": (错误码不明)"@
            } else {
                none
            };
            assert(message =~= front + number + back);
            law_contained_text_has_sides(message, front, number, back);
        },
        _ => {},
    }
}

/// The path itself is asked for first, and then each file below it once, in order.
pub proof fn law_files_are_asked_for_once(path: String, below: Seq<String>)
    ensures
        files_asked_for(path, below).len() == below.len() + 1,
        files_asked_for(path, below)[0] == path,
        forall|i: int|
            0 <= i < below.len() ==> #[trigger] below[i] == files_asked_for(path, below)[i + 1],
{
}

} // verus!
