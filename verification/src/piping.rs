//! Pipelines: splitting a line at `|`, and running a chain of two or three
//! commands whose neighbours are joined by pipes.
//!
//! Creating a child process is the caller's work. A [`PipelineRun`] tells the
//! caller which command to spawn next and how to wire it, and is told the
//! process id in return.

use vstd::prelude::*;
use vstd::string::*;
use crate::background::{BackgroundManager, JobHandle};
use crate::external::{redirect_stream, register_background, Launched};
use crate::error::{RedirectionKind, ShellError};
use crate::lexer::TokenList;
use crate::sys::{close_fd, open_pipe, wait_child, ANY_CHILD};
use crate::text::{any_has_nul, has_nul, is_symbol, join_words, joined, split_on, texts};

verus! {

/// The most commands that one pipeline may chain.
pub const MAX_SEGMENTS: usize = 3;

/// The token `|`.
pub open spec fn pipe_operator() -> Seq<char> {
    seq!['|']
}

/// The views of a list of commands, in order.
pub open spec fn segment_views(segments: Seq<TokenList>) -> Seq<Seq<Seq<char>>> {
    Seq::new(segments.len(), |i: int| segments[i]@)
}

/// Whether some command of the list has no token at all.
pub open spec fn has_empty_segment(segments: Seq<Seq<Seq<char>>>) -> bool {
    exists|k: int| 0 <= k < segments.len() && (#[trigger] segments[k]).len() == 0
}

/// The commands of a line: the stretches of tokens between `|` tokens. A line
/// without `|` is one command, whatever it holds. With a `|`, a command with no
/// token is a syntax error, and after that more than three commands are too
/// many.
pub open spec fn pipeline_of(tokens: Seq<Seq<char>>) -> Result<Seq<Seq<Seq<char>>>, ShellError> {
    let segments = split_on(tokens, pipe_operator());
    if segments.len() == 1 {
        Ok(segments)
    } else if has_empty_segment(segments) {
        Err(ShellError::PipelineSyntax)
    } else if segments.len() > MAX_SEGMENTS {
        Err(ShellError::TooManyPipes)
    } else {
        Ok(segments)
    }
}

/// The view of a split result.
pub open spec fn pipeline_result_view(r: Result<Vec<TokenList>, ShellError>) -> Result<
    Seq<Seq<Seq<char>>>,
    ShellError,
> {
    match r {
        Ok(segments) => Ok(segment_views(segments@)),
        Err(e) => Err(e),
    }
}

/// Splits the tokens of a line into the commands of a pipeline.
pub fn split_pipeline(tokens: &Vec<String>) -> (pipeline: Result<Vec<TokenList>, ShellError>)
    ensures
        pipeline_result_view(pipeline) == pipeline_of(texts(tokens@)),
{
    let mut segments: Vec<TokenList> = Vec::new();
    let mut current = TokenList::new();
    let mut any_empty = false;
    let ghost all = texts(tokens@);
    let mut i: usize = 0;
    proof {
        assert(all.take(0) =~= Seq::<Seq<char>>::empty());
        assert(segment_views(segments@).push(current@) =~= seq![Seq::<Seq<char>>::empty()]);
    }
    while i < tokens.len()
        invariant
            i <= tokens.len(),
            all == texts(tokens@),
            split_on(all.take(i as int), pipe_operator()) == segment_views(segments@).push(
                current@,
            ),
            any_empty == has_empty_segment(segment_views(segments@)),
        decreases tokens.len() - i,
    {
        let ghost closed = segment_views(segments@);
        let ghost open = current@;
        proof {
            let prefix = all.take(i + 1);
            assert(prefix.drop_last() =~= all.take(i as int));
            assert(prefix.last() == tokens@[i as int]@);
            assert(closed.push(current@).drop_last() =~= closed);
        }
        if is_symbol(&tokens[i], '|') {
            if current.size() == 0 {
                any_empty = true;
            }
            segments.push(current);
            current = TokenList::new();
            proof {
                let now = segment_views(segments@);
                assert(now =~= closed.push(open));
                if has_empty_segment(closed) {
                    let k = choose|k: int| 0 <= k < closed.len() && (#[trigger] closed[k]).len() == 0;
                    assert(now[k].len() == 0);
                }
                if now[now.len() - 1].len() == 0 {
                    assert(has_empty_segment(now));
                }
                if has_empty_segment(now) {
                    let k = choose|k: int| 0 <= k < now.len() && (#[trigger] now[k]).len() == 0;
                    if k < closed.len() {
                        assert(closed[k].len() == 0);
                    }
                }
            }
        } else {
            current.add_token(tokens[i].as_str());
        }
        i += 1;
    }
    let ghost closed = segment_views(segments@);
    let last_empty = current.size() == 0;
    segments.push(current);
    proof {
        assert(all.take(tokens.len() as int) =~= all);
        let now = segment_views(segments@);
        assert(now =~= split_on(all, pipe_operator()));
        if has_empty_segment(closed) {
            let k = choose|k: int| 0 <= k < closed.len() && (#[trigger] closed[k]).len() == 0;
            assert(now[k].len() == 0);
        }
        if last_empty {
            assert(now[now.len() - 1].len() == 0);
        }
        if has_empty_segment(now) {
            let k = choose|k: int| 0 <= k < now.len() && (#[trigger] now[k]).len() == 0;
            if k < closed.len() {
                assert(closed[k].len() == 0);
            }
        }
    }
    if segments.len() == 1 {
        Ok(segments)
    } else if any_empty || last_empty {
        Err(ShellError::PipelineSyntax)
    } else if segments.len() > MAX_SEGMENTS {
        Err(ShellError::TooManyPipes)
    } else {
        Ok(segments)
    }
}

/// Every descriptor of a list of pipes: for each pipe in order its read end,
/// then its write end.
pub open spec fn all_ends(pipes: Seq<(i32, i32)>) -> Seq<i32>
    decreases pipes.len(),
{
    if pipes.len() == 0 {
        Seq::empty()
    } else {
        all_ends(pipes.drop_last()).push(pipes.last().0).push(pipes.last().1)
    }
}

/// The tokens of a whole pipeline on one line: the commands in order with a
/// `|` token between neighbours.
pub open spec fn pipeline_tokens(segments: Seq<Seq<Seq<char>>>) -> Seq<Seq<char>>
    decreases segments.len(),
{
    if segments.len() == 0 {
        Seq::empty()
    } else if segments.len() == 1 {
        segments[0]
    } else {
        pipeline_tokens(segments.drop_last()).push(pipe_operator()) + segments.last()
    }
}

/// The first command at or after `from` that has at least one token, or the
/// number of commands if there is none.
pub open spec fn next_command(segments: Seq<Seq<Seq<char>>>, from: int) -> int
    decreases segments.len() - from,
{
    if from < 0 || from >= segments.len() {
        segments.len() as int
    } else if segments[from].len() > 0 {
        from
    } else {
        next_command(segments, from + 1)
    }
}

/// Whether some argument of some command holds a NUL character.
pub open spec fn pipeline_has_nul(segments: Seq<Seq<Seq<char>>>) -> bool {
    exists|k: int| 0 <= k < segments.len() && has_nul(#[trigger] segments[k])
}

/// How one child of a pipeline is to be started.
pub struct SpawnRequest {
    /// The position of the command in the pipeline, from 0.
    pub segment: usize,
    /// The program and its arguments.
    pub argv: Vec<String>,
    /// The descriptor to become standard input, or none to inherit it.
    pub stdin: Option<i32>,
    /// The descriptor to become standard output, or none to inherit it.
    pub stdout: Option<i32>,
    /// Every pipe descriptor: the child closes them all once it is wired.
    pub close: Vec<i32>,
}

/// A pipeline in the course of being started.
pub struct PipelineRun {
    commands: Vec<TokenList>,
    background: bool,
    pipes: Vec<(i32, i32)>,
    cursor: usize,
    last_pid: Option<i32>,
}

/// A pipeline run as contracts see it.
pub ghost struct PipelineRunView {
    /// The commands, first to last.
    pub commands: Seq<Seq<Seq<char>>>,
    /// Whether the pipeline is detached.
    pub background: bool,
    /// One pipe between each pair of neighbours: `(read end, write end)`.
    pub pipes: Seq<(i32, i32)>,
    /// The position of the next command to look at.
    pub cursor: nat,
    /// The process id of the child spawned last, if any.
    pub last_pid: Option<i32>,
}

impl PipelineRunView {
    /// At most three commands, one pipe fewer than commands, and the cursor
    /// in range.
    pub open spec fn wf(self) -> bool {
        &&& self.commands.len() <= MAX_SEGMENTS
        &&& self.cursor <= self.commands.len()
        &&& self.commands.len() > 0 ==> self.pipes.len() + 1 == self.commands.len()
        &&& self.commands.len() == 0 ==> self.pipes.len() == 0
    }

    /// The descriptor that command `segment` reads from: the read end of the
    /// pipe before it, or none for the first command.
    pub open spec fn stdin_of(self, segment: int) -> Option<i32> {
        if segment > 0 {
            Some(self.pipes[segment - 1].0)
        } else {
            None
        }
    }

    /// The descriptor that command `segment` writes to: the write end of the
    /// pipe after it, or none for the last command.
    pub open spec fn stdout_of(self, segment: int) -> Option<i32> {
        if segment + 1 < self.commands.len() {
            Some(self.pipes[segment].1)
        } else {
            None
        }
    }

    /// The text under which the pipeline becomes a job.
    pub open spec fn command_text(self) -> Seq<char> {
        joined(pipeline_tokens(self.commands))
    }
}

impl View for PipelineRun {
    type V = PipelineRunView;

    closed spec fn view(&self) -> PipelineRunView {
        PipelineRunView {
            commands: segment_views(self.commands@),
            background: self.background,
            pipes: self.pipes@,
            cursor: self.cursor as nat,
            last_pid: self.last_pid,
        }
    }
}

/// The view of the result of starting a run.
pub open spec fn run_result_view(r: Result<PipelineRun, ShellError>) -> Result<
    PipelineRunView,
    ShellError,
> {
    match r {
        Ok(run) => Ok(run@),
        Err(e) => Err(e),
    }
}

impl PipelineRun {
    #[verifier::type_invariant]
    spec fn inv(&self) -> bool {
        self@.wf()
    }

    /// Checks the pipeline and creates its pipes, all of them before any child
    /// is spawned. More than three commands, or an argument with a NUL
    /// character, are refused before anything is created, and nothing else is
    /// refused for those reasons. A pipeline of two or three commands fails
    /// otherwise only if a pipe cannot be created; those made so far are then
    /// closed again.
    pub fn begin(commands: Vec<TokenList>, background: bool) -> (run: Result<Self, ShellError>)
        ensures
            commands@.len() > MAX_SEGMENTS ==> run_result_view(run) == Err::<
                PipelineRunView,
                ShellError,
            >(ShellError::TooManyPipes),
            commands@.len() <= MAX_SEGMENTS && pipeline_has_nul(segment_views(commands@))
                ==> run_result_view(run) == Err::<PipelineRunView, ShellError>(
                ShellError::InvalidArgument,
            ),
            commands@.len() <= 1 && !pipeline_has_nul(segment_views(commands@)) ==> (run is Ok),
            match run {
                Ok(r) => {
                    &&& r@.wf()
                    &&& r@.commands == segment_views(commands@)
                    &&& r@.background == background
                    &&& r@.cursor == 0
                    &&& r@.last_pid == None::<i32>
                },
                Err(e) => {
                    ||| e == ShellError::TooManyPipes && commands@.len() > MAX_SEGMENTS
                    ||| e == ShellError::InvalidArgument && commands@.len() <= MAX_SEGMENTS
                        && pipeline_has_nul(segment_views(commands@))
                    ||| (e is PipeFailed) && 2 <= commands@.len() <= MAX_SEGMENTS
                        && !pipeline_has_nul(segment_views(commands@))
                },
            },
    {
        if commands.len() > MAX_SEGMENTS {
            return Err(ShellError::TooManyPipes);
        }
        let ghost views = segment_views(commands@);
        let mut k: usize = 0;
        while k < commands.len()
            invariant
                k <= commands.len(),
                commands@.len() <= MAX_SEGMENTS,
                views == segment_views(commands@),
                !pipeline_has_nul(views.take(k as int)),
            decreases commands.len() - k,
        {
            if any_has_nul(&commands[k].items) {
                assert(has_nul(views[k as int]));
                return Err(ShellError::InvalidArgument);
            }
            proof {
                if pipeline_has_nul(views.take(k + 1)) {
                    let w = choose|w: int| 0 <= w < k + 1 && has_nul(#[trigger] views.take(k + 1)[w]);
                    if w < k {
                        assert(has_nul(views.take(k as int)[w]));
                    }
                }
            }
            k += 1;
        }
        proof {
            assert(views.take(commands.len() as int) =~= views);
        }
        let mut pipes: Vec<(i32, i32)> = Vec::new();
        let mut i: usize = 1;
        while i < commands.len()
            invariant
                1 <= i,
                commands@.len() <= MAX_SEGMENTS,
                i <= commands@.len() || i == 1,
                pipes@.len() + 1 == i,
                !pipeline_has_nul(segment_views(commands@)),
            decreases commands.len() - i,
        {
            match open_pipe() {
                Ok(ends) => pipes.push(ends),
                Err(errno) => {
                    close_pipes(&pipes);
                    return Err(ShellError::PipeFailed(errno));
                },
            }
            i += 1;
        }
        Ok(PipelineRun { commands, background, pipes, cursor: 0, last_pid: None })
    }

    /// The pipes of the run, in the order of the commands they join.
    pub fn pipes(&self) -> (pipes: &Vec<(i32, i32)>)
        ensures
            pipes@ == self@.pipes,
            self@.wf(),
    {
        proof {
            use_type_invariant(self);
        }
        &self.pipes
    }

    /// The process id of the child spawned last, if any.
    pub fn last_pid(&self) -> (pid: Option<i32>)
        ensures
            pid == self@.last_pid,
    {
        self.last_pid
    }

    /// The next child to spawn: the next command that has any token, reading
    /// from the pipe before it unless it is the first, and writing to the pipe
    /// after it unless it is the last. `None` when every command has been
    /// looked at.
    pub fn next_spawn(&mut self) -> (request: Option<SpawnRequest>)
        ensures
            old(self)@.wf(),
            final(self)@.wf(),
            final(self)@.commands == old(self)@.commands,
            final(self)@.background == old(self)@.background,
            final(self)@.pipes == old(self)@.pipes,
            final(self)@.last_pid == old(self)@.last_pid,
            match request {
                Some(r) => {
                    &&& r.segment == next_command(old(self)@.commands, old(self)@.cursor as int)
                    &&& r.segment < old(self)@.commands.len()
                    &&& final(self)@.cursor == r.segment + 1
                    &&& texts(r.argv@) == old(self)@.commands[r.segment as int]
                    &&& r.stdin == old(self)@.stdin_of(r.segment as int)
                    &&& r.stdout == old(self)@.stdout_of(r.segment as int)
                    &&& r.close@ == all_ends(old(self)@.pipes)
                },
                None => {
                    &&& next_command(old(self)@.commands, old(self)@.cursor as int) == old(
                        self,
                    )@.commands.len()
                    &&& final(self)@.cursor == old(self)@.commands.len()
                },
            },
    {
        proof {
            use_type_invariant(&*self);
        }
        let ghost views = segment_views(self.commands@);
        let ghost start = self.cursor as int;
        let mut at = self.cursor;
        while at < self.commands.len() && self.commands[at].size() == 0
            invariant
                *self == *old(self),
                self@.wf(),
                self.cursor <= at <= self.commands@.len(),
                views == segment_views(self.commands@),
                next_command(views, start) == next_command(views, at as int),
            decreases self.commands.len() - at,
        {
            proof {
                assert(views[at as int] == self.commands@[at as int]@);
            }
            at += 1;
        }
        if at >= self.commands.len() {
            self.cursor = at;
            return None;
        }
        let segment = at;
        proof {
            assert(views[segment as int] == self.commands@[segment as int]@);
        }
        let argv = self.commands[segment].clone().items;
        let stdin = if segment > 0 {
            Some(self.pipes[segment - 1].0)
        } else {
            None
        };
        let stdout = if segment + 1 < self.commands.len() {
            Some(self.pipes[segment].1)
        } else {
            None
        };
        let close = pipe_ends(&self.pipes);
        self.cursor = segment + 1;
        Some(SpawnRequest { segment, argv, stdin, stdout, close })
    }

    /// Records the process id of the child that was just spawned.
    pub fn spawned(&mut self, pid: i32)
        ensures
            final(self)@ == (PipelineRunView { last_pid: Some(pid), ..old(self)@ }),
    {
        proof {
            use_type_invariant(&*self);
        }
        self.last_pid = Some(pid);
    }

    /// The whole pipeline written on one line, as a job shows it.
    pub fn command_text(&self) -> (line: String)
        ensures
            line@ == self@.command_text(),
    {
        let mut words: Vec<String> = Vec::new();
        let ghost views = segment_views(self.commands@);
        let mut i: usize = 0;
        proof {
            assert(views.take(0) =~= Seq::<Seq<Seq<char>>>::empty());
            assert(texts(words@) =~= Seq::<Seq<char>>::empty());
        }
        while i < self.commands.len()
            invariant
                i <= self.commands.len(),
                views == segment_views(self.commands@),
                texts(words@) == pipeline_tokens(views.take(i as int)),
            decreases self.commands.len() - i,
        {
            let ghost before = texts(words@);
            if i > 0 {
                let mut bar = String::new();
                bar.push('|');
                assert(bar@ =~= pipe_operator());
                words.push(bar);
                assert(texts(words@) =~= before.push(pipe_operator()));
            }
            let ghost with_bar = texts(words@);
            let command = &self.commands[i];
            let mut k: usize = 0;
            while k < command.items.len()
                invariant
                    k <= command.items.len(),
                    texts(words@) == with_bar + command@.take(k as int),
                decreases command.items.len() - k,
            {
                let ghost w0 = texts(words@);
                words.push(command.items[k].clone());
                proof {
                    assert(command@[k as int] == command.items@[k as int]@);
                    assert(texts(words@) =~= w0.push(command@[k as int]));
                    assert(command@.take(k + 1) =~= command@.take(k as int).push(command@[k as int]));
                }
                k += 1;
            }
            proof {
                assert(command@.take(command.items.len() as int) =~= command@);
                let next = views.take(i + 1);
                assert(next.drop_last() =~= views.take(i as int));
                assert(next.last() == command@);
                if i == 0 {
                    assert(before + command@ =~= command@);
                }
            }
            i += 1;
        }
        proof {
            assert(views.take(self.commands.len() as int) =~= views);
        }
        join_words(&words)
    }

    /// Ends the launch once every child is spawned. The pipes are closed, since
    /// the caller has no part in them. In the background, the child spawned
    /// last becomes a job under the text of the whole pipeline, and nothing is
    /// waited for. In the foreground, one wait for any child is made per
    /// command.
    pub fn finish(self, manager: &mut BackgroundManager) -> (launched: Result<Launched, ShellError>)
        ensures
            self@.background ==> match self@.last_pid {
                Some(pid) => {
                    if old(manager)@.next_job_number < usize::MAX {
                        &&& launched == Ok::<Launched, ShellError>(
                            Launched::Backgrounded(
                                JobHandle {
                                    job_number: old(manager)@.next_job_number as usize,
                                    pid,
                                },
                            ),
                        )
                        &&& final(manager)@ == old(manager)@.register(
                            pid as int,
                            self@.command_text(),
                        )
                    } else {
                        &&& launched == Err::<Launched, ShellError>(
                            ShellError::JobNumbersExhausted,
                        )
                        &&& final(manager)@ == old(manager)@
                    }
                },
                None => {
                    &&& launched == Ok::<Launched, ShellError>(Launched::Nothing)
                    &&& final(manager)@ == old(manager)@
                },
            },
            !self@.background ==> {
                &&& launched == Ok::<Launched, ShellError>(Launched::Waited)
                &&& final(manager)@ == old(manager)@
            },
            old(manager)@.wf() ==> final(manager)@.wf(),
    {
        close_pipes(&self.pipes);
        if self.background {
            match self.last_pid {
                Some(pid) => {
                    let text = self.command_text();
                    register_background(manager, pid, text)
                },
                None => {
                    Ok(Launched::Nothing)
                },
            }
        } else {
            let mut i: usize = 0;
            while i < self.commands.len()
                invariant
                    i <= self.commands.len(),
                decreases self.commands.len() - i,
            {
                let _ = wait_child(ANY_CHILD, false);
                i += 1;
            }
            Ok(Launched::Waited)
        }
    }
}

/// Every descriptor of the pipes, read end before write end.
pub fn pipe_ends(pipes: &Vec<(i32, i32)>) -> (ends: Vec<i32>)
    ensures
        ends@ == all_ends(pipes@),
{
    let mut ends: Vec<i32> = Vec::new();
    let mut i: usize = 0;
    proof {
        assert(pipes@.take(0) =~= Seq::<(i32, i32)>::empty());
    }
    while i < pipes.len()
        invariant
            i <= pipes.len(),
            ends@ == all_ends(pipes@.take(i as int)),
        decreases pipes.len() - i,
    {
        proof {
            assert(pipes@.take(i + 1).drop_last() =~= pipes@.take(i as int));
        }
        ends.push(pipes[i].0);
        ends.push(pipes[i].1);
        i += 1;
    }
    proof {
        assert(pipes@.take(pipes.len() as int) =~= pipes@);
    }
    ends
}

/// Closes both ends of every pipe. A close that fails is ignored.
pub fn close_pipes(pipes: &Vec<(i32, i32)>) {
    let mut i: usize = 0;
    while i < pipes.len()
        invariant
            i <= pipes.len(),
        decreases pipes.len() - i,
    {
        let _ = close_fd(pipes[i].0);
        let _ = close_fd(pipes[i].1);
        i += 1;
    }
}

/// Wires a freshly created child before it runs its program: the requested
/// descriptors become standard input and standard output, and then every pipe
/// descriptor is closed, so that no write end stays open by accident. Fails
/// only if a descriptor cannot be duplicated; a child that inherits both
/// streams always succeeds.
pub fn wire_child(request: &SpawnRequest) -> (wired: Result<(), ShellError>)
    ensures
        (request.stdin is None) && (request.stdout is None) ==> (wired is Ok),
        wired matches Err(e) ==> (e is DuplicateFailed),
{
    let steps = wiring_steps(request);
    let mut i: usize = 0;
    while i < steps.len()
        invariant
            i <= steps.len(),
            steps@ == wiring_of(request.stdin, request.stdout, request.close@),
        decreases steps.len() - i,
    {
        match steps[i] {
            WireStep::Redirect(fd, stream) => {
                if let Err(e) = redirect_stream(fd, stream) {
                    return Err(e);
                }
            },
            WireStep::Close(fd) => {
                let _ = close_fd(fd);
            },
        }
        i += 1;
    }
    Ok(())
}

/// One thing a child of a pipeline does to its descriptors.
#[derive(Clone, Copy, Debug, PartialEq, Eq, Structural)]
pub enum WireStep {
    /// Make this descriptor the given standard stream.
    Redirect(i32, RedirectionKind),
    /// Close this descriptor. A close that fails is ignored.
    Close(i32),
}

/// The redirection of one standard stream, if a descriptor is given for it.
pub open spec fn redirection_step(fd: Option<i32>, stream: RedirectionKind) -> Seq<WireStep> {
    match fd {
        Some(fd) => seq![WireStep::Redirect(fd, stream)],
        None => Seq::empty(),
    }
}

/// What a child of a pipeline does before it runs its program, in order:
/// standard input is redirected, if asked for, then standard output, if asked
/// for, and then every descriptor of the close list is closed, in the order of
/// the list. If a redirection fails, the child goes no further.
pub open spec fn wiring_of(stdin: Option<i32>, stdout: Option<i32>, close: Seq<i32>) -> Seq<
    WireStep,
> {
    redirection_step(stdin, RedirectionKind::Input) + redirection_step(
        stdout,
        RedirectionKind::Output,
    ) + Seq::new(close.len(), |i: int| WireStep::Close(close[i]))
}

/// The steps that wire the child of `request`, in the order in which it takes
/// them.
pub fn wiring_steps(request: &SpawnRequest) -> (steps: Vec<WireStep>)
    ensures
        steps@ == wiring_of(request.stdin, request.stdout, request.close@),
{
    let mut steps: Vec<WireStep> = Vec::new();
    if let Some(fd) = request.stdin {
        steps.push(WireStep::Redirect(fd, RedirectionKind::Input));
    }
    if let Some(fd) = request.stdout {
        steps.push(WireStep::Redirect(fd, RedirectionKind::Output));
    }
    let ghost redirections = steps@;
    assert(redirections =~= redirection_step(request.stdin, RedirectionKind::Input)
        + redirection_step(request.stdout, RedirectionKind::Output));
    let mut i: usize = 0;
    while i < request.close.len()
        invariant
            i <= request.close.len(),
            steps@ == redirections + Seq::new(
                i as nat,
                |k: int| WireStep::Close(request.close@[k]),
            ),
        decreases request.close.len() - i,
    {
        steps.push(WireStep::Close(request.close[i]));
        assert(steps@ =~= redirections + Seq::new(
            (i + 1) as nat,
            |k: int| WireStep::Close(request.close@[k]),
        ));
        i += 1;
    }
    steps
}

/// In a pipeline whose commands all have a token, none is skipped: the next
/// command to spawn is the one the cursor stands on, so the children are
/// spawned first to last, one per command, and after the last there is none.
pub proof fn lemma_every_command_is_spawned(segments: Seq<Seq<Seq<char>>>, from: int)
    requires
        forall|k: int| 0 <= k < segments.len() ==> (#[trigger] segments[k]).len() > 0,
        0 <= from <= segments.len(),
    ensures
        next_command(segments, from) == from,
{
}

/// Every pipe has two descriptors on the close list: a child of a pipeline
/// of `n` commands closes `2 * (n - 1)` descriptors.
pub proof fn lemma_all_ends_len(pipes: Seq<(i32, i32)>)
    ensures
        all_ends(pipes).len() == 2 * pipes.len(),
        forall|k: int|
            0 <= k < pipes.len() ==> all_ends(pipes)[2 * k] == (#[trigger] pipes[k]).0 && all_ends(
                pipes,
            )[2 * k + 1] == pipes[k].1,
    decreases pipes.len(),
{
    if pipes.len() > 0 {
        let init = pipes.drop_last();
        lemma_all_ends_len(init);
        assert forall|k: int| 0 <= k < pipes.len() implies all_ends(pipes)[2 * k] == (
        #[trigger] pipes[k]).0 && all_ends(pipes)[2 * k + 1] == pipes[k].1 by {
            if k < init.len() {
                assert(init[k] == pipes[k]);
            }
        }
    }
}

} // verus!
