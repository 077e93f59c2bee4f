//! Program logs as a forest: each invocation with its own lines and, below
//! it, the invocations that it made.

use vstd::prelude::*;
use vstd::string::*;
use crate::raw_log::{RawCuLog, RawDataLog, RawLog, RawLogView, RawProgramLog};
use crate::text::views;

verus! {

/// How an invocation ended: with success, or with an error.
#[derive(Debug, Clone, Copy, PartialEq, Eq)]
pub enum ProgramResult<'a> {
    Success,
    Failed(&'a str),
}

/// How an invocation ended: `None` for success, else the error.
pub type ResultView = Option<Seq<char>>;

/// An invocation, as plain values: its own lines by kind, all its lines as
/// text in `raw_logs`, and below it in `cpi_logs` the invocations that it
/// made.
pub ghost struct TreeView {
    pub program_id: Seq<char>,
    pub depth: u8,
    pub result: ResultView,
    pub program_logs: Seq<RawLogView>,
    pub data_logs: Seq<RawLogView>,
    pub return_data: Option<Seq<char>>,
    pub compute_log: Option<RawLogView>,
    pub cpi_logs: Seq<TreeView>,
    pub raw_logs: Seq<Seq<char>>,
}

/// An invocation that has not ended yet.
pub ghost struct FrameView {
    pub program_id: Seq<char>,
    pub depth: u8,
    pub program_logs: Seq<RawLogView>,
    pub data_logs: Seq<RawLogView>,
    pub return_data: Option<Seq<char>>,
    pub compute_log: Option<RawLogView>,
    pub cpi_logs: Seq<TreeView>,
    pub raw_logs: Seq<Seq<char>>,
}

/// The frame of an invocation that starts with the line `raw`.
pub open spec fn new_frame(program_id: Seq<char>, depth: u8, raw: Seq<char>) -> FrameView {
    FrameView {
        program_id,
        depth,
        program_logs: Seq::empty(),
        data_logs: Seq::empty(),
        return_data: None,
        compute_log: None,
        cpi_logs: Seq::empty(),
        raw_logs: seq![raw],
    }
}

/// The invocation of a frame that ends with the line `raw`.
pub open spec fn finalized(f: FrameView, result: ResultView, raw: Seq<char>) -> TreeView {
    TreeView {
        program_id: f.program_id,
        depth: f.depth,
        result,
        program_logs: f.program_logs,
        data_logs: f.data_logs,
        return_data: f.return_data,
        compute_log: f.compute_log,
        cpi_logs: f.cpi_logs,
        raw_logs: f.raw_logs.push(raw),
    }
}

/// The invocations that are open, the innermost last, and those that have
/// ended at the top level.
pub ghost struct State {
    pub stack: Seq<FrameView>,
    pub completed: Seq<TreeView>,
}

/// The state after the innermost open invocation ends: it goes below the
/// invocation that made it, or to the completed ones where none did.
pub open spec fn closed(st: State, result: ResultView, raw: Seq<char>) -> State {
    let tree = finalized(st.stack.last(), result, raw);
    let rest = st.stack.drop_last();
    if rest.len() > 0 {
        let parent = rest.last();
        State {
            stack: rest.drop_last().push(
                FrameView { cpi_logs: parent.cpi_logs.push(tree), ..parent },
            ),
            completed: st.completed,
        }
    } else {
        State { stack: rest, completed: st.completed.push(tree) }
    }
}

/// The state with the innermost open invocation replaced.
pub open spec fn with_top(st: State, top: FrameView) -> State {
    State { stack: st.stack.drop_last().push(top), completed: st.completed }
}

/// The state after a line, or `None` where the line does not fit: an end
/// without an open invocation, or an end or a return of another program than
/// the innermost open one. Lines outside every invocation are dropped.
pub open spec fn step(st: State, log: RawLogView) -> Option<State> {
    match log {
        RawLogView::Invoke { raw, program_id, depth } => Some(
            State { stack: st.stack.push(new_frame(program_id, depth, raw)), completed: st.completed },
        ),
        RawLogView::Success { raw, program_id } => if st.stack.len() > 0
            && st.stack.last().program_id == program_id {
            Some(closed(st, None, raw))
        } else {
            None
        },
        RawLogView::Failed { raw, program_id, err } => if st.stack.len() > 0
            && st.stack.last().program_id == program_id {
            Some(closed(st, Some(err), raw))
        } else {
            None
        },
        RawLogView::Log { raw, msg } => if st.stack.len() > 0 {
            let top = st.stack.last();
            Some(
                with_top(
                    st,
                    FrameView {
                        raw_logs: top.raw_logs.push(raw),
                        program_logs: top.program_logs.push(log),
                        ..top
                    },
                ),
            )
        } else {
            Some(st)
        },
        RawLogView::Data { raw, data } => if st.stack.len() > 0 {
            let top = st.stack.last();
            Some(
                with_top(
                    st,
                    FrameView {
                        raw_logs: top.raw_logs.push(raw),
                        data_logs: top.data_logs.push(log),
                        ..top
                    },
                ),
            )
        } else {
            Some(st)
        },
        RawLogView::Return { raw, program_id, data } => if st.stack.len() > 0 {
            let top = st.stack.last();
            if top.program_id == program_id {
                Some(
                    with_top(
                        st,
                        FrameView {
                            raw_logs: top.raw_logs.push(raw),
                            return_data: Some(data),
                            ..top
                        },
                    ),
                )
            } else {
                None
            }
        } else {
            Some(st)
        },
        RawLogView::Cu { raw, program_id, consumed, budget } => if st.stack.len() > 0 {
            let top = st.stack.last();
            Some(
                with_top(
                    st,
                    FrameView { raw_logs: top.raw_logs.push(raw), compute_log: Some(log), ..top },
                ),
            )
        } else {
            Some(st)
        },
        RawLogView::Other(raw) => if st.stack.len() > 0 {
            let top = st.stack.last();
            Some(with_top(st, FrameView { raw_logs: top.raw_logs.push(raw), ..top }))
        } else {
            Some(st)
        },
    }
}

/// The state after the lines of `logs` from the `i`-th on.
pub open spec fn run(logs: Seq<RawLogView>, i: int, st: State) -> Option<State>
    decreases logs.len() - i,
{
    if i < 0 || i >= logs.len() {
        Some(st)
    } else {
        match step(st, logs[i]) {
            Some(next) => run(logs, i + 1, next),
            None => None,
        }
    }
}

/// The forest that the lines `logs` write: the invocations of the top level
/// in the order in which they end. `None` where a line does not fit or an
/// invocation is left open.
pub open spec fn structured(logs: Seq<RawLogView>) -> Option<Seq<TreeView>> {
    match run(logs, 0, State { stack: Seq::empty(), completed: Seq::empty() }) {
        Some(st) => if st.stack.len() == 0 {
            Some(st.completed)
        } else {
            None
        },
        None => None,
    }
}

/// An invocation with its lines and the invocations that it made.
#[derive(Debug, PartialEq, Eq)]
pub struct StructuredLog<'a> {
    pub program_id: &'a str,
    pub depth: u8,
    pub result: ProgramResult<'a>,
    pub program_logs: Vec<RawProgramLog<'a>>,
    pub data_logs: Vec<RawDataLog<'a>>,
    pub return_data: Option<&'a str>,
    pub compute_log: Option<RawCuLog<'a>>,
    pub cpi_logs: Vec<StructuredLog<'a>>,
    pub raw_logs: Vec<&'a str>,
}

/// The lines that a program wrote, as plain values.
pub open spec fn program_log_views(s: Seq<RawProgramLog>) -> Seq<RawLogView> {
    Seq::new(s.len(), |i: int| RawLog::Log(s[i])@)
}

/// The lines of data, as plain values.
pub open spec fn data_log_views(s: Seq<RawDataLog>) -> Seq<RawLogView> {
    Seq::new(s.len(), |i: int| RawLog::Data(s[i])@)
}

/// The texts of `s`, as plain values.
pub open spec fn text_views(s: Seq<&str>) -> Seq<Seq<char>> {
    Seq::new(s.len(), |i: int| s[i]@)
}

/// How an invocation ended, as a plain value.
pub open spec fn result_view(r: ProgramResult) -> ResultView {
    match r {
        ProgramResult::Success => None,
        ProgramResult::Failed(e) => Some(e@),
    }
}

/// The text of `o`, if there is one, as a plain value.
pub open spec fn option_text(o: Option<&str>) -> Option<Seq<char>> {
    match o {
        Some(s) => Some(s@),
        None => None,
    }
}

/// The line that tells the compute units, if there is one, as a plain value.
pub open spec fn compute_view(o: Option<RawCuLog>) -> Option<RawLogView> {
    match o {
        Some(c) => Some(RawLog::Cu(c)@),
        None => None,
    }
}

/// What an invocation holds, as plain values.
pub open spec fn tree_view(t: StructuredLog) -> TreeView
    decreases t,
{
    TreeView {
        program_id: t.program_id@,
        depth: t.depth,
        result: result_view(t.result),
        program_logs: program_log_views(t.program_logs@),
        data_logs: data_log_views(t.data_logs@),
        return_data: option_text(t.return_data),
        compute_log: compute_view(t.compute_log),
        cpi_logs: Seq::new(
            t.cpi_logs@.len(),
            |i: int|
                if 0 <= i < t.cpi_logs@.len() {
                    tree_view(t.cpi_logs@[i])
                } else {
                    arbitrary()
                },
        ),
        raw_logs: text_views(t.raw_logs@),
    }
}

impl<'a> View for StructuredLog<'a> {
    type V = TreeView;

    open spec fn view(&self) -> TreeView {
        tree_view(*self)
    }
}

/// An invocation that is being read.
pub struct FrameBuilder<'a> {
    pub program_id: &'a str,
    pub depth: u8,
    pub program_logs: Vec<RawProgramLog<'a>>,
    pub data_logs: Vec<RawDataLog<'a>>,
    pub return_data: Option<&'a str>,
    pub compute_log: Option<RawCuLog<'a>>,
    pub raw_logs: Vec<&'a str>,
    pub cpi_logs: Vec<StructuredLog<'a>>,
}

impl<'a> View for FrameBuilder<'a> {
    type V = FrameView;

    open spec fn view(&self) -> FrameView {
        FrameView {
            program_id: self.program_id@,
            depth: self.depth,
            program_logs: program_log_views(self.program_logs@),
            data_logs: data_log_views(self.data_logs@),
            return_data: option_text(self.return_data),
            compute_log: compute_view(self.compute_log),
            cpi_logs: views(self.cpi_logs@),
            raw_logs: text_views(self.raw_logs@),
        }
    }
}

/// Whether two texts are the same.
pub fn same_text(a: &str, b: &str) -> (r: bool)
    ensures
        r == (a@ == b@),
{
    crate::text::str_eq(a, b)
}

impl<'a> FrameBuilder<'a> {
    /// The frame of an invocation that starts with the line `raw`.
    pub fn new(program_id: &'a str, depth: u8, raw: &'a str) -> (r: Self)
        ensures
            r@ == new_frame(program_id@, depth, raw@),
    {
        let mut raw_logs: Vec<&'a str> = Vec::new();
        raw_logs.push(raw);
        let r = FrameBuilder {
            program_id,
            depth,
            program_logs: Vec::new(),
            data_logs: Vec::new(),
            return_data: None,
            compute_log: None,
            raw_logs,
            cpi_logs: Vec::new(),
        };
        assert(r@.raw_logs =~= seq![raw@]);
        assert(r@.program_logs =~= Seq::empty());
        assert(r@.data_logs =~= Seq::empty());
        assert(r@.cpi_logs =~= Seq::empty());
        r
    }

    /// Takes a line that the program wrote.
    pub fn push_program_log(&mut self, log: RawProgramLog<'a>)
        ensures
            final(self)@ == (FrameView {
                raw_logs: old(self)@.raw_logs.push(log.raw@),
                program_logs: old(self)@.program_logs.push(RawLog::Log(log)@),
                ..old(self)@
            }),
    {
        self.raw_logs.push(log.raw);
        self.program_logs.push(log);
        assert(self@.raw_logs =~= old(self)@.raw_logs.push(log.raw@));
        assert(self@.program_logs =~= old(self)@.program_logs.push(RawLog::Log(log)@));
    }

    /// Takes a line of data.
    pub fn push_data_log(&mut self, log: RawDataLog<'a>)
        ensures
            final(self)@ == (FrameView {
                raw_logs: old(self)@.raw_logs.push(log.raw@),
                data_logs: old(self)@.data_logs.push(RawLog::Data(log)@),
                ..old(self)@
            }),
    {
        self.raw_logs.push(log.raw);
        self.data_logs.push(log);
        assert(self@.raw_logs =~= old(self)@.raw_logs.push(log.raw@));
        assert(self@.data_logs =~= old(self)@.data_logs.push(RawLog::Data(log)@));
    }

    /// Takes a line of no known form.
    pub fn push_raw(&mut self, raw: &'a str)
        ensures
            final(self)@ == (FrameView {
                raw_logs: old(self)@.raw_logs.push(raw@),
                ..old(self)@
            }),
    {
        self.raw_logs.push(raw);
        assert(self@.raw_logs =~= old(self)@.raw_logs.push(raw@));
    }

    /// Takes the data that the program returned.
    pub fn set_return_data(&mut self, program_id: &'a str, data: &'a str, raw: &'a str)
        requires
            old(self)@.program_id == program_id@,
        ensures
            final(self)@ == (FrameView {
                raw_logs: old(self)@.raw_logs.push(raw@),
                return_data: Some(data@),
                ..old(self)@
            }),
    {
        self.raw_logs.push(raw);
        self.return_data = Some(data);
        assert(self@.raw_logs =~= old(self)@.raw_logs.push(raw@));
    }

    /// Takes the line that tells the compute units.
    pub fn set_compute_log(&mut self, log: RawCuLog<'a>)
        ensures
            final(self)@ == (FrameView {
                raw_logs: old(self)@.raw_logs.push(log.raw@),
                compute_log: Some(RawLog::Cu(log)@),
                ..old(self)@
            }),
    {
        self.raw_logs.push(log.raw);
        self.compute_log = Some(log);
        assert(self@.raw_logs =~= old(self)@.raw_logs.push(log.raw@));
    }

    /// Takes an invocation that this one made.
    pub fn push_cpi(&mut self, log: StructuredLog<'a>)
        ensures
            final(self)@ == (FrameView {
                cpi_logs: old(self)@.cpi_logs.push(log@),
                ..old(self)@
            }),
    {
        self.cpi_logs.push(log);
        assert(self@.cpi_logs =~= old(self)@.cpi_logs.push(log@));
    }

    /// Ends the invocation with the line `final_raw`.
    pub fn finalize(self, result: ProgramResult<'a>, final_raw: &'a str) -> (r: StructuredLog<'a>)
        ensures
            r@ == finalized(self@, result_view(result), final_raw@),
    {
        let mut this = self;
        this.raw_logs.push(final_raw);
        let r = StructuredLog {
            program_id: this.program_id,
            depth: this.depth,
            result,
            program_logs: this.program_logs,
            data_logs: this.data_logs,
            return_data: this.return_data,
            compute_log: this.compute_log,
            cpi_logs: this.cpi_logs,
            raw_logs: this.raw_logs,
        };
        assert(r@.raw_logs =~= self@.raw_logs.push(final_raw@));
        assert(r@.cpi_logs =~= self@.cpi_logs);
        r
    }
}

/// The frames of a stack and the completed invocations, as a state.
pub open spec fn state_view(stack: Seq<FrameBuilder>, completed: Seq<StructuredLog>) -> State {
    State { stack: views(stack), completed: views(completed) }
}

/// Ends the innermost open invocation.
fn close<'a>(
    stack: &mut Vec<FrameBuilder<'a>>,
    completed: &mut Vec<StructuredLog<'a>>,
    result: ProgramResult<'a>,
    raw: &'a str,
)
    requires
        old(stack)@.len() > 0,
    ensures
        state_view(final(stack)@, final(completed)@) == closed(
            state_view(old(stack)@, old(completed)@),
            result_view(result),
            raw@,
        ),
{
    let ghost before = state_view(stack@, completed@);
    let builder = stack.pop().unwrap();
    assert(views(stack@) =~= before.stack.drop_last());
    let tree = builder.finalize(result, raw);
    match stack.pop() {
        Some(parent) => {
            let mut parent = parent;
            let ghost rest = views(stack@);
            assert(rest =~= before.stack.drop_last().drop_last());
            parent.push_cpi(tree);
            stack.push(parent);
            assert(views(stack@) =~= rest.push(parent@));
        },
        None => {
            completed.push(tree);
            assert(views(completed@) =~= before.completed.push(tree@));
            assert(views(stack@) =~= before.stack.drop_last());
        },
    }
}

impl<'a> StructuredLog<'a> {
    /// Reads the forest of invocations from the lines of a log, or `None`
    /// where the lines do not nest: an end without an open invocation, an end
    /// or a return of another program than the innermost open one, or an
    /// invocation that is left open.
    pub fn try_from_logs(logs: &Vec<RawLog<'a>>) -> (r: Option<Vec<StructuredLog<'a>>>)
        ensures
            match r {
                Some(v) => structured(views(logs@)) == Some(views(v@)),
                None => structured(views(logs@)) is None,
            },
    {
        let mut stack: Vec<FrameBuilder<'a>> = Vec::new();
        let mut completed: Vec<StructuredLog<'a>> = Vec::new();
        let ghost all = views(logs@);
        let ghost goal = run(all, 0, State { stack: Seq::empty(), completed: Seq::empty() });
        assert(state_view(stack@, completed@) =~= (State {
            stack: Seq::empty(),
            completed: Seq::empty(),
        })) by {
            assert(views(stack@) =~= Seq::<FrameView>::empty());
            assert(views(completed@) =~= Seq::<TreeView>::empty());
        }
        let mut i: usize = 0;
        while i < logs.len()
            invariant
                i <= logs@.len(),
                all == views(logs@),
                goal == run(all, 0, State { stack: Seq::empty(), completed: Seq::empty() }),
                goal == run(all, i as int, state_view(stack@, completed@)),
            decreases logs@.len() - i,
        {
            let ghost st = state_view(stack@, completed@);
            assert(all[i as int] == logs@[i as int]@);
            match logs[i] {
                RawLog::Invoke(log) => {
                    stack.push(FrameBuilder::new(log.program_id, log.depth, log.raw));
                    assert(views(stack@) =~= st.stack.push(
                        new_frame(log.program_id@, log.depth, log.raw@),
                    ));
                },
                RawLog::Success(log) => {
                    if stack.len() == 0 {
                        return None;
                    }
                    assert(st.stack.last() == stack@[stack@.len() - 1]@);
                    if !same_text(stack[stack.len() - 1].program_id, log.program_id) {
                        return None;
                    }
                    close(&mut stack, &mut completed, ProgramResult::Success, log.raw);
                },
                RawLog::Failed(log) => {
                    if stack.len() == 0 {
                        return None;
                    }
                    assert(st.stack.last() == stack@[stack@.len() - 1]@);
                    if !same_text(stack[stack.len() - 1].program_id, log.program_id) {
                        return None;
                    }
                    close(&mut stack, &mut completed, ProgramResult::Failed(log.err), log.raw);
                },
                RawLog::Log(log) => {
                    match stack.pop() {
                        Some(top) => {
                            let mut top = top;
                            let ghost rest = views(stack@);
                            assert(rest =~= st.stack.drop_last());
                            top.push_program_log(log);
                            stack.push(top);
                            assert(views(stack@) =~= rest.push(top@));
                        },
                        None => {},
                    }
                },
                RawLog::Data(log) => {
                    match stack.pop() {
                        Some(top) => {
                            let mut top = top;
                            let ghost rest = views(stack@);
                            assert(rest =~= st.stack.drop_last());
                            top.push_data_log(log);
                            stack.push(top);
                            assert(views(stack@) =~= rest.push(top@));
                        },
                        None => {},
                    }
                },
                RawLog::Return(log) => {
                    match stack.pop() {
                        Some(top) => {
                            let mut top = top;
                            let ghost rest = views(stack@);
                            assert(rest =~= st.stack.drop_last());
                            if !same_text(top.program_id, log.program_id) {
                                return None;
                            }
                            top.set_return_data(log.program_id, log.data, log.raw);
                            stack.push(top);
                            assert(views(stack@) =~= rest.push(top@));
                        },
                        None => {},
                    }
                },
                RawLog::Cu(log) => {
                    match stack.pop() {
                        Some(top) => {
                            let mut top = top;
                            let ghost rest = views(stack@);
                            assert(rest =~= st.stack.drop_last());
                            top.set_compute_log(log);
                            stack.push(top);
                            assert(views(stack@) =~= rest.push(top@));
                        },
                        None => {},
                    }
                },
                RawLog::Other(raw) => {
                    match stack.pop() {
                        Some(top) => {
                            let mut top = top;
                            let ghost rest = views(stack@);
                            assert(rest =~= st.stack.drop_last());
                            top.push_raw(raw);
                            stack.push(top);
                            assert(views(stack@) =~= rest.push(top@));
                        },
                        None => {},
                    }
                },
            }
            assert(step(st, all[i as int]) == Some(state_view(stack@, completed@)));
            i = i + 1;
        }
        if stack.len() == 0 {
            Some(completed)
        } else {
            None
        }
    }

    /// Reads the forest of invocations from the lines of a log: the
    /// invocations of the top level in the order in which they end, each with
    /// its own lines and the invocations that it made. The lines have to nest.
    pub fn from_logs(logs: Vec<RawLog<'a>>) -> (r: Vec<StructuredLog<'a>>)
        requires
            structured(views(logs@)) is Some,
        ensures
            structured(views(logs@)) == Some(views(r@)),
    {
        match StructuredLog::try_from_logs(&logs) {
            Some(v) => v,
            None => Vec::new(),
        }
    }
}

/// How an invocation ended, in the forest that is handed out.
#[derive(Debug, Clone, Copy, PartialEq, Eq)]
pub enum RawProgramResult<'a> {
    Success,
    Failed(&'a str),
}

/// An invocation with its lines and the invocations that it made.
#[derive(Debug, PartialEq, Eq)]
pub struct RawStructuredLog<'a> {
    pub program_id: &'a str,
    pub depth: u8,
    pub result: RawProgramResult<'a>,
    pub program_logs: Vec<RawProgramLog<'a>>,
    pub data_logs: Vec<RawDataLog<'a>>,
    pub return_data: Option<&'a str>,
    pub compute_log: Option<RawCuLog<'a>>,
    pub cpi_logs: Vec<RawStructuredLog<'a>>,
    pub raw_logs: Vec<&'a str>,
}

/// How an invocation ended, as a plain value.
pub open spec fn raw_result_view(r: RawProgramResult) -> ResultView {
    match r {
        RawProgramResult::Success => None,
        RawProgramResult::Failed(e) => Some(e@),
    }
}

/// What an invocation holds, as plain values.
pub open spec fn raw_tree_view(t: RawStructuredLog) -> TreeView
    decreases t,
{
    TreeView {
        program_id: t.program_id@,
        depth: t.depth,
        result: raw_result_view(t.result),
        program_logs: program_log_views(t.program_logs@),
        data_logs: data_log_views(t.data_logs@),
        return_data: option_text(t.return_data),
        compute_log: compute_view(t.compute_log),
        cpi_logs: Seq::new(
            t.cpi_logs@.len(),
            |i: int|
                if 0 <= i < t.cpi_logs@.len() {
                    raw_tree_view(t.cpi_logs@[i])
                } else {
                    arbitrary()
                },
        ),
        raw_logs: text_views(t.raw_logs@),
    }
}

impl<'a> View for RawStructuredLog<'a> {
    type V = TreeView;

    open spec fn view(&self) -> TreeView {
        raw_tree_view(*self)
    }
}

/// A copy of a list of lines that a program wrote.
fn copy_program_logs<'a>(v: &Vec<RawProgramLog<'a>>) -> (r: Vec<RawProgramLog<'a>>)
    ensures
        r@ == v@,
{
    let mut out: Vec<RawProgramLog<'a>> = Vec::new();
    let mut k: usize = 0;
    while k < v.len()
        invariant
            k <= v@.len(),
            out@ == v@.take(k as int),
        decreases v@.len() - k,
    {
        out.push(v[k]);
        assert(v@.take(k as int).push(v@[k as int]) =~= v@.take(k + 1));
        k = k + 1;
    }
    assert(v@.take(v@.len() as int) =~= v@);
    out
}

/// A copy of a list of lines of data.
fn copy_data_logs<'a>(v: &Vec<RawDataLog<'a>>) -> (r: Vec<RawDataLog<'a>>)
    ensures
        r@ == v@,
{
    let mut out: Vec<RawDataLog<'a>> = Vec::new();
    let mut k: usize = 0;
    while k < v.len()
        invariant
            k <= v@.len(),
            out@ == v@.take(k as int),
        decreases v@.len() - k,
    {
        out.push(v[k]);
        assert(v@.take(k as int).push(v@[k as int]) =~= v@.take(k + 1));
        k = k + 1;
    }
    assert(v@.take(v@.len() as int) =~= v@);
    out
}

/// A copy of a list of texts.
fn copy_texts<'a>(v: &Vec<&'a str>) -> (r: Vec<&'a str>)
    ensures
        r@ == v@,
{
    let mut out: Vec<&'a str> = Vec::new();
    let mut k: usize = 0;
    while k < v.len()
        invariant
            k <= v@.len(),
            out@ == v@.take(k as int),
        decreases v@.len() - k,
    {
        out.push(v[k]);
        assert(v@.take(k as int).push(v@[k as int]) =~= v@.take(k + 1));
        k = k + 1;
    }
    assert(v@.take(v@.len() as int) =~= v@);
    out
}

impl<'a> RawStructuredLog<'a> {
    /// The invocation `value`, with the invocations below it, as it is handed
    /// out.
    pub fn from_structured(value: &StructuredLog<'a>) -> (r: Self)
        ensures
            r@ == value@,
        decreases value,
    {
        let mut cpi_logs: Vec<RawStructuredLog<'a>> = Vec::new();
        let mut k: usize = 0;
        while k < value.cpi_logs.len()
            invariant
                k <= value.cpi_logs@.len(),
                cpi_logs@.len() == k,
                forall|m: int| 0 <= m < k ==> (#[trigger] cpi_logs@[m])@ == value.cpi_logs@[m]@,
            decreases value.cpi_logs@.len() - k,
        {
            let child = RawStructuredLog::from_structured(&value.cpi_logs[k]);
            cpi_logs.push(child);
            k = k + 1;
        }
        let r = RawStructuredLog {
            program_id: value.program_id,
            depth: value.depth,
            result: match value.result {
                ProgramResult::Success => RawProgramResult::Success,
                ProgramResult::Failed(err) => RawProgramResult::Failed(err),
            },
            program_logs: copy_program_logs(&value.program_logs),
            data_logs: copy_data_logs(&value.data_logs),
            return_data: value.return_data,
            compute_log: value.compute_log,
            cpi_logs,
            raw_logs: copy_texts(&value.raw_logs),
        };
        assert(r@.cpi_logs =~= value@.cpi_logs);
        r
    }

    /// Whether the lines of a log nest, so that a forest can be read from
    /// them.
    pub fn nests(logs: &Vec<RawLog<'a>>) -> (r: bool)
        ensures
            r == structured(views(logs@)) is Some,
    {
        StructuredLog::try_from_logs(logs).is_some()
    }

    /// Reads the forest of invocations from the lines of a log. The lines
    /// have to nest.
    pub fn from_raw_logs(logs: Vec<RawLog<'a>>) -> (r: Vec<Self>)
        requires
            structured(views(logs@)) is Some,
        ensures
            structured(views(logs@)) == Some(views(r@)),
    {
        let structured_log = StructuredLog::from_logs(logs);
        let mut out: Vec<RawStructuredLog<'a>> = Vec::new();
        let mut k: usize = 0;
        while k < structured_log.len()
            invariant
                k <= structured_log@.len(),
                out@.len() == k,
                forall|m: int| 0 <= m < k ==> (#[trigger] out@[m])@ == structured_log@[m]@,
            decreases structured_log@.len() - k,
        {
            out.push(RawStructuredLog::from_structured(&structured_log[k]));
            k = k + 1;
        }
        assert(views(out@) =~= views(structured_log@));
        out
    }
}

} // verus!
