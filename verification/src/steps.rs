use vstd::prelude::*;
use crate::error::Error;
use crate::shim::str_eq;

verus! {

/// One function of the debuggee, as the line table describes it: its name
/// and the source lines of its statements, in execution order.
pub struct FunctionLines {
    pub name: String,
    pub lines: Vec<u64>,
}

/// A call site: the source line whose statement calls `callee`.
pub struct CallSite {
    pub line: u64,
    pub callee: usize,
}

/// The control-flow summary of a debuggee, as built from its line table:
/// which source file it comes from, its functions, its call sites, and the
/// function execution starts in.
///
/// The stepping driver proper — placing traps and resuming the inferior —
/// is outside this core; these are the decisions it acts on: given where
/// execution stands, where does a step land next.
pub struct ProgramModel {
    pub file: String,
    pub functions: Vec<FunctionLines>,
    pub calls: Vec<CallSite>,
    pub entry: usize,
}

/// A frame of the modelled call stack: a function and the index of the
/// statement execution stands at.
#[derive(Clone, Copy)]
pub struct StackFrame {
    pub func: usize,
    pub pos: usize,
}

/// A well-formed program model: the entry point exists, every function has
/// at least one statement, and every call site targets a function.
pub open spec fn model_wf(m: &ProgramModel) -> bool {
    &&& m.entry < m.functions@.len()
    &&& forall|i: int|
        0 <= i < m.functions@.len() ==> (#[trigger] m.functions@[i]).lines@.len() > 0
    &&& forall|i: int| 0 <= i < m.calls@.len() ==> (#[trigger] m.calls@[i]).callee
        < m.functions@.len()
}

/// A frame that stands at a real statement of a real function.
pub open spec fn frame_wf(m: &ProgramModel, fr: StackFrame) -> bool {
    fr.func < m.functions@.len() && fr.pos < m.functions@[fr.func as int].lines@.len()
}

/// The source line a frame stands at.
pub open spec fn frame_line(m: &ProgramModel, fr: StackFrame) -> u64 {
    m.functions@[fr.func as int].lines@[fr.pos as int]
}

/// The callee of the first call site at `line`, if any.
pub open spec fn spec_call_at(calls: Seq<CallSite>, line: u64) -> Option<usize>
    decreases calls.len(),
{
    if calls.len() == 0 {
        None
    } else if calls[0].line == line {
        Some(calls[0].callee)
    } else {
        spec_call_at(calls.drop_first(), line)
    }
}

/// Where execution stands after completing the statement the top frame is
/// at, without entering calls: the next statement of that function, or —
/// when the function's last statement completes — wherever the caller
/// resumes, transitively.
pub open spec fn spec_advance(m: &ProgramModel, stack: Seq<StackFrame>) -> Seq<StackFrame>
    decreases stack.len(),
{
    if stack.len() == 0 {
        stack
    } else {
        let top = stack.last();
        if top.pos + 1 < m.functions@[top.func as int].lines@.len() {
            stack.drop_last().push(StackFrame { func: top.func, pos: (top.pos + 1) as usize })
        } else {
            spec_advance(m, stack.drop_last())
        }
    }
}

/// Where a single execution step lands: a statement that calls enters the
/// callee's first statement, any other statement completes and advances.
pub open spec fn spec_exec_step(m: &ProgramModel, stack: Seq<StackFrame>) -> Seq<StackFrame> {
    if stack.len() == 0 {
        stack
    } else {
        match spec_call_at(m.calls@, frame_line(m, stack.last())) {
            Some(callee) => stack.push(StackFrame { func: callee, pos: 0 }),
            None => spec_advance(m, stack),
        }
    }
}

/// Where execution stands after `n` single steps.
pub open spec fn exec_steps(m: &ProgramModel, s: Seq<StackFrame>, n: nat) -> Seq<StackFrame>
    decreases n,
{
    if n == 0 {
        s
    } else {
        exec_steps(m, spec_exec_step(m, s), (n - 1) as nat)
    }
}

/// One more step extends the iteration at its end.
proof fn lemma_exec_steps_snoc(m: &ProgramModel, s: Seq<StackFrame>, n: nat)
    ensures
        exec_steps(m, s, n + 1) == spec_exec_step(m, exec_steps(m, s, n)),
    decreases n,
{
    assert(exec_steps(m, s, n + 1) == exec_steps(m, spec_exec_step(m, s), n));
    if n == 0 {
        assert(exec_steps(m, spec_exec_step(m, s), 0) == spec_exec_step(m, s));
        assert(exec_steps(m, s, 0) == s);
    } else {
        lemma_exec_steps_snoc(m, spec_exec_step(m, s), (n - 1) as nat);
        assert(exec_steps(m, spec_exec_step(m, s), ((n - 1) as nat) + 1) == spec_exec_step(
            m,
            exec_steps(m, spec_exec_step(m, s), (n - 1) as nat),
        ));
        assert(((n - 1) as nat) + 1 == n);
        assert(exec_steps(m, s, n) == exec_steps(m, spec_exec_step(m, s), (n - 1) as nat));
    }
}

/// The stack execution starts from: one frame at the entry function's
/// first statement.
pub open spec fn entry_stack(m: &ProgramModel) -> Seq<StackFrame> {
    seq![StackFrame { func: m.entry, pos: 0 }]
}

/// Every frame of a stack is well formed.
pub open spec fn stack_wf(m: &ProgramModel, stack: Seq<StackFrame>) -> bool {
    forall|i: int| 0 <= i < stack.len() ==> frame_wf(m, #[trigger] stack[i])
}

proof fn lemma_advance_wf(m: &ProgramModel, stack: Seq<StackFrame>)
    requires
        model_wf(m),
        stack_wf(m, stack),
    ensures
        stack_wf(m, spec_advance(m, stack)),
    decreases stack.len(),
{
    if stack.len() > 0 {
        let top = stack.last();
        if top.pos + 1 < m.functions@[top.func as int].lines@.len() {
        } else {
            lemma_advance_wf(m, stack.drop_last());
        }
    }
}

/// The decision core of the stepping driver.  It holds the program model,
/// the breakpoint lines, and the modelled call stack; each stepping request
/// answers where execution stands next.  The surrounding driver mirrors
/// these decisions onto the live inferior.
pub struct Debugger {
    pub model: ProgramModel,
    pub breakpoints: Vec<u64>,
    pub stack: Vec<StackFrame>,
    pub started: bool,
}

impl Debugger {
    /// A debugger over a program model; refused when the model is not well
    /// formed.
    pub fn new(model: ProgramModel) -> (r: Result<Debugger, Error>)
        ensures
            r matches Ok(d) ==> model_wf(&d.model) && d.stack@.len() == 0 && !d.started
                && d.breakpoints@.len() == 0,
            r is Ok <==> model_wf(&model),
    {
        let ok = Self::check_model(&model);
        if !ok {
            return Err(Error::IncompleteInterp("program model"));
        }
        Ok(Debugger { model, breakpoints: Vec::new(), stack: Vec::new(), started: false })
    }

    /// Validates a model: the entry point exists, functions are nonempty,
    /// call sites target existing functions.
    #[verifier::loop_isolation(false)]
    fn check_model(m: &ProgramModel) -> (r: bool)
        ensures
            r == model_wf(m),
    {
        if m.entry >= m.functions.len() {
            return false;
        }
        let mut i: usize = 0;
        while i < m.functions.len()
            invariant
                i <= m.functions@.len(),
                forall|j: int|
                    0 <= j < i ==> (#[trigger] m.functions@[j]).lines@.len() > 0,
            decreases m.functions@.len() - i,
        {
            if m.functions[i].lines.len() == 0 {
                return false;
            }
            i += 1;
        }
        let mut k: usize = 0;
        while k < m.calls.len()
            invariant
                k <= m.calls@.len(),
                forall|j: int|
                    0 <= j < k ==> (#[trigger] m.calls@[j]).callee < m.functions@.len(),
            decreases m.calls@.len() - k,
        {
            if m.calls[k].callee >= m.functions.len() {
                return false;
            }
            k += 1;
        }
        true
    }

    /// The source line execution stands at, absent when the debuggee has
    /// run to completion or has not started.
    pub fn current_line(&self) -> (r: Option<u64>)
        requires
            model_wf(&self.model),
            stack_wf(&self.model, self.stack@),
        ensures
            r == spec_line_of(&self.model, self.stack@),
    {
        if self.stack.len() == 0 {
            None
        } else {
            let top = self.stack[self.stack.len() - 1];
            Some(self.model.functions[top.func].lines[top.pos])
        }
    }

    /// Whether the debuggee has run to completion.
    pub fn finished(&self) -> (r: bool)
        ensures
            r == (self.started && self.stack@.len() == 0),
    {
        self.started && self.stack.len() == 0
    }

    /// Arms a breakpoint at the first statement of the named function.
    #[verifier::loop_isolation(false)]
    pub fn set_breakpoint_at_fn(&mut self, name: &str) -> (r: Result<(), Error>)
        requires
            model_wf(&old(self).model),
        ensures
            final(self).model == old(self).model,
            final(self).stack == old(self).stack,
            final(self).started == old(self).started,
            r is Err ==> final(self).breakpoints == old(self).breakpoints,
    {
        let mut i: usize = 0;
        while i < self.model.functions.len()
            invariant
                model_wf(&self.model),
                i <= self.model.functions@.len(),
                self.model == old(self).model,
                self.stack == old(self).stack,
                self.started == old(self).started,
                self.breakpoints == old(self).breakpoints,
            decreases self.model.functions@.len() - i,
        {
            if str_eq(self.model.functions[i].name.as_str(), name) {
                let line = self.model.functions[i].lines[0];
                self.breakpoints.push(line);
                return Ok(());
            }
            i += 1;
        }
        Err(Error::FieldNotFound("function"))
    }

    /// Arms a breakpoint at a source line of the modelled file.
    #[verifier::loop_isolation(false)]
    pub fn set_breakpoint_at_line(&mut self, file: &str, line: u64) -> (r: Result<(), Error>)
        requires
            model_wf(&old(self).model),
        ensures
            final(self).model == old(self).model,
            final(self).stack == old(self).stack,
            final(self).started == old(self).started,
            r is Err ==> final(self).breakpoints == old(self).breakpoints,
    {
        if !str_eq(self.model.file.as_str(), file) {
            return Err(Error::FieldNotFound("file"));
        }
        let mut i: usize = 0;
        while i < self.model.functions.len()
            invariant
                model_wf(&self.model),
                i <= self.model.functions@.len(),
                self.model == old(self).model,
                self.stack == old(self).stack,
                self.started == old(self).started,
                self.breakpoints == old(self).breakpoints,
            decreases self.model.functions@.len() - i,
        {
            let mut j: usize = 0;
            let lines = &self.model.functions[i].lines;
            while j < lines.len()
                invariant
                    model_wf(&self.model),
                    i < self.model.functions@.len(),
                    lines == &self.model.functions@[i as int].lines,
                    j <= lines@.len(),
                    self.model == old(self).model,
                    self.stack == old(self).stack,
                    self.started == old(self).started,
                    self.breakpoints == old(self).breakpoints,
                decreases lines@.len() - j,
            {
                if lines[j] == line {
                    self.breakpoints.push(line);
                    return Ok(());
                }
                j += 1;
            }
            i += 1;
        }
        Err(Error::FieldNotFound("line"))
    }

    /// Whether a line is armed as a breakpoint.
    #[verifier::loop_isolation(false)]
    fn is_breakpoint(&self, line: u64) -> (r: bool)
        ensures
            r == self.breakpoints@.contains(line),
    {
        let mut i: usize = 0;
        while i < self.breakpoints.len()
            invariant
                i <= self.breakpoints@.len(),
                forall|j: int| 0 <= j < i ==> self.breakpoints@[j] != line,
            decreases self.breakpoints@.len() - i,
        {
            if self.breakpoints[i] == line {
                return true;
            }
            i += 1;
        }
        false
    }

    /// Launches the debuggee: execution enters the entry function and runs
    /// until it reaches an armed breakpoint or completes.
    pub fn run_debugee(&mut self) -> (r: Result<(), Error>)
        requires
            model_wf(&old(self).model),
            stack_wf(&old(self).model, old(self).stack@),
            !old(self).started,
        ensures
            final(self).model == old(self).model,
            final(self).breakpoints == old(self).breakpoints,
            final(self).started,
            model_wf(&final(self).model),
            stack_wf(&final(self).model, final(self).stack@),
            exists|n: nat|
                final(self).stack@ == exec_steps(&old(self).model, entry_stack(&old(self).model), n),
            r is Ok ==> stopped_or_finished(
                &final(self).model,
                final(self).stack@,
                final(self).breakpoints@,
            ),
    {
        self.started = true;
        self.stack = Vec::new();
        self.stack.push(StackFrame { func: self.model.entry, pos: 0 });
        proof {
            assert(self.stack@ =~= entry_stack(&self.model));
        }
        self.walk_to_breakpoint()
    }

    /// Resumes execution until the next armed breakpoint or completion.
    pub fn continue_debugee(&mut self) -> (r: Result<(), Error>)
        requires
            model_wf(&old(self).model),
            stack_wf(&old(self).model, old(self).stack@),
        ensures
            final(self).model == old(self).model,
            final(self).breakpoints == old(self).breakpoints,
            final(self).started == old(self).started,
            model_wf(&final(self).model),
            stack_wf(&final(self).model, final(self).stack@),
            exists|n: nat|
                final(self).stack@ == exec_steps(&old(self).model, old(self).stack@, n),
            r is Ok ==> stopped_or_finished(
                &final(self).model,
                final(self).stack@,
                final(self).breakpoints@,
            ),
    {
        if self.stack.len() == 0 {
            proof {
                assert(self.stack@ == exec_steps(&self.model, self.stack@, 0));
            }
            return Ok(());
        }
        self.exec_step();
        let ghost mid = self.stack@;
        let r = self.walk_to_breakpoint();
        proof {
            let k = choose|k: nat| self.stack@ == exec_steps(&self.model, mid, k);
            assert(self.stack@ == exec_steps(&old(self).model, old(self).stack@, k + 1));
        }
        r
    }

    /// Runs execution steps until an armed breakpoint or completion, within
    /// a bounded budget.
    #[verifier::loop_isolation(false)]
    fn walk_to_breakpoint(&mut self) -> (r: Result<(), Error>)
        requires
            model_wf(&old(self).model),
            stack_wf(&old(self).model, old(self).stack@),
        ensures
            final(self).model == old(self).model,
            final(self).breakpoints == old(self).breakpoints,
            final(self).started == old(self).started,
            model_wf(&final(self).model),
            stack_wf(&final(self).model, final(self).stack@),
            exists|n: nat|
                final(self).stack@ == exec_steps(&old(self).model, old(self).stack@, n),
            r is Ok ==> stopped_or_finished(
                &final(self).model,
                final(self).stack@,
                final(self).breakpoints@,
            ),
    {
        let mut budget: u64 = 1000000;
        proof {
            assert(self.stack@ == exec_steps(&self.model, old(self).stack@, 0));
        }
        while budget > 0
            invariant
                model_wf(&self.model),
                stack_wf(&self.model, self.stack@),
                self.model == old(self).model,
                self.breakpoints == old(self).breakpoints,
                self.started == old(self).started,
                exists|n: nat| self.stack@ == exec_steps(&self.model, old(self).stack@, n),
            decreases budget,
        {
            if self.stack.len() == 0 {
                return Ok(());
            }
            let top = self.stack[self.stack.len() - 1];
            let line = self.model.functions[top.func].lines[top.pos];
            if self.is_breakpoint(line) {
                return Ok(());
            }
            let ghost pre = self.stack@;
            self.exec_step();
            proof {
                let n0 = choose|n: nat| pre == exec_steps(&self.model, old(self).stack@, n);
                lemma_exec_steps_snoc(&self.model, old(self).stack@, n0);
                assert(self.stack@ == exec_steps(&self.model, old(self).stack@, n0 + 1));
            }
            budget -= 1;
        }
        Err(Error::IncompleteInterp("step budget"))
    }

    /// One execution step: enter the call the current statement makes, or
    /// complete the statement and advance.
    fn exec_step(&mut self)
        requires
            model_wf(&old(self).model),
            stack_wf(&old(self).model, old(self).stack@),
            old(self).stack@.len() > 0,
        ensures
            final(self).model == old(self).model,
            final(self).breakpoints == old(self).breakpoints,
            final(self).started == old(self).started,
            stack_wf(&final(self).model, final(self).stack@),
            final(self).stack@ == spec_exec_step(&old(self).model, old(self).stack@),
    {
        let top = self.stack[self.stack.len() - 1];
        let line = self.model.functions[top.func].lines[top.pos];
        match self.find_call(line) {
            Some(callee) => {
                self.stack.push(StackFrame { func: callee, pos: 0 });
            },
            None => {
                self.advance();
            },
        }
    }

    /// The callee of the first call site at `line`.
    #[verifier::loop_isolation(false)]
    fn find_call(&self, line: u64) -> (r: Option<usize>)
        requires
            model_wf(&self.model),
        ensures
            r == spec_call_at(self.model.calls@, line),
            r matches Some(c) ==> c < self.model.functions@.len(),
    {
        let calls = &self.model.calls;
        let ghost all = calls@;
        proof {
            assert(all.skip(0) =~= all);
        }
        let mut i: usize = 0;
        while i < calls.len()
            invariant
                i <= calls@.len(),
                spec_call_at(all, line) == spec_call_at(all.skip(i as int), line),
            decreases calls@.len() - i,
        {
            proof {
                assert(all.skip(i as int)[0] == all[i as int]);
                assert(all.skip(i as int).drop_first() =~= all.skip(i + 1));
            }
            if calls[i].line == line {
                return Some(calls[i].callee);
            }
            i += 1;
        }
        proof {
            assert(all.skip(i as int) =~= Seq::<CallSite>::empty());
        }
        None
    }

    /// Completes the current statement without entering calls: the next
    /// statement of the function, or wherever the caller resumes.
    #[verifier::loop_isolation(false)]
    fn advance(&mut self)
        requires
            model_wf(&old(self).model),
            stack_wf(&old(self).model, old(self).stack@),
        ensures
            final(self).model == old(self).model,
            final(self).breakpoints == old(self).breakpoints,
            final(self).started == old(self).started,
            stack_wf(&final(self).model, final(self).stack@),
            final(self).stack@ == spec_advance(&old(self).model, old(self).stack@),
    {
        proof {
            lemma_advance_wf(&self.model, self.stack@);
        }
        while self.stack.len() > 0
            invariant
                model_wf(&self.model),
                stack_wf(&self.model, self.stack@),
                self.model == old(self).model,
                self.breakpoints == old(self).breakpoints,
                self.started == old(self).started,
                spec_advance(&self.model, self.stack@) == spec_advance(
                    &old(self).model,
                    old(self).stack@,
                ),
            decreases self.stack@.len(),
        {
            let ghost pre = self.stack@;
            let top = self.stack[self.stack.len() - 1];
            let flen = self.model.functions[top.func].lines.len();
            if top.pos + 1 < flen {
                let _ = self.stack.pop();
                self.stack.push(StackFrame { func: top.func, pos: top.pos + 1 });
                proof {
                    assert(pre.drop_last() =~= self.stack@.drop_last());
                    assert(self.stack@ =~= pre.drop_last().push(
                        StackFrame { func: top.func, pos: (top.pos + 1) as usize },
                    ));
                    assert(self.stack@ == spec_advance(&old(self).model, old(self).stack@));
                }
                return ;
            } else {
                let _ = self.stack.pop();
                proof {
                    assert(self.stack@ =~= pre.drop_last());
                }
            }
        }
        proof {
            assert(self.stack@ =~= spec_advance(&self.model, self.stack@));
        }
    }

    /// Steps into the call the current statement makes, or over it when it
    /// makes none.
    pub fn step_into(&mut self) -> (r: Result<(), Error>)
        requires
            model_wf(&old(self).model),
            stack_wf(&old(self).model, old(self).stack@),
        ensures
            final(self).model == old(self).model,
            final(self).breakpoints == old(self).breakpoints,
            final(self).started == old(self).started,
            model_wf(&final(self).model),
            stack_wf(&final(self).model, final(self).stack@),
            old(self).stack@.len() > 0 ==> final(self).stack@ == spec_exec_step(
                &old(self).model,
                old(self).stack@,
            ),
            old(self).stack@.len() == 0 ==> final(self).stack@ == old(self).stack@,
    {
        if self.stack.len() == 0 {
            return Ok(());
        }
        self.exec_step();
        Ok(())
    }

    /// Steps over the current statement: execution lands on the next
    /// statement of the same function, without stopping inside calls.
    pub fn step_over(&mut self) -> (r: Result<(), Error>)
        requires
            model_wf(&old(self).model),
            stack_wf(&old(self).model, old(self).stack@),
        ensures
            final(self).model == old(self).model,
            final(self).breakpoints == old(self).breakpoints,
            final(self).started == old(self).started,
            model_wf(&final(self).model),
            stack_wf(&final(self).model, final(self).stack@),
            final(self).stack@ == spec_advance(&old(self).model, old(self).stack@),
    {
        self.advance();
        Ok(())
    }

    /// Steps out of the current function: execution resumes at the
    /// caller's next statement.
    pub fn step_out(&mut self) -> (r: Result<(), Error>)
        requires
            model_wf(&old(self).model),
            stack_wf(&old(self).model, old(self).stack@),
        ensures
            final(self).model == old(self).model,
            final(self).breakpoints == old(self).breakpoints,
            final(self).started == old(self).started,
            model_wf(&final(self).model),
            stack_wf(&final(self).model, final(self).stack@),
            old(self).stack@.len() > 0 ==> final(self).stack@ == spec_advance(
                &old(self).model,
                old(self).stack@.drop_last(),
            ),
    {
        if self.stack.len() == 0 {
            return Ok(());
        }
        let _ = self.stack.pop();
        proof {
            assert(self.stack@ =~= old(self).stack@.drop_last());
        }
        self.advance();
        Ok(())
    }
}

/// The source line a stack stands at.
pub open spec fn spec_line_of(m: &ProgramModel, stack: Seq<StackFrame>) -> Option<u64> {
    if stack.len() == 0 {
        None
    } else {
        Some(frame_line(m, stack.last()))
    }
}

/// Execution is either done or standing at an armed breakpoint.
pub open spec fn stopped_or_finished(
    m: &ProgramModel,
    stack: Seq<StackFrame>,
    breakpoints: Seq<u64>,
) -> bool {
    stack.len() == 0 || breakpoints.contains(frame_line(m, stack.last()))
}

} // verus!
