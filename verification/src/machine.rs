//! The abstract machine: what a program means, independent of how the
//! interpreter stores it.
//!
//! A [`State`] is a mathematical snapshot of a run. [`State::step`] is the
//! transition function and [`State::steps`] its iteration; the lemmas at the
//! end of the file are facts about them that hold of every program.

use vstd::prelude::*;
use crate::token::Token;

verus! {

/// A snapshot of a run.
pub struct State {
    /// The instructions, fixed for the whole run.
    pub program: Seq<Token>,
    /// The cells.
    pub tape: Seq<u32>,
    /// Index of the current cell.
    pub pointer: int,
    /// Index of the next instruction.
    pub ip: int,
    /// Positions of the loops that are open, innermost first.
    pub frames: Seq<usize>,
    /// Everything written so far.
    pub output: Seq<char>,
    /// Input that was supplied and not read yet.
    pub input: Seq<char>,
}

/// Number of zero cells on a fresh tape.
pub const MAX_MEMORY: usize = 30000;

/// A cell value plus one, wrapping from the largest value to zero.
pub open spec fn succ(v: u32) -> u32 {
    if v == u32::MAX {
        0
    } else {
        (v + 1) as u32
    }
}

/// A cell value minus one, wrapping from zero to the largest value.
pub open spec fn pred(v: u32) -> u32 {
    if v == 0 {
        u32::MAX
    } else {
        (v - 1) as u32
    }
}

/// `v` is a Unicode scalar value, the code of some character.
pub open spec fn is_scalar(v: u32) -> bool {
    v <= 0xD7FF || 0xE000 <= v <= 0x10FFFF
}

/// The character written for a cell value: the one with that code, or the
/// null character where there is none.
pub open spec fn glyph(v: u32) -> char {
    if is_scalar(v) {
        v as char
    } else {
        '\0'
    }
}

/// Length of the first line of `input`, its terminator included; the whole
/// of `input` where it holds no terminator.
pub open spec fn line_len(input: Seq<char>) -> nat
    decreases input.len(),
{
    if input.len() == 0 {
        0
    } else if input[0] == '\n' {
        1
    } else {
        1 + line_len(input.skip(1))
    }
}

/// The tape after the codes of `line` were written to consecutive cells from
/// `at` on: it reaches one cell past the last one written, and cells that it
/// gained are zero.
pub open spec fn written(tape: Seq<u32>, at: int, line: Seq<char>) -> Seq<u32> {
    let len = if tape.len() > at + line.len() {
        tape.len()
    } else {
        (at + line.len() + 1) as nat
    };
    Seq::new(
        len,
        |j: int|
            if at <= j < at + line.len() {
                line[j - at] as u32
            } else if j < tape.len() {
                tape[j]
            } else {
                0u32
            },
    )
}

/// The cells of `tape` that are not zero, each with its index, in the order
/// of the tape.
pub open spec fn nonzero_cells(tape: Seq<u32>) -> Seq<(usize, u32)>
    decreases tape.len(),
{
    if tape.len() == 0 {
        Seq::empty()
    } else {
        let last = tape.len() - 1;
        let before = nonzero_cells(tape.drop_last());
        if tape[last] != 0 {
            before.push((last as usize, tape[last]))
        } else {
            before
        }
    }
}

/// Every position in `frames` is less than `n`.
pub open spec fn all_below(frames: Seq<usize>, n: int) -> bool {
    forall|i: int| 0 <= i < frames.len() ==> (#[trigger] frames[i]) < n
}

impl State {
    /// The state in which a run of `program` starts.
    pub open spec fn initial(program: Seq<Token>) -> State {
        State {
            program,
            tape: Seq::new(MAX_MEMORY as nat, |i: int| 0u32),
            pointer: 0,
            ip: 0,
            frames: Seq::empty(),
            output: Seq::empty(),
            input: Seq::empty(),
        }
    }

    /// The pointer selects a cell, the instruction pointer is in or just
    /// past the program, whose positions are machine integers, and every
    /// open loop lies in the program.
    pub open spec fn wf(self) -> bool {
        &&& 0 <= self.pointer < self.tape.len()
        &&& 0 <= self.ip <= self.program.len() <= usize::MAX
        &&& all_below(self.frames, self.program.len() as int)
    }

    /// The value of the current cell.
    pub open spec fn cell(self) -> u32 {
        self.tape[self.pointer]
    }

    /// The run is over: no instruction is left.
    pub open spec fn halted(self) -> bool {
        self.ip >= self.program.len()
    }

    /// The next instruction is a `]` although no loop is open.
    pub open spec fn unbalanced(self) -> bool {
        &&& !self.halted()
        &&& self.program[self.ip] == Token::ELOOP
        &&& self.frames.len() == 0
    }

    /// No further step changes the state.
    pub open spec fn stopped(self) -> bool {
        self.halted() || self.unbalanced()
    }

    /// `+`
    pub open spec fn incr(self) -> State {
        State { tape: self.tape.update(self.pointer, succ(self.cell())), ..self }
    }

    /// `-`
    pub open spec fn decr(self) -> State {
        State { tape: self.tape.update(self.pointer, pred(self.cell())), ..self }
    }

    /// `>`: the tape gains a zero cell where the pointer would leave it.
    pub open spec fn movr(self) -> State {
        State {
            tape: if self.pointer + 1 >= self.tape.len() {
                self.tape.push(0u32)
            } else {
                self.tape
            },
            pointer: self.pointer + 1,
            ..self
        }
    }

    /// `<`: nothing happens at the left end.
    pub open spec fn movl(self) -> State {
        State { pointer: if self.pointer == 0 { 0 } else { self.pointer - 1 }, ..self }
    }

    /// `.`
    pub open spec fn opt(self) -> State {
        State { output: self.output.push(glyph(self.cell())), ..self }
    }

    /// `,`: the first line of the unread input goes to the tape, one
    /// character per cell, and the pointer comes to rest behind it. With no
    /// input left nothing changes.
    pub open spec fn inpt(self) -> State {
        let n = line_len(self.input) as int;
        State {
            tape: written(self.tape, self.pointer, self.input.take(n)),
            pointer: self.pointer + n,
            input: self.input.skip(n),
            ..self
        }
    }

    /// `[`: the loop at the current position is now the innermost open one.
    pub open spec fn sloop(self) -> State {
        State { frames: seq![self.ip as usize] + self.frames, ..self }
    }

    /// `]` with a loop open: on a non-zero cell control goes back to the
    /// innermost loop's `[`, and the loop stays open; on zero the loop is
    /// closed for good.
    pub open spec fn eloop(self) -> State {
        if self.cell() != 0 {
            State { ip: self.frames[0] as int, ..self }
        } else {
            State { frames: self.frames.skip(1), ..self }
        }
    }

    /// What instruction `t` does, but for moving on to the next one.
    pub open spec fn effect(self, t: Token) -> State {
        match t {
            Token::INCR => self.incr(),
            Token::DECR => self.decr(),
            Token::MOVR => self.movr(),
            Token::MOVL => self.movl(),
            Token::SLOOP => self.sloop(),
            Token::ELOOP => self.eloop(),
            Token::INPT => self.inpt(),
            Token::OPT => self.opt(),
            Token::NONE => self,
        }
    }

    /// The instruction pointer moved on by one.
    pub open spec fn advance(self) -> State {
        State { ip: self.ip + 1, ..self }
    }

    /// One step of the run: the next instruction takes effect and the
    /// instruction pointer moves behind it, or behind the `[` that a `]`
    /// went back to. A stopped state stays as it is.
    pub open spec fn step(self) -> State {
        if self.stopped() {
            self
        } else {
            self.effect(self.program[self.ip]).advance()
        }
    }

    /// The state after `n` steps.
    pub open spec fn steps(self, n: nat) -> State
        decreases n,
    {
        if n == 0 {
            self
        } else {
            self.steps((n - 1) as nat).step()
        }
    }
}

/// A line is no longer than the input it is taken from, is empty only where
/// the input is, and holds no terminator before its last character.
pub proof fn lemma_line_len(input: Seq<char>)
    ensures
        line_len(input) <= input.len(),
        input.len() > 0 ==> line_len(input) > 0,
        forall|i: int| 0 <= i < line_len(input) - 1 ==> input[i] != '\n',
        line_len(input) < input.len() ==> input[line_len(input) - 1] == '\n',
    decreases input.len(),
{
    if input.len() > 0 && input[0] != '\n' {
        let rest = input.skip(1);
        lemma_line_len(rest);
        assert forall|i: int| 0 <= i < line_len(input) - 1 implies input[i] != '\n' by {
            if i > 0 {
                assert(input[i] == rest[i - 1]);
            }
        }
        if line_len(input) < input.len() {
            assert(input[line_len(input) - 1] == rest[line_len(rest) - 1]);
        }
    }
}

/// An instruction's effect leaves the state well formed, with the instruction
/// pointer still inside the program, and never shortens the tape.
pub proof fn lemma_effect_wf(s: State, t: Token)
    requires
        s.wf(),
        !s.halted(),
        t == Token::ELOOP ==> s.frames.len() > 0,
    ensures
        s.effect(t).wf(),
        !s.effect(t).halted(),
        s.effect(t).program == s.program,
        s.effect(t).tape.len() >= s.tape.len(),
{
    let r = s.effect(t);
    match t {
        Token::SLOOP => {
            assert forall|i: int| 0 <= i < r.frames.len() implies (#[trigger] r.frames[i])
                < r.program.len() by {
                if i > 0 {
                    assert(r.frames[i] == s.frames[i - 1]);
                }
            }
        },
        Token::INPT => {
            lemma_line_len(s.input);
        },
        Token::ELOOP => {
            assert(s.frames[0] < s.program.len());
            assert forall|i: int| 0 <= i < r.frames.len() implies (#[trigger] r.frames[i])
                < r.program.len() by {
                if s.cell() == 0 {
                    assert(r.frames[i] == s.frames[i + 1]);
                }
            }
        },
        _ => {},
    }
}

/// Once a run has stopped, further steps change nothing.
pub proof fn lemma_stopped_stays(s: State, k: nat, n: nat)
    requires
        s.steps(k).stopped(),
        k <= n,
    ensures
        s.steps(n) == s.steps(k),
    decreases n,
{
    if n > k {
        lemma_stopped_stays(s, k, (n - 1) as nat);
    }
}

/// A step keeps a state well formed: in particular the pointer selects a
/// cell of the tape after every instruction. The program stays what it was
/// and the tape never shrinks.
pub proof fn lemma_step_wf(s: State)
    requires
        s.wf(),
    ensures
        s.step().wf(),
        s.step().program == s.program,
        s.step().tape.len() >= s.tape.len(),
{
    if !s.stopped() {
        lemma_effect_wf(s, s.program[s.ip]);
    }
}

/// A run may be taken in pieces: `a` steps and then `b` more are `a + b`
/// steps.
pub proof fn lemma_steps_split(s: State, a: nat, b: nat)
    ensures
        s.steps(a + b) == s.steps(a).steps(b),
    decreases b,
{
    if b > 0 {
        lemma_steps_split(s, a, (b - 1) as nat);
        assert(s.steps(a + b) == s.steps((a + b - 1) as nat).step());
    }
}

/// However many steps a run takes, its state stays well formed: the pointer
/// selects a cell of the tape, which never shrinks, and the program is the
/// one the run began with.
pub proof fn lemma_steps_wf(s: State, n: nat)
    requires
        s.wf(),
    ensures
        s.steps(n).wf(),
        0 <= s.steps(n).pointer < s.steps(n).tape.len(),
        s.steps(n).program == s.program,
        s.steps(n).tape.len() >= s.tape.len(),
    decreases n,
{
    if n > 0 {
        lemma_steps_wf(s, (n - 1) as nat);
        lemma_step_wf(s.steps((n - 1) as nat));
    }
}

/// Adding one and subtracting one undo each other on every cell value, the
/// two ends of the range included: the largest value plus one is zero, and
/// zero minus one is the largest value.
pub proof fn lemma_succ_pred(v: u32)
    ensures
        pred(succ(v)) == v,
        succ(pred(v)) == v,
        succ(u32::MAX) == 0,
        pred(0) == u32::MAX,
{
}

/// `+` followed by `-` leaves the whole state as it was, and so does `-`
/// followed by `+`.
pub proof fn lemma_incr_decr_round_trip(s: State)
    requires
        s.wf(),
    ensures
        s.incr().decr() == s,
        s.decr().incr() == s,
{
    assert(s.incr().decr().tape =~= s.tape);
    assert(s.decr().incr().tape =~= s.tape);
}

/// Where the next two instructions are `+` and `-`, two steps change
/// nothing but the instruction pointer, which is then behind them.
pub proof fn lemma_incr_decr_steps(s: State)
    requires
        s.wf(),
        s.ip + 1 < s.program.len(),
        s.program[s.ip] == Token::INCR,
        s.program[s.ip + 1] == Token::DECR,
    ensures
        s.steps(2) == (State { ip: s.ip + 2, ..s }),
{
    let one = s.incr().advance();
    assert(s.steps(0) == s);
    assert(s.steps(1) == s.steps(0).step());
    assert(s.steps(1) == one);
    assert(s.steps(2) == one.step());
    assert(one.step() == one.decr().advance());
    assert(one.decr().tape =~= s.tape);
}

/// How a step treats the open loops. `[` puts its own position in front of
/// them. `]` on a non-zero cell leaves them all as they are and continues
/// behind the innermost loop's `[`; on zero it removes the innermost and
/// continues behind itself. No other instruction touches them, and no step
/// ever changes a loop other than the innermost.
pub proof fn lemma_loop_discipline(s: State)
    requires
        s.wf(),
        !s.stopped(),
    ensures
        match s.program[s.ip] {
            Token::SLOOP => {
                &&& s.step().frames == seq![s.ip as usize] + s.frames
                &&& s.step().ip == s.ip + 1
            },
            Token::ELOOP => if s.cell() != 0 {
                &&& s.step().frames == s.frames
                &&& s.step().ip == s.frames[0] + 1
            } else {
                &&& s.step().frames == s.frames.skip(1)
                &&& s.step().ip == s.ip + 1
            },
            _ => {
                &&& s.step().frames == s.frames
                &&& s.step().ip == s.ip + 1
            },
        },
{
}

/// `<` on the first cell changes nothing.
pub proof fn lemma_movl_at_left_end(s: State)
    requires
        s.pointer == 0,
    ensures
        s.movl() == s,
{
}

} // verus!
