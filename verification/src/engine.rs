//! The interpreter: a machine state held in ordinary collections, and the
//! operations that drive it.
//!
//! Every operation is specified against [`State`], the mathematical
//! description of a run: the view of a [`BrainFuck`] after a call is the
//! state that the description gives for its view before the call.

use std::collections::VecDeque;
use vstd::prelude::*;
use crate::machine::{
    all_below, is_scalar, lemma_effect_wf, lemma_stopped_stays, line_len, nonzero_cells, written,
    State, MAX_MEMORY,
};
use crate::token::{all_valid, first_invalid, tokenize, tokens_of, BfError, Token};

verus! {

/// How a run stands when control comes back to the caller.
#[derive(Debug, Clone, Copy, PartialEq, Eq, Structural)]
pub enum Status {
    /// The instruction pointer is past the last instruction.
    Halted,
    /// Instructions are left; the step budget ran out before they did.
    Paused,
}

/// What there is to report of a state: that it halted, that its next
/// instruction is a `]` without a loop, or that it can go on.
pub open spec fn status_of(s: State) -> Result<Status, BfError> {
    if s.halted() {
        Ok(Status::Halted)
    } else if s.unbalanced() {
        Err(BfError::UnbalancedLoopError { position: s.ip as usize })
    } else {
        Ok(Status::Paused)
    }
}

/// An interpreter with its program loaded.
///
/// The fields are open to inspection after a run. Operations ask that the
/// value is well formed (`self@.wf()`), which [`BrainFuck::new`] establishes
/// and every operation keeps.
#[derive(Debug)]
pub struct BrainFuck {
    /// The tape.
    pub data: Vec<u32>,
    /// The program.
    pub src: Vec<Token>,
    /// Index into `src` of the next instruction.
    pub index: usize,
    /// Index into `data` of the current cell.
    pub pointer: usize,
    /// Positions of the loops that are open, innermost at the front.
    pub check_point: VecDeque<usize>,
    /// Everything the program has written.
    pub result: String,
    /// Input that was supplied and not read yet.
    pub input: VecDeque<char>,
}

impl View for BrainFuck {
    type V = State;

    open spec fn view(&self) -> State {
        State {
            program: self.src@,
            tape: self.data@,
            pointer: self.pointer as int,
            ip: self.index as int,
            frames: self.check_point@,
            output: self.result@,
            input: self.input@,
        }
    }
}

/// Calls `char::from_u32` of the standard library. The contract is taken on
/// trust from its documentation, not proved: the result is the character
/// whose code is `code`, and nothing where `code` is a surrogate or lies
/// above the last code point.
#[verifier::external_body]
fn char_from_u32(code: u32) -> (r: Option<char>)
    ensures
        r == (if is_scalar(code) {
            Some(code as char)
        } else {
            None::<char>
        }),
{
    char::from_u32(code)
}

/// Calls `String::push` of the standard library. The contract is taken on
/// trust from its documentation, not proved: `c` is appended to the end of
/// `s`, and nothing else of `s` changes.
#[verifier::external_body]
fn push_char(s: &mut String, c: char)
    ensures
        final(s)@ == old(s)@.push(c),
{
    s.push(c)
}

impl BrainFuck {
    /// Loads a program. Fails, before anything runs, on the first character
    /// that is neither an instruction nor whitespace.
    pub fn new(src: String) -> (r: Result<BrainFuck, BfError>)
        ensures
            match r {
                Ok(bf) => all_valid(src@) && bf@ == State::initial(tokens_of(src@)) && bf@.wf(),
                Err(BfError::InvalidTokenError { character, position }) => {
                    &&& first_invalid(src@, position as int)
                    &&& character == src@[position as int]
                },
                Err(_) => false,
            },
    {
        let program = match tokenize(src.as_str()) {
            Ok(p) => p,
            Err(e) => {
                return Err(e);
            },
        };
        let mut data: Vec<u32> = Vec::new();
        while data.len() < MAX_MEMORY
            invariant
                data.len() <= MAX_MEMORY,
                forall|i: int| 0 <= i < data.len() ==> data[i] == 0,
            decreases MAX_MEMORY - data.len(),
        {
            data.push(0);
        }
        let bf = BrainFuck {
            data,
            src: program,
            index: 0,
            pointer: 0,
            check_point: VecDeque::new(),
            result: String::new(),
            input: VecDeque::new(),
        };
        proof {
            assert(bf.src.len() == bf@.program.len());
            assert(bf@.tape =~= State::initial(tokens_of(src@)).tape);
            assert(bf@.frames =~= Seq::empty());
            assert(bf@.input =~= Seq::empty());
        }
        Ok(bf)
    }

    /// Supplies input: `text` is put behind what is waiting to be read.
    pub fn feed(&mut self, text: &str)
        ensures
            final(self)@ == (State { input: old(self)@.input + text@, ..old(self)@ }),
    {
        let ghost before = self@;
        for c in it: text.chars()
            invariant
                it.seq() == text@,
                self@ == (State { input: before.input + text@.take(it.index() as int), ..before }),
        {
            self.input.push_back(c);
            proof {
                let i = it.index() as int;
                assert(before.input + text@.take(i + 1) =~= (before.input + text@.take(i)).push(c));
            }
        }
        proof {
            assert(text@.take(text@.len() as int) =~= text@);
        }
    }

    /// Adds one to the current cell; the largest value becomes zero.
    pub fn incr(&mut self)
        requires
            old(self)@.wf(),
        ensures
            final(self)@ == old(self)@.incr(),
            final(self)@.wf(),
    {
        let v = self.data[self.pointer];
        let w: u32 = if v == u32::MAX {
            0
        } else {
            v + 1
        };
        self.data.set(self.pointer, w);
    }

    /// Subtracts one from the current cell; zero becomes the largest value.
    pub fn decr(&mut self)
        requires
            old(self)@.wf(),
        ensures
            final(self)@ == old(self)@.decr(),
            final(self)@.wf(),
    {
        let v = self.data[self.pointer];
        let w: u32 = if v == 0 {
            u32::MAX
        } else {
            v - 1
        };
        self.data.set(self.pointer, w);
    }

    /// Selects the previous cell; stays where it is on the first one.
    pub fn movl(&mut self)
        requires
            old(self)@.wf(),
        ensures
            final(self)@ == old(self)@.movl(),
            final(self)@.wf(),
    {
        if self.pointer > 0 {
            self.pointer = self.pointer - 1;
        }
    }

    /// Selects the next cell, which the tape gains if it ended here.
    pub fn movr(&mut self)
        requires
            old(self)@.wf(),
        ensures
            final(self)@ == old(self)@.movr(),
            final(self)@.wf(),
    {
        if self.pointer == self.data.len() - 1 {
            self.data.push(0);
        }
        self.pointer = self.pointer + 1;
    }

    /// Writes the current cell to the output, as the character with that
    /// code; a value that is no character's code is written as the null
    /// character.
    pub fn opt(&mut self)
        requires
            old(self)@.wf(),
        ensures
            final(self)@ == old(self)@.opt(),
            final(self)@.wf(),
    {
        let ch = match char_from_u32(self.data[self.pointer]) {
            Some(c) => c,
            None => '\0',
        };
        push_char(&mut self.result, ch);
    }

    /// Reads the next line of the waiting input, terminator included, into
    /// the tape: one character per cell from the current one on, the pointer
    /// ending behind the last. With no input waiting nothing changes.
    pub fn inpt(&mut self)
        requires
            old(self)@.wf(),
        ensures
            final(self)@ == old(self)@.inpt(),
            final(self)@.wf(),
    {
        let ghost start = self@;
        let ghost mut k: int = 0;
        let mut done = false;
        proof {
            assert(start.input.skip(0) =~= start.input);
            assert(written(start.tape, start.pointer, start.input.take(0)) =~= start.tape);
        }
        while !done
            invariant
                start.wf(),
                self@.wf(),
                0 <= k <= start.input.len(),
                self@ == (State {
                    tape: written(start.tape, start.pointer, start.input.take(k)),
                    pointer: start.pointer + k,
                    input: start.input.skip(k),
                    ..start
                }),
                done ==> line_len(start.input) == k,
                !done ==> line_len(start.input) == k + line_len(start.input.skip(k)),
            decreases
                    (if done {
                        0
                    } else {
                        1 + self.input.len()
                    }),
        {
            match self.input.pop_front() {
                None => {
                    done = true;
                },
                Some(c) => {
                    let ghost rest = start.input.skip(k);
                    let ghost mid = self@;
                    self.data.set(self.pointer, c as u32);
                    self.movr();
                    if c == '\n' {
                        done = true;
                    }
                    proof {
                        assert(rest[0] == c);
                        assert(rest.skip(1) =~= start.input.skip(k + 1));
                        assert(self@.input =~= start.input.skip(k + 1));
                        assert(self@.tape =~= written(
                            start.tape,
                            start.pointer,
                            start.input.take(k + 1),
                        ));
                        k = k + 1;
                    }
                },
            }
        }
    }

    /// Opens a loop at the current instruction.
    pub fn sloop(&mut self)
        requires
            old(self)@.wf(),
            !old(self)@.halted(),
        ensures
            final(self)@ == old(self)@.sloop(),
            final(self)@.wf(),
    {
        proof {
            lemma_effect_wf(self@, Token::SLOOP);
        }
        self.check_point.push_front(self.index);
    }

    /// Closes a loop: goes back to the innermost open loop's `[` while the
    /// current cell is not zero, and leaves that loop when it is. Fails,
    /// changing nothing, when no loop is open.
    pub fn eloop(&mut self) -> (r: Result<(), BfError>)
        requires
            old(self)@.wf(),
        ensures
            match r {
                Ok(()) => old(self)@.frames.len() > 0 && final(self)@ == old(self)@.eloop(),
                Err(e) => {
                    &&& old(self)@.frames.len() == 0
                    &&& final(self)@ == old(self)@
                    &&& e == (BfError::UnbalancedLoopError { position: old(self).index })
                },
            },
            final(self)@.wf(),
    {
        if self.check_point.len() == 0 {
            return Err(BfError::UnbalancedLoopError { position: self.index });
        }
        if self.data[self.pointer] != 0 {
            self.index = self.check_point[0];
        } else {
            let _ = self.check_point.pop_front();
            proof {
                let rest = old(self)@.frames.skip(1);
                assert(self@.frames =~= rest);
                assert forall|i: int| 0 <= i < rest.len() implies (#[trigger] rest[i])
                    < self@.program.len() by {
                    assert(rest[i] == old(self)@.frames[i + 1]);
                }
            }
        }
        Ok(())
    }

    /// Carries out `token` at the current position, without moving on to the
    /// next instruction. Only a `]` without an open loop fails.
    pub fn process(&mut self, token: Token) -> (r: Result<(), BfError>)
        requires
            old(self)@.wf(),
            !old(self)@.halted(),
        ensures
            match r {
                Ok(()) => {
                    &&& !(token == Token::ELOOP && old(self)@.frames.len() == 0)
                    &&& final(self)@ == old(self)@.effect(token)
                },
                Err(e) => {
                    &&& token == Token::ELOOP && old(self)@.frames.len() == 0
                    &&& final(self)@ == old(self)@
                    &&& e == (BfError::UnbalancedLoopError { position: old(self).index })
                },
            },
            final(self)@.wf(),
            !final(self)@.halted(),
    {
        proof {
            if !(token == Token::ELOOP && self@.frames.len() == 0) {
                lemma_effect_wf(self@, token);
            }
        }
        match token {
            Token::INCR => self.incr(),
            Token::DECR => self.decr(),
            Token::MOVR => self.movr(),
            Token::MOVL => self.movl(),
            Token::OPT => self.opt(),
            Token::INPT => self.inpt(),
            Token::SLOOP => self.sloop(),
            Token::ELOOP => {
                return self.eloop();
            },
            Token::NONE => {},
        }
        Ok(())
    }

    /// Whether the value is well formed. A caller that has written to the
    /// fields can ask before it goes on.
    pub fn well_formed(&self) -> (r: bool)
        ensures
            r == self@.wf(),
    {
        if self.pointer >= self.data.len() || self.index > self.src.len() {
            return false;
        }
        let n = self.src.len();
        let mut i: usize = 0;
        while i < self.check_point.len()
            invariant
                i <= self.check_point.len(),
                n == self.src@.len(),
                all_below(self.check_point@.take(i as int), n as int),
            decreases self.check_point.len() - i,
        {
            if self.check_point[i] >= n {
                return false;
            }
            proof {
                let done = self.check_point@.take(i as int);
                let more = self.check_point@.take(i + 1);
                assert forall|j: int| 0 <= j < more.len() implies (#[trigger] more[j]) < n by {
                    if j < i {
                        assert(more[j] == done[j]);
                    }
                }
            }
            i += 1;
        }
        proof {
            assert(self.check_point@.take(i as int) =~= self.check_point@);
        }
        true
    }

    /// Whether the next instruction reads input while none is waiting: a
    /// caller that has more hands it over with [`BrainFuck::feed`] first.
    pub fn awaits_input(&self) -> (r: bool)
        requires
            self@.wf(),
        ensures
            r == (!self@.halted() && self@.program[self@.ip] == Token::INPT && self@.input.len()
                == 0),
    {
        self.index < self.src.len() && self.src[self.index] == Token::INPT && self.input.len()
            == 0
    }

    /// The cells that are not zero, each with its index, in tape order.
    pub fn snapshot(&self) -> (r: Vec<(usize, u32)>)
        ensures
            r@ == nonzero_cells(self@.tape),
    {
        let mut out: Vec<(usize, u32)> = Vec::new();
        let mut i: usize = 0;
        while i < self.data.len()
            invariant
                i <= self.data.len(),
                out@ == nonzero_cells(self.data@.take(i as int)),
            decreases self.data.len() - i,
        {
            proof {
                assert(self.data@.take(i + 1).drop_last() =~= self.data@.take(i as int));
            }
            if self.data[i] != 0 {
                out.push((i, self.data[i]));
            }
            i += 1;
        }
        proof {
            assert(self.data@.take(i as int) =~= self.data@);
        }
        out
    }

    /// Reports how the run stands.
    pub fn status(&self) -> (r: Result<Status, BfError>)
        requires
            self@.wf(),
        ensures
            r == status_of(self@),
    {
        if self.index >= self.src.len() {
            Ok(Status::Halted)
        } else if self.src[self.index] == Token::ELOOP && self.check_point.len() == 0 {
            Err(BfError::UnbalancedLoopError { position: self.index })
        } else {
            Ok(Status::Paused)
        }
    }

    /// Runs for at most `budget` steps, stopping early when the program
    /// halts or a `]` finds no loop open. The state is then what `budget`
    /// steps of the abstract machine give, and the result says how it
    /// stands: an error leaves the output written so far in `result`.
    pub fn run(&mut self, budget: u64) -> (r: Result<Status, BfError>)
        requires
            old(self)@.wf(),
        ensures
            final(self)@ == old(self)@.steps(budget as nat),
            final(self)@.wf(),
            r == status_of(final(self)@),
    {
        let ghost start = self@;
        let mut k: u64 = 0;
        while k < budget
            invariant
                k <= budget,
                start == old(self)@,
                self@.wf(),
                self@ == start.steps(k as nat),
            decreases budget - k,
        {
            if self.index >= self.src.len() {
                proof {
                    lemma_stopped_stays(start, k as nat, budget as nat);
                }
                return Ok(Status::Halted);
            }
            let token = self.src[self.index];
            match self.process(token) {
                Ok(()) => {},
                Err(e) => {
                    proof {
                        lemma_stopped_stays(start, k as nat, budget as nat);
                    }
                    return Err(e);
                },
            }
            self.index = self.index + 1;
            k = k + 1;
        }
        self.status()
    }

    /// Runs the program to its end, or to a `]` that finds no loop open.
    /// So that the call always returns, it takes no more than `u64::MAX`
    /// steps; a program that needs more is reported as paused.
    pub fn exec(&mut self) -> (r: Result<Status, BfError>)
        requires
            old(self)@.wf(),
        ensures
            final(self)@ == old(self)@.steps(u64::MAX as nat),
            final(self)@.wf(),
            r == status_of(final(self)@),
    {
        self.run(u64::MAX)
    }
}

} // verus!
