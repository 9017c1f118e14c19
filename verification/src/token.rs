//! Instructions and the tokenizer that decodes them from source text.

use vstd::prelude::*;

verus! {

/// One instruction of a program.
#[derive(Debug, Clone, Copy, PartialEq, Eq, Structural)]
pub enum Token {
    /// `+`: add one to the current cell, wrapping.
    INCR,
    /// `-`: subtract one from the current cell, wrapping.
    DECR,
    /// `>`: select the next cell.
    MOVR,
    /// `<`: select the previous cell, if there is one.
    MOVL,
    /// `[`: open a loop.
    SLOOP,
    /// `]`: close a loop.
    ELOOP,
    /// `,`: read a line of input into the tape.
    INPT,
    /// `.`: write the current cell to the output.
    OPT,
    /// Whitespace: do nothing.
    NONE,
}

/// Why a program was rejected or stopped.
#[derive(Debug, Clone, Copy, PartialEq, Eq, Structural)]
pub enum BfError {
    /// The source holds a character that is no instruction and no whitespace.
    InvalidTokenError { character: char, position: usize },
    /// A `]` was reached while no loop was open.
    UnbalancedLoopError { position: usize },
}

/// The instruction that a source character stands for, if any.
pub open spec fn token_of(c: char) -> Option<Token> {
    if c == '+' {
        Some(Token::INCR)
    } else if c == '-' {
        Some(Token::DECR)
    } else if c == '>' {
        Some(Token::MOVR)
    } else if c == '<' {
        Some(Token::MOVL)
    } else if c == '[' {
        Some(Token::SLOOP)
    } else if c == ']' {
        Some(Token::ELOOP)
    } else if c == ',' {
        Some(Token::INPT)
    } else if c == '.' {
        Some(Token::OPT)
    } else if c == ' ' || c == '\n' || c == '\t' || c == '\r' {
        Some(Token::NONE)
    } else {
        None
    }
}

/// The source text that an instruction is written as; nothing for a no-op.
pub open spec fn text_of(t: Token) -> Seq<char> {
    match t {
        Token::INCR => seq!['+'],
        Token::DECR => seq!['-'],
        Token::MOVR => seq!['>'],
        Token::MOVL => seq!['<'],
        Token::SLOOP => seq!['['],
        Token::ELOOP => seq![']'],
        Token::INPT => seq![','],
        Token::OPT => seq!['.'],
        Token::NONE => Seq::empty(),
    }
}

/// Every character of `s` stands for an instruction.
pub open spec fn all_valid(s: Seq<char>) -> bool {
    forall|i: int| 0 <= i < s.len() ==> (#[trigger] token_of(s[i])) is Some
}

/// `p` is the place of the first character of `s` that stands for no
/// instruction.
pub open spec fn first_invalid(s: Seq<char>, p: int) -> bool {
    &&& 0 <= p < s.len()
    &&& token_of(s[p]) is None
    &&& all_valid(s.take(p))
}

/// The instructions that the characters of `s` stand for, one for one.
pub open spec fn tokens_of(s: Seq<char>) -> Seq<Token> {
    Seq::new(s.len(), |i: int| token_of(s[i]).unwrap())
}

/// The text of an instruction other than the no-op is one character, and
/// that character decodes to the instruction again.
pub proof fn lemma_text_decodes(t: Token)
    requires
        t != Token::NONE,
    ensures
        text_of(t).len() == 1,
        token_of(text_of(t)[0]) == Some(t),
{
}

impl Token {
    /// Decodes one source character.
    pub fn from_char(c: char) -> (r: Option<Token>)
        ensures
            r == token_of(c),
    {
        match c {
            '+' => Some(Token::INCR),
            '-' => Some(Token::DECR),
            '>' => Some(Token::MOVR),
            '<' => Some(Token::MOVL),
            '[' => Some(Token::SLOOP),
            ']' => Some(Token::ELOOP),
            ',' => Some(Token::INPT),
            '.' => Some(Token::OPT),
            ' ' | '\n' | '\t' | '\r' => Some(Token::NONE),
            _ => None,
        }
    }

    /// The instruction as source text.
    pub fn text(&self) -> (r: String)
        ensures
            r@ == text_of(*self),
    {
        let s = match self {
            Token::INCR => "+",
            Token::DECR => "-",
            Token::MOVR => ">",
            Token::MOVL => "<",
            Token::SLOOP => "[",
            Token::ELOOP => "]",
            Token::INPT => ",",
            Token::OPT => ".",
            Token::NONE => "",
        };
        proof {
            reveal_strlit("+");
            reveal_strlit("-");
            reveal_strlit(">");
            reveal_strlit("<");
            reveal_strlit("[");
            reveal_strlit("]");
            reveal_strlit(",");
            reveal_strlit(".");
            reveal_strlit("");
            assert(s@ =~= text_of(*self));
        }
        String::from_str(s)
    }
}

/// The characters of a string, in order.
fn chars_of(s: &str) -> (v: Vec<char>)
    ensures
        v@ == s@,
{
    let mut v: Vec<char> = Vec::new();
    for c in it: s.chars()
        invariant
            v@ == it.seq().take(it.index() as int),
            it.seq() == s@,
    {
        v.push(c);
    }
    v
}

/// Decodes a whole program. Succeeds exactly when every character stands for
/// an instruction; otherwise reports the first one that does not.
pub fn tokenize(src: &str) -> (r: Result<Vec<Token>, BfError>)
    ensures
        match r {
            Ok(v) => all_valid(src@) && v@ == tokens_of(src@),
            Err(BfError::InvalidTokenError { character, position }) => {
                &&& first_invalid(src@, position as int)
                &&& character == src@[position as int]
            },
            Err(_) => false,
        },
{
    let chars = chars_of(src);
    let mut out: Vec<Token> = Vec::new();
    let mut i: usize = 0;
    while i < chars.len()
        invariant
            chars@ == src@,
            i <= chars.len(),
            out@.len() == i,
            all_valid(src@.take(i as int)),
            out@ == tokens_of(src@.take(i as int)),
        decreases chars.len() - i,
    {
        match Token::from_char(chars[i]) {
            Some(t) => {
                out.push(t);
                proof {
                    assert(out@ =~= tokens_of(src@.take(i + 1)));
                }
            },
            None => {
                return Err(BfError::InvalidTokenError { character: chars[i], position: i });
            },
        }
        i += 1;
    }
    proof {
        assert(src@.take(i as int) =~= src@);
    }
    Ok(out)
}

} // verus!
