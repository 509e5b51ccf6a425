//! The state of a progress bar. Drawing it is left to the program.
use vstd::prelude::*;
use vstd::string::*;

verus! {

/// How far the work that a progress bar shows has come.
#[derive(Debug, Clone, Copy, PartialEq, Eq, Structural)]
pub enum State {
    InProgress,
    Passed,
    Failed,
}

/// How wide the text in front of a bar is at least, in bytes.
pub const PREFIX_LENGTH: usize = 13;

/// How many cells a bar has.
pub const BAR_SIZE: usize = 20;

/// The symbol of each state: `…` while the work goes on, a green `✓` once it
/// has passed, a red `×` once it has failed.
pub open spec fn symbol_of(state: State) -> Seq<char> {
    match state {
        State::InProgress => "…"@,
        State::Passed => "\x1b[92m✓\x1b[0m"@,
        State::Failed => "\x1b[91m×\x1b[0m"@,
    }
}

impl State {
    /// Returns the symbol of the state.
    #[must_use]
    pub fn status_symbol(&self) -> (r: String)
        ensures
            r@ == symbol_of(*self),
    {
        match self {
            State::InProgress => "…".to_owned(),
            State::Passed => "\x1b[92m✓\x1b[0m".to_owned(),
            State::Failed => "\x1b[91m×\x1b[0m".to_owned(),
        }
    }
}

/// A progress bar: its state, the text in front of it, and how long the line
/// was that was drawn last.
#[derive(Debug)]
pub struct ProgressBar {
    pub state: State,
    pub prefix: String,
    pub last_len: usize,
}

/// `count` spaces.
pub open spec fn spaces(count: nat) -> Seq<char> {
    Seq::new(count, |i: int| ' ')
}

/// How many spaces fill a text of `len` bytes up to `PREFIX_LENGTH`.
pub open spec fn padding(len: nat) -> nat {
    if len >= PREFIX_LENGTH {
        0
    } else {
        (PREFIX_LENGTH - len) as nat
    }
}

impl ProgressBar {
    /// A bar for work that goes on, with `prefix` in front of it, filled up
    /// with spaces to `PREFIX_LENGTH` bytes.
    #[must_use]
    pub fn new(prefix: &str) -> (r: Self)
        ensures
            r.state == State::InProgress,
            r.last_len == 0,
            r.prefix@ == prefix@ + spaces(padding(prefix.spec_bytes().len())),
    {
        proof {
            reveal_strlit(" ");
            assert(" "@ =~= seq![' ']);
        }
        let len: usize = prefix.as_bytes().len();
        let mut text = prefix.to_owned();
        let mut i: usize = len;
        assert(text@ =~= prefix@ + spaces(0));
        while i < PREFIX_LENGTH
            invariant
                len <= i,
                " "@ == seq![' '],
                i <= PREFIX_LENGTH || i == len,
                text@ == prefix@ + spaces((i - len) as nat),
            decreases PREFIX_LENGTH - i,
        {
            text.append(" ");
            assert(spaces((i - len) as nat) + seq![' '] =~= spaces((i + 1 - len) as nat));
            i += 1;
        }
        ProgressBar { state: State::InProgress, prefix: text, last_len: 0 }
    }

    /// Sets the state of the bar.
    pub fn update_state(&mut self, state: State)
        ensures
            final(self).state == state,
            final(self).prefix == old(self).prefix,
            final(self).last_len == old(self).last_len,
    {
        self.state = state;
    }

    /// Marks the work as passed.
    pub fn pass(&mut self)
        ensures
            final(self).state == State::Passed,
            final(self).prefix == old(self).prefix,
            final(self).last_len == old(self).last_len,
    {
        self.state = State::Passed;
    }

    /// Marks the work as failed.
    pub fn fail(&mut self)
        ensures
            final(self).state == State::Failed,
            final(self).prefix == old(self).prefix,
            final(self).last_len == old(self).last_len,
    {
        self.state = State::Failed;
    }
}

} // verus!
