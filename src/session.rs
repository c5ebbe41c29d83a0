//! One command, from the first query to the notification, as a sequence of
//! decisions.
//!
//! A session asks for one action at a time. The caller carries it out:
//! after `Action::QuerySpaces` it hands the fresh spaces to
//! `Session::on_spaces`; after any other action it calls `Session::next`.
//! A command that changes the spaces starts and ends with a reap, so that
//! spaces left over by earlier runs, or by others, are cleaned up on both
//! sides of the change; `Command::Clean` is one reap.
use vstd::prelude::*;
use vstd::string::StringSliceAdditionalSpecFns;

use crate::reap::{destroy_order, is_destroy_order, MAX_SPACES};
use crate::resolve::{first_with_index, focused_display, InactivePolicy, Resolver, Step};
use crate::space::{models, Space};

verus! {

/// What the user asked for.
#[derive(Debug, Clone, Copy, PartialEq, Eq, Structural)]
pub enum Command {
    /// Only reap the unused trailing spaces.
    Clean,
    /// Focus the space at this index.
    Goto(u32),
    /// Move the focused window to the space at this index.
    Send(u32),
}

/// Why a command line was not understood.
#[derive(Debug, Clone, Copy, PartialEq, Eq, Structural)]
pub enum CommandError {
    /// The command name is none of `clean`, `goto` and `send`.
    UnknownCommand,
    /// `goto` or `send` came without an index.
    MissingIndex,
    /// The index is not a decimal number that fits in 32 bits.
    InvalidIndex,
}

/// The value of a sequence of decimal digits.
pub open spec fn digits_value(b: Seq<u8>) -> int
    decreases b.len(),
{
    if b.len() == 0 {
        0
    } else {
        digits_value(b.drop_last()) * 10 + (b.last() - 48)
    }
}

/// The index that the text `b` names: one or more decimal digits whose
/// value fits in 32 bits.
pub open spec fn index_of(b: Seq<u8>) -> Option<u32> {
    if b.len() > 0 && (forall|i: int| 0 <= i < b.len() ==> 48 <= #[trigger] b[i] <= 57)
        && digits_value(b) <= u32::MAX {
        Some(digits_value(b) as u32)
    } else {
        None
    }
}

/// Reads an index written in decimal digits.
pub fn parse_index(s: &str) -> (r: Option<u32>)
    ensures
        r == index_of(s.spec_bytes()),
{
    let b = s.as_bytes();
    let mut value: u64 = 0;
    let mut too_big = false;
    let mut i: usize = 0;
    while i < b.len()
        invariant
            i <= b.len(),
            b@ == s.spec_bytes(),
            forall|j: int| 0 <= j < i ==> 48 <= #[trigger] b@[j] <= 57,
            too_big ==> digits_value(b@.subrange(0, i as int)) > u32::MAX,
            !too_big ==> value == digits_value(b@.subrange(0, i as int)) && value <= u32::MAX,
        decreases b.len() - i,
    {
        let c = b[i];
        if c < 48 || c > 57 {
            return None;
        }
        assert(b@.subrange(0, i + 1).drop_last() =~= b@.subrange(0, i as int));
        if !too_big {
            value = value * 10 + (c - 48) as u64;
            if value > 0xffff_ffff {
                too_big = true;
            }
        }
        i = i + 1;
    }
    assert(b@.subrange(0, b.len() as int) =~= b@);
    if b.len() == 0 || too_big {
        None
    } else {
        Some(value as u32)
    }
}

/// Whether the text `b` is exactly the word `w`.
fn is_word(b: &[u8], w: &[u8]) -> (r: bool)
    ensures
        r == (b@ == w@),
{
    if b.len() != w.len() {
        return false;
    }
    let mut i: usize = 0;
    while i < b.len()
        invariant
            i <= b.len(),
            b.len() == w.len(),
            b@.subrange(0, i as int) == w@.subrange(0, i as int),
        decreases b.len() - i,
    {
        if b[i] != w[i] {
            assert(b@.subrange(0, i + 1)[i as int] != w@.subrange(0, i + 1)[i as int]);
            return false;
        }
        assert(b@.subrange(0, i + 1) =~= w@.subrange(0, i + 1));
        i = i + 1;
    }
    assert(b@ =~= b@.subrange(0, b.len() as int));
    assert(w@ =~= w@.subrange(0, w.len() as int));
    true
}

/// The command `name`, with `index` for the commands that take one.
pub open spec fn command_of(name: Seq<u8>, index: Option<Seq<u8>>) -> Result<Command, CommandError> {
    if name == seq![99u8, 108, 101, 97, 110] {
        Ok(Command::Clean)
    } else if name == seq![103u8, 111, 116, 111] || name == seq![115u8, 101, 110, 100] {
        match index {
            None => Err(CommandError::MissingIndex),
            Some(i) => match index_of(i) {
                None => Err(CommandError::InvalidIndex),
                Some(n) => if name == seq![103u8, 111, 116, 111] {
                    Ok(Command::Goto(n))
                } else {
                    Ok(Command::Send(n))
                },
            },
        }
    } else {
        Err(CommandError::UnknownCommand)
    }
}

impl Command {
    /// Reads a command line: `clean`, `goto <index>` or `send <index>`.
    pub fn parse(name: &str, index: Option<&str>) -> (r: Result<Command, CommandError>)
        ensures
            r == command_of(
                name.spec_bytes(),
                match index {
                    Some(i) => Some(i.spec_bytes()),
                    None => None,
                },
            ),
    {
        let b = name.as_bytes();
        let clean: [u8; 5] = [99, 108, 101, 97, 110];
        let goto: [u8; 4] = [103, 111, 116, 111];
        let send: [u8; 4] = [115, 101, 110, 100];
        proof {
            assert(clean@ =~= seq![99u8, 108, 101, 97, 110]);
            assert(goto@ =~= seq![103u8, 111, 116, 111]);
            assert(send@ =~= seq![115u8, 101, 110, 100]);
        }
        if is_word(b, clean.as_slice()) {
            return Ok(Command::Clean);
        }
        let is_goto = is_word(b, goto.as_slice());
        if !is_goto && !is_word(b, send.as_slice()) {
            return Err(CommandError::UnknownCommand);
        }
        match index {
            None => Err(CommandError::MissingIndex),
            Some(i) => match parse_index(i) {
                None => Err(CommandError::InvalidIndex),
                Some(n) => if is_goto {
                    Ok(Command::Goto(n))
                } else {
                    Ok(Command::Send(n))
                },
            },
        }
    }
}

/// Where a session stands.
#[derive(Debug, Clone, Copy, PartialEq, Eq, Structural)]
pub enum Stage {
    /// Waiting for the spaces, to reap before the change.
    PreClean,
    /// Waiting for the spaces, to find the target space.
    Resolve,
    /// Waiting for the spaces, to reap after the change.
    PostClean,
    /// The change is done: tell the indicator.
    Notify,
    /// Nothing is left to do.
    Finished,
    /// The target space could not be found or made.
    Failed,
}

/// The next thing for the caller to do.
#[derive(Debug)]
pub enum Action {
    /// Query the spaces and hand them to `Session::on_spaces`.
    QuerySpaces,
    /// Destroy the spaces at these indices, in this order.
    Destroy(Vec<u32>),
    /// Create a new space.
    Create,
    /// Move the space at index `space` to display `display`.
    MoveToDisplay { space: u32, display: u32 },
    /// Focus the space at this index.
    Focus(u32),
    /// Move the focused window to the space at this index.
    MoveWindow(u32),
    /// Tell the indicator to refresh; failing to reach it does no harm.
    Notify,
    /// The command is complete.
    Finish,
    /// The target space did not come about: the command failed.
    GiveUp,
}

/// The action that puts the command into effect on the space at `index`.
pub open spec fn act_on(command: Command, index: u32) -> Action {
    match command {
        Command::Send(_) => Action::MoveWindow(index),
        _ => Action::Focus(index),
    }
}

/// A command under way.
pub struct Session {
    pub command: Command,
    pub stage: Stage,
    pub resolver: Resolver,
}

impl Session {
    /// A session for `command`, which starts with a reap.
    pub fn new(command: Command, policy: InactivePolicy) -> (r: Session)
        ensures
            r.command == command,
            r.stage == Stage::PreClean,
            r.resolver.target == match command {
                Command::Goto(i) => i,
                Command::Send(i) => i,
                Command::Clean => 0,
            },
            r.resolver.policy == policy,
            r.resolver.attempts == 0,
            r.resolver.max_attempts == MAX_SPACES + 1,
    {
        let target = match command {
            Command::Goto(i) => i,
            Command::Send(i) => i,
            Command::Clean => 0,
        };
        Session { command, stage: Stage::PreClean, resolver: Resolver::new(target, policy) }
    }

    /// The next action, once the previous one (other than a query) is done.
    pub fn next(&mut self) -> (r: Action)
        ensures
            final(self).command == old(self).command,
            final(self).resolver == old(self).resolver,
            match old(self).stage {
                Stage::PreClean | Stage::Resolve | Stage::PostClean => {
                    &&& r is QuerySpaces
                    &&& final(self).stage == old(self).stage
                },
                Stage::Notify => {
                    &&& r is Notify
                    &&& final(self).stage == Stage::Finished
                },
                Stage::Finished => {
                    &&& r is Finish
                    &&& final(self).stage == Stage::Finished
                },
                Stage::Failed => {
                    &&& r is GiveUp
                    &&& final(self).stage == Stage::Failed
                },
            },
    {
        match self.stage {
            Stage::PreClean | Stage::Resolve | Stage::PostClean => Action::QuerySpaces,
            Stage::Notify => {
                self.stage = Stage::Finished;
                Action::Notify
            },
            Stage::Finished => Action::Finish,
            Stage::Failed => Action::GiveUp,
        }
    }

    /// The next action, given a fresh query of the spaces.
    ///
    /// Before and after the change it is the reap's destroys. In between it
    /// is what the resolver decides; once the target space is there, the
    /// command's own action on it. At any other stage the spaces are not
    /// needed, and this is `next`.
    pub fn on_spaces(&mut self, spaces: &Vec<Space>) -> (r: Action)
        ensures
            final(self).command == old(self).command,
            ({
                let m = models(spaces@);
                match old(self).stage {
                    Stage::PreClean => {
                        &&& r matches Action::Destroy(order) && is_destroy_order(
                            order@,
                            m,
                            MAX_SPACES,
                        )
                        &&& final(self).stage == if old(self).command is Clean {
                            Stage::Notify
                        } else {
                            Stage::Resolve
                        }
                        &&& final(self).resolver == old(self).resolver
                    },
                    Stage::PostClean => {
                        &&& r matches Action::Destroy(order) && is_destroy_order(
                            order@,
                            m,
                            MAX_SPACES,
                        )
                        &&& final(self).stage == Stage::Notify
                        &&& final(self).resolver == old(self).resolver
                    },
                    Stage::Resolve => {
                        let res = old(self).resolver;
                        let k = first_with_index(m, res.target);
                        &&& final(self).resolver.target == res.target
                        &&& final(self).resolver.policy == res.policy
                        &&& final(self).resolver.max_attempts == res.max_attempts
                        &&& if res.ready_in(m) {
                            &&& r == act_on(old(self).command, m[k].index)
                            &&& final(self).stage == Stage::PostClean
                            &&& final(self).resolver.attempts == res.attempts
                        } else if res.attempts >= res.max_attempts {
                            &&& r is GiveUp
                            &&& final(self).stage == Stage::Failed
                            &&& final(self).resolver.attempts == res.attempts
                        } else {
                            &&& final(self).stage == Stage::Resolve
                            &&& final(self).resolver.attempts == res.attempts + 1
                            &&& k < 0 ==> r is Create
                            &&& k >= 0 ==> (r matches Action::MoveToDisplay { space, display }
                                && space == res.target && Some(display) == focused_display(m))
                        }
                    },
                    _ => {
                        &&& final(self).resolver == old(self).resolver
                        &&& (old(self).stage == Stage::Notify ==> r is Notify && final(self).stage
                            == Stage::Finished)
                        &&& (old(self).stage == Stage::Finished ==> r is Finish
                            && final(self).stage == Stage::Finished)
                        &&& (old(self).stage == Stage::Failed ==> r is GiveUp && final(self).stage
                            == Stage::Failed)
                    },
                }
            }),
    {
        match self.stage {
            Stage::PreClean => {
                let order = destroy_order(spaces, MAX_SPACES);
                self.stage = match self.command {
                    Command::Clean => Stage::Notify,
                    _ => Stage::Resolve,
                };
                Action::Destroy(order)
            },
            Stage::PostClean => {
                let order = destroy_order(spaces, MAX_SPACES);
                self.stage = Stage::Notify;
                Action::Destroy(order)
            },
            Stage::Resolve => match self.resolver.step(spaces) {
                Step::Ready(space) => {
                    self.stage = Stage::PostClean;
                    match self.command {
                        Command::Send(_) => Action::MoveWindow(space.index),
                        _ => Action::Focus(space.index),
                    }
                },
                Step::Create => Action::Create,
                Step::MoveToDisplay { space, display } => Action::MoveToDisplay { space, display },
                Step::Exhausted => {
                    self.stage = Stage::Failed;
                    Action::GiveUp
                },
            },
            _ => self.next(),
        }
    }
}

} // verus!
