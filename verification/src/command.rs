//! What came of running a command, and how failures are told.

use crate::error::{RolloutError, RolloutErrorView};
use crate::fleet::outcome;
use crate::text::{dec, dec_int, decimal_i32, law_minus_sign};
use vstd::prelude::*;

verus! {

/// What came of running a command to its end.
#[derive(Debug)]
pub enum CommandOutcome {
    /// It could not be started, and why.
    NotSpawned(String),
    /// It ended; without a code where a signal ended it.
    Exited { success: bool, code: Option<i32> },
}

/// The model of a [`CommandOutcome`].
#[verifier::ext_equal]
pub enum CommandView {
    NotSpawned(Seq<char>),
    Exited { success: bool, code: Option<i32> },
}

impl View for CommandOutcome {
    type V = CommandView;

    open spec fn view(&self) -> CommandView {
        match *self {
            CommandOutcome::NotSpawned(why) => CommandView::NotSpawned(why@),
            CommandOutcome::Exited { success, code } => CommandView::Exited { success, code },
        }
    }
}

/// How an exit code is told: a command that a signal ended counts as `-1`.
pub open spec fn code_text(code: Option<i32>) -> Seq<char> {
    match code {
        Some(c) => dec_int(c as int),
        None => dec_int(-1),
    }
}

/// How an exit code is told.
pub fn exit_code_text(code: Option<i32>) -> (r: String)
    ensures
        r@ == code_text(code),
{
    match code {
        Some(c) => decimal_i32(c),
        None => decimal_i32(-1),
    }
}

/// What a step command of a daemon's recipe gives.
pub open spec fn recipe_cmd_result(
    name: Seq<char>,
    step: Seq<char>,
    ran: CommandView,
) -> Result<(), RolloutErrorView> {
    match ran {
        CommandView::NotSpawned(why) => Err(
            RolloutErrorView::BuildFailed {
                name,
                reason: step + " cmd could not be spawned: "@ + why,
            },
        ),
        CommandView::Exited { success, code } => if success {
            Ok(())
        } else {
            Err(
                RolloutErrorView::BuildFailed {
                    name,
                    reason: step + " cmd exited "@ + code_text(code),
                },
            )
        },
    }
}

/// Whether a step command of a daemon's recipe did its work, or why it did not.
pub fn run_recipe_cmd(name: &str, step: &str, ran: CommandOutcome) -> (r: Result<
    (),
    RolloutError,
>)
    ensures
        outcome(r) == recipe_cmd_result(name@, step@, ran@),
{
    match ran {
        CommandOutcome::NotSpawned(why) => Err(
            RolloutError::BuildFailed {
                name: name.to_owned(),
                reason: step.to_owned().concat(" cmd could not be spawned: ").concat(why.as_str()),
            },
        ),
        CommandOutcome::Exited { success, code } => {
            if success {
                Ok(())
            } else {
                Err(
                    RolloutError::BuildFailed {
                        name: name.to_owned(),
                        reason: step.to_owned().concat(" cmd exited ").concat(
                            exit_code_text(code).as_str(),
                        ),
                    },
                )
            }
        },
    }
}

/// The process id that a signal goes to: `pid`, as far as it is one.
pub open spec fn signal_target(pid: u32) -> i32 {
    if pid <= i32::MAX {
        pid as i32
    } else {
        i32::MAX
    }
}

/// The process id that a signal goes to: `pid`, as far as it is one.
pub fn signal_pid(pid: u32) -> (r: i32)
    ensures
        r == signal_target(pid),
{
    if pid <= 2_147_483_647 {
        pid as i32
    } else {
        2_147_483_647
    }
}

/// A signal never goes to a process group: its target is positive wherever `pid` is.
pub proof fn law_signal_target(pid: u32)
    ensures
        signal_target(pid) >= 0,
        pid > 0 ==> signal_target(pid) > 0,
        pid <= i32::MAX ==> signal_target(pid) == pid,
        pid > i32::MAX ==> signal_target(pid) == 2_147_483_647,
{
}

/// A step command has done its work exactly when it ended with success. Otherwise the daemon and
/// the step are named, and why the command did not start or with which code it ended; a command
/// that a signal ended counts as `-1`.
pub proof fn law_step_command(name: Seq<char>, step: Seq<char>, ran: CommandView)
    ensures
        recipe_cmd_result(name, step, ran) is Ok <==> (ran matches CommandView::Exited {
            success,
            code,
        } && success),
        recipe_cmd_result(name, step, ran) matches Err(e) ==> {
            &&& e is BuildFailed && e->BuildFailed_name == name
            &&& step.is_prefix_of(e->BuildFailed_reason)
            &&& match ran {
                CommandView::NotSpawned(why) => why.is_suffix_of(e->BuildFailed_reason),
                CommandView::Exited { success, code } => match code {
                    Some(c) => if c >= 0 {
                        dec(c as nat).is_suffix_of(e->BuildFailed_reason)
                    } else {
                        (seq!['-'] + dec(-c as nat)).is_suffix_of(e->BuildFailed_reason)
                    },
                    None => (seq!['-'] + dec(1)).is_suffix_of(e->BuildFailed_reason),
                },
            }
        },
{
    if let Err(e) = recipe_cmd_result(name, step, ran) {
        let reason = e->BuildFailed_reason;
        assert(reason.take(step.len() as int) =~= step);
        match ran {
            CommandView::NotSpawned(why) => {
                assert(reason.subrange(reason.len() - why.len(), reason.len() as int) =~= why);
            },
            CommandView::Exited { success, code } => {
                let text = code_text(code);
                assert(reason.subrange(reason.len() - text.len(), reason.len() as int) =~= text);
                law_minus_sign(1);
                if let Some(c) = code {
                    if c >= 0 {
                        law_minus_sign(c as nat);
                    } else {
                        law_minus_sign(-c as nat);
                    }
                }
            },
        }
    }
}

/// The model of what came of a command keeps how it ended.
pub proof fn law_command_model(ran: CommandOutcome)
    ensures
        match ran {
            CommandOutcome::NotSpawned(why) => ran@ == CommandView::NotSpawned(why@),
            CommandOutcome::Exited { success, code } => ran@ == (CommandView::Exited {
                success,
                code,
            }),
        },
{
}

} // verus!
