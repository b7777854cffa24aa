//! What installing and uninstalling leave behind, on a machine whose replies are true.
use crate::service::binpath::{binpath_text, is_own_binpath};
use crate::service::calls::{Call, OsError, Progress, Reply, ERROR_SUCCESS};
use crate::service::install::Install;
use crate::service::laws::lemma_built_path_reads_as_own;
use crate::service::registry::{byte_len_of, LoadOriginal};
use crate::service::uninstall::Uninstall;
use crate::utf16::{
    decoded, law_read_inverts_wide, law_read_text_is_clean, law_trim_inverts_wide, utf16, wide_len,
    wide_of, without_last_nuls, MAX_WIDE_LEN,
};
use vstd::prelude::*;

verus! {

/// Some NULs.
pub open spec fn nuls(n: nat) -> Seq<u16> {
    Seq::new(n, |i: int| 0u16)
}

/// What there is of the matter on a machine: the ImagePath of the service, and the value in the
/// registry that keeps the original, each as the units that it was set to.
#[verifier::ext_equal]
pub struct Machine {
    pub image_path: Seq<u16>,
    pub saved: Option<Seq<u16>>,
}

impl Machine {
    /// The text that the service's ImagePath is read as.
    pub open spec fn path_text(self) -> Seq<char> {
        decoded(self.image_path.take(wide_len(self.image_path)))
    }

    /// The machine after a call, which has changed it if the reply says that it succeeded.
    pub open spec fn changed_by(self, call: Call<Seq<u16>>, reply: Reply<Seq<u16>>) -> Machine {
        match call {
            Call::ChangeConfig { binary_path, .. } => if reply.ok {
                Machine { image_path: binary_path, ..self }
            } else {
                self
            },
            Call::SetValue { data, .. } => if reply.code == ERROR_SUCCESS {
                Machine { saved: Some(data), ..self }
            } else {
                self
            },
            Call::DeleteValue { .. } => if reply.code == ERROR_SUCCESS {
                Machine { saved: None, ..self }
            } else {
                self
            },
            _ => self,
        }
    }

    /// Whether a reply is true: a call that reads may fail, but if it succeeds it hands out what
    /// there is. The configuration holds the ImagePath and other text after it; a registry value
    /// is read into a buffer of NULs.
    pub open spec fn may_reply(self, call: Call<Seq<u16>>, reply: Reply<Seq<u16>>) -> bool {
        match call {
            Call::QueryConfig { .. } => reply.ok ==> (reply.units matches Some(units)
                ==> self.image_path.is_prefix_of(units)),
            Call::QueryValue { units, .. } => reply.code == ERROR_SUCCESS ==> match self.saved {
                Some(data) => if units == 0 {
                    reply.value == byte_len_of(data.len())
                } else {
                    data.len() <= units ==> reply.units == Some(
                        data + nuls((units - data.len()) as nat),
                    )
                },
                None => false,
            },
            _ => true,
        }
    }
}

impl Install<Seq<char>> {
    /// Whether all is done, with exit code 0.
    pub open spec fn has_succeeded(self) -> bool {
        self matches Install::Finished { exit_code } && exit_code == 0
    }

    /// What a machine has become after a number of replies.
    pub open spec fn leaves(self, machine: Machine, replies: Seq<Reply<Seq<u16>>>) -> Machine
        decreases replies.len(),
    {
        if replies.len() == 0 {
            machine
        } else {
            let front = replies.drop_last();
            let before = self.leaves(machine, front);
            match self.after(front).due() {
                Some(call) => before.changed_by(call, replies.last()),
                None => before,
            }
        }
    }

    /// Whether replies come from a machine and are all true.
    pub open spec fn is_answered_by(self, machine: Machine, replies: Seq<Reply<Seq<u16>>>) -> bool
        decreases replies.len(),
    {
        replies.len() > 0 ==> {
            let front = replies.drop_last();
            &&& self.is_answered_by(machine, front)
            &&& self.after(front).due() matches Some(call) ==> self.leaves(
                machine,
                front,
            ).may_reply(call, replies.last())
        }
    }

    /// Whether the reply leaves it open what the ImagePath in place is.
    pub open spec fn fails_to_read(self, reply: Reply<Seq<u16>>) -> bool {
        self matches Install::Query { at, .. } && at.next(reply) matches Progress::Done(Err(_))
    }

    /// Whether one of the replies left it open what the ImagePath in place is.
    pub open spec fn has_failed_to_read(self, replies: Seq<Reply<Seq<u16>>>) -> bool
        decreases replies.len(),
    {
        replies.len() > 0 && {
            let front = replies.drop_last();
            ||| self.has_failed_to_read(front)
            ||| self.after(front).fails_to_read(replies.last())
        }
    }
}

impl Uninstall<Seq<char>> {
    /// Whether all is done, with exit code 0.
    pub open spec fn has_succeeded(self) -> bool {
        self matches Uninstall::Finished { exit_code } && exit_code == 0
    }

    /// What a machine has become after a number of replies.
    pub open spec fn leaves(self, machine: Machine, replies: Seq<Reply<Seq<u16>>>) -> Machine
        decreases replies.len(),
    {
        if replies.len() == 0 {
            machine
        } else {
            let front = replies.drop_last();
            let before = self.leaves(machine, front);
            match self.after(front).due() {
                Some(call) => before.changed_by(call, replies.last()),
                None => before,
            }
        }
    }

    /// Whether replies come from a machine and are all true.
    pub open spec fn is_answered_by(self, machine: Machine, replies: Seq<Reply<Seq<u16>>>) -> bool
        decreases replies.len(),
    {
        replies.len() > 0 ==> {
            let front = replies.drop_last();
            &&& self.is_answered_by(machine, front)
            &&& self.after(front).due() matches Some(call) ==> self.leaves(
                machine,
                front,
            ).may_reply(call, replies.last())
        }
    }
}

impl Uninstall<Seq<char>> {
    /// Whether the reply grants the deletion of the saved ImagePath.
    pub open spec fn deletes(self, reply: Reply<Seq<u16>>) -> bool {
        self matches Uninstall::Delete { at } && at is DeleteValue && reply.code == ERROR_SUCCESS
    }

    /// Whether one of the replies granted the deletion of the saved ImagePath.
    pub open spec fn has_deleted(self, replies: Seq<Reply<Seq<u16>>>) -> bool
        decreases replies.len(),
    {
        replies.len() > 0 && {
            let front = replies.drop_last();
            ||| self.has_deleted(front)
            ||| self.after(front).deletes(replies.last())
        }
    }
}

/// Whether a machine that was `before` still keeps the ImagePath that was in place then: it has been
/// saved, unless there was nothing to save, as it is this daemon's own or could not be read. Then
/// nothing has been saved, and what was saved earlier is still there.
pub open spec fn keeps_original(machine: Machine, before: Machine, unread: bool) -> bool {
    machine.saved == if is_own_binpath(before.path_text()) || unread {
        before.saved
    } else {
        Some(wide_of(before.path_text()))
    }
}

proof fn lemma_reads_path(machine: Machine, units: Seq<u16>)
    requires
        machine.image_path.contains(0u16),
        machine.image_path.is_prefix_of(units),
    ensures
        decoded(units.take(wide_len(units))) == machine.path_text(),
{
    let path = machine.image_path;
    path.index_of_first_ensures(0u16);
    units.index_of_first_ensures(0u16);
    let end = path.index_of_first(0u16)->0;
    assert forall|i: int| 0 <= i < path.len() implies path[i] == units[i] by {
        assert(units.subrange(0, path.len() as int)[i] == units[i]);
    }
    assert(units.contains(units[end]));
    assert(units.take(wide_len(units)) =~= path.take(wide_len(path)));
}

proof fn lemma_install_leaves(
    exe: Result<Seq<char>, OsError<Seq<char>>>,
    args: Seq<Seq<char>>,
    machine: Machine,
    replies: Seq<Reply<Seq<u16>>>,
)
    requires
        machine.image_path.contains(0u16),
        Install::start(exe, args).is_answered_by(machine, replies),
    ensures
        ({
            let task = Install::start(exe, args);
            let now = task.leaves(machine, replies);
            let text = machine.path_text();
            let kept = keeps_original(now, machine, task.has_failed_to_read(replies));
            let repointed = exe matches Ok(exe) && now.image_path == wide_of(
                binpath_text(exe, args),
            );
            match task.after(replies) {
                Install::Open { program, .. } => {
                    &&& now == machine
                    &&& !task.has_failed_to_read(replies)
                    &&& Install::start(exe, args)->program == program
                },
                Install::Query { binpath, .. } => {
                    &&& now == machine
                    &&& !task.has_failed_to_read(replies)
                    &&& exe matches Ok(exe) && binpath == binpath_text(exe, args)
                },
                Install::Save { current, binpath, .. } => {
                    &&& now == machine
                    &&& !task.has_failed_to_read(replies)
                    &&& current == text
                    &&& !is_own_binpath(text)
                    &&& exe matches Ok(exe) && binpath == binpath_text(exe, args)
                },
                Install::Change { binpath } => {
                    &&& now.image_path == machine.image_path
                    &&& kept
                    &&& exe matches Ok(exe) && binpath == binpath_text(exe, args)
                },
                Install::Bounce { .. } => repointed && kept,
                Install::Finished { exit_code } => {
                    ||| exit_code == 0 && repointed && kept
                    ||| exit_code == 1 && now.image_path == machine.image_path && (now.saved
                        == machine.saved || kept)
                },
            }
        }),
    decreases replies.len(),
{
    if replies.len() > 0 {
        let task = Install::start(exe, args);
        let front = replies.drop_last();
        let reply = replies.last();
        lemma_install_leaves(exe, args, machine, front);
        if let Install::Query { at, .. } = task.after(front) {
            if let Some(units) = reply.units {
                if machine.image_path.is_prefix_of(units) {
                    lemma_reads_path(machine, units);
                }
            }
        }
    }
}

/// Installing keeps the original as far as it can be read: at each moment, the service has the ImagePath that
/// it had, or that ImagePath has been saved, or there was nothing to save, as it is this daemon's
/// own or could not be read, and then nothing has been saved and what was saved earlier is still
/// there.
pub proof fn law_install_keeps_original(
    exe: Result<Seq<char>, OsError<Seq<char>>>,
    args: Seq<Seq<char>>,
    machine: Machine,
    replies: Seq<Reply<Seq<u16>>>,
)
    requires
        machine.image_path.contains(0u16),
        Install::start(exe, args).is_answered_by(machine, replies),
    ensures
        ({
            let task = Install::start(exe, args);
            let now = task.leaves(machine, replies);
            ||| now.image_path == machine.image_path
            ||| keeps_original(now, machine, task.has_failed_to_read(replies))
        }),
{
    lemma_install_leaves(exe, args, machine, replies);
}

/// Installing that ends with exit code 0 has pointed the service at the program, and any other
/// end has left the service as it was.
pub proof fn law_installed_service_runs_program(
    exe: Result<Seq<char>, OsError<Seq<char>>>,
    args: Seq<Seq<char>>,
    machine: Machine,
    replies: Seq<Reply<Seq<u16>>>,
)
    requires
        machine.image_path.contains(0u16),
        Install::start(exe, args).is_answered_by(machine, replies),
        Install::start(exe, args).after(replies) is Finished,
    ensures
        ({
            let task = Install::start(exe, args);
            let now = task.leaves(machine, replies);
            if task.after(replies)->exit_code == 0 {
                exe matches Ok(exe) && now.image_path == wide_of(binpath_text(exe, args))
            } else {
                now.image_path == machine.image_path
            }
        }),
{
    lemma_install_leaves(exe, args, machine, replies);
}

/// Installing on a machine where the daemon is installed already leaves what was saved alone.
pub proof fn law_reinstall_keeps_saved(
    exe: Result<Seq<char>, OsError<Seq<char>>>,
    args: Seq<Seq<char>>,
    machine: Machine,
    replies: Seq<Reply<Seq<u16>>>,
)
    requires
        machine.image_path.contains(0u16),
        is_own_binpath(machine.path_text()),
        Install::start(exe, args).is_answered_by(machine, replies),
    ensures
        Install::start(exe, args).leaves(machine, replies).saved == machine.saved,
{
    lemma_install_leaves(exe, args, machine, replies);
}

proof fn lemma_uninstall_leaves(
    original: Seq<char>,
    machine: Machine,
    replies: Seq<Reply<Seq<u16>>>,
)
    requires
        machine.saved == Some(wide_of(original)),
        2 * wide_of(original).len() < 0x1_0000_0000,
        Uninstall::start().is_answered_by(machine, replies),
    ensures
        ({
            let now = Uninstall::start().leaves(machine, replies);
            match Uninstall::start().after(replies) {
                Uninstall::Load { at } => {
                    &&& now == machine
                    &&& !Uninstall::start().has_deleted(replies)
                    &&& at matches LoadOriginal::ReadValue(bytes) ==> bytes == byte_len_of(
                        wide_of(original).len(),
                    )
                },
                Uninstall::Open { original: held, .. } => {
                    &&& now == machine
                    &&& held == without_last_nuls(original)
                    &&& !Uninstall::start().has_deleted(replies)
                },
                Uninstall::Change { original: held } => {
                    &&& now == machine
                    &&& held == without_last_nuls(original)
                    &&& !Uninstall::start().has_deleted(replies)
                },
                Uninstall::Bounce { .. } => {
                    &&& now.image_path == wide_of(without_last_nuls(original))
                    &&& now.saved == machine.saved
                    &&& !Uninstall::start().has_deleted(replies)
                },
                Uninstall::Delete { .. } => {
                    &&& now.image_path == wide_of(without_last_nuls(original))
                    &&& now.saved == machine.saved
                    &&& !Uninstall::start().has_deleted(replies)
                },
                Uninstall::Finished { exit_code } => {
                    ||| exit_code == 0 && now.image_path == wide_of(without_last_nuls(original))
                        && now.saved == if Uninstall::start().has_deleted(replies) {
                        None
                    } else {
                        machine.saved
                    }
                    ||| exit_code == 1 && now == machine
                },
            }
        }),
    decreases replies.len(),
{
    if replies.len() > 0 {
        let front = replies.drop_last();
        let reply = replies.last();
        lemma_uninstall_leaves(original, machine, front);
        if let Uninstall::Load { at } = Uninstall::start().after(front) {
            if let LoadOriginal::ReadValue(_) = at {
                law_trim_inverts_wide(original, 0);
                assert(wide_of(original) + nuls(0) =~= wide_of(original));
                assert(wide_of(original) + Seq::new(0, |i: int| 0u16) =~= wide_of(original));
            }
        }
    }
}

/// Uninstalling that ends with exit code 0 has put back the ImagePath that was saved, without any
/// NULs at its end, and nothing is saved any more if the registry has let it be deleted. Any other
/// end has left the machine as it was, so that it can be tried again. The text must fit into the
/// size that the registry can be told.
pub proof fn law_uninstall_restores_saved(
    original: Seq<char>,
    machine: Machine,
    replies: Seq<Reply<Seq<u16>>>,
)
    requires
        machine.saved == Some(wide_of(original)),
        2 * wide_of(original).len() < 0x1_0000_0000,
        Uninstall::start().is_answered_by(machine, replies),
        Uninstall::start().after(replies) is Finished,
    ensures
        ({
            let now = Uninstall::start().leaves(machine, replies);
            if Uninstall::start().after(replies)->exit_code == 0 {
                &&& now.image_path == wide_of(without_last_nuls(original))
                &&& now.saved == if Uninstall::start().has_deleted(replies) {
                    None
                } else {
                    machine.saved
                }
            } else {
                now == machine
            }
        }),
{
    lemma_uninstall_leaves(original, machine, replies);
}

proof fn lemma_uninstall_changes_late(machine: Machine, replies: Seq<Reply<Seq<u16>>>)
    ensures
        ({
            let now = Uninstall::start().leaves(machine, replies);
            match Uninstall::start().after(replies) {
                Uninstall::Load { .. } => now == machine,
                Uninstall::Open { .. } => now == machine,
                Uninstall::Change { .. } => now == machine,
                Uninstall::Bounce { .. } => true,
                Uninstall::Delete { .. } => true,
                Uninstall::Finished { exit_code } => exit_code == 0 || now == machine,
            }
        }),
    decreases replies.len(),
{
    if replies.len() > 0 {
        lemma_uninstall_changes_late(machine, replies.drop_last());
    }
}

/// Uninstalling that ends with an exit code other than 0 has left the machine as it was, whatever
/// was saved there and whatever the replies were.
pub proof fn law_failed_uninstall_changes_nothing(machine: Machine, replies: Seq<Reply<Seq<u16>>>)
    requires
        Uninstall::start().after(replies) is Finished,
        Uninstall::start().after(replies)->exit_code != 0,
    ensures
        Uninstall::start().leaves(machine, replies) == machine,
{
    lemma_uninstall_changes_late(machine, replies);
}

/// Where nothing is saved there is nothing to restore: uninstalling does not get past looking for
/// it, ends with exit code 1 if it ends, and leaves the machine as it was.
pub proof fn law_nothing_saved_is_nothing_restored(
    machine: Machine,
    replies: Seq<Reply<Seq<u16>>>,
)
    requires
        machine.saved is None,
        Uninstall::start().is_answered_by(machine, replies),
    ensures
        Uninstall::start().leaves(machine, replies) == machine,
        match Uninstall::start().after(replies) {
            Uninstall::Load { at } => !(at is ReadValue),
            Uninstall::Finished { exit_code } => exit_code == 1,
            _ => false,
        },
    decreases replies.len(),
{
    if replies.len() > 0 {
        law_nothing_saved_is_nothing_restored(machine, replies.drop_last());
    }
}

/// The saved ImagePath is never lost by uninstalling: as long as the service does not have it, it
/// stays saved.
pub proof fn law_uninstall_keeps_saved(
    original: Seq<char>,
    machine: Machine,
    replies: Seq<Reply<Seq<u16>>>,
)
    requires
        machine.saved == Some(wide_of(original)),
        2 * wide_of(original).len() < 0x1_0000_0000,
        Uninstall::start().is_answered_by(machine, replies),
    ensures
        ({
            let now = Uninstall::start().leaves(machine, replies);
            ||| now.image_path == wide_of(without_last_nuls(original))
            ||| now.saved == machine.saved
        }),
{
    lemma_uninstall_leaves(original, machine, replies);
}

/// Installing, installing again, and uninstalling gives the service back the ImagePath that it
/// had, and leaves nothing saved if the registry has let it be deleted: whatever was refused or failed on the way, if the first and the last end with exit code
/// 0, and the ImagePath was not this daemon's own and could be read, it is read as it was. The
/// second time may be for another program, may end in any way or never have been begun. The first
/// program's path must be one that leaves the flag after it in sight: free of NULs, and short
/// enough for the flag to be among the units that are looked at.
pub proof fn law_install_then_uninstall(
    machine: Machine,
    exe: Seq<char>,
    args: Seq<Seq<char>>,
    first: Seq<Reply<Seq<u16>>>,
    other_exe: Result<Seq<char>, OsError<Seq<char>>>,
    other_args: Seq<Seq<char>>,
    second: Seq<Reply<Seq<u16>>>,
    last: Seq<Reply<Seq<u16>>>,
)
    requires
        machine.image_path.contains(0u16),
        !is_own_binpath(machine.path_text()),
        !exe.contains('\0'),
        utf16(binpath_text(exe, seq![])).len() <= MAX_WIDE_LEN,
        Install::start(Ok(exe), args).is_answered_by(machine, first),
        !Install::start(Ok(exe), args).has_failed_to_read(first),
        Install::start(Ok(exe), args).after(first).has_succeeded(),
        ({
            let installed = Install::start(Ok(exe), args).leaves(machine, first);
            let again = Install::start(other_exe, other_args);
            &&& again.is_answered_by(installed, second)
            &&& Uninstall::start().is_answered_by(again.leaves(installed, second), last)
        }),
        Uninstall::start().after(last).has_succeeded(),
    ensures
        ({
            let installed = Install::start(Ok(exe), args).leaves(machine, first);
            let again = Install::start(other_exe, other_args).leaves(installed, second);
            let restored = Uninstall::start().leaves(again, last);
            &&& restored.path_text() == machine.path_text()
            &&& Uninstall::start().has_deleted(last) ==> restored.saved is None
        }),
{
    let text = machine.path_text();
    let installed = Install::start(Ok(exe), args).leaves(machine, first);
    let again = Install::start(other_exe, other_args).leaves(installed, second);
    lemma_install_leaves(Ok(exe), args, machine, first);
    assert(installed.saved == Some(wide_of(text)));
    assert(installed.image_path.last() == 0);
    assert(installed.image_path + Seq::empty() =~= installed.image_path);
    lemma_built_path_reads_as_own(exe, args, Seq::empty());
    law_reinstall_keeps_saved(other_exe, other_args, installed, second);
    law_read_text_is_clean(machine.image_path);
    if text.len() > 0 {
        assert(text.contains(text.last()));
    }
    law_uninstall_restores_saved(text, again, last);
    law_read_inverts_wide(text, Seq::empty());
    assert(wide_of(text) + Seq::empty() =~= wide_of(text));
}

} // verus!
