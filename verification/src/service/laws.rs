//! What holds of installing and uninstalling as a whole, whatever Windows replies.
use crate::service::binpath::{
    args_text, binpath_text, is_own_binpath, lemma_flag_is_lowercase, SERVICE_FLAG,
};
use crate::service::bounce::{law_bounce_ends, pause_of, Bounce};
use crate::service::calls::{Call, OsError, Progress, Reply, ERROR_SUCCESS};
use crate::service::install::Install;
use crate::service::manager::{change_due, OpenAmds, QueryPath};
use crate::service::registry::{law_load_inverts_save, DeleteOriginal, LoadOriginal, SaveOriginal};
use crate::service::uninstall::Uninstall;
use crate::text::{law_lowercase_keeps_text, occurs_at};
use crate::utf16::{
    decoded, law_encode_joins, law_read_begins_as_buffer, law_read_text_is_clean, utf16, wide_len,
    wide_of, MAX_WIDE_LEN,
};
use vstd::prelude::*;

verus! {

impl Install<Seq<char>> {
    /// The state after a number of replies.
    pub open spec fn after(self, replies: Seq<Reply<Seq<u16>>>) -> Install<Seq<char>>
        decreases replies.len(),
    {
        if replies.len() == 0 {
            self
        } else {
            self.after(replies.drop_last()).next(replies.last())
        }
    }

    /// How many replies it takes at most until all is done.
    pub open spec fn replies_left(self) -> nat {
        match self {
            Install::Open { at: OpenAmds::Manager, .. } => 158,
            Install::Open { at: OpenAmds::Service, .. } => 157,
            Install::Query { at: QueryPath::Size, .. } => 156,
            Install::Query { at: QueryPath::Read(_), .. } => 155,
            Install::Save { at: SaveOriginal::CreateKey, .. } => 154,
            Install::Save { at: SaveOriginal::SetValue, .. } => 153,
            Install::Change { .. } => 152,
            Install::Bounce { at } => at.replies_left(),
            Install::Finished { .. } => 0,
        }
    }

    /// How long the calls that the replies answered have paused, in milliseconds.
    pub open spec fn paused(self, replies: Seq<Reply<Seq<u16>>>) -> nat
        decreases replies.len(),
    {
        if replies.len() == 0 {
            0
        } else {
            let before = self.after(replies.drop_last());
            self.paused(replies.drop_last()) + match before.due() {
                Some(call) => pause_of(call),
                None => 0,
            }
        }
    }

    /// How long there may still be pauses, in milliseconds.
    pub open spec fn pauses_left(self) -> nat {
        match self {
            Install::Bounce { at } => at.pauses_left(),
            Install::Finished { .. } => 0,
            _ => 10_000,
        }
    }

    /// Whether the reply grants a change of the ImagePath that was asked for.
    pub open spec fn grants_change(self, reply: Reply<Seq<u16>>) -> bool {
        self is Change && reply.ok
    }

    /// Whether the reply shows that changing the ImagePath loses nothing that could be kept: the
    /// one in place has been saved, is this daemon's own, or cannot be read.
    pub open spec fn clears_change(self, reply: Reply<Seq<u16>>) -> bool {
        match self {
            Install::Save { at, .. } => at is SetValue && reply.code == ERROR_SUCCESS,
            Install::Query { at, .. } => match at.next(reply) {
                Progress::Done(Ok(current)) => is_own_binpath(current),
                Progress::Done(Err(_)) => true,
                Progress::Pending(_) => false,
            },
            _ => false,
        }
    }

    /// Whether the reply hands out `current` as the ImagePath in place.
    pub open spec fn reads(self, reply: Reply<Seq<u16>>, current: Seq<char>) -> bool {
        self matches Install::Query { at, .. } && at.next(reply) matches Progress::Done(Ok(path))
            && path == current
    }
}

proof fn lemma_install_counts_down(task: Install<Seq<char>>, replies: Seq<Reply<Seq<u16>>>)
    ensures
        task.after(replies) is Finished || task.after(replies).replies_left() + replies.len()
            <= task.replies_left(),
    decreases replies.len(),
{
    if replies.len() > 0 {
        lemma_install_counts_down(task, replies.drop_last());
        let before = task.after(replies.drop_last());
        if let Install::Bounce { at } = before {
            law_bounce_ends(at, replies.last());
        }
    }
}

/// Installing ends, whatever the replies are: after at most 158 of them.
pub proof fn law_install_ends(
    exe: Result<Seq<char>, OsError<Seq<char>>>,
    args: Seq<Seq<char>>,
    replies: Seq<Reply<Seq<u16>>>,
)
    requires
        replies.len() >= 158,
    ensures
        Install::start(exe, args).after(replies) is Finished,
{
    let task = Install::start(exe, args);
    lemma_install_counts_down(task, replies);
    let last = task.after(replies);
    if let Install::Bounce { at } = last {
        law_bounce_ends(at, replies.last());
    }
}

proof fn lemma_install_pauses(task: Install<Seq<char>>, replies: Seq<Reply<Seq<u16>>>)
    ensures
        task.paused(replies) + task.after(replies).pauses_left() <= task.pauses_left(),
    decreases replies.len(),
{
    if replies.len() > 0 {
        lemma_install_pauses(task, replies.drop_last());
        let before = task.after(replies.drop_last());
        law_bounce_ends(Bounce::RequestStop, replies.last());
        if let Install::Bounce { at } = before {
            law_bounce_ends(at, replies.last());
        }
    }
}

/// Installing never pauses for more than ten seconds in all.
pub proof fn law_install_pauses(
    exe: Result<Seq<char>, OsError<Seq<char>>>,
    args: Seq<Seq<char>>,
    replies: Seq<Reply<Seq<u16>>>,
)
    ensures
        Install::start(exe, args).paused(replies) <= 10_000,
{
    lemma_install_pauses(Install::start(exe, args), replies);
}

proof fn lemma_install_history(
    exe: Result<Seq<char>, OsError<Seq<char>>>,
    args: Seq<Seq<char>>,
    replies: Seq<Reply<Seq<u16>>>,
)
    ensures
        ({
            let task = Install::start(exe, args);
            let granted = exists|k: int|
                0 <= k < replies.len() && #[trigger] task.after(replies.take(k)).grants_change(
                    replies[k],
                );
            let cleared = exists|k: int|
                0 <= k < replies.len() && #[trigger] task.after(replies.take(k)).clears_change(
                    replies[k],
                );
            match task.after(replies) {
                Install::Open { .. } | Install::Query { .. } => !granted,
                Install::Save { current, .. } => !granted && exists|k: int|
                    0 <= k < replies.len() && #[trigger] task.after(replies.take(k)).reads(
                        replies[k],
                        current,
                    ),
                Install::Change { .. } => !granted && cleared,
                Install::Bounce { .. } => granted && cleared,
                Install::Finished { exit_code } => {
                    ||| exit_code == 0 && granted && cleared
                    ||| exit_code == 1 && !granted
                },
            }
        }),
    decreases replies.len(),
{
    if replies.len() > 0 {
        let task = Install::start(exe, args);
        let n = replies.len() - 1;
        let front = replies.drop_last();
        lemma_install_history(exe, args, front);
        assert(replies.take(n) =~= front);
        assert forall|k: int| 0 <= k < n implies #[trigger] replies.take(k) == front.take(k)
            && replies[k] == front[k] by {
            assert(replies.take(k) =~= front.take(k));
        }
        let before = task.after(front);
        assert(before.grants_change(replies[n]) == task.after(replies.take(n)).grants_change(
            replies[n],
        ));
        assert(before.clears_change(replies[n]) == task.after(replies.take(n)).clears_change(
            replies[n],
        ));
        assert forall|k: int|
            0 <= k < n && #[trigger] task.after(front.take(k)).grants_change(
                front[k],
            ) implies task.after(replies.take(k)).grants_change(replies[k]) by {
            assert(replies.take(k) == front.take(k));
        }
        assert forall|k: int|
            0 <= k < n && #[trigger] task.after(front.take(k)).clears_change(
                front[k],
            ) implies task.after(replies.take(k)).clears_change(replies[k]) by {
            assert(replies.take(k) == front.take(k));
        }
        if let Install::Save { current, .. } = task.after(replies) {
            if before is Save {
                let k = choose|k: int|
                    0 <= k < n && #[trigger] task.after(front.take(k)).reads(front[k], current);
                assert(task.after(replies.take(k)).reads(replies[k], current));
            } else {
                assert(task.after(replies.take(n)).reads(replies[n], current));
            }
        }
    }
}

/// The exit code of installing is 0 if the ImagePath has been changed, and 1 if not.
pub proof fn law_install_exit_code(
    exe: Result<Seq<char>, OsError<Seq<char>>>,
    args: Seq<Seq<char>>,
    replies: Seq<Reply<Seq<u16>>>,
)
    requires
        Install::start(exe, args).after(replies) is Finished,
    ensures
        ({
            let task = Install::start(exe, args);
            let granted = exists|k: int|
                0 <= k < replies.len() && #[trigger] task.after(replies.take(k)).grants_change(
                    replies[k],
                );
            task.after(replies)->exit_code == if granted {
                0i32
            } else {
                1i32
            }
        }),
{
    lemma_install_history(exe, args, replies);
}

/// The ImagePath in place is not lost: before installing asks for it to be changed, it has been
/// saved, or has turned out to be this daemon's own, or could not be read.
pub proof fn law_original_is_kept(
    exe: Result<Seq<char>, OsError<Seq<char>>>,
    args: Seq<Seq<char>>,
    replies: Seq<Reply<Seq<u16>>>,
)
    requires
        Install::start(exe, args).after(replies).due() matches Some(Call::ChangeConfig { .. }),
    ensures
        exists|k: int|
            0 <= k < replies.len() && #[trigger] Install::start(exe, args).after(
                replies.take(k),
            ).clears_change(replies[k]),
{
    lemma_install_history(exe, args, replies);
}

/// What installing saves is the ImagePath that it has read from the service.
pub proof fn law_saved_is_what_was_read(
    exe: Result<Seq<char>, OsError<Seq<char>>>,
    args: Seq<Seq<char>>,
    replies: Seq<Reply<Seq<u16>>>,
)
    requires
        Install::start(exe, args).after(replies).due() matches Some(Call::SetValue { .. }),
    ensures
        exists|k: int, current: Seq<char>|
            {
                &&& 0 <= k < replies.len()
                &&& #[trigger] Install::start(exe, args).after(replies.take(k)).reads(
                    replies[k],
                    current,
                )
                &&& Install::start(exe, args).after(replies).due() == Some(
                    SaveOriginal::SetValue.due(current),
                )
            },
{
    lemma_install_history(exe, args, replies);
    let task = Install::start(exe, args);
    let current = task.after(replies)->current;
    let k = choose|k: int|
        0 <= k < replies.len() && #[trigger] task.after(replies.take(k)).reads(replies[k], current);
    assert(task.after(replies.take(k)).reads(replies[k], current));
}

proof fn lemma_install_holds_program(
    exe: Seq<char>,
    args: Seq<Seq<char>>,
    replies: Seq<Reply<Seq<u16>>>,
)
    ensures
        ({
            let last = Install::start(Ok(exe), args).after(replies);
            match last {
                Install::Open { program, .. } => program matches Ok(p) && p.exe == exe && p.binpath
                    == binpath_text(exe, args),
                Install::Query { binpath, .. } => binpath == binpath_text(exe, args),
                Install::Save { binpath, .. } => binpath == binpath_text(exe, args),
                Install::Change { binpath } => binpath == binpath_text(exe, args),
                _ => true,
            }
        }),
    decreases replies.len(),
{
    if replies.len() > 0 {
        lemma_install_holds_program(exe, args, replies.drop_last());
    }
}

/// What installing asks for is that the service runs the program with its flag and arguments.
pub proof fn law_install_points_at_program(
    exe: Seq<char>,
    args: Seq<Seq<char>>,
    replies: Seq<Reply<Seq<u16>>>,
)
    ensures
        ({
            let asked = Install::start(Ok(exe), args).after(replies).due();
            asked matches Some(Call::ChangeConfig { .. }) ==> asked == Some(
                change_due(binpath_text(exe, args)),
            )
        }),
{
    lemma_install_holds_program(exe, args, replies);
}

proof fn lemma_no_way_back(task: Install<Seq<char>>, replies: Seq<Reply<Seq<u16>>>)
    requires
        task is Change || task is Bounce || task is Finished,
    ensures
        ({
            let last = task.after(replies);
            last is Change || last is Bounce || last is Finished
        }),
    decreases replies.len(),
{
    if replies.len() > 0 {
        lemma_no_way_back(task, replies.drop_last());
    }
}

proof fn lemma_own_from_head(exe: Seq<char>, text: Seq<char>)
    requires
        binpath_text(exe, seq![]).is_prefix_of(text),
    ensures
        is_own_binpath(text),
{
    let head = binpath_text(exe, seq![]);
    let flag = SERVICE_FLAG@;
    let at = head.len() - flag.len();
    assert(args_text(seq![]) =~= seq![]);
    assert(head.subrange(at, at + flag.len()) =~= flag);
    assert(text.subrange(at, at + flag.len()) =~= head.subrange(at, at + flag.len()));
    assert(occurs_at(text, flag, at));
    lemma_flag_is_lowercase();
    law_lowercase_keeps_text(text, flag);
}

/// A command line that was built here is taken for this daemon's when it is read from a buffer.
pub(crate) proof fn lemma_built_path_reads_as_own(
    exe: Seq<char>,
    args: Seq<Seq<char>>,
    after: Seq<u16>,
)
    requires
        !exe.contains('\0'),
        utf16(binpath_text(exe, seq![])).len() <= MAX_WIDE_LEN,
    ensures
        ({
            let units = wide_of(binpath_text(exe, args)) + after;
            is_own_binpath(decoded(units.take(wide_len(units))))
        }),
{
    let bare = binpath_text(exe, seq![]);
    assert(!bare.contains('\0')) by {
        reveal_strlit("--service");
        assert(args_text(seq![]) =~= seq![]);
        assert forall|i: int| 0 <= i < bare.len() implies bare[i] != '\0' by {
            if 1 <= i <= exe.len() {
                assert(bare[i] == exe[i - 1]);
            }
        }
    }
    let all = binpath_text(exe, args);
    assert(all =~= bare + args_text(args));
    law_encode_joins(bare, args_text(args));
    let tail = utf16(args_text(args)).push(0) + after;
    assert(wide_of(all) + after =~= utf16(bare) + tail);
    law_read_begins_as_buffer(bare, tail);
    let units = wide_of(all) + after;
    lemma_own_from_head(exe, decoded(units.take(wide_len(units))));
}

/// Installing a second time does not save again: when the ImagePath in place is one that
/// installing has put there, nothing is written to the registry from then on, so what the first
/// time saved stays. The program's path must be one that leaves the flag after it in sight: free
/// of NULs, and short enough for the flag to be among the units that are looked at.
pub proof fn law_reinstall_saves_nothing(
    exe: Seq<char>,
    args: Seq<Seq<char>>,
    needed: u32,
    binpath: Seq<char>,
    read: Reply<Seq<u16>>,
    after: Seq<u16>,
    rest: Seq<Reply<Seq<u16>>>,
)
    requires
        !exe.contains('\0'),
        utf16(binpath_text(exe, seq![])).len() <= MAX_WIDE_LEN,
        read.ok,
        change_due(binpath_text(exe, args)) matches Call::ChangeConfig { binary_path, .. }
            && read.units == Some(binary_path + after),
    ensures
        ({
            let reading = Install::Query { at: QueryPath::Read(needed), binpath };
            let due = reading.next(read).after(rest).due();
            &&& reading.next(read) == Install::Change { binpath }
            &&& !(due matches Some(Call::CreateKey { .. }))
            &&& !(due matches Some(Call::SetValue { .. }))
        }),
{
    lemma_built_path_reads_as_own(exe, args, after);
    let reading = Install::Query { at: QueryPath::Read(needed), binpath };
    lemma_no_way_back(reading.next(read), rest);
}

impl Uninstall<Seq<char>> {
    /// The state after a number of replies.
    pub open spec fn after(self, replies: Seq<Reply<Seq<u16>>>) -> Uninstall<Seq<char>>
        decreases replies.len(),
    {
        if replies.len() == 0 {
            self
        } else {
            self.after(replies.drop_last()).next(replies.last())
        }
    }

    /// How many replies it takes at most until all is done.
    pub open spec fn replies_left(self) -> nat {
        match self {
            Uninstall::Load { at: LoadOriginal::OpenKey } => 159,
            Uninstall::Load { at: LoadOriginal::QuerySize } => 158,
            Uninstall::Load { at: LoadOriginal::ReadValue(_) } => 157,
            Uninstall::Open { at: OpenAmds::Manager, .. } => 156,
            Uninstall::Open { at: OpenAmds::Service, .. } => 155,
            Uninstall::Change { .. } => 154,
            Uninstall::Bounce { at } => at.replies_left() + 2,
            Uninstall::Delete { at: DeleteOriginal::OpenKey } => 2,
            Uninstall::Delete { at: DeleteOriginal::DeleteValue } => 1,
            Uninstall::Finished { .. } => 0,
        }
    }

    /// How long the calls that the replies answered have paused, in milliseconds.
    pub open spec fn paused(self, replies: Seq<Reply<Seq<u16>>>) -> nat
        decreases replies.len(),
    {
        if replies.len() == 0 {
            0
        } else {
            let before = self.after(replies.drop_last());
            self.paused(replies.drop_last()) + match before.due() {
                Some(call) => pause_of(call),
                None => 0,
            }
        }
    }

    /// How long there may still be pauses, in milliseconds.
    pub open spec fn pauses_left(self) -> nat {
        match self {
            Uninstall::Bounce { at } => at.pauses_left(),
            Uninstall::Delete { .. } | Uninstall::Finished { .. } => 0,
            _ => 10_000,
        }
    }

    /// Whether the reply grants a change of the ImagePath that was asked for.
    pub open spec fn grants_change(self, reply: Reply<Seq<u16>>) -> bool {
        self is Change && reply.ok
    }

    /// Whether `original` is the ImagePath to be put back.
    pub open spec fn holds(self, original: Seq<char>) -> bool {
        match self {
            Uninstall::Open { original: held, .. } => held == original,
            Uninstall::Change { original: held } => held == original,
            _ => false,
        }
    }

    /// Whether the reply hands out `original` as the ImagePath that was saved.
    pub open spec fn loads(self, reply: Reply<Seq<u16>>, original: Seq<char>) -> bool {
        self matches Uninstall::Load { at } && at.next(reply) matches Progress::Done(Ok(Some(path)))
            && path == original
    }
}

proof fn lemma_uninstall_counts_down(task: Uninstall<Seq<char>>, replies: Seq<Reply<Seq<u16>>>)
    ensures
        task.after(replies) is Finished || task.after(replies).replies_left() + replies.len()
            <= task.replies_left(),
    decreases replies.len(),
{
    if replies.len() > 0 {
        lemma_uninstall_counts_down(task, replies.drop_last());
        let before = task.after(replies.drop_last());
        if let Uninstall::Bounce { at } = before {
            law_bounce_ends(at, replies.last());
        }
    }
}

/// Uninstalling ends, whatever the replies are: after at most 159 of them.
pub proof fn law_uninstall_ends(replies: Seq<Reply<Seq<u16>>>)
    requires
        replies.len() >= 159,
    ensures
        Uninstall::start().after(replies) is Finished,
{
    lemma_uninstall_counts_down(Uninstall::start(), replies);
}

proof fn lemma_uninstall_pauses(task: Uninstall<Seq<char>>, replies: Seq<Reply<Seq<u16>>>)
    ensures
        task.paused(replies) + task.after(replies).pauses_left() <= task.pauses_left(),
    decreases replies.len(),
{
    if replies.len() > 0 {
        lemma_uninstall_pauses(task, replies.drop_last());
        let before = task.after(replies.drop_last());
        law_bounce_ends(Bounce::RequestStop, replies.last());
        if let Uninstall::Bounce { at } = before {
            law_bounce_ends(at, replies.last());
        }
    }
}

/// Uninstalling never pauses for more than ten seconds in all.
pub proof fn law_uninstall_pauses(replies: Seq<Reply<Seq<u16>>>)
    ensures
        Uninstall::start().paused(replies) <= 10_000,
{
    lemma_uninstall_pauses(Uninstall::start(), replies);
}

proof fn lemma_uninstall_history(replies: Seq<Reply<Seq<u16>>>)
    ensures
        ({
            let task = Uninstall::start();
            let granted = exists|k: int|
                0 <= k < replies.len() && #[trigger] task.after(replies.take(k)).grants_change(
                    replies[k],
                );
            match task.after(replies) {
                Uninstall::Load { .. } => !granted,
                Uninstall::Open { .. } => !granted,
                Uninstall::Change { .. } => !granted,
                Uninstall::Bounce { .. } => granted,
                Uninstall::Delete { .. } => granted,
                Uninstall::Finished { exit_code } => {
                    ||| exit_code == 0 && granted
                    ||| exit_code == 1 && !granted
                },
            }
        }),
    decreases replies.len(),
{
    if replies.len() > 0 {
        let task = Uninstall::start();
        let n = replies.len() - 1;
        let front = replies.drop_last();
        lemma_uninstall_history(front);
        assert(replies.take(n) =~= front);
        assert forall|k: int| 0 <= k < n implies #[trigger] replies.take(k) == front.take(k)
            && replies[k] == front[k] by {
            assert(replies.take(k) =~= front.take(k));
        }
        let before = task.after(front);
        assert(before.grants_change(replies[n]) == task.after(replies.take(n)).grants_change(
            replies[n],
        ));
        assert forall|k: int|
            0 <= k < n && #[trigger] task.after(front.take(k)).grants_change(
                front[k],
            ) implies task.after(replies.take(k)).grants_change(replies[k]) by {
            assert(replies.take(k) == front.take(k));
        }
    }
}

proof fn lemma_uninstall_original(replies: Seq<Reply<Seq<u16>>>, original: Seq<char>)
    requires
        Uninstall::start().after(replies).holds(original),
    ensures
        exists|k: int|
            0 <= k < replies.len() && #[trigger] Uninstall::start().after(replies.take(k)).loads(
                replies[k],
                original,
            ),
    decreases replies.len(),
{
    if replies.len() > 0 {
        let task = Uninstall::start();
        let n = replies.len() - 1;
        let front = replies.drop_last();
        let before = task.after(front);
        assert(replies.take(n) =~= front);
        if before.holds(original) {
            lemma_uninstall_original(front, original);
            let k = choose|k: int|
                0 <= k < n && #[trigger] task.after(front.take(k)).loads(front[k], original);
            assert(replies.take(k) =~= front.take(k));
            assert(task.after(replies.take(k)).loads(replies[k], original));
        } else {
            assert(task.after(replies.take(n)).loads(replies[n], original));
        }
    }
}

/// The exit code of uninstalling is 0 if the ImagePath has been put back, and 1 if not.
pub proof fn law_uninstall_exit_code(replies: Seq<Reply<Seq<u16>>>)
    requires
        Uninstall::start().after(replies) is Finished,
    ensures
        ({
            let task = Uninstall::start();
            let granted = exists|k: int|
                0 <= k < replies.len() && #[trigger] task.after(replies.take(k)).grants_change(
                    replies[k],
                );
            task.after(replies)->exit_code == if granted {
                0i32
            } else {
                1i32
            }
        }),
{
    lemma_uninstall_history(replies);
}

/// The saved ImagePath is not deleted before it has been put back.
pub proof fn law_delete_comes_after_restore(replies: Seq<Reply<Seq<u16>>>)
    requires
        Uninstall::start().after(replies).due() matches Some(Call::DeleteValue { .. }),
    ensures
        exists|k: int|
            0 <= k < replies.len() && #[trigger] Uninstall::start().after(
                replies.take(k),
            ).grants_change(replies[k]),
{
    lemma_uninstall_history(replies);
}

/// What uninstalling puts back is what it has loaded.
pub proof fn law_restored_is_what_was_loaded(replies: Seq<Reply<Seq<u16>>>)
    requires
        Uninstall::start().after(replies).due() matches Some(Call::ChangeConfig { .. }),
    ensures
        exists|k: int, original: Seq<char>|
            {
                &&& 0 <= k < replies.len()
                &&& #[trigger] Uninstall::start().after(replies.take(k)).loads(replies[k], original)
                &&& Uninstall::start().after(replies).due() == Some(change_due(original))
            },
{
    let task = Uninstall::start();
    let original = task.after(replies)->Change_original;
    lemma_uninstall_original(replies, original);
    let k = choose|k: int|
        0 <= k < replies.len() && #[trigger] task.after(replies.take(k)).loads(
            replies[k],
            original,
        );
    assert(task.after(replies.take(k)).loads(replies[k], original));
}

/// Uninstalling undoes installing. Say that installing has read the ImagePath `current`, which
/// is not this daemon's, and has got as far as writing to the registry. Then, if the registry
/// gives back the value that was written and the service can be opened, uninstalling asks for
/// the service to get `current` again.
pub proof fn law_uninstall_undoes_install(
    reading: Install<Seq<char>>,
    queried: Reply<Seq<u16>>,
    current: Seq<char>,
    created: Reply<Seq<u16>>,
    opened_key: Reply<Seq<u16>>,
    sized: Reply<Seq<u16>>,
    read: Reply<Seq<u16>>,
    padding: nat,
    opened_manager: Reply<Seq<u16>>,
    opened_service: Reply<Seq<u16>>,
)
    requires
        reading.reads(queried, current),
        !is_own_binpath(current),
        created.code == ERROR_SUCCESS,
        opened_key.code == ERROR_SUCCESS,
        sized.code == ERROR_SUCCESS,
        reading.next(queried).next(created).due() matches Some(Call::SetValue { byte_len, .. })
            ==> sized.value == byte_len,
        read.code == ERROR_SUCCESS,
        reading.next(queried).next(created).due() matches Some(Call::SetValue { data, .. })
            ==> read.units == Some(data + Seq::new(padding, |i: int| 0u16)),
        opened_manager.ok,
        opened_service.ok,
    ensures
        reading.next(queried).next(created).due() matches Some(Call::SetValue { .. }),
        Uninstall::start().next(opened_key).next(sized).next(read).next(opened_manager).next(
            opened_service,
        ).due() == Some(change_due(current)),
{
    let units = queried.units->0;
    law_read_text_is_clean(units);
    if current.len() > 0 {
        assert(current.contains(current.last()));
    }
    law_load_inverts_save(current, opened_key, sized, read, padding);
}

} // verus!
