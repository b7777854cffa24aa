//! The command line that the service is given as its ImagePath.
use crate::text::{
    ascii_lowercase, chars_of, contains, contains_char, has_text, is_ascii_text,
    law_any_case_is_lowercase, law_lowercase_keeps_text, lemma_lowercase_comes_from, lowercase,
    occurs_at, stands_in_any_case, to_lowercase,
};
use vstd::prelude::*;

verus! {

/// The argument that marks a command line as this daemon's.
pub const SERVICE_FLAG: &'static str = "--service";

/// The part of a path, in small letters, that marks it as inside a user's profile.
pub const USERS_DIR: &'static str = "\\users\\";

/// Some backslashes.
pub open spec fn backslashes(n: nat) -> Seq<char> {
    Seq::new(n, |i: int| '\\')
}

/// How many backslashes a text begins with.
pub open spec fn leading_backslashes(s: Seq<char>) -> nat
    decreases s.len(),
{
    if s.len() > 0 && s[0] == '\\' {
        leading_backslashes(s.skip(1)) + 1
    } else {
        0
    }
}

/// What stands for a text between quotes: a backslash before each quote, and two for each backslash
/// that stands before a quote, the closing one included.
pub open spec fn escaped(s: Seq<char>) -> Seq<char>
    decreases s.len(),
{
    let n = leading_backslashes(s);
    if n >= s.len() {
        backslashes(2 * n)
    } else if s[n as int] == '"' {
        backslashes(2 * n + 1) + seq!['"'] + escaped(s.skip(n + 1int))
    } else {
        s.take(n + 1int) + escaped(s.skip(n + 1int))
    }
}

/// One further argument of the command line: after a space, and in quotes if it holds a space.
pub open spec fn arg_text(arg: Seq<char>) -> Seq<char> {
    if arg.contains(' ') {
        seq![' ', '"'] + escaped(arg) + seq!['"']
    } else {
        seq![' '] + arg
    }
}

/// The further arguments of the command line, one after the other.
pub open spec fn args_text(args: Seq<Seq<char>>) -> Seq<char>
    decreases args.len(),
{
    if args.len() == 0 {
        Seq::empty()
    } else {
        args_text(args.drop_last()) + arg_text(args.last())
    }
}

/// The command line that runs `exe` as the service, with further arguments.
pub open spec fn binpath_text(exe: Seq<char>, args: Seq<Seq<char>>) -> Seq<char> {
    seq!['"'] + exe + seq!['"', ' '] + SERVICE_FLAG@ + args_text(args)
}

/// The texts of a list of strings.
pub open spec fn texts_of(args: Seq<String>) -> Seq<Seq<char>> {
    args.map_values(|s: String| s@)
}

/// Whether a command line holds the service flag once its letters are small: the ASCII letters
/// alone, or all of them.
pub open spec fn is_own_binpath(binpath: Seq<char>) -> bool {
    ||| has_text(ascii_lowercase(binpath), SERVICE_FLAG@)
    ||| has_text(lowercase(binpath), SERVICE_FLAG@)
}

/// Whether a path leads through a `Users` directory once its letters are small: the ASCII letters
/// alone, or all of them.
pub open spec fn is_user_path(path: Seq<char>) -> bool {
    ||| has_text(ascii_lowercase(path), USERS_DIR@)
    ||| has_text(lowercase(path), USERS_DIR@)
}

proof fn lemma_leading_backslashes(s: Seq<char>, n: nat)
    requires
        n <= s.len(),
        forall|k: int| 0 <= k < n ==> s[k] == '\\',
        n < s.len() ==> s[n as int] != '\\',
    ensures
        leading_backslashes(s) == n,
    decreases n,
{
    if n > 0 {
        assert forall|k: int| 0 <= k < n - 1 implies s.skip(1)[k] == '\\' by {
            assert(s.skip(1)[k] == s[k + 1]);
        }
        lemma_leading_backslashes(s.skip(1), (n - 1) as nat);
    }
}

proof fn lemma_leads_with_backslashes(s: Seq<char>)
    ensures
        ({
            let n = leading_backslashes(s);
            &&& n <= s.len()
            &&& forall|k: int| 0 <= k < n ==> s[k] == '\\'
            &&& n < s.len() ==> s[n as int] != '\\'
        }),
    decreases s.len(),
{
    if s.len() > 0 && s[0] == '\\' {
        let rest = s.skip(1);
        lemma_leads_with_backslashes(rest);
        assert forall|k: int| 0 <= k < leading_backslashes(s) implies s[k] == '\\' by {
            if k > 0 {
                assert(rest[k - 1] == s[k]);
            }
        }
    }
}

/// Appends some backslashes.
fn push_backslashes(out: &mut String, n: usize)
    ensures
        final(out)@ == old(out)@ + backslashes(n as nat),
{
    let mut i: usize = 0;
    assert(out@ =~= old(out)@ + backslashes(0));
    while i < n
        invariant
            i <= n,
            out@ == old(out)@ + backslashes(i as nat),
        decreases n - i,
    {
        out.push('\\');
        i += 1;
        assert(out@ =~= old(out)@ + backslashes(i as nat));
    }
}

/// Appends what stands for a text between quotes.
fn push_escaped(out: &mut String, text: &str)
    ensures
        final(out)@ == old(out)@ + escaped(text@),
{
    let chars = chars_of(text);
    let ghost all = text@;
    // What stands for the text before the backslashes that have just been seen.
    let ghost mut base = out@;
    let mut run: usize = 0;
    let mut i: usize = 0;
    assert(all.skip(0) =~= all);
    assert(out@ =~= base + backslashes(0));
    while i < chars.len()
        invariant
            chars@ == all,
            all == text@,
            run <= i <= all.len(),
            out@ == base + backslashes(run as nat),
            old(out)@ + escaped(all) == base + escaped(all.skip(i - run)),
            forall|k: int| i - run <= k < i ==> all[k] == '\\',
        decreases all.len() - i,
    {
        let c: char = chars[i];
        let ghost rest = all.skip(i - run);
        if c == '\\' {
            out.push(c);
            run += 1;
            assert(out@ =~= base + backslashes(run as nat));
        } else {
            proof {
                lemma_leading_backslashes(rest, run as nat);
                assert(rest.skip(run + 1) =~= all.skip(i + 1));
            }
            if c == '"' {
                push_backslashes(out, run);
                out.push('\\');
                out.push(c);
                assert(out@ =~= base + (backslashes((2 * run + 1) as nat) + seq!['"']));
                assert(out@ + escaped(all.skip(i + 1)) =~= base + escaped(rest));
            } else {
                out.push(c);
                assert(out@ =~= base + rest.take(run + 1));
                assert(out@ + escaped(all.skip(i + 1)) =~= base + escaped(rest));
            }
            run = 0;
            proof {
                base = out@;
            }
            assert(out@ =~= base + backslashes(0));
        }
        i += 1;
    }
    proof {
        lemma_leading_backslashes(all.skip(i - run), run as nat);
    }
    push_backslashes(out, run);
    assert(out@ =~= base + backslashes((2 * run) as nat));
}

/// The command line that runs `exe` as the service. Arguments with spaces are quoted and what they
/// hold is escaped, so that the service command line round-trips.
pub fn build_binpath(exe: &str, extra_args: &[String]) -> (cmd: String)
    ensures
        cmd@ == binpath_text(exe@, texts_of(extra_args@)),
{
    let mut cmd = String::new();
    cmd.push('"');
    cmd.append(exe);
    cmd.push('"');
    cmd.push(' ');
    cmd.append(SERVICE_FLAG);
    let ghost head = seq!['"'] + exe@ + seq!['"', ' '] + SERVICE_FLAG@;
    let ghost all = texts_of(extra_args@);
    assert(cmd@ =~= head + args_text(all.take(0)));
    let mut i: usize = 0;
    while i < extra_args.len()
        invariant
            i <= extra_args@.len(),
            all == texts_of(extra_args@),
            cmd@ == head + args_text(all.take(i as int)),
        decreases extra_args@.len() - i,
    {
        let arg: &String = &extra_args[i];
        let ghost before = cmd@;
        if contains_char(arg.as_str(), ' ') {
            cmd.push(' ');
            cmd.push('"');
            push_escaped(&mut cmd, arg.as_str());
            cmd.push('"');
        } else {
            cmd.push(' ');
            cmd.append(arg.as_str());
        }
        assert(all.take(i + 1).drop_last() =~= all.take(i as int));
        assert(cmd@ =~= before + arg_text(arg@));
        assert(cmd@ =~= head + args_text(all.take(i + 1)));
        i += 1;
    }
    assert(all.take(i as int) =~= all);
    cmd
}

pub(crate) proof fn lemma_flag_is_lowercase()
    ensures
        is_ascii_text(SERVICE_FLAG@),
        ascii_lowercase(SERVICE_FLAG@) == SERVICE_FLAG@,
{
    reveal_strlit("--service");
    assert(ascii_lowercase(SERVICE_FLAG@) =~= SERVICE_FLAG@);
}

/// Whether a command line that is already in small letters holds the service flag.
pub fn has_service_flag(lowered: &str) -> (r: bool)
    ensures
        r == has_text(lowered@, SERVICE_FLAG@),
{
    contains(lowered, SERVICE_FLAG)
}

/// Whether a command line is this daemon's: it puts the service flag on the end, so this makes
/// sure that it does not take its own command line for Apple's.
pub fn is_netmuxd_binpath(binpath: &str) -> (r: bool)
    ensures
        r == is_own_binpath(binpath@),
        r == has_text(lowercase(binpath@), SERVICE_FLAG@),
        has_text(ascii_lowercase(binpath@), SERVICE_FLAG@) ==> r,
        is_ascii_text(binpath@) ==> r == has_text(ascii_lowercase(binpath@), SERVICE_FLAG@),
        stands_in_any_case(binpath@, "--service"@) ==> r,
        is_ascii_text(binpath@) && r ==> stands_in_any_case(binpath@, "--service"@),
{
    let lowered = to_lowercase(binpath);
    proof {
        lemma_flag_is_lowercase();
        reveal_strlit("--service");
        law_any_case_is_lowercase(binpath@, "--service"@);
        if has_text(ascii_lowercase(binpath@), SERVICE_FLAG@) {
            let part = lemma_lowercase_comes_from(binpath@, SERVICE_FLAG@);
            assert(has_text(binpath@, part));
        }
    }
    has_service_flag(lowered.as_str())
}

/// Whether a path that is already in small letters leads through a `Users` directory.
pub fn has_users_dir(lowered: &str) -> (r: bool)
    ensures
        r == has_text(lowered@, USERS_DIR@),
{
    contains(lowered, USERS_DIR)
}

/// Whether a program lives inside a user's profile, where the account that the service runs
/// under cannot execute it.
pub fn is_in_user_profile(exe: &str) -> (r: bool)
    ensures
        r == is_user_path(exe@),
        r == has_text(lowercase(exe@), USERS_DIR@),
        has_text(ascii_lowercase(exe@), USERS_DIR@) ==> r,
        is_ascii_text(exe@) ==> r == has_text(ascii_lowercase(exe@), USERS_DIR@),
        stands_in_any_case(exe@, "\\users\\"@) ==> r,
        is_ascii_text(exe@) && r ==> stands_in_any_case(exe@, "\\users\\"@),
{
    let lowered = to_lowercase(exe);
    proof {
        reveal_strlit("\\users\\");
        law_any_case_is_lowercase(exe@, "\\users\\"@);
        if has_text(ascii_lowercase(exe@), USERS_DIR@) {
            let part = lemma_lowercase_comes_from(exe@, USERS_DIR@);
            assert(has_text(exe@, part));
        }
    }
    has_users_dir(lowered.as_str())
}

/// A command line that was built here is taken for this daemon's, whatever the program's path
/// and the further arguments.
pub proof fn law_built_binpath_is_own(exe: Seq<char>, args: Seq<Seq<char>>)
    ensures
        is_own_binpath(binpath_text(exe, args)),
{
    let at = (seq!['"'] + exe + seq!['"', ' ']).len() as int;
    let cmd = binpath_text(exe, args);
    assert(cmd.subrange(at, at + SERVICE_FLAG@.len()) =~= SERVICE_FLAG@);
    assert(occurs_at(cmd, SERVICE_FLAG@, at));
    lemma_flag_is_lowercase();
    law_lowercase_keeps_text(cmd, SERVICE_FLAG@);
}

/// Whether a character separates the arguments of a command line.
pub open spec fn is_blank(c: char) -> bool {
    c == ' ' || c == '\t'
}

/// The further arguments in the rest of a command line, as a Windows program is given them. `quoted`
/// is whether the rest begins inside quotes, `arg` is what has been seen so far of the argument that
/// it begins in, if it begins in one.
///
/// Blanks separate arguments outside quotes. Before a quote, each two backslashes stand for one, and
/// one that is left over makes the quote a character like others. Elsewhere a backslash is a
/// character like others. Inside quotes, two quotes in a row stand for one; any other quote begins or
/// ends a part in quotes.
pub open spec fn split_args(rest: Seq<char>, quoted: bool, arg: Option<Seq<char>>) -> Seq<Seq<char>>
    decreases rest.len(),
{
    let so_far = match arg {
        Some(text) => text,
        None => Seq::empty(),
    };
    let n = leading_backslashes(rest);
    if rest.len() == 0 {
        match arg {
            Some(text) => seq![text],
            None => Seq::empty(),
        }
    } else if 0 < n < rest.len() && rest[n as int] == '"' {
        if n % 2 == 0 {
            split_args(rest.skip(n as int), quoted, Some(so_far + backslashes(n / 2)))
        } else {
            split_args(rest.skip(n + 1int), quoted, Some(so_far + backslashes(n / 2) + seq!['"']))
        }
    } else if rest[0] == '"' {
        if quoted && rest.len() > 1 && rest[1] == '"' {
            split_args(rest.skip(2), true, Some(so_far.push('"')))
        } else {
            split_args(rest.skip(1), !quoted, Some(so_far))
        }
    } else if is_blank(rest[0]) && !quoted {
        match arg {
            Some(text) => seq![text] + split_args(rest.skip(1), false, None),
            None => split_args(rest.skip(1), false, None),
        }
    } else {
        split_args(rest.skip(1), quoted, Some(so_far.push(rest[0])))
    }
}

/// How many characters a text has before its first blank.
pub open spec fn before_blank(s: Seq<char>) -> nat
    decreases s.len(),
{
    if s.len() == 0 || is_blank(s[0]) {
        0
    } else {
        before_blank(s.skip(1)) + 1
    }
}

/// The arguments of a command line, as a Windows program is given them. The first is the program: if
/// the line begins with a quote, it runs to the next one, and otherwise to the first blank.
pub open spec fn split_line(line: Seq<char>) -> Seq<Seq<char>> {
    if line.len() > 0 && line[0] == '"' {
        match line.skip(1).index_of_first('"') {
            Some(i) => seq![line.skip(1).take(i)] + split_args(line.skip(i + 2), false, None),
            None => seq![line.skip(1)],
        }
    } else {
        let n = before_blank(line) as int;
        seq![line.take(n)] + split_args(line.skip(n), false, None)
    }
}

/// Whether a rest of a command line begins with a space, if it has anything.
spec fn is_apart(rest: Seq<char>) -> bool {
    rest.len() > 0 ==> rest[0] == ' '
}

proof fn lemma_split_escaped(arg: Seq<char>, rest: Seq<char>, before: Seq<char>)
    ensures
        split_args(escaped(arg) + (seq!['"'] + rest), true, Some(before)) == split_args(
            seq!['"'] + rest,
            true,
            Some(before + arg),
        ),
    decreases arg.len(),
{
    let end = seq!['"'] + rest;
    let line = escaped(arg) + end;
    let n = leading_backslashes(arg);
    lemma_leads_with_backslashes(arg);
    if n == arg.len() {
        lemma_leading_backslashes(line, 2 * n);
        assert(arg =~= backslashes(n));
        assert(line.skip((2 * n) as int) =~= end);
        if n == 0 {
            assert(line =~= end);
            assert(before + arg =~= before);
        }
    } else if arg[n as int] == '"' {
        let tail = arg.skip(n + 1int);
        let more = escaped(tail) + end;
        assert(line =~= backslashes(2 * n + 1) + (seq!['"'] + more));
        lemma_leading_backslashes(line, 2 * n + 1);
        assert(line.skip(2 * n + 2int) =~= more);
        let seen = before + backslashes(n) + seq!['"'];
        assert((2 * n + 1) / 2 == n);
        lemma_split_escaped(tail, rest, seen);
        assert(seen + tail =~= before + arg);
    } else {
        let tail = arg.skip(1);
        assert(tail.skip(n as int) =~= arg.skip(n + 1int));
        if n > 0 {
            assert(leading_backslashes(tail) == n - 1);
            assert(escaped(arg) =~= seq![arg[0]] + escaped(tail));
        }
        lemma_leading_backslashes(line, n);
        assert(line[n as int] == arg[n as int]);
        assert(line.skip(1) =~= escaped(tail) + end);
        lemma_split_escaped(tail, rest, before.push(arg[0]));
        assert(before.push(arg[0]) + tail =~= before + arg);
    }
}

proof fn lemma_split_plain(text: Seq<char>, rest: Seq<char>, before: Seq<char>)
    requires
        forall|k: int| 0 <= k < text.len() ==> text[k] != '"' && !is_blank(text[k]),
        is_apart(rest),
    ensures
        split_args(text + rest, false, Some(before)) == split_args(rest, false, Some(before + text)),
    decreases text.len(),
{
    let line = text + rest;
    if text.len() == 0 {
        assert(line =~= rest);
        assert(before + text =~= before);
    } else {
        let tail = text.skip(1);
        let n = leading_backslashes(line);
        lemma_leads_with_backslashes(line);
        if n < line.len() {
            if n > text.len() {
                assert(line[text.len() as int] == rest[0]);
            }
            assert(line[n as int] != '"');
        }
        assert(line[0] == text[0]);
        assert(line.skip(1) =~= tail + rest);
        lemma_split_plain(tail, rest, before.push(text[0]));
        assert(before.push(text[0]) + tail =~= before + text);
    }
}

/// Whether an argument comes out of the command line as it went in: it has characters, and if it
/// stands there without quotes, for want of a space, it holds no quote and no tab.
pub open spec fn survives(arg: Seq<char>) -> bool {
    &&& arg.len() > 0
    &&& arg.contains(' ') || !arg.contains('"') && !arg.contains('\t')
}

proof fn lemma_split_arg(arg: Seq<char>, rest: Seq<char>, before: Seq<char>)
    requires
        survives(arg),
        is_apart(rest),
    ensures
        split_args(arg_text(arg) + rest, false, None) == split_args(rest, false, Some(arg)),
        split_args(arg_text(arg) + rest, false, Some(before)) == seq![before] + split_args(
            rest,
            false,
            Some(arg),
        ),
{
    let none = Seq::<char>::empty();
    let line = arg_text(arg) + rest;
    let tail = line.skip(1);
    assert(none + arg =~= arg);
    lemma_leading_backslashes(line, 0);
    if arg.contains(' ') {
        let end = seq!['"'] + rest;
        assert(tail =~= seq!['"'] + (escaped(arg) + end));
        assert(tail.skip(1) =~= escaped(arg) + end);
        lemma_leading_backslashes(tail, 0);
        lemma_split_escaped(arg, rest, none);
        lemma_leading_backslashes(end, 0);
        assert(end.skip(1) =~= rest);
        assert(split_args(tail, false, None) == split_args(tail.skip(1), true, Some(none)));
        assert(split_args(end, true, Some(arg)) == split_args(rest, false, Some(arg)));
    } else {
        assert(tail =~= arg + rest);
        assert forall|k: int| 0 <= k < arg.len() implies arg[k] != '"' && !is_blank(arg[k]) by {
            assert(arg.contains(arg[k]));
        }
        lemma_split_plain(arg, rest, none);
        assert(!is_blank(tail[0]));
        assert(split_args(tail, false, None) == split_args(tail, false, Some(none)));
    }
}

proof fn lemma_split_args(args: Seq<Seq<char>>, rest: Seq<char>, before: Seq<char>)
    requires
        forall|i: int| 0 <= i < args.len() ==> survives(#[trigger] args[i]),
        is_apart(rest),
    ensures
        split_args(args_text(args) + rest, false, Some(before)) == (seq![before] + args).drop_last()
            + split_args(rest, false, Some((seq![before] + args).last())),
    decreases args.len(),
{
    if args.len() == 0 {
        assert(args_text(args) + rest =~= rest);
        assert((seq![before] + args).drop_last() =~= Seq::empty());
    } else {
        let front = args.drop_last();
        let more = arg_text(args.last()) + rest;
        assert(args_text(args) + rest =~= args_text(front) + more);
        lemma_split_args(front, more, before);
        let last = (seq![before] + front).last();
        lemma_split_arg(args.last(), rest, last);
        assert((seq![before] + front).drop_last() + seq![last] =~= (seq![before] + args).drop_last());
    }
}

proof fn lemma_args_are_apart(args: Seq<Seq<char>>)
    ensures
        is_apart(args_text(args)),
    decreases args.len(),
{
    if args.len() > 0 {
        lemma_args_are_apart(args.drop_last());
    }
}

/// The command line round-trips: a Windows program that is started with it is given the program, the
/// service flag and the further arguments. A quote in the program's path would end it. An argument
/// without characters would be passed over, and in one that stands without quotes, for want of a
/// space, a quote would be dropped and a tab would separate.
pub proof fn law_binpath_splits_into_its_args(exe: Seq<char>, args: Seq<Seq<char>>)
    requires
        !exe.contains('"'),
        forall|i: int| 0 <= i < args.len() ==> survives(#[trigger] args[i]),
    ensures
        split_line(binpath_text(exe, args)) == seq![exe, SERVICE_FLAG@] + args,
{
    reveal_strlit("--service");
    let none = Seq::<char>::empty();
    let flag = SERVICE_FLAG@;
    let line = binpath_text(exe, args);
    let rest = arg_text(flag) + args_text(args);
    assert(!flag.contains(' ') && !flag.contains('"') && !flag.contains('\t'));
    let tail = line.skip(1);
    assert(tail =~= exe + (seq!['"'] + rest));
    tail.index_of_first_ensures('"');
    assert(tail[exe.len() as int] == '"');
    assert forall|k: int| 0 <= k < exe.len() implies tail[k] != '"' by {
        assert(exe.contains(exe[k]));
    }
    assert(tail.index_of_first('"') == Some(exe.len() as int));
    assert(tail.take(exe.len() as int) =~= exe);
    assert(line.skip(exe.len() + 2int) =~= rest);
    lemma_args_are_apart(args);
    lemma_split_arg(flag, args_text(args), none);
    assert(args_text(args) + none =~= args_text(args));
    lemma_split_args(args, none, flag);
    let all = seq![flag] + args;
    assert(all.drop_last() + seq![all.last()] =~= all);
    assert(seq![exe] + all =~= seq![exe, flag] + args);
}

/// How many backslashes a text ends in.
pub open spec fn trailing_backslashes(s: Seq<char>) -> nat
    decreases s.len(),
{
    if s.len() > 0 && s.last() == '\\' {
        trailing_backslashes(s.drop_last()) + 1
    } else {
        0
    }
}

proof fn lemma_trailing_skip(s: Seq<char>, n: int)
    requires
        0 <= n < s.len(),
        s[n] != '\\',
    ensures
        trailing_backslashes(s.skip(n + 1)) == trailing_backslashes(s),
    decreases s.len(),
{
    let tail = s.skip(n + 1);
    if tail.len() > 0 {
        assert(tail.last() == s.last());
        assert(tail.drop_last() =~= s.drop_last().skip(n + 1));
        if s.last() == '\\' {
            lemma_trailing_skip(s.drop_last(), n);
        }
    }
}

proof fn lemma_all_backslashes(n: nat)
    ensures
        trailing_backslashes(backslashes(n)) == n,
    decreases n,
{
    if n > 0 {
        assert(backslashes(n).drop_last() =~= backslashes((n - 1) as nat));
        lemma_all_backslashes((n - 1) as nat);
    }
}

/// A text without quotes stands for itself between quotes, but for the backslashes at its end, which
/// are doubled.
pub proof fn law_escape_doubles_last_backslashes(s: Seq<char>)
    requires
        !s.contains('"'),
    ensures
        escaped(s) == s + backslashes(trailing_backslashes(s)),
    decreases s.len(),
{
    let n = leading_backslashes(s);
    lemma_leads_with_backslashes(s);
    if n == s.len() {
        assert(s =~= backslashes(n));
        lemma_all_backslashes(n);
        assert(backslashes(2 * n) =~= s + backslashes(n));
    } else {
        let tail = s.skip(n + 1int);
        assert(s.contains(s[n as int]));
        assert forall|c: char| tail.contains(c) implies s.contains(c) by {
            let i = choose|i: int| 0 <= i < tail.len() && tail[i] == c;
            assert(s[i + n + 1] == c);
        }
        law_escape_doubles_last_backslashes(tail);
        lemma_trailing_skip(s, n as int);
        assert(s.take(n + 1int) + (tail + backslashes(trailing_backslashes(s))) =~= s + backslashes(
            trailing_backslashes(s),
        ));
    }
}

/// A command line or a path that holds the flag or the directory in any case is recognised, whatever
/// stands around it.
pub proof fn law_flag_and_directory_count_in_any_case(text: Seq<char>)
    ensures
        stands_in_any_case(text, "--service"@) ==> is_own_binpath(text),
        stands_in_any_case(text, "\\users\\"@) ==> is_user_path(text),
{
    reveal_strlit("--service");
    reveal_strlit("\\users\\");
    law_any_case_is_lowercase(text, "--service"@);
    law_any_case_is_lowercase(text, "\\users\\"@);
}

/// The command line is the program in quotes, a space and `--service`, and then what each further
/// argument adds: a space and the argument itself if it holds no space, and otherwise a space and
/// something in quotes that a Windows program reads as the argument.
pub proof fn law_binpath_grows_by_its_args(exe: Seq<char>, args: Seq<Seq<char>>, arg: Seq<char>)
    ensures
        binpath_text(exe, seq![]) == seq!['"'] + exe + seq![
            '"',
            ' ',
            '-',
            '-',
            's',
            'e',
            'r',
            'v',
            'i',
            'c',
            'e',
        ],
        !arg.contains(' ') ==> binpath_text(exe, args.push(arg)) == binpath_text(exe, args).push(' ')
            + arg,
        arg.contains(' ') ==> {
            let longer = binpath_text(exe, args.push(arg));
            let added = longer.skip(binpath_text(exe, args).len() as int);
            &&& binpath_text(exe, args).is_prefix_of(longer)
            &&& added.len() >= 4
            &&& added[0] == ' ' && added[1] == '"' && added.last() == '"'
            &&& split_args(added, false, None) == seq![arg]
        },
{
    reveal_strlit("--service");
    let none = Seq::<char>::empty();
    assert(args_text(seq![]) =~= none);
    assert(binpath_text(exe, seq![]) =~= seq!['"'] + exe + seq![
        '"',
        ' ',
        '-',
        '-',
        's',
        'e',
        'r',
        'v',
        'i',
        'c',
        'e',
    ]);
    let shorter = binpath_text(exe, args);
    let longer = binpath_text(exe, args.push(arg));
    assert(args.push(arg).drop_last() =~= args);
    assert(longer =~= shorter + arg_text(arg));
    if arg.contains(' ') {
        let added = longer.skip(shorter.len() as int);
        assert(added =~= arg_text(arg));
        assert(shorter =~= longer.subrange(0, shorter.len() as int));
        assert(arg_text(arg) + none =~= arg_text(arg));
        lemma_split_arg(arg, none, none);
        assert(split_args(none, false, Some(arg)) == seq![arg]);
        law_escape_is_no_shorter(arg);
    } else {
        assert(longer =~= shorter.push(' ') + arg);
    }
}

/// What stands for a text between quotes is no shorter than the text.
pub proof fn law_escape_is_no_shorter(s: Seq<char>)
    ensures
        escaped(s).len() >= s.len(),
    decreases s.len(),
{
    let n = leading_backslashes(s);
    lemma_leads_with_backslashes(s);
    if n < s.len() {
        law_escape_is_no_shorter(s.skip(n + 1int));
    }
}

/// The texts of a list of strings are those of all its strings, in their order.
pub proof fn law_texts_are_those_of_the_list(list: Seq<String>, i: int)
    ensures
        texts_of(list).len() == list.len(),
        0 <= i < list.len() ==> texts_of(list)[i] == list[i]@,
{
}

} // verus!
