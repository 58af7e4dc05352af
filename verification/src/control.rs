//! Requests and commands from outside: control messages, command lines, the
//! session to run commands in, and device names.

use crate::text;
use crate::text::{
    contains, decimal_string, eq_ignore_ascii_case, from_utf8, from_utf8_lossy, parse_number,
    same_str, split_words, trim,
};
use vstd::prelude::*;
use vstd::string::*;
use vstd::utf8::*;

verus! {

/// The layer that the words of a control message ask for: `layer n` or `bar n`
/// for the layer with that number, `default` for the first. Anything else asks
/// for none.
pub open spec fn words_request(words: Seq<Seq<char>>) -> Option<nat> {
    if words.len() == 0 {
        None
    } else if text::same_ignoring_case(words[0], "layer"@) || text::same_ignoring_case(
        words[0],
        "bar"@,
    ) {
        if words.len() > 1 {
            text::parsed_number(words[1], usize::MAX as nat)
        } else {
            None
        }
    } else if text::same_ignoring_case(words[0], "default"@) {
        Some(0)
    } else {
        None
    }
}

/// The layer that a control message asks for.
pub open spec fn message_request(message: Seq<char>) -> Option<nat> {
    words_request(text::words_of(message))
}

/// Tells which layer a control message asks for.
pub fn layer_request(message: &str) -> (r: Option<usize>)
    ensures
        message_request(message@) == (match r {
            Some(layer) => Some(layer as nat),
            None => None,
        }),
{
    let words = split_words(message);
    if words.len() == 0 {
        return None;
    }
    assert(words@[0]@ == text::words_of(message@)[0]);
    let command = words[0].as_str();
    if eq_ignore_ascii_case(command, "layer") || eq_ignore_ascii_case(command, "bar") {
        if words.len() > 1 {
            assert(words@[1]@ == text::words_of(message@)[1]);
            match parse_number(words[1].as_str(), usize::MAX as u64) {
                Some(layer) => Some(layer as usize),
                None => None,
            }
        } else {
            None
        }
    } else if eq_ignore_ascii_case(command, "default") {
        Some(0)
    } else {
        None
    }
}

/// The layer that a list of control messages asks for: the last request
/// counts.
pub open spec fn last_request(messages: Seq<Seq<char>>) -> Option<nat>
    decreases messages.len(),
{
    if messages.len() == 0 {
        None
    } else {
        match message_request(messages.last()) {
            Some(layer) => Some(layer),
            None => last_request(messages.drop_last()),
        }
    }
}

/// The texts of a list of messages in bytes.
pub open spec fn message_texts(messages: Seq<Vec<u8>>) -> Seq<Seq<char>> {
    Seq::new(messages.len(), |i: int| text::utf8_lossy(messages[i]@))
}

/// Every message is valid UTF-8.
pub open spec fn messages_are_texts(messages: Seq<Vec<u8>>) -> bool {
    forall|i: int| 0 <= i < messages.len() ==> valid_utf8((#[trigger] messages[i])@)
}

/// The texts that a list of messages encodes.
pub open spec fn decoded_messages(messages: Seq<Vec<u8>>) -> Seq<Seq<char>> {
    Seq::new(messages.len(), |i: int| decode_utf8(messages[i]@))
}

/// Tells which layer the messages that came in ask for.
pub fn requested_control_layer(messages: &Vec<Vec<u8>>) -> (r: Option<usize>)
    ensures
        last_request(message_texts(messages@)) == (match r {
            Some(layer) => Some(layer as nat),
            None => None,
        }),
        messages_are_texts(messages@) ==> last_request(decoded_messages(messages@)) == (match r {
            Some(layer) => Some(layer as nat),
            None => None,
        }),
{
    let ghost all = message_texts(messages@);
    let mut requested: Option<usize> = None;
    let mut i: usize = 0;
    while i < messages.len()
        invariant
            i <= messages@.len(),
            all == message_texts(messages@),
            forall|j: int|
                0 <= j < i && valid_utf8((#[trigger] messages@[j])@) ==> all[j] == decode_utf8(
                    messages@[j]@,
                ),
            last_request(all.take(i as int)) == (match requested {
                Some(layer) => Some(layer as nat),
                None => None,
            }),
        decreases messages.len() - i,
    {
        let message = from_utf8_lossy(messages[i].as_slice());
        proof {
            assert(all.take(i + 1).drop_last() =~= all.take(i as int));
            assert(all.take(i + 1).last() == message@);
        }
        if let Some(layer) = layer_request(message.as_str()) {
            requested = Some(layer);
        }
        i += 1;
    }
    proof {
        assert(all.take(i as int) =~= all);
        if messages_are_texts(messages@) {
            assert(decoded_messages(messages@) =~= all);
        }
    }
    requested
}

/// The last request counts, whatever came before it.
pub proof fn last_request_counts(before: Seq<Seq<char>>, message: Seq<char>)
    ensures
        message_request(message) is Some ==> last_request(before.push(message))
            == message_request(message),
        message_request(message) is None ==> last_request(before.push(message)) == last_request(
            before,
        ),
{
    assert(before.push(message).drop_last() =~= before);
}

/// A blank message asks for nothing.
pub proof fn blank_message_is_ignored(message: Seq<char>)
    requires
        text::trimmed(message).len() == 0,
    ensures
        message_request(message) is None,
{
    let t = text::trim_start_of(message);
    lemma_blank_start(t);
    text::lemma_trim_start_len(message);
}

/// Trimming the end leaves nothing only of white space.
proof fn lemma_blank_start(s: Seq<char>)
    requires
        text::trim_end_of(s).len() == 0,
    ensures
        s.len() > 0 ==> text::is_white(s[0]),
    decreases s.len(),
{
    if s.len() > 0 {
        if s.len() > 1 {
            assert(text::is_white(s.last()));
            lemma_blank_start(s.drop_last());
            assert(s.drop_last()[0] == s[0]);
        }
    }
}

/// The device is the digitizer of a Touch Bar.
pub open spec fn is_digitizer_name(name: Seq<char>) -> bool {
    text::occurs_in(name, " Touch Bar"@) || text::occurs_in(name, "iBridge"@)
}

/// Tells whether a device is the digitizer of a Touch Bar.
pub fn touchbar_device_name(name: &str) -> (r: bool)
    ensures
        r == is_digitizer_name(name@),
{
    contains(name, " Touch Bar") || contains(name, "iBridge")
}

/// What is asked for, where that is allowed.
pub open spec fn permitted<T>(allowed: bool, asked: Option<T>) -> Option<T> {
    if allowed {
        asked
    } else {
        None
    }
}

/// The command that a button asks for, where commands were allowed when the
/// daemon started. A later change of that option has no effect.
pub fn command_to_run(allowed_at_start: bool, command: Option<String>) -> (r: Option<String>)
    ensures
        r == permitted(allowed_at_start, command),
{
    if allowed_at_start {
        command
    } else {
        None
    }
}

/// The command to run, where it is not blank: without the white space around
/// it.
pub fn runnable_command(command: &str) -> (r: Option<String>)
    ensures
        r is None <==> text::trimmed(command@).len() == 0,
        r matches Some(c) ==> c@ == text::trimmed(command@),
{
    let c = trim(command);
    if c.is_empty() {
        None
    } else {
        Some(c.to_owned())
    }
}

/// A program to run and its arguments.
pub struct Invocation {
    pub program: String,
    pub args: Vec<String>,
}

/// The directory of a user's session.
pub open spec fn runtime_dir(uid: u32) -> Seq<char> {
    "/run/user/"@ + text::decimal(uid as nat)
}

/// The arguments that run a command in a shell, in the session of the user
/// where there is one.
pub open spec fn shell_args(session: Option<(Seq<char>, u32)>, command: Seq<char>) -> Seq<
    Seq<char>,
> {
    match session {
        Some((user, uid)) => seq![
            "-u"@,
            user,
            "--"@,
            "env"@,
            "XDG_RUNTIME_DIR="@ + runtime_dir(uid),
            "WAYLAND_DISPLAY=wayland-0"@,
            "sh"@,
            "-c"@,
            command,
        ],
        None => seq!["-c"@, command],
    }
}

/// The program that runs a command.
pub open spec fn shell_program(in_session: bool) -> Seq<char> {
    if in_session {
        "runuser"@
    } else {
        "sh"@
    }
}

/// How to run a command in a shell: as the user of the session where there is
/// one.
pub fn shell_invocation(session: &Option<(String, u32)>, command: &str) -> (r: Invocation)
    ensures
        r.program@ == shell_program(session is Some),
        text::texts(r.args@) == shell_args(
            match *session {
                Some((user, uid)) => Some((user@, uid)),
                None => None,
            },
            command@,
        ),
{
    match session {
        Some((user, uid)) => {
            let mut dir = "XDG_RUNTIME_DIR=".to_owned();
            dir.append("/run/user/");
            let number = decimal_string(*uid as u64);
            dir.append(number.as_str());
            proof {
                assert(dir@ =~= "XDG_RUNTIME_DIR="@ + runtime_dir(*uid));
            }
            let args = vec![
                "-u".to_owned(),
                user.clone(),
                "--".to_owned(),
                "env".to_owned(),
                dir,
                "WAYLAND_DISPLAY=wayland-0".to_owned(),
                "sh".to_owned(),
                "-c".to_owned(),
                command.to_owned(),
            ];
            assert(text::texts(args@) =~= shell_args(Some((user@, *uid)), command@));
            Invocation { program: "runuser".to_owned(), args }
        },
        None => {
            let args = vec!["-c".to_owned(), command.to_owned()];
            assert(text::texts(args@) =~= shell_args(None, command@));
            Invocation { program: "sh".to_owned(), args }
        },
    }
}

/// The command is handed to the shell as it stands, as the last argument.
pub proof fn command_is_handed_on(session: Option<(Seq<char>, u32)>, command: Seq<char>)
    ensures
        shell_args(session, command).last() == command,
        shell_args(session, command).drop_last().last() == "-c"@,
{
}

/// The users below this number are not people.
pub const FIRST_USER: u32 = 1000;

/// What to make of a directory in `/run/user`.
#[derive(Clone, Copy, PartialEq, Eq, Structural, Debug)]
pub enum SessionDir {
    /// Its name is no number: the search ends.
    Invalid,
    /// It is not that of a person: the search goes on.
    Skipped,
    /// It may be that of the session.
    Candidate(u32),
}

/// What to make of a directory in `/run/user` by its name.
pub open spec fn session_dir_of(name: Seq<char>) -> SessionDir {
    match text::parsed_number(name, u32::MAX as nat) {
        None => SessionDir::Invalid,
        Some(uid) => if uid < FIRST_USER {
            SessionDir::Skipped
        } else {
            SessionDir::Candidate(uid as u32)
        },
    }
}

/// Tells what to make of a directory in `/run/user` by its name.
pub fn session_dir(name: &str) -> (r: SessionDir)
    ensures
        r == session_dir_of(name@),
{
    match parse_number(name, u32::MAX as u64) {
        None => SessionDir::Invalid,
        Some(uid) => if uid < FIRST_USER as u64 {
            SessionDir::Skipped
        } else {
            SessionDir::Candidate(uid as u32)
        },
    }
}

/// What to make of the output of the program that names a user.
pub enum SessionUser {
    /// It is no text: the search ends.
    Invalid,
    /// There is no name: the search goes on.
    Unnamed,
    /// The user has this name.
    Named(String),
}

/// Tells what to make of the output of the program that names a user.
pub fn session_user(output: Vec<u8>) -> (r: SessionUser)
    ensures
        r is Invalid <==> !valid_utf8(output@),
        r is Unnamed <==> valid_utf8(output@) && text::trimmed(decode_utf8(output@)).len() == 0,
        r matches SessionUser::Named(name) ==> name@ == text::trimmed(decode_utf8(output@)),
{
    match from_utf8(output) {
        None => SessionUser::Invalid,
        Some(s) => {
            let name = trim(s.as_str());
            if name.is_empty() {
                SessionUser::Unnamed
            } else {
                SessionUser::Named(name.to_owned())
            }
        },
    }
}

/// The command line asks for the editor.
pub open spec fn asks_for_editor(args: Seq<Seq<char>>) -> bool {
    exists|i: int| 1 <= i < args.len() && (#[trigger] args[i] == "edit"@ || args[i] == "--edit"@)
}

/// Tells whether the command line asks for the editor. The first argument is
/// the name of the program.
pub fn wants_editor(args: &Vec<String>) -> (r: bool)
    ensures
        r == asks_for_editor(text::texts(args@)),
{
    let mut i: usize = 1;
    while i < args.len()
        invariant
            1 <= i,
            forall|j: int|
                1 <= j < i && j < args@.len() ==> #[trigger] text::texts(args@)[j] != "edit"@
                    && text::texts(args@)[j] != "--edit"@,
        decreases args.len() - i,
    {
        assert(text::texts(args@)[i as int] == args@[i as int]@);
        if same_str(args[i].as_str(), "edit") || same_str(args[i].as_str(), "--edit") {
            return true;
        }
        i += 1;
    }
    false
}

/// The part of the open flags that tells how a file is accessed.
pub const O_ACCMODE: i32 = 3;

/// A file is opened to read.
pub const O_RDONLY: i32 = 0;

/// A file is opened to write.
pub const O_WRONLY: i32 = 1;

/// A file is opened to read and write.
pub const O_RDWR: i32 = 2;

/// How a file is to be opened.
#[derive(Clone, Copy, PartialEq, Eq, Structural, Debug)]
pub struct FileAccess {
    pub read: bool,
    pub write: bool,
}

/// How to open a file with these flags.
pub open spec fn access_of(flags: i32) -> FileAccess {
    FileAccess {
        read: flags & O_ACCMODE == O_RDONLY || flags & O_ACCMODE == O_RDWR,
        write: flags & O_ACCMODE == O_WRONLY || flags & O_ACCMODE == O_RDWR,
    }
}

/// Tells how to open a file with these flags.
pub fn file_access(flags: i32) -> (r: FileAccess)
    ensures
        r == access_of(flags),
{
    let mode: i32 = flags & O_ACCMODE;
    FileAccess {
        read: mode == O_RDONLY || mode == O_RDWR,
        write: mode == O_WRONLY || mode == O_RDWR,
    }
}

/// The words `layer` and `bar`, in whatever case, ask for the layer with the
/// number behind them, whatever follows; without a number they ask for nothing.
/// The word `default` asks for the first layer. No other word asks for any.
pub proof fn words_ask_for_layers(word: Seq<char>, n: nat, rest: Seq<Seq<char>>)
    ensures
        ({
            let numbered = text::same_ignoring_case(word, "layer"@) || text::same_ignoring_case(
                word,
                "bar"@,
            );
            let first = text::same_ignoring_case(word, "default"@);
            &&& numbered && n <= usize::MAX ==> words_request(
                seq![word, text::decimal(n)] + rest,
            ) == Some(n)
            &&& numbered && n > usize::MAX ==> words_request(
                seq![word, text::decimal(n)] + rest,
            ) is None
            &&& numbered && rest.len() > 0 && text::parsed_number(rest[0], usize::MAX as nat) is None
                ==> words_request(seq![word] + rest) is None
            &&& numbered ==> words_request(seq![word]) is None
            &&& !numbered && first ==> words_request(seq![word] + rest) == Some(0nat)
            &&& !numbered && !first ==> words_request(seq![word] + rest) is None
            &&& words_request(Seq::empty()) is None
        }),
{
    let number = text::decimal(n);
    if n <= usize::MAX {
        text::parse_undoes_decimal(n, usize::MAX as nat);
    }
    text::numbers_are_digits(number, n, usize::MAX as nat);
    let words = seq![word, number] + rest;
    assert(words[0] == word && words[1] == number);
    assert((seq![word] + rest)[0] == word);
    if rest.len() > 0 {
        assert((seq![word] + rest)[1] == rest[0]);
    }
}

/// A message asks for what its words ask for.
pub proof fn messages_are_words(c: char, word: Seq<char>, rest: Seq<char>)
    requires
        text::is_white(c),
        text::is_word(word),
    ensures
        message_request(word + seq![c] + rest) == words_request(
            seq![word] + text::words_of(rest),
        ),
        message_request(seq![c] + rest) == message_request(rest),
{
    text::words_stand_between_white(c, word, rest);
}

/// Nothing is asked for by no message.
pub proof fn no_message_no_request()
    ensures
        last_request(Seq::empty()) is None,
{
}

/// The digitizer is known by a part of its name.
pub proof fn digitizers_are_known_by_name(head: Seq<char>, tail: Seq<char>, name: Seq<char>)
    ensures
        is_digitizer_name(head + " Touch Bar"@ + tail),
        is_digitizer_name(head + "iBridge"@ + tail),
        is_digitizer_name(name) ==> text::occurs_in(name, " Touch Bar"@) || text::occurs_in(
            name,
            "iBridge"@,
        ),
{
    text::parts_occur(head, " Touch Bar"@, tail);
    text::parts_occur(head, "iBridge"@, tail);
}

/// A command is run where commands are allowed, as it was asked for, and else
/// not.
pub proof fn commands_need_permission(command: Option<Seq<char>>)
    ensures
        permitted(true, command) == command,
        permitted(false, command) is None,
{
}

/// In a session the command runs as its user and finds the session's display
/// and directory; without one a plain shell runs it.
pub proof fn commands_run_in_the_session(user: Seq<char>, uid: u32, command: Seq<char>)
    ensures
        ({
            let args = shell_args(Some((user, uid)), command);
            &&& shell_program(true) == "runuser"@
            &&& args.len() == 9
            &&& args[0] == "-u"@ && args[1] == user && args[2] == "--"@ && args[3] == "env"@
            &&& args[4] == "XDG_RUNTIME_DIR="@ + "/run/user/"@ + text::decimal(uid as nat)
            &&& args[5] == "WAYLAND_DISPLAY=wayland-0"@
            &&& args[6] == "sh"@ && args[7] == "-c"@ && args[8] == command
        }),
        ({
            let args = shell_args(None, command);
            &&& shell_program(false) == "sh"@
            &&& args.len() == 2
            &&& args[0] == "-c"@ && args[1] == command
        }),
        runtime_dir(uid) == "/run/user/"@ + text::decimal(uid as nat),
{
    assert("XDG_RUNTIME_DIR="@ + ("/run/user/"@ + text::decimal(uid as nat))
        =~= "XDG_RUNTIME_DIR="@ + "/run/user/"@ + text::decimal(uid as nat));
}

/// Directories are those of people from the number 1000 on; smaller numbers are
/// passed over, and a name that is no number ends the search.
pub proof fn people_have_sessions(name: Seq<char>, n: u32)
    ensures
        session_dir_of(text::decimal(n as nat)) == (if n >= 1000 {
            SessionDir::Candidate(n)
        } else {
            SessionDir::Skipped
        }),
        session_dir_of(name) is Invalid <==> text::parsed_number(name, 4_294_967_295) is None,
        session_dir_of(name) matches SessionDir::Candidate(uid) ==> uid >= 1000
            && text::parsed_number(name, 4_294_967_295) == Some(uid as nat),
{
    text::parse_undoes_decimal(n as nat, u32::MAX as nat);
}

/// The editor is asked for by either spelling, at any place behind the name of
/// the program, and by nothing else.
pub proof fn the_editor_is_asked_for(args: Seq<Seq<char>>, i: int)
    ensures
        1 <= i < args.len() && (args[i] == "edit"@ || args[i] == "--edit"@) ==> asks_for_editor(
            args,
        ),
        (forall|k: int| 1 <= k < args.len() ==> #[trigger] args[k] != "edit"@ && args[k]
            != "--edit"@) ==> !asks_for_editor(args),
{
}

/// A file is opened to read, to write or both, as the two lowest flags say.
pub proof fn files_are_opened_as_flagged(flags: i32)
    ensures
        flags & 3 == 0 ==> access_of(flags).read && !access_of(flags).write,
        flags & 3 == 1 ==> !access_of(flags).read && access_of(flags).write,
        flags & 3 == 2 ==> access_of(flags).read && access_of(flags).write,
        flags & 3 == 3 ==> !access_of(flags).read && !access_of(flags).write,
{
}

} // verus!
