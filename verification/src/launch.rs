//! How the host starts and stops: what has to be there, and what the loader is started with.

use vstd::prelude::*;
use vstd::utf8::{encode_utf8, encode_utf8_decode_utf8};

use crate::bytes::copy;
use crate::text::{
    all_digits, all_space, chars_of, dec, dec_int, digit_value, digits_value, is_digit, is_space,
    law_integers_are_written_in_decimal, law_trim_drops_the_white_space_around,
    lemma_digits_value_grows, push_u64, trim, trimmed, with_text,
};
use crate::views::outcome;

verus! {

/// How long the host waits for the loader to connect, in milliseconds.
pub const LOADER_CONNECT_TIMEOUT_MILLIS: u64 = 30_000;

/// How long the host sleeps between two looks, in milliseconds.
pub const ACCEPT_PAUSE_MILLIS: u64 = 50;

/// How the loader is to be started.
#[derive(Clone, Copy, Debug, PartialEq, Eq, Structural)]
pub struct LoaderMode {
    /// With a real signature.
    pub production: bool,
    /// Whether a signature file was named.
    pub has_sig: bool,
    /// Whether a measurement was named.
    pub has_mrenclave: bool,
    /// Through the sandbox wrapper.
    pub sandbox: bool,
}

/// An argument of the loader: a flag, or a value that the host knows.
#[derive(Clone, Copy, Debug, PartialEq, Eq, Structural)]
pub enum Arg {
    HostSocketFlag,
    HostSocket,
    DataDirFlag,
    DataDir,
    ProductionFlag,
    SigFlag,
    Sig,
    ExpectedMrenclaveFlag,
    ExpectedMrenclave,
    Sgxs,
}

/// A variable in the environment of the sandbox wrapper.
#[derive(Clone, Copy, Debug, PartialEq, Eq, Structural)]
pub enum Var {
    Loader,
    HostSock,
    Sgxs,
    DataDir,
    RunDir,
    TeeRoot,
    Production(bool),
    Sig,
    ExpectedMrenclave,
}

/// How the loader is started.
pub enum Launch {
    /// By itself, with these arguments.
    Direct(Vec<Arg>),
    /// Through the sandbox wrapper, with these variables.
    Sandboxed(Vec<Var>),
}

/// What a [`Launch`] holds.
pub ghost enum LaunchView {
    Direct(Seq<Arg>),
    Sandboxed(Seq<Var>),
}

impl View for Launch {
    type V = LaunchView;

    open spec fn view(&self) -> LaunchView {
        match self {
            Launch::Direct(args) => LaunchView::Direct(args@),
            Launch::Sandboxed(vars) => LaunchView::Sandboxed(vars@),
        }
    }
}

/// One or two items if a condition holds, nothing else.
pub open spec fn if_so<T>(condition: bool, items: Seq<T>) -> Seq<T> {
    if condition {
        items
    } else {
        Seq::empty()
    }
}

/// How the loader is started: signature and measurement go to a loader by itself in production
/// only, to the sandbox wrapper in any case.
pub open spec fn launched(mode: LoaderMode, wrapper_exists: bool, wrapper: Seq<char>) -> Result<
    LaunchView,
    Seq<char>,
> {
    if mode.sandbox && !wrapper_exists {
        Err(
            "sandbox wrapper missing: "@ + wrapper + " (disable with --sandbox=false)"@,
        )
    } else if mode.sandbox {
        Ok(
            LaunchView::Sandboxed(
                seq![
                    Var::Loader,
                    Var::HostSock,
                    Var::Sgxs,
                    Var::DataDir,
                    Var::RunDir,
                    Var::TeeRoot,
                    Var::Production(mode.production),
                ] + if_so(mode.has_sig, seq![Var::Sig]) + if_so(
                    mode.has_mrenclave,
                    seq![Var::ExpectedMrenclave],
                ),
            ),
        )
    } else {
        Ok(
            LaunchView::Direct(
                seq![Arg::HostSocketFlag, Arg::HostSocket, Arg::DataDirFlag, Arg::DataDir] + if_so(
                    mode.production,
                    seq![Arg::ProductionFlag],
                ) + if_so(mode.production && mode.has_sig, seq![Arg::SigFlag, Arg::Sig]) + if_so(
                    mode.production && mode.has_mrenclave,
                    seq![Arg::ExpectedMrenclaveFlag, Arg::ExpectedMrenclave],
                ) + seq![Arg::Sgxs],
            ),
        )
    }
}

/// Decides how the loader is started.
pub fn launch(mode: LoaderMode, wrapper_exists: bool, wrapper: &str) -> (out: Result<Launch, String>)
    ensures
        outcome(out) == launched(mode, wrapper_exists, wrapper@),
{
    if mode.sandbox && !wrapper_exists {
        let mut text = with_text("sandbox wrapper missing: ", wrapper);
        text.append(" (disable with --sandbox=false)");
        return Err(text);
    }
    let ghost view = launched(mode, wrapper_exists, wrapper@);
    if mode.sandbox {
        let mut vars: Vec<Var> = vec![
            Var::Loader,
            Var::HostSock,
            Var::Sgxs,
            Var::DataDir,
            Var::RunDir,
            Var::TeeRoot,
            Var::Production(mode.production),
        ];
        if mode.has_sig {
            vars.push(Var::Sig);
        }
        if mode.has_mrenclave {
            vars.push(Var::ExpectedMrenclave);
        }
        assert(vars@ =~= view->Ok_0->Sandboxed_0);
        return Ok(Launch::Sandboxed(vars));
    }
    let mut args: Vec<Arg> = vec![
        Arg::HostSocketFlag,
        Arg::HostSocket,
        Arg::DataDirFlag,
        Arg::DataDir,
    ];
    if mode.production {
        args.push(Arg::ProductionFlag);
        if mode.has_sig {
            args.push(Arg::SigFlag);
            args.push(Arg::Sig);
        }
        if mode.has_mrenclave {
            args.push(Arg::ExpectedMrenclaveFlag);
            args.push(Arg::ExpectedMrenclave);
        }
    }
    args.push(Arg::Sgxs);
    assert(args@ =~= view->Ok_0->Direct_0);
    Ok(Launch::Direct(args))
}

impl Arg {
    /// The flag that an argument is, if it is one.
    pub fn flag(self) -> (out: Option<&'static str>)
        ensures
            match self {
                Arg::HostSocketFlag => out matches Some(s) && s@ == "--host-socket"@,
                Arg::DataDirFlag => out matches Some(s) && s@ == "--data-dir"@,
                Arg::ProductionFlag => out matches Some(s) && s@ == "--production"@,
                Arg::SigFlag => out matches Some(s) && s@ == "--sig"@,
                Arg::ExpectedMrenclaveFlag => out matches Some(s) && s@ == "--expected-mrenclave"@,
                _ => out is None,
            },
    {
        match self {
            Arg::HostSocketFlag => Some("--host-socket"),
            Arg::DataDirFlag => Some("--data-dir"),
            Arg::ProductionFlag => Some("--production"),
            Arg::SigFlag => Some("--sig"),
            Arg::ExpectedMrenclaveFlag => Some("--expected-mrenclave"),
            _ => None,
        }
    }
}

impl Var {
    /// The name of a variable.
    pub open spec fn name_text(self) -> Seq<char> {
        match self {
            Var::Loader => "LOADER"@,
            Var::HostSock => "HOST_SOCK"@,
            Var::Sgxs => "SGXS"@,
            Var::DataDir => "DATA_DIR"@,
            Var::RunDir => "RUN_DIR"@,
            Var::TeeRoot => "TEE_ROOT"@,
            Var::Production(_) => "PRODUCTION"@,
            Var::Sig => "SIG"@,
            Var::ExpectedMrenclave => "EXPECTED_MRENCLAVE"@,
        }
    }

    /// The name of a variable.
    pub fn name(self) -> (out: &'static str)
        ensures
            out@ == self.name_text(),
    {
        match self {
            Var::Loader => "LOADER",
            Var::HostSock => "HOST_SOCK",
            Var::Sgxs => "SGXS",
            Var::DataDir => "DATA_DIR",
            Var::RunDir => "RUN_DIR",
            Var::TeeRoot => "TEE_ROOT",
            Var::Production(_) => "PRODUCTION",
            Var::Sig => "SIG",
            Var::ExpectedMrenclave => "EXPECTED_MRENCLAVE",
        }
    }
}

/// What the host does while the loader has not connected.
#[derive(Clone, Copy, Debug, PartialEq, Eq, Structural)]
pub enum Waiting {
    /// It gives up: the loader is gone.
    ExitedEarly,
    /// It stops the loader and gives up: it took too long.
    TimedOut,
    /// It sleeps for so many milliseconds and looks again.
    Sleep { millis: u64 },
}

/// What the host does while the loader has not connected.
pub open spec fn waiting(exited: bool, waited_millis: u64) -> Waiting {
    if exited {
        Waiting::ExitedEarly
    } else if waited_millis >= LOADER_CONNECT_TIMEOUT_MILLIS {
        Waiting::TimedOut
    } else {
        Waiting::Sleep { millis: ACCEPT_PAUSE_MILLIS }
    }
}

/// Decides what the host does while the loader has not connected.
pub fn wait_for_loader(exited: bool, waited_millis: u64) -> (out: Waiting)
    ensures
        out == waiting(exited, waited_millis),
{
    if exited {
        Waiting::ExitedEarly
    } else if waited_millis >= LOADER_CONNECT_TIMEOUT_MILLIS {
        Waiting::TimedOut
    } else {
        Waiting::Sleep { millis: ACCEPT_PAUSE_MILLIS }
    }
}

/// What is in the way of serving: a socket of another host, or a file that is missing.
pub open spec fn serve_refused(
    socket: (Seq<char>, bool),
    loader: (Seq<char>, bool),
    sgxs: (Seq<char>, bool),
) -> Result<(), Seq<char>> {
    if socket.1 {
        Err("client socket exists: "@ + socket.0 + ", run stop first"@)
    } else if !loader.1 {
        Err("loader not built: "@ + loader.0)
    } else if !sgxs.1 {
        Err("sgxs not found: "@ + sgxs.0)
    } else {
        Ok(())
    }
}

/// Checks whether the host can serve. Each path comes with whether there is something.
pub fn check_serve(socket: (&str, bool), loader: (&str, bool), sgxs: (&str, bool)) -> (out: Result<
    (),
    String,
>)
    ensures
        outcome(out) == serve_refused(
            (socket.0@, socket.1),
            (loader.0@, loader.1),
            (sgxs.0@, sgxs.1),
        ),
{
    if socket.1 {
        let mut text = with_text("client socket exists: ", socket.0);
        text.append(", run stop first");
        return Err(text);
    }
    if !loader.1 {
        return Err(with_text("loader not built: ", loader.0));
    }
    if !sgxs.1 {
        return Err(with_text("sgxs not found: ", sgxs.0));
    }
    Ok(())
}

/// What is in the way of a single attestation.
pub open spec fn attest_refused(socket: Seq<char>, exists: bool) -> Result<(), Seq<char>> {
    if exists {
        Err("runtime socket busy: "@ + socket + ", stop serve first"@)
    } else {
        Ok(())
    }
}

/// Checks whether a single attestation can be made.
pub fn check_attest(socket: &str, exists: bool) -> (out: Result<(), String>)
    ensures
        outcome(out) == attest_refused(socket@, exists),
{
    if exists {
        let mut text = with_text("runtime socket busy: ", socket);
        text.append(", stop serve first");
        return Err(text);
    }
    Ok(())
}

/// The nonce of a single attestation.
pub open spec fn single_nonce(nonce: Option<Seq<char>>) -> Seq<u8> {
    encode_utf8(
        match nonce {
            Some(text) => text,
            None => "pr2-attest-nonce"@,
        },
    )
}

/// The nonce of a single attestation: the text that was given, or else a fixed one.
pub fn attest_nonce(nonce: Option<&str>) -> (out: Vec<u8>)
    ensures
        out@ == single_nonce(
            match nonce {
                Some(text) => Some(text@),
                None => None,
            },
        ),
{
    match nonce {
        Some(text) => copy(text.as_bytes()),
        None => copy("pr2-attest-nonce".as_bytes()),
    }
}

/// The nonce of an attestation that a serving host makes at this time.
pub open spec fn timed_nonce(now: u64) -> Seq<u8> {
    encode_utf8("attest-worker-"@ + dec(now as nat))
}

/// The nonce of the attestations that a serving host makes from time to time.
pub fn worker_nonce(now: u64) -> (out: Vec<u8>)
    ensures
        out@ == timed_nonce(now),
{
    let mut text = "attest-worker-".to_owned();
    push_u64(&mut text, now);
    copy(text.as_str().as_bytes())
}

/// Reads digits up to the first that makes the number too large or that is none.
pub open spec fn pid_digits(s: Seq<char>, acc: nat) -> Result<u32, Seq<char>>
    decreases s.len(),
{
    if s.len() == 0 {
        Ok(acc as u32)
    } else if !is_digit(s[0]) {
        Err("invalid digit found in string"@)
    } else if acc * 10 + digit_value(s[0]) > u32::MAX {
        Err("number too large to fit in target type"@)
    } else {
        pid_digits(s.skip(1), acc * 10 + digit_value(s[0]))
    }
}

/// What a process id file says: a number, maybe with a plus sign, and white space around it.
pub open spec fn pid_written(text: Seq<char>) -> Result<u32, Seq<char>> {
    let s = trimmed(text);
    if s.len() == 0 {
        Err("cannot parse integer from empty string"@)
    } else if s[0] == '+' && s.len() > 1 {
        pid_digits(s.skip(1), 0)
    } else {
        pid_digits(s, 0)
    }
}

/// Reads a process id file.
pub fn parse_pid(text: &str) -> (out: Result<u32, String>)
    ensures
        outcome(out) == pid_written(text@),
{
    let chars = chars_of(text);
    let s = trim(chars.as_slice());
    if s.len() == 0 {
        return Err("cannot parse integer from empty string".to_owned());
    }
    let start: usize = if s[0] == '+' && s.len() > 1 {
        1
    } else {
        0
    };
    let mut i: usize = start;
    let mut acc: u32 = 0;
    let ghost whole = pid_written(text@);
    assert(s@.skip(0) =~= s@);
    while i < s.len()
        invariant
            i <= s@.len(),
            whole == pid_written(text@),
            pid_digits(s@.skip(i as int), acc as nat) == whole,
        decreases s@.len() - i,
    {
        let c = s[i];
        let ghost rest = s@.skip(i as int);
        assert(rest[0] == c);
        assert(rest.skip(1) =~= s@.skip(i + 1));
        if c < '0' || c > '9' {
            return Err("invalid digit found in string".to_owned());
        }
        let d: u64 = c as u64 - 48;
        let next: u64 = acc as u64 * 10 + d;
        if next > u32::MAX as u64 {
            return Err("number too large to fit in target type".to_owned());
        }
        acc = next as u32;
        i = i + 1;
    }
    Ok(acc)
}

/// A loader by itself is started with the socket and the data directory, each behind its flag, and
/// with the enclave last. In production, and only then, it gets the flag for that, and behind it the
/// signature and the measurement that were named.
pub proof fn law_loader_gets_its_arguments(mode: LoaderMode, exists: bool, wrapper: Seq<char>)
    requires
        !mode.sandbox,
    ensures
        ({
            &&& launched(mode, exists, wrapper) matches Ok(LaunchView::Direct(args))
            &&& args.take(4) == seq![
                Arg::HostSocketFlag,
                Arg::HostSocket,
                Arg::DataDirFlag,
                Arg::DataDir,
            ]
            &&& args.last() == Arg::Sgxs
            &&& args.subrange(4, args.len() - 1) == match (
                mode.production,
                mode.has_sig,
                mode.has_mrenclave,
            ) {
                (false, _, _) => Seq::<Arg>::empty(),
                (true, false, false) => seq![Arg::ProductionFlag],
                (true, true, false) => seq![Arg::ProductionFlag, Arg::SigFlag, Arg::Sig],
                (true, false, true) => seq![
                    Arg::ProductionFlag,
                    Arg::ExpectedMrenclaveFlag,
                    Arg::ExpectedMrenclave,
                ],
                (true, true, true) => seq![
                    Arg::ProductionFlag,
                    Arg::SigFlag,
                    Arg::Sig,
                    Arg::ExpectedMrenclaveFlag,
                    Arg::ExpectedMrenclave,
                ],
            }
        }),
{
    let args = (launched(mode, exists, wrapper)->Ok_0)->Direct_0;
    assert(args.take(4) =~= seq![
        Arg::HostSocketFlag,
        Arg::HostSocket,
        Arg::DataDirFlag,
        Arg::DataDir,
    ]);
}

/// The sandbox wrapper has to be there. It gets all that a loader gets, and in any case the
/// signature and the measurement that were named, and whether this is production.
pub proof fn law_sandbox_gets_its_variables(mode: LoaderMode, exists: bool, wrapper: Seq<char>)
    requires
        mode.sandbox,
    ensures
        !exists ==> launched(mode, exists, wrapper) == Err::<LaunchView, Seq<char>>(
            "sandbox wrapper missing: "@ + wrapper + " (disable with --sandbox=false)"@,
        ),
        exists ==> {
            &&& launched(mode, exists, wrapper) matches Ok(LaunchView::Sandboxed(vars))
            &&& vars.take(7) == seq![
                Var::Loader,
                Var::HostSock,
                Var::Sgxs,
                Var::DataDir,
                Var::RunDir,
                Var::TeeRoot,
                Var::Production(mode.production),
            ]
            &&& vars.skip(7) == match (mode.has_sig, mode.has_mrenclave) {
                (false, false) => Seq::<Var>::empty(),
                (true, false) => seq![Var::Sig],
                (false, true) => seq![Var::ExpectedMrenclave],
                (true, true) => seq![Var::Sig, Var::ExpectedMrenclave],
            }
        },
{
}

/// The variables of the sandbox wrapper have these names.
pub proof fn law_variables_have_their_names(production: bool)
    ensures
        Var::Loader.name_text() == "LOADER"@,
        Var::HostSock.name_text() == "HOST_SOCK"@,
        Var::Sgxs.name_text() == "SGXS"@,
        Var::DataDir.name_text() == "DATA_DIR"@,
        Var::RunDir.name_text() == "RUN_DIR"@,
        Var::TeeRoot.name_text() == "TEE_ROOT"@,
        Var::Production(production).name_text() == "PRODUCTION"@,
        Var::Sig.name_text() == "SIG"@,
        Var::ExpectedMrenclave.name_text() == "EXPECTED_MRENCLAVE"@,
{
}

/// A loader that is gone is given up at once; one that is there gets thirty seconds, and is looked
/// for twenty times in each of them.
pub proof fn law_loader_gets_thirty_seconds(exited: bool, waited_millis: u64)
    ensures
        waiting(exited, waited_millis) is ExitedEarly <==> exited,
        waiting(exited, waited_millis) is TimedOut <==> !exited && waited_millis >= 30_000,
        waiting(exited, waited_millis) matches Waiting::Sleep { millis } ==> 20 * millis == 1_000,
{
}

/// The host serves if and only if no socket is in its way and both files are there; what is in the
/// way is told, the socket first and the loader next.
pub proof fn law_host_says_what_is_in_its_way(
    socket: (Seq<char>, bool),
    loader: (Seq<char>, bool),
    sgxs: (Seq<char>, bool),
)
    ensures
        serve_refused(socket, loader, sgxs) is Ok <==> !socket.1 && loader.1 && sgxs.1,
        socket.1 ==> serve_refused(socket, loader, sgxs) == Err::<(), Seq<char>>(
            "client socket exists: "@ + socket.0 + ", run stop first"@,
        ),
        !socket.1 && !loader.1 ==> serve_refused(socket, loader, sgxs) == Err::<(), Seq<char>>(
            "loader not built: "@ + loader.0,
        ),
        !socket.1 && loader.1 && !sgxs.1 ==> serve_refused(socket, loader, sgxs) == Err::<
            (),
            Seq<char>,
        >("sgxs not found: "@ + sgxs.0),
        attest_refused(socket.0, socket.1) is Ok <==> !socket.1,
        socket.1 ==> attest_refused(socket.0, socket.1) == Err::<(), Seq<char>>(
            "runtime socket busy: "@ + socket.0 + ", stop serve first"@,
        ),
{
}

/// The nonce of a single attestation is the text that was given, whatever it is; that of a timed one
/// tells the time, so that no two times have the same.
pub proof fn law_nonces_tell_what_they_were_made_of(text: Seq<char>, now: u64, later: u64)
    ensures
        single_nonce(Some(text)) == encode_utf8(text),
        single_nonce(None) == encode_utf8("pr2-attest-nonce"@),
        timed_nonce(now) == encode_utf8("attest-worker-"@ + dec_int(now as int)),
        timed_nonce(now) == timed_nonce(later) ==> now == later,
{
    law_integers_are_written_in_decimal(now as int);
    law_integers_are_written_in_decimal(later as int);
    let a = "attest-worker-"@ + dec_int(now as int);
    let b = "attest-worker-"@ + dec_int(later as int);
    if encode_utf8(a) == encode_utf8(b) {
        encode_utf8_decode_utf8(a);
        encode_utf8_decode_utf8(b);
        let n = "attest-worker-"@.len() as int;
        assert(a.skip(n) =~= dec_int(now as int));
        assert(b.skip(n) =~= dec_int(later as int));
    }
}

/// Digits are read as the number that they write, if it has at most 32 bits. A digit that makes the
/// number too large ends the reading, and so does what is no digit.
pub proof fn law_process_id_is_read(before: Seq<char>, digits: Seq<char>, after: Seq<char>)
    requires
        all_space(before),
        all_space(after),
        digits.len() > 0,
        all_digits(digits),
    ensures
        ({
            let read = if digits_value(digits) <= 0xffff_ffff {
                Ok::<u32, Seq<char>>(digits_value(digits) as u32)
            } else {
                Err("number too large to fit in target type"@)
            };
            &&& pid_written(before + digits + after) == read
            &&& pid_written(before + (seq!['+'] + digits) + after) == read
        }),
{
    assert(is_digit(digits[0]) && is_digit(digits.last()));
    law_trim_drops_the_white_space_around(before, digits, after);
    lemma_pid_digits(Seq::empty(), digits);
    assert(Seq::<char>::empty() + digits =~= digits);
    let plus = seq!['+'] + digits;
    assert(plus.last() == digits.last());
    assert(plus[0] == '+');
    law_trim_drops_the_white_space_around(before, plus, after);
    assert(plus.skip(1) =~= digits);
}

/// Digits are read from left to right.
proof fn lemma_pid_digits(read: Seq<char>, rest: Seq<char>)
    requires
        all_digits(read + rest),
        digits_value(read) <= 0xffff_ffff,
    ensures
        pid_digits(rest, digits_value(read)) == if digits_value(read + rest) <= 0xffff_ffff {
            Ok::<u32, Seq<char>>(digits_value(read + rest) as u32)
        } else {
            Err("number too large to fit in target type"@)
        },
    decreases rest.len(),
{
    let all = read + rest;
    if rest.len() == 0 {
        assert(all =~= read);
    } else {
        let next = read.push(rest[0]);
        assert(all[read.len() as int] == rest[0]);
        assert(is_digit(rest[0]));
        assert(next.drop_last() =~= read);
        assert(digits_value(next) == digits_value(read) * 10 + digit_value(rest[0]));
        assert(all =~= next + rest.skip(1));
        lemma_digits_value_grows(all, next.len() as int);
        assert(all.take(next.len() as int) =~= next);
        if digits_value(next) <= 0xffff_ffff {
            lemma_pid_digits(next, rest.skip(1));
        }
    }
}

/// A process id file with nothing in it is refused, and one with anything but digits: a sign counts
/// only in front, and only a plus.
pub proof fn law_other_process_ids_are_refused(
    before: Seq<char>,
    text: Seq<char>,
    after: Seq<char>,
    i: int,
)
    requires
        all_space(before),
        all_space(after),
        0 <= i < text.len(),
        !is_space(text[0]) && !is_space(text.last()),
        !('0' <= text[i] <= '9'),
        i > 0 || text[0] != '+' || text.len() == 1,
    ensures
        pid_written(before) == Err::<u32, Seq<char>>("cannot parse integer from empty string"@),
        pid_written(before + text + after) is Err,
        i == 0 ==> pid_written(before + text + after) == Err::<u32, Seq<char>>(
            "invalid digit found in string"@,
        ),
{
    let e = Seq::<char>::empty();
    law_trim_drops_the_white_space_around(before, e, e);
    assert(before + e + e =~= before);
    law_trim_drops_the_white_space_around(before, text, after);
    lemma_pid_stops(text, 0, i);
    if text[0] == '+' && text.len() > 1 {
        assert(text.skip(1)[i - 1] == text[i]);
        lemma_pid_stops(text.skip(1), 0, i - 1);
    }
}

/// What is no digit is never read over.
proof fn lemma_pid_stops(s: Seq<char>, acc: nat, i: int)
    requires
        0 <= i < s.len(),
        !is_digit(s[i]),
    ensures
        pid_digits(s, acc) is Err,
    decreases s.len(),
{
    if i > 0 && is_digit(s[0]) {
        assert(s.skip(1)[i - 1] == s[i]);
        lemma_pid_stops(s.skip(1), acc * 10 + digit_value(s[0]), i - 1);
    }
}

} // verus!
