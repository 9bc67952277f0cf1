use vstd::prelude::*;

use crate::config::{configured_db_path, AppConfig, MONGO_HOST, MONGO_PORT};
use crate::text::{decimal, push_decimal, trim, trim_str};

verus! {

/// A process that listens on the database port.
#[derive(Debug, Clone)]
pub struct PortProcess {
    pub pid: u32,
    pub name: String,
}

/// What became of the database server that this application started, if any.
#[derive(Debug)]
pub enum ChildState {
    /// This application has not started one.
    NotStarted,
    /// It is still running.
    Running,
    /// It has exited, with the status described by the text.
    Exited(String),
}

/// What happened in the last step of starting the database server.
#[derive(Debug)]
pub enum StartupEvent {
    /// Whether something listens on the database port.
    PortOpen(bool),
    /// Whether the server that this application started is still running.
    OwnedServerRunning(bool),
    /// The process that holds the port, if it could be found.
    PortUser(Option<PortProcess>),
    /// What became of the server that this application started.
    Child(ChildState),
    /// The saved configuration, and whether its trimmed folder is an absolute path of an
    /// existing folder.
    ConfigLoaded { config: AppConfig, is_absolute_dir: bool },
    /// A server was launched on the configured folder.
    Launched,
}

/// What to do next to start the database server.
#[derive(Debug)]
pub enum StartupStep {
    /// Check whether something listens on the database port.
    CheckPort,
    /// Check whether the server that this application started still runs.
    CheckOwnedServer,
    /// Look for the process that holds the port.
    FindPortUser,
    /// Look at the server that this application started, if any; forget it if it exited.
    CheckChild,
    /// Read the saved configuration.
    LoadConfig,
    /// Create the folder and launch a server on it, keeping it as this application's.
    Launch { db_path: String },
    /// Wait until the server listens on its port.
    WaitUntilReady,
    /// Stop, with this outcome.
    Finish(Result<(), String>),
}

/// The first step of starting the database server.
pub fn first_startup_step() -> (r: StartupStep)
    ensures
        r is CheckPort,
{
    StartupStep::CheckPort
}

/// The message for a database port that another process holds.
pub open spec fn port_in_use_message(user: Option<PortProcess>) -> Seq<char> {
    match user {
        Some(p) => "Port "@ + decimal(MONGO_PORT as nat) + " is already in use by "@ + p.name@
            + " (PID "@ + decimal(p.pid as nat) + ")."@,
        None => "Port "@ + decimal(MONGO_PORT as nat) + " is already in use."@,
    }
}

/// The message for a server that exited before it was ready.
pub open spec fn exited_message(status: Seq<char>) -> Seq<char> {
    "MongoDB exited before it was ready: "@ + status
}

/// The message for a database folder that is not configured.
pub open spec fn not_configured_message() -> Seq<char> {
    "MongoDB database folder has not been configured"@
}

/// The message for a database port that is held by another process.
fn port_in_use(user: Option<PortProcess>) -> (r: String)
    ensures
        r@ == port_in_use_message(user),
{
    let mut m = "Port ".to_owned();
    push_decimal(&mut m, MONGO_PORT as u64);
    match user {
        Some(p) => {
            m.append(" is already in use by ");
            m.append(p.name.as_str());
            m.append(" (PID ");
            push_decimal(&mut m, p.pid as u64);
            m.append(").");
        },
        None => {
            m.append(" is already in use.");
        },
    }
    m
}

/// The step that follows `event` in starting the database server. A port that is
/// already open is fine only when this application's own server holds it; a server of
/// this application that is still starting is waited for; otherwise a server is
/// launched on the configured folder and waited for.
pub fn next_startup_step(event: StartupEvent) -> (r: StartupStep)
    ensures
        match event {
            StartupEvent::PortOpen(open) => if open {
                r is CheckOwnedServer
            } else {
                r is CheckChild
            },
            StartupEvent::OwnedServerRunning(running) => if running {
                r == StartupStep::Finish(Ok(()))
            } else {
                r is FindPortUser
            },
            StartupEvent::PortUser(user) => r matches StartupStep::Finish(Err(m)) && m@
                == port_in_use_message(user),
            StartupEvent::Child(state) => match state {
                ChildState::NotStarted => r is LoadConfig,
                ChildState::Running => r is WaitUntilReady,
                ChildState::Exited(status) => r matches StartupStep::Finish(Err(m)) && m@
                    == exited_message(status@),
            },
            StartupEvent::ConfigLoaded { config, is_absolute_dir } => if trim(config.db_path@).len()
                > 0 && is_absolute_dir {
                r matches StartupStep::Launch { db_path } && db_path@ == trim(config.db_path@)
            } else {
                r matches StartupStep::Finish(Err(m)) && m@ == not_configured_message()
            },
            StartupEvent::Launched => r is WaitUntilReady,
        },
{
    match event {
        StartupEvent::PortOpen(open) => if open {
            StartupStep::CheckOwnedServer
        } else {
            StartupStep::CheckChild
        },
        StartupEvent::OwnedServerRunning(running) => if running {
            StartupStep::Finish(Ok(()))
        } else {
            StartupStep::FindPortUser
        },
        StartupEvent::PortUser(user) => StartupStep::Finish(Err(port_in_use(user))),
        StartupEvent::Child(state) => match state {
            ChildState::NotStarted => StartupStep::LoadConfig,
            ChildState::Running => StartupStep::WaitUntilReady,
            ChildState::Exited(status) => {
                let mut m = "MongoDB exited before it was ready: ".to_owned();
                m.append(status.as_str());
                StartupStep::Finish(Err(m))
            },
        },
        StartupEvent::ConfigLoaded { config, is_absolute_dir } => match configured_db_path(
            &config,
            is_absolute_dir,
        ) {
            Some(db_path) => StartupStep::Launch { db_path },
            None => StartupStep::Finish(
                Err("MongoDB database folder has not been configured".to_owned()),
            ),
        },
        StartupEvent::Launched => StartupStep::WaitUntilReady,
    }
}

/// The message for a server that did not listen on its port in time.
pub fn startup_timeout_message() -> (r: String)
    ensures
        r@ == "MongoDB did not start on "@ + MONGO_HOST@ + ":"@ + decimal(MONGO_PORT as nat)
            + " before the timeout"@,
{
    let mut m = "MongoDB did not start on ".to_owned();
    m.append(MONGO_HOST);
    m.append(":");
    push_decimal(&mut m, MONGO_PORT as u64);
    m.append(" before the timeout");
    m
}

/// The command-line arguments of a database server on folder `db_path` that logs to
/// `log_path`, listening on the database address and port.
pub fn mongod_arguments(db_path: &str, log_path: &str) -> (r: Vec<String>)
    ensures
        r@.map_values(|a: String| a@) == seq![
            "--dbpath"@,
            db_path@,
            "--bind_ip"@,
            MONGO_HOST@,
            "--port"@,
            decimal(MONGO_PORT as nat),
            "--logpath"@,
            log_path@,
            "--logappend"@,
        ],
{
    let mut port = String::new();
    push_decimal(&mut port, MONGO_PORT as u64);
    let mut args: Vec<String> = Vec::new();
    args.push("--dbpath".to_owned());
    args.push(db_path.to_owned());
    args.push("--bind_ip".to_owned());
    args.push(MONGO_HOST.to_owned());
    args.push("--port".to_owned());
    args.push(port);
    args.push("--logpath".to_owned());
    args.push(log_path.to_owned());
    args.push("--logappend".to_owned());
    assert(args@.map_values(|a: String| a@) =~= seq![
        "--dbpath"@,
        db_path@,
        "--bind_ip"@,
        MONGO_HOST@,
        "--port"@,
        decimal(MONGO_PORT as nat),
        "--logpath"@,
        log_path@,
        "--logappend"@,
    ]);
    args
}

/// Whether `c` is an ASCII decimal digit.
pub open spec fn is_digit(c: char) -> bool {
    '0' <= c && c <= '9'
}

/// The number that the decimal digits `d` spell.
pub open spec fn digits_value(d: Seq<char>) -> int
    decreases d.len(),
{
    if d.len() == 0 {
        0
    } else {
        digits_value(d.drop_last()) * 10 + (d.last() as int - 48)
    }
}

/// The digits of an unsigned number's text: without a leading `+` that has more after it.
pub open spec fn unsigned_digits(s: Seq<char>) -> Seq<char> {
    if s.len() > 1 && s[0] == '+' {
        s.drop_first()
    } else {
        s
    }
}

/// The `u32` that `s` spells, as `str::parse::<u32>` reads it: decimal digits, with an
/// optional leading `+`, whose value fits.
pub open spec fn parsed_u32(s: Seq<char>) -> Option<u32> {
    let d = unsigned_digits(s);
    if d.len() > 0 && (forall|i: int| 0 <= i < d.len() ==> is_digit(#[trigger] d[i]))
        && digits_value(d) <= u32::MAX {
        Some(digits_value(d) as u32)
    } else {
        None
    }
}

proof fn lemma_digits_value_grows(d: Seq<char>, i: int)
    requires
        0 <= i <= d.len(),
        forall|k: int| 0 <= k < d.len() ==> is_digit(#[trigger] d[k]),
    ensures
        digits_value(d.take(i)) <= digits_value(d),
        digits_value(d.take(i)) >= 0,
    decreases d.len() - i,
{
    if i < d.len() {
        lemma_digits_value_grows(d, i + 1);
        assert(d.take(i + 1).drop_last() =~= d.take(i));
        assert(is_digit(d[i]));
    } else {
        assert(d.take(i) =~= d);
        lemma_digits_value_nonneg(d);
    }
}

proof fn lemma_digits_value_nonneg(d: Seq<char>)
    requires
        forall|k: int| 0 <= k < d.len() ==> is_digit(#[trigger] d[k]),
    ensures
        digits_value(d) >= 0,
    decreases d.len(),
{
    if d.len() > 0 {
        assert(is_digit(d[d.len() - 1]));
        lemma_digits_value_nonneg(d.drop_last());
    }
}

/// Reads a `u32` from its decimal text (as `str::parse::<u32>` does).
pub fn parse_u32(s: &str) -> (r: Option<u32>)
    ensures
        r == parsed_u32(s@),
{
    let n = s.unicode_len();
    let start: usize = if n > 1 && s.get_char(0) == '+' {
        1
    } else {
        0
    };
    let ghost d = unsigned_digits(s@);
    assert(d =~= s@.skip(start as int));
    if start == n {
        return None;
    }
    let mut value: u64 = 0;
    let mut i: usize = start;
    while i < n
        invariant
            n == s@.len(),
            start <= i <= n,
            d == s@.skip(start as int),
            d == unsigned_digits(s@),
            d.len() > 0,
            forall|k: int| 0 <= k < i - start ==> is_digit(#[trigger] d[k]),
            value == digits_value(d.take(i - start)),
            value <= u32::MAX,
        decreases n - i,
    {
        let c = s.get_char(i);
        assert(d[i - start] == c);
        if !('0' <= c && c <= '9') {
            assert(!is_digit(d[i - start]));
            assert(parsed_u32(s@) is None);
            return None;
        }
        assert(d.take(i - start + 1).drop_last() =~= d.take(i - start));
        value = value * 10 + (c as u32 - 48) as u64;
        i = i + 1;
        if value > 0xffff_ffff {
            proof {
                if forall|k: int| 0 <= k < d.len() ==> is_digit(#[trigger] d[k]) {
                    lemma_digits_value_grows(d, i - start);
                }
                assert(parsed_u32(s@) is None);
            }
            return None;
        }
    }
    assert(d.take(n - start) =~= d);
    Some(value as u32)
}

/// The first place of `c` in `s`, if it occurs.
pub open spec fn first_index_of(s: Seq<char>, c: char) -> Option<int> {
    if exists|i: int| 0 <= i < s.len() && s[i] == c {
        Some(choose|i: int| 0 <= i < s.len() && s[i] == c && forall|j: int| 0 <= j < i ==> s[j] != c)
    } else {
        None
    }
}

/// The process that a port lookup printed as `pid|name`: the text is trimmed and cut
/// at its first `|`; the part before it must be a `u32`, the part after it is the
/// name, trimmed.
pub open spec fn port_process_of(text: Seq<char>) -> Option<(u32, Seq<char>)> {
    let t = trim(text);
    match first_index_of(t, '|') {
        None => None,
        Some(k) => match parsed_u32(t.take(k)) {
            None => None,
            Some(pid) => Some((pid, trim(t.skip(k + 1)))),
        },
    }
}

/// Reads the process that a port lookup printed as `pid|name`.
pub fn parse_port_process(text: &str) -> (r: Option<PortProcess>)
    ensures
        match port_process_of(text@) {
            None => r is None,
            Some((pid, name)) => r matches Some(p) && p.pid == pid && p.name@ == name,
        },
{
    let t = trim_str(text);
    let n = t.unicode_len();
    let mut k: usize = 0;
    while k < n && t.get_char(k) != '|'
        invariant
            n == t@.len(),
            k <= n,
            forall|j: int| 0 <= j < k ==> t@[j] != '|',
        decreases n - k,
    {
        k = k + 1;
    }
    if k == n {
        assert(!exists|i: int| 0 <= i < t@.len() && t@[i] == '|');
        return None;
    }
    proof {
        let w = choose|i: int| 0 <= i < t@.len() && t@[i] == '|' && forall|j: int| 0 <= j < i ==> t@[j] != '|';
        assert(t@[k as int] == '|');
        if w < k {
        } else if w > k {
            assert(t@[k as int] != '|');
        }
    }
    let pid_text = t.substring_char(0, k);
    let name_text = t.substring_char(k + 1, n);
    assert(pid_text@ =~= t@.take(k as int));
    assert(name_text@ =~= t@.skip(k + 1));
    match parse_u32(pid_text) {
        None => None,
        Some(pid) => Some(PortProcess { pid, name: trim_str(name_text) }),
    }
}

} // verus!
