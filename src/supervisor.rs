use vstd::prelude::*;
use crate::bootstrap::{apply_desktop_settings, desktop_document, is_json_text, json_string_at, peer_id_in, pretty_text_of, settings_writable};
use crate::error::AgentError;
use crate::text::{
    contains_seq, contains_str, decimal_of, decimal_string, keep_non_empty, lines_of, non_empty,
    parse_u64, parsed_u64, split_lines, split_words, starts_with_seq, starts_with_str, trim,
    trim_str, views, words_of,
};

verus! {

/// Port of the node's HTTP API.
pub const API_PORT: u16 = 5001;

/// Port of the node's HTTP gateway.
pub const GATEWAY_PORT: u16 = 8080;

/// Port on which the node listens for peers.
pub const SWARM_PORT: u16 = 4001;

/// How long a stats snapshot stays valid, in milliseconds.
pub const STATS_CACHE_TTL_MS: u64 = 30000;

/// How many times start-up samples the readiness flag before going on without it.
pub const READINESS_POLL_ATTEMPTS: u32 = 20;

/// The pause between two samples of the readiness flag, in milliseconds.
pub const READINESS_POLL_INTERVAL_MS: u64 = 250;

/// Size of the repository and number of recursive pins.
#[derive(Clone, Copy, Debug, PartialEq, Eq, Structural)]
pub struct RepoStats {
    pub repo_size: u64,
    pub num_pins: usize,
}

impl Default for RepoStats {
    fn default() -> (r: Self)
        ensures
            r == (RepoStats { repo_size: 0, num_pins: 0 }),
    {
        RepoStats { repo_size: 0, num_pins: 0 }
    }
}

/// A pinned content identifier; the listing gives neither name nor size.
#[derive(Clone, Debug)]
pub struct PinInfo {
    pub cid: String,
    pub name: String,
    pub size: u64,
}

/// A stats snapshot and the time at which it was taken.
#[derive(Clone, Copy, Debug, PartialEq, Eq, Structural)]
pub struct CachedStats {
    pub stats: RepoStats,
    pub cached_at_ms: u64,
}

/// What the supervisor knows, as a mathematical value.
pub struct SupervisorState {
    pub repo_path: Seq<char>,
    pub api_port: u16,
    pub gateway_port: u16,
    pub swarm_port: u16,
    /// Process id of the tracked daemon.
    pub daemon: Option<u32>,
    pub peer_id: Option<Seq<char>>,
    pub stats_cache: Option<CachedStats>,
}

/// Supervisor of one node repository: it decides, and the caller carries out the process and
/// file work that it asks for and reports back.
pub struct KuboManager {
    repo_path: String,
    api_port: u16,
    gateway_port: u16,
    swarm_port: u16,
    daemon: Option<u32>,
    peer_id: Option<String>,
    stats_cache: Option<CachedStats>,
}

impl View for KuboManager {
    type V = SupervisorState;

    closed spec fn view(&self) -> SupervisorState {
        SupervisorState {
            repo_path: self.repo_path@,
            api_port: self.api_port,
            gateway_port: self.gateway_port,
            swarm_port: self.swarm_port,
            daemon: self.daemon,
            peer_id: match self.peer_id {
                Some(p) => Some(p@),
                None => None,
            },
            stats_cache: self.stats_cache,
        }
    }
}

/// What `initialize` asks for.
#[derive(Clone, Copy, Debug, PartialEq, Eq, Structural)]
pub enum InitStep {
    /// The repository exists: read the identity from its configuration.
    UseExisting,
    /// Create the directory, run the node's init command, apply the desktop settings in one
    /// write, then read the identity.
    CreateRepository,
}

/// What `start_daemon` asks for.
#[derive(Clone, Copy, Debug, PartialEq, Eq, Structural)]
pub enum StartStep {
    /// A daemon is tracked already: nothing to do.
    AlreadyRunning,
    /// Spawn the daemon command with piped output, then poll readiness.
    Spawn,
}

/// What to do at one sample of the readiness flag during start-up.
#[derive(Clone, Copy, Debug, PartialEq, Eq, Structural)]
pub enum PollStep {
    /// Stop polling and track the child, ready or not.
    Proceed,
    /// Sleep this many milliseconds and sample again.
    Wait(u64),
}

/// A command of the node binary.
#[derive(Clone, Debug)]
pub enum NodeCommand {
    Init,
    Daemon,
    RepoStat,
    PinList,
    PinAdd(String),
    PinRemove(String),
}

/// The arguments of a node command.
pub open spec fn command_args(c: NodeCommand) -> Seq<Seq<char>> {
    match c {
        NodeCommand::Init => seq!["init"@, "--profile=lowpower"@],
        NodeCommand::Daemon => seq!["daemon"@, "--enable-gc"@, "--migrate"@],
        NodeCommand::RepoStat => seq!["repo"@, "stat"@, "--size-only"@],
        NodeCommand::PinList => seq!["pin"@, "ls"@, "-t"@, "recursive"@, "-q"@],
        NodeCommand::PinAdd(cid) => seq!["pin"@, "add"@, "--progress"@, cid@],
        NodeCommand::PinRemove(cid) => seq!["pin"@, "rm"@, cid@],
    }
}

impl NodeCommand {
    /// The arguments to hand to the node binary.
    pub fn args(&self) -> (r: Vec<String>)
        ensures
            views(r@) == command_args(*self),
    {
        let r = match self {
            NodeCommand::Init => vec![String::from_str("init"), String::from_str("--profile=lowpower")],
            NodeCommand::Daemon => vec![
                String::from_str("daemon"),
                String::from_str("--enable-gc"),
                String::from_str("--migrate"),
            ],
            NodeCommand::RepoStat => vec![
                String::from_str("repo"),
                String::from_str("stat"),
                String::from_str("--size-only"),
            ],
            NodeCommand::PinList => vec![
                String::from_str("pin"),
                String::from_str("ls"),
                String::from_str("-t"),
                String::from_str("recursive"),
                String::from_str("-q"),
            ],
            NodeCommand::PinAdd(cid) => vec![
                String::from_str("pin"),
                String::from_str("add"),
                String::from_str("--progress"),
                cid.clone(),
            ],
            NodeCommand::PinRemove(cid) => vec![String::from_str("pin"), String::from_str("rm"), cid.clone()],
        };
        assert(views(r@) =~= command_args(*self));
        r
    }
}

/// A supervisor of the repository at `repo_path` before anything happened.
pub open spec fn initial_state(repo_path: Seq<char>) -> SupervisorState {
    SupervisorState {
        repo_path,
        api_port: API_PORT,
        gateway_port: GATEWAY_PORT,
        swarm_port: SWARM_PORT,
        daemon: None,
        peer_id: None,
        stats_cache: None,
    }
}

/// The way initialisation goes: only a missing configuration document is created.
pub open spec fn init_step(config_exists: bool) -> InitStep {
    if config_exists { InitStep::UseExisting } else { InitStep::CreateRepository }
}

/// The supervisor counts as running: a daemon is tracked and the readiness flag is set.
pub open spec fn running(s: SupervisorState, ready: bool) -> bool {
    s.daemon is Some && ready
}

/// The output markers that show that the daemon's control surface is up.
pub open spec fn signals_ready(line: Seq<char>) -> bool {
    contains_seq(line, "Daemon is ready"@) || contains_seq(line, "API server listening"@)
        || contains_seq(line, "Gateway server listening"@)
}

/// Whether a line of the daemon's standard output shows that it is ready.
pub fn line_signals_ready(line: &str) -> (r: bool)
    ensures
        r == signals_ready(line@),
{
    contains_str(line, "Daemon is ready") || contains_str(line, "API server listening")
        || contains_str(line, "Gateway server listening")
}

/// The readiness flag after the daemon printed `lines`, from a cleared flag.
pub open spec fn ready_after(lines: Seq<Seq<char>>) -> bool {
    exists|i: int| 0 <= i < lines.len() && signals_ready(#[trigger] lines[i])
}

/// A snapshot that is still valid at `now_ms`.
pub open spec fn cache_hit(cache: Option<CachedStats>, now_ms: u64) -> Option<RepoStats> {
    match cache {
        Some(c) => if (now_ms as int) < c.cached_at_ms + STATS_CACHE_TTL_MS { Some(c.stats) } else { None },
        None => None,
    }
}

/// The state after a stats query that gave `fetched` at `now_ms`: a success replaces the
/// snapshot, a failure leaves it as it was.
pub open spec fn after_refresh(s: SupervisorState, fetched: Result<RepoStats, AgentError>, now_ms: u64) -> SupervisorState {
    match fetched {
        Ok(stats) => SupervisorState { stats_cache: Some(CachedStats { stats, cached_at_ms: now_ms }), ..s },
        Err(_) => s,
    }
}

/// The state after a pin or unpin command with `outcome`: a success clears the snapshot.
pub open spec fn after_mutation(s: SupervisorState, outcome: Result<Seq<char>, Seq<char>>) -> SupervisorState {
    match outcome {
        Ok(_) => SupervisorState { stats_cache: None, ..s },
        Err(_) => s,
    }
}

/// The state after reading the identity from a configuration document.
pub open spec fn after_identity_read(s: SupervisorState, config_text: Seq<char>) -> SupervisorState {
    if is_json_text(config_text) {
        match json_string_at(config_text, "Identity"@, "PeerID"@) {
            Some(p) => SupervisorState { peer_id: Some(p), ..s },
            None => s,
        }
    } else {
        s
    }
}

/// The view of a command's result.
pub open spec fn outcome_view(o: Result<String, String>) -> Result<Seq<char>, Seq<char>> {
    match o {
        Ok(x) => Ok(x@),
        Err(e) => Err(e@),
    }
}

/// The value of the first `RepoSize` line: its second word as a decimal, 0 where it has none,
/// and 0 where no line begins with `RepoSize`.
pub open spec fn repo_size_in(lines: Seq<Seq<char>>) -> u64
    decreases lines.len(),
{
    if lines.len() == 0 {
        0
    } else if starts_with_seq(lines[0], "RepoSize"@) {
        let w = words_of(lines[0]);
        if w.len() >= 2 {
            match parsed_u64(w[1]) {
                Some(v) => v,
                None => 0,
            }
        } else {
            0
        }
    } else {
        repo_size_in(lines.drop_first())
    }
}

/// The identifiers that a recursive pin listing names: its non-empty lines, trimmed.
pub open spec fn listed_cids(output: Seq<char>) -> Seq<Seq<char>> {
    non_empty(lines_of(output)).map_values(|l: Seq<char>| trim(l))
}

fn size_of_line(line: &str) -> (r: u64)
    ensures
        r == ({
            let w = words_of(line@);
            if w.len() >= 2 {
                match parsed_u64(w[1]) {
                    Some(v) => v,
                    None => 0,
                }
            } else {
                0
            }
        }),
{
    let w = split_words(line);
    if w.len() >= 2 {
        assert(views(w@)[1] == w@[1]@);
        match parse_u64(w[1].as_str()) {
            Some(v) => v,
            None => 0,
        }
    } else {
        0
    }
}

fn repo_size_of_output(output: &str) -> (r: u64)
    ensures
        r == repo_size_in(lines_of(output@)),
{
    let lines = split_lines(output);
    let ghost ls = views(lines@);
    let mut i: usize = 0;
    assert(ls.subrange(0, ls.len() as int) =~= ls);
    while i < lines.len()
        invariant
            ls == views(lines@),
            ls == lines_of(output@),
            i <= lines.len(),
            repo_size_in(ls) == repo_size_in(ls.subrange(i as int, ls.len() as int)),
        decreases lines.len() - i,
    {
        let ghost rest = ls.subrange(i as int, ls.len() as int);
        assert(rest[0] == lines@[i as int]@);
        assert(rest.drop_first() =~= ls.subrange(i + 1, ls.len() as int));
        if starts_with_str(lines[i].as_str(), "RepoSize") {
            return size_of_line(lines[i].as_str());
        }
        i = i + 1;
    }
    assert(ls.subrange(i as int, ls.len() as int) =~= Seq::<Seq<char>>::empty());
    0
}

impl KuboManager {
    /// A supervisor of the repository at `repo_path`, on the standard ports, with no daemon,
    /// no known identity and no stats snapshot.
    pub fn new(repo_path: String) -> (r: Self)
        ensures
            r@ == initial_state(repo_path@),
    {
        KuboManager {
            repo_path,
            api_port: API_PORT,
            gateway_port: GATEWAY_PORT,
            swarm_port: SWARM_PORT,
            daemon: None,
            peer_id: None,
            stats_cache: None,
        }
    }

    /// The repository directory.
    pub fn repo_path(&self) -> (r: &str)
        ensures
            r@ == self@.repo_path,
    {
        self.repo_path.as_str()
    }

    /// Port of the node's HTTP API.
    pub fn api_port(&self) -> (r: u16)
        ensures
            r == self@.api_port,
    {
        self.api_port
    }

    /// Port of the node's HTTP gateway.
    pub fn gateway_port(&self) -> (r: u16)
        ensures
            r == self@.gateway_port,
    {
        self.gateway_port
    }

    /// Port on which the node listens for peers.
    pub fn swarm_port(&self) -> (r: u16)
        ensures
            r == self@.swarm_port,
    {
        self.swarm_port
    }

    /// Which way initialisation goes: an existing configuration document is only read.
    pub fn initialize(&self, config_exists: bool) -> (r: InitStep)
        ensures
            r == init_step(config_exists),
    {
        if config_exists {
            InitStep::UseExisting
        } else {
            InitStep::CreateRepository
        }
    }

    /// The configuration document of a fresh repository with the desktop settings applied,
    /// on this supervisor's API and gateway ports, as text for a single write.
    pub fn apply_desktop_config(&self, config_text: &str) -> (r: Result<String, AgentError>)
        ensures
            is_json_text(config_text@) && settings_writable(config_text@) ==> r is Ok,
            r is Ok ==> is_json_text(config_text@),
            r matches Err(e) ==> e is ConfigParse,
            r matches Ok(t) ==> exists|d: serde_json::Value| t@ == pretty_text_of(d) && desktop_document(
                d,
                config_text@,
                self@.api_port,
                self@.gateway_port,
            ),
    {
        apply_desktop_settings(config_text, self.api_port, self.gateway_port)
    }

    /// Bootstraps a freshly initialised repository from the configuration document that the
    /// node's init command generated: the identity is read from it, and the document with the
    /// desktop settings applied is given back for a single write.
    pub fn bootstrap_config(&mut self, generated: &str) -> (r: Result<String, AgentError>)
        ensures
            final(self)@ == after_identity_read(old(self)@, generated@),
            is_json_text(generated@) && settings_writable(generated@) ==> r is Ok,
            r is Ok ==> is_json_text(generated@),
            r matches Err(e) ==> e is ConfigParse,
            r matches Ok(t) ==> exists|d: serde_json::Value| t@ == pretty_text_of(d) && desktop_document(
                d,
                generated@,
                old(self)@.api_port,
                old(self)@.gateway_port,
            ),
    {
        match self.read_peer_id(generated) {
            Ok(()) => self.apply_desktop_config(generated),
            Err(e) => Err(e),
        }
    }

    /// Reads the peer identity out of the repository's configuration document. A document
    /// that is not JSON is an error and changes nothing; one without an identity changes
    /// nothing either.
    pub fn read_peer_id(&mut self, config_text: &str) -> (r: Result<(), AgentError>)
        ensures
            r is Err <==> !is_json_text(config_text@),
            r matches Err(e) ==> e is ConfigParse,
            final(self)@ == after_identity_read(old(self)@, config_text@),
    {
        match peer_id_in(config_text) {
            Ok(Some(p)) => {
                self.peer_id = Some(p);
                Ok(())
            },
            Ok(None) => Ok(()),
            Err(e) => Err(e),
        }
    }

    /// Whether a daemon has to be spawned.
    pub fn start_daemon(&self) -> (r: StartStep)
        ensures
            r == (if self@.daemon is Some { StartStep::AlreadyRunning } else { StartStep::Spawn }),
    {
        if self.daemon.is_some() {
            StartStep::AlreadyRunning
        } else {
            StartStep::Spawn
        }
    }

    /// One sample of the readiness flag during start-up, `attempt` counting from 0: go on once
    /// the flag is set or the attempts are spent, else wait one interval. A daemon that never
    /// reports ready is kept, not killed.
    pub fn poll_readiness(attempt: u32, ready: bool) -> (r: PollStep)
        ensures
            r == (if ready || attempt >= READINESS_POLL_ATTEMPTS {
                PollStep::Proceed
            } else {
                PollStep::Wait(READINESS_POLL_INTERVAL_MS)
            }),
    {
        if ready || attempt >= READINESS_POLL_ATTEMPTS {
            PollStep::Proceed
        } else {
            PollStep::Wait(READINESS_POLL_INTERVAL_MS)
        }
    }

    /// Records the spawned daemon as the current process; there is at most one.
    pub fn daemon_spawned(&mut self, pid: u32)
        requires
            old(self)@.daemon is None,
        ensures
            final(self)@ == (SupervisorState { daemon: Some(pid), ..old(self)@ }),
    {
        self.daemon = Some(pid);
    }

    /// Forgets the tracked daemon and gives its process id, for the caller to terminate and
    /// reap, and to clear the readiness flag; `None` where there is none.
    pub fn stop_daemon(&mut self) -> (r: Option<u32>)
        ensures
            r == old(self)@.daemon,
            final(self)@ == (SupervisorState { daemon: None, ..old(self)@ }),
    {
        let r = self.daemon;
        self.daemon = None;
        r
    }

    /// A daemon is tracked and the readiness flag is set.
    pub fn is_running(&self, ready: bool) -> (r: bool)
        ensures
            r == running(self@, ready),
    {
        self.daemon.is_some() && ready
    }

    /// The identity read at initialisation.
    pub fn get_peer_id(&self) -> (r: Option<String>)
        ensures
            r matches Some(p) ==> self@.peer_id == Some(p@),
            r is None ==> self@.peer_id is None,
    {
        match &self.peer_id {
            Some(p) => Some(p.clone()),
            None => None,
        }
    }

    /// The URL of the node's HTTP API.
    pub fn get_api_url(&self) -> (r: String)
        ensures
            r@ == "http://127.0.0.1:"@ + decimal_of(self@.api_port as nat),
    {
        let mut s = String::from_str("http://127.0.0.1:");
        let d = decimal_string(self.api_port as u64);
        s.append(d.as_str());
        s
    }

    /// The snapshot, where one was taken less than the time to live before `now_ms`; `None`
    /// asks the caller to query the node and hand the result to `record_repo_stats`.
    pub fn get_repo_stats(&self, now_ms: u64) -> (r: Option<RepoStats>)
        ensures
            r == cache_hit(self@.stats_cache, now_ms),
    {
        match self.stats_cache {
            Some(c) => {
                if now_ms < c.cached_at_ms || now_ms - c.cached_at_ms < STATS_CACHE_TTL_MS {
                    Some(c.stats)
                } else {
                    None
                }
            },
            None => None,
        }
    }

    /// Records the result of a stats query made at `now_ms` and hands it on: a success
    /// replaces the snapshot, a failure leaves it unchanged.
    pub fn record_repo_stats(&mut self, fetched: Result<RepoStats, AgentError>, now_ms: u64) -> (r: Result<RepoStats, AgentError>)
        ensures
            r == fetched,
            final(self)@ == after_refresh(old(self)@, fetched, now_ms),
    {
        match fetched {
            Ok(stats) => {
                self.stats_cache = Some(CachedStats { stats, cached_at_ms: now_ms });
                Ok(stats)
            },
            Err(e) => Err(e),
        }
    }

    /// The stats that the outputs of the size query and the pin listing give.
    pub fn fetch_repo_stats(size_output: &str, pin_output: &str) -> (r: RepoStats)
        ensures
            r.repo_size == repo_size_in(lines_of(size_output@)),
            r.num_pins == non_empty(lines_of(pin_output@)).len(),
    {
        let repo_size = repo_size_of_output(size_output);
        let pins = keep_non_empty(split_lines(pin_output));
        RepoStats { repo_size, num_pins: pins.len() }
    }

    /// Drops the snapshot.
    pub fn invalidate_stats_cache(&mut self)
        ensures
            final(self)@ == (SupervisorState { stats_cache: None, ..old(self)@ }),
    {
        self.stats_cache = None;
    }

    fn finish_mutation(&mut self, outcome: Result<String, String>) -> (r: Result<(), AgentError>)
        ensures
            final(self)@ == after_mutation(old(self)@, outcome_view(outcome)),
            outcome is Ok ==> r is Ok,
            outcome matches Err(e) ==> r == Err::<(), AgentError>(AgentError::Subprocess(e)),
    {
        match outcome {
            Ok(_) => {
                self.invalidate_stats_cache();
                Ok(())
            },
            Err(e) => Err(AgentError::Subprocess(e)),
        }
    }

    /// Records the outcome of the pin-add command (its output, or its standard error): a
    /// success drops the stats snapshot.
    pub fn pin(&mut self, outcome: Result<String, String>) -> (r: Result<(), AgentError>)
        ensures
            final(self)@ == after_mutation(old(self)@, outcome_view(outcome)),
            outcome is Ok ==> r is Ok,
            outcome matches Err(e) ==> r == Err::<(), AgentError>(AgentError::Subprocess(e)),
    {
        self.finish_mutation(outcome)
    }

    /// Records the outcome of the pin-remove command: a success drops the stats snapshot.
    pub fn unpin(&mut self, outcome: Result<String, String>) -> (r: Result<(), AgentError>)
        ensures
            final(self)@ == after_mutation(old(self)@, outcome_view(outcome)),
            outcome is Ok ==> r is Ok,
            outcome matches Err(e) ==> r == Err::<(), AgentError>(AgentError::Subprocess(e)),
    {
        self.finish_mutation(outcome)
    }

    /// The `index`-th identifier, from 0, that a listing of links names (the output of the
    /// node's `refs` command, read as a pin listing is); `None` past the end.
    pub fn nth_link(list_output: &str, index: u64) -> (r: Option<String>)
        ensures
            (index as int) < listed_cids(list_output@).len() ==> (r matches Some(c) && c@ == listed_cids(list_output@)[index as int]),
            (index as int) >= listed_cids(list_output@).len() ==> r is None,
    {
        let links = KuboManager::get_pins(list_output);
        if index < links.len() as u64 {
            Some(links[index as usize].cid.clone())
        } else {
            None
        }
    }

    /// The pins that a recursive pin listing names, in order, with empty name and zero size.
    pub fn get_pins(list_output: &str) -> (r: Vec<PinInfo>)
        ensures
            r@.len() == listed_cids(list_output@).len(),
            forall|i: int| 0 <= i < r@.len() ==> {
                &&& (#[trigger] r@[i]).cid@ == listed_cids(list_output@)[i]
                &&& r@[i].name@.len() == 0
                &&& r@[i].size == 0
            },
    {
        let lines = keep_non_empty(split_lines(list_output));
        let ghost cids = listed_cids(list_output@);
        let mut out: Vec<PinInfo> = Vec::new();
        let mut i: usize = 0;
        while i < lines.len()
            invariant
                views(lines@) == non_empty(lines_of(list_output@)),
                cids == listed_cids(list_output@),
                i <= lines.len(),
                out@.len() == i,
                forall|k: int| 0 <= k < i ==> {
                    &&& (#[trigger] out@[k]).cid@ == cids[k]
                    &&& out@[k].name@.len() == 0
                    &&& out@[k].size == 0
                },
            decreases lines.len() - i,
        {
            assert(views(lines@)[i as int] == lines@[i as int]@);
            let cid = trim_str(lines[i].as_str());
            let name = String::new();
            out.push(PinInfo { cid, name, size: 0 });
            i = i + 1;
        }
        out
    }
}


/// Initialising twice in a row on one repository: once the configuration document exists,
/// initialisation only reads it, and reading the same document again gives the state, peer
/// identity included, that the first read gave.
pub proof fn law_initialize_idempotent(s: SupervisorState, config_text: Seq<char>)
    ensures
        init_step(true) == InitStep::UseExisting,
        after_identity_read(after_identity_read(s, config_text), config_text) == after_identity_read(s, config_text),
{
}

/// Readiness gating: a new supervisor is not running whatever the flag says, and a tracked
/// daemon whose output never showed a ready marker is not running either.
pub proof fn law_readiness_gating(repo_path: Seq<char>, flag: bool, s: SupervisorState, lines: Seq<Seq<char>>)
    requires
        forall|i: int| 0 <= i < lines.len() ==> !signals_ready(#[trigger] lines[i]),
    ensures
        !running(initial_state(repo_path), flag),
        !ready_after(lines),
        !running(s, ready_after(lines)),
{
}

/// Time to live of the stats snapshot: the first read of an empty cache asks for a query;
/// after a query at `t`, a read before `t` plus the time to live is served from the snapshot
/// without a query, and a read from then on asks for a new one.
pub proof fn law_stats_cache_ttl(s: SupervisorState, stats: RepoStats, t: u64, later: u64)
    requires
        t <= later,
    ensures
        s.stats_cache is None ==> cache_hit(s.stats_cache, t) is None,
        later < t + STATS_CACHE_TTL_MS ==> cache_hit(after_refresh(s, Ok(stats), t).stats_cache, later) == Some(stats),
        later >= t + STATS_CACHE_TTL_MS ==> cache_hit(after_refresh(s, Ok(stats), t).stats_cache, later) is None,
{
}

/// Invalidation: after a successful pin or unpin the next read asks for a query, even within
/// the time to live of the snapshot; a failed query leaves the snapshot as it was.
pub proof fn law_stats_invalidated_by_mutation(s: SupervisorState, output: Seq<char>, now_ms: u64, e: AgentError)
    ensures
        cache_hit(after_mutation(s, Ok(output)).stats_cache, now_ms) is None,
        after_refresh(s, Err(e), now_ms) == s,
{
}

} // verus!
