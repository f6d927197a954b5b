//! SSH sessions: the decisions around connecting, authenticating, opening a
//! pseudo-terminal channel, writing and resizing. The network work itself is
//! done by the application, which reports each outcome here.
use vstd::prelude::*;

verus! {

/// SSH connection configuration
#[derive(Debug, Clone)]
pub struct SshConfig {
    pub host: String,
    pub port: u16,
    pub username: String,
    pub auth_method: SshAuth,
}

#[derive(Debug, Clone)]
pub enum SshAuth {
    Password(String),
    Key { path: String, passphrase: Option<String> },
    Agent,
}

/// The authentication to attempt once connected.
pub enum AuthRequest {
    Password { username: String, password: String },
    Key { username: String, path: String, passphrase: Option<String> },
}

/// What happened when connecting and authenticating.
pub enum ConnectOutcome {
    /// The server could not be reached; the transport's message.
    Unreachable(String),
    /// The private key could not be loaded; the loader's message.
    KeyUnreadable(String),
    /// Authentication failed with an error; its message.
    AuthError(String),
    /// The server refused the credentials.
    Rejected,
    /// The server accepted the credentials.
    Accepted,
}

/// What happened when opening a channel with a pseudo-terminal and a shell.
pub enum PtyOutcome {
    ChannelFailed(String),
    PtyFailed(String),
    ShellFailed(String),
    Ready,
}

/// The pseudo-terminal to request on a new channel.
pub struct PtyRequest {
    pub term: String,
    pub cols: u32,
    pub rows: u32,
}

/// Two optional texts are both absent, or both present with the same text.
pub open spec fn same_opt_text(a: Option<String>, b: Option<String>) -> bool {
    match (a, b) {
        (Some(x), Some(y)) => x@ == y@,
        (None, None) => true,
        _ => false,
    }
}

/// The message of a failed outcome, `None` for success.
pub open spec fn failure<T>(r: Result<T, String>) -> Option<Seq<char>> {
    match r {
        Ok(_) => None,
        Err(e) => Some(e@),
    }
}

/// `prefix` followed by the text of `e`.
fn prefixed(prefix: &str, e: &String) -> (s: String)
    ensures
        s@ == prefix@ + e@,
{
    let mut s = String::from_str(prefix);
    s.append(e.as_str());
    s
}

/// The result of a connection attempt with authentication method `auth`.
pub open spec fn connect_result(auth: SshAuth, outcome: ConnectOutcome) -> Option<Seq<char>> {
    match outcome {
        ConnectOutcome::Unreachable(e) => Some("SSH connect failed: "@ + e@),
        _ => match auth {
            SshAuth::Agent => Some("SSH agent auth not yet implemented"@),
            _ => match outcome {
                ConnectOutcome::KeyUnreadable(e) => Some("Failed to load key: "@ + e@),
                ConnectOutcome::AuthError(e) => Some("Auth failed: "@ + e@),
                ConnectOutcome::Rejected => match auth {
                    SshAuth::Password(_) => Some("Password authentication failed"@),
                    _ => Some("Key authentication failed"@),
                },
                _ => None,
            },
        },
    }
}

/// The result of opening a pseudo-terminal channel.
pub open spec fn pty_result(outcome: PtyOutcome) -> Option<Seq<char>> {
    match outcome {
        PtyOutcome::ChannelFailed(e) => Some("Failed to open channel: "@ + e@),
        PtyOutcome::PtyFailed(e) => Some("PTY request failed: "@ + e@),
        PtyOutcome::ShellFailed(e) => Some("Shell request failed: "@ + e@),
        PtyOutcome::Ready => None,
    }
}

/// SSH connection handle
pub struct SshSession {
    id: String,
    config: SshConfig,
    connected: bool,
    channel_open: bool,
}

impl SshSession {
    pub closed spec fn id_spec(&self) -> Seq<char> {
        self.id@
    }

    pub closed spec fn auth_spec(&self) -> SshAuth {
        self.config.auth_method
    }

    pub closed spec fn config_spec(&self) -> SshConfig {
        self.config
    }

    pub closed spec fn connected_spec(&self) -> bool {
        self.connected
    }

    pub closed spec fn channel_spec(&self) -> bool {
        self.channel_open
    }

    /// Create a new SSH session, neither connected nor with a channel.
    pub fn new(id: String, config: SshConfig) -> (r: Result<SshSession, String>)
        ensures
            r matches Ok(s) && s.id_spec() == id@ && s.config_spec() == config && s.auth_spec() == config.auth_method
                && !s.connected_spec() && !s.channel_spec(),
    {
        Ok(SshSession { id, config, connected: false, channel_open: false })
    }

    pub fn id(&self) -> (r: &String)
        ensures
            r@ == self.id_spec(),
    {
        &self.id
    }

    pub fn config(&self) -> (r: &SshConfig)
        ensures
            *r == self.config_spec(),
            r.auth_method == self.auth_spec(),
    {
        &self.config
    }

    /// The authentication to attempt after connecting; `None` for agent
    /// authentication, which is not supported.
    pub fn auth_request(&self) -> (r: Option<AuthRequest>)
        ensures
            r is None <==> self.auth_spec() is Agent,
            match self.auth_spec() {
                SshAuth::Password(pw) => r matches Some(AuthRequest::Password { username, password }) && username@
                    == self.config_spec().username@ && password@ == pw@,
                SshAuth::Key { path, passphrase } => r matches Some(AuthRequest::Key { username, path: p, passphrase: q })
                    && username@ == self.config_spec().username@ && p@ == path@ && same_opt_text(q, passphrase),
                SshAuth::Agent => r is None,
            },
    {
        match &self.config.auth_method {
            SshAuth::Password(password) => Some(
                AuthRequest::Password { username: self.config.username.clone(), password: password.clone() },
            ),
            SshAuth::Key { path, passphrase } => Some(
                AuthRequest::Key {
                    username: self.config.username.clone(),
                    path: path.clone(),
                    passphrase: match passphrase {
                        Some(p) => Some(p.clone()),
                        None => None,
                    },
                },
            ),
            SshAuth::Agent => None,
        }
    }

    /// Records the outcome of connecting and authenticating.
    pub fn connect(&mut self, outcome: ConnectOutcome) -> (r: Result<(), String>)
        ensures
            failure(r) == connect_result(old(self).auth_spec(), outcome),
            final(self).connected_spec() == (old(self).connected_spec() || r is Ok),
            final(self).channel_spec() == old(self).channel_spec(),
            final(self).id_spec() == old(self).id_spec(),
            final(self).auth_spec() == old(self).auth_spec(),
            final(self).config_spec() == old(self).config_spec(),
    {
        let r = match &outcome {
            ConnectOutcome::Unreachable(e) => Err(prefixed("SSH connect failed: ", e)),
            _ => match &self.config.auth_method {
                SshAuth::Agent => Err(String::from_str("SSH agent auth not yet implemented")),
                _ => match &outcome {
                    ConnectOutcome::KeyUnreadable(e) => Err(prefixed("Failed to load key: ", e)),
                    ConnectOutcome::AuthError(e) => Err(prefixed("Auth failed: ", e)),
                    ConnectOutcome::Rejected => match &self.config.auth_method {
                        SshAuth::Password(_) => Err(String::from_str("Password authentication failed")),
                        _ => Err(String::from_str("Key authentication failed")),
                    },
                    _ => Ok(()),
                },
            },
        };
        if r.is_ok() {
            self.connected = true;
        }
        r
    }

    /// The pseudo-terminal to request: an xterm-256color terminal of this
    /// size, once connected.
    pub fn pty_request(&self, cols: u32, rows: u32) -> (r: Result<PtyRequest, String>)
        ensures
            self.connected_spec() ==> (r matches Ok(p) && p.term@ == "xterm-256color"@ && p.cols == cols && p.rows
                == rows),
            !self.connected_spec() ==> failure(r) == Some("Not connected"@),
    {
        if !self.connected {
            return Err(String::from_str("Not connected"));
        }
        Ok(PtyRequest { term: String::from_str("xterm-256color"), cols, rows })
    }

    /// Records the outcome of opening a pseudo-terminal channel.
    pub fn open_pty(&mut self, outcome: PtyOutcome) -> (r: Result<(), String>)
        ensures
            !old(self).connected_spec() ==> failure(r) == Some("Not connected"@) && final(self).channel_spec()
                == old(self).channel_spec(),
            old(self).connected_spec() ==> failure(r) == pty_result(outcome) && final(self).channel_spec() == (
            old(self).channel_spec() || r is Ok),
            final(self).connected_spec() == old(self).connected_spec(),
            final(self).id_spec() == old(self).id_spec(),
            final(self).auth_spec() == old(self).auth_spec(),
            final(self).config_spec() == old(self).config_spec(),
    {
        if !self.connected {
            return Err(String::from_str("Not connected"));
        }
        match &outcome {
            PtyOutcome::ChannelFailed(e) => Err(prefixed("Failed to open channel: ", e)),
            PtyOutcome::PtyFailed(e) => Err(prefixed("PTY request failed: ", e)),
            PtyOutcome::ShellFailed(e) => Err(prefixed("Shell request failed: ", e)),
            PtyOutcome::Ready => {
                self.channel_open = true;
                Ok(())
            },
        }
    }

    /// The outcome of writing to the channel: "No channel open" without a
    /// channel, else the send's outcome.
    pub fn write(&self, outcome: Result<(), String>) -> (r: Result<(), String>)
        ensures
            !self.channel_spec() ==> failure(r) == Some("No channel open"@),
            self.channel_spec() ==> failure(r) == match outcome {
                Ok(_) => None,
                Err(e) => Some("Write failed: "@ + e@),
            },
    {
        if !self.channel_open {
            return Err(String::from_str("No channel open"));
        }
        match &outcome {
            Ok(()) => Ok(()),
            Err(e) => Err(prefixed("Write failed: ", e)),
        }
    }

    /// The outcome of resizing the channel's terminal.
    pub fn resize(&self, outcome: Result<(), String>) -> (r: Result<(), String>)
        ensures
            !self.channel_spec() ==> failure(r) == Some("No channel open"@),
            self.channel_spec() ==> failure(r) == match outcome {
                Ok(_) => None,
                Err(e) => Some("Resize failed: "@ + e@),
            },
    {
        if !self.channel_open {
            return Err(String::from_str("No channel open"));
        }
        match &outcome {
            Ok(()) => Ok(()),
            Err(e) => Err(prefixed("Resize failed: ", e)),
        }
    }

    /// Disconnect: the channel is closed and the session dropped.
    pub fn disconnect(&mut self)
        ensures
            !final(self).connected_spec(),
            !final(self).channel_spec(),
            final(self).id_spec() == old(self).id_spec(),
            final(self).auth_spec() == old(self).auth_spec(),
            final(self).config_spec() == old(self).config_spec(),
    {
        self.channel_open = false;
        self.connected = false;
    }

    /// Check if connected
    pub fn is_connected(&self) -> (b: bool)
        ensures
            b == self.connected_spec(),
    {
        self.connected
    }

    /// Whether a pseudo-terminal channel is open.
    pub fn has_channel(&self) -> (b: bool)
        ensures
            b == self.channel_spec(),
    {
        self.channel_open
    }
}

/// A session as values.
pub struct SessionModel {
    pub id: Seq<char>,
    pub config: SshConfig,
    pub connected: bool,
    pub channel_open: bool,
}

impl SshSession {
    pub open spec fn model(&self) -> SessionModel {
        SessionModel {
            id: self.id_spec(),
            config: self.config_spec(),
            connected: self.connected_spec(),
            channel_open: self.channel_spec(),
        }
    }
}

/// The models of a list of sessions.
pub open spec fn session_models(v: Seq<SshSession>) -> Seq<SessionModel> {
    v.map_values(|s: SshSession| s.model())
}

/// The first session with id `id` at or after position `i`.
pub open spec fn find_session_from(v: Seq<SessionModel>, id: Seq<char>, i: int) -> Option<int>
    decreases v.len() - i,
{
    if i < 0 || i >= v.len() {
        None
    } else if v[i].id == id {
        Some(i)
    } else {
        find_session_from(v, id, i + 1)
    }
}

/// The first session with id `id`.
pub open spec fn find_session(v: Seq<SessionModel>, id: Seq<char>) -> Option<int> {
    find_session_from(v, id, 0)
}

/// `s` in place of the first session with its id, or added at the end.
pub open spec fn upsert_session(v: Seq<SessionModel>, s: SessionModel) -> Seq<SessionModel> {
    match find_session(v, s.id) {
        Some(k) => v.update(k, s),
        None => v.push(s),
    }
}

/// The session found for an id has that id, and no earlier one does.
pub proof fn lemma_find_session_from(v: Seq<SessionModel>, id: Seq<char>, i: int)
    requires
        0 <= i,
    ensures
        find_session_from(v, id, i) matches Some(k) ==> i <= k < v.len() && v[k].id == id && forall|j: int|
            i <= j < k ==> v[j].id != id,
        find_session_from(v, id, i) is None ==> forall|j: int| i <= j < v.len() ==> v[j].id != id,
    decreases v.len() - i,
{
    if i < v.len() && v[i].id != id {
        lemma_find_session_from(v, id, i + 1);
    }
}

/// Disconnecting a session just connected under a new id gives back the
/// sessions there were.
pub proof fn law_disconnect_undoes_connect(v: Seq<SessionModel>, s: SessionModel)
    requires
        find_session(v, s.id) is None,
    ensures
        find_session(upsert_session(v, s), s.id) == Some(v.len() as int),
        upsert_session(v, s).remove(v.len() as int) == v,
{
    lemma_find_session_from(v, s.id, 0);
    let u = upsert_session(v, s);
    lemma_find_session_from(u, s.id, 0);
    assert(u[v.len() as int].id == s.id);
    if let Some(k) = find_session(u, s.id) {
        if k < v.len() {
            assert(u[k] == v[k]);
        }
    }
    assert(u.remove(v.len() as int) =~= v);
}

/// No two sessions share an id.
pub open spec fn session_ids_distinct(v: Seq<SessionModel>) -> bool {
    forall|i: int, j: int| 0 <= i < j < v.len() ==> v[i].id != v[j].id
}

/// Connecting and disconnecting keeps session ids distinct, and a
/// disconnected session is no longer found.
pub proof fn law_session_ids_distinct(v: Seq<SessionModel>, s: SessionModel, id: Seq<char>)
    requires
        session_ids_distinct(v),
    ensures
        session_ids_distinct(upsert_session(v, s)),
        find_session(v, id) matches Some(k) ==> session_ids_distinct(v.remove(k)) && find_session(
            v.remove(k),
            id,
        ) is None,
{
    lemma_find_session_from(v, s.id, 0);
    let u = upsert_session(v, s);
    match find_session(v, s.id) {
        Some(k) => {
            assert forall|i: int, j: int| 0 <= i < j < u.len() implies u[i].id != u[j].id by {
                if i == k {
                    assert(v[j].id != s.id || j == k);
                } else if j == k {
                    assert(v[i].id != s.id);
                }
            }
        },
        None => {
            assert forall|i: int, j: int| 0 <= i < j < u.len() implies u[i].id != u[j].id by {
                if j == v.len() {
                    assert(v[i].id != s.id);
                }
            }
        },
    }
    lemma_find_session_from(v, id, 0);
    if let Some(k) = find_session(v, id) {
        let r = v.remove(k);
        assert forall|i: int, j: int| 0 <= i < j < r.len() implies r[i].id != r[j].id by {
            let ii = if i < k { i } else { i + 1 };
            let jj = if j < k { j } else { j + 1 };
            assert(r[i] == v[ii] && r[j] == v[jj]);
        }
        assert forall|j: int| 0 <= j < r.len() implies r[j].id != id by {
            if j < k {
                assert(r[j] == v[j]);
            } else {
                assert(r[j] == v[j + 1]);
            }
        }
        lemma_find_session_from(r, id, 0);
    }
}

proof fn lemma_session_models_update(v: Seq<SshSession>, k: int, t: SshSession)
    requires
        0 <= k < v.len(),
    ensures
        session_models(v.update(k, t)) =~= session_models(v).update(k, t.model()),
{
    assert forall|i: int| 0 <= i < v.len() implies #[trigger] session_models(v.update(k, t))[i]
        == session_models(v).update(k, t.model())[i] by {
        if i != k {
            assert(v.update(k, t)[i] == v[i]);
        }
    }
}

proof fn lemma_session_models_push(v: Seq<SshSession>, t: SshSession)
    ensures
        session_models(v.push(t)) =~= session_models(v).push(t.model()),
{
    assert forall|i: int| 0 <= i < v.len() + 1 implies #[trigger] session_models(v.push(t))[i]
        == session_models(v).push(t.model())[i] by {
        if i < v.len() {
            assert(v.push(t)[i] == v[i]);
        }
    }
}

proof fn lemma_session_models_remove(v: Seq<SshSession>, k: int)
    requires
        0 <= k < v.len(),
    ensures
        session_models(v.remove(k)) =~= session_models(v).remove(k),
{
    assert forall|i: int| 0 <= i < v.len() - 1 implies #[trigger] session_models(v.remove(k))[i]
        == session_models(v).remove(k)[i] by {
        if i < k {
            assert(v.remove(k)[i] == v[i]);
        } else {
            assert(v.remove(k)[i] == v[i + 1]);
        }
    }
}

/// SSH session manager
pub struct SshManager {
    sessions: Vec<SshSession>,
}

impl SshManager {
    /// The sessions, in the order they were first connected.
    pub closed spec fn sessions(&self) -> Seq<SessionModel> {
        session_models(self.sessions@)
    }

    pub fn new() -> (m: SshManager)
        ensures
            m.sessions() == Seq::<SessionModel>::empty(),
    {
        let m = SshManager { sessions: Vec::new() };
        assert(m.sessions() =~= Seq::<SessionModel>::empty());
        m
    }

    /// Create and connect a new SSH session: with the outcome of connecting,
    /// a connected session with the given configuration is kept under its id
    /// (replacing one with the same id); a failed one is not kept.
    pub fn connect(&mut self, id: String, config: SshConfig, outcome: ConnectOutcome) -> (r: Result<(), String>)
        ensures
            failure(r) == connect_result(config.auth_method, outcome),
            r is Err ==> final(self).sessions() == old(self).sessions(),
            r is Ok ==> final(self).sessions() == upsert_session(
                old(self).sessions(),
                SessionModel { id: id@, config, connected: true, channel_open: false },
            ),
    {
        let mut session = match SshSession::new(id, config) {
            Ok(s) => s,
            Err(e) => {
                return Err(e);
            },
        };
        match session.connect(outcome) {
            Ok(()) => {},
            Err(e) => {
                return Err(e);
            },
        }
        let ghost before = self.sessions@;
        match self.find(session.id.as_str()) {
            Some(k) => {
                proof {
                    lemma_session_models_update(before, k as int, session);
                }
                self.sessions.set(k, session);
            },
            None => {
                proof {
                    lemma_session_models_push(before, session);
                }
                self.sessions.push(session);
            },
        }
        Ok(())
    }

    /// Get a session by ID
    pub fn get(&self, id: &str) -> (r: Option<&SshSession>)
        ensures
            match find_session(self.sessions(), id@) {
                Some(k) => r matches Some(s) && s.model() == self.sessions()[k],
                None => r is None,
            },
    {
        match self.find(id) {
            Some(k) => Some(&self.sessions[k]),
            None => None,
        }
    }

    /// Get a mutable session by ID
    pub fn get_mut(&mut self, id: &str) -> (r: Option<&mut SshSession>)
        ensures
            match find_session(old(self).sessions(), id@) {
                Some(k) => r matches Some(s) && s.model() == old(self).sessions()[k] && final(self).sessions()
                    == old(self).sessions().update(k, final(s).model()),
                None => r is None && final(self).sessions() == old(self).sessions(),
            },
    {
        match self.find(id) {
            Some(k) => {
                let ghost before = self.sessions@;
                let s = &mut self.sessions[k];
                proof {
                    lemma_session_models_update(before, k as int, *final(s));
                }
                Some(s)
            },
            None => None,
        }
    }

    /// Disconnect and remove a session
    pub fn disconnect(&mut self, id: &str)
        ensures
            final(self).sessions() == match find_session(old(self).sessions(), id@) {
                Some(k) => old(self).sessions().remove(k),
                None => old(self).sessions(),
            },
    {
        let ghost before = self.sessions@;
        match self.find(id) {
            Some(k) => {
                proof {
                    lemma_session_models_remove(before, k as int);
                }
                let mut session = self.sessions.remove(k);
                session.disconnect();
            },
            None => {},
        }
    }

    /// List all session IDs
    pub fn list(&self) -> (ids: Vec<String>)
        ensures
            ids@.map_values(|s: String| s@) == self.sessions().map_values(|s: SessionModel| s.id),
    {
        let mut ids: Vec<String> = Vec::new();
        let mut i: usize = 0;
        while i < self.sessions.len()
            invariant
                i <= self.sessions.len(),
                ids@.map_values(|s: String| s@) =~= self.sessions().map_values(|s: SessionModel| s.id).take(
                    i as int,
                ),
            decreases self.sessions.len() - i,
        {
            let id = self.sessions[i].id.clone();
            proof {
                assert(ids@.push(id).map_values(|s: String| s@) =~= ids@.map_values(|s: String| s@).push(id@));
            }
            ids.push(id);
            i = i + 1;
        }
        assert(self.sessions().map_values(|s: SessionModel| s.id).take(i as int) =~= self.sessions().map_values(
            |s: SessionModel| s.id,
        ));
        ids
    }

    /// The position of the first session with id `id`.
    fn find(&self, id: &str) -> (r: Option<usize>)
        ensures
            match r {
                Some(k) => find_session(self.sessions(), id@) == Some(k as int) && k < self.sessions.len(),
                None => find_session(self.sessions(), id@) is None,
            },
    {
        let ghost v = self.sessions();
        let key = String::from_str(id);
        let mut i: usize = 0;
        while i < self.sessions.len()
            invariant
                i <= self.sessions.len(),
                v == self.sessions(),
                v.len() == self.sessions.len(),
                key@ == id@,
                find_session(v, id@) == find_session_from(v, id@, i as int),
            decreases self.sessions.len() - i,
        {
            assert(v[i as int].id == self.sessions@[i as int].id@);
            if key == self.sessions[i].id {
                return Some(i);
            }
            i = i + 1;
        }
        None
    }
}

} // verus!
