//! Terminal instances: each has an id, its emulated screen state, a title
//! and a working directory. The pseudo-terminal processes behind them are
//! driven by the application; this registry decides what their outcomes do.
use vstd::prelude::*;
use crate::terminal::state::{TermModel, TerminalState, lemma_feed_keeps_wf};
use crate::terminal::parser::VtAction;

pub mod buffer;
pub mod parser;
pub mod state;

verus! {

/// A lowercase hexadecimal digit.
pub open spec fn is_lower_hex_digit(c: char) -> bool {
    (48 <= c as int <= 57) || (97 <= c as int <= 102)
}

/// The hyphenated lowercase text of a random (version 4, RFC 4122 variant)
/// UUID: 36 characters, hyphens at 8, 13, 18 and 23, hex digits elsewhere,
/// the version digit 4 at 14 and a variant digit 8, 9, a or b at 19.
pub open spec fn is_uuid_v4_text(s: Seq<char>) -> bool {
    &&& s.len() == 36
    &&& forall|i: int|
        0 <= i < 36 ==> if i == 8 || i == 13 || i == 18 || i == 23 {
            #[trigger] s[i] == '-'
        } else {
            is_lower_hex_digit(s[i])
        }
    &&& s[14] == '4'
    &&& (s[19] == '8' || s[19] == '9' || s[19] == 'a' || s[19] == 'b')
}

/// A fresh random terminal id (`uuid::Uuid::new_v4`, written by `Display`
/// in its hyphenated lowercase form). Its value is random; every outcome has
/// the form of a version 4 UUID, which `new_v4` sets in the version and
/// variant bits.
#[verifier::external_body]
fn new_terminal_id() -> (id: String)
    ensures
        is_uuid_v4_text(id@),
{
    uuid::Uuid::new_v4().to_string()
}

/// A single terminal instance
pub struct TerminalInstance {
    pub id: String,
    pub state: TerminalState,
    pub title: String,
    pub cwd: String,
    pub output_buffer: Vec<u8>,
}

/// A terminal instance as values.
pub struct InstanceModel {
    pub id: Seq<char>,
    pub state: TermModel,
    pub title: Seq<char>,
    pub cwd: Seq<char>,
    pub output: Seq<u8>,
}

impl View for TerminalInstance {
    type V = InstanceModel;

    open spec fn view(&self) -> InstanceModel {
        InstanceModel {
            id: self.id@,
            state: self.state@,
            title: self.title@,
            cwd: self.cwd@,
            output: self.output_buffer@,
        }
    }
}

impl InstanceModel {
    pub open spec fn with_state(self, state: TermModel) -> InstanceModel {
        InstanceModel { state, ..self }
    }
}

/// A new 80 x 24 terminal with no buffered output.
pub open spec fn fresh_instance(id: Seq<char>, title: Seq<char>, cwd: Seq<char>) -> InstanceModel {
    InstanceModel { id, state: TermModel::fresh(80, 24), title, cwd, output: Seq::empty() }
}

/// The views of a list of instances.
pub open spec fn instance_models(v: Seq<TerminalInstance>) -> Seq<InstanceModel> {
    v.map_values(|t: TerminalInstance| t@)
}

/// The shell started when none is given.
pub open spec fn default_shell(windows: bool) -> Seq<char> {
    if windows {
        "powershell.exe"@
    } else {
        "bash"@
    }
}

/// The working directory used when none is given.
pub open spec fn default_cwd(windows: bool) -> Seq<char> {
    if windows {
        "C:\\Users"@
    } else {
        "/home"@
    }
}

/// The text of `o`, or `d` when there is none.
pub open spec fn text_or(o: Option<&str>, d: Seq<char>) -> Seq<char> {
    match o {
        Some(s) => s@,
        None => d,
    }
}

/// The shell command and working directory for a new terminal: the given
/// ones, else the platform's defaults.
pub fn launch_plan(shell: Option<&str>, cwd: Option<&str>, windows: bool) -> (r: (String, String))
    ensures
        r.0@ == text_or(shell, default_shell(windows)),
        r.1@ == text_or(cwd, default_cwd(windows)),
{
    let shell_cmd = match shell {
        Some(s) => String::from_str(s),
        None => if windows {
            String::from_str("powershell.exe")
        } else {
            String::from_str("bash")
        },
    };
    let working_dir = match cwd {
        Some(c) => String::from_str(c),
        None => if windows {
            String::from_str("C:\\Users")
        } else {
            String::from_str("/home")
        },
    };
    (shell_cmd, working_dir)
}

/// The message for an unknown terminal.
pub open spec fn not_found(id: Seq<char>) -> Seq<char> {
    "Terminal "@ + id + " not found"@
}

fn not_found_text(id: &str) -> (s: String)
    ensures
        s@ == not_found(id@),
{
    let mut s = String::from_str("Terminal ");
    s.append(id);
    s.append(" not found");
    s
}

/// The first instance with id `id` at or after position `i`.
pub open spec fn find_instance_from(v: Seq<InstanceModel>, id: Seq<char>, i: int) -> Option<int>
    decreases v.len() - i,
{
    if i < 0 || i >= v.len() {
        None
    } else if v[i].id == id {
        Some(i)
    } else {
        find_instance_from(v, id, i + 1)
    }
}

/// The first instance with id `id`.
pub open spec fn find_instance(v: Seq<InstanceModel>, id: Seq<char>) -> Option<int> {
    find_instance_from(v, id, 0)
}

/// Manages all terminal instances
pub struct TerminalManager {
    terminals: Vec<TerminalInstance>,
}

/// The message of a failed outcome, `None` for success.
pub open spec fn err_text<T>(r: Result<T, String>) -> Option<Seq<char>> {
    match r {
        Ok(_) => None,
        Err(e) => Some(e@),
    }
}

/// `t` in place of the first instance with its id, or added at the end.
pub open spec fn upsert_instance(v: Seq<InstanceModel>, t: InstanceModel) -> Seq<InstanceModel> {
    match find_instance(v, t.id) {
        Some(k) => v.update(k, t),
        None => v.push(t),
    }
}

/// A chunk of output as values.
pub open spec fn chunk_model(c: (String, Vec<u8>)) -> (Seq<char>, Seq<u8>) {
    (c.0@, c.1@)
}

/// The chunks, in order, that are not empty and belong to a known terminal.
pub open spec fn drained(v: Seq<InstanceModel>, chunks: Seq<(Seq<char>, Seq<u8>)>) -> Seq<(Seq<char>, Seq<u8>)>
    decreases chunks.len(),
{
    if chunks.len() == 0 {
        Seq::empty()
    } else {
        let rest = drained(v, chunks.drop_last());
        let c = chunks.last();
        if c.1.len() > 0 && find_instance(v, c.0) is Some {
            rest.push(c)
        } else {
            rest
        }
    }
}

/// The terminals after the chunks are fed in order: each chunk that is not
/// empty goes to the parser of the first terminal with its id.
pub open spec fn fed_instances(v: Seq<InstanceModel>, chunks: Seq<(Seq<char>, Seq<u8>)>) -> Seq<InstanceModel>
    decreases chunks.len(),
{
    if chunks.len() == 0 {
        v
    } else {
        let w = fed_instances(v, chunks.drop_last());
        let c = chunks.last();
        if c.1.len() > 0 {
            match find_instance(w, c.0) {
                Some(k) => w.update(k, w[k].with_state(w[k].state.feed(c.1))),
                None => w,
            }
        } else {
            w
        }
    }
}

/// `w` holds terminals with the ids of those of `v`, in the same order.
pub open spec fn same_ids(v: Seq<InstanceModel>, w: Seq<InstanceModel>) -> bool {
    &&& w.len() == v.len()
    &&& forall|i: int| 0 <= i < v.len() ==> (#[trigger] w[i]).id == v[i].id
}

proof fn lemma_instance_models_update(v: Seq<TerminalInstance>, k: int, t: TerminalInstance)
    requires
        0 <= k < v.len(),
    ensures
        instance_models(v.update(k, t)) =~= instance_models(v).update(k, t@),
{
    assert forall|i: int| 0 <= i < v.len() implies #[trigger] instance_models(v.update(k, t))[i]
        == instance_models(v).update(k, t@)[i] by {
        if i != k {
            assert(v.update(k, t)[i] == v[i]);
        }
    }
}

proof fn lemma_instance_models_push(v: Seq<TerminalInstance>, t: TerminalInstance)
    ensures
        instance_models(v.push(t)) =~= instance_models(v).push(t@),
{
    assert forall|i: int| 0 <= i < v.len() + 1 implies #[trigger] instance_models(v.push(t))[i]
        == instance_models(v).push(t@)[i] by {
        if i < v.len() {
            assert(v.push(t)[i] == v[i]);
        }
    }
}

proof fn lemma_instance_models_remove(v: Seq<TerminalInstance>, k: int)
    requires
        0 <= k < v.len(),
    ensures
        instance_models(v.remove(k)) =~= instance_models(v).remove(k),
{
    assert forall|i: int| 0 <= i < v.len() - 1 implies #[trigger] instance_models(v.remove(k))[i]
        == instance_models(v).remove(k)[i] by {
        if i < k {
            assert(v.remove(k)[i] == v[i]);
        } else {
            assert(v.remove(k)[i] == v[i + 1]);
        }
    }
}

/// The instance found for an id has that id, and no earlier one does.
pub proof fn lemma_find_instance_from(v: Seq<InstanceModel>, id: Seq<char>, i: int)
    requires
        0 <= i,
    ensures
        find_instance_from(v, id, i) matches Some(k) ==> i <= k < v.len() && v[k].id == id && forall|j: int|
            i <= j < k ==> v[j].id != id,
        find_instance_from(v, id, i) is None ==> forall|j: int| i <= j < v.len() ==> v[j].id != id,
    decreases v.len() - i,
{
    if i < v.len() && v[i].id != id {
        lemma_find_instance_from(v, id, i + 1);
    }
}

/// Closing a terminal just created (under an id not in use) gives back the
/// terminals there were.
pub proof fn law_close_undoes_create(v: Seq<InstanceModel>, t: InstanceModel)
    requires
        find_instance(v, t.id) is None,
    ensures
        find_instance(upsert_instance(v, t), t.id) == Some(v.len() as int),
        upsert_instance(v, t).remove(v.len() as int) == v,
{
    lemma_find_instance_from(v, t.id, 0);
    let u = upsert_instance(v, t);
    lemma_find_instance_from(u, t.id, 0);
    assert(u[v.len() as int].id == t.id);
    if let Some(k) = find_instance(u, t.id) {
        if k < v.len() {
            assert(u[k] == v[k]);
        }
    }
    assert(u.remove(v.len() as int) =~= v);
}

/// No two terminals share an id.
pub open spec fn instance_ids_distinct(v: Seq<InstanceModel>) -> bool {
    forall|i: int, j: int| 0 <= i < j < v.len() ==> v[i].id != v[j].id
}

/// Creating and closing terminals keeps their ids distinct, and a closed
/// terminal is no longer found.
pub proof fn law_terminal_ids_distinct(v: Seq<InstanceModel>, t: InstanceModel, id: Seq<char>)
    requires
        instance_ids_distinct(v),
    ensures
        instance_ids_distinct(upsert_instance(v, t)),
        find_instance(v, id) matches Some(k) ==> instance_ids_distinct(v.remove(k)) && find_instance(
            v.remove(k),
            id,
        ) is None,
{
    lemma_find_instance_from(v, t.id, 0);
    let u = upsert_instance(v, t);
    match find_instance(v, t.id) {
        Some(k) => {
            assert forall|i: int, j: int| 0 <= i < j < u.len() implies u[i].id != u[j].id by {
                if i == k {
                    assert(v[j].id != t.id || j == k);
                } else if j == k {
                    assert(v[i].id != t.id);
                }
            }
        },
        None => {
            assert forall|i: int, j: int| 0 <= i < j < u.len() implies u[i].id != u[j].id by {
                if j == v.len() {
                    assert(v[i].id != t.id);
                }
            }
        },
    }
    lemma_find_instance_from(v, id, 0);
    if let Some(k) = find_instance(v, id) {
        let r = v.remove(k);
        assert forall|i: int, j: int| 0 <= i < j < r.len() implies r[i].id != r[j].id by {
            let ii = if i < k { i } else { i + 1 };
            let jj = if j < k { j } else { j + 1 };
            assert(r[i] == v[ii] && r[j] == v[jj]);
        }
        assert forall|j: int| 0 <= j < r.len() implies r[j].id != id by {
            if j < k {
                assert(r[j] == v[j]);
            } else {
                assert(r[j] == v[j + 1]);
            }
        }
        lemma_find_instance_from(r, id, 0);
    }
}

/// Finding by id only looks at the ids.
proof fn lemma_find_same_ids(v: Seq<InstanceModel>, w: Seq<InstanceModel>, id: Seq<char>, i: int)
    requires
        same_ids(v, w),
    ensures
        find_instance_from(v, id, i) == find_instance_from(w, id, i),
    decreases v.len() - i,
{
    if 0 <= i < v.len() {
        assert(w[i].id == v[i].id);
        lemma_find_same_ids(v, w, id, i + 1);
    }
}

impl TerminalManager {
    /// The instances, in creation order.
    pub closed spec fn instances(&self) -> Seq<InstanceModel> {
        instance_models(self.terminals@)
    }

    /// Every instance's terminal state is well formed.
    pub open spec fn wf(&self) -> bool {
        forall|i: int| 0 <= i < self.instances().len() ==> (#[trigger] self.instances()[i]).state.wf()
    }

    pub fn new() -> (m: TerminalManager)
        ensures
            m.instances() == Seq::<InstanceModel>::empty(),
            m.wf(),
    {
        let m = TerminalManager { terminals: Vec::new() };
        assert(m.instances() =~= Seq::<InstanceModel>::empty());
        m
    }

    /// The position of the first instance with id `id`.
    fn find(&self, id: &str) -> (r: Option<usize>)
        ensures
            match r {
                Some(k) => find_instance(self.instances(), id@) == Some(k as int) && k < self.terminals.len(),
                None => find_instance(self.instances(), id@) is None,
            },
    {
        let ghost v = self.instances();
        let key = String::from_str(id);
        let mut i: usize = 0;
        while i < self.terminals.len()
            invariant
                i <= self.terminals.len(),
                v == self.instances(),
                v.len() == self.terminals.len(),
                key@ == id@,
                find_instance(v, id@) == find_instance_from(v, id@, i as int),
            decreases self.terminals.len() - i,
        {
            assert(v[i as int].id == self.terminals@[i as int].id@);
            if key == self.terminals[i].id {
                return Some(i);
            }
            i = i + 1;
        }
        None
    }

    /// Create a new terminal instance, once its pseudo-terminal was started
    /// (`spawned`) with the shell and directory of `launch_plan`: an 80 x 24
    /// terminal with a fresh id, titled by its shell. When the start failed,
    /// nothing is created.
    pub fn create(&mut self, shell: Option<&str>, cwd: Option<&str>, windows: bool, spawned: Result<(), String>) -> (r:
        Result<(String, String, String), String>)
        requires
            old(self).wf(),
        ensures
            final(self).wf(),
            r is Ok <==> spawned is Ok,
            spawned is Err ==> final(self).instances() == old(self).instances(),
            spawned matches Err(e) ==> err_text(r) == Some(
                "Failed to create PTY: "@ + e@,
            ),
            r matches Ok(t) ==> {
                &&& is_uuid_v4_text(t.0@)
                &&& t.1@ == text_or(shell, default_shell(windows))
                &&& t.2@ == text_or(cwd, default_cwd(windows))
                &&& final(self).instances() == upsert_instance(
                    old(self).instances(),
                    fresh_instance(t.0@, t.1@, t.2@),
                )
            },
    {
        let (shell_cmd, working_dir) = launch_plan(shell, cwd, windows);
        match spawned {
            Err(e) => {
                let mut m = String::from_str("Failed to create PTY: ");
                m.append(e.as_str());
                return Err(m);
            },
            Ok(()) => {},
        }
        let id = new_terminal_id();
        let title = shell_cmd.clone();
        let instance = TerminalInstance {
            id: id.clone(),
            state: TerminalState::new(80, 24),
            title: title.clone(),
            cwd: working_dir.clone(),
            output_buffer: Vec::new(),
        };
        let ghost before = self.terminals@;
        match self.find(id.as_str()) {
            Some(k) => {
                proof {
                    lemma_instance_models_update(before, k as int, instance);
                }
                self.terminals.set(k, instance);
            },
            None => {
                proof {
                    lemma_instance_models_push(before, instance);
                }
                self.terminals.push(instance);
            },
        }
        proof {
            assert forall|i: int| 0 <= i < self.instances().len() implies (#[trigger] self.instances()[i]).state.wf() by {
                if i < before.len() && self.instances()[i] != instance@ {
                    assert(self.instances()[i] == instance_models(before)[i]);
                }
            }
        }
        Ok((id, title, working_dir))
    }

    /// Close a terminal instance
    pub fn close(&mut self, id: &str) -> (r: Result<(), String>)
        requires
            old(self).wf(),
        ensures
            final(self).wf(),
            match find_instance(old(self).instances(), id@) {
                Some(k) => r is Ok && final(self).instances() == old(self).instances().remove(k),
                None => err_text(r) == Some(not_found(id@)) && final(self).instances() == old(self).instances(),
            },
    {
        let ghost before = self.terminals@;
        match self.find(id) {
            Some(k) => {
                proof {
                    lemma_instance_models_remove(before, k as int);
                }
                self.terminals.remove(k);
                proof {
                    assert forall|i: int| 0 <= i < self.instances().len() implies (#[trigger] self.instances()[i]).state.wf() by {
                        if i < k {
                            assert(self.instances()[i] == instance_models(before)[i]);
                        } else {
                            assert(self.instances()[i] == instance_models(before)[i + 1]);
                        }
                    }
                }
                Ok(())
            },
            None => Err(not_found_text(id)),
        }
    }

    /// The outcome of writing to a terminal's input: what the write to its
    /// pseudo-terminal reported, or an error when there is no such terminal.
    pub fn write(&self, id: &str, outcome: Result<(), String>) -> (r: Result<(), String>)
        ensures
            err_text(r) == match find_instance(self.instances(), id@) {
                Some(_) => err_text(outcome),
                None => Some(not_found(id@)),
            },
    {
        match self.find(id) {
            Some(_) => outcome,
            None => Err(not_found_text(id)),
        }
    }

    /// Resize a terminal, once its pseudo-terminal reported the outcome of
    /// its own resize: on success the screen state is resized.
    pub fn resize(&mut self, id: &str, cols: u16, rows: u16, outcome: Result<(), String>) -> (r: Result<
        (),
        String,
    >)
        requires
            old(self).wf(),
            find_instance(old(self).instances(), id@) is Some ==> cols >= 1 && rows >= 1,
        ensures
            final(self).wf(),
            match find_instance(old(self).instances(), id@) {
                Some(k) => match outcome {
                    Ok(()) => r is Ok && final(self).instances() == old(self).instances().update(
                        k,
                        old(self).instances()[k].with_state(old(self).instances()[k].state.resized(cols, rows)),
                    ),
                    Err(e) => err_text(r) == Some(e@) && final(self).instances() == old(self).instances(),
                },
                None => err_text(r) == Some(not_found(id@)) && final(self).instances() == old(self).instances(),
            },
    {
        let ghost before = self.terminals@;
        match self.find(id) {
            Some(k) => {
                match outcome {
                    Err(e) => {
                        return Err(e);
                    },
                    Ok(()) => {},
                }
                self.terminals[k].state.resize(cols, rows);
                proof {
                    lemma_instance_models_update(before, k as int, self.terminals@[k as int]);
                    assert(self.terminals@ == before.update(k as int, self.terminals@[k as int]));
                    assert forall|i: int| 0 <= i < self.instances().len() implies (#[trigger] self.instances()[i]).state.wf() by {
                        if i != k {
                            assert(self.instances()[i] == instance_models(before)[i]);
                        }
                    }
                }
                Ok(())
            },
            None => Err(not_found_text(id)),
        }
    }

    /// Get all terminal IDs, in creation order.
    pub fn get_ids(&self) -> (ids: Vec<String>)
        ensures
            ids@.map_values(|s: String| s@) == self.instances().map_values(|t: InstanceModel| t.id),
    {
        let mut ids: Vec<String> = Vec::new();
        let mut i: usize = 0;
        while i < self.terminals.len()
            invariant
                i <= self.terminals.len(),
                ids@.map_values(|s: String| s@) =~= self.instances().map_values(|t: InstanceModel| t.id).take(
                    i as int,
                ),
            decreases self.terminals.len() - i,
        {
            let id = self.terminals[i].id.clone();
            proof {
                assert(ids@.push(id).map_values(|s: String| s@) =~= ids@.map_values(|s: String| s@).push(id@));
            }
            ids.push(id);
            i = i + 1;
        }
        assert(self.instances().map_values(|t: InstanceModel| t.id).take(i as int) =~= self.instances().map_values(
            |t: InstanceModel| t.id,
        ));
        ids
    }

    /// The terminal state of the instance with id `id`.
    pub fn state(&self, id: &str) -> (r: Option<&TerminalState>)
        ensures
            match find_instance(self.instances(), id@) {
                Some(k) => r matches Some(s) && s@ == self.instances()[k].state,
                None => r is None,
            },
    {
        match self.find(id) {
            Some(k) => Some(&self.terminals[k].state),
            None => None,
        }
    }

    /// Feeds output drained from the pseudo-terminals to the screen states:
    /// each chunk that is not empty and belongs to a known terminal goes
    /// through that terminal's parser, and those chunks are returned in order.
    pub fn drain_output(&mut self, outputs: Vec<(String, Vec<u8>)>) -> (results: Vec<(String, Vec<u8>)>)
        requires
            old(self).wf(),
        ensures
            final(self).wf(),
            results@.map_values(|c: (String, Vec<u8>)| chunk_model(c)) == drained(
                old(self).instances(),
                outputs@.map_values(|c: (String, Vec<u8>)| chunk_model(c)),
            ),
            final(self).instances() == fed_instances(
                old(self).instances(),
                outputs@.map_values(|c: (String, Vec<u8>)| chunk_model(c)),
            ),
    {
        let ghost chunks = outputs@.map_values(|c: (String, Vec<u8>)| chunk_model(c));
        let ghost v0 = self.instances();
        let mut results: Vec<(String, Vec<u8>)> = Vec::new();
        assert(chunks.take(0) =~= Seq::<(Seq<char>, Seq<u8>)>::empty());
        for c in it: outputs.into_iter()
            invariant
                it.seq() == outputs@,
                chunks == outputs@.map_values(|c: (String, Vec<u8>)| chunk_model(c)),
                self.wf(),
                same_ids(v0, self.instances()),
                self.instances() == fed_instances(v0, chunks.take(it.index() as int)),
                results@.map_values(|c: (String, Vec<u8>)| chunk_model(c)) == drained(
                    v0,
                    chunks.take(it.index() as int),
                ),
        {
            let ghost idx = it.index() as int;
            assert(chunks.take(idx + 1).drop_last() =~= chunks.take(idx));
            assert(chunks[idx] == chunk_model(c));
            let (id, data) = c;
            if data.len() > 0 {
                let ghost before = self.terminals@;
                let ghost w0 = self.instances();
                proof {
                    lemma_find_same_ids(v0, w0, id@, 0);
                }
                match self.find(id.as_str()) {
                    Some(k) => {
                        let ghost st0 = w0[k as int].state;
                        proof {
                            lemma_feed_keeps_wf(st0, data@);
                        }
                        self.terminals[k].state.process_input(data.as_slice());
                        proof {
                            lemma_instance_models_update(before, k as int, self.terminals@[k as int]);
                            assert(self.terminals@ == before.update(k as int, self.terminals@[k as int]));
                            let w = self.instances();
                            assert(w =~= w0.update(k as int, w0[k as int].with_state(st0.feed(data@))));
                            assert forall|i: int| 0 <= i < w.len() implies (#[trigger] w[i]).state.wf() by {
                                if i != k {
                                    assert(w[i] == w0[i]);
                                }
                            }
                            assert forall|i: int| 0 <= i < v0.len() implies (#[trigger] w[i]).id == v0[i].id by {
                                if i != k {
                                    assert(w[i] == w0[i]);
                                }
                            }
                        }
                        let chunk = (id, data);
                        proof {
                            assert(results@.push(chunk).map_values(|c: (String, Vec<u8>)| chunk_model(c))
                                =~= results@.map_values(|c: (String, Vec<u8>)| chunk_model(c)).push(chunk_model(chunk)));
                        }
                        results.push(chunk);
                    },
                    None => {},
                }
            }
        }
        assert(chunks.take(chunks.len() as int) =~= chunks);
        results
    }
}

} // verus!
