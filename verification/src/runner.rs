//! The configuration that a WASI runner gathers before it runs a module:
//! command-line arguments, environment variables, whether the host
//! environment is forwarded, the working directory, and the host commands
//! mapped into the guest.

use vstd::prelude::*;

use crate::text::{has_prefix, starts_with};

verus! {

/// A host command made available to the guest under another name.
#[derive(Debug, Clone, PartialEq, Eq)]
pub struct MappedCommand {
    /// The name the guest uses.
    pub alias: String,
    /// The host command it runs.
    pub target: String,
}

/// The mathematical value of a list of mapped commands: (alias, target)
/// pairs in the order they were added.
pub open spec fn commands_view(v: Seq<MappedCommand>) -> Seq<(Seq<char>, Seq<char>)> {
    v.map_values(|c: MappedCommand| (c.alias@, c.target@))
}

/// The environment that a list of (key, value) entries describes; a later
/// entry for a key replaces an earlier one.
pub open spec fn entries_to_map(s: Seq<(Seq<char>, Seq<char>)>) -> Map<Seq<char>, Seq<char>>
    decreases s.len(),
{
    if s.len() == 0 {
        Map::empty()
    } else {
        entries_to_map(s.drop_last()).insert(s.last().0, s.last().1)
    }
}

/// No key occurs twice.
pub open spec fn keys_distinct(s: Seq<(Seq<char>, Seq<char>)>) -> bool {
    forall|i: int, j: int| 0 <= i < j < s.len() ==> s[i].0 != s[j].0
}

/// The mathematical value of a runner configuration.
pub struct WasiRunnerView {
    pub args: Seq<Seq<char>>,
    pub env: Map<Seq<char>, Seq<char>>,
    pub forward_host_env: bool,
    pub current_dir: Option<Seq<char>>,
    pub mapped_host_commands: Seq<(Seq<char>, Seq<char>)>,
}

/// The configuration of a runner for WASI modules.
pub struct WasiRunner {
    args: Vec<String>,
    env: Vec<(String, String)>,
    forward_host_env: bool,
    current_dir: Option<String>,
    mapped_host_commands: Vec<MappedCommand>,
}

impl View for WasiRunner {
    type V = WasiRunnerView;

    closed spec fn view(&self) -> WasiRunnerView {
        WasiRunnerView {
            args: self.args.deep_view(),
            env: entries_to_map(self.env.deep_view()),
            forward_host_env: self.forward_host_env,
            current_dir: self.current_dir.deep_view(),
            mapped_host_commands: commands_view(self.mapped_host_commands@),
        }
    }
}

/// `m` with every entry of `entries` inserted in order.
pub open spec fn insert_all(m: Map<Seq<char>, Seq<char>>, entries: Seq<(Seq<char>, Seq<char>)>) -> Map<
    Seq<char>,
    Seq<char>,
>
    decreases entries.len(),
{
    if entries.len() == 0 {
        m
    } else {
        insert_all(m, entries.drop_last()).insert(entries.last().0, entries.last().1)
    }
}

/// Writing the value of a key that is already present.
proof fn lemma_entries_update(s: Seq<(Seq<char>, Seq<char>)>, i: int, v: Seq<char>)
    requires
        keys_distinct(s),
        0 <= i < s.len(),
    ensures
        entries_to_map(s.update(i, (s[i].0, v))) == entries_to_map(s).insert(s[i].0, v),
        keys_distinct(s.update(i, (s[i].0, v))),
    decreases s.len(),
{
    let t = s.update(i, (s[i].0, v));
    if i == s.len() - 1 {
        assert(t.drop_last() == s.drop_last());
        assert(entries_to_map(t) =~= entries_to_map(s).insert(s[i].0, v));
    } else {
        assert(t.drop_last() == s.drop_last().update(i, (s[i].0, v)));
        lemma_entries_update(s.drop_last(), i, v);
        assert(s.last().0 != s[i].0);
        assert(entries_to_map(t) =~= entries_to_map(s).insert(s[i].0, v));
    }
}

/// A key is in the described environment exactly when some entry has it.
proof fn lemma_entries_dom(s: Seq<(Seq<char>, Seq<char>)>, k: Seq<char>)
    ensures
        entries_to_map(s).dom().contains(k) <==> exists|i: int| 0 <= i < s.len() && s[i].0 == k,
    decreases s.len(),
{
    if s.len() > 0 {
        lemma_entries_dom(s.drop_last(), k);
        if exists|i: int| 0 <= i < s.len() && s[i].0 == k {
            let i = choose|i: int| 0 <= i < s.len() && s[i].0 == k;
            if i < s.len() - 1 {
                assert(s.drop_last()[i].0 == k);
            }
        }
        if exists|i: int| 0 <= i < s.drop_last().len() && s.drop_last()[i].0 == k {
            let i = choose|i: int| 0 <= i < s.drop_last().len() && s.drop_last()[i].0 == k;
            assert(s[i].0 == k);
        }
    }
}

/// A copy of a list of strings.
fn copy_strings(v: &Vec<String>) -> (r: Vec<String>)
    ensures
        r.deep_view() == v.deep_view(),
{
    let mut out: Vec<String> = Vec::new();
    let mut i: usize = 0;
    while i < v.len()
        invariant
            i <= v.len(),
            out.deep_view() == v.deep_view().take(i as int),
        decreases v.len() - i,
    {
        let c = v[i].clone();
        assert(c@ == v.deep_view()[i as int]);
        let ghost before = out.deep_view();
        out.push(c);
        assert(out.deep_view() =~= before.push(c@));
        assert(out.deep_view() =~= v.deep_view().take(i + 1));
        i = i + 1;
    }
    assert(v.deep_view().take(v.len() as int) == v.deep_view());
    out
}

/// The environment entries with `key` set to `value`.
fn put_entry(env: &mut Vec<(String, String)>, key: String, value: String)
    requires
        keys_distinct(old(env).deep_view()),
    ensures
        keys_distinct(final(env).deep_view()),
        entries_to_map(final(env).deep_view()) == entries_to_map(old(env).deep_view()).insert(
            key@,
            value@,
        ),
{
    let mut i: usize = 0;
    while i < env.len()
        invariant
            i <= env.len(),
            env.deep_view() == old(env).deep_view(),
            keys_distinct(env.deep_view()),
            forall|j: int| 0 <= j < i ==> env.deep_view()[j].0 != key@,
        decreases env.len() - i,
    {
        if env[i].0 == key {
            proof {
                lemma_entries_update(env.deep_view(), i as int, value@);
            }
            let ghost before = env.deep_view();
            env[i] = (key, value);
            assert(env.deep_view() == before.update(i as int, (before[i as int].0, value@)));
            return;
        }
        i = i + 1;
    }
    let ghost before = env.deep_view();
    env.push((key, value));
    assert(env.deep_view() == before.push((key@, value@)));
    assert(env.deep_view().drop_last() == before);
}

impl WasiRunner {
    /// The well-formedness of a runner: no environment key occurs twice.
    pub closed spec fn wf(&self) -> bool {
        keys_distinct(self.env.deep_view())
    }

    /// A runner with no arguments, no environment, no working directory and
    /// no mapped commands, that does not forward the host environment.
    pub fn new() -> (r: WasiRunner)
        ensures
            r.wf(),
            r@ == (WasiRunnerView {
                args: Seq::empty(),
                env: Map::empty(),
                forward_host_env: false,
                current_dir: None,
                mapped_host_commands: Seq::empty(),
            }),
    {
        let r = WasiRunner {
            args: Vec::new(),
            env: Vec::new(),
            forward_host_env: false,
            current_dir: None,
            mapped_host_commands: Vec::new(),
        };
        assert(r@.args == Seq::<Seq<char>>::empty());
        assert(r@.mapped_host_commands == Seq::<(Seq<char>, Seq<char>)>::empty());
        r
    }

    /// Whether a command can be run by this runner: its runner URI starts
    /// with the WASI runner's URI `wasi_runner_uri`.
    pub fn can_run_command(runner: &str, wasi_runner_uri: &str) -> (r: bool)
        ensures
            r == has_prefix(runner@, wasi_runner_uri@),
    {
        starts_with(runner, wasi_runner_uri)
    }

    /// The command-line arguments.
    pub fn get_args(&self) -> (r: Vec<String>)
        ensures
            r.deep_view() == self@.args,
    {
        copy_strings(&self.args)
    }

    /// Replaces the command-line arguments.
    pub fn set_args(&mut self, args: Vec<String>)
        requires
            old(self).wf(),
        ensures
            final(self).wf(),
            final(self)@ == (WasiRunnerView { args: args.deep_view(), ..old(self)@ }),
    {
        self.args = args;
    }

    /// The runner with its command-line arguments replaced.
    pub fn with_args(self, args: Vec<String>) -> (r: WasiRunner)
        requires
            self.wf(),
        ensures
            r.wf(),
            r@ == (WasiRunnerView { args: args.deep_view(), ..self@ }),
    {
        let mut r = self;
        r.set_args(args);
        r
    }

    /// Sets the environment variable `key` to `value`.
    pub fn set_env(&mut self, key: String, value: String)
        requires
            old(self).wf(),
        ensures
            final(self).wf(),
            final(self)@ == (WasiRunnerView {
                env: old(self)@.env.insert(key@, value@),
                ..old(self)@
            }),
    {
        put_entry(&mut self.env, key, value);
    }

    /// The runner with the environment variable `key` set to `value`.
    pub fn with_env(self, key: String, value: String) -> (r: WasiRunner)
        requires
            self.wf(),
        ensures
            r.wf(),
            r@ == (WasiRunnerView { env: self@.env.insert(key@, value@), ..self@ }),
    {
        let mut r = self;
        r.set_env(key, value);
        r
    }

    /// Sets every environment variable of `envs`, in order.
    pub fn set_envs(&mut self, envs: Vec<(String, String)>)
        requires
            old(self).wf(),
        ensures
            final(self).wf(),
            final(self)@ == (WasiRunnerView {
                env: insert_all(old(self)@.env, envs.deep_view()),
                ..old(self)@
            }),
    {
        let ghost entries = envs.deep_view();
        let ghost start = self@;
        let mut i: usize = 0;
        assert(entries.take(0) == Seq::<(Seq<char>, Seq<char>)>::empty());
        while i < envs.len()
            invariant
                self.wf(),
                i <= envs.len(),
                entries == envs.deep_view(),
                self@ == (WasiRunnerView {
                    env: insert_all(start.env, entries.take(i as int)),
                    ..start
                }),
            decreases envs.len() - i,
        {
            let k = envs[i].0.clone();
            let v = envs[i].1.clone();
            self.set_env(k, v);
            assert(entries.take(i + 1).drop_last() == entries.take(i as int));
            i = i + 1;
        }
        assert(entries.take(envs.len() as int) == entries);
    }

    /// The runner with every environment variable of `envs` set, in order.
    pub fn with_envs(self, envs: Vec<(String, String)>) -> (r: WasiRunner)
        requires
            self.wf(),
        ensures
            r.wf(),
            r@ == (WasiRunnerView { env: insert_all(self@.env, envs.deep_view()), ..self@ }),
    {
        let mut r = self;
        r.set_envs(envs);
        r
    }

    /// The value of the environment variable `key`, if it is set.
    pub fn get_env(&self, key: &str) -> (r: Option<String>)
        requires
            self.wf(),
        ensures
            match r {
                Some(v) => self@.env.dom().contains(key@) && self@.env[key@] == v@,
                None => !self@.env.dom().contains(key@),
            },
    {
        let k = String::from_str(key);
        let mut i: usize = 0;
        while i < self.env.len()
            invariant
                i <= self.env.len(),
                k@ == key@,
                keys_distinct(self.env.deep_view()),
                forall|j: int| 0 <= j < i ==> self.env.deep_view()[j].0 != key@,
            decreases self.env.len() - i,
        {
            if self.env[i].0 == k {
                proof {
                    lemma_entry_value(self.env.deep_view(), i as int);
                }
                return Some(self.env[i].1.clone());
            }
            i = i + 1;
        }
        proof {
            lemma_entries_dom(self.env.deep_view(), key@);
        }
        None
    }

    /// Whether the host environment is forwarded to the guest.
    pub fn forward_host_env(&self) -> (r: bool)
        ensures
            r == self@.forward_host_env,
    {
        self.forward_host_env
    }

    /// Sets whether the host environment is forwarded to the guest.
    pub fn set_forward_host_env(&mut self, forward: bool)
        requires
            old(self).wf(),
        ensures
            final(self).wf(),
            final(self)@ == (WasiRunnerView { forward_host_env: forward, ..old(self)@ }),
    {
        self.forward_host_env = forward;
    }

    /// The runner with host-environment forwarding set to `forward`.
    pub fn with_forward_host_env(self, forward: bool) -> (r: WasiRunner)
        requires
            self.wf(),
        ensures
            r.wf(),
            r@ == (WasiRunnerView { forward_host_env: forward, ..self@ }),
    {
        let mut r = self;
        r.set_forward_host_env(forward);
        r
    }

    /// The working directory, if one was set.
    pub fn current_dir(&self) -> (r: Option<String>)
        ensures
            r.deep_view() == self@.current_dir,
    {
        match &self.current_dir {
            Some(d) => Some(d.clone()),
            None => None,
        }
    }

    /// Sets the working directory.
    pub fn set_current_dir(&mut self, dir: String)
        requires
            old(self).wf(),
        ensures
            final(self).wf(),
            final(self)@ == (WasiRunnerView { current_dir: Some(dir@), ..old(self)@ }),
    {
        self.current_dir = Some(dir);
    }

    /// The runner with its working directory set to `dir`.
    pub fn with_current_dir(self, dir: String) -> (r: WasiRunner)
        requires
            self.wf(),
        ensures
            r.wf(),
            r@ == (WasiRunnerView { current_dir: Some(dir@), ..self@ }),
    {
        let mut r = self;
        r.set_current_dir(dir);
        r
    }

    /// The mapped host commands, in the order they were added.
    pub fn mapped_host_commands(&self) -> (r: Vec<MappedCommand>)
        ensures
            commands_view(r@) == self@.mapped_host_commands,
    {
        let mut out: Vec<MappedCommand> = Vec::new();
        let mut i: usize = 0;
        while i < self.mapped_host_commands.len()
            invariant
                i <= self.mapped_host_commands.len(),
                out@.len() == i,
                commands_view(out@) == commands_view(self.mapped_host_commands@).take(i as int),
            decreases self.mapped_host_commands.len() - i,
        {
            let c = &self.mapped_host_commands[i];
            let d = MappedCommand { alias: c.alias.clone(), target: c.target.clone() };
            assert(d.alias@ == c.alias@ && d.target@ == c.target@);
            let ghost before = out@;
            out.push(d);
            assert(out@ == before.push(d));
            assert forall|j: int| 0 <= j < i implies commands_view(out@)[j] == commands_view(
                before,
            )[j] by {
                assert(out@[j] == before[j]);
            }
            assert(commands_view(out@)[i as int] == commands_view(self.mapped_host_commands@)[i as int]);
            assert(commands_view(out@) =~= commands_view(self.mapped_host_commands@).take(i + 1));
            i = i + 1;
        }
        assert(commands_view(self.mapped_host_commands@).take(
            self.mapped_host_commands.len() as int,
        ) == commands_view(self.mapped_host_commands@));
        out
    }

    /// Maps the host command `target` into the guest as `alias`.
    pub fn add_mapped_host_command(&mut self, alias: String, target: String)
        requires
            old(self).wf(),
        ensures
            final(self).wf(),
            final(self)@ == (WasiRunnerView {
                mapped_host_commands: old(self)@.mapped_host_commands.push((alias@, target@)),
                ..old(self)@
            }),
    {
        let ghost before = self.mapped_host_commands@;
        self.mapped_host_commands.push(MappedCommand { alias, target });
        assert(commands_view(self.mapped_host_commands@) == commands_view(before).push(
            (alias@, target@),
        ));
    }

    /// The runner with the host command `target` mapped as `alias`.
    pub fn with_mapped_host_command(self, alias: String, target: String) -> (r: WasiRunner)
        requires
            self.wf(),
        ensures
            r.wf(),
            r@ == (WasiRunnerView {
                mapped_host_commands: self@.mapped_host_commands.push((alias@, target@)),
                ..self@
            }),
    {
        let mut r = self;
        r.add_mapped_host_command(alias, target);
        r
    }

    /// Maps every command of `commands` into the guest, in order.
    pub fn add_mapped_host_commands(&mut self, commands: Vec<MappedCommand>)
        requires
            old(self).wf(),
        ensures
            final(self).wf(),
            final(self)@ == (WasiRunnerView {
                mapped_host_commands: old(self)@.mapped_host_commands + commands_view(commands@),
                ..old(self)@
            }),
    {
        let ghost before = self.mapped_host_commands@;
        let mut more = commands;
        self.mapped_host_commands.append(&mut more);
        assert(commands_view(self.mapped_host_commands@) == commands_view(before)
            + commands_view(commands@));
    }

    /// The runner with every command of `commands` mapped, in order.
    pub fn with_mapped_host_commands(self, commands: Vec<MappedCommand>) -> (r: WasiRunner)
        requires
            self.wf(),
        ensures
            r.wf(),
            r@ == (WasiRunnerView {
                mapped_host_commands: self@.mapped_host_commands + commands_view(commands@),
                ..self@
            }),
    {
        let mut r = self;
        r.add_mapped_host_commands(commands);
        r
    }
}

/// What running a command came to: success exactly when the guest exited
/// with code 0; any other exit code is the error.
pub fn exit_outcome(exit_code: i32) -> (r: Result<(), i32>)
    ensures
        exit_code == 0 ==> r == Ok::<(), i32>(()),
        exit_code != 0 ==> r == Err::<(), i32>(exit_code),
{
    if exit_code == 0 {
        Ok(())
    } else {
        Err(exit_code)
    }
}

/// The error reported when a package has no command of the requested
/// name.
pub fn missing_command_message(command_name: &str) -> (m: String)
    ensures
        m@ == "The package doesn't contain a \""@ + command_name@ + "\" command"@,
{
    String::from_str("The package doesn't contain a \"").concat(command_name).concat(
        "\" command",
    )
}

/// Setting a variable and then reading it gives the value written, and
/// every other variable reads as before.
pub proof fn law_env_read_after_write(
    before: WasiRunnerView,
    key: Seq<char>,
    value: Seq<char>,
    other: Seq<char>,
)
    ensures
        ({
            let after = WasiRunnerView { env: before.env.insert(key, value), ..before };
            &&& after.env.dom().contains(key)
            &&& after.env[key] == value
            &&& other != key ==> (after.env.dom().contains(other) == before.env.dom().contains(
                other,
            ) && (before.env.dom().contains(other) ==> after.env[other] == before.env[other]))
        }),
{
}

/// Setting a batch of variables and then another batch is the same as
/// setting both batches at once, in order.
pub proof fn law_env_batches_compose(
    m: Map<Seq<char>, Seq<char>>,
    a: Seq<(Seq<char>, Seq<char>)>,
    b: Seq<(Seq<char>, Seq<char>)>,
)
    ensures
        insert_all(insert_all(m, a), b) == insert_all(m, a + b),
    decreases b.len(),
{
    if b.len() == 0 {
        assert(a + b =~= a);
    } else {
        law_env_batches_compose(m, a, b.drop_last());
        assert((a + b).drop_last() =~= a + b.drop_last());
        assert((a + b).last() == b.last());
    }
}

/// Of several entries for one key, the last one decides its value.
pub proof fn law_env_last_entry_wins(
    m: Map<Seq<char>, Seq<char>>,
    entries: Seq<(Seq<char>, Seq<char>)>,
    i: int,
)
    requires
        0 <= i < entries.len(),
        forall|j: int| i < j < entries.len() ==> entries[j].0 != entries[i].0,
    ensures
        insert_all(m, entries).dom().contains(entries[i].0),
        insert_all(m, entries)[entries[i].0] == entries[i].1,
    decreases entries.len(),
{
    if i < entries.len() - 1 {
        law_env_last_entry_wins(m, entries.drop_last(), i);
    }
}

/// The value that the environment entries give to the key of entry `i`.
proof fn lemma_entry_value(s: Seq<(Seq<char>, Seq<char>)>, i: int)
    requires
        keys_distinct(s),
        0 <= i < s.len(),
    ensures
        entries_to_map(s).dom().contains(s[i].0),
        entries_to_map(s)[s[i].0] == s[i].1,
    decreases s.len(),
{
    if i < s.len() - 1 {
        lemma_entry_value(s.drop_last(), i);
        assert(s.last().0 != s[i].0);
    }
}

} // verus!
