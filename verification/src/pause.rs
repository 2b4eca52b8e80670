//! The pause process of a pod, which pins the pod's namespaces to the file
//! system: which namespaces exist, where they are pinned, how the pause
//! process is started and how its ID mappings are checked.

use vstd::prelude::*;
use vstd::string::{StrSliceExecFns, StringExecFns};
use crate::parse::{parse_unsigned, parse_unsigned_str};
use crate::paths::{join, path_join};
use crate::text::{decimal, trim, trimmed, u64_to_string, whitespace_words};

verus! {

/// All available linux namespaces.
#[derive(Clone, Copy, Debug, PartialEq, Eq, Structural)]
pub enum Namespace {
    /// IPC namespace: System V IPC and POSIX message queues.
    Ipc,
    /// The PID namespace: the child process becomes PID 1.
    Pid,
    /// The network namespace.
    Net,
    /// The user namespace, which segregates the user IDs.
    User,
    /// The UTS namespace, which allows to change the hostname.
    Uts,
}

/// The name of a namespace, in lower case.
pub open spec fn namespace_name(ns: Namespace) -> Seq<char> {
    match ns {
        Namespace::Ipc => "ipc"@,
        Namespace::Pid => "pid"@,
        Namespace::Net => "net"@,
        Namespace::User => "user"@,
        Namespace::Uts => "uts"@,
    }
}

/// All namespaces, in their order of declaration.
pub open spec fn all_namespaces() -> Seq<Namespace> {
    seq![Namespace::Ipc, Namespace::Pid, Namespace::Net, Namespace::User, Namespace::Uts]
}

/// The path at which a namespace of a pod is pinned:
/// `BASE/<name>ns/POD_ID`.
pub open spec fn spec_namespace_path(ns: Namespace, base: Seq<char>, pod_id: Seq<char>) -> Seq<char> {
    path_join(path_join(base, namespace_name(ns) + "ns"@), pod_id)
}

impl Namespace {
    /// The name of the namespace, in lower case.
    pub fn as_str(&self) -> (s: &'static str)
        ensures
            s@ == namespace_name(*self),
    {
        match self {
            Namespace::Ipc => "ipc",
            Namespace::Pid => "pid",
            Namespace::Net => "net",
            Namespace::User => "user",
            Namespace::Uts => "uts",
        }
    }

    /// All namespaces, in their order of declaration.
    pub fn iter() -> (v: Vec<Namespace>)
        ensures
            v@ == all_namespaces(),
    {
        let v = vec![Namespace::Ipc, Namespace::Pid, Namespace::Net, Namespace::User, Namespace::Uts];
        assert(v@ =~= all_namespaces());
        v
    }

    /// Retrieve the bind path of the namespace for the provided base path
    /// and pod ID.
    pub fn path(&self, base: &str, pod_id: &str) -> (p: String)
        ensures
            p@ == spec_namespace_path(*self, base@, pod_id@),
    {
        let mut dir = String::from_str(self.as_str());
        dir.append("ns");
        let parent = join(base, dir.as_str());
        join(parent.as_str(), pod_id)
    }
}

/// What `Path::with_extension` gives for `p` and the extension `ext`.
pub uninterp spec fn path_with_extension(p: Seq<char>, ext: Seq<char>) -> Seq<char>;

/// std `Path::with_extension`: `p` with the extension of its file name set
/// to `ext`. Its documentation says that it panics where `ext` holds a path
/// separator, which on Unix is `/`.
#[verifier::external_body]
fn with_extension(p: &str, ext: &str) -> (r: String)
    requires
        !ext@.contains('/'),
    ensures
        r@ == path_with_extension(p@, ext@),
{
    std::path::Path::new(p).with_extension(ext).to_string_lossy().into_owned()
}

/// The PID file of the pause process of a pod:
/// `BASE/conmonrs/POD_ID` with the extension `pid`.
pub open spec fn spec_pause_pid_path(base: Seq<char>, pod_id: Seq<char>) -> Seq<char> {
    path_with_extension(path_join(path_join(base, "conmonrs"@), pod_id), "pid"@)
}

/// Retrieve the pause PID path for a base path and pod ID.
pub fn pause_pid_path(base: &str, pod_id: &str) -> (p: String)
    ensures
        p@ == spec_pause_pid_path(base@, pod_id@),
{
    let dir = join(base, "conmonrs");
    let file = join(dir.as_str(), pod_id);
    proof {
        reveal_strlit("pid");
    }
    with_extension(file.as_str(), "pid")
}

/// The namespaces of a pod with the paths at which they are pinned, in
/// order.
pub fn namespace_paths(base: &str, pod_id: &str) -> (r: Vec<(Namespace, String)>)
    ensures
        r@.len() == 5,
        forall|i: int| 0 <= i < 5 ==> (#[trigger] r@[i]).0 == all_namespaces()[i]
            && r@[i].1@ == spec_namespace_path(all_namespaces()[i], base@, pod_id@),
{
    let all = Namespace::iter();
    let mut r: Vec<(Namespace, String)> = Vec::new();
    let mut i: usize = 0;
    while i < all.len()
        invariant
            all@ == all_namespaces(),
            i <= all@.len(),
            r@.len() == i,
            forall|j: int| 0 <= j < i ==> (#[trigger] r@[j]).0 == all_namespaces()[j]
                && r@[j].1@ == spec_namespace_path(all_namespaces()[j], base@, pod_id@),
        decreases all.len() - i,
    {
        let ns = all[i];
        r.push((ns, ns.path(base, pod_id)));
        i = i + 1;
    }
    r
}

/// Why the pause process cannot be started.
#[derive(Clone, Copy, Debug, PartialEq, Eq, Structural)]
pub enum PauseError {
    /// The user namespace is requested without user ID mappings.
    UidMappingsEmpty,
    /// The user namespace is requested without group ID mappings.
    GidMappingsEmpty,
    /// No pod ID is given.
    NoPodId,
    /// The PID file of the pause process does not hold a process ID.
    InvalidPid,
}

/// The strings of a vector of strings.
pub open spec fn strings(v: Seq<String>) -> Seq<Seq<char>> {
    v.map_values(|s: String| s@)
}

/// `--uid-mappings=` or `--gid-mappings=` before each mapping.
pub open spec fn mapping_args(prefix: Seq<char>, mappings: Seq<Seq<char>>) -> Seq<Seq<char>> {
    mappings.map_values(|m: Seq<char>| prefix + m)
}

/// The arguments that one requested namespace adds to the pause command.
pub open spec fn namespace_args(ns: Namespace, uids: Seq<Seq<char>>, gids: Seq<Seq<char>>) -> Seq<Seq<char>> {
    match ns {
        Namespace::Ipc => seq!["--ipc"@],
        Namespace::Net => seq!["--net"@],
        Namespace::Pid => seq!["--pid"@],
        Namespace::Uts => seq!["--uts"@],
        Namespace::User => seq!["--user"@] + mapping_args("--uid-mappings="@, uids) + mapping_args(
            "--gid-mappings="@,
            gids,
        ),
    }
}

/// The arguments of the pause command for the requested namespaces, after
/// `--pod-id=POD_ID`; the user namespace needs user and group ID mappings.
pub open spec fn spec_pause_args(
    pod_id: Seq<char>,
    namespaces: Seq<Namespace>,
    uids: Seq<Seq<char>>,
    gids: Seq<Seq<char>>,
) -> Result<Seq<Seq<char>>, PauseError>
    decreases namespaces.len(),
{
    if namespaces.len() == 0 {
        Ok(seq!["--pod-id="@ + pod_id])
    } else {
        match spec_pause_args(pod_id, namespaces.drop_last(), uids, gids) {
            Err(e) => Err(e),
            Ok(args) => if namespaces.last() == Namespace::User && uids.len() == 0 {
                Err(PauseError::UidMappingsEmpty)
            } else if namespaces.last() == Namespace::User && gids.len() == 0 {
                Err(PauseError::GidMappingsEmpty)
            } else {
                Ok(args + namespace_args(namespaces.last(), uids, gids))
            },
        }
    }
}

/// The flags of the requested namespaces in request order: `--` and the
/// namespace's name for each, the user namespace followed by its user and
/// group ID mappings.
pub open spec fn requested_flags(namespaces: Seq<Namespace>, uids: Seq<Seq<char>>, gids: Seq<Seq<char>>) -> Seq<Seq<char>>
    decreases namespaces.len(),
{
    if namespaces.len() == 0 {
        Seq::empty()
    } else {
        let ns = namespaces.last();
        requested_flags(namespaces.drop_last(), uids, gids) + seq!["--"@ + namespace_name(ns)] + if ns
            == Namespace::User {
            mapping_args("--uid-mappings="@, uids) + mapping_args("--gid-mappings="@, gids)
        } else {
            Seq::<Seq<char>>::empty()
        }
    }
}

/// Every requested namespace adds its own flag to the pause command, in
/// request order, after the pod ID: a request is refused only where it
/// holds the user namespace without user, then without group, ID mappings.
pub proof fn lemma_pause_args_flags(
    pod_id: Seq<char>,
    namespaces: Seq<Namespace>,
    uids: Seq<Seq<char>>,
    gids: Seq<Seq<char>>,
)
    ensures
        spec_pause_args(pod_id, namespaces, uids, gids) == (if namespaces.contains(Namespace::User)
            && uids.len() == 0 {
            Err(PauseError::UidMappingsEmpty)
        } else if namespaces.contains(Namespace::User) && gids.len() == 0 {
            Err(PauseError::GidMappingsEmpty)
        } else {
            Ok(seq!["--pod-id="@ + pod_id] + requested_flags(namespaces, uids, gids))
        }),
    decreases namespaces.len(),
{
    reveal_strlit("--");
    reveal_strlit("ipc");
    reveal_strlit("pid");
    reveal_strlit("net");
    reveal_strlit("user");
    reveal_strlit("uts");
    reveal_strlit("--ipc");
    reveal_strlit("--pid");
    reveal_strlit("--net");
    reveal_strlit("--user");
    reveal_strlit("--uts");
    if namespaces.len() > 0 {
        let pre = namespaces.drop_last();
        let ns = namespaces.last();
        lemma_pause_args_flags(pod_id, pre, uids, gids);
        assert(namespaces.contains(Namespace::User) <==> (pre.contains(Namespace::User) || ns
            == Namespace::User)) by {
            if namespaces.contains(Namespace::User) && ns != Namespace::User {
                let i = choose|i: int| 0 <= i < namespaces.len() && namespaces[i] == Namespace::User;
                assert(pre[i] == Namespace::User);
            }
            if pre.contains(Namespace::User) {
                let i = choose|i: int| 0 <= i < pre.len() && pre[i] == Namespace::User;
                assert(namespaces[i] == Namespace::User);
            }
            if ns == Namespace::User {
                assert(namespaces[namespaces.len() - 1] == Namespace::User);
            }
        }
        assert(("--"@ + namespace_name(Namespace::Ipc)) =~= "--ipc"@);
        assert(("--"@ + namespace_name(Namespace::Pid)) =~= "--pid"@);
        assert(("--"@ + namespace_name(Namespace::Net)) =~= "--net"@);
        assert(("--"@ + namespace_name(Namespace::User)) =~= "--user"@);
        assert(("--"@ + namespace_name(Namespace::Uts)) =~= "--uts"@);
        let flags = seq!["--"@ + namespace_name(ns)] + if ns == Namespace::User {
            mapping_args("--uid-mappings="@, uids) + mapping_args("--gid-mappings="@, gids)
        } else {
            Seq::<Seq<char>>::empty()
        };
        assert(namespace_args(ns, uids, gids) =~= flags);
        assert(seq!["--pod-id="@ + pod_id] + requested_flags(pre, uids, gids) + flags =~= seq![
            "--pod-id="@ + pod_id,
        ] + requested_flags(namespaces, uids, gids));
    }
}

/// Without the user namespace, the flags are `--` and the name of each
/// requested namespace, one for one, in request order.
pub proof fn lemma_requested_flags_one_each(namespaces: Seq<Namespace>, uids: Seq<Seq<char>>, gids: Seq<Seq<char>>)
    requires
        !namespaces.contains(Namespace::User),
    ensures
        requested_flags(namespaces, uids, gids) == namespaces.map_values(|ns: Namespace| "--"@ + namespace_name(ns)),
    decreases namespaces.len(),
{
    if namespaces.len() > 0 {
        let pre = namespaces.drop_last();
        assert(!pre.contains(Namespace::User)) by {
            if pre.contains(Namespace::User) {
                let i = choose|i: int| 0 <= i < pre.len() && pre[i] == Namespace::User;
                assert(namespaces[i] == Namespace::User);
            }
        }
        assert(namespaces.last() != Namespace::User) by {
            if namespaces.last() == Namespace::User {
                assert(namespaces[namespaces.len() - 1] == Namespace::User);
            }
        }
        lemma_requested_flags_one_each(pre, uids, gids);
        assert(namespaces.map_values(|ns: Namespace| "--"@ + namespace_name(ns)) =~= pre.map_values(
            |ns: Namespace| "--"@ + namespace_name(ns),
        ).push("--"@ + namespace_name(namespaces.last())));
    }
}

/// `prefix` before each of `mappings`, appended to `args`.
fn push_mappings(args: &mut Vec<String>, prefix: &str, mappings: &Vec<String>)
    ensures
        strings(final(args)@) == strings(old(args)@) + mapping_args(prefix@, strings(mappings@)),
{
    let mut i: usize = 0;
    while i < mappings.len()
        invariant
            i <= mappings.len(),
            strings(args@) == strings(old(args)@) + mapping_args(prefix@, strings(mappings@.take(i as int))),
        decreases mappings.len() - i,
    {
        let mut m = String::from_str(prefix);
        m.append(mappings[i].as_str());
        let ghost before = args@;
        args.push(m);
        assert(strings(mappings@.take(i + 1)) =~= strings(mappings@.take(i as int)).push(mappings@[i as int]@));
        assert(strings(args@) =~= strings(before).push(m@));
        assert(mapping_args(prefix@, strings(mappings@.take(i + 1))) =~= mapping_args(
            prefix@,
            strings(mappings@.take(i as int)),
        ).push(prefix@ + mappings@[i as int]@));
        i = i + 1;
    }
    assert(mappings@.take(mappings.len() as int) =~= mappings@);
}

/// The arguments of the pause command that pins the requested namespaces of
/// the pod `pod_id`, with the ID mappings for a user namespace.
pub fn pause_args(
    pod_id: &str,
    namespaces: &[Namespace],
    uid_mappings: &Vec<String>,
    gid_mappings: &Vec<String>,
) -> (r: Result<Vec<String>, PauseError>)
    ensures
        match r {
            Ok(v) => spec_pause_args(pod_id@, namespaces@, strings(uid_mappings@), strings(gid_mappings@))
                == Ok::<Seq<Seq<char>>, PauseError>(strings(v@)),
            Err(e) => spec_pause_args(pod_id@, namespaces@, strings(uid_mappings@), strings(gid_mappings@))
                == Err::<Seq<Seq<char>>, PauseError>(e),
        },
        r is Ok <==> !(namespaces@.contains(Namespace::User) && (uid_mappings@.len() == 0
            || gid_mappings@.len() == 0)),
        r matches Ok(v) ==> strings(v@) == seq!["--pod-id="@ + pod_id@] + requested_flags(
            namespaces@,
            strings(uid_mappings@),
            strings(gid_mappings@),
        ),
        r matches Err(e) ==> e == (if uid_mappings@.len() == 0 {
            PauseError::UidMappingsEmpty
        } else {
            PauseError::GidMappingsEmpty
        }),
{
    proof {
        lemma_pause_args_flags(pod_id@, namespaces@, strings(uid_mappings@), strings(gid_mappings@));
    }
    let mut args: Vec<String> = Vec::new();
    let mut first = String::from_str("--pod-id=");
    first.append(pod_id);
    args.push(first);
    let ghost uids = strings(uid_mappings@);
    let ghost gids = strings(gid_mappings@);
    assert(namespaces@.take(0) =~= Seq::<Namespace>::empty());
    assert(strings(args@) =~= seq!["--pod-id="@ + pod_id@]);
    let mut i: usize = 0;
    while i < namespaces.len()
        invariant
            i <= namespaces.len(),
            uids == strings(uid_mappings@),
            gids == strings(gid_mappings@),
            spec_pause_args(pod_id@, namespaces@.take(i as int), uids, gids) == Ok::<Seq<Seq<char>>, PauseError>(strings(args@)),
        decreases namespaces.len() - i,
    {
        let ns = namespaces[i];
        assert(namespaces@.take(i + 1).drop_last() =~= namespaces@.take(i as int));
        assert(namespaces@.take(i + 1).last() == ns);
        let ghost before = strings(args@);
        match ns {
            Namespace::Ipc => args.push(String::from_str("--ipc")),
            Namespace::Net => args.push(String::from_str("--net")),
            Namespace::Pid => args.push(String::from_str("--pid")),
            Namespace::Uts => args.push(String::from_str("--uts")),
            Namespace::User => {
                if uid_mappings.len() == 0 {
                    proof {
                        lemma_pause_args_error_sticks(pod_id@, namespaces@, uids, gids, i + 1);
                    }
                    return Err(PauseError::UidMappingsEmpty);
                }
                if gid_mappings.len() == 0 {
                    proof {
                        lemma_pause_args_error_sticks(pod_id@, namespaces@, uids, gids, i + 1);
                    }
                    return Err(PauseError::GidMappingsEmpty);
                }
                args.push(String::from_str("--user"));
                push_mappings(&mut args, "--uid-mappings=", uid_mappings);
                push_mappings(&mut args, "--gid-mappings=", gid_mappings);
            },
        }
        assert(strings(args@) =~= before + namespace_args(ns, uids, gids));
        i = i + 1;
    }
    assert(namespaces@.take(namespaces.len() as int) =~= namespaces@);
    Ok(args)
}

/// An error for a prefix of the namespaces is the error for all of them.
proof fn lemma_pause_args_error_sticks(
    pod_id: Seq<char>,
    namespaces: Seq<Namespace>,
    uids: Seq<Seq<char>>,
    gids: Seq<Seq<char>>,
    i: int,
)
    requires
        0 <= i <= namespaces.len(),
        spec_pause_args(pod_id, namespaces.take(i), uids, gids) is Err,
    ensures
        spec_pause_args(pod_id, namespaces, uids, gids) == spec_pause_args(pod_id, namespaces.take(i), uids, gids),
    decreases namespaces.len() - i,
{
    if i < namespaces.len() {
        assert(namespaces.take(i + 1).drop_last() =~= namespaces.take(i));
        lemma_pause_args_error_sticks(pod_id, namespaces, uids, gids, i + 1);
    } else {
        assert(namespaces.take(i) =~= namespaces);
    }
}

/// std `str::split_whitespace`: the words of `s`, separated by whitespace.
#[verifier::external_body]
fn split_whitespace(s: &str) -> (words: Vec<&str>)
    ensures
        words@.map_values(|w: &str| w@) == whitespace_words(s@),
{
    s.split_whitespace().collect()
}

/// Why an ID mapping is refused.
#[derive(Clone, Copy, Debug, PartialEq, Eq, Structural)]
pub enum MappingError {
    /// The mapping is not three words, "CONTAINER_ID HOST_ID SIZE".
    WrongFormat,
    /// A word of the mapping is not a `u32`.
    NotU32,
}

/// A mapping is three words, each of which is a `u32`.
pub open spec fn spec_validate_mapping(mapping: Seq<char>) -> Result<(), MappingError> {
    let words = whitespace_words(mapping);
    if words.len() != 3 {
        Err(MappingError::WrongFormat)
    } else if exists|i: int| 0 <= i < 3 && parse_unsigned(#[trigger] words[i], u32::MAX as nat).is_none() {
        Err(MappingError::NotU32)
    } else {
        Ok(())
    }
}

/// Check a user or group ID mapping: "CONTAINER_ID HOST_ID SIZE", each a
/// `u32`.
pub fn validate_mapping(mapping: &str) -> (r: Result<(), MappingError>)
    ensures
        r == spec_validate_mapping(mapping@),
        r is Ok <==> whitespace_words(mapping@).len() == 3 && (forall|i: int|
            0 <= i < 3 ==> parse_unsigned(#[trigger] whitespace_words(mapping@)[i], u32::MAX as nat) is Some),
        r == Err::<(), MappingError>(MappingError::WrongFormat) <==> whitespace_words(mapping@).len() != 3,
{
    let words = split_whitespace(mapping);
    let ghost ws = whitespace_words(mapping@);
    assert(words@.len() == ws.len());
    if words.len() != 3 {
        return Err(MappingError::WrongFormat);
    }
    let mut i: usize = 0;
    while i < 3
        invariant
            i <= 3,
            words@.len() == 3,
            ws == whitespace_words(mapping@),
            words@.map_values(|w: &str| w@) == ws,
            forall|j: int| 0 <= j < i ==> parse_unsigned(#[trigger] ws[j], u32::MAX as nat).is_some(),
        decreases 3 - i,
    {
        assert(words@[i as int]@ == ws[i as int]);
        if parse_unsigned_str(words[i], u32::MAX as u64).is_none() {
            return Err(MappingError::NotU32);
        }
        i = i + 1;
    }
    Ok(())
}

/// A pod ID must be given.
pub fn check_pod_id(pod_id: &str) -> (r: Result<(), PauseError>)
    ensures
        r == (if pod_id@.len() == 0 {
            Err::<(), PauseError>(PauseError::NoPodId)
        } else {
            Ok::<(), PauseError>(())
        }),
{
    if pod_id.unicode_len() == 0 {
        Err(PauseError::NoPodId)
    } else {
        Ok(())
    }
}

/// The running pause process of a pod: where it pinned the pod's
/// namespaces, and its process ID.
pub struct Pause {
    base_path: String,
    pod_id: String,
    namespaces: Vec<Namespace>,
    pid: u32,
}

impl Pause {
    /// The base path of the pinned namespaces.
    pub closed spec fn spec_base_path(&self) -> Seq<char> {
        self.base_path@
    }

    /// The pod ID.
    pub closed spec fn spec_pod_id(&self) -> Seq<char> {
        self.pod_id@
    }

    /// The pinned namespaces.
    pub closed spec fn spec_namespaces(&self) -> Seq<Namespace> {
        self.namespaces@
    }

    /// The process ID of the pause process.
    pub closed spec fn spec_pid(&self) -> u32 {
        self.pid
    }

    /// The pause process of the pod `pod_id` under `base_path`, from the
    /// content of its PID file: the process ID without surrounding
    /// whitespace. Every namespace is pinned, unshared or not.
    pub fn from_pid_file(base_path: String, pod_id: String, content: &str) -> (r: Result<Self, PauseError>)
        ensures
            match parse_unsigned(trimmed(content@), u32::MAX as nat) {
                Some(v) => r matches Ok(p) && p.spec_pid() == v && p.spec_base_path() == base_path@
                    && p.spec_pod_id() == pod_id@ && p.spec_namespaces() == all_namespaces(),
                None => r == Err::<Self, PauseError>(PauseError::InvalidPid),
            },
    {
        match parse_unsigned_str(trim(content), u32::MAX as u64) {
            None => Err(PauseError::InvalidPid),
            Some(v) => Ok(Pause { base_path, pod_id, namespaces: Namespace::iter(), pid: v as u32 }),
        }
    }

    /// The base path of the pinned namespaces.
    pub fn base_path(&self) -> (p: &String)
        ensures
            p@ == self.spec_base_path(),
    {
        &self.base_path
    }

    /// The pod ID.
    pub fn pod_id(&self) -> (p: &String)
        ensures
            p@ == self.spec_pod_id(),
    {
        &self.pod_id
    }

    /// The pinned namespaces.
    pub fn namespaces(&self) -> (n: &Vec<Namespace>)
        ensures
            n@ == self.spec_namespaces(),
    {
        &self.namespaces
    }

    /// The process ID of the pause process.
    pub fn pid(&self) -> (p: u32)
        ensures
            p == self.spec_pid(),
    {
        self.pid
    }

    /// What stopping the pause process undoes: the pinned namespace paths
    /// to unmount, in order, and the PID file to remove; the process itself
    /// gets SIGTERM.
    pub fn stop_targets(&self) -> (r: (Vec<String>, String))
        ensures
            r.0@.len() == self.spec_namespaces().len(),
            forall|i: int| 0 <= i < r.0@.len() ==> (#[trigger] r.0@[i])@ == spec_namespace_path(
                self.spec_namespaces()[i],
                self.spec_base_path(),
                self.spec_pod_id(),
            ),
            r.1@ == spec_pause_pid_path(self.spec_base_path(), self.spec_pod_id()),
    {
        let mut paths: Vec<String> = Vec::new();
        let mut i: usize = 0;
        while i < self.namespaces.len()
            invariant
                i <= self.namespaces@.len(),
                paths@.len() == i,
                forall|j: int| 0 <= j < i ==> (#[trigger] paths@[j])@ == spec_namespace_path(
                    self.namespaces@[j],
                    self.base_path@,
                    self.pod_id@,
                ),
            decreases self.namespaces.len() - i,
        {
            paths.push(self.namespaces[i].path(self.base_path.as_str(), self.pod_id.as_str()));
            i = i + 1;
        }
        (paths, pause_pid_path(self.base_path.as_str(), self.pod_id.as_str()))
    }
}

/// The namespaces that the pause process unshares, and when.
#[derive(Clone, Copy, Debug, PartialEq, Eq, Structural)]
pub struct UnsharePlan {
    pub ipc: bool,
    pub pid: bool,
    pub net: bool,
    /// A new mount namespace, which a user namespace needs.
    pub mount: bool,
    pub uts: bool,
    /// Unshare a user namespace first, in the forked child, before the
    /// others; without one, the others are unshared before the fork.
    pub user: bool,
}

/// The unsharing of the pause process for the requested namespaces.
pub fn unshare_plan(ipc: bool, pid: bool, net: bool, user: bool, uts: bool) -> (p: UnsharePlan)
    ensures
        p == (UnsharePlan { ipc, pid, net, mount: user, uts, user }),
{
    UnsharePlan { ipc, pid, net, mount: user, uts, user }
}

/// The ID map file of the process `pid`: `/proc/<pid>/gid_map` for groups,
/// `/proc/<pid>/uid_map` for users.
pub fn mapping_file(pid: u32, is_group: bool) -> (p: String)
    ensures
        p@ == path_join(
            path_join("/proc"@, decimal(pid as nat)),
            if is_group { "gid_map"@ } else { "uid_map"@ },
        ),
{
    let id = u64_to_string(pid as u64);
    let dir = join("/proc", id.as_str());
    if is_group {
        join(dir.as_str(), "gid_map")
    } else {
        join(dir.as_str(), "uid_map")
    }
}

/// The lines `m\n` of the mappings `ms`, joined.
pub open spec fn mapping_lines(ms: Seq<Seq<char>>) -> Seq<char>
    decreases ms.len(),
{
    if ms.len() == 0 {
        Seq::empty()
    } else {
        mapping_lines(ms.drop_last()) + ms.last() + "\n"@
    }
}

/// The first mapping of `ms` that is refused, with its position and why.
pub open spec fn first_bad_mapping(ms: Seq<Seq<char>>, k: int) -> bool {
    &&& 0 <= k < ms.len()
    &&& spec_validate_mapping(ms[k]) is Err
    &&& forall|j: int| 0 <= j < k ==> spec_validate_mapping(#[trigger] ms[j]) is Ok
}

/// What goes into an ID map file for `mappings`: each mapping is checked,
/// then written as a line. The text written is handed back with the
/// outcome; a refused mapping stops the writing, after the lines of the
/// mappings before it.
pub fn mapping_content(mappings: &Vec<String>) -> (r: (String, Result<(), MappingError>))
    ensures
        match r.1 {
            Ok(()) => (forall|j: int| 0 <= j < mappings@.len() ==> spec_validate_mapping(
                #[trigger] strings(mappings@)[j],
            ) is Ok) && r.0@ == mapping_lines(strings(mappings@)),
            Err(e) => exists|k: int| #[trigger] first_bad_mapping(strings(mappings@), k)
                && spec_validate_mapping(strings(mappings@)[k]) == Err::<(), MappingError>(e)
                && r.0@ == mapping_lines(strings(mappings@).take(k)),
        },
{
    let ghost ms = strings(mappings@);
    let mut text = String::new();
    let mut i: usize = 0;
    while i < mappings.len()
        invariant
            ms == strings(mappings@),
            i <= mappings@.len(),
            forall|j: int| 0 <= j < i ==> spec_validate_mapping(#[trigger] ms[j]) is Ok,
            text@ == mapping_lines(ms.take(i as int)),
        decreases mappings.len() - i,
    {
        assert(ms[i as int] == mappings@[i as int]@);
        match validate_mapping(mappings[i].as_str()) {
            Err(e) => {
                assert(first_bad_mapping(ms, i as int));
                return (text, Err(e));
            },
            Ok(()) => {},
        }
        text.append(mappings[i].as_str());
        text.append("\n");
        proof {
            assert(ms.take(i + 1).drop_last() =~= ms.take(i as int));
            assert(ms.take(i + 1).last() == ms[i as int]);
        }
        i = i + 1;
    }
    assert(ms.take(i as int) =~= ms);
    (text, Ok(()))
}

} // verus!
