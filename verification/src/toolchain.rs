//! Per-toolchain worker provisioning decisions.
//!
//! A toolchain pin (`lean-toolchain`) names the Lean release a workspace is
//! built with. This module parses pins, names the install command for a
//! toolchain, and decides from the recorded provenance sidecar whether an
//! installed worker is usable. Reading files and the environment is left to
//! the caller, which hands the results in as plain values.
use vstd::prelude::*;

use crate::digest::{hex_bytes, hex_of, sha256, sha256_digest};
use crate::text::{
    opt_view,    chars_of, skip_space_from, trim_end_from, concat, has_prefix, is_space, is_space_char, owned, seq_starts_with, str_eq,
    string_of, sub_chars, trim, trim_bounds,
};

verus! {

/// The development-pinned toolchain, the fallback for a workspace without a
/// readable `lean-toolchain` file.
pub const PINNED_TOOLCHAIN: &'static str = "leanprover/lean4:v4.32.0-rc1";

/// File name of the per-toolchain worker binary inside an install directory.
pub const WORKER_FILE_NAME: &'static str = "lean-dup-worker-child";

/// Environment variable that redirects the install directory.
pub const WORKERS_DIR_ENV: &'static str = "LEAN_DUP_WORKERS_DIR";

/// File name of the provenance sidecar inside an install directory.
pub const SIDECAR_FILE_NAME: &'static str = "worker.json";

/// The elan prefix of a full toolchain label.
pub open spec fn elan_prefix() -> Seq<char> {
    "leanprover/lean4:"@
}

/// Whether `s` holds `c` somewhere.
pub open spec fn has_char(s: Seq<char>, c: char) -> bool {
    exists|i: int| 0 <= i < s.len() && s[i] == c
}

/// A short toolchain id: nonempty and free of white space.
pub open spec fn valid_short_id(s: Seq<char>) -> bool {
    s.len() > 0 && forall|i: int| 0 <= i < s.len() ==> !is_space(#[trigger] s[i])
}

/// What `ToolchainId::parse` accepts and yields: the trimmed line, with the
/// `leanprover/lean4:` prefix removed when present; other lines with `:` or
/// `/` name a fork and are refused, as are empty or white-space-bearing ids.
pub open spec fn parse_toolchain(raw: Seq<char>) -> Option<Seq<char>> {
    let t = trim(raw);
    if t.len() == 0 {
        None
    } else {
        let short = if has_prefix(t, elan_prefix()) {
            Some(t.skip(elan_prefix().len() as int))
        } else if has_char(t, ':') || has_char(t, '/') {
            None
        } else {
            Some(t)
        };
        match short {
            Some(s) => if valid_short_id(s) {
                Some(s)
            } else {
                None
            },
            None => None,
        }
    }
}

/// Path `a` extended by the component `b`, as `Path::join` spells it: an
/// absolute `b` replaces `a`, an empty `a` yields `b`, and otherwise one `/`
/// separates the two.
pub open spec fn path_join(a: Seq<char>, b: Seq<char>) -> Seq<char> {
    if b.len() > 0 && b[0] == '/' {
        b
    } else if a.len() == 0 {
        b
    } else if a.last() == '/' {
        a + b
    } else {
        a + seq!['/'] + b
    }
}

/// Canonical short form of a Lean toolchain pin (e.g. `v4.32.0-rc1`).
#[derive(Debug)]
pub struct ToolchainId {
    id: String,
}

impl Clone for ToolchainId {
    fn clone(&self) -> (r: Self)
        ensures
            r@ == self@,
    {
        ToolchainId { id: self.id.clone() }
    }
}

impl View for ToolchainId {
    type V = Seq<char>;

    closed spec fn view(&self) -> Seq<char> {
        self.id@
    }
}

/// Typed failures while parsing or locating a toolchain.
#[derive(Debug, Clone)]
pub enum ToolchainError {
    Unparseable(String),
    FileMissing(String),
    ElanMissing { toolchain: ToolchainId, elan_dir: String },
}

/// Outcome of the post-build smoke test recorded in the sidecar.
#[derive(Debug, Clone, PartialEq, Eq)]
pub enum SmokeOutcome {
    /// The built worker loaded its capability and answered `version`.
    Passed,
    /// The worker built but failed at load; `detail` names the failure.
    Failed { detail: String },
}

/// The resolved, ready-to-spawn worker artifacts for one toolchain.
#[derive(Debug, Clone)]
pub struct InstalledWorker {
    pub worker_child: String,
    pub capability_manifest: String,
    pub lean_sysroot: String,
}

/// Why a usable worker could not be resolved; each variant carries the
/// `install-worker` command that fixes it.
#[derive(Debug, Clone)]
pub enum ProvisionError {
    NotInstalled { toolchain: ToolchainId, install_cmd: String },
    Stale { toolchain: ToolchainId, install_cmd: String },
    Unusable { toolchain: ToolchainId, detail: String, install_cmd: String },
}

/// The text `format!("{:?}", s)` gives for a string: the string in double
/// quotes with its special characters escaped, as `str`'s `Debug` writes it.
pub uninterp spec fn debug_quoted(s: Seq<char>) -> Seq<char>;

/// `<str as Debug>::fmt`, through `format!("{:?}", s)`: a function of the
/// string alone.
#[verifier::external_body]
fn debug_str(s: &str) -> (r: String)
    ensures
        r@ == debug_quoted(s@),
{
    format!("{:?}", s)
}

/// The message of a toolchain error.
pub open spec fn toolchain_message(e: ToolchainError) -> Seq<char> {
    match e {
        ToolchainError::Unparseable(raw) => "could not parse lean-toolchain string: "@ + debug_quoted(raw@),
        ToolchainError::FileMissing(path) => "lean-toolchain file not found at "@ + path@,
        ToolchainError::ElanMissing { toolchain, elan_dir } => "elan toolchain "@ + toolchain@
            + " is not installed (expected "@ + elan_dir@ + "); install it with: elan toolchain install "@
            + elan_prefix() + toolchain@,
    }
}

/// The message of a provisioning error; each one ends with the command
/// that fixes it.
pub open spec fn provision_message(e: ProvisionError) -> Seq<char> {
    match e {
        ProvisionError::NotInstalled { toolchain, install_cmd } => "no lean-dup worker is installed for toolchain "@
            + toolchain@ + "; run: "@ + install_cmd@,
        ProvisionError::Stale { toolchain, install_cmd } => "the lean-dup worker for toolchain "@ + toolchain@
            + " is stale (its lean.h changed since it was built); rebuild it: "@ + install_cmd@,
        ProvisionError::Unusable { toolchain, detail, install_cmd } => "the lean-dup worker for toolchain "@
            + toolchain@ + " failed its smoke test ("@ + detail@ + "); rebuild it: "@ + install_cmd@,
    }
}

impl ToolchainError {
    /// The message the error displays.
    pub fn message(&self) -> (r: String)
        ensures
            r@ == toolchain_message(*self),
    {
        match self {
            ToolchainError::Unparseable(raw) => {
                let q = debug_str(raw.as_str());
                concat("could not parse lean-toolchain string: ", q.as_str())
            },
            ToolchainError::FileMissing(path) => concat("lean-toolchain file not found at ", path.as_str()),
            ToolchainError::ElanMissing { toolchain, elan_dir } => {
                let mut m = concat("elan toolchain ", toolchain.as_str());
                m.append(" is not installed (expected ");
                m.append(elan_dir.as_str());
                m.append("); install it with: elan toolchain install ");
                let label = toolchain.elan_label();
                m.append(label.as_str());
                m
            },
        }
    }
}

impl ProvisionError {
    /// The message the error displays, naming the command that fixes it.
    pub fn message(&self) -> (r: String)
        ensures
            r@ == provision_message(*self),
    {
        match self {
            ProvisionError::NotInstalled { toolchain, install_cmd } => {
                let mut m = concat("no lean-dup worker is installed for toolchain ", toolchain.as_str());
                m.append("; run: ");
                m.append(install_cmd.as_str());
                m
            },
            ProvisionError::Stale { toolchain, install_cmd } => {
                let mut m = concat("the lean-dup worker for toolchain ", toolchain.as_str());
                m.append(" is stale (its lean.h changed since it was built); rebuild it: ");
                m.append(install_cmd.as_str());
                m
            },
            ProvisionError::Unusable { toolchain, detail, install_cmd } => {
                let mut m = concat("the lean-dup worker for toolchain ", toolchain.as_str());
                m.append(" failed its smoke test (");
                m.append(detail.as_str());
                m.append("); rebuild it: ");
                m.append(install_cmd.as_str());
                m
            },
        }
    }
}

/// Provenance record written beside an installed worker.
#[derive(Debug, Clone)]
pub struct WorkerSidecar {
    toolchain: String,
    header_digest: String,
    built_against_lean_version: String,
    built_by_host_version: String,
    lean_sysroot: String,
    capability_manifest: String,
    capability_dylib: String,
    smoke: Option<SmokeOutcome>,
}

impl ToolchainId {
    /// Parse a `lean-toolchain` line: the elan form `leanprover/lean4:<id>`
    /// or the bare `<id>`.
    pub fn parse(raw: &str) -> (r: Result<ToolchainId, ToolchainError>)
        ensures
            match r {
                Ok(id) => parse_toolchain(raw@) == Some(id@),
                Err(e) => parse_toolchain(raw@) is None && (e matches ToolchainError::Unparseable(
                    s,
                ) && s@ == raw@),
            },
    {
        let cs = chars_of(raw);
        let (a, b) = trim_bounds(&cs);
        if a >= b {
            return Err(ToolchainError::Unparseable(owned(raw)));
        }
        let t: Vec<char> = sub_chars(&cs, a, b);
        assert(t@ == trim(raw@));
        let prefix = chars_of("leanprover/lean4:");
        let ghost t_view = t@;
        let short: Vec<char>;
        if seq_starts_with(&t, &prefix, 0) {
            short = sub_chars(&t, prefix.len(), t.len());
            assert(short@ =~= t@.skip(elan_prefix().len() as int));
        } else {
            let mut i: usize = 0;
            while i < t.len()
                invariant
                    i <= t@.len(),
                    t@ == trim(raw@),
                    !has_prefix(t@, elan_prefix()),
                    forall|k: int| 0 <= k < i ==> t@[k] != ':' && t@[k] != '/',
                decreases t@.len() - i,
            {
                if t[i] == ':' || t[i] == '/' {
                    assert(has_char(t@, ':') || has_char(t@, '/')) by {
                        assert(0 <= i < t@.len() && t@[i as int] == t[i as int]);
                    }
                    assert(!has_prefix(t@, elan_prefix()));
                    return Err(ToolchainError::Unparseable(owned(raw)));
                }
                i = i + 1;
            }
            assert(!has_char(t@, ':') && !has_char(t@, '/'));
            short = t;
        }
        if short.len() == 0 {
            assert(!valid_short_id(short@));
            return Err(ToolchainError::Unparseable(owned(raw)));
        }
        let mut i: usize = 0;
        while i < short.len()
            invariant
                i <= short@.len(),
                t_view == trim(raw@),
                short@.len() > 0,
                parse_toolchain(raw@) == (if valid_short_id(short@) {
                    Some(short@)
                } else {
                    None
                }),
                forall|k: int| 0 <= k < i ==> !is_space(#[trigger] short@[k]),
            decreases short@.len() - i,
        {
            if is_space_char(short[i]) {
                assert(!valid_short_id(short@));
                return Err(ToolchainError::Unparseable(owned(raw)));
            }
            i = i + 1;
        }
        Ok(ToolchainId { id: string_of(short.as_slice()) })
    }

    /// The development pin as an id (`v4.32.0-rc1`).
    pub fn pinned() -> (id: ToolchainId)
        ensures
            id@ == "v4.32.0-rc1"@,
    {
        ToolchainId { id: owned("v4.32.0-rc1") }
    }

    /// The elan-style label `leanprover/lean4:<id>`.
    pub fn elan_label(&self) -> (r: String)
        ensures
            r@ == elan_prefix() + self@,
    {
        concat("leanprover/lean4:", self.id.as_str())
    }

    pub fn as_str(&self) -> (r: &str)
        ensures
            r@ == self@,
    {
        self.id.as_str()
    }

    /// Path of the elan toolchain directory under the home directory `home`:
    /// `<home>/.elan/toolchains/leanprover--lean4---<id>`.
    pub fn elan_dir_in(&self, home: &str) -> (r: String)
        ensures
            r@ == elan_toolchain_dir(home@, self@),
    {
        let a = join_path(home, ".elan");
        let b = join_path(a.as_str(), "toolchains");
        let leaf = concat("leanprover--lean4---", self.id.as_str());
        join_path(b.as_str(), leaf.as_str())
    }
}

/// Where elan keeps toolchain `id` under the home directory `home`.
pub open spec fn elan_toolchain_dir(home: Seq<char>, id: Seq<char>) -> Seq<char> {
    path_join(path_join(path_join(home, ".elan"@), "toolchains"@), "leanprover--lean4---"@ + id)
}

/// The directory named in the error when no home directory is known.
pub open spec fn unlocated_elan_dir(id: Seq<char>) -> Seq<char> {
    "~/.elan/toolchains/leanprover--lean4---"@ + id
}

/// The elan directory of `id` located from the home directory `home`: the
/// path under it, or `ElanMissing` naming the `~`-relative path when no home
/// directory is known.
pub open spec fn elan_located(
    id: Seq<char>,
    home: Option<Seq<char>>,
    r: Result<String, ToolchainError>,
) -> bool {
    match home {
        Some(h) => match r {
            Ok(d) => d@ == elan_toolchain_dir(h, id),
            Err(_) => false,
        },
        None => match r {
            Err(ToolchainError::ElanMissing { toolchain, elan_dir }) => toolchain@ == id
                && elan_dir@ == unlocated_elan_dir(id),
            _ => false,
        },
    }
}

/// `dirs::home_dir`: the current user's home directory as the platform
/// reports it, `None` where none can be found. The answer depends on the
/// environment, so nothing is stated of it.
/// The path is handed back as text, a path that is not valid UTF-8 with its
/// invalid bytes replaced (`to_string_lossy`).
#[verifier::external_body]
fn home_dir() -> (r: Option<String>) {
    match dirs::home_dir() {
        Some(p) => Some(p.to_string_lossy().into_owned()),
        None => None,
    }
}

/// `dirs::data_local_dir`: the user's local data directory as the platform
/// reports it, `None` where none can be found. The answer depends on the
/// environment, so nothing is stated of it.
/// The path is handed back as text, a path that is not valid UTF-8 with its
/// invalid bytes replaced (`to_string_lossy`).
#[verifier::external_body]
fn data_local_dir() -> (r: Option<String>) {
    match dirs::data_local_dir() {
        Some(p) => Some(p.to_string_lossy().into_owned()),
        None => None,
    }
}

impl ToolchainId {
    /// The elan directory of this toolchain given the home directory.
    pub fn elan_dir_for_home(&self, home: Option<String>) -> (r: Result<String, ToolchainError>)
        ensures
            elan_located(self@, opt_view(home), r),
    {
        match home {
            Some(h) => Ok(self.elan_dir_in(h.as_str())),
            None => {
                let leaf = concat("~/.elan/toolchains/leanprover--lean4---", self.id.as_str());
                Err(ToolchainError::ElanMissing { toolchain: self.clone(), elan_dir: leaf })
            },
        }
    }

    /// The elan directory of this toolchain under the current home directory
    /// (not checked for existence).
    pub fn elan_dir_path(&self) -> (r: Result<String, ToolchainError>)
        ensures
            exists|home: Option<Seq<char>>| #[trigger] elan_located(self@, home, r),
    {
        let home = home_dir();
        let r = self.elan_dir_for_home(home);
        assert(elan_located(self@, opt_view(home), r));
        r
    }

    /// The elan directory of this toolchain, refused as `ElanMissing` unless
    /// `is_dir` reports it as an existing directory.
    pub fn elan_dir<F: Fn(&String) -> bool>(&self, is_dir: F) -> (r: Result<String, ToolchainError>)
        requires
            forall|p: String| #[trigger] is_dir.requires((&p,)),
        ensures
            exists|home: Option<Seq<char>>, located: Result<String, ToolchainError>|
                #[trigger] elan_located(self@, home, located) && match located {
                    Ok(d) => (is_dir.ensures((&d,), true) && r == Ok::<String, ToolchainError>(d))
                        || (is_dir.ensures((&d,), false) && match r {
                        Err(ToolchainError::ElanMissing { toolchain, elan_dir }) => toolchain@
                            == self@ && elan_dir@ == d@,
                        _ => false,
                    }),
                    Err(e) => r == Err::<String, ToolchainError>(e),
                },
    {
        let located = self.elan_dir_path();
        match located {
            Ok(d) => {
                let present = is_dir(&d);
                if present {
                    Ok(d)
                } else {
                    Err(ToolchainError::ElanMissing { toolchain: self.clone(), elan_dir: d })
                }
            },
            Err(e) => Err(e),
        }
    }

    /// The toolchain a workspace pins: its `lean-toolchain` text parsed,
    /// or the development pin when the file is absent or does not parse.
    pub fn for_workspace(pin: Option<&str>) -> (r: ToolchainId)
        ensures
            r@ == workspace_toolchain(match pin {
                Some(t) => Some(t@),
                None => None,
            }),
    {
        match pin {
            Some(text) => match ToolchainId::parse(text) {
                Ok(id) => id,
                Err(_) => ToolchainId::pinned(),
            },
            None => ToolchainId::pinned(),
        }
    }
}

/// The toolchain a workspace with `lean-toolchain` text `pin` resolves to.
pub open spec fn workspace_toolchain(pin: Option<Seq<char>>) -> Seq<char> {
    match pin {
        Some(t) => match parse_toolchain(t) {
            Some(id) => id,
            None => "v4.32.0-rc1"@,
        },
        None => "v4.32.0-rc1"@,
    }
}

/// `<data_local>/lean-dup/workers`, or `./lean-dup/workers` when no local
/// data directory is known.
pub open spec fn install_root_under(data_local: Option<Seq<char>>) -> Seq<char> {
    let base = match data_local {
        Some(d) => d,
        None => "."@,
    };
    path_join(path_join(base, "lean-dup"@), "workers"@)
}

/// The per-toolchain install root under the local data directory `data_local`.
pub fn install_root_in(data_local: Option<String>) -> (r: String)
    ensures
        r@ == install_root_under(opt_view(data_local)),
{
    let base = match data_local {
        Some(d) => d,
        None => owned("."),
    };
    proof {
        reveal_strlit(".");
    }
    let a = join_path(base.as_str(), "lean-dup");
    join_path(a.as_str(), "workers")
}

/// The per-toolchain install root under the platform's local data directory.
pub fn install_root() -> (r: String)
    ensures
        exists|d: Option<Seq<char>>| r@ == #[trigger] install_root_under(d),
{
    let d = data_local_dir();
    let r = install_root_in(d);
    assert(r@ == install_root_under(opt_view(d)));
    r
}

/// Install directory of toolchain `id`: the override directory when one is
/// set (`LEAN_DUP_WORKERS_DIR`, a bare single-toolchain layout), else
/// `<install_root>/<id>`.
pub fn install_dir_with(id: &ToolchainId, workers_dir_override: Option<String>, install_root: &str) -> (r: String)
    ensures
        r@ == match workers_dir_override {
            Some(o) => o@,
            None => path_join(install_root@, id@),
        },
{
    match workers_dir_override {
        Some(o) => o,
        None => join_path(install_root, id.as_str()),
    }
}

/// Lowercase hex SHA-256 of the bytes of a toolchain's `lean.h`, the
/// identity recorded in the sidecar.
pub fn lean_header_digest(header: &[u8]) -> (r: String)
    ensures
        r@ == hex_of(sha256_digest(header@)),
{
    let d = sha256(header);
    hex_bytes(d.as_slice())
}

/// `a` joined with the relative component `b`.
pub fn join_path(a: &str, b: &str) -> (r: String)
    ensures
        r@ == path_join(a@, b@),
{
    let bs = chars_of(b);
    let cs = chars_of(a);
    if bs.len() > 0 && bs[0] == '/' {
        owned(b)
    } else if cs.len() == 0 {
        owned(b)
    } else if cs[cs.len() - 1] == '/' {
        concat(a, b)
    } else {
        let mut r = concat(a, "/");
        r.append(b);
        proof {
            reveal_strlit("/");
        }
        r
    }
}

/// `lean-dup install-worker --toolchain <id>`, the command that produces a
/// missing or stale worker for `id`.
pub fn install_cmd(id: &ToolchainId) -> (r: String)
    ensures
        r@ == "lean-dup install-worker --toolchain "@ + id@,
{
    concat("lean-dup install-worker --toolchain ", id.as_str())
}

/// Proof that the pinned id's label is `PINNED_TOOLCHAIN`.
pub proof fn lemma_pinned_label()
    ensures
        elan_prefix() + "v4.32.0-rc1"@ == PINNED_TOOLCHAIN@,
{
    reveal_strlit("leanprover/lean4:");
    reveal_strlit("v4.32.0-rc1");
    reveal_strlit("leanprover/lean4:v4.32.0-rc1");
    assert(elan_prefix() + "v4.32.0-rc1"@ =~= PINNED_TOOLCHAIN@);
}


/// Whether the recorded sidecar and the current header digest make a worker
/// stale: a readable header whose digest differs from the recorded one.
pub open spec fn header_drift(recorded: Seq<char>, current: Option<Seq<char>>) -> bool {
    current matches Some(c) && c != recorded
}

impl WorkerSidecar {
    /// Build a sidecar from what `install-worker` records: the toolchain, the
    /// `lean.h` digest, the Lean and host versions the worker was built
    /// against, the artifact paths, and the smoke outcome.
    pub fn new(
        id: &ToolchainId,
        header_digest: String,
        lean_version: String,
        host_version: String,
        lean_sysroot: String,
        capability_manifest: String,
        capability_dylib: String,
        smoke: SmokeOutcome,
    ) -> (r: WorkerSidecar)
        ensures
            r.toolchain_view() == id@,
            r.header_digest_view() == header_digest@,
            r.lean_version_view() == lean_version@,
            r.host_version_view() == host_version@,
            r.lean_sysroot_view() == lean_sysroot@,
            r.capability_manifest_view() == capability_manifest@,
            r.capability_dylib_view() == capability_dylib@,
            r.smoke_view() == Some(smoke),
    {
        WorkerSidecar {
            toolchain: owned(id.as_str()),
            header_digest,
            built_against_lean_version: lean_version,
            built_by_host_version: host_version,
            lean_sysroot,
            capability_manifest,
            capability_dylib,
            smoke: Some(smoke),
        }
    }

    /// Rebuild a sidecar from a stored record, fields as stored; `smoke` is
    /// `None` for a record that predates the smoke test.
    pub fn from_record(
        toolchain: String,
        header_digest: String,
        lean_version: String,
        host_version: String,
        lean_sysroot: String,
        capability_manifest: String,
        capability_dylib: String,
        smoke: Option<SmokeOutcome>,
    ) -> (r: WorkerSidecar)
        ensures
            r.toolchain_view() == toolchain@,
            r.header_digest_view() == header_digest@,
            r.lean_version_view() == lean_version@,
            r.host_version_view() == host_version@,
            r.lean_sysroot_view() == lean_sysroot@,
            r.capability_manifest_view() == capability_manifest@,
            r.capability_dylib_view() == capability_dylib@,
            r.smoke_view() == smoke,
    {
        WorkerSidecar {
            toolchain,
            header_digest,
            built_against_lean_version: lean_version,
            built_by_host_version: host_version,
            lean_sysroot,
            capability_manifest,
            capability_dylib,
            smoke,
        }
    }

    pub closed spec fn toolchain_view(&self) -> Seq<char> {
        self.toolchain@
    }

    pub closed spec fn header_digest_view(&self) -> Seq<char> {
        self.header_digest@
    }

    pub closed spec fn lean_version_view(&self) -> Seq<char> {
        self.built_against_lean_version@
    }

    pub closed spec fn host_version_view(&self) -> Seq<char> {
        self.built_by_host_version@
    }

    pub closed spec fn lean_sysroot_view(&self) -> Seq<char> {
        self.lean_sysroot@
    }

    pub closed spec fn capability_manifest_view(&self) -> Seq<char> {
        self.capability_manifest@
    }

    pub closed spec fn capability_dylib_view(&self) -> Seq<char> {
        self.capability_dylib@
    }

    pub closed spec fn smoke_view(&self) -> Option<SmokeOutcome> {
        self.smoke
    }

    /// Whether the recorded build-time digest equals `current_digest`.
    pub fn header_matches(&self, current_digest: &str) -> (r: bool)
        ensures
            r == (self.header_digest_view() == current_digest@),
    {
        str_eq(self.header_digest.as_str(), current_digest)
    }

    /// The recorded post-build smoke outcome, if any.
    pub fn smoke(&self) -> (r: Option<&SmokeOutcome>)
        ensures
            r matches Some(o) ==> self.smoke_view() == Some(*o),
            r is None ==> self.smoke_view() is None,
    {
        self.smoke.as_ref()
    }

    /// The host version that built this worker (`""` for an old record).
    pub fn host_version(&self) -> (r: &str)
        ensures
            r@ == self.host_version_view(),
    {
        self.built_by_host_version.as_str()
    }

    pub fn toolchain(&self) -> (r: &str)
        ensures
            r@ == self.toolchain_view(),
    {
        self.toolchain.as_str()
    }

    pub fn header_digest(&self) -> (r: &str)
        ensures
            r@ == self.header_digest_view(),
    {
        self.header_digest.as_str()
    }

    pub fn lean_version(&self) -> (r: &str)
        ensures
            r@ == self.lean_version_view(),
    {
        self.built_against_lean_version.as_str()
    }

    pub fn lean_sysroot(&self) -> (r: &str)
        ensures
            r@ == self.lean_sysroot_view(),
    {
        self.lean_sysroot.as_str()
    }

    pub fn capability_manifest(&self) -> (r: &str)
        ensures
            r@ == self.capability_manifest_view(),
    {
        self.capability_manifest.as_str()
    }

    pub fn capability_dylib(&self) -> (r: &str)
        ensures
            r@ == self.capability_dylib_view(),
    {
        self.capability_dylib.as_str()
    }
}

/// What resolving an install directory gives: verdicts in order, no sidecar
/// or no binary is `NotInstalled`; header drift is `Stale`; a recorded failed
/// smoke test is `Unusable`; otherwise the artifacts. Each error carries
/// toolchain `id` and its `install-worker` command.
pub open spec fn resolution(
    install_dir: Seq<char>,
    id: Seq<char>,
    sidecar: Option<&WorkerSidecar>,
    worker_child_is_file: bool,
    current_header: Option<Seq<char>>,
    r: Result<InstalledWorker, ProvisionError>,
) -> bool {
    match r {
            Ok(w) => sidecar matches Some(sc) && worker_child_is_file && !header_drift(
                sc.header_digest_view(),
                current_header,
            ) && !(sc.smoke_view() matches Some(SmokeOutcome::Failed { .. }))
                && w.worker_child@ == path_join(install_dir, WORKER_FILE_NAME@)
                && w.capability_manifest@ == sc.capability_manifest_view()
                && w.lean_sysroot@ == sc.lean_sysroot_view(),
            Err(ProvisionError::NotInstalled { toolchain, install_cmd }) => (sidecar is None
                || !worker_child_is_file) && toolchain@ == id && install_cmd@
                == "lean-dup install-worker --toolchain "@ + id,
            Err(ProvisionError::Stale { toolchain, install_cmd }) => sidecar matches Some(sc)
                && worker_child_is_file && header_drift(
                sc.header_digest_view(),
                current_header,
            ) && toolchain@ == id && install_cmd@ == "lean-dup install-worker --toolchain "@
                + id,
            Err(ProvisionError::Unusable { toolchain, detail, install_cmd }) => sidecar matches Some(
                sc,
            ) && worker_child_is_file && !header_drift(
                sc.header_digest_view(),
                current_header,
            ) && sc.smoke_view() == Some(SmokeOutcome::Failed { detail }) && toolchain@ == id
                && install_cmd@ == "lean-dup install-worker --toolchain "@ + id,
        }
}

/// Resolution over a concrete install directory, from what the caller read
/// there: the sidecar (`None` when absent or unparseable), whether the worker
/// binary is a file, and the digest of the recorded sysroot's `lean.h`
/// (`None` when it could not be read, which skips the drift check).
///
/// Verdicts in order: no sidecar or no binary is `NotInstalled`; header
/// drift is `Stale`; a recorded failed smoke test is `Unusable`; otherwise the
/// artifacts are returned.
pub fn resolve_in(
    install_dir: &str,
    id: &ToolchainId,
    sidecar: Option<&WorkerSidecar>,
    worker_child_is_file: bool,
    current_header: Option<String>,
) -> (r: Result<InstalledWorker, ProvisionError>)
    ensures
        resolution(install_dir@, id@, sidecar, worker_child_is_file, opt_view(current_header), r),
{
    let worker_child = join_path(install_dir, WORKER_FILE_NAME);
    let sc = match sidecar {
        Some(sc) => sc,
        None => {
            return Err(
                ProvisionError::NotInstalled { toolchain: id.clone(), install_cmd: install_cmd(id) },
            );
        },
    };
    if !worker_child_is_file {
        return Err(
            ProvisionError::NotInstalled { toolchain: id.clone(), install_cmd: install_cmd(id) },
        );
    }
    if let Some(current) = &current_header {
        if !sc.header_matches(current.as_str()) {
            return Err(
                ProvisionError::Stale { toolchain: id.clone(), install_cmd: install_cmd(id) },
            );
        }
    }
    if let Some(SmokeOutcome::Failed { detail }) = sc.smoke() {
        return Err(
            ProvisionError::Unusable {
                toolchain: id.clone(),
                detail: detail.clone(),
                install_cmd: install_cmd(id),
            },
        );
    }
    Ok(
        InstalledWorker {
            worker_child,
            capability_manifest: owned(sc.capability_manifest()),
            lean_sysroot: owned(sc.lean_sysroot()),
        },
    )
}

/// The install directory of toolchain `id`: the override directory when
/// one is set, else `<install_root>/<id>`.
pub open spec fn install_dir_of(id: Seq<char>, workers_dir_override: Option<Seq<char>>, install_root: Seq<char>) -> Seq<
    char,
> {
    match workers_dir_override {
        Some(o) => o,
        None => path_join(install_root, id),
    }
}

/// Resolve the installed worker for a workspace: its toolchain is the one
/// its `lean-toolchain` text `pin` names (the development pin when absent or
/// unparseable); its install directory is the override directory when one is
/// set, else the toolchain's directory under `install_root`; and the
/// sidecar, binary and current header digest the caller read from that
/// directory decide. Every error names the toolchain and, in its message,
/// the `install-worker` command for it.
pub fn resolve_installed_worker(
    pin: Option<&str>,
    workers_dir_override: Option<String>,
    install_root: &str,
    sidecar: Option<&WorkerSidecar>,
    worker_child_is_file: bool,
    current_header: Option<String>,
) -> (r: Result<InstalledWorker, ProvisionError>)
    ensures
        resolution(
            install_dir_of(
                workspace_toolchain(match pin {
                    Some(t) => Some(t@),
                    None => None,
                }),
                opt_view(workers_dir_override),
                install_root@,
            ),
            workspace_toolchain(match pin {
                Some(t) => Some(t@),
                None => None,
            }),
            sidecar,
            worker_child_is_file,
            opt_view(current_header),
            r,
        ),
        r matches Err(e) ==> provision_message(e).len() >= install_cmd_of(
            workspace_toolchain(match pin {
                Some(t) => Some(t@),
                None => None,
            }),
        ).len() && provision_message(e).skip(
            provision_message(e).len() - install_cmd_of(
                workspace_toolchain(match pin {
                    Some(t) => Some(t@),
                    None => None,
                }),
            ).len(),
        ) == install_cmd_of(
            workspace_toolchain(match pin {
                Some(t) => Some(t@),
                None => None,
            }),
        ),
{
    let id = ToolchainId::for_workspace(pin);
    let dir = install_dir_with(&id, workers_dir_override, install_root);
    let r = resolve_in(dir.as_str(), &id, sidecar, worker_child_is_file, current_header);
    proof {
        if r is Err {
            lemma_message_ends_with_command(r->Err_0);
        }
    }
    r
}

/// `lean-dup install-worker --toolchain <id>`.
pub open spec fn install_cmd_of(id: Seq<char>) -> Seq<char> {
    "lean-dup install-worker --toolchain "@ + id
}

/// Every provisioning message ends with the error's install command.
pub proof fn lemma_message_ends_with_command(e: ProvisionError)
    ensures
        ({
            let m = provision_message(e);
            let c = match e {
                ProvisionError::NotInstalled { install_cmd, .. } => install_cmd@,
                ProvisionError::Stale { install_cmd, .. } => install_cmd@,
                ProvisionError::Unusable { install_cmd, .. } => install_cmd@,
            };
            m.len() >= c.len() && m.skip(m.len() - c.len()) == c
        }),
{
    let m = provision_message(e);
    match e {
        ProvisionError::NotInstalled { toolchain, install_cmd } => {
            let p = "no lean-dup worker is installed for toolchain "@ + toolchain@ + "; run: "@;
            assert(m == p + install_cmd@);
            assert(m.skip(p.len() as int) =~= install_cmd@);
        },
        ProvisionError::Stale { toolchain, install_cmd } => {
            let p = "the lean-dup worker for toolchain "@ + toolchain@
                + " is stale (its lean.h changed since it was built); rebuild it: "@;
            assert(m == p + install_cmd@);
            assert(m.skip(p.len() as int) =~= install_cmd@);
        },
        ProvisionError::Unusable { toolchain, detail, install_cmd } => {
            let p = "the lean-dup worker for toolchain "@ + toolchain@ + " failed its smoke test ("@ + detail@
                + "); rebuild it: "@;
            assert(m == p + install_cmd@);
            assert(m.skip(p.len() as int) =~= install_cmd@);
        },
    }
}

/// Whether an install already holds a usable, header-fresh worker: a
/// sidecar recording a passed smoke test, the binary present, and a readable
/// current header whose digest is the recorded one.
pub open spec fn worker_current(
    sidecar: Option<&WorkerSidecar>,
    worker_child_is_file: bool,
    current_header: Option<Seq<char>>,
) -> bool {
    match sidecar {
        Some(sc) => match current_header {
            Some(h) => worker_child_is_file && sc.smoke_view() == Some(SmokeOutcome::Passed) && h
                == sc.header_digest_view(),
            None => false,
        },
        None => false,
    }
}

/// Decide whether an existing install can be reused as it is, from the
/// sidecar, whether the binary is a file, and the current header digest
/// (`None` when the elan toolchain or its header could not be read).
pub fn worker_is_current(
    sidecar: Option<&WorkerSidecar>,
    worker_child_is_file: bool,
    current_header: Option<String>,
) -> (r: bool)
    ensures
        r == worker_current(sidecar, worker_child_is_file, opt_view(current_header)),
{
    match sidecar {
        None => false,
        Some(sc) => {
            if !worker_child_is_file {
                return false;
            }
            let passed = match sc.smoke() {
                Some(SmokeOutcome::Passed) => true,
                _ => false,
            };
            if !passed {
                return false;
            }
            match current_header {
                Some(h) => sc.header_matches(h.as_str()),
                None => false,
            }
        },
    }
}

/// A toolchain id written in its elan label parses back to the same id.
pub proof fn lemma_parse_elan_label(s: Seq<char>)
    requires
        valid_short_id(s),
    ensures
        parse_toolchain(elan_prefix() + s) == Some(s),
{
    reveal_strlit("leanprover/lean4:");
    let full = elan_prefix() + s;
    assert(full[0] == 'l');
    assert(skip_space_from(full, 0) == 0);
    assert(full[full.len() - 1] == s[s.len() - 1]);
    assert(!is_space(s[s.len() - 1]));
    assert(trim_end_from(full, full.len() as int) == full.len());
    assert(full.subrange(0, full.len() as int) =~= full);
    assert(trim(full) == full);
    assert(full.subrange(0, elan_prefix().len() as int) =~= elan_prefix());
    assert(full.skip(elan_prefix().len() as int) =~= s);
}

/// A bare id without white space, `:` or `/` parses to itself.
pub proof fn lemma_parse_bare_id(s: Seq<char>)
    requires
        valid_short_id(s),
        !has_char(s, ':'),
        !has_char(s, '/'),
    ensures
        parse_toolchain(s) == Some(s),
{
    assert(!is_space(s[0]));
    assert(skip_space_from(s, 0) == 0);
    assert(!is_space(s[s.len() - 1]));
    assert(trim_end_from(s, s.len() as int) == s.len());
    assert(s.subrange(0, s.len() as int) =~= s);
    reveal_strlit("leanprover/lean4:");
    if has_prefix(s, elan_prefix()) {
        assert(s[10] == '/');
    }
}

/// Every id the parser yields is nonempty and free of white space, and its
/// elan label parses back to it.
pub proof fn lemma_parse_round_trip(raw: Seq<char>)
    requires
        parse_toolchain(raw) is Some,
    ensures
        valid_short_id(parse_toolchain(raw)->0),
        parse_toolchain(elan_prefix() + parse_toolchain(raw)->0) == parse_toolchain(raw),
{
    lemma_parse_elan_label(parse_toolchain(raw)->0);
}

} // verus!
