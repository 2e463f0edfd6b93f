//! The staged-extraction protocol, as a state machine.
//!
//! One `unpack` attempt runs an external unpacker inside a private staging
//! directory under the working directory, inspects what it produced, and
//! relocates the result to a collision-free final name.  The decisions live
//! here and are verified; the filesystem and process work is performed by the
//! surrounding application, which matches on the current state, performs the
//! action that state names, and feeds the outcome back as an event.
//!
//! The staging directory is removed or renamed away on every successful run.
//! On a child failure it is deliberately left in place, with its partial
//! contents, for inspection: a failed state is terminal and no state reached
//! from it ever names a removal action.

use vstd::prelude::*;

use crate::errors::ErrorModel;
use crate::errors::UnpackError;
use crate::errors::BadPath;
use crate::errors::BadFormat;
use crate::naming::find_suitable_name;
use crate::naming::resolve;
use crate::unpack_format::find_index;
use crate::unpack_format::UnpackFormat;

verus! {

/// `path` with every trailing `/` removed.
pub open spec fn strip_trailing_slashes(path: Seq<char>) -> Seq<char>
    decreases path.len(),
{
    if path.len() > 0 && path[path.len() - 1] == '/' {
        strip_trailing_slashes(path.drop_last())
    } else {
        path
    }
}

/// The usable filename component of `path` under the library's path model:
/// trailing slashes are ignored and the segment after the last remaining
/// slash is the filename, unless it is empty, `.` or `..`, which name no
/// file.
pub open spec fn file_name_spec(path: Seq<char>) -> Option<Seq<char>> {
    let trimmed = strip_trailing_slashes(path);
    let name = match last_slash(trimmed) {
        Some(k) => trimmed.subrange(k + 1, trimmed.len() as int),
        None => trimmed,
    };
    if name.len() == 0 || name == seq!['.'] || name == seq!['.', '.'] {
        None
    } else {
        Some(name)
    }
}

/// The last index of `/` in `s`, if any.
pub open spec fn last_slash(s: Seq<char>) -> Option<int>
    decreases s.len(),
{
    if s.len() == 0 {
        None
    } else if s[s.len() - 1] == '/' {
        Some(s.len() - 1)
    } else {
        last_slash(s.drop_last())
    }
}

/// The archive path as seen from inside the staging directory, which sits
/// one level below the working directory: a relative path is stepped out of
/// with a leading `../`, an absolute path is left as it is.
pub open spec fn adjusted_path(path: Seq<char>) -> Seq<char> {
    if path.len() > 0 && path[0] == '/' {
        path
    } else {
        seq!['.', '.', '/'] + path
    }
}

/// One position of the staged-extraction protocol.  Every state but the two
/// terminal ones names the single outside action the application must
/// perform next; the outcome comes back as an [`UnpackEvent`].
pub enum UnpackState {
    /// Create a fresh, uniquely named hidden staging directory under the
    /// working directory.
    CreateStaging { program: String, args: Vec<String>, archive_base: String },
    /// Run `program` with `args`, the child's working directory set to the
    /// staging directory and its standard output suppressed, and wait.
    RunChild { program: String, args: Vec<String>, archive_base: String, staging: String },
    /// List the immediate entries of the staging directory.
    ListStaging { archive_base: String, staging: String },
    /// List the names existing in the working directory.  `single` carries
    /// the lone staging entry when there was exactly one.
    PickName { archive_base: String, staging: String, single: Option<String> },
    /// Rename the single extracted entry out of the staging directory to
    /// `dest`.
    PlaceSingle { staging: String, entry: String, dest: String },
    /// Remove the now-empty staging directory.
    CleanupStaging { staging: String, dest: String },
    /// Rename the staging directory itself to `dest`, keeping all extracted
    /// entries together.
    PlaceAll { staging: String, dest: String },
    /// The attempt succeeded; `dest` is the final destination name.
    Done { dest: String },
    /// The attempt failed.  Terminal: no further action, and in particular
    /// no removal of the staging directory, is ever named after a failure.
    Failed { error: UnpackError },
}

/// The outcome of one performed action, fed back into the machine.
pub enum UnpackEvent {
    /// The staging directory was created under the given name.
    StagingCreated { name: String },
    /// The child process exited; `ok` is whether its status was success, and
    /// `code` its exit code when it exited with one.
    ChildExited { ok: bool, code: Option<i32> },
    /// The immediate entry names of the staging directory.
    StagingEntries { entries: Vec<String> },
    /// The entry names existing in the working directory.
    CwdEntries { entries: Vec<String> },
    /// A rename succeeded.
    Renamed,
    /// The staging directory was removed.
    StagingRemoved,
    /// The action failed in the filesystem or at process spawn; carries a
    /// description of the cause.
    IoFailed { message: String },
}

/// The mathematical image of an [`UnpackState`].
pub enum StateModel {
    CreateStaging { program: Seq<char>, args: Seq<Seq<char>>, archive_base: Seq<char> },
    RunChild {
        program: Seq<char>,
        args: Seq<Seq<char>>,
        archive_base: Seq<char>,
        staging: Seq<char>,
    },
    ListStaging { archive_base: Seq<char>, staging: Seq<char> },
    PickName { archive_base: Seq<char>, staging: Seq<char>, single: Option<Seq<char>> },
    PlaceSingle { staging: Seq<char>, entry: Seq<char>, dest: Seq<char> },
    CleanupStaging { staging: Seq<char>, dest: Seq<char> },
    PlaceAll { staging: Seq<char>, dest: Seq<char> },
    Done { dest: Seq<char> },
    Failed { error: ErrorModel },
}

/// The mathematical image of an [`UnpackEvent`].
pub enum EventModel {
    StagingCreated { name: Seq<char> },
    ChildExited { ok: bool, code: Option<i32> },
    StagingEntries { entries: Seq<Seq<char>> },
    CwdEntries { entries: Seq<Seq<char>> },
    Renamed,
    StagingRemoved,
    IoFailed { message: Seq<char> },
}

impl UnpackState {
    /// The model of this state.
    pub open spec fn model(self) -> StateModel {
        match self {
            UnpackState::CreateStaging { program, args, archive_base } => {
                StateModel::CreateStaging {
                    program: program@,
                    args: args.deep_view(),
                    archive_base: archive_base@,
                }
            },
            UnpackState::RunChild { program, args, archive_base, staging } => {
                StateModel::RunChild {
                    program: program@,
                    args: args.deep_view(),
                    archive_base: archive_base@,
                    staging: staging@,
                }
            },
            UnpackState::ListStaging { archive_base, staging } => {
                StateModel::ListStaging { archive_base: archive_base@, staging: staging@ }
            },
            UnpackState::PickName { archive_base, staging, single } => {
                StateModel::PickName {
                    archive_base: archive_base@,
                    staging: staging@,
                    single: match single {
                        Some(e) => Some(e@),
                        None => None,
                    },
                }
            },
            UnpackState::PlaceSingle { staging, entry, dest } => {
                StateModel::PlaceSingle { staging: staging@, entry: entry@, dest: dest@ }
            },
            UnpackState::CleanupStaging { staging, dest } => {
                StateModel::CleanupStaging { staging: staging@, dest: dest@ }
            },
            UnpackState::PlaceAll { staging, dest } => {
                StateModel::PlaceAll { staging: staging@, dest: dest@ }
            },
            UnpackState::Done { dest } => StateModel::Done { dest: dest@ },
            UnpackState::Failed { error } => StateModel::Failed { error: error.model() },
        }
    }
}

impl UnpackEvent {
    /// The model of this event.
    pub open spec fn model(self) -> EventModel {
        match self {
            UnpackEvent::StagingCreated { name } => EventModel::StagingCreated { name: name@ },
            UnpackEvent::ChildExited { ok, code } => EventModel::ChildExited { ok, code },
            UnpackEvent::StagingEntries { entries } => {
                EventModel::StagingEntries { entries: entries.deep_view() }
            },
            UnpackEvent::CwdEntries { entries } => {
                EventModel::CwdEntries { entries: entries.deep_view() }
            },
            UnpackEvent::Renamed => EventModel::Renamed,
            UnpackEvent::StagingRemoved => EventModel::StagingRemoved,
            UnpackEvent::IoFailed { message } => EventModel::IoFailed { message: message@ },
        }
    }
}

/// The transition relation of the protocol.  An event that does not answer
/// the pending action leaves the state unchanged; the two terminal states
/// absorb every event.
pub open spec fn step_model(state: StateModel, event: EventModel) -> StateModel {
    match (state, event) {
        (
            StateModel::CreateStaging { program, args, archive_base },
            EventModel::StagingCreated { name },
        ) => StateModel::RunChild { program, args, archive_base, staging: name },
        (
            StateModel::RunChild { program, args, archive_base, staging },
            EventModel::ChildExited { ok, code },
        ) => {
            if ok {
                StateModel::ListStaging { archive_base, staging }
            } else {
                StateModel::Failed { error: ErrorModel::Child(code) }
            }
        },
        (
            StateModel::ListStaging { archive_base, staging },
            EventModel::StagingEntries { entries },
        ) => StateModel::PickName {
            archive_base,
            staging,
            single: if entries.len() == 1 {
                Some(entries[0])
            } else {
                None
            },
        },
        (
            StateModel::PickName { archive_base, staging, single },
            EventModel::CwdEntries { entries },
        ) => {
            let desired = match single {
                Some(e) => e,
                None => archive_base,
            };
            match resolve(desired, entries) {
                Some(dest) => match single {
                    Some(e) => StateModel::PlaceSingle { staging, entry: e, dest },
                    None => StateModel::PlaceAll { staging, dest },
                },
                None => StateModel::Failed { error: ErrorModel::NamingExhausted },
            }
        },
        (StateModel::PlaceSingle { staging, entry, dest }, EventModel::Renamed) => {
            StateModel::CleanupStaging { staging, dest }
        },
        (StateModel::CleanupStaging { staging, dest }, EventModel::StagingRemoved) => {
            StateModel::Done { dest }
        },
        (StateModel::PlaceAll { staging, dest }, EventModel::Renamed) => {
            StateModel::Done { dest }
        },
        (StateModel::CreateStaging { program, args, archive_base }, EventModel::IoFailed {
            message,
        }) => StateModel::Failed { error: ErrorModel::Io(message) },
        (
            StateModel::RunChild { program, args, archive_base, staging },
            EventModel::IoFailed { message },
        ) => StateModel::Failed { error: ErrorModel::Io(message) },
        (StateModel::ListStaging { archive_base, staging }, EventModel::IoFailed { message }) => {
            StateModel::Failed { error: ErrorModel::Io(message) }
        },
        (
            StateModel::PickName { archive_base, staging, single },
            EventModel::IoFailed { message },
        ) => StateModel::Failed { error: ErrorModel::Io(message) },
        (StateModel::PlaceSingle { staging, entry, dest }, EventModel::IoFailed { message }) => {
            StateModel::Failed { error: ErrorModel::Io(message) }
        },
        (StateModel::CleanupStaging { staging, dest }, EventModel::IoFailed { message }) => {
            StateModel::Failed { error: ErrorModel::Io(message) }
        },
        (StateModel::PlaceAll { staging, dest }, EventModel::IoFailed { message }) => {
            StateModel::Failed { error: ErrorModel::Io(message) }
        },
        (s, _) => s,
    }
}

/// What starting an attempt yields: a bad-path error when the path has no
/// usable filename, a bad-format error when no rule handles the filename,
/// and otherwise the initial state, carrying the resolved rule's program,
/// its fixed arguments followed by the adjusted archive path, and the
/// archive's suffix-stripped base name.
pub open spec fn start_model(formats: Seq<UnpackFormat>, path: Seq<char>) -> Result<
    StateModel,
    ErrorModel,
> {
    match file_name_spec(path) {
        None => Err(ErrorModel::Arg(path)),
        Some(name) => match find_index(formats, name) {
            None => Err(ErrorModel::Format(path)),
            Some(i) => {
                let fmt = formats[i];
                Ok(
                    StateModel::CreateStaging {
                        program: fmt.invocation.deep_view()[0],
                        args: fmt.invocation.deep_view().skip(1) + seq![adjusted_path(path)],
                        archive_base: name.subrange(
                            0,
                            name.len() - fmt.extension@.len(),
                        ),
                    },
                )
            },
        },
    }
}

/// `strip_trailing_slashes(s)` is the prefix of `s` up to `end`, when
/// everything from `end` on is slashes and nothing at `end - 1` is.
proof fn lemma_strip_is_prefix(s: Seq<char>, end: int)
    requires
        0 <= end <= s.len(),
        forall|k: int| end <= k < s.len() ==> s[k] == '/',
        end > 0 ==> s[end - 1] != '/',
    ensures
        strip_trailing_slashes(s) == s.subrange(0, end),
    decreases s.len(),
{
    if s.len() == end {
        assert(s.subrange(0, end) =~= s);
    } else {
        assert(s[s.len() - 1] == '/');
        assert(s.drop_last() =~= s.subrange(0, s.len() - 1));
        lemma_strip_is_prefix(s.drop_last(), end);
    }
}

/// `last_slash(s)` is `j - 1`, when nothing from `j` on is a slash and the
/// character at `j - 1` is one (or `None`, when `j` is zero).
proof fn lemma_last_slash_at(s: Seq<char>, j: int)
    requires
        0 <= j <= s.len(),
        forall|k: int| j <= k < s.len() ==> s[k] != '/',
        j > 0 ==> s[j - 1] == '/',
    ensures
        last_slash(s) == if j == 0 {
            None::<int>
        } else {
            Some(j - 1)
        },
    decreases s.len(),
{
    if s.len() > 0 && s[s.len() - 1] != '/' {
        assert(s.drop_last() =~= s.subrange(0, s.len() - 1));
        assert(j < s.len());
        lemma_last_slash_at(s.drop_last(), j);
    }
}

/// The usable filename component of `path`: the segment after the last
/// slash, trailing slashes ignored; `None` when that segment is empty, `.`
/// or `..`.
pub fn file_name_of(path: &str) -> (r: Option<String>)
    ensures
        match r {
            Some(name) => file_name_spec(path@) == Some(name@),
            None => file_name_spec(path@) is None,
        },
{
    let len = path.unicode_len();
    let mut end = len;
    while end > 0 && path.get_char(end - 1) == '/'
        invariant
            0 <= end <= len == path@.len(),
            forall|k: int| end <= k < len ==> path@[k] == '/',
        decreases end,
    {
        end = end - 1;
    }
    proof {
        lemma_strip_is_prefix(path@, end as int);
    }
    let ghost trimmed = strip_trailing_slashes(path@);
    let mut j = end;
    while j > 0 && path.get_char(j - 1) != '/'
        invariant
            0 <= j <= end <= path@.len(),
            forall|k: int| j <= k < end ==> path@[k] != '/',
        decreases j,
    {
        j = j - 1;
    }
    proof {
        lemma_last_slash_at(trimmed, j as int);
        if j > 0 {
            assert(trimmed.subrange(j as int, end as int) =~= path@.subrange(
                j as int,
                end as int,
            ));
        }
    }
    let ghost name = path@.subrange(j as int, end as int);
    proof {
        assert(match last_slash(trimmed) {
            Some(k) => trimmed.subrange(k + 1, trimmed.len() as int) =~= name,
            None => trimmed =~= name,
        });
    }
    if end == j {
        return None;
    }
    if end - j == 1 && path.get_char(j) == '.' {
        proof {
            assert(name =~= seq!['.']);
        }
        return None;
    }
    if end - j == 2 && path.get_char(j) == '.' && path.get_char(j + 1) == '.' {
        proof {
            assert(name =~= seq!['.', '.']);
        }
        return None;
    }
    proof {
        assert(name.len() >= 1);
        if name == seq!['.'] {
            assert(name[0] == '.');
        }
        if name == seq!['.', '.'] {
            assert(name[0] == '.' && name[1] == '.');
        }
    }
    Some(String::from_str(path.substring_char(j, end)))
}

/// Whether every rule of the registry is well formed: a non-empty extension
/// and a non-empty invocation.
pub open spec fn registry_wf(formats: Seq<UnpackFormat>) -> bool {
    forall|i: int| 0 <= i < formats.len() ==> crate::unpack_format::wf_format(#[trigger] formats[i])
}

/// Runtime test of [`registry_wf`], so that an unverified caller can
/// establish the executor's precondition before starting an attempt.
pub fn check_registry(formats: &Vec<UnpackFormat>) -> (r: bool)
    ensures
        r == registry_wf(formats@),
{
    let n = formats.len();
    let mut i: usize = 0;
    while i < n
        invariant
            n == formats@.len(),
            0 <= i <= n,
            forall|k: int| 0 <= k < i ==> crate::unpack_format::wf_format(#[trigger] formats@[k]),
        decreases n - i,
    {
        if formats[i].extension.as_str().unicode_len() == 0 || formats[i].invocation.len() == 0 {
            return false;
        }
        i = i + 1;
    }
    true
}

/// Begin one unpack attempt: resolve the filename, pick the rule, and build
/// the initial state carrying the child invocation and the archive's
/// suffix-stripped base name.  Fails with a bad-path error when the path has
/// no usable filename component, before any filesystem or process work, and
/// with a bad-format error when no rule handles the filename.
pub fn unpack_start(formats: &Vec<UnpackFormat>, path: &str) -> (r: Result<
    UnpackState,
    UnpackError,
>)
    requires
        registry_wf(formats@),
    ensures
        match r {
            Ok(state) => start_model(formats@, path@) == Ok::<StateModel, ErrorModel>(
                state.model(),
            ),
            Err(e) => start_model(formats@, path@) == Err::<StateModel, ErrorModel>(e.model()),
        },
{
    let name = match file_name_of(path) {
        Some(n) => n,
        None => {
            return Err(UnpackError::Arg(BadPath::new(String::from_str(path))));
        },
    };
    let fmt = match UnpackFormat::find(formats, name.as_str()) {
        Some(f) => f,
        None => {
            return Err(UnpackError::Format(BadFormat::new(String::from_str(path))));
        },
    };
    let ghost idx = find_index(formats@, name@)->0;
    proof {
        crate::unpack_format::lemma_find_index_first_match(formats@, name@);
    }
    let name_len = name.as_str().unicode_len();
    let ext_len = fmt.extension.as_str().unicode_len();
    let archive_base = String::from_str(name.as_str().substring_char(0, name_len - ext_len));
    let program = fmt.invocation[0].clone();
    let mut args: Vec<String> = Vec::new();
    let inv_len = fmt.invocation.len();
    let mut i: usize = 1;
    while i < inv_len
        invariant
            1 <= i <= inv_len == fmt.invocation@.len(),
            args@.len() == i - 1,
            args.deep_view() =~= fmt.invocation.deep_view().subrange(1, i as int),
        decreases inv_len - i,
    {
        let ghost pre_v = args@;
        let ghost pre_d = args.deep_view();
        let x = fmt.invocation[i].clone();
        proof {
            assert(x@ == fmt.invocation@[i as int]@);
        }
        args.push(x);
        proof {
            assert forall|k: int| 0 <= k < args@.len() implies args.deep_view()[k]
                == fmt.invocation.deep_view().subrange(1, i as int + 1)[k] by {
                assert(args.deep_view()[k] == args@[k].deep_view());
                if k < pre_v.len() {
                    assert(args@[k] == pre_v[k]);
                    assert(pre_d[k] == pre_v[k].deep_view());
                    assert(pre_d[k] == fmt.invocation.deep_view().subrange(1, i as int)[k]);
                } else {
                    assert(args@[k] == x);
                }
            }
            assert(args.deep_view() =~= fmt.invocation.deep_view().subrange(1, i as int + 1));
        }
        i = i + 1;
    }
    let adj = if path.unicode_len() > 0 && path.get_char(0) == '/' {
        String::from_str(path)
    } else {
        let mut a = String::from_str("../");
        a.append(path);
        proof {
            reveal_strlit("../");
            assert(a@ =~= adjusted_path(path@));
        }
        a
    };
    args.push(adj);
    let state = UnpackState::CreateStaging { program, args, archive_base };
    proof {
        let fmt_s = formats@[idx];
        assert(args.deep_view() =~= fmt_s.invocation.deep_view().skip(1) + seq![
            adjusted_path(path@),
        ]);
        assert(start_model(formats@, path@) == Ok::<StateModel, ErrorModel>(state.model()));
    }
    Ok(state)
}

/// Advance the machine by one event.  The result is exactly what the
/// transition relation [`step_model`] gives for the models of the state and
/// the event.
pub fn unpack_step(state: UnpackState, event: UnpackEvent) -> (r: UnpackState)
    ensures
        r.model() == step_model(state.model(), event.model()),
{
    match (state, event) {
        (
            UnpackState::CreateStaging { program, args, archive_base },
            UnpackEvent::StagingCreated { name },
        ) => UnpackState::RunChild { program, args, archive_base, staging: name },
        (
            UnpackState::RunChild { program, args, archive_base, staging },
            UnpackEvent::ChildExited { ok, code },
        ) => {
            if ok {
                UnpackState::ListStaging { archive_base, staging }
            } else {
                UnpackState::Failed { error: UnpackError::Child(code) }
            }
        },
        (
            UnpackState::ListStaging { archive_base, staging },
            UnpackEvent::StagingEntries { entries },
        ) => {
            let single = if entries.len() == 1 {
                Some(entries[0].clone())
            } else {
                None
            };
            UnpackState::PickName { archive_base, staging, single }
        },
        (
            UnpackState::PickName { archive_base, staging, single },
            UnpackEvent::CwdEntries { entries },
        ) => {
            match single {
                Some(entry) => match find_suitable_name(&entry, &entries) {
                    Ok(dest) => UnpackState::PlaceSingle { staging, entry, dest },
                    Err(_) => UnpackState::Failed { error: UnpackError::NamingExhausted },
                },
                None => match find_suitable_name(&archive_base, &entries) {
                    Ok(dest) => UnpackState::PlaceAll { staging, dest },
                    Err(_) => UnpackState::Failed { error: UnpackError::NamingExhausted },
                },
            }
        },
        (UnpackState::PlaceSingle { staging, entry, dest }, UnpackEvent::Renamed) => {
            UnpackState::CleanupStaging { staging, dest }
        },
        (UnpackState::CleanupStaging { staging, dest }, UnpackEvent::StagingRemoved) => {
            UnpackState::Done { dest }
        },
        (UnpackState::PlaceAll { staging, dest }, UnpackEvent::Renamed) => {
            UnpackState::Done { dest }
        },
        (UnpackState::CreateStaging { program, args, archive_base }, UnpackEvent::IoFailed {
            message,
        }) => UnpackState::Failed { error: UnpackError::Io(message) },
        (
            UnpackState::RunChild { program, args, archive_base, staging },
            UnpackEvent::IoFailed { message },
        ) => UnpackState::Failed { error: UnpackError::Io(message) },
        (UnpackState::ListStaging { archive_base, staging }, UnpackEvent::IoFailed {
            message,
        }) => UnpackState::Failed { error: UnpackError::Io(message) },
        (UnpackState::PickName { archive_base, staging, single }, UnpackEvent::IoFailed {
            message,
        }) => UnpackState::Failed { error: UnpackError::Io(message) },
        (UnpackState::PlaceSingle { staging, entry, dest }, UnpackEvent::IoFailed {
            message,
        }) => UnpackState::Failed { error: UnpackError::Io(message) },
        (UnpackState::CleanupStaging { staging, dest }, UnpackEvent::IoFailed { message }) => {
            UnpackState::Failed { error: UnpackError::Io(message) }
        },
        (UnpackState::PlaceAll { staging, dest }, UnpackEvent::IoFailed { message }) => {
            UnpackState::Failed { error: UnpackError::Io(message) }
        },
        (s, _) => s,
    }
}

/// The observable success line: `unpacked into "<name>"`.
pub fn success_line(name: &str) -> (r: String)
    ensures
        r@ == "unpacked into \""@ + name@ + "\""@,
{
    let mut s = String::from_str("unpacked into \"");
    s.append(name);
    s.append("\"");
    proof {
        assert(s@ =~= "unpacked into \""@ + name@ + "\""@);
    }
    s
}

/// Single-entry collapse: when the staging directory holds exactly one
/// entry, the machine renames that entry itself out of the staging area,
/// under a name resolved from the entry's own name, and then removes the
/// staging directory — the extra directory layer never reaches the final
/// result.
pub proof fn lemma_single_entry_collapse(
    archive_base: Seq<char>,
    staging: Seq<char>,
    entries: Seq<Seq<char>>,
    existing: Seq<Seq<char>>,
)
    requires
        entries.len() == 1,
        resolve(entries[0], existing) is Some,
    ensures
        ({
            let listed = step_model(
                StateModel::ListStaging { archive_base, staging },
                EventModel::StagingEntries { entries },
            );
            step_model(listed, EventModel::CwdEntries { entries: existing })
                == StateModel::PlaceSingle {
                staging,
                entry: entries[0],
                dest: resolve(entries[0], existing)->0,
            }
        }),
{
}

/// Multi-entry case: when the staging directory holds zero or several
/// entries, the machine renames the staging directory itself, keeping every
/// produced entry together, under a name resolved from the archive's base
/// name.
pub proof fn lemma_multi_entry_keeps_staging(
    archive_base: Seq<char>,
    staging: Seq<char>,
    entries: Seq<Seq<char>>,
    existing: Seq<Seq<char>>,
)
    requires
        entries.len() != 1,
        resolve(archive_base, existing) is Some,
    ensures
        ({
            let listed = step_model(
                StateModel::ListStaging { archive_base, staging },
                EventModel::StagingEntries { entries },
            );
            step_model(listed, EventModel::CwdEntries { entries: existing })
                == StateModel::PlaceAll {
                staging,
                dest: resolve(archive_base, existing)->0,
            }
        }),
{
}

/// A child that exits unsuccessfully fails the attempt with its exit status,
/// and a failed attempt is terminal: no event moves the machine out of the
/// failed state, so the state naming the staging directory's removal is
/// never reached and the staging directory survives with its partial
/// contents.
pub proof fn lemma_child_failure_keeps_staging(
    program: Seq<char>,
    args: Seq<Seq<char>>,
    archive_base: Seq<char>,
    staging: Seq<char>,
    code: Option<i32>,
)
    ensures
        (step_model(
            StateModel::RunChild { program, args, archive_base, staging },
            EventModel::ChildExited { ok: false, code },
        ) == (StateModel::Failed { error: ErrorModel::Child(code) })),
        (forall|error: ErrorModel, event: EventModel|
            step_model(StateModel::Failed { error }, event) == (StateModel::Failed { error })),
{
    assert forall|error: ErrorModel, event: EventModel|
        step_model(StateModel::Failed { error }, event) == StateModel::Failed {
        error,
    } by {
        let s = StateModel::Failed { error };
        assert(step_model(s, event) == s);
    }
}

} // verus!
