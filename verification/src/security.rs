//! Decisions of the hardened file and subprocess layer: output caps and
//! deadlines of bounded commands, and the checks applied to `stat` results
//! of files and directories before they are trusted.

use vstd::prelude::*;

verus! {

/// Maximum number of bytes kept from one output stream of a bounded command (64 KiB).
pub const MAX_COMMAND_OUTPUT_BYTES: usize = 65536;

/// File-type bits of `st_mode` (`S_IFMT` on Linux).
pub open spec fn mode_type_mask() -> u32 {
    0o170000
}

/// `st_mode` file type of a directory (`S_IFDIR` on Linux).
pub open spec fn mode_directory() -> u32 {
    0o040000
}

/// `st_mode` file type of a regular file (`S_IFREG` on Linux).
pub open spec fn mode_regular() -> u32 {
    0o100000
}

/// Reads `libc::S_IFMT`, declared in libc as `0o17_0000` for Linux targets.
#[verifier::external_body]
fn libc_s_ifmt() -> (r: u32)
    ensures
        r == mode_type_mask(),
{
    libc::S_IFMT
}

/// Reads `libc::S_IFDIR`, declared in libc as `0o4_0000` for Linux targets.
#[verifier::external_body]
fn libc_s_ifdir() -> (r: u32)
    ensures
        r == mode_directory(),
{
    libc::S_IFDIR
}

/// Reads `libc::S_IFREG`, declared in libc as `0o10_0000` for Linux targets.
#[verifier::external_body]
fn libc_s_ifreg() -> (r: u32)
    ensures
        r == mode_regular(),
{
    libc::S_IFREG
}

/// The stream a chunk of child output was read from.
#[derive(PartialEq, Eq, Structural, Clone, Copy, Debug)]
pub enum OutputStream {
    Stdout,
    Stderr,
}

/// Why a bounded command did not produce a result.
#[derive(Debug)]
pub enum CommandError {
    /// Captured stdout would have grown beyond `MAX_COMMAND_OUTPUT_BYTES`.
    StdoutCapExceeded,
    /// Captured stderr would have grown beyond `MAX_COMMAND_OUTPUT_BYTES`.
    StderrCapExceeded,
    /// Streamed stdout would have grown beyond the caller's byte limit.
    OutputLimitExceeded,
    /// The child had not exited when the deadline passed.
    TimedOut,
    /// The child exited with a non-zero code; `stderr` is what was kept of its error output.
    Failed { code: i32, stderr: Vec<u8> },
}

/// Abstract state of a capturing run.
#[verifier::ext_equal]
pub struct CaptureModel {
    pub stdout: Seq<u8>,
    pub stderr: Seq<u8>,
    pub exited: bool,
    pub exit_code: i32,
}

/// The bookkeeping of a command whose stdout and stderr are captured in
/// memory under a monotonic deadline. The caller polls the child, feeds every
/// chunk it reads, and stops when `is_finished` holds or the deadline passes.
pub struct BoundedCapture {
    stdout: Vec<u8>,
    stderr: Vec<u8>,
    exited: bool,
    exit_code: i32,
}

impl View for BoundedCapture {
    type V = CaptureModel;

    closed spec fn view(&self) -> CaptureModel {
        CaptureModel {
            stdout: self.stdout@,
            stderr: self.stderr@,
            exited: self.exited,
            exit_code: self.exit_code,
        }
    }
}

/// Exit code recorded for a status: the code, or -1 when the child was ended by a signal.
pub open spec fn status_code(code: Option<i32>) -> i32 {
    match code {
        Some(c) => c,
        None => -1i32,
    }
}

impl BoundedCapture {
    #[verifier::type_invariant]
    spec fn within_cap(self) -> bool {
        &&& self.stdout@.len() <= MAX_COMMAND_OUTPUT_BYTES
        &&& self.stderr@.len() <= MAX_COMMAND_OUTPUT_BYTES
    }

    /// A fresh run: nothing captured, child still running.
    pub fn new() -> (r: Self)
        ensures
            r@.stdout == Seq::<u8>::empty(),
            r@.stderr == Seq::<u8>::empty(),
            !r@.exited,
            r@.exit_code == -1,
    {
        BoundedCapture { stdout: Vec::new(), stderr: Vec::new(), exited: false, exit_code: -1 }
    }

    /// Records that the child exited with `code` (`None` when it has no code).
    /// The first recorded exit wins.
    pub fn record_exit(&mut self, code: Option<i32>)
        ensures
            old(self)@.exited ==> final(self)@ == old(self)@,
            !old(self)@.exited ==> final(self)@ == (CaptureModel {
                exited: true,
                exit_code: status_code(code),
                ..old(self)@
            }),
    {
        proof {
            use_type_invariant(&*self);
        }
        if !self.exited {
            self.exited = true;
            self.exit_code = match code {
                Some(c) => c,
                None => -1,
            };
        }
    }

    /// Accepts a chunk read from one stream. The chunk is refused, and the
    /// state left unchanged, exactly when the stream's capture would exceed
    /// `MAX_COMMAND_OUTPUT_BYTES`.
    pub fn accept_chunk(&mut self, stream: OutputStream, chunk: &[u8]) -> (r: Result<(), CommandError>)
        ensures
            stream == OutputStream::Stdout ==> {
                if old(self)@.stdout.len() + chunk@.len() > MAX_COMMAND_OUTPUT_BYTES {
                    r matches Err(CommandError::StdoutCapExceeded) && final(self)@ == old(self)@
                } else {
                    r is Ok && final(self)@ == (CaptureModel { stdout: old(self)@.stdout + chunk@, ..old(self)@ })
                }
            },
            stream == OutputStream::Stderr ==> {
                if old(self)@.stderr.len() + chunk@.len() > MAX_COMMAND_OUTPUT_BYTES {
                    r matches Err(CommandError::StderrCapExceeded) && final(self)@ == old(self)@
                } else {
                    r is Ok && final(self)@ == (CaptureModel { stderr: old(self)@.stderr + chunk@, ..old(self)@ })
                }
            },
            final(self)@.stdout.len() <= MAX_COMMAND_OUTPUT_BYTES,
            final(self)@.stderr.len() <= MAX_COMMAND_OUTPUT_BYTES,
    {
        proof {
            use_type_invariant(&*self);
        }
        match stream {
            OutputStream::Stdout => {
                if chunk.len() > MAX_COMMAND_OUTPUT_BYTES - self.stdout.len() {
                    return Err(CommandError::StdoutCapExceeded);
                }
                let mut buf: Vec<u8> = Vec::new();
                std::mem::swap(&mut buf, &mut self.stdout);
                buf.extend_from_slice(chunk);
                self.stdout = buf;
            },
            OutputStream::Stderr => {
                if chunk.len() > MAX_COMMAND_OUTPUT_BYTES - self.stderr.len() {
                    return Err(CommandError::StderrCapExceeded);
                }
                let mut buf: Vec<u8> = Vec::new();
                std::mem::swap(&mut buf, &mut self.stderr);
                buf.extend_from_slice(chunk);
                self.stderr = buf;
            },
        }
        proof {
            use_type_invariant(&*self);
            assert(self@ =~= (match stream {
                OutputStream::Stdout => CaptureModel { stdout: old(self)@.stdout + chunk@, ..old(self)@ },
                OutputStream::Stderr => CaptureModel { stderr: old(self)@.stderr + chunk@, ..old(self)@ },
            }));
        }
        Ok(())
    }

    /// Whether the polling loop may stop: the child has exited.
    pub fn is_finished(&self) -> (r: bool)
        ensures
            r == self@.exited,
    {
        self.exited
    }

    /// The outcome once polling has stopped: a timeout when the child never
    /// exited, otherwise its exit code and both captured streams.
    pub fn finish(self) -> (r: Result<(i32, Vec<u8>, Vec<u8>), CommandError>)
        ensures
            !self@.exited ==> r matches Err(CommandError::TimedOut),
            self@.exited ==> (r matches Ok((code, out, err)) && code == self@.exit_code
                && out@ == self@.stdout && err@ == self@.stderr),
            r matches Ok((code, out, err)) ==> out@.len() <= MAX_COMMAND_OUTPUT_BYTES
                && err@.len() <= MAX_COMMAND_OUTPUT_BYTES,
    {
        proof {
            use_type_invariant(&self);
        }
        if !self.exited {
            return Err(CommandError::TimedOut);
        }
        let BoundedCapture { stdout, stderr, exited: _, exit_code } = self;
        Ok((exit_code, stdout, stderr))
    }
}

/// Abstract state of a run whose stdout is streamed into a file.
#[verifier::ext_equal]
pub struct StreamModel {
    pub max_bytes: nat,
    pub written: nat,
    pub stderr: Seq<u8>,
    pub exited: bool,
    pub exit_code: i32,
    pub stdout_closed: bool,
}

/// The bookkeeping of a command whose stdout is copied into a target file
/// under a hard byte limit and a monotonic deadline. Stderr is kept up to
/// `MAX_COMMAND_OUTPUT_BYTES`; chunks that would pass that cap are dropped.
pub struct StreamCapture {
    max_bytes: usize,
    written: usize,
    stderr: Vec<u8>,
    exited: bool,
    exit_code: i32,
    stdout_closed: bool,
}

impl View for StreamCapture {
    type V = StreamModel;

    closed spec fn view(&self) -> StreamModel {
        StreamModel {
            max_bytes: self.max_bytes as nat,
            written: self.written as nat,
            stderr: self.stderr@,
            exited: self.exited,
            exit_code: self.exit_code,
            stdout_closed: self.stdout_closed,
        }
    }
}

impl StreamCapture {
    #[verifier::type_invariant]
    spec fn within_limits(self) -> bool {
        &&& self.written <= self.max_bytes
        &&& self.stderr@.len() <= MAX_COMMAND_OUTPUT_BYTES
    }

    /// A fresh run that may write at most `max_bytes` bytes of stdout.
    pub fn new(max_bytes: usize) -> (r: Self)
        ensures
            r@ == (StreamModel {
                max_bytes: max_bytes as nat,
                written: 0,
                stderr: Seq::<u8>::empty(),
                exited: false,
                exit_code: -1i32,
                stdout_closed: false,
            }),
    {
        let r = StreamCapture {
            max_bytes,
            written: 0,
            stderr: Vec::new(),
            exited: false,
            exit_code: -1,
            stdout_closed: false,
        };
        proof {
            assert(r@ =~= (StreamModel {
                max_bytes: max_bytes as nat,
                written: 0,
                stderr: Seq::<u8>::empty(),
                exited: false,
                exit_code: -1i32,
                stdout_closed: false,
            }));
        }
        r
    }

    /// Records that the child exited with `code`; the first recorded exit wins.
    pub fn record_exit(&mut self, code: Option<i32>)
        ensures
            old(self)@.exited ==> final(self)@ == old(self)@,
            !old(self)@.exited ==> final(self)@ == (StreamModel {
                exited: true,
                exit_code: status_code(code),
                ..old(self)@
            }),
    {
        proof {
            use_type_invariant(&*self);
        }
        if !self.exited {
            self.exited = true;
            self.exit_code = match code {
                Some(c) => c,
                None => -1,
            };
        }
    }

    /// Decides whether a stdout chunk of `len` bytes may be written to the
    /// target file. It is refused, leaving the state unchanged, exactly when
    /// the total would pass the byte limit; otherwise it is counted.
    pub fn accept_stdout(&mut self, len: usize) -> (r: Result<(), CommandError>)
        ensures
            old(self)@.written + len > old(self)@.max_bytes ==> (r matches Err(
                CommandError::OutputLimitExceeded,
            ) && final(self)@ == old(self)@),
            old(self)@.written + len <= old(self)@.max_bytes ==> (r is Ok && final(self)@
                == (StreamModel { written: (old(self)@.written + len) as nat, ..old(self)@ })),
            final(self)@.written <= final(self)@.max_bytes,
    {
        proof {
            use_type_invariant(&*self);
        }
        if len > self.max_bytes - self.written {
            return Err(CommandError::OutputLimitExceeded);
        }
        self.written = self.written + len;
        Ok(())
    }

    /// Records that stdout reached end of file.
    pub fn close_stdout(&mut self)
        ensures
            final(self)@ == (StreamModel { stdout_closed: true, ..old(self)@ }),
    {
        proof {
            use_type_invariant(&*self);
        }
        self.stdout_closed = true;
    }

    /// Keeps a stderr chunk when it fits under `MAX_COMMAND_OUTPUT_BYTES`,
    /// and drops it otherwise.
    pub fn accept_stderr(&mut self, chunk: &[u8])
        ensures
            old(self)@.stderr.len() + chunk@.len() <= MAX_COMMAND_OUTPUT_BYTES ==> final(self)@
                == (StreamModel { stderr: old(self)@.stderr + chunk@, ..old(self)@ }),
            old(self)@.stderr.len() + chunk@.len() > MAX_COMMAND_OUTPUT_BYTES ==> final(self)@
                == old(self)@,
            final(self)@.stderr.len() <= MAX_COMMAND_OUTPUT_BYTES,
    {
        proof {
            use_type_invariant(&*self);
        }
        if chunk.len() <= MAX_COMMAND_OUTPUT_BYTES - self.stderr.len() {
            let mut buf: Vec<u8> = Vec::new();
            std::mem::swap(&mut buf, &mut self.stderr);
            buf.extend_from_slice(chunk);
            self.stderr = buf;
            proof {
                assert(self@ =~= (StreamModel { stderr: old(self)@.stderr + chunk@, ..old(self)@ }));
            }
        }
    }

    /// Whether the polling loop may stop: the child exited and stdout is closed.
    pub fn is_finished(&self) -> (r: bool)
        ensures
            r == (self@.exited && self@.stdout_closed),
    {
        self.exited && self.stdout_closed
    }

    /// The outcome once polling has stopped: a timeout when the child never
    /// exited, a failure carrying the kept stderr when it exited with a
    /// non-zero code, and otherwise the number of bytes written.
    pub fn finish(self) -> (r: Result<usize, CommandError>)
        ensures
            !self@.exited ==> r matches Err(CommandError::TimedOut),
            self@.exited && self@.exit_code != 0 ==> (r matches Err(CommandError::Failed { code, stderr })
                && code == self@.exit_code && stderr@ == self@.stderr),
            self@.exited && self@.exit_code == 0 ==> (r matches Ok(n) && n == self@.written),
            r matches Ok(n) ==> n <= self@.max_bytes,
    {
        proof {
            use_type_invariant(&self);
        }
        if !self.exited {
            return Err(CommandError::TimedOut);
        }
        if self.exit_code != 0 {
            let StreamCapture { max_bytes: _, written: _, stderr, exited: _, exit_code, stdout_closed: _ } = self;
            return Err(CommandError::Failed { code: exit_code, stderr });
        }
        Ok(self.written)
    }
}

/// Why an opened file is not trusted.
#[derive(PartialEq, Eq, Structural, Clone, Copy, Debug)]
pub enum OpenFileError {
    NotRegularFile,
    NotOwnedByUser,
    NotPrivate,
    Empty,
    TooLarge,
}

/// Checks the `fstat` result of an opened file: it must be a regular file,
/// owned by the current user, with no group or other permission bits, not
/// empty, and at most `max_bytes` long. The first failing check is reported;
/// on success the size is returned.
pub fn verify_secure_open_file(
    st_mode: u32,
    st_uid: u32,
    current_uid: u32,
    st_size: i64,
    max_bytes: usize,
) -> (r: Result<u64, OpenFileError>)
    ensures
        st_mode & mode_type_mask() != mode_regular() ==> r == Err::<u64, OpenFileError>(
            OpenFileError::NotRegularFile,
        ),
        st_mode & mode_type_mask() == mode_regular() && st_uid != current_uid ==> r == Err::<
            u64,
            OpenFileError,
        >(OpenFileError::NotOwnedByUser),
        st_mode & mode_type_mask() == mode_regular() && st_uid == current_uid && st_mode & 0o077u32
            != 0 ==> r == Err::<u64, OpenFileError>(OpenFileError::NotPrivate),
        st_mode & mode_type_mask() == mode_regular() && st_uid == current_uid && st_mode & 0o077u32
            == 0 && st_size <= 0 ==> r == Err::<u64, OpenFileError>(OpenFileError::Empty),
        st_mode & mode_type_mask() == mode_regular() && st_uid == current_uid && st_mode & 0o077u32
            == 0 && st_size > max_bytes ==> r == Err::<u64, OpenFileError>(OpenFileError::TooLarge),
        st_mode & mode_type_mask() == mode_regular() && st_uid == current_uid && st_mode & 0o077u32
            == 0 && 0 < st_size <= max_bytes ==> r == Ok::<u64, OpenFileError>(st_size as u64),
{
    if st_mode & libc_s_ifmt() != libc_s_ifreg() {
        return Err(OpenFileError::NotRegularFile);
    }
    if st_uid != current_uid {
        return Err(OpenFileError::NotOwnedByUser);
    }
    if st_mode & 0o077u32 != 0 {
        return Err(OpenFileError::NotPrivate);
    }
    if st_size <= 0 {
        return Err(OpenFileError::Empty);
    }
    if st_size as u64 > max_bytes as u64 {
        return Err(OpenFileError::TooLarge);
    }
    Ok(st_size as u64)
}

/// What to do with one directory of a secure hierarchy after `fstat`.
#[derive(PartialEq, Eq, Structural, Clone, Copy, Debug)]
pub enum DirectoryVerdict {
    /// Not a directory (or a symbolic link): the walk stops.
    Reject,
    /// Accept as it is.
    Keep,
    /// Accept after tightening its permissions to 0700.
    TightenTo0700,
}

/// Classifies one directory met while opening a secure hierarchy: anything
/// but a directory is rejected; a directory owned by the current user whose
/// permission bits are not exactly 0700 has them tightened.
pub fn check_hierarchy_directory(st_mode: u32, st_uid: u32, current_uid: u32) -> (r: DirectoryVerdict)
    ensures
        st_mode & mode_type_mask() != mode_directory() ==> r == DirectoryVerdict::Reject,
        st_mode & mode_type_mask() == mode_directory() && st_uid == current_uid && st_mode
            & 0o777u32 != 0o700u32 ==> r == DirectoryVerdict::TightenTo0700,
        st_mode & mode_type_mask() == mode_directory() && !(st_uid == current_uid && st_mode
            & 0o777u32 != 0o700u32) ==> r == DirectoryVerdict::Keep,
{
    if st_mode & libc_s_ifmt() != libc_s_ifdir() {
        return DirectoryVerdict::Reject;
    }
    if st_uid == current_uid && st_mode & 0o777u32 != 0o700u32 {
        DirectoryVerdict::TightenTo0700
    } else {
        DirectoryVerdict::Keep
    }
}

/// Why a path is not a safe file to read.
#[derive(PartialEq, Eq, Structural, Clone, Copy, Debug)]
pub enum SafeFileError {
    /// The path is a symbolic link.
    Symlink,
    /// The path is not a regular file.
    NotRegularFile,
}

/// Decides on the `symlink_metadata` of a path: a symbolic link is refused
/// first, then anything that is not a regular file.
pub fn verify_safe_file(is_symlink: bool, is_file: bool) -> (r: Result<(), SafeFileError>)
    ensures
        is_symlink ==> r == Err::<(), SafeFileError>(SafeFileError::Symlink),
        !is_symlink && !is_file ==> r == Err::<(), SafeFileError>(SafeFileError::NotRegularFile),
        !is_symlink && is_file ==> r is Ok,
{
    if is_symlink {
        return Err(SafeFileError::Symlink);
    }
    if !is_file {
        return Err(SafeFileError::NotRegularFile);
    }
    Ok(())
}

/// Whether a child's process group may be signalled: only for a pid above 1,
/// so that neither every process nor init is ever targeted.
pub fn may_signal_process_group(pid: i32) -> (r: bool)
    ensures
        r == (pid > 1),
{
    pid > 1
}

/// One step of walking a secure directory hierarchy from the root.
pub enum PathStep {
    /// Open (creating when missing) the directory with this name.
    Descend(Vec<u8>),
    /// A `..` component: the walk is refused.
    ParentTraversal,
    /// A name with a NUL byte, which no system call accepts: the walk is refused.
    InvalidName,
}

/// Position of the first `/` in a path.
pub open spec fn slash_index(p: Seq<u8>) -> Option<int>
    decreases p.len(),
{
    if p.len() == 0 {
        None
    } else if p[0] == 47 {
        Some(0)
    } else {
        match slash_index(p.drop_first()) {
            Some(i) => Some(i + 1),
            None => None,
        }
    }
}

pub proof fn lemma_slash_index_bounds(p: Seq<u8>)
    ensures
        slash_index(p) matches Some(i) ==> 0 <= i < p.len() && p[i] == 47,
    decreases p.len(),
{
    if p.len() > 0 && p[0] != 47 {
        lemma_slash_index_bounds(p.drop_first());
    }
}

/// The pieces of a path between `/` separators, empty ones included.
pub open spec fn path_segments(p: Seq<u8>) -> Seq<Seq<u8>>
    decreases p.len(),
{
    match slash_index(p) {
        None => seq![p],
        Some(i) => {
            proof {
                lemma_slash_index_bounds(p);
            }
            seq![p.take(i)] + path_segments(p.skip(i + 1))
        },
    }
}

/// `exec` is the step `seg` gives.
pub open spec fn step_for(exec: PathStep, seg: Seq<u8>) -> bool {
    if seg == seq![46u8, 46u8] {
        exec is ParentTraversal
    } else if seg.contains(0u8) {
        exec is InvalidName
    } else {
        exec matches PathStep::Descend(name) && name@ == seg
    }
}

/// A segment that names nothing: empty (repeated or surrounding `/`) or `.`.
pub open spec fn skipped_segment(seg: Seq<u8>) -> bool {
    seg.len() == 0 || seg == seq![46u8]
}

/// The segments of a path that produce steps, in order.
pub open spec fn step_segments(segs: Seq<Seq<u8>>) -> Seq<Seq<u8>>
    decreases segs.len(),
{
    if segs.len() == 0 {
        Seq::empty()
    } else if skipped_segment(segs[0]) {
        step_segments(segs.drop_first())
    } else {
        seq![segs[0]] + step_segments(segs.drop_first())
    }
}

fn contains_nul(seg: &[u8]) -> (r: bool)
    ensures
        r == seg@.contains(0u8),
{
    let mut i: usize = 0;
    while i < seg.len()
        invariant
            i <= seg@.len(),
            forall|j: int| 0 <= j < i ==> seg@[j] != 0u8,
        decreases seg.len() - i,
    {
        if seg[i] == 0u8 {
            assert(seg@[i as int] == 0u8);
            return true;
        }
        i = i + 1;
    }
    false
}

fn step_of_segment(seg: Vec<u8>) -> (r: Option<PathStep>)
    ensures
        skipped_segment(seg@) ==> r is None,
        !skipped_segment(seg@) ==> (r matches Some(st) && step_for(st, seg@)),
{
    if seg.len() == 0 {
        return None;
    }
    if seg.len() == 1 && seg[0] == 46u8 {
        assert(seg@ =~= seq![46u8]);
        return None;
    }
    proof {
        if seg@ == seq![46u8] {
            assert(seg@.len() == 1);
        }
    }
    if seg.len() == 2 && seg[0] == 46u8 && seg[1] == 46u8 {
        assert(seg@ =~= seq![46u8, 46u8]);
        return Some(PathStep::ParentTraversal);
    }
    proof {
        if seg@ == seq![46u8, 46u8] {
            assert(seg@.len() == 2 && seg@[0] == 46u8 && seg@[1] == 46u8);
        }
    }
    if contains_nul(seg.as_slice()) {
        return Some(PathStep::InvalidName);
    }
    Some(PathStep::Descend(seg))
}

/// The steps of walking an absolute path from the root, as
/// `Path::components` yields them on Unix: the pieces between `/`, leaving
/// out empty ones and `.`; `..` and names holding NUL are refusals.
pub fn hierarchy_steps(path: &[u8]) -> (r: Vec<PathStep>)
    ensures
        r@.len() == step_segments(path_segments(path@)).len(),
        forall|k: int| 0 <= k < r@.len() ==> step_for(#[trigger] r@[k], step_segments(path_segments(path@))[k]),
{
    let ghost segs = path_segments(path@);
    let mut out: Vec<PathStep> = Vec::new();
    let ghost mut got: Seq<Seq<u8>> = Seq::empty();
    let mut start: usize = 0;
    let mut done = false;
    assert(path@.skip(0) =~= path@);
    while !done
        invariant
            start <= path@.len(),
            !done ==> step_segments(segs) == got + step_segments(path_segments(path@.skip(start as int))),
            done ==> step_segments(segs) == got,
            segs == path_segments(path@),
            out@.len() == got.len(),
            forall|k: int| 0 <= k < out@.len() ==> step_for(#[trigger] out@[k], got[k]),
        decreases path@.len() - start + if done { 0int } else { 1int },
    {
        let ghost rest = path@.skip(start as int);
        let mut j: usize = start;
        while j < path.len() && path[j] != 47u8
            invariant
                start <= j <= path@.len(),
                rest == path@.skip(start as int),
                forall|m: int| start <= m < j ==> path@[m] != 47u8,
            decreases path.len() - j,
        {
            j = j + 1;
        }
        let mut seg: Vec<u8> = Vec::new();
        let mut k: usize = start;
        while k < j
            invariant
                start <= k <= j <= path@.len(),
                seg@ == path@.subrange(start as int, k as int),
            decreases j - k,
        {
            seg.push(path[k]);
            k = k + 1;
        }
        proof {
            lemma_slash_index_prefix(rest, (j - start) as int);
        }
        let ghost seg_v = seg@;
        let step = step_of_segment(seg);
        proof {
            let tail = if j < path@.len() {
                path_segments(path@.skip(j + 1))
            } else {
                Seq::<Seq<u8>>::empty()
            };
            assert(path_segments(rest) == seq![seg_v] + tail) by {
                assert(rest.take(j - start) =~= seg_v);
                if j < path@.len() {
                    assert(rest.skip(j - start + 1) =~= path@.skip(j + 1));
                }
            }
            assert((seq![seg_v] + tail).drop_first() =~= tail);
            if skipped_segment(seg_v) {
                assert(step_segments(seq![seg_v] + tail) == step_segments(tail));
            } else {
                got = got.push(seg_v);
                assert(step_segments(seq![seg_v] + tail) =~= seq![seg_v] + step_segments(tail));
            }
            if j < path@.len() {
                assert(step_segments(segs) =~= got + step_segments(tail));
            } else {
                assert(step_segments(tail) =~= Seq::<Seq<u8>>::empty());
                assert(step_segments(segs) =~= got);
            }
        }
        match step {
            Some(st) => out.push(st),
            None => {},
        }
        if j < path.len() {
            start = j + 1;
        } else {
            done = true;
            start = path.len();
        }
    }
    out
}

proof fn lemma_slash_index_prefix(p: Seq<u8>, j: int)
    requires
        0 <= j <= p.len(),
        forall|m: int| 0 <= m < j ==> p[m] != 47u8,
        j < p.len() ==> p[j] == 47u8,
    ensures
        j < p.len() ==> slash_index(p) == Some(j),
        j == p.len() ==> slash_index(p) is None,
    decreases j,
{
    if j > 0 {
        assert forall|m: int| 0 <= m < j - 1 implies p.drop_first()[m] != 47u8 by {
            assert(p.drop_first()[m] == p[m + 1]);
        }
        lemma_slash_index_prefix(p.drop_first(), j - 1);
    } else if p.len() > 0 {
        assert(p[0] == 47u8);
    }
}

/// Names of the environment variables a secured subprocess inherits.
pub open spec fn whitelist() -> Seq<Seq<char>> {
    seq![
        "PATH"@,
        "HOME"@,
        "USER"@,
        "LC_ALL"@,
        "LANG"@,
        "XDG_RUNTIME_DIR"@,
        "XDG_CONFIG_HOME"@,
        "XDG_DATA_HOME"@,
        "XDG_CACHE_HOME"@,
    ]
}

/// Names of the environment variables a secured subprocess inherits, in order.
pub fn whitelisted_env_vars() -> (r: Vec<String>)
    ensures
        r@.len() == whitelist().len(),
        forall|i: int| 0 <= i < r@.len() ==> (#[trigger] r@[i])@ == whitelist()[i],
{
    let mut v: Vec<String> = Vec::new();
    v.push(String::from_str("PATH"));
    v.push(String::from_str("HOME"));
    v.push(String::from_str("USER"));
    v.push(String::from_str("LC_ALL"));
    v.push(String::from_str("LANG"));
    v.push(String::from_str("XDG_RUNTIME_DIR"));
    v.push(String::from_str("XDG_CONFIG_HOME"));
    v.push(String::from_str("XDG_DATA_HOME"));
    v.push(String::from_str("XDG_CACHE_HOME"));
    v
}

/// The assignments setting up a secured subprocess's environment, from an
/// empty one: each whitelisted variable that has a value, in whitelist
/// order, then `LC_ALL=C` and `GIT_TERMINAL_PROMPT=0`.
pub open spec fn environment_assignments(values: Seq<Option<Seq<char>>>) -> Seq<(Seq<char>, Seq<char>)>
    decreases values.len(),
{
    if values.len() == 0 {
        seq![("LC_ALL"@, "C"@), ("GIT_TERMINAL_PROMPT"@, "0"@)]
    } else {
        let rest = environment_assignments(values.drop_last());
        let i = values.len() - 1;
        match values.last() {
            Some(v) => rest.take(rest.len() - 2).push((whitelist()[i], v)) + rest.skip(rest.len() - 2),
            None => rest,
        }
    }
}

/// Builds the assignments of a secured subprocess's environment from the
/// current values of the whitelisted variables (`values[i]` belongs to the
/// `i`-th name of the whitelist); see `environment_assignments`.
pub fn secure_environment(values: &Vec<Option<String>>) -> (r: Vec<(String, String)>)
    requires
        values@.len() == whitelist().len(),
    ensures
        r@.len() == environment_assignments(values@.map_values(|v: Option<String>| match v {
            Some(s) => Some(s@),
            None => None,
        })).len(),
        forall|k: int|
            0 <= k < r@.len() ==> (#[trigger] r@[k]).0@ == environment_assignments(
                values@.map_values(
                    |v: Option<String>|
                        match v {
                            Some(s) => Some(s@),
                            None => None,
                        },
                ),
            )[k].0 && r@[k].1@ == environment_assignments(
                values@.map_values(
                    |v: Option<String>|
                        match v {
                            Some(s) => Some(s@),
                            None => None,
                        },
                ),
            )[k].1,
{
    let names = whitelisted_env_vars();
    let ghost vals = values@.map_values(|v: Option<String>| match v {
        Some(s) => Some(s@),
        None => None,
    });
    let mut out: Vec<(String, String)> = Vec::new();
    let mut i: usize = 0;
    while i < values.len()
        invariant
            i <= values@.len(),
            values@.len() == whitelist().len(),
            names@.len() == whitelist().len(),
            forall|j: int| 0 <= j < names@.len() ==> (#[trigger] names@[j])@ == whitelist()[j],
            vals == values@.map_values(|v: Option<String>| match v {
                Some(s) => Some(s@),
                None => None,
            }),
            out@.len() + 2 == environment_assignments(vals.take(i as int)).len(),
            forall|k: int| 0 <= k < out@.len() ==> (#[trigger] out@[k]).0@ == environment_assignments(vals.take(i as int))[k].0
                && out@[k].1@ == environment_assignments(vals.take(i as int))[k].1,
            environment_assignments(vals.take(i as int)).skip(out@.len() as int) =~= seq![("LC_ALL"@, "C"@), ("GIT_TERMINAL_PROMPT"@, "0"@)],
        decreases values.len() - i,
    {
        proof {
            assert(vals.take(i + 1).drop_last() =~= vals.take(i as int));
            assert(vals.take(i + 1).last() == vals[i as int]);
        }
        match &values[i] {
            Some(v) => {
                out.push((names[i].clone(), v.clone()));
                proof {
                    let old_a = environment_assignments(vals.take(i as int));
                    let new_a = environment_assignments(vals.take(i + 1));
                    assert(new_a =~= old_a.take(old_a.len() - 2).push((whitelist()[i as int], vals[i as int]->0)) + old_a.skip(old_a.len() - 2));
                    assert(new_a.skip(out@.len() as int) =~= seq![("LC_ALL"@, "C"@), ("GIT_TERMINAL_PROMPT"@, "0"@)]);
                }
            },
            None => {},
        }
        i = i + 1;
    }
    out.push((String::from_str("LC_ALL"), String::from_str("C")));
    out.push((String::from_str("GIT_TERMINAL_PROMPT"), String::from_str("0")));
    proof {
        assert(vals.take(vals.len() as int) =~= vals);
    }
    out
}

} // verus!
