//! The file destination: a buffered stream with size-triggered rotation
//! and a bounded backup chain. This module holds the rotation state
//! machine — when to rotate, which renames to perform, how the tracked
//! size evolves — while performing the file operations themselves is the
//! runner's concern: each append hands back the planned operations and
//! the line to write.

use vstd::prelude::*;
use vstd::string::*;
use vstd::utf8::encode_utf8;
use crate::{err_msg, Error};
use crate::config::FileAppenderConfig;
use crate::encoder::{encodes, encoder_config_ok, encoder_matches_config, from_config, Encoder};
use crate::snapshot::Snapshot;
use crate::text::{dec_digits, u64_to_string};

verus! {

/// One file operation of a rotation, in the order the runner must
/// perform them.
#[derive(Clone, Debug)]
pub enum FileOp {
    /// Remove this path if it exists: the oldest backup leaves the chain.
    DeleteIfExists { path: String },
    /// Rename `from` to `to` if `from` exists: one backup moves up.
    RenameIfExists { from: String, to: String },
    /// Rename `from` to `to`: the active file becomes the newest backup.
    Rename { from: String, to: String },
    /// Open a brand-new, empty file at this path.
    CreateFresh { path: String },
}

/// The mathematical shape of one file operation.
pub ghost enum FileOpView {
    DeleteIfExists(Seq<char>),
    RenameIfExists(Seq<char>, Seq<char>),
    Rename(Seq<char>, Seq<char>),
    CreateFresh(Seq<char>),
}

impl View for FileOp {
    type V = FileOpView;

    open spec fn view(&self) -> FileOpView {
        match self {
            FileOp::DeleteIfExists { path } => FileOpView::DeleteIfExists(path@),
            FileOp::RenameIfExists { from, to } => FileOpView::RenameIfExists(from@, to@),
            FileOp::Rename { from, to } => FileOpView::Rename(from@, to@),
            FileOp::CreateFresh { path } => FileOpView::CreateFresh(path@),
        }
    }
}

/// The views of a planned operation list.
pub open spec fn ops_of(v: Seq<FileOp>) -> Seq<FileOpView> {
    v.map_values(|o: FileOp| o@)
}

/// The path of backup number `i`: the active path with `.i` appended.
pub open spec fn spec_backup_path(p: Seq<char>, i: int) -> Seq<char> {
    p + "."@ + dec_digits(i as nat)
}

/// Where the file name starts within a path: right after the last `/`.
pub open spec fn file_name_start(p: Seq<char>) -> int
    decreases p.len(),
{
    if p.len() == 0 {
        0
    } else if p.last() == '/' {
        p.len() as int
    } else {
        file_name_start(p.drop_last())
    }
}

/// The file-name component of a path: everything after the last `/`.
pub open spec fn file_name_of(p: Seq<char>) -> Seq<char> {
    p.subrange(file_name_start(p), p.len() as int)
}

/// The shift operations of one rotation for bound `i`: backup `i-1` moves
/// to `i`, then `i-2` to `i-1`, and so on down to `0`.
pub open spec fn shift_ops(p: Seq<char>, i: int) -> Seq<FileOpView>
    decreases i,
{
    if i <= 0 {
        Seq::empty()
    } else {
        seq![FileOpView::RenameIfExists(spec_backup_path(p, i - 1), spec_backup_path(p, i))]
            + shift_ops(p, i - 1)
    }
}

/// The complete operation list of one rotation with backup bound `n`:
/// drop backup `n`, shift the chain up, archive the active file as
/// backup `0`, open a fresh active file.
pub open spec fn rotation_ops_spec(p: Seq<char>, n: int) -> Seq<FileOpView> {
    seq![FileOpView::DeleteIfExists(spec_backup_path(p, n))] + shift_ops(p, n) + seq![
        FileOpView::Rename(p, spec_backup_path(p, 0)),
        FileOpView::CreateFresh(p),
    ]
}

/// The bytes one written line reserves: its UTF-8 length as the machine
/// measures it, plus the line separator, saturating at the counter's
/// width.
pub open spec fn spec_reserve(line: Seq<char>) -> int {
    let b = (encode_utf8(line).len() as usize) as int;
    if b + 1 > u64::MAX {
        u64::MAX as int
    } else {
        b + 1
    }
}

/// The saturating size counter update.
pub open spec fn sat_add_u64(a: int, b: int) -> int {
    if a + b > u64::MAX {
        u64::MAX as int
    } else {
        a + b
    }
}

/// The file destination's verified state: its encoder, its paths, the
/// tracked size of the open file, and the rotation and failure-cooldown
/// parameters. The open file handle itself lives with the runner.
#[derive(Debug)]
pub struct FileAppender {
    /// The encoder every line goes through.
    pub encoder: Encoder,
    /// The path of the active file.
    pub path: String,
    /// The file-name component of `path`.
    pub filename: String,
    /// Bytes written to the currently open file.
    pub file_len: u64,
    /// The rotation threshold; 0 disables rotation.
    pub max_file_size: u64,
    /// The highest backup index that may exist.
    pub max_backup_index: usize,
    /// When the appender may try writing again after a failure, in
    /// milliseconds since the epoch; 0 when it never failed.
    pub disabled_until_millis: i64,
}

/// Must the appender rotate before writing `reserve` more bytes?
pub open spec fn spec_needs_rotation(a: FileAppender, reserve: int) -> bool {
    a.max_file_size > 0 && a.file_len + reserve > a.max_file_size
}

/// Is the appender accepting writes at `now`, or still cooling down
/// after a failure?
pub open spec fn spec_file_active(a: FileAppender, now_millis: i64) -> bool {
    a.disabled_until_millis <= now_millis
}

/// How long a failed appender stays disabled, in milliseconds.
pub open spec fn spec_cooldown_millis() -> int {
    10000
}

/// Everything an append leaves untouched.
pub open spec fn file_same_but_len(pre: FileAppender, post: FileAppender) -> bool {
    &&& post.encoder == pre.encoder
    &&& post.path == pre.path
    &&& post.filename == pre.filename
    &&& post.max_file_size == pre.max_file_size
    &&& post.max_backup_index == pre.max_backup_index
    &&& post.disabled_until_millis == pre.disabled_until_millis
}

/// The effect of one accepted append: the line encodes the snapshot; a
/// rotation is planned exactly when the reserved bytes would push the
/// open file past its bound, and the tracked size restarts or grows
/// accordingly.
pub open spec fn file_append_effect(
    pre: FileAppender,
    post: FileAppender,
    snap: Snapshot,
    ops: Seq<FileOpView>,
    line: Seq<char>,
) -> bool {
    &&& encodes(pre.encoder, snap, line)
    &&& file_same_but_len(pre, post)
    &&& if spec_needs_rotation(pre, spec_reserve(line)) {
        ops == rotation_ops_spec(pre.path@, pre.max_backup_index as int) && post.file_len as int
            == spec_reserve(line)
    } else {
        ops == Seq::<FileOpView>::empty() && post.file_len as int == sat_add_u64(
            pre.file_len as int,
            spec_reserve(line),
        )
    }
}

impl FileAppender {
    /// Builds the appender from its configuration: the encoder is
    /// compiled and the file name is split off the path. A path without
    /// a file-name component is a configuration error. The tracked size
    /// starts at 0; the runner reports the real size of an existing file
    /// through `set_file_len` after opening it.
    pub fn from_config(config: &FileAppenderConfig) -> (r: Result<FileAppender, Error>)
        ensures
            r is Ok <==> encoder_config_ok(config.common.encoder) && file_name_of(
                config.path@,
            ).len() > 0,
            r matches Ok(a) ==> {
                &&& encoder_matches_config(a.encoder, config.common.encoder)
                &&& a.path@ == config.path@
                &&& a.filename@ == file_name_of(config.path@)
                &&& a.file_len == 0
                &&& a.max_file_size == config.max_file_size
                &&& a.max_backup_index == config.max_backup_index
                &&& a.disabled_until_millis == 0
            },
    {
        let encoder = match from_config(&config.common.encoder) {
            Ok(e) => e,
            Err(e) => {
                return Err(e.concat("failed to create encoder"));
            },
        };
        let len = config.path.as_str().unicode_len();
        proof {
            assert(config.path@.take(len as int) =~= config.path@);
        }
        let mut start: usize = len;
        while start > 0 && config.path.as_str().get_char(start - 1) != '/'
            invariant
                start <= len,
                len == config.path@.len(),
                file_name_start(config.path@.take(start as int)) == file_name_start(config.path@),
            decreases start,
        {
            proof {
                assert(config.path@.take(start as int).last() == config.path@[start - 1]);
                assert(config.path@.take(start as int).drop_last() =~= config.path@.take(
                    start - 1,
                ));
            }
            start = start - 1;
        }
        proof {
            if start > 0 {
                assert(config.path@.take(start as int).last() == config.path@[start - 1]);
            }
            assert(file_name_start(config.path@) == start as int);
        }
        if start == len {
            return Err(err_msg("failed to get file name from log path"));
        }
        let filename = config.path.as_str().substring_char(start, len);
        proof {
            assert(filename@ =~= file_name_of(config.path@));
        }
        Ok(
            FileAppender {
                encoder,
                path: config.path.clone(),
                filename: String::from_str(filename),
                file_len: 0,
                max_file_size: config.max_file_size,
                max_backup_index: config.max_backup_index,
                disabled_until_millis: 0,
            },
        )
    }

    /// Records the size the runner recovered from an existing file by
    /// seeking to its end.
    pub fn set_file_len(&mut self, len: u64)
        ensures
            final(self).file_len == len,
            file_same_but_len(*old(self), *final(self)),
    {
        self.file_len = len;
    }

    /// The path of backup number `index`.
    pub fn backup_file_path(&self, index: u64) -> (r: String)
        ensures
            r@ == spec_backup_path(self.path@, index as int),
    {
        let mut r = self.path.clone();
        r.append(".");
        let digits = u64_to_string(index);
        r.append(digits.as_str());
        proof {
            assert(r@ =~= spec_backup_path(self.path@, index as int));
        }
        r
    }

    /// Must the appender rotate before writing `reserve` more bytes?
    pub fn needs_rotation(&self, reserve: u64) -> (r: bool)
        ensures
            r == spec_needs_rotation(*self, reserve as int),
    {
        self.max_file_size > 0 && (reserve > self.max_file_size || self.file_len
            > self.max_file_size - reserve)
    }

    /// Plans one rotation: drop the oldest backup, shift the chain up,
    /// archive the active file, open a fresh one.
    pub fn rotation_ops(&self) -> (r: Vec<FileOp>)
        ensures
            ops_of(r@) == rotation_ops_spec(self.path@, self.max_backup_index as int),
    {
        let n = self.max_backup_index;
        let mut ops: Vec<FileOp> = Vec::new();
        ops.push(FileOp::DeleteIfExists { path: self.backup_file_path(n as u64) });
        let mut i: usize = n;
        while i > 0
            invariant
                i <= n,
                ops_of(ops@) =~= seq![
                    FileOpView::DeleteIfExists(spec_backup_path(self.path@, n as int)),
                ] + shift_ops(self.path@, n as int).take(n - i),
            decreases i,
        {
            let src = self.backup_file_path((i - 1) as u64);
            let dst = self.backup_file_path(i as u64);
            let ghost before = ops_of(ops@);
            ops.push(FileOp::RenameIfExists { from: src, to: dst });
            proof {
                lemma_shift_ops_index(self.path@, n as int, n - i);
                assert(shift_ops(self.path@, n as int).take(n - i + 1) =~= shift_ops(
                    self.path@,
                    n as int,
                ).take(n - i).push(
                    FileOpView::RenameIfExists(
                        spec_backup_path(self.path@, i - 1),
                        spec_backup_path(self.path@, i as int),
                    ),
                ));
                assert(ops_of(ops@) =~= before.push(
                    FileOpView::RenameIfExists(
                        spec_backup_path(self.path@, i - 1),
                        spec_backup_path(self.path@, i as int),
                    ),
                ));
            }
            i = i - 1;
        }
        let ghost before_tail = ops_of(ops@);
        ops.push(FileOp::Rename { from: self.path.clone(), to: self.backup_file_path(0) });
        ops.push(FileOp::CreateFresh { path: self.path.clone() });
        proof {
            lemma_shift_ops_len(self.path@, n as int);
            assert(shift_ops(self.path@, n as int).take(n as int) =~= shift_ops(
                self.path@,
                n as int,
            ));
            assert(ops_of(ops@) =~= rotation_ops_spec(self.path@, n as int));
        }
        ops
    }

    /// Accounts for one line of `line_bytes` bytes about to be written:
    /// plans a rotation when the line would push the open file past its
    /// bound, and tracks the new size.
    pub fn prepare_append(&mut self, line_bytes: usize) -> (ops: Vec<FileOp>)
        ensures
            file_same_but_len(*old(self), *final(self)),
            ({
                let reserve = if line_bytes + 1 > u64::MAX {
                    u64::MAX as int
                } else {
                    line_bytes + 1
                };
                if spec_needs_rotation(*old(self), reserve) {
                    ops_of(ops@) == rotation_ops_spec(
                        old(self).path@,
                        old(self).max_backup_index as int,
                    ) && final(self).file_len as int == reserve
                } else {
                    ops_of(ops@) == Seq::<FileOpView>::empty() && final(self).file_len as int
                        == sat_add_u64(old(self).file_len as int, reserve)
                }
            }),
    {
        let line_len64 = line_bytes as u64;
        let reserve: u64 = if line_len64 == u64::MAX {
            u64::MAX
        } else {
            line_len64 + 1
        };
        if self.needs_rotation(reserve) {
            let ops = self.rotation_ops();
            self.file_len = reserve;
            ops
        } else {
            let next = match self.file_len.checked_add(reserve) {
                Some(x) => x,
                None => u64::MAX,
            };
            self.file_len = next;
            let ops: Vec<FileOp> = Vec::new();
            proof {
                assert(ops_of(ops@) =~= Seq::<FileOpView>::empty());
            }
            ops
        }
    }

    /// Encodes one snapshot and accounts for writing it: the returned
    /// line and the operations to perform before it, as
    /// `file_append_effect` describes them.
    pub fn append(&mut self, snap: &Snapshot) -> (r: (Vec<FileOp>, String))
        ensures
            file_append_effect(*old(self), *final(self), *snap, ops_of(r.0@), r.1@),
    {
        let line = self.encoder.encode(snap);
        let nbytes = line.as_str().len();
        let ops = self.prepare_append(nbytes);
        (ops, line)
    }

    /// Marks the appender disabled until the failure cooldown has
    /// passed.
    pub fn on_io_error(&mut self, now_millis: i64)
        ensures
            final(self).disabled_until_millis as int == if now_millis + spec_cooldown_millis()
                > i64::MAX {
                i64::MAX as int
            } else {
                now_millis + spec_cooldown_millis()
            },
            final(self).encoder == old(self).encoder,
            final(self).path == old(self).path,
            final(self).filename == old(self).filename,
            final(self).file_len == old(self).file_len,
            final(self).max_file_size == old(self).max_file_size,
            final(self).max_backup_index == old(self).max_backup_index,
    {
        let until = match now_millis.checked_add(10000) {
            Some(x) => x,
            None => i64::MAX,
        };
        self.disabled_until_millis = until;
    }

    /// Is the appender accepting writes at `now`?
    pub fn is_active(&self, now_millis: i64) -> (r: bool)
        ensures
            r == spec_file_active(*self, now_millis),
    {
        self.disabled_until_millis <= now_millis
    }
}

/// A model of the directory holding the log stream: each existing path
/// mapped to its content. One rotation operation acts on it as the file
/// system would: a rename moves content and overwrites its target, a
/// conditional operation on a missing source changes nothing, and a
/// fresh file is empty.
pub open spec fn apply_file_op(
    files: Map<Seq<char>, Seq<u8>>,
    op: FileOpView,
) -> Map<Seq<char>, Seq<u8>> {
    match op {
        FileOpView::DeleteIfExists(p) => files.remove(p),
        FileOpView::RenameIfExists(f, t) => if files.dom().contains(f) {
            files.remove(f).insert(t, files[f])
        } else {
            files
        },
        FileOpView::Rename(f, t) => if files.dom().contains(f) {
            files.remove(f).insert(t, files[f])
        } else {
            files
        },
        FileOpView::CreateFresh(p) => files.insert(p, Seq::empty()),
    }
}

/// A whole operation list applied in order.
pub open spec fn apply_file_ops(
    files: Map<Seq<char>, Seq<u8>>,
    ops: Seq<FileOpView>,
) -> Map<Seq<char>, Seq<u8>>
    decreases ops.len(),
{
    if ops.len() == 0 {
        files
    } else {
        apply_file_ops(apply_file_op(files, ops[0]), ops.drop_first())
    }
}

proof fn lemma_apply_file_ops_concat(
    files: Map<Seq<char>, Seq<u8>>,
    a: Seq<FileOpView>,
    b: Seq<FileOpView>,
)
    ensures
        apply_file_ops(files, a + b) == apply_file_ops(apply_file_ops(files, a), b),
    decreases a.len(),
{
    if a.len() == 0 {
        assert(a + b =~= b);
    } else {
        assert((a + b)[0] == a[0]);
        assert((a + b).drop_first() =~= a.drop_first() + b);
        lemma_apply_file_ops_concat(apply_file_op(files, a[0]), a.drop_first(), b);
    }
}

proof fn lemma_dec_digits_len(n: nat)
    ensures
        dec_digits(n).len() >= 1,
    decreases n,
{
    if n >= 10 {
        lemma_dec_digits_len(n / 10);
    }
}

/// A backup path is never the active path: it is strictly longer.
proof fn lemma_backup_path_not_active(p: Seq<char>, i: int)
    requires
        i >= 0,
    ensures
        spec_backup_path(p, i) != p,
{
    reveal_strlit(".");
    lemma_dec_digits_len(i as nat);
    assert(spec_backup_path(p, i).len() > p.len());
}

/// Distinct backup indices give distinct backup paths.
proof fn lemma_backup_path_injective(p: Seq<char>, i: int, j: int)
    requires
        i >= 0,
        j >= 0,
        i != j,
    ensures
        spec_backup_path(p, i) != spec_backup_path(p, j),
{
    reveal_strlit(".");
    if spec_backup_path(p, i) == spec_backup_path(p, j) {
        let di = dec_digits(i as nat);
        let dj = dec_digits(j as nat);
        let stem = p + "."@;
        assert(di =~= spec_backup_path(p, i).subrange(
            stem.len() as int,
            spec_backup_path(p, i).len() as int,
        ));
        assert(dj =~= spec_backup_path(p, j).subrange(
            stem.len() as int,
            spec_backup_path(p, j).len() as int,
        ));
        crate::config::util::lemma_dec_digits_injective(i as nat, j as nat);
    }
}

proof fn lemma_shift_ops_effect(files: Map<Seq<char>, Seq<u8>>, p: Seq<char>, i: int)
    requires
        i >= 0,
        !files.dom().contains(spec_backup_path(p, i)),
    ensures
        ({
            let after = apply_file_ops(files, shift_ops(p, i));
            &&& forall|j: int|
                1 <= j <= i ==> (after.dom().contains(#[trigger] spec_backup_path(p, j))
                    <==> files.dom().contains(spec_backup_path(p, j - 1)))
            &&& forall|j: int|
                1 <= j <= i && files.dom().contains(spec_backup_path(p, j - 1))
                    ==> after[#[trigger] spec_backup_path(p, j)] == files[spec_backup_path(
                    p,
                    j - 1,
                )]
            &&& i > 0 ==> !after.dom().contains(spec_backup_path(p, 0))
            &&& forall|j: int|
                j > i ==> (after.dom().contains(#[trigger] spec_backup_path(p, j))
                    <==> files.dom().contains(spec_backup_path(p, j)))
                    && (files.dom().contains(spec_backup_path(p, j)) ==> after[spec_backup_path(
                    p,
                    j,
                )] == files[spec_backup_path(p, j)])
            &&& (after.dom().contains(p) <==> files.dom().contains(p))
            &&& (files.dom().contains(p) ==> after[p] == files[p])
        }),
    decreases i,
{
    if i == 0 {
    } else {
        let op = FileOpView::RenameIfExists(spec_backup_path(p, i - 1), spec_backup_path(p, i));
        let files1 = apply_file_op(files, op);
        assert(shift_ops(p, i)[0] == op);
        assert(shift_ops(p, i).drop_first() =~= shift_ops(p, i - 1));
        lemma_backup_path_injective(p, i - 1, i);
        assert(!files1.dom().contains(spec_backup_path(p, i - 1)));
        lemma_shift_ops_effect(files1, p, i - 1);
        lemma_backup_path_not_active(p, i - 1);
        lemma_backup_path_not_active(p, i);
        assert forall|j: int| j > i - 1 implies (apply_file_ops(files1, shift_ops(p, i - 1)).dom()
            .contains(#[trigger] spec_backup_path(p, j)) <==> files1.dom().contains(
            spec_backup_path(p, j),
        )) by {}
        assert forall|j: int|
            1 <= j <= i implies (apply_file_ops(files, shift_ops(p, i)).dom().contains(
            #[trigger] spec_backup_path(p, j),
        ) <==> files.dom().contains(spec_backup_path(p, j - 1))) by {
            if j < i {
                lemma_backup_path_injective(p, j - 1, i - 1);
                lemma_backup_path_injective(p, j - 1, i);
            } else {
                lemma_backup_path_injective(p, i - 1, i);
            }
        };
        assert forall|j: int|
            1 <= j <= i && files.dom().contains(spec_backup_path(p, j - 1)) implies apply_file_ops(
            files,
            shift_ops(p, i),
        )[#[trigger] spec_backup_path(p, j)] == files[spec_backup_path(p, j - 1)] by {
            if j < i {
                lemma_backup_path_injective(p, j - 1, i - 1);
                lemma_backup_path_injective(p, j - 1, i);
            } else {
                lemma_backup_path_injective(p, i - 1, i);
            }
        };
        assert forall|j: int|
            j > i implies (apply_file_ops(files, shift_ops(p, i)).dom().contains(
            #[trigger] spec_backup_path(p, j),
        ) <==> files.dom().contains(spec_backup_path(p, j))) && (files.dom().contains(
            spec_backup_path(p, j),
        ) ==> apply_file_ops(files, shift_ops(p, i))[spec_backup_path(p, j)]
            == files[spec_backup_path(p, j)]) by {
            lemma_backup_path_injective(p, i - 1, j);
            lemma_backup_path_injective(p, i, j);
        };
    }
}

/// The effect of one whole rotation on the directory: the active file is
/// fresh and empty, backup 0 holds what the active file held, every
/// other backup moved up one place (the one at the bound leaving), and
/// no path beyond the bound is ever created.
pub proof fn lemma_rotation_effect(files: Map<Seq<char>, Seq<u8>>, p: Seq<char>, n: int)
    requires
        n >= 0,
        files.dom().contains(p),
    ensures
        ({
            let after = apply_file_ops(files, rotation_ops_spec(p, n));
            &&& after.dom().contains(p) && after[p] == Seq::<u8>::empty()
            &&& after.dom().contains(spec_backup_path(p, 0)) && after[spec_backup_path(p, 0)]
                == files[p]
            &&& forall|j: int|
                1 <= j <= n ==> (after.dom().contains(#[trigger] spec_backup_path(p, j))
                    <==> files.dom().contains(spec_backup_path(p, j - 1)))
            &&& forall|j: int|
                1 <= j <= n && files.dom().contains(spec_backup_path(p, j - 1))
                    ==> after[#[trigger] spec_backup_path(p, j)] == files[spec_backup_path(
                    p,
                    j - 1,
                )]
            &&& forall|j: int|
                j > n ==> (after.dom().contains(#[trigger] spec_backup_path(p, j))
                    <==> files.dom().contains(spec_backup_path(p, j)))
        }),
{
    let del = seq![FileOpView::DeleteIfExists(spec_backup_path(p, n))];
    let tail = seq![FileOpView::Rename(p, spec_backup_path(p, 0)), FileOpView::CreateFresh(p)];
    let all = rotation_ops_spec(p, n);
    assert(all =~= (del + shift_ops(p, n)) + tail);
    lemma_apply_file_ops_concat(files, del + shift_ops(p, n), tail);
    lemma_apply_file_ops_concat(files, del, shift_ops(p, n));
    assert(del.drop_first() =~= Seq::<FileOpView>::empty());
    let files0 = files.remove(spec_backup_path(p, n));
    assert(del[0] == FileOpView::DeleteIfExists(spec_backup_path(p, n)));
    assert(apply_file_op(files, del[0]) == files0);
    assert(apply_file_ops(files, del) == apply_file_ops(files0, del.drop_first()));
    assert(apply_file_ops(files, del) == files0);
    lemma_shift_ops_effect(files0, p, n);
    let mid = apply_file_ops(files0, shift_ops(p, n));
    lemma_backup_path_not_active(p, n);
    assert(mid.dom().contains(p) && mid[p] == files[p]);
    let renamed = apply_file_op(mid, tail[0]);
    let after = apply_file_op(renamed, tail[1]);
    assert(tail.drop_first() =~= seq![tail[1]]);
    assert(seq![tail[1]].drop_first() =~= Seq::<FileOpView>::empty());
    assert(apply_file_ops(mid, tail) == apply_file_ops(renamed, tail.drop_first()));
    assert(apply_file_ops(renamed, seq![tail[1]]) == apply_file_ops(
        after,
        seq![tail[1]].drop_first(),
    ));
    assert(apply_file_ops(mid, tail) == after);
    lemma_backup_path_not_active(p, 0);
    assert(after[p] == Seq::<u8>::empty());
    assert(after[spec_backup_path(p, 0)] == files[p]);
    assert forall|j: int|
        1 <= j <= n implies (after.dom().contains(#[trigger] spec_backup_path(p, j))
        <==> files.dom().contains(spec_backup_path(p, j - 1))) && (files.dom().contains(
        spec_backup_path(p, j - 1),
    ) ==> after[spec_backup_path(p, j)] == files[spec_backup_path(p, j - 1)]) by {
        lemma_backup_path_not_active(p, j);
        lemma_backup_path_injective(p, 0, j);
        lemma_backup_path_injective(p, j - 1, n);
    };
    assert forall|j: int|
        j > n implies (after.dom().contains(#[trigger] spec_backup_path(p, j))
        <==> files.dom().contains(spec_backup_path(p, j))) by {
        lemma_backup_path_not_active(p, j);
        lemma_backup_path_injective(p, 0, j);
        lemma_backup_path_injective(p, n, j);
    };
}

/// Rotation never lets a single write push the open file past its
/// bound: whenever a line's reserved bytes fit the bound at all, the
/// tracked size after the append is within the bound — either the line
/// fit the open file, or a rotation emptied it first.
pub proof fn lemma_write_respects_bound(
    pre: FileAppender,
    post: FileAppender,
    snap: Snapshot,
    ops: Seq<FileOpView>,
    line: Seq<char>,
)
    requires
        file_append_effect(pre, post, snap, ops, line),
        pre.max_file_size > 0,
        spec_reserve(line) <= pre.max_file_size as int,
    ensures
        post.file_len <= pre.max_file_size,
{
}

/// No backup index beyond the bound exists.
pub open spec fn backups_bounded(files: Map<Seq<char>, Seq<u8>>, p: Seq<char>, n: int) -> bool {
    forall|j: int| j > n ==> !files.dom().contains(#[trigger] spec_backup_path(p, j))
}

/// A rotation with bound `n` never raises a backup index above `n`:
/// however many rotations run, at most the active file and backups
/// `0` through `n` ever exist.
pub proof fn lemma_rotation_preserves_backup_bound(
    files: Map<Seq<char>, Seq<u8>>,
    p: Seq<char>,
    n: int,
)
    requires
        n >= 0,
        files.dom().contains(p),
        backups_bounded(files, p, n),
    ensures
        backups_bounded(apply_file_ops(files, rotation_ops_spec(p, n)), p, n),
{
    lemma_rotation_effect(files, p, n);
}

proof fn lemma_shift_ops_index(p: Seq<char>, n: int, k: int)
    requires
        0 <= k < n,
    ensures
        shift_ops(p, n).len() == n,
        shift_ops(p, n)[k] == FileOpView::RenameIfExists(
            spec_backup_path(p, n - 1 - k),
            spec_backup_path(p, n - k),
        ),
    decreases n,
{
    lemma_shift_ops_len(p, n);
    if k == 0 {
    } else {
        lemma_shift_ops_index(p, n - 1, k - 1);
    }
}

proof fn lemma_shift_ops_len(p: Seq<char>, n: int)
    ensures
        shift_ops(p, n).len() == if n >= 0 {
            n
        } else {
            0
        },
    decreases n,
{
    if n > 0 {
        lemma_shift_ops_len(p, n - 1);
    }
}

} // verus!
