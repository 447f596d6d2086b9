//! Bookkeeping of a packet-based file export received from BuildKit.
//!
//! BuildKit sends one stat packet per filesystem entry, an empty stat packet
//! when all entries are announced, data packets for regular files (an empty
//! one ends a file) and a final FIN packet. The ledger checks every packet
//! against the protocol and the transfer limits and says what must be done on
//! disk; the caller performs that work. Any error ends the transfer.

use vstd::prelude::*;
use std::collections::HashMap;
use vstd::utf8::encode_utf8;
use crate::strmap::StrMap;
use crate::text::{debug_str, decimal_text, split_char, split_spec, str_debug, owned, push_all, push_char, push_decimal, to_chars};

verus! {

broadcast use {vstd::std_specs::hash::group_hash_axioms, vstd::string::group_string_axioms};

/// Packet type of a stat packet.
pub const PACKET_STAT: i32 = 0;
/// Packet type of a data request.
pub const PACKET_REQ: i32 = 1;
/// Packet type of a data packet.
pub const PACKET_DATA: i32 = 2;
/// Packet type of the end of the transfer.
pub const PACKET_FIN: i32 = 3;
/// Packet type of an error report.
pub const PACKET_ERR: i32 = 4;

/// File mode bit: a directory.
pub const MODE_DIR: u32 = 0x8000_0000;
/// File mode bit: a symbolic link.
pub const MODE_SYMLINK: u32 = 0x0800_0000;
/// File mode bit: a device.
pub const MODE_DEVICE: u32 = 0x0400_0000;
/// File mode bit: a named pipe.
pub const MODE_NAMED_PIPE: u32 = 0x0200_0000;
/// File mode bit: a Unix socket.
pub const MODE_SOCKET: u32 = 0x0100_0000;
/// File mode bit: a character device.
pub const MODE_CHAR_DEVICE: u32 = 0x0020_0000;
/// File mode bit: an irregular file.
pub const MODE_IRREGULAR: u32 = 0x0008_0000;
/// All the file-type bits; a regular file has none of them.
pub const MODE_TYPE: u32 = 0x8F28_0000;
/// The Unix permission bits.
pub const MODE_PERM: u32 = 0o777;

/// Longest export path, in bytes.
pub const MAX_PATH_LENGTH: usize = 4096;
/// Longest symlink target, in bytes.
pub const MAX_LINKNAME_LENGTH: usize = 4096;
/// Most entries in one export.
pub const MAX_FILE_COUNT: usize = 100000;
/// Most regular files waiting for data at one time.
pub const MAX_PENDING_FILES: usize = 4096;
/// Largest size of one file (4 GiB).
pub const MAX_FILE_SIZE: u64 = 4294967296;
/// Largest total size of an export (16 GiB).
pub const MAX_TOTAL_SIZE: u64 = 17179869184;

/// Aggregate limits for one packet-based local export.
#[derive(Clone, Copy, Debug, PartialEq, Eq, Structural)]
pub struct FileTransferLimits {
    /// Maximum number of filesystem entries accepted in one transfer.
    pub max_files: Option<u64>,
    /// Maximum sum of declared entry sizes accepted in one transfer.
    pub max_bytes: Option<u64>,
}

impl Default for FileTransferLimits {
    fn default() -> (res: Self)
        ensures
            res.max_files is None && res.max_bytes is None,
    {
        FileTransferLimits { max_files: None, max_bytes: None }
    }
}

/// The gRPC status code of a transfer error.
#[derive(Debug, Copy, Clone, PartialEq, Eq, Structural)]
pub enum TransferErrorCode {
    /// The packet is malformed.
    InvalidArgument,
    /// A limit would be exceeded.
    ResourceExhausted,
    /// The packet is out of order.
    FailedPrecondition,
    /// The path was already declared.
    AlreadyExists,
    /// The entry type is not supported.
    Unimplemented,
    /// The sender reported an error.
    Unknown,
}

/// A transfer error: the status code and a message.
#[derive(Debug, Clone)]
pub struct TransferError {
    /// The status code.
    pub code: TransferErrorCode,
    /// A description for people.
    pub message: String,
}

impl TransferError {
    /// The code and the message's characters.
    pub open spec fn view(&self) -> (TransferErrorCode, Seq<char>) {
        (self.code, self.message@)
    }
}

fn fail(code: TransferErrorCode, message: &str) -> (res: TransferError)
    ensures
        res@ == (code, message@),
{
    TransferError { code, message: owned(message) }
}

/// The metadata of one announced entry.
#[derive(Debug, Clone)]
pub struct TransferStat {
    /// Path relative to the export root, with `/` separators.
    pub path: String,
    /// Go `fs.FileMode` bits.
    pub mode: u32,
    /// Declared size in bytes.
    pub size: i64,
    /// Symlink target.
    pub linkname: String,
}

/// One packet of the transfer protocol.
#[derive(Debug, Clone)]
pub struct TransferPacket {
    /// The packet type (`PACKET_STAT` to `PACKET_ERR`).
    pub packet_type: i32,
    /// The entry of a stat packet; `None` ends the announcements.
    pub stat: Option<TransferStat>,
    /// The file a data packet belongs to.
    pub id: u32,
    /// The payload of a data or error packet.
    pub data: Vec<u8>,
}

/// A regular file that waits for its data.
#[derive(Debug, Copy, Clone, PartialEq, Eq, Structural)]
pub struct PendingFile {
    /// Declared size.
    pub size: u64,
    /// Bytes received so far.
    pub received: u64,
    /// Go `fs.FileMode` bits.
    pub mode: u32,
}

/// The pieces of a path that name directories or files: empty pieces and
/// `.` pieces between separators carry no component.
pub open spec fn normal_segments(segs: Seq<Seq<char>>) -> Seq<Seq<char>>
    decreases segs.len(),
{
    if segs.len() == 0 {
        Seq::empty()
    } else {
        let init = normal_segments(segs.drop_last());
        if segs.last().len() > 0 && segs.last() != "."@ {
            init.push(segs.last())
        } else {
            init
        }
    }
}

/// Path components joined by `/`.
pub open spec fn join_slash(parts: Seq<Seq<char>>) -> Seq<char>
    decreases parts.len(),
{
    if parts.len() == 0 {
        Seq::empty()
    } else if parts.len() == 1 {
        parts[0]
    } else {
        join_slash(parts.drop_last()) + seq!['/'] + parts.last()
    }
}

/// The canonical text of a relative path: its components joined by `/`.
/// Two paths with the same components are the same entry.
pub open spec fn path_key(p: Seq<char>) -> Seq<char> {
    join_slash(normal_segments(split_spec(p, '/')))
}

/// A path that may be exported: non-empty, at most `MAX_PATH_LENGTH` bytes,
/// without NUL, relative, and made of plain names only (no `..`, and no
/// leading `.`).
pub open spec fn valid_export_path(p: Seq<char>) -> bool {
    let segs = split_spec(p, '/');
    &&& p.len() > 0
    &&& encode_utf8(p).len() <= MAX_PATH_LENGTH
    &&& !p.contains('\0')
    &&& p[0] != '/'
    &&& segs[0] != "."@
    &&& forall|i: int| 0 <= i < segs.len() ==> #[trigger] segs[i] != ".."@
}

proof fn lemma_join_slash_components(names: Seq<Seq<char>>)
    ensures
        join_slash(names) == crate::grpc::patternmatcher::join_components(names),
    decreases names.len(),
{
    if names.len() > 1 {
        lemma_join_slash_components(names.drop_last());
    }
}

proof fn lemma_join_slash_chars(names: Seq<Seq<char>>, c: char)
    requires
        c != '/',
        forall|i: int| 0 <= i < names.len() ==> !(#[trigger] names[i]).contains(c),
    ensures
        !join_slash(names).contains(c),
    decreases names.len(),
{
    if names.len() == 1 {
        assert(!names[0].contains(c));
    } else if names.len() > 1 {
        let init = names.drop_last();
        assert forall|i: int| 0 <= i < init.len() implies !(#[trigger] init[i]).contains(c) by {
            assert(init[i] == names[i]);
        }
        lemma_join_slash_chars(init, c);
        let a = join_slash(init);
        let b = names.last();
        assert(!b.contains(c)) by {
            assert(names[names.len() - 1] == b);
        }
        let j = a + seq!['/'] + b;
        if j.contains(c) {
            let k = choose|k: int| 0 <= k < j.len() && j[k] == c;
            if k < a.len() {
                assert(a[k] == c);
            } else if k > a.len() {
                assert(b[k - a.len() - 1] == c);
            }
        }
    }
}

proof fn lemma_join_slash_first(names: Seq<Seq<char>>)
    requires
        names.len() > 0,
        names[0].len() > 0,
    ensures
        join_slash(names).len() > 0,
        join_slash(names)[0] == names[0][0],
    decreases names.len(),
{
    if names.len() > 1 {
        let init = names.drop_last();
        lemma_join_slash_first(init);
        assert(init[0] == names[0]);
    }
}

proof fn lemma_normal_segments_of_names(names: Seq<Seq<char>>)
    requires
        forall|i: int| 0 <= i < names.len() ==> (#[trigger] names[i]).len() > 0 && names[i] != "."@,
    ensures
        normal_segments(names) == names,
    decreases names.len(),
{
    if names.len() > 0 {
        let init = names.drop_last();
        assert forall|i: int| 0 <= i < init.len() implies (#[trigger] init[i]).len() > 0 && init[i] != "."@ by {
            assert(init[i] == names[i]);
        }
        lemma_normal_segments_of_names(init);
        assert(names[names.len() - 1] == names.last());
        assert(init.push(names.last()) =~= names);
    }
}

/// Every relative path made of plain names may be exported, whatever the
/// names look like (names beginning with `.`, such as `.env`, included),
/// as long as it fits the length limit; and such a path is its own
/// canonical text.
pub proof fn law_plain_name_paths_are_exportable(names: Seq<Seq<char>>)
    requires
        names.len() > 0,
        forall|i: int| 0 <= i < names.len() ==> {
            &&& (#[trigger] names[i]).len() > 0
            &&& names[i] != "."@
            &&& names[i] != ".."@
            &&& !names[i].contains('/')
            &&& !names[i].contains('\0')
        },
        encode_utf8(join_slash(names)).len() <= MAX_PATH_LENGTH,
    ensures
        valid_export_path(join_slash(names)),
        path_key(join_slash(names)) == join_slash(names),
{
    let p = join_slash(names);
    lemma_join_slash_components(names);
    assert forall|i: int| 0 <= i < names.len() implies !(#[trigger] names[i]).contains('/') by {}
    crate::grpc::patternmatcher::lemma_split_join(names);
    assert(split_spec(p, '/') == names);
    assert forall|i: int| 0 <= i < names.len() implies !(#[trigger] names[i]).contains('\0') by {}
    lemma_join_slash_chars(names, '\0');
    lemma_join_slash_first(names);
    assert(!names[0].contains('/'));
    assert(names[0][0] != '/') by {
        if names[0][0] == '/' {
            assert(names[0].contains('/'));
        }
    }
    lemma_normal_segments_of_names(names);
}

/// A path that climbs out with `..`, starts at the root or with `.`, or
/// holds NUL is never exported, whatever its other components are.
pub proof fn law_escaping_paths_are_refused(names: Seq<Seq<char>>, k: int)
    requires
        0 <= k < names.len(),
        forall|i: int| 0 <= i < names.len() ==> !(#[trigger] names[i]).contains('/'),
    ensures
        names[k] == ".."@ ==> !valid_export_path(join_slash(names)),
        names[0] == "."@ ==> !valid_export_path(join_slash(names)),
        names[k].contains('\0') ==> !valid_export_path(join_slash(names)),
        !valid_export_path(seq!['/'] + join_slash(names)),
{
    let p = join_slash(names);
    lemma_join_slash_components(names);
    crate::grpc::patternmatcher::lemma_split_join(names);
    assert(split_spec(p, '/') == names);
    if names[k].contains('\0') {
        let j = choose|j: int| 0 <= j < names[k].len() && names[k][j] == '\0';
        lemma_join_slash_has(names, k, j);
    }
    assert((seq!['/'] + p)[0] == '/');
}

proof fn lemma_join_slash_has(names: Seq<Seq<char>>, k: int, j: int)
    requires
        0 <= k < names.len(),
        0 <= j < names[k].len(),
    ensures
        join_slash(names).contains(names[k][j]),
    decreases names.len(),
{
    if names.len() == 1 {
        assert(join_slash(names)[j] == names[0][j]);
    } else {
        let init = names.drop_last();
        let a = join_slash(init);
        let whole = a + seq!['/'] + names.last();
        if k < names.len() - 1 {
            assert(init[k] == names[k]);
            lemma_join_slash_has(init, k, j);
            let x = choose|x: int| 0 <= x < a.len() && a[x] == names[k][j];
            assert(whole[x] == a[x]);
        } else {
            assert(whole[a.len() + 1 + j] == names.last()[j]);
        }
    }
}

/// A symlink target that may be exported: non-empty, at most
/// `MAX_LINKNAME_LENGTH` bytes, without NUL.
pub open spec fn valid_linkname(l: Seq<char>) -> bool {
    l.len() > 0 && encode_utf8(l).len() <= MAX_LINKNAME_LENGTH && !l.contains('\0')
}

/// How many of the file-type bits `mode` has.
pub open spec fn type_bit_count(mode: u32) -> nat {
    (if mode & MODE_DIR != 0 { 1nat } else { 0nat })
    + (if mode & MODE_SYMLINK != 0 { 1nat } else { 0nat })
    + (if mode & MODE_DEVICE != 0 { 1nat } else { 0nat })
    + (if mode & MODE_NAMED_PIPE != 0 { 1nat } else { 0nat })
    + (if mode & MODE_SOCKET != 0 { 1nat } else { 0nat })
    + (if mode & MODE_CHAR_DEVICE != 0 { 1nat } else { 0nat })
    + (if mode & MODE_IRREGULAR != 0 { 1nat } else { 0nat })
}

/// The message of a refused path.
pub open spec fn invalid_path_text(path: Seq<char>) -> Seq<char> {
    "invalid export path: "@ + str_debug(path)
}

/// Why a symlink target is refused, if it is.
pub open spec fn linkname_error(l: Seq<char>) -> Option<(TransferErrorCode, Seq<char>)> {
    if l.len() == 0 {
        Some((TransferErrorCode::InvalidArgument, "symlink without target"@))
    } else if !valid_linkname(l) {
        Some((TransferErrorCode::InvalidArgument, "symlink target is too long or invalid"@))
    } else {
        None
    }
}

/// Why an entry's metadata is refused, if it is: the code and the message.
pub open spec fn stat_error(path: Seq<char>, mode: u32, size: int, linkname: Seq<char>) -> Option<(TransferErrorCode, Seq<char>)> {
    if !valid_export_path(path) {
        Some((TransferErrorCode::InvalidArgument, invalid_path_text(path)))
    } else if size < 0 {
        Some((TransferErrorCode::InvalidArgument, "file stat has a negative size"@))
    } else if size > MAX_FILE_SIZE {
        Some((TransferErrorCode::ResourceExhausted, "file exceeds the maximum size"@))
    } else if type_bit_count(mode) > 1 {
        Some((TransferErrorCode::InvalidArgument, "file stat has conflicting file types"@))
    } else if mode & MODE_SYMLINK != 0 {
        linkname_error(linkname)
    } else if mode & MODE_TYPE == 0 && linkname.len() > 0 {
        Some((TransferErrorCode::InvalidArgument, "regular file has an unexpected symlink target"@))
    } else {
        None
    }
}

fn contains_nul(s: &[char]) -> (res: bool)
    ensures
        res == s@.contains('\0'),
{
    let mut i: usize = 0;
    while i < s.len()
        invariant
            i <= s.len(),
            forall|j: int| 0 <= j < i ==> s@[j] != '\0',
        decreases s.len() - i,
    {
        if s[i] == '\0' {
            return true;
        }
        i = i + 1;
    }
    false
}

fn seq_is(s: &Vec<char>, lit: &str) -> (res: bool)
    ensures
        res == (s@ == lit@),
{
    let l = to_chars(lit);
    if s.len() != l.len() {
        assert(s@.len() != lit@.len());
        return false;
    }
    let mut i: usize = 0;
    while i < s.len()
        invariant
            i <= s.len(),
            s@.len() == l@.len(),
            l@ == lit@,
            forall|j: int| 0 <= j < i ==> s@[j] == l@[j],
        decreases s.len() - i,
    {
        if s[i] != l[i] {
            assert(s@[i as int] != l@[i as int]);
            return false;
        }
        i = i + 1;
    }
    assert(s@ =~= l@);
    true
}

fn invalid_path(path: &str) -> (res: TransferError)
    ensures
        res@ == (TransferErrorCode::InvalidArgument, invalid_path_text(path@)),
{
    let mut message = owned("invalid export path: ");
    let shown = debug_str(path);
    push_all(&mut message, shown.as_str());
    TransferError { code: TransferErrorCode::InvalidArgument, message }
}

/// Checks an export path and returns its canonical text (see `path_key`).
pub fn validate_path(path: &str) -> (res: Result<String, TransferError>)
    ensures
        match res {
            Ok(k) => valid_export_path(path@) && k@ == path_key(path@),
            Err(e) => !valid_export_path(path@) && e@ == (TransferErrorCode::InvalidArgument, invalid_path_text(path@)),
        },
{
    let chars = to_chars(path);
    if chars.len() == 0 || path.as_bytes().len() > MAX_PATH_LENGTH || contains_nul(&chars) || chars[0] == '/' {
        return Err(invalid_path(path));
    }
    let segs = split_char(&chars, '/');
    let ghost sp = split_spec(path@, '/');
    proof {
        crate::text::lemma_split_nonempty(path@, '/');
    }
    if seq_is(&segs[0], ".") {
        return Err(invalid_path(path));
    }
    let mut key = String::new();
    let mut any = false;
    let mut i: usize = 0;
    while i < segs.len()
        invariant
            i <= segs@.len(),
            segs@.len() == sp.len(),
            sp == split_spec(path@, '/'),
            forall|j: int| 0 <= j < segs@.len() ==> #[trigger] segs@[j]@ == sp[j],
            forall|j: int| 0 <= j < i ==> #[trigger] sp[j] != ".."@,
            key@ == join_slash(normal_segments(sp.take(i as int))),
            any == (normal_segments(sp.take(i as int)).len() > 0),
        decreases segs@.len() - i,
    {
        let seg = &segs[i];
        proof {
            assert(sp.take(i + 1).drop_last() == sp.take(i as int));
            assert(sp.take(i + 1).last() == sp[i as int]);
        }
        if seq_is(seg, "..") {
            return Err(invalid_path(path));
        }
        if seg.len() > 0 && !seq_is(seg, ".") {
            proof {
                let r = normal_segments(sp.take(i as int));
                assert(normal_segments(sp.take(i + 1)) == r.push(sp[i as int]));
                assert(r.push(sp[i as int]).drop_last() == r);
            }
            if any {
                push_char(&mut key, '/');
            }
            crate::text::push_chars(&mut key, seg.as_slice());
            any = true;
        }
        i = i + 1;
    }
    assert(sp.take(segs@.len() as int) == sp);
    Ok(key)
}

/// Checks a symlink target.
pub fn validate_linkname(linkname: &str) -> (res: Result<(), TransferError>)
    ensures
        match res {
            Ok(_) => linkname_error(linkname@) is None,
            Err(e) => linkname_error(linkname@) == Some(e@),
        },
{
    let chars = to_chars(linkname);
    if chars.len() == 0 {
        return Err(fail(TransferErrorCode::InvalidArgument, "symlink without target"));
    }
    if linkname.as_bytes().len() > MAX_LINKNAME_LENGTH || contains_nul(&chars) {
        return Err(fail(TransferErrorCode::InvalidArgument, "symlink target is too long or invalid"));
    }
    Ok(())
}

fn type_bits(mode: u32) -> (res: u32)
    ensures
        res == type_bit_count(mode),
{
    let mut n: u32 = 0;
    if mode & MODE_DIR != 0 { n = n + 1; }
    if mode & MODE_SYMLINK != 0 { n = n + 1; }
    if mode & MODE_DEVICE != 0 { n = n + 1; }
    if mode & MODE_NAMED_PIPE != 0 { n = n + 1; }
    if mode & MODE_SOCKET != 0 { n = n + 1; }
    if mode & MODE_CHAR_DEVICE != 0 { n = n + 1; }
    if mode & MODE_IRREGULAR != 0 { n = n + 1; }
    n
}

/// Checks an entry's metadata and returns the canonical text of its path.
pub fn validate_stat(stat: &TransferStat) -> (res: Result<String, TransferError>)
    ensures
        match res {
            Ok(k) => stat_error(stat.path@, stat.mode, stat.size as int, stat.linkname@) is None
                && k@ == path_key(stat.path@),
            Err(e) => stat_error(stat.path@, stat.mode, stat.size as int, stat.linkname@) == Some(e@),
        },
{
    let key = match validate_path(stat.path.as_str()) {
        Ok(k) => k,
        Err(e) => return Err(e),
    };
    if stat.size < 0 {
        return Err(fail(TransferErrorCode::InvalidArgument, "file stat has a negative size"));
    }
    if stat.size as u64 > MAX_FILE_SIZE {
        return Err(fail(TransferErrorCode::ResourceExhausted, "file exceeds the maximum size"));
    }
    if type_bits(stat.mode) > 1 {
        return Err(fail(TransferErrorCode::InvalidArgument, "file stat has conflicting file types"));
    }
    if stat.mode & MODE_SYMLINK != 0 {
        match validate_linkname(stat.linkname.as_str()) {
            Ok(_) => {},
            Err(e) => return Err(e),
        }
    } else if stat.mode & MODE_TYPE == 0 && stat.linkname.as_str().as_bytes().len() > 0 {
        proof {
            vstd::utf8::encode_utf8_decode_utf8(stat.linkname@);
            assert(stat.linkname@.len() > 0) by {
                if stat.linkname@.len() == 0 {
                    assert(encode_utf8(stat.linkname@) =~= Seq::<u8>::empty());
                }
            }
        }
        return Err(fail(TransferErrorCode::InvalidArgument, "regular file has an unexpected symlink target"));
    }
    proof {
        if stat.mode & MODE_SYMLINK == 0 && stat.mode & MODE_TYPE == 0 && stat.linkname@.len() > 0 {
            assert(encode_utf8(stat.linkname@).len() > 0) by {
                vstd::utf8::encode_utf8_first_scalar(stat.linkname@);
            }
        }
    }
    Ok(key)
}

} // verus!

verus! {

/// The state of a transfer, in the model.
pub struct LedgerModel {
    /// Regular files waiting for data, by request id.
    pub pending: Map<u32, PendingFile>,
    /// Canonical paths declared so far.
    pub paths: Set<Seq<char>>,
    /// Whether the empty stat packet that ends the announcements arrived.
    pub received_all_stats: bool,
    /// Whether the FIN packet arrived.
    pub received_fin: bool,
    /// The request id the next announced entry gets.
    pub next_stat_id: u32,
    /// Entries accepted so far.
    pub file_count: nat,
    /// Sum of the declared sizes of accepted entries.
    pub total_size: nat,
    /// The limits of this transfer.
    pub limits: FileTransferLimits,
}

/// Every file has been announced and every announced file is complete.
pub open spec fn model_complete(m: LedgerModel) -> bool {
    m.received_all_stats && m.pending.len() == 0
}

/// What holds of every state of a transfer: the limits are respected, no
/// file holds more than it declared, and FIN only follows completion.
pub open spec fn ledger_bounds(m: LedgerModel) -> bool {
    &&& m.pending.dom().finite()
    &&& m.pending.len() <= MAX_PENDING_FILES
    &&& m.file_count <= MAX_FILE_COUNT
    &&& m.total_size <= MAX_TOTAL_SIZE
    &&& (m.limits.max_files matches Some(mf) ==> m.file_count <= mf)
    &&& (m.limits.max_bytes matches Some(mb) ==> m.total_size <= mb)
    &&& forall|id: u32| #[trigger] m.pending.contains_key(id)
        ==> id < m.next_stat_id && m.pending[id].received <= m.pending[id].size
            && m.pending[id].size <= MAX_FILE_SIZE
    &&& (m.received_fin ==> model_complete(m))
}

/// What the caller must do on disk for an accepted entry, after creating the
/// missing parent directories of its path (with mode 0700).
pub enum StatOutcome {
    /// Create a symlink to `linkname`.
    Symlink { linkname: Seq<char> },
    /// Create a directory; set `mode` on it when the transfer is finalized.
    Directory { mode: u32 },
    /// Create the file (mode 0600) and ask the sender for data of request `id`.
    File { id: u32 },
    /// Fail the transfer with this code and message.
    Refuse(TransferErrorCode, Seq<char>),
}

/// The model of the answer to one packet.
pub enum StepOutcome {
    /// Nothing to do.
    Nothing,
    /// The transfer is complete: finalize it and answer with FIN.
    SendFin,
    /// An entry was announced, with its canonical path.
    Stat { key: Seq<char>, outcome: StatOutcome },
    /// Append the packet's data to the file of request `id`.
    WriteData { id: u32 },
    /// The file of request `id` is complete: flush it, set `mode` on it, and
    /// when `then_fin` answer with FIN.
    FinishFile { id: u32, mode: u32, then_fin: bool },
    /// The packet is refused with this code and message; the transfer ends.
    Fail(TransferErrorCode, Seq<char>),
}

/// What a stat packet does to the transfer.
pub open spec fn stat_step(m: LedgerModel, path: Seq<char>, mode: u32, size: int, linkname: Seq<char>) -> (LedgerModel, StepOutcome) {
    let id = m.next_stat_id;
    if m.received_all_stats {
        (m, StepOutcome::Fail(TransferErrorCode::FailedPrecondition, "file stat received after terminating stat packet"@))
    } else if id == u32::MAX {
        (m, StepOutcome::Fail(TransferErrorCode::ResourceExhausted, "file stat request ID exhausted"@))
    } else if size < 0 {
        (m, StepOutcome::Fail(TransferErrorCode::InvalidArgument, "file stat has a negative size"@))
    } else if m.limits.max_files is Some && m.file_count >= m.limits.max_files.unwrap() {
        (m, StepOutcome::Fail(TransferErrorCode::ResourceExhausted, "file transfer exceeds the maximum entry count"@))
    } else if m.limits.max_bytes is Some && m.total_size + size > m.limits.max_bytes.unwrap() {
        (m, StepOutcome::Fail(TransferErrorCode::ResourceExhausted, "file transfer exceeds the maximum byte count"@))
    } else if m.file_count >= MAX_FILE_COUNT {
        (m, StepOutcome::Fail(TransferErrorCode::ResourceExhausted, "too many files in export"@))
    } else if stat_error(path, mode, size, linkname) is Some {
        let (code, message) = stat_error(path, mode, size, linkname).unwrap();
        (m, StepOutcome::Fail(code, message))
    } else if m.paths.contains(path_key(path)) {
        (m, StepOutcome::Fail(TransferErrorCode::AlreadyExists, "duplicate export path: "@ + str_debug(path)))
    } else if m.total_size + size > MAX_TOTAL_SIZE {
        (m, StepOutcome::Fail(TransferErrorCode::ResourceExhausted, "export exceeds the maximum size"@))
    } else {
        let key = path_key(path);
        let accepted = LedgerModel {
            paths: m.paths.insert(key),
            total_size: (m.total_size + size) as nat,
            next_stat_id: (id + 1) as u32,
            file_count: m.file_count + 1,
            ..m
        };
        if mode & MODE_SYMLINK != 0 {
            (accepted, StepOutcome::Stat { key, outcome: StatOutcome::Symlink { linkname } })
        } else if mode & MODE_DIR != 0 {
            (accepted, StepOutcome::Stat { key, outcome: StatOutcome::Directory { mode: mode & MODE_PERM } })
        } else if mode & MODE_TYPE != 0 {
            (m, StepOutcome::Stat {
                key,
                outcome: StatOutcome::Refuse(TransferErrorCode::Unimplemented, "unsupported file type for path "@ + str_debug(path)),
            })
        } else if m.pending.len() >= MAX_PENDING_FILES {
            (m, StepOutcome::Stat {
                key,
                outcome: StatOutcome::Refuse(TransferErrorCode::ResourceExhausted, "too many files are pending data"@),
            })
        } else {
            (
                LedgerModel {
                    pending: m.pending.insert(id, PendingFile { size: size as u64, received: 0, mode }),
                    ..accepted
                },
                StepOutcome::Stat { key, outcome: StatOutcome::File { id } },
            )
        }
    }
}

/// What a data packet with `len` bytes of payload for request `id` does.
pub open spec fn data_step(m: LedgerModel, id: u32, len: nat) -> (LedgerModel, StepOutcome) {
    if !m.pending.contains_key(id) {
        (m, StepOutcome::Fail(
            TransferErrorCode::InvalidArgument,
            if len == 0 { "end-of-file packet for unknown file"@ } else { "data packet for unknown file"@ },
        ))
    } else if len == 0 {
        let f = m.pending[id];
        if f.received != f.size {
            (m, StepOutcome::Fail(
                TransferErrorCode::InvalidArgument,
                "file ended after "@ + decimal_text(f.received as nat) + " of "@ + decimal_text(f.size as nat) + " bytes"@,
            ))
        } else {
            let m2 = LedgerModel { pending: m.pending.remove(id), ..m };
            (m2, StepOutcome::FinishFile { id, mode: f.mode & MODE_PERM, then_fin: model_complete(m2) })
        }
    } else {
        let f = m.pending[id];
        if f.received + len > f.size {
            (m, StepOutcome::Fail(TransferErrorCode::ResourceExhausted, "file transfer exceeds the declared file size"@))
        } else {
            (
                LedgerModel {
                    pending: m.pending.insert(id, PendingFile { received: (f.received + len) as u64, ..f }),
                    ..m
                },
                StepOutcome::WriteData { id },
            )
        }
    }
}

/// What the receiver does with one packet, as the transfer protocol
/// prescribes. A refused packet leaves the state as it was.
pub open spec fn ledger_step(m: LedgerModel, packet_type: i32, stat: Option<(Seq<char>, u32, int, Seq<char>)>, id: u32, data: Seq<u8>) -> (LedgerModel, StepOutcome) {
    if m.received_fin {
        (m, StepOutcome::Fail(TransferErrorCode::FailedPrecondition, "packet received after PACKET_FIN"@))
    } else if packet_type == PACKET_STAT {
        match stat {
            Some((path, mode, size, linkname)) => stat_step(m, path, mode, size, linkname),
            None => if m.received_all_stats {
                (m, StepOutcome::Fail(TransferErrorCode::FailedPrecondition, "duplicate terminating stat packet"@))
            } else {
                let m2 = LedgerModel { received_all_stats: true, ..m };
                (m2, if model_complete(m2) { StepOutcome::SendFin } else { StepOutcome::Nothing })
            },
        }
    } else if packet_type == PACKET_REQ {
        (m, StepOutcome::Fail(TransferErrorCode::FailedPrecondition, "server received a request packet"@))
    } else if packet_type == PACKET_DATA {
        data_step(m, id, data.len())
    } else if packet_type == PACKET_FIN {
        if model_complete(m) {
            (LedgerModel { received_fin: true, ..m }, StepOutcome::Nothing)
        } else {
            (m, StepOutcome::Fail(TransferErrorCode::FailedPrecondition, "file transfer finished before all files were received"@))
        }
    } else if packet_type == PACKET_ERR {
        (m, StepOutcome::Fail(TransferErrorCode::Unknown, "packet error: "@ + lossy_text(data)))
    } else {
        (m, StepOutcome::Fail(TransferErrorCode::InvalidArgument, "unknown packet type"@))
    }
}

/// The model of a packet's stat.
pub open spec fn stat_model(stat: Option<TransferStat>) -> Option<(Seq<char>, u32, int, Seq<char>)> {
    match stat {
        Some(s) => Some((s.path@, s.mode, s.size as int, s.linkname@)),
        None => None,
    }
}

/// What the caller must do on disk for an accepted entry, after creating the
/// missing parent directories of `path` (with mode 0700).
#[derive(Debug, Clone)]
pub enum StatAction {
    /// Create a symlink to `linkname`.
    Symlink { linkname: String },
    /// Create a directory; set `mode` on it when the transfer is finalized.
    Directory { mode: u32 },
    /// Create the file (mode 0600) and ask the sender for data of request `id`.
    File { id: u32 },
    /// Fail the transfer with this error.
    Refuse(TransferError),
}

/// What the caller must do in answer to one packet.
#[derive(Debug, Clone)]
pub enum TransferAction {
    /// Nothing to do.
    Nothing,
    /// The transfer is complete: finalize it and answer with FIN.
    SendFin,
    /// An entry was announced; `path` is its canonical relative path.
    Stat { path: String, action: StatAction },
    /// Append the packet's data to the file of request `id`.
    WriteData { id: u32 },
    /// The file of request `id` is complete: flush it, set `mode` on it, and
    /// when `then_fin` answer with FIN.
    FinishFile { id: u32, mode: u32, then_fin: bool },
}

/// The model of an answer.
pub open spec fn action_model(r: Result<TransferAction, TransferError>) -> StepOutcome {
    match r {
        Err(e) => StepOutcome::Fail(e.code, e.message@),
        Ok(TransferAction::Nothing) => StepOutcome::Nothing,
        Ok(TransferAction::SendFin) => StepOutcome::SendFin,
        Ok(TransferAction::WriteData { id }) => StepOutcome::WriteData { id },
        Ok(TransferAction::FinishFile { id, mode, then_fin }) => StepOutcome::FinishFile { id, mode, then_fin },
        Ok(TransferAction::Stat { path, action }) => StepOutcome::Stat {
            key: path@,
            outcome: match action {
                StatAction::Symlink { linkname } => StatOutcome::Symlink { linkname: linkname@ },
                StatAction::Directory { mode } => StatOutcome::Directory { mode },
                StatAction::File { id } => StatOutcome::File { id },
                StatAction::Refuse(e) => StatOutcome::Refuse(e.code, e.message@),
            },
        },
    }
}

/// The receiving side's record of a packet-based export.
pub struct TransferLedger {
    pending: HashMap<u32, PendingFile>,
    paths: StrMap<bool>,
    received_all_stats: bool,
    received_fin: bool,
    next_stat_id: u32,
    file_count: usize,
    total_size: u64,
    limits: FileTransferLimits,
}

impl View for TransferLedger {
    type V = LedgerModel;

    closed spec fn view(&self) -> LedgerModel {
        LedgerModel {
            pending: self.pending@,
            paths: self.paths@.dom(),
            received_all_stats: self.received_all_stats,
            received_fin: self.received_fin,
            next_stat_id: self.next_stat_id,
            file_count: self.file_count as nat,
            total_size: self.total_size as nat,
            limits: self.limits,
        }
    }
}

impl TransferLedger {
    #[verifier::type_invariant]
    closed spec fn inv(&self) -> bool {
        ledger_bounds(self@)
    }

    /// An empty transfer with the given limits.
    pub fn with_limits(limits: FileTransferLimits) -> (res: Self)
        ensures
            res@.pending == Map::<u32, PendingFile>::empty(),
            res@.paths == Set::<Seq<char>>::empty(),
            !res@.received_all_stats,
            !res@.received_fin,
            res@.next_stat_id == 0,
            res@.file_count == 0,
            res@.total_size == 0,
            res@.limits == limits,
            ledger_bounds(res@),
    {
        let r = TransferLedger {
            pending: HashMap::new(),
            paths: StrMap::new(),
            received_all_stats: false,
            received_fin: false,
            next_stat_id: 0,
            file_count: 0,
            total_size: 0,
            limits,
        };
        assert(r@.pending =~= Map::empty());
        assert(r@.paths =~= Set::empty());
        r
    }

    /// An empty transfer without aggregate limits.
    pub fn new() -> (res: Self)
        ensures
            res@.pending == Map::<u32, PendingFile>::empty(),
            res@.paths == Set::<Seq<char>>::empty(),
            !res@.received_all_stats,
            !res@.received_fin,
            res@.next_stat_id == 0,
            res@.file_count == 0,
            res@.total_size == 0,
            res@.limits.max_files is None && res@.limits.max_bytes is None,
    {
        Self::with_limits(FileTransferLimits::default())
    }

    /// Every entry is announced and every file complete.
    pub fn is_complete(&self) -> (res: bool)
        ensures
            res == model_complete(self@),
    {
        self.received_all_stats && self.pending.is_empty()
    }

    /// Whether the transfer may be finalized: an error unless complete.
    pub fn check_finalize(&self) -> (res: Result<(), TransferError>)
        ensures
            res is Ok <==> model_complete(self@),
            res matches Err(e) ==> e@ == (TransferErrorCode::FailedPrecondition, "file transfer finalized before all files were received"@),
    {
        if self.is_complete() {
            Ok(())
        } else {
            Err(fail(TransferErrorCode::FailedPrecondition, "file transfer finalized before all files were received"))
        }
    }

    /// At the end of the packet stream: an error unless FIN arrived.
    pub fn finish_stream(&self) -> (res: Result<(), TransferError>)
        ensures
            res is Ok <==> self@.received_fin,
            res matches Err(e) ==> e@ == (TransferErrorCode::FailedPrecondition, "file packet stream ended before PACKET_FIN"@),
    {
        if self.received_fin {
            Ok(())
        } else {
            Err(fail(TransferErrorCode::FailedPrecondition, "file packet stream ended before PACKET_FIN"))
        }
    }

    fn receive_stat(&mut self, stat: &TransferStat) -> (res: Result<TransferAction, TransferError>)
        requires
            !old(self)@.received_fin,
        ensures
            ({
                let (m, out) = stat_step(old(self)@, stat.path@, stat.mode, stat.size as int, stat.linkname@);
                final(self)@ == m && action_model(res) == out
            }),
    {
        proof {
            use_type_invariant(&*self);
        }
        if self.received_all_stats {
            return Err(fail(TransferErrorCode::FailedPrecondition, "file stat received after terminating stat packet"));
        }
        let id = self.next_stat_id;
        if id == u32::MAX {
            return Err(fail(TransferErrorCode::ResourceExhausted, "file stat request ID exhausted"));
        }
        if stat.size < 0 {
            return Err(fail(TransferErrorCode::InvalidArgument, "file stat has a negative size"));
        }
        let size = stat.size as u64;
        if let Some(max_files) = self.limits.max_files {
            if self.file_count as u64 >= max_files {
                return Err(fail(TransferErrorCode::ResourceExhausted, "file transfer exceeds the maximum entry count"));
            }
        }
        if let Some(max_bytes) = self.limits.max_bytes {
            if size > max_bytes || self.total_size > max_bytes - size {
                return Err(fail(TransferErrorCode::ResourceExhausted, "file transfer exceeds the maximum byte count"));
            }
        }
        if self.file_count >= MAX_FILE_COUNT {
            return Err(fail(TransferErrorCode::ResourceExhausted, "too many files in export"));
        }
        let key = match validate_stat(stat) {
            Ok(k) => k,
            Err(e) => return Err(e),
        };
        if self.paths.contains_key(key.as_str()) {
            let mut message = owned("duplicate export path: ");
            let shown = debug_str(stat.path.as_str());
            push_all(&mut message, shown.as_str());
            return Err(TransferError { code: TransferErrorCode::AlreadyExists, message });
        }
        if self.total_size > MAX_TOTAL_SIZE - size {
            return Err(fail(TransferErrorCode::ResourceExhausted, "export exceeds the maximum size"));
        }
        let mode = stat.mode;
        if mode & MODE_SYMLINK == 0 && mode & MODE_DIR == 0 {
            if mode & MODE_TYPE != 0 {
                let mut message = owned("unsupported file type for path ");
                let shown = debug_str(stat.path.as_str());
                push_all(&mut message, shown.as_str());
                return Ok(TransferAction::Stat {
                    path: key,
                    action: StatAction::Refuse(TransferError { code: TransferErrorCode::Unimplemented, message }),
                });
            }
            if self.pending.len() >= MAX_PENDING_FILES {
                return Ok(TransferAction::Stat {
                    path: key,
                    action: StatAction::Refuse(fail(TransferErrorCode::ResourceExhausted, "too many files are pending data")),
                });
            }
        }
        let ghost old_model = self@;
        let mut paths = StrMap::new();
        std::mem::swap(&mut paths, &mut self.paths);
        paths.insert(key.clone(), true);
        self.paths = paths;
        self.total_size = self.total_size + size;
        self.next_stat_id = id + 1;
        self.file_count = self.file_count + 1;
        assert(self@.paths =~= old_model.paths.insert(path_key(stat.path@)));
        if mode & MODE_SYMLINK != 0 {
            Ok(TransferAction::Stat { path: key, action: StatAction::Symlink { linkname: stat.linkname.clone() } })
        } else if mode & MODE_DIR != 0 {
            Ok(TransferAction::Stat { path: key, action: StatAction::Directory { mode: mode & MODE_PERM } })
        } else {
            let mut pending: HashMap<u32, PendingFile> = HashMap::new();
            std::mem::swap(&mut pending, &mut self.pending);
            pending.insert(id, PendingFile { size, received: 0, mode });
            self.pending = pending;
            Ok(TransferAction::Stat { path: key, action: StatAction::File { id } })
        }
    }

    fn receive_data(&mut self, id: u32, data_len: usize) -> (res: Result<TransferAction, TransferError>)
        requires
            !old(self)@.received_fin,
        ensures
            ({
                let (m, out) = data_step(old(self)@, id, data_len as nat);
                final(self)@ == m && action_model(res) == out
            }),
    {
        proof {
            use_type_invariant(&*self);
        }
        let f = match self.pending.get(&id) {
            Some(f) => *f,
            None => {
                if data_len == 0 {
                    return Err(fail(TransferErrorCode::InvalidArgument, "end-of-file packet for unknown file"));
                } else {
                    return Err(fail(TransferErrorCode::InvalidArgument, "data packet for unknown file"));
                }
            },
        };
        if data_len == 0 {
            if f.received != f.size {
                let mut message = owned("file ended after ");
                push_decimal(&mut message, f.received);
                push_all(&mut message, " of ");
                push_decimal(&mut message, f.size);
                push_all(&mut message, " bytes");
                return Err(TransferError { code: TransferErrorCode::InvalidArgument, message });
            }
            let mut pending: HashMap<u32, PendingFile> = HashMap::new();
            std::mem::swap(&mut pending, &mut self.pending);
            pending.remove(&id);
            self.pending = pending;
            let then_fin = self.is_complete();
            return Ok(TransferAction::FinishFile { id, mode: f.mode & MODE_PERM, then_fin });
        }
        let len = data_len as u64;
        if len > f.size || f.received > f.size - len {
            return Err(fail(TransferErrorCode::ResourceExhausted, "file transfer exceeds the declared file size"));
        }
        let mut pending: HashMap<u32, PendingFile> = HashMap::new();
        std::mem::swap(&mut pending, &mut self.pending);
        pending.insert(id, PendingFile { received: f.received + len, ..f });
        self.pending = pending;
        Ok(TransferAction::WriteData { id })
    }

    /// Checks one packet against the protocol and the limits, records it, and
    /// says what the caller must do. An error ends the transfer.
    pub fn handle_packet(&mut self, packet: &TransferPacket) -> (res: Result<TransferAction, TransferError>)
        ensures
            ({
                let (m, out) = ledger_step(old(self)@, packet.packet_type, stat_model(packet.stat), packet.id, packet.data@);
                final(self)@ == m && action_model(res) == out
            }),
            ledger_bounds(final(self)@),
    {
        proof {
            use_type_invariant(&*self);
        }
        let r = self.handle_packet_inner(packet);
        proof {
            use_type_invariant(&*self);
        }
        r
    }

    fn handle_packet_inner(&mut self, packet: &TransferPacket) -> (res: Result<TransferAction, TransferError>)
        ensures
            ({
                let (m, out) = ledger_step(old(self)@, packet.packet_type, stat_model(packet.stat), packet.id, packet.data@);
                final(self)@ == m && action_model(res) == out
            }),
    {
        proof {
            use_type_invariant(&*self);
        }
        if self.received_fin {
            return Err(fail(TransferErrorCode::FailedPrecondition, "packet received after PACKET_FIN"));
        }
        let t = packet.packet_type;
        if t == PACKET_STAT {
            match &packet.stat {
                Some(stat) => self.receive_stat(stat),
                None => {
                    if self.received_all_stats {
                        return Err(fail(TransferErrorCode::FailedPrecondition, "duplicate terminating stat packet"));
                    }
                    self.received_all_stats = true;
                    if self.is_complete() {
                        Ok(TransferAction::SendFin)
                    } else {
                        Ok(TransferAction::Nothing)
                    }
                },
            }
        } else if t == PACKET_REQ {
            Err(fail(TransferErrorCode::FailedPrecondition, "server received a request packet"))
        } else if t == PACKET_DATA {
            self.receive_data(packet.id, packet.data.len())
        } else if t == PACKET_FIN {
            if !self.is_complete() {
                return Err(fail(TransferErrorCode::FailedPrecondition, "file transfer finished before all files were received"));
            }
            self.received_fin = true;
            Ok(TransferAction::Nothing)
        } else if t == PACKET_ERR {
            let mut message = owned("packet error: ");
            let text = utf8_lossy(&packet.data);
            push_all(&mut message, text.as_str());
            Err(TransferError { code: TransferErrorCode::Unknown, message })
        } else {
            Err(fail(TransferErrorCode::InvalidArgument, "unknown packet type"))
        }
    }
}

/// What `String::from_utf8_lossy` makes of `bytes`.
pub uninterp spec fn lossy_text(bytes: Seq<u8>) -> Seq<char>;

/// `String::from_utf8_lossy`: the text of `bytes`, with every invalid
/// sequence replaced by U+FFFD. The claim is that the text is fixed by the
/// bytes.
#[verifier::external_body]
fn utf8_lossy(bytes: &Vec<u8>) -> (res: String)
    ensures
        res@ == lossy_text(bytes@),
{
    String::from_utf8_lossy(bytes.as_slice()).into_owned()
}

} // verus!
