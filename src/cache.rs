use vstd::prelude::*;

use crate::text::{concat, last_where, push_char, slice_string};

verus! {

/// Files of this many bytes or more are stored once, under the hash of their content.
pub const DEDUPLICATE_LARGER_THAN: usize = 1024;

/// Length of a content hash written as hex digits.
pub const HASH_HEX_LEN: usize = 64;

/// The bytes "GENTLE HASHED" that open every pointer record.
pub open spec fn hashed_file_prefix() -> Seq<u8> {
    seq![71u8, 69u8, 78u8, 84u8, 76u8, 69u8, 32u8, 72u8, 65u8, 83u8, 72u8, 69u8, 68u8]
}

/// Length of a pointer record: the prefix and 64 hex digits.
pub open spec fn pointer_len() -> nat {
    hashed_file_prefix().len() + 64
}

/// The BLAKE3 digest of `bytes`.
pub uninterp spec fn blake3_digest(bytes: Seq<u8>) -> [u8; 32];

/// The ASCII code of the lowercase hex digit for `n` (below 16).
pub open spec fn hex_digit(n: u8) -> u8 {
    if n < 10 {
        (48 + n) as u8
    } else {
        (87 + n) as u8
    }
}

/// Two lowercase hex digits per byte of `d`, high half first.
pub open spec fn hex_of(d: Seq<u8>) -> Seq<u8>
    decreases d.len(),
{
    if d.len() == 0 {
        seq![]
    } else {
        hex_of(d.drop_last()) + seq![hex_digit(d.last() / 16), hex_digit(d.last() % 16)]
    }
}

/// The content hash of `c` as lowercase hex.
pub open spec fn digest_hex(c: Seq<u8>) -> Seq<u8> {
    hex_of(blake3_digest(c)@)
}

pub open spec fn is_hex_digit(b: u8) -> bool {
    (48 <= b <= 57) || (97 <= b <= 102) || (65 <= b <= 70)
}

pub open spec fn is_lower_hex_digit(b: u8) -> bool {
    (48 <= b <= 57) || (97 <= b <= 102)
}

/// A hex digit with an uppercase letter turned to lowercase.
pub open spec fn lower_hex_digit(b: u8) -> u8 {
    if 65 <= b <= 70 {
        (b + 32) as u8
    } else {
        b
    }
}

/// 64 hex digits, of either case.
pub open spec fn valid_digest_hex(h: Seq<u8>) -> bool {
    h.len() == 64 && forall|i: int| 0 <= i < h.len() ==> is_hex_digit(#[trigger] h[i])
}

/// `h` with its uppercase hex digits in lowercase.
pub open spec fn normalized_hex(h: Seq<u8>) -> Seq<u8> {
    h.map_values(|b: u8| lower_hex_digit(b))
}

/// A pointer record naming the content whose hash is `hex`.
pub open spec fn pointer_record(hex: Seq<u8>) -> Seq<u8> {
    hashed_file_prefix() + hex
}

/// A file is read as a pointer record when it has the record's exact length
/// and starts with its prefix.
pub open spec fn looks_like_pointer(c: Seq<u8>) -> bool {
    c.len() == pointer_len() && c.take(hashed_file_prefix().len() as int) == hashed_file_prefix()
}

/// The hash digits of a pointer record.
pub open spec fn record_hex(c: Seq<u8>) -> Seq<u8> {
    c.skip(hashed_file_prefix().len() as int)
}

/// ASCII bytes read as characters.
pub open spec fn ascii_text(b: Seq<u8>) -> Seq<char> {
    b.map_values(|x: u8| x as char)
}

pub open spec fn absolute_root(cache: Seq<char>) -> Seq<char> {
    cache + "/absolute"@
}

pub open spec fn relative_root(cache: Seq<char>) -> Seq<char> {
    cache + "/relative"@
}

pub open spec fn large_files_dir(cache: Seq<char>) -> Seq<char> {
    cache + "/large_files"@
}

/// Where the content whose hash is `hex` is stored.
pub open spec fn blob_path(cache: Seq<char>, hex: Seq<u8>) -> Seq<char> {
    large_files_dir(cache) + seq!['/'] + ascii_text(hex)
}

/// What copying one file does, seen without its paths.
pub enum Plan {
    /// The bytes go to the destination unchanged.
    Verbatim,
    /// The file is a pointer record; the blob at this path goes to the destination.
    Restore(Seq<char>),
    /// This record goes to the destination and the content to the blob at this path.
    Deduplicate(Seq<u8>, Seq<char>),
}

/// The plan for a file with contents `c` under the cache root `cache`;
/// `None` for a pointer record whose digits are not a hash.
pub open spec fn plan_of(cache: Seq<char>, c: Seq<u8>) -> Option<Plan> {
    if looks_like_pointer(c) {
        if valid_digest_hex(record_hex(c)) {
            Some(Plan::Restore(blob_path(cache, normalized_hex(record_hex(c)))))
        } else {
            None
        }
    } else if c.len() < DEDUPLICATE_LARGER_THAN {
        Some(Plan::Verbatim)
    } else {
        Some(Plan::Deduplicate(pointer_record(digest_hex(c)), blob_path(cache, digest_hex(c))))
    }
}

/// What copying a file with contents `c` leaves at its destination, and the
/// blobs (by path) afterwards; `None` where the copy fails.
pub open spec fn copy_outcome(cache: Seq<char>, c: Seq<u8>, blobs: Map<Seq<char>, Seq<u8>>) -> Option<
    (Seq<u8>, Map<Seq<char>, Seq<u8>>),
> {
    match plan_of(cache, c) {
        None => None,
        Some(Plan::Verbatim) => Some((c, blobs)),
        Some(Plan::Restore(b)) => if blobs.contains_key(b) {
            Some((blobs[b], blobs))
        } else {
            None
        },
        Some(Plan::Deduplicate(record, b)) => Some(
            (record, if blobs.contains_key(b) {
                blobs
            } else {
                blobs.insert(b, c)
            }),
        ),
    }
}

#[derive(Debug, PartialEq, Eq, Clone, Copy, Structural)]
pub enum CacheError {
    /// A pointer record whose digits are not a hash.
    InvalidHash,
}

/// How to copy one regular file.
#[derive(Debug, PartialEq, Eq)]
pub enum FileAction {
    /// Copy the file to its destination unchanged.
    CopyVerbatim,
    /// The file is a pointer record: copy the blob at `blob` to the destination.
    Restore { blob: String },
    /// Write `record` at the destination and copy the file to `blob`, unless
    /// that blob exists already.
    Deduplicate { record: Vec<u8>, blob: String },
}

impl View for FileAction {
    type V = Plan;

    open spec fn view(&self) -> Plan {
        match self {
            FileAction::CopyVerbatim => Plan::Verbatim,
            FileAction::Restore { blob } => Plan::Restore(blob@),
            FileAction::Deduplicate { record, blob } => Plan::Deduplicate(record@, blob@),
        }
    }
}

/// The 32-byte content hash of `bytes`.
/// Relies on `blake3::hash`, whose BLAKE3 digest depends on the input alone.
#[verifier::external_body]
fn content_digest(bytes: &[u8]) -> (r: [u8; 32])
    ensures
        r == blake3_digest(bytes@),
{
    *blake3::hash(bytes).as_bytes()
}

/// The bytes that open every pointer record.
pub fn hashed_file_prefix_bytes() -> (r: Vec<u8>)
    ensures
        r@ == hashed_file_prefix(),
{
    let r: Vec<u8> = vec![71u8, 69u8, 78u8, 84u8, 76u8, 69u8, 32u8, 72u8, 65u8, 83u8, 72u8, 69u8, 68u8];
    assert(r@ =~= hashed_file_prefix());
    r
}

fn hex_digit_of(n: u8) -> (r: u8)
    requires
        n < 16,
    ensures
        r == hex_digit(n),
{
    if n < 10 {
        48 + n
    } else {
        87 + n
    }
}

/// The digest `d` as 64 lowercase hex digits.
pub fn digest_to_hex(d: &[u8; 32]) -> (r: Vec<u8>)
    ensures
        r@ == hex_of(d@),
{
    let mut out: Vec<u8> = Vec::new();
    let mut i: usize = 0;
    while i < 32
        invariant
            i <= 32,
            d@.len() == 32,
            out@ == hex_of(d@.take(i as int)),
        decreases 32 - i,
    {
        let b = d[i];
        out.push(hex_digit_of(b / 16));
        out.push(hex_digit_of(b % 16));
        proof {
            let t = d@.take(i + 1);
            assert(t.drop_last() =~= d@.take(i as int));
            assert(t.last() == b);
        }
        i += 1;
    }
    assert(d@.take(32) =~= d@);
    out
}

/// The content hash of `bytes` as 64 lowercase hex digits.
pub fn content_hash_hex(bytes: &[u8]) -> (r: Vec<u8>)
    ensures
        r@ == digest_hex(bytes@),
        r@.len() == HASH_HEX_LEN,
{
    let digest = content_digest(bytes);
    proof {
        lemma_hex_of(digest@);
    }
    digest_to_hex(&digest)
}

/// Whether `contents` is read as a pointer record.
pub fn is_pointer_record(contents: &[u8]) -> (r: bool)
    ensures
        r == looks_like_pointer(contents@),
{
    let prefix = hashed_file_prefix_bytes();
    if contents.len() != prefix.len() + HASH_HEX_LEN {
        return false;
    }
    let mut i: usize = 0;
    while i < prefix.len()
        invariant
            i <= prefix@.len(),
            prefix@ == hashed_file_prefix(),
            contents@.len() == pointer_len(),
            forall|j: int| 0 <= j < i ==> contents@[j] == prefix@[j],
        decreases prefix@.len() - i,
    {
        if contents[i] != prefix[i] {
            assert(contents@.take(prefix@.len() as int)[i as int] != hashed_file_prefix()[i as int]);
            return false;
        }
        i += 1;
    }
    assert(contents@.take(prefix@.len() as int) =~= hashed_file_prefix());
    true
}

/// The hash digits of a pointer record in lowercase, or `None` when they are
/// not 64 hex digits.
fn normalized_record_hex(contents: &[u8]) -> (r: Option<Vec<u8>>)
    requires
        looks_like_pointer(contents@),
    ensures
        match r {
            Some(h) => valid_digest_hex(record_hex(contents@)) && h@ == normalized_hex(
                record_hex(contents@),
            ),
            None => !valid_digest_hex(record_hex(contents@)),
        },
{
    let start: usize = 13;
    let ghost hex = record_hex(contents@);
    let mut out: Vec<u8> = Vec::new();
    let mut i: usize = start;
    while i < contents.len()
        invariant
            start <= i <= contents@.len(),
            contents@.len() == start + 64,
            hex == contents@.skip(start as int),
            out@ =~= normalized_hex(hex).take(i - start),
            forall|j: int| 0 <= j < i - start ==> is_hex_digit(#[trigger] hex[j]),
        decreases contents@.len() - i,
    {
        let b = contents[i];
        assert(hex[i - start] == b);
        if !((48 <= b && b <= 57) || (97 <= b && b <= 102) || (65 <= b && b <= 70)) {
            return None;
        }
        if 65 <= b && b <= 70 {
            out.push(b + 32);
        } else {
            out.push(b);
        }
        i += 1;
    }
    assert(out@ =~= normalized_hex(hex));
    Some(out)
}

/// Appends the ASCII bytes `b` to `s` as characters.
fn append_ascii(s: &mut String, b: &Vec<u8>)
    ensures
        final(s)@ == old(s)@ + ascii_text(b@),
{
    let ghost start = s@;
    let mut i: usize = 0;
    while i < b.len()
        invariant
            i <= b@.len(),
            s@ =~= start + ascii_text(b@).take(i as int),
        decreases b@.len() - i,
    {
        push_char(s, b[i] as char);
        i += 1;
    }
    assert(ascii_text(b@).take(b@.len() as int) =~= ascii_text(b@));
}

/// Where the content whose hash is `hex` is stored under `cache`.
pub fn blob_path_of(cache: &str, hex: &Vec<u8>) -> (r: String)
    ensures
        r@ == blob_path(cache@, hex@),
{
    let mut r = concat(cache, "/large_files");
    push_char(&mut r, '/');
    append_ascii(&mut r, hex);
    r
}

/// The pointer record for the content whose hash is `hex`.
pub fn pointer_record_for(hex: &Vec<u8>) -> (r: Vec<u8>)
    ensures
        r@ == pointer_record(hex@),
{
    let mut r = hashed_file_prefix_bytes();
    let mut i: usize = 0;
    while i < hex.len()
        invariant
            i <= hex@.len(),
            r@ =~= hashed_file_prefix() + hex@.take(i as int),
        decreases hex@.len() - i,
    {
        r.push(hex[i]);
        i += 1;
    }
    assert(hex@.take(hex@.len() as int) =~= hex@);
    r
}

/// Decides how a regular file with `contents` is copied under the cache root
/// `cache`: a pointer record is resolved to its blob, content shorter than
/// the threshold is copied as it is, and larger content is stored once under
/// its hash with a pointer record in its place.
pub fn plan_file(cache: &str, contents: &[u8]) -> (r: Result<FileAction, CacheError>)
    ensures
        match r {
            Ok(a) => plan_of(cache@, contents@) == Some(a@),
            Err(_) => plan_of(cache@, contents@) is None,
        },
{
    if is_pointer_record(contents) {
        match normalized_record_hex(contents) {
            Some(h) => Ok(FileAction::Restore { blob: blob_path_of(cache, &h) }),
            None => Err(CacheError::InvalidHash),
        }
    } else if contents.len() < DEDUPLICATE_LARGER_THAN {
        Ok(FileAction::CopyVerbatim)
    } else {
        let hex = content_hash_hex(contents);
        Ok(FileAction::Deduplicate { record: pointer_record_for(&hex), blob: blob_path_of(cache, &hex) })
    }
}
/// A path written from the root.
pub open spec fn is_absolute(path: Seq<char>) -> bool {
    path.len() > 0 && path[0] == '/'
}

/// Where saving `path` copies from, and to: an absolute path keeps its place
/// under `absolute`, a relative one is read under `pwd` and kept under `relative`.
pub open spec fn save_roots_of(cache: Seq<char>, pwd: Seq<char>, path: Seq<char>) -> (
    Seq<char>,
    Seq<char>,
) {
    if is_absolute(path) {
        (path, absolute_root(cache) + path)
    } else {
        (pwd + seq!['/'] + path, relative_root(cache) + seq!['/'] + path)
    }
}

/// `s` with each "//" read from the left turned into "/".
pub open spec fn collapse_slashes(s: Seq<char>) -> Seq<char>
    decreases s.len(),
{
    if s.len() < 2 {
        s
    } else if s[0] == '/' && s[1] == '/' {
        seq!['/'] + collapse_slashes(s.skip(2))
    } else {
        seq![s[0]] + collapse_slashes(s.skip(1))
    }
}

/// Holds of the positions of `s` that carry a '/'.
pub open spec fn is_slash(s: Seq<char>) -> spec_fn(int) -> bool {
    |j: int| s[j] == '/'
}

/// The directory that holds `dir`: the text before its last '/'.
pub open spec fn parent_of(dir: Seq<char>) -> Option<Seq<char>> {
    let k = last_where(dir.len() as int, is_slash(dir));
    if k < 0 {
        None
    } else {
        Some(dir.take(k))
    }
}

/// The directory under the cache root where blobs are kept.
pub fn large_files_path(cache: &str) -> (r: String)
    ensures
        r@ == large_files_dir(cache@),
{
    concat(cache, "/large_files")
}

/// Where saving `path` copies from, and to.
pub fn save_roots(cache: &str, pwd: &str, path: &str) -> (r: (String, String))
    ensures
        (r.0@, r.1@) == save_roots_of(cache@, pwd@, path@),
{
    if path.unicode_len() > 0 && path.get_char(0) == '/' {
        let to = concat(concat(cache, "/absolute").as_str(), path);
        (String::from_str(path), to)
    } else {
        let mut from = concat(pwd, "/");
        from.append(path);
        let mut to = concat(cache, "/relative/");
        to.append(path);
        proof {
            reveal_strlit("/");
            reveal_strlit("/relative/");
            reveal_strlit("/relative");
        }
        assert(from@ =~= pwd@ + seq!['/'] + path@);
        assert(to@ =~= relative_root(cache@) + seq!['/'] + path@);
        (from, to)
    }
}

/// The trees that loading copies, each with its destination: `absolute` goes
/// to the root and `relative` to `pwd`.
pub fn load_roots(cache: &str, pwd: &str) -> (r: Vec<(String, String)>)
    ensures
        r@.len() == 2,
        r@[0].0@ == absolute_root(cache@),
        r@[0].1@ == seq!['/'],
        r@[1].0@ == relative_root(cache@),
        r@[1].1@ == pwd@,
{
    let root = String::from_str("/");
    proof {
        reveal_strlit("/");
    }
    assert(root@ =~= seq!['/']);
    let mut r: Vec<(String, String)> = Vec::new();
    r.push((concat(cache, "/absolute"), root));
    r.push((concat(cache, "/relative"), String::from_str(pwd)));
    r
}

/// The path of the entry `name` of the directory `dir` that is copied from.
pub fn source_child(dir: &str, name: &str) -> (r: String)
    ensures
        r@ == dir@ + seq!['/'] + name@,
{
    let mut r = String::from_str(dir);
    push_char(&mut r, '/');
    r.append(name);
    r
}

/// The path of the entry `name` of the directory `dir` that is copied to,
/// with each "//" turned into "/".
pub fn destination_child(dir: &str, name: &str) -> (r: String)
    ensures
        r@ == collapse_slashes(dir@ + seq!['/'] + name@),
{
    let joined = source_child(dir, name);
    let s = joined.as_str();
    let n = s.unicode_len();
    let mut out = String::new();
    let mut i: usize = 0;
    assert(s@.skip(0) =~= s@);
    assert(out@ + collapse_slashes(s@) =~= collapse_slashes(s@));
    while i < n
        invariant
            i <= n,
            n == s@.len(),
            out@ + collapse_slashes(s@.skip(i as int)) == collapse_slashes(s@),
        decreases n - i,
    {
        let ghost rest = s@.skip(i as int);
        if i + 1 < n && s.get_char(i) == '/' && s.get_char(i + 1) == '/' {
            assert(rest.skip(2) =~= s@.skip(i + 2));
            push_char(&mut out, '/');
            i += 2;
            assert(out@ + collapse_slashes(s@.skip(i as int)) =~= collapse_slashes(s@));
        } else {
            let c = s.get_char(i);
            proof {
                if rest.len() >= 2 {
                    assert(rest.skip(1) =~= s@.skip(i + 1));
                } else {
                    assert(s@.skip(i + 1).len() == 0);
                    assert(rest =~= seq![c]);
                }
            }
            push_char(&mut out, c);
            i += 1;
            assert(out@ + collapse_slashes(s@.skip(i as int)) =~= collapse_slashes(s@));
        }
    }
    assert(s@.skip(n as int) =~= Seq::<char>::empty());
    assert(out@ =~= out@ + collapse_slashes(s@.skip(n as int)));
    out
}

/// The directory that holds `dir`, or `None` when `dir` holds no '/'.
pub fn parent_dir(dir: &str) -> (r: Option<String>)
    ensures
        match r {
            Some(p) => parent_of(dir@) == Some(p@),
            None => parent_of(dir@) is None,
        },
{
    let n = dir.unicode_len();
    let mut i: usize = n;
    while i > 0
        invariant
            i <= n,
            n == dir@.len(),
            last_where(i as int, is_slash(dir@)) == last_where(n as int, is_slash(dir@)),
        decreases i,
    {
        if dir.get_char(i - 1) == '/' {
            return Some(slice_string(dir, 0, i - 1));
        }
        i -= 1;
    }
    None
}
proof fn lemma_hex_of(d: Seq<u8>)
    ensures
        hex_of(d).len() == 2 * d.len(),
        forall|i: int| 0 <= i < hex_of(d).len() ==> is_lower_hex_digit(#[trigger] hex_of(d)[i]),
    decreases d.len(),
{
    if d.len() > 0 {
        lemma_hex_of(d.drop_last());
        let l = d.last();
        assert(l / 16 < 16);
        assert(l % 16 < 16);
    }
}

/// The pointer record for the hash of `c` is read back as a pointer record
/// naming that same hash.
pub proof fn lemma_record_of_digest(c: Seq<u8>)
    ensures
        digest_hex(c).len() == 64,
        valid_digest_hex(digest_hex(c)),
        normalized_hex(digest_hex(c)) == digest_hex(c),
        looks_like_pointer(pointer_record(digest_hex(c))),
        record_hex(pointer_record(digest_hex(c))) == digest_hex(c),
        pointer_record(digest_hex(c)).len() == pointer_len(),
{
    let h = digest_hex(c);
    lemma_hex_of(blake3_digest(c)@);
    assert(normalized_hex(h) =~= h);
    let r = pointer_record(h);
    assert(r.take(hashed_file_prefix().len() as int) =~= hashed_file_prefix());
    assert(record_hex(r) =~= h);
}

/// Saving a file and then loading what was saved gives back the file's
/// contents. This holds for every file that is not itself read as a pointer
/// record, as long as the blob store holds no other content under its hash.
pub proof fn law_round_trip(cache: Seq<char>, c: Seq<u8>, blobs: Map<Seq<char>, Seq<u8>>)
    requires
        !looks_like_pointer(c),
        c.len() >= DEDUPLICATE_LARGER_THAN && blobs.contains_key(blob_path(cache, digest_hex(c)))
            ==> blobs[blob_path(cache, digest_hex(c))] == c,
    ensures
        copy_outcome(cache, c, blobs) matches Some((stored, after)) && copy_outcome(
            cache,
            stored,
            after,
        ) == Some((c, after)),
{
    lemma_record_of_digest(c);
}

/// Saving keeps each path's place: an absolute path is stored under
/// `absolute` at the same path, which loading copies back under the root;
/// a relative path is read under `pwd` and stored under `relative` at the same
/// relative path, which loading copies back under its `pwd`.
pub proof fn law_roots_round_trip(cache: Seq<char>, pwd: Seq<char>, path: Seq<char>)
    ensures
        is_absolute(path) ==> save_roots_of(cache, pwd, path).0 == seq!['/'] + path.skip(1)
            && save_roots_of(cache, pwd, path).1 == absolute_root(cache) + seq!['/'] + path.skip(1),
        !is_absolute(path) ==> save_roots_of(cache, pwd, path).0 == pwd + seq!['/'] + path
            && save_roots_of(cache, pwd, path).1 == relative_root(cache) + seq!['/'] + path,
{
    if is_absolute(path) {
        assert(path =~= seq!['/'] + path.skip(1));
        assert(absolute_root(cache) + path =~= absolute_root(cache) + seq!['/'] + path.skip(1));
    }
}

/// Copying the files `files` one after the other: what each leaves at its
/// destination, and the blobs afterwards.
pub open spec fn copy_all(cache: Seq<char>, files: Seq<Seq<u8>>, blobs: Map<Seq<char>, Seq<u8>>) -> Option<
    (Seq<Seq<u8>>, Map<Seq<char>, Seq<u8>>),
>
    decreases files.len(),
{
    if files.len() == 0 {
        Some((seq![], blobs))
    } else {
        match copy_all(cache, files.drop_last(), blobs) {
            None => None,
            Some((stored, mid)) => match copy_outcome(cache, files.last(), mid) {
                None => None,
                Some((s, after)) => Some((stored.push(s), after)),
            },
        }
    }
}

/// Saving any number of files with the same content of at least the threshold
/// stores that content in one blob, and leaves at each file's place a pointer
/// record of the prefix's length and 64 digits.
pub proof fn law_deduplication(
    cache: Seq<char>,
    c: Seq<u8>,
    files: Seq<Seq<u8>>,
    blobs: Map<Seq<char>, Seq<u8>>,
)
    requires
        c.len() >= DEDUPLICATE_LARGER_THAN,
        forall|i: int| 0 <= i < files.len() ==> #[trigger] files[i] == c,
        !blobs.contains_key(blob_path(cache, digest_hex(c))),
    ensures
        copy_all(cache, files, blobs) matches Some((stored, after)) && stored.len() == files.len()
            && (forall|i: int|
            0 <= i < stored.len() ==> #[trigger] stored[i] == pointer_record(digest_hex(c))
                && stored[i].len() == pointer_len()) && after == (if files.len() == 0 {
            blobs
        } else {
            blobs.insert(blob_path(cache, digest_hex(c)), c)
        }),
    decreases files.len(),
{
    lemma_record_of_digest(c);
    if files.len() > 0 {
        let prefix = files.drop_last();
        assert forall|i: int| 0 <= i < prefix.len() implies #[trigger] prefix[i] == c by {
            assert(prefix[i] == files[i]);
        }
        law_deduplication(cache, c, prefix, blobs);
        assert(files.last() == files[files.len() - 1]);
        let (stored, mid) = copy_all(cache, prefix, blobs).unwrap();
        let b = blob_path(cache, digest_hex(c));
        if prefix.len() > 0 {
            assert(mid.contains_key(b));
            assert(mid.insert(b, c) =~= mid);
        }
    }
}

/// Content of exactly the threshold is stored once under its hash: a pointer
/// record of the prefix's length and 64 digits takes its place, and the blob
/// holds the content (unless a blob there held other content already);
/// content one byte shorter is copied as it is, and what lands at its place
/// is no pointer record. More generally, content that is not a pointer record is
/// stored under its hash exactly when it reaches the threshold.
pub proof fn law_threshold(cache: Seq<char>, c: Seq<u8>, blobs: Map<Seq<char>, Seq<u8>>)
    ensures
        c.len() == DEDUPLICATE_LARGER_THAN ==> plan_of(cache, c) == Some(
            Plan::Deduplicate(pointer_record(digest_hex(c)), blob_path(cache, digest_hex(c))),
        ),
        c.len() == DEDUPLICATE_LARGER_THAN - 1 ==> plan_of(cache, c) == Some(Plan::Verbatim)
            && copy_outcome(cache, c, blobs) == Some((c, blobs)) && !looks_like_pointer(c),
        !looks_like_pointer(c) ==> (plan_of(cache, c) is Some && (plan_of(cache, c)->0 is Deduplicate
            <==> c.len() >= DEDUPLICATE_LARGER_THAN)),
        c.len() == DEDUPLICATE_LARGER_THAN && (blobs.contains_key(blob_path(cache, digest_hex(c)))
            ==> blobs[blob_path(cache, digest_hex(c))] == c) ==> (copy_outcome(cache, c, blobs) matches Some(
            (stored, after),
        ) && stored == pointer_record(digest_hex(c)) && stored.len() == pointer_len()
            && after.contains_key(blob_path(cache, digest_hex(c))) && after[blob_path(
            cache,
            digest_hex(c),
        )] == c),
{
    lemma_record_of_digest(c);
}

/// Saving the same large content a second time stores no second blob and
/// leaves the blob in place untouched, and the second save changes nothing.
pub proof fn law_idempotent_save(cache: Seq<char>, c: Seq<u8>, blobs: Map<Seq<char>, Seq<u8>>)
    requires
        c.len() >= DEDUPLICATE_LARGER_THAN,
    ensures
        copy_outcome(cache, c, blobs) matches Some((stored, after)) && after.contains_key(
            blob_path(cache, digest_hex(c)),
        ) && (blobs.contains_key(blob_path(cache, digest_hex(c))) ==> after == blobs)
            && copy_outcome(cache, c, after) == Some((stored, after)),
{
}

} // verus!
