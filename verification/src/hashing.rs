//! Content fingerprints: the SHA-1 of a file and of its first 128 KiB,
//! written as upper-case hexadecimal.

use vstd::prelude::*;
use vstd::slice::slice_subrange;
use sha1::Digest;
use crate::text::digit_char;

verus! {

/// Length of the leading part of a file that is fingerprinted on its own:
/// 128 KiB.
pub const PRE_HASH_LEN: u64 = 131072;

/// The fingerprints of a file: the SHA-1 of all of it and of its leading
/// part, each as 40 upper-case hexadecimal digits.
#[derive(Clone, Debug, PartialEq, Eq)]
pub struct FileHashResult {
    pub sha1: String,
    pub pre_sha1: String,
}

/// A running SHA-1 computation of the `sha1` crate.
#[verifier::external_body]
pub struct Sha1State {
    inner: sha1::Sha1,
}

/// The bytes that a running SHA-1 computation has been fed, in order.
pub uninterp spec fn sha1_absorbed(state: Sha1State) -> Seq<u8>;

/// The SHA-1 digest of a sequence of bytes.
pub uninterp spec fn sha1_digest(bytes: Seq<u8>) -> Seq<u8>;

/// `Sha1::new` of the `sha1` crate: a computation that has been fed
/// nothing.
#[verifier::external_body]
fn sha1_new() -> (state: Sha1State)
    ensures
        sha1_absorbed(state) == Seq::<u8>::empty(),
{
    Sha1State { inner: sha1::Sha1::new() }
}

/// `Digest::update` of the `sha1` crate: the computation is fed `data`
/// after what it was fed before.
#[verifier::external_body]
fn sha1_update(state: &mut Sha1State, data: &[u8])
    ensures
        sha1_absorbed(*final(state)) == sha1_absorbed(*old(state)) + data@,
{
    state.inner.update(data);
}

/// `Digest::finalize` of the `sha1` crate: the digest, 20 bytes long, of
/// all that the computation was fed, however it was cut into pieces.
#[verifier::external_body]
fn sha1_finalize(state: Sha1State) -> (digest: Vec<u8>)
    ensures
        digest@ == sha1_digest(sha1_absorbed(state)),
        digest@.len() == 20,
{
    state.inner.finalize().to_vec()
}

/// The upper-case character of a hexadecimal digit; of 15 where `d` is
/// larger.
pub open spec fn hex_digit_char(d: int) -> char {
    if d < 10 {
        digit_char(d)
    } else if d == 10 {
        'A'
    } else if d == 11 {
        'B'
    } else if d == 12 {
        'C'
    } else if d == 13 {
        'D'
    } else if d == 14 {
        'E'
    } else {
        'F'
    }
}

/// Bytes in upper-case hexadecimal, two digits each, the high one first.
pub open spec fn hex_upper(bytes: Seq<u8>) -> Seq<char>
    decreases bytes.len(),
{
    if bytes.len() == 0 {
        Seq::empty()
    } else {
        hex_upper(bytes.drop_last()).push(hex_digit_char(bytes.last() as int / 16)).push(
            hex_digit_char(bytes.last() as int % 16),
        )
    }
}

/// The fingerprint of a sequence of bytes: its SHA-1 digest in upper-case
/// hexadecimal.
pub open spec fn fingerprint(bytes: Seq<u8>) -> Seq<char> {
    hex_upper(sha1_digest(bytes))
}

/// The leading part of `bytes` that is fingerprinted on its own: all of it
/// up to 128 KiB.
pub open spec fn head_of(bytes: Seq<u8>) -> Seq<u8> {
    if bytes.len() <= PRE_HASH_LEN {
        bytes
    } else {
        bytes.take(PRE_HASH_LEN as int)
    }
}

/// Hexadecimal text is twice as long as the bytes it writes.
pub proof fn lemma_hex_upper_len(bytes: Seq<u8>)
    ensures
        hex_upper(bytes).len() == 2 * bytes.len(),
    decreases bytes.len(),
{
    if bytes.len() > 0 {
        lemma_hex_upper_len(bytes.drop_last());
    }
}

/// The upper-case character of the hexadecimal digit `d`; of 15 where `d`
/// is larger.
pub fn hex_digit(d: u8) -> (c: char)
    ensures
        c == hex_digit_char(d as int),
{
    match d {
        0 => '0',
        1 => '1',
        2 => '2',
        3 => '3',
        4 => '4',
        5 => '5',
        6 => '6',
        7 => '7',
        8 => '8',
        9 => '9',
        10 => 'A',
        11 => 'B',
        12 => 'C',
        13 => 'D',
        14 => 'E',
        _ => 'F',
    }
}

/// Writes bytes in upper-case hexadecimal.
pub fn to_hex_upper(bytes: &[u8]) -> (text: String)
    ensures
        text@ == hex_upper(bytes@),
{
    let mut text: String = String::new();
    let mut i: usize = 0;
    while i < bytes.len()
        invariant
            i <= bytes@.len(),
            text@ == hex_upper(bytes@.take(i as int)),
        decreases bytes@.len() - i,
    {
        let b: u8 = bytes[i];
        text.push(hex_digit(b / 16));
        text.push(hex_digit(b % 16));
        proof {
            assert(bytes@.take(i + 1).drop_last() =~= bytes@.take(i as int));
            assert(bytes@.take(i + 1).last() == b);
        }
        i = i + 1;
    }
    proof {
        assert(bytes@.take(bytes@.len() as int) =~= bytes@);
    }
    text
}

/// The fingerprint of `data`.
pub fn sha1_hex(data: &[u8]) -> (text: String)
    ensures
        text@ == fingerprint(data@),
        text@.len() == 40,
{
    let mut state = sha1_new();
    sha1_update(&mut state, data);
    proof {
        assert(Seq::<u8>::empty() + data@ =~= data@);
    }
    let digest = sha1_finalize(state);
    proof {
        lemma_hex_upper_len(digest@);
    }
    to_hex_upper(digest.as_slice())
}

/// Why a range of a file cannot be fingerprinted.
#[derive(Clone, Copy, Debug, PartialEq, Eq, Structural)]
pub enum RangeError {
    /// The range ends before it starts.
    Reversed,
    /// The range reaches beyond the end of the data.
    OutOfBounds,
}

/// The number of bytes from offset `start` to offset `end`, both included,
/// or `None` where the range ends before it starts or its length does not
/// fit.
pub fn inclusive_len(start: u64, end: u64) -> (len: Option<u64>)
    ensures
        len.is_some() == (start <= end && end - start < u64::MAX),
        len matches Some(n) ==> n == end - start + 1,
{
    if start <= end && end - start < u64::MAX {
        Some(end - start + 1)
    } else {
        None
    }
}

/// The fingerprint of the bytes of `data` from offset `start` to offset
/// `end`, both included.
pub fn compute_partial_sha1(data: &[u8], start: u64, end: u64) -> (result: Result<
    String,
    RangeError,
>)
    ensures
        start > end ==> result == Err::<String, RangeError>(RangeError::Reversed),
        start <= end && end >= data@.len() ==> result == Err::<String, RangeError>(
            RangeError::OutOfBounds,
        ),
        start <= end < data@.len() ==> result is Ok && result->Ok_0@ == fingerprint(
            data@.subrange(start as int, end + 1),
        ),
{
    if start > end {
        return Err(RangeError::Reversed);
    }
    if end >= data.len() as u64 {
        return Err(RangeError::OutOfBounds);
    }
    let part = slice_subrange(data, start as usize, end as usize + 1);
    Ok(sha1_hex(part))
}

/// A fingerprint computation over a file that is read piece by piece.
pub struct FileHasher {
    whole: Sha1State,
    head: Sha1State,
    head_len: u64,
}

impl View for FileHasher {
    type V = Seq<u8>;

    /// The bytes fed so far.
    closed spec fn view(&self) -> Seq<u8> {
        sha1_absorbed(self.whole)
    }
}

impl FileHasher {
    /// The leading part was fed to its own computation, and no more.
    pub closed spec fn wf(&self) -> bool {
        &&& sha1_absorbed(self.head) == head_of(sha1_absorbed(self.whole))
        &&& self.head_len == sha1_absorbed(self.head).len()
        &&& self.head_len <= PRE_HASH_LEN
    }

    /// A computation that has been fed nothing.
    pub fn new() -> (hasher: FileHasher)
        ensures
            hasher.wf(),
            hasher@ == Seq::<u8>::empty(),
    {
        FileHasher { whole: sha1_new(), head: sha1_new(), head_len: 0 }
    }

    /// Feeds the next piece of the file.
    pub fn update(&mut self, chunk: &[u8])
        requires
            old(self).wf(),
        ensures
            final(self).wf(),
            final(self)@ == old(self)@ + chunk@,
    {
        let ghost before = self@;
        sha1_update(&mut self.whole, chunk);
        if self.head_len < PRE_HASH_LEN {
            let room: u64 = PRE_HASH_LEN - self.head_len;
            let take: usize = if (chunk.len() as u64) < room {
                chunk.len()
            } else {
                room as usize
            };
            let piece = slice_subrange(chunk, 0, take);
            sha1_update(&mut self.head, piece);
            self.head_len = self.head_len + take as u64;
            proof {
                assert(head_of(before) == before);
                assert(before + chunk@.subrange(0, take as int) =~= head_of(before + chunk@));
            }
        } else {
            proof {
                assert(head_of(before) =~= head_of(before + chunk@));
            }
        }
    }

    /// Ends the computation: the fingerprint of all that was fed, and that
    /// of its leading part.
    pub fn finish(self) -> (result: FileHashResult)
        requires
            self.wf(),
        ensures
            result.sha1@ == fingerprint(self@),
            result.pre_sha1@ == fingerprint(head_of(self@)),
            result.sha1@.len() == 40,
            result.pre_sha1@.len() == 40,
    {
        let whole = sha1_finalize(self.whole);
        let head = sha1_finalize(self.head);
        proof {
            lemma_hex_upper_len(whole@);
            lemma_hex_upper_len(head@);
        }
        FileHashResult {
            sha1: to_hex_upper(whole.as_slice()),
            pre_sha1: to_hex_upper(head.as_slice()),
        }
    }
}

/// The fingerprints of a file with the content `data`: the SHA-1 of all of
/// it and the SHA-1 of its first 128 KiB, or of all of it where it is
/// shorter.
pub fn compute_file_hash(data: &[u8]) -> (result: FileHashResult)
    ensures
        result.sha1@ == fingerprint(data@),
        result.pre_sha1@ == fingerprint(head_of(data@)),
        result.sha1@.len() == 40,
        result.pre_sha1@.len() == 40,
{
    let mut hasher = FileHasher::new();
    hasher.update(data);
    proof {
        assert(Seq::<u8>::empty() + data@ =~= data@);
    }
    hasher.finish()
}

} // verus!
