//! Per-file content digests: a fixed-width wrapper type, the hash of a byte
//! sequence, the sentinel used for unreadable files, and hex rendering.

use vstd::prelude::*;

verus! {

/// What blake3 returns for a byte sequence.  The digest is a pure function of
/// the input bytes; nothing shorter than the algorithm itself states its
/// value, so it is left uninterpreted and pinned down only by tests.
pub uninterp spec fn blake3_of(data: Seq<u8>) -> Seq<u8>;

/// The digest substituted when a file cannot be read: thirty-two ASCII `0`
/// bytes, recognizable and outside the probability space of real content.
pub open spec fn sentinel_digest() -> Seq<u8> {
    Seq::new(32, |i: int| 48u8)
}

/// The digest recorded for one file: the content hash when the bytes could be
/// read, the sentinel otherwise.
pub open spec fn content_digest(content: Option<Seq<u8>>) -> Seq<u8> {
    match content {
        Some(bytes) => blake3_of(bytes),
        None => sentinel_digest(),
    }
}

/// A 256-bit digest held as exactly 32 bytes.
pub struct Digest {
    bytes: Vec<u8>,
}

impl View for Digest {
    type V = Seq<u8>;

    closed spec fn view(&self) -> Seq<u8> {
        self.bytes@
    }
}

impl Digest {
    /// A digest is well-formed when it holds exactly 32 bytes.
    pub open spec fn wf(&self) -> bool {
        self@.len() == 32
    }

    /// Wraps raw bytes as a digest; refuses any length other than 32.
    pub fn from_bytes(bytes: Vec<u8>) -> (r: Option<Digest>)
        ensures
            bytes@.len() == 32 ==> (r matches Some(d) && d.wf() && d@ == bytes@),
            bytes@.len() != 32 ==> r is None,
    {
        if bytes.len() == 32 {
            Some(Digest { bytes })
        } else {
            None
        }
    }

    /// The raw digest bytes.
    pub fn as_bytes(&self) -> (r: &Vec<u8>)
        ensures
            r@ == self@,
    {
        &self.bytes
    }

    /// Renders the digest as lowercase hex, two characters per byte.
    pub fn to_hex(&self) -> (r: String)
        ensures
            r@ == hex_of(self@),
    {
        to_hex_string(&self.bytes)
    }
}

/// Relies on blake3::hash: the digest is 32 bytes and depends on the input
/// bytes alone.
#[verifier::external_body]
pub(crate) fn blake3_hash(data: &Vec<u8>) -> (r: Vec<u8>)
    ensures
        r@ == blake3_of(data@),
        r@.len() == 32,
{
    blake3::hash(data.as_slice()).as_bytes().to_vec()
}

/// Digests one file's content: the hash of its bytes when it could be read,
/// the sentinel digest otherwise, so one unreadable file degrades the
/// aggregate instead of failing the batch.
pub fn file_digest(content: &Option<Vec<u8>>) -> (r: Digest)
    ensures
        r.wf(),
        r@ == content_digest(match content {
            Some(bytes) => Some(bytes@),
            None => None,
        }),
{
    match content {
        Some(bytes) => {
            let hashed = blake3_hash(bytes);
            Digest { bytes: hashed }
        },
        None => {
            let mut zeros: Vec<u8> = Vec::new();
            let mut i: usize = 0;
            while i < 32
                invariant
                    i <= 32,
                    zeros@.len() == i,
                    forall|j: int| 0 <= j < i ==> zeros@[j] == 48u8,
                decreases 32 - i,
            {
                zeros.push(48u8);
                i = i + 1;
            }
            proof {
                assert(zeros@ =~= sentinel_digest());
            }
            Digest { bytes: zeros }
        },
    }
}

/// The lowercase hex character for a value below sixteen.
pub open spec fn hex_char(n: u8) -> char {
    if n == 0 {
        '0'
    } else if n == 1 {
        '1'
    } else if n == 2 {
        '2'
    } else if n == 3 {
        '3'
    } else if n == 4 {
        '4'
    } else if n == 5 {
        '5'
    } else if n == 6 {
        '6'
    } else if n == 7 {
        '7'
    } else if n == 8 {
        '8'
    } else if n == 9 {
        '9'
    } else if n == 10 {
        'a'
    } else if n == 11 {
        'b'
    } else if n == 12 {
        'c'
    } else if n == 13 {
        'd'
    } else if n == 14 {
        'e'
    } else {
        'f'
    }
}

/// Lowercase hex encoding of a byte sequence, two characters per byte, high
/// nibble first.
pub open spec fn hex_of(data: Seq<u8>) -> Seq<char>
    decreases data.len(),
{
    if data.len() == 0 {
        Seq::empty()
    } else {
        seq![hex_char(data.first() / 16), hex_char(data.first() % 16)] + hex_of(data.drop_first())
    }
}

/// Hex rendering yields two characters per byte, so a well-formed digest
/// renders as exactly 64 characters.
pub proof fn lemma_hex_of_len(data: Seq<u8>)
    ensures
        hex_of(data).len() == 2 * data.len(),
    decreases data.len(),
{
    if data.len() != 0 {
        lemma_hex_of_len(data.drop_first());
    }
}

/// The one-character string for a hex digit.
pub(crate) fn hex_digit(n: u8) -> (r: &'static str)
    requires
        n < 16,
    ensures
        r@ =~= seq![hex_char(n)],
{
    proof {
        reveal_strlit("0");
        reveal_strlit("1");
        reveal_strlit("2");
        reveal_strlit("3");
        reveal_strlit("4");
        reveal_strlit("5");
        reveal_strlit("6");
        reveal_strlit("7");
        reveal_strlit("8");
        reveal_strlit("9");
        reveal_strlit("a");
        reveal_strlit("b");
        reveal_strlit("c");
        reveal_strlit("d");
        reveal_strlit("e");
        reveal_strlit("f");
    }
    if n == 0 {
        "0"
    } else if n == 1 {
        "1"
    } else if n == 2 {
        "2"
    } else if n == 3 {
        "3"
    } else if n == 4 {
        "4"
    } else if n == 5 {
        "5"
    } else if n == 6 {
        "6"
    } else if n == 7 {
        "7"
    } else if n == 8 {
        "8"
    } else if n == 9 {
        "9"
    } else if n == 10 {
        "a"
    } else if n == 11 {
        "b"
    } else if n == 12 {
        "c"
    } else if n == 13 {
        "d"
    } else if n == 14 {
        "e"
    } else {
        "f"
    }
}

/// Renders bytes as lowercase hex.
fn to_hex_string(data: &Vec<u8>) -> (r: String)
    ensures
        r@ == hex_of(data@),
{
    let mut out = String::new();
    let mut i: usize = 0;
    proof {
        assert(data@.skip(0) =~= data@);
    }
    while i < data.len()
        invariant
            i <= data@.len(),
            hex_of(data@) =~= out@ + hex_of(data@.skip(i as int)),
        decreases data@.len() - i,
    {
        let b = data[i];
        out.append(hex_digit(b / 16));
        out.append(hex_digit(b % 16));
        proof {
            assert(data@.skip(i as int).drop_first() =~= data@.skip(i as int + 1));
            assert(data@.skip(i as int).first() == data@[i as int]);
        }
        i = i + 1;
    }
    proof {
        assert(data@.skip(data@.len() as int) =~= Seq::<u8>::empty());
    }
    out
}

} // verus!
