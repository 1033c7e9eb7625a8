//! ROM identification for the dumping pipeline: recognizing a console
//! from a ROM image, hashing images so movies can be matched to them,
//! and the in-memory cache searched by hash.  Reading directories and
//! fetching anything is the surrounding program's job; everything here
//! works on bytes it is handed.

use vstd::prelude::*;
use vstd::string::StringSliceAdditionalSpecFns;
use sha1::Digest;

verus! {

/// The SHA-1 digest of a byte string, as the outside hash implementation
/// computes it: a pure function of the bytes alone.
pub uninterp spec fn sha1_of(data: Seq<u8>) -> Seq<u8>;

/// The MD5 digest of a byte string, as the outside hash implementation
/// computes it: a pure function of the bytes alone.
pub uninterp spec fn md5_of(data: Seq<u8>) -> Seq<u8>;

/// Relies on `sha1::Sha1::digest`: the 20-byte SHA-1 digest, a function
/// of the input bytes alone.
#[verifier::external_body]
fn sha1_digest(data: &Vec<u8>) -> (r: Vec<u8>)
    ensures
        r@ == sha1_of(data@),
        r@.len() == 20,
{
    sha1::Sha1::digest(data.as_slice()).to_vec()
}

/// Relies on `md5::Md5::digest`: the 16-byte MD5 digest, a function of
/// the input bytes alone.
#[verifier::external_body]
fn md5_digest(data: &Vec<u8>) -> (r: Vec<u8>)
    ensures
        r@ == md5_of(data@),
        r@.len() == 16,
{
    md5::Md5::digest(data.as_slice()).to_vec()
}

/// A ROM digest as movies carry it: either hash kind identifies a dump.
#[derive(Debug, Clone)]
pub enum Hash {
    Sha1(Vec<u8>),
    Md5(Vec<u8>),
}

/// The upper-case hex character of one nibble.
pub open spec fn spec_hex_digit(d: nat) -> char {
    if d == 0 {
        '0'
    } else if d == 1 {
        '1'
    } else if d == 2 {
        '2'
    } else if d == 3 {
        '3'
    } else if d == 4 {
        '4'
    } else if d == 5 {
        '5'
    } else if d == 6 {
        '6'
    } else if d == 7 {
        '7'
    } else if d == 8 {
        '8'
    } else if d == 9 {
        '9'
    } else if d == 10 {
        'A'
    } else if d == 11 {
        'B'
    } else if d == 12 {
        'C'
    } else if d == 13 {
        'D'
    } else if d == 14 {
        'E'
    } else {
        'F'
    }
}

/// Byte `j` of a hash renders as characters `2j` and `2j + 1`: its high
/// nibble then its low nibble.
pub open spec fn spec_hex_pair_ok(out: Seq<char>, s: Seq<u8>, j: int) -> bool {
    &&& out[2 * j] == spec_hex_digit((s[j] >> 4) as nat)
    &&& out[2 * j + 1] == spec_hex_digit((s[j] & 0xF) as nat)
}

fn hex_digit_str(d: u8) -> (r: &'static str)
    requires
        d < 16,
    ensures
        r@ == seq![spec_hex_digit(d as nat)],
{
    if d < 10 {
        match d {
            0 => {
                let s = "0";
                proof {
                    reveal_strlit("0");
                    assert(s@ =~= seq!['0']);
                }
                s
            },
            1 => {
                let s = "1";
                proof {
                    reveal_strlit("1");
                    assert(s@ =~= seq!['1']);
                }
                s
            },
            2 => {
                let s = "2";
                proof {
                    reveal_strlit("2");
                    assert(s@ =~= seq!['2']);
                }
                s
            },
            3 => {
                let s = "3";
                proof {
                    reveal_strlit("3");
                    assert(s@ =~= seq!['3']);
                }
                s
            },
            4 => {
                let s = "4";
                proof {
                    reveal_strlit("4");
                    assert(s@ =~= seq!['4']);
                }
                s
            },
            5 => {
                let s = "5";
                proof {
                    reveal_strlit("5");
                    assert(s@ =~= seq!['5']);
                }
                s
            },
            6 => {
                let s = "6";
                proof {
                    reveal_strlit("6");
                    assert(s@ =~= seq!['6']);
                }
                s
            },
            7 => {
                let s = "7";
                proof {
                    reveal_strlit("7");
                    assert(s@ =~= seq!['7']);
                }
                s
            },
            8 => {
                let s = "8";
                proof {
                    reveal_strlit("8");
                    assert(s@ =~= seq!['8']);
                }
                s
            },
            _ => {
                let s = "9";
                proof {
                    reveal_strlit("9");
                    assert(s@ =~= seq!['9']);
                }
                s
            },
        }
    } else {
        match d {
            10 => {
                let s = "A";
                proof {
                    reveal_strlit("A");
                    assert(s@ =~= seq!['A']);
                }
                s
            },
            11 => {
                let s = "B";
                proof {
                    reveal_strlit("B");
                    assert(s@ =~= seq!['B']);
                }
                s
            },
            12 => {
                let s = "C";
                proof {
                    reveal_strlit("C");
                    assert(s@ =~= seq!['C']);
                }
                s
            },
            13 => {
                let s = "D";
                proof {
                    reveal_strlit("D");
                    assert(s@ =~= seq!['D']);
                }
                s
            },
            14 => {
                let s = "E";
                proof {
                    reveal_strlit("E");
                    assert(s@ =~= seq!['E']);
                }
                s
            },
            _ => {
                let s = "F";
                proof {
                    reveal_strlit("F");
                    assert(s@ =~= seq!['F']);
                }
                s
            },
        }
    }
}

/// Render bytes as upper-case hex, two characters per byte.
pub fn hex_upper(bytes: &Vec<u8>) -> (r: String)
    ensures
        r@.len() == 2 * bytes@.len(),
        forall|j: int| 0 <= j < bytes@.len() ==> #[trigger] spec_hex_pair_ok(r@, bytes@, j),
{
    let mut out = String::new();
    let mut i: usize = 0;
    while i < bytes.len()
        invariant
            i <= bytes@.len(),
            out@.len() == 2 * i,
            forall|j: int| 0 <= j < i ==> #[trigger] spec_hex_pair_ok(out@, bytes@, j),
        decreases bytes@.len() - i,
    {
        let ghost prev = out@;
        let b = bytes[i];
        proof {
            assert((b >> 4u8) < 16 && (b & 0xFu8) < 16) by (bit_vector);
        }
        out.append(hex_digit_str(b >> 4u8));
        out.append(hex_digit_str(b & 0xF));
        proof {
            assert forall|j: int| 0 <= j < i + 1 implies #[trigger] spec_hex_pair_ok(
                out@,
                bytes@,
                j,
            ) by {
                if j < i {
                    assert(spec_hex_pair_ok(prev, bytes@, j));
                    assert(out@[2 * j] == prev[2 * j]);
                    assert(out@[2 * j + 1] == prev[2 * j + 1]);
                } else {
                    assert(2 * j == prev.len());
                }
            }
        }
        i = i + 1;
    }
    out
}

impl Hash {
    /// The digest bytes behind either kind.
    pub open spec fn spec_bytes(&self) -> Seq<u8> {
        match self {
            Hash::Sha1(v) => v@,
            Hash::Md5(v) => v@,
        }
    }

    /// Render the digest as upper-case hex.
    pub fn to_hex(&self) -> (r: String)
        ensures
            r@.len() == 2 * self.spec_bytes().len(),
            forall|j: int|
                0 <= j < self.spec_bytes().len() ==> #[trigger] spec_hex_pair_ok(
                    r@,
                    self.spec_bytes(),
                    j,
                ),
    {
        match self {
            Hash::Sha1(v) => hex_upper(v),
            Hash::Md5(v) => hex_upper(v),
        }
    }
}

/// The nibble a hex character's byte stands for, either case.
pub open spec fn spec_nibble(b: u8) -> Option<u8> {
    if 0x30 <= b <= 0x39 {
        Some((b - 0x30) as u8)
    } else if 0x41 <= b <= 0x46 {
        Some((b - 0x41 + 10) as u8)
    } else if 0x61 <= b <= 0x66 {
        Some((b - 0x61 + 10) as u8)
    } else {
        None
    }
}

fn nibble(b: u8) -> (r: Option<u8>)
    ensures
        r == spec_nibble(b),
{
    if 0x30 <= b && b <= 0x39 {
        Some(b - 0x30)
    } else if 0x41 <= b && b <= 0x46 {
        Some(b - 0x41 + 10)
    } else if 0x61 <= b && b <= 0x66 {
        Some(b - 0x61 + 10)
    } else {
        None
    }
}

/// Every character pair of the text is a valid hex pair.
pub open spec fn spec_hex_text_valid(s: Seq<u8>, n: int) -> bool {
    forall|j: int|
        0 <= j < n ==> spec_nibble(#[trigger] s[2 * j]) is Some && spec_nibble(s[2 * j + 1]) is Some
}

/// Byte `j` decoded from characters `2j` and `2j + 1`.
pub open spec fn spec_hex_byte(s: Seq<u8>, j: int) -> u8 {
    (spec_nibble(s[2 * j]).unwrap() * 16 + spec_nibble(s[2 * j + 1]).unwrap()) as u8
}

/// Parse a hex digest string: 40 hex characters name a SHA-1 digest, 32
/// an MD5 digest; any other length, or any character that is not a hex
/// digit, parses to nothing.
pub fn hash_from_hex(text: &str) -> (r: Option<Hash>)
    ensures
        ({
            let s = text.spec_bytes();
            match r {
                Some(h) => {
                    &&& (s.len() == 40 || s.len() == 32)
                    &&& spec_hex_text_valid(s, s.len() as int / 2)
                    &&& h.spec_bytes().len() == s.len() / 2
                    &&& (forall|j: int|
                        0 <= j < s.len() / 2 ==> #[trigger] h.spec_bytes()[j] == spec_hex_byte(
                            s,
                            j,
                        ))
                    &&& (h is Sha1 <==> s.len() == 40)
                },
                None => s.len() != 40 && s.len() != 32 || !spec_hex_text_valid(
                    s,
                    s.len() as int / 2,
                ),
            }
        }),
{
    let bytes: &[u8] = text.as_bytes();
    let blen: usize = bytes.len();
    if blen != 40 && blen != 32 {
        return None;
    }
    let half: usize = blen / 2;
    let mut out: Vec<u8> = Vec::new();
    let mut i: usize = 0;
    while i < half
        invariant
            i <= half,
            half == blen / 2,
            blen == bytes@.len(),
            bytes@ == text.spec_bytes(),
            blen == 40 || blen == 32,
            out@.len() == i,
            spec_hex_text_valid(bytes@, i as int),
            forall|j: int| 0 <= j < i ==> #[trigger] out@[j] == spec_hex_byte(bytes@, j),
        decreases half - i,
    {
        let hi = nibble(bytes[2 * i]);
        let lo = nibble(bytes[2 * i + 1]);
        match (hi, lo) {
            (Some(h), Some(l)) => {
                out.push(h * 16 + l);
            },
            _ => {
                proof {
                    assert(!spec_hex_text_valid(bytes@, half as int));
                }
                return None;
            },
        }
        i = i + 1;
    }
    if blen == 40 {
        Some(Hash::Sha1(out))
    } else {
        Some(Hash::Md5(out))
    }
}


/// The consoles the dumping pipeline can recognize a ROM for.
#[derive(Debug, PartialEq, Eq, Structural, Copy, Clone)]
pub enum System {
    Nes,
    N64,
    Atari2600,
}

/// The byte string of a ROM with its header fields zeroed, as the NES2.0
/// hash convention wants: bytes 7 through 15 cleared.
pub open spec fn spec_zeroed_header(data: Seq<u8>) -> Seq<u8> {
    Seq::new(
        data.len(),
        |i: int|
            if 7 <= i < 16 {
                0u8
            } else {
                data[i]
            },
    )
}

impl System {
    /// Recognize a console from a ROM image and its file extension: an
    /// iNES or N64 magic number wins; otherwise the extension (`nes`,
    /// `z64`, `n64`, `a26`) decides; anything else is unrecognized.
    pub fn parse(data: &Vec<u8>, extension: &str) -> (r: Option<System>)
        ensures
            ({
                let ext = extension.spec_bytes();
                r == if data@.len() >= 4 && data@.subrange(0, 4) == seq![0x4Eu8, 0x45u8, 0x53u8, 0x1Au8] {
                    Some(System::Nes)
                } else if data@.len() >= 4 && data@.subrange(0, 4) == seq![0x80u8, 0x37u8, 0x12u8, 0x40u8] {
                    Some(System::N64)
                } else if ext == seq![0x6Eu8, 0x65u8, 0x73u8] {
                    Some(System::Nes)
                } else if ext == seq![0x7Au8, 0x36u8, 0x34u8] || ext == seq![0x6Eu8, 0x36u8, 0x34u8] {
                    Some(System::N64)
                } else if ext == seq![0x61u8, 0x32u8, 0x36u8] {
                    Some(System::Atari2600)
                } else {
                    None::<System>
                }
            }),
    {
        if data.len() >= 4 {
            if data[0] == 0x4E && data[1] == 0x45 && data[2] == 0x53 && data[3] == 0x1A {
                proof {
                    assert(data@.subrange(0, 4) =~= seq![0x4Eu8, 0x45u8, 0x53u8, 0x1Au8]);
                }
                return Some(System::Nes);
            }
            if data[0] == 0x80 && data[1] == 0x37 && data[2] == 0x12 && data[3] == 0x40 {
                proof {
                    assert(data@.subrange(0, 4) =~= seq![0x80u8, 0x37u8, 0x12u8, 0x40u8]);
                    assert(data@.subrange(0, 4) != seq![0x4Eu8, 0x45u8, 0x53u8, 0x1Au8]) by {
                        assert(data@.subrange(0, 4)[0] == 0x80u8);
                    }
                }
                return Some(System::N64);
            }
            proof {
                assert(data@.subrange(0, 4)[0] == data@[0] && data@.subrange(0, 4)[1] == data@[1]
                    && data@.subrange(0, 4)[2] == data@[2] && data@.subrange(0, 4)[3] == data@[3]);
            }
        }
        let ext: &[u8] = extension.as_bytes();
        if bytes3(ext, 0x6E, 0x65, 0x73) {
            Some(System::Nes)
        } else if bytes3(ext, 0x7A, 0x36, 0x34) || bytes3(ext, 0x6E, 0x36, 0x34) {
            Some(System::N64)
        } else if bytes3(ext, 0x61, 0x32, 0x36) {
            Some(System::Atari2600)
        } else {
            None
        }
    }

    /// The digest pairs recorded for a ROM: always the whole image; for
    /// NES images longer than the 16-byte iNES header, also the image
    /// with the header stripped, and, when the NES2.0 flag is set, the
    /// image with the header fields zeroed.  Each pair is the SHA-1 and
    /// MD5 digest of the same bytes.
    pub fn hashes(&self, data: &Vec<u8>) -> (r: Vec<(Vec<u8>, Vec<u8>)>)
        ensures
            r@.len() >= 1,
            spec_hash_pair_ok(r@[0], data@),
            self is Nes && data@.len() > 16 ==> r@.len() >= 2 && spec_hash_pair_ok(
                r@[1],
                data@.skip(16),
            ),
            self is Nes && data@.len() > 16 && data@[7] & 0x08 != 0 ==> r@.len() == 3
                && spec_hash_pair_ok(r@[2], spec_zeroed_header(data@)),
            !(self is Nes) || data@.len() <= 16 ==> r@.len() == 1,
            self is Nes && data@.len() > 16 && data@[7] & 0x08 == 0 ==> r@.len() == 2,
    {
        let mut out: Vec<(Vec<u8>, Vec<u8>)> = Vec::new();
        out.push((sha1_digest(data), md5_digest(data)));
        match self {
            System::Nes => {
                if data.len() > 16 {
                    let body = crate::codec::copy_range(data, 16, data.len());
                    proof {
                        assert(body@ =~= data@.skip(16));
                    }
                    out.push((sha1_digest(&body), md5_digest(&body)));
                    if data[7] & 0x08 != 0 {
                        let mut zeroed: Vec<u8> = crate::codec::copy_range(data, 0, data.len());
                        proof {
                            assert(zeroed@ =~= data@);
                        }
                        let mut i: usize = 7;
                        while i < 16
                            invariant
                                7 <= i <= 16,
                                zeroed@.len() == data@.len(),
                                data@.len() > 16,
                                forall|j: int|
                                    0 <= j < data@.len() ==> #[trigger] zeroed@[j] == (if 7 <= j
                                        < i {
                                        0u8
                                    } else {
                                        data@[j]
                                    }),
                            decreases 16 - i,
                        {
                            zeroed.set(i, 0);
                            i = i + 1;
                        }
                        proof {
                            assert(zeroed@ =~= spec_zeroed_header(data@));
                        }
                        out.push((sha1_digest(&zeroed), md5_digest(&zeroed)));
                    }
                }
            },
            _ => {},
        }
        out
    }
}

/// A digest pair records the SHA-1 and MD5 digests of the same bytes.
pub open spec fn spec_hash_pair_ok(pair: (Vec<u8>, Vec<u8>), data: Seq<u8>) -> bool {
    &&& pair.0@ == sha1_of(data)
    &&& pair.1@ == md5_of(data)
}

/// Whether a slice holds exactly these three bytes.
fn bytes3(s: &[u8], a: u8, b: u8, c: u8) -> (r: bool)
    ensures
        r == (s@ == seq![a, b, c]),
{
    let r = s.len() == 3 && s[0] == a && s[1] == b && s[2] == c;
    proof {
        if s@.len() == 3 && s@[0] == a && s@[1] == b && s@[2] == c {
            assert(s@ =~= seq![a, b, c]);
        }
    }
    r
}

/// One hashed ROM on disk.
#[derive(Debug, Clone)]
pub struct Rom {
    pub path: String,
    pub system: System,
    pub sha1: Vec<u8>,
    pub md5: Vec<u8>,
}

impl Rom {
    /// Whether this ROM carries the given digest, comparing against the
    /// matching digest kind.
    pub fn compare_hash(&self, hash: &Hash) -> (r: bool)
        ensures
            r == match hash {
                Hash::Sha1(h) => self.sha1@ == h@,
                Hash::Md5(h) => self.md5@ == h@,
            },
    {
        match hash {
            Hash::Sha1(h) => vec_bytes_eq(&self.sha1, h),
            Hash::Md5(h) => vec_bytes_eq(&self.md5, h),
        }
    }
}

/// Whether two cache entries describe the same dump.
fn rom_same(a: &Rom, b: &Rom) -> (r: bool)
    ensures
        r == spec_rom_same(*a, *b),
{
    a.path == b.path && a.system == b.system && vec_bytes_eq(&a.sha1, &b.sha1) && vec_bytes_eq(
        &a.md5,
        &b.md5,
    )
}

/// Whether two byte vectors hold the same bytes.
fn vec_bytes_eq(a: &Vec<u8>, b: &Vec<u8>) -> (r: bool)
    ensures
        r == (a@ == b@),
{
    if a.len() != b.len() {
        proof {
            assert(a@ != b@);
        }
        return false;
    }
    let mut i: usize = 0;
    while i < a.len()
        invariant
            i <= a@.len(),
            a@.len() == b@.len(),
            forall|j: int| 0 <= j < i ==> a@[j] == b@[j],
        decreases a@.len() - i,
    {
        if a[i] != b[i] {
            return false;
        }
        i = i + 1;
    }
    proof {
        assert(a@ =~= b@);
    }
    true
}

/// Whether two cache entries describe the same dump: same path, console
/// and both digests.
pub open spec fn spec_rom_same(a: Rom, b: Rom) -> bool {
    &&& a.path@ == b.path@
    &&& a.system == b.system
    &&& a.sha1@ == b.sha1@
    &&& a.md5@ == b.md5@
}

/// The hashed ROMs known to the dumper, searched by digest.
pub struct RomCache {
    pub roms: Vec<Rom>,
}

impl RomCache {
    /// The cache is a set: no entry appears twice.
    pub open spec fn wf(&self) -> bool {
        forall|i: int, j: int|
            0 <= i < j < self.roms@.len() ==> !spec_rom_same(
                #[trigger] self.roms@[i],
                #[trigger] self.roms@[j],
            )
    }

    pub fn new() -> (r: RomCache)
        ensures
            r.wf(),
            r.roms@.len() == 0,
    {
        RomCache { roms: Vec::new() }
    }

    /// Record a hashed ROM, keeping the cache a set: an entry equal to
    /// one already present is dropped.
    pub fn add_rom(&mut self, rom: Rom) -> (added: bool)
        requires
            old(self).wf(),
        ensures
            final(self).wf(),
            added == !exists|i: int|
                0 <= i < old(self).roms@.len() && spec_rom_same(#[trigger] old(self).roms@[i], rom),
            added ==> final(self).roms@ == old(self).roms@.push(rom),
            !added ==> final(self).roms@ == old(self).roms@,
    {
        let mut i: usize = 0;
        while i < self.roms.len()
            invariant
                i <= self.roms@.len(),
                *self == *old(self),
                self.wf(),
                forall|j: int| 0 <= j < i ==> !spec_rom_same(#[trigger] self.roms@[j], rom),
            decreases self.roms@.len() - i,
        {
            if rom_same(&self.roms[i], &rom) {
                return false;
            }
            i = i + 1;
        }
        self.roms.push(rom);
        true
    }

    /// Find the first cached ROM carrying the given digest; returns its
    /// position.  `None` exactly when no cached ROM matches.
    pub fn search(&self, hash: &Hash) -> (r: Option<usize>)
        ensures
            match r {
                Some(i) => {
                    &&& i < self.roms@.len()
                    &&& spec_rom_matches(self.roms@[i as int], *hash)
                    &&& forall|j: int| 0 <= j < i ==> !spec_rom_matches(#[trigger] self.roms@[j], *hash)
                },
                None => forall|j: int|
                    0 <= j < self.roms@.len() ==> !spec_rom_matches(#[trigger] self.roms@[j], *hash),
            },
    {
        let mut i: usize = 0;
        while i < self.roms.len()
            invariant
                i <= self.roms@.len(),
                forall|j: int| 0 <= j < i ==> !spec_rom_matches(#[trigger] self.roms@[j], *hash),
            decreases self.roms@.len() - i,
        {
            if self.roms[i].compare_hash(hash) {
                return Some(i);
            }
            i = i + 1;
        }
        None
    }
}

/// Whether a ROM carries a digest, by the digest's kind.
pub open spec fn spec_rom_matches(rom: Rom, hash: Hash) -> bool {
    match hash {
        Hash::Sha1(h) => rom.sha1@ == h@,
        Hash::Md5(h) => rom.md5@ == h@,
    }
}

} // verus!
