//! Movie bookkeeping for the dumping pipeline: which container format a
//! file extension names, and how a movie reference typed by the operator
//! (a publication or submission number, or a userfile id) is read.
//! Fetching, unpacking and writing movie files is the surrounding
//! program's job.

use vstd::prelude::*;
use vstd::string::StringSliceAdditionalSpecFns;

verus! {

/// The movie container formats the dumper can hand to an emulator.
#[derive(Debug, PartialEq, Eq, Structural, Copy, Clone)]
pub enum Format {
    Bk2,
    Fm2,
    Gmv,
}

/// An ASCII byte with an upper-case letter folded to lower case.
pub open spec fn spec_fold_byte(b: u8) -> u8 {
    if 0x41 <= b <= 0x5A {
        b | 0x20
    } else {
        b
    }
}

/// A byte string with every ASCII letter folded to lower case.
pub open spec fn spec_fold_bytes(s: Seq<u8>) -> Seq<u8> {
    Seq::new(s.len(), |i: int| spec_fold_byte(s[i]))
}

fn fold_bytes(s: &[u8]) -> (r: Vec<u8>)
    ensures
        r@ == spec_fold_bytes(s@),
{
    let mut out: Vec<u8> = Vec::new();
    let mut i: usize = 0;
    while i < s.len()
        invariant
            i <= s@.len(),
            out@.len() == i,
            forall|j: int| 0 <= j < i ==> out@[j] == spec_fold_byte(#[trigger] s@[j]),
        decreases s@.len() - i,
    {
        let b = s[i];
        if 0x41 <= b && b <= 0x5A {
            out.push(b | 0x20);
        } else {
            out.push(b);
        }
        i = i + 1;
    }
    proof {
        assert(out@ =~= spec_fold_bytes(s@));
    }
    out
}

impl Format {
    /// The format a file extension names (`bk2`, `fm2`, `gmv`, in any
    /// mix of letter cases); anything else names none.
    pub fn from_extension(ext: &str) -> (r: Option<Format>)
        ensures
            ({
                let e = spec_fold_bytes(ext.spec_bytes());
                r == if e == seq![0x62u8, 0x6Bu8, 0x32u8] {
                    Some(Format::Bk2)
                } else if e == seq![0x66u8, 0x6Du8, 0x32u8] {
                    Some(Format::Fm2)
                } else if e == seq![0x67u8, 0x6Du8, 0x76u8] {
                    Some(Format::Gmv)
                } else {
                    None::<Format>
                }
            }),
    {
        let folded = fold_bytes(ext.as_bytes());
        if ext3(&folded, 0x62, 0x6B, 0x32) {
            Some(Format::Bk2)
        } else if ext3(&folded, 0x66, 0x6D, 0x32) {
            Some(Format::Fm2)
        } else if ext3(&folded, 0x67, 0x6D, 0x76) {
            Some(Format::Gmv)
        } else {
            None
        }
    }
}

/// Whether a byte vector holds exactly these three bytes.
fn ext3(s: &Vec<u8>, a: u8, b: u8, c: u8) -> (r: bool)
    ensures
        r == (s@ == seq![a, b, c]),
{
    let r = s.len() == 3 && s[0] == a && s[1] == b && s[2] == c;
    proof {
        if s@.len() == 3 && s@[0] == a && s@[1] == b && s@[2] == c {
            assert(s@ =~= seq![a, b, c]);
        }
    }
    r
}

/// Where a movie comes from: a TASVideos publication or submission, a
/// TASVideos userfile, or a file already on disk.
#[derive(Debug, PartialEq, Eq, Clone)]
pub enum Source {
    Publication(i32),
    Submission(i32),
    Userfile(u64),
    Local(String),
}

/// The value of a run of ASCII digits, or nothing if any byte is not a
/// digit, the run is empty, or the value overflows 64 bits.
pub open spec fn spec_dec_value(s: Seq<u8>) -> Option<u64>
    decreases s.len(),
{
    if s.len() == 0 {
        None
    } else if !(0x30 <= s.last() <= 0x39) {
        None
    } else if s.len() == 1 {
        Some((s.last() - 0x30) as u64)
    } else {
        match spec_dec_value(s.drop_last()) {
            Some(hi) => {
                if hi * 10 + (s.last() - 0x30) <= u64::MAX {
                    Some((hi * 10 + (s.last() - 0x30)) as u64)
                } else {
                    None
                }
            },
            None => None,
        }
    }
}

/// Parse a run of ASCII digits as a 64-bit value; nothing on an empty
/// run, a non-digit, or overflow.
pub fn parse_dec(s: &[u8]) -> (r: Option<u64>)
    ensures
        r == spec_dec_value(s@),
{
    if s.len() == 0 {
        return None;
    }
    let mut acc: u64 = 0;
    let mut i: usize = 0;
    while i < s.len()
        invariant
            i <= s@.len(),
            s@.len() > 0,
            i > 0 ==> spec_dec_value(s@.take(i as int)) == Some(acc),
            i == 0 ==> acc == 0,
        decreases s@.len() - i,
    {
        let b = s[i];
        if b < 0x30 || b > 0x39 {
            proof {
                lemma_dec_value_bad(s@, i as int);
                assert(s@.take(s@.len() as int) =~= s@);
            }
            return None;
        }
        let d: u64 = (b - 0x30) as u64;
        if i == 0 {
            acc = d;
        } else {
            if acc > (u64::MAX - d) / 10 {
                proof {
                    vstd::arithmetic::div_mod::lemma_fundamental_div_mod(
                        (u64::MAX - d) as int,
                        10,
                    );
                    assert(acc * 10 + d > u64::MAX) by (nonlinear_arith)
                        requires
                            acc >= (u64::MAX - d) / 10 + 1,
                            (u64::MAX - d) as int == 10 * (((u64::MAX - d) as int) / 10) + ((
                            (u64::MAX - d) as int) % 10),
                            0 <= ((u64::MAX - d) as int) % 10 < 10,
                            0 <= d <= 9,
                    ;
                    lemma_dec_value_overflow(s@, i as int, acc);
                    assert(s@.take(s@.len() as int) =~= s@);
                }
                return None;
            }
            acc = acc * 10 + d;
        }
        proof {
            assert(s@.take(i + 1).drop_last() =~= s@.take(i as int));
            assert(s@.take(i + 1).last() == s@[i as int]);
        }
        i = i + 1;
    }
    proof {
        assert(s@.take(s@.len() as int) =~= s@);
    }
    Some(acc)
}

/// A non-digit anywhere kills the whole run.
proof fn lemma_dec_value_bad(s: Seq<u8>, i: int)
    requires
        0 <= i < s.len(),
        !(0x30 <= s[i] <= 0x39),
    ensures
        spec_dec_value(s.take(s.len() as int)) is None,
    decreases s.len(),
{
    let whole = s.take(s.len() as int);
    assert(whole =~= s);
    if i == s.len() - 1 {
    } else {
        lemma_dec_value_bad(s.drop_last(), i);
        assert(s.drop_last().take(s.drop_last().len() as int) =~= s.drop_last());
    }
}

/// Once the prefix has overflowed, longer runs stay overflowed.
proof fn lemma_dec_value_overflow(s: Seq<u8>, i: int, acc: u64)
    requires
        0 < i < s.len(),
        spec_dec_value(s.take(i)) == Some(acc),
        0x30 <= s[i] <= 0x39,
        acc * 10 + (s[i] - 0x30) > u64::MAX,
    ensures
        spec_dec_value(s.take(s.len() as int)) is None,
    decreases s.len() - i,
{
    if i == s.len() - 1 {
        assert(s.take(s.len() as int) =~= s);
        assert(s.drop_last() =~= s.take(i));
    } else {
        // the run up to and including position i already decodes to
        // nothing, and every extension of nothing is nothing
        assert(s.take(i + 1).drop_last() =~= s.take(i));
        assert(s.take(i + 1).last() == s[i]);
        assert(spec_dec_value(s.take(i + 1)) is None);
        lemma_dec_value_none_extends(s, i + 1);
    }
}

/// A dead prefix never revives: if the first `k` bytes decode to
/// nothing, the whole run does.
proof fn lemma_dec_value_none_extends(s: Seq<u8>, k: int)
    requires
        0 < k <= s.len(),
        spec_dec_value(s.take(k)) is None,
    ensures
        spec_dec_value(s.take(s.len() as int)) is None,
    decreases s.len() - k,
{
    if k == s.len() {
        assert(s.take(k) =~= s.take(s.len() as int));
    } else {
        assert(s.take(k + 1).drop_last() =~= s.take(k));
        assert(spec_dec_value(s.take(k + 1)) is None);
        lemma_dec_value_none_extends(s, k + 1);
    }
}

impl Source {
    /// Read an operator-typed movie reference: `#` followed by digits
    /// names a userfile; digits followed by `S` or `s` a submission;
    /// digits followed by `M` or `m` a publication.  Anything else —
    /// including ids that overflow their integer — names nothing.
    /// (A path to a file on disk is recognized by the caller, which can
    /// see the filesystem, before this is tried.)
    pub fn parse(text: &str) -> (r: Option<Source>)
        ensures
            ({
                let s = text.spec_bytes();
                r == if s.len() >= 2 && s[0] == 0x23u8 {
                    match spec_dec_value(s.skip(1)) {
                        Some(v) => Some(Source::Userfile(v)),
                        None => None::<Source>,
                    }
                } else if s.len() >= 2 && (s.last() == 0x53u8 || s.last() == 0x73u8) {
                    match spec_dec_value(s.take(s.len() - 1)) {
                        Some(v) => if v <= 0x7FFF_FFFF {
                            Some(Source::Submission(v as i32))
                        } else {
                            None::<Source>
                        },
                        None => None::<Source>,
                    }
                } else if s.len() >= 2 && (s.last() == 0x4Du8 || s.last() == 0x6Du8) {
                    match spec_dec_value(s.take(s.len() - 1)) {
                        Some(v) => if v <= 0x7FFF_FFFF {
                            Some(Source::Publication(v as i32))
                        } else {
                            None::<Source>
                        },
                        None => None::<Source>,
                    }
                } else {
                    None::<Source>
                }
            }),
    {
        let b: &[u8] = text.as_bytes();
        let n: usize = b.len();
        if n < 2 {
            return None;
        }
        if b[0] == 0x23 {
            let digits = vstd::slice::slice_subrange(b, 1, n);
            return match parse_dec(digits) {
                Some(v) => Some(Source::Userfile(v)),
                None => None,
            };
        }
        let lastb = b[n - 1];
        if lastb == 0x53 || lastb == 0x73 || lastb == 0x4D || lastb == 0x6D {
            let digits = vstd::slice::slice_subrange(b, 0, n - 1);
            proof {
                assert(b@.subrange(0, n - 1) =~= b@.take(n - 1));
            }
            match parse_dec(digits) {
                Some(v) => {
                    if v <= 0x7FFF_FFFF {
                        if lastb == 0x53 || lastb == 0x73 {
                            Some(Source::Submission(v as i32))
                        } else {
                            Some(Source::Publication(v as i32))
                        }
                    } else {
                        None
                    }
                },
                None => None,
            }
        } else {
            None
        }
    }
}

/// A movie the dumper has on disk, with the container format its
/// extension names and the source it came from.
#[derive(Debug, Clone)]
pub struct Movie {
    pub path: String,
    pub format: Format,
    pub source: Source,
}

impl Movie {
    pub fn new(path: String, format: Format, source: Source) -> (r: Movie)
        ensures
            r.path@ == path@,
            r.format == format,
            r.source == source,
    {
        Movie { path, format, source }
    }
}

} // verus!
