//! The public IPv4 address of the caller: its textual grammar and the
//! validated value produced from a lookup response.

use vstd::prelude::*;
use vstd::utf8::{decode_utf8, valid_utf8};
use crate::text::{is_space, trim, trimmed};

verus! {

/// Whether `c` is one of the ASCII digits `0` to `9`.
pub open spec fn is_digit(c: char) -> bool {
    0x30 <= c as u32 <= 0x39
}

/// The number that the digit `c` stands for.
pub open spec fn digit_value(c: char) -> nat {
    (c as u32 - 0x30) as nat
}

/// The number that a sequence of digits denotes in base ten.
pub open spec fn decimal_value(s: Seq<char>) -> nat
    decreases s.len(),
{
    if s.len() == 0 {
        0
    } else {
        decimal_value(s.drop_last()) * 10 + digit_value(s.last())
    }
}

/// Whether `s` writes one octet: one to three digits, no leading zero on a
/// number of more than one digit, and a value of at most 255.
pub open spec fn is_octet(s: Seq<char>) -> bool {
    &&& 1 <= s.len() <= 3
    &&& forall|k: int| 0 <= k < s.len() ==> is_digit(#[trigger] s[k])
    &&& (s.len() > 1 ==> s[0] != '0')
    &&& decimal_value(s) <= 255
}

/// Whether `s` is four octets separated by dots that stand at `i`, `j` and
/// `k`.
pub open spec fn quad_at(s: Seq<char>, i: int, j: int, k: int) -> bool {
    &&& 0 < i < j < k < s.len()
    &&& s[i] == '.'
    &&& s[j] == '.'
    &&& s[k] == '.'
    &&& is_octet(s.subrange(0, i))
    &&& is_octet(s.subrange(i + 1, j))
    &&& is_octet(s.subrange(j + 1, k))
    &&& is_octet(s.subrange(k + 1, s.len() as int))
}

/// Whether `s` is an IPv4 address in dotted-quad notation.
pub open spec fn is_dotted_quad(s: Seq<char>) -> bool {
    exists|i: int, j: int, k: int| quad_at(s, i, j, k)
}

/// Whether the digits of `s` that begin at `start` stop exactly at `e`.
pub open spec fn digits_run(s: Seq<char>, start: int, e: int) -> bool {
    &&& 0 <= start <= e <= s.len()
    &&& forall|k: int| start <= k < e ==> is_digit(#[trigger] s[k])
    &&& (e == s.len() || !is_digit(s[e]))
}

proof fn lemma_run_unique(s: Seq<char>, start: int, e: int, w: int)
    requires
        digits_run(s, start, e),
        digits_run(s, start, w),
    ensures
        e == w,
{
    if w < e {
        assert(is_digit(s[w]));
    }
    if e < w {
        assert(is_digit(s[e]));
    }
}

proof fn lemma_octet_run(s: Seq<char>, start: int, w: int)
    requires
        0 <= start <= w <= s.len(),
        is_octet(s.subrange(start, w)),
        w == s.len() || !is_digit(s[w]),
    ensures
        digits_run(s, start, w),
{
    let f = s.subrange(start, w);
    assert forall|k: int| start <= k < w implies is_digit(#[trigger] s[k]) by {
        assert(f[k - start] == s[k]);
    }
}

/// A dotted quad begins and ends with a digit, so trimming leaves it as it
/// is.
pub proof fn lemma_quad_is_trimmed(s: Seq<char>)
    requires
        is_dotted_quad(s),
    ensures
        s.len() > 0,
        !is_space(s[0]),
        !is_space(s.last()),
        trim(s) == s,
{
    let (i, j, k) = choose|i: int, j: int, k: int| quad_at(s, i, j, k);
    let a = s.subrange(0, i);
    let d = s.subrange(k + 1, s.len() as int);
    assert(a[0] == s[0]);
    assert(d[d.len() - 1] == s.last());
    assert(is_digit(a[0]));
    assert(is_digit(d[d.len() - 1]));
}

/// Tells whether `c` is an ASCII digit.
fn is_digit_char(c: char) -> (r: bool)
    ensures
        r == is_digit(c),
{
    let n: u32 = c as u32;
    0x30 <= n && n <= 0x39
}

/// Reads the octet that begins at `start`. Gives the position behind it, or
/// `None` where no octet ends at a position that no digit follows.
fn scan_octet(s: &str, n: usize, start: usize) -> (r: Option<usize>)
    requires
        n == s@.len(),
        start <= n,
    ensures
        match r {
            Some(e) => digits_run(s@, start as int, e as int) && is_octet(
                s@.subrange(start as int, e as int),
            ),
            None => forall|w: int|
                start <= w <= n && (w == n || !is_digit(s@[w])) ==> !is_octet(
                    #[trigger] s@.subrange(start as int, w),
                ),
        },
{
    let mut e: usize = start;
    let mut v: u32 = 0;
    while e < n && e - start < 3 && is_digit_char(s.get_char(e))
        invariant
            n == s@.len(),
            start <= e <= n,
            e - start <= 3,
            forall|k: int| start <= k < e ==> is_digit(#[trigger] s@[k]),
            v == decimal_value(s@.subrange(start as int, e as int)),
            e - start == 0 ==> v == 0,
            e - start <= 1 ==> v <= 9,
            e - start <= 2 ==> v <= 99,
            v <= 999,
        decreases n - e,
    {
        let c: char = s.get_char(e);
        proof {
            let next = s@.subrange(start as int, e + 1);
            assert(next.drop_last() =~= s@.subrange(start as int, e as int));
            assert(next.last() == c);
        }
        v = v * 10 + (c as u32 - 0x30);
        e += 1;
    }
    let ghost field = s@.subrange(start as int, e as int);
    let overlong: bool = e < n && e - start == 3 && is_digit_char(s.get_char(e));
    let padded: bool = e - start > 1 && s.get_char(start) == '0';
    if e == start || overlong || padded || v > 255 {
        proof {
            assert forall|w: int|
                start <= w <= n && (w == n || !is_digit(s@[w])) implies !is_octet(
                #[trigger] s@.subrange(start as int, w),
            ) by {
                let other = s@.subrange(start as int, w);
                if is_octet(other) {
                    lemma_octet_run(s@, start as int, w);
                    if overlong {
                        assert(is_digit(s@[w]));
                    } else {
                        lemma_run_unique(s@, start as int, e as int, w);
                        assert(other == field);
                        if padded {
                            assert(field[0] == s@[start as int]);
                        }
                    }
                }
            }
        }
        None
    } else {
        proof {
            assert forall|k: int| 0 <= k < field.len() implies is_digit(#[trigger] field[k]) by {
                assert(field[k] == s@[start + k]);
            }
            assert(field[0] == s@[start as int]);
        }
        Some(e)
    }
}

/// Tells whether `s` is an IPv4 address in dotted-quad notation.
pub fn is_ipv4_text(s: &str) -> (ok: bool)
    ensures
        ok == is_dotted_quad(s@),
{
    let n: usize = s.unicode_len();
    let ghost t = s@;
    let first = scan_octet(s, n, 0);
    if first.is_none() {
        proof {
            assert forall|i: int, j: int, k: int| !quad_at(t, i, j, k) by {
                if quad_at(t, i, j, k) {
                    assert(!is_octet(t.subrange(0, i)));
                }
            }
        }
        return false;
    }
    let e1: usize = first.unwrap();
    if e1 >= n || s.get_char(e1) != '.' {
        proof {
            assert forall|i: int, j: int, k: int| !quad_at(t, i, j, k) by {
                if quad_at(t, i, j, k) {
                    lemma_octet_run(t, 0, i);
                    lemma_run_unique(t, 0, e1 as int, i);
                }
            }
        }
        return false;
    }
    let second = scan_octet(s, n, e1 + 1);
    if second.is_none() {
        proof {
            assert forall|i: int, j: int, k: int| !quad_at(t, i, j, k) by {
                if quad_at(t, i, j, k) {
                    lemma_octet_run(t, 0, i);
                    lemma_run_unique(t, 0, e1 as int, i);
                    assert(!is_octet(t.subrange(e1 + 1, j)));
                }
            }
        }
        return false;
    }
    let e2: usize = second.unwrap();
    if e2 >= n || s.get_char(e2) != '.' {
        proof {
            assert forall|i: int, j: int, k: int| !quad_at(t, i, j, k) by {
                if quad_at(t, i, j, k) {
                    lemma_octet_run(t, 0, i);
                    lemma_run_unique(t, 0, e1 as int, i);
                    lemma_octet_run(t, i + 1, j);
                    lemma_run_unique(t, e1 + 1, e2 as int, j);
                }
            }
        }
        return false;
    }
    let third = scan_octet(s, n, e2 + 1);
    if third.is_none() {
        proof {
            assert forall|i: int, j: int, k: int| !quad_at(t, i, j, k) by {
                if quad_at(t, i, j, k) {
                    lemma_octet_run(t, 0, i);
                    lemma_run_unique(t, 0, e1 as int, i);
                    lemma_octet_run(t, i + 1, j);
                    lemma_run_unique(t, e1 + 1, e2 as int, j);
                    assert(!is_octet(t.subrange(e2 + 1, k)));
                }
            }
        }
        return false;
    }
    let e3: usize = third.unwrap();
    if e3 >= n || s.get_char(e3) != '.' {
        proof {
            assert forall|i: int, j: int, k: int| !quad_at(t, i, j, k) by {
                if quad_at(t, i, j, k) {
                    lemma_octet_run(t, 0, i);
                    lemma_run_unique(t, 0, e1 as int, i);
                    lemma_octet_run(t, i + 1, j);
                    lemma_run_unique(t, e1 + 1, e2 as int, j);
                    lemma_octet_run(t, j + 1, k);
                    lemma_run_unique(t, e2 + 1, e3 as int, k);
                }
            }
        }
        return false;
    }
    let fourth = scan_octet(s, n, e3 + 1);
    let complete: bool = match fourth {
        Some(e4) => e4 == n,
        None => false,
    };
    proof {
        if complete {
            assert(quad_at(t, e1 as int, e2 as int, e3 as int));
        } else {
            assert forall|i: int, j: int, k: int| !quad_at(t, i, j, k) by {
                if quad_at(t, i, j, k) {
                    lemma_octet_run(t, 0, i);
                    lemma_run_unique(t, 0, e1 as int, i);
                    lemma_octet_run(t, i + 1, j);
                    lemma_run_unique(t, e1 + 1, e2 as int, j);
                    lemma_octet_run(t, j + 1, k);
                    lemma_run_unique(t, e2 + 1, e3 as int, k);
                    lemma_octet_run(t, k + 1, n as int);
                    if fourth.is_some() {
                        lemma_run_unique(t, e3 + 1, fourth.unwrap() as int, n as int);
                    } else {
                        assert(!is_octet(t.subrange(e3 + 1, n as int)));
                    }
                }
            }
        }
    }
    complete
}

/// Why a lookup response gave no address.
#[derive(Debug, Clone, Copy, PartialEq, Eq, Structural)]
pub enum ResolutionError {
    /// The lookup service answered with this status instead of 200.
    Status(u16),
    /// The answer is not UTF-8 text.
    NotText,
    /// The answer, once trimmed, is no dotted-quad IPv4 address.
    Malformed,
}

/// The status with which the lookup service reports success.
pub const STATUS_OK: u16 = 200;

/// A validated IPv4 address, kept in the dotted-quad text it arrived in.
#[derive(Debug)]
pub struct ResolvedAddress {
    text: String,
}

impl View for ResolvedAddress {
    type V = Seq<char>;

    closed spec fn view(&self) -> Seq<char> {
        self.text@
    }
}

impl ResolvedAddress {
    #[verifier::type_invariant]
    spec fn well_formed(&self) -> bool {
        is_dotted_quad(self.text@)
    }

    /// The invariant of every address: its text is a dotted quad.
    pub open spec fn wf(&self) -> bool {
        is_dotted_quad(self@)
    }

    /// Trims `text` and accepts it if what is left is a dotted quad.
    pub fn parse(text: &str) -> (r: Result<ResolvedAddress, ResolutionError>)
        ensures
            match r {
                Ok(address) => parsed_text(text@) == Some(address@) && address.wf(),
                Err(e) => parsed_text(text@) is None && e == ResolutionError::Malformed,
            },
    {
        let inner = trimmed(text);
        if is_ipv4_text(inner) {
            Ok(ResolvedAddress { text: String::from_str(inner) })
        } else {
            Err(ResolutionError::Malformed)
        }
    }

    /// The address in dotted-quad notation.
    pub fn as_str(&self) -> (r: &str)
        ensures
            r@ == self@,
            self.wf(),
    {
        proof {
            use_type_invariant(self);
        }
        self.text.as_str()
    }

    /// An owned copy of the address in dotted-quad notation.
    pub fn to_text(&self) -> (r: String)
        ensures
            r@ == self@,
            self.wf(),
    {
        proof {
            use_type_invariant(self);
        }
        self.text.clone()
    }
}

impl Clone for ResolvedAddress {
    fn clone(&self) -> (r: ResolvedAddress)
        ensures
            r@ == self@,
            r.wf(),
    {
        proof {
            use_type_invariant(self);
        }
        ResolvedAddress { text: self.text.clone() }
    }
}

/// `core::str::Utf8Error`, the reason why bytes are no text; nothing is
/// stated of what it holds.
#[verifier::external_type_specification]
#[verifier::external_body]
pub struct ExUtf8Error(core::str::Utf8Error);

/// Calls `core::str::from_utf8`. Trusted: it accepts exactly the valid
/// UTF-8 encodings, and the text it gives is the one that `bytes` decode to.
#[verifier::external_body]
fn text_of(bytes: &[u8]) -> (r: Result<&str, core::str::Utf8Error>)
    ensures
        match r {
            Ok(text) => valid_utf8(bytes@) && text@ == decode_utf8(bytes@),
            Err(_) => !valid_utf8(bytes@),
        },
{
    core::str::from_utf8(bytes)
}

/// The address that `text` gives: what is left of it after trimming, where
/// that is a dotted quad.
pub open spec fn parsed_text(text: Seq<char>) -> Option<Seq<char>> {
    if is_dotted_quad(trim(text)) {
        Some(trim(text))
    } else {
        None
    }
}

/// What a lookup response stands for: the address that the body gives,
/// where the service reported success and the body is UTF-8 text.
pub open spec fn resolved_text(status: u16, body: Seq<u8>) -> Result<Seq<char>, ResolutionError> {
    if status != STATUS_OK {
        Err(ResolutionError::Status(status))
    } else if !valid_utf8(body) {
        Err(ResolutionError::NotText)
    } else {
        match parsed_text(decode_utf8(body)) {
            Some(address) => Ok(address),
            None => Err(ResolutionError::Malformed),
        }
    }
}

/// Turns the lookup service's answer into an address.
pub fn resolve(status: u16, body: &[u8]) -> (r: Result<ResolvedAddress, ResolutionError>)
    ensures
        match r {
            Ok(address) => resolved_text(status, body@) == Ok::<Seq<char>, ResolutionError>(
                address@,
            ) && address.wf(),
            Err(e) => resolved_text(status, body@) == Err::<Seq<char>, ResolutionError>(e),
        },
{
    if status != STATUS_OK {
        return Err(ResolutionError::Status(status));
    }
    match text_of(body) {
        Ok(text) => ResolvedAddress::parse(text),
        Err(_) => Err(ResolutionError::NotText),
    }
}

/// A dotted quad is the address that its own text gives: reading an
/// address's text again yields the same address.
pub proof fn lemma_address_text_is_stable(address: Seq<char>)
    requires
        is_dotted_quad(address),
    ensures
        parsed_text(address) == Some(address),
{
    lemma_quad_is_trimmed(address);
}

} // verus!
