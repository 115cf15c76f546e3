//! Requests for a body of a given size, as the path of a download names it: a
//! number and a unit, such as `20MB`.

use vstd::prelude::*;

use crate::saved_params;

verus! {

/// A number and the letters that follow it.
pub const REQUEST_PATTERN: &'static str = "([0-9]+)([a-zA-Z]*)";

/// The bytes of a kilobyte.
pub const KILO: u64 = 1_000;

/// The bytes of a megabyte.
pub const MEGA: u64 = 1_000_000;

/// The bytes of a gigabyte.
pub const GIGA: u64 = 1_000_000_000;

const CAPITAL_A: u8 = 65;

const CAPITAL_Z: u8 = 90;

const SMALL_B: u8 = 98;

const SMALL_G: u8 = 103;

const SMALL_K: u8 = 107;

const SMALL_M: u8 = 109;

/// A request for a number of bytes.
#[derive(Clone, Copy, Debug, PartialEq, Eq, Structural)]
pub struct MemRequest(pub u64);

pub open spec fn is_digit(c: char) -> bool {
    '0' <= c <= '9'
}

pub open spec fn is_letter(c: char) -> bool {
    'a' <= c <= 'z' || 'A' <= c <= 'Z'
}

/// The end of the longest run of characters of a kind that begins at `from`.
pub open spec fn run_end(s: Seq<char>, from: int, kind: spec_fn(char) -> bool) -> int
    decreases s.len() - from,
{
    if 0 <= from < s.len() && kind(s[from]) {
        run_end(s, from + 1, kind)
    } else {
        from
    }
}

/// Where the first number of a text begins, or the text's end.
pub open spec fn number_start(s: Seq<char>) -> int {
    run_end(s, 0, |c: char| !is_digit(c))
}

/// Where the first number of a text ends.
pub open spec fn number_end(s: Seq<char>) -> int {
    run_end(s, number_start(s), |c: char| is_digit(c))
}

/// Where the letters after the first number end.
pub open spec fn unit_end(s: Seq<char>) -> int {
    run_end(s, number_end(s), |c: char| is_letter(c))
}

/// The bytes of a text of ASCII characters.
pub open spec fn ascii(s: Seq<char>) -> Seq<u8> {
    s.map_values(|c: char| c as u8)
}

/// The digits of the first number of a text.
pub open spec fn number_part(s: Seq<char>) -> Seq<u8> {
    ascii(s.subrange(number_start(s), number_end(s)))
}

/// The letters after the first number of a text.
pub open spec fn unit_part(s: Seq<char>) -> Seq<u8> {
    ascii(s.subrange(number_end(s), unit_end(s)))
}

/// A byte in lower case, where it is an ASCII letter.
pub open spec fn lower(c: u8) -> u8 {
    if 65 <= c <= 90 {
        (c + 32) as u8
    } else {
        c
    }
}

/// A text in lower case.
pub open spec fn lowered(text: Seq<u8>) -> Seq<u8> {
    text.map_values(|c: u8| lower(c))
}

/// The bytes of a unit, whatever the case of its letters.
pub open spec fn factor(unit: Seq<u8>) -> Option<nat> {
    let name = lowered(unit);
    if name == Seq::<u8>::empty() || name == ascii("b"@) {
        Some(1)
    } else if name == ascii("kb"@) {
        Some(KILO as nat)
    } else if name == ascii("mb"@) {
        Some(MEGA as nat)
    } else if name == ascii("gb"@) {
        Some(GIGA as nat)
    } else {
        None
    }
}

/// The bytes that a number and a unit ask for.
pub open spec fn requested(number: Seq<u8>, unit: Seq<u8>) -> Option<nat> {
    match (saved_params::number(number, u64::MAX as nat), factor(unit)) {
        (Some(n), Some(f)) => Some(n * f),
        _ => None,
    }
}

/// The bytes that a text asks for.
pub open spec fn size_of(s: Seq<char>) -> Option<nat> {
    if number_start(s) < s.len() {
        requested(number_part(s), unit_part(s))
    } else {
        None
    }
}

/// Calls `regex::Regex::new` on the pattern of a number and the letters that
/// follow it, `regex::Regex::captures` on the text, and reads the two groups.
///
/// The search is for the leftmost match, and `+` and `*` take as much as they
/// can. So there is no match where the text has no ASCII digit; otherwise the
/// first group is the longest run of digits from the first one on, and the
/// second the longest run of ASCII letters that follows, which may be empty.
/// Both groups are ASCII, and are handed out as bytes.
#[verifier::external_body]
fn captures(pattern: &str, s: &str) -> (groups: Option<(Vec<u8>, Vec<u8>)>)
    requires
        pattern@ == REQUEST_PATTERN@,
    ensures
        groups is Some <==> number_start(s@) < s@.len(),
        groups matches Some((number, unit)) ==> number@ == number_part(s@) && unit@ == unit_part(
            s@,
        ),
{
    let r = regex::Regex::new(pattern).unwrap();
    let c = r.captures(s)?;
    let number = c.get(1).unwrap().as_str().as_bytes().to_vec();
    let unit = c.get(2).unwrap().as_str().as_bytes().to_vec();
    Some((number, unit))
}

fn to_lower(c: u8) -> (r: u8)
    ensures
        r == lower(c),
{
    if CAPITAL_A <= c && c <= CAPITAL_Z {
        c + 32
    } else {
        c
    }
}

/// The bytes of a unit.
fn unit_factor(unit: &[u8]) -> (f: Option<u64>)
    ensures
        match f {
            Some(f) => factor(unit@) == Some(f as nat) && 1 <= f <= GIGA,
            None => factor(unit@) is None,
        },
{
    let ghost name = lowered(unit@);
    proof {
        reveal_strlit("b");
        reveal_strlit("kb");
        reveal_strlit("mb");
        reveal_strlit("gb");
        assert(ascii("b"@) =~= seq![SMALL_B]);
        assert(ascii("kb"@) =~= seq![SMALL_K, SMALL_B]);
        assert(ascii("mb"@) =~= seq![SMALL_M, SMALL_B]);
        assert(ascii("gb"@) =~= seq![SMALL_G, SMALL_B]);
    }
    if unit.len() == 0 {
        assert(name =~= Seq::<u8>::empty());
        return Some(1);
    }
    let first = to_lower(unit[0]);
    if unit.len() == 1 {
        assert(name =~= seq![first]);
        assert(seq![first][0] == first);
        return if first == SMALL_B {
            Some(1)
        } else {
            None
        };
    }
    if unit.len() > 2 {
        return None;
    }
    let second = to_lower(unit[1]);
    assert(name =~= seq![first, second]);
    assert(name[0] == first && name[1] == second);
    if second != SMALL_B {
        None
    } else if first == SMALL_K {
        Some(KILO)
    } else if first == SMALL_M {
        Some(MEGA)
    } else if first == SMALL_G {
        Some(GIGA)
    } else {
        None
    }
}

/// The bytes that a number and a unit ask for.
fn multiply(number: &[u8], unit: &[u8]) -> (size: Option<u128>)
    ensures
        match size {
            Some(n) => requested(number@, unit@) == Some(n as nat),
            None => requested(number@, unit@) is None,
        },
{
    let n = match saved_params::parse_number(number, u64::MAX) {
        Some(n) => n,
        None => {
            return None;
        },
    };
    match unit_factor(unit) {
        Some(f) => {
            proof {
                let n = n as int;
                let f = f as int;
                assert(0 <= n * f <= u64::MAX * GIGA) by (nonlinear_arith)
                    requires
                        0 <= n <= u64::MAX,
                        0 <= f <= GIGA,
                ;
            }
            Some(n as u128 * f as u128)
        },
        None => None,
    }
}

impl MemRequest {
    /// The request for a number of bytes, given as digits, times those of a
    /// unit.
    pub fn from_parts(number: &[u8], unit: &[u8]) -> (r: Result<MemRequest, ()>)
        requires
            requested(number@, unit@) matches Some(n) ==> n <= u64::MAX,
        ensures
            match r {
                Ok(request) => requested(number@, unit@) == Some(request.0 as nat),
                Err(_) => requested(number@, unit@) is None,
            },
    {
        match multiply(number, unit) {
            Some(n) => Ok(MemRequest(n as u64)),
            None => Err(()),
        }
    }

    /// The request that a text names: its first number, times the bytes of the
    /// unit after it.
    pub fn from_str(s: &str) -> (r: Result<MemRequest, ()>)
        requires
            size_of(s@) matches Some(n) ==> n <= u64::MAX,
        ensures
            match r {
                Ok(request) => size_of(s@) == Some(request.0 as nat),
                Err(_) => size_of(s@) is None,
            },
    {
        match captures(REQUEST_PATTERN, s) {
            Some((number, unit)) => MemRequest::from_parts(&number, &unit),
            None => Err(()),
        }
    }

    /// The request that a text names, or nothing where it is for more bytes
    /// than a number holds.
    pub fn from_any(s: &str) -> (r: Option<Result<MemRequest, ()>>)
        ensures
            match r {
                Some(Ok(request)) => size_of(s@) == Some(request.0 as nat),
                Some(Err(_)) => size_of(s@) is None,
                None => size_of(s@) is Some && size_of(s@)->0 > u64::MAX,
            },
    {
        match captures(REQUEST_PATTERN, s) {
            Some((number, unit)) => match multiply(&number, &unit) {
                Some(n) => if n <= u64::MAX as u128 {
                    Some(Ok(MemRequest(n as u64)))
                } else {
                    None
                },
                None => Some(Err(())),
            },
            None => Some(Err(())),
        }
    }
}

/// A run is found in a text as it is found behind another text.
proof fn lemma_run_shifts(before: Seq<char>, s: Seq<char>, from: int, kind: spec_fn(char) -> bool)
    requires
        0 <= from <= s.len(),
    ensures
        run_end(before + s, before.len() + from, kind) == before.len() + run_end(s, from, kind),
        from <= run_end(s, from, kind) <= s.len(),
    decreases s.len() - from,
{
    if from < s.len() {
        assert((before + s)[before.len() + from] == s[from]);
        if kind(s[from]) {
            lemma_run_shifts(before, s, from + 1, kind);
        }
    }
}

/// A run that begins in characters of its kind goes on behind them.
proof fn lemma_run_passes(before: Seq<char>, s: Seq<char>, from: int, kind: spec_fn(char) -> bool)
    requires
        0 <= from <= before.len(),
        forall|i: int| 0 <= i < before.len() ==> kind(#[trigger] before[i]),
    ensures
        run_end(before + s, from, kind) == run_end(before + s, before.len() as int, kind),
    decreases before.len() - from,
{
    if from < before.len() {
        assert((before + s)[from] == before[from]);
        lemma_run_passes(before, s, from + 1, kind);
    }
}

/// What stands before the first number, such as a leading slash, does not
/// change what a text asks for.
pub proof fn leading_text_is_ignored(before: Seq<char>, s: Seq<char>)
    requires
        forall|i: int| 0 <= i < before.len() ==> !is_digit(#[trigger] before[i]),
    ensures
        size_of(before + s) == size_of(s),
{
    let other = |c: char| !is_digit(c);
    let digit = |c: char| is_digit(c);
    let letter = |c: char| is_letter(c);
    let n = before.len() as int;
    let all = before + s;
    lemma_run_passes(before, s, 0, other);
    lemma_run_shifts(before, s, 0, other);
    lemma_run_shifts(before, s, number_start(s), digit);
    lemma_run_shifts(before, s, number_end(s), letter);
    assert(all.subrange(number_start(all), number_end(all)) =~= s.subrange(
        number_start(s),
        number_end(s),
    ));
    assert(all.subrange(number_end(all), unit_end(all)) =~= s.subrange(
        number_end(s),
        unit_end(s),
    ));
}

/// A character in lower case, where it is an ASCII letter.
pub open spec fn lower_char(c: char) -> char {
    if 'A' <= c <= 'Z' {
        (c as u8 + 32) as char
    } else {
        c
    }
}

/// A character in upper case, where it is an ASCII letter.
pub open spec fn upper_char(c: char) -> char {
    if 'a' <= c <= 'z' {
        (c as u8 - 32) as char
    } else {
        c
    }
}

/// A text with its ASCII letters in upper case.
pub open spec fn uppered(s: Seq<char>) -> Seq<char> {
    s.map_values(|c: char| upper_char(c))
}

/// Whether two texts differ in nothing but the case of their ASCII letters.
pub open spec fn same_but_for_case(a: Seq<char>, b: Seq<char>) -> bool {
    a.len() == b.len() && forall|i: int|
        0 <= i < a.len() ==> lower_char(#[trigger] a[i]) == lower_char(b[i])
}

/// Runs of a kind end together in texts whose characters are of it together.
proof fn lemma_same_runs(a: Seq<char>, b: Seq<char>, from: int, kind: spec_fn(char) -> bool)
    requires
        a.len() == b.len(),
        0 <= from <= a.len(),
        forall|i: int| 0 <= i < a.len() ==> kind(#[trigger] a[i]) == kind(b[i]),
    ensures
        run_end(a, from, kind) == run_end(b, from, kind),
        from <= run_end(a, from, kind) <= a.len(),
        forall|i: int| from <= i < run_end(a, from, kind) ==> kind(#[trigger] a[i]),
    decreases a.len() - from,
{
    if from < a.len() && kind(a[from]) {
        lemma_same_runs(a, b, from + 1, kind);
    }
}

/// The case of letters does not change what a text asks for.
pub proof fn case_is_ignored(a: Seq<char>, b: Seq<char>)
    requires
        same_but_for_case(a, b),
    ensures
        size_of(a) == size_of(b),
{
    let other = |c: char| !is_digit(c);
    let digit = |c: char| is_digit(c);
    let letter = |c: char| is_letter(c);
    assert forall|i: int| 0 <= i < a.len() implies is_digit(#[trigger] a[i]) == is_digit(b[i])
        && is_letter(a[i]) == is_letter(b[i]) by {
        assert(lower_char(a[i]) == lower_char(b[i]));
    }
    lemma_same_runs(a, b, 0, other);
    lemma_same_runs(a, b, number_start(a), digit);
    lemma_same_runs(a, b, number_end(a), letter);
    assert(number_part(a) =~= number_part(b)) by {
        assert forall|i: int| number_start(a) <= i < number_end(a) implies a[i] == b[i] by {
            assert(digit(a[i]));
            assert(lower_char(a[i]) == lower_char(b[i]));
        }
    }
    assert(lowered(unit_part(a)) =~= lowered(unit_part(b))) by {
        assert forall|i: int| number_end(a) <= i < unit_end(a) implies lower(a[i] as u8) == lower(
            b[i] as u8,
        ) by {
            assert(letter(a[i]));
            assert(lower_char(a[i]) == lower_char(b[i]));
        }
    }
}

/// A text in upper case asks for what the text itself does.
pub proof fn upper_case_asks_for_the_same(s: Seq<char>)
    ensures
        size_of(uppered(s)) == size_of(s),
{
    case_is_ignored(uppered(s), s);
}

/// A number without a unit is one of bytes.
pub proof fn no_unit_means_bytes(number: Seq<u8>)
    ensures
        requested(number, Seq::empty()) == requested(number, ascii("B"@)),
        requested(number, Seq::empty()) == saved_params::number(number, u64::MAX as nat),
{
    reveal_strlit("B");
    reveal_strlit("b");
    assert(lowered(ascii("B"@)) =~= ascii("b"@));
    assert(lowered(Seq::<u8>::empty()) =~= Seq::<u8>::empty());
    if let Some(n) = saved_params::number(number, u64::MAX as nat) {
        assert(n * 1 == n);
    }
}

/// The bytes of a unit that is written with no letters, or as B, kB, MB or GB
/// with letters of either case.
pub open spec fn bytes_of_unit(unit: Seq<char>) -> Option<nat> {
    let in_bytes = unit.last() == 'b' || unit.last() == 'B';
    if unit.len() == 0 || (unit.len() == 1 && in_bytes) {
        Some(1)
    } else if unit.len() == 2 && in_bytes && (unit[0] == 'k' || unit[0] == 'K') {
        Some(1_000)
    } else if unit.len() == 2 && in_bytes && (unit[0] == 'm' || unit[0] == 'M') {
        Some(1_000_000)
    } else if unit.len() == 2 && in_bytes && (unit[0] == 'g' || unit[0] == 'G') {
        Some(1_000_000_000)
    } else {
        None
    }
}

/// The decimal digits of a number, as characters.
pub open spec fn written(n: nat) -> Seq<char>
    decreases n,
{
    if n < 10 {
        seq![('0' as nat + n) as char]
    } else {
        written(n / 10).push(('0' as nat + n % 10) as char)
    }
}

proof fn lemma_written(n: nat)
    ensures
        written(n).len() > 0,
        forall|i: int| 0 <= i < written(n).len() ==> '0' <= #[trigger] written(n)[i] <= '9',
        ascii(written(n)) =~= saved_params::digits_of(n),
    decreases n,
{
    if n >= 10 {
        lemma_written(n / 10);
        let w = written(n);
        assert forall|i: int| 0 <= i < w.len() implies '0' <= #[trigger] w[i] <= '9' by {
            if i < w.len() - 1 {
                assert(w[i] == written(n / 10)[i]);
            }
        }
    }
}

/// What the parts of a text are, where it is written as text without a digit, a
/// number, letters, and anything that goes on with neither.
proof fn lemma_parts(before: Seq<char>, n: nat, unit: Seq<char>, after: Seq<char>)
    requires
        forall|i: int| 0 <= i < before.len() ==> !('0' <= #[trigger] before[i] <= '9'),
        forall|i: int|
            0 <= i < unit.len() ==> ('a' <= #[trigger] unit[i] <= 'z' || 'A' <= unit[i] <= 'Z'),
        after.len() > 0 ==> !('a' <= after[0] <= 'z') && !('A' <= after[0] <= 'Z'),
        after.len() > 0 && unit.len() == 0 ==> !('0' <= after[0] <= '9'),
    ensures
        ({
            let s = before + (written(n) + (unit + after));
            &&& number_start(s) < s.len()
            &&& number_part(s) == saved_params::digits_of(n)
            &&& unit_part(s) == ascii(unit)
        }),
{
    let other = |c: char| !is_digit(c);
    let digit = |c: char| is_digit(c);
    let letter = |c: char| is_letter(c);
    let w = written(n);
    let tail = unit + after;
    let t = w + tail;
    let s = before + t;
    lemma_written(n);
    // The number begins behind the text before it.
    lemma_run_passes(before, t, 0, other);
    lemma_run_shifts(before, t, 0, other);
    assert(t[0] == w[0]);
    assert(run_end(t, 0, other) == 0);
    let a = before.len() as int;
    assert(number_start(s) == a);
    // It ends with its digits.
    assert forall|i: int| 0 <= i < w.len() implies digit(#[trigger] w[i]) by {}
    lemma_run_shifts(before, t, 0, digit);
    lemma_run_passes(w, tail, 0, digit);
    lemma_run_shifts(w, tail, 0, digit);
    if unit.len() > 0 {
        assert(tail[0] == unit[0]);
    } else if after.len() > 0 {
        assert(tail[0] == after[0]);
    }
    assert(run_end(tail, 0, digit) == 0);
    let b = a + w.len();
    assert(number_end(s) == b);
    // The unit ends with its letters.
    assert forall|i: int| 0 <= i < unit.len() implies letter(#[trigger] unit[i]) by {}
    lemma_run_shifts(before, t, w.len() as int, letter);
    lemma_run_shifts(w, tail, 0, letter);
    lemma_run_passes(unit, after, 0, letter);
    lemma_run_shifts(unit, after, 0, letter);
    assert(run_end(after, 0, letter) == 0);
    assert(unit_end(s) == b + unit.len());
    assert(s.subrange(a, b) =~= w);
    assert(s.subrange(b, b + unit.len()) =~= unit);
}

/// A unit by its letters is a unit by its bytes.
proof fn lemma_unit(unit: Seq<char>)
    requires
        forall|i: int|
            0 <= i < unit.len() ==> ('a' <= #[trigger] unit[i] <= 'z' || 'A' <= unit[i] <= 'Z'),
    ensures
        factor(ascii(unit)) == bytes_of_unit(unit),
{
    reveal_strlit("b");
    reveal_strlit("kb");
    reveal_strlit("mb");
    reveal_strlit("gb");
    let name = lowered(ascii(unit));
    assert(name.len() == unit.len());
    assert(ascii("b"@) =~= seq![98u8]);
    assert(ascii("kb"@) =~= seq![107u8, 98u8]);
    assert(ascii("mb"@) =~= seq![109u8, 98u8]);
    assert(ascii("gb"@) =~= seq![103u8, 98u8]);
    if unit.len() == 0 {
        assert(name =~= Seq::empty());
    } else if unit.len() == 1 {
        assert(name =~= seq![lower(unit[0] as u8)]);
        assert(seq![98u8][0] == 98);
        assert(name[0] == lower(unit[0] as u8));
    } else if unit.len() == 2 {
        assert(name =~= seq![lower(unit[0] as u8), lower(unit[1] as u8)]);
        assert(name[0] == lower(unit[0] as u8) && name[1] == lower(unit[1] as u8));
        assert(seq![107u8, 98u8][0] == 107 && seq![107u8, 98u8][1] == 98);
        assert(seq![109u8, 98u8][0] == 109 && seq![109u8, 98u8][1] == 98);
        assert(seq![103u8, 98u8][0] == 103 && seq![103u8, 98u8][1] == 98);
    }
}

/// A size is read as it is written: a number, and a unit of either case behind
/// it, with anything before it that is no digit, and anything behind it that
/// goes on with no letter. It is the number times the unit. A number or a unit
/// that is none is refused.
pub proof fn sizes_are_read_as_written(
    before: Seq<char>,
    n: nat,
    unit: Seq<char>,
    after: Seq<char>,
    s: &str,
    r: Result<MemRequest, ()>,
    any: Option<Result<MemRequest, ()>>,
)
    requires
        forall|i: int| 0 <= i < before.len() ==> !('0' <= #[trigger] before[i] <= '9'),
        forall|i: int|
            0 <= i < unit.len() ==> ('a' <= #[trigger] unit[i] <= 'z' || 'A' <= unit[i] <= 'Z'),
        after.len() > 0 ==> !('a' <= after[0] <= 'z') && !('A' <= after[0] <= 'Z'),
        after.len() > 0 && unit.len() == 0 ==> !('0' <= after[0] <= '9'),
        s@ == before + (written(n) + (unit + after)),
        call_ensures(MemRequest::from_any, (s,), any),
        (n <= u64::MAX && bytes_of_unit(unit) is Some ==> n * bytes_of_unit(unit)->0 <= u64::MAX)
            ==> call_ensures(MemRequest::from_str, (s,), r),
    ensures
        n > u64::MAX || bytes_of_unit(unit) is None ==> r is Err && any is Some && any->0 is Err,
        n <= u64::MAX && bytes_of_unit(unit) is Some ==> {
            let size = n * bytes_of_unit(unit)->0;
            &&& size <= u64::MAX ==> r is Ok && r->Ok_0.0 == size && any == Some(r)
            &&& size > u64::MAX ==> any is None
        },
{
    lemma_parts(before, n, unit, after);
    lemma_unit(unit);
    saved_params::lemma_digits(n);
    let d = saved_params::digits_of(n);
    assert(saved_params::is_digit(d[0]));
    assert(saved_params::unsigned(d) == d);
}

/// A text without a digit asks for no size.
pub proof fn no_digit_asks_for_nothing(
    s: &str,
    r: Result<MemRequest, ()>,
    any: Option<Result<MemRequest, ()>>,
)
    requires
        forall|i: int| 0 <= i < s@.len() ==> !('0' <= #[trigger] s@[i] <= '9'),
        call_ensures(MemRequest::from_str, (s,), r),
        call_ensures(MemRequest::from_any, (s,), any),
    ensures
        r is Err,
        any is Some && any->0 is Err,
{
    let other = |c: char| !is_digit(c);
    let empty = Seq::<char>::empty();
    assert(s@ + empty =~= s@);
    lemma_run_passes(s@, empty, 0, other);
}

/// A size is a number times a unit, whatever text they come from.
pub proof fn parts_are_multiplied(
    number: &[u8],
    unit: &[u8],
    letters: Seq<char>,
    r: Result<MemRequest, ()>,
    read: Option<u64>,
)
    requires
        forall|i: int|
            0 <= i < letters.len() ==> ('a' <= #[trigger] letters[i] <= 'z' || 'A' <= letters[i]
                <= 'Z'),
        unit@ == ascii(letters),
        call_ensures(saved_params::parse_number, (number, u64::MAX), read),
        call_ensures(MemRequest::from_parts, (number, unit), r),
    ensures
        read is None || bytes_of_unit(letters) is None ==> r is Err,
        read is Some && bytes_of_unit(letters) is Some ==> r is Ok && r->Ok_0.0 == read->0
            * bytes_of_unit(letters)->0,
{
    lemma_unit(letters);
}

} // verus!
