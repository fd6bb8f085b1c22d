//! Decimal notation for the numbers of the language, read and written.

use vstd::prelude::*;
use vstd::string::*;

verus! {

/// The ten digits.
pub open spec fn is_digit(c: char) -> bool {
    '0' <= c && c <= '9'
}

/// The digit that `c` denotes.
pub open spec fn digit_value(c: char) -> int {
    c as int - '0' as int
}

/// Every character is a digit.
pub open spec fn all_digits(s: Seq<char>) -> bool {
    forall|i: int| 0 <= i < s.len() ==> is_digit(#[trigger] s[i])
}

/// The natural number that a run of digits denotes; the empty run denotes zero.
pub open spec fn digits_value(s: Seq<char>) -> int
    decreases s.len(),
{
    if s.len() == 0 {
        0
    } else {
        digits_value(s.drop_last()) * 10 + digit_value(s.last())
    }
}

/// The two signs.
pub open spec fn is_sign(c: char) -> bool {
    c == '-' || c == '+'
}

/// A number is written as one or more digits, with at most one sign in front.
pub open spec fn is_number_text(s: Seq<char>) -> bool {
    ||| s.len() >= 1 && all_digits(s)
    ||| s.len() >= 2 && is_sign(s[0]) && all_digits(s.skip(1))
}

/// The integer that a number's text denotes.
pub open spec fn number_value(s: Seq<char>) -> int
    recommends
        is_number_text(s),
{
    if s[0] == '-' {
        -digits_value(s.skip(1))
    } else if s[0] == '+' {
        digits_value(s.skip(1))
    } else {
        digits_value(s)
    }
}

/// What reading a number from `s` gives: its value where `s` is a number that
/// fits the machine's integers, nothing otherwise.
pub open spec fn read_number_spec(s: Seq<char>) -> Option<i64> {
    if is_number_text(s) && i64::MIN <= number_value(s) <= i64::MAX {
        Some(number_value(s) as i64)
    } else {
        None
    }
}

/// A run of digits denotes no negative number.
pub proof fn lemma_digits_value_bounds(s: Seq<char>)
    requires
        all_digits(s),
    ensures
        0 <= digits_value(s),
    decreases s.len(),
{
    if s.len() > 0 {
        lemma_digits_value_bounds(s.drop_last());
    }
}

/// A longer run of digits denotes no less than each of its beginnings.
pub proof fn lemma_digits_value_grows(s: Seq<char>, k: int)
    requires
        all_digits(s),
        0 <= k <= s.len(),
    ensures
        digits_value(s.take(k)) <= digits_value(s),
    decreases s.len() - k,
{
    if k == s.len() {
        assert(s.take(k) =~= s);
    } else {
        lemma_digits_value_grows(s, k + 1);
        assert(s.take(k + 1).drop_last() =~= s.take(k));
        lemma_digits_value_bounds(s.take(k));
        assert(is_digit(s[k]));
        assert(s.take(k + 1).last() == s[k]);
    }
}

/// The digit that a character denotes, if it is one.
pub fn digit_of(c: char) -> (d: Option<u8>)
    ensures
        is_digit(c) <==> d is Some,
        d matches Some(v) ==> v == digit_value(c) && v < 10,
{
    if c >= '0' && c <= '9' {
        Some((c as u32 - '0' as u32) as u8)
    } else {
        None
    }
}

/// Reads the digits `chars[from..]` and returns the value they denote, bounded
/// by `limit`: nothing where a character is no digit, the run is empty, or the
/// value is above `limit`.
fn read_digits(chars: &Vec<char>, from: usize, limit: u64) -> (r: Option<u64>)
    requires
        from <= chars.len(),
        limit <= 0x8000_0000_0000_0000,
    ensures
        r is Some <==> from < chars.len() && all_digits(chars@.skip(from as int)) && digits_value(
            chars@.skip(from as int),
        ) <= limit,
        r matches Some(v) ==> v == digits_value(chars@.skip(from as int)),
{
    if from >= chars.len() {
        return None;
    }
    let ghost s = chars@.skip(from as int);
    let mut acc: u128 = 0;
    let mut i: usize = from;
    while i < chars.len()
        invariant
            from <= i <= chars.len(),
            s == chars@.skip(from as int),
            all_digits(s.take(i - from)),
            acc == digits_value(s.take(i - from)),
            acc <= limit,
            limit <= 0x8000_0000_0000_0000,
        decreases chars.len() - i,
    {
        let c = chars[i];
        assert(s[i - from] == c);
        match digit_of(c) {
            None => {
                return None;
            },
            Some(d) => {
                let ghost next = s.take(i - from + 1);
                assert(next.drop_last() =~= s.take(i - from));
                assert(next.last() == c);
                assert(all_digits(next)) by {
                    assert forall|j: int| 0 <= j < next.len() implies is_digit(
                        #[trigger] next[j],
                    ) by {
                        if j < i - from {
                            assert(next[j] == s.take(i - from)[j]);
                        }
                    }
                }
                acc = acc * 10 + d as u128;
                if acc > limit as u128 {
                    proof {
                        if all_digits(s) {
                            lemma_digits_value_grows(s, i - from + 1);
                        }
                    }
                    return None;
                }
                i = i + 1;
            },
        }
    }
    assert(s.take(i - from) =~= s);
    Some(acc as u64)
}

/// Reads a number: its value where `chars` is a number's text whose value fits,
/// nothing otherwise.
pub fn read_number(chars: &Vec<char>) -> (r: Option<i64>)
    ensures
        r == read_number_spec(chars@),
{
    if chars.len() == 0 {
        return None;
    }
    let first = chars[0];
    if first == '-' {
        assert(!is_digit(first));
        match read_digits(chars, 1, 0x8000_0000_0000_0000) {
            Some(v) => {
                if v == 0x8000_0000_0000_0000 {
                    Some(i64::MIN)
                } else {
                    Some(-(v as i64))
                }
            },
            None => {
                proof {
                    if all_digits(chars@.skip(1)) {
                        lemma_digits_value_bounds(chars@.skip(1));
                    }
                }
                None
            },
        }
    } else if first == '+' {
        assert(!is_digit(first));
        match read_digits(chars, 1, 0x7fff_ffff_ffff_ffff) {
            Some(v) => Some(v as i64),
            None => {
                proof {
                    if all_digits(chars@.skip(1)) {
                        lemma_digits_value_bounds(chars@.skip(1));
                    }
                }
                None
            },
        }
    } else {
        assert(chars@.skip(0) =~= chars@);
        match read_digits(chars, 0, 0x7fff_ffff_ffff_ffff) {
            Some(v) => Some(v as i64),
            None => {
                proof {
                    if all_digits(chars@) {
                        lemma_digits_value_bounds(chars@);
                    }
                }
                None
            },
        }
    }
}

/// The character that stands for the digit `d`.
pub open spec fn digit_char(d: int) -> char {
    if d == 0 {
        '0'
    } else if d == 1 {
        '1'
    } else if d == 2 {
        '2'
    } else if d == 3 {
        '3'
    } else if d == 4 {
        '4'
    } else if d == 5 {
        '5'
    } else if d == 6 {
        '6'
    } else if d == 7 {
        '7'
    } else if d == 8 {
        '8'
    } else {
        '9'
    }
}

/// The digits of a natural number, most significant first, without leading
/// zeros; zero is written as one digit.
pub open spec fn digits_text(m: nat) -> Seq<char>
    decreases m,
{
    if m < 10 {
        seq![digit_char(m as int)]
    } else {
        digits_text(m / 10) + seq![digit_char((m % 10) as int)]
    }
}

/// The text of an integer: its digits, after a minus sign where it is negative.
pub open spec fn number_text(n: int) -> Seq<char> {
    if n < 0 {
        seq!['-'] + digits_text((-n) as nat)
    } else {
        digits_text(n as nat)
    }
}

fn push_digit(out: &mut String, d: u8)
    requires
        d < 10,
    ensures
        final(out)@ == old(out)@.push(digit_char(d as int)),
{
    proof {
        reveal_strlit("0");
        reveal_strlit("1");
        reveal_strlit("2");
        reveal_strlit("3");
        reveal_strlit("4");
        reveal_strlit("5");
        reveal_strlit("6");
        reveal_strlit("7");
        reveal_strlit("8");
        reveal_strlit("9");
    }
    let ghost before = out@;
    let word = if d == 0 {
        "0"
    } else if d == 1 {
        "1"
    } else if d == 2 {
        "2"
    } else if d == 3 {
        "3"
    } else if d == 4 {
        "4"
    } else if d == 5 {
        "5"
    } else if d == 6 {
        "6"
    } else if d == 7 {
        "7"
    } else if d == 8 {
        "8"
    } else {
        "9"
    };
    assert(word@ =~= seq![digit_char(d as int)]);
    out.append(word);
    assert(out@ =~= before.push(digit_char(d as int)));
}

/// Writes a number in decimal notation.
pub fn write_number(n: i64) -> (out: String)
    ensures
        out@ == number_text(n as int),
{
    let mut out = String::new();
    let mut m: u64 = if n < 0 {
        proof {
            reveal_strlit("-");
        }
        out.append("-");
        ((-(n + 1)) as u64) + 1
    } else {
        n as u64
    };
    let ghost sign = out@;
    let ghost whole = m;
    assert(sign =~= if n < 0 { seq!['-'] } else { Seq::<char>::empty() });
    assert(whole == if n < 0 { -n } else { n as int });
    // The digits, least significant first.
    let mut low: Vec<u8> = Vec::new();
    low.push((m % 10) as u8);
    m = m / 10;
    let ghost mut tail: Seq<char> = seq![digit_char((whole % 10) as int)];
    while m > 0
        invariant
            low.len() >= 1,
            tail.len() == low.len(),
            forall|j: int| 0 <= j < low.len() ==> low[j] < 10,
            forall|j: int|
                0 <= j < low.len() ==> tail[low.len() - 1 - j] == digit_char(#[trigger] low[j] as int),
            if m == 0 {
                digits_text(whole as nat) == tail
            } else {
                digits_text(whole as nat) == digits_text(m as nat) + tail
            },
        decreases m,
    {
        let d = (m % 10) as u8;
        proof {
            let before = tail;
            tail = seq![digit_char(d as int)] + tail;
            if m < 10 {
                assert(digits_text(m as nat) =~= seq![digit_char(d as int)]);
            } else {
                assert(digits_text(m as nat) + before =~= digits_text((m / 10) as nat) + tail);
            }
            assert forall|j: int| 0 <= j < low.len() implies tail[low.len() - j] == digit_char(
                #[trigger] low[j] as int,
            ) by {
                assert(tail[low.len() - j] == before[low.len() - 1 - j]);
            }
        }
        low.push(d);
        m = m / 10;
    }
    let mut i: usize = low.len();
    while i > 0
        invariant
            i <= low.len(),
            tail.len() == low.len(),
            forall|j: int| 0 <= j < low.len() ==> low[j] < 10,
            forall|j: int|
                0 <= j < low.len() ==> tail[low.len() - 1 - j] == digit_char(#[trigger] low[j] as int),
            out@ == sign + tail.take(low.len() - i),
        decreases i,
    {
        i = i - 1;
        let ghost before = out@;
        push_digit(&mut out, low[i]);
        assert(out@ =~= sign + tail.take(low.len() - i)) by {
            assert(tail.take(low.len() - i) =~= tail.take(low.len() - i - 1).push(
                tail[low.len() - 1 - i],
            ));
        }
    }
    assert(tail.take(low.len() as int) =~= tail);
    out
}

/// The digits of a natural number are digits, at least one, and denote it.
pub proof fn lemma_digits_text(m: nat)
    ensures
        digits_text(m).len() >= 1,
        all_digits(digits_text(m)),
        digits_value(digits_text(m)) == m,
    decreases m,
{
    if m < 10 {
        let s = digits_text(m);
        assert(s.drop_last() =~= Seq::<char>::empty());
        assert(digits_value(s.drop_last()) == 0);
        assert(s.last() == digit_char(m as int));
    } else {
        lemma_digits_text(m / 10);
        let front = digits_text(m / 10);
        let s = digits_text(m);
        assert(s.drop_last() =~= front);
        assert(s.last() == digit_char((m % 10) as int));
        assert forall|i: int| 0 <= i < s.len() implies is_digit(#[trigger] s[i]) by {
            if i < front.len() {
                assert(s[i] == front[i]);
            }
        }
    }
}

/// A number that is written and read again is the same number.
pub proof fn law_number_round_trip(n: i64)
    ensures
        read_number_spec(number_text(n as int)) == Some(n),
{
    let s = number_text(n as int);
    if n < 0 {
        let m = (-n) as nat;
        lemma_digits_text(m);
        assert(s.skip(1) =~= digits_text(m));
        assert(s[0] == '-');
        assert(!is_digit(s[0]));
    } else {
        lemma_digits_text(n as nat);
        assert(is_digit(s[0]));
    }
}

} // verus!
