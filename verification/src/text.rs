//! Text helpers: numbers in messages, and searching in messages.
use vstd::prelude::*;

verus! {

/// The decimal digit of value `d`.
pub open spec fn digit(d: int) -> char {
    if d == 0 {
        '0'
    } else if d == 1 {
        '1'
    } else if d == 2 {
        '2'
    } else if d == 3 {
        '3'
    } else if d == 4 {
        '4'
    } else if d == 5 {
        '5'
    } else if d == 6 {
        '6'
    } else if d == 7 {
        '7'
    } else if d == 8 {
        '8'
    } else if d == 9 {
        '9'
    } else if d == 10 {
        'A'
    } else if d == 11 {
        'B'
    } else if d == 12 {
        'C'
    } else if d == 13 {
        'D'
    } else if d == 14 {
        'E'
    } else {
        'F'
    }
}

/// `n` in decimal, without leading zeros.
pub open spec fn decimal(n: nat) -> Seq<char>
    decreases n,
{
    if n < 10 {
        seq![digit(n as int)]
    } else {
        decimal(n / 10).push(digit((n % 10) as int))
    }
}

/// The lowest `width` hexadecimal digits of `n`, most significant first.
pub open spec fn hexadecimal(n: nat, width: nat) -> Seq<char>
    decreases width,
{
    if width == 0 {
        seq![]
    } else {
        hexadecimal(n / 16, (width - 1) as nat).push(digit((n % 16) as int))
    }
}

fn digit_str(d: u64) -> (s: &'static str)
    requires
        d < 16,
    ensures
        s@ == seq![digit(d as int)],
{
    proof {
        reveal_strlit("0");
        reveal_strlit("1");
        reveal_strlit("2");
        reveal_strlit("3");
        reveal_strlit("4");
        reveal_strlit("5");
        reveal_strlit("6");
        reveal_strlit("7");
        reveal_strlit("8");
        reveal_strlit("9");
        reveal_strlit("A");
        reveal_strlit("B");
        reveal_strlit("C");
        reveal_strlit("D");
        reveal_strlit("E");
        reveal_strlit("F");
    }
    match d {
        0 => "0",
        1 => "1",
        2 => "2",
        3 => "3",
        4 => "4",
        5 => "5",
        6 => "6",
        7 => "7",
        8 => "8",
        9 => "9",
        10 => "A",
        11 => "B",
        12 => "C",
        13 => "D",
        14 => "E",
        _ => "F",
    }
}

/// Appends `n` in decimal.
pub fn push_decimal(out: &mut String, n: u64)
    ensures
        final(out)@ == old(out)@ + decimal(n as nat),
    decreases n,
{
    let ghost before = out@;
    if n >= 10 {
        push_decimal(out, n / 10);
    }
    out.append(digit_str(n % 10));
    assert(out@ =~= before + decimal(n as nat));
}

/// Appends the lowest `width` hexadecimal digits of `n`.
pub fn push_hexadecimal(out: &mut String, n: u64, width: u32)
    ensures
        final(out)@ == old(out)@ + hexadecimal(n as nat, width as nat),
    decreases width,
{
    let ghost before = out@;
    if width > 0 {
        push_hexadecimal(out, n / 16, width - 1);
        out.append(digit_str(n % 16));
    }
    assert(out@ =~= before + hexadecimal(n as nat, width as nat));
}

/// `c`, an ASCII capital made small.
pub open spec fn lower(c: char) -> char {
    if 'A' <= c && c <= 'Z' {
        (c as u32 + 32) as char
    } else {
        c
    }
}

/// `s` with every ASCII capital made small.
pub open spec fn lowered(s: Seq<char>) -> Seq<char> {
    s.map_values(|c: char| lower(c))
}

/// Whether `needle` stands in `s` from character `i` on.
pub open spec fn occurs_at(s: Seq<char>, needle: Seq<char>, i: int) -> bool {
    &&& 0 <= i
    &&& i + needle.len() <= s.len()
    &&& s.subrange(i, i + needle.len()) == needle
}

/// Whether `needle` stands somewhere in `s`.
pub open spec fn contains(s: Seq<char>, needle: Seq<char>) -> bool {
    exists|i: int| occurs_at(s, needle, i)
}

/// The characters of `s`.
pub fn to_chars(s: &str) -> (chars: Vec<char>)
    ensures
        chars@ == s@,
{
    let mut chars: Vec<char> = Vec::new();
    for c in it: s.chars()
        invariant
            chars@ == it.seq().take(it.index() as int),
            it.seq() == s@,
    {
        chars.push(c);
    }
    chars
}

/// Whether `c`, made small where `fold` says so, is `p`.
fn same_char(c: char, p: char, fold: bool) -> (same: bool)
    ensures
        same == ((if fold { lower(c) } else { c }) == p),
{
    let code: u32 = c as u32;
    let want: u32 = p as u32;
    if fold && 65 <= code && code <= 90 {
        assert(lower(c) as u32 == code + 32);
        code + 32 == want
    } else {
        code == want
    }
}

/// Whether `needle` stands in `s`, the ASCII capitals of `s` made small where `fold` says so.
fn find(s: &str, needle: &str, fold: bool) -> (found: bool)
    ensures
        found == contains(if fold { lowered(s@) } else { s@ }, needle@),
{
    let hay: Vec<char> = to_chars(s);
    let pat: Vec<char> = to_chars(needle);
    let ghost h = if fold { lowered(s@) } else { s@ };
    let n: usize = hay.len();
    let k: usize = pat.len();
    if k > n {
        return false;
    }
    let mut i: usize = 0;
    while i <= n - k
        invariant
            hay@ == s@,
            pat@ == needle@,
            h == (if fold { lowered(s@) } else { s@ }),
            n == hay@.len(),
            n == h.len(),
            k == pat@.len(),
            k <= n,
            0 <= i <= n - k + 1,
            forall|p: int| 0 <= p < i ==> !occurs_at(h, needle@, p),
        decreases n - k + 1 - i,
    {
        let mut j: usize = 0;
        while j < k && same_char(hay[i + j], pat[j], fold)
            invariant
                hay@ == s@,
                pat@ == needle@,
                h == (if fold { lowered(s@) } else { s@ }),
                n == hay@.len(),
                n == h.len(),
                k == pat@.len(),
                k <= n,
                i <= n - k,
                0 <= j <= k,
                forall|q: int| 0 <= q < j ==> h[i + q] == needle@[q],
            decreases k - j,
        {
            assert(h[i + j] == needle@[j as int]);
            j = j + 1;
        }
        if j == k {
            assert(h.subrange(i as int, i + k) =~= needle@);
            assert(occurs_at(h, needle@, i as int));
            return true;
        }
        assert(!occurs_at(h, needle@, i as int)) by {
            if occurs_at(h, needle@, i as int) {
                assert(h.subrange(i as int, i + k)[j as int] == needle@[j as int]);
                assert(h[i + j] == needle@[j as int]);
            }
        }
        if i == n - k {
            return false;
        }
        i = i + 1;
    }
    false
}

/// Whether `needle` stands in `s`.
pub fn has(s: &str, needle: &str) -> (found: bool)
    ensures
        found == contains(s@, needle@),
{
    find(s, needle, false)
}

/// Whether `needle` stands in `s` once the ASCII capitals of `s` are made small.
pub fn has_lowered(s: &str, needle: &str) -> (found: bool)
    ensures
        found == contains(lowered(s@), needle@),
{
    find(s, needle, true)
}

/// The number that a row of decimal digits writes.
pub open spec fn number_of(digits: Seq<char>) -> int
    decreases digits.len(),
{
    if digits.len() == 0 {
        0
    } else {
        10 * number_of(digits.drop_last()) + (digits.last() as int - '0' as int)
    }
}

/// Law: a number in decimal is digits only, reads back as that number, and begins with no zero
/// unless it is zero.
pub proof fn decimal_reads_back(n: nat)
    ensures
        decimal(n).len() > 0,
        forall|i: int| 0 <= i < decimal(n).len() ==> '0' <= #[trigger] decimal(n)[i] && decimal(n)[i] <= '9',
        number_of(decimal(n)) == n,
        n > 0 ==> decimal(n)[0] != '0',
        decimal(0) == seq!['0'],
    decreases n,
{
    reveal_with_fuel(number_of, 3);
    if n < 10 {
        assert(decimal(n) =~= seq![digit(n as int)]);
        assert(seq![digit(n as int)].drop_last() =~= Seq::<char>::empty());
    } else {
        decimal_reads_back(n / 10);
        let front = decimal(n / 10);
        assert(decimal(n).drop_last() =~= front);
        assert(decimal(n)[0] == front[0]);
        assert forall|i: int| 0 <= i < decimal(n).len() implies '0' <= #[trigger] decimal(n)[i] && decimal(n)[i]
            <= '9' by {
            if i < front.len() {
                assert(decimal(n)[i] == front[i]);
            }
        }
    }
}

/// The value of a hexadecimal digit.
pub open spec fn nibble(c: char) -> int {
    if '0' <= c && c <= '9' {
        c as int - '0' as int
    } else {
        10 + (c as int - 'A' as int)
    }
}

/// The number that a row of hexadecimal digits writes.
pub open spec fn hex_number_of(digits: Seq<char>) -> int
    decreases digits.len(),
{
    if digits.len() == 0 {
        0
    } else {
        16 * hex_number_of(digits.drop_last()) + nibble(digits.last())
    }
}

/// Law: a number in hexadecimal has the width that was asked for, is digits and the letters
/// from A to F only, and reads back as the number, as far as the width goes.
pub proof fn hexadecimal_reads_back(n: nat, width: nat)
    ensures
        hexadecimal(n, width).len() == width,
        forall|i: int|
            0 <= i < width ==> {
                let c = #[trigger] hexadecimal(n, width)[i];
                '0' <= c && c <= '9' || 'A' <= c && c <= 'F'
            },
        hex_number_of(hexadecimal(n, width)) <= n,
        n < vstd::arithmetic::power::pow(16, width) ==> hex_number_of(hexadecimal(n, width)) == n,
    decreases width,
{
    vstd::arithmetic::power::lemma_pow0(16);
    if width > 0 {
        let less = (width - 1) as nat;
        let front = hexadecimal(n / 16, less);
        hexadecimal_reads_back(n / 16, less);
        assert(hexadecimal(n, width).drop_last() =~= front);
        vstd::arithmetic::power::lemma_pow_adds(16, less, 1);
        vstd::arithmetic::power::lemma_pow1(16);
        assert forall|i: int| 0 <= i < width implies ({
            let c = #[trigger] hexadecimal(n, width)[i];
            '0' <= c && c <= '9' || 'A' <= c && c <= 'F'
        }) by {
            if i < less {
                assert(hexadecimal(n, width)[i] == front[i]);
            }
        }
        if n < vstd::arithmetic::power::pow(16, width) {
            let p = vstd::arithmetic::power::pow(16, less);
            assert(n < p * 16);
            assert(n / 16 < p);
        }
    }
}

/// Whether `whole` is `part` with something before and after it.
pub open spec fn stands_in(whole: Seq<char>, part: Seq<char>) -> bool {
    exists|before: Seq<char>, after: Seq<char>| whole == #[trigger] (before + part + after)
}

pub proof fn lemma_stands_at_end(before: Seq<char>, part: Seq<char>)
    ensures
        stands_in(before + part, part),
{
    assert(before + part =~= before + part + Seq::<char>::empty());
}

pub proof fn lemma_stands_before(whole: Seq<char>, part: Seq<char>, more: Seq<char>)
    requires
        stands_in(whole, part),
    ensures
        stands_in(whole + more, part),
{
    let (before, after) = choose|before: Seq<char>, after: Seq<char>| whole == #[trigger] (before + part + after);
    assert(whole + more =~= before + part + (after + more));
}

pub proof fn lemma_stands_behind(lead: Seq<char>, whole: Seq<char>, part: Seq<char>)
    requires
        stands_in(whole, part),
    ensures
        stands_in(lead + whole, part),
{
    let (before, after) = choose|before: Seq<char>, after: Seq<char>| whole == #[trigger] (before + part + after);
    assert(lead + whole =~= (lead + before) + part + after);
}

} // verus!
