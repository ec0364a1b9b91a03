//! Text primitives: white space, decimal numbers, lines, substrings and hexadecimal dumps.
//!
//! Texts are modelled by the sequence of their characters.
use vstd::prelude::*;

verus! {

/// The characters with the Unicode property `White_Space`.
pub open spec fn is_white_space(c: char) -> bool {
    ||| '\u{9}' <= c <= '\u{d}'
    ||| c == ' '
    ||| c == '\u{85}'
    ||| c == '\u{a0}'
    ||| c == '\u{1680}'
    ||| '\u{2000}' <= c <= '\u{200a}'
    ||| c == '\u{2028}'
    ||| c == '\u{2029}'
    ||| c == '\u{202f}'
    ||| c == '\u{205f}'
    ||| c == '\u{3000}'
}

/// Tells whether `c` is white space.
pub fn white_space(c: char) -> (b: bool)
    ensures
        b == is_white_space(c),
{
    ('\u{9}' <= c && c <= '\u{d}') || c == ' ' || c == '\u{85}' || c == '\u{a0}' || c == '\u{1680}'
        || ('\u{2000}' <= c && c <= '\u{200a}') || c == '\u{2028}' || c == '\u{2029}'
        || c == '\u{202f}' || c == '\u{205f}' || c == '\u{3000}'
}

/// `s` without its leading white space.
pub open spec fn trim_start(s: Seq<char>) -> Seq<char>
    decreases s.len(),
{
    if s.len() > 0 && is_white_space(s[0]) {
        trim_start(s.drop_first())
    } else {
        s
    }
}

/// `s` without its trailing white space.
pub open spec fn trim_end(s: Seq<char>) -> Seq<char>
    decreases s.len(),
{
    if s.len() > 0 && is_white_space(s.last()) {
        trim_end(s.drop_last())
    } else {
        s
    }
}

/// `s` without the white space around it.
pub open spec fn trimmed(s: Seq<char>) -> Seq<char> {
    trim_end(trim_start(s))
}

/// `s` without the run of `c` that it ends in.
pub open spec fn without_trailing(s: Seq<char>, c: char) -> Seq<char>
    decreases s.len(),
{
    if s.len() > 0 && s.last() == c {
        without_trailing(s.drop_last(), c)
    } else {
        s
    }
}

/// The characters of `s`, in order.
pub fn chars_of(s: &str) -> (v: Vec<char>)
    ensures
        v@ == s@,
{
    let mut v: Vec<char> = Vec::new();
    for c in it: s.chars()
        invariant
            it.seq() == s@,
            v@ == s@.take(it.index() as int),
    {
        v.push(c);
    }
    v
}

/// Strips the white space around `s`.
pub fn trim(s: &str) -> (r: String)
    ensures
        r@ == trimmed(s@),
{
    let v = chars_of(s);
    let mut lo: usize = 0;
    assert(s@.skip(0) =~= s@);
    while lo < v.len() && white_space(v[lo])
        invariant
            v@ == s@,
            lo <= v.len(),
            trim_start(s@) == trim_start(s@.skip(lo as int)),
        decreases v.len() - lo,
    {
        assert(s@.skip(lo as int).drop_first() =~= s@.skip(lo + 1));
        lo = lo + 1;
    }
    let ghost core = s@.skip(lo as int);
    assert(trim_start(s@) == core);
    let mut hi: usize = v.len();
    assert(core.take(hi - lo) =~= core);
    while hi > lo && white_space(v[hi - 1])
        invariant
            v@ == s@,
            lo <= hi <= v.len(),
            core == s@.skip(lo as int),
            trim_end(core) == trim_end(core.take(hi - lo)),
        decreases hi - lo,
    {
        assert(core.take(hi - lo).drop_last() =~= core.take(hi - 1 - lo));
        hi = hi - 1;
    }
    assert(s@.subrange(lo as int, hi as int) =~= core.take(hi - lo));
    s.substring_char(lo, hi).to_owned()
}

/// Strips the run of `c` that `s` ends in.
pub fn trim_end_matches(s: &str, c: char) -> (r: String)
    ensures
        r@ == without_trailing(s@, c),
{
    let v = chars_of(s);
    let mut hi: usize = v.len();
    assert(s@.take(hi as int) =~= s@);
    while hi > 0 && v[hi - 1] == c
        invariant
            v@ == s@,
            hi <= v.len(),
            without_trailing(s@, c) == without_trailing(s@.take(hi as int), c),
        decreases hi,
    {
        assert(s@.take(hi as int).drop_last() =~= s@.take(hi - 1));
        hi = hi - 1;
    }
    assert(s@.subrange(0, hi as int) =~= s@.take(hi as int));
    s.substring_char(0, hi).to_owned()
}

/// Tells whether two texts are the same.
pub fn same(a: &str, b: &str) -> (r: bool)
    ensures
        r == (a@ == b@),
{
    a.to_owned() == b.to_owned()
}

/// Tells whether `s` begins with `prefix`.
pub fn starts_with(s: &str, prefix: &str) -> (r: bool)
    ensures
        r == prefix@.is_prefix_of(s@),
{
    let v = chars_of(s);
    let p = chars_of(prefix);
    occurs_at(&v, &p, 0)
}

/// `part` stands in `s` from position `i` on.
pub open spec fn stands_at(s: Seq<char>, part: Seq<char>, i: int) -> bool {
    &&& 0 <= i
    &&& i + part.len() <= s.len()
    &&& s.subrange(i, i + part.len()) == part
}

/// `part` stands somewhere in `s`.
pub open spec fn has_part(s: Seq<char>, part: Seq<char>) -> bool {
    exists|i: int| stands_at(s, part, i)
}

fn occurs_at(v: &Vec<char>, p: &Vec<char>, at: usize) -> (r: bool)
    requires
        at <= v.len(),
    ensures
        r == stands_at(v@, p@, at as int),
        at == 0 ==> r == p@.is_prefix_of(v@),
{
    if p.len() > v.len() - at {
        return false;
    }
    let mut k: usize = 0;
    while k < p.len()
        invariant
            k <= p.len(),
            p.len() <= v.len() - at,
            at <= v.len(),
            forall|j: int| 0 <= j < k ==> v[at + j] == #[trigger] p[j],
        decreases p.len() - k,
    {
        if v[at + k] != p[k] {
            proof {
                assert(v@.subrange(at as int, at + p.len())[k as int] != p@[k as int]);
            }
            return false;
        }
        k = k + 1;
    }
    assert(v@.subrange(at as int, at + p.len()) =~= p@);
    true
}

/// Tells whether `part` stands somewhere in `s`.
pub fn contains(s: &str, part: &str) -> (r: bool)
    ensures
        r == has_part(s@, part@),
{
    let v = chars_of(s);
    let p = chars_of(part);
    let mut i: usize = 0;
    while i < v.len()
        invariant
            v@ == s@,
            p@ == part@,
            i <= v.len(),
            forall|j: int| 0 <= j < i ==> !stands_at(v@, p@, j),
        decreases v.len() - i,
    {
        if occurs_at(&v, &p, i) {
            return true;
        }
        i = i + 1;
    }
    occurs_at(&v, &p, i)
}

/// The decimal digit of value `d`.
pub open spec fn digit_char(d: int) -> char {
    if d == 0 {
        '0'
    } else if d == 1 {
        '1'
    } else if d == 2 {
        '2'
    } else if d == 3 {
        '3'
    } else if d == 4 {
        '4'
    } else if d == 5 {
        '5'
    } else if d == 6 {
        '6'
    } else if d == 7 {
        '7'
    } else if d == 8 {
        '8'
    } else {
        '9'
    }
}

/// `n` in decimal, without leading zeros.
pub open spec fn decimal(n: nat) -> Seq<char>
    decreases n,
{
    if n < 10 {
        seq![digit_char(n as int)]
    } else {
        decimal(n / 10).push(digit_char((n % 10) as int))
    }
}

/// `i` in decimal, with a minus sign where it is negative.
pub open spec fn decimal_int(i: int) -> Seq<char> {
    if i < 0 {
        seq!['-'] + decimal((-i) as nat)
    } else {
        decimal(i as nat)
    }
}

pub(crate) fn digit_text(d: u64) -> (r: &'static str)
    requires
        d < 10,
    ensures
        r@ == seq![digit_char(d as int)],
{
    proof {
        reveal_strlit("0");
        reveal_strlit("1");
        reveal_strlit("2");
        reveal_strlit("3");
        reveal_strlit("4");
        reveal_strlit("5");
        reveal_strlit("6");
        reveal_strlit("7");
        reveal_strlit("8");
        reveal_strlit("9");
    }
    if d == 0 {
        "0"
    } else if d == 1 {
        "1"
    } else if d == 2 {
        "2"
    } else if d == 3 {
        "3"
    } else if d == 4 {
        "4"
    } else if d == 5 {
        "5"
    } else if d == 6 {
        "6"
    } else if d == 7 {
        "7"
    } else if d == 8 {
        "8"
    } else {
        "9"
    }
}

/// Appends `n` in decimal to `out`.
pub fn push_decimal(out: &mut String, n: u64)
    ensures
        final(out)@ == old(out)@ + decimal(n as nat),
    decreases n,
{
    if n >= 10 {
        push_decimal(out, n / 10);
    }
    out.append(digit_text(n % 10));
}

/// Appends `i` in decimal to `out`.
pub fn push_decimal_int(out: &mut String, i: i32)
    ensures
        final(out)@ == old(out)@ + decimal_int(i as int),
{
    if i < 0 {
        proof {
            reveal_strlit("-");
        }
        out.append("-");
        push_decimal(out, (-(i as i64)) as u64);
        assert("-"@ =~= seq!['-']);
    } else {
        push_decimal(out, i as u64);
    }
}

/// The value of a decimal digit.
pub open spec fn digit_value(c: char) -> Option<nat> {
    if '0' <= c <= '9' {
        Some((c as int - '0' as int) as nat)
    } else {
        None
    }
}

/// Every character of `s` is a decimal digit.
pub open spec fn all_digits(s: Seq<char>) -> bool {
    forall|i: int| 0 <= i < s.len() ==> '0' <= #[trigger] s[i] <= '9'
}

/// The number that a run of decimal digits writes.
pub open spec fn digits_value(s: Seq<char>) -> nat
    decreases s.len(),
{
    if s.len() == 0 {
        0
    } else {
        digits_value(s.drop_last()) * 10 + digit_value(s.last()).unwrap_or(0)
    }
}

/// The number that `s` writes: one or more decimal digits.
pub open spec fn natural(s: Seq<char>) -> Option<nat> {
    if s.len() > 0 && all_digits(s) {
        Some(digits_value(s))
    } else {
        None
    }
}

/// What `s` reads as when it must be an unsigned number of at most `max`: digits, with a plus
/// sign before them or none.
pub open spec fn unsigned_number(s: Seq<char>, max: nat) -> Option<nat> {
    let digits = if s.len() > 0 && s[0] == '+' {
        s.drop_first()
    } else {
        s
    };
    match natural(digits) {
        Some(n) if n <= max => Some(n),
        _ => None,
    }
}

/// What `s` reads as when it must be a signed number from `min` to `max`: digits, with a plus or
/// a minus sign before them or none.
pub open spec fn signed_number(s: Seq<char>, min: int, max: int) -> Option<int> {
    let digits = if s.len() > 0 && (s[0] == '+' || s[0] == '-') {
        s.drop_first()
    } else {
        s
    };
    match natural(digits) {
        Some(n) => {
            let value = if s[0] == '-' {
                -(n as int)
            } else {
                n as int
            };
            if min <= value <= max {
                Some(value)
            } else {
                None
            }
        },
        None => None,
    }
}

proof fn lemma_digits_value_grows(s: Seq<char>, k: int)
    requires
        0 <= k <= s.len(),
    ensures
        digits_value(s.take(k)) <= digits_value(s),
    decreases s.len(),
{
    if k == s.len() {
        assert(s.take(k) =~= s);
    } else {
        lemma_digits_value_grows(s.drop_last(), k);
        assert(s.drop_last().take(k) =~= s.take(k));
    }
}

/// Reads `v[from..]` as digits of a number of at most `limit`.
fn read_digits(v: &Vec<char>, from: usize, limit: u64) -> (r: Option<u64>)
    requires
        from <= v.len(),
        limit <= 0xffff_ffff,
    ensures
        match r {
            Some(n) => natural(v@.skip(from as int)) == Some(n as nat) && n <= limit,
            None => match natural(v@.skip(from as int)) {
                Some(n) => n > limit,
                None => true,
            },
        },
{
    let ghost s = v@.skip(from as int);
    if from == v.len() {
        return None;
    }
    let mut acc: u64 = 0;
    let mut i: usize = from;
    assert(s.take(0) =~= Seq::<char>::empty());
    while i < v.len()
        invariant
            from <= i <= v.len(),
            s == v@.skip(from as int),
            all_digits(s.take(i - from)),
            acc == digits_value(s.take(i - from)),
            acc <= limit <= 0xffff_ffff,
        decreases v.len() - i,
    {
        let c = v[i];
        assert(s[i - from] == c);
        if c < '0' || c > '9' {
            return None;
        }
        let d: u64 = (c as u32 - '0' as u32) as u64;
        assert(s.take(i - from + 1).drop_last() =~= s.take(i - from));
        assert(s.take(i - from + 1).last() == c);
        assert(digits_value(s.take(i - from + 1)) == acc * 10 + d);
        acc = acc * 10 + d;
        if acc > limit {
            proof {
                lemma_digits_value_grows(s, i - from + 1);
            }
            return None;
        }
        i = i + 1;
    }
    assert(s.take(i - from) =~= s);
    Some(acc)
}

/// Reads `s` as an unsigned 32-bit number.
pub fn parse_u32(s: &str) -> (r: Option<u32>)
    ensures
        match r {
            Some(n) => unsigned_number(s@, u32::MAX as nat) == Some(n as nat),
            None => unsigned_number(s@, u32::MAX as nat) is None,
        },
{
    let v = chars_of(s);
    let from: usize = if v.len() > 0 && v[0] == '+' {
        1
    } else {
        0
    };
    proof {
        assert(v@.skip(0) =~= v@);
        if v@.len() > 0 {
            assert(v@.skip(1) =~= v@.drop_first());
        }
    }
    match read_digits(&v, from, 0xffff_ffff) {
        Some(n) => Some(n as u32),
        None => None,
    }
}

/// Reads `s` as a signed 32-bit number.
pub fn parse_i32(s: &str) -> (r: Option<i32>)
    ensures
        match r {
            Some(n) => signed_number(s@, i32::MIN as int, i32::MAX as int) == Some(n as int),
            None => signed_number(s@, i32::MIN as int, i32::MAX as int) is None,
        },
{
    let v = chars_of(s);
    let from: usize = if v.len() > 0 && (v[0] == '+' || v[0] == '-') {
        1
    } else {
        0
    };
    let negative = v.len() > 0 && v[0] == '-';
    let limit: u64 = if negative {
        0x8000_0000
    } else {
        0x7fff_ffff
    };
    proof {
        assert(v@.skip(0) =~= v@);
        if v@.len() > 0 {
            assert(v@.skip(1) =~= v@.drop_first());
        }
    }
    match read_digits(&v, from, limit) {
        Some(n) => if negative {
            Some((-(n as i64)) as i32)
        } else {
            Some(n as i32)
        },
        None => None,
    }
}

proof fn lemma_decimal_reads_back(n: nat)
    ensures
        decimal(n).len() > 0,
        all_digits(decimal(n)),
        digits_value(decimal(n)) == n,
    decreases n,
{
    if n < 10 {
        assert(decimal(n).drop_last() =~= Seq::<char>::empty());
        assert(digits_value(Seq::<char>::empty()) == 0);
    } else {
        lemma_decimal_reads_back(n / 10);
        assert(decimal(n).drop_last() =~= decimal(n / 10));
    }
}

/// A number written in decimal reads back as itself.
pub proof fn law_decimal_reads_back(n: nat)
    ensures
        natural(decimal(n)) == Some(n),
        forall|max: nat| n <= max ==> #[trigger] unsigned_number(decimal(n), max) == Some(n),
{
    lemma_decimal_reads_back(n);
}

/// A signed number written in decimal reads back as itself.
pub proof fn law_decimal_int_reads_back(i: int, min: int, max: int)
    requires
        min <= i <= max,
    ensures
        signed_number(decimal_int(i), min, max) == Some(i),
{
    if i < 0 {
        lemma_decimal_reads_back((-i) as nat);
        assert(decimal_int(i).drop_first() =~= decimal((-i) as nat));
    } else {
        lemma_decimal_reads_back(i as nat);
    }
}

/// A number in decimal is not empty, and nothing but digits and a leading minus sign is in it.
pub proof fn lemma_decimal_int_chars(i: int)
    ensures
        decimal_int(i).len() > 0,
        forall|k: int|
            0 <= k < decimal_int(i).len() ==> #[trigger] decimal_int(i)[k] == '-' || '0'
                <= decimal_int(i)[k] <= '9',
{
    lemma_decimal_reads_back(
        if i < 0 {
            (-i) as nat
        } else {
            i as nat
        },
    );
}

proof fn lemma_trim_start_head(s: Seq<char>)
    ensures
        trim_start(s).len() <= s.len(),
        trim_start(s).len() > 0 ==> !is_white_space(trim_start(s)[0]),
    decreases s.len(),
{
    if s.len() > 0 && is_white_space(s[0]) {
        lemma_trim_start_head(s.drop_first());
    }
}

proof fn lemma_trim_end_ends(s: Seq<char>)
    ensures
        trim_end(s).len() <= s.len(),
        trim_end(s).len() > 0 ==> !is_white_space(trim_end(s).last()) && trim_end(s)[0] == s[0],
    decreases s.len(),
{
    if s.len() > 0 && is_white_space(s.last()) {
        lemma_trim_end_ends(s.drop_last());
    }
}

/// A trimmed text has no white space at either end, and trimming it again changes nothing.
pub proof fn law_trim(s: Seq<char>)
    ensures
        trimmed(s).len() > 0 ==> !is_white_space(trimmed(s)[0]) && !is_white_space(
            trimmed(s).last(),
        ),
        trimmed(trimmed(s)) == trimmed(s),
{
    lemma_trim_start_head(s);
    lemma_trim_end_ends(trim_start(s));
}

/// A text that neither begins nor ends with white space is left as it is.
pub proof fn law_trim_keeps(s: Seq<char>)
    requires
        s.len() > 0 ==> !is_white_space(s[0]) && !is_white_space(s.last()),
    ensures
        trimmed(s) == s,
{
}

/// `line` without the carriage return that it ends in.
pub open spec fn without_carriage_return(line: Seq<char>) -> Seq<char> {
    if line.len() > 0 && line.last() == '\r' {
        line.drop_last()
    } else {
        line
    }
}

/// The position of the first `c` in `s` from `i` on, or the length of `s` where there is none.
pub open spec fn position(s: Seq<char>, c: char, i: int) -> int
    decreases s.len() - i,
{
    if 0 <= i < s.len() && s[i] != c {
        position(s, c, i + 1)
    } else {
        i
    }
}

/// `position` finds a `c` with no other before it, or the end.
pub proof fn lemma_position(s: Seq<char>, c: char, i: int)
    requires
        0 <= i <= s.len(),
    ensures
        i <= position(s, c, i) <= s.len(),
        position(s, c, i) < s.len() ==> s[position(s, c, i)] == c,
        forall|k: int| i <= k < position(s, c, i) ==> s[k] != c,
    decreases s.len() - i,
{
    if i < s.len() && s[i] != c {
        lemma_position(s, c, i + 1);
    }
}

/// Finds the first `c` in `v` from `i` on.
pub(crate) fn find_char(v: &Vec<char>, c: char, i: usize) -> (r: usize)
    requires
        i <= v.len(),
    ensures
        i <= r <= v.len(),
        r == position(v@, c, i as int),
{
    let mut end: usize = i;
    while end < v.len() && v[end] != c
        invariant
            i <= end <= v.len(),
            position(v@, c, i as int) == position(v@, c, end as int),
        decreases v.len() - end,
    {
        end = end + 1;
    }
    end
}

/// The lines of `s` from position `i` on. A line ends in a line feed, or in a carriage return
/// and a line feed, which are not part of it; the last line may have no end.
pub open spec fn lines_from(s: Seq<char>, i: int) -> Seq<Seq<char>>
    decreases s.len() - i,
    when 0 <= i
    via lines_from_decreases
{
    if i >= s.len() {
        Seq::empty()
    } else {
        let end = position(s, '\n', i);
        if end < s.len() {
            seq![without_carriage_return(s.subrange(i, end))] + lines_from(s, end + 1)
        } else {
            seq![s.subrange(i, s.len() as int)]
        }
    }
}

#[via_fn]
proof fn lines_from_decreases(s: Seq<char>, i: int) {
    if i < s.len() {
        lemma_position(s, '\n', i);
    }
}

/// The lines of `s`.
pub open spec fn lines_of(s: Seq<char>) -> Seq<Seq<char>> {
    lines_from(s, 0)
}

/// Splits `s` into its lines.
pub fn lines(s: &str) -> (r: Vec<String>)
    ensures
        r.deep_view() == lines_of(s@),
{
    let v = chars_of(s);
    let mut out: Vec<String> = Vec::new();
    let mut i: usize = 0;
    assert(out.deep_view() =~= Seq::<Seq<char>>::empty());
    while i < v.len()
        invariant
            v@ == s@,
            i <= v.len(),
            out.deep_view() + lines_from(s@, i as int) =~= lines_of(s@),
        decreases v.len() - i,
    {
        let end = find_char(&v, '\n', i);
        let ghost before = out.deep_view();
        if end < v.len() {
            let stop: usize = if end > i && v[end - 1] == '\r' {
                end - 1
            } else {
                end
            };
            let line = s.substring_char(i, stop).to_owned();
            proof {
                let whole = s@.subrange(i as int, end as int);
                if end > i {
                    assert(whole.last() == v@[end - 1]);
                    assert(whole.drop_last() =~= s@.subrange(i as int, end - 1));
                }
                assert(line@ == without_carriage_return(whole));
            }
            out.push(line);
            assert(out.deep_view() =~= before.push(line@));
            i = end + 1;
        } else {
            let line = s.substring_char(i, end).to_owned();
            out.push(line);
            assert(out.deep_view() =~= before.push(line@));
            i = end;
        }
    }
    out
}

/// The hexadecimal digit, in lower case, of value `d`.
pub open spec fn hex_char(d: int) -> char {
    if d < 10 {
        digit_char(d)
    } else if d == 10 {
        'a'
    } else if d == 11 {
        'b'
    } else if d == 12 {
        'c'
    } else if d == 13 {
        'd'
    } else if d == 14 {
        'e'
    } else {
        'f'
    }
}

/// Two hexadecimal digits for each byte of `data`.
pub open spec fn hex(data: Seq<u8>) -> Seq<char> {
    Seq::new(
        2 * data.len(),
        |i: int|
            if i % 2 == 0 {
                hex_char(data[i / 2] as int / 16)
            } else {
                hex_char(data[i / 2] as int % 16)
            },
    )
}

fn hex_text(d: u8) -> (r: &'static str)
    requires
        d < 16,
    ensures
        r@ == seq![hex_char(d as int)],
{
    proof {
        reveal_strlit("a");
        reveal_strlit("b");
        reveal_strlit("c");
        reveal_strlit("d");
        reveal_strlit("e");
        reveal_strlit("f");
    }
    if d < 10 {
        digit_text(d as u64)
    } else if d == 10 {
        "a"
    } else if d == 11 {
        "b"
    } else if d == 12 {
        "c"
    } else if d == 13 {
        "d"
    } else if d == 14 {
        "e"
    } else {
        "f"
    }
}

/// Dumps `data` as lower-case hexadecimal digits.
pub fn hex_encode(data: &[u8]) -> (r: String)
    ensures
        r@ == hex(data@),
{
    let mut out = String::new();
    let mut i: usize = 0;
    while i < data.len()
        invariant
            i <= data.len(),
            out@ =~= hex(data@.take(i as int)),
        decreases data.len() - i,
    {
        out.append(hex_text(data[i] / 16));
        out.append(hex_text(data[i] % 16));
        i = i + 1;
    }
    assert(data@.take(i as int) =~= data@);
    out
}

/// A dump has two digits for each byte, and different data have different dumps.
pub proof fn law_hex_is_injective(a: Seq<u8>, b: Seq<u8>)
    ensures
        hex(a).len() == 2 * a.len(),
        hex(a) == hex(b) ==> a == b,
{
    if hex(a) == hex(b) {
        assert(hex(a).len() == 2 * a.len());
        assert(hex(b).len() == 2 * b.len());
        assert forall|i: int| 0 <= i < a.len() implies a[i] == b[i] by {
            assert(hex(a)[2 * i] == hex(b)[2 * i]);
            assert(hex(a)[2 * i + 1] == hex(b)[2 * i + 1]);
        }
        assert(a =~= b);
    }
}

/// `s` is nothing but white space.
pub open spec fn all_white_space(s: Seq<char>) -> bool {
    forall|i: int| 0 <= i < s.len() ==> is_white_space(#[trigger] s[i])
}

proof fn lemma_trim_start_front(front: Seq<char>, core: Seq<char>)
    requires
        all_white_space(front),
        core.len() > 0 ==> !is_white_space(core[0]),
    ensures
        trim_start(front + core) == core,
    decreases front.len(),
{
    let s = front + core;
    if front.len() == 0 {
        assert(s =~= core);
    } else {
        assert(s[0] == front[0]);
        assert(s.drop_first() =~= front.drop_first() + core);
        assert forall|i: int| 0 <= i < front.drop_first().len() implies is_white_space(
            #[trigger] front.drop_first()[i],
        ) by {
            assert(front.drop_first()[i] == front[i + 1]);
        }
        lemma_trim_start_front(front.drop_first(), core);
    }
}

proof fn lemma_trim_end_back(core: Seq<char>, back: Seq<char>)
    requires
        all_white_space(back),
        core.len() > 0 ==> !is_white_space(core.last()),
    ensures
        trim_end(core + back) == core,
    decreases back.len(),
{
    let s = core + back;
    if back.len() == 0 {
        assert(s =~= core);
    } else {
        assert(s.last() == back.last());
        assert(s.drop_last() =~= core + back.drop_last());
        assert(is_white_space(back[back.len() - 1]));
        lemma_trim_end_back(core, back.drop_last());
    }
}

/// Trimming takes away the white space around a text, all of it and nothing else.
pub proof fn law_trim_takes_the_white_space(front: Seq<char>, core: Seq<char>, back: Seq<char>)
    requires
        all_white_space(front),
        all_white_space(back),
        core.len() > 0 ==> !is_white_space(core[0]) && !is_white_space(core.last()),
    ensures
        trimmed(front + core + back) == core,
{
    if core.len() > 0 {
        assert(front + core + back =~= front + (core + back));
        lemma_trim_start_front(front, core + back);
        lemma_trim_end_back(core, back);
    } else {
        let all = front + back;
        assert(front + core + back =~= all + core);
        lemma_trim_start_front(all, core);
        assert(trim_end(core) == core);
    }
}

/// Stripping takes away the run of a character at the end of a text, all of it and nothing else.
pub proof fn law_trailing_run_goes(core: Seq<char>, c: char, n: nat)
    requires
        core.len() > 0 ==> core.last() != c,
    ensures
        without_trailing(core + Seq::new(n, |i: int| c), c) == core,
    decreases n,
{
    let run = Seq::new(n, |i: int| c);
    let s = core + run;
    if n == 0 {
        assert(s =~= core);
    } else {
        assert(s.last() == c);
        assert(s.drop_last() =~= core + Seq::new((n - 1) as nat, |i: int| c));
        law_trailing_run_goes(core, c, (n - 1) as nat);
    }
}

/// A text has a part if and only if it is something, the part, and something more.
pub proof fn law_parts(s: Seq<char>, part: Seq<char>, before: Seq<char>, after: Seq<char>)
    ensures
        has_part(before + part + after, part),
        has_part(s, part) ==> exists|a: Seq<char>, b: Seq<char>| s == #[trigger] (a + part + b),
{
    let whole = before + part + after;
    let at = before.len() as int;
    assert(whole.subrange(at, at + part.len()) =~= part);
    assert(stands_at(whole, part, at));
    if has_part(s, part) {
        let i = choose|i: int| stands_at(s, part, i);
        let a = s.take(i);
        let b = s.skip(i + part.len());
        assert(s =~= a + part + b);
    }
}

/// One more digit at the end of a number makes it ten times as large, and adds the digit.
pub proof fn law_digit_by_digit(s: Seq<char>, d: int)
    requires
        0 <= d < 10,
    ensures
        all_digits(s) ==> natural(s.push(digit_char(d))) == Some(
            (digits_value(s) * 10 + d) as nat,
        ),
        digits_value(Seq::empty()) == 0,
{
    let t = s.push(digit_char(d));
    assert(t.drop_last() =~= s);
    if all_digits(s) {
        assert forall|i: int| 0 <= i < t.len() implies '0' <= #[trigger] t[i] <= '9' by {
            if i < s.len() {
                assert(t[i] == s[i]);
            }
        }
    }
}

/// What reads as an unsigned number is digits, with a plus sign before them or none, of a number
/// within the limit; and all such texts do. A minus sign is never part of one.
pub proof fn law_unsigned_numbers(digits: Seq<char>, other: Seq<char>, max: nat)
    requires
        digits.len() > 0,
        all_digits(digits),
    ensures
        digits_value(digits) <= max ==> unsigned_number(digits, max) == Some(digits_value(digits)),
        digits_value(digits) <= max ==> unsigned_number(seq!['+'] + digits, max) == Some(
            digits_value(digits),
        ),
        digits_value(digits) > max ==> unsigned_number(digits, max) is None,
        unsigned_number(seq!['-'] + other, max) is None,
        unsigned_number(Seq::empty(), max) is None,
        unsigned_number(other, max) is Some ==> all_digits(other) || (other[0] == '+' && all_digits(
            other.drop_first(),
        )),
{
    assert(digits[0] != '+');
    assert((seq!['+'] + digits).drop_first() =~= digits);
    let minus = seq!['-'] + other;
    assert(minus[0] == '-');
    assert(!all_digits(minus));
}

/// What reads as a signed number is digits, with a sign before them or none; a minus sign makes the
/// number negative; and a number outside of the limits does not read.
pub proof fn law_signed_numbers(digits: Seq<char>, other: Seq<char>, min: int, max: int)
    requires
        digits.len() > 0,
        all_digits(digits),
    ensures
        ({
            let n = digits_value(digits) as int;
            &&& min <= n <= max ==> signed_number(digits, min, max) == Some(n)
            &&& min <= n <= max ==> signed_number(seq!['+'] + digits, min, max) == Some(n)
            &&& min <= -n <= max ==> signed_number(seq!['-'] + digits, min, max) == Some(-n)
        }),
        signed_number(other, min, max) matches Some(n) ==> min <= n <= max,
        signed_number(other, min, max) is Some ==> all_digits(other) || ((other[0] == '+'
            || other[0] == '-') && all_digits(other.drop_first())),
        signed_number(Seq::empty(), min, max) is None,
{
    assert(digits[0] != '+' && digits[0] != '-');
    assert((seq!['+'] + digits).drop_first() =~= digits);
    assert((seq!['-'] + digits).drop_first() =~= digits);
}

proof fn lemma_lines_from_shift(a: Seq<char>, b: Seq<char>, i: int)
    requires
        0 <= i <= b.len(),
    ensures
        lines_from(a + b, a.len() + i) == lines_from(b, i),
    decreases b.len() - i,
{
    let s = a + b;
    if i < b.len() {
        lemma_position(b, '\n', i);
        lemma_position(s, '\n', a.len() + i);
        let end = position(b, '\n', i);
        let far = position(s, '\n', a.len() + i);
        assert(far == a.len() + end) by {
            if far < a.len() + end {
                assert(s[far] == b[far - a.len()]);
            }
            if far > a.len() + end {
                assert(s[a.len() + end] == b[end]);
            }
        }
        assert(s.subrange(a.len() + i, far) =~= b.subrange(i, end));
        if end < b.len() {
            lemma_lines_from_shift(a, b, end + 1);
        } else {
            assert(s.subrange(a.len() + i, s.len() as int) =~= b.subrange(i, b.len() as int));
        }
    }
}

/// A text is read line by line: the lines of a line with its end, and more text, are that line, and
/// the lines of the text. A carriage return before the end is not part of the line. What has no end
/// is a line as it is, and no text has no lines.
pub proof fn law_line_by_line(line: Seq<char>, rest: Seq<char>)
    requires
        !line.contains('\n'),
    ensures
        line.len() == 0 || line.last() != '\r' ==> lines_of(line + seq!['\n'] + rest) == seq![line]
            + lines_of(rest),
        lines_of(line + seq!['\r', '\n'] + rest) == seq![line] + lines_of(rest),
        line.len() > 0 ==> lines_of(line) == seq![line],
        lines_of(Seq::empty()) == Seq::<Seq<char>>::empty(),
{
    let plain = line + seq!['\n'];
    let s = plain + rest;
    lemma_position(s, '\n', 0);
    assert(s[line.len() as int] == '\n');
    let end = position(s, '\n', 0);
    if end < line.len() {
        assert(line[end] == s[end]);
        assert(line.contains('\n'));
    }
    assert(s.subrange(0, end) =~= line);
    lemma_lines_from_shift(plain, rest, 0);
    let returned = line + seq!['\r', '\n'];
    let t = returned + rest;
    lemma_position(t, '\n', 0);
    assert(t[(line.len() + 1) as int] == '\n');
    let stop = position(t, '\n', 0);
    if stop < line.len() {
        assert(line[stop] == t[stop]);
        assert(line.contains('\n'));
    } else if stop == line.len() {
        assert(t[stop] == '\r');
    }
    assert(stop == line.len() + 1);
    assert(t.subrange(0, stop) =~= line.push('\r'));
    assert(line.push('\r').drop_last() =~= line);
    lemma_lines_from_shift(returned, rest, 0);
    if line.len() > 0 {
        lemma_position(line, '\n', 0);
        let over = position(line, '\n', 0);
        if over < line.len() {
            assert(line.contains(line[over]));
        }
        assert(line.subrange(0, line.len() as int) =~= line);
    }
}

/// Data are dumped piece by piece, and a byte is two digits: that of its upper four bits, then that
/// of its lower four.
pub proof fn law_hex_byte_by_byte(a: Seq<u8>, b: Seq<u8>, byte: u8)
    ensures
        hex(a + b) == hex(a) + hex(b),
        hex(seq![byte]) == seq![hex_char(byte as int / 16), hex_char(byte as int % 16)],
{
    assert(hex(a + b) =~= hex(a) + hex(b)) by {
        assert forall|i: int| 0 <= i < 2 * (a.len() + b.len()) implies hex(a + b)[i] == (hex(a)
            + hex(b))[i] by {
            if i < 2 * a.len() {
                assert((a + b)[i / 2] == a[i / 2]);
            } else {
                let j = i - 2 * a.len();
                assert(i / 2 == a.len() + j / 2);
                assert(i % 2 == j % 2);
                assert((a + b)[i / 2] == b[j / 2]);
            }
        }
    }
    assert(hex(seq![byte]) =~= seq![hex_char(byte as int / 16), hex_char(byte as int % 16)]);
}

/// What `String::from_utf8_lossy` makes of `bytes`.
pub uninterp spec fn lossy_text(bytes: Seq<u8>) -> Seq<char>;

/// Decodes `bytes` with `String::from_utf8_lossy`. Trusted: the text depends on the bytes alone,
/// and bytes that are valid UTF-8 give the text that they encode. Which replacement characters
/// stand for invalid bytes is not said.
#[verifier::external_body]
pub(crate) fn from_utf8_lossy(bytes: &[u8]) -> (r: String)
    ensures
        r@ == lossy_text(bytes@),
        vstd::utf8::valid_utf8(bytes@) ==> r@ == vstd::utf8::decode_utf8(bytes@),
{
    String::from_utf8_lossy(bytes).into_owned()
}

/// Decodes `bytes` with `String::from_utf8`. Trusted: it succeeds if and only if the bytes are valid
/// UTF-8, and then gives the text that they encode.
#[verifier::external_body]
pub(crate) fn from_utf8(bytes: Vec<u8>) -> (r: Option<String>)
    ensures
        r is Some <==> vstd::utf8::valid_utf8(bytes@),
        r is Some ==> r->0@ == vstd::utf8::decode_utf8(bytes@),
{
    String::from_utf8(bytes).ok()
}

/// What `str::to_lowercase` makes of `s`.
pub uninterp spec fn lowercase(s: Seq<char>) -> Seq<char>;

/// Puts `s` in lower case with `str::to_lowercase`. Trusted: the result depends on the text alone.
/// The Unicode tables behind it are not spelled out.
#[verifier::external_body]
pub(crate) fn to_lowercase(s: &str) -> (r: String)
    ensures
        r@ == lowercase(s@),
{
    s.to_lowercase()
}

} // verus!
