//! Text helpers used throughout the services: string equality, substring
//! search, decimal parsing and rendering, and the canonical textual form of
//! identifiers.

use vstd::prelude::*;
use vstd::string::*;

verus! {

/// Compares two string slices for equality of their characters.
pub fn str_eq(a: &str, b: &str) -> (r: bool)
    ensures
        r == (a@ == b@),
{
    let x = a.to_owned();
    let y = b.to_owned();
    x.eq(&y)
}

/// The characters of `s`, in order.
pub fn chars_of(s: &str) -> (v: Vec<char>)
    ensures
        v@ == s@,
{
    let n = s.unicode_len();
    let mut v: Vec<char> = Vec::new();
    let mut i: usize = 0;
    while i < n
        invariant
            i <= n,
            n == s@.len(),
            v@ == s@.subrange(0, i as int),
        decreases n - i,
    {
        let c = s.get_char(i);
        v.push(c);
        i = i + 1;
    }
    assert(v@ =~= s@);
    v
}

/// `needle` occurs in `hay` as a contiguous run of characters.
pub open spec fn occurs_in(hay: Seq<char>, needle: Seq<char>) -> bool {
    exists|i: int|
        0 <= i && i + needle.len() <= hay.len() && #[trigger] hay.subrange(i, i + needle.len())
            == needle
}

/// `prefix` is an initial segment of `s`.
pub open spec fn starts_with(s: Seq<char>, prefix: Seq<char>) -> bool {
    prefix.len() <= s.len() && s.subrange(0, prefix.len() as int) == prefix
}

/// Whether the characters `needle` occur at position `at` of `hay`.
fn matches_at(hay: &Vec<char>, needle: &Vec<char>, at: usize) -> (r: bool)
    requires
        at + needle@.len() <= hay@.len(),
    ensures
        r == (hay@.subrange(at as int, at + needle@.len()) == needle@),
{
    let mut j: usize = 0;
    while j < needle.len()
        invariant
            j <= needle@.len(),
            at + needle@.len() <= hay@.len(),
            hay@.len() == hay.len(),
            forall|k: int| 0 <= k < j ==> hay@[at + k] == needle@[k],
        decreases needle@.len() - j,
    {
        if hay[at + j] != needle[j] {
            assert(hay@.subrange(at as int, at + needle@.len())[j as int] != needle@[j as int]);
            return false;
        }
        j = j + 1;
    }
    assert(hay@.subrange(at as int, at + needle@.len()) =~= needle@);
    true
}

/// Whether `needle` occurs somewhere in `hay`.
pub fn contains_str(hay: &str, needle: &str) -> (r: bool)
    ensures
        r == occurs_in(hay@, needle@),
{
    let h = chars_of(hay);
    let n = chars_of(needle);
    if n.len() > h.len() {
        return false;
    }
    let last = h.len() - n.len();
    let mut i: usize = 0;
    while i < last
        invariant
            h@ == hay@,
            n@ == needle@,
            last == h@.len() - n@.len(),
            n@.len() <= h@.len(),
            i <= last,
            forall|k: int| 0 <= k < i ==> #[trigger] h@.subrange(k, k + n@.len()) != n@,
        decreases last - i,
    {
        if matches_at(&h, &n, i) {
            return true;
        }
        i = i + 1;
    }
    matches_at(&h, &n, last)
}

/// Whether the character `c` occurs in `s`.
pub fn contains_char(s: &str, c: char) -> (r: bool)
    ensures
        r == s@.contains(c),
{
    let v = chars_of(s);
    let mut i: usize = 0;
    while i < v.len()
        invariant
            v@ == s@,
            i <= v@.len(),
            forall|k: int| 0 <= k < i ==> v@[k] != c,
        decreases v@.len() - i,
    {
        if v[i] == c {
            return true;
        }
        i = i + 1;
    }
    false
}

/// The rest of `s` after `prefix`, when `s` starts with `prefix`.
pub fn strip_prefix(s: &str, prefix: &str) -> (r: Option<String>)
    ensures
        r is Some <==> starts_with(s@, prefix@),
        r matches Some(rest) ==> rest@ == s@.skip(prefix@.len() as int),
{
    let sv = chars_of(s);
    let pv = chars_of(prefix);
    if pv.len() > sv.len() {
        return None;
    }
    if !matches_at(&sv, &pv, 0) {
        return None;
    }
    let rest = s.substring_char(pv.len(), sv.len());
    assert(s@.subrange(pv@.len() as int, s@.len() as int) =~= s@.skip(prefix@.len() as int));
    Some(rest.to_owned())
}

/// The character written for the digit `d` (`0`-`9`, then `a`-`f`).
pub open spec fn hex_char(d: nat) -> char {
    if d < 10 {
        (48 + d) as char
    } else {
        (87 + d) as char
    }
}

/// The one-character text of the digit `d`, for `d < 16`.
pub fn digit_str(d: u8) -> (s: &'static str)
    requires
        d < 16,
    ensures
        s@ == seq![hex_char(d as nat)],
{
    proof {
        reveal_strlit("0");
        reveal_strlit("1");
        reveal_strlit("2");
        reveal_strlit("3");
        reveal_strlit("4");
        reveal_strlit("5");
        reveal_strlit("6");
        reveal_strlit("7");
        reveal_strlit("8");
        reveal_strlit("9");
        reveal_strlit("a");
        reveal_strlit("b");
        reveal_strlit("c");
        reveal_strlit("d");
        reveal_strlit("e");
        reveal_strlit("f");
    }
    let s = match d {
        0 => "0",
        1 => "1",
        2 => "2",
        3 => "3",
        4 => "4",
        5 => "5",
        6 => "6",
        7 => "7",
        8 => "8",
        9 => "9",
        10 => "a",
        11 => "b",
        12 => "c",
        13 => "d",
        14 => "e",
        _ => "f",
    };
    assert(s@ =~= seq![hex_char(d as nat)]);
    s
}

/// Whether `c` is one of the ASCII digits `0`-`9`.
pub open spec fn is_decimal_digit(c: char) -> bool {
    '0' <= c && c <= '9'
}

/// The numeric value of the decimal digit `c`.
pub open spec fn digit_value(c: char) -> nat {
    (c as int - '0' as int) as nat
}

/// The number written by the decimal digits `s` (most significant first).
pub open spec fn decimal_value(s: Seq<char>) -> nat
    decreases s.len(),
{
    if s.len() == 0 {
        0
    } else {
        decimal_value(s.drop_last()) * 10 + digit_value(s.last())
    }
}

/// Every character of `s` is a decimal digit.
pub open spec fn all_decimal_digits(s: Seq<char>) -> bool {
    forall|i: int| 0 <= i < s.len() ==> is_decimal_digit(#[trigger] s[i])
}

/// The digits part of an unsigned number: the text without a leading `+`.
pub open spec fn unsigned_digits(s: Seq<char>) -> Seq<char> {
    if s.len() > 0 && s[0] == '+' {
        s.drop_first()
    } else {
        s
    }
}

/// The value of `s` read as an unsigned decimal number no greater than
/// `max`, as the standard integer parsers read it: an optional `+`, then one
/// or more decimal digits and nothing else.
pub open spec fn parse_unsigned_spec(s: Seq<char>, max: nat) -> Option<nat> {
    let d = unsigned_digits(s);
    if d.len() > 0 && all_decimal_digits(d) && decimal_value(d) <= max {
        Some(decimal_value(d))
    } else {
        None
    }
}

/// An unsigned number written in plain decimal digits is read as its value
/// exactly when that value is at most `max`, and refused when larger.
pub proof fn lemma_parse_decimal_digits(s: Seq<char>, max: nat)
    requires
        s.len() > 0,
        all_decimal_digits(s),
    ensures
        decimal_value(s) <= max ==> parse_unsigned_spec(s, max) == Some(decimal_value(s)),
        decimal_value(s) > max ==> parse_unsigned_spec(s, max) is None,
{
    assert(is_decimal_digit(s[0]));
    assert(unsigned_digits(s) == s);
}

/// Text holding a character that is neither a decimal digit nor a leading
/// `+` is never read as a number.
pub proof fn lemma_parse_refuses_non_digits(s: Seq<char>, max: nat, i: int)
    requires
        0 <= i < s.len(),
        !is_decimal_digit(s[i]),
        i > 0 || s[i] != '+',
    ensures
        parse_unsigned_spec(s, max) is None,
{
    let d = unsigned_digits(s);
    if s[0] == '+' {
        assert(d[i - 1] == s[i]);
    } else {
        assert(d[i] == s[i]);
    }
}

proof fn lemma_decimal_prefix_le(s: Seq<char>, k: int)
    requires
        0 <= k <= s.len(),
        all_decimal_digits(s),
    ensures
        decimal_value(s.subrange(0, k)) <= decimal_value(s),
    decreases s.len(),
{
    if k < s.len() {
        let t = s.drop_last();
        assert(t.subrange(0, k) =~= s.subrange(0, k));
        assert(all_decimal_digits(t)) by {
            assert forall|i: int| 0 <= i < t.len() implies is_decimal_digit(#[trigger] t[i]) by {
                assert(t[i] == s[i]);
            }
        }
        lemma_decimal_prefix_le(t, k);
    } else {
        assert(s.subrange(0, k) =~= s);
    }
}

/// Reads `s` as an unsigned decimal number no greater than `max`.
pub fn parse_unsigned(s: &str, max: u64) -> (r: Option<u64>)
    ensures
        r matches Some(v) ==> parse_unsigned_spec(s@, max as nat) == Some(v as nat),
        r is None ==> parse_unsigned_spec(s@, max as nat) is None,
{
    let v = chars_of(s);
    let n = v.len();
    let start: usize = if n > 0 && v[0] == '+' {
        1
    } else {
        0
    };
    let ghost d = unsigned_digits(s@);
    assert(d =~= s@.subrange(start as int, n as int));
    if start == n {
        assert(d.len() == 0);
        return None;
    }
    let mut acc: u64 = 0;
    let mut i: usize = start;
    while i < n
        invariant
            v@ == s@,
            n == v@.len(),
            start <= i <= n,
            d == s@.subrange(start as int, n as int),
            d == unsigned_digits(s@),
            all_decimal_digits(d.subrange(0, i - start)),
            acc as nat == decimal_value(d.subrange(0, i - start)),
            acc <= max,
        decreases n - i,
    {
        let c = v[i];
        if c < '0' || c > '9' {
            assert(d[i - start] == c);
            assert(!all_decimal_digits(d));
            return None;
        }
        let dv: u64 = (c as u64) - ('0' as u64);
        let ghost pre = d.subrange(0, i - start);
        let ghost next = d.subrange(0, i - start + 1);
        assert(next.drop_last() =~= pre);
        assert(next.last() == c);
        assert(all_decimal_digits(next)) by {
            assert forall|k: int| 0 <= k < next.len() implies is_decimal_digit(#[trigger] next[k]) by {
                if k < pre.len() {
                    assert(next[k] == pre[k]);
                }
            }
        }
        if dv > max || acc > (max - dv) / 10 {
            assert(decimal_value(next) > max) by (nonlinear_arith)
                requires
                    decimal_value(next) == acc * 10 + dv,
                    dv > max || acc > (max - dv) / 10,
                    acc >= 0,
            ;
            proof {
                if all_decimal_digits(d) {
                    lemma_decimal_prefix_le(d, i - start + 1);
                }
            }
            return None;
        }
        assert(acc * 10 + dv <= max) by (nonlinear_arith)
            requires
                acc <= (max - dv) / 10,
                dv <= max,
        ;
        acc = acc * 10 + dv;
        i = i + 1;
    }
    assert(d.subrange(0, n - start) =~= d);
    Some(acc)
}

/// The decimal text of `n`, without leading zeros.
pub open spec fn decimal_text(n: nat) -> Seq<char>
    decreases n,
{
    if n < 10 {
        seq![hex_char(n)]
    } else {
        decimal_text(n / 10).push(hex_char(n % 10))
    }
}

proof fn lemma_decimal_text_last(n: nat)
    ensures
        decimal_text(n).len() >= 1,
        decimal_text(n).last() == hex_char(n % 10),
        n < 10 ==> decimal_text(n).drop_last() =~= Seq::<char>::empty(),
    decreases n,
{
    if n >= 10 {
        lemma_decimal_text_last(n / 10);
    }
}

/// The decimal text of `n` is made of decimal digits, starts with a nonzero
/// digit unless `n` is 0, and reads back as `n`.
pub proof fn lemma_decimal_text_reads_back(n: nat)
    ensures
        decimal_text(n).len() > 0,
        all_decimal_digits(decimal_text(n)),
        decimal_value(decimal_text(n)) == n,
        n > 0 ==> decimal_text(n)[0] != '0',
    decreases n,
{
    lemma_decimal_text_last(n);
    if n >= 10 {
        lemma_decimal_text_reads_back(n / 10);
        let t = decimal_text(n);
        let h = decimal_text(n / 10);
        assert(t.drop_last() =~= h);
        assert(all_decimal_digits(t)) by {
            assert forall|i: int| 0 <= i < t.len() implies is_decimal_digit(#[trigger] t[i]) by {
                if i < h.len() {
                    assert(t[i] == h[i]);
                }
            }
        }
        assert(t[0] == h[0]);
        assert(digit_value(hex_char(n % 10)) == n % 10);
        assert(decimal_value(t) == decimal_value(h) * 10 + digit_value(t.last()));
        assert((n / 10) * 10 + n % 10 == n);
    } else {
        assert(decimal_text(n) =~= seq![hex_char(n)]);
        assert(seq![hex_char(n)].drop_last() =~= Seq::<char>::empty());
        assert(digit_value(hex_char(n)) == n);
        assert(decimal_value(decimal_text(n)) == decimal_value(Seq::<char>::empty()) * 10 + digit_value(
            hex_char(n),
        ));
    }
}

/// Writes `n` in decimal.
pub fn decimal_string(n: u64) -> (s: String)
    ensures
        s@ == decimal_text(n as nat),
{
    let mut cur: u64 = n;
    let mut out = String::from_str(digit_str((cur % 10) as u8));
    proof {
        lemma_decimal_text_last(n as nat);
        assert(decimal_text(n as nat) =~= decimal_text(n as nat).drop_last() + out@);
    }
    while cur >= 10
        invariant
            decimal_text(n as nat) == decimal_text(cur as nat).drop_last() + out@,
        decreases cur,
    {
        let next = cur / 10;
        let mut t = String::from_str(digit_str((next % 10) as u8));
        t.append(out.as_str());
        proof {
            assert(decimal_text(cur as nat) == decimal_text(next as nat).push(
                hex_char(cur as nat % 10),
            ));
            assert(decimal_text(cur as nat).drop_last() =~= decimal_text(next as nat));
            lemma_decimal_text_last(next as nat);
            assert(decimal_text(next as nat) =~= decimal_text(next as nat).drop_last().push(
                hex_char(next as nat % 10),
            ));
            assert(t@ =~= seq![hex_char(next as nat % 10)] + out@);
            assert(decimal_text(n as nat) =~= decimal_text(next as nat).drop_last() + t@);
        }
        out = t;
        cur = next;
    }
    proof {
        lemma_decimal_text_last(cur as nat);
        assert(decimal_text(n as nat) =~= out@);
    }
    out
}

/// The `n` lowest hexadecimal digits of `v`, most significant first.
pub open spec fn hex_digits(v: nat, n: nat) -> Seq<char>
    decreases n,
{
    if n == 0 {
        seq![]
    } else {
        hex_digits(v / 16, (n - 1) as nat).push(hex_char(v % 16))
    }
}

/// The canonical (hyphenated, lower-case) text of a 128-bit identifier:
/// 32 hexadecimal digits grouped 8-4-4-4-12.
pub open spec fn uuid_text(v: u128) -> Seq<char> {
    let h = hex_digits(v as nat, 32);
    h.subrange(0, 8) + seq!['-'] + h.subrange(8, 12) + seq!['-'] + h.subrange(12, 16) + seq![
        '-',
    ] + h.subrange(16, 20) + seq!['-'] + h.subrange(20, 32)
}

proof fn lemma_hex_digits_len(v: nat, n: nat)
    ensures
        hex_digits(v, n).len() == n,
    decreases n,
{
    if n > 0 {
        lemma_hex_digits_len(v / 16, (n - 1) as nat);
    }
}

/// The 32 hexadecimal digit values of `v`, most significant first.
fn hex_digit_values(v: u128) -> (ds: Vec<u8>)
    ensures
        ds@.len() == 32,
        forall|i: int| 0 <= i < 32 ==> #[trigger] ds@[i] < 16,
        forall|i: int| 0 <= i < 32 ==> hex_char(#[trigger] ds@[i] as nat) == hex_digits(
            v as nat,
            32,
        )[i],
{
    let mut ds: Vec<u8> = Vec::new();
    let mut cur: u128 = v;
    let mut k: usize = 0;
    while k < 32
        invariant
            k <= 32,
            ds@.len() == k,
            forall|i: int| 0 <= i < k ==> #[trigger] ds@[i] < 16,
            hex_digits(v as nat, 32) == hex_digits(cur as nat, (32 - k) as nat) + ds@.map_values(
                |x: u8| hex_char(x as nat),
            ),
        decreases 32 - k,
    {
        let d = (cur % 16) as u8;
        let ghost old_ds = ds@;
        ds.insert(0, d);
        let ghost m = (32 - k) as nat;
        proof {
            assert(hex_digits(cur as nat, m) == hex_digits((cur / 16) as nat, (m - 1) as nat).push(
                hex_char(cur as nat % 16),
            ));
            assert(ds@.map_values(|x: u8| hex_char(x as nat)) =~= seq![hex_char(d as nat)]
                + old_ds.map_values(|x: u8| hex_char(x as nat)));
            assert(hex_digits(v as nat, 32) =~= hex_digits((cur / 16) as nat, (m - 1) as nat)
                + ds@.map_values(|x: u8| hex_char(x as nat)));
        }
        cur = cur / 16;
        k = k + 1;
    }
    proof {
        assert(hex_digits(cur as nat, 0) =~= Seq::<char>::empty());
        assert(hex_digits(v as nat, 32) =~= ds@.map_values(|x: u8| hex_char(x as nat)));
        assert forall|i: int| 0 <= i < 32 implies hex_char(#[trigger] ds@[i] as nat)
            == hex_digits(v as nat, 32)[i] by {
            assert(ds@.map_values(|x: u8| hex_char(x as nat))[i] == hex_char(ds@[i] as nat));
        }
    }
    ds
}

/// Appends the digits `from..to` of `ds` to `out`.
fn append_hex_range(out: &mut String, ds: &Vec<u8>, h: Ghost<Seq<char>>, from: usize, to: usize)
    requires
        from <= to <= ds@.len(),
        h@.len() == ds@.len(),
        forall|i: int| 0 <= i < ds@.len() ==> #[trigger] ds@[i] < 16,
        forall|i: int| 0 <= i < ds@.len() ==> hex_char(#[trigger] ds@[i] as nat) == h@[i],
    ensures
        final(out)@ == old(out)@ + h@.subrange(from as int, to as int),
{
    let ghost start = out@;
    let mut i = from;
    while i < to
        invariant
            from <= i <= to,
            to <= ds@.len(),
            h@.len() == ds@.len(),
            forall|k: int| 0 <= k < ds@.len() ==> #[trigger] ds@[k] < 16,
            forall|k: int| 0 <= k < ds@.len() ==> hex_char(#[trigger] ds@[k] as nat) == h@[k],
            out@ == start + h@.subrange(from as int, i as int),
        decreases to - i,
    {
        let s = digit_str(ds[i]);
        out.append(s);
        assert(h@.subrange(from as int, i + 1) =~= h@.subrange(from as int, i as int).push(
            h@[i as int],
        ));
        i = i + 1;
    }
}

/// The canonical text of the identifier `v`
/// (as in `67e55044-10b1-426f-9247-bb680e5fe0c8`).
pub fn uuid_string(v: u128) -> (s: String)
    ensures
        s@ == uuid_text(v),
{
    let ds = hex_digit_values(v);
    let ghost h = hex_digits(v as nat, 32);
    proof {
        lemma_hex_digits_len(v as nat, 32);
        reveal_strlit("-");
    }
    let mut out = String::new();
    append_hex_range(&mut out, &ds, Ghost(h), 0, 8);
    out.append("-");
    append_hex_range(&mut out, &ds, Ghost(h), 8, 12);
    out.append("-");
    append_hex_range(&mut out, &ds, Ghost(h), 12, 16);
    out.append("-");
    append_hex_range(&mut out, &ds, Ghost(h), 16, 20);
    out.append("-");
    append_hex_range(&mut out, &ds, Ghost(h), 20, 32);
    assert(out@ =~= uuid_text(v));
    out
}

/// The value of `c` read as a lower-case hexadecimal digit (`0`-`9`, then
/// `a`-`f`); -1 for any other character.
pub open spec fn lower_hex_value(c: char) -> int {
    if '0' <= c && c <= '9' {
        c as int - '0' as int
    } else if 'a' <= c && c <= 'f' {
        c as int - 'a' as int + 10
    } else {
        -1
    }
}

/// The number written by the hexadecimal digits `s`, most significant first.
pub open spec fn hex_number(s: Seq<char>) -> int
    decreases s.len(),
{
    if s.len() == 0 {
        0
    } else {
        hex_number(s.drop_last()) * 16 + lower_hex_value(s.last())
    }
}

/// 16 to the power `n`.
pub open spec fn pow16(n: nat) -> nat
    decreases n,
{
    if n == 0 {
        1
    } else {
        16 * pow16((n - 1) as nat)
    }
}

/// Each digit is written as a lower-case hexadecimal digit that reads back
/// as itself.
pub proof fn lemma_hex_char_reads_back(d: nat)
    requires
        d < 16,
    ensures
        ('0' <= hex_char(d) && hex_char(d) <= '9') || ('a' <= hex_char(d) && hex_char(d) <= 'f'),
        lower_hex_value(hex_char(d)) == d,
{
}

proof fn lemma_hex_digits_read_back(v: nat, n: nat)
    ensures
        hex_number(hex_digits(v, n)) == v % pow16(n),
        forall|i: int| 0 <= i < n ==> lower_hex_value(#[trigger] hex_digits(v, n)[i]) >= 0,
    decreases n,
{
    lemma_hex_digits_len(v, n);
    if n == 0 {
        assert(v % 1 == 0);
    } else {
        let p = pow16((n - 1) as nat);
        lemma_hex_digits_read_back(v / 16, (n - 1) as nat);
        lemma_hex_digits_len(v / 16, (n - 1) as nat);
        lemma_hex_char_reads_back(v % 16);
        let h = hex_digits(v, n);
        assert(h.drop_last() =~= hex_digits(v / 16, (n - 1) as nat));
        assert(pow16(n) == 16 * p);
        assert(p > 0) by {
            lemma_pow16_positive((n - 1) as nat);
        }
        vstd::arithmetic::div_mod::lemma_breakdown(v as int, 16, p as int);
        assert forall|i: int| 0 <= i < n implies lower_hex_value(#[trigger] h[i]) >= 0 by {
            if i < n - 1 {
                assert(h[i] == hex_digits(v / 16, (n - 1) as nat)[i]);
            }
        }
    }
}

proof fn lemma_pow16_positive(n: nat)
    ensures
        pow16(n) > 0,
    decreases n,
{
    if n > 0 {
        lemma_pow16_positive((n - 1) as nat);
    }
}

/// The canonical text of an identifier is 36 characters: lower-case
/// hexadecimal digits with hyphens at positions 8, 13, 18 and 23, and its
/// digits read back as a hexadecimal number give the identifier.
pub proof fn lemma_uuid_text_reads_back(v: u128)
    ensures
        uuid_text(v).len() == 36,
        uuid_text(v)[8] == '-' && uuid_text(v)[13] == '-' && uuid_text(v)[18] == '-'
            && uuid_text(v)[23] == '-',
        forall|i: int|
            0 <= i < 36 && i != 8 && i != 13 && i != 18 && i != 23 ==> lower_hex_value(
                #[trigger] uuid_text(v)[i],
            ) >= 0,
        hex_number(
            uuid_text(v).subrange(0, 8) + uuid_text(v).subrange(9, 13) + uuid_text(v).subrange(
                14,
                18,
            ) + uuid_text(v).subrange(19, 23) + uuid_text(v).subrange(24, 36),
        ) == v,
{
    let h = hex_digits(v as nat, 32);
    let t = uuid_text(v);
    lemma_hex_digits_len(v as nat, 32);
    lemma_hex_digits_read_back(v as nat, 32);
    assert(t.len() == 36);
    assert(t.subrange(0, 8) + t.subrange(9, 13) + t.subrange(14, 18) + t.subrange(19, 23)
        + t.subrange(24, 36) =~= h);
    assert forall|i: int|
        0 <= i < 36 && i != 8 && i != 13 && i != 18 && i != 23 implies lower_hex_value(
            #[trigger] t[i],
        ) >= 0 by {
        if i < 8 {
            assert(t[i] == h[i]);
        } else if i < 13 {
            assert(t[i] == h[i - 1]);
        } else if i < 18 {
            assert(t[i] == h[i - 2]);
        } else if i < 23 {
            assert(t[i] == h[i - 3]);
        } else {
            assert(t[i] == h[i - 4]);
        }
    }
    assert(pow16(32) == 0x1_0000_0000_0000_0000_0000_0000_0000_0000) by {
        reveal_with_fuel(pow16, 33);
    }
    assert(v < 0x1_0000_0000_0000_0000_0000_0000_0000_0000);
    vstd::arithmetic::div_mod::lemma_small_mod(v as nat, pow16(32));
}

/// Whether `c` has the Unicode `White_Space` property.
pub open spec fn is_white_space(c: char) -> bool {
    let n = c as u32;
    ||| 9 <= n <= 13
    ||| n == 32
    ||| n == 0x85
    ||| n == 0xA0
    ||| n == 0x1680
    ||| 0x2000 <= n <= 0x200A
    ||| n == 0x2028
    ||| n == 0x2029
    ||| n == 0x202F
    ||| n == 0x205F
    ||| n == 0x3000
}

/// `s` without its leading white space.
pub open spec fn trim_start_text(s: Seq<char>) -> Seq<char>
    decreases s.len(),
{
    if s.len() > 0 && is_white_space(s[0]) {
        trim_start_text(s.drop_first())
    } else {
        s
    }
}

/// `s` without its trailing white space.
pub open spec fn trim_end_text(s: Seq<char>) -> Seq<char>
    decreases s.len(),
{
    if s.len() > 0 && is_white_space(s.last()) {
        trim_end_text(s.drop_last())
    } else {
        s
    }
}

/// `s` without leading and trailing white space.
pub open spec fn trim_text(s: Seq<char>) -> Seq<char> {
    trim_end_text(trim_start_text(s))
}

/// Whether `c` has the Unicode `White_Space` property.
pub fn is_white_space_char(c: char) -> (r: bool)
    ensures
        r == is_white_space(c),
{
    let n = c as u32;
    (9 <= n && n <= 13) || n == 32 || n == 0x85 || n == 0xA0 || n == 0x1680 || (0x2000 <= n && n
        <= 0x200A) || n == 0x2028 || n == 0x2029 || n == 0x202F || n == 0x205F || n == 0x3000
}

/// `s` without leading and trailing white space.
pub fn trim(s: &str) -> (r: String)
    ensures
        r@ == trim_text(s@),
{
    let v = chars_of(s);
    let n = v.len();
    let mut i: usize = 0;
    assert(s@.subrange(0, n as int) =~= s@);
    while i < n && is_white_space_char(v[i])
        invariant
            v@ == s@,
            n == v@.len(),
            i <= n,
            trim_start_text(s@) == trim_start_text(s@.subrange(i as int, n as int)),
        decreases n - i,
    {
        assert(s@.subrange(i as int, n as int).drop_first() =~= s@.subrange(i + 1, n as int));
        i = i + 1;
    }
    assert(trim_start_text(s@) == s@.subrange(i as int, n as int));
    let mut j: usize = n;
    while j > i && is_white_space_char(v[j - 1])
        invariant
            v@ == s@,
            n == v@.len(),
            i <= j <= n,
            trim_text(s@) == trim_end_text(s@.subrange(i as int, j as int)),
        decreases j,
    {
        assert(s@.subrange(i as int, j as int).drop_last() =~= s@.subrange(i as int, j - 1));
        j = j - 1;
    }
    assert(trim_text(s@) == s@.subrange(i as int, j as int));
    let t = s.substring_char(i, j);
    t.to_owned()
}

} // verus!
