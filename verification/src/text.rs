//! Text primitives of the engine: decimal item identifiers, markup escaping
//! for captions, and stripping of the trailing short-link token that the
//! source platform appends to items with attached media.

use vstd::prelude::*;
use vstd::string::*;

verus! {

/// Relies on `String::push`: appends the given character to the end of the
/// string.
pub assume_specification[ String::push ](s: &mut String, c: char)
    ensures
        final(s)@ == old(s)@.push(c),
;

// ---------------------------------------------------------------------------
// Decimal item identifiers
// ---------------------------------------------------------------------------

/// Whether `c` is an ASCII decimal digit.
pub open spec fn is_digit(c: char) -> bool {
    48 <= c as u32 && c as u32 <= 57
}

/// Numeric value of an ASCII decimal digit.
pub open spec fn digit_val(c: char) -> nat {
    ((c as u32) - 48) as nat
}

/// Whether every character of `s` is an ASCII decimal digit.
pub open spec fn all_digits(s: Seq<char>) -> bool {
    forall|i: int| 0 <= i < s.len() ==> is_digit(s[i])
}

/// Value of a digit sequence read as a base-10 numeral.
pub open spec fn dec_value(s: Seq<char>) -> nat
    decreases s.len(),
{
    if s.len() == 0 {
        0
    } else {
        dec_value(s.drop_last()) * 10 + digit_val(s.last())
    }
}

/// What parsing a string as an unsigned 64-bit item identifier yields:
/// the numeral's value for a non-empty all-digit string whose value fits,
/// and nothing otherwise.
pub open spec fn parse_u64_spec(s: Seq<char>) -> Option<u64> {
    if s.len() > 0 && all_digits(s) && dec_value(s) <= u64::MAX {
        Some(dec_value(s) as u64)
    } else {
        None
    }
}

/// A longer all-digit numeral never has a smaller value.
proof fn lemma_dec_value_prefix_le(s: Seq<char>, i: int, j: int)
    requires
        0 <= i <= j <= s.len(),
    ensures
        dec_value(s.take(i)) <= dec_value(s.take(j)),
    decreases j - i,
{
    if i < j {
        lemma_dec_value_prefix_le(s, i, j - 1);
        assert(s.take(j).drop_last() =~= s.take(j - 1));
        assert(dec_value(s.take(j)) == dec_value(s.take(j - 1)) * 10 + digit_val(s.take(j).last()));
    }
}

/// Parse a decimal unsigned 64-bit identifier; `None` on an empty string, a
/// non-digit character, or overflow.
pub fn parse_u64(s: &str) -> (r: Option<u64>)
    ensures
        r == parse_u64_spec(s@),
{
    let n = s.unicode_len();
    if n == 0 {
        return None;
    }
    let mut acc: u64 = 0;
    let mut i: usize = 0;
    while i < n
        invariant
            0 <= i <= n,
            n == s@.len(),
            all_digits(s@.take(i as int)),
            acc == dec_value(s@.take(i as int)),
        decreases n - i,
    {
        let c = s.get_char(i);
        let u = c as u32;
        if u < 48 || u > 57 {
            assert(!is_digit(s@[i as int]));
            return None;
        }
        let d = (u - 48) as u64;
        proof {
            assert(s@.take(i + 1).drop_last() =~= s@.take(i as int));
            assert(s@.take(i + 1).last() == s@[i as int]);
        }
        let next = match acc.checked_mul(10) {
            Some(m) => m.checked_add(d),
            None => None,
        };
        match next {
            Some(v) => {
                acc = v;
            },
            None => {
                proof {
                    assert(dec_value(s@.take(i + 1)) > u64::MAX);
                    lemma_dec_value_prefix_le(s@, i + 1, s@.len() as int);
                    assert(s@.take(s@.len() as int) =~= s@);
                }
                return None;
            },
        }
        i = i + 1;
    }
    proof {
        assert(s@.take(n as int) =~= s@);
    }
    Some(acc)
}

/// Character for a decimal digit value.
pub open spec fn digit_char(d: nat) -> char {
    if d == 0 {
        '0'
    } else if d == 1 {
        '1'
    } else if d == 2 {
        '2'
    } else if d == 3 {
        '3'
    } else if d == 4 {
        '4'
    } else if d == 5 {
        '5'
    } else if d == 6 {
        '6'
    } else if d == 7 {
        '7'
    } else if d == 8 {
        '8'
    } else {
        '9'
    }
}

/// The canonical decimal numeral of `n`: no sign, no leading zero.
pub open spec fn dec_digits(n: nat) -> Seq<char>
    decreases n,
{
    if n < 10 {
        seq![digit_char(n)]
    } else {
        dec_digits(n / 10) + seq![digit_char(n % 10)]
    }
}

fn digit_to_char(d: u64) -> (c: char)
    requires
        d < 10,
    ensures
        c == digit_char(d as nat),
{
    match d {
        0 => '0',
        1 => '1',
        2 => '2',
        3 => '3',
        4 => '4',
        5 => '5',
        6 => '6',
        7 => '7',
        8 => '8',
        _ => '9',
    }
}

/// Render `n` as its canonical decimal numeral.
pub fn u64_to_dec(n: u64) -> (r: String)
    ensures
        r@ == dec_digits(n as nat),
{
    let mut digits: Vec<char> = Vec::new();
    let mut m: u64 = n;
    loop
        invariant_except_break
            dec_digits(n as nat) =~= dec_digits(m as nat) + digits@.reverse(),
        ensures
            digits@.reverse() =~= dec_digits(n as nat),
        decreases m,
    {
        let d = digit_to_char(m % 10);
        if m < 10 {
            proof {
                assert(digits@.push(digit_char(m as nat)).reverse()
                    =~= seq![digit_char(m as nat)] + digits@.reverse());
                assert(seq![digit_char(m as nat)] =~= dec_digits(m as nat));
            }
            digits.push(d);
            break;
        }
        proof {
            assert(digits@.push(digit_char(m as nat % 10)).reverse()
                =~= seq![digit_char(m as nat % 10)] + digits@.reverse());
            assert(dec_digits(m as nat) =~= dec_digits(m as nat / 10) + seq![digit_char(m as nat % 10)]);
            assert(dec_digits(m as nat / 10) + (seq![digit_char(m as nat % 10)] + digits@.reverse())
                =~= (dec_digits(m as nat / 10) + seq![digit_char(m as nat % 10)]) + digits@.reverse());
        }
        digits.push(d);
        m = m / 10;
    }
    let k = digits.len();
    let mut out = String::new();
    let mut j: usize = 0;
    while j < k
        invariant
            0 <= j <= k,
            k == digits@.len(),
            out@.len() == j,
            forall|t: int| 0 <= t < j ==> out@[t] == digits@[k - 1 - t],
        decreases k - j,
    {
        out.push(digits[k - 1 - j]);
        j = j + 1;
    }
    proof {
        assert(out@ =~= digits@.reverse());
    }
    out
}

// ---------------------------------------------------------------------------
// Markup escaping
// ---------------------------------------------------------------------------

/// What one character contributes to markup-escaped text: the three reserved
/// characters become entities, everything else stands as it is.
pub open spec fn escape_char_seq(c: char) -> Seq<char> {
    if c == '<' {
        seq!['&', 'l', 't', ';']
    } else if c == '>' {
        seq!['&', 'g', 't', ';']
    } else if c == '&' {
        seq!['&', 'a', 'm', 'p', ';']
    } else {
        seq![c]
    }
}

/// Markup-escaped form of `s`.
pub open spec fn escape_seq(s: Seq<char>) -> Seq<char>
    decreases s.len(),
{
    if s.len() == 0 {
        Seq::empty()
    } else {
        escape_seq(s.drop_last()) + escape_char_seq(s.last())
    }
}

/// Escape the three reserved markup characters (`<`, `>`, `&`) of `s`.
pub fn escape_html(s: String) -> (r: String)
    ensures
        r@ == escape_seq(s@),
{
    let n = s.as_str().unicode_len();
    let mut out = String::new();
    let mut i: usize = 0;
    while i < n
        invariant
            0 <= i <= n,
            n == s@.len(),
            out@ == escape_seq(s@.take(i as int)),
        decreases n - i,
    {
        let c = s.as_str().get_char(i);
        proof {
            assert(s@.take(i + 1).drop_last() =~= s@.take(i as int));
            assert(s@.take(i + 1).last() == s@[i as int]);
        }
        if c == '<' {
            out.append("&lt;");
            proof {
                reveal_strlit("&lt;");
                assert(out@ =~= escape_seq(s@.take(i as int)) + escape_char_seq(c));
            }
        } else if c == '>' {
            out.append("&gt;");
            proof {
                reveal_strlit("&gt;");
                assert(out@ =~= escape_seq(s@.take(i as int)) + escape_char_seq(c));
            }
        } else if c == '&' {
            out.append("&amp;");
            proof {
                reveal_strlit("&amp;");
                assert(out@ =~= escape_seq(s@.take(i as int)) + escape_char_seq(c));
            }
        } else {
            out.push(c);
            proof {
                assert(out@ =~= escape_seq(s@.take(i as int)) + escape_char_seq(c));
            }
        }
        i = i + 1;
    }
    proof {
        assert(s@.take(n as int) =~= s@);
    }
    out
}

// ---------------------------------------------------------------------------
// Trailing short-link stripping
// ---------------------------------------------------------------------------

/// The secure form of the short-link prefix.
pub open spec fn https_prefix() -> Seq<char> {
    seq!['h', 't', 't', 'p', 's', ':', '/', '/', 't', '.', 'c', 'o', '/']
}

/// The plain form of the short-link prefix.
pub open spec fn http_prefix() -> Seq<char> {
    seq!['h', 't', 't', 'p', ':', '/', '/', 't', '.', 'c', 'o', '/']
}

/// Whether a token with prefix `p` starts at position `i` of `s` and runs
/// to the very end: the prefix, then at least one character, none of them a
/// space.
pub open spec fn link_token_at(s: Seq<char>, i: int, p: Seq<char>) -> bool {
    &&& 0 <= i
    &&& i + p.len() < s.len()
    &&& s.subrange(i, i + p.len()) == p
    &&& forall|j: int| i + p.len() <= j < s.len() ==> s[j] != ' '
}

/// Whether a trailing short-link token, in either form, starts at `i`.
pub open spec fn shortlink_at(s: Seq<char>, i: int) -> bool {
    link_token_at(s, i, https_prefix()) || link_token_at(s, i, http_prefix())
}

/// Position of the leftmost short-link token at or after `i`, if any.
pub open spec fn first_link_from(s: Seq<char>, i: int) -> Option<int>
    decreases s.len() - i
        when 0 <= i
{
    if i >= s.len() {
        None
    } else if shortlink_at(s, i) {
        Some(i)
    } else {
        first_link_from(s, i + 1)
    }
}

/// `s` with a trailing short-link token removed, from the leftmost position
/// where one starts; `s` unchanged when it carries none.
pub open spec fn strip_spec(s: Seq<char>) -> Seq<char> {
    match first_link_from(s, 0) {
        Some(i) => s.take(i),
        None => s,
    }
}

fn https_prefix_chars() -> (v: Vec<char>)
    ensures
        v@ == https_prefix(),
{
    let v = vec!['h', 't', 't', 'p', 's', ':', '/', '/', 't', '.', 'c', 'o', '/'];
    proof {
        assert(v@ =~= https_prefix());
    }
    v
}

fn http_prefix_chars() -> (v: Vec<char>)
    ensures
        v@ == http_prefix(),
{
    let v = vec!['h', 't', 't', 'p', ':', '/', '/', 't', '.', 'c', 'o', '/'];
    proof {
        assert(v@ =~= http_prefix());
    }
    v
}

/// Whether the token with prefix `pref` stands at position `i` and runs to
/// the end of `s`.
fn token_at(s: &str, n: usize, i: usize, pref: &Vec<char>) -> (r: bool)
    requires
        n == s@.len(),
        i <= n,
        pref@.len() > 0,
    ensures
        r == link_token_at(s@, i as int, pref@),
{
    if n - i <= pref.len() {
        return false;
    }
    let mut j: usize = 0;
    while j < pref.len()
        invariant_except_break
            forall|t: int| 0 <= t < j ==> s@[i + t] == pref@[t],
        invariant
            0 <= j <= pref@.len(),
            n == s@.len(),
            i <= n,
            i + pref@.len() < n,
        ensures
            (j == pref@.len() && forall|t: int| 0 <= t < pref@.len() ==> s@[i + t] == pref@[t])
                || (j < pref@.len() && s@.subrange(i as int, i + pref@.len()) != pref@),
        decreases pref@.len() - j,
    {
        if s.get_char(i + j) != pref[j] {
            proof {
                assert(s@.subrange(i as int, i + pref@.len())[j as int] != pref@[j as int]);
            }
            break;
        }
        j = j + 1;
    }
    if j < pref.len() {
        return false;
    }
    proof {
        assert(s@.subrange(i as int, i + pref@.len()) =~= pref@);
    }
    let mut t: usize = i + pref.len();
    while t < n
        invariant_except_break
            forall|u: int| i + pref@.len() <= u < t ==> s@[u] != ' ',
        invariant
            i + pref@.len() <= t <= n,
            n == s@.len(),
            i + pref@.len() < n,
            s@.subrange(i as int, i + pref@.len()) == pref@,
        ensures
            (t == n && forall|u: int| i + pref@.len() <= u < n ==> s@[u] != ' ') || (t < n
                && !link_token_at(s@, i as int, pref@)),
        decreases n - t,
    {
        if s.get_char(t) == ' ' {
            proof {
                assert(s@[t as int] == ' ');
            }
            break;
        }
        t = t + 1;
    }
    if t < n {
        return false;
    }
    true
}

/// Remove a trailing short-link token from `s`, if one is present.
pub fn strip_trailing_link(s: &str) -> (r: String)
    ensures
        r@ == strip_spec(s@),
{
    let n = s.unicode_len();
    let https = https_prefix_chars();
    let http = http_prefix_chars();
    let mut i: usize = 0;
    while i < n
        invariant
            0 <= i <= n == s@.len(),
            https@ == https_prefix(),
            http@ == http_prefix(),
            first_link_from(s@, 0) == first_link_from(s@, i as int),
        decreases n - i,
    {
        let here = token_at(s, n, i, &https) || token_at(s, n, i, &http);
        if here {
            proof {
                assert(shortlink_at(s@, i as int));
                assert(first_link_from(s@, i as int) == Some(i as int));
            }
            let head = s.substring_char(0, i);
            proof {
                assert(head@ =~= s@.take(i as int));
            }
            return head.to_owned();
        }
        proof {
            assert(!shortlink_at(s@, i as int));
        }
        i = i + 1;
    }
    proof {
        assert(first_link_from(s@, i as int) is None);
    }
    s.to_owned()
}

/// The leftmost short-link position at or after `lo` exists as soon as any
/// position at or after `lo` carries one, and sits at or before it.
proof fn lemma_first_link_found(s: Seq<char>, lo: int, i: int)
    requires
        0 <= lo <= i,
        shortlink_at(s, i),
    ensures
        first_link_from(s, lo) matches Some(j) && lo <= j <= i && shortlink_at(s, j),
    decreases i - lo,
{
    if !shortlink_at(s, lo) {
        lemma_first_link_found(s, lo + 1, i);
    }
}

/// Text stripping: a text that carries a trailing short-link token loses
/// its tail from the leftmost position where such a token starts.
pub proof fn lemma_strip_removes_token(s: Seq<char>, i: int)
    requires
        shortlink_at(s, i),
    ensures
        first_link_from(s, 0) matches Some(j) && 0 <= j <= i && shortlink_at(s, j) && strip_spec(s)
            == s.take(j),
{
    lemma_first_link_found(s, 0, i);
}


/// Formatting then parsing an identifier gives the identifier back.
pub proof fn lemma_dec_roundtrip(n: u64)
    ensures
        parse_u64_spec(dec_digits(n as nat)) == Some(n),
    decreases n,
{
    lemma_dec_value_of_digits(n as nat);
    assert forall|i: int| 0 <= i < dec_digits(n as nat).len() implies is_digit(
        dec_digits(n as nat)[i],
    ) by {
        lemma_dec_digits_all_digits(n as nat, i);
    }
}

/// Every character of a canonical numeral is a digit.
proof fn lemma_dec_digits_all_digits(n: nat, i: int)
    requires
        0 <= i < dec_digits(n).len(),
    ensures
        is_digit(dec_digits(n)[i]),
    decreases n,
{
    if n < 10 {
    } else {
        if i < dec_digits(n / 10).len() {
            lemma_dec_digits_all_digits(n / 10, i);
        }
    }
}

/// The value of the canonical numeral of `n` is `n`.
proof fn lemma_dec_value_of_digits(n: nat)
    ensures
        dec_value(dec_digits(n)) == n,
    decreases n,
{
    if n < 10 {
        assert(dec_digits(n) =~= seq![digit_char(n)]);
        assert(dec_digits(n).drop_last() =~= Seq::<char>::empty());
        assert(dec_digits(n).last() == digit_char(n));
        assert(digit_val(digit_char(n)) == n);
        assert(dec_value(dec_digits(n)) == dec_value(Seq::<char>::empty()) * 10 + digit_val(digit_char(n)));
    } else {
        lemma_dec_value_of_digits(n / 10);
        assert(dec_digits(n).drop_last() =~= dec_digits(n / 10));
        assert(dec_digits(n).last() == digit_char(n % 10));
        assert(digit_val(digit_char(n % 10)) == n % 10);
        assert(dec_value(dec_digits(n)) == dec_value(dec_digits(n / 10)) * 10 + digit_val(
            dec_digits(n).last(),
        ));
    }
}

} // verus!
