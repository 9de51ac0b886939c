//! Text shown in the image information panel.
use vstd::prelude::*;

verus! {

/// Greatest common divisor, by Euclid's algorithm; `gcd(a, 0) == a`.
pub open spec fn spec_gcd(a: nat, b: nat) -> nat
    decreases b,
{
    if b == 0 {
        a
    } else {
        spec_gcd(b, a % b)
    }
}

pub fn gcd(a: u32, b: u32) -> (r: u32)
    ensures
        r == spec_gcd(a as nat, b as nat),
{
    let mut x: u32 = a;
    let mut y: u32 = b;
    while y != 0
        invariant
            spec_gcd(x as nat, y as nat) == spec_gcd(a as nat, b as nat),
        decreases y,
    {
        let t = y;
        y = x % y;
        x = t;
    }
    x
}

pub open spec fn digit_char(d: nat) -> char {
    if d == 0 {
        '0'
    } else if d == 1 {
        '1'
    } else if d == 2 {
        '2'
    } else if d == 3 {
        '3'
    } else if d == 4 {
        '4'
    } else if d == 5 {
        '5'
    } else if d == 6 {
        '6'
    } else if d == 7 {
        '7'
    } else if d == 8 {
        '8'
    } else {
        '9'
    }
}

/// Decimal digits of `n`, without leading zeros.
pub open spec fn decimal(n: nat) -> Seq<char>
    decreases n,
{
    if n < 10 {
        seq![digit_char(n)]
    } else {
        decimal(n / 10).push(digit_char(n % 10))
    }
}

/// `n` in exactly three digits, with leading zeros.
pub open spec fn three_digits(n: nat) -> Seq<char> {
    seq![digit_char(n / 100), digit_char((n / 10) % 10), digit_char(n % 10)]
}

fn digit(d: u64) -> (r: char)
    requires
        d < 10,
    ensures
        r == digit_char(d as nat),
{
    if d == 0 {
        '0'
    } else if d == 1 {
        '1'
    } else if d == 2 {
        '2'
    } else if d == 3 {
        '3'
    } else if d == 4 {
        '4'
    } else if d == 5 {
        '5'
    } else if d == 6 {
        '6'
    } else if d == 7 {
        '7'
    } else if d == 8 {
        '8'
    } else {
        '9'
    }
}

fn decimal_chars(n: u64) -> (r: Vec<char>)
    ensures
        r@ == decimal(n as nat),
    decreases n,
{
    if n < 10 {
        let mut v: Vec<char> = Vec::new();
        v.push(digit(n));
        v
    } else {
        let mut v = decimal_chars(n / 10);
        v.push(digit(n % 10));
        v
    }
}

fn append(dst: &mut Vec<char>, src: &Vec<char>)
    ensures
        final(dst)@ == old(dst)@ + src@,
{
    let mut i: usize = 0;
    while i < src.len()
        invariant
            i <= src@.len(),
            dst@ == old(dst)@ + src@.subrange(0, i as int),
        decreases src@.len() - i,
    {
        dst.push(src[i]);
        i = i + 1;
    }
    assert(src@.subrange(0, src@.len() as int) == src@);
}

/// Relies on `String`'s `FromIterator<char>`: the string of these characters.
#[verifier::external_body]
fn string_from_chars(chars: &Vec<char>) -> (r: String)
    ensures
        r@ == chars@,
{
    chars.iter().collect()
}

/// Aspect ratio of a `w` x `h` image in lowest terms, as `"w:h"`.
pub fn aspect_ratio_str(w: u32, h: u32) -> (r: String)
    requires
        w > 0 || h > 0,
    ensures
        r@ == decimal((w as nat) / spec_gcd(w as nat, h as nat)) + seq![':'] + decimal(
            (h as nat) / spec_gcd(w as nat, h as nat),
        ),
{
    let d = gcd(w, h);
    proof {
        lemma_gcd_positive(w as nat, h as nat);
    }
    let mut text = decimal_chars((w / d) as u64);
    text.push(':');
    append(&mut text, &decimal_chars((h / d) as u64));
    string_from_chars(&text)
}

proof fn lemma_gcd_positive(a: nat, b: nat)
    requires
        a > 0 || b > 0,
    ensures
        spec_gcd(a, b) > 0,
    decreases b,
{
    if b > 0 {
        lemma_gcd_positive(b, a % b);
    }
}

/// A duration of `ms` milliseconds in seconds: `"3s"` when whole, else with three
/// decimals, `"3.050s"`.
pub fn format_duration(ms: u64) -> (r: String)
    ensures
        ms % 1000 == 0 ==> r@ == decimal((ms / 1000) as nat) + seq!['s'],
        ms % 1000 != 0 ==> r@ == decimal((ms / 1000) as nat) + seq!['.'] + three_digits(
            (ms % 1000) as nat,
        ) + seq!['s'],
{
    let secs = ms / 1000;
    let rem = ms % 1000;
    let mut text = decimal_chars(secs);
    if rem != 0 {
        text.push('.');
        text.push(digit(rem / 100));
        text.push(digit((rem / 10) % 10));
        text.push(digit(rem % 10));
    }
    text.push('s');
    proof {
        if rem != 0 {
            assert(text@ =~= decimal(secs as nat) + seq!['.'] + three_digits(rem as nat) + seq![
                's',
            ]);
        } else {
            assert(text@ =~= decimal(secs as nat) + seq!['s']);
        }
    }
    string_from_chars(&text)
}

/// Index of the last `'.'` among the first `n` characters of `s`.
pub open spec fn last_dot_before(s: Seq<char>, n: int) -> Option<int>
    decreases n,
{
    if n <= 0 {
        None
    } else if s[n - 1] == '.' {
        Some(n - 1)
    } else {
        last_dot_before(s, n - 1)
    }
}

/// The extension of `name` with its dot (from the last `'.'`), or nothing.
pub open spec fn ext_part(name: Seq<char>) -> Seq<char> {
    match last_dot_before(name, name.len() as int) {
        Some(i) => name.skip(i),
        None => Seq::empty(),
    }
}

/// `name` before its extension.
pub open spec fn stem_part(name: Seq<char>) -> Seq<char> {
    match last_dot_before(name, name.len() as int) {
        Some(i) => name.take(i),
        None => name,
    }
}

/// `name` shortened to at most `max` characters: kept whole when it fits; else the
/// stem is cut and marked with `'~'` before the extension; when even the extension
/// and the mark do not fit, the first `max` characters.
pub open spec fn truncated(name: Seq<char>, max: nat) -> Seq<char> {
    let ext = ext_part(name);
    if name.len() <= max {
        name
    } else if max <= 1 + ext.len() {
        name.take(max as int)
    } else {
        stem_part(name).take(max - (1 + ext.len())) + seq!['~'] + ext
    }
}

proof fn lemma_last_dot_in_range(s: Seq<char>, n: int)
    requires
        0 <= n <= s.len(),
    ensures
        last_dot_before(s, n) matches Some(i) ==> 0 <= i < n && s[i] == '.',
    decreases n,
{
    if n > 0 && s[n - 1] != '.' {
        lemma_last_dot_in_range(s, n - 1);
    }
}

/// The characters `s[from..to]`.
fn slice_chars(s: &Vec<char>, from: usize, to: usize) -> (r: Vec<char>)
    requires
        from <= to <= s@.len(),
    ensures
        r@ == s@.subrange(from as int, to as int),
{
    let mut out: Vec<char> = Vec::new();
    let mut i: usize = from;
    while i < to
        invariant
            from <= i <= to,
            to <= s@.len(),
            out@ == s@.subrange(from as int, i as int),
        decreases to - i,
    {
        out.push(s[i]);
        i = i + 1;
    }
    out
}

/// Shortens a file name for display to at most `max_chars` characters, keeping
/// its extension where there is room.
pub fn truncate_filename(name: &str, max_chars: usize) -> (r: String)
    ensures
        r@ == truncated(name@, max_chars as nat),
{
    let chars = crate::gallery::chars_of(name);
    let n = chars.len();
    let mut k: usize = n;
    while k > 0 && chars[k - 1] != '.'
        invariant
            k <= n,
            n == chars@.len(),
            last_dot_before(chars@, n as int) == last_dot_before(chars@, k as int),
        decreases k,
    {
        k = k - 1;
    }
    proof {
        lemma_last_dot_in_range(chars@, n as int);
    }
    let split: usize = if k > 0 {
        k - 1
    } else {
        n
    };
    assert(chars@.take(split as int) == stem_part(name@));
    assert(chars@.skip(split as int) == ext_part(name@));
    if n <= max_chars {
        return string_from_chars(&chars);
    }
    let ext_len = n - split;
    if max_chars <= ext_len || max_chars - ext_len <= 1 {
        let head = slice_chars(&chars, 0, max_chars);
        return string_from_chars(&head);
    }
    let budget = max_chars - (1 + ext_len);
    let stem_keep = if budget < split {
        budget
    } else {
        split
    };
    let mut text = slice_chars(&chars, 0, stem_keep);
    text.push('~');
    append(&mut text, &slice_chars(&chars, split, n));
    proof {
        assert(stem_part(name@).take(budget as int) == chars@.subrange(0, stem_keep as int));
        assert(text@ =~= truncated(name@, max_chars as nat));
    }
    string_from_chars(&text)
}

} // verus!
