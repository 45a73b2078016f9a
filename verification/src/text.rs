use vstd::prelude::*;
use vstd::string::*;

verus! {

/// The character of a decimal digit `d < 10`.
pub open spec fn digit_char(d: nat) -> char {
    (48 + d) as char
}

/// The decimal representation of `n`, without leading zeros.
pub open spec fn decimal(n: nat) -> Seq<char>
    decreases n,
{
    if n < 10 {
        seq![digit_char(n)]
    } else {
        decimal(n / 10).push(digit_char(n % 10))
    }
}

/// `n` spaces.
pub open spec fn spaces(n: nat) -> Seq<char> {
    Seq::new(n, |i: int| ' ')
}

/// `s` right-aligned in a field of `width` characters (as `{:>width}` does).
pub open spec fn pad_left(s: Seq<char>, width: nat) -> Seq<char> {
    if s.len() >= width {
        s
    } else {
        spaces((width - s.len()) as nat) + s
    }
}

/// `s` left-aligned in a field of `width` characters (as `{:<width}` does).
pub open spec fn pad_right(s: Seq<char>, width: nat) -> Seq<char> {
    if s.len() >= width {
        s
    } else {
        s + spaces((width - s.len()) as nat)
    }
}

/// Calls `String::push`, which appends the character `c` to `s` (as its
/// documentation says); nothing else about it is claimed.
#[verifier::external_body]
pub(crate) fn push_char(s: &mut String, c: char)
    ensures
        final(s)@ == old(s)@.push(c),
{
    s.push(c);
}

/// The character of the decimal digit `d`.
pub fn digit(d: u64) -> (c: char)
    requires
        d < 10,
    ensures
        c == digit_char(d as nat),
{
    let b: u8 = 48u8 + (d as u8);
    b as char
}

/// Appends the decimal representation of `n` to `out`.
pub fn push_decimal(out: &mut String, n: u64)
    ensures
        final(out)@ == old(out)@ + decimal(n as nat),
    decreases n,
{
    if n < 10 {
        push_char(out, digit(n));
    } else {
        push_decimal(out, n / 10);
        push_char(out, digit(n % 10));
        assert(decimal(n as nat) == decimal((n / 10) as nat).push(digit_char((n % 10) as nat)));
    }
}

/// Appends the decimal representation of a 128-bit `n` to `out`.
pub fn push_decimal_wide(out: &mut String, n: u128)
    ensures
        final(out)@ == old(out)@ + decimal(n as nat),
    decreases n,
{
    if n < 10 {
        push_char(out, digit(n as u64));
    } else {
        push_decimal_wide(out, n / 10);
        push_char(out, digit((n % 10) as u64));
        assert(decimal(n as nat) == decimal((n / 10) as nat).push(digit_char((n % 10) as nat)));
    }
}

/// The decimal representation of `n`.
pub fn decimal_string(n: u64) -> (s: String)
    ensures
        s@ == decimal(n as nat),
{
    let mut s = String::new();
    push_decimal(&mut s, n);
    s
}

/// Calls `==` on two `str`s, which is true exactly where they hold the same
/// characters (as `str`'s documentation of `PartialEq` says).
#[verifier::external_body]
pub(crate) fn str_eq(a: &str, b: &str) -> (r: bool)
    ensures
        r == (a@ == b@),
{
    a == b
}

/// `parts` joined with `sep` between each two of them.
pub open spec fn join(parts: Seq<Seq<char>>, sep: Seq<char>) -> Seq<char>
    decreases parts.len(),
{
    if parts.len() == 0 {
        Seq::empty()
    } else if parts.len() == 1 {
        parts[0]
    } else {
        join(parts.drop_last(), sep) + sep + parts.last()
    }
}

/// The characters of each string.
pub open spec fn views(strings: Seq<String>) -> Seq<Seq<char>> {
    strings.map_values(|s: String| s@)
}

/// The strings joined with `sep` (as `join` on a slice of strings does).
pub fn join_strings(strings: &Vec<String>, sep: &str) -> (r: String)
    ensures
        r@ == join(views(strings@), sep@),
{
    let mut out = String::new();
    let mut i: usize = 0;
    while i < strings.len()
        invariant
            0 <= i <= strings.len(),
            out@ == join(views(strings@.take(i as int)), sep@),
        decreases strings.len() - i,
    {
        if i > 0 {
            out.append(sep);
        }
        out.append(strings[i].as_str());
        proof {
            let pre = views(strings@.take(i + 1));
            assert(pre.drop_last() =~= views(strings@.take(i as int)));
            if i == 0 {
                assert(views(strings@.take(0)) =~= Seq::<Seq<char>>::empty());
            }
        }
        i = i + 1;
    }
    assert(strings@.take(strings.len() as int) =~= strings@);
    out
}

/// The characters of a string slice.
pub fn chars_of(s: &str) -> (v: Vec<char>)
    ensures
        v@ == s@,
{
    broadcast use vstd::string::group_string_axioms;
    let mut v: Vec<char> = Vec::new();
    for c in it: s.chars()
        invariant
            v@.len() == it.index(),
            forall|i: int| 0 <= i < v@.len() ==> v@[i] == it.seq()[i],
    {
        v.push(c);
    }
    assert(v@ =~= s@);
    v
}

/// Whether `s` begins with `prefix`.
pub open spec fn starts_with(s: Seq<char>, prefix: Seq<char>) -> bool {
    s.len() >= prefix.len() && s.take(prefix.len() as int) == prefix
}

/// Whether `s` ends with `suffix`.
pub open spec fn ends_with(s: Seq<char>, suffix: Seq<char>) -> bool {
    s.len() >= suffix.len() && s.skip(s.len() - suffix.len()) == suffix
}

/// Whether `c` has the Unicode `White_Space` property (what `char::is_whitespace` tests).
pub open spec fn is_white_space(c: char) -> bool {
    let u = c as u32;
    ||| 0x9 <= u <= 0xD
    ||| u == 0x20
    ||| u == 0x85
    ||| u == 0xA0
    ||| u == 0x1680
    ||| 0x2000 <= u <= 0x200A
    ||| u == 0x2028
    ||| u == 0x2029
    ||| u == 0x202F
    ||| u == 0x205F
    ||| u == 0x3000
}

/// `s` without leading white space.
pub open spec fn trim_start_spec(s: Seq<char>) -> Seq<char>
    decreases s.len(),
{
    if s.len() > 0 && is_white_space(s[0]) {
        trim_start_spec(s.drop_first())
    } else {
        s
    }
}

/// `s` without trailing white space.
pub open spec fn trim_end_spec(s: Seq<char>) -> Seq<char>
    decreases s.len(),
{
    if s.len() > 0 && is_white_space(s.last()) {
        trim_end_spec(s.drop_last())
    } else {
        s
    }
}

/// `s` without leading or trailing white space (what `str::trim` gives).
pub open spec fn trim_spec(s: Seq<char>) -> Seq<char> {
    trim_start_spec(trim_end_spec(s))
}

/// `s` without any trailing `c` (what `trim_end_matches(c)` gives).
pub open spec fn trim_end_char(s: Seq<char>, c: char) -> Seq<char>
    decreases s.len(),
{
    if s.len() > 0 && s.last() == c {
        trim_end_char(s.drop_last(), c)
    } else {
        s
    }
}

/// Whether `c` has the Unicode `White_Space` property.
pub fn white_space(c: char) -> (b: bool)
    ensures
        b == is_white_space(c),
{
    let u = c as u32;
    (0x9 <= u && u <= 0xD) || u == 0x20 || u == 0x85 || u == 0xA0 || u == 0x1680 || (0x2000 <= u
        && u <= 0x200A) || u == 0x2028 || u == 0x2029 || u == 0x202F || u == 0x205F || u == 0x3000
}

/// The string made of `chars[start..end]`.
pub fn string_of(chars: &Vec<char>, start: usize, end: usize) -> (s: String)
    requires
        start <= end <= chars@.len(),
    ensures
        s@ == chars@.subrange(start as int, end as int),
{
    let mut s = String::new();
    let mut i = start;
    while i < end
        invariant
            start <= i <= end <= chars@.len(),
            s@ == chars@.subrange(start as int, i as int),
        decreases end - i,
    {
        push_char(&mut s, chars[i]);
        assert(chars@.subrange(start as int, i + 1) =~= chars@.subrange(start as int, i as int).push(chars@[i as int]));
        i = i + 1;
    }
    s
}

/// Whether `chars[start..end]` begins with `prefix`.
pub fn range_starts_with(chars: &Vec<char>, start: usize, end: usize, prefix: &str) -> (b: bool)
    requires
        start <= end <= chars@.len(),
    ensures
        b == starts_with(chars@.subrange(start as int, end as int), prefix@),
{
    let p = chars_of(prefix);
    if end - start < p.len() {
        return false;
    }
    let mut i: usize = 0;
    while i < p.len()
        invariant
            start <= end <= chars@.len(),
            p.len() <= end - start,
            p@ == prefix@,
            0 <= i <= p.len(),
            forall|k: int| 0 <= k < i ==> chars@[start + k] == p@[k],
        decreases p.len() - i,
    {
        if chars[start + i] != p[i] {
            assert(chars@.subrange(start as int, end as int).take(p.len() as int)[i as int] != prefix@[i as int]);
            return false;
        }
        i = i + 1;
    }
    assert(chars@.subrange(start as int, end as int).take(p.len() as int) =~= prefix@);
    true
}

/// Whether `chars[start..end]` ends with `suffix`.
pub fn range_ends_with(chars: &Vec<char>, start: usize, end: usize, suffix: &str) -> (b: bool)
    requires
        start <= end <= chars@.len(),
    ensures
        b == ends_with(chars@.subrange(start as int, end as int), suffix@),
{
    let p = chars_of(suffix);
    if end - start < p.len() {
        return false;
    }
    let base = end - p.len();
    let mut i: usize = 0;
    while i < p.len()
        invariant
            start <= base <= end <= chars@.len(),
            base + p.len() == end,
            p@ == suffix@,
            0 <= i <= p.len(),
            forall|k: int| 0 <= k < i ==> chars@[base + k] == p@[k],
        decreases p.len() - i,
    {
        if chars[base + i] != p[i] {
            let ghost r = chars@.subrange(start as int, end as int);
            assert(r.skip(r.len() - p.len())[i as int] != suffix@[i as int]);
            return false;
        }
        i = i + 1;
    }
    let ghost r = chars@.subrange(start as int, end as int);
    assert(r.skip(r.len() - p.len()) =~= suffix@);
    true
}

/// The end of `chars[start..end]` once trailing `c` are removed.
pub fn trim_end_char_index(chars: &Vec<char>, start: usize, end: usize, c: char) -> (e: usize)
    requires
        start <= end <= chars@.len(),
    ensures
        start <= e <= end,
        chars@.subrange(start as int, e as int) == trim_end_char(chars@.subrange(start as int, end as int), c),
{
    let mut e = end;
    while e > start && chars[e - 1] == c
        invariant
            start <= e <= end <= chars@.len(),
            trim_end_char(chars@.subrange(start as int, e as int), c) == trim_end_char(chars@.subrange(start as int, end as int), c),
        decreases e,
    {
        assert(chars@.subrange(start as int, e as int).drop_last() =~= chars@.subrange(start as int, e - 1));
        e = e - 1;
    }
    e
}

/// The bounds of `chars` once leading and trailing white space are removed.
pub fn trim_indices(chars: &Vec<char>) -> (r: (usize, usize))
    ensures
        r.0 <= r.1 <= chars@.len(),
        chars@.subrange(r.0 as int, r.1 as int) == trim_spec(chars@),
{
    let mut e = chars.len();
    assert(chars@.subrange(0, e as int) =~= chars@);
    while e > 0 && white_space(chars[e - 1])
        invariant
            e <= chars@.len(),
            trim_end_spec(chars@.subrange(0, e as int)) == trim_end_spec(chars@),
        decreases e,
    {
        assert(chars@.subrange(0, e as int).drop_last() =~= chars@.subrange(0, e - 1));
        e = e - 1;
    }
    let mut b: usize = 0;
    assert(chars@.subrange(0, e as int) =~= chars@.subrange(b as int, e as int));
    while b < e && white_space(chars[b])
        invariant
            b <= e <= chars@.len(),
            trim_end_spec(chars@.subrange(0, e as int)) == chars@.subrange(0, e as int),
            trim_start_spec(chars@.subrange(b as int, e as int)) == trim_spec(chars@),
        decreases e - b,
    {
        assert(chars@.subrange(b as int, e as int).drop_first() =~= chars@.subrange(b + 1, e as int));
        b = b + 1;
    }
    (b, e)
}

/// `n` copies of `c`.
pub open spec fn char_run(c: char, n: nat) -> Seq<char> {
    Seq::new(n, |i: int| c)
}

/// Appends `n` copies of `c`.
pub fn push_run(out: &mut String, c: char, n: usize)
    ensures
        final(out)@ == old(out)@ + char_run(c, n as nat),
{
    let mut i: usize = 0;
    while i < n
        invariant
            0 <= i <= n,
            out@ == old(out)@ + char_run(c, i as nat),
        decreases n - i,
    {
        push_char(out, c);
        assert(char_run(c, (i + 1) as nat) =~= char_run(c, i as nat).push(c));
        assert(old(out)@ + char_run(c, (i + 1) as nat) =~= old(out)@ + char_run(c, i as nat) + seq![c]);
        i = i + 1;
    }
}

/// Appends `s` right-aligned in a field of `width` characters.
pub fn push_pad_left(out: &mut String, s: &str, width: usize)
    ensures
        final(out)@ == old(out)@ + pad_left(s@, width as nat),
{
    let n = chars_of(s).len();
    if n < width {
        push_run(out, ' ', width - n);
        assert(char_run(' ', (width - n) as nat) =~= spaces((width - s@.len()) as nat));
    }
    out.append(s);
    assert(final(out)@ =~= old(out)@ + pad_left(s@, width as nat));
}

/// Appends `s` left-aligned in a field of `width` characters.
pub fn push_pad_right(out: &mut String, s: &str, width: usize)
    ensures
        final(out)@ == old(out)@ + pad_right(s@, width as nat),
{
    let n = chars_of(s).len();
    out.append(s);
    if n < width {
        push_run(out, ' ', width - n);
        assert(char_run(' ', (width - n) as nat) =~= spaces((width - s@.len()) as nat));
    }
    assert(final(out)@ =~= old(out)@ + pad_right(s@, width as nat));
}

} // verus!
