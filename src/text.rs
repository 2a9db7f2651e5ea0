//! Character-level helpers on strings, each stated over `Seq<char>`.

use vstd::prelude::*;

verus! {

/// The string with every trailing `/` removed.
pub open spec fn trim_end_slashes(s: Seq<char>) -> Seq<char>
    decreases s.len(),
{
    if s.len() > 0 && s.last() == '/' {
        trim_end_slashes(s.drop_last())
    } else {
        s
    }
}

/// The string with every leading `/` removed.
pub open spec fn trim_start_slashes(s: Seq<char>) -> Seq<char>
    decreases s.len(),
{
    if s.len() > 0 && s[0] == '/' {
        trim_start_slashes(s.drop_first())
    } else {
        s
    }
}

/// Relies on `String::push`: the character is appended at the end.
#[verifier::external_body]
pub(crate) fn push_char(s: &mut String, c: char)
    ensures
        final(s)@ == old(s)@.push(c),
{
    s.push(c);
}

/// The characters of `s`, one per element.
pub fn chars_of(s: &str) -> (r: Vec<char>)
    ensures
        r@ == s@,
{
    let n = s.unicode_len();
    let mut r: Vec<char> = Vec::new();
    let mut i: usize = 0;
    while i < n
        invariant
            n == s@.len(),
            i <= n,
            r@ == s@.subrange(0, i as int),
        decreases n - i,
    {
        r.push(s.get_char(i));
        i = i + 1;
    }
    assert(r@ == s@);
    r
}

/// The string made of `v[from..to]`.
pub fn string_from(v: &Vec<char>, from: usize, to: usize) -> (r: String)
    requires
        from <= to <= v@.len(),
    ensures
        r@ == v@.subrange(from as int, to as int),
{
    let mut r = String::new();
    let mut i: usize = from;
    while i < to
        invariant
            from <= i <= to <= v@.len(),
            r@ == v@.subrange(from as int, i as int),
        decreases to - i,
    {
        push_char(&mut r, v[i]);
        assert(v@.subrange(from as int, i + 1) == v@.subrange(from as int, i as int).push(v@[i as int]));
        i = i + 1;
    }
    r
}

proof fn lemma_trim_end_prefix(s: Seq<char>, k: int)
    requires
        0 < k <= s.len(),
        s[k - 1] == '/',
    ensures
        trim_end_slashes(s.subrange(0, k)) == trim_end_slashes(s.subrange(0, k - 1)),
{
    assert(s.subrange(0, k).drop_last() == s.subrange(0, k - 1));
}

/// `s` without its trailing slashes.
pub fn trim_end_slashes_of(s: &str) -> (r: String)
    ensures
        r@ == trim_end_slashes(s@),
{
    let v = chars_of(s);
    let mut k: usize = v.len();
    assert(v@.subrange(0, k as int) == v@);
    while k > 0 && v[k - 1] == '/'
        invariant
            k <= v@.len(),
            trim_end_slashes(v@.subrange(0, k as int)) == trim_end_slashes(v@),
        decreases k,
    {
        proof {
            lemma_trim_end_prefix(v@, k as int);
        }
        k = k - 1;
    }
    string_from(&v, 0, k)
}

/// Whether `p` occurs in `v` at position `i`.
pub fn occurs_at(v: &Vec<char>, i: usize, p: &Vec<char>) -> (r: bool)
    requires
        i <= v@.len(),
    ensures
        r == p@.is_prefix_of(v@.subrange(i as int, v@.len() as int)),
{
    let n = v.len();
    if p.len() > n - i {
        return false;
    }
    let mut j: usize = 0;
    while j < p.len()
        invariant
            n == v@.len(),
            j <= p@.len(),
            i + p@.len() <= v@.len(),
            forall|t: int| 0 <= t < j ==> p@[t] == v@[i + t],
        decreases p@.len() - j,
    {
        if p[j] != v[i + j] {
            assert(v@.subrange(i as int, v@.len() as int)[j as int] == v@[i + j]);
            return false;
        }
        j = j + 1;
    }
    assert(p@ =~= v@.subrange(i as int, v@.len() as int).subrange(0, p@.len() as int));
    true
}

/// `s` without its leading slashes.
pub fn trim_start_slashes_of(s: &str) -> (r: String)
    ensures
        r@ == trim_start_slashes(s@),
{
    let v = chars_of(s);
    let n = v.len();
    let mut k: usize = 0;
    assert(v@.subrange(0, n as int) == v@);
    while k < n && v[k] == '/'
        invariant
            k <= n == v@.len(),
            trim_start_slashes(v@.subrange(k as int, n as int)) == trim_start_slashes(v@),
        decreases n - k,
    {
        assert(v@.subrange(k as int, n as int).drop_first() == v@.subrange(k + 1, n as int));
        k = k + 1;
    }
    string_from(&v, k, n)
}

/// Whether `p` is a prefix of `s`.
pub fn starts_with(s: &str, p: &str) -> (r: bool)
    ensures
        r == p@.is_prefix_of(s@),
{
    let v = chars_of(s);
    let q = chars_of(p);
    assert(v@.subrange(0, v@.len() as int) == v@);
    occurs_at(&v, 0, &q)
}

/// White space as `char::is_whitespace` has it (Unicode `White_Space`).
pub open spec fn is_blank(c: char) -> bool {
    let u = c as u32;
    (9 <= u && u <= 13) || u == 32 || u == 0x85 || u == 0xA0 || u == 0x1680
        || (0x2000 <= u && u <= 0x200A) || u == 0x2028 || u == 0x2029 || u == 0x202F
        || u == 0x205F || u == 0x3000
}

/// `s` without white space at its end.
pub open spec fn trim_end_blank(s: Seq<char>) -> Seq<char>
    decreases s.len(),
{
    if s.len() > 0 && is_blank(s.last()) {
        trim_end_blank(s.drop_last())
    } else {
        s
    }
}

/// `s` without white space at its start.
pub open spec fn trim_start_blank(s: Seq<char>) -> Seq<char>
    decreases s.len(),
{
    if s.len() > 0 && is_blank(s[0]) {
        trim_start_blank(s.drop_first())
    } else {
        s
    }
}

/// An operator's answer is a yes when, white space around it aside, it is
/// the single letter `y`.
pub open spec fn is_yes(s: Seq<char>) -> bool {
    trim_start_blank(trim_end_blank(s)) == seq!['y']
}

fn blank(c: char) -> (r: bool)
    ensures
        r == is_blank(c),
{
    let u = c as u32;
    (9 <= u && u <= 13) || u == 32 || u == 0x85 || u == 0xA0 || u == 0x1680
        || (0x2000 <= u && u <= 0x200A) || u == 0x2028 || u == 0x2029 || u == 0x202F
        || u == 0x205F || u == 0x3000
}

/// Whether a line typed by the operator confirms the operation.
pub fn is_affirmative(answer: &str) -> (r: bool)
    ensures
        r == is_yes(answer@),
{
    let v = chars_of(answer);
    let n = v.len();
    let mut e: usize = n;
    assert(v@.subrange(0, n as int) == v@);
    while e > 0 && blank(v[e - 1])
        invariant
            e <= n == v@.len(),
            trim_end_blank(v@.subrange(0, e as int)) == trim_end_blank(v@),
        decreases e,
    {
        assert(v@.subrange(0, e as int).drop_last() == v@.subrange(0, e - 1));
        e = e - 1;
    }
    let mut b: usize = 0;
    assert(v@.subrange(0, e as int).subrange(0, e as int) == v@.subrange(0, e as int));
    while b < e && blank(v[b])
        invariant
            b <= e <= n == v@.len(),
            trim_end_blank(v@.subrange(0, e as int)) == v@.subrange(0, e as int),
            trim_start_blank(v@.subrange(b as int, e as int)) == trim_start_blank(
                v@.subrange(0, e as int),
            ),
        decreases e - b,
    {
        assert(v@.subrange(b as int, e as int).drop_first() == v@.subrange(b + 1, e as int));
        b = b + 1;
    }
    assert(trim_start_blank(v@.subrange(b as int, e as int)) == v@.subrange(b as int, e as int));
    if e - b == 1 && v[b] == 'y' {
        assert(v@.subrange(b as int, e as int) =~= seq!['y']);
        true
    } else {
        assert(v@.subrange(b as int, e as int).len() != 1 || v@.subrange(b as int, e as int)[0]
            != 'y');
        false
    }
}

/// The decimal digit for `d`.
pub open spec fn digit_char(d: nat) -> char {
    seq!['0', '1', '2', '3', '4', '5', '6', '7', '8', '9'][d as int]
}

/// The decimal numeral of `n`, zero-padded on the left to at least `width`
/// digits; with `width` at least 1 this is the usual numeral.
pub open spec fn padded_decimal(n: nat, width: nat) -> Seq<char>
    decreases n + width,
{
    if n == 0 && width == 0 {
        seq![]
    } else {
        padded_decimal(n / 10, if width > 0 { (width - 1) as nat } else { 0 }) + seq![
            digit_char(n % 10),
        ]
    }
}

/// The usual decimal numeral of `n`.
pub open spec fn decimal(n: nat) -> Seq<char> {
    padded_decimal(n, 1)
}

fn digit(d: u64) -> (c: char)
    requires
        d < 10,
    ensures
        c == digit_char(d as nat),
{
    if d == 0 { '0' } else if d == 1 { '1' } else if d == 2 { '2' } else if d == 3 { '3' }
    else if d == 4 { '4' } else if d == 5 { '5' } else if d == 6 { '6' } else if d == 7 { '7' }
    else if d == 8 { '8' } else { '9' }
}

/// Appends the numeral of `n` zero-padded to `width` digits.
pub fn push_padded(out: &mut String, n: u64, width: u64)
    ensures
        final(out)@ == old(out)@ + padded_decimal(n as nat, width as nat),
    decreases n + width,
{
    if n == 0 && width == 0 {
        assert(old(out)@ + Seq::<char>::empty() == old(out)@);
        return;
    }
    let w = if width > 0 { width - 1 } else { 0 };
    push_padded(out, n / 10, w);
    push_char(out, digit(n % 10));
    assert(padded_decimal(n as nat, width as nat) == padded_decimal((n / 10) as nat, w as nat)
        + seq![digit_char((n % 10) as nat)]);
}

/// The text held by an optional string, or `default` when there is none.
pub open spec fn text_or(o: Option<String>, default: Seq<char>) -> Seq<char> {
    match o {
        Some(s) => s@,
        None => default,
    }
}

/// A copy of the optional string's text, or of `default` when there is none.
pub fn value_or(o: &Option<String>, default: &str) -> (r: String)
    ensures
        r@ == text_or(*o, default@),
{
    match o {
        Some(s) => s.clone(),
        None => String::from_str(default),
    }
}

/// A copy of the optional string's text, or the empty string.
pub fn value_or_empty(o: &Option<String>) -> (r: String)
    ensures
        r@ == text_or(*o, seq![]),
{
    proof {
        reveal_strlit("");
    }
    value_or(o, "")
}

} // verus!
