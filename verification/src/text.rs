//! Text handling over the characters of a string.

use vstd::prelude::*;
use vstd::string::*;
use vstd::utf8::{decode_utf8, valid_utf8};

verus! {

/// Appends one character: `String::push` adds `c` behind the characters that
/// are there.
pub assume_specification[ String::push ](s: &mut String, c: char)
    ensures
        final(s)@ == old(s)@.push(c),
;

/// What `str::to_uppercase` returns for these characters.
pub uninterp spec fn uppercase(s: Seq<char>) -> Seq<char>;

/// `str::to_uppercase`: the Unicode uppercase mapping of the whole string, a
/// function of its characters alone.
#[verifier::external_body]
pub(crate) fn to_uppercase(s: &str) -> (r: String)
    ensures
        r@ == uppercase(s@),
{
    s.to_uppercase()
}

/// What `str::to_lowercase` returns for these characters.
pub uninterp spec fn lowercase(s: Seq<char>) -> Seq<char>;

/// `str::to_lowercase`: the Unicode lowercase mapping of the whole string, a
/// function of its characters alone.
#[verifier::external_body]
pub(crate) fn to_lowercase(s: &str) -> (r: String)
    ensures
        r@ == lowercase(s@),
{
    s.to_lowercase()
}

/// `String::from_utf8`: the decoded text when the bytes are valid UTF-8, and
/// nothing when they are not.
#[verifier::external_body]
pub(crate) fn from_utf8(bytes: &[u8]) -> (r: Option<String>)
    ensures
        r is Some <==> valid_utf8(bytes@),
        r matches Some(s) ==> s@ == decode_utf8(bytes@),
{
    String::from_utf8(bytes.to_vec()).ok()
}

/// The text that UTF-8 bytes stand for, if they are valid.
pub open spec fn utf8_text(bytes: Seq<u8>) -> Option<Seq<char>> {
    if valid_utf8(bytes) {
        Some(decode_utf8(bytes))
    } else {
        None
    }
}

/// The characters with the Unicode `White_Space` property.
pub open spec fn is_space(c: char) -> bool {
    ||| '\u{9}' <= c <= '\u{d}'
    ||| c == '\u{20}'
    ||| c == '\u{85}'
    ||| c == '\u{a0}'
    ||| c == '\u{1680}'
    ||| '\u{2000}' <= c <= '\u{200a}'
    ||| c == '\u{2028}'
    ||| c == '\u{2029}'
    ||| c == '\u{202f}'
    ||| c == '\u{205f}'
    ||| c == '\u{3000}'
}

/// Whether `c` is white space.
pub fn space(c: char) -> (r: bool)
    ensures
        r == is_space(c),
{
    ('\u{9}' <= c && c <= '\u{d}') || c == '\u{20}' || c == '\u{85}' || c == '\u{a0}' || c
        == '\u{1680}' || ('\u{2000}' <= c && c <= '\u{200a}') || c == '\u{2028}' || c == '\u{2029}'
        || c == '\u{202f}' || c == '\u{205f}' || c == '\u{3000}'
}

/// The decimal digits.
pub open spec fn is_digit(c: char) -> bool {
    '0' <= c <= '9'
}

/// Whether two strings hold the same characters.
pub fn same(a: &str, b: &str) -> (r: bool)
    ensures
        r == (a@ == b@),
{
    a.to_owned() == b.to_owned()
}

/// The characters of a string.
pub fn chars(s: &str) -> (v: Vec<char>)
    ensures
        v@ == s@,
{
    let mut v: Vec<char> = Vec::new();
    for c in it: s.chars()
        invariant
            v@ == s@.take(it.index() as int),
            it.seq() == s@,
    {
        v.push(c);
    }
    v
}

/// The string of these characters between two positions.
pub fn text_of(v: &Vec<char>, from: usize, to: usize) -> (r: String)
    requires
        from <= to <= v@.len(),
    ensures
        r@ == v@.subrange(from as int, to as int),
{
    let mut r = String::new();
    let mut i: usize = from;
    while i < to
        invariant
            from <= i <= to <= v@.len(),
            r@ == v@.subrange(from as int, i as int),
        decreases to - i,
    {
        r.push(v[i]);
        i += 1;
    }
    r
}

/// Whether trimming removes `c`: white space, and a dash where dashes are
/// trimmed too.
pub open spec fn trimmable(c: char, dashes: bool) -> bool {
    is_space(c) || (dashes && c == '-')
}

/// `s` without its leading trimmable characters.
pub open spec fn trim_front(s: Seq<char>, dashes: bool) -> Seq<char>
    decreases s.len(),
{
    if s.len() > 0 && trimmable(s[0], dashes) {
        trim_front(s.subrange(1, s.len() as int), dashes)
    } else {
        s
    }
}

/// `s` without its trailing trimmable characters.
pub open spec fn trim_back(s: Seq<char>, dashes: bool) -> Seq<char>
    decreases s.len(),
{
    if s.len() > 0 && trimmable(s[s.len() - 1], dashes) {
        trim_back(s.subrange(0, s.len() - 1), dashes)
    } else {
        s
    }
}

/// `s` without trimmable characters at either end.
pub open spec fn trimmed_by(s: Seq<char>, dashes: bool) -> Seq<char> {
    trim_back(trim_front(s, dashes), dashes)
}

/// `s` without white space at either end.
pub open spec fn trimmed(s: Seq<char>) -> Seq<char> {
    trimmed_by(s, false)
}

/// Trims white space, and dashes where asked, from both ends.
pub fn trim_by(s: &str, dashes: bool) -> (r: String)
    ensures
        r@ == trimmed_by(s@, dashes),
{
    let v = chars(s);
    let n = v.len();
    let mut i: usize = 0;
    proof {
        assert(s@.subrange(0, n as int) =~= s@);
    }
    while i < n && (space(v[i]) || (dashes && v[i] == '-'))
        invariant
            n == v@.len(),
            v@ == s@,
            0 <= i <= n,
            trim_front(s@, dashes) == trim_front(s@.subrange(i as int, n as int), dashes),
        decreases n - i,
    {
        proof {
            let t = s@.subrange(i as int, n as int);
            assert(t.subrange(1, t.len() as int) =~= s@.subrange(i + 1, n as int));
        }
        i += 1;
    }
    let ghost front = s@.subrange(i as int, n as int);
    assert(trim_front(front, dashes) == front);
    let mut j: usize = n;
    while i < j && (space(v[j - 1]) || (dashes && v[j - 1] == '-'))
        invariant
            n == v@.len(),
            v@ == s@,
            0 <= i <= j <= n,
            trim_front(s@, dashes) == front,
            trim_back(front, dashes) == trim_back(s@.subrange(i as int, j as int), dashes),
        decreases j,
    {
        proof {
            let t = s@.subrange(i as int, j as int);
            assert(t.subrange(0, t.len() - 1) =~= s@.subrange(i as int, j - 1));
        }
        j -= 1;
    }
    text_of(&v, i, j)
}

/// `str::trim`: the text without white space at either end.
pub fn trim(s: &str) -> (r: String)
    ensures
        r@ == trimmed(s@),
{
    trim_by(s, false)
}

/// The decimal digits of `n`.
pub open spec fn decimal(n: nat) -> Seq<char>
    decreases n,
{
    if n < 10 {
        seq![digit_char(n)]
    } else {
        decimal(n / 10).push(digit_char(n % 10))
    }
}

/// The character of a digit below ten.
pub open spec fn digit_char(d: nat) -> char {
    (48 + d) as char
}

/// The character of a digit below ten.
fn digit(d: u64) -> (c: char)
    requires
        d < 10,
    ensures
        c == digit_char(d as nat),
{
    (48u8 + d as u8) as char
}

/// Writes a number in decimal.
pub fn decimal_text(n: u64) -> (r: String)
    ensures
        r@ == decimal(n as nat),
    decreases n,
{
    if n < 10 {
        let mut r = String::new();
        r.push(digit(n));
        assert(r@ =~= decimal(n as nat));
        r
    } else {
        let mut r = decimal_text(n / 10);
        r.push(digit(n % 10));
        r
    }
}

/// The number that a run of digits stands for.
pub open spec fn digits_value(s: Seq<char>) -> nat
    decreases s.len(),
{
    if s.len() == 0 {
        0
    } else {
        digits_value(s.subrange(0, s.len() - 1)) * 10 + digit_value(s[s.len() - 1])
    }
}

/// The value of one digit.
pub open spec fn digit_value(c: char) -> nat {
    if is_digit(c) {
        (c as int - 48) as nat
    } else {
        0
    }
}

/// Whether every character is a decimal digit.
pub open spec fn all_digits(s: Seq<char>) -> bool {
    forall|i: int| 0 <= i < s.len() ==> is_digit(#[trigger] s[i])
}

/// What is left of a number behind its optional plus sign.
pub open spec fn number_body(s: Seq<char>) -> Seq<char> {
    if s.len() > 0 && s[0] == '+' {
        s.subrange(1, s.len() as int)
    } else {
        s
    }
}

/// An unsigned number as text: one optional plus sign, then at least one digit.
pub open spec fn number(s: Seq<char>) -> Option<nat> {
    let body = number_body(s);
    if body.len() > 0 && all_digits(body) {
        Some(digits_value(body))
    } else {
        None
    }
}

/// An unsigned number as text that is at most `max`.
pub open spec fn number_up_to(s: Seq<char>, max: nat) -> Option<nat> {
    match number(s) {
        Some(n) => if n <= max {
            Some(n)
        } else {
            None
        },
        None => None,
    }
}

/// Reads an unsigned number that is at most `max`.
pub fn parse_up_to(s: &str, max: u64) -> (r: Option<u64>)
    ensures
        match r {
            Some(n) => number_up_to(s@, max as nat) == Some(n as nat),
            None => number_up_to(s@, max as nat) is None,
        },
{
    let v = chars(s);
    let n = v.len();
    let start: usize = if n > 0 && v[0] == '+' {
        1
    } else {
        0
    };
    let ghost body = s@.subrange(start as int, n as int);
    assert(body =~= number_body(s@));
    if start == n {
        return None;
    }
    let mut value: u64 = 0;
    let mut i: usize = start;
    let mut over = false;
    while i < n
        invariant
            n == v@.len(),
            v@ == s@,
            start <= i <= n,
            body == s@.subrange(start as int, n as int),
            body == number_body(s@),
            forall|k: int| 0 <= k < i - start ==> is_digit(#[trigger] body[k]),
            over ==> digits_value(body.subrange(0, i - start)) > max,
            !over ==> value == digits_value(body.subrange(0, i - start)),
            !over ==> value <= max,
        decreases n - i,
    {
        let c = v[i];
        assert(body[i - start] == c);
        if !('0' <= c && c <= '9') {
            assert(!is_digit(body[i - start]));
            return None;
        }
        let d: u64 = (c as u32 - 48) as u64;
        proof {
            let t = body.subrange(0, i + 1 - start);
            assert(t.subrange(0, t.len() - 1) =~= body.subrange(0, i - start));
            assert(digits_value(t) == digits_value(body.subrange(0, i - start)) * 10 + d);
        }
        if !over {
            if d > max || value > max / 10 || value * 10 > max - d {
                over = true;
            } else {
                value = value * 10 + d;
            }
        }
        i += 1;
    }
    assert(body.subrange(0, n - start) =~= body);
    if over {
        None
    } else {
        Some(value)
    }
}

/// The lower-case form of an ASCII letter; other characters are kept.
pub open spec fn ascii_lower(c: char) -> char {
    if 'A' <= c <= 'Z' {
        (c as int + 32) as char
    } else {
        c
    }
}

/// The text with its ASCII letters in lower case.
pub open spec fn lower(s: Seq<char>) -> Seq<char> {
    Seq::new(s.len(), |i: int| ascii_lower(s[i]))
}

/// Puts ASCII letters in lower case and keeps everything else.
pub fn to_ascii_lowercase(s: &str) -> (r: String)
    ensures
        r@ == lower(s@),
{
    let v = chars(s);
    let mut r = String::new();
    let mut i: usize = 0;
    while i < v.len()
        invariant
            v@ == s@,
            i <= v@.len(),
            r@ == lower(s@).take(i as int),
        decreases v@.len() - i,
    {
        let c = v[i];
        let l = if 'A' <= c && c <= 'Z' {
            (c as u8 + 32) as char
        } else {
            c
        };
        r.push(l);
        assert(lower(s@).take(i + 1) =~= lower(s@).take(i as int).push(l));
        i += 1;
    }
    assert(lower(s@).take(v@.len() as int) =~= lower(s@));
    r
}

/// Whether two strings are equal when the case of ASCII letters is ignored.
pub fn same_ignoring_case(a: &str, b: &str) -> (r: bool)
    ensures
        r == (lower(a@) == lower(b@)),
{
    let x = to_ascii_lowercase(a);
    let y = to_ascii_lowercase(b);
    x == y
}

/// The texts that a vector of strings holds.
pub open spec fn texts(v: Seq<String>) -> Seq<Seq<char>> {
    Seq::new(v.len(), |i: int| v[i]@)
}

/// The pieces of `s` between the separators; one piece more than there are
/// separators.
pub open spec fn fields<T>(s: Seq<T>, sep: T) -> Seq<Seq<T>>
    decreases s.len(),
{
    if s.len() == 0 {
        seq![Seq::empty()]
    } else {
        let r = fields(s.subrange(0, s.len() - 1), sep);
        let c = s[s.len() - 1];
        if c == sep {
            r.push(Seq::empty())
        } else {
            r.update(r.len() - 1, r[r.len() - 1].push(c))
        }
    }
}

/// There is always a piece.
pub proof fn lemma_fields_nonempty<T>(s: Seq<T>, sep: T)
    ensures
        fields(s, sep).len() >= 1,
    decreases s.len(),
{
    if s.len() > 0 {
        lemma_fields_nonempty(s.subrange(0, s.len() - 1), sep);
    }
}

/// Splits text at every occurrence of a character.
pub fn split_char(s: &str, sep: char) -> (r: Vec<String>)
    ensures
        texts(r@) == fields(s@, sep),
        r@.len() >= 1,
{
    let v = chars(s);
    let mut out: Vec<String> = Vec::new();
    let mut cur = String::new();
    let mut i: usize = 0;
    assert(s@.subrange(0, 0) =~= Seq::<char>::empty());
    assert(texts(out@).push(cur@) =~= fields(s@.subrange(0, 0), sep));
    while i < v.len()
        invariant
            v@ == s@,
            i <= v@.len(),
            texts(out@).push(cur@) == fields(s@.subrange(0, i as int), sep),
        decreases v@.len() - i,
    {
        let c = v[i];
        let ghost before = texts(out@).push(cur@);
        let ghost t = s@.subrange(0, i + 1);
        assert(t.subrange(0, t.len() - 1) =~= s@.subrange(0, i as int));
        if c == sep {
            out.push(cur);
            cur = String::new();
            assert(texts(out@) =~= before);
        } else {
            let ghost old_cur = cur@;
            cur.push(c);
            assert(texts(out@).push(cur@) =~= before.update(before.len() - 1, old_cur.push(c)));
        }
        i += 1;
    }
    assert(s@.subrange(0, v@.len() as int) =~= s@);
    let ghost before = texts(out@).push(cur@);
    out.push(cur);
    assert(texts(out@) =~= before);
    out
}

/// Splits bytes at every occurrence of a byte.
pub fn split_bytes(s: &[u8], sep: u8) -> (r: Vec<Vec<u8>>)
    ensures
        byte_texts(r@) == fields(s@, sep),
{
    let mut out: Vec<Vec<u8>> = Vec::new();
    let mut cur: Vec<u8> = Vec::new();
    let mut i: usize = 0;
    assert(s@.subrange(0, 0) =~= Seq::<u8>::empty());
    assert(byte_texts(out@).push(cur@) =~= fields(s@.subrange(0, 0), sep));
    while i < s.len()
        invariant
            i <= s@.len(),
            byte_texts(out@).push(cur@) == fields(s@.subrange(0, i as int), sep),
        decreases s@.len() - i,
    {
        let c = s[i];
        let ghost before = byte_texts(out@).push(cur@);
        let ghost t = s@.subrange(0, i + 1);
        assert(t.subrange(0, t.len() - 1) =~= s@.subrange(0, i as int));
        if c == sep {
            out.push(cur);
            cur = Vec::new();
            assert(byte_texts(out@) =~= before);
        } else {
            let ghost old_cur = cur@;
            cur.push(c);
            assert(byte_texts(out@).push(cur@) =~= before.update(
                before.len() - 1,
                old_cur.push(c),
            ));
        }
        i += 1;
    }
    assert(s@.subrange(0, s@.len() as int) =~= s@);
    let ghost before = byte_texts(out@).push(cur@);
    out.push(cur);
    assert(byte_texts(out@) =~= before);
    out
}

/// The byte strings that a vector of vectors holds.
pub open spec fn byte_texts(v: Seq<Vec<u8>>) -> Seq<Seq<u8>> {
    Seq::new(v.len(), |i: int| v[i]@)
}

/// A line without the carriage return in front of its line feed.
pub open spec fn without_cr(s: Seq<char>) -> Seq<char> {
    if s.len() > 0 && s[s.len() - 1] == '\r' {
        s.subrange(0, s.len() - 1)
    } else {
        s
    }
}

/// The lines of a text. A final line feed starts no further line, and a
/// carriage return belongs to the line feed behind it.
pub open spec fn lines(s: Seq<char>) -> Seq<Seq<char>> {
    let f = fields(s, '\n');
    let whole = Seq::new((f.len() - 1) as nat, |i: int| without_cr(f[i]));
    let rest = f[f.len() - 1];
    if rest.len() == 0 {
        whole
    } else {
        whole.push(rest)
    }
}

/// Splits a text into its lines.
pub fn split_lines(s: &str) -> (r: Vec<String>)
    ensures
        texts(r@) == lines(s@),
{
    let f = split_char(s, '\n');
    let n = f.len();
    let ghost ff = fields(s@, '\n');
    let mut out: Vec<String> = Vec::new();
    let mut i: usize = 0;
    while i < n - 1
        invariant
            n == f@.len(),
            n >= 1,
            i <= n - 1,
            texts(f@) == ff,
            out@.len() == i,
            forall|k: int| 0 <= k < i ==> (#[trigger] out@[k])@ == without_cr(ff[k]),
        decreases n - i,
    {
        let v = chars(f[i].as_str());
        assert(ff[i as int] == f@[i as int]@);
        let m = v.len();
        let line = if m > 0 && v[m - 1] == '\r' {
            text_of(&v, 0, m - 1)
        } else {
            text_of(&v, 0, m)
        };
        assert(line@ =~= without_cr(ff[i as int]));
        out.push(line);
        i += 1;
    }
    assert(ff[n - 1] == f@[n - 1]@);
    if !f[n - 1].as_str().is_empty() {
        out.push(f[n - 1].clone());
    }
    assert(texts(out@) =~= lines(s@));
    out
}

/// The pieces of `s` between runs of two spaces, taken from the left.
pub open spec fn wide_fields(s: Seq<char>) -> Seq<Seq<char>>
    decreases s.len(),
{
    if s.len() == 0 {
        seq![Seq::empty()]
    } else if s.len() >= 2 && s[0] == ' ' && s[1] == ' ' {
        seq![Seq::<char>::empty()] + wide_fields(s.subrange(2, s.len() as int))
    } else {
        let r = wide_fields(s.subrange(1, s.len() as int));
        r.update(0, seq![s[0]] + r[0])
    }
}

/// Pieces found so far, the piece being read, and the pieces of what follows.
spec fn glued(done: Seq<Seq<char>>, cur: Seq<char>, rest: Seq<Seq<char>>) -> Seq<Seq<char>> {
    done + rest.update(0, cur + rest[0])
}

proof fn lemma_wide_fields_nonempty(s: Seq<char>)
    ensures
        wide_fields(s).len() >= 1,
    decreases s.len(),
{
    if s.len() == 0 {
    } else if s.len() >= 2 && s[0] == ' ' && s[1] == ' ' {
    } else {
        lemma_wide_fields_nonempty(s.subrange(1, s.len() as int));
    }
}

/// Splits text at every pair of spaces.
pub fn split_wide(s: &str) -> (r: Vec<String>)
    ensures
        texts(r@) == wide_fields(s@),
{
    let v = chars(s);
    let n = v.len();
    let mut out: Vec<String> = Vec::new();
    let mut cur = String::new();
    let mut i: usize = 0;
    proof {
        assert(s@.subrange(0, n as int) =~= s@);
        lemma_wide_fields_nonempty(s@);
        let w = wide_fields(s@);
        assert(cur@ + w[0] =~= w[0]);
        assert(glued(texts(out@), cur@, w) =~= w);
    }
    while i < n
        invariant
            n == v@.len(),
            v@ == s@,
            i <= n,
            glued(texts(out@), cur@, wide_fields(s@.subrange(i as int, n as int))) == wide_fields(
                s@,
            ),
        decreases n - i,
    {
        let ghost rest = s@.subrange(i as int, n as int);
        let ghost done = texts(out@);
        let ghost cur0 = cur@;
        if n - i >= 2 && v[i] == ' ' && v[i + 1] == ' ' {
            out.push(cur);
            cur = String::new();
            proof {
                assert(rest[0] == ' ' && rest[1] == ' ');
                assert(rest.subrange(2, rest.len() as int) =~= s@.subrange(i + 2, n as int));
                let w = wide_fields(s@.subrange(i + 2, n as int));
                lemma_wide_fields_nonempty(s@.subrange(i + 2, n as int));
                assert(texts(out@) =~= done.push(cur0));
                assert(cur@ + w[0] =~= w[0]);
                assert(cur0 + Seq::<char>::empty() =~= cur0);
                assert(glued(texts(out@), cur@, w) =~= glued(
                    done,
                    cur0,
                    seq![Seq::<char>::empty()] + w,
                ));
            }
            i += 2;
        } else {
            let c = v[i];
            cur.push(c);
            proof {
                assert(rest[0] == c);
                if rest.len() >= 2 {
                    assert(rest[1] == v@[i + 1]);
                }
                assert(rest.subrange(1, rest.len() as int) =~= s@.subrange(i + 1, n as int));
                let w = wide_fields(s@.subrange(i + 1, n as int));
                lemma_wide_fields_nonempty(s@.subrange(i + 1, n as int));
                assert(cur@ + w[0] =~= cur0 + (seq![c] + w[0]));
                assert(glued(done, cur@, w) =~= glued(
                    done,
                    cur0,
                    w.update(0, seq![c] + w[0]),
                ));
            }
            i += 1;
        }
    }
    proof {
        assert(s@.subrange(n as int, n as int) =~= Seq::<char>::empty());
        assert(cur@ + Seq::<char>::empty() =~= cur@);
    }
    let ghost done = texts(out@);
    let ghost cur0 = cur@;
    out.push(cur);
    assert(texts(out@) =~= glued(done, cur0, seq![Seq::empty()]));
    out
}

/// Whether `part` occurs somewhere in `s`.
pub open spec fn occurs_in(part: Seq<char>, s: Seq<char>) -> bool {
    exists|i: int|
        0 <= i && i + part.len() <= s.len() && #[trigger] s.subrange(i, i + part.len()) == part
}

/// Whether `part` stands in `v` at position `at`.
fn matches_at(v: &Vec<char>, part: &Vec<char>, at: usize) -> (r: bool)
    requires
        at + part@.len() <= v@.len(),
    ensures
        r == (v@.subrange(at as int, at + part@.len()) == part@),
{
    let n = v.len();
    let mut k: usize = 0;
    while k < part.len()
        invariant
            n == v@.len(),
            at + part@.len() <= n,
            k <= part@.len(),
            forall|j: int| 0 <= j < k ==> v@[at + j] == #[trigger] part@[j],
        decreases part@.len() - k,
    {
        if v[at + k] != part[k] {
            assert(v@.subrange(at as int, at + part@.len())[k as int] != part@[k as int]);
            return false;
        }
        k += 1;
    }
    assert(v@.subrange(at as int, at + part@.len()) =~= part@);
    true
}

/// Whether the text holds `part`.
pub fn contains(s: &str, part: &str) -> (r: bool)
    ensures
        r == occurs_in(part@, s@),
{
    let v = chars(s);
    let p = chars(part);
    if p.len() > v.len() {
        return false;
    }
    let last = v.len() - p.len();
    let mut i: usize = 0;
    while i <= last
        invariant
            v@ == s@,
            p@ == part@,
            last + p@.len() == v@.len(),
            i <= last + 1,
            forall|j: int| 0 <= j < i ==> #[trigger] s@.subrange(j, j + part@.len()) != part@,
        decreases last + 1 - i,
    {
        if matches_at(&v, &p, i) {
            return true;
        }
        if i == last {
            return false;
        }
        i += 1;
    }
    false
}

/// Whether `s` begins with `part`.
pub open spec fn begins_with(s: Seq<char>, part: Seq<char>) -> bool {
    part.len() <= s.len() && s.subrange(0, part.len() as int) == part
}

/// Whether `s` ends with `part`.
pub open spec fn finishes_with(s: Seq<char>, part: Seq<char>) -> bool {
    part.len() <= s.len() && s.subrange(s.len() - part.len(), s.len() as int) == part
}

/// Whether the text begins with `part`.
pub fn starts_with(s: &str, part: &str) -> (r: bool)
    ensures
        r == begins_with(s@, part@),
{
    let v = chars(s);
    let p = chars(part);
    p.len() <= v.len() && matches_at(&v, &p, 0)
}

/// Whether the text ends with `part`.
pub fn ends_with(s: &str, part: &str) -> (r: bool)
    ensures
        r == finishes_with(s@, part@),
{
    let v = chars(s);
    let p = chars(part);
    p.len() <= v.len() && matches_at(&v, &p, v.len() - p.len())
}

/// The pieces with the separator between them.
pub open spec fn joined(parts: Seq<Seq<char>>, sep: Seq<char>) -> Seq<char>
    decreases parts.len(),
{
    if parts.len() == 0 {
        Seq::empty()
    } else if parts.len() == 1 {
        parts[0]
    } else {
        joined(parts.subrange(0, parts.len() - 1), sep) + sep + parts[parts.len() - 1]
    }
}

/// Joins strings with a separator between them.
pub fn join(parts: &Vec<String>, sep: &str) -> (r: String)
    ensures
        r@ == joined(texts(parts@), sep@),
{
    let mut r = String::new();
    let mut i: usize = 0;
    while i < parts.len()
        invariant
            i <= parts@.len(),
            r@ == joined(texts(parts@).subrange(0, i as int), sep@),
        decreases parts@.len() - i,
    {
        let ghost t = texts(parts@).subrange(0, i + 1);
        assert(t.subrange(0, t.len() - 1) =~= texts(parts@).subrange(0, i as int));
        if i > 0 {
            r.append(sep);
        }
        r.append(parts[i].as_str());
        assert(r@ =~= joined(t, sep@));
        i += 1;
    }
    assert(texts(parts@).subrange(0, parts@.len() as int) =~= texts(parts@));
    r
}

/// Whether `a` stands before `b` in the order of their characters.
pub open spec fn before(a: Seq<char>, b: Seq<char>) -> bool
    decreases a.len(),
{
    if b.len() == 0 {
        false
    } else if a.len() == 0 {
        true
    } else if a[0] != b[0] {
        a[0] < b[0]
    } else {
        before(a.subrange(1, a.len() as int), b.subrange(1, b.len() as int))
    }
}

/// The order of texts is strict.
pub proof fn lemma_before_strict(a: Seq<char>, b: Seq<char>)
    ensures
        !before(a, a),
        before(a, b) ==> !before(b, a),
        before(a, b) ==> a != b,
    decreases a.len(),
{
    if a.len() > 0 {
        let x = a.subrange(1, a.len() as int);
        lemma_before_strict(x, x);
        if b.len() > 0 && a[0] == b[0] {
            lemma_before_strict(x, b.subrange(1, b.len() as int));
        }
    }
}

/// Any two texts are equal or in order one way round.
pub proof fn lemma_before_total(a: Seq<char>, b: Seq<char>)
    ensures
        before(a, b) || before(b, a) || a == b,
    decreases a.len(),
{
    if a.len() > 0 && b.len() > 0 && a[0] == b[0] {
        let x = a.subrange(1, a.len() as int);
        let y = b.subrange(1, b.len() as int);
        lemma_before_total(x, y);
        if x == y {
            assert(a =~= seq![a[0]] + x);
            assert(b =~= seq![b[0]] + y);
        }
    } else if a.len() == 0 && b.len() == 0 {
        assert(a =~= b);
    }
}

/// The order of texts is transitive.
pub proof fn lemma_before_transitive(a: Seq<char>, b: Seq<char>, c: Seq<char>)
    requires
        before(a, b),
        before(b, c),
    ensures
        before(a, c),
    decreases a.len(),
{
    if a.len() > 0 && a[0] == b[0] && b[0] == c[0] {
        lemma_before_transitive(
            a.subrange(1, a.len() as int),
            b.subrange(1, b.len() as int),
            c.subrange(1, c.len() as int),
        );
    }
}

/// Whether `a` comes before `b`.
pub fn comes_before(a: &str, b: &str) -> (r: bool)
    ensures
        r == before(a@, b@),
{
    let x = chars(a);
    let y = chars(b);
    let mut i: usize = 0;
    assert(a@.subrange(0, x@.len() as int) =~= a@);
    assert(b@.subrange(0, y@.len() as int) =~= b@);
    while i < x.len() && i < y.len() && x[i] == y[i]
        invariant
            x@ == a@,
            y@ == b@,
            i <= x@.len(),
            i <= y@.len(),
            before(a@, b@) == before(
                a@.subrange(i as int, x@.len() as int),
                b@.subrange(i as int, y@.len() as int),
            ),
        decreases x@.len() - i,
    {
        proof {
            let p = a@.subrange(i as int, x@.len() as int);
            let q = b@.subrange(i as int, y@.len() as int);
            assert(p.subrange(1, p.len() as int) =~= a@.subrange(i + 1, x@.len() as int));
            assert(q.subrange(1, q.len() as int) =~= b@.subrange(i + 1, y@.len() as int));
        }
        i += 1;
    }
    if i >= y.len() {
        false
    } else if i >= x.len() {
        true
    } else {
        x[i] < y[i]
    }
}

/// The words of a text: its longest runs without white space.
pub open spec fn words(s: Seq<char>) -> Seq<Seq<char>>
    decreases s.len(),
{
    if s.len() == 0 {
        Seq::empty()
    } else {
        let earlier = words(s.drop_last());
        let c = s.last();
        if is_space(c) {
            earlier
        } else if s.len() == 1 || is_space(s[s.len() - 2]) {
            earlier.push(seq![c])
        } else {
            earlier.drop_last().push(earlier.last().push(c))
        }
    }
}

/// Splits a text into its words.
pub fn split_words(s: &str) -> (r: Vec<String>)
    ensures
        texts(r@) == words(s@),
{
    let v = chars(s);
    let n = v.len();
    let mut done: Vec<String> = Vec::new();
    let mut open: Option<String> = None;
    let mut i: usize = 0;
    proof {
        assert(texts(done@) =~= Seq::<Seq<char>>::empty());
        assert(v@.subrange(0, 0) =~= Seq::<char>::empty());
    }
    while i < n
        invariant
            i <= n,
            n == v@.len(),
            v@ == s@,
            open is Some <==> i > 0 && !is_space(v@[i - 1]),
            match open {
                Some(w) => words(v@.subrange(0, i as int)) == texts(done@).push(w@),
                None => words(v@.subrange(0, i as int)) == texts(done@),
            },
        decreases n - i,
    {
        let ghost before_it = v@.subrange(0, i as int);
        let ghost with_it = v@.subrange(0, i + 1);
        proof {
            assert(with_it.drop_last() =~= before_it);
            assert(with_it.last() == v@[i as int]);
            if i > 0 {
                assert(with_it[with_it.len() - 2] == v@[i - 1]);
            }
        }
        let c = v[i];
        let ghost finished = texts(done@);
        if space(c) {
            match open {
                Some(w) => {
                    done.push(w);
                    assert(texts(done@) =~= finished.push(w@));
                },
                None => {},
            }
            open = None;
        } else {
            match open {
                Some(mut w) => {
                    let ghost earlier = w@;
                    w.push(c);
                    proof {
                        let ws = finished.push(earlier);
                        assert(ws.drop_last() =~= finished);
                        assert(ws.last() == earlier);
                    }
                    open = Some(w);
                },
                None => {
                    let mut w = String::new();
                    w.push(c);
                    assert(w@ =~= seq![c]);
                    open = Some(w);
                },
            }
        }
        i += 1;
    }
    assert(v@.subrange(0, n as int) =~= s@);
    match open {
        Some(w) => {
            let ghost finished = texts(done@);
            done.push(w);
            assert(texts(done@) =~= finished.push(w@));
        },
        None => {},
    }
    done
}

/// A path with another added behind it; an absolute one takes its place.
pub open spec fn path_joined(dir: Seq<char>, name: Seq<char>) -> Seq<char> {
    if name.len() > 0 && name[0] == '/' {
        name
    } else if dir.len() == 0 || dir.last() == '/' {
        dir + name
    } else {
        dir + "/"@ + name
    }
}

/// Adds a path behind another.
pub fn join_path(dir: &str, name: &str) -> (r: String)
    ensures
        r@ == path_joined(dir@, name@),
{
    let w = chars(name);
    if w.len() > 0 && w[0] == '/' {
        return name.to_owned();
    }
    let v = chars(dir);
    let n = v.len();
    let mut s = dir.to_owned();
    if n > 0 && v[n - 1] != '/' {
        s.append("/");
    }
    s.append(name);
    s
}

/// A number that is written in decimal is read as the same number: what is written
/// is digits only, and no two numbers are written alike.
pub proof fn decimal_is_read_back(n: nat)
    ensures
        decimal(n).len() > 0,
        all_digits(decimal(n)),
        digits_value(decimal(n)) == n,
        number(decimal(n)) == Some(n),
    decreases n,
{
    let s = decimal(n);
    if n < 10 {
        assert(s.subrange(0, 0).len() == 0);
        assert(digits_value(s.subrange(0, 0)) == 0);
        assert(s[0] as int == 48 + n);
        assert(digits_value(s) == digit_value(s[0]));
    } else {
        decimal_is_read_back(n / 10);
        let before = decimal(n / 10);
        assert(s.subrange(0, s.len() - 1) =~= before);
        assert(s.last() as int == 48 + n % 10);
        assert(digits_value(s) == (n / 10) * 10 + n % 10);
        assert forall|i: int| 0 <= i < s.len() implies is_digit(#[trigger] s[i]) by {
            if i < s.len() - 1 {
                assert(s[i] == before[i]);
            }
        }
    }
    assert(is_digit(s[0]));
    assert(number_body(s) == s);
}

/// A number without leading zeros is written as it was read.
pub proof fn decimal_has_no_leading_zero(n: nat)
    ensures
        n > 0 ==> decimal(n)[0] != '0',
        n == 0 ==> decimal(n) == seq!['0'],
    decreases n,
{
    if n >= 10 {
        decimal_has_no_leading_zero(n / 10);
        decimal_is_read_back(n / 10);
    } else {
        assert(decimal(n)[0] as int == 48 + n);
    }
}

/// A line of digits is trimmed of its end only.
pub proof fn line_of_digits_is_trimmed(s: Seq<char>)
    requires
        s.len() > 0,
        all_digits(s),
    ensures
        trimmed(s + "\n"@) == s,
        trimmed(s) == s,
{
    reveal_strlit("\n");
    let line = s + "\n"@;
    assert(line[0] == s[0]);
    assert(is_digit(s[0]) && is_digit(s[s.len() - 1]));
    assert(trim_front(line, false) == line);
    assert(trim_front(s, false) == s);
    assert(line[line.len() - 1] == '\n');
    assert(line.subrange(0, line.len() - 1) =~= s);
    assert(trim_back(s, false) == s);
    assert(trim_back(line, false) == trim_back(s, false));
}

proof fn lemma_trim_front(s: Seq<char>, dashes: bool)
    ensures
        exists|i: int|
            0 <= i <= s.len() && trim_front(s, dashes) == #[trigger] s.subrange(i, s.len() as int)
                && forall|j: int| 0 <= j < i ==> trimmable(#[trigger] s[j], dashes),
        trim_front(s, dashes).len() > 0 ==> !trimmable(trim_front(s, dashes)[0], dashes),
    decreases s.len(),
{
    if s.len() > 0 && trimmable(s[0], dashes) {
        let rest = s.subrange(1, s.len() as int);
        lemma_trim_front(rest, dashes);
        let i = choose|i: int|
            0 <= i <= rest.len() && trim_front(rest, dashes) == #[trigger] rest.subrange(
                i,
                rest.len() as int,
            ) && forall|j: int| 0 <= j < i ==> trimmable(#[trigger] rest[j], dashes);
        assert(rest.subrange(i, rest.len() as int) =~= s.subrange(i + 1, s.len() as int));
        assert forall|j: int| 0 <= j < i + 1 implies trimmable(#[trigger] s[j], dashes) by {
            if j > 0 {
                assert(s[j] == rest[j - 1]);
            }
        }
    } else {
        assert(s.subrange(0, s.len() as int) =~= s);
    }
}

proof fn lemma_trim_back(s: Seq<char>, dashes: bool)
    ensures
        exists|k: int|
            0 <= k <= s.len() && trim_back(s, dashes) == #[trigger] s.subrange(0, k) && forall|
                j: int,
            |
                k <= j < s.len() ==> trimmable(#[trigger] s[j], dashes),
        trim_back(s, dashes).len() > 0 ==> !trimmable(trim_back(s, dashes).last(), dashes),
    decreases s.len(),
{
    if s.len() > 0 && trimmable(s[s.len() - 1], dashes) {
        let rest = s.subrange(0, s.len() - 1);
        lemma_trim_back(rest, dashes);
        let k = choose|k: int|
            0 <= k <= rest.len() && trim_back(rest, dashes) == #[trigger] rest.subrange(0, k)
                && forall|j: int| k <= j < rest.len() ==> trimmable(#[trigger] rest[j], dashes);
        assert(rest.subrange(0, k) =~= s.subrange(0, k));
        assert forall|j: int| k <= j < s.len() implies trimmable(#[trigger] s[j], dashes) by {
            if j < rest.len() {
                assert(s[j] == rest[j]);
            }
        }
    } else {
        assert(s.subrange(0, s.len() as int) =~= s);
    }
}

/// Trimming takes off what is white space, and nothing else: a middle part is left
/// that neither begins nor ends with white space.
pub proof fn only_space_is_trimmed(s: Seq<char>)
    ensures
        exists|i: int, k: int|
            0 <= i <= k <= s.len() && trimmed(s) == #[trigger] s.subrange(i, k) && (forall|j: int|
                0 <= j < i || k <= j < s.len() ==> is_space(#[trigger] s[j])),
        trimmed(s).len() > 0 ==> !is_space(trimmed(s)[0]) && !is_space(trimmed(s).last()),
{
    let front = trim_front(s, false);
    lemma_trim_front(s, false);
    lemma_trim_back(front, false);
    let i = choose|i: int|
        0 <= i <= s.len() && front == #[trigger] s.subrange(i, s.len() as int) && forall|j: int|
            0 <= j < i ==> trimmable(#[trigger] s[j], false);
    let k = choose|k: int|
        0 <= k <= front.len() && trim_back(front, false) == #[trigger] front.subrange(0, k)
            && forall|j: int| k <= j < front.len() ==> trimmable(#[trigger] front[j], false);
    assert(front.subrange(0, k) =~= s.subrange(i, i + k));
    assert forall|j: int| 0 <= j < i || i + k <= j < s.len() implies is_space(#[trigger] s[j]) by {
        if j >= i + k {
            assert(s[j] == front[j - i]);
        } else {
            assert(trimmable(s[j], false));
        }
    }
}

/// A name is put behind a directory with one slash between them.
pub proof fn path_has_one_slash(dir: Seq<char>, name: Seq<char>)
    requires
        name.len() > 0 ==> name[0] != '/',
        dir.len() > 0,
    ensures
        dir.last() != '/' ==> path_joined(dir, name) == dir + seq!['/'] + name,
        dir.last() == '/' ==> path_joined(dir, name) == dir + name,
{
    reveal_strlit("/");
    assert("/"@ =~= seq!['/']);
}

/// Splitting a text at a separator and joining the pieces with it again gives the
/// text back, and no piece holds the separator.
pub proof fn fields_join_back(s: Seq<char>, sep: char)
    ensures
        joined(fields(s, sep), seq![sep]) == s,
        forall|i: int|
            0 <= i < fields(s, sep).len() ==> !(#[trigger] fields(s, sep)[i]).contains(sep),
    decreases s.len(),
{
    let f = fields(s, sep);
    if s.len() == 0 {
        assert(f[0] =~= s);
    } else {
        let front = s.subrange(0, s.len() - 1);
        let c = s[s.len() - 1];
        let r = fields(front, sep);
        fields_join_back(front, sep);
        lemma_fields_nonempty(front, sep);
        if c == sep {
            assert(f.subrange(0, f.len() - 1) =~= r);
            assert(joined(f, seq![sep]) == front + seq![sep] + Seq::empty());
            assert(front + seq![sep] + Seq::empty() =~= s);
        } else {
            let n = r.len() - 1;
            assert(f.subrange(0, n) =~= r.subrange(0, n));
            if n == 0 {
                assert(joined(f, seq![sep]) == front.push(c));
            } else {
                let head = joined(r.subrange(0, n), seq![sep]) + seq![sep];
                assert(head + r[n].push(c) =~= (head + r[n]).push(c));
            }
            assert(front.push(c) =~= s);
            assert forall|i: int| 0 <= i < f.len() implies !(#[trigger] f[i]).contains(sep) by {
                if i == n {
                    if f[i].contains(sep) {
                        let k = choose|k: int| 0 <= k < f[i].len() && f[i][k] == sep;
                        assert(k < r[n].len());
                        assert(r[n][k] == sep);
                        assert(r[n].contains(sep));
                    }
                } else {
                    assert(f[i] == r[i]);
                }
            }
        }
    }
}

/// Of two texts with a common beginning, the one whose next character is smaller
/// stands before the other, and one that ends there stands before one that goes on.
pub proof fn first_difference_decides(
    common: Seq<char>,
    a: char,
    b: char,
    rest: Seq<char>,
    other: Seq<char>,
)
    ensures
        a < b ==> before(common + (seq![a] + rest), common + (seq![b] + other)),
        a > b ==> !before(common + (seq![a] + rest), common + (seq![b] + other)),
        before(common, common + (seq![b] + other)),
        !before(common + (seq![a] + rest), common),
    decreases common.len(),
{
    let x = common + (seq![a] + rest);
    let y = common + (seq![b] + other);
    if common.len() > 0 {
        let inner = common.subrange(1, common.len() as int);
        first_difference_decides(inner, a, b, rest, other);
        assert(x.subrange(1, x.len() as int) =~= inner + (seq![a] + rest));
        assert(y.subrange(1, y.len() as int) =~= inner + (seq![b] + other));
        assert(x[0] == common[0] && y[0] == common[0]);
    } else {
        assert(x[0] == a && y[0] == b);
    }
}

/// Lower case changes the letters from A to Z, and nothing else.
pub proof fn only_capitals_are_lowered(s: Seq<char>, i: int)
    requires
        0 <= i < s.len(),
    ensures
        lower(s).len() == s.len(),
        'A' <= s[i] <= 'Z' ==> lower(s)[i] as int == s[i] as int + 32,
        !('A' <= s[i] <= 'Z') ==> lower(s)[i] == s[i],
        lower(lower(s)) == lower(s),
{
    assert forall|k: int| 0 <= k < s.len() implies ascii_lower(ascii_lower(#[trigger] s[k]))
        == ascii_lower(s[k]) by {}
    assert(lower(lower(s)) =~= lower(s));
}

/// A text without white space.
pub open spec fn no_space(s: Seq<char>) -> bool {
    forall|i: int| 0 <= i < s.len() ==> !is_space(#[trigger] s[i])
}

/// The characters of a text that are no white space, in their order.
pub open spec fn without_space(s: Seq<char>) -> Seq<char>
    decreases s.len(),
{
    if s.len() == 0 {
        Seq::empty()
    } else if is_space(s.last()) {
        without_space(s.drop_last())
    } else {
        without_space(s.drop_last()).push(s.last())
    }
}

/// The words of a text hold all of its characters but the white space, in their
/// order; no word is empty, and none has white space in it.
pub proof fn words_hold_all_but_space(s: Seq<char>)
    ensures
        joined(words(s), Seq::empty()) == without_space(s),
        forall|i: int|
            0 <= i < words(s).len() ==> (#[trigger] words(s)[i]).len() > 0 && no_space(words(s)[i]),
        s.len() > 0 && !is_space(s.last()) ==> words(s).len() > 0,
    decreases s.len(),
{
    let none = Seq::<char>::empty();
    let w = words(s);
    if s.len() > 0 {
        let front = s.drop_last();
        let earlier = words(front);
        words_hold_all_but_space(front);
        let c = s.last();
        if is_space(c) {
        } else if s.len() == 1 || is_space(s[s.len() - 2]) {
            assert(w.subrange(0, w.len() - 1) =~= earlier);
            if earlier.len() == 0 {
                assert(w =~= seq![seq![c]]);
                assert(joined(earlier, none) =~= none);
                assert(joined(w, none) =~= without_space(s));
            } else {
                assert(joined(w, none) =~= joined(earlier, none) + none + seq![c]);
                assert(joined(w, none) =~= without_space(s));
            }
            assert(no_space(seq![c]));
        } else {
            assert(front.last() == s[s.len() - 2]);
            let last = earlier.last();
            let head = earlier.drop_last();
            assert(w == head.push(last.push(c)));
            assert(w.subrange(0, w.len() - 1) =~= head);
            assert(earlier.subrange(0, earlier.len() - 1) =~= head);
            if head.len() == 0 {
                assert(joined(w, none) =~= without_space(s));
            } else {
                assert(joined(earlier, none) =~= joined(head, none) + none + last);
                assert(joined(w, none) =~= joined(head, none) + none + last.push(c));
                assert(joined(w, none) =~= without_space(s));
            }
            assert forall|i: int| 0 <= i < w.len() implies (#[trigger] w[i]).len() > 0 && no_space(
                w[i],
            ) by {
                if i < head.len() {
                    assert(w[i] == earlier[i]);
                } else {
                    assert(earlier[earlier.len() - 1] == last);
                    assert(no_space(last));
                }
            }
        }
    }
}

/// A text without two spaces in a row.
pub open spec fn single_spaced(s: Seq<char>) -> bool {
    forall|i: int, j: int|
        0 <= i && j == i + 1 && j < s.len() ==> !(#[trigger] s[i] == ' ' && #[trigger] s[j] == ' ')
}

/// A text without two spaces in a row is one piece.
pub proof fn single_spaced_is_one_field(s: Seq<char>)
    requires
        single_spaced(s),
    ensures
        wide_fields(s) == seq![s],
    decreases s.len(),
{
    if s.len() == 0 {
        assert(s =~= Seq::empty());
    } else {
        let rest = s.subrange(1, s.len() as int);
        assert forall|i: int, j: int| 0 <= i && j == i + 1 && j < rest.len() implies !(
        #[trigger] rest[i] == ' ' && #[trigger] rest[j] == ' ') by {
            assert(rest[i] == s[i + 1] && rest[j] == s[j + 1]);
        }
        single_spaced_is_one_field(rest);
        assert(s.len() >= 2 ==> !(s[0] == ' ' && s[1] == ' '));
        assert(seq![s[0]] + rest =~= s);
        assert(wide_fields(s) =~= seq![s]);
    }
}

proof fn lemma_field_before(a: Seq<char>, r: Seq<char>)
    requires
        single_spaced(a),
        a.len() > 0 ==> a.last() != ' ',
    ensures
        wide_fields(a + r) == wide_fields(r).update(0, a + wide_fields(r)[0]),
    decreases a.len(),
{
    let f = wide_fields(r);
    lemma_wide_fields_nonempty(r);
    if a.len() == 0 {
        assert(a + r =~= r);
        assert(a + f[0] =~= f[0]);
        assert(f.update(0, a + f[0]) =~= f);
    } else {
        let rest = a.subrange(1, a.len() as int);
        assert forall|i: int, j: int| 0 <= i && j == i + 1 && j < rest.len() implies !(
        #[trigger] rest[i] == ' ' && #[trigger] rest[j] == ' ') by {
            assert(rest[i] == a[i + 1] && rest[j] == a[j + 1]);
        }
        lemma_field_before(rest, r);
        let s = a + r;
        assert(s.subrange(1, s.len() as int) =~= rest + r);
        if a.len() >= 2 {
            assert(s[1] == a[1]);
            assert(!(a[0] == ' ' && a[1] == ' '));
        }
        assert(s[0] == a[0]);
        assert(seq![a[0]] + (rest + f[0]) =~= a + f[0]);
        assert(wide_fields(s) =~= f.update(0, a + f[0]));
    }
}

/// Two texts with four spaces between them, neither with two spaces in a row, are
/// split into the two, with nothing between them.
pub proof fn wide_gap_splits(a: Seq<char>, b: Seq<char>)
    requires
        single_spaced(a),
        single_spaced(b),
        a.len() > 0,
        a.last() != ' ',
    ensures
        wide_fields(a + seq![' ', ' ', ' ', ' '] + b) == seq![a, Seq::empty(), b],
{
    let gap = seq![' ', ' ', ' ', ' '];
    let r = gap + b;
    let two = seq![' ', ' '] + b;
    single_spaced_is_one_field(b);
    assert(two.subrange(2, two.len() as int) =~= b);
    assert(r.subrange(2, r.len() as int) =~= two);
    assert(wide_fields(two) =~= seq![Seq::empty(), b]);
    assert(wide_fields(r) =~= seq![Seq::empty(), Seq::empty(), b]);
    lemma_field_before(a, r);
    assert(a + gap + b =~= a + r);
    assert(a + Seq::<char>::empty() =~= a);
    assert(wide_fields(r).update(0, a + wide_fields(r)[0]) =~= seq![a, Seq::empty(), b]);
}

/// Of the first 128 characters, white space is the blank and what moves on in a
/// line, to a line or to a page, and nothing else.
pub proof fn white_space_is_blank(c: char)
    requires
        (c as int) < 128,
    ensures
        is_space(c) <==> c == ' ' || c == '\t' || c == '\n' || c == '\u{b}' || c == '\u{c}' || c
            == '\r',
{
}

} // verus!
