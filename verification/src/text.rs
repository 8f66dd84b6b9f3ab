use vstd::prelude::*;
use vstd::std_specs::iter::IteratorSpec;
use vstd::string::{StrSliceExecFns, StringExecFns};
use vstd::string::StringSliceAdditionalSpecFns;
use vstd::utf8::encode_utf8_decode_utf8;

verus! {

/// Two texts with the same UTF-8 encoding hold the same characters.
pub proof fn lemma_same_bytes_same_chars(a: Seq<char>, b: Seq<char>)
    requires
        vstd::utf8::encode_utf8(a) == vstd::utf8::encode_utf8(b),
    ensures
        a == b,
{
    encode_utf8_decode_utf8(a);
    encode_utf8_decode_utf8(b);
}

/// Whether two string slices hold the same characters.
pub fn str_eq(a: &str, b: &str) -> (r: bool)
    ensures
        r == (a@ == b@),
{
    let x = a.as_bytes();
    let y = b.as_bytes();
    if x.len() != y.len() {
        return false;
    }
    let mut i: usize = 0;
    while i < x.len()
        invariant
            x@ == a.spec_bytes(),
            y@ == b.spec_bytes(),
            x.len() == y.len(),
            i <= x.len(),
            forall|j: int| 0 <= j < i ==> x@[j] == y@[j],
        decreases x.len() - i,
    {
        if x[i] != y[i] {
            return false;
        }
        i += 1;
    }
    proof {
        assert(x@ =~= y@);
        lemma_same_bytes_same_chars(a@, b@);
    }
    true
}

/// The character that stands for a digit.
pub open spec fn digit(d: nat) -> char {
    seq!['0', '1', '2', '3', '4', '5', '6', '7', '8', '9'][d as int]
}

/// A number in decimal, without leading zeros.
pub open spec fn decimal(n: nat) -> Seq<char>
    decreases n,
{
    if n < 10 {
        seq![digit(n)]
    } else {
        decimal(n / 10).push(digit(n % 10))
    }
}

fn digit_str(d: usize) -> (r: &'static str)
    requires
        d < 10,
    ensures
        r@ == seq![digit(d as nat)],
{
    proof {
        reveal_strlit("0");
        reveal_strlit("1");
        reveal_strlit("2");
        reveal_strlit("3");
        reveal_strlit("4");
        reveal_strlit("5");
        reveal_strlit("6");
        reveal_strlit("7");
        reveal_strlit("8");
        reveal_strlit("9");
    }
    let r = if d == 0 {
        "0"
    } else if d == 1 {
        "1"
    } else if d == 2 {
        "2"
    } else if d == 3 {
        "3"
    } else if d == 4 {
        "4"
    } else if d == 5 {
        "5"
    } else if d == 6 {
        "6"
    } else if d == 7 {
        "7"
    } else if d == 8 {
        "8"
    } else {
        "9"
    };
    assert(r@ =~= seq![digit(d as nat)]);
    r
}

/// Writes a number in decimal.
pub fn decimal_string(n: usize) -> (r: String)
    ensures
        r@ == decimal(n as nat),
    decreases n,
{
    if n < 10 {
        String::from_str(digit_str(n))
    } else {
        let mut s = decimal_string(n / 10);
        s.append(digit_str(n % 10));
        assert(s@ =~= decimal((n / 10) as nat).push(digit((n % 10) as nat)));
        s
    }
}

/// What is left of `text` when `pat` has been taken from its start as often as
/// it stands there.
pub open spec fn without_leading(text: Seq<char>, pat: Seq<char>) -> Seq<char>
    decreases text.len(),
{
    if pat.len() > 0 && pat.len() <= text.len() && text.take(pat.len() as int) == pat {
        without_leading(text.skip(pat.len() as int), pat)
    } else {
        text
    }
}

/// White space: the characters with the Unicode property `White_Space`.
pub open spec fn is_whitespace(c: char) -> bool {
    let u = c as u32;
    (0x09 <= u <= 0x0D) || u == 0x20 || u == 0x85 || u == 0xA0 || u == 0x1680 || (0x2000 <= u
        <= 0x200A) || u == 0x2028 || u == 0x2029 || u == 0x202F || u == 0x205F || u == 0x3000
}

/// `text` without the white space at its start.
pub open spec fn trimmed_start(text: Seq<char>) -> Seq<char>
    decreases text.len(),
{
    if text.len() > 0 && is_whitespace(text[0]) {
        trimmed_start(text.drop_first())
    } else {
        text
    }
}

/// `text` without the white space at its end.
pub open spec fn trimmed_end(text: Seq<char>) -> Seq<char>
    decreases text.len(),
{
    if text.len() > 0 && is_whitespace(text.last()) {
        trimmed_end(text.drop_last())
    } else {
        text
    }
}

/// `text` without the white space at its start and at its end.
pub open spec fn trimmed(text: Seq<char>) -> Seq<char> {
    trimmed_end(trimmed_start(text))
}

/// What [`trimmed_start`] leaves is the end of the text from some place on;
/// all before that place is white space, and what is left does not begin with
/// white space.
pub proof fn lemma_trimmed_start(text: Seq<char>)
    ensures
        exists|i: int|
            0 <= i <= text.len() && #[trigger] text.skip(i) == trimmed_start(text) && (forall|
                k: int,
            |
                0 <= k < i ==> is_whitespace(#[trigger] text[k])) && (i < text.len()
                ==> !is_whitespace(text[i])),
    decreases text.len(),
{
    if text.len() > 0 && is_whitespace(text[0]) {
        let rest = text.drop_first();
        lemma_trimmed_start(rest);
        let i = choose|i: int|
            0 <= i <= rest.len() && #[trigger] rest.skip(i) == trimmed_start(rest) && (forall|
                k: int,
            |
                0 <= k < i ==> is_whitespace(#[trigger] rest[k])) && (i < rest.len()
                ==> !is_whitespace(rest[i]));
        assert(text.skip(i + 1) =~= rest.skip(i));
        assert forall|k: int| 0 <= k < i + 1 implies is_whitespace(#[trigger] text[k]) by {
            if k > 0 {
                assert(text[k] == rest[k - 1]);
            }
        }
        if i + 1 < text.len() {
            assert(text[i + 1] == rest[i]);
        }
    } else {
        assert(text.skip(0) =~= text);
    }
}

/// What [`trimmed_end`] leaves is the start of the text up to some place; all
/// from that place on is white space, and what is left does not end with white
/// space.
pub proof fn lemma_trimmed_end(text: Seq<char>)
    ensures
        exists|j: int|
            0 <= j <= text.len() && #[trigger] text.take(j) == trimmed_end(text) && (forall|
                k: int,
            |
                j <= k < text.len() ==> is_whitespace(#[trigger] text[k])) && (0 < j
                ==> !is_whitespace(text[j - 1])),
    decreases text.len(),
{
    if text.len() > 0 && is_whitespace(text.last()) {
        let init = text.drop_last();
        lemma_trimmed_end(init);
        let j = choose|j: int|
            0 <= j <= init.len() && #[trigger] init.take(j) == trimmed_end(init) && (forall|
                k: int,
            |
                j <= k < init.len() ==> is_whitespace(#[trigger] init[k])) && (0 < j
                ==> !is_whitespace(init[j - 1]));
        assert(text.take(j) =~= init.take(j));
        assert forall|k: int| j <= k < text.len() implies is_whitespace(#[trigger] text[k]) by {
            if k < init.len() {
                assert(text[k] == init[k]);
            }
        }
        if 0 < j {
            assert(text[j - 1] == init[j - 1]);
        }
    } else {
        assert(text.take(text.len() as int) =~= text);
    }
}

/// `text` with `to` put between its characters, before the first and behind
/// the last.
pub open spec fn interleaved(text: Seq<char>, to: Seq<char>) -> Seq<char>
    decreases text.len(),
{
    if text.len() == 0 {
        to
    } else {
        to + seq![text[0]] + interleaved(text.drop_first(), to)
    }
}

/// `text` with `to` in the place of `from`, wherever `from` stands in it, from
/// left to right, an occurrence beginning where the one before it has ended.
pub open spec fn replaced(text: Seq<char>, from: Seq<char>, to: Seq<char>) -> Seq<char>
    decreases text.len(),
{
    if from.len() == 0 {
        interleaved(text, to)
    } else if from.len() <= text.len() && text.take(from.len() as int) == from {
        to + replaced(text.skip(from.len() as int), from, to)
    } else if text.len() == 0 {
        text
    } else {
        seq![text[0]] + replaced(text.drop_first(), from, to)
    }
}

/// What `str::to_uppercase` makes of a text.
pub uninterp spec fn uppercased(text: Seq<char>) -> Seq<char>;

/// `str::to_uppercase`: the text in upper case.
#[verifier::external_body]
pub(crate) fn to_uppercase(text: &str) -> (r: String)
    ensures
        r@ == uppercased(text@),
{
    text.to_uppercase()
}

/// What `str::to_lowercase` makes of a text.
pub uninterp spec fn lowercased(text: Seq<char>) -> Seq<char>;

/// `str::to_lowercase`: the text in lower case.
#[verifier::external_body]
pub(crate) fn to_lowercase(text: &str) -> (r: String)
    ensures
        r@ == lowercased(text@),
{
    text.to_lowercase()
}

/// The characters of a text, one by one.
pub fn chars_of(s: &str) -> (v: Vec<char>)
    ensures
        v@ == s@,
{
    let mut v: Vec<char> = Vec::new();
    for c in it: s.chars()
        invariant
            it.seq() == s@,
            v@ == s@.take(it.index() as int),
    {
        v.push(c);
        assert(v@ =~= s@.take(it.index() + 1));
    }
    assert(v@ =~= s@);
    v
}

/// Whether `pat` stands in `text` at place `at`.
pub fn stands_at(text: &Vec<char>, pat: &Vec<char>, at: usize) -> (r: bool)
    requires
        at + pat.len() <= text.len(),
    ensures
        r == (text@.subrange(at as int, at + pat.len()) == pat@),
{
    let mut j: usize = 0;
    while j < pat.len()
        invariant
            at + pat.len() <= text.len(),
            j <= pat.len(),
            forall|k: int| 0 <= k < j ==> text@[at + k] == pat@[k],
        decreases pat.len() - j,
    {
        if text[at + j] != pat[j] {
            assert(text@.subrange(at as int, at + pat.len())[j as int] != pat@[j as int]);
            return false;
        }
        j += 1;
    }
    assert(text@.subrange(at as int, at + pat.len()) =~= pat@);
    true
}

/// Whether a character is white space.
pub fn is_white(c: char) -> (r: bool)
    ensures
        r == is_whitespace(c),
{
    let u = c as u32;
    (0x09 <= u && u <= 0x0D) || u == 0x20 || u == 0x85 || u == 0xA0 || u == 0x1680 || (0x2000 <= u
        && u <= 0x200A) || u == 0x2028 || u == 0x2029 || u == 0x202F || u == 0x205F || u == 0x3000
}

/// The text without the white space at its start.
pub fn trim_start(text: &str) -> (r: &str)
    ensures
        r@ == trimmed_start(text@),
{
    let t = chars_of(text);
    let mut i: usize = 0;
    assert(t@.skip(0) =~= t@);
    while i < t.len() && is_white(t[i])
        invariant
            i <= t.len(),
            trimmed_start(t@) == trimmed_start(t@.skip(i as int)),
        decreases t.len() - i,
    {
        assert(t@.skip(i as int)[0] == t@[i as int]);
        assert(t@.skip(i as int).drop_first() =~= t@.skip(i + 1));
        i += 1;
    }
    proof {
        if i < t.len() {
            assert(t@.skip(i as int)[0] == t@[i as int]);
        }
        assert(t@.skip(i as int) =~= t@.subrange(i as int, t.len() as int));
    }
    text.substring_char(i, t.len())
}

/// The text without the white space at its end.
pub fn trim_end(text: &str) -> (r: &str)
    ensures
        r@ == trimmed_end(text@),
{
    let t = chars_of(text);
    let mut j: usize = t.len();
    assert(t@.take(j as int) =~= t@);
    while j > 0 && is_white(t[j - 1])
        invariant
            j <= t.len(),
            trimmed_end(t@) == trimmed_end(t@.take(j as int)),
        decreases j,
    {
        assert(t@.take(j as int).last() == t@[j - 1]);
        assert(t@.take(j as int).drop_last() =~= t@.take(j - 1));
        j -= 1;
    }
    proof {
        if j > 0 {
            assert(t@.take(j as int).last() == t@[j - 1]);
        }
        assert(t@.take(j as int) =~= t@.subrange(0, j as int));
    }
    text.substring_char(0, j)
}

/// The text without the white space at its start and at its end.
pub fn trim(text: &str) -> (r: &str)
    ensures
        r@ == trimmed(text@),
{
    trim_end(trim_start(text))
}

/// The rest of `text` behind every repetition of `pat` at its start.
pub fn trim_start_matches<'a>(text: &'a str, pat: &str) -> (r: &'a str)
    ensures
        r@ == without_leading(text@, pat@),
{
    let t = chars_of(text);
    let p = chars_of(pat);
    let mut i: usize = 0;
    assert(t@.skip(0) =~= t@);
    if p.len() > 0 {
        while p.len() <= t.len() - i && stands_at(&t, &p, i)
            invariant
                p.len() > 0,
                i <= t.len(),
                without_leading(t@, p@) == without_leading(t@.skip(i as int), p@),
            decreases t.len() - i,
        {
            assert(t@.skip(i as int).take(p.len() as int) =~= t@.subrange(
                i as int,
                i + p.len(),
            ));
            assert(t@.skip(i as int).skip(p.len() as int) =~= t@.skip(i + p.len()));
            i += p.len();
        }
        proof {
            if p.len() <= t.len() - i {
                assert(t@.skip(i as int).take(p.len() as int) =~= t@.subrange(
                    i as int,
                    i + p.len(),
                ));
            }
        }
    }
    assert(t@.skip(i as int) =~= t@.subrange(i as int, t.len() as int));
    text.substring_char(i, t.len())
}

/// The text with `to` in the place of every `from`.
pub fn replace(text: &str, from: &str, to: &str) -> (r: String)
    ensures
        r@ == replaced(text@, from@, to@),
{
    let t = chars_of(text);
    let f = chars_of(from);
    let n = t.len();
    let mut out = String::new();
    let mut i: usize = 0;
    assert(t@.skip(0) =~= t@);
    if f.len() == 0 {
        while i < n
            invariant
                n == t.len(),
                t@ == text@,
                f@.len() == 0,
                i <= n,
                replaced(t@, f@, to@) == out@ + interleaved(t@.skip(i as int), to@),
            decreases n - i,
        {
            let ghost before = out@;
            out.append(to);
            out.append(text.substring_char(i, i + 1));
            proof {
                let rest = t@.skip(i as int);
                assert(rest[0] == t@[i as int]);
                assert(rest.drop_first() =~= t@.skip(i + 1));
                assert(t@.subrange(i as int, i + 1) =~= seq![t@[i as int]]);
                assert(out@ =~= before + (to@ + seq![t@[i as int]]));
            }
            i += 1;
        }
        out.append(to);
        return out;
    }
    let mut seg: usize = 0;
    assert(t@.subrange(0, 0) =~= Seq::<char>::empty());
    while i < n
        invariant
            n == t.len(),
            t@ == text@,
            f@.len() > 0,
            seg <= i <= n,
            replaced(t@, f@, to@) == out@ + t@.subrange(seg as int, i as int) + replaced(
                t@.skip(i as int),
                f@,
                to@,
            ),
        decreases n - i,
    {
        let ghost rest = t@.skip(i as int);
        if f.len() <= n - i && stands_at(&t, &f, i) {
            proof {
                assert(rest.take(f.len() as int) =~= t@.subrange(i as int, i + f.len()));
                assert(rest.skip(f.len() as int) =~= t@.skip(i + f.len()));
            }
            out.append(text.substring_char(seg, i));
            out.append(to);
            i += f.len();
            seg = i;
            assert(t@.subrange(seg as int, i as int) =~= Seq::<char>::empty());
        } else {
            proof {
                if f.len() <= n - i {
                    assert(rest.take(f.len() as int) =~= t@.subrange(i as int, i + f.len()));
                }
                assert(rest[0] == t@[i as int]);
                assert(rest.drop_first() =~= t@.skip(i + 1));
                assert(t@.subrange(seg as int, i as int) + seq![t@[i as int]] =~= t@.subrange(
                    seg as int,
                    i + 1,
                ));
            }
            i += 1;
        }
    }
    out.append(text.substring_char(seg, n));
    assert(replaced(t@.skip(n as int), f@, to@) =~= Seq::<char>::empty());
    out
}

} // verus!
