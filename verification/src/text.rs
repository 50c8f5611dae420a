//! Text helpers: equality, decimal numbers, joining pieces, trimming.

use vstd::prelude::*;
use vstd::string::*;
use vstd::utf8::*;
use crate::types::texts_of;

verus! {

broadcast use vstd::string::group_string_axioms;

/// `String::push` appends one character.
pub assume_specification[ String::push ](s: &mut String, c: char)
    ensures
        final(s)@ == old(s)@.push(c),
;

/// Whether two strings hold the same characters.
pub fn same_text(a: &str, b: &str) -> (r: bool)
    ensures
        r == (a@ == b@),
{
    let x: &[u8] = a.as_bytes();
    let y: &[u8] = b.as_bytes();
    proof {
        encode_utf8_decode_utf8(a@);
        encode_utf8_decode_utf8(b@);
    }
    if x.len() != y.len() {
        return false;
    }
    let mut i: usize = 0;
    while i < x.len()
        invariant
            i <= x.len(),
            x.len() == y.len(),
            x@ == encode_utf8(a@),
            y@ == encode_utf8(b@),
            forall|k: int| 0 <= k < i ==> x@[k] == y@[k],
        decreases x.len() - i,
    {
        if x[i] != y[i] {
            return false;
        }
        i = i + 1;
    }
    assert(x@ =~= y@);
    true
}

/// The character of a decimal digit.
pub open spec fn digit(d: int) -> char {
    (48 + d) as char
}

/// The decimal digits of a natural number, most significant first.
pub open spec fn digits(n: nat) -> Seq<char>
    decreases n,
{
    if n < 10 {
        seq![digit(n as int)]
    } else {
        digits(n / 10).push(digit((n % 10) as int))
    }
}

/// A number in decimal, with a leading minus sign when negative.
pub open spec fn decimal(n: int) -> Seq<char> {
    if n < 0 {
        seq!['-'] + digits((-n) as nat)
    } else {
        digits(n as nat)
    }
}

fn push_digits(s: &mut String, n: u64)
    ensures
        final(s)@ == old(s)@ + digits(n as nat),
    decreases n,
{
    if n >= 10 {
        push_digits(s, n / 10);
    }
    let d: u8 = 48 + (n % 10) as u8;
    s.push(d as char);
    assert(s@ =~= old(s)@ + digits(n as nat));
}

/// A natural number in decimal.
pub fn nat_text(n: u64) -> (r: String)
    ensures
        r@ == decimal(n as int),
{
    let mut s = String::new();
    push_digits(&mut s, n);
    assert(s@ =~= digits(n as nat));
    s
}

/// An integer in decimal.
pub fn int_text(n: i64) -> (r: String)
    ensures
        r@ == decimal(n as int),
{
    let mut s = String::new();
    if n < 0 {
        s.push('-');
        let m: u64 = if n == i64::MIN {
            0x8000_0000_0000_0000
        } else {
            (0 - n) as u64
        };
        push_digits(&mut s, m);
        assert(s@ =~= decimal(n as int));
    } else {
        push_digits(&mut s, n as u64);
        assert(s@ =~= decimal(n as int));
    }
    s
}

/// Two pieces of text, one after the other.
pub fn join2(a: &str, b: &str) -> (r: String)
    ensures
        r@ == a@ + b@,
{
    let mut s = a.to_owned();
    s.append(b);
    s
}

/// Three pieces of text in a row.
pub fn join3(a: &str, b: &str, c: &str) -> (r: String)
    ensures
        r@ == a@ + b@ + c@,
{
    let mut s = join2(a, b);
    s.append(c);
    s
}

/// Four pieces of text in a row.
pub fn join4(a: &str, b: &str, c: &str, d: &str) -> (r: String)
    ensures
        r@ == a@ + b@ + c@ + d@,
{
    let mut s = join3(a, b, c);
    s.append(d);
    s
}

/// Five pieces of text in a row.
pub fn join5(a: &str, b: &str, c: &str, d: &str, e: &str) -> (r: String)
    ensures
        r@ == a@ + b@ + c@ + d@ + e@,
{
    let mut s = join3(a, b, c);
    s.append(d);
    s.append(e);
    s
}

/// Seven pieces of text in a row.
pub fn join7(a: &str, b: &str, c: &str, d: &str, e: &str, f: &str, g: &str) -> (r: String)
    ensures
        r@ == a@ + b@ + c@ + d@ + e@ + f@ + g@,
{
    let mut s = join5(a, b, c, d, e);
    s.append(f);
    s.append(g);
    s
}

/// An upper-case ASCII letter as its lower-case one; any other character as it is.
pub open spec fn lower_char(c: char) -> char {
    if 'A' <= c && c <= 'Z' {
        (c as u32 + 32) as char
    } else {
        c
    }
}

fn lower_one(c: char) -> (r: char)
    ensures
        r == lower_char(c),
{
    if 'A' <= c && c <= 'Z' {
        ((c as u8) + 32) as char
    } else {
        c
    }
}

/// The text with each upper-case ASCII letter replaced by its lower-case one.
pub open spec fn lower_text(s: Seq<char>) -> Seq<char> {
    s.map_values(|c: char| lower_char(c))
}

/// Lower-cases the ASCII letters of a text.
pub fn lowercase(s: &str) -> (r: String)
    ensures
        r@ == lower_text(s@),
{
    let cs: Vec<char> = chars_of(s);
    let mut out = String::new();
    let mut i: usize = 0;
    while i < cs.len()
        invariant
            i <= cs.len(),
            cs@ == s@,
            out@ == lower_text(s@.take(i as int)),
        decreases cs.len() - i,
    {
        out.push(lower_one(cs[i]));
        i = i + 1;
        assert(lower_text(s@.take(i as int)) =~= lower_text(s@.take(i - 1)).push(lower_char(s@[i - 1])));
    }
    assert(s@.take(i as int) =~= s@);
    out
}

/// The characters of a text, in order.
pub fn chars_of(s: &str) -> (r: Vec<char>)
    ensures
        r@ == s@,
{
    let mut out: Vec<char> = Vec::new();
    for c in it: s.chars()
        invariant
            out@ == it.seq().take(it.index()),
            it.seq() == s@,
    {
        out.push(c);
        assert(it.seq().take(it.index() + 1) =~= it.seq().take(it.index()).push(c));
    }
    assert(s@.take(s@.len() as int) =~= s@);
    out
}

/// The text made of the given characters.
pub fn text_of(cs: &Vec<char>) -> (r: String)
    ensures
        r@ == cs@,
{
    let mut out = String::new();
    let mut i: usize = 0;
    while i < cs.len()
        invariant
            i <= cs.len(),
            out@ == cs@.take(i as int),
        decreases cs.len() - i,
    {
        out.push(cs[i]);
        i = i + 1;
        assert(cs@.take(i as int) =~= cs@.take(i - 1).push(cs@[i - 1]));
    }
    assert(cs@.take(i as int) =~= cs@);
    out
}

/// Whether a text ends with the given suffix.
pub open spec fn has_suffix(s: Seq<char>, t: Seq<char>) -> bool {
    t.len() <= s.len() && s.skip(s.len() - t.len()) == t
}

/// Whether a text begins with the given prefix.
pub open spec fn has_prefix(s: Seq<char>, t: Seq<char>) -> bool {
    t.len() <= s.len() && s.take(t.len() as int) == t
}

/// Whether `s` ends with `t`.
pub fn ends_with(s: &str, t: &str) -> (r: bool)
    ensures
        r == has_suffix(s@, t@),
{
    let a: Vec<char> = chars_of(s);
    let b: Vec<char> = chars_of(t);
    if b.len() > a.len() {
        return false;
    }
    let off: usize = a.len() - b.len();
    let mut i: usize = 0;
    while i < b.len()
        invariant
            i <= b.len(),
            off + b.len() == a.len(),
            a@ == s@,
            b@ == t@,
            forall|k: int| 0 <= k < i ==> a@[off + k] == b@[k],
        decreases b.len() - i,
    {
        if a[off + i] != b[i] {
            assert(s@.skip(off as int)[i as int] != t@[i as int]);
            return false;
        }
        i = i + 1;
    }
    assert(s@.skip(off as int) =~= t@);
    true
}

/// Whether the characters `a` begin with `t`.
pub fn starts_with(a: &Vec<char>, t: &str) -> (r: bool)
    ensures
        r == has_prefix(a@, t@),
{
    let b: Vec<char> = chars_of(t);
    if b.len() > a.len() {
        return false;
    }
    let mut i: usize = 0;
    while i < b.len()
        invariant
            i <= b.len() <= a.len(),
            b@ == t@,
            forall|k: int| 0 <= k < i ==> a@[k] == b@[k],
        decreases b.len() - i,
    {
        if a[i] != b[i] {
            assert(a@.take(b@.len() as int)[i as int] != t@[i as int]);
            return false;
        }
        i = i + 1;
    }
    assert(a@.take(b@.len() as int) =~= t@);
    true
}

/// Whether a character is white space: the characters with the Unicode property
/// White_Space.
pub open spec fn white(c: char) -> bool {
    ||| 0x09 <= c as u32 <= 0x0d
    ||| c as u32 == 0x20
    ||| c as u32 == 0x85
    ||| c as u32 == 0xa0
    ||| c as u32 == 0x1680
    ||| 0x2000 <= c as u32 <= 0x200a
    ||| c as u32 == 0x2028
    ||| c as u32 == 0x2029
    ||| c as u32 == 0x202f
    ||| c as u32 == 0x205f
    ||| c as u32 == 0x3000
}

/// Whether a character is white space.
pub fn is_white(c: char) -> (r: bool)
    ensures
        r == white(c),
{
    let u: u32 = c as u32;
    (0x09 <= u && u <= 0x0d) || u == 0x20 || u == 0x85 || u == 0xa0 || u == 0x1680 || (0x2000 <= u
        && u <= 0x200a) || u == 0x2028 || u == 0x2029 || u == 0x202f || u == 0x205f || u == 0x3000
}

/// Whether a character is a control character: the Unicode category Cc.
pub open spec fn control(c: char) -> bool {
    c as u32 <= 0x1f || 0x7f <= c as u32 <= 0x9f
}

/// Whether a character is a control character.
pub fn is_control(c: char) -> (r: bool)
    ensures
        r == control(c),
{
    let u: u32 = c as u32;
    u <= 0x1f || (0x7f <= u && u <= 0x9f)
}

/// The text without the white space at its start.
pub open spec fn trim_start(s: Seq<char>) -> Seq<char>
    decreases s.len(),
{
    if s.len() > 0 && white(s[0]) {
        trim_start(s.skip(1))
    } else {
        s
    }
}

/// The text without the white space at its end.
pub open spec fn trim_end(s: Seq<char>) -> Seq<char>
    decreases s.len(),
{
    if s.len() > 0 && white(s.last()) {
        trim_end(s.drop_last())
    } else {
        s
    }
}

/// The text without the white space at both ends.
pub open spec fn trimmed(s: Seq<char>) -> Seq<char> {
    trim_end(trim_start(s))
}

/// Removes the white space at both ends.
pub fn trim(cs: &Vec<char>) -> (r: Vec<char>)
    ensures
        r@ == trimmed(cs@),
{
    let mut i: usize = 0;
    assert(cs@.skip(0) =~= cs@);
    while i < cs.len() && is_white(cs[i])
        invariant
            i <= cs.len(),
            trim_start(cs@) == trim_start(cs@.skip(i as int)),
        decreases cs.len() - i,
    {
        assert(cs@.skip(i as int).skip(1) =~= cs@.skip(i + 1));
        i = i + 1;
    }
    let ghost from = cs@.skip(i as int);
    let mut j: usize = cs.len();
    assert(cs@.subrange(i as int, j as int) =~= from);
    while j > i && is_white(cs[j - 1])
        invariant
            i <= j <= cs.len(),
            trim_end(from) == trim_end(cs@.subrange(i as int, j as int)),
        decreases j,
    {
        assert(cs@.subrange(i as int, j as int).drop_last() =~= cs@.subrange(i as int, j - 1));
        j = j - 1;
    }
    let mut out: Vec<char> = Vec::new();
    let mut k: usize = i;
    while k < j
        invariant
            i <= k <= j <= cs.len(),
            out@ == cs@.subrange(i as int, k as int),
        decreases j - k,
    {
        out.push(cs[k]);
        k = k + 1;
        assert(cs@.subrange(i as int, k as int) =~= cs@.subrange(i as int, k - 1).push(cs@[k - 1]));
    }
    out
}

/// The text without its control characters.
pub open spec fn printable(s: Seq<char>) -> Seq<char>
    decreases s.len(),
{
    if s.len() == 0 {
        s
    } else if control(s.last()) {
        printable(s.drop_last())
    } else {
        printable(s.drop_last()).push(s.last())
    }
}

/// The first characters of a text, at most `n` of them.
pub open spec fn at_most(s: Seq<char>, n: nat) -> Seq<char> {
    if s.len() <= n {
        s
    } else {
        s.take(n as int)
    }
}

/// The first `n` characters of a text that are no control characters.
pub fn clean_chars(cs: &Vec<char>, n: usize) -> (r: Vec<char>)
    ensures
        r@ == at_most(printable(cs@), n as nat),
        r@.len() <= n,
{
    let mut out: Vec<char> = Vec::new();
    let mut i: usize = 0;
    assert(cs@.take(0) =~= Seq::<char>::empty());
    while i < cs.len()
        invariant
            i <= cs.len(),
            out@ == at_most(printable(cs@.take(i as int)), n as nat),
            out@.len() <= n,
        decreases cs.len() - i,
    {
        let ghost p = printable(cs@.take(i as int));
        assert(cs@.take(i + 1).drop_last() =~= cs@.take(i as int));
        if !is_control(cs[i]) {
            if out.len() < n {
                out.push(cs[i]);
            }
            assert(at_most(p.push(cs@[i as int]), n as nat) =~= out@);
        }
        i = i + 1;
    }
    assert(cs@.take(i as int) =~= cs@);
    out
}

/// No character of a cleaned text is a control character.
pub proof fn law_printable(s: Seq<char>, n: nat)
    ensures
        at_most(printable(s), n).len() <= n,
        forall|k: int|
            0 <= k < at_most(printable(s), n).len() ==> !control(
                #[trigger] at_most(printable(s), n)[k],
            ),
    decreases s.len(),
{
    lemma_printable(s);
}

proof fn lemma_printable(s: Seq<char>)
    ensures
        forall|k: int| 0 <= k < printable(s).len() ==> !control(#[trigger] printable(s)[k]),
    decreases s.len(),
{
    if s.len() > 0 {
        lemma_printable(s.drop_last());
        let p = printable(s.drop_last());
        assert forall|k: int| 0 <= k < printable(s).len() implies !control(
            #[trigger] printable(s)[k],
        ) by {
            if k < p.len() {
                assert(printable(s)[k] == p[k]);
            }
        }
    }
}

/// A trimmed text neither begins nor ends with white space, and is part of the text.
pub proof fn law_trimmed(s: Seq<char>)
    ensures
        trimmed(s).len() > 0 ==> !white(trimmed(s)[0]) && !white(trimmed(s).last()),
        trimmed(s).len() <= s.len(),
{
    lemma_trim_start(s);
    lemma_trim_end(trim_start(s));
}

proof fn lemma_trim_start(s: Seq<char>)
    ensures
        trim_start(s).len() <= s.len(),
        trim_start(s).len() > 0 ==> !white(trim_start(s)[0]),
    decreases s.len(),
{
    if s.len() > 0 && white(s[0]) {
        lemma_trim_start(s.skip(1));
    }
}

proof fn lemma_trim_end(s: Seq<char>)
    ensures
        trim_end(s).len() <= s.len(),
        trim_end(s).len() > 0 ==> !white(trim_end(s).last()) && trim_end(s)[0] == s[0],
    decreases s.len(),
{
    if s.len() > 0 && white(s.last()) {
        lemma_trim_end(s.drop_last());
    }
}

/// Cleaning a text once more changes nothing.
pub proof fn law_cleaning_settles(s: Seq<char>, n: nat)
    ensures
        ({
            let clean = trimmed(at_most(printable(s), n));
            trimmed(at_most(printable(clean), n)) == clean
        }),
{
    let cut = at_most(printable(s), n);
    let clean = trimmed(cut);
    law_printable(s, n);
    law_trimmed(cut);
    lemma_trim_start_keeps(cut);
    lemma_trim_end_keeps(trim_start(cut));
    lemma_printable_already(clean);
}

/// A text without control characters, of at most so many characters and without white
/// space at its ends is clean already.
pub proof fn lemma_clean_already(s: Seq<char>, n: nat)
    requires
        s.len() <= n,
        forall|k: int| 0 <= k < s.len() ==> !control(#[trigger] s[k]),
        s.len() > 0 ==> !white(s[0]) && !white(s.last()),
    ensures
        trimmed(at_most(printable(s), n)) == s,
{
    lemma_printable_already(s);
}

pub proof fn lemma_printable_already(s: Seq<char>)
    requires
        forall|k: int| 0 <= k < s.len() ==> !control(#[trigger] s[k]),
    ensures
        printable(s) == s,
    decreases s.len(),
{
    if s.len() > 0 {
        let d = s.drop_last();
        assert forall|k: int| 0 <= k < d.len() implies !control(#[trigger] d[k]) by {
            assert(!control(s[k]));
        }
        lemma_printable_already(d);
        assert(!control(s[s.len() - 1]));
        assert(d.push(s.last()) =~= s);
    }
}

proof fn lemma_trim_start_keeps(s: Seq<char>)
    requires
        forall|k: int| 0 <= k < s.len() ==> !control(#[trigger] s[k]),
    ensures
        forall|k: int| 0 <= k < trim_start(s).len() ==> !control(#[trigger] trim_start(s)[k]),
    decreases s.len(),
{
    if s.len() > 0 && white(s[0]) {
        let t = s.skip(1);
        assert forall|k: int| 0 <= k < t.len() implies !control(#[trigger] t[k]) by {
            assert(!control(s[k + 1]));
        }
        lemma_trim_start_keeps(t);
        assert(trim_start(s) == trim_start(t));
    } else {
        assert(trim_start(s) == s);
    }
}

proof fn lemma_trim_end_keeps(s: Seq<char>)
    requires
        forall|k: int| 0 <= k < s.len() ==> !control(#[trigger] s[k]),
    ensures
        forall|k: int| 0 <= k < trim_end(s).len() ==> !control(#[trigger] trim_end(s)[k]),
    decreases s.len(),
{
    if s.len() > 0 && white(s.last()) {
        let t = s.drop_last();
        assert forall|k: int| 0 <= k < t.len() implies !control(#[trigger] t[k]) by {
            assert(!control(s[k]));
        }
        lemma_trim_end_keeps(t);
        assert(trim_end(s) == trim_end(t));
    } else {
        assert(trim_end(s) == s);
    }
}

/// Whether a text comes before another, or is the same, in the order of the
/// dictionary, characters compared by their code points.
pub open spec fn text_le(a: Seq<char>, b: Seq<char>) -> bool
    decreases a.len(),
{
    if a.len() == 0 {
        true
    } else if b.len() == 0 {
        false
    } else if a[0] != b[0] {
        a[0] < b[0]
    } else {
        text_le(a.skip(1), b.skip(1))
    }
}

/// Whether a text comes before another, or is the same.
pub fn not_after(a: &str, b: &str) -> (r: bool)
    ensures
        r == text_le(a@, b@),
{
    let x: Vec<char> = chars_of(a);
    let y: Vec<char> = chars_of(b);
    let mut i: usize = 0;
    assert(x@.skip(0) =~= x@);
    assert(y@.skip(0) =~= y@);
    while i < x.len() && i < y.len()
        invariant
            i <= x.len(),
            i <= y.len(),
            text_le(x@, y@) == text_le(x@.skip(i as int), y@.skip(i as int)),
            x@ == a@,
            y@ == b@,
        decreases x.len() - i,
    {
        if x[i] != y[i] {
            return x[i] < y[i];
        }
        assert(x@.skip(i as int).skip(1) =~= x@.skip(i + 1));
        assert(y@.skip(i as int).skip(1) =~= y@.skip(i + 1));
        i = i + 1;
    }
    i >= x.len()
}

/// The ordered list with one more text, behind those that do not come after it.
pub open spec fn inserted(sorted: Seq<Seq<char>>, x: Seq<char>) -> Seq<Seq<char>>
    decreases sorted.len(),
{
    if sorted.len() == 0 || text_le(sorted.last(), x) {
        sorted.push(x)
    } else {
        inserted(sorted.drop_last(), x).push(sorted.last())
    }
}

/// The texts in order.
pub open spec fn in_order(v: Seq<Seq<char>>) -> Seq<Seq<char>>
    decreases v.len(),
{
    if v.len() == 0 {
        v
    } else {
        inserted(in_order(v.drop_last()), v.last())
    }
}

proof fn lemma_le_total(a: Seq<char>, b: Seq<char>)
    ensures
        text_le(a, b) || text_le(b, a),
    decreases a.len(),
{
    if a.len() > 0 && b.len() > 0 {
        if a[0] == b[0] {
            lemma_le_total(a.skip(1), b.skip(1));
        }
    }
}

proof fn lemma_le_transitive(a: Seq<char>, b: Seq<char>, c: Seq<char>)
    requires
        text_le(a, b),
        text_le(b, c),
    ensures
        text_le(a, c),
    decreases a.len(),
{
    if a.len() > 0 && b.len() > 0 && c.len() > 0 && a[0] == b[0] && b[0] == c[0] {
        lemma_le_transitive(a.skip(1), b.skip(1), c.skip(1));
    }
}

/// Whether each text is followed only by texts that do not come before it.
pub open spec fn ordered(v: Seq<Seq<char>>) -> bool {
    forall|j: int, k: int| 0 <= j <= k < v.len() ==> text_le(#[trigger] v[j], #[trigger] v[k])
}

proof fn lemma_inserted(sorted: Seq<Seq<char>>, x: Seq<char>)
    requires
        ordered(sorted),
    ensures
        ordered(inserted(sorted, x)),
        inserted(sorted, x).to_multiset() =~= sorted.to_multiset().insert(x),
        inserted(sorted, x).len() == sorted.len() + 1,
        forall|z: Seq<char>|
            (forall|k: int| 0 <= k < sorted.len() ==> text_le(#[trigger] sorted[k], z)) && text_le(x, z)
                ==> forall|k: int|
                0 <= k < sorted.len() + 1 ==> text_le(#[trigger] inserted(sorted, x)[k], z),
    decreases sorted.len(),
{
    broadcast use vstd::seq_lib::group_to_multiset_ensures;

    lemma_le_total(x, x);
    if sorted.len() == 0 {
    } else if text_le(sorted.last(), x) {
        let v = sorted.push(x);
        assert forall|j: int, k: int| 0 <= j <= k < v.len() implies text_le(
            #[trigger] v[j],
            #[trigger] v[k],
        ) by {
            if k == sorted.len() && j < k {
                assert(text_le(sorted[j], sorted[sorted.len() - 1]));
                lemma_le_transitive(sorted[j], sorted.last(), x);
            }
        }
    } else {
        let last = sorted.last();
        let rest = sorted.drop_last();
        lemma_le_total(last, x);
        lemma_inserted(rest, x);
        assert(sorted =~= rest.push(last));
        let w = inserted(rest, x);
        let v = w.push(last);
        lemma_le_total(last, last);
        assert forall|k: int| 0 <= k < rest.len() implies text_le(#[trigger] rest[k], last) by {
            assert(text_le(sorted[k], sorted[sorted.len() - 1]));
        }
        assert forall|j: int, k: int| 0 <= j <= k < v.len() implies text_le(
            #[trigger] v[j],
            #[trigger] v[k],
        ) by {
            if k < w.len() {
                assert(text_le(w[j], w[k]));
            } else if j < w.len() {
                assert(text_le(w[j], last));
            }
        }
        assert forall|z: Seq<char>|
            (forall|k: int| 0 <= k < sorted.len() ==> text_le(#[trigger] sorted[k], z)) && text_le(x, z)
            implies forall|k: int|
            0 <= k < sorted.len() + 1 ==> text_le(#[trigger] inserted(sorted, x)[k], z) by {
            assert forall|k: int| 0 <= k < rest.len() implies text_le(#[trigger] rest[k], z) by {
                assert(text_le(sorted[k], z));
            }
            assert(text_le(sorted[sorted.len() - 1], z));
            assert forall|k: int| 0 <= k < sorted.len() + 1 implies text_le(
                #[trigger] inserted(sorted, x)[k],
                z,
            ) by {
                if k < w.len() {
                    assert(inserted(sorted, x)[k] == w[k]);
                }
            }
        }
    }
}

/// Ordering texts keeps them all and puts them in order.
pub proof fn law_in_order(v: Seq<Seq<char>>)
    ensures
        ordered(in_order(v)),
        in_order(v).to_multiset() =~= v.to_multiset(),
        in_order(v).len() == v.len(),
    decreases v.len(),
{
    broadcast use vstd::seq_lib::group_to_multiset_ensures;

    if v.len() > 0 {
        law_in_order(v.drop_last());
        lemma_inserted(in_order(v.drop_last()), v.last());
        assert(v =~= v.drop_last().push(v.last()));
    }
}

/// Orders texts.
pub fn sort_texts(v: &Vec<String>) -> (r: Vec<String>)
    ensures
        texts_of(r@) == in_order(texts_of(v@)),
{
    let ghost g = texts_of(v@);
    let mut out: Vec<String> = Vec::new();
    let mut i: usize = 0;
    assert(texts_of(out@) =~= Seq::<Seq<char>>::empty());
    assert(g.take(0) =~= Seq::<Seq<char>>::empty());
    while i < v.len()
        invariant
            i <= v.len(),
            g == texts_of(v@),
            texts_of(out@) == in_order(g.take(i as int)),
        decreases v.len() - i,
    {
        assert(g.take(i + 1).drop_last() =~= g.take(i as int));
        insert_text(&mut out, v[i].clone());
        i = i + 1;
    }
    assert(g.take(i as int) =~= g);
    out
}

fn insert_text(out: &mut Vec<String>, x: String)
    ensures
        texts_of(final(out)@) == inserted(texts_of(old(out)@), x@),
    decreases old(out)@.len(),
{
    let ghost g = texts_of(out@);
    let n: usize = out.len();
    if n == 0 || not_after(out[n - 1].as_str(), x.as_str()) {
        out.push(x);
        assert(texts_of(out@) =~= g.push(x@));
    } else {
        let last: String = match out.pop() {
            Some(s) => s,
            None => String::new(),
        };
        assert(texts_of(out@) =~= g.drop_last());
        insert_text(out, x);
        let ghost h = texts_of(out@);
        out.push(last);
        assert(texts_of(out@) =~= h.push(last@));
    }
}

/// The texts in a row with `sep` between them.
pub open spec fn joined(v: Seq<Seq<char>>, sep: Seq<char>) -> Seq<char>
    decreases v.len(),
{
    if v.len() == 0 {
        Seq::empty()
    } else if v.len() == 1 {
        v[0]
    } else {
        joined(v.drop_last(), sep) + sep + v.last()
    }
}

/// Joins texts with `sep` between them.
pub fn join_texts(v: &Vec<String>, sep: &str) -> (r: String)
    ensures
        r@ == joined(texts_of(v@), sep@),
{
    let ghost g = texts_of(v@);
    let mut out = String::new();
    let mut i: usize = 0;
    assert(g.take(0) =~= Seq::<Seq<char>>::empty());
    assert(out@ =~= Seq::<char>::empty());
    while i < v.len()
        invariant
            i <= v.len(),
            g == texts_of(v@),
            out@ == joined(g.take(i as int), sep@),
        decreases v.len() - i,
    {
        assert(g.take(i + 1).drop_last() =~= g.take(i as int));
        if i > 0 {
            out.append(sep);
            out.append(v[i].as_str());
        } else {
            out.append(v[i].as_str());
            assert(out@ =~= g[0]);
        }
        i = i + 1;
    }
    assert(g.take(i as int) =~= g);
    out
}

} // verus!
