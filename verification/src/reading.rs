//! How JSON is read: the members of an object by their names, the elements of an array by their
//! places, and numbers. What is written is read back.

use vstd::prelude::*;
use crate::json::{array, escape, escaped, hex_char, quoted, truth};
use crate::text::{decimal, digit, digits, joined};

verus! {

/// Where a reader is: how many braces and brackets are open, and whether it is in a string (1),
/// behind a backslash in one (2), or in none (0).
pub struct Reader {
    pub depth: int,
    pub mode: int,
}

/// The reader at the start of a value.
pub open spec fn start() -> Reader {
    Reader { depth: 0, mode: 0 }
}

/// The reader after one more character; nothing where the value ends before it.
pub open spec fn read(r: Reader, c: char) -> Option<Reader> {
    if r.mode == 2 {
        Some(Reader { mode: 1, ..r })
    } else if r.mode == 1 {
        if c == '\\' {
            Some(Reader { mode: 2, ..r })
        } else if c == '"' {
            Some(Reader { mode: 0, ..r })
        } else {
            Some(r)
        }
    } else if c == '"' {
        Some(Reader { mode: 1, ..r })
    } else if c == '{' || c == '[' {
        Some(Reader { depth: r.depth + 1, ..r })
    } else if c == '}' || c == ']' {
        if r.depth <= 0 {
            None
        } else {
            Some(Reader { depth: r.depth - 1, ..r })
        }
    } else if (c == ',' || c == ':') && r.depth <= 0 {
        None
    } else {
        Some(r)
    }
}

/// Where the value ends that a reader is in at a place of a text.
pub open spec fn end_of(t: Seq<char>, i: int, r: Reader) -> int
    decreases t.len() - i,
{
    if i >= t.len() {
        i
    } else {
        match read(r, t[i]) {
            None => i,
            Some(n) => end_of(t, i + 1, n),
        }
    }
}

/// The text of the value under a name, among the members of an object from the one on that
/// begins behind the brace or comma at a place.
#[verifier::opaque]
pub open spec fn member(t: Seq<char>, name: Seq<char>, i: int) -> Option<Seq<char>>
    decreases t.len() - i,
{
    let colon = end_of(t, i + 1, start());
    let end = end_of(t, colon + 1, start());
    if i < 0 || i >= t.len() || t[i] == '}' || colon <= i || end <= i || end > t.len() {
        None
    } else if t.subrange(i + 1, colon) == seq!['"'] + name + seq!['"'] {
        Some(t.subrange(colon + 1, end))
    } else {
        member(t, name, end)
    }
}

/// The text of the value under a name in an object.
pub open spec fn under(t: Seq<char>, name: Seq<char>) -> Option<Seq<char>> {
    member(t, name, 0)
}

/// The text of an element of an array, counted from the one that begins behind the bracket or
/// comma at a place.
#[verifier::opaque]
pub open spec fn element(t: Seq<char>, i: int, k: int) -> Option<Seq<char>>
    decreases k,
{
    let end = end_of(t, i + 1, start());
    if i < 0 || end >= t.len() || end <= i || k < 0 {
        None
    } else if k == 0 {
        Some(t.subrange(i + 1, end))
    } else if t[end] == ',' {
        element(t, end, k - 1)
    } else {
        None
    }
}

/// The number of a row of digits.
pub open spec fn number(t: Seq<char>) -> int
    decreases t.len(),
{
    if t.len() == 0 {
        0
    } else {
        number(t.drop_last()) * 10 + (t.last() as int - '0' as int)
    }
}

/// The number that a text stands for: digits, maybe behind a minus sign.
#[verifier::opaque]
pub open spec fn int_in(t: Seq<char>) -> int {
    if t.len() > 0 && t[0] == '-' {
        -number(t.skip(1))
    } else {
        number(t)
    }
}

/// The reader after a text.
pub open spec fn after(r: Reader, t: Seq<char>) -> Option<Reader>
    decreases t.len(),
{
    if t.len() == 0 {
        Some(r)
    } else {
        match read(r, t[0]) {
            None => None,
            Some(n) => after(n, t.skip(1)),
        }
    }
}

/// Whether a text is a value in itself: whatever is open around it, the reader is behind it as
/// it was before.
#[verifier::opaque]
pub open spec fn whole(t: Seq<char>) -> bool {
    forall|d: int| d >= 0 ==> #[trigger] after(Reader { depth: d, mode: 0 }, t) == Some(
        Reader { depth: d, mode: 0 },
    )
}

/// Whether a text is empty or begins with what ends a value.
pub open spec fn ends_value(t: Seq<char>) -> bool {
    t.len() == 0 || t[0] == ',' || t[0] == '}' || t[0] == ']' || t[0] == ':'
}

/// A text read in two parts.
proof fn lemma_after_parts(r: Reader, a: Seq<char>, b: Seq<char>)
    ensures
        after(r, a + b) == match after(r, a) {
            None => None,
            Some(n) => after(n, b),
        },
    decreases a.len(),
{
    if a.len() == 0 {
        assert(a + b =~= b);
    } else {
        assert((a + b)[0] == a[0]);
        assert((a + b).skip(1) =~= a.skip(1) + b);
        if let Some(n) = read(r, a[0]) {
            lemma_after_parts(n, a.skip(1), b);
        }
    }
}

proof fn lemma_end_of(t: Seq<char>, i: int, j: int, r: Reader, v: Seq<char>)
    requires
        0 <= i <= j <= t.len(),
        v == t.subrange(i, j),
        after(r, v) is Some,
    ensures
        end_of(t, i, r) == end_of(t, j, after(r, v).unwrap()),
    decreases j - i,
{
    if i < j {
        assert(v[0] == t[i]);
        let n = read(r, t[i]).unwrap();
        assert(v.skip(1) =~= t.subrange(i + 1, j));
        lemma_end_of(t, i + 1, j, n, v.skip(1));
    }
}

/// A whole value ends where what ends a value begins.
proof fn lemma_value_end(t: Seq<char>, i: int, j: int)
    requires
        0 <= i <= j <= t.len(),
        whole(t.subrange(i, j)),
        j < t.len() ==> ends_value(seq![t[j]]),
    ensures
        end_of(t, i, start()) == j,
{
    reveal(whole);
    let v = t.subrange(i, j);
    assert(after(Reader { depth: 0, mode: 0 }, v) == Some(Reader { depth: 0, mode: 0 }));
    lemma_end_of(t, i, j, start(), v);
}

/// Whether a character has no meaning of its own to the reader.
pub open spec fn plain(c: char) -> bool {
    c != '"' && c != '\\' && c != '{' && c != '}' && c != '[' && c != ']' && c != ',' && c != ':'
}

/// A text of such characters.
pub open spec fn all_plain(t: Seq<char>) -> bool {
    forall|k: int| 0 <= k < t.len() ==> plain(#[trigger] t[k])
}

proof fn lemma_after_plain(r: Reader, t: Seq<char>)
    requires
        all_plain(t),
        r.mode == 0 || r.mode == 1,
    ensures
        after(r, t) == Some(r),
    decreases t.len(),
{
    if t.len() > 0 {
        assert(plain(t[0]));
        assert forall|k: int| 0 <= k < t.skip(1).len() implies plain(#[trigger] t.skip(1)[k]) by {
            assert(t.skip(1)[k] == t[k + 1]);
        }
        lemma_after_plain(r, t.skip(1));
    }
}

pub proof fn lemma_whole_plain(t: Seq<char>)
    requires
        all_plain(t),
    ensures
        whole(t),
{
    reveal(whole);
    assert forall|d: int| d >= 0 implies #[trigger] after(Reader { depth: d, mode: 0 }, t) == Some(
        Reader { depth: d, mode: 0 },
    ) by {
        lemma_after_plain(Reader { depth: d, mode: 0 }, t);
    }
}

proof fn lemma_digits(n: nat)
    ensures
        digits(n).len() > 0,
        number(digits(n)) == n,
        forall|k: int| 0 <= k < digits(n).len() ==> '0' <= (#[trigger] digits(n)[k]) <= '9',
    decreases n,
{
    if n < 10 {
        let t = seq![digit(n as int)];
        assert(t.drop_last() =~= Seq::<char>::empty());
        assert(number(t.drop_last()) == 0);
    } else {
        lemma_digits(n / 10);
        let t = digits(n / 10).push(digit((n % 10) as int));
        assert(t.drop_last() =~= digits(n / 10));
    }
}

/// A number is read back from its decimal digits, and stands for itself wherever it stands.
pub proof fn law_numbers_read_back(n: int)
    ensures
        int_in(decimal(n)) == n,
        whole(decimal(n)),
{
    reveal(int_in);
    if n < 0 {
        lemma_digits((-n) as nat);
        assert(decimal(n).skip(1) =~= digits((-n) as nat));
        assert forall|k: int| 0 <= k < decimal(n).len() implies plain(#[trigger] decimal(n)[k]) by {
            if k > 0 {
                assert(decimal(n)[k] == digits((-n) as nat)[k - 1]);
            }
        }
    } else {
        lemma_digits(n as nat);
        assert('0' <= digits(n as nat)[0] <= '9');
        assert forall|k: int| 0 <= k < decimal(n).len() implies plain(#[trigger] decimal(n)[k]) by {
            assert('0' <= digits(n as nat)[k] <= '9');
        }
    }
    lemma_whole_plain(decimal(n));
}

/// The two truth values are told apart.
pub proof fn law_truths_read_back(b: bool)
    ensures
        b <==> truth(b) == "true"@,
        !b <==> truth(b) == "false"@,
        whole(truth(b)),
{
    reveal_strlit("true");
    reveal_strlit("false");
    assert("true"@.len() == 4 && "false"@.len() == 5);
    lemma_whole_plain(truth(b));
}

proof fn lemma_escape(d: int, c: char)
    ensures
        after(Reader { depth: d, mode: 1 }, escape(c)) == Some(Reader { depth: d, mode: 1 }),
{
    let r = Reader { depth: d, mode: 1 };
    let e = escape(c);
    reveal_with_fuel(after, 8);
    if e.len() == 6 {
        assert(e.skip(1).skip(1).len() == 4);
        let h = e.skip(2);
        assert(e.skip(1).skip(1) =~= h);
        assert(h =~= seq!['0', '0', hex_char(c as int / 16), hex_char(c as int % 16)]);
        assert(plain(hex_char(c as int / 16)));
        assert(plain(hex_char(c as int % 16)));
        assert(all_plain(h));
        lemma_after_plain(r, h);
    } else if e.len() == 2 {
        assert(e.skip(1)[0] == e[1]);
        assert(e.skip(1).skip(1) =~= Seq::<char>::empty());
    } else {
        assert(e.skip(1) =~= Seq::<char>::empty());
    }
}

proof fn lemma_escaped(d: int, s: Seq<char>)
    ensures
        after(Reader { depth: d, mode: 1 }, escaped(s)) == Some(Reader { depth: d, mode: 1 }),
    decreases s.len(),
{
    if s.len() > 0 {
        lemma_escaped(d, s.drop_last());
        lemma_escape(d, s.last());
        lemma_after_parts(Reader { depth: d, mode: 1 }, escaped(s.drop_last()), escape(s.last()));
    }
}

/// A text in quotation marks is a value in itself, whatever stands in it.
pub proof fn law_strings_are_whole(s: Seq<char>)
    ensures
        whole(quoted(s)),
{
    reveal(whole);
    let q = seq!['"'];
    assert forall|d: int| d >= 0 implies #[trigger] after(
        Reader { depth: d, mode: 0 },
        quoted(s),
    ) == Some(Reader { depth: d, mode: 0 }) by {
        let (out, inn) = (Reader { depth: d, mode: 0 }, Reader { depth: d, mode: 1 });
        lemma_escaped(d, s);
        assert(q.skip(1) =~= Seq::<char>::empty());
        assert(after(out, q) == after(inn, q.skip(1)));
        assert(after(inn, q) == after(out, q.skip(1)));
        lemma_after_parts(out, q, escaped(s));
        lemma_after_parts(out, q + escaped(s), q);
    }
}

/// Two parts that are read at a depth one after the other.
proof fn lemma_at_depth(r: Reader, a: Seq<char>, b: Seq<char>)
    requires
        after(r, a) == Some(r),
        after(r, b) == Some(r),
    ensures
        after(r, a + b) == Some(r),
{
    lemma_after_parts(r, a, b);
}

proof fn lemma_joined_inside(d: int, vs: Seq<Seq<char>>)
    requires
        d > 0,
        forall|k: int| 0 <= k < vs.len() ==> whole(#[trigger] vs[k]),
    ensures
        after(Reader { depth: d, mode: 0 }, joined(vs, ","@)) == Some(Reader { depth: d, mode: 0 }),
    decreases vs.len(),
{
    reveal(whole);
    let r = Reader { depth: d, mode: 0 };
    reveal_strlit(",");
    if vs.len() > 1 {
        lemma_joined_inside(d, vs.drop_last());
        assert(whole(vs[vs.len() - 1]));
        assert(after(r, vs.last()) == Some(r));
        assert(","@.skip(1) =~= Seq::<char>::empty());
        assert(","@[0] == ',');
        assert(after(r, ","@) == after(r, ","@.skip(1)));
        lemma_at_depth(r, joined(vs.drop_last(), ","@), ","@);
        lemma_at_depth(r, joined(vs.drop_last(), ","@) + ","@, vs.last());
    } else if vs.len() == 1 {
        assert(whole(vs[0]));
        assert(after(r, vs[0]) == Some(r));
    }
}

/// An array of values is a value in itself.
pub proof fn law_arrays_are_whole(vs: Seq<Seq<char>>)
    requires
        forall|k: int| 0 <= k < vs.len() ==> whole(#[trigger] vs[k]),
    ensures
        whole(array(vs)),
{
    reveal(whole);
    reveal_strlit("[");
    reveal_strlit("]");
    assert forall|d: int| d >= 0 implies #[trigger] after(
        Reader { depth: d, mode: 0 },
        array(vs),
    ) == Some(Reader { depth: d, mode: 0 }) by {
        let (out, inn) = (Reader { depth: d, mode: 0 }, Reader { depth: d + 1, mode: 0 });
        lemma_joined_inside(d + 1, vs);
        assert("["@.skip(1) =~= Seq::<char>::empty() && "]"@.skip(1) =~= Seq::<char>::empty());
        assert("["@[0] == '[' && "]"@[0] == ']');
        assert(after(out, "["@) == after(inn, "["@.skip(1)));
        assert(after(inn, "]"@) == after(out, "]"@.skip(1)));
        lemma_after_parts(out, "["@, joined(vs, ","@));
        lemma_after_parts(out, "["@ + joined(vs, ","@), "]"@);
    }
}

proof fn lemma_joined_front(vs: Seq<Seq<char>>)
    requires
        vs.len() > 1,
    ensures
        joined(vs, ","@) == vs[0] + ","@ + joined(vs.skip(1), ","@),
    decreases vs.len(),
{
    if vs.len() == 2 {
        assert(vs.drop_last().len() == 1 && vs.drop_last()[0] == vs[0]);
        assert(vs.skip(1).len() == 1 && vs.skip(1)[0] == vs[1]);
        assert(vs.last() == vs[1]);
        reveal_with_fuel(joined, 2);
    } else {
        lemma_joined_front(vs.drop_last());
        assert(vs.drop_last().skip(1) =~= vs.skip(1).drop_last());
        assert(vs.skip(1).last() == vs.last());
        assert(joined(vs, ","@) =~= vs[0] + ","@ + joined(vs.skip(1), ","@));
    }
}

proof fn lemma_element(t: Seq<char>, pre: Seq<char>, vs: Seq<Seq<char>>, k: int)
    requires
        pre.len() > 0,
        t == pre + joined(vs, ","@) + "]"@,
        0 <= k < vs.len(),
        forall|j: int| 0 <= j < vs.len() ==> whole(#[trigger] vs[j]),
    ensures
        element(t, pre.len() - 1, k) == Some(vs[k]),
    decreases k,
{
    reveal(element);
    reveal_strlit(",");
    reveal_strlit("]");
    let i = pre.len() - 1;
    let end = pre.len() + vs[0].len();
    assert(","@[0] == ',' && "]"@[0] == ']');
    assert(whole(vs[0]));
    if vs.len() > 1 {
        lemma_joined_front(vs);
        assert(t =~= pre + vs[0] + ","@ + joined(vs.skip(1), ","@) + "]"@);
        assert(t[end as int] == ',');
    } else {
        assert(t =~= pre + vs[0] + "]"@);
        assert(t[end as int] == ']');
    }
    assert(t.subrange(i + 1, end as int) =~= vs[0]);
    lemma_value_end(t, i + 1, end as int);
    if k > 0 {
        let next = pre + vs[0] + ","@;
        assert(t =~= next + joined(vs.skip(1), ","@) + "]"@);
        assert forall|j: int| 0 <= j < vs.skip(1).len() implies whole(#[trigger] vs.skip(1)[j]) by {
            assert(vs.skip(1)[j] == vs[j + 1]);
        }
        lemma_element(t, next, vs.skip(1), k - 1);
    }
}

/// The elements of an array are read back by their places.
pub proof fn law_elements_read_back(vs: Seq<Seq<char>>, k: int)
    requires
        0 <= k < vs.len(),
        forall|j: int| 0 <= j < vs.len() ==> whole(#[trigger] vs[j]),
    ensures
        element(array(vs), 0, k) == Some(vs[k]),
{
    reveal_strlit("[");
    lemma_element(array(vs), "["@, vs, k);
}

/// What opens a member of an object: a brace for the first and a comma for the others, its
/// name in quotation marks, and a colon.
#[verifier::opaque]
pub open spec fn opening(first: bool, name: Seq<char>) -> Seq<char> {
    seq![if first { '{' } else { ',' }] + (seq!['"'] + name + seq!['"']) + seq![':']
}

/// How long a text is.
#[verifier::opaque]
pub open spec fn size(x: Seq<char>) -> int {
    x.len() as int
}

/// Whether a text goes on with another member of an object or closes it.
#[verifier::opaque]
pub open spec fn continues(t: Seq<char>) -> bool {
    t.len() > 0 && (t[0] == ',' || t[0] == '}')
}

/// An object is read from its start, and the closing brace ends it.
pub proof fn lemma_ends(t: Seq<char>)
    ensures
        size(Seq::<char>::empty()) == 0,
        Seq::<char>::empty() + t == t,
        continues("}"@),
{
    reveal(size);
    reveal(continues);
    reveal_strlit("}");
    assert(Seq::<char>::empty() + t =~= t);
}

/// One member of an object: under its name stands its value, and all others are looked for
/// behind it.
pub proof fn lemma_member(
    t: Seq<char>,
    x: Seq<char>,
    l: Seq<char>,
    v: Seq<char>,
    rest: Seq<char>,
    first: bool,
    name: Seq<char>,
)
    requires
        t == x + l + v + rest,
        l == opening(first, name),
        all_plain(name),
        whole(v),
        continues(rest),
    ensures
        t == x + (l + v + rest),
        !first ==> continues(l + v + rest),
        forall|n: Seq<char>| #[trigger]
            member(t, n, size(x)) == if n == name {
                Some(v)
            } else {
                member(t, n, size(x + l + v))
            },
{
    reveal(member);
    reveal(opening);
    reveal(size);
    reveal(continues);
    let i = x.len() as int;
    let named = seq!['"'] + name + seq!['"'];
    let colon = i + 1 + named.len();
    let end = colon + 1 + v.len();
    assert(t =~= x + (l + v + rest));
    assert(l.len() == named.len() + 2);
    assert(t[i] == l[0]);
    assert(t.subrange(i + 1, colon) =~= named);
    assert(t[colon] == ':') by {
        assert(t[colon] == l[named.len() as int + 1]);
    }
    assert(t.subrange(colon + 1, end) =~= v);
    assert(t[end] == rest[0]);
    lemma_whole_name(name);
    lemma_value_end(t, i + 1, colon);
    lemma_value_end(t, colon + 1, end);
    assert forall|n: Seq<char>| #[trigger]
        member(t, n, i) == (if n == name {
            Some(v)
        } else {
            member(t, n, end)
        }) by {
        if seq!['"'] + n + seq!['"'] == named {
            assert(n =~= (seq!['"'] + n + seq!['"']).subrange(1, n.len() as int + 1));
            assert(name =~= named.subrange(1, name.len() as int + 1));
            assert((seq!['"'] + n + seq!['"']).len() == named.len());
        }
    }
}

proof fn lemma_whole_name(name: Seq<char>)
    requires
        all_plain(name),
    ensures
        whole(seq!['"'] + name + seq!['"']),
{
    reveal(whole);
    let q = seq!['"'];
    assert forall|d: int| d >= 0 implies #[trigger] after(
        Reader { depth: d, mode: 0 },
        q + name + q,
    ) == Some(Reader { depth: d, mode: 0 }) by {
        let (out, inn) = (Reader { depth: d, mode: 0 }, Reader { depth: d, mode: 1 });
        lemma_after_plain(inn, name);
        assert(q.skip(1) =~= Seq::<char>::empty());
        assert(after(out, q) == after(inn, q.skip(1)));
        assert(after(inn, q) == after(out, q.skip(1)));
        lemma_after_parts(out, q, name);
        lemma_after_parts(out, q + name, q);
    }
}

/// The inside of an object that goes on: after another member the reader is as deep as before.
pub proof fn lemma_object_goes_on(
    x: Seq<char>,
    l: Seq<char>,
    v: Seq<char>,
    name: Seq<char>,
    first: bool,
)
    requires
        l == opening(first, name),
        all_plain(name),
        whole(v),
        first ==> x.len() == 0,
        !first ==> opened(x),
    ensures
        opened(x + l + v),
{
    reveal(whole);
    reveal(opened);
    reveal(opening);
    let named = seq!['"'] + name + seq!['"'];
    lemma_whole_name(name);
    assert forall|d: int| d >= 0 implies #[trigger] after(
        Reader { depth: d, mode: 0 },
        x + l + v,
    ) == Some(Reader { depth: d + 1, mode: 0 }) by {
        let (out, inn) = (Reader { depth: d, mode: 0 }, Reader { depth: d + 1, mode: 0 });
        let a = seq![if first { '{' } else { ',' }];
        let c = seq![':'];
        assert(a.skip(1) =~= Seq::<char>::empty() && c.skip(1) =~= Seq::<char>::empty());
        assert(after(inn, named) == Some(inn));
        assert(after(inn, v) == Some(inn));
        assert(after(inn, c) == after(inn, c.skip(1)));
        if first {
            assert(x + l + v =~= a + (named + c + v));
            assert(after(out, a) == after(inn, a.skip(1)));
        } else {
            assert(after(out, x) == Some(inn));
            assert(x + l + v =~= (x + a) + (named + c + v));
            assert(after(inn, a) == after(inn, a.skip(1)));
            lemma_after_parts(out, x, a);
        }
        lemma_after_parts(inn, named, c);
        lemma_after_parts(inn, named + c, v);
        if first {
            lemma_after_parts(out, a, named + c + v);
        } else {
            lemma_after_parts(out, x + a, named + c + v);
        }
    }
}

/// Whether a text is the beginning of an object, one brace deep.
#[verifier::opaque]
pub open spec fn opened(x: Seq<char>) -> bool {
    forall|d: int| d >= 0 ==> #[trigger] after(Reader { depth: d, mode: 0 }, x) == Some(
        Reader { depth: d + 1, mode: 0 },
    )
}

/// An object that is closed is a value in itself.
pub proof fn lemma_object_is_whole(x: Seq<char>)
    requires
        opened(x),
    ensures
        whole(x + "}"@),
{
    reveal(whole);
    reveal(opened);
    reveal_strlit("}");
    assert forall|d: int| d >= 0 implies #[trigger] after(
        Reader { depth: d, mode: 0 },
        x + "}"@,
    ) == Some(Reader { depth: d, mode: 0 }) by {
        let (out, inn) = (Reader { depth: d, mode: 0 }, Reader { depth: d + 1, mode: 0 });
        assert(after(out, x) == Some(inn));
        assert("}"@.skip(1) =~= Seq::<char>::empty());
        assert("}"@[0] == '}');
        assert(after(inn, "}"@) == after(out, "}"@.skip(1)));
        lemma_after_parts(out, x, "}"@);
    }
}

} // verus!
