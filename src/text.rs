use vstd::prelude::*;
use crate::model::texts;

verus! {

/// The characters with the Unicode `White_Space` property.
pub open spec fn is_white(c: char) -> bool {
    let u = c as u32;
    (0x9 <= u && u <= 0xd) || u == 0x20 || u == 0x85 || u == 0xa0 || u == 0x1680 || (0x2000 <= u
        && u <= 0x200a) || u == 0x2028 || u == 0x2029 || u == 0x202f || u == 0x205f || u == 0x3000
}

pub open spec fn trim_start(s: Seq<char>) -> Seq<char>
    decreases s.len(),
{
    if s.len() > 0 && is_white(s[0]) {
        trim_start(s.drop_first())
    } else {
        s
    }
}

pub open spec fn trim_end(s: Seq<char>) -> Seq<char>
    decreases s.len(),
{
    if s.len() > 0 && is_white(s.last()) {
        trim_end(s.drop_last())
    } else {
        s
    }
}

/// `s` without its leading and trailing whitespace.
pub open spec fn trimmed(s: Seq<char>) -> Seq<char> {
    trim_end(trim_start(s))
}

/// The pieces of `s` between commas, from left to right; there is always at least one.
pub open spec fn split_commas(s: Seq<char>) -> Seq<Seq<char>>
    decreases s.len(),
{
    if s.len() == 0 {
        seq![Seq::empty()]
    } else {
        let init = split_commas(s.drop_last());
        if s.last() == ',' {
            init.push(Seq::empty())
        } else {
            init.update(init.len() - 1, init.last().push(s.last()))
        }
    }
}

/// The pieces of `s` between commas, each trimmed of surrounding whitespace.
pub open spec fn split_trimmed(s: Seq<char>) -> Seq<Seq<char>> {
    split_commas(s).map_values(|p: Seq<char>| trimmed(p))
}

/// The elements of `l` with `sep` between each two neighbours.
pub open spec fn joined(l: Seq<Seq<char>>, sep: Seq<char>) -> Seq<char>
    decreases l.len(),
{
    if l.len() == 0 {
        Seq::empty()
    } else if l.len() == 1 {
        l[0]
    } else {
        joined(l.drop_last(), sep) + sep + l.last()
    }
}

/// The separator that joins the values of a multi-value item.
pub open spec fn list_separator() -> Seq<char> {
    seq![',', ' ']
}

pub open spec fn is_digit(c: char) -> bool {
    48 <= (c as u32) && (c as u32) <= 57
}

pub open spec fn all_digits(s: Seq<char>) -> bool {
    forall|i: int| 0 <= i < s.len() ==> is_digit(#[trigger] s[i])
}

/// The number that a run of decimal digits writes.
pub open spec fn digits_value(s: Seq<char>) -> nat
    decreases s.len(),
{
    if s.len() == 0 {
        0
    } else {
        digits_value(s.drop_last()) * 10 + ((s.last() as u32) - 48) as nat
    }
}

/// The value of `s` read as an unsigned 32-bit decimal number: digits, optionally after a `+`.
pub open spec fn parsed_u32(s: Seq<char>) -> Option<u32> {
    let d = if s.len() > 1 && s[0] == '+' {
        s.drop_first()
    } else {
        s
    };
    if d.len() > 0 && all_digits(d) && digits_value(d) <= u32::MAX {
        Some(digits_value(d) as u32)
    } else {
        None
    }
}

/// A year read from the start of a date: four digits after any leading whitespace.
pub open spec fn leading_year(s: Seq<char>) -> Option<u32> {
    let r = trim_start(s);
    if r.len() >= 4 && all_digits(r.subrange(0, 4)) {
        Some(digits_value(r.subrange(0, 4)) as u32)
    } else {
        None
    }
}

pub open spec fn digit_char(d: nat) -> char {
    (d + 48) as char
}

/// The decimal writing of `n`, without leading zeros.
pub open spec fn decimal(n: nat) -> Seq<char>
    decreases n,
{
    if n < 10 {
        seq![digit_char(n)]
    } else {
        decimal(n / 10).push(digit_char(n % 10))
    }
}

/// No whitespace at either end.
pub open spec fn no_edge_white(s: Seq<char>) -> bool {
    s.len() == 0 || (!is_white(s[0]) && !is_white(s.last()))
}

pub proof fn lemma_trimmed_unchanged(s: Seq<char>)
    requires
        no_edge_white(s),
    ensures
        trimmed(s) == s,
{
}

pub proof fn lemma_trimmed_after_space(s: Seq<char>)
    requires
        no_edge_white(s),
    ensures
        trimmed(seq![' '] + s) == s,
{
    let t = seq![' '] + s;
    assert(t.drop_first() =~= s);
    assert(t[0] == ' ');
    assert(is_white(' '));
    assert(trim_start(t) == trim_start(s));
    assert(trim_start(s) == s);
    assert(trim_end(s) == s);
}

pub proof fn lemma_split_len(s: Seq<char>)
    ensures
        split_commas(s).len() >= 1,
    decreases s.len(),
{
    if s.len() > 0 {
        lemma_split_len(s.drop_last());
    }
}

pub proof fn lemma_split_no_comma(s: Seq<char>)
    requires
        !s.contains(','),
    ensures
        split_commas(s) == seq![s],
    decreases s.len(),
{
    if s.len() > 0 {
        let p = s.drop_last();
        assert(!p.contains(',')) by {
            if p.contains(',') {
                let i = choose|i: int| 0 <= i < p.len() && p[i] == ',';
                assert(s[i] == ',');
            }
        }
        lemma_split_no_comma(p);
        assert(s[s.len() - 1] != ',');
        assert(p.push(s.last()) =~= s);
        assert(seq![p].update(0, p.push(s.last())) =~= seq![s]);
    } else {
        assert(s =~= Seq::<char>::empty());
    }
}

pub proof fn lemma_split_extend(a: Seq<char>, b: Seq<char>)
    requires
        !b.contains(','),
    ensures
        split_commas(a + b) == split_commas(a).update(
            split_commas(a).len() - 1,
            split_commas(a).last() + b,
        ),
    decreases b.len(),
{
    lemma_split_len(a);
    let sa = split_commas(a);
    if b.len() == 0 {
        assert(a + b =~= a);
        assert(sa.last() + b =~= sa.last());
        assert(sa.update(sa.len() - 1, sa.last()) =~= sa);
    } else {
        let b1 = b.drop_last();
        assert(!b1.contains(',')) by {
            if b1.contains(',') {
                let i = choose|i: int| 0 <= i < b1.len() && b1[i] == ',';
                assert(b[i] == ',');
            }
        }
        lemma_split_extend(a, b1);
        assert((a + b).drop_last() =~= a + b1);
        assert(b[b.len() - 1] != ',');
        assert((a + b).last() == b.last());
        assert((sa.last() + b1).push(b.last()) =~= sa.last() + b);
        assert(sa.update(sa.len() - 1, sa.last() + b1).update(sa.len() - 1, sa.last() + b) =~= sa.update(
            sa.len() - 1,
            sa.last() + b,
        ));
    }
}

/// Splitting after a comma starts a new piece.
pub proof fn lemma_split_comma(a: Seq<char>)
    ensures
        split_commas(a.push(',')) == split_commas(a).push(Seq::empty()),
{
    assert(a.push(',').drop_last() =~= a);
}

/// Relies on `str::chars`: the characters of `s` in order.
#[verifier::external_body]
pub(crate) fn char_vec(s: &str) -> (r: Vec<char>)
    ensures
        r@ == s@,
{
    s.chars().collect()
}

/// Relies on `String::push`: appends one character.
#[verifier::external_body]
pub(crate) fn push_char(s: &mut String, c: char)
    ensures
        final(s)@ == old(s)@.push(c),
{
    s.push(c)
}

/// Relies on `u32::to_string`: the decimal writing of the number.
#[verifier::external_body]
pub(crate) fn decimal_text(n: u32) -> (r: String)
    ensures
        r@ == decimal(n as nat),
{
    n.to_string()
}

pub fn is_whitespace(c: char) -> (r: bool)
    ensures
        r == is_white(c),
{
    let u = c as u32;
    (0x9 <= u && u <= 0xd) || u == 0x20 || u == 0x85 || u == 0xa0 || u == 0x1680 || (0x2000 <= u
        && u <= 0x200a) || u == 0x2028 || u == 0x2029 || u == 0x202f || u == 0x205f || u == 0x3000
}

/// The characters `cs[lo..hi]` as a string.
pub fn text_of(cs: &Vec<char>, lo: usize, hi: usize) -> (r: String)
    requires
        lo <= hi <= cs@.len(),
    ensures
        r@ == cs@.subrange(lo as int, hi as int),
{
    let mut out = String::new();
    let mut i = lo;
    while i < hi
        invariant
            lo <= i <= hi <= cs@.len(),
            out@ == cs@.subrange(lo as int, i as int),
        decreases hi - i,
    {
        push_char(&mut out, cs[i]);
        assert(cs@.subrange(lo as int, i + 1) =~= cs@.subrange(lo as int, i as int).push(cs@[i as int]));
        i = i + 1;
    }
    out
}

/// The bounds of `cs[lo..hi]` once its surrounding whitespace is dropped.
pub fn trim_bounds(cs: &Vec<char>, lo: usize, hi: usize) -> (r: (usize, usize))
    requires
        lo <= hi <= cs@.len(),
    ensures
        lo <= r.0 <= r.1 <= hi,
        cs@.subrange(r.0 as int, r.1 as int) == trimmed(cs@.subrange(lo as int, hi as int)),
{
    let ghost s = cs@.subrange(lo as int, hi as int);
    let mut a = lo;
    while a < hi && is_whitespace(cs[a])
        invariant
            lo <= a <= hi <= cs@.len(),
            trim_start(s) == trim_start(cs@.subrange(a as int, hi as int)),
        decreases hi - a,
    {
        assert(cs@.subrange(a as int, hi as int).drop_first() =~= cs@.subrange(a + 1, hi as int));
        a = a + 1;
    }
    assert(trim_start(s) == cs@.subrange(a as int, hi as int));
    let mut b = hi;
    while b > a && is_whitespace(cs[b - 1])
        invariant
            lo <= a <= b <= hi <= cs@.len(),
            trimmed(s) == trim_end(cs@.subrange(a as int, b as int)),
        decreases b - a,
    {
        assert(cs@.subrange(a as int, b as int).drop_last() =~= cs@.subrange(a as int, b - 1));
        b = b - 1;
    }
    (a, b)
}

/// Splits `s` at each comma and trims each piece, appending the pieces to `out`.
pub fn push_split_trimmed(s: &str, out: &mut Vec<String>)
    ensures
        texts(final(out)@) == texts(old(out)@) + split_trimmed(s@),
{
    let cs = char_vec(s);
    let ghost base = texts(out@);
    let ghost mut raw: Seq<Seq<char>> = Seq::empty();
    let mut start: usize = 0;
    let mut i: usize = 0;
    assert(cs@.subrange(0, 0) =~= Seq::<char>::empty());
    assert(raw.push(Seq::<char>::empty()) =~= seq![Seq::<char>::empty()]);
    assert(texts(out@) =~= base + raw.map_values(|p: Seq<char>| trimmed(p)));
    while i < cs.len()
        invariant
            start <= i <= cs@.len(),
            cs@ == s@,
            split_commas(cs@.subrange(0, i as int)) == raw.push(cs@.subrange(start as int, i as int)),
            texts(out@) == base + raw.map_values(|p: Seq<char>| trimmed(p)),
        decreases cs@.len() - i,
    {
        let c = cs[i];
        let ghost pre = cs@.subrange(0, i as int);
        let ghost cur = cs@.subrange(0, i + 1);
        assert(cur.drop_last() =~= pre);
        if c == ',' {
            let (a, b) = trim_bounds(&cs, start, i);
            let piece = text_of(&cs, a, b);
            let ghost seg = cs@.subrange(start as int, i as int);
            let ghost before = out@;
            out.push(piece);
            proof {
                assert(texts(out@) =~= texts(before).push(cs@.subrange(a as int, b as int)));
                assert(raw.push(seg).map_values(|p: Seq<char>| trimmed(p)) =~= raw.map_values(
                    |p: Seq<char>| trimmed(p),
                ).push(trimmed(seg)));
                raw = raw.push(seg);
                assert(texts(out@) =~= base + raw.map_values(|p: Seq<char>| trimmed(p)));
                assert(cs@.subrange(i + 1, i + 1) =~= Seq::<char>::empty());
            }
            start = i + 1;
        } else {
            assert(cs@.subrange(start as int, i + 1) =~= cs@.subrange(start as int, i as int).push(c));
            assert(raw.push(cs@.subrange(start as int, i as int)).update(
                raw.len() as int,
                cs@.subrange(start as int, i + 1),
            ) =~= raw.push(cs@.subrange(start as int, i + 1)));
        }
        i = i + 1;
    }
    assert(cs@.subrange(0, cs@.len() as int) =~= s@);
    let (a, b) = trim_bounds(&cs, start, cs.len());
    let piece = text_of(&cs, a, b);
    let ghost seg = cs@.subrange(start as int, cs@.len() as int);
    let ghost before = out@;
    out.push(piece);
    proof {
        assert(texts(out@) =~= texts(before).push(cs@.subrange(a as int, b as int)));
        assert(raw.push(seg).map_values(|p: Seq<char>| trimmed(p)) =~= raw.map_values(
            |p: Seq<char>| trimmed(p),
        ).push(trimmed(seg)));
        assert(texts(out@) =~= base + raw.push(seg).map_values(|p: Seq<char>| trimmed(p)));
    }
}

/// Appends the characters of `s` to `out`.
pub fn push_text(out: &mut String, s: &str)
    ensures
        final(out)@ == old(out)@ + s@,
{
    let cs = char_vec(s);
    let ghost start = out@;
    let mut i: usize = 0;
    while i < cs.len()
        invariant
            i <= cs@.len(),
            cs@ == s@,
            out@ == start + cs@.subrange(0, i as int),
        decreases cs@.len() - i,
    {
        push_char(out, cs[i]);
        assert(cs@.subrange(0, i + 1) =~= cs@.subrange(0, i as int).push(cs@[i as int]));
        i = i + 1;
    }
    assert(cs@.subrange(0, cs@.len() as int) =~= s@);
}

/// The values of `list` joined by a comma and a space.
pub fn join_list(list: &Vec<String>) -> (r: String)
    ensures
        r@ == joined(texts(list@), list_separator()),
{
    let mut out = String::new();
    let mut i: usize = 0;
    while i < list.len()
        invariant
            i <= list@.len(),
            out@ == joined(texts(list@).subrange(0, i as int), list_separator()),
        decreases list@.len() - i,
    {
        let ghost l = texts(list@).subrange(0, i + 1);
        assert(l.drop_last() =~= texts(list@).subrange(0, i as int));
        if i > 0 {
            push_char(&mut out, ',');
            push_char(&mut out, ' ');
            assert(out@ =~= joined(l.drop_last(), list_separator()) + list_separator());
        } else {
            assert(out@ =~= Seq::<char>::empty());
        }
        push_text(&mut out, list[i].as_str());
        assert(l.last() == list@[i as int]@);
        i = i + 1;
    }
    assert(texts(list@).subrange(0, list@.len() as int) =~= texts(list@));
    out
}

} // verus!
