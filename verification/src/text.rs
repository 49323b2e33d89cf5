//! Text as sequences of characters: decimal numerals, joining with a
//! separator, and the small builders the renderer is made of.

use vstd::prelude::*;
use vstd::std_specs::iter::IteratorSpec;
use vstd::string::*;

verus! {

/// The character that writes a value below ten.
pub open spec fn digit(d: nat) -> char {
    if d == 0 {
        '0'
    } else if d == 1 {
        '1'
    } else if d == 2 {
        '2'
    } else if d == 3 {
        '3'
    } else if d == 4 {
        '4'
    } else if d == 5 {
        '5'
    } else if d == 6 {
        '6'
    } else if d == 7 {
        '7'
    } else if d == 8 {
        '8'
    } else {
        '9'
    }
}

/// The decimal numeral of a natural number, without leading zeros.
pub open spec fn decimal(n: nat) -> Seq<char>
    decreases n,
{
    if n < 10 {
        seq![digit(n)]
    } else {
        decimal(n / 10).push(digit(n % 10))
    }
}

/// The decimal numeral of an integer: a minus sign in front of a negative one.
pub open spec fn signed_decimal(v: int) -> Seq<char> {
    if v < 0 {
        seq!['-'] + decimal((-v) as nat)
    } else {
        decimal(v as nat)
    }
}

/// The parts in order, with the separator between each two neighbours.
pub open spec fn join(parts: Seq<Seq<char>>, sep: Seq<char>) -> Seq<char>
    decreases parts.len(),
{
    if parts.len() == 0 {
        Seq::empty()
    } else if parts.len() == 1 {
        parts[0]
    } else {
        join(parts.drop_last(), sep) + sep + parts.last()
    }
}

/// The views of a list of strings.
pub open spec fn views(parts: Seq<String>) -> Seq<Seq<char>> {
    Seq::new(parts.len(), |i: int| parts[i]@)
}

/// `String::push` of the standard library: the text gains the one character at
/// its end and is otherwise unchanged.
#[verifier::external_body]
pub(crate) fn push_char(text: &mut String, c: char)
    ensures
        final(text)@ == old(text)@.push(c),
{
    text.push(c);
}

/// The character for a value below ten.
pub fn digit_char(d: u8) -> (c: char)
    requires
        d < 10,
    ensures
        c == digit(d as nat),
{
    if d == 0 {
        '0'
    } else if d == 1 {
        '1'
    } else if d == 2 {
        '2'
    } else if d == 3 {
        '3'
    } else if d == 4 {
        '4'
    } else if d == 5 {
        '5'
    } else if d == 6 {
        '6'
    } else if d == 7 {
        '7'
    } else if d == 8 {
        '8'
    } else {
        '9'
    }
}

/// Writes a number in decimal.
pub fn decimal_text(n: u64) -> (out: String)
    ensures
        out@ == decimal(n as nat),
    decreases n,
{
    if n < 10 {
        let mut out = String::new();
        push_char(&mut out, digit_char(n as u8));
        out
    } else {
        let mut out = decimal_text(n / 10);
        push_char(&mut out, digit_char((n % 10) as u8));
        out
    }
}

/// Joins the parts from one position up to another, with the separator
/// between each two neighbours.
pub fn join_range(parts: &Vec<String>, from: usize, to: usize, sep: &str) -> (out: String)
    requires
        from <= to <= parts.len(),
    ensures
        out@ == join(views(parts@).subrange(from as int, to as int), sep@),
{
    let mut out = String::new();
    let mut i: usize = from;
    while i < to
        invariant
            from <= i <= to <= parts.len(),
            out@ == join(views(parts@).subrange(from as int, i as int), sep@),
        decreases to - i,
    {
        if i > from {
            out.append(sep);
        }
        out.append(parts[i].as_str());
        proof {
            let all = views(parts@);
            assert(all.subrange(from as int, i + 1).drop_last() =~= all.subrange(
                from as int,
                i as int,
            ));
            assert(all.subrange(from as int, i + 1).last() == parts[i as int]@);
            if i == from {
                assert(out@ =~= parts[i as int]@);
            }
        }
        i = i + 1;
    }
    out
}

/// Joins the parts with the separator between each two neighbours.
pub fn join_text(parts: &Vec<String>, sep: &str) -> (out: String)
    ensures
        out@ == join(views(parts@), sep@),
{
    proof {
        assert(views(parts@).subrange(0, parts.len() as int) =~= views(parts@));
    }
    join_range(parts, 0, parts.len(), sep)
}

/// The view of a text that may be absent.
pub open spec fn option_view(text: Option<String>) -> Option<Seq<char>> {
    match text {
        Some(s) => Some(s@),
        None => None,
    }
}

/// The text between double quotes.
pub open spec fn quoted(s: Seq<char>) -> Seq<char> {
    "\""@ + s + "\""@
}

/// The items between square brackets, separated by a comma and a space.
pub open spec fn bracketed(items: Seq<Seq<char>>) -> Seq<char> {
    "["@ + join(items, ", "@) + "]"@
}

/// The items taken in groups of `size` from the front, the last group being
/// whatever is left, each group written between brackets.
pub open spec fn bracketed_groups(items: Seq<Seq<char>>, size: nat) -> Seq<Seq<char>>
    decreases items.len(),
{
    if items.len() == 0 || size == 0 {
        Seq::empty()
    } else if items.len() <= size {
        seq![bracketed(items)]
    } else {
        seq![bracketed(items.take(size as int))] + bracketed_groups(
            items.skip(size as int),
            size,
        )
    }
}

/// Writes the items in bracketed groups of `size`.
pub fn group_texts(items: &Vec<String>, size: usize) -> (out: Vec<String>)
    requires
        size > 0,
    ensures
        views(out@) == bracketed_groups(views(items@), size as nat),
{
    let mut out: Vec<String> = Vec::new();
    let mut start: usize = 0;
    proof {
        assert(views(items@).skip(0) =~= views(items@));
        assert(views(out@) + bracketed_groups(views(items@), size as nat) =~= bracketed_groups(
            views(items@),
            size as nat,
        ));
    }
    while start < items.len()
        invariant
            size > 0,
            start <= items.len(),
            views(out@) + bracketed_groups(views(items@).skip(start as int), size as nat)
                == bracketed_groups(views(items@), size as nat),
        decreases items.len() - start,
    {
        let end: usize = if items.len() - start <= size {
            items.len()
        } else {
            start + size
        };
        let inner = join_range(items, start, end, ", ");
        let group = enclose("[", inner.as_str(), "]");
        proof {
            let all = views(items@);
            let rest = all.skip(start as int);
            assert(all.subrange(start as int, end as int) =~= rest.take(end - start));
            if end == items.len() {
                assert(rest.take(end - start) =~= rest);
                assert(all.skip(end as int) =~= Seq::<Seq<char>>::empty());
                assert(bracketed_groups(rest, size as nat) =~= seq![group@]
                    + bracketed_groups(all.skip(end as int), size as nat));
            } else {
                assert(rest.skip(size as int) =~= all.skip(end as int));
            }
            assert(views(out@.push(group)) =~= views(out@) + seq![group@]);
            assert(views(out@) + (seq![group@] + bracketed_groups(
                all.skip(end as int),
                size as nat,
            )) =~= views(out@.push(group)) + bracketed_groups(all.skip(end as int), size as nat));
        }
        out.push(group);
        start = end;
    }
    proof {
        assert(views(items@).skip(start as int) =~= Seq::<Seq<char>>::empty());
        assert(views(out@) + Seq::<Seq<char>>::empty() =~= views(out@));
    }
    out
}

/// The decimal numerals of a run of bytes.
pub open spec fn byte_numerals(bytes: Seq<u8>) -> Seq<Seq<char>> {
    Seq::new(bytes.len(), |i: int| decimal(bytes[i] as nat))
}

/// Writes each byte in decimal.
pub fn byte_texts(bytes: &Vec<u8>) -> (out: Vec<String>)
    ensures
        views(out@) == byte_numerals(bytes@),
{
    let mut out: Vec<String> = Vec::new();
    let mut i: usize = 0;
    while i < bytes.len()
        invariant
            i <= bytes.len(),
            out.len() == i,
            forall|k: int| 0 <= k < i ==> (#[trigger] out[k])@ == decimal(bytes[k] as nat),
        decreases bytes.len() - i,
    {
        out.push(decimal_text(bytes[i] as u64));
        i = i + 1;
    }
    proof {
        assert(views(out@) =~= byte_numerals(bytes@));
    }
    out
}

/// Whether two texts are the same.
pub fn same_text(a: &str, b: &str) -> (same: bool)
    ensures
        same == (a@ == b@),
{
    let left = String::from_str(a);
    let right = String::from_str(b);
    left == right
}

/// The text without any occurrence of one character.
pub open spec fn without(s: Seq<char>, unwanted: char) -> Seq<char> {
    s.filter(|c: char| c != unwanted)
}

/// Copies a text, leaving out every occurrence of one character.
pub fn remove_char(s: &str, unwanted: char) -> (out: String)
    ensures
        out@ == without(s@, unwanted),
{
    let mut out = String::new();
    let mut rest = s.chars();
    proof {
        assert(rest.remaining() == s@);
        assert(Seq::<char>::empty() + without(s@, unwanted) =~= without(s@, unwanted));
    }
    loop
        invariant
            rest.obeys_prophetic_iter_laws(),
            rest.decrease() is Some,
            without(s@, unwanted) == out@ + without(rest.remaining(), unwanted),
        decreases rest.decrease()->0,
    {
        let ghost before = rest.remaining();
        match rest.next() {
            Some(c) => {
                proof {
                    assert(before =~= seq![c] + before.drop_first());
                    Seq::filter_distributes_over_add(
                        seq![c],
                        before.drop_first(),
                        |c: char| c != unwanted,
                    );
                    reveal_with_fuel(Seq::filter, 2);
                    assert(seq![c].drop_last() =~= Seq::<char>::empty());
                }
                if c != unwanted {
                    push_char(&mut out, c);
                }
                assert(without(s@, unwanted) =~= out@ + without(rest.remaining(), unwanted));
            },
            None => {
                proof {
                    reveal_with_fuel(Seq::filter, 1);
                    assert(without(rest.remaining(), unwanted) =~= Seq::<char>::empty());
                    assert(out@ + Seq::<char>::empty() =~= out@);
                }
                return out;
            },
        }
    }
}

/// The middle part between an opening and a closing part.
pub fn enclose(open: &str, inner: &str, close: &str) -> (out: String)
    ensures
        out@ == open@ + inner@ + close@,
{
    let mut out = String::from_str(open);
    out.append(inner);
    out.append(close);
    out
}

/// Two parts with fixed text before, between and after them.
pub fn enclose2(open: &str, first: &str, mid: &str, second: &str, close: &str) -> (out: String)
    ensures
        out@ == open@ + first@ + mid@ + second@ + close@,
{
    let mut out = String::from_str(open);
    out.append(first);
    out.append(mid);
    out.append(second);
    out.append(close);
    out
}

/// Three parts with fixed text before, between and after them.
pub fn enclose3(
    open: &str,
    first: &str,
    mid: &str,
    second: &str,
    sep: &str,
    third: &str,
    close: &str,
) -> (out: String)
    ensures
        out@ == open@ + first@ + mid@ + second@ + sep@ + third@ + close@,
{
    let mut out = String::from_str(open);
    out.append(first);
    out.append(mid);
    out.append(second);
    out.append(sep);
    out.append(third);
    out.append(close);
    out
}

} // verus!
