//! Numbers written in decimal, and texts split, joined, trimmed and replaced.

use crate::text;
use vstd::prelude::*;
use vstd::string::*;

verus! {

/// The number that decimal digits stand for.
pub open spec fn value(digits: Seq<char>) -> int
    decreases digits.len(),
{
    if digits.len() == 0 {
        0
    } else {
        10 * value(digits.drop_last()) + (digits.last() as int - 48)
    }
}

/// Whether a text is made of the ten decimal digits alone.
pub open spec fn all_digits(s: Seq<char>) -> bool {
    forall|i: int| 0 <= i < s.len() ==> '0' <= #[trigger] s[i] <= '9'
}

/// A number in decimal reads back as that number. It is made of digits alone, and starts with
/// a zero only where that is all of it.
pub proof fn law_decimal_reads_back(n: nat)
    ensures
        value(text::decimal(n)) == n,
        all_digits(text::decimal(n)),
        text::decimal(n).len() >= 1,
        text::decimal(n).len() > 1 ==> text::decimal(n)[0] != '0',
        n > 0 ==> text::decimal(n)[0] != '0',
    decreases n,
{
    let shown = text::decimal(n);
    if n < 10 {
        reveal_with_fuel(value, 2);
        assert(shown.drop_last() =~= Seq::<char>::empty());
    } else {
        law_decimal_reads_back(n / 10);
        assert(shown.drop_last() =~= text::decimal(n / 10));
        assert(shown[0] == text::decimal(n / 10)[0]);
    }
}

/// With a leading zero a number below a hundred has two digits; it reads back as that number,
/// and from ten on the leading zero is not there.
pub proof fn law_two_digits_read_back(n: nat)
    ensures
        value(text::decimal2(n)) == n,
        all_digits(text::decimal2(n)),
        n < 100 ==> text::decimal2(n).len() == 2,
        n >= 10 ==> text::decimal2(n) == text::decimal(n),
{
    law_decimal_reads_back(n);
    let shown = text::decimal2(n);
    if n < 10 {
        reveal_with_fuel(value, 3);
        assert(shown.drop_last() =~= seq!['0']);
        assert(seq!['0'].drop_last() =~= Seq::<char>::empty());
    } else if n < 100 {
        reveal_with_fuel(text::decimal, 2);
    }
}

/// Nothing joined is nothing, one part is itself, and every further part follows a separator.
pub proof fn law_joined_grows_by_separator_and_part(
    parts: Seq<Seq<char>>,
    part: Seq<char>,
    separator: Seq<char>,
)
    ensures
        text::joined(seq![], separator) == Seq::<char>::empty(),
        text::joined(seq![part], separator) == part,
        parts.len() > 0 ==> text::joined(parts.push(part), separator) == text::joined(
            parts,
            separator,
        ) + separator + part,
{
    assert(parts.push(part).drop_last() =~= parts);
}

/// Pieces put together again, with the separator between neighbours.
pub open spec fn glued<T>(parts: Seq<Seq<T>>, separator: T) -> Seq<T>
    decreases parts.len(),
{
    if parts.len() == 0 {
        seq![]
    } else if parts.len() == 1 {
        parts[0]
    } else {
        glued(parts.drop_last(), separator).push(separator) + parts.last()
    }
}

/// The pieces of a sequence, put together again, are the sequence, and no piece holds a
/// separator.
pub proof fn law_pieces_glue_back<T>(s: Seq<T>, separator: T)
    ensures
        glued(text::pieces(s, separator), separator) == s,
        text::pieces(s, separator).len() >= 1,
        forall|i: int, k: int|
            0 <= i < text::pieces(s, separator).len() && 0 <= k < text::pieces(
                s,
                separator,
            )[i].len() ==> #[trigger] text::pieces(s, separator)[i][k] != separator,
    decreases s.len(),
{
    let after = text::pieces(s, separator);
    if s.len() > 0 {
        let front = s.drop_last();
        let last = s.last();
        law_pieces_glue_back(front, separator);
        let before = text::pieces(front, separator);
        if last == separator {
            assert(after.drop_last() =~= before);
            assert(glued(after, separator) =~= s);
            assert forall|i: int, k: int|
                0 <= i < after.len() && 0 <= k < after[i].len() implies #[trigger] after[i][k]
                != separator by {
                if i < before.len() {
                    assert(after[i][k] == before[i][k]);
                }
            }
        } else {
            assert(after.drop_last() =~= before.drop_last());
            assert(after.last() =~= before.last().push(last));
            if before.len() == 1 {
                assert(glued(after, separator) =~= front.push(last));
            } else {
                let head = glued(before.drop_last(), separator).push(separator);
                assert(front == head + before.last());
                assert(glued(after, separator) == head + after.last());
                assert(head + after.last() =~= front.push(last));
            }
            assert(front.push(last) =~= s);
            assert forall|i: int, k: int|
                0 <= i < after.len() && 0 <= k < after[i].len() implies #[trigger] after[i][k]
                != separator by {
                if i < before.len() - 1 {
                    assert(after[i][k] == before[i][k]);
                } else if k < before.last().len() {
                    assert(after[i][k] == before[i][k]);
                }
            }
        }
    }
}

/// Whether a text is white space alone.
pub open spec fn all_white(s: Seq<char>) -> bool {
    forall|i: int| 0 <= i < s.len() ==> text::white_space(#[trigger] s[i])
}

proof fn lemma_trimmed_start(s: Seq<char>) -> (white: Seq<char>)
    ensures
        s == white + text::trimmed_start(s),
        all_white(white),
        text::trimmed_start(s).len() > 0 ==> !text::white_space(text::trimmed_start(s)[0]),
    decreases s.len(),
{
    if s.len() > 0 && text::white_space(s.first()) {
        let rest = lemma_trimmed_start(s.drop_first());
        let white = seq![s.first()] + rest;
        assert(white + text::trimmed_start(s) =~= s) by {
            assert(s.drop_first() == rest + text::trimmed_start(s));
            assert(s =~= seq![s.first()] + s.drop_first());
        }
        assert forall|i: int| 0 <= i < white.len() implies text::white_space(
            #[trigger] white[i],
        ) by {
            if i > 0 {
                assert(white[i] == rest[i - 1]);
            }
        }
        white
    } else {
        assert(s =~= Seq::<char>::empty() + s);
        Seq::empty()
    }
}

proof fn lemma_trimmed_end(s: Seq<char>) -> (white: Seq<char>)
    ensures
        s == text::trimmed_end(s) + white,
        all_white(white),
        text::trimmed_end(s).len() > 0 ==> !text::white_space(text::trimmed_end(s).last()),
    decreases s.len(),
{
    if s.len() > 0 && text::white_space(s.last()) {
        let rest = lemma_trimmed_end(s.drop_last());
        let white = rest.push(s.last());
        assert(text::trimmed_end(s) + white =~= s) by {
            assert(s.drop_last() == text::trimmed_end(s) + rest);
            assert(s =~= s.drop_last().push(s.last()));
        }
        white
    } else {
        assert(s =~= s + Seq::<char>::empty());
        Seq::empty()
    }
}

/// Trimming takes white space off both ends, all of it, and nothing else.
pub proof fn law_trimming_takes_white_ends(s: Seq<char>)
    ensures
        exists|before: Seq<char>, after: Seq<char>|
            all_white(before) && all_white(after) && s == #[trigger] (before + text::trimmed(s)
                + after),
        text::trimmed(s).len() > 0 ==> !text::white_space(text::trimmed(s)[0])
            && !text::white_space(text::trimmed(s).last()),
{
    let before = lemma_trimmed_start(s);
    let middle = text::trimmed_start(s);
    let after = lemma_trimmed_end(middle);
    assert(before + text::trimmed(s) + after =~= s);
    if text::trimmed(s).len() > 0 {
        assert(middle[0] == text::trimmed(s)[0]);
    }
}

/// Where a character stands in the middle of a text and nowhere else in it, the replacement
/// stands in its place; a text without the character stays as it is.
pub proof fn law_replacement_takes_the_place(
    before: Seq<char>,
    c: char,
    after: Seq<char>,
    with: Seq<char>,
)
    requires
        forall|i: int| 0 <= i < before.len() ==> #[trigger] before[i] != c,
        forall|i: int| 0 <= i < after.len() ==> #[trigger] after[i] != c,
    ensures
        text::replaced(before, c, with) == before,
        text::replaced(before.push(c) + after, c, with) == before + with + after,
    decreases after.len(),
{
    lemma_nothing_replaced(before, c, with);
    if after.len() == 0 {
        assert(before.push(c) + after =~= before.push(c));
        assert(before.push(c).drop_last() =~= before);
        assert(before + with + after =~= before + with);
    } else {
        let s = before.push(c) + after;
        let front = after.drop_last();
        assert forall|i: int| 0 <= i < front.len() implies #[trigger] front[i] != c by {
            assert(front[i] == after[i]);
        }
        law_replacement_takes_the_place(before, c, front, with);
        assert(s.drop_last() =~= before.push(c) + front);
        assert(s.last() == after[after.len() - 1]);
        assert(text::replaced(s, c, with) =~= before + with + after);
    }
}

proof fn lemma_nothing_replaced(s: Seq<char>, c: char, with: Seq<char>)
    requires
        forall|i: int| 0 <= i < s.len() ==> #[trigger] s[i] != c,
    ensures
        text::replaced(s, c, with) == s,
    decreases s.len(),
{
    if s.len() > 0 {
        let front = s.drop_last();
        assert forall|i: int| 0 <= i < front.len() implies #[trigger] front[i] != c by {
            assert(front[i] == s[i]);
        }
        lemma_nothing_replaced(front, c, with);
        assert(s[s.len() - 1] != c);
        assert(text::replaced(s, c, with) =~= s);
    }
}

} // verus!
