//! Laws of texts.

use vstd::prelude::*;

use crate::text::{
    is_space, line_scan, lines, lower, numeral, occurs, signed_numeral, text_leq, trim,
    trim_back, trim_front, word_scan, words,
};

verus! {

/// Whether no character of the text is white space.
pub open spec fn unspaced(s: Seq<char>) -> bool {
    forall|i: int| 0 <= i < s.len() ==> !is_space(#[trigger] s[i])
}

/// Whether every character of the text is white space.
pub open spec fn all_space(s: Seq<char>) -> bool {
    forall|i: int| 0 <= i < s.len() ==> is_space(#[trigger] s[i])
}

/// Lower case keeps the length, takes the ASCII capitals to their small letters and leaves every
/// other character alone.
pub proof fn lower_case_is_ascii(s: Seq<char>)
    ensures
        lower(s).len() == s.len(),
        forall|i: int|
            0 <= i < s.len() && 'A' <= s[i] <= 'Z' ==> (#[trigger] lower(s)[i]) as u32 == s[i] as u32
                + 32,
        forall|i: int|
            0 <= i < s.len() && !('A' <= s[i] <= 'Z') ==> #[trigger] lower(s)[i] == s[i],
{
}

proof fn lemma_trim_front(s: Seq<char>) -> (k: int)
    ensures
        0 <= k <= s.len(),
        trim_front(s) == s.skip(k),
        all_space(s.take(k)),
        trim_front(s).len() > 0 ==> !is_space(trim_front(s)[0]),
    decreases s.len(),
{
    if s.len() > 0 && is_space(s[0]) {
        let k = lemma_trim_front(s.skip(1));
        assert(s.skip(1).skip(k) == s.skip(k + 1));
        assert forall|i: int| 0 <= i < k + 1 implies is_space(#[trigger] s.take(k + 1)[i]) by {
            if i > 0 {
                assert(s.skip(1).take(k)[i - 1] == s[i]);
            }
        }
        k + 1
    } else {
        assert(s.skip(0) == s);
        0
    }
}

proof fn lemma_trim_back(s: Seq<char>) -> (k: int)
    ensures
        0 <= k <= s.len(),
        trim_back(s) == s.take(k),
        all_space(s.skip(k)),
        trim_back(s).len() > 0 ==> !is_space(trim_back(s).last()),
    decreases s.len(),
{
    if s.len() > 0 && is_space(s.last()) {
        let k = lemma_trim_back(s.drop_last());
        assert(s.drop_last().take(k) == s.take(k));
        assert forall|i: int| 0 <= i < s.len() - k implies is_space(#[trigger] s.skip(k)[i]) by {
            if i < s.len() - k - 1 {
                assert(s.drop_last().skip(k)[i] == s[k + i]);
            }
        }
        k
    } else {
        assert(s.take(s.len() as int) == s);
        s.len() as int
    }
}

/// Trimming takes white space from both ends and nothing else, and leaves none there.
pub proof fn trimming_takes_the_white_space_at_the_ends(s: Seq<char>)
    ensures
        exists|front: Seq<char>, back: Seq<char>|
            #![trigger all_space(front), all_space(back)]
            s == front + trim(s) + back && all_space(front) && all_space(back),
        trim(s).len() > 0 ==> !is_space(trim(s)[0]) && !is_space(trim(s).last()),
{
    let k = lemma_trim_front(s);
    let m = trim_front(s);
    let n = lemma_trim_back(m);
    let front = s.take(k);
    let back = m.skip(n);
    assert(s =~= front + trim(s) + back);
    assert(all_space(front) && all_space(back));
    if trim(s).len() > 0 {
        assert(trim(s)[0] == m[0]);
    }
}

proof fn lemma_unspaced_word(s: Seq<char>)
    requires
        unspaced(s),
    ensures
        word_scan(s) == (Seq::<Seq<char>>::empty(), s),
    decreases s.len(),
{
    if s.len() > 0 {
        assert forall|i: int| 0 <= i < s.drop_last().len() implies !is_space(
            #[trigger] s.drop_last()[i],
        ) by {
            assert(s.drop_last()[i] == s[i]);
        }
        lemma_unspaced_word(s.drop_last());
        assert(s.last() == s[s.len() - 1]);
        assert(s.drop_last().push(s.last()) == s);
    }
}

/// Without white space a text is a single word, and the empty text has none.
pub proof fn unspaced_text_is_one_word(s: Seq<char>)
    requires
        unspaced(s),
    ensures
        s.len() == 0 ==> words(s).len() == 0,
        s.len() > 0 ==> words(s) == seq![s],
{
    lemma_unspaced_word(s);
}

proof fn lemma_words_after_space(a: Seq<char>, c: char, b: Seq<char>)
    requires
        is_space(c),
    ensures
        word_scan(a.push(c) + b).0 == words(a) + word_scan(b).0,
        word_scan(a.push(c) + b).1 == word_scan(b).1,
    decreases b.len(),
{
    let s = a.push(c) + b;
    if b.len() == 0 {
        assert(s == a.push(c));
        assert(s.drop_last() == a);
    } else {
        lemma_words_after_space(a, c, b.drop_last());
        assert(s.drop_last() == a.push(c) + b.drop_last());
        assert(s.last() == b.last());
        let (closed, open) = word_scan(b.drop_last());
        if is_space(b.last()) && open.len() > 0 {
            assert((words(a) + closed).push(open) == words(a) + closed.push(open));
        }
    }
}

/// White space parts words: the words of a text with white space in the middle are those before
/// it and those behind it. With the law on texts without white space this says what the words of
/// any text are.
pub proof fn white_space_parts_words(a: Seq<char>, c: char, b: Seq<char>)
    requires
        is_space(c),
    ensures
        words(a.push(c) + b) == words(a) + words(b),
{
    lemma_words_after_space(a, c, b);
    let (closed, open) = word_scan(b);
    if open.len() > 0 {
        assert((words(a) + closed).push(open) == words(a) + closed.push(open));
    }
}

/// A part occurs in a text if and only if the text is the part with something on either side.
pub proof fn occurring_is_lying_between(part: Seq<char>, s: Seq<char>)
    ensures
        occurs(part, s) ==> exists|a: Seq<char>, b: Seq<char>| s == #[trigger] (a + part + b),
        forall|a: Seq<char>, b: Seq<char>| #[trigger] occurs(part, a + part + b),
{
    if occurs(part, s) {
        let i = choose|i: int|
            0 <= i <= s.len() - part.len() && #[trigger] s.subrange(i, i + part.len()) == part;
        let a = s.take(i);
        let b = s.skip(i + part.len());
        assert(s.subrange(i, i + part.len()) == part);
        assert(s =~= a + part + b) by {
            assert forall|j: int| 0 <= j < s.len() implies s[j] == (a + part + b)[j] by {
                if i <= j < i + part.len() {
                    assert(s.subrange(i, i + part.len())[j - i] == s[j]);
                }
            }
        }
    }
    assert forall|a: Seq<char>, b: Seq<char>| #[trigger] occurs(part, a + part + b) by {
        let t = a + part + b;
        let i = a.len() as int;
        assert(t.subrange(i, i + part.len()) =~= part);
    }
}

/// Whether a text holds no line feed.
pub open spec fn single_line(s: Seq<char>) -> bool {
    forall|i: int| 0 <= i < s.len() ==> #[trigger] s[i] != '\n'
}

/// A line without the carriage return that belongs to its ending.
pub open spec fn without_return(s: Seq<char>) -> Seq<char> {
    if s.len() > 0 && s.last() == '\r' {
        s.drop_last()
    } else {
        s
    }
}

proof fn lemma_single_line(s: Seq<char>)
    requires
        single_line(s),
    ensures
        line_scan(s) == (Seq::<Seq<char>>::empty(), s),
    decreases s.len(),
{
    if s.len() > 0 {
        assert forall|i: int| 0 <= i < s.drop_last().len() implies #[trigger] s.drop_last()[i]
            != '\n' by {
            assert(s.drop_last()[i] == s[i]);
        }
        lemma_single_line(s.drop_last());
        assert(s.last() == s[s.len() - 1]);
        assert(s.drop_last().push(s.last()) == s);
    }
}

proof fn lemma_first_line(line: Seq<char>, rest: Seq<char>)
    requires
        single_line(line),
    ensures
        line_scan(line.push('\n') + rest).0 == seq![without_return(line)] + line_scan(rest).0,
        line_scan(line.push('\n') + rest).1 == line_scan(rest).1,
    decreases rest.len(),
{
    let s = line.push('\n') + rest;
    if rest.len() == 0 {
        assert(s == line.push('\n'));
        assert(s.drop_last() == line);
        lemma_single_line(line);
    } else {
        lemma_first_line(line, rest.drop_last());
        assert(s.drop_last() == line.push('\n') + rest.drop_last());
        assert(s.last() == rest.last());
        let first = seq![without_return(line)];
        let (closed, open) = line_scan(rest.drop_last());
        if rest.last() == '\n' {
            assert((first + closed).push(without_return(open)) == first + closed.push(
                without_return(open),
            ));
        }
    }
}

/// A line feed ends a line, together with a carriage return directly before it; what is left at
/// the end without one is a line of its own, unless it is empty. This says what the lines of any
/// text are.
pub proof fn line_feeds_end_lines(line: Seq<char>, rest: Seq<char>)
    requires
        single_line(line),
    ensures
        lines(line.push('\n') + rest) == seq![without_return(line)] + lines(rest),
        line.len() == 0 ==> lines(line).len() == 0,
        line.len() > 0 ==> lines(line) == seq![line],
{
    lemma_first_line(line, rest);
    lemma_single_line(line);
    let first = seq![without_return(line)];
    let (closed, open) = line_scan(rest);
    if open.len() > 0 {
        assert((first + closed).push(open) == first + closed.push(open));
    }
}

/// The number that a row of decimal digits stands for.
pub open spec fn value_of(digits: Seq<char>) -> int
    decreases digits.len(),
{
    if digits.len() == 0 {
        0
    } else {
        10 * value_of(digits.drop_last()) + (digits.last() as u32 - '0' as u32)
    }
}

/// A number is written in decimal digits that stand for it, and begins with a zero only if it is
/// zero.
pub proof fn numerals_stand_for_their_number(n: nat)
    ensures
        numeral(n).len() > 0,
        forall|i: int| 0 <= i < numeral(n).len() ==> '0' <= #[trigger] numeral(n)[i] <= '9',
        value_of(numeral(n)) == n,
        n > 0 ==> numeral(n)[0] != '0',
        n == 0 ==> numeral(n) == seq!['0'],
    decreases n,
{
    if n >= 10 {
        numerals_stand_for_their_number(n / 10);
        assert(numeral(n).drop_last() == numeral(n / 10));
        assert forall|i: int| 0 <= i < numeral(n).len() implies '0' <= #[trigger] numeral(n)[i]
            <= '9' by {
            if i < numeral(n).len() - 1 {
                assert(numeral(n)[i] == numeral(n / 10)[i]);
            }
        }
        assert(numeral(n)[0] == numeral(n / 10)[0]);
    } else {
        assert(numeral(n).drop_last() == Seq::<char>::empty());
        assert(value_of(Seq::<char>::empty()) == 0);
    }
}

/// A negative number is written as its distance from zero behind a minus sign.
pub proof fn negative_numerals_carry_a_sign(n: int)
    ensures
        n >= 0 ==> signed_numeral(n) == numeral(n as nat),
        n < 0 ==> signed_numeral(n) == seq!['-'] + numeral((-n) as nat),
{
}

/// Texts are ordered as words in a dictionary: by the first character in which they differ, and
/// the shorter one first where there is none.
pub proof fn texts_are_ordered_by_their_first_difference(
    common: Seq<char>,
    x: char,
    a: Seq<char>,
    y: char,
    b: Seq<char>,
)
    ensures
        text_leq(common, common + a),
        x != y ==> text_leq(common + (seq![x] + a), common + (seq![y] + b)) == (x < y),
        !text_leq(common + (seq![x] + a), common),
    decreases common.len(),
{
    let p = common + (seq![x] + a);
    let q = common + (seq![y] + b);
    if common.len() > 0 {
        let rest = common.skip(1);
        texts_are_ordered_by_their_first_difference(rest, x, a, y, b);
        assert(p.skip(1) == rest + (seq![x] + a));
        assert(q.skip(1) == rest + (seq![y] + b));
        assert((common + a).skip(1) == rest + a);
        assert(p[0] == common[0] && q[0] == common[0] && (common + a)[0] == common[0]);
    } else {
        assert(p[0] == x && q[0] == y);
        assert(common + a == a);
    }
}

} // verus!
