//! Numerals, the order in which texts are listed, and the lines of a text.

use vstd::prelude::*;
use vstd::string::*;
use vstd::utf8::encode_utf8;

verus! {

/// The character that writes the decimal digit `d`.
pub open spec fn digit_char(d: int) -> char {
    if d == 0 {
        '0'
    } else if d == 1 {
        '1'
    } else if d == 2 {
        '2'
    } else if d == 3 {
        '3'
    } else if d == 4 {
        '4'
    } else if d == 5 {
        '5'
    } else if d == 6 {
        '6'
    } else if d == 7 {
        '7'
    } else if d == 8 {
        '8'
    } else {
        '9'
    }
}

/// The decimal numeral of `n`, most significant digit first, without leading zeros.
pub open spec fn decimal(n: nat) -> Seq<char>
    decreases n,
{
    if n < 10 {
        seq![digit_char(n as int)]
    } else {
        decimal(n / 10).push(digit_char((n % 10) as int))
    }
}

/// A numeral has at least one digit.
pub proof fn lemma_decimal_nonempty(n: nat)
    ensures
        decimal(n).len() >= 1,
    decreases n,
{
    if n >= 10 {
        lemma_decimal_nonempty(n / 10);
    }
}

/// Different digits are written with different characters.
pub proof fn lemma_digit_char_injective(x: int, y: int)
    requires
        0 <= x < 10,
        0 <= y < 10,
        digit_char(x) == digit_char(y),
    ensures
        x == y,
{
}

/// Different numbers have different numerals.
pub proof fn lemma_decimal_injective(a: nat, b: nat)
    requires
        decimal(a) == decimal(b),
    ensures
        a == b,
    decreases a,
{
    lemma_decimal_nonempty(a / 10);
    lemma_decimal_nonempty(b / 10);
    if a < 10 && b < 10 {
        assert(decimal(a)[0] == digit_char(a as int));
        assert(decimal(b)[0] == digit_char(b as int));
        lemma_digit_char_injective(a as int, b as int);
    } else if a >= 10 && b >= 10 {
        let x = decimal(a / 10);
        let y = decimal(b / 10);
        assert(x.push(digit_char((a % 10) as int)).drop_last() =~= x);
        assert(y.push(digit_char((b % 10) as int)).drop_last() =~= y);
        assert(x.push(digit_char((a % 10) as int)).last() == digit_char((a % 10) as int));
        assert(y.push(digit_char((b % 10) as int)).last() == digit_char((b % 10) as int));
        lemma_decimal_injective(a / 10, b / 10);
        lemma_digit_char_injective((a % 10) as int, (b % 10) as int);
        assert(a == 10 * (a / 10) + a % 10);
        assert(b == 10 * (b / 10) + b % 10);
    } else if a < 10 {
        assert(decimal(a).len() == 1);
        assert(decimal(b).len() == decimal(b / 10).len() + 1);
    } else {
        assert(decimal(b).len() == 1);
        assert(decimal(a).len() == decimal(a / 10).len() + 1);
    }
}

/// The decimal numeral of an integer: that of its magnitude, behind a minus
/// sign where it is negative.
pub open spec fn signed_decimal(n: int) -> Seq<char> {
    if n < 0 {
        seq!['-'] + decimal((-n) as nat)
    } else {
        decimal(n as nat)
    }
}

/// The numeral at least two characters wide: a single character gets a zero
/// in front.
pub open spec fn two_wide(numeral: Seq<char>) -> Seq<char> {
    if numeral.len() < 2 {
        seq!['0'] + numeral
    } else {
        numeral
    }
}

/// The characters cut into groups of three from the right end, the groups
/// joined by commas.
pub open spec fn grouped(numeral: Seq<char>) -> Seq<char>
    decreases numeral.len(),
{
    if numeral.len() <= 3 {
        numeral
    } else {
        grouped(numeral.take(numeral.len() - 3)) + seq![','] + numeral.skip(numeral.len() - 3)
    }
}

/// Whether a character is one of those that numerals are written with.
pub open spec fn is_mark(c: char) -> bool {
    c == '-' || c == ',' || exists|d: int| 0 <= d < 10 && c == #[trigger] digit_char(d)
}

/// The character of a decimal digit.
pub(crate) fn digit_mark(d: u8) -> (c: char)
    requires
        d < 10,
    ensures
        c == digit_char(d as int),
        is_mark(c),
{
    assert(is_mark(digit_char(d as int)));
    if d == 0 {
        '0'
    } else if d == 1 {
        '1'
    } else if d == 2 {
        '2'
    } else if d == 3 {
        '3'
    } else if d == 4 {
        '4'
    } else if d == 5 {
        '5'
    } else if d == 6 {
        '6'
    } else if d == 7 {
        '7'
    } else if d == 8 {
        '8'
    } else {
        '9'
    }
}

/// Appends one numeral character to `out`.
pub(crate) fn push_mark(out: &mut String, c: char)
    requires
        is_mark(c),
    ensures
        final(out)@ == old(out)@.push(c),
{
    proof {
        reveal_strlit("0");
        reveal_strlit("1");
        reveal_strlit("2");
        reveal_strlit("3");
        reveal_strlit("4");
        reveal_strlit("5");
        reveal_strlit("6");
        reveal_strlit("7");
        reveal_strlit("8");
        reveal_strlit("9");
        reveal_strlit("-");
        reveal_strlit(",");
    }
    let lit: &str = if c == '0' {
        "0"
    } else if c == '1' {
        "1"
    } else if c == '2' {
        "2"
    } else if c == '3' {
        "3"
    } else if c == '4' {
        "4"
    } else if c == '5' {
        "5"
    } else if c == '6' {
        "6"
    } else if c == '7' {
        "7"
    } else if c == '8' {
        "8"
    } else if c == '9' {
        "9"
    } else if c == '-' {
        "-"
    } else {
        ","
    };
    assert(lit@ =~= seq![c]);
    out.append(lit);
    assert(out@ =~= old(out)@.push(c));
}

/// Writes numeral characters out as a string.
pub(crate) fn spell(marks: &Vec<char>) -> (out: String)
    requires
        forall|i: int| 0 <= i < marks@.len() ==> is_mark(#[trigger] marks@[i]),
    ensures
        out@ == marks@,
{
    let mut out = String::new();
    let mut i: usize = 0;
    while i < marks.len()
        invariant
            i <= marks.len(),
            forall|k: int| 0 <= k < marks@.len() ==> is_mark(#[trigger] marks@[k]),
            out@ == marks@.take(i as int),
        decreases marks.len() - i,
    {
        push_mark(&mut out, marks[i]);
        assert(out@ =~= marks@.take(i + 1));
        i = i + 1;
    }
    assert(marks@.take(i as int) =~= marks@);
    out
}

/// The decimal numeral of `n`, character by character.
pub(crate) fn decimal_marks(n: u128) -> (marks: Vec<char>)
    ensures
        marks@ == decimal(n as nat),
        forall|i: int| 0 <= i < marks@.len() ==> is_mark(#[trigger] marks@[i]),
{
    let mut low_first: Vec<char> = Vec::new();
    let mut rest: u128 = n;
    while rest >= 10
        invariant
            forall|i: int| 0 <= i < low_first@.len() ==> is_mark(#[trigger] low_first@[i]),
            decimal(n as nat) == decimal(rest as nat) + low_first@.reverse(),
        decreases rest,
    {
        let ghost before = low_first@;
        let ghost prev = rest;
        let d: u8 = (rest % 10) as u8;
        low_first.push(digit_mark(d));
        rest = rest / 10;
        assert(decimal(prev as nat) == decimal(rest as nat).push(digit_char(d as int)));
        assert(decimal(rest as nat).push(digit_char(d as int)) + before.reverse() =~= decimal(
            rest as nat,
        ) + low_first@.reverse());
    }
    low_first.push(digit_mark(rest as u8));
    let ghost tail = low_first@.drop_last();
    assert(low_first@.reverse() =~= decimal(rest as nat) + tail.reverse());
    let mut marks: Vec<char> = Vec::new();
    let mut k: usize = low_first.len();
    while k > 0
        invariant
            k <= low_first.len(),
            forall|i: int| 0 <= i < low_first@.len() ==> is_mark(#[trigger] low_first@[i]),
            marks@ == low_first@.reverse().take(low_first.len() - k),
        decreases k,
    {
        k = k - 1;
        marks.push(low_first[k]);
        assert(marks@ =~= low_first@.reverse().take(low_first.len() - k));
    }
    assert(low_first@.reverse().take(low_first.len() as int) =~= low_first@.reverse());
    marks
}

/// Renders `n` in decimal.
pub fn decimal_string(n: u128) -> (out: String)
    ensures
        out@ == decimal(n as nat),
{
    spell(&decimal_marks(n))
}

/// The decimal numeral of a signed integer, character by character.
pub(crate) fn signed_marks(n: i64) -> (marks: Vec<char>)
    ensures
        marks@ == signed_decimal(n as int),
        forall|i: int| 0 <= i < marks@.len() ==> is_mark(#[trigger] marks@[i]),
{
    if n < 0 {
        let magnitude: u128 = (-(n as i128)) as u128;
        let digits = decimal_marks(magnitude);
        let mut marks: Vec<char> = Vec::new();
        marks.push('-');
        let mut i: usize = 0;
        while i < digits.len()
            invariant
                i <= digits.len(),
                forall|k: int| 0 <= k < digits@.len() ==> is_mark(#[trigger] digits@[k]),
                marks@ == seq!['-'] + digits@.take(i as int),
            decreases digits.len() - i,
        {
            marks.push(digits[i]);
            assert(marks@ =~= seq!['-'] + digits@.take(i + 1));
            i = i + 1;
        }
        assert(digits@.take(i as int) =~= digits@);
        marks
    } else {
        decimal_marks(n as u128)
    }
}

/// Cuts numeral characters into groups of three from the right end and
/// joins the groups by commas.
pub(crate) fn group_marks(marks: &Vec<char>) -> (out: Vec<char>)
    requires
        forall|i: int| 0 <= i < marks@.len() ==> is_mark(#[trigger] marks@[i]),
    ensures
        out@ == grouped(marks@),
        forall|i: int| 0 <= i < out@.len() ==> is_mark(#[trigger] out@[i]),
{
    let mut tail: Vec<char> = Vec::new();
    let mut left: usize = marks.len();
    assert(marks@.take(left as int) =~= marks@);
    assert(grouped(marks@) =~= grouped(marks@.take(left as int)) + tail@);
    while left > 3
        invariant
            left <= marks.len(),
            forall|i: int| 0 <= i < marks@.len() ==> is_mark(#[trigger] marks@[i]),
            forall|i: int| 0 <= i < tail@.len() ==> is_mark(#[trigger] tail@[i]),
            grouped(marks@) == grouped(marks@.take(left as int)) + tail@,
        decreases left,
    {
        let ghost before = tail@;
        let ghost head = marks@.take(left as int);
        tail.insert(0, marks[left - 1]);
        tail.insert(0, marks[left - 2]);
        tail.insert(0, marks[left - 3]);
        tail.insert(0, ',');
        left = left - 3;
        assert(head.take(head.len() - 3) =~= marks@.take(left as int));
        assert(tail@ =~= seq![','] + head.skip(head.len() - 3) + before);
        assert(grouped(head) + before =~= grouped(marks@.take(left as int)) + tail@);
    }
    let mut out: Vec<char> = Vec::new();
    let mut i: usize = 0;
    while i < left
        invariant
            i <= left,
            left <= marks.len(),
            forall|k: int| 0 <= k < marks@.len() ==> is_mark(#[trigger] marks@[k]),
            out@ == marks@.take(i as int),
        decreases left - i,
    {
        out.push(marks[i]);
        assert(out@ =~= marks@.take(i + 1));
        i = i + 1;
    }
    let ghost head = out@;
    let mut k: usize = 0;
    while k < tail.len()
        invariant
            k <= tail.len(),
            forall|m: int| 0 <= m < tail@.len() ==> is_mark(#[trigger] tail@[m]),
            forall|m: int| 0 <= m < head.len() ==> is_mark(#[trigger] head[m]),
            out@ == head + tail@.take(k as int),
        decreases tail.len() - k,
    {
        out.push(tail[k]);
        assert(out@ =~= head + tail@.take(k + 1));
        k = k + 1;
    }
    assert(tail@.take(k as int) =~= tail@);
    out
}

/// Whether the bytes `a` stand at or before the bytes `b` in dictionary order.
pub open spec fn bytes_le(a: Seq<u8>, b: Seq<u8>) -> bool
    decreases a.len(),
{
    if a.len() == 0 {
        true
    } else if b.len() == 0 {
        false
    } else if a[0] == b[0] {
        bytes_le(a.skip(1), b.skip(1))
    } else {
        a[0] < b[0]
    }
}

/// Whether the text `a` stands at or before the text `b` when both are
/// compared byte by byte in their UTF-8 form.
pub open spec fn text_le(a: Seq<char>, b: Seq<char>) -> bool {
    bytes_le(encode_utf8(a), encode_utf8(b))
}

/// Of two byte strings one stands at or before the other.
pub proof fn lemma_bytes_le_total(a: Seq<u8>, b: Seq<u8>)
    ensures
        bytes_le(a, b) || bytes_le(b, a),
    decreases a.len(),
{
    if a.len() > 0 && b.len() > 0 && a[0] == b[0] {
        lemma_bytes_le_total(a.skip(1), b.skip(1));
    }
}

/// Dictionary order is transitive.
pub proof fn lemma_bytes_le_transitive(a: Seq<u8>, b: Seq<u8>, c: Seq<u8>)
    requires
        bytes_le(a, b),
        bytes_le(b, c),
    ensures
        bytes_le(a, c),
    decreases a.len(),
{
    if a.len() > 0 && a[0] == b[0] && b[0] == c[0] {
        lemma_bytes_le_transitive(a.skip(1), b.skip(1), c.skip(1));
    }
}

/// Decides `text_le`.
pub fn le_text(a: &str, b: &str) -> (le: bool)
    ensures
        le == text_le(a@, b@),
{
    let x = a.as_bytes();
    let y = b.as_bytes();
    let mut i: usize = 0;
    assert(x@.skip(0) =~= x@ && y@.skip(0) =~= y@);
    while i < x.len() && i < y.len()
        invariant
            i <= x.len(),
            i <= y.len(),
            x@ == encode_utf8(a@),
            y@ == encode_utf8(b@),
            bytes_le(x@, y@) == bytes_le(x@.skip(i as int), y@.skip(i as int)),
        decreases x.len() - i,
    {
        assert(x@.skip(i as int).skip(1) =~= x@.skip(i + 1));
        assert(y@.skip(i as int).skip(1) =~= y@.skip(i + 1));
        if x[i] != y[i] {
            return x[i] < y[i];
        }
        i = i + 1;
    }
    i == x.len()
}

/// The text cut at every newline: the pieces between the newlines, in
/// order. A text with n newlines has n + 1 pieces, some of them empty.
pub open spec fn pieces(text: Seq<char>) -> Seq<Seq<char>>
    decreases text.len(),
{
    if text.len() == 0 {
        seq![Seq::empty()]
    } else {
        let earlier = pieces(text.drop_last());
        if text.last() == '\n' {
            earlier.push(Seq::empty())
        } else {
            earlier.update(earlier.len() - 1, earlier.last().push(text.last()))
        }
    }
}

/// The piece without the carriage return that it ends in, if it ends in one.
pub open spec fn without_return(piece: Seq<char>) -> Seq<char> {
    if piece.len() > 0 && piece.last() == '\r' {
        piece.drop_last()
    } else {
        piece
    }
}

/// The lines of a text: its pieces, each piece that a newline ends taken
/// without the carriage return before that newline, and without the last
/// piece where that is empty.
pub open spec fn text_lines(text: Seq<char>) -> Seq<Seq<char>> {
    let cut = pieces(text);
    let count = if cut.last().len() == 0 {
        cut.len() - 1
    } else {
        cut.len() as int
    };
    Seq::new(
        count as nat,
        |i: int|
            if i < cut.len() - 1 {
                without_return(cut[i])
            } else {
                cut[i]
            },
    )
}

/// A text has at least one piece.
pub proof fn lemma_pieces_nonempty(text: Seq<char>)
    ensures
        pieces(text).len() >= 1,
    decreases text.len(),
{
    if text.len() > 0 {
        lemma_pieces_nonempty(text.drop_last());
    }
}

/// Cuts a text at every newline.
pub fn split_newlines(text: &str) -> (out: Vec<String>)
    ensures
        out.deep_view() == pieces(text@),
{
    let n = text.unicode_len();
    let mut out: Vec<String> = Vec::new();
    let mut start: usize = 0;
    let mut i: usize = 0;
    assert(text@.take(0) =~= Seq::empty());
    assert(out.deep_view().push(text@.subrange(0, 0)) =~= pieces(text@.take(0)));
    while i < n
        invariant
            start <= i <= n,
            n == text@.len(),
            pieces(text@.take(i as int)) == out.deep_view().push(
                text@.subrange(start as int, i as int),
            ),
        decreases n - i,
    {
        let ghost done = out.deep_view();
        assert(text@.take(i + 1).drop_last() =~= text@.take(i as int));
        assert(text@.take(i + 1).last() == text@[i as int]);
        if text.get_char(i) == '\n' {
            let ghost piece = text@.subrange(start as int, i as int);
            out.push(String::from_str(text.substring_char(start, i)));
            start = i + 1;
            assert(out.deep_view() =~= done.push(piece));
            assert(text@.subrange(start as int, i + 1) =~= Seq::<char>::empty());
            assert(out.deep_view().push(text@.subrange(start as int, i + 1)) =~= pieces(
                text@.take(i as int),
            ).push(Seq::empty()));
        } else {
            assert(text@.subrange(start as int, i + 1) =~= text@.subrange(
                start as int,
                i as int,
            ).push(text@[i as int]));
            assert(out.deep_view().push(text@.subrange(start as int, i + 1)) =~= pieces(
                text@.take(i as int),
            ).update(
                pieces(text@.take(i as int)).len() - 1,
                pieces(text@.take(i as int)).last().push(text@[i as int]),
            ));
        }
        i = i + 1;
    }
    let ghost done = out.deep_view();
    assert(text@.take(n as int) =~= text@);
    out.push(String::from_str(text.substring_char(start, n)));
    assert(out.deep_view() =~= done.push(text@.subrange(start as int, n as int)));
    out
}

/// Takes the carriage return off the end of a piece, if it ends in one.
pub fn strip_return(piece: &str) -> (out: String)
    ensures
        out@ == without_return(piece@),
{
    let n = piece.unicode_len();
    if n > 0 && piece.get_char(n - 1) == '\r' {
        let out = String::from_str(piece.substring_char(0, n - 1));
        assert(out@ =~= piece@.drop_last());
        out
    } else {
        String::from_str(piece)
    }
}

/// Cuts a text into its lines.
pub fn lines_of(text: &str) -> (out: Vec<String>)
    ensures
        out.deep_view() == text_lines(text@),
{
    let cut = split_newlines(text);
    proof {
        lemma_pieces_nonempty(text@);
    }
    let last = cut.len() - 1;
    let count = if cut[last].as_str().unicode_len() == 0 {
        last
    } else {
        cut.len()
    };
    let mut out: Vec<String> = Vec::new();
    let mut i: usize = 0;
    while i < count
        invariant
            i <= count <= cut.len(),
            last == cut.len() - 1,
            cut.deep_view() == pieces(text@),
            out@.len() == i,
            forall|k: int|
                0 <= k < i ==> (#[trigger] out@[k])@ == if k < cut.len() - 1 {
                    without_return(cut@[k]@)
                } else {
                    cut@[k]@
                },
        decreases count - i,
    {
        if i < last {
            out.push(strip_return(cut[i].as_str()));
        } else {
            out.push(cut[i].clone());
        }
        i = i + 1;
    }
    assert(cut.deep_view()[last as int] == cut@[last as int]@);
    assert(out.deep_view() =~= text_lines(text@)) by {
        assert forall|k: int| 0 <= k < cut@.len() implies cut.deep_view()[k] == cut@[k]@ by {}
    }
    out
}

} // verus!
