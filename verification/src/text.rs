//! Plain text: decimal numbers, splitting and joining at a separator.

use vstd::prelude::*;

verus! {

/// The texts of a list of strings.
pub open spec fn texts(parts: Seq<String>) -> Seq<Seq<char>> {
    parts.map_values(|part: String| part@)
}

/// The text of an optional string.
pub open spec fn opt_text(text: Option<String>) -> Option<Seq<char>> {
    match text {
        Some(t) => Some(t@),
        None => None,
    }
}

/// The character of a decimal digit.
pub open spec fn digit_char(d: nat) -> char {
    (48 + d) as char
}

/// The decimal digits of a natural number, without leading zeros.
pub open spec fn digits(n: nat) -> Seq<char>
    decreases n,
{
    if n < 10 {
        seq![digit_char(n)]
    } else {
        digits(n / 10).push(digit_char(n % 10))
    }
}

/// The decimal text of an integer.
pub open spec fn decimal(n: int) -> Seq<char> {
    if n < 0 {
        seq!['-'] + digits((-n) as nat)
    } else {
        digits(n as nat)
    }
}

/// The text of a truth value.
pub open spec fn bool_text(b: bool) -> Seq<char> {
    if b {
        "true"@
    } else {
        "false"@
    }
}

/// Whether the two texts are the same.
pub fn same_text(a: &str, b: &str) -> (same: bool)
    ensures
        same == (a@ == b@),
{
    a.to_owned() == b.to_owned()
}

fn push_digit(out: &mut String, d: u64)
    requires
        d < 10,
    ensures
        final(out)@ == old(out)@.push(digit_char(d as nat)),
{
    proof {
        reveal_strlit("0");
        reveal_strlit("1");
        reveal_strlit("2");
        reveal_strlit("3");
        reveal_strlit("4");
        reveal_strlit("5");
        reveal_strlit("6");
        reveal_strlit("7");
        reveal_strlit("8");
        reveal_strlit("9");
    }
    let digit = match d {
        0 => "0",
        1 => "1",
        2 => "2",
        3 => "3",
        4 => "4",
        5 => "5",
        6 => "6",
        7 => "7",
        8 => "8",
        _ => "9",
    };
    out.append(digit);
    assert(out@ =~= old(out)@.push(digit_char(d as nat)));
}

fn push_digits(out: &mut String, n: u64)
    ensures
        final(out)@ == old(out)@ + digits(n as nat),
    decreases n,
{
    if n >= 10 {
        push_digits(out, n / 10);
    }
    push_digit(out, n % 10);
    assert(out@ =~= old(out)@ + digits(n as nat));
}

/// The decimal text of `n`.
pub fn decimal_u64(n: u64) -> (text: String)
    ensures
        text@ == decimal(n as int),
{
    let mut out = String::new();
    push_digits(&mut out, n);
    assert(out@ =~= digits(n as nat));
    out
}

/// The decimal text of `n`.
pub fn decimal_i64(n: i64) -> (text: String)
    ensures
        text@ == decimal(n as int),
{
    if n >= 0 {
        return decimal_u64(n as u64);
    }
    let mut out = "-".to_owned();
    proof {
        reveal_strlit("-");
    }
    let magnitude: u64 = if n == i64::MIN {
        9223372036854775808
    } else {
        (-n) as u64
    };
    push_digits(&mut out, magnitude);
    assert(out@ =~= decimal(n as int));
    out
}

/// The decimal text of `n`.
pub fn decimal_i32(n: i32) -> (text: String)
    ensures
        text@ == decimal(n as int),
{
    decimal_i64(n as i64)
}

/// `true` or `false`.
pub fn bool_string(b: bool) -> (text: String)
    ensures
        text@ == bool_text(b),
{
    if b {
        "true".to_owned()
    } else {
        "false".to_owned()
    }
}

/// Whether `c` is a decimal digit.
pub open spec fn is_digit(c: char) -> bool {
    '0' <= c && c <= '9'
}

/// The number that a text of decimal digits writes.
pub open spec fn digits_value(s: Seq<char>) -> nat
    decreases s.len(),
{
    if s.len() == 0 {
        0
    } else {
        digits_value(s.drop_last()) * 10 + (s.last() as nat - 48) as nat
    }
}

/// The number that a text of decimal digits writes, if it is one and at most the largest `u64`.
pub open spec fn digits_number(body: Seq<char>) -> Option<u64> {
    if body.len() > 0 && (forall|i: int| 0 <= i < body.len() ==> is_digit(#[trigger] body[i]))
        && digits_value(body) <= u64::MAX {
        Some(digits_value(body) as u64)
    } else {
        None
    }
}

/// The number that a text writes as decimal digits after an optional plus sign.
pub open spec fn parsed_u64(s: Seq<char>) -> Option<u64> {
    if s.len() > 0 && s[0] == '+' {
        digits_number(s.skip(1))
    } else {
        digits_number(s)
    }
}

/// The characters of a text.
pub fn chars_of(s: &str) -> (chars: Vec<char>)
    ensures
        chars@ == s@,
{
    let mut chars: Vec<char> = Vec::new();
    for c in it: s.chars()
        invariant
            it.seq() == s@,
            chars@ == s@.take(it.index() as int),
    {
        chars.push(c);
        assert(chars@ =~= s@.take(it.index() + 1));
    }
    assert(s@.take(s@.len() as int) =~= s@);
    chars
}

proof fn lemma_digits_value_grows(s: Seq<char>, i: int)
    requires
        0 <= i <= s.len(),
    ensures
        digits_value(s.take(i)) <= digits_value(s),
    decreases s.len(),
{
    if i < s.len() {
        lemma_digits_value_grows(s.drop_last(), i);
        assert(s.drop_last().take(i) =~= s.take(i));
    } else {
        assert(s.take(i) =~= s);
    }
}

/// Reads an unsigned decimal number.
pub fn parse_u64(s: &str) -> (n: Option<u64>)
    ensures
        n == parsed_u64(s@),
{
    let chars = chars_of(s);
    let start: usize = if chars.len() > 0 && chars[0] == '+' {
        1
    } else {
        0
    };
    let ghost body = s@.skip(start as int);
    assert(start == 0 ==> body =~= s@);
    if start == chars.len() {
        return None;
    }
    let mut value: u64 = 0;
    let mut i: usize = start;
    while i < chars.len()
        invariant
            start <= i <= chars.len(),
            chars@ == s@,
            body == s@.skip(start as int),
            body.len() > 0,
            parsed_u64(s@) == digits_number(body),
            forall|k: int| 0 <= k < i - start ==> is_digit(#[trigger] body[k]),
            value == digits_value(body.take(i - start)),
        decreases chars.len() - i,
    {
        let c = chars[i];
        assert(body[i - start] == c);
        if !('0' <= c && c <= '9') {
            return None;
        }
        let d: u64 = c as u64 - 48;
        proof {
            lemma_digits_value_grows(body, i - start + 1);
            assert(body.take(i - start + 1).drop_last() =~= body.take(i - start));
        }
        if value > (u64::MAX - d) / 10 {
            return None;
        }
        value = value * 10 + d;
        i += 1;
    }
    assert(body.take(body.len() as int) =~= body);
    Some(value)
}

proof fn lemma_digit_char(d: nat)
    requires
        d < 10,
    ensures
        is_digit(digit_char(d)),
        digit_char(d) as nat == 48 + d,
{
}

proof fn lemma_digits(n: nat)
    ensures
        digits(n).len() > 0,
        forall|i: int| 0 <= i < digits(n).len() ==> is_digit(#[trigger] digits(n)[i]),
        digits_value(digits(n)) == n,
    decreases n,
{
    reveal_with_fuel(digits_value, 2);
    if n < 10 {
        lemma_digit_char(n);
        assert(digits(n).drop_last() =~= Seq::<char>::empty());
    } else {
        lemma_digits(n / 10);
        lemma_digit_char(n % 10);
        assert(digits(n).drop_last() =~= digits(n / 10));
    }
}

/// Reading the decimal text of a number gives the number back.
pub proof fn lemma_parse_decimal(n: u64)
    ensures
        parsed_u64(decimal(n as int)) == Some(n),
{
    lemma_digits(n as nat);
    assert(is_digit(decimal(n as int)[0]));
}

/// The pieces of a text between the occurrences of a separator; one more than there are
/// occurrences.
pub open spec fn split(s: Seq<char>, sep: char) -> Seq<Seq<char>>
    decreases s.len(),
{
    if s.len() == 0 {
        seq![Seq::empty()]
    } else {
        let pieces = split(s.drop_last(), sep);
        if s.last() == sep {
            pieces.push(Seq::empty())
        } else {
            pieces.drop_last().push(pieces.last().push(s.last()))
        }
    }
}

/// The pieces one after the other, with the separator between neighbours.
pub open spec fn join(pieces: Seq<Seq<char>>, sep: char) -> Seq<char>
    decreases pieces.len(),
{
    if pieces.len() == 0 {
        Seq::empty()
    } else if pieces.len() == 1 {
        pieces[0]
    } else {
        join(pieces.drop_last(), sep).push(sep) + pieces.last()
    }
}

/// Splits a text at commas.
pub fn split_commas(s: &str) -> (pieces: Vec<String>)
    ensures
        texts(pieces@) == split(s@, ','),
        pieces@.len() > 0,
{
    let chars = chars_of(s);
    let mut pieces: Vec<String> = Vec::new();
    let mut start: usize = 0;
    let mut i: usize = 0;
    assert(s@.subrange(0, 0) =~= Seq::<char>::empty());
    assert(texts(pieces@).push(s@.subrange(0, 0)) =~= split(s@.take(0), ','));
    while i < chars.len()
        invariant
            start <= i <= chars.len(),
            chars@ == s@,
            texts(pieces@).push(s@.subrange(start as int, i as int)) == split(
                s@.take(i as int),
                ',',
            ),
        decreases chars.len() - i,
    {
        let ghost before = texts(pieces@);
        let ghost piece = s@.subrange(start as int, i as int);
        assert(s@.take(i + 1).drop_last() =~= s@.take(i as int));
        assert(before.push(piece).drop_last() =~= before);
        if chars[i] == ',' {
            pieces.push(s.substring_char(start, i).to_owned());
            assert(texts(pieces@) =~= before.push(piece));
            start = i + 1;
            assert(s@.subrange(start as int, i + 1) =~= Seq::<char>::empty());
        } else {
            assert(s@.subrange(start as int, i + 1) =~= piece.push(s@[i as int]));
        }
        i += 1;
    }
    let ghost before = texts(pieces@);
    pieces.push(s.substring_char(start, chars.len()).to_owned());
    assert(texts(pieces@) =~= before.push(s@.subrange(start as int, s@.len() as int)));
    assert(s@.take(s@.len() as int) =~= s@);
    pieces
}

/// Joins texts with commas.
pub fn join_commas(pieces: &Vec<String>) -> (joined: String)
    ensures
        joined@ == join(texts(pieces@), ','),
{
    let mut joined = String::new();
    let mut i: usize = 0;
    proof {
        reveal_strlit(",");
        assert(texts(pieces@).take(0) =~= Seq::<Seq<char>>::empty());
    }
    while i < pieces.len()
        invariant
            i <= pieces.len(),
            joined@ == join(texts(pieces@).take(i as int), ','),
            ","@ =~= seq![','],
        decreases pieces.len() - i,
    {
        let ghost before = joined@;
        let ghost parts = texts(pieces@).take(i + 1);
        assert(parts.drop_last() =~= texts(pieces@).take(i as int));
        if i > 0 {
            joined.append(",");
            assert(joined@ =~= before.push(','));
        }
        joined.append(pieces[i].as_str());
        assert(joined@ =~= join(parts, ','));
        i += 1;
    }
    assert(texts(pieces@).take(pieces@.len() as int) =~= texts(pieces@));
    joined
}

proof fn lemma_split_nonempty(s: Seq<char>, sep: char)
    ensures
        split(s, sep).len() > 0,
    decreases s.len(),
{
    if s.len() > 0 {
        lemma_split_nonempty(s.drop_last(), sep);
    }
}

/// Joining the pieces of a text gives the text back.
pub proof fn lemma_join_split(s: Seq<char>, sep: char)
    ensures
        join(split(s, sep), sep) == s,
    decreases s.len(),
{
    lemma_split_nonempty(s, sep);
    if s.len() > 0 {
        let pieces = split(s.drop_last(), sep);
        lemma_split_nonempty(s.drop_last(), sep);
        lemma_join_split(s.drop_last(), sep);
        if s.last() == sep {
            assert(split(s, sep).drop_last() =~= pieces);
            assert(join(split(s, sep), sep) =~= s);
        } else {
            let longer = pieces.drop_last().push(pieces.last().push(s.last()));
            assert(longer.drop_last() =~= pieces.drop_last());
            assert(join(longer, sep) =~= join(pieces, sep).push(s.last()));
            assert(join(split(s, sep), sep) =~= s);
        }
    }
}

/// Splitting a text after adding more that holds no separator lengthens the last piece.
proof fn lemma_split_add(s: Seq<char>, t: Seq<char>, sep: char)
    requires
        !t.contains(sep),
    ensures
        split(s + t, sep) == split(s, sep).drop_last().push(split(s, sep).last() + t),
    decreases t.len(),
{
    lemma_split_nonempty(s, sep);
    let pieces = split(s, sep);
    if t.len() == 0 {
        assert(s + t =~= s);
        assert(pieces.last() + t =~= pieces.last());
        assert(pieces.drop_last().push(pieces.last() + t) =~= pieces);
    } else {
        let u = t.drop_last();
        assert(t.contains(t.last()));
        assert forall|c: char| u.contains(c) implies t.contains(c) by {
            let i = choose|i: int| 0 <= i < u.len() && u[i] == c;
            assert(t[i] == c);
        }
        lemma_split_add(s, u, sep);
        assert((s + t).drop_last() =~= s + u);
        assert(t =~= u.push(t.last()));
        assert(pieces.last() + t =~= (pieces.last() + u).push(t.last()));
        assert(split(s + t, sep) =~= pieces.drop_last().push(pieces.last() + t));
    }
}

/// Splitting joined pieces gives the pieces back, when there is one and none holds the separator.
pub proof fn lemma_split_join(pieces: Seq<Seq<char>>, sep: char)
    requires
        pieces.len() > 0,
        forall|i: int| 0 <= i < pieces.len() ==> !(#[trigger] pieces[i]).contains(sep),
    ensures
        split(join(pieces, sep), sep) == pieces,
    decreases pieces.len(),
{
    reveal_with_fuel(split, 2);
    assert(!pieces.last().contains(sep)) by {
        assert(!pieces[pieces.len() - 1].contains(sep));
    }
    if pieces.len() == 1 {
        let empty = Seq::<char>::empty();
        lemma_split_add(empty, pieces[0], sep);
        assert(empty + pieces[0] =~= pieces[0]);
        assert(split(join(pieces, sep), sep) =~= pieces);
    } else {
        let rest = pieces.drop_last();
        assert forall|i: int| 0 <= i < rest.len() implies !(#[trigger] rest[i]).contains(sep) by {
            assert(rest[i] == pieces[i]);
        }
        lemma_split_join(rest, sep);
        let head = join(rest, sep).push(sep);
        assert(head.drop_last() =~= join(rest, sep));
        lemma_split_add(head, pieces.last(), sep);
        assert(Seq::<char>::empty() + pieces.last() =~= pieces.last());
        assert(split(join(pieces, sep), sep) =~= pieces);
    }
}

/// No piece of a split holds the separator.
pub proof fn lemma_split_no_separator(s: Seq<char>, sep: char)
    ensures
        split(s, sep).len() > 0,
        forall|i: int| 0 <= i < split(s, sep).len() ==> !(#[trigger] split(s, sep)[i]).contains(sep),
    decreases s.len(),
{
    if s.len() > 0 {
        let pieces = split(s.drop_last(), sep);
        lemma_split_no_separator(s.drop_last(), sep);
        assert forall|i: int| 0 <= i < split(s, sep).len() implies !(#[trigger] split(
            s,
            sep,
        )[i]).contains(sep) by {
            if s.last() != sep && i == pieces.len() - 1 {
                let piece = pieces.last().push(s.last());
                if piece.contains(sep) {
                    let k = choose|k: int| 0 <= k < piece.len() && piece[k] == sep;
                    assert(pieces.last()[k] == sep);
                    assert(!pieces[i].contains(sep));
                }
            } else if i < pieces.len() {
                assert(!pieces[i].contains(sep));
            }
        }
    }
}

/// A decimal number holds no comma.
pub proof fn lemma_decimal_no_comma(n: int)
    ensures
        !decimal(n).contains(','),
{
    if n < 0 {
        lemma_digits((-n) as nat);
    } else {
        lemma_digits(n as nat);
    }
    if decimal(n).contains(',') {
        let i = choose|i: int| 0 <= i < decimal(n).len() && decimal(n)[i] == ',';
        if n < 0 {
            assert(i == 0 || decimal(n)[i] == digits((-n) as nat)[i - 1]);
        } else {
            assert(is_digit(digits(n as nat)[i]));
        }
    }
}

/// Decimal texts: one digit for each number below ten; a further digit for ten times a number and
/// that digit; a sign before negative numbers.
pub proof fn lemma_decimal(n: nat, d: nat)
    requires
        d < 10,
    ensures
        decimal(d as int).len() == 1,
        decimal(d as int)[0] as nat == 48 + d,
        n > 0 ==> decimal((10 * n + d) as int) == decimal(n as int).push((48 + d) as char),
        n > 0 ==> decimal(-(n as int)) == seq!['-'] + decimal(n as int),
{
    if n > 0 {
        assert((10 * n + d) / 10 == n);
        assert((10 * n + d) % 10 == d);
    }
}

/// Truth values are written as words.
pub proof fn lemma_bool_text()
    ensures
        bool_text(true) == "true"@,
        bool_text(false) == "false"@,
{
}

/// A text of digits is read digit by digit, leading zeros and all; a plus sign before it is skipped.
/// A text with anything else, without digits, or with a number that does not fit is not read.
pub proof fn lemma_parsed_u64(s: Seq<char>, d: nat, n: u64)
    requires
        d < 10,
    ensures
        parsed_u64(Seq::<char>::empty()) is None,
        parsed_u64(seq![(48 + d) as char]) == Some(d as u64),
        s.len() > 0 && s[0] != '+' && parsed_u64(s) == Some(n) && 10 * n + d <= u64::MAX
            ==> parsed_u64(s.push((48 + d) as char)) == Some((10 * n + d) as u64),
        s.len() > 0 && s[0] != '+' && parsed_u64(s) == Some(n) && 10 * n + d > u64::MAX
            ==> parsed_u64(s.push((48 + d) as char)) is None,
        s.len() > 0 && s[0] != '+' ==> parsed_u64(seq!['+'] + s) == parsed_u64(s),
        s.len() > 0 && s[0] != '+' && (exists|i: int|
            0 <= i < s.len() && !('0' <= #[trigger] s[i] && s[i] <= '9')) ==> parsed_u64(s) is None,
        parsed_u64(seq!['+']) is None,
{
    let c = (48 + d) as char;
    assert(c as nat == 48 + d);
    assert(is_digit(c));
    let one = seq![c];
    assert(one.drop_last() =~= Seq::empty());
    assert(one.last() == c);
    reveal_with_fuel(digits_value, 2);
    assert(digits_value(one) == d);
    assert(digits_number(one) == Some(d as u64));
    assert(one[0] != '+');
    let more = s.push(c);
    assert(more.drop_last() =~= s);
    assert((seq!['+'] + s).skip(1) =~= s);
    assert(seq!['+'].skip(1) =~= Seq::empty());
    if s.len() > 0 && s[0] != '+' {
        assert(more[0] == s[0]);
        if parsed_u64(s) == Some(n) {
            assert(forall|i: int| 0 <= i < s.len() ==> is_digit(#[trigger] s[i]));
            assert(forall|i: int| 0 <= i < more.len() ==> is_digit(#[trigger] more[i]));
            assert(digits_value(more) == digits_value(s) * 10 + d);
        }
        if exists|i: int| 0 <= i < s.len() && !('0' <= #[trigger] s[i] && s[i] <= '9') {
            let i = choose|i: int| 0 <= i < s.len() && !('0' <= #[trigger] s[i] && s[i] <= '9');
            assert(!is_digit(s[i]));
        }
    }
}

/// Pieces are joined with one separator between each two of them.
pub proof fn lemma_join(pieces: Seq<Seq<char>>, piece: Seq<char>, sep: char)
    ensures
        join(Seq::<Seq<char>>::empty(), sep).len() == 0,
        join(seq![piece], sep) == piece,
        pieces.len() > 0 ==> join(pieces.push(piece), sep) == join(pieces, sep) + seq![sep] + piece,
{
    if pieces.len() > 0 {
        assert(pieces.push(piece).drop_last() =~= pieces);
        assert(join(pieces, sep).push(sep) =~= join(pieces, sep) + seq![sep]);
    }
}

/// A list of strings holds the text of each, in its place, and an optional string its text.
pub proof fn lemma_texts(parts: Seq<String>, i: int, text: String)
    ensures
        texts(parts).len() == parts.len(),
        0 <= i < parts.len() ==> texts(parts)[i] == parts[i]@,
        opt_text(Some(text)) == Some(text@),
        opt_text(None) is None,
{
}

}
