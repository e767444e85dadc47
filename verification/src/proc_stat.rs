//! Reading the CPU line of `/proc/stat`.
//!
//! The first line of that file is a label followed by tick counters: user,
//! nice, system, idle, iowait and more, separated by white space.
use vstd::prelude::*;

verus! {

/// Unicode white space.
pub open spec fn is_white_space(c: char) -> bool {
    let code = c as u32;
    ||| 0x9 <= code <= 0xd
    ||| code == 0x20
    ||| code == 0x85
    ||| code == 0xa0
    ||| code == 0x1680
    ||| 0x2000 <= code <= 0x200a
    ||| code == 0x2028
    ||| code == 0x2029
    ||| code == 0x202f
    ||| code == 0x205f
    ||| code == 0x3000
}

/// `text` up to the first line feed.
pub open spec fn first_line(text: Seq<char>) -> Seq<char>
    decreases text.len(),
{
    if text.len() == 0 || text[0] == '\n' {
        Seq::empty()
    } else {
        seq![text[0]] + first_line(text.drop_first())
    }
}

/// The words of `line`: its longest stretches without white space, in order.
/// A character continues the last word if the one before it is in that word.
pub open spec fn words(line: Seq<char>) -> Seq<Seq<char>>
    decreases line.len(),
{
    if line.len() == 0 {
        Seq::empty()
    } else {
        let before = words(line.drop_last());
        let c = line.last();
        if is_white_space(c) {
            before
        } else if inside_word(line.drop_last()) {
            before.drop_last().push(before.last().push(c))
        } else {
            before.push(seq![c])
        }
    }
}

/// `line` ends within a word.
pub open spec fn inside_word(line: Seq<char>) -> bool {
    line.len() > 0 && !is_white_space(line.last())
}

pub open spec fn is_digit(c: char) -> bool {
    '0' as u32 <= c as u32 <= '9' as u32
}

/// The number that a row of decimal digits stands for.
pub open spec fn decimal_value(digits: Seq<char>) -> nat
    decreases digits.len(),
{
    if digits.len() == 0 {
        0
    } else {
        decimal_value(digits.drop_last()) * 10 + (digits.last() as u32 - '0' as u32) as nat
    }
}

/// The digits of a word: all of it but a leading plus sign.
pub open spec fn unsigned(word: Seq<char>) -> Seq<char> {
    if word.len() > 0 && word[0] == '+' {
        word.drop_first()
    } else {
        word
    }
}

/// The number that a word stands for: one or more digits behind an optional plus
/// sign, no greater than the greatest `u64`.
pub open spec fn number(word: Seq<char>) -> Option<u64> {
    let digits = unsigned(word);
    if digits.len() > 0 && (forall|i: int| 0 <= i < digits.len() ==> is_digit(#[trigger] digits[i]))
        && decimal_value(digits) <= u64::MAX {
        Some(decimal_value(digits) as u64)
    } else {
        None
    }
}

/// Every word stands for a number.
pub open spec fn all_numbers(words: Seq<Seq<char>>) -> bool {
    forall|i: int| 0 <= i < words.len() ==> number(#[trigger] words[i]) is Some
}

/// The numbers that `words` stand for, in order.
pub open spec fn numbers(words: Seq<Seq<char>>) -> Seq<u64> {
    words.map_values(|word: Seq<char>| number(word)->0)
}

/// The words in the first line of `text`, behind its label.
pub open spec fn counter_words(text: Seq<char>) -> Seq<Seq<char>> {
    let found = words(first_line(text));
    if found.len() == 0 {
        found
    } else {
        found.drop_first()
    }
}

fn white_space(c: char) -> (yes: bool)
    ensures
        yes == is_white_space(c),
{
    let code: u32 = c as u32;
    (0x9 <= code && code <= 0xd) || code == 0x20 || code == 0x85 || code == 0xa0 || code == 0x1680
        || (0x2000 <= code && code <= 0x200a) || code == 0x2028 || code == 0x2029 || code == 0x202f
        || code == 0x205f || code == 0x3000
}

/// The value only grows with more digits.
proof fn lemma_value_grows(digits: Seq<char>, n: int)
    requires
        0 <= n <= digits.len(),
        forall|i: int| 0 <= i < digits.len() ==> is_digit(#[trigger] digits[i]),
    ensures
        decimal_value(digits.take(n)) <= decimal_value(digits),
    decreases digits.len(),
{
    if n == digits.len() {
        assert(digits.take(n) =~= digits);
    } else {
        let front = digits.drop_last();
        assert forall|i: int| 0 <= i < front.len() implies is_digit(#[trigger] front[i]) by {
            assert(front[i] == digits[i]);
        }
        lemma_value_grows(front, n);
        assert(front.take(n) =~= digits.take(n));
    }
}

/// Reads a word as a number.
pub fn parse_number(word: &Vec<char>) -> (n: Option<u64>)
    ensures
        n == number(word@),
{
    let len: usize = word.len();
    let start: usize = if len > 0 && word[0] == '+' {
        1
    } else {
        0
    };
    let ghost digits = unsigned(word@);
    assert(digits =~= word@.skip(start as int));
    if start == len {
        return None;
    }
    let mut value: u64 = 0;
    assert(digits.take(0) =~= Seq::<char>::empty());
    for i in start..len
        invariant
            len == word@.len(),
            start <= len,
            digits == unsigned(word@),
            digits == word@.skip(start as int),
            digits.len() > 0,
            value == decimal_value(digits.take(i - start)),
            forall|j: int| 0 <= j < i - start ==> is_digit(#[trigger] digits[j]),
    {
        let c: char = word[i];
        assert(c == digits[i - start]);
        assert(digits.take(i - start + 1).drop_last() =~= digits.take(i - start));
        let code: u32 = c as u32;
        if code < '0' as u32 || code > '9' as u32 {
            assert(!is_digit(digits[i - start]));
            return None;
        }
        let digit: u64 = (code - '0' as u32) as u64;
        proof {
            if forall|j: int| 0 <= j < digits.len() ==> is_digit(#[trigger] digits[j]) {
                lemma_value_grows(digits, i - start + 1);
            }
        }
        if value > (u64::MAX - digit) / 10 {
            return None;
        }
        value = value * 10 + digit;
    }
    assert(digits.take(digits.len() as int) =~= digits);
    Some(value)
}

/// The views of a list of words.
spec fn texts(list: Seq<Vec<char>>) -> Seq<Seq<char>> {
    list.map_values(|word: Vec<char>| word@)
}

/// The first line, cut off behind its first `n` characters.
proof fn lemma_first_line_extends(text: Seq<char>, n: int)
    requires
        0 <= n <= text.len(),
        forall|i: int| 0 <= i < n ==> text[i] != '\n',
    ensures
        first_line(text) == text.take(n) + first_line(text.skip(n)),
    decreases n,
{
    if n == 0 {
        assert(text.skip(0) =~= text);
        assert(text.take(0) + first_line(text) =~= first_line(text));
    } else {
        let rest = text.drop_first();
        assert forall|i: int| 0 <= i < n - 1 implies rest[i] != '\n' by {
            assert(rest[i] == text[i + 1]);
        }
        lemma_first_line_extends(rest, n - 1);
        assert(text[0] != '\n');
        assert(rest.skip(n - 1) =~= text.skip(n));
        assert(seq![text[0]] + (rest.take(n - 1) + first_line(text.skip(n))) =~= text.take(n)
            + first_line(text.skip(n)));
    }
}

/// Splits the first line of `text` into words.
fn first_line_words(text: &str) -> (found: Vec<Vec<char>>)
    ensures
        texts(found@) == words(first_line(text@)),
{
    let len: usize = text.unicode_len();
    let mut found: Vec<Vec<char>> = Vec::new();
    let mut word: Vec<char> = Vec::new();
    let mut at: usize = 0;
    assert(texts(found@) =~= words(text@.take(0)));
    while at < len && text.get_char(at) != '\n'
        invariant
            len == text@.len(),
            at <= len,
            forall|i: int| 0 <= i < at ==> text@[i] != '\n',
            word@.len() > 0 <==> inside_word(text@.take(at as int)),
            word@.len() == 0 ==> texts(found@) == words(text@.take(at as int)),
            word@.len() > 0 ==> texts(found@).push(word@) == words(text@.take(at as int)),
        decreases len - at,
    {
        let c: char = text.get_char(at);
        let ghost line = text@.take(at as int);
        assert(text@.take(at + 1).drop_last() =~= line);
        assert(text@.take(at + 1).last() == c);
        if white_space(c) {
            if word.len() > 0 {
                let ghost before = found@;
                found.push(word);
                assert(texts(found@) =~= texts(before).push(word@));
                word = Vec::new();
            }
        } else {
            let ghost before = word@;
            word.push(c);
            proof {
                if before.len() > 0 {
                    let w = texts(found@).push(before);
                    assert(w.drop_last() =~= texts(found@));
                    assert(w.last() == before);
                } else {
                    assert(word@ =~= seq![c]);
                }
            }
        }
        at = at + 1;
    }
    proof {
        lemma_first_line_extends(text@, at as int);
        assert(first_line(text@.skip(at as int)) =~= Seq::<char>::empty()) by {
            if at < len {
                assert(text@.skip(at as int)[0] == text@[at as int]);
            }
        }
        assert(text@.take(at as int) + Seq::<char>::empty() =~= text@.take(at as int));
    }
    if word.len() > 0 {
        let ghost before = found@;
        found.push(word);
        assert(texts(found@) =~= texts(before).push(word@));
    }
    found
}

/// Reads the counters from the first line of `text`. A word behind the label that
/// is no number makes the line unreadable.
pub fn parse_counters(text: &str) -> (fields: Option<Vec<u64>>)
    ensures
        fields is Some <==> all_numbers(counter_words(text@)),
        fields matches Some(f) ==> f@ == numbers(counter_words(text@)),
{
    let found: Vec<Vec<char>> = first_line_words(text);
    let mut fields: Vec<u64> = Vec::new();
    let ghost tail = counter_words(text@);
    if found.len() == 0 {
        assert(texts(found@) =~= Seq::<Seq<char>>::empty());
        assert(fields@ =~= numbers(tail));
        return Some(fields);
    }
    for i in 1..found.len()
        invariant
            found@.len() > 0,
            tail == counter_words(text@),
            tail == texts(found@).drop_first(),
            fields@ == numbers(tail.take(i - 1)),
            all_numbers(tail.take(i - 1)),
    {
        assert(tail[i - 1] == found@[i as int]@);
        match parse_number(&found[i]) {
            Some(n) => {
                fields.push(n);
                assert(tail.take(i as int) =~= tail.take(i - 1).push(tail[i - 1]));
                assert(fields@ =~= numbers(tail.take(i as int)));
            },
            None => {
                return None;
            },
        }
    }
    assert(tail.take(tail.len() as int) =~= tail);
    Some(fields)
}

/// White space is what Unicode calls so: 25 characters.
pub proof fn law_white_space_characters(c: char)
    ensures
        is_white_space(c) <==> {
            ||| c == '\t'
            ||| c == '\n'
            ||| c == '\u{b}'
            ||| c == '\u{c}'
            ||| c == '\r'
            ||| c == ' '
            ||| c == '\u{85}'
            ||| c == '\u{a0}'
            ||| c == '\u{1680}'
            ||| c == '\u{2000}'
            ||| c == '\u{2001}'
            ||| c == '\u{2002}'
            ||| c == '\u{2003}'
            ||| c == '\u{2004}'
            ||| c == '\u{2005}'
            ||| c == '\u{2006}'
            ||| c == '\u{2007}'
            ||| c == '\u{2008}'
            ||| c == '\u{2009}'
            ||| c == '\u{200a}'
            ||| c == '\u{2028}'
            ||| c == '\u{2029}'
            ||| c == '\u{202f}'
            ||| c == '\u{205f}'
            ||| c == '\u{3000}'
        },
{
}

/// The first line starts the text and holds no line feed; what follows it, if
/// anything does, is one.
pub proof fn law_first_line_ends_at_the_line_feed(text: Seq<char>)
    ensures
        first_line(text).len() <= text.len(),
        first_line(text) == text.take(first_line(text).len() as int),
        forall|i: int| 0 <= i < first_line(text).len() ==> #[trigger] first_line(text)[i] != '\n',
        first_line(text).len() < text.len() ==> text[first_line(text).len() as int] == '\n',
    decreases text.len(),
{
    let line = first_line(text);
    if text.len() == 0 || text[0] == '\n' {
        assert(text.take(0) =~= line);
    } else {
        let rest = text.drop_first();
        law_first_line_ends_at_the_line_feed(rest);
        assert(line =~= seq![text[0]] + first_line(rest));
        assert(text.take(line.len() as int) =~= seq![text[0]] + rest.take(
            first_line(rest).len() as int,
        ));
        assert forall|i: int| 0 <= i < line.len() implies #[trigger] line[i] != '\n' by {
            if i > 0 {
                assert(line[i] == first_line(rest)[i - 1]);
            }
        }
        if line.len() < text.len() {
            assert(text[line.len() as int] == rest[first_line(rest).len() as int]);
        }
    }
}

proof fn lemma_inside_word_has_word(line: Seq<char>)
    requires
        inside_word(line),
    ensures
        words(line).len() > 0,
    decreases line.len(),
{
    if inside_word(line.drop_last()) {
        lemma_inside_word_has_word(line.drop_last());
    }
}

/// White space separates: the words of two lines with white space between them are
/// the words of the first and then those of the second.
pub proof fn law_white_space_separates_words(a: Seq<char>, space: char, b: Seq<char>)
    requires
        is_white_space(space),
    ensures
        words(a + seq![space] + b) == words(a) + words(b),
    decreases b.len(),
{
    let line = a + seq![space] + b;
    if b.len() == 0 {
        assert(line.drop_last() =~= a);
        assert(line.last() == space);
        assert(words(a) + words(b) =~= words(a));
    } else {
        let front = b.drop_last();
        let before = a + seq![space] + front;
        law_white_space_separates_words(a, space, front);
        assert(line.drop_last() =~= before);
        assert(line.last() == b.last());
        if front.len() > 0 {
            assert(before.last() == front.last());
        } else {
            assert(before.last() == space);
        }
        if is_white_space(b.last()) {
        } else if inside_word(front) {
            lemma_inside_word_has_word(front);
            let (x, y) = (words(a), words(front));
            assert((x + y).last() == y.last());
            assert((x + y).drop_last().push(y.last().push(b.last())) =~= x + y.drop_last().push(
                y.last().push(b.last()),
            ));
        } else {
            assert((words(a) + words(front)).push(seq![b.last()]) =~= words(a) + words(front).push(
                seq![b.last()],
            ));
        }
    }
}

/// Without white space there is nothing to separate: such a stretch is one word, and
/// an empty line has none.
pub proof fn law_unbroken_stretch_is_one_word(word: Seq<char>)
    requires
        forall|i: int| 0 <= i < word.len() ==> !is_white_space(#[trigger] word[i]),
    ensures
        word.len() > 0 ==> words(word) == seq![word],
        word.len() == 0 ==> words(word).len() == 0,
    decreases word.len(),
{
    if word.len() > 0 {
        let front = word.drop_last();
        assert forall|i: int| 0 <= i < front.len() implies !is_white_space(#[trigger] front[i]) by {
            assert(front[i] == word[i]);
        }
        law_unbroken_stretch_is_one_word(front);
        assert(word.last() == word[word.len() - 1]);
        assert(front.push(word.last()) =~= word);
        if front.len() > 0 {
            assert(front.last() == word[word.len() - 2]);
            assert(words(word) =~= seq![word]);
        } else {
            assert(seq![word.last()] =~= word);
            assert(words(word) =~= seq![word]);
        }
    }
}

proof fn lemma_number_of_longer_word(word: Seq<char>, c: char)
    requires
        word.len() > 0,
        word != seq!['+'],
    ensures
        unsigned(word.push(c)) == unsigned(word).push(c),
        unsigned(word).len() > 0,
{
    assert(word.push(c)[0] == word[0]);
    if word[0] == '+' {
        assert(word.push(c).drop_first() =~= word.drop_first().push(c));
        if word.len() == 1 {
            assert(word =~= seq!['+']);
        }
    }
}

/// Words are read as decimal numbers: a digit stands for its value, and one more digit
/// behind a number makes it ten times as large and adds the value. What would exceed
/// the greatest `u64` is no number, and neither is anything with another character
/// in it.
pub proof fn law_digits_are_read_as_decimals(word: Seq<char>, c: char)
    ensures
        number(Seq::<char>::empty()) is None,
        '0' <= c <= '9' ==> number(seq![c]) == Some((c as u32 - 48) as u64),
        '0' <= c <= '9' && number(word) is Some ==> {
            let value = number(word)->0 * 10 + (c as u32 - 48);
            number(word.push(c)) == if value <= u64::MAX {
                Some(value as u64)
            } else {
                None
            }
        },
        word.len() > 0 && word != seq!['+'] && number(word) is None ==> number(word.push(c)) is None,
        !('0' <= c <= '9') ==> number(word.push(c)) is None,
{
    let longer = word.push(c);
    assert(unsigned(Seq::<char>::empty()).len() == 0);
    if '0' <= c <= '9' {
        let single = seq![c];
        assert(unsigned(single) =~= single);
        assert(single.drop_last() =~= Seq::<char>::empty());
        assert(decimal_value(single.drop_last()) == 0);
        assert(decimal_value(single) == (c as u32 - 48) as nat);
    }
    if word.len() > 0 && word != seq!['+'] {
        lemma_number_of_longer_word(word, c);
        let digits = unsigned(word);
        let more = unsigned(longer);
        assert(more.drop_last() =~= digits);
        assert(more.last() == c);
        if forall|i: int| 0 <= i < more.len() ==> is_digit(#[trigger] more[i]) {
            assert forall|i: int| 0 <= i < digits.len() implies is_digit(#[trigger] digits[i]) by {
                assert(more[i] == digits[i]);
            }
        }
        if number(word) is Some && '0' <= c <= '9' {
            assert forall|i: int| 0 <= i < more.len() implies is_digit(#[trigger] more[i]) by {
                if i < digits.len() {
                    assert(more[i] == digits[i]);
                }
            }
        }
        assert(more[digits.len() as int] == c);
    } else if word.len() == 0 {
        assert(longer =~= seq![c]);
        if !('0' <= c <= '9') {
            if c != '+' {
                assert(unsigned(longer)[0] == c);
            }
        }
    } else {
        assert(unsigned(word).len() == 0);
        assert(longer =~= seq!['+', c]);
        assert(unsigned(longer) =~= seq![c]);
        assert(unsigned(longer)[0] == c);
    }
}

/// One leading plus sign changes nothing about a number; two of them make it none.
pub proof fn law_one_plus_sign_is_ignored(word: Seq<char>)
    ensures
        word.len() == 0 || word[0] != '+' ==> number(seq!['+'] + word) == number(word),
        word.len() > 0 && word[0] == '+' ==> number(seq!['+'] + word) is None,
{
    let signed = seq!['+'] + word;
    assert(signed.drop_first() =~= word);
    if word.len() > 0 && word[0] == '+' {
        assert(!is_digit(unsigned(signed)[0]));
    }
}

/// The counters are the words of the first line without the first of them, each read
/// as a number.
pub proof fn law_counters_follow_the_label(text: Seq<char>)
    ensures
        words(first_line(text)).len() == 0 ==> counter_words(text).len() == 0,
        words(first_line(text)).len() > 0 ==> words(first_line(text)) == seq![
            words(first_line(text))[0],
        ] + counter_words(text),
        all_numbers(counter_words(text)) <==> (forall|i: int|
            0 <= i < counter_words(text).len() ==> number(#[trigger] counter_words(text)[i]) is Some),
        numbers(counter_words(text)).len() == counter_words(text).len(),
        all_numbers(counter_words(text)) ==> (forall|i: int|
            0 <= i < counter_words(text).len() ==> number(#[trigger] counter_words(text)[i]) == Some(
                numbers(counter_words(text))[i],
            )),
{
    let found = words(first_line(text));
    if found.len() > 0 {
        assert(found =~= seq![found[0]] + found.drop_first());
    }
}

} // verus!
