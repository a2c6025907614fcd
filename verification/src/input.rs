//! Reading a move from a line of text: two numbers, each 0, 1 or 2,
//! separated by white space.

use vstd::prelude::*;

verus! {

/// Why a requested move was turned down.
#[derive(Clone, Copy, Debug, PartialEq, Eq, Structural)]
pub enum MoveError {
    /// The line does not consist of exactly two words.
    TokenCount,
    /// The first word is not one of the numbers 0, 1 and 2.
    Row,
    /// The second word is not one of the numbers 0, 1 and 2.
    Column,
    /// The square asked for already carries a mark.
    Taken,
}

/// White space: the characters that separate the words of a line. These are
/// the characters with the Unicode property `White_Space`.
pub open spec fn is_space(c: char) -> bool {
    let u = c as int;
    ||| 0x09 <= u <= 0x0D
    ||| u == 0x20
    ||| u == 0x85
    ||| u == 0xA0
    ||| u == 0x1680
    ||| 0x2000 <= u <= 0x200A
    ||| u == 0x2028
    ||| u == 0x2029
    ||| u == 0x202F
    ||| u == 0x205F
    ||| u == 0x3000
}

/// The length of the word at the start of `s`: the number of characters
/// before the first white space, or all of `s` if it holds none.
pub open spec fn word_len(s: Seq<char>) -> nat
    decreases s.len(),
{
    if s.len() == 0 || is_space(s[0]) {
        0
    } else {
        1 + word_len(s.skip(1))
    }
}

/// The word at the start of `s` ends inside `s`, and is not empty unless
/// `s` is empty or starts with white space.
pub proof fn lemma_word_len(s: Seq<char>)
    ensures
        word_len(s) <= s.len(),
        s.len() > 0 && !is_space(s[0]) ==> word_len(s) >= 1,
        forall|i: int| 0 <= i < word_len(s) ==> !is_space(#[trigger] s[i]),
        word_len(s) < s.len() ==> is_space(s[word_len(s) as int]),
    decreases s.len(),
{
    if s.len() > 0 && !is_space(s[0]) {
        let rest = s.skip(1);
        lemma_word_len(rest);
        assert forall|i: int| 0 <= i < word_len(s) implies !is_space(#[trigger] s[i]) by {
            if i > 0 {
                assert(s[i] == rest[i - 1]);
            }
        }
        if word_len(s) < s.len() {
            assert(s[word_len(s) as int] == rest[word_len(rest) as int]);
        }
    }
}

/// The words of `s`: its maximal runs of characters that are not white
/// space, in the order in which they stand.
pub open spec fn tokens(s: Seq<char>) -> Seq<Seq<char>>
    decreases s.len(),
{
    if s.len() == 0 {
        Seq::empty()
    } else if is_space(s[0]) {
        tokens(s.skip(1))
    } else {
        proof {
            lemma_word_len(s);
        }
        seq![s.take(word_len(s) as int)] + tokens(s.skip(word_len(s) as int))
    }
}

/// A decimal digit, `0` to `9`.
pub open spec fn is_digit(c: char) -> bool {
    0x30 <= c as int <= 0x39
}

/// The number that the digits `s` write in base ten.
pub open spec fn decimal(s: Seq<char>) -> nat
    decreases s.len(),
{
    if s.len() == 0 {
        0
    } else {
        10 * decimal(s.drop_last()) + (s.last() as int - 0x30) as nat
    }
}

/// Every character of `s` is a decimal digit.
pub open spec fn all_digits(s: Seq<char>) -> bool {
    forall|i: int| 0 <= i < s.len() ==> is_digit(#[trigger] s[i])
}

/// `word` without the `+` that may stand at its start.
pub open spec fn unsigned_part(word: Seq<char>) -> Seq<char> {
    if word.len() > 0 && word[0] == '+' {
        word.skip(1)
    } else {
        word
    }
}

/// The number that `word` writes, if it writes one: an optional `+`, then
/// one or more decimal digits and nothing else. Leading zeros are allowed,
/// and the number may be arbitrarily large.
pub open spec fn number(word: Seq<char>) -> Option<nat> {
    let digits = unsigned_part(word);
    if digits.len() > 0 && all_digits(digits) {
        Some(decimal(digits))
    } else {
        None
    }
}

/// The row or column that `word` names: the number it writes, if that is
/// 0, 1 or 2.
pub open spec fn coordinate(word: Seq<char>) -> Option<int> {
    match number(word) {
        Some(n) => if n < 3 {
            Some(n as int)
        } else {
            None
        },
        None => None,
    }
}

/// The move that `line` asks for. A line must hold exactly two words, the
/// row and then the column. The number of words is examined first, then the
/// row, then the column.
pub open spec fn requested(line: Seq<char>) -> Result<(int, int), MoveError> {
    let words = tokens(line);
    if words.len() != 2 {
        Err(MoveError::TokenCount)
    } else {
        match coordinate(words[0]) {
            None => Err(MoveError::Row),
            Some(row) => match coordinate(words[1]) {
                None => Err(MoveError::Column),
                Some(col) => Ok((row, col)),
            },
        }
    }
}

/// The number of the character `c` in Unicode.
fn code_point(c: char) -> (u: u32)
    ensures
        u == c as int,
{
    c as u32
}

/// Whether `c` is white space.
fn is_whitespace(c: char) -> (yes: bool)
    ensures
        yes == is_space(c),
{
    let u: u32 = code_point(c);
    (0x09 <= u && u <= 0x0D) || u == 0x20 || u == 0x85 || u == 0xA0 || u == 0x1680 || (0x2000 <= u
        && u <= 0x200A) || u == 0x2028 || u == 0x2029 || u == 0x202F || u == 0x205F || u == 0x3000
}

/// The characters of `line`, in order.
fn chars_of(line: &str) -> (out: Vec<char>)
    ensures
        out@ == line@,
{
    let mut out: Vec<char> = Vec::new();
    for c in it: line.chars()
        invariant
            out@ == it.seq().take(it.index()),
            it.seq() == line@,
    {
        out.push(c);
    }
    out
}

/// A run of `k` characters without white space that ends at white space or
/// at the end of `s` is the word at the start of `s`.
proof fn lemma_word_is(s: Seq<char>, k: int)
    requires
        0 <= k <= s.len(),
        forall|i: int| 0 <= i < k ==> !is_space(#[trigger] s[i]),
        k < s.len() ==> is_space(s[k]),
    ensures
        word_len(s) == k,
    decreases k,
{
    if k > 0 {
        let rest = s.skip(1);
        assert forall|i: int| 0 <= i < k - 1 implies !is_space(#[trigger] rest[i]) by {
            assert(rest[i] == s[i + 1]);
        }
        lemma_word_is(rest, k - 1);
    }
}

/// The words of `chars`, in order.
fn split_words(chars: &Vec<char>) -> (words: Vec<Vec<char>>)
    ensures
        words@.len() == tokens(chars@).len(),
        forall|j: int| 0 <= j < words@.len() ==> (#[trigger] words@[j])@ == tokens(chars@)[j],
{
    let n = chars.len();
    let mut words: Vec<Vec<char>> = Vec::new();
    let mut i: usize = 0;
    assert(chars@.skip(0) == chars@);
    assert(Seq::new(words@.len(), |j: int| words@[j]@) + tokens(chars@) == tokens(chars@));
    while i < n
        invariant
            n == chars@.len(),
            i <= n,
            tokens(chars@) == Seq::new(words@.len(), |j: int| words@[j]@) + tokens(
                chars@.skip(i as int),
            ),
        decreases n - i,
    {
        let ghost found = Seq::new(words@.len(), |j: int| words@[j]@);
        let ghost tail = chars@.skip(i as int);
        if is_whitespace(chars[i]) {
            i += 1;
            assert(tail.skip(1) == chars@.skip(i as int));
        } else {
            let start = i;
            let mut word: Vec<char> = Vec::new();
            while i < n && !is_whitespace(chars[i])
                invariant
                    n == chars@.len(),
                    start <= i <= n,
                    word@ == chars@.subrange(start as int, i as int),
                    forall|j: int| start <= j < i ==> !is_space(#[trigger] chars@[j]),
                decreases n - i,
            {
                word.push(chars[i]);
                i += 1;
            }
            proof {
                let k = i - start;
                assert forall|j: int| 0 <= j < k implies !is_space(#[trigger] tail[j]) by {
                    assert(tail[j] == chars@[start + j]);
                }
                lemma_word_is(tail, k);
                assert(tail.take(k) == word@);
                assert(tail.skip(k) == chars@.skip(i as int));
            }
            words.push(word);
            assert(Seq::new(words@.len(), |j: int| words@[j]@) == found + seq![word@]);
        }
    }
    assert(chars@.skip(n as int) == Seq::<char>::empty());
    words
}

/// The row or column that `word` names, if it names one.
fn parse_coordinate(word: &Vec<char>) -> (found: Option<usize>)
    ensures
        match found {
            Some(v) => coordinate(word@) == Some(v as int),
            None => coordinate(word@) is None,
        },
{
    let n = word.len();
    let start: usize = if n > 0 && word[0] == '+' {
        1
    } else {
        0
    };
    if start == n {
        assert(word@.skip(start as int).len() == 0);
        return None;
    }
    let ghost digits = word@.skip(start as int);
    assert(word@.skip(0) == word@);
    // `seen` is the number read so far, or 3 once that number has reached 3.
    let mut seen: usize = 0;
    let mut i: usize = start;
    while i < n
        invariant
            n == word@.len(),
            start <= i <= n,
            digits == word@.skip(start as int),
            digits == unsigned_part(word@),
            forall|j: int| 0 <= j < i - start ==> is_digit(#[trigger] digits[j]),
            seen <= 3,
            seen < 3 ==> decimal(digits.take(i - start)) == seen,
            seen == 3 ==> decimal(digits.take(i - start)) >= 3,
        decreases n - i,
    {
        let u: u32 = code_point(word[i]);
        assert(word@[i as int] == digits[i - start]);
        if u < 0x30 || u > 0x39 {
            assert(!is_digit(digits[i - start]));
            return None;
        }
        let digit: usize = (u - 0x30) as usize;
        proof {
            let longer = digits.take(i + 1 - start);
            assert(longer.drop_last() == digits.take(i - start));
            assert(longer.last() == digits[i - start]);
        }
        if seen < 3 {
            seen = seen * 10 + digit;
            if seen > 3 {
                seen = 3;
            }
        }
        i += 1;
    }
    assert(digits.take(n - start) == digits);
    if seen < 3 {
        Some(seen)
    } else {
        None
    }
}

/// Reads a move from a line of text: the row and the column, each 0, 1 or
/// 2, as two words separated by white space. White space before and after
/// is ignored.
pub fn parse_move(line: &str) -> (res: Result<(usize, usize), MoveError>)
    ensures
        match res {
            Ok((row, col)) => requested(line@) == Ok::<(int, int), MoveError>(
                (row as int, col as int),
            ),
            Err(e) => requested(line@) == Err::<(int, int), MoveError>(e),
        },
{
    let chars = chars_of(line);
    let words = split_words(&chars);
    if words.len() != 2 {
        return Err(MoveError::TokenCount);
    }
    let row = match parse_coordinate(&words[0]) {
        Some(v) => v,
        None => {
            return Err(MoveError::Row);
        },
    };
    let col = match parse_coordinate(&words[1]) {
        Some(v) => v,
        None => {
            return Err(MoveError::Column);
        },
    };
    Ok((row, col))
}

} // verus!
