//! Text: comparing strings, writing numbers, joining and cutting.

use crate::options::texts_of;
use vstd::prelude::*;
use vstd::string::StringExecFns;
use vstd::string::StrSliceExecFns;

verus! {

/// Whether two strings hold the same characters.
pub fn same_text(a: &str, b: &str) -> (same: bool)
    ensures
        same == (a@ == b@),
{
    let left = String::from_str(a);
    let right = String::from_str(b);
    left == right
}

/// The character of a decimal digit.
pub open spec fn digit(d: nat) -> char {
    if d == 0 {
        '0'
    } else if d == 1 {
        '1'
    } else if d == 2 {
        '2'
    } else if d == 3 {
        '3'
    } else if d == 4 {
        '4'
    } else if d == 5 {
        '5'
    } else if d == 6 {
        '6'
    } else if d == 7 {
        '7'
    } else if d == 8 {
        '8'
    } else {
        '9'
    }
}

/// A number in decimal notation, without leading zeros.
pub open spec fn decimal(n: nat) -> Seq<char>
    decreases n,
{
    if n < 10 {
        seq![digit(n)]
    } else {
        decimal(n / 10).push(digit(n % 10))
    }
}

/// The digit that a character stands for; 9 for a character that is no
/// digit.
pub open spec fn digit_value(c: char) -> nat {
    if c == '0' {
        0
    } else if c == '1' {
        1
    } else if c == '2' {
        2
    } else if c == '3' {
        3
    } else if c == '4' {
        4
    } else if c == '5' {
        5
    } else if c == '6' {
        6
    } else if c == '7' {
        7
    } else if c == '8' {
        8
    } else {
        9
    }
}

/// The number that a text of digits stands for in decimal notation.
pub open spec fn number_of(text: Seq<char>) -> nat
    decreases text.len(),
{
    if text.len() == 0 {
        0
    } else {
        number_of(text.drop_last()) * 10 + digit_value(text.last())
    }
}

/// A number written in decimal notation is read back as itself.
pub proof fn lemma_number_of_decimal(n: nat)
    ensures
        number_of(decimal(n)) == n,
    decreases n,
{
    if n < 10 {
        assert(decimal(n).drop_last() =~= Seq::<char>::empty());
        assert(number_of(decimal(n).drop_last()) == 0);
        assert(decimal(n).last() == digit(n));
    } else {
        lemma_number_of_decimal(n / 10);
        assert(decimal(n).drop_last() =~= decimal(n / 10));
        assert(decimal(n).last() == digit(n % 10));
    }
}

/// Two numbers that are written alike are one number.
pub proof fn lemma_decimal_injective(a: nat, b: nat)
    requires
        decimal(a) == decimal(b),
    ensures
        a == b,
{
    lemma_number_of_decimal(a);
    lemma_number_of_decimal(b);
}

/// One decimal digit as a string.
fn digit_text(d: usize) -> (text: &'static str)
    requires
        d < 10,
    ensures
        text@ == seq![digit(d as nat)],
{
    proof {
        reveal_strlit("0");
        reveal_strlit("1");
        reveal_strlit("2");
        reveal_strlit("3");
        reveal_strlit("4");
        reveal_strlit("5");
        reveal_strlit("6");
        reveal_strlit("7");
        reveal_strlit("8");
        reveal_strlit("9");
    }
    let text = if d == 0 {
        "0"
    } else if d == 1 {
        "1"
    } else if d == 2 {
        "2"
    } else if d == 3 {
        "3"
    } else if d == 4 {
        "4"
    } else if d == 5 {
        "5"
    } else if d == 6 {
        "6"
    } else if d == 7 {
        "7"
    } else if d == 8 {
        "8"
    } else {
        "9"
    };
    assert(text@ =~= seq![digit(d as nat)]);
    text
}

/// Writes a number in decimal notation.
pub fn write_decimal(n: usize) -> (text: String)
    ensures
        text@ == decimal(n as nat),
    decreases n,
{
    if n < 10 {
        String::from_str(digit_text(n))
    } else {
        let mut text = write_decimal(n / 10);
        text.append(digit_text(n % 10));
        assert(text@ =~= decimal(n as nat));
        text
    }
}

/// The parts one after the other, with the separator between each two.
pub open spec fn joined(parts: Seq<Seq<char>>, separator: Seq<char>) -> Seq<char>
    decreases parts.len(),
{
    if parts.len() == 0 {
        Seq::empty()
    } else if parts.len() == 1 {
        parts[0]
    } else {
        joined(parts.drop_last(), separator) + separator + parts.last()
    }
}

/// Joins the parts, with the separator between each two.
pub fn join(parts: &Vec<String>, separator: &str) -> (text: String)
    ensures
        text@ == joined(texts_of(parts@), separator@),
{
    let mut text = String::new();
    let mut k: usize = 0;
    while k < parts.len()
        invariant
            k <= parts@.len(),
            text@ == joined(texts_of(parts@).take(k as int), separator@),
        decreases parts@.len() - k,
    {
        if k > 0 {
            text.append(separator);
        }
        text.append(parts[k].as_str());
        proof {
            let all = texts_of(parts@);
            assert(all.take(k + 1).drop_last() =~= all.take(k as int));
            assert(all.take(k + 1).last() == parts@[k as int]@);
            if k == 0 {
                assert(text@ =~= parts@[0]@);
            }
        }
        k += 1;
    }
    proof {
        assert(texts_of(parts@).take(k as int) =~= texts_of(parts@));
    }
    text
}

/// The text, cut off after `limit` characters where it is longer.
pub open spec fn truncated(text: Seq<char>, limit: int) -> Seq<char> {
    if text.len() > limit {
        text.subrange(0, limit)
    } else {
        text
    }
}

/// Cuts the text off after `limit` characters where it is longer.
pub fn truncate(text: &str, limit: usize) -> (cut: String)
    ensures
        cut@ == truncated(text@, limit as int),
{
    if text.unicode_len() > limit {
        String::from_str(text.substring_char(0, limit))
    } else {
        String::from_str(text)
    }
}

/// The place of the last `mark` in the text, or -1 where there is none.
pub open spec fn last_index(text: Seq<char>, mark: char) -> int
    decreases text.len(),
{
    if text.len() == 0 {
        -1
    } else if text.last() == mark {
        text.len() - 1
    } else {
        last_index(text.drop_last(), mark)
    }
}

/// The last `mark` lies before any stretch at the end that holds none.
pub proof fn lemma_last_index_skips(text: Seq<char>, mark: char, from: int)
    requires
        0 <= from <= text.len(),
        forall|j: int| from <= j < text.len() ==> text[j] != mark,
    ensures
        last_index(text, mark) == last_index(text.take(from), mark),
    decreases text.len() - from,
{
    if from == text.len() {
        assert(text.take(from) =~= text);
    } else {
        lemma_last_index_skips(text.drop_last(), mark, from);
        assert(text.drop_last().take(from) =~= text.take(from));
    }
}

/// The place of the last `mark` in the text.
pub fn find_last(text: &str, mark: char) -> (found: Option<usize>)
    ensures
        match found {
            Some(place) => place == last_index(text@, mark),
            None => last_index(text@, mark) == -1,
        },
{
    let mut k: usize = text.unicode_len();
    while k > 0
        invariant
            k <= text@.len(),
            forall|j: int| k <= j < text@.len() ==> text@[j] != mark,
        decreases k,
    {
        if text.get_char(k - 1) == mark {
            proof {
                lemma_last_index_skips(text@, mark, k as int);
                assert(text@.take(k as int).last() == mark);
            }
            return Some(k - 1);
        }
        k -= 1;
    }
    proof {
        lemma_last_index_skips(text@, mark, 0);
        assert(text@.take(0).len() == 0);
    }
    None
}

/// The directory of a path: what stands up to its last slash, the slash
/// included; nothing where it holds no slash.
pub open spec fn directory_of(path: Seq<char>) -> Seq<char> {
    path.subrange(0, last_index(path, '/') + 1)
}

/// The file name of a path: what stands after its last slash.
pub open spec fn file_of(path: Seq<char>) -> Seq<char> {
    path.subrange(last_index(path, '/') + 1, path.len() as int)
}

/// Whether the file name of a path has an extension: a dot that is not its
/// first character.
pub open spec fn has_extension(path: Seq<char>) -> bool {
    last_index(file_of(path), '.') > 0
}

/// The file name of a path up to its last dot.
pub open spec fn stem_of(path: Seq<char>) -> Seq<char> {
    file_of(path).subrange(0, last_index(file_of(path), '.'))
}

/// What stands after the last dot of the file name of a path.
pub open spec fn extension_of(path: Seq<char>) -> Seq<char> {
    file_of(path).subrange(last_index(file_of(path), '.') + 1, file_of(path).len() as int)
}

/// The last index of a mark lies in the text, or is -1.
pub proof fn lemma_last_index_bounds(text: Seq<char>, mark: char)
    ensures
        -1 <= last_index(text, mark) < text.len(),
    decreases text.len(),
{
    if text.len() > 0 && text.last() != mark {
        lemma_last_index_bounds(text.drop_last(), mark);
    }
}

/// Splits a path into its directory, the stem of its file name and the
/// extension. A file name without an extension cannot be split.
pub fn split_path(path: &str) -> (parts: Option<(String, String, String)>)
    ensures
        parts is Some <==> has_extension(path@),
        parts matches Some((directory, stem, extension)) ==> directory@ == directory_of(path@)
            && stem@ == stem_of(path@) && extension@ == extension_of(path@),
{
    proof {
        lemma_last_index_bounds(path@, '/');
    }
    let length = path.unicode_len();
    let start = match find_last(path, '/') {
        Some(place) => place + 1,
        None => 0,
    };
    let file = path.substring_char(start, length);
    proof {
        lemma_last_index_bounds(file@, '.');
    }
    let dot = match find_last(file, '.') {
        Some(place) => place,
        None => { return None; },
    };
    if dot == 0 {
        return None;
    }
    let count = file.unicode_len();
    Some(
        (
            String::from_str(path.substring_char(0, start)),
            String::from_str(file.substring_char(0, dot)),
            String::from_str(file.substring_char(dot + 1, count)),
        ),
    )
}

} // verus!
