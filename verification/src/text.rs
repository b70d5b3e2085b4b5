//! Splitting text into words and lines.
use vstd::prelude::*;
use vstd::std_specs::iter::IteratorSpec;

verus! {

/// Whether a character is white space in the sense of Unicode.
pub open spec fn is_space(c: char) -> bool {
    let u = c as u32;
    ||| 0x09 <= u <= 0x0D
    ||| u == 0x20
    ||| u == 0x85
    ||| u == 0xA0
    ||| u == 0x1680
    ||| 0x2000 <= u <= 0x200A
    ||| u == 0x2028
    ||| u == 0x2029
    ||| u == 0x202F
    ||| u == 0x205F
    ||| u == 0x3000
}

/// Tells white space from other characters.
pub fn is_whitespace(c: char) -> (space: bool)
    ensures
        space == is_space(c),
{
    let u: u32 = c as u32;
    (0x09 <= u && u <= 0x0D) || u == 0x20 || u == 0x85 || u == 0xA0 || u == 0x1680 || (0x2000 <= u
        && u <= 0x200A) || u == 0x2028 || u == 0x2029 || u == 0x202F || u == 0x205F || u == 0x3000
}

/// The length of the longest prefix of `s` that holds no white space.
pub open spec fn word_len(s: Seq<char>) -> nat
    decreases s.len(),
{
    if s.len() == 0 || is_space(s[0]) {
        0
    } else {
        1 + word_len(s.drop_first())
    }
}

/// The words of a text: its maximal runs of characters that are not white
/// space, from left to right.
pub open spec fn words_of(s: Seq<char>) -> Seq<Seq<char>>
    decreases s.len(),
{
    if s.len() == 0 {
        Seq::empty()
    } else if is_space(s[0]) {
        words_of(s.drop_first())
    } else {
        let k = word_len(s) as int;
        if 0 < k <= s.len() {
            seq![s.take(k)] + words_of(s.skip(k))
        } else {
            Seq::empty()
        }
    }
}

/// The characters of each text of a list.
pub open spec fn texts(items: Seq<String>) -> Seq<Seq<char>> {
    Seq::new(items.len(), |i: int| items[i]@)
}

/// A run of `k` characters without white space that ends at white space or
/// at the end of the text is the first word's whole length.
pub proof fn lemma_word_len(s: Seq<char>, k: int)
    requires
        0 <= k <= s.len(),
        forall|j: int| 0 <= j < k ==> !is_space(#[trigger] s[j]),
        k == s.len() || is_space(s[k]),
    ensures
        word_len(s) == k,
    decreases k,
{
    if k > 0 {
        let t = s.drop_first();
        assert forall|j: int| 0 <= j < k - 1 implies !is_space(#[trigger] t[j]) by {
            assert(t[j] == s[j + 1]);
        }
        lemma_word_len(t, k - 1);
    }
}

/// Every word is non-empty and free of white space.
pub proof fn lemma_words_are_solid(s: Seq<char>)
    ensures
        forall|i: int, j: int|
            0 <= i < words_of(s).len() && 0 <= j < words_of(s)[i].len() ==> !is_space(
                #[trigger] words_of(s)[i][j],
            ),
        forall|i: int| 0 <= i < words_of(s).len() ==> (#[trigger] words_of(s)[i]).len() > 0,
    decreases s.len(),
{
    if s.len() == 0 {
        assert(words_of(s).len() == 0);
    } else if is_space(s[0]) {
        lemma_words_are_solid(s.drop_first());
        assert(words_of(s) == words_of(s.drop_first()));
    } else {
        let k = word_len(s) as int;
        lemma_word_len_bounds(s);
        assert(0 < k <= s.len());
        lemma_words_are_solid(s.skip(k));
        let rest = words_of(s.skip(k));
        let all = words_of(s);
        assert(all =~= seq![s.take(k)] + rest);
        assert forall|i: int, j: int| 0 <= i < all.len() && 0 <= j < all[i].len() implies !is_space(
            #[trigger] all[i][j],
        ) by {
            if i > 0 {
                assert(all[i] == rest[i - 1]);
                assert(!is_space(rest[i - 1][j]));
            } else {
                assert(all[0] == s.take(k));
                assert(all[0][j] == s[j]);
            }
        }
        assert forall|i: int| 0 <= i < all.len() implies (#[trigger] all[i]).len() > 0 by {
            if i > 0 {
                assert(all[i] == rest[i - 1]);
                assert(rest[i - 1].len() > 0);
            } else {
                assert(all[0] == s.take(k));
            }
        }
    }
}

/// The first word is a prefix without white space, and is not empty where
/// the text starts with another character.
pub proof fn lemma_word_len_bounds(s: Seq<char>)
    ensures
        word_len(s) <= s.len(),
        forall|j: int| 0 <= j < word_len(s) ==> !is_space(#[trigger] s[j]),
        s.len() > 0 && !is_space(s[0]) ==> word_len(s) > 0,
    decreases s.len(),
{
    if s.len() == 0 || is_space(s[0]) {
    } else {
        let t = s.drop_first();
        lemma_word_len_bounds(t);
        assert forall|j: int| 0 <= j < word_len(s) implies !is_space(#[trigger] s[j]) by {
            if j > 0 {
                assert(s[j] == t[j - 1]);
            }
        }
    }
}

/// The characters of a text, in order.
pub fn chars_of(s: &str) -> (chars: Vec<char>)
    ensures
        chars@ == s@,
{
    let mut chars: Vec<char> = Vec::new();
    let mut rest = s.chars();
    assert(rest.remaining() == s@);
    loop
        invariant
            chars@ + rest.remaining() == s@,
            rest.obeys_prophetic_iter_laws(),
            rest.decrease() is Some,
        ensures
            chars@ == s@,
        decreases rest.decrease()->0,
    {
        let ghost before = rest.remaining();
        match rest.next() {
            Some(c) => {
                chars.push(c);
                assert(chars@ + rest.remaining() =~= s@) by {
                    assert(before =~= seq![c] + rest.remaining());
                }
            },
            None => {
                assert(chars@ =~= s@);
                break;
            },
        }
    }
    chars
}

/// Splits a text into its words: none of them is empty and none holds
/// white space.
pub fn split_words(s: &str) -> (words: Vec<String>)
    ensures
        texts(words@) == words_of(s@),
        forall|i: int| 0 <= i < words.len() ==> (#[trigger] words[i])@.len() > 0,
        forall|i: int, j: int|
            0 <= i < words.len() && 0 <= j < words[i]@.len() ==> !is_space(
                #[trigger] words[i]@[j],
            ),
{
    let chars = chars_of(s);
    let n = chars.len();
    let mut words: Vec<String> = Vec::new();
    let mut i: usize = 0;
    proof {
        assert(s@.skip(0) =~= s@);
        assert(texts(words@) + words_of(s@.skip(0)) =~= words_of(s@));
    }
    while i < n
        invariant
            chars@ == s@,
            n == s@.len(),
            i <= n,
            texts(words@) + words_of(s@.skip(i as int)) == words_of(s@),
        decreases n - i,
    {
        let ghost before = s@.skip(i as int);
        if is_whitespace(chars[i]) {
            proof {
                assert(before.drop_first() =~= s@.skip(i + 1));
            }
            i += 1;
        } else {
            let start = i;
            while i < n && !is_whitespace(chars[i])
                invariant
                    chars@ == s@,
                    n == s@.len(),
                    start <= i <= n,
                    forall|j: int| start <= j < i ==> !is_space(#[trigger] s@[j]),
                decreases n - i,
            {
                i += 1;
            }
            let word = s.substring_char(start, i).to_owned();
            proof {
                let k = i - start;
                assert forall|j: int| 0 <= j < k implies !is_space(#[trigger] before[j]) by {
                    assert(before[j] == s@[start + j]);
                }
                lemma_word_len(before, k);
                assert(before.take(k) =~= s@.subrange(start as int, i as int));
                assert(before.skip(k) =~= s@.skip(i as int));
                let ghost grown = words@.push(word);
                assert(texts(grown) =~= texts(words@) + seq![before.take(k)]);
                assert(texts(grown) + words_of(s@.skip(i as int)) =~= texts(words@) + words_of(
                    before,
                ));
            }
            words.push(word);
        }
    }
    proof {
        assert(texts(words@) + words_of(s@.skip(i as int)) =~= texts(words@));
        lemma_words_are_solid(s@);
        assert forall|k: int| 0 <= k < words.len() implies (#[trigger] words[k])@ == words_of(
            s@,
        )[k] by {
            assert(texts(words@)[k] == words[k]@);
        }
    }
    words
}

/// The number of characters of `s` before its first line feed.
pub open spec fn line_len(s: Seq<char>) -> nat
    decreases s.len(),
{
    if s.len() == 0 || s[0] == '\n' {
        0
    } else {
        1 + line_len(s.drop_first())
    }
}

/// Whether a text holds nothing but white space.
pub open spec fn is_blank(s: Seq<char>) -> bool {
    forall|j: int| 0 <= j < s.len() ==> is_space(#[trigger] s[j])
}

/// A line without the carriage return that stood before its line feed.
pub open spec fn without_return(line: Seq<char>) -> Seq<char> {
    if line.len() > 0 && line.last() == '\r' {
        line.drop_last()
    } else {
        line
    }
}

/// The lines of a text that hold more than white space, from first to last.
/// A line ends at a line feed or at the end of the text; a carriage return
/// directly before the line feed does not belong to the line.
pub open spec fn lines_of(s: Seq<char>) -> Seq<Seq<char>>
    decreases s.len(),
{
    if s.len() == 0 {
        Seq::empty()
    } else {
        let k = line_len(s) as int;
        if 0 <= k < s.len() {
            let line = without_return(s.take(k));
            if is_blank(line) {
                lines_of(s.skip(k + 1))
            } else {
                seq![line] + lines_of(s.skip(k + 1))
            }
        } else if is_blank(s) {
            Seq::empty()
        } else {
            seq![s]
        }
    }
}

/// A run of `k` characters without a line feed that ends at a line feed or
/// at the end of the text is the first line's whole length.
pub proof fn lemma_line_len(s: Seq<char>, k: int)
    requires
        0 <= k <= s.len(),
        forall|j: int| 0 <= j < k ==> #[trigger] s[j] != '\n',
        k == s.len() || s[k] == '\n',
    ensures
        line_len(s) == k,
    decreases k,
{
    if k > 0 {
        let t = s.drop_first();
        assert forall|j: int| 0 <= j < k - 1 implies #[trigger] t[j] != '\n' by {
            assert(t[j] == s[j + 1]);
        }
        lemma_line_len(t, k - 1);
    }
}

/// Splits a text into its lines and keeps those that hold more than white
/// space.
pub fn split_lines(s: &str) -> (lines: Vec<String>)
    ensures
        texts(lines@) == lines_of(s@),
{
    let chars = chars_of(s);
    let n = chars.len();
    let mut lines: Vec<String> = Vec::new();
    let mut i: usize = 0;
    proof {
        assert(s@.skip(0) =~= s@);
        assert(texts(lines@) + lines_of(s@.skip(0)) =~= lines_of(s@));
    }
    while i < n
        invariant
            chars@ == s@,
            n == s@.len(),
            i <= n,
            texts(lines@) + lines_of(s@.skip(i as int)) == lines_of(s@),
        decreases n - i,
    {
        let ghost before = s@.skip(i as int);
        let start = i;
        let mut blank = true;
        while i < n && chars[i] != '\n'
            invariant
                chars@ == s@,
                n == s@.len(),
                start <= i <= n,
                forall|j: int| start <= j < i ==> #[trigger] s@[j] != '\n',
                blank == is_blank(s@.subrange(start as int, i as int)),
            decreases n - i,
        {
            let ghost seen = s@.subrange(start as int, i as int);
            let ghost more = s@.subrange(start as int, i + 1);
            proof {
                assert(more[i - start] == s@[i as int]);
                assert forall|j: int| 0 <= j < seen.len() implies seen[j] == more[j] by {}
                if is_blank(more) {
                    assert forall|j: int| 0 <= j < seen.len() implies is_space(
                        #[trigger] seen[j],
                    ) by {
                        assert(is_space(more[j]));
                    }
                }
                if is_blank(seen) && is_space(s@[i as int]) {
                    assert forall|j: int| 0 <= j < more.len() implies is_space(
                        #[trigger] more[j],
                    ) by {
                        if j < seen.len() {
                            assert(is_space(seen[j]));
                        }
                    }
                }
            }
            if !is_whitespace(chars[i]) {
                blank = false;
            }
            i += 1;
        }
        let ghost k = i - start;
        let ghost raw = s@.subrange(start as int, i as int);
        proof {
            assert forall|j: int| 0 <= j < k implies #[trigger] before[j] != '\n' by {
                assert(before[j] == s@[start + j]);
            }
            lemma_line_len(before, k);
            assert(before.take(k) =~= raw);
        }
        if i < n {
            let end = if i > start && chars[i - 1] == '\r' {
                i - 1
            } else {
                i
            };
            proof {
                let line = without_return(raw);
                assert(line =~= s@.subrange(start as int, end as int));
                assert(before.skip(k + 1) =~= s@.skip(i + 1));
                assert(is_space('\r'));
                if is_blank(raw) {
                    assert forall|j: int| 0 <= j < line.len() implies is_space(
                        #[trigger] line[j],
                    ) by {
                        assert(line[j] == raw[j]);
                    }
                }
                if is_blank(line) {
                    assert forall|j: int| 0 <= j < raw.len() implies is_space(
                        #[trigger] raw[j],
                    ) by {
                        if j < line.len() {
                            assert(line[j] == raw[j]);
                        }
                    }
                }
                assert(blank == is_blank(line));
            }
            if !blank {
                let line = s.substring_char(start, end).to_owned();
                proof {
                    assert(texts(lines@.push(line)) =~= texts(lines@) + seq![line@]);
                    assert(texts(lines@.push(line)) + lines_of(s@.skip(i + 1)) =~= texts(lines@)
                        + lines_of(before));
                }
                lines.push(line);
            }
            i += 1;
        } else {
            proof {
                assert(raw =~= before);
                assert(s@.skip(i as int).len() == 0);
            }
            if !blank {
                let line = s.substring_char(start, i).to_owned();
                proof {
                    assert(texts(lines@.push(line)) =~= texts(lines@) + seq![line@]);
                    assert(texts(lines@.push(line)) + lines_of(s@.skip(i as int)) =~= texts(lines@)
                        + lines_of(before));
                }
                lines.push(line);
            } else {
                proof {
                    assert(texts(lines@) + lines_of(s@.skip(i as int)) =~= texts(lines@)
                        + lines_of(before));
                }
            }
        }
    }
    proof {
        assert(texts(lines@) + lines_of(s@.skip(i as int)) =~= texts(lines@));
    }
    lines
}

} // verus!
