//! Character-level helpers on text: prefixes, searching and splitting into lines.

use vstd::prelude::*;

verus! {

/// `pattern` stands in `text` at index `at`.
pub open spec fn occurs_at(text: Seq<char>, pattern: Seq<char>, at: int) -> bool {
    &&& 0 <= at
    &&& at + pattern.len() <= text.len()
    &&& text.subrange(at, at + pattern.len()) == pattern
}

/// `at` is the least index at which `pattern` stands in `text`.
pub open spec fn is_first_occurrence(text: Seq<char>, pattern: Seq<char>, at: int) -> bool {
    &&& occurs_at(text, pattern, at)
    &&& forall|earlier: int| 0 <= earlier < at ==> !occurs_at(text, pattern, earlier)
}

/// The least index at which `pattern` stands in `text`, if it stands anywhere.
pub open spec fn first_occurrence(text: Seq<char>, pattern: Seq<char>) -> Option<int> {
    if exists|at: int| is_first_occurrence(text, pattern, at) {
        Some(choose|at: int| is_first_occurrence(text, pattern, at))
    } else {
        None
    }
}

/// A witness settles `first_occurrence`: the least index is unique.
pub proof fn lemma_first_occurrence_is(text: Seq<char>, pattern: Seq<char>, at: int)
    requires
        is_first_occurrence(text, pattern, at),
    ensures
        first_occurrence(text, pattern) == Some(at),
{
    let chosen = choose|i: int| is_first_occurrence(text, pattern, i);
    assert(is_first_occurrence(text, pattern, chosen));
    if chosen < at {
        assert(!occurs_at(text, pattern, chosen));
    }
    if at < chosen {
        assert(!occurs_at(text, pattern, at));
    }
}

/// What `first_occurrence` finds is a first occurrence.
pub proof fn lemma_first_occurrence_found(text: Seq<char>, pattern: Seq<char>)
    ensures
        first_occurrence(text, pattern) matches Some(at) ==> is_first_occurrence(text, pattern, at),
{
}

/// Without any occurrence there is no first one.
pub proof fn lemma_first_occurrence_none(text: Seq<char>, pattern: Seq<char>)
    requires
        forall|at: int| !occurs_at(text, pattern, at),
    ensures
        first_occurrence(text, pattern) is None,
{
    assert forall|at: int| !is_first_occurrence(text, pattern, at) by {
        assert(!occurs_at(text, pattern, at));
    }
}

/// A character that stands at `at` and nowhere before is first found there.
pub proof fn lemma_first_occurrence_of_char(text: Seq<char>, c: char, at: int)
    requires
        0 <= at < text.len(),
        text[at] == c,
        forall|j: int| 0 <= j < at ==> text[j] != c,
    ensures
        first_occurrence(text, seq![c]) == Some(at),
{
    assert(text.subrange(at, at + 1) =~= seq![c]);
    assert forall|earlier: int| 0 <= earlier < at implies !occurs_at(text, seq![c], earlier) by {
        assert(text.subrange(earlier, earlier + 1)[0] == text[earlier]);
    }
    lemma_first_occurrence_is(text, seq![c], at);
}

/// Where a character is first found, it stands, and nowhere before.
pub proof fn lemma_first_occurrence_of_char_found(text: Seq<char>, c: char)
    ensures
        first_occurrence(text, seq![c]) matches Some(at) ==> 0 <= at < text.len() && text[at] == c
            && forall|j: int| 0 <= j < at ==> text[j] != c,
{
    if let Some(at) = first_occurrence(text, seq![c]) {
        assert(is_first_occurrence(text, seq![c], at));
        assert(text.subrange(at, at + 1)[0] == text[at]);
        assert forall|j: int| 0 <= j < at implies text[j] != c by {
            assert(!occurs_at(text, seq![c], j));
            if text[j] == c {
                assert(text.subrange(j, j + 1) =~= seq![c]);
            }
        }
    }
}

/// The characters of `s`, in order.
pub fn chars_of(s: &str) -> (chars: Vec<char>)
    ensures
        chars@ == s@,
{
    let mut chars: Vec<char> = Vec::new();
    for c in it: s.chars()
        invariant
            it.seq() == s@,
            chars@ == it.seq().take(it.index() as int),
    {
        chars.push(c);
    }
    chars
}

/// The characters of `text` from index `from` up to index `to`.
pub fn slice_of(text: &Vec<char>, from: usize, to: usize) -> (part: Vec<char>)
    requires
        from <= to <= text.len(),
    ensures
        part@ == text@.subrange(from as int, to as int),
{
    let mut part: Vec<char> = Vec::new();
    let mut i: usize = from;
    while i < to
        invariant
            from <= i <= to <= text.len(),
            part@ == text@.subrange(from as int, i as int),
        decreases to - i,
    {
        part.push(text[i]);
        i += 1;
        assert(part@ =~= text@.subrange(from as int, i as int));
    }
    assert(part@ =~= text@.subrange(from as int, to as int));
    part
}

/// Whether `pattern` stands in `text` at index `at`.
pub fn matches_at(text: &Vec<char>, pattern: &Vec<char>, at: usize) -> (found: bool)
    ensures
        found == occurs_at(text@, pattern@, at as int),
{
    if pattern.len() > text.len() || at > text.len() - pattern.len() {
        return false;
    }
    let mut k: usize = 0;
    while k < pattern.len()
        invariant
            k <= pattern.len(),
            at + pattern.len() <= text.len(),
            forall|j: int| 0 <= j < k ==> text@[at + j] == pattern@[j],
        decreases pattern.len() - k,
    {
        if text[at + k] != pattern[k] {
            proof {
                let window = text@.subrange(at as int, at + pattern.len());
                assert(window[k as int] == text@[at + k]);
            }
            return false;
        }
        k += 1;
    }
    assert(text@.subrange(at as int, at + pattern.len()) =~= pattern@);
    true
}

/// Whether `text` begins with `prefix`.
pub fn starts_with(text: &Vec<char>, prefix: &Vec<char>) -> (found: bool)
    ensures
        found == prefix@.is_prefix_of(text@),
{
    matches_at(text, prefix, 0)
}

/// The least index at which `pattern` stands in `text`.
pub fn find(text: &Vec<char>, pattern: &Vec<char>) -> (found: Option<usize>)
    ensures
        found matches Some(at) ==> first_occurrence(text@, pattern@) == Some(at as int),
        found is None ==> first_occurrence(text@, pattern@) is None,
{
    if pattern.len() > text.len() {
        proof {
            lemma_first_occurrence_none(text@, pattern@);
        }
        return None;
    }
    let last: usize = text.len() - pattern.len();
    let mut at: usize = 0;
    loop
        invariant
            last == text.len() - pattern.len(),
            at <= last,
            forall|earlier: int| 0 <= earlier < at ==> !occurs_at(text@, pattern@, earlier),
        decreases last - at,
    {
        if matches_at(text, pattern, at) {
            proof {
                lemma_first_occurrence_is(text@, pattern@, at as int);
            }
            return Some(at);
        }
        if at == last {
            proof {
                lemma_first_occurrence_none(text@, pattern@);
            }
            return None;
        }
        at += 1;
    }
}

/// The line terminator.
pub open spec fn newline() -> Seq<char> {
    seq!['\n']
}

/// `line` without the carriage return that ends it, if one does.
pub open spec fn without_carriage_return(line: Seq<char>) -> Seq<char> {
    if line.len() > 0 && line.last() == '\r' {
        line.drop_last()
    } else {
        line
    }
}

/// The lines of `text`. A line ends at a line feed, or at a carriage return directly before
/// one; neither belongs to the line. What follows the last line feed is a line of its own
/// unless it is empty.
pub open spec fn lines_of(text: Seq<char>) -> Seq<Seq<char>>
    decreases text.len(),
{
    if text.len() == 0 {
        Seq::empty()
    } else if let Some(end) = first_occurrence(text, newline()) {
        if 0 <= end < text.len() {
            seq![without_carriage_return(text.subrange(0, end))] + lines_of(
                text.subrange(end + 1, text.len() as int),
            )
        } else {
            seq![text]
        }
    } else {
        seq![text]
    }
}

/// The texts of `lines`.
pub open spec fn line_texts(lines: Seq<Vec<char>>) -> Seq<Seq<char>> {
    lines.map_values(|line: Vec<char>| line@)
}

/// Where the first line feed of `text` is, `text` splits into its first line and the rest.
pub proof fn lemma_lines_of_split(text: Seq<char>, end: int)
    requires
        0 <= end < text.len(),
        text[end] == '\n',
        forall|j: int| 0 <= j < end ==> text[j] != '\n',
    ensures
        lines_of(text) == seq![without_carriage_return(text.subrange(0, end))] + lines_of(
            text.subrange(end + 1, text.len() as int),
        ),
{
    assert(text.subrange(end, end + 1) =~= newline());
    assert forall|earlier: int| 0 <= earlier < end implies !occurs_at(text, newline(), earlier) by {
        assert(text.subrange(earlier, earlier + 1)[0] == text[earlier]);
    }
    lemma_first_occurrence_is(text, newline(), end);
}

/// A text without a line feed is one line, unless it is empty.
pub proof fn lemma_lines_of_single(text: Seq<char>)
    requires
        forall|j: int| 0 <= j < text.len() ==> text[j] != '\n',
    ensures
        lines_of(text) == if text.len() == 0 {
            Seq::<Seq<char>>::empty()
        } else {
            seq![text]
        },
{
    assert forall|at: int| !occurs_at(text, newline(), at) by {
        if occurs_at(text, newline(), at) {
            assert(text.subrange(at, at + 1)[0] == text[at]);
        }
    }
    lemma_first_occurrence_none(text, newline());
}

/// Splits `text` into its lines.
pub fn split_lines(text: &Vec<char>) -> (lines: Vec<Vec<char>>)
    ensures
        line_texts(lines@) == lines_of(text@),
{
    let mut lines: Vec<Vec<char>> = Vec::new();
    let mut current: Vec<char> = Vec::new();
    let ghost mut start: int = 0;
    let mut i: usize = 0;
    assert(text@.subrange(0, text@.len() as int) =~= text@);
    while i < text.len()
        invariant
            0 <= start <= i <= text.len(),
            current@ == text@.subrange(start, i as int),
            forall|j: int| start <= j < i ==> text@[j] != '\n',
            lines_of(text@) == line_texts(lines@) + lines_of(
                text@.subrange(start, text@.len() as int),
            ),
        decreases text.len() - i,
    {
        let c = text[i];
        if c == '\n' {
            let ghost rest = text@.subrange(start, text@.len() as int);
            let ghost raw = current@;
            proof {
                lemma_lines_of_split(rest, i - start);
                assert(rest.subrange(0, i - start) =~= raw);
                assert(rest.subrange(i - start + 1, rest.len() as int) =~= text@.subrange(
                    i + 1,
                    text@.len() as int,
                ));
            }
            let n = current.len();
            if n > 0 && current[n - 1] == '\r' {
                current.pop();
            }
            assert(current@ =~= without_carriage_return(raw));
            let ghost before = line_texts(lines@);
            lines.push(current);
            current = Vec::new();
            proof {
                start = i + 1;
                assert(line_texts(lines@) =~= before + seq![without_carriage_return(raw)]);
            }
        } else {
            current.push(c);
        }
        i += 1;
        assert(current@ =~= text@.subrange(start, i as int));
    }
    proof {
        lemma_lines_of_single(text@.subrange(start, text@.len() as int));
    }
    if current.len() > 0 {
        let ghost before = line_texts(lines@);
        let ghost last = current@;
        lines.push(current);
        assert(line_texts(lines@) =~= before + seq![last]);
    } else {
        assert(line_texts(lines@) + Seq::<Seq<char>>::empty() =~= line_texts(lines@));
    }
    lines
}

/// A string of the characters `chars`, by `String::from_iter`.
#[verifier::external_body]
pub(crate) fn string_of(chars: &Vec<char>) -> (s: String)
    ensures
        s@ == chars@,
{
    String::from_iter(chars)
}

} // verus!
