//! Text as sequences of characters: splitting, comparing, and reading and
//! writing numbers.

use vstd::prelude::*;

verus! {

/// `String::push` appends the character.
pub assume_specification[ String::push ](s: &mut String, c: char)
    ensures
        final(s)@ == old(s)@.push(c),
;

/// The characters of `s`.
pub fn to_chars(s: &str) -> (chars: Vec<char>)
    ensures
        chars@ == s@,
{
    let mut chars: Vec<char> = Vec::new();
    for c in iter: s.chars()
        invariant
            chars@.len() == iter.index(),
            iter.seq() == s@,
            forall|i: int| 0 <= i < chars@.len() ==> chars@[i] == iter.seq()[i],
    {
        chars.push(c);
    }
    assert(chars@ =~= s@);
    chars
}

/// Appends `chars` to `out`.
pub fn push_chars(out: &mut String, chars: &[char])
    ensures
        final(out)@ == old(out)@ + chars@,
{
    let mut i: usize = 0;
    assert(out@ =~= old(out)@ + chars@.take(0));
    while i < chars.len()
        invariant
            i <= chars@.len(),
            out@ == old(out)@ + chars@.take(i as int),
        decreases chars@.len() - i,
    {
        out.push(chars[i]);
        assert(out@ =~= old(out)@ + chars@.take(i + 1));
        i += 1;
    }
    assert(chars@.take(i as int) =~= chars@);
}

/// `chars` as a string.
pub fn to_text(chars: &[char]) -> (text: String)
    ensures
        text@ == chars@,
{
    let mut text = String::new();
    push_chars(&mut text, chars);
    assert(text@ =~= chars@);
    text
}

/// Copies the characters of `chars` from `from` up to `to`.
pub fn slice_chars(chars: &[char], from: usize, to: usize) -> (part: Vec<char>)
    requires
        from <= to <= chars@.len(),
    ensures
        part@ == chars@.subrange(from as int, to as int),
{
    let mut part: Vec<char> = Vec::new();
    let mut i: usize = from;
    while i < to
        invariant
            from <= i <= to <= chars@.len(),
            part@ == chars@.subrange(from as int, i as int),
        decreases to - i,
    {
        part.push(chars[i]);
        assert(part@ =~= chars@.subrange(from as int, i + 1));
        i += 1;
    }
    part
}

/// Whether two character sequences are the same.
pub fn same_chars(a: &[char], b: &[char]) -> (r: bool)
    ensures
        r == (a@ == b@),
{
    if a.len() != b.len() {
        return false;
    }
    let mut i: usize = 0;
    while i < a.len()
        invariant
            a@.len() == b@.len(),
            i <= a@.len(),
            forall|j: int| 0 <= j < i ==> a@[j] == b@[j],
        decreases a@.len() - i,
    {
        if a[i] != b[i] {
            assert(a@[i as int] != b@[i as int]);
            return false;
        }
        i += 1;
    }
    assert(a@ =~= b@);
    true
}

/// Whether `c` is white space in Unicode.
pub open spec fn is_white(c: char) -> bool {
    ||| 0x09 <= c as u32 <= 0x0d
    ||| c as u32 == 0x20
    ||| c as u32 == 0x85
    ||| c as u32 == 0xa0
    ||| c as u32 == 0x1680
    ||| 0x2000 <= c as u32 <= 0x200a
    ||| c as u32 == 0x2028
    ||| c as u32 == 0x2029
    ||| c as u32 == 0x202f
    ||| c as u32 == 0x205f
    ||| c as u32 == 0x3000
}

pub fn is_white_space(c: char) -> (r: bool)
    ensures
        r == is_white(c),
{
    let n: u32 = c as u32;
    (0x09 <= n && n <= 0x0d) || n == 0x20 || n == 0x85 || n == 0xa0 || n == 0x1680 || (0x2000 <= n
        && n <= 0x200a) || n == 0x2028 || n == 0x2029 || n == 0x202f || n == 0x205f || n == 0x3000
}

/// How many characters at the front of `s` are white space, or are not, as
/// `white` says.
pub open spec fn run_len(s: Seq<char>, white: bool) -> int
    decreases s.len(),
{
    if s.len() == 0 || is_white(s[0]) != white {
        0
    } else {
        1 + run_len(s.skip(1), white)
    }
}

proof fn run_len_bounds(s: Seq<char>, white: bool)
    ensures
        0 <= run_len(s, white) <= s.len(),
    decreases s.len(),
{
    if s.len() > 0 && is_white(s[0]) == white {
        run_len_bounds(s.skip(1), white);
    }
}

proof fn run_len_is(s: Seq<char>, white: bool, n: int)
    requires
        0 <= n <= s.len(),
        forall|i: int| 0 <= i < n ==> is_white(#[trigger] s[i]) == white,
        n == s.len() || is_white(s[n]) != white,
    ensures
        run_len(s, white) == n,
    decreases n,
{
    if n > 0 {
        assert(is_white(s[0]) == white);
        assert forall|i: int| 0 <= i < n - 1 implies is_white(#[trigger] s.skip(1)[i]) == white by {
            assert(s.skip(1)[i] == s[i + 1]);
        }
        run_len_is(s.skip(1), white, n - 1);
    }
}

/// The end of the run at `from` of characters that are white space, or are not,
/// as `white` says.
fn run_end(s: &[char], from: usize, white: bool) -> (end: usize)
    requires
        from <= s@.len(),
    ensures
        from <= end <= s@.len(),
        end == from + run_len(s@.skip(from as int), white),
{
    let mut end: usize = from;
    while end < s.len() && is_white_space(s[end]) == white
        invariant
            from <= end <= s@.len(),
            forall|i: int| from <= i < end ==> is_white(#[trigger] s@[i]) == white,
        decreases s@.len() - end,
    {
        end += 1;
    }
    proof {
        let rest = s@.skip(from as int);
        assert forall|i: int| 0 <= i < end - from implies is_white(#[trigger] rest[i]) == white by {
            assert(rest[i] == s@[from + i]);
        }
        if end < s@.len() {
            assert(rest[end - from] == s@[end as int]);
        }
        run_len_is(rest, white, end - from);
    }
    end
}

/// The words of `s`, as separated by white space.
pub open spec fn words(s: Seq<char>) -> Seq<Seq<char>>
    decreases s.len(),
    via words_shrink
{
    let gap = run_len(s, true);
    if gap >= s.len() {
        seq![]
    } else {
        let end = gap + run_len(s.skip(gap), false);
        seq![s.subrange(gap, end)] + words(s.skip(end))
    }
}

#[via_fn]
proof fn words_shrink(s: Seq<char>) {
    run_len_bounds(s, true);
    let gap = run_len(s, true);
    if gap < s.len() {
        run_stops(s, true);
        run_len_bounds(s.skip(gap), false);
        run_len_bounds(s.skip(gap).skip(1), false);
        assert(s.skip(gap)[0] == s[gap]);
    }
}

proof fn run_stops(s: Seq<char>, white: bool)
    requires
        run_len(s, white) < s.len(),
    ensures
        0 <= run_len(s, white),
        is_white(s[run_len(s, white)]) != white,
    decreases s.len(),
{
    if s.len() > 0 && is_white(s[0]) == white {
        run_stops(s.skip(1), white);
        run_len_bounds(s.skip(1), white);
        assert(s.skip(1)[run_len(s.skip(1), white)] == s[run_len(s, white)]);
    }
}

/// White space is the Unicode property of that name: tab to carriage return, space,
/// next line, no-break space, the Ogham space, the spaces of the general punctuation
/// block, its line and paragraph separators, and the ideographic space.
pub proof fn white_space_is_the_unicode_property(c: char)
    ensures
        is_white(c) <==> {
            ||| c == '\t' || c == '\n' || c == '\u{b}' || c == '\u{c}' || c == '\r' || c == ' '
            ||| c == '\u{85}' || c == '\u{a0}' || c == '\u{1680}'
            ||| '\u{2000}' <= c <= '\u{200a}'
            ||| c == '\u{2028}' || c == '\u{2029}' || c == '\u{202f}' || c == '\u{205f}'
            ||| c == '\u{3000}'
        },
{
}

/// White space separates words and is no part of one: it may be dropped at the front,
/// and a run of other characters up to white space or the end is the first word.
pub proof fn words_are_runs_without_white_space(gap: Seq<char>, word: Seq<char>, rest: Seq<char>)
    requires
        forall|i: int| 0 <= i < gap.len() ==> is_white(#[trigger] gap[i]),
        word.len() > 0,
        forall|i: int| 0 <= i < word.len() ==> !is_white(#[trigger] word[i]),
        rest.len() == 0 || is_white(rest[0]),
    ensures
        words(gap) == Seq::<Seq<char>>::empty(),
        words(gap + word + rest) == seq![word] + words(rest),
{
    let s = gap + word + rest;
    let n = gap.len() as int;
    let end = n + word.len();
    run_len_is(gap, true, n);
    assert forall|i: int| 0 <= i < n implies is_white(#[trigger] s[i]) == true by {
        assert(s[i] == gap[i]);
    }
    assert(s[n] == word[0]);
    run_len_is(s, true, n);
    let tail = s.skip(n);
    assert forall|i: int| 0 <= i < word.len() implies is_white(#[trigger] tail[i]) == false by {
        assert(tail[i] == word[i]);
    }
    if rest.len() > 0 {
        assert(tail[word.len() as int] == rest[0]);
    }
    run_len_is(tail, false, word.len() as int);
    assert(s.subrange(n, end) =~= word);
    assert(s.skip(end) =~= rest);
}

/// The character sequences that `parts` hold.
pub open spec fn texts(parts: Seq<Vec<char>>) -> Seq<Seq<char>> {
    parts.map_values(|part: Vec<char>| part@)
}

/// Splits `s` into its words.
pub fn split_words(s: &[char]) -> (parts: Vec<Vec<char>>)
    ensures
        texts(parts@) == words(s@),
{
    let mut parts: Vec<Vec<char>> = Vec::new();
    let mut at: usize = 0;
    assert(s@.skip(0) =~= s@);
    assert(texts(parts@) + words(s@.skip(0)) =~= words(s@));
    loop
        invariant
            at <= s@.len(),
            texts(parts@) + words(s@.skip(at as int)) == words(s@),
        ensures
            texts(parts@) == words(s@),
        decreases s@.len() - at,
    {
        let start: usize = run_end(s, at, true);
        let ghost rest = s@.skip(at as int);
        if start >= s.len() {
            assert(words(rest) =~= seq![]);
            assert(texts(parts@) =~= words(s@));
            break;
        }
        let end: usize = run_end(s, start, false);
        proof {
            run_stops(rest, true);
            assert(rest[start - at] == s@[start as int]);
            assert(s@.skip(start as int)[0] == s@[start as int]);
            run_len_bounds(s@.skip(start as int).skip(1), false);
            assert(end > start);
            assert(rest.skip(start - at) =~= s@.skip(start as int));
            assert(rest.skip(end - at) =~= s@.skip(end as int));
            assert(rest.subrange(start - at, end - at) =~= s@.subrange(start as int, end as int));
        }
        let word: Vec<char> = slice_chars(s, start, end);
        let ghost before = parts@;
        parts.push(word);
        proof {
            assert(texts(parts@) =~= texts(before).push(word@));
            assert(texts(parts@) + words(s@.skip(end as int)) =~= texts(before) + words(rest));
        }
        at = end;
    }
    parts
}

/// Where `needle` first occurs in `s`, if it does.
pub open spec fn first_index(s: Seq<char>, needle: char) -> Option<int>
    decreases s.len(),
{
    if s.len() == 0 {
        None
    } else if s[0] == needle {
        Some(0)
    } else {
        match first_index(s.skip(1), needle) {
            None => None,
            Some(i) => Some(i + 1),
        }
    }
}

proof fn first_index_is(s: Seq<char>, needle: char, n: int)
    requires
        0 <= n <= s.len(),
        forall|i: int| 0 <= i < n ==> #[trigger] s[i] != needle,
        n == s.len() || s[n] == needle,
    ensures
        first_index(s, needle) == (if n == s.len() {
            None
        } else {
            Some(n)
        }),
    decreases n,
{
    if n > 0 {
        assert(s[0] != needle);
        assert forall|i: int| 0 <= i < n - 1 implies #[trigger] s.skip(1)[i] != needle by {
            assert(s.skip(1)[i] == s[i + 1]);
        }
        first_index_is(s.skip(1), needle, n - 1);
    }
}

proof fn first_index_bounds(s: Seq<char>, needle: char)
    ensures
        first_index(s, needle) matches Some(i) ==> 0 <= i < s.len() && s[i] == needle,
    decreases s.len(),
{
    if s.len() > 0 && s[0] != needle {
        first_index_bounds(s.skip(1), needle);
    }
}

/// `s` without one carriage return at its end.
pub open spec fn without_cr(s: Seq<char>) -> Seq<char> {
    if s.len() > 0 && s.last() == '\r' {
        s.drop_last()
    } else {
        s
    }
}

/// The lines of `s`: each ends before a line feed, of which a preceding carriage
/// return is part; what follows the last line feed is a line unless it is empty.
pub open spec fn lines(s: Seq<char>) -> Seq<Seq<char>>
    decreases s.len(),
    via lines_shrink
{
    if s.len() == 0 {
        seq![]
    } else {
        match first_index(s, '\n') {
            None => seq![s],
            Some(i) => seq![without_cr(s.take(i))] + lines(s.skip(i + 1)),
        }
    }
}

#[via_fn]
proof fn lines_shrink(s: Seq<char>) {
    first_index_bounds(s, '\n');
}

/// Splits `s` into its lines.
pub fn split_lines(s: &[char]) -> (parts: Vec<Vec<char>>)
    ensures
        texts(parts@) == lines(s@),
{
    let mut parts: Vec<Vec<char>> = Vec::new();
    let mut at: usize = 0;
    assert(s@.skip(0) =~= s@);
    assert(texts(parts@) + lines(s@.skip(0)) =~= lines(s@));
    while at < s.len()
        invariant
            at <= s@.len(),
            texts(parts@) + lines(s@.skip(at as int)) == lines(s@),
        decreases s@.len() - at,
    {
        let ghost rest = s@.skip(at as int);
        let ghost before = parts@;
        let mut end: usize = at;
        while end < s.len() && s[end] != '\n'
            invariant
                at <= end <= s@.len(),
                forall|i: int| at <= i < end ==> #[trigger] s@[i] != '\n',
            decreases s@.len() - end,
        {
            end += 1;
        }
        proof {
            assert forall|i: int| 0 <= i < end - at implies #[trigger] rest[i] != '\n' by {
                assert(rest[i] == s@[at + i]);
            }
            if end < s@.len() {
                assert(rest[end - at] == s@[end as int]);
            }
            first_index_is(rest, '\n', end - at);
        }
        if end == s.len() {
            let line: Vec<char> = slice_chars(s, at, end);
            parts.push(line);
            proof {
                assert(line@ =~= rest);
                assert(texts(parts@) =~= texts(before).push(rest));
                assert(s@.skip(end as int) =~= Seq::<char>::empty());
                assert(texts(parts@) + lines(s@.skip(end as int)) =~= texts(before) + lines(rest));
            }
            at = end;
        } else {
            let stop: usize = if end > at && s[end - 1] == '\r' {
                end - 1
            } else {
                end
            };
            let line: Vec<char> = slice_chars(s, at, stop);
            parts.push(line);
            proof {
                let whole = rest.take(end - at);
                assert(whole.len() > 0 ==> whole.last() == s@[end - 1]);
                assert(line@ =~= without_cr(whole));
                assert(texts(parts@) =~= texts(before).push(line@));
                assert(rest.skip(end - at + 1) =~= s@.skip(end + 1));
                assert(texts(parts@) + lines(s@.skip(end + 1)) =~= texts(before) + lines(rest));
            }
            at = end + 1;
        }
    }
    proof {
        assert(s@.skip(at as int) =~= Seq::<char>::empty());
        assert(texts(parts@) + lines(s@.skip(at as int)) =~= texts(parts@));
    }
    parts
}

/// A line feed ends a line, and a carriage return before it is no part of the line;
/// what follows the last line feed is a line of its own unless it is empty.
pub proof fn lines_end_at_line_feeds(line: Seq<char>, rest: Seq<char>)
    requires
        forall|i: int| 0 <= i < line.len() ==> #[trigger] line[i] != '\n',
    ensures
        lines(Seq::empty()) == Seq::<Seq<char>>::empty(),
        line.len() > 0 ==> lines(line) == seq![line],
        line.len() == 0 || line.last() != '\r' ==> lines(line.push('\n') + rest) == seq![line]
            + lines(rest),
        line.len() > 0 && line.last() == '\r' ==> lines(line.push('\n') + rest)
            == seq![line.drop_last()] + lines(rest),
{
    let s = line.push('\n') + rest;
    let n = line.len() as int;
    first_index_is(line, '\n', n);
    assert forall|i: int| 0 <= i < n implies #[trigger] s[i] != '\n' by {
        assert(s[i] == line[i]);
    }
    first_index_is(s, '\n', n);
    assert(s.take(n) =~= line);
    assert(s.skip(n + 1) =~= rest);
}

/// How many characters at the end of `s` are white space.
pub open spec fn tail_len(s: Seq<char>) -> int
    decreases s.len(),
{
    if s.len() == 0 || !is_white(s.last()) {
        0
    } else {
        1 + tail_len(s.drop_last())
    }
}

/// `s` without white space at its front and end.
pub open spec fn trimmed(s: Seq<char>) -> Seq<char> {
    let front = s.skip(run_len(s, true));
    front.take(front.len() - tail_len(front))
}

/// Removes white space from the front and end.
pub fn trim(s: &[char]) -> (part: Vec<char>)
    ensures
        part@ == trimmed(s@),
{
    let start: usize = run_end(s, 0, true);
    assert(s@.skip(0) =~= s@);
    let ghost front = s@.skip(start as int);
    let mut end: usize = s.len();
    assert(front.take(front.len() as int) =~= front);
    while end > start && is_white_space(s[end - 1])
        invariant
            start <= end <= s@.len(),
            front == s@.skip(start as int),
            tail_len(front) == s@.len() - end + tail_len(front.take(end - start)),
        decreases end - start,
    {
        proof {
            let part = front.take(end - start);
            assert(part.last() == s@[end - 1]);
            assert(part.drop_last() =~= front.take(end - start - 1));
        }
        end -= 1;
    }
    proof {
        let part = front.take(end - start);
        if end > start {
            assert(part.last() == s@[end - 1]);
        }
        assert(tail_len(part) == 0);
        assert(s@.subrange(start as int, end as int) =~= trimmed(s@));
    }
    slice_chars(s, start, end)
}

/// Trimming takes white space off both ends and nothing else: a part that neither
/// starts nor ends with white space comes out of any white space around it, and white
/// space alone leaves nothing.
pub proof fn trimming_leaves_the_middle(front: Seq<char>, middle: Seq<char>, back: Seq<char>)
    requires
        forall|i: int| 0 <= i < front.len() ==> is_white(#[trigger] front[i]),
        forall|i: int| 0 <= i < back.len() ==> is_white(#[trigger] back[i]),
        middle.len() > 0 ==> !is_white(middle[0]) && !is_white(middle.last()),
    ensures
        trimmed(front + middle + back) == middle,
{
    let s = front + middle + back;
    let n = front.len() as int;
    if middle.len() == 0 {
        assert forall|i: int| 0 <= i < s.len() implies is_white(#[trigger] s[i]) == true by {
            if i < n {
                assert(s[i] == front[i]);
            } else {
                assert(s[i] == back[i - n]);
            }
        }
        run_len_is(s, true, s.len() as int);
        assert(trimmed(s) =~= middle);
    } else {
        assert forall|i: int| 0 <= i < n implies is_white(#[trigger] s[i]) == true by {
            assert(s[i] == front[i]);
        }
        assert(s[n] == middle[0]);
        run_len_is(s, true, n);
        assert(s.skip(n) =~= middle + back);
        tail_len_is(middle, back);
        assert(trimmed(s) =~= middle);
    }
}

proof fn tail_len_is(middle: Seq<char>, back: Seq<char>)
    requires
        middle.len() > 0,
        !is_white(middle.last()),
        forall|i: int| 0 <= i < back.len() ==> is_white(#[trigger] back[i]),
    ensures
        tail_len(middle + back) == back.len(),
    decreases back.len(),
{
    let s = middle + back;
    if back.len() == 0 {
        assert(s =~= middle);
    } else {
        assert(s.last() == back[back.len() - 1]);
        assert(s.drop_last() =~= middle + back.drop_last());
        tail_len_is(middle, back.drop_last());
    }
}

/// Whether `s` starts with `prefix`.
pub open spec fn starts_with(s: Seq<char>, prefix: Seq<char>) -> bool {
    prefix.len() <= s.len() && s.take(prefix.len() as int) == prefix
}

/// Whether `part` stands in `s` at `at`.
pub open spec fn occurs_at(s: Seq<char>, part: Seq<char>, at: int) -> bool {
    0 <= at && at + part.len() <= s.len() && s.subrange(at, at + part.len()) == part
}

/// A part stands where what is before and after it puts it, and a prefix at the front.
pub proof fn a_part_stands_between_the_rest(
    s: Seq<char>,
    before: Seq<char>,
    part: Seq<char>,
    after: Seq<char>,
    at: int,
)
    ensures
        starts_with(part + after, part),
        occurs_at(before + part + after, part, before.len() as int),
        starts_with(s, part) ==> s == part + s.skip(part.len() as int),
        occurs_at(s, part, at) ==> s == s.take(at) + part + s.skip(at + part.len()),
{
    assert((part + after).take(part.len() as int) =~= part);
    let n = before.len() as int;
    assert((before + part + after).subrange(n, n + part.len()) =~= part);
    if starts_with(s, part) {
        assert(s =~= s.take(part.len() as int) + s.skip(part.len() as int));
    }
    if occurs_at(s, part, at) {
        assert(s =~= s.take(at) + s.subrange(at, at + part.len()) + s.skip(at + part.len()));
    }
}

/// Whether `part` stands in `s` at `at`.
pub fn matches_at(s: &[char], part: &[char], at: usize) -> (r: bool)
    ensures
        r == occurs_at(s@, part@, at as int),
{
    if at > s.len() || s.len() - at < part.len() {
        return false;
    }
    let mut i: usize = 0;
    while i < part.len()
        invariant
            at + part@.len() <= s@.len() <= usize::MAX,
            i <= part@.len(),
            forall|j: int| 0 <= j < i ==> s@[at + j] == part@[j],
        decreases part@.len() - i,
    {
        if s[at + i] != part[i] {
            assert(s@.subrange(at as int, at + part@.len())[i as int] == s@[at + i]);
            return false;
        }
        i += 1;
    }
    assert(s@.subrange(at as int, at + part@.len()) =~= part@);
    true
}

/// Where `part` first stands in `s`.
pub fn find(s: &[char], part: &[char]) -> (r: Option<usize>)
    ensures
        r matches Some(i) ==> occurs_at(s@, part@, i as int) && forall|j: int|
            0 <= j < i ==> !occurs_at(s@, part@, j),
        r is None ==> forall|j: int| !occurs_at(s@, part@, j),
{
    let mut i: usize = 0;
    while i < s.len()
        invariant
            i <= s@.len(),
            forall|j: int| 0 <= j < i ==> !occurs_at(s@, part@, j),
        decreases s@.len() - i,
    {
        if matches_at(s, part, i) {
            return Some(i);
        }
        i += 1;
    }
    if matches_at(s, part, i) {
        return Some(i);
    }
    None
}

/// Why a text is not a number.
#[derive(Clone, Copy, Debug, PartialEq, Eq, Structural)]
pub enum NumberError {
    Empty,
    InvalidDigit,
    TooLarge,
}

/// The wording of a number error.
pub open spec fn number_error_text(error: NumberError) -> Seq<char> {
    match error {
        NumberError::Empty => "cannot parse integer from empty string"@,
        NumberError::InvalidDigit => "invalid digit found in string"@,
        NumberError::TooLarge => "number too large to fit in target type"@,
    }
}

/// Each number error says why the text is no number.
pub proof fn number_errors_are_worded()
    ensures
        number_error_text(NumberError::Empty) == "cannot parse integer from empty string"@,
        number_error_text(NumberError::InvalidDigit) == "invalid digit found in string"@,
        number_error_text(NumberError::TooLarge) == "number too large to fit in target type"@,
{
}

impl NumberError {
    /// The wording of the error.
    pub fn message(self) -> (text: &'static str)
        ensures
            text@ == number_error_text(self),
    {
        match self {
            NumberError::Empty => "cannot parse integer from empty string",
            NumberError::InvalidDigit => "invalid digit found in string",
            NumberError::TooLarge => "number too large to fit in target type",
        }
    }
}

/// Whether `c` is a decimal digit.
pub open spec fn is_digit(c: char) -> bool {
    '0' <= c <= '9'
}

/// The number that the digits `s` write, read from the left up to the first
/// character that is no digit or makes the number too large.
pub open spec fn digits_value(s: Seq<char>) -> Result<u64, NumberError>
    decreases s.len(),
{
    if s.len() == 0 {
        Ok(0)
    } else {
        match digits_value(s.drop_last()) {
            Err(error) => Err(error),
            Ok(value) => if !is_digit(s.last()) {
                Err(NumberError::InvalidDigit)
            } else if value * 10 + (s.last() as int - '0' as int) > u64::MAX {
                Err(NumberError::TooLarge)
            } else {
                Ok((value * 10 + (s.last() as int - '0' as int)) as u64)
            },
        }
    }
}

/// The number that `s` writes in decimal, with an optional plus sign.
pub open spec fn number(s: Seq<char>) -> Result<u64, NumberError> {
    if s.len() == 0 {
        Err(NumberError::Empty)
    } else if s =~= seq!['+'] {
        Err(NumberError::InvalidDigit)
    } else if s[0] == '+' {
        digits_value(s.skip(1))
    } else {
        digits_value(s)
    }
}

/// A number is read digit by digit: no text and a sign alone are none, one more digit
/// makes it ten times as large and adds the digit, and a character that is no digit
/// or a number past the range spoils it.
pub proof fn number_grows_by_one_digit(s: Seq<char>, c: char)
    ensures
        number(Seq::empty()) == Err::<u64, NumberError>(NumberError::Empty),
        number(seq!['+']) == Err::<u64, NumberError>(NumberError::InvalidDigit),
        '0' <= c <= '9' ==> number(seq![c]) == Ok::<u64, NumberError>((c as int - 48) as u64),
        '0' <= c <= '9' ==> number(seq!['+', c]) == Ok::<u64, NumberError>(
            (c as int - 48) as u64,
        ),
        !('0' <= c <= '9') ==> number(seq![c]) == Err::<u64, NumberError>(
            NumberError::InvalidDigit,
        ),
        number(s) matches Ok(v) ==> number(s.push(c)) == (if !('0' <= c <= '9') {
            Err::<u64, NumberError>(NumberError::InvalidDigit)
        } else if v * 10 + (c as int - 48) > 0xffff_ffff_ffff_ffff {
            Err::<u64, NumberError>(NumberError::TooLarge)
        } else {
            Ok::<u64, NumberError>((v * 10 + (c as int - 48)) as u64)
        }),
        s.len() > 0 && s != seq!['+'] && number(s) is Err ==> number(s.push(c)) == number(s),
{
    assert(digits_value(Seq::<char>::empty()) == Ok::<u64, NumberError>(0));
    assert(seq![c].drop_last() =~= Seq::<char>::empty());
    assert(seq!['+', c].skip(1) =~= seq![c]);
    assert(seq!['+', c][0] == '+');
    assert(digits_value(seq![c]) == (if !('0' <= c <= '9') {
        Err::<u64, NumberError>(NumberError::InvalidDigit)
    } else {
        Ok::<u64, NumberError>((c as int - 48) as u64)
    }));
    if seq!['+', c] =~= seq!['+'] {
        assert(seq!['+', c].len() == seq!['+'].len());
    }
    if seq![c] =~= seq!['+'] {
        assert(seq![c][0] == '+');
    }
    let next = s.push(c);
    if s.len() > 0 && s != seq!['+'] {
        assert(next[0] == s[0]);
        assert(next.len() > 1);
        if next =~= seq!['+'] {
            assert(next.len() == seq!['+'].len());
        }
        if s[0] == '+' {
            if s.len() == 1 {
                assert(s =~= seq!['+']);
            }
            assert(next.skip(1) =~= s.skip(1).push(c));
            assert(s.skip(1).push(c).drop_last() =~= s.skip(1));
        } else {
            assert(next.drop_last() =~= s);
        }
    }
}

proof fn digits_error_stays(s: Seq<char>, n: int)
    requires
        0 <= n <= s.len(),
        digits_value(s.take(n)) is Err,
    ensures
        digits_value(s) == digits_value(s.take(n)),
    decreases s.len() - n,
{
    if n < s.len() {
        assert(s.take(n + 1).drop_last() =~= s.take(n));
        digits_error_stays(s, n + 1);
    } else {
        assert(s.take(n) =~= s);
    }
}

/// Reads a decimal number.
pub fn parse_u64(s: &[char]) -> (r: Result<u64, NumberError>)
    ensures
        r == number(s@),
{
    if s.len() == 0 {
        return Err(NumberError::Empty);
    }
    let start: usize = if s[0] == '+' {
        1
    } else {
        0
    };
    if start == s.len() {
        assert(s@ =~= seq!['+']);
        return Err(NumberError::InvalidDigit);
    }
    let ghost digits = s@.skip(start as int);
    assert(s@.skip(0) =~= s@);
    let mut value: u64 = 0;
    let mut i: usize = start;
    assert(digits.take(0) =~= Seq::<char>::empty());
    while i < s.len()
        invariant
            start <= i <= s@.len(),
            digits == s@.skip(start as int),
            digits_value(digits.take(i - start)) == Ok::<u64, NumberError>(value),
            number(s@) == digits_value(digits),
        decreases s@.len() - i,
    {
        let c: char = s[i];
        proof {
            let next = digits.take(i - start + 1);
            assert(next.drop_last() =~= digits.take(i - start));
            assert(next.last() == c);
        }
        if !('0' <= c && c <= '9') {
            proof {
                digits_error_stays(digits, i - start + 1);
            }
            return Err(NumberError::InvalidDigit);
        }
        let digit: u64 = (c as u64) - ('0' as u64);
        match value.checked_mul(10) {
            None => {
                proof {
                    digits_error_stays(digits, i - start + 1);
                }
                return Err(NumberError::TooLarge);
            },
            Some(scaled) => {
                match scaled.checked_add(digit) {
                    None => {
                        proof {
                            digits_error_stays(digits, i - start + 1);
                        }
                        return Err(NumberError::TooLarge);
                    },
                    Some(sum) => {
                        value = sum;
                    },
                }
            },
        }
        i += 1;
    }
    assert(digits.take(i - start) =~= digits);
    Ok(value)
}

/// The character of a decimal digit.
pub open spec fn digit_char(d: nat) -> char {
    (('0' as int) + d) as char
}

/// `n` in decimal, without leading zeros.
pub open spec fn decimal(n: nat) -> Seq<char>
    decreases n,
{
    if n < 10 {
        seq![digit_char(n)]
    } else {
        decimal(n / 10).push(digit_char(n % 10))
    }
}

fn char_of_digit(d: u64) -> (c: char)
    requires
        d < 10,
    ensures
        c == digit_char(d as nat),
{
    (48u8 + d as u8) as char
}

/// Appends `n` in decimal.
pub fn push_u64(out: &mut String, n: u64)
    ensures
        final(out)@ == old(out)@ + decimal(n as nat),
    decreases n,
{
    if n >= 10 {
        push_u64(out, n / 10);
    }
    out.push(char_of_digit(n % 10));
    assert(out@ =~= old(out)@ + decimal(n as nat));
}

/// `n` in decimal.
pub fn u64_text(n: u64) -> (text: String)
    ensures
        text@ == decimal(n as nat),
{
    let mut text = String::new();
    push_u64(&mut text, n);
    assert(text@ =~= decimal(n as nat));
    text
}

/// Reading back a number in decimal gives the number.
pub proof fn decimal_reads_back(n: u64)
    ensures
        number(decimal(n as nat)) == Ok::<u64, NumberError>(n),
{
    decimal_is_digits(n);
    let s = decimal(n as nat);
    assert(is_digit(s[0]));
}

/// A number in decimal consists of digits that write it.
pub proof fn decimal_is_digits(n: u64)
    ensures
        decimal(n as nat).len() > 0,
        forall|i: int|
            0 <= i < decimal(n as nat).len() ==> is_digit(#[trigger] decimal(n as nat)[i]),
        digits_value(decimal(n as nat)) == Ok::<u64, NumberError>(n),
    decreases n,
{
    let s = decimal(n as nat);
    if n < 10 {
        assert(s.drop_last() =~= Seq::<char>::empty());
        assert(s.last() == digit_char(n as nat));
        assert(digits_value(Seq::<char>::empty()) == Ok::<u64, NumberError>(0));
    } else {
        decimal_is_digits(n / 10);
        assert(s.drop_last() =~= decimal((n / 10) as nat));
        assert(s.last() == digit_char((n % 10) as nat));
    }
}

/// A number in decimal has no leading zero, but for zero itself.
pub proof fn decimal_has_no_leading_zero(n: nat)
    requires
        n > 0,
    ensures
        decimal(n).len() > 0,
        decimal(n)[0] != '0',
        decimal(0) == seq!['0'],
    decreases n,
{
    if n >= 10 {
        decimal_has_no_leading_zero(n / 10);
        assert(decimal(n)[0] == decimal(n / 10)[0]);
    }
}

/// The character of a hexadecimal digit.
pub open spec fn hex_char(d: int) -> char {
    if d < 10 {
        (('0' as int) + d) as char
    } else {
        (('a' as int) + d - 10) as char
    }
}

/// `n` as `0x` and eight hexadecimal digits.
pub open spec fn hex8(n: u32) -> Seq<char> {
    seq![
        '0',
        'x',
        hex_char(n as int / 0x1000_0000 % 16),
        hex_char(n as int / 0x100_0000 % 16),
        hex_char(n as int / 0x10_0000 % 16),
        hex_char(n as int / 0x1_0000 % 16),
        hex_char(n as int / 0x1000 % 16),
        hex_char(n as int / 0x100 % 16),
        hex_char(n as int / 0x10 % 16),
        hex_char(n as int % 16),
    ]
}

/// The value of a hexadecimal digit.
pub open spec fn hex_value(c: char) -> int {
    if '0' <= c <= '9' {
        c as int - 48
    } else {
        c as int - 97 + 10
    }
}

/// A number as `0x` and eight hexadecimal digits reads back: each digit is one of
/// `0` to `9` and `a` to `f`, and their values, most significant first, make up the
/// number.
pub proof fn hex8_reads_back(n: u32)
    ensures
        hex8(n).len() == 10,
        hex8(n)[0] == '0',
        hex8(n)[1] == 'x',
        forall|i: int|
            2 <= i < 10 ==> '0' <= #[trigger] hex8(n)[i] <= '9' || 'a' <= hex8(n)[i] <= 'f',
        n == hex_value(hex8(n)[2]) * 0x1000_0000 + hex_value(hex8(n)[3]) * 0x100_0000 + hex_value(
            hex8(n)[4],
        ) * 0x10_0000 + hex_value(hex8(n)[5]) * 0x1_0000 + hex_value(hex8(n)[6]) * 0x1000
            + hex_value(hex8(n)[7]) * 0x100 + hex_value(hex8(n)[8]) * 0x10 + hex_value(hex8(n)[9]),
{
    hex_digit_reads_back(n as int / 0x1000_0000 % 16);
    hex_digit_reads_back(n as int / 0x100_0000 % 16);
    hex_digit_reads_back(n as int / 0x10_0000 % 16);
    hex_digit_reads_back(n as int / 0x1_0000 % 16);
    hex_digit_reads_back(n as int / 0x1000 % 16);
    hex_digit_reads_back(n as int / 0x100 % 16);
    hex_digit_reads_back(n as int / 0x10 % 16);
    hex_digit_reads_back(n as int % 16);
    hex_digits_make_up(n as int);
}

proof fn hex_digit_reads_back(d: int)
    requires
        0 <= d < 16,
    ensures
        hex_value(hex_char(d)) == d,
        '0' <= hex_char(d) <= '9' || 'a' <= hex_char(d) <= 'f',
{
}

proof fn hex_digits_make_up(d: int)
    requires
        0 <= d < 0x1_0000_0000,
    ensures
        d == (d / 0x1000_0000 % 16) * 0x1000_0000 + (d / 0x100_0000 % 16) * 0x100_0000 + (d
            / 0x10_0000 % 16) * 0x10_0000 + (d / 0x1_0000 % 16) * 0x1_0000 + (d / 0x1000 % 16)
            * 0x1000 + (d / 0x100 % 16) * 0x100 + (d / 0x10 % 16) * 0x10 + d % 16,
{
    assert(d / 0x100 == d / 0x10 / 16);
    assert(d / 0x1000 == d / 0x100 / 16);
    assert(d / 0x1_0000 == d / 0x1000 / 16);
    assert(d / 0x10_0000 == d / 0x1_0000 / 16);
    assert(d / 0x100_0000 == d / 0x10_0000 / 16);
    assert(d / 0x1000_0000 == d / 0x100_0000 / 16);
    assert(d / 0x1000_0000 < 16);
}

fn char_of_hex(d: u32) -> (c: char)
    requires
        d < 16,
    ensures
        c == hex_char(d as int),
{
    if d < 10 {
        (48u8 + d as u8) as char
    } else {
        (97u8 + (d as u8 - 10u8)) as char
    }
}

/// Appends `n` as `0x` and eight hexadecimal digits.
pub fn push_hex8(out: &mut String, n: u32)
    ensures
        final(out)@ == old(out)@ + hex8(n),
{
    out.push('0');
    out.push('x');
    out.push(char_of_hex(n / 0x1000_0000 % 16));
    out.push(char_of_hex(n / 0x100_0000 % 16));
    out.push(char_of_hex(n / 0x10_0000 % 16));
    out.push(char_of_hex(n / 0x1_0000 % 16));
    out.push(char_of_hex(n / 0x1000 % 16));
    out.push(char_of_hex(n / 0x100 % 16));
    out.push(char_of_hex(n / 0x10 % 16));
    out.push(char_of_hex(n % 16));
    assert(out@ =~= old(out)@ + hex8(n));
}

/// `c` with ASCII upper case made lower.
pub open spec fn lower(c: char) -> char {
    if 'A' <= c <= 'Z' {
        (c as int + 32) as char
    } else {
        c
    }
}

/// `s` with ASCII upper case made lower.
pub open spec fn lower_all(s: Seq<char>) -> Seq<char> {
    s.map_values(|c: char| lower(c))
}

/// Case is ignored for ASCII letters and for nothing else.
pub proof fn only_ascii_case_is_ignored(a: char, b: char)
    ensures
        lower(a) == lower(b) <==> {
            ||| a == b
            ||| 'a' <= a <= 'z' && b as int == a as int - 32
            ||| 'A' <= a <= 'Z' && b as int == a as int + 32
        },
{
}

fn lower_char(c: char) -> (r: char)
    ensures
        r == lower(c),
{
    if 'A' <= c && c <= 'Z' {
        (c as u8 + 32) as char
    } else {
        c
    }
}

/// Whether two texts are the same but for the case of ASCII letters.
pub fn same_ignoring_case(a: &str, b: &str) -> (r: bool)
    ensures
        r == (lower_all(a@) == lower_all(b@)),
{
    let xs = to_chars(a);
    let ys = to_chars(b);
    if xs.len() != ys.len() {
        assert(lower_all(a@).len() != lower_all(b@).len());
        return false;
    }
    let mut i: usize = 0;
    while i < xs.len()
        invariant
            xs@ == a@,
            ys@ == b@,
            xs@.len() == ys@.len(),
            i <= xs@.len(),
            forall|j: int| 0 <= j < i ==> lower(xs@[j]) == lower(ys@[j]),
        decreases xs@.len() - i,
    {
        if lower_char(xs[i]) != lower_char(ys[i]) {
            assert(lower_all(a@)[i as int] != lower_all(b@)[i as int]);
            return false;
        }
        i += 1;
    }
    assert(lower_all(a@) =~= lower_all(b@));
    true
}

} // verus!
