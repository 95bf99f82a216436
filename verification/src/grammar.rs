//! The line grammar shared by every pseudo-file reader: line terminators are
//! trimmed, the rest is cut into fields at runs of whitespace, and a reader
//! then takes its fields by position.

use crate::number::{decode_u64, u64_of};
use vstd::prelude::*;
use vstd::std_specs::iter::IteratorSpec;

verus! {

/// Why a line, or a whole pseudo-file, does not fit its grammar.
#[derive(Debug, Clone, Copy, PartialEq, Eq, Structural)]
pub enum GrammarError {
    /// The text holds fewer fields than the grammar asks for.
    TooFewFields,
    /// The field at this position (counted from 0, the leading keyword
    /// included) does not decode as the number the grammar asks for.
    NotNumeric(usize),
    /// The field at this position does not carry the keyword the grammar
    /// asks for.
    UnexpectedKeyword(usize),
}

/// Why a pseudo-file gave no record.
#[derive(Debug, Clone, Copy, PartialEq, Eq, Structural)]
pub enum ReadError {
    /// The pseudo-file could not be opened.
    Unavailable,
    /// The pseudo-file was read, and its content does not fit the grammar.
    Malformed(GrammarError),
}

/// A line terminator: line feed or carriage return.
pub open spec fn is_terminator(c: char) -> bool {
    c == '\n' || c == '\r'
}

/// Whitespace: the code points with the Unicode property `White_Space`.
pub open spec fn is_space(c: char) -> bool {
    let n = c as u32;
    ||| 0x09 <= n <= 0x0d
    ||| n == 0x20
    ||| n == 0x85
    ||| n == 0xa0
    ||| n == 0x1680
    ||| 0x2000 <= n <= 0x200a
    ||| n == 0x2028
    ||| n == 0x2029
    ||| n == 0x202f
    ||| n == 0x205f
    ||| n == 0x3000
}

/// `s` without its leading line terminators.
pub open spec fn trim_front(s: Seq<char>) -> Seq<char>
    decreases s.len(),
{
    if s.len() > 0 && is_terminator(s[0]) {
        trim_front(s.drop_first())
    } else {
        s
    }
}

/// `s` without its trailing line terminators.
pub open spec fn trim_back(s: Seq<char>) -> Seq<char>
    decreases s.len(),
{
    if s.len() > 0 && is_terminator(s.last()) {
        trim_back(s.drop_last())
    } else {
        s
    }
}

/// `s` without the line terminators at either end.
pub open spec fn trim(s: Seq<char>) -> Seq<char> {
    trim_back(trim_front(s))
}

/// How many characters stand before the first whitespace of `s`.
pub open spec fn word_len(s: Seq<char>) -> nat
    decreases s.len(),
{
    if s.len() == 0 || is_space(s[0]) {
        0
    } else {
        1 + word_len(s.drop_first())
    }
}

/// The maximal runs of characters of `s` that hold no whitespace, in order.
pub open spec fn tokens(s: Seq<char>) -> Seq<Seq<char>>
    decreases s.len(),
{
    if s.len() == 0 {
        Seq::empty()
    } else if is_space(s[0]) {
        tokens(s.drop_first())
    } else {
        proof {
            lemma_word_len_bounds(s);
        }
        seq![s.take(word_len(s) as int)] + tokens(s.skip(word_len(s) as int))
    }
}

/// The fields of a line: its tokens once the line terminators are trimmed.
pub open spec fn fields(line: Seq<char>) -> Seq<Seq<char>> {
    tokens(trim(line))
}

/// How many characters stand before the first `stop` of `s`.
pub open spec fn until(s: Seq<char>, stop: char) -> nat
    decreases s.len(),
{
    if s.len() == 0 || s[0] == stop {
        0
    } else {
        1 + until(s.drop_first(), stop)
    }
}

/// The pieces of `s` between occurrences of `sep`; there is one more piece
/// than there are occurrences, and a piece may be empty.
pub open spec fn split(s: Seq<char>, sep: char) -> Seq<Seq<char>>
    decreases s.len(),
{
    let n = until(s, sep) as int;
    if 0 <= n < s.len() {
        seq![s.take(n)] + split(s.skip(n + 1), sep)
    } else {
        seq![s]
    }
}

/// What each vector of a sequence holds.
pub open spec fn texts(v: Seq<Vec<char>>) -> Seq<Seq<char>> {
    v.map_values(|t: Vec<char>| t@)
}

/// A word never runs past the end of its text, and is empty only where the
/// text is empty or starts with whitespace.
pub proof fn lemma_word_len_bounds(s: Seq<char>)
    ensures
        word_len(s) <= s.len(),
        s.len() > 0 && !is_space(s[0]) ==> word_len(s) > 0,
    decreases s.len(),
{
    if s.len() > 0 && !is_space(s[0]) {
        lemma_word_len_bounds(s.drop_first());
    }
}

/// The word at the start of `s` is its longest prefix free of whitespace.
pub proof fn lemma_word_len_is(s: Seq<char>, n: int)
    requires
        0 <= n <= s.len(),
        forall|k: int| 0 <= k < n ==> !is_space(#[trigger] s[k]),
        n == s.len() || is_space(s[n]),
    ensures
        word_len(s) == n,
    decreases n,
{
    if n > 0 {
        lemma_word_len_is(s.drop_first(), n - 1);
    }
}

/// The first `stop` of `s` stands after every character that is none.
pub proof fn lemma_until_is(s: Seq<char>, stop: char, n: int)
    requires
        0 <= n <= s.len(),
        forall|k: int| 0 <= k < n ==> #[trigger] s[k] != stop,
        n == s.len() || s[n] == stop,
    ensures
        until(s, stop) == n,
    decreases n,
{
    if n > 0 {
        lemma_until_is(s.drop_first(), stop, n - 1);
    }
}

/// Where no character of `s` is `stop`, the run before the first `stop` of
/// `s` and any text after it is `s` itself.
pub proof fn lemma_until_concat(s: Seq<char>, stop: char, rest: Seq<char>)
    requires
        forall|k: int| 0 <= k < s.len() ==> #[trigger] s[k] != stop,
    ensures
        until(s, stop) == s.len(),
        until(s + seq![stop] + rest, stop) == s.len(),
{
    lemma_until_is(s, stop, s.len() as int);
    lemma_until_is(s + seq![stop] + rest, stop, s.len() as int);
}

/// What is trimmed at the front of a text that holds a character which is
/// no line terminator does not depend on what follows that character.
pub proof fn lemma_trim_front_concat(head: Seq<char>, c: char, rest: Seq<char>)
    requires
        !is_terminator(c),
    ensures
        trim_front(head + seq![c] + rest) == trim_front(head + seq![c]) + rest,
    decreases head.len(),
{
    if head.len() > 0 && is_terminator(head[0]) {
        lemma_trim_front_concat(head.drop_first(), c, rest);
        assert((head + seq![c] + rest).drop_first() =~= head.drop_first() + seq![c] + rest);
        assert((head + seq![c]).drop_first() =~= head.drop_first() + seq![c]);
    } else {
        assert((head + seq![c] + rest)[0] == (head + seq![c])[0]);
    }
}

/// What is trimmed at the back of a text lies after its last character
/// that is no line terminator.
pub proof fn lemma_trim_back_concat(head: Seq<char>, c: char, rest: Seq<char>)
    requires
        !is_terminator(c),
    ensures
        trim_back(head + seq![c] + rest) == head + seq![c] + trim_back(rest),
    decreases rest.len(),
{
    if rest.len() > 0 && is_terminator(rest.last()) {
        lemma_trim_back_concat(head, c, rest.drop_last());
        assert((head + seq![c] + rest).drop_last() =~= head + seq![c] + rest.drop_last());
    } else if rest.len() > 0 {
        assert((head + seq![c] + rest).last() == rest.last());
    } else {
        assert((head + seq![c] + rest).last() == c);
        assert(trim_back(rest) =~= rest);
    }
}

/// Trimming the front of a text leaves its last character in place.
pub proof fn lemma_trim_front_keeps_end(s: Seq<char>)
    requires
        s.len() > 0,
        !is_terminator(s.last()),
    ensures
        trim_front(s).len() > 0,
        trim_front(s).last() == s.last(),
        exists|cut: int| 0 <= cut < s.len() && trim_front(s) == s.skip(cut),
    decreases s.len(),
{
    if is_terminator(s[0]) {
        lemma_trim_front_keeps_end(s.drop_first());
        let cut = choose|cut: int|
            0 <= cut < s.drop_first().len() && trim_front(s.drop_first()) == s.drop_first().skip(
                cut,
            );
        assert(s.drop_first().skip(cut) =~= s.skip(cut + 1));
    } else {
        assert(s.skip(0) =~= s);
    }
}

/// The word at the start of a text holds no whitespace.
pub proof fn lemma_word_holds_no_space(s: Seq<char>)
    ensures
        forall|k: int| 0 <= k < word_len(s) ==> !is_space(#[trigger] s[k]),
    decreases s.len(),
{
    if s.len() > 0 && !is_space(s[0]) {
        lemma_word_holds_no_space(s.drop_first());
        lemma_word_len_bounds(s);
        assert forall|k: int| 0 <= k < word_len(s) implies !is_space(#[trigger] s[k]) by {
            if k > 0 {
                assert(s[k] == s.drop_first()[k - 1]);
            }
        }
    }
}

/// A token: one character or more, none of them whitespace.
pub open spec fn is_token(t: Seq<char>) -> bool {
    t.len() > 0 && forall|k: int| 0 <= k < t.len() ==> !is_space(#[trigger] t[k])
}

/// Each of the tokens of a text is a token.
pub proof fn lemma_tokens_hold_no_space(s: Seq<char>)
    ensures
        forall|i: int| 0 <= i < tokens(s).len() ==> is_token(#[trigger] tokens(s)[i]),
    decreases s.len(),
{
    if s.len() == 0 {
        assert(tokens(s).len() == 0);
    } else if is_space(s[0]) {
        lemma_tokens_hold_no_space(s.drop_first());
        assert(tokens(s) == tokens(s.drop_first()));
    } else {
        let n = word_len(s) as int;
        lemma_word_len_bounds(s);
        lemma_word_holds_no_space(s);
        lemma_tokens_hold_no_space(s.skip(n));
        let rest = tokens(s.skip(n));
        assert(tokens(s) == seq![s.take(n)] + rest);
        assert forall|i: int| 0 <= i < tokens(s).len() implies is_token(
            #[trigger] tokens(s)[i],
        ) by {
            if i == 0 {
                assert(tokens(s)[0] =~= s.take(n));
                assert forall|k: int| 0 <= k < n implies !is_space(#[trigger] s.take(n)[k]) by {
                    assert(s.take(n)[k] == s[k]);
                }
            } else {
                assert(tokens(s)[i] == rest[i - 1]);
            }
        }
    }
}

/// Whitespace after a text adds no character to the word at its start.
pub proof fn lemma_word_len_push_space(s: Seq<char>, c: char)
    requires
        is_space(c),
    ensures
        word_len(s.push(c)) == word_len(s),
    decreases s.len(),
{
    if s.len() > 0 && !is_space(s[0]) {
        lemma_word_len_push_space(s.drop_first(), c);
        assert(s.push(c).drop_first() =~= s.drop_first().push(c));
    }
}

/// Whitespace after a text adds no token.
pub proof fn lemma_tokens_push_space(s: Seq<char>, c: char)
    requires
        is_space(c),
    ensures
        tokens(s.push(c)) == tokens(s),
    decreases s.len(),
{
    if s.len() == 0 {
        assert(s.push(c).drop_first() =~= s);
    } else if is_space(s[0]) {
        lemma_tokens_push_space(s.drop_first(), c);
        assert(s.push(c).drop_first() =~= s.drop_first().push(c));
    } else {
        let n = word_len(s) as int;
        lemma_word_len_bounds(s);
        lemma_word_len_push_space(s, c);
        lemma_tokens_push_space(s.skip(n), c);
        assert(s.push(c).take(n) =~= s.take(n));
        assert(s.push(c).skip(n) =~= s.skip(n).push(c));
    }
}

/// Line terminators are whitespace, so trimming them changes no field: the
/// fields of a line are the tokens of the line as it stands.
pub proof fn lemma_fields_are_tokens(line: Seq<char>)
    ensures
        fields(line) == tokens(line),
{
    lemma_trim_front_keeps_tokens(line);
    lemma_trim_back_keeps_tokens(trim_front(line));
}

/// Trimming the front of a text changes none of its tokens.
pub proof fn lemma_trim_front_keeps_tokens(s: Seq<char>)
    ensures
        tokens(trim_front(s)) == tokens(s),
    decreases s.len(),
{
    if s.len() > 0 && is_terminator(s[0]) {
        lemma_trim_front_keeps_tokens(s.drop_first());
    }
}

/// Trimming the back of a text changes none of its tokens.
pub proof fn lemma_trim_back_keeps_tokens(s: Seq<char>)
    ensures
        tokens(trim_back(s)) == tokens(s),
    decreases s.len(),
{
    if s.len() > 0 && is_terminator(s.last()) {
        lemma_trim_back_keeps_tokens(s.drop_last());
        lemma_tokens_push_space(s.drop_last(), s.last());
        assert(s.drop_last().push(s.last()) =~= s);
    }
}

/// Tells whether `c` is whitespace.
pub fn space(c: char) -> (r: bool)
    ensures
        r == is_space(c),
{
    let n: u32 = c as u32;
    (0x09 <= n && n <= 0x0d) || n == 0x20 || n == 0x85 || n == 0xa0 || n == 0x1680 || (0x2000 <= n
        && n <= 0x200a) || n == 0x2028 || n == 0x2029 || n == 0x202f || n == 0x205f || n == 0x3000
}

/// Tells whether `c` is a line terminator.
pub fn terminator(c: char) -> (r: bool)
    ensures
        r == is_terminator(c),
{
    c == '\n' || c == '\r'
}

/// The characters of `s`, in order.
pub fn chars_of(s: &str) -> (v: Vec<char>)
    ensures
        v@ == s@,
{
    let mut v: Vec<char> = Vec::new();
    for c in it: s.chars()
        invariant
            v@ == it.seq().take(it.index() as int),
            it.seq() == s@,
    {
        v.push(c);
    }
    v
}

/// A copy of the characters of `chars` from position `from` up to `to`.
pub fn copy_range(chars: &Vec<char>, from: usize, to: usize) -> (out: Vec<char>)
    requires
        from <= to <= chars.len(),
    ensures
        out@ == chars@.subrange(from as int, to as int),
{
    let mut out: Vec<char> = Vec::new();
    let mut i: usize = from;
    while i < to
        invariant
            from <= i <= to <= chars.len(),
            out@ == chars@.subrange(from as int, i as int),
        decreases to - i,
    {
        out.push(chars[i]);
        i += 1;
        assert(out@ =~= chars@.subrange(from as int, i as int));
    }
    out
}

/// Where the characters of `chars` from `from` up to `to` start and end once
/// their line terminators are trimmed.
pub fn trim_bounds(chars: &Vec<char>, from: usize, to: usize) -> (bounds: (usize, usize))
    requires
        from <= to <= chars.len(),
    ensures
        from <= bounds.0 <= bounds.1 <= to,
        chars@.subrange(bounds.0 as int, bounds.1 as int) == trim(
            chars@.subrange(from as int, to as int),
        ),
{
    let ghost line = chars@.subrange(from as int, to as int);
    let mut a: usize = from;
    while a < to && terminator(chars[a])
        invariant
            from <= a <= to <= chars.len(),
            trim_front(line) == trim_front(chars@.subrange(a as int, to as int)),
        decreases to - a,
    {
        assert(chars@.subrange(a as int, to as int).drop_first() =~= chars@.subrange(
            a as int + 1,
            to as int,
        ));
        a += 1;
    }
    assert(trim_front(line) == chars@.subrange(a as int, to as int));
    let mut b: usize = to;
    while a < b && terminator(chars[b - 1])
        invariant
            from <= a <= b <= to <= chars.len(),
            trim(line) == trim_back(chars@.subrange(a as int, b as int)),
        decreases b - a,
    {
        assert(chars@.subrange(a as int, b as int).drop_last() =~= chars@.subrange(
            a as int,
            b as int - 1,
        ));
        b -= 1;
    }
    (a, b)
}

/// Where the first `stop` stands in `chars` between `from` and `to`, or `to`
/// where there is none.
pub fn find(chars: &Vec<char>, from: usize, to: usize, stop: char) -> (at: usize)
    requires
        from <= to <= chars.len(),
    ensures
        from <= at <= to,
        at - from == until(chars@.subrange(from as int, to as int), stop),
{
    let mut i: usize = from;
    while i < to && chars[i] != stop
        invariant
            from <= i <= to <= chars.len(),
            forall|k: int| from <= k < i ==> chars@[k] != stop,
        decreases to - i,
    {
        i += 1;
    }
    proof {
        lemma_until_is(chars@.subrange(from as int, to as int), stop, i - from);
    }
    i
}

/// Cuts the characters of `chars` from `from` up to `to` into their tokens.
pub fn split_fields(chars: &Vec<char>, from: usize, to: usize) -> (out: Vec<Vec<char>>)
    requires
        from <= to <= chars.len(),
    ensures
        texts(out@) == tokens(chars@.subrange(from as int, to as int)),
{
    let mut out: Vec<Vec<char>> = Vec::new();
    let mut i: usize = from;
    assert(texts(out@) =~= Seq::empty());
    while i < to
        invariant
            from <= i <= to <= chars.len(),
            tokens(chars@.subrange(from as int, to as int)) == texts(out@) + tokens(
                chars@.subrange(i as int, to as int),
            ),
        decreases to - i,
    {
        let ghost rest = chars@.subrange(i as int, to as int);
        if space(chars[i]) {
            assert(rest.drop_first() =~= chars@.subrange(i as int + 1, to as int));
            i += 1;
        } else {
            let start: usize = i;
            while i < to && !space(chars[i])
                invariant
                    start <= i <= to <= chars.len(),
                    forall|k: int| start <= k < i ==> !is_space(chars@[k]),
                decreases to - i,
            {
                i += 1;
            }
            let word = copy_range(chars, start, i);
            proof {
                lemma_word_len_is(rest, i - start);
                assert(rest.take(i - start) =~= word@);
                assert(rest.skip(i - start) =~= chars@.subrange(i as int, to as int));
                assert(texts(out@.push(word)) =~= texts(out@).push(word@));
            }
            out.push(word);
        }
    }
    out
}

/// Cuts the characters of `chars` from `from` up to `to` at each `sep`.
pub fn split_at(chars: &Vec<char>, from: usize, to: usize, sep: char) -> (out: Vec<Vec<char>>)
    requires
        from <= to <= chars.len(),
    ensures
        texts(out@) == split(chars@.subrange(from as int, to as int), sep),
{
    let mut out: Vec<Vec<char>> = Vec::new();
    let mut i: usize = from;
    assert(texts(out@) =~= Seq::empty());
    loop
        invariant_except_break
            from <= i <= to <= chars.len(),
            split(chars@.subrange(from as int, to as int), sep) == texts(out@) + split(
                chars@.subrange(i as int, to as int),
                sep,
            ),
        ensures
            texts(out@) == split(chars@.subrange(from as int, to as int), sep),
        decreases to - i,
    {
        let ghost rest = chars@.subrange(i as int, to as int);
        let at: usize = find(chars, i, to, sep);
        let piece = copy_range(chars, i, at);
        proof {
            assert(rest.take(at - i) =~= piece@);
            assert(texts(out@.push(piece)) =~= texts(out@).push(piece@));
        }
        out.push(piece);
        if at >= to {
            assert(rest =~= piece@);
            break ;
        }
        proof {
            assert(rest.skip(at - i + 1) =~= chars@.subrange(at as int + 1, to as int));
        }
        i = at + 1;
    }
    out
}

/// The fields of the line that `chars` holds from `from` up to `to`.
pub fn fields_of(chars: &Vec<char>, from: usize, to: usize) -> (found: Vec<Vec<char>>)
    requires
        from <= to <= chars.len(),
    ensures
        texts(found@) == fields(chars@.subrange(from as int, to as int)),
{
    let (a, b) = trim_bounds(chars, from, to);
    split_fields(chars, a, b)
}

/// Cuts a line into its fields and checks that there are at least
/// `min_fields` of them.
pub fn parse_fields(line: &str, min_fields: usize) -> (r: Result<Vec<Vec<char>>, GrammarError>)
    ensures
        match r {
            Ok(found) => texts(found@) == fields(line@) && found@.len() >= min_fields,
            Err(e) => e == GrammarError::TooFewFields && fields(line@).len() < min_fields,
        },
{
    let chars = chars_of(line);
    assert(chars@.subrange(0, chars@.len() as int) =~= chars@);
    let found = fields_of(&chars, 0, chars.len());
    if found.len() < min_fields {
        Err(GrammarError::TooFewFields)
    } else {
        Ok(found)
    }
}

/// Tells whether `tok` is the word `word`.
pub fn is_word(tok: &Vec<char>, word: &str) -> (r: bool)
    ensures
        r == (tok@ == word@),
{
    let w = chars_of(word);
    if w.len() != tok.len() {
        return false;
    }
    let mut i: usize = 0;
    while i < w.len()
        invariant
            w@ == word@,
            i <= w.len() == tok.len(),
            forall|k: int| 0 <= k < i ==> tok@[k] == w@[k],
        decreases w.len() - i,
    {
        if tok[i] != w[i] {
            return false;
        }
        i += 1;
    }
    assert(tok@ =~= w@);
    true
}

/// Tells whether `tok` starts with the word `word`.
pub fn starts_with(tok: &Vec<char>, word: &str) -> (r: bool)
    ensures
        r == word@.is_prefix_of(tok@),
{
    let w = chars_of(word);
    if w.len() > tok.len() {
        return false;
    }
    let mut i: usize = 0;
    while i < w.len()
        invariant
            w@ == word@,
            i <= w.len() <= tok.len(),
            forall|k: int| 0 <= k < i ==> tok@[k] == w@[k],
        decreases w.len() - i,
    {
        if tok[i] != w[i] {
            assert(tok@.subrange(0, w@.len() as int)[i as int] != w@[i as int]);
            return false;
        }
        i += 1;
    }
    assert(w@ =~= tok@.subrange(0, w@.len() as int));
    true
}

/// The counters that the fields of `t` write from position `from` up to
/// `to`, or the first position among them whose field writes none.
pub open spec fn counters(t: Seq<Seq<char>>, from: int, to: int) -> Result<Seq<u64>, GrammarError>
    decreases to - from,
{
    if to <= from {
        Ok(Seq::empty())
    } else {
        match counters(t, from, to - 1) {
            Err(e) => Err(e),
            Ok(head) => match u64_of(t[to - 1]) {
                Some(n) => Ok(head.push(n)),
                None => Err(GrammarError::NotNumeric((to - 1) as usize)),
            },
        }
    }
}

/// Counters are given only where every field writes one, each at its own
/// place; otherwise the error names the first field that writes none.
pub proof fn lemma_counters(t: Seq<Seq<char>>, from: int, to: int)
    requires
        0 <= from <= to <= usize::MAX,
    ensures
        match counters(t, from, to) {
            Ok(found) => {
                &&& found.len() == to - from
                &&& forall|k: int|
                    from <= k < to ==> u64_of(#[trigger] t[k]) == Some(found[k - from])
            },
            Err(e) => exists|bad: int|
                {
                    &&& from <= bad < to
                    &&& e == GrammarError::NotNumeric(bad as usize)
                    &&& u64_of(t[bad]) is None
                    &&& forall|k: int| from <= k < bad ==> u64_of(#[trigger] t[k]) is Some
                },
        },
    decreases to - from,
{
    if from < to {
        lemma_counters(t, from, to - 1);
        match counters(t, from, to - 1) {
            Ok(head) => {
                if u64_of(t[to - 1]) is None {
                    let bad = to - 1;
                    assert(from <= bad < to && u64_of(t[bad]) is None);
                }
            },
            Err(e) => {
                let bad = choose|bad: int|
                    {
                        &&& from <= bad < to - 1
                        &&& e == GrammarError::NotNumeric(bad as usize)
                        &&& u64_of(t[bad]) is None
                        &&& forall|k: int| from <= k < bad ==> u64_of(#[trigger] t[k]) is Some
                    };
                assert(from <= bad < to && u64_of(t[bad]) is None);
            },
        }
    }
}

/// Decodes the counters that `toks` holds from position `from` up to `to`.
pub fn read_counters(toks: &Vec<Vec<char>>, from: usize, to: usize) -> (r: Result<
    Vec<u64>,
    GrammarError,
>)
    requires
        from <= to <= toks.len(),
    ensures
        match r {
            Ok(found) => counters(texts(toks@), from as int, to as int) == Ok::<
                Seq<u64>,
                GrammarError,
            >(found@),
            Err(e) => counters(texts(toks@), from as int, to as int) == Err::<
                Seq<u64>,
                GrammarError,
            >(e),
        },
{
    let mut found: Vec<u64> = Vec::new();
    let mut i: usize = from;
    while i < to
        invariant
            from <= i <= to <= toks.len(),
            counters(texts(toks@), from as int, i as int) == Ok::<Seq<u64>, GrammarError>(found@),
        decreases to - i,
    {
        assert(texts(toks@)[i as int] == toks@[i as int]@);
        match decode_u64(&toks[i]) {
            Some(n) => {
                found.push(n);
            },
            None => {
                proof {
                    lemma_counters_stay_bad(texts(toks@), from as int, i as int + 1, to as int);
                }
                return Err(GrammarError::NotNumeric(i));
            },
        }
        i += 1;
    }
    Ok(found)
}

/// Once a field writes no counter, reading further fields changes nothing.
pub proof fn lemma_counters_stay_bad(t: Seq<Seq<char>>, from: int, mid: int, to: int)
    requires
        from <= mid <= to,
        counters(t, from, mid) is Err,
    ensures
        counters(t, from, to) == counters(t, from, mid),
    decreases to - mid,
{
    if mid < to {
        lemma_counters_stay_bad(t, from, mid, to - 1);
    }
}

} // verus!
