//! Character text: splitting, trimming and numbers.
//!
//! Kernel and account files are read as text. The functions here cut such text
//! into lines, fields and numbers, and say exactly where the cuts fall.

use vstd::prelude::*;

verus! {

/// What a cut falls on.
#[derive(Clone, Copy)]
pub enum Separator {
    /// One given character.
    Exactly(char),
    /// Any character with the Unicode `White_Space` property.
    Whitespace,
}

/// The Unicode `White_Space` property.
pub open spec fn is_space(c: char) -> bool {
    let n = c as u32;
    ||| 0x9 <= n <= 0xd
    ||| n == 0x20
    ||| n == 0x85
    ||| n == 0xa0
    ||| n == 0x1680
    ||| 0x2000 <= n <= 0x200a
    ||| n == 0x2028
    ||| n == 0x2029
    ||| n == 0x202f
    ||| n == 0x205f
    ||| n == 0x3000
}

/// Whether the character is white space.
pub fn space(c: char) -> (r: bool)
    ensures
        r == is_space(c),
{
    let n: u32 = c as u32;
    (0x9 <= n && n <= 0xd) || n == 0x20 || n == 0x85 || n == 0xa0 || n == 0x1680 || (0x2000 <= n
        && n <= 0x200a) || n == 0x2028 || n == 0x2029 || n == 0x202f || n == 0x205f || n == 0x3000
}

impl Separator {
    pub open spec fn separates(self, c: char) -> bool {
        match self {
            Separator::Exactly(x) => c == x,
            Separator::Whitespace => is_space(c),
        }
    }

    /// Whether a cut falls on this character.
    pub fn cuts(&self, c: char) -> (r: bool)
        ensures
            r == self.separates(c),
    {
        match self {
            Separator::Exactly(x) => c == *x,
            Separator::Whitespace => space(c),
        }
    }
}

/// The contents of a list of character vectors.
pub open spec fn views(v: Seq<Vec<char>>) -> Seq<Seq<char>> {
    Seq::new(v.len(), |i: int| v[i]@)
}

/// The stretches between separators, in order. There is always one more stretch
/// than there are separators, and a stretch may be empty.
pub open spec fn split(s: Seq<char>, by: Separator) -> Seq<Seq<char>>
    decreases s.len(),
{
    if s.len() == 0 {
        seq![Seq::<char>::empty()]
    } else {
        let before = split(s.drop_last(), by);
        if by.separates(s.last()) {
            before.push(Seq::empty())
        } else {
            before.drop_last().push(before.last().push(s.last()))
        }
    }
}

/// The stretches of non-white characters.
pub open spec fn words(s: Seq<char>) -> Seq<Seq<char>> {
    split(s, Separator::Whitespace).filter(|w: Seq<char>| w.len() > 0)
}

/// A line without the carriage return that belongs to its ending.
pub open spec fn without_return(line: Seq<char>) -> Seq<char> {
    if line.len() > 0 && line.last() == '\r' {
        line.drop_last()
    } else {
        line
    }
}

/// The lines of a text. A line ends in a newline, with or without a carriage
/// return before it; the last line may lack its ending.
pub open spec fn lines(s: Seq<char>) -> Seq<Seq<char>> {
    let stretches = split(s, Separator::Exactly('\n'));
    let ended = Seq::new(
        (stretches.len() - 1) as nat,
        |i: int| without_return(stretches[i]),
    );
    if stretches.last().len() == 0 {
        ended
    } else {
        ended.push(stretches.last())
    }
}

/// Every split has at least one stretch.
pub proof fn lemma_split_nonempty(s: Seq<char>, by: Separator)
    ensures
        split(s, by).len() >= 1,
    decreases s.len(),
{
    if s.len() > 0 {
        lemma_split_nonempty(s.drop_last(), by);
    }
}

/// No stretch holds a separator.
pub proof fn lemma_split_pieces_are_clean(s: Seq<char>, by: Separator)
    ensures
        forall|i: int, j: int|
            0 <= i < split(s, by).len() && 0 <= j < split(s, by)[i].len() ==> !by.separates(
                #[trigger] split(s, by)[i][j],
            ),
    decreases s.len(),
{
    if s.len() > 0 {
        lemma_split_pieces_are_clean(s.drop_last(), by);
        lemma_split_nonempty(s.drop_last(), by);
    }
}

/// The stretches with one separator between each two.
pub open spec fn joined(pieces: Seq<Seq<char>>, separator: char) -> Seq<char>
    decreases pieces.len(),
{
    if pieces.len() == 0 {
        Seq::empty()
    } else if pieces.len() == 1 {
        pieces[0]
    } else {
        joined(pieces.drop_last(), separator).push(separator) + pieces.last()
    }
}

/// Putting the separator back between the stretches gives the text again.
pub proof fn lemma_split_joins_back(s: Seq<char>, separator: char)
    ensures
        joined(split(s, Separator::Exactly(separator)), separator) == s,
    decreases s.len(),
{
    let by = Separator::Exactly(separator);
    if s.len() > 0 {
        let before = split(s.drop_last(), by);
        lemma_split_joins_back(s.drop_last(), separator);
        lemma_split_nonempty(s.drop_last(), by);
        if by.separates(s.last()) {
            assert(split(s, by).drop_last() =~= before);
            assert(joined(split(s, by), separator) =~= s);
        } else {
            let after = split(s, by);
            assert(after.drop_last() =~= before.drop_last());
            assert(after.last() == before.last().push(s.last()));
            if before.len() == 1 {
                assert(joined(after, separator) =~= s.drop_last().push(s.last()));
            } else {
                assert(joined(after, separator) =~= joined(before, separator).push(s.last()));
            }
            assert(s.drop_last().push(s.last()) =~= s);
        }
    } else {
        assert(joined(split(s, by), separator) =~= s);
    }
}

/// The characters of a string, in order.
pub fn chars(s: &str) -> (out: Vec<char>)
    ensures
        out@ == s@,
{
    let mut out: Vec<char> = Vec::new();
    for c in it: s.chars()
        invariant
            it.seq() == s@,
            out@ == s@.take(it.index()),
    {
        assert(s@.take(it.index() + 1) =~= s@.take(it.index()).push(c));
        out.push(c);
    }
    assert(s@.take(s@.len() as int) =~= s@);
    out
}

/// `String::push` appends the character to the end of the string.
pub assume_specification[ String::push ](s: &mut String, c: char)
    ensures
        final(s)@ == old(s)@.push(c),
;

/// The string of the given characters.
pub fn string(s: &[char]) -> (out: String)
    ensures
        out@ == s@,
{
    let mut out: String = String::new();
    for i in 0..s.len()
        invariant
            out@ == s@.take(i as int),
    {
        assert(s@.take(i + 1) =~= s@.take(i as int).push(s@[i as int]));
        out.push(s[i]);
    }
    assert(s@.take(s@.len() as int) =~= s@);
    out
}

/// Cuts the text at every separator.
pub fn pieces(s: &[char], by: Separator) -> (out: Vec<Vec<char>>)
    ensures
        views(out@) == split(s@, by),
{
    let mut out: Vec<Vec<char>> = Vec::new();
    let mut current: Vec<char> = Vec::new();
    proof {
        assert(s@.take(0) =~= Seq::empty());
        assert(views(out@).push(current@) =~= split(s@.take(0), by));
    }
    for i in 0..s.len()
        invariant
            views(out@).push(current@) == split(s@.take(i as int), by),
    {
        let ghost before = views(out@).push(current@);
        let c = s[i];
        proof {
            assert(s@.take(i + 1).drop_last() =~= s@.take(i as int));
            assert(s@.take(i + 1).last() == c);
        }
        if by.cuts(c) {
            let ghost done = out@;
            let ghost cut = current@;
            out.push(current);
            current = Vec::new();
            assert(views(out@) =~= views(done).push(cut));
            assert(current@ =~= Seq::empty());
        } else {
            current.push(c);
            assert(views(out@).push(current@) =~= before.drop_last().push(before.last().push(c)));
        }
    }
    let ghost done = out@;
    let ghost cut = current@;
    out.push(current);
    proof {
        assert(s@.take(s@.len() as int) =~= s@);
        assert(views(out@) =~= views(done).push(cut));
    }
    out
}

/// The words of the text.
pub fn fields(s: &[char]) -> (out: Vec<Vec<char>>)
    ensures
        views(out@) == words(s@),
{
    let all: Vec<Vec<char>> = pieces(s, Separator::Whitespace);
    let mut out: Vec<Vec<char>> = Vec::new();
    let ghost keep = |w: Seq<char>| w.len() > 0;
    proof {
        assert(views(all@).take(0) =~= Seq::empty());
        assert(views(out@) =~= Seq::<Seq<char>>::empty().filter(keep)) by {
            reveal(Seq::filter);
        }
    }
    for i in 0..all.len()
        invariant
            keep == (|w: Seq<char>| w.len() > 0),
            views(out@) == views(all@).take(i as int).filter(keep),
    {
        let ghost held = out@;
        proof {
            let next = views(all@).take(i + 1);
            assert(next.drop_last() =~= views(all@).take(i as int));
            assert(next.last() == all@[i as int]@);
            assert(next =~= next.drop_last().push(next.last()));
            next.drop_last().lemma_filter_push(next.last(), keep);
        }
        if all[i].len() > 0 {
            let w: Vec<char> = all[i].clone();
            assert(w@ =~= all@[i as int]@);
            out.push(w);
            assert(views(out@) =~= views(held).push(w@));
        }
    }
    assert(views(all@).take(all@.len() as int) =~= views(all@));
    out
}

/// The lines of the text.
pub fn line_list(s: &[char]) -> (out: Vec<Vec<char>>)
    ensures
        views(out@) == lines(s@),
{
    let mut all: Vec<Vec<char>> = pieces(s, Separator::Exactly('\n'));
    let ghost stretches = split(s@, Separator::Exactly('\n'));
    proof {
        lemma_split_nonempty(s@, Separator::Exactly('\n'));
        assert(views(all@).len() == stretches.len());
    }
    let mut out: Vec<Vec<char>> = Vec::new();
    for i in 0..all.len() - 1
        invariant
            all@.len() >= 1,
            views(all@) == stretches,
            views(out@) == Seq::new(i as nat, |k: int| without_return(stretches[k])),
    {
        let mut line: Vec<char> = all[i].clone();
        assert(line@ =~= all@[i as int]@);
        assert(stretches[i as int] == all@[i as int]@);
        let n: usize = line.len();
        if n > 0 && line[n - 1] == '\r' {
            line.pop();
        }
        assert(line@ == without_return(stretches[i as int]));
        let ghost held = out@;
        out.push(line);
        assert(views(out@) =~= views(held).push(line@));
        assert(views(out@) =~= Seq::new((i + 1) as nat, |k: int| without_return(stretches[k])));
    }
    let ghost whole = all@;
    let tail: Option<Vec<char>> = all.pop();
    match tail {
        Some(last) => {
            assert(last@ == stretches.last()) by {
                assert(views(whole)[stretches.len() - 1] == last@);
            }
            if last.len() > 0 {
                let ghost held = out@;
                out.push(last);
                assert(views(out@) =~= views(held).push(last@));
            }
        },
        None => {},
    }
    out
}

/// Whether `pattern` stands in the text at position `at`.
pub open spec fn stands_at(s: Seq<char>, pattern: Seq<char>, at: int) -> bool {
    0 <= at && at + pattern.len() <= s.len() && s.subrange(at, at + pattern.len()) == pattern
}

/// The first position not before `from` at which `pattern` stands.
pub open spec fn first_at(s: Seq<char>, pattern: Seq<char>, from: int) -> Option<int>
    decreases s.len() + 1 - from,
{
    if from < 0 || from + pattern.len() > s.len() {
        None
    } else if stands_at(s, pattern, from) {
        Some(from)
    } else {
        first_at(s, pattern, from + 1)
    }
}

/// `first_at` finds a position where the pattern stands, and none before it.
pub proof fn lemma_first_at(s: Seq<char>, pattern: Seq<char>, from: int)
    requires
        0 <= from,
    ensures
        match first_at(s, pattern, from) {
            Some(at) => from <= at && stands_at(s, pattern, at) && forall|k: int|
                from <= k < at ==> !stands_at(s, pattern, k),
            None => forall|k: int| from <= k ==> !stands_at(s, pattern, k),
        },
    decreases s.len() + 1 - from,
{
    if from + pattern.len() <= s.len() && !stands_at(s, pattern, from) {
        lemma_first_at(s, pattern, from + 1);
    }
}

/// The text before and after the first place where `pattern` stands.
pub open spec fn cut_once(s: Seq<char>, pattern: Seq<char>) -> Option<(Seq<char>, Seq<char>)> {
    match first_at(s, pattern, 0) {
        Some(at) => Some((s.take(at), s.skip(at + pattern.len() as int))),
        None => None,
    }
}

/// The stretches between non-overlapping places where `pattern` stands, found
/// from the left.
pub open spec fn split_at_pattern(s: Seq<char>, pattern: Seq<char>) -> Seq<Seq<char>>
    decreases s.len(),
{
    if pattern.len() == 0 {
        seq![s]
    } else {
        match first_at(s, pattern, 0) {
            Some(at) => if 0 <= at && at + pattern.len() <= s.len() {
                seq![s.take(at)] + split_at_pattern(s.skip(at + pattern.len()), pattern)
            } else {
                seq![s]
            },
            None => seq![s],
        }
    }
}

/// A part of a character slice.
pub fn part(s: &[char], from: usize, to: usize) -> (out: Vec<char>)
    requires
        from <= to <= s@.len(),
    ensures
        out@ == s@.subrange(from as int, to as int),
{
    vstd::slice::slice_to_vec(vstd::slice::slice_subrange(s, from, to))
}

/// Whether two character slices hold the same text.
pub fn same(a: &[char], b: &[char]) -> (r: bool)
    ensures
        r == (a@ == b@),
{
    if a.len() != b.len() {
        return false;
    }
    for i in 0..a.len()
        invariant
            a@.len() == b@.len(),
            forall|k: int| 0 <= k < i ==> a@[k] == b@[k],
    {
        if a[i] != b[i] {
            return false;
        }
    }
    assert(a@ =~= b@);
    true
}

/// Whether the characters are those of the string.
pub fn text_is(a: &[char], b: &str) -> (r: bool)
    ensures
        r == (a@ == b@),
{
    let b: Vec<char> = chars(b);
    same(a, b.as_slice())
}

/// Whether two strings hold the same text.
pub fn same_str(a: &str, b: &str) -> (r: bool)
    ensures
        r == (a@ == b@),
{
    let a: Vec<char> = chars(a);
    text_is(a.as_slice(), b)
}

/// Whether the text begins with `prefix`.
pub fn begins(s: &[char], prefix: &[char]) -> (r: bool)
    ensures
        r == prefix@.is_prefix_of(s@),
{
    if prefix.len() > s.len() {
        return false;
    }
    same(vstd::slice::slice_subrange(s, 0, prefix.len()), prefix)
}

/// Finds the first place at or after `from` where the pattern stands.
pub fn find(s: &[char], pattern: &[char], from: usize) -> (r: Option<usize>)
    requires
        from <= s@.len(),
    ensures
        match r {
            Some(at) => first_at(s@, pattern@, from as int) == Some(at as int) && from <= at && at
                + pattern@.len() <= s@.len(),
            None => first_at(s@, pattern@, from as int) is None,
        },
{
    let mut at: usize = from;
    let n: usize = pattern.len();
    while at <= s.len() && n <= s.len() - at
        invariant
            from <= at <= s@.len() + 1,
            n == pattern@.len(),
            first_at(s@, pattern@, from as int) == first_at(s@, pattern@, at as int),
        decreases s@.len() + 1 - at,
    {
        if same(vstd::slice::slice_subrange(s, at, at + n), pattern) {
            return Some(at);
        }
        if at == s.len() {
            assert(first_at(s@, pattern@, at + 1) is None);
            return None;
        }
        at = at + 1;
    }
    None
}

/// Cuts the text in two at the first place where the pattern stands.
pub fn split_once(s: &[char], pattern: &[char]) -> (r: Option<(Vec<char>, Vec<char>)>)
    ensures
        match r {
            Some((before, after)) => cut_once(s@, pattern@) == Some((before@, after@)),
            None => cut_once(s@, pattern@) is None,
        },
{
    match find(s, pattern, 0) {
        Some(at) => {
            let n: usize = pattern.len();
            let end: usize = s.len();
            let before: Vec<char> = part(s, 0, at);
            let after: Vec<char> = part(s, at + n, end);
            proof {
                assert(before@ =~= s@.take(at as int));
                assert(after@ =~= s@.skip(at + pattern@.len()));
            }
            Some((before, after))
        },
        None => None,
    }
}

/// Cuts the text at every place where the pattern stands.
pub fn pattern_pieces(s: &[char], pattern: &[char]) -> (out: Vec<Vec<char>>)
    requires
        pattern@.len() > 0,
    ensures
        views(out@) == split_at_pattern(s@, pattern@),
{
    let mut out: Vec<Vec<char>> = Vec::new();
    let mut rest: Vec<char> = vstd::slice::slice_to_vec(s);
    assert(views(out@) + split_at_pattern(rest@, pattern@) =~= split_at_pattern(s@, pattern@));
    loop
        invariant
            pattern@.len() > 0,
            views(out@) + split_at_pattern(rest@, pattern@) == split_at_pattern(s@, pattern@),
        decreases rest@.len(),
    {
        let ghost held = out@;
        let ghost whole = rest@;
        match split_once(rest.as_slice(), pattern) {
            Some((before, after)) => {
                proof {
                    lemma_first_at(whole, pattern@, 0);
                }
                out.push(before);
                rest = after;
                proof {
                    assert(views(out@) =~= views(held).push(before@));
                    assert(views(held).push(before@) + split_at_pattern(rest@, pattern@)
                        =~= views(held) + split_at_pattern(whole, pattern@));
                }
            },
            None => {
                out.push(rest);
                proof {
                    assert(views(out@) =~= views(held).push(whole));
                    assert(views(held) + seq![whole] =~= views(held).push(whole));
                }
                return out;
            },
        }
    }
}

/// The text without white space at either end.
pub open spec fn trimmed(s: Seq<char>) -> Seq<char>
    decreases s.len(),
{
    if s.len() == 0 {
        s
    } else if is_space(s.first()) {
        trimmed(s.drop_first())
    } else if is_space(s.last()) {
        trimmed(s.drop_last())
    } else {
        s
    }
}

/// Removes white space from both ends.
pub fn trim(s: &[char]) -> (out: Vec<char>)
    ensures
        out@ == trimmed(s@),
{
    let mut from: usize = 0;
    let mut to: usize = s.len();
    assert(s@.subrange(0, to as int) =~= s@);
    loop
        invariant
            from <= to <= s@.len(),
            trimmed(s@.subrange(from as int, to as int)) == trimmed(s@),
        decreases to - from,
    {
        let ghost here = s@.subrange(from as int, to as int);
        if from == to {
            return part(s, from, to);
        }
        assert(here.first() == s@[from as int] && here.last() == s@[to - 1]);
        if space(s[from]) {
            assert(here.drop_first() =~= s@.subrange(from + 1, to as int));
            from = from + 1;
        } else if space(s[to - 1]) {
            assert(here.drop_last() =~= s@.subrange(from as int, to - 1));
            to = to - 1;
        } else {
            return part(s, from, to);
        }
    }
}

/// Whether the character is an ASCII decimal digit.
pub open spec fn is_digit(c: char) -> bool {
    '0' as u32 <= c as u32 <= '9' as u32
}

/// Whether the text is one or more ASCII decimal digits.
pub open spec fn is_decimal(s: Seq<char>) -> bool {
    s.len() > 0 && forall|i: int| 0 <= i < s.len() ==> is_digit(#[trigger] s[i])
}

/// The number that decimal digits stand for.
pub open spec fn decimal_value(s: Seq<char>) -> nat
    decreases s.len(),
{
    if s.len() == 0 {
        0
    } else {
        decimal_value(s.drop_last()) * 10 + ((s.last() as u32 - '0' as u32) as nat)
    }
}

/// The unsigned number that the text writes: decimal digits, after an optional
/// plus sign, with a value of at most `max`.
pub open spec fn unsigned(s: Seq<char>, max: nat) -> Option<nat> {
    let digits = if s.len() > 1 && s[0] == '+' {
        s.skip(1)
    } else {
        s
    };
    if is_decimal(digits) && decimal_value(digits) <= max {
        Some(decimal_value(digits))
    } else {
        None
    }
}

/// More digits never make the value smaller.
pub proof fn lemma_decimal_value_grows(s: Seq<char>, n: int)
    requires
        is_decimal(s),
        0 <= n <= s.len(),
    ensures
        decimal_value(s.take(n)) <= decimal_value(s),
    decreases s.len() - n,
{
    if n < s.len() {
        let next = s.take(n + 1);
        assert(next.drop_last() =~= s.take(n));
        assert(is_digit(s[n]));
        lemma_decimal_value_grows(s, n + 1);
    } else {
        assert(s.take(n) =~= s);
    }
}

/// Whether the character is an ASCII decimal digit.
pub fn digit(c: char) -> (r: bool)
    ensures
        r == is_digit(c),
{
    let n: u32 = c as u32;
    48 <= n && n <= 57
}

/// Reads decimal digits without a sign, up to the given value.
fn digits_up_to(s: &[char], max: u64) -> (r: Option<u64>)
    ensures
        match r {
            Some(v) => is_decimal(s@) && decimal_value(s@) == v && v <= max,
            None => !(is_decimal(s@) && decimal_value(s@) <= max),
        },
{
    if s.len() == 0 {
        return None;
    }
    let mut value: u64 = 0;
    for i in 0..s.len()
        invariant
            s@.len() > 0,
            value <= max,
            value == decimal_value(s@.take(i as int)),
            forall|k: int| 0 <= k < i ==> is_digit(#[trigger] s@[k]),
    {
        let c: char = s[i];
        if !digit(c) {
            assert(!is_digit(s@[i as int]));
            return None;
        }
        let d: u64 = (c as u32 - 48) as u64;
        proof {
            assert(s@.take(i + 1).drop_last() =~= s@.take(i as int));
            assert(decimal_value(s@.take(i + 1)) == value * 10 + d);
            if is_decimal(s@) {
                lemma_decimal_value_grows(s@, i + 1);
            }
        }
        let wide: u128 = value as u128 * 10 + d as u128;
        if wide > max as u128 {
            return None;
        }
        value = wide as u64;
    }
    assert(s@.take(s@.len() as int) =~= s@);
    Some(value)
}

/// Reads an unsigned number of at most `max`.
pub fn number(s: &[char], max: u64) -> (r: Option<u64>)
    ensures
        match r {
            Some(v) => unsigned(s@, max as nat) == Some(v as nat),
            None => unsigned(s@, max as nat) is None,
        },
{
    if s.len() > 1 && s[0] == '+' {
        let rest: Vec<char> = part(s, 1, s.len());
        assert(rest@ =~= s@.skip(1));
        digits_up_to(rest.as_slice(), max)
    } else {
        digits_up_to(s, max)
    }
}

/// Reads a number that fits in 32 bits without a sign.
pub fn number_u32(s: &[char]) -> (r: Option<u32>)
    ensures
        match r {
            Some(v) => unsigned(s@, u32::MAX as nat) == Some(v as nat),
            None => unsigned(s@, u32::MAX as nat) is None,
        },
{
    match number(s, u32::MAX as u64) {
        Some(v) => Some(v as u32),
        None => None,
    }
}

/// The decimal digits of a number, without leading zeros.
pub open spec fn decimal(n: nat) -> Seq<char>
    decreases n,
{
    let last = (('0' as u32 + n % 10) as u32) as char;
    if n < 10 {
        seq![last]
    } else {
        decimal(n / 10).push(last)
    }
}

/// Reading back the digits of a number gives the number.
pub proof fn lemma_decimal_reads_back(n: nat)
    ensures
        is_decimal(decimal(n)),
        decimal_value(decimal(n)) == n,
    decreases n,
{
    let last = (('0' as u32 + n % 10) as u32) as char;
    assert(is_digit(last) && last as u32 - '0' as u32 == n % 10);
    if n < 10 {
        assert(decimal(n).drop_last() =~= Seq::empty());
        assert(decimal_value(Seq::<char>::empty()) == 0);
    } else {
        lemma_decimal_reads_back(n / 10);
        assert(decimal(n).drop_last() =~= decimal(n / 10));
    }
}

/// Writes a number in decimal.
pub fn render(n: u64) -> (out: Vec<char>)
    ensures
        out@ == decimal(n as nat),
    decreases n,
{
    let d: u8 = 48u8 + (n % 10) as u8;
    let last: char = d as char;
    if n < 10 {
        let mut out: Vec<char> = Vec::new();
        out.push(last);
        assert(out@ =~= decimal(n as nat));
        out
    } else {
        let mut out: Vec<char> = render(n / 10);
        out.push(last);
        out
    }
}

/// The decimal digits of a number, after a minus sign where it is negative.
pub open spec fn signed_decimal(n: int) -> Seq<char> {
    if n < 0 {
        seq!['-'] + decimal((-n) as nat)
    } else {
        decimal(n as nat)
    }
}

/// Writes a signed number in decimal.
pub fn render_signed(n: i32) -> (out: Vec<char>)
    ensures
        out@ == signed_decimal(n as int),
{
    if n < 0 {
        let mut out: Vec<char> = Vec::new();
        out.push('-');
        let mut rest: Vec<char> = render((-(n as i64)) as u64);
        out.append(&mut rest);
        assert(out@ =~= signed_decimal(n as int));
        out
    } else {
        render(n as u64)
    }
}

/// Concatenates two strings.
pub fn concat(a: &str, b: &str) -> (out: String)
    ensures
        out@ == a@ + b@,
{
    let mut out: String = a.to_owned();
    out.append(b);
    out
}

/// The text of a path with a name below it.
pub open spec fn below(base: Seq<char>, name: Seq<char>) -> Seq<char> {
    if base.len() == 0 || base.last() == '/' {
        base + name
    } else {
        base + "/"@ + name
    }
}

/// Appends a name to the text of a path.
pub fn join_below(base: &str, name: &str) -> (out: String)
    ensures
        out@ == below(base@, name@),
{
    let s: Vec<char> = chars(base);
    let mut out: String = base.to_owned();
    if s.len() > 0 && s[s.len() - 1] != '/' {
        out.append("/");
    }
    out.append(name);
    out
}

/// A separator ends a piece and begins the next: what stands before it and what stands
/// after it are cut by themselves.
pub proof fn law_separators_cut(a: Seq<char>, c: char, b: Seq<char>, by: Separator)
    requires
        by.separates(c),
    ensures
        split(a.push(c) + b, by) == split(a, by) + split(b, by),
    decreases b.len(),
{
    let whole = a.push(c) + b;
    if b.len() == 0 {
        assert(whole =~= a.push(c));
        assert(whole.drop_last() =~= a);
        assert(split(b, by) =~= seq![Seq::<char>::empty()]);
        assert(split(whole, by) =~= split(a, by) + split(b, by));
    } else {
        let short = b.drop_last();
        assert(whole.drop_last() =~= a.push(c) + short);
        law_separators_cut(a, c, short, by);
        lemma_split_nonempty(short, by);
        let before = split(a, by) + split(short, by);
        if !by.separates(b.last()) {
            assert(before.drop_last() =~= split(a, by) + split(short, by).drop_last());
            assert(before.last() == split(short, by).last());
        }
        assert(split(whole, by) =~= split(a, by) + split(b, by));
    }
}

/// A text without separators is one piece.
pub proof fn law_clean_text_is_one_piece(s: Seq<char>, by: Separator)
    requires
        forall|i: int| 0 <= i < s.len() ==> !by.separates(#[trigger] s[i]),
    ensures
        split(s, by) == seq![s],
    decreases s.len(),
{
    if s.len() == 0 {
        assert(s =~= Seq::empty());
    } else {
        let short = s.drop_last();
        assert forall|i: int| 0 <= i < short.len() implies !by.separates(#[trigger] short[i]) by {
            assert(short[i] == s[i]);
        }
        law_clean_text_is_one_piece(short, by);
        assert(short.push(s.last()) =~= s);
        assert(split(short, by).drop_last() =~= Seq::empty());
    }
    assert(split(s, by) =~= seq![s]);
}

/// The characters that separate pieces: the one that was named, or white space, of
/// which the plain characters are the blank, the tab and the ends of lines and pages.
pub proof fn law_separators_are_what_they_say(c: char, x: char)
    ensures
        Separator::Exactly(x).separates(c) <==> c == x,
        (c as u32) < 0x80 ==> (Separator::Whitespace.separates(c) <==> c == ' ' || c == '\t' || c
            == '\n' || c == '\r' || c as u32 == 0xb || c as u32 == 0xc),
{
}

/// White space separates words, however much of it there is, and a stretch without
/// white space is a word.
pub proof fn law_words_are_separated(a: Seq<char>, c: char, b: Seq<char>, w: Seq<char>)
    ensures
        is_space(c) ==> words(a.push(c) + b) == words(a) + words(b),
        words(Seq::<char>::empty()).len() == 0,
        w.len() > 0 && (forall|i: int| 0 <= i < w.len() ==> !is_space(#[trigger] w[i])) ==> words(w)
            == seq![w],
{
    let kept = |w: Seq<char>| w.len() > 0;
    let by = Separator::Whitespace;
    if is_space(c) {
        law_separators_cut(a, c, b, by);
        Seq::filter_distributes_over_add(split(a, by), split(b, by), kept);
    }
    reveal_with_fuel(Seq::filter, 3);
    let none = split(Seq::<char>::empty(), by);
    assert(none =~= seq![Seq::<char>::empty()]);
    assert(none.drop_last() =~= Seq::empty());
    assert(none.filter(kept) =~= Seq::empty());
    if w.len() > 0 && (forall|i: int| 0 <= i < w.len() ==> !is_space(#[trigger] w[i])) {
        assert forall|i: int| 0 <= i < w.len() implies !by.separates(#[trigger] w[i]) by {}
        law_clean_text_is_one_piece(w, by);
        let one = split(w, by);
        assert(one =~= seq![w]);
        assert(one.drop_last() =~= Seq::empty());
        assert(one.drop_last().filter(kept) =~= Seq::empty());
        assert(one.filter(kept) =~= seq![w]);
    }
}

/// A line ends with a line feed, which may have a carriage return before it; the last
/// one may do without.
pub proof fn law_lines_end_with_a_line_feed(line: Seq<char>, rest: Seq<char>)
    requires
        !line.contains('\n'),
    ensures
        line.len() == 0 || line.last() != '\r' ==> lines(line.push('\n') + rest) == seq![line]
            + lines(rest) && lines(line.push('\r').push('\n') + rest) == seq![line] + lines(rest),
        line.len() > 0 ==> lines(line) == seq![line],
        lines(Seq::<char>::empty()).len() == 0,
{
    let by = Separator::Exactly('\n');
    assert forall|i: int| 0 <= i < line.len() implies !by.separates(#[trigger] line[i]) by {
        assert(line.contains(line[i]));
    }
    law_clean_text_is_one_piece(line, by);
    lemma_split_nonempty(rest, by);
    if line.len() == 0 || line.last() != '\r' {
        let returned = line.push('\r');
        assert forall|i: int| 0 <= i < returned.len() implies !by.separates(
            #[trigger] returned[i],
        ) by {
            if i < line.len() {
                assert(returned[i] == line[i]);
            }
        }
        law_clean_text_is_one_piece(returned, by);
        law_separators_cut(line, '\n', rest, by);
        law_separators_cut(returned, '\n', rest, by);
        assert(returned.drop_last() =~= line);
        let after = split(rest, by);
        assert((seq![line] + after).last() == after.last());
        assert((seq![returned] + after).last() == after.last());
        assert(lines(line.push('\n') + rest) =~= seq![line] + lines(rest));
        assert(lines(returned.push('\n') + rest) =~= seq![line] + lines(rest));
    }
    if line.len() > 0 {
        assert(lines(line) =~= seq![line]);
    }
    assert(split(Seq::<char>::empty(), by) =~= seq![Seq::<char>::empty()]);
    assert(lines(Seq::<char>::empty()) =~= Seq::empty());
}

/// A text is cut at the first place where the pattern stands, and the pattern is left
/// out; a text without the pattern is not cut.
pub proof fn law_texts_are_cut_at_the_first_place(
    before: Seq<char>,
    pattern: Seq<char>,
    after: Seq<char>,
    s: Seq<char>,
)
    ensures
        s == before + pattern + after && (forall|at: int, end: int|
            0 <= at < before.len() && end == at + pattern.len()
                ==> #[trigger] s.subrange(at, end) != pattern) ==> cut_once(
            s,
            pattern,
        ) == Some((before, after)),
        (forall|at: int, end: int|
            0 <= at <= s.len() - pattern.len() && end == at + pattern.len()
                ==> #[trigger] s.subrange(at, end) != pattern)
            ==> cut_once(s, pattern) is None,
        cut_once(s, pattern) matches Some((left, right)) ==> s == left + pattern + right,
{
    if s == before + pattern + after && (forall|at: int, end: int|
            0 <= at < before.len() && end == at + pattern.len()
                ==> #[trigger] s.subrange(at, end) != pattern) {
        assert(s.subrange(before.len() as int, (before.len() + pattern.len()) as int) =~= pattern);
        lemma_first_is_found(s, pattern, 0, before.len() as int);
        assert(s.take(before.len() as int) =~= before);
        assert(s.skip((before.len() + pattern.len()) as int) =~= after);
    }
    if forall|at: int, end: int|
            0 <= at <= s.len() - pattern.len() && end == at + pattern.len()
                ==> #[trigger] s.subrange(at, end) != pattern {
        lemma_first_at(s, pattern, 0);
    }
    if cut_once(s, pattern) is Some {
        lemma_first_at(s, pattern, 0);
        let at = first_at(s, pattern, 0)->0;
        assert(s =~= s.take(at) + s.subrange(at, at + pattern.len()) + s.skip(
            at + pattern.len() as int,
        ));
    }
}

proof fn lemma_first_is_found(s: Seq<char>, pattern: Seq<char>, from: int, at: int)
    requires
        0 <= from <= at,
        stands_at(s, pattern, at),
        forall|k: int, end: int|
            from <= k < at && end == k + pattern.len() ==> #[trigger] s.subrange(k, end) != pattern,
    ensures
        first_at(s, pattern, from) == Some(at),
    decreases at - from,
{
    if from < at {
        lemma_first_is_found(s, pattern, from + 1, at);
    }
}

/// What is left of a text without the white space around it neither begins nor ends
/// with white space, and only white space was left out.
pub proof fn law_only_white_space_is_trimmed(s: Seq<char>) -> (ends: (int, int))
    ensures
        0 <= ends.0 <= ends.1 <= s.len(),
        trimmed(s) == s.subrange(ends.0, ends.1),
        ends.0 < ends.1 ==> !is_space(s[ends.0]) && !is_space(s[ends.1 - 1]),
        forall|k: int| 0 <= k < ends.0 ==> is_space(#[trigger] s[k]),
        forall|k: int| ends.1 <= k < s.len() ==> is_space(#[trigger] s[k]),
    decreases s.len(),
{
    if s.len() == 0 {
        assert(s.subrange(0, 0) =~= trimmed(s));
        (0, 0)
    } else if is_space(s.first()) {
        let rest = s.drop_first();
        let (i, j) = law_only_white_space_is_trimmed(rest);
        assert(s.subrange(i + 1, j + 1) =~= rest.subrange(i, j));
        assert forall|k: int| 0 <= k < i + 1 implies is_space(#[trigger] s[k]) by {
            if k > 0 {
                assert(s[k] == rest[k - 1]);
            }
        }
        assert forall|k: int| j + 1 <= k < s.len() implies is_space(#[trigger] s[k]) by {
            assert(s[k] == rest[k - 1]);
        }
        (i + 1, j + 1)
    } else if is_space(s.last()) {
        let rest = s.drop_last();
        let (i, j) = law_only_white_space_is_trimmed(rest);
        assert(s.subrange(i, j) =~= rest.subrange(i, j));
        assert forall|k: int| 0 <= k < i implies is_space(#[trigger] s[k]) by {
            assert(s[k] == rest[k]);
        }
        assert forall|k: int| j <= k < s.len() implies is_space(#[trigger] s[k]) by {
            if k < s.len() - 1 {
                assert(s[k] == rest[k]);
            }
        }
        (i, j)
    } else {
        assert(s.subrange(0, s.len() as int) =~= s);
        (0, s.len() as int)
    }
}

/// A number is read as it is written, with or without a plus sign, up to the limit and
/// no further. Nothing that is not made of digits is a number.
pub proof fn law_numbers_are_read_as_written(n: nat, max: nat, s: Seq<char>)
    ensures
        n <= max ==> unsigned(decimal(n), max) == Some(n) && unsigned(seq!['+'] + decimal(n), max)
            == Some(n),
        n > max ==> unsigned(decimal(n), max) is None,
        unsigned(s, max) is Some ==> s.len() > 0 && unsigned(s, max)->0 <= max && (forall|i: int|
            0 < i < s.len() ==> 48 <= (#[trigger] s[i]) as u32 <= 57) && (s[0] == '+'
                || 48 <= s[0] as u32
            <= 57) && !(s.len() == 1 && s[0] == '+'),
{
    lemma_decimal_reads_back(n);
    let digits = decimal(n);
    assert(is_decimal(digits));
    assert(digits.len() > 0 && is_digit(digits[0]));
    assert((seq!['+'] + digits).skip(1) =~= digits);
    if unsigned(s, max) is Some {
        if s.len() > 1 && s[0] == '+' {
            assert forall|i: int| 0 < i < s.len() implies 48 <= (#[trigger] s[i]) as u32 <= 57 by {
                assert(s[i] == s.skip(1)[i - 1]);
            }
        }
    }
}

/// The digits of a number: the last one is what is left over ten, and the others are
/// those of the number without it.
pub proof fn law_digits_make_the_number(s: Seq<char>, d: char)
    requires
        48 <= d as u32 <= 57,
    ensures
        decimal_value(s.push(d)) == decimal_value(s) * 10 + (d as u32 - 48),
        decimal_value(Seq::<char>::empty()) == 0,
{
    assert(s.push(d).drop_last() =~= s);
}

/// What is put below a directory comes after exactly one slash.
pub proof fn law_names_follow_one_slash(base: Seq<char>, name: Seq<char>)
    ensures
        base.len() > 0 && base.last() != '/' ==> below(base, name) == base.push('/') + name,
        base.len() > 0 && base.last() == '/' ==> below(base, name) == base + name,
        base.len() == 0 ==> below(base, name) == name,
{
    reveal_strlit("/");
    assert(base + "/"@ + name =~= base.push('/') + name);
    if base.len() == 0 {
        assert(base + name =~= name);
    }
}

} // verus!
