//! Character-level building blocks shared by the line grammars: character
//! classes, runs, fixed words and decimal numbers, each as a spec function
//! over `Seq<char>` with an executable counterpart on `&[char]`.

use vstd::prelude::*;

verus! {

/// A set of characters that a grammar admits at one position.
#[derive(Clone, Copy, Debug)]
pub enum CharClass {
    /// `0` to `9`.
    Digit,
    /// `A` to `Z`, and the comma.
    UpperOrComma,
    /// `0` to `9` and `A` to `F`.
    UpperHex,
    /// `a` to `z`, `A` to `Z` and `2` to `7`.
    Base32,
    /// Every character but the given one.
    Except(char),
}

impl CharClass {
    /// Whether `c` belongs to the class.
    pub open spec fn has(self, c: char) -> bool {
        match self {
            CharClass::Digit => '0' <= c && c <= '9',
            CharClass::UpperOrComma => ('A' <= c && c <= 'Z') || c == ',',
            CharClass::UpperHex => ('0' <= c && c <= '9') || ('A' <= c && c <= 'F'),
            CharClass::Base32 => ('a' <= c && c <= 'z') || ('A' <= c && c <= 'Z') || ('2' <= c
                && c <= '7'),
            CharClass::Except(x) => c != x,
        }
    }

    /// Whether `c` belongs to the class.
    pub fn contains(&self, c: char) -> (b: bool)
        ensures
            b == self.has(c),
    {
        match self {
            CharClass::Digit => '0' <= c && c <= '9',
            CharClass::UpperOrComma => ('A' <= c && c <= 'Z') || c == ',',
            CharClass::UpperHex => ('0' <= c && c <= '9') || ('A' <= c && c <= 'F'),
            CharClass::Base32 => ('a' <= c && c <= 'z') || ('A' <= c && c <= 'Z') || ('2' <= c
                && c <= '7'),
            CharClass::Except(x) => c != *x,
        }
    }
}

/// Every character of `s` belongs to `class`.
pub open spec fn all_in(s: Seq<char>, class: CharClass) -> bool {
    forall|i: int| 0 <= i < s.len() ==> class.has(#[trigger] s[i])
}

/// The end of the longest run of characters of `class` that starts at `from`:
/// the first position at or after `from` that holds no character of `class`.
pub open spec fn run_end(s: Seq<char>, from: int, class: CharClass) -> int
    decreases s.len() - from,
{
    if 0 <= from < s.len() && class.has(s[from]) {
        run_end(s, from + 1, class)
    } else {
        from
    }
}

/// The first position at or after `from` that holds `c`, or the length of `s`.
pub open spec fn find_from(s: Seq<char>, from: int, c: char) -> int {
    run_end(s, from, CharClass::Except(c))
}

/// The first word of a line: what stands before its first space.
pub open spec fn first_word(line: Seq<char>) -> Seq<char> {
    line.take(find_from(line, 0, ' '))
}

/// The second word of a line: what stands between its first space and its
/// second, where it has a first.
pub open spec fn second_word(line: Seq<char>) -> Option<Seq<char>> {
    let space = find_from(line, 0, ' ');
    if space < line.len() {
        Some(line.subrange(space + 1, find_from(line, space + 1, ' ')))
    } else {
        None
    }
}

/// The word `p` stands in `s` at position `at`.
pub open spec fn has_at(s: Seq<char>, at: int, p: Seq<char>) -> bool {
    0 <= at && at + p.len() <= s.len() && s.subrange(at, at + p.len()) == p
}

/// What `run_end` returns bounds a run, and the run cannot be extended.
pub proof fn lemma_run_end(s: Seq<char>, from: int, class: CharClass)
    requires
        0 <= from <= s.len(),
    ensures
        from <= run_end(s, from, class) <= s.len(),
        forall|i: int| from <= i < run_end(s, from, class) ==> class.has(#[trigger] s[i]),
        run_end(s, from, class) < s.len() ==> !class.has(s[run_end(s, from, class)]),
    decreases s.len() - from,
{
    if from < s.len() && class.has(s[from]) {
        lemma_run_end(s, from + 1, class);
    }
}

/// A run from `from` reaches `to` exactly when every character between them
/// belongs to the class.
pub proof fn lemma_run_reaches(s: Seq<char>, from: int, to: int, class: CharClass)
    requires
        0 <= from <= to <= s.len(),
    ensures
        (run_end(s, from, class) >= to) == all_in(s.subrange(from, to), class),
{
    lemma_run_end(s, from, class);
    let end = run_end(s, from, class);
    let part = s.subrange(from, to);
    if end >= to {
        assert forall|i: int| 0 <= i < part.len() implies class.has(#[trigger] part[i]) by {
            assert(part[i] == s[from + i]);
        }
    } else {
        assert(part[end - from] == s[end]);
    }
}

/// The characters of a string, in order.
pub fn chars_of(s: &str) -> (v: Vec<char>)
    ensures
        v@ == s@,
{
    let mut v: Vec<char> = Vec::new();
    for c in it: s.chars()
        invariant
            v@ == it.seq().take(it.index() as int),
            it.seq() == s@,
    {
        v.push(c);
    }
    v
}

/// The part of `s` between the character positions `from` and `to`, as a new string.
pub fn slice_string(s: &str, from: usize, to: usize) -> (r: String)
    requires
        from <= to <= s@.len(),
    ensures
        r@ == s@.subrange(from as int, to as int),
{
    s.substring_char(from, to).to_owned()
}

/// Scans the longest run of characters of `class` from `from`.
pub fn scan_run(cs: &[char], from: usize, class: CharClass) -> (end: usize)
    requires
        from <= cs@.len(),
    ensures
        end == run_end(cs@, from as int, class),
        from <= end <= cs@.len(),
{
    let mut i: usize = from;
    while i < cs.len() && class.contains(cs[i])
        invariant
            from <= i <= cs@.len(),
            run_end(cs@, from as int, class) == run_end(cs@, i as int, class),
        decreases cs@.len() - i,
    {
        i += 1;
    }
    i
}

/// Whether the word `word` stands in `cs` at position `at`.
pub fn word_at(cs: &[char], at: usize, word: &[char]) -> (b: bool)
    ensures
        b == has_at(cs@, at as int, word@),
{
    if at > cs.len() || word.len() > cs.len() - at {
        return false;
    }
    let mut i: usize = 0;
    while i < word.len()
        invariant
            at + word@.len() <= cs@.len() <= usize::MAX,
            i <= word@.len(),
            cs@.subrange(at as int, at + i) == word@.subrange(0, i as int),
        decreases word@.len() - i,
    {
        if cs[at + i] != word[i] {
            proof {
                let whole = cs@.subrange(at as int, at + word@.len());
                assert(whole[i as int] == cs@[at + i]);
            }
            return false;
        }
        proof {
            assert(cs@.subrange(at as int, at + i + 1) =~= cs@.subrange(at as int, at + i).push(
                cs@[at + i],
            ));
            assert(word@.subrange(0, i + 1) =~= word@.subrange(0, i as int).push(word@[i as int]));
        }
        i += 1;
    }
    proof {
        assert(word@.subrange(0, word@.len() as int) =~= word@);
    }
    true
}

/// Whether the word `pat` stands in `cs` at position `at`.
pub fn starts_at(cs: &[char], at: usize, pat: &str) -> (b: bool)
    ensures
        b == has_at(cs@, at as int, pat@),
{
    let word = chars_of(pat);
    word_at(cs, at, word.as_slice())
}

/// Whether the characters of `cs` between `from` and `to` are the word `pat`.
pub fn range_is(cs: &[char], from: usize, to: usize, pat: &str) -> (b: bool)
    requires
        from <= to <= cs@.len(),
    ensures
        b == (cs@.subrange(from as int, to as int) == pat@),
{
    let word = chars_of(pat);
    word.len() == to - from && word_at(cs, from, word.as_slice())
}

/// The value of a decimal digit.
pub open spec fn digit_value(c: char) -> nat {
    (c as nat - '0' as nat) as nat
}

/// The number that a sequence of decimal digits writes, most significant first.
pub open spec fn decimal_value(s: Seq<char>) -> nat
    decreases s.len(),
{
    if s.len() == 0 {
        0
    } else {
        decimal_value(s.drop_last()) * 10 + digit_value(s.last())
    }
}

/// Appending digits never makes the number smaller.
pub proof fn lemma_decimal_prefix(s: Seq<char>, n: int)
    requires
        0 <= n <= s.len(),
    ensures
        decimal_value(s.take(n)) <= decimal_value(s),
    decreases s.len(),
{
    if n == s.len() {
        assert(s.take(n) =~= s);
    } else {
        assert(s.drop_last().take(n) =~= s.take(n));
        lemma_decimal_prefix(s.drop_last(), n);
    }
}

/// Reads the digits of `cs` between `from` and `to` as a number no larger than `limit`.
pub fn parse_decimal(cs: &[char], from: usize, to: usize, limit: u16) -> (r: Option<u16>)
    requires
        from <= to <= cs@.len(),
        all_in(cs@.subrange(from as int, to as int), CharClass::Digit),
    ensures
        r == (if decimal_value(cs@.subrange(from as int, to as int)) <= limit {
            Some(decimal_value(cs@.subrange(from as int, to as int)) as u16)
        } else {
            None
        }),
{
    let ghost digits = cs@.subrange(from as int, to as int);
    let mut acc: u32 = 0;
    let mut i: usize = from;
    while i < to
        invariant
            from <= i <= to <= cs@.len(),
            digits == cs@.subrange(from as int, to as int),
            all_in(digits, CharClass::Digit),
            acc == decimal_value(digits.take(i - from)),
            acc <= limit,
        decreases to - i,
    {
        let c = cs[i];
        proof {
            assert(digits[i - from] == c);
            assert(digits.take(i - from + 1).drop_last() =~= digits.take(i - from));
            assert(digits.take(i - from + 1).last() == c);
        }
        let d: u32 = (c as u32) - ('0' as u32);
        let next: u32 = acc * 10 + d;
        if next > limit as u32 {
            proof {
                lemma_decimal_prefix(digits, i - from + 1);
            }
            return None;
        }
        acc = next;
        i += 1;
    }
    proof {
        assert(digits.take(to - from) =~= digits);
    }
    Some(acc as u16)
}

/// The character that writes a digit below ten.
pub open spec fn digit_char(d: nat) -> char {
    if d == 0 {
        '0'
    } else if d == 1 {
        '1'
    } else if d == 2 {
        '2'
    } else if d == 3 {
        '3'
    } else if d == 4 {
        '4'
    } else if d == 5 {
        '5'
    } else if d == 6 {
        '6'
    } else if d == 7 {
        '7'
    } else if d == 8 {
        '8'
    } else {
        '9'
    }
}

/// The shortest decimal notation of `n`: no sign, no leading zero but for zero itself.
pub open spec fn decimal_text(n: nat) -> Seq<char>
    decreases n,
{
    if n < 10 {
        seq![digit_char(n)]
    } else {
        decimal_text(n / 10).push(digit_char(n % 10))
    }
}

fn digit_str(d: u16) -> (r: &'static str)
    requires
        d < 10,
    ensures
        r@ == seq![digit_char(d as nat)],
{
    proof {
        reveal_strlit("0");
        reveal_strlit("1");
        reveal_strlit("2");
        reveal_strlit("3");
        reveal_strlit("4");
        reveal_strlit("5");
        reveal_strlit("6");
        reveal_strlit("7");
        reveal_strlit("8");
        reveal_strlit("9");
    }
    let r = if d == 0 {
        "0"
    } else if d == 1 {
        "1"
    } else if d == 2 {
        "2"
    } else if d == 3 {
        "3"
    } else if d == 4 {
        "4"
    } else if d == 5 {
        "5"
    } else if d == 6 {
        "6"
    } else if d == 7 {
        "7"
    } else if d == 8 {
        "8"
    } else {
        "9"
    };
    assert(r@ =~= seq![digit_char(d as nat)]);
    r
}

/// Appends the decimal notation of `n` to `out`.
pub fn push_decimal(out: &mut String, n: u16)
    ensures
        final(out)@ == old(out)@ + decimal_text(n as nat),
    decreases n,
{
    if n >= 10 {
        push_decimal(out, n / 10);
    }
    out.append(digit_str(n % 10));
    assert(out@ =~= old(out)@ + decimal_text(n as nat));
}

} // verus!
