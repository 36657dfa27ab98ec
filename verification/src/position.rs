use vstd::prelude::*;

verus! {

/// The number of bytes that UTF-8 takes to encode `c`.
pub open spec fn spec_len_utf8(c: char) -> nat {
    if (c as u32) < 0x80 {
        1
    } else if (c as u32) < 0x800 {
        2
    } else if (c as u32) < 0x10000 {
        3
    } else {
        4
    }
}

/// Executable counterpart of [`spec_len_utf8`].
pub fn len_utf8(c: char) -> (r: usize)
    ensures
        r == spec_len_utf8(c),
        1 <= r <= 4,
{
    let v = c as u32;
    if v < 0x80 {
        1
    } else if v < 0x800 {
        2
    } else if v < 0x10000 {
        3
    } else {
        4
    }
}

/// Used to represent exact positions of tokens in code
#[derive(Clone, Copy, Debug, Default, PartialEq, Eq, Structural)]
pub struct Position {
    /// How many bytes come before the position
    pub bytes: usize,
    /// The line the position lies on, from 1
    pub line: usize,
    /// The character on the line the position lies at, from 1
    pub character: usize,
}

impl Position {
    /// How many bytes, ignoring lines, it would take to find this position
    pub fn bytes(self) -> (r: usize)
        ensures
            r == self.bytes,
    {
        self.bytes
    }

    /// Index of the character on the line for this position
    pub fn character(self) -> (r: usize)
        ensures
            r == self.character,
    {
        self.character
    }

    /// Line the position lies on
    pub fn line(self) -> (r: usize)
        ensures
            r == self.line,
    {
        self.line
    }
}

/// The byte offset reached after reading the first `i` characters of `s`.
pub open spec fn spec_bytes_at(s: Seq<char>, i: int) -> nat
    decreases i,
{
    if i <= 0 {
        0
    } else {
        spec_bytes_at(s, i - 1) + spec_len_utf8(s[i - 1])
    }
}

/// The line reached after reading the first `i` characters of `s`.
pub open spec fn spec_line_at(s: Seq<char>, i: int) -> nat
    decreases i,
{
    if i <= 0 {
        1
    } else if s[i - 1] == '\n' {
        spec_line_at(s, i - 1) + 1
    } else {
        spec_line_at(s, i - 1)
    }
}

/// The character on the line reached after reading the first `i` characters of `s`.
pub open spec fn spec_character_at(s: Seq<char>, i: int) -> nat
    decreases i,
{
    if i <= 0 {
        1
    } else if s[i - 1] == '\n' {
        1
    } else {
        spec_character_at(s, i - 1) + 1
    }
}

/// `p` is the position after reading the first `i` characters of `s`.
pub open spec fn is_position_at(p: Position, s: Seq<char>, i: int) -> bool {
    &&& p.bytes == spec_bytes_at(s, i)
    &&& p.line == spec_line_at(s, i)
    &&& p.character == spec_character_at(s, i)
}

/// Sources whose positions fit in a `usize`.
pub open spec fn source_fits(s: Seq<char>) -> bool {
    s.len() <= usize::MAX / 4
}

/// Reading more characters reaches no smaller byte offset.
pub proof fn lemma_bytes_monotone(s: Seq<char>, i: int, j: int)
    requires
        i <= j,
    ensures
        spec_bytes_at(s, i) <= spec_bytes_at(s, j),
    decreases j - i,
{
    if i < j {
        lemma_bytes_monotone(s, i, j - 1);
    }
}

/// The line reached after reading the first `i` characters is 1 plus the number of new lines
/// among them.
pub proof fn law_line_counts_new_lines(s: Seq<char>, i: int)
    requires
        0 <= i <= s.len(),
    ensures
        spec_line_at(s, i) == 1 + s.take(i).filter(|c: char| c == '\n').len(),
    decreases i,
{
    let is_new_line = |c: char| c == '\n';
    if i == 0 {
        assert(s.take(0) =~= Seq::<char>::empty());
        reveal(Seq::filter);
    } else {
        law_line_counts_new_lines(s, i - 1);
        assert(s.take(i) =~= s.take(i - 1).push(s[i - 1]));
        s.take(i - 1).lemma_filter_len_push(is_new_line, s[i - 1]);
    }
}

/// After a new line, or from the start, the character reached is 1 plus the number of
/// characters read since, when none of them is a new line.
pub proof fn law_character_counts_from_line_start(s: Seq<char>, j: int, i: int)
    requires
        0 <= j <= i <= s.len(),
        j == 0 || s[j - 1] == '\n',
        forall|k: int| j <= k < i ==> s[k] != '\n',
    ensures
        spec_character_at(s, i) == 1 + (i - j),
    decreases i,
{
    if i > j {
        law_character_counts_from_line_start(s, j, i - 1);
    } else if j > 0 {
        assert(spec_character_at(s, j) == 1);
    }
}

/// Reading characters that all take one byte in UTF-8 reaches the byte offset of their
/// number.
pub proof fn law_ascii_bytes(s: Seq<char>, i: int)
    requires
        0 <= i <= s.len(),
        forall|k: int| 0 <= k < i ==> (s[k] as u32) < 0x80,
    ensures
        spec_bytes_at(s, i) == i,
    decreases i,
{
    if i > 0 {
        law_ascii_bytes(s, i - 1);
    }
}

/// Positions grow no faster than the characters read.
pub proof fn lemma_position_bounds(s: Seq<char>, i: int)
    requires
        0 <= i,
    ensures
        spec_bytes_at(s, i) <= 4 * i,
        spec_line_at(s, i) <= i + 1,
        spec_character_at(s, i) <= i + 1,
    decreases i,
{
    if i > 0 {
        lemma_position_bounds(s, i - 1);
    }
}

} // verus!
