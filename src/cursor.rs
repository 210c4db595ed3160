use vstd::prelude::*;
use vstd::std_specs::iter::IteratorSpec;

verus! {

/// The number of line breaks among the first `p` characters.
pub open spec fn newlines_before(input: Seq<char>, p: int) -> int
    decreases p,
{
    if p <= 0 || p > input.len() {
        0
    } else {
        newlines_before(input, p - 1) + if input[p - 1] == '\n' { 1int } else { 0int }
    }
}

/// The offset at which the line holding offset `p` begins.
pub open spec fn line_start(input: Seq<char>, p: int) -> int
    decreases p,
{
    if p <= 0 || p > input.len() {
        0
    } else if input[p - 1] == '\n' {
        p
    } else {
        line_start(input, p - 1)
    }
}

/// The length in bytes of `c` encoded as UTF-8.
pub open spec fn utf8_len(c: char) -> int {
    let u = c as u32;
    if u < 0x80 {
        1
    } else if u < 0x800 {
        2
    } else if u < 0x10000 {
        3
    } else {
        4
    }
}

/// The byte offset, in UTF-8, of character offset `p`.
pub open spec fn bytes_before(input: Seq<char>, p: int) -> int
    decreases p,
{
    if p <= 0 || p > input.len() {
        0
    } else {
        bytes_before(input, p - 1) + utf8_len(input[p - 1])
    }
}

fn utf8_len_exec(c: char) -> (r: usize)
    ensures
        r == utf8_len(c),
{
    let u = c as u32;
    if u < 0x80 {
        1
    } else if u < 0x800 {
        2
    } else if u < 0x10000 {
        3
    } else {
        4
    }
}

/// The byte offset, in the UTF-8 text, of character offset `p`.
pub fn byte_offset(input: &Vec<char>, p: usize) -> (r: usize)
    requires
        p <= input.len(),
        input.len() <= usize::MAX / 4,
    ensures
        r == bytes_before(input@, p as int),
{
    let mut i: usize = 0;
    let mut sum: usize = 0;
    while i < p
        invariant
            i <= p <= input.len() <= usize::MAX / 4,
            sum == bytes_before(input@, i as int),
            sum <= 4 * i,
        decreases p - i,
    {
        sum = sum + utf8_len_exec(input[i]);
        i = i + 1;
    }
    sum
}

/// The characters of `s`, in order.
pub fn chars_of(s: &str) -> (r: Vec<char>)
    ensures
        r@ == s@,
{
    broadcast use vstd::string::axiom_spec_iter, vstd::string::next_postcondition;

    let mut it = s.chars();
    let mut out: Vec<char> = Vec::new();
    loop
        invariant
            out@ + IteratorSpec::remaining(&it) == s@,
            IteratorSpec::decrease(&it) is Some,
        decreases IteratorSpec::decrease(&it)->0,
    {
        match it.next() {
            Some(c) => {
                out.push(c);
                assert(out@ + IteratorSpec::remaining(&it) =~= s@);
            },
            None => {
                assert(out@ =~= s@);
                return out;
            },
        }
    }
}

/// The 1-based line and column of offset `p`, counted in characters.
pub fn line_col(input: &Vec<char>, p: usize) -> (r: (usize, usize))
    requires
        p <= input.len(),
        input.len() < usize::MAX,
    ensures
        r.0 == newlines_before(input@, p as int) + 1,
        r.1 == p - line_start(input@, p as int) + 1,
{
    let mut i: usize = 0;
    let mut lines: usize = 0;
    let mut start: usize = 0;
    while i < p
        invariant
            i <= p <= input.len(),
            lines == newlines_before(input@, i as int),
            lines <= i,
            start == line_start(input@, i as int),
            start <= i,
        decreases p - i,
    {
        if input[i] == '\n' {
            lines = lines + 1;
            start = i + 1;
        }
        i = i + 1;
    }
    (lines + 1, p - start + 1)
}

/// A position in a text of characters; offsets count characters (Unicode scalar
/// values), not bytes. Line and column are worked out only on request.
pub struct Cursor {
    input: Vec<char>,
    pos: usize,
}

impl Cursor {
    pub closed spec fn text(&self) -> Seq<char> {
        self.input@
    }

    pub closed spec fn offset(&self) -> int {
        self.pos as int
    }

    pub open spec fn wf(&self) -> bool {
        0 <= self.offset() <= self.text().len()
    }

    /// A cursor at the start of `s`.
    pub fn new(s: &str) -> (r: Cursor)
        ensures
            r.wf(),
            r.text() == s@,
            r.offset() == 0,
    {
        Cursor { input: chars_of(s), pos: 0 }
    }

    pub fn pos(&self) -> (r: usize)
        ensures
            r == self.offset(),
    {
        self.pos
    }

    pub fn input(&self) -> (r: &Vec<char>)
        ensures
            r@ == self.text(),
    {
        &self.input
    }

    /// The character at the cursor, if any is left.
    pub fn peek(&self) -> (r: Option<char>)
        requires
            self.wf(),
        ensures
            self.offset() < self.text().len() ==> r == Some(self.text()[self.offset()]),
            self.offset() == self.text().len() ==> r is None,
    {
        if self.pos < self.input.len() {
            Some(self.input[self.pos])
        } else {
            None
        }
    }

    pub fn at_end(&self) -> (r: bool)
        requires
            self.wf(),
        ensures
            r == (self.offset() == self.text().len()),
    {
        self.pos == self.input.len()
    }

    /// Moves the cursor `n` characters on.
    pub fn advance(&mut self, n: usize)
        requires
            old(self).wf(),
            old(self).offset() + n <= old(self).text().len(),
        ensures
            final(self).wf(),
            final(self).text() == old(self).text(),
            final(self).offset() == old(self).offset() + n,
    {
        let len = self.input.len();
        assert(self.pos + n <= len);
        self.pos = self.pos + n;
    }

    /// The characters from `start` up to `end`.
    pub fn slice(&self, start: usize, end: usize) -> (r: Vec<char>)
        requires
            start <= end <= self.text().len(),
        ensures
            r@ == self.text().subrange(start as int, end as int),
    {
        let mut r: Vec<char> = Vec::new();
        let mut i: usize = start;
        while i < end
            invariant
                start <= i <= end <= self.input.len(),
                r@ == self.input@.subrange(start as int, i as int),
            decreases end - i,
        {
            r.push(self.input[i]);
            assert(r@ =~= self.input@.subrange(start as int, i + 1));
            i = i + 1;
        }
        r
    }

    /// The byte offset of the cursor in the UTF-8 text.
    pub fn byte_offset(&self) -> (r: usize)
        requires
            self.wf(),
            self.text().len() <= usize::MAX / 4,
        ensures
            r == bytes_before(self.text(), self.offset()),
    {
        byte_offset(&self.input, self.pos)
    }

    /// The 1-based line and column of the cursor.
    pub fn line_col(&self) -> (r: (usize, usize))
        requires
            self.wf(),
            self.text().len() < usize::MAX,
        ensures
            r.0 == newlines_before(self.text(), self.offset()) + 1,
            r.1 == self.offset() - line_start(self.text(), self.offset()) + 1,
    {
        line_col(&self.input, self.pos)
    }
}

} // verus!
