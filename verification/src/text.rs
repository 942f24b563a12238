//! Text that the search reads and writes: entries without the white space
//! around them, numbers in decimal, previews of response bodies, and the
//! search for a phrase inside a body.

use vstd::prelude::*;

verus! {

/// `String::push` of the standard library appends one character.
pub assume_specification[ String::push ](s: &mut String, c: char)
    ensures
        final(s)@ == old(s)@.push(c),
;

/// What `str::to_uppercase` of the standard library makes of `s`.
pub uninterp spec fn uppercase_of(s: Seq<char>) -> Seq<char>;

/// Whether `char::is_whitespace` of the standard library holds of `c`:
/// whether Unicode counts it as white space.
pub uninterp spec fn white_space(c: char) -> bool;

/// Calls `str::to_uppercase`, which maps every character to its Unicode
/// upper case. Trusted: the result is a function of the text alone, and
/// as the upper case of a character is one character or more, it is empty
/// exactly if the text is.
#[verifier::external_body]
pub(crate) fn to_upper(s: &str) -> (r: String)
    ensures
        r@ == uppercase_of(s@),
        r@.len() == 0 <==> s@.len() == 0,
{
    s.to_uppercase()
}

/// Calls `char::is_whitespace`. Trusted: the result is a function of the
/// character alone.
#[verifier::external_body]
fn is_white_space(c: char) -> (b: bool)
    ensures
        b == white_space(c),
{
    c.is_whitespace()
}

/// The characters of `s`, one by one.
pub fn chars_of(s: &str) -> (v: Vec<char>)
    ensures
        v@ == s@,
{
    let mut v: Vec<char> = Vec::new();
    for c in it: s.chars()
        invariant
            it.seq() == s@,
            v@ == s@.take(it.index() as int),
    {
        v.push(c);
    }
    v
}

/// The first position from `i` on at which no white space stands, or the
/// length of `s` where there is none.
pub open spec fn solid_from(s: Seq<char>, i: int) -> int
    decreases s.len() - i,
{
    if 0 <= i < s.len() && white_space(s[i]) {
        solid_from(s, i + 1)
    } else {
        i
    }
}

/// The position behind the last character before `j` that is no white
/// space, or 0 where there is none.
pub open spec fn solid_until(s: Seq<char>, j: int) -> int
    decreases j,
{
    if 0 < j <= s.len() && white_space(s[j - 1]) {
        solid_until(s, j - 1)
    } else {
        j
    }
}

/// `s` without the white space at its start and at its end: what stands
/// from its first to its last character that is no white space, and
/// nothing where it has none.
pub open spec fn trimmed_of(s: Seq<char>) -> Seq<char> {
    let first = solid_from(s, 0);
    let end = solid_until(s, s.len() as int);
    if first < end {
        s.subrange(first, end)
    } else {
        Seq::empty()
    }
}

proof fn lemma_solid_until_bound(s: Seq<char>, j: int)
    requires
        0 <= j <= s.len(),
    ensures
        0 <= solid_until(s, j) <= j,
    decreases j,
{
    if 0 < j && white_space(s[j - 1]) {
        lemma_solid_until_bound(s, j - 1);
    }
}

/// Drops the white space at the start and at the end of `s`.
pub fn trim(s: &str) -> (r: &str)
    ensures
        r@ == trimmed_of(s@),
{
    let chars = chars_of(s);
    let n: usize = chars.len();
    let mut first: usize = 0;
    while first < n && is_white_space(chars[first])
        invariant
            first <= n,
            n == chars.len(),
            chars@ == s@,
            solid_from(s@, 0) == solid_from(s@, first as int),
        decreases n - first,
    {
        first = first + 1;
    }
    let mut end: usize = n;
    while end > first && is_white_space(chars[end - 1])
        invariant
            first <= end <= n,
            n == chars.len(),
            chars@ == s@,
            first < n ==> !white_space(s@[first as int]) && first < end,
            solid_until(s@, n as int) == solid_until(s@, end as int),
        decreases end,
    {
        end = end - 1;
    }
    if first < end {
        s.substring_char(first, end)
    } else {
        proof {
            reveal_strlit("");
            lemma_solid_until_bound(s@, n as int);
        }
        ""
    }
}

/// The decimal digit for `d`.
pub open spec fn digit(d: int) -> char {
    if d == 0 {
        '0'
    } else if d == 1 {
        '1'
    } else if d == 2 {
        '2'
    } else if d == 3 {
        '3'
    } else if d == 4 {
        '4'
    } else if d == 5 {
        '5'
    } else if d == 6 {
        '6'
    } else if d == 7 {
        '7'
    } else if d == 8 {
        '8'
    } else {
        '9'
    }
}

/// `n` written in decimal, without leading zeros.
pub open spec fn decimal_text(n: nat) -> Seq<char>
    decreases n,
{
    if n < 10 {
        seq![digit(n as int)]
    } else {
        decimal_text(n / 10).push(digit((n % 10) as int))
    }
}

fn digit_char(d: u64) -> (c: char)
    requires
        d < 10,
    ensures
        c == digit(d as int),
{
    if d == 0 {
        '0'
    } else if d == 1 {
        '1'
    } else if d == 2 {
        '2'
    } else if d == 3 {
        '3'
    } else if d == 4 {
        '4'
    } else if d == 5 {
        '5'
    } else if d == 6 {
        '6'
    } else if d == 7 {
        '7'
    } else if d == 8 {
        '8'
    } else {
        '9'
    }
}

/// Writes `n` in decimal.
pub fn decimal(n: u64) -> (r: String)
    ensures
        r@ == decimal_text(n as nat),
    decreases n,
{
    if n < 10 {
        let mut s = String::new();
        s.push(digit_char(n));
        assert(s@ =~= seq![digit(n as int)]);
        s
    } else {
        let mut s = decimal(n / 10);
        s.push(digit_char(n % 10));
        s
    }
}

/// Number of characters of a response body that a preview shows.
pub const PREVIEW_CHARS: usize = 300;

/// A character as a preview shows it: line feeds and tabs become spaces.
pub open spec fn flattened(c: char) -> char {
    if c == '\n' || c == '\t' {
        ' '
    } else {
        c
    }
}

/// The preview of `body`: its first 300 characters, line feeds and tabs
/// replaced by spaces.
pub open spec fn preview_text(body: Seq<char>) -> Seq<char> {
    Seq::new(
        if body.len() < PREVIEW_CHARS {
            body.len()
        } else {
            PREVIEW_CHARS as nat
        },
        |i: int| flattened(body[i]),
    )
}

/// Cuts `body` down to a preview on one line.
pub fn preview(body: &str) -> (r: String)
    ensures
        r@ == preview_text(body@),
{
    let chars = chars_of(body);
    let mut out = String::new();
    let mut i: usize = 0;
    while i < chars.len() && i < PREVIEW_CHARS
        invariant
            chars@ == body@,
            i <= chars.len(),
            i <= PREVIEW_CHARS,
            out@.len() == i,
            forall|j: int| 0 <= j < i ==> out@[j] == flattened(body@[j]),
        decreases chars.len() - i,
    {
        let c = chars[i];
        if c == '\n' || c == '\t' {
            out.push(' ');
        } else {
            out.push(c);
        }
        i = i + 1;
    }
    assert(out@ =~= preview_text(body@));
    out
}

/// Whether `needle` stands in `hay` from position `at` on.
pub open spec fn occurs_at(hay: Seq<char>, needle: Seq<char>, at: int) -> bool {
    &&& 0 <= at
    &&& at + needle.len() <= hay.len()
    &&& forall|j: int| 0 <= j < needle.len() ==> hay[at + j] == #[trigger] needle[j]
}

/// Whether `needle` stands somewhere in `hay`.
pub open spec fn has_phrase(hay: Seq<char>, needle: Seq<char>) -> bool {
    exists|at: int| occurs_at(hay, needle, at)
}

fn stands_at(hay: &Vec<char>, needle: &Vec<char>, at: usize) -> (b: bool)
    requires
        at + needle.len() <= hay.len(),
    ensures
        b == occurs_at(hay@, needle@, at as int),
{
    let mut j: usize = 0;
    while j < needle.len()
        invariant
            j <= needle.len(),
            at + needle.len() <= hay.len(),
            forall|t: int| 0 <= t < j ==> hay@[at + t] == #[trigger] needle@[t],
        decreases needle.len() - j,
    {
        if hay[at + j] != needle[j] {
            assert(hay@[at + j] != needle@[j as int]);
            return false;
        }
        j = j + 1;
    }
    true
}

/// Looks for `needle` in `hay`.
pub fn find_phrase(hay: &Vec<char>, needle: &Vec<char>) -> (b: bool)
    ensures
        b == has_phrase(hay@, needle@),
{
    if needle.len() > hay.len() {
        return false;
    }
    let limit: usize = hay.len() - needle.len();
    let mut at: usize = 0;
    while at < limit
        invariant
            at <= limit,
            limit + needle.len() == hay.len(),
            forall|p: int| 0 <= p < at ==> !occurs_at(hay@, needle@, p),
        decreases limit - at,
    {
        if stands_at(hay, needle, at) {
            return true;
        }
        at = at + 1;
    }
    if stands_at(hay, needle, limit) {
        true
    } else {
        false
    }
}

/// Whether the text `needle` stands somewhere in the text `hay`.
pub fn contains_phrase(hay: &str, needle: &str) -> (b: bool)
    ensures
        b == has_phrase(hay@, needle@),
{
    let h = chars_of(hay);
    let n = chars_of(needle);
    find_phrase(&h, &n)
}

} // verus!
