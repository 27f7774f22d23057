//! Character-level text handling: whitespace tokens, lines, case-insensitive
//! search, decimal integers.
//!
//! Every function here works on sequences of characters. The specifications
//! are written by recursion on the last character, so that a scan from left to
//! right can carry "the result for the prefix read so far" as its invariant.
use vstd::prelude::*;

verus! {

/// `String::push` of the standard library: the string afterwards is the
/// string before with `c` appended.
pub assume_specification[ String::push ](s: &mut String, c: char)
    ensures
        final(s)@ == old(s)@.push(c),
;

/// What `String::from_utf8_lossy` makes of a byte sequence: the text it
/// encodes, with each invalid part replaced by U+FFFD.
pub uninterp spec fn lossy_text(bytes: Seq<u8>) -> Seq<char>;

/// `String::from_utf8_lossy` of the standard library, as an owned string.
/// Assumed: the text it gives depends on the bytes alone.
#[verifier::external_body]
pub(crate) fn decode_lossy(bytes: &[u8]) -> (r: String)
    ensures
        r@ == lossy_text(bytes@),
{
    String::from_utf8_lossy(bytes).into_owned()
}

/// The characters that separate tokens: the code points with the Unicode
/// property `White_Space`.
pub open spec fn is_whitespace(c: char) -> bool {
    let u = c as u32;
    ||| 0x09 <= u <= 0x0D
    ||| u == 0x20
    ||| u == 0x85
    ||| u == 0xA0
    ||| u == 0x1680
    ||| 0x2000 <= u <= 0x200A
    ||| u == 0x2028
    ||| u == 0x2029
    ||| u == 0x202F
    ||| u == 0x205F
    ||| u == 0x3000
}

/// The code point of `c` with the ASCII capital letters mapped to their small
/// forms. Two characters are equal up to ASCII case when their folded code
/// points are equal.
pub open spec fn folded(c: char) -> u32 {
    let u = c as u32;
    if 0x41 <= u <= 0x5A {
        (u + 0x20) as u32
    } else {
        u
    }
}

/// The whitespace-delimited tokens of `s`, in order: the maximal runs of
/// characters that are not whitespace.
pub open spec fn tokens(s: Seq<char>) -> Seq<Seq<char>>
    decreases s.len(),
{
    if s.len() == 0 {
        Seq::empty()
    } else {
        let before = tokens(s.drop_last());
        let c = s.last();
        if is_whitespace(c) {
            before
        } else if s.len() >= 2 && !is_whitespace(s[s.len() - 2]) {
            // `c` continues the token that the character before it belongs to
            before.drop_last().push(before.last().push(c))
        } else {
            before.push(seq![c])
        }
    }
}

/// The lines of `s`, in order, without their terminating `'\n'`. A final line
/// needs no terminator, and a terminator at the very end opens no further
/// line.
pub open spec fn lines(s: Seq<char>) -> Seq<Seq<char>>
    decreases s.len(),
{
    if s.len() == 0 {
        Seq::empty()
    } else {
        let before = lines(s.drop_last());
        let c = s.last();
        let opens_line = s.len() == 1 || s[s.len() - 2] == '\n';
        if c == '\n' {
            if opens_line {
                before.push(Seq::empty())
            } else {
                before
            }
        } else if opens_line {
            before.push(seq![c])
        } else {
            before.drop_last().push(before.last().push(c))
        }
    }
}

/// `parts` joined by single spaces.
pub open spec fn join_with_spaces(parts: Seq<Seq<char>>) -> Seq<char>
    decreases parts.len(),
{
    if parts.len() == 0 {
        Seq::empty()
    } else if parts.len() == 1 {
        parts[0]
    } else {
        join_with_spaces(parts.drop_last()) + seq![' '] + parts.last()
    }
}

/// Whether `needle` occurs in `hay` at index `at`, up to ASCII case.
pub open spec fn matches_at(hay: Seq<char>, at: int, needle: Seq<char>) -> bool {
    &&& 0 <= at
    &&& at + needle.len() <= hay.len()
    &&& forall|k: int|
        0 <= k < needle.len() ==> folded(hay[at + k]) == folded(#[trigger] needle[k])
}

/// Whether `needle` occurs somewhere in `hay`, up to ASCII case.
pub open spec fn contains_ignoring_case(hay: Seq<char>, needle: Seq<char>) -> bool {
    exists|at: int| matches_at(hay, at, needle)
}

/// Whether `a` and `b` are equal up to ASCII case.
pub open spec fn equal_ignoring_case(a: Seq<char>, b: Seq<char>) -> bool {
    &&& a.len() == b.len()
    &&& forall|k: int| 0 <= k < a.len() ==> folded(#[trigger] a[k]) == folded(b[k])
}

/// Whether `prefix` is a prefix of `s`.
pub open spec fn has_prefix(s: Seq<char>, prefix: Seq<char>) -> bool {
    prefix.len() <= s.len() && s.take(prefix.len() as int) == prefix
}

/// Whether `c` is one of the ten ASCII digits.
pub open spec fn is_digit(c: char) -> bool {
    0x30 <= c as u32 <= 0x39
}

/// Whether `s` holds nothing but digits.
pub open spec fn all_digits(s: Seq<char>) -> bool {
    forall|i: int| 0 <= i < s.len() ==> is_digit(#[trigger] s[i])
}

/// The number that a sequence of decimal digits denotes.
pub open spec fn digits_value(s: Seq<char>) -> int
    decreases s.len(),
{
    if s.len() == 0 {
        0
    } else {
        digits_value(s.drop_last()) * 10 + (s.last() as u32 - 0x30)
    }
}

/// The integer that `s` denotes in decimal notation, if it denotes one: an
/// optional sign `+` or `-`, then at least one digit, and nothing else.
pub open spec fn parse_integer(s: Seq<char>) -> Option<int> {
    if s.len() > 0 && (s[0] == '+' || s[0] == '-') {
        let digits = s.skip(1);
        if digits.len() > 0 && all_digits(digits) {
            Some(
                if s[0] == '-' {
                    -digits_value(digits)
                } else {
                    digits_value(digits)
                },
            )
        } else {
            None
        }
    } else if s.len() > 0 && all_digits(s) {
        Some(digits_value(s))
    } else {
        None
    }
}

/// The decimal digits of `n`, without leading zeros.
pub open spec fn decimal_digits(n: nat) -> Seq<char>
    decreases n,
{
    if n < 10 {
        seq![(0x30 + n) as char]
    } else {
        decimal_digits(n / 10).push((0x30 + n % 10) as char)
    }
}

/// `n` in decimal notation, with a leading `-` when it is negative.
pub open spec fn decimal(n: int) -> Seq<char> {
    if n < 0 {
        seq!['-'] + decimal_digits((-n) as nat)
    } else {
        decimal_digits(n as nat)
    }
}

/// The views of a sequence of character vectors.
pub open spec fn char_views(v: Seq<Vec<char>>) -> Seq<Seq<char>> {
    Seq::new(v.len(), |i: int| v[i]@)
}

/// The views of a sequence of strings.
pub open spec fn string_views(v: Seq<String>) -> Seq<Seq<char>> {
    Seq::new(v.len(), |i: int| v[i]@)
}

/// Every token holds at least one character and no whitespace, and a text
/// that ends with a character that is no whitespace ends with its last token.
pub proof fn lemma_tokens_shape(s: Seq<char>)
    ensures
        forall|i: int| 0 <= i < tokens(s).len() ==> (#[trigger] tokens(s)[i]).len() > 0,
        forall|i: int, j: int|
            0 <= i < tokens(s).len() && 0 <= j < tokens(s)[i].len() ==> !is_whitespace(
                #[trigger] tokens(s)[i][j],
            ),
        s.len() > 0 && !is_whitespace(s.last()) ==> tokens(s).len() > 0 && tokens(s).last().last()
            == s.last(),
    decreases s.len(),
{
    if s.len() > 0 {
        lemma_tokens_shape(s.drop_last());
        let before = tokens(s.drop_last());
        let c = s.last();
        if !is_whitespace(c) && s.len() >= 2 && !is_whitespace(s[s.len() - 2]) {
            assert(s.drop_last().last() == s[s.len() - 2]);
            let grown = before.last().push(c);
            assert(tokens(s) == before.drop_last().push(grown));
            assert forall|i: int, j: int|
                0 <= i < tokens(s).len() && 0 <= j < tokens(s)[i].len() implies !is_whitespace(
                #[trigger] tokens(s)[i][j],
            ) by {
                if i < before.len() - 1 {
                    assert(tokens(s)[i] == before[i]);
                } else if j < before.last().len() {
                    assert(tokens(s)[i][j] == before[before.len() - 1][j]);
                }
            }
        } else if !is_whitespace(c) {
            assert(tokens(s) == before.push(seq![c]));
            assert forall|i: int, j: int|
                0 <= i < tokens(s).len() && 0 <= j < tokens(s)[i].len() implies !is_whitespace(
                #[trigger] tokens(s)[i][j],
            ) by {
                if i < before.len() {
                    assert(tokens(s)[i] == before[i]);
                }
            }
        }
    }
}

/// The value of a sequence of digits is not negative, and does not fall when
/// a digit is appended.
pub proof fn lemma_digits_value_bounds(s: Seq<char>)
    requires
        all_digits(s),
    ensures
        0 <= digits_value(s),
        s.len() > 0 ==> digits_value(s.drop_last()) <= digits_value(s),
    decreases s.len(),
{
    if s.len() > 0 {
        assert(is_digit(s[s.len() - 1]));
        assert forall|i: int| 0 <= i < s.drop_last().len() implies is_digit(
            #[trigger] s.drop_last()[i],
        ) by {
            assert(s.drop_last()[i] == s[i]);
        }
        lemma_digits_value_bounds(s.drop_last());
    }
}

/// Whether `c` separates tokens.
pub fn whitespace(c: char) -> (r: bool)
    ensures
        r == is_whitespace(c),
{
    let u: u32 = c as u32;
    (0x09 <= u && u <= 0x0D) || u == 0x20 || u == 0x85 || u == 0xA0 || u == 0x1680 || (0x2000 <= u
        && u <= 0x200A) || u == 0x2028 || u == 0x2029 || u == 0x202F || u == 0x205F || u == 0x3000
}

/// The code point of `c`, or of its small form where `c` is an ASCII capital
/// letter.
pub fn fold(c: char) -> (r: u32)
    ensures
        r == folded(c),
{
    let u: u32 = c as u32;
    if 0x41 <= u && u <= 0x5A {
        u + 0x20
    } else {
        u
    }
}

/// The characters of a string slice.
pub fn chars_of(s: &str) -> (r: Vec<char>)
    ensures
        r@ == s@,
{
    let mut out: Vec<char> = Vec::new();
    for c in it: s.chars()
        invariant
            out@ == it.seq().take(it.index() as int),
            it.seq() == s@,
    {
        out.push(c);
    }
    out
}

/// The string made of the given characters.
pub fn string_of(chars: &Vec<char>) -> (r: String)
    ensures
        r@ == chars@,
{
    let mut out = String::new();
    let mut i: usize = 0;
    while i < chars.len()
        invariant
            i <= chars.len(),
            out@ == chars@.take(i as int),
        decreases chars.len() - i,
    {
        out.push(chars[i]);
        i += 1;
    }
    assert(chars@.take(chars.len() as int) == chars@);
    out
}

/// Splits `s` into its whitespace-delimited tokens.
pub fn split_tokens(s: &Vec<char>) -> (r: Vec<Vec<char>>)
    ensures
        char_views(r@) == tokens(s@),
{
    let mut done: Vec<Vec<char>> = Vec::new();
    let mut current: Vec<char> = Vec::new();
    let mut i: usize = 0;
    while i < s.len()
        invariant
            i <= s.len(),
            current@.len() > 0 <==> (i > 0 && !is_whitespace(s@[i - 1])),
            tokens(s@.take(i as int)) == if current@.len() > 0 {
                char_views(done@).push(current@)
            } else {
                char_views(done@)
            },
        decreases s.len() - i,
    {
        let c = s[i];
        let ghost read = s@.take(i as int);
        let ghost next = s@.take(i + 1);
        let ghost before = char_views(done@);
        let ghost token = current@;
        proof {
            assert(next.drop_last() =~= read);
            assert(next.last() == c);
            assert(i > 0 ==> next[next.len() - 2] == s@[i - 1]);
        }
        if whitespace(c) {
            if current.len() > 0 {
                done.push(current);
                current = Vec::new();
                proof {
                    assert(char_views(done@) =~= before.push(token));
                }
            }
        } else {
            current.push(c);
            proof {
                if token.len() > 0 {
                    assert(before.push(token).drop_last() =~= before);
                    assert(before.push(token).last() == token);
                } else {
                    assert(current@ =~= seq![c]);
                }
            }
        }
        i += 1;
    }
    let ghost before = char_views(done@);
    let ghost token = current@;
    proof {
        assert(s@.take(s.len() as int) =~= s@);
    }
    if current.len() > 0 {
        done.push(current);
        proof {
            assert(char_views(done@) =~= before.push(token));
        }
    }
    done
}

/// Splits `s` into its lines.
pub fn split_lines(s: &Vec<char>) -> (r: Vec<Vec<char>>)
    ensures
        char_views(r@) == lines(s@),
{
    let mut done: Vec<Vec<char>> = Vec::new();
    let mut current: Vec<char> = Vec::new();
    let mut open = false;
    let mut i: usize = 0;
    while i < s.len()
        invariant
            i <= s.len(),
            open <==> (i > 0 && s@[i - 1] != '\n'),
            !open ==> current@.len() == 0,
            lines(s@.take(i as int)) == if open {
                char_views(done@).push(current@)
            } else {
                char_views(done@)
            },
        decreases s.len() - i,
    {
        let c = s[i];
        let ghost read = s@.take(i as int);
        let ghost next = s@.take(i + 1);
        let ghost before = char_views(done@);
        let ghost line = current@;
        proof {
            assert(next.drop_last() =~= read);
            assert(next.last() == c);
            assert(i > 0 ==> next[next.len() - 2] == s@[i - 1]);
        }
        if c == '\n' {
            done.push(current);
            current = Vec::new();
            open = false;
            proof {
                assert(char_views(done@) =~= before.push(line));
                assert(line.len() == 0 ==> line =~= Seq::<char>::empty());
            }
        } else {
            current.push(c);
            proof {
                if open {
                    assert(before.push(line).drop_last() =~= before);
                    assert(before.push(line).last() == line);
                } else {
                    assert(current@ =~= seq![c]);
                }
            }
            open = true;
        }
        i += 1;
    }
    let ghost before = char_views(done@);
    let ghost line = current@;
    proof {
        assert(s@.take(s.len() as int) =~= s@);
    }
    if open {
        done.push(current);
        proof {
            assert(char_views(done@) =~= before.push(line));
        }
    }
    done
}

/// Joins `parts` by single spaces.
pub fn join(parts: &Vec<Vec<char>>) -> (r: Vec<char>)
    ensures
        r@ == join_with_spaces(char_views(parts@)),
{
    let ghost all = char_views(parts@);
    let mut out: Vec<char> = Vec::new();
    let mut i: usize = 0;
    while i < parts.len()
        invariant
            i <= parts.len(),
            all == char_views(parts@),
            out@ == join_with_spaces(all.take(i as int)),
        decreases parts.len() - i,
    {
        proof {
            assert(all.take(i + 1).drop_last() =~= all.take(i as int));
            assert(all.take(i + 1).last() == parts@[i as int]@);
        }
        if i > 0 {
            out.push(' ');
        }
        let part = &parts[i];
        let mut k: usize = 0;
        let ghost before = out@;
        while k < part.len()
            invariant
                k <= part.len(),
                out@ == before + part@.take(k as int),
            decreases part.len() - k,
        {
            out.push(part[k]);
            k += 1;
        }
        proof {
            assert(part@.take(part.len() as int) =~= part@);
        }
        i += 1;
    }
    proof {
        assert(all.take(parts.len() as int) =~= all);
    }
    out
}

/// Whether `needle` occurs in `hay`, up to ASCII case.
pub fn contains_folded(hay: &Vec<char>, needle: &Vec<char>) -> (r: bool)
    ensures
        r == contains_ignoring_case(hay@, needle@),
{
    if needle.len() > hay.len() {
        return false;
    }
    let last: usize = hay.len() - needle.len();
    let mut at: usize = 0;
    while at <= last
        invariant
            last == hay.len() - needle.len(),
            at <= last + 1,
            forall|a: int| 0 <= a < at ==> !matches_at(hay@, a, needle@),
        decreases last + 1 - at,
    {
        let mut k: usize = 0;
        while k < needle.len() && fold(hay[at + k]) == fold(needle[k])
            invariant
                at <= last,
                last == hay.len() - needle.len(),
                k <= needle.len(),
                forall|j: int| 0 <= j < k ==> folded(hay@[at + j]) == folded(#[trigger] needle@[j]),
            decreases needle.len() - k,
        {
            k += 1;
        }
        if k == needle.len() {
            assert(matches_at(hay@, at as int, needle@));
            return true;
        }
        at += 1;
    }
    false
}

/// Whether the two vectors hold the same characters.
pub fn same_chars(a: &Vec<char>, b: &Vec<char>) -> (r: bool)
    ensures
        r == (a@ == b@),
{
    if a.len() != b.len() {
        return false;
    }
    let mut i: usize = 0;
    while i < a.len()
        invariant
            a.len() == b.len(),
            i <= a.len(),
            a@.take(i as int) == b@.take(i as int),
        decreases a.len() - i,
    {
        if a[i] != b[i] {
            return false;
        }
        proof {
            assert(a@.take(i + 1) =~= a@.take(i as int).push(a@[i as int]));
            assert(b@.take(i + 1) =~= b@.take(i as int).push(b@[i as int]));
        }
        i += 1;
    }
    proof {
        assert(a@.take(a.len() as int) =~= a@);
        assert(b@.take(b.len() as int) =~= b@);
    }
    true
}

/// Whether `s` begins with `prefix`.
pub fn starts_with(s: &Vec<char>, prefix: &Vec<char>) -> (r: bool)
    ensures
        r == has_prefix(s@, prefix@),
{
    if prefix.len() > s.len() {
        return false;
    }
    let mut i: usize = 0;
    while i < prefix.len()
        invariant
            prefix.len() <= s.len(),
            i <= prefix.len(),
            s@.take(i as int) == prefix@.take(i as int),
        decreases prefix.len() - i,
    {
        if s[i] != prefix[i] {
            proof {
                assert(s@.take(prefix.len() as int)[i as int] != prefix@[i as int]);
            }
            return false;
        }
        proof {
            assert(s@.take(i + 1) =~= s@.take(i as int).push(s@[i as int]));
            assert(prefix@.take(i + 1) =~= prefix@.take(i as int).push(prefix@[i as int]));
        }
        i += 1;
    }
    proof {
        assert(prefix@.take(prefix.len() as int) =~= prefix@);
    }
    true
}

} // verus!
