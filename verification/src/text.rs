//! Character-level text helpers shared by the probe generator.

use vstd::prelude::*;
use vstd::string::StringSliceAdditionalSpecFns;

verus! {

/// Appends one character to a string, through `String::push`. The contract claims that the
/// string gains `c` at its end and is otherwise unchanged.
#[verifier::external_body]
pub(crate) fn push_char(s: &mut String, c: char)
    ensures
        final(s)@ == old(s)@.push(c),
{
    s.push(c);
}

/// The characters of `s`, in order.
pub fn chars_of(s: &str) -> (v: Vec<char>)
    ensures
        v@ == s@,
{
    let mut v: Vec<char> = Vec::new();
    for c in it: s.chars()
        invariant
            v@ == it.seq().take(it.index() as int),
    {
        v.push(c);
    }
    v
}


/// The string whose characters are `v`.
pub fn string_of(v: &Vec<char>) -> (s: String)
    ensures
        s@ == v@,
{
    let mut s = String::new();
    for i in 0..v.len()
        invariant
            s@ == v@.take(i as int),
    {
        push_char(&mut s, v[i]);
        assert(v@.take(i + 1) == v@.take(i as int).push(v@[i as int]));
    }
    assert(v@.take(v@.len() as int) == v@);
    s
}

/// Whether two strings hold the same characters.
pub fn str_eq(a: &str, b: &str) -> (r: bool)
    ensures
        r == (a@ == b@),
{
    let x = a.as_bytes();
    let y = b.as_bytes();
    proof {
        vstd::utf8::encode_utf8_decode_utf8(a@);
        vstd::utf8::encode_utf8_decode_utf8(b@);
    }
    if x.len() != y.len() {
        return false;
    }
    for i in 0..x.len()
        invariant
            x@.len() == y@.len(),
            x@ == a.spec_bytes(),
            y@ == b.spec_bytes(),
            forall|j: int| 0 <= j < i ==> x@[j] == y@[j],
    {
        if x[i] != y[i] {
            return false;
        }
    }
    assert(x@ == y@);
    true
}

/// Whether `s` holds the character `c`.
pub fn holds_char(s: &str, c: char) -> (r: bool)
    ensures
        r == s@.contains(c),
{
    let cs = chars_of(s);
    for i in 0..cs.len()
        invariant
            cs@ == s@,
            forall|j: int| 0 <= j < i ==> cs@[j] != c,
    {
        if cs[i] == c {
            return true;
        }
    }
    false
}

/// Decimal digits of `n`, most significant first, as `format!("{}")` writes a number.
pub open spec fn decimal(n: nat) -> Seq<char>
    decreases n,
{
    if n < 10 {
        seq![digit_char(n)]
    } else {
        decimal(n / 10).push(digit_char(n % 10))
    }
}

pub open spec fn digit_char(d: nat) -> char {
    if d == 0 { '0' } else if d == 1 { '1' } else if d == 2 { '2' } else if d == 3 { '3' }
    else if d == 4 { '4' } else if d == 5 { '5' } else if d == 6 { '6' } else if d == 7 { '7' }
    else if d == 8 { '8' } else { '9' }
}

fn digit(d: usize) -> (c: char)
    requires
        d < 10,
    ensures
        c == digit_char(d as nat),
{
    if d == 0 { '0' } else if d == 1 { '1' } else if d == 2 { '2' } else if d == 3 { '3' }
    else if d == 4 { '4' } else if d == 5 { '5' } else if d == 6 { '6' } else if d == 7 { '7' }
    else if d == 8 { '8' } else { '9' }
}

/// Appends the decimal rendering of `n` to `out`.
pub fn push_decimal(out: &mut String, n: usize)
    ensures
        final(out)@ == old(out)@ + decimal(n as nat),
    decreases n,
{
    if n < 10 {
        push_char(out, digit(n));
    } else {
        push_decimal(out, n / 10);
        push_char(out, digit(n % 10));
    }
}


/// `pat` occurs in `s` starting at index `k`.
pub open spec fn occurs_at(s: Seq<char>, pat: Seq<char>, k: int) -> bool {
    0 <= k && k + pat.len() <= s.len() && s.subrange(k, k + pat.len()) == pat
}

/// The first index `k` with `lo <= k` whose occurrence of `pat` ends by `hi`, as `str::find`
/// reports it on the slice `s[lo..hi]` (shifted by `lo`).
pub open spec fn find_in(s: Seq<char>, lo: int, hi: int, pat: Seq<char>) -> Option<int>
    decreases hi - lo + 1,
{
    if lo < 0 || hi > s.len() || lo + pat.len() > hi {
        None
    } else if occurs_at(s, pat, lo) {
        Some(lo)
    } else {
        find_in(s, lo + 1, hi, pat)
    }
}

/// `s[lo..hi]` contains `pat`.
pub open spec fn contains_in(s: Seq<char>, lo: int, hi: int, pat: Seq<char>) -> bool {
    find_in(s, lo, hi, pat) is Some
}

proof fn lemma_find_in_none(s: Seq<char>, lo: int, hi: int, pat: Seq<char>)
    requires
        0 <= lo,
        hi <= s.len(),
        forall|k: int| lo <= k && k + pat.len() <= hi ==> !occurs_at(s, pat, k),
    ensures
        find_in(s, lo, hi, pat) is None,
    decreases hi - lo + 1,
{
    if lo + pat.len() <= hi {
        lemma_find_in_none(s, lo + 1, hi, pat);
    }
}

proof fn lemma_find_in_some(s: Seq<char>, lo: int, hi: int, pat: Seq<char>, k: int)
    requires
        0 <= lo <= k,
        k + pat.len() <= hi <= s.len(),
        occurs_at(s, pat, k),
        forall|j: int| lo <= j < k ==> !occurs_at(s, pat, j),
    ensures
        find_in(s, lo, hi, pat) == Some(k),
    decreases k - lo,
{
    if lo < k {
        lemma_find_in_some(s, lo + 1, hi, pat, k);
    }
}

/// Whether `pat` occurs in `s` at index `k`.
pub fn matches_at(s: &Vec<char>, pat: &Vec<char>, k: usize) -> (r: bool)
    requires
        k <= s@.len(),
    ensures
        r == occurs_at(s@, pat@, k as int),
{
    if pat.len() > s.len() - k {
        return false;
    }
    let n = s.len();
    let mut j: usize = 0;
    while j < pat.len()
        invariant
            n == s@.len(),
            k + pat@.len() <= s@.len(),
            j <= pat@.len(),
            forall|i: int| 0 <= i < j ==> s@[k + i] == pat@[i],
        decreases pat@.len() - j,
    {
        assert(k + j < s@.len());
        if s[k + j] != pat[j] {
            assert(s@.subrange(k as int, k + pat@.len())[j as int] != pat@[j as int]);
            return false;
        }
        j += 1;
    }
    assert(s@.subrange(k as int, k + pat@.len()) =~= pat@);
    true
}

/// The first occurrence of `pat` within `s[lo..hi]`, as an index into `s`.
pub fn find_within(s: &Vec<char>, lo: usize, hi: usize, pat: &Vec<char>) -> (r: Option<usize>)
    requires
        lo <= hi <= s@.len(),
    ensures
        r == (match find_in(s@, lo as int, hi as int, pat@) {
            Some(k) => Some(k as usize),
            None => None::<usize>,
        }),
        r matches Some(k) ==> lo <= k && k + pat@.len() <= hi,
{
    if pat.len() > hi - lo {
        proof { lemma_find_in_none(s@, lo as int, hi as int, pat@); }
        return None;
    }
    if pat.len() == 0 {
        assert(s@.subrange(lo as int, lo as int) =~= pat@);
        return Some(lo);
    }
    let last = hi - pat.len();
    let n = s.len();
    let mut k = lo;
    while k <= last
        invariant
            n == s@.len(),
            pat@.len() > 0,
            lo <= k <= last + 1,
            last + pat@.len() == hi,
            hi <= s@.len(),
            forall|j: int| lo <= j < k ==> !occurs_at(s@, pat@, j),
        decreases last + 1 - k,
    {
        if matches_at(s, pat, k) {
            proof { lemma_find_in_some(s@, lo as int, hi as int, pat@, k as int); }
            return Some(k);
        }
        k += 1;
    }
    proof { lemma_find_in_none(s@, lo as int, hi as int, pat@); }
    None
}


/// A character that can continue a Rust identifier, for telling a whole name from part of a
/// longer one: an ASCII letter or digit, `_`, or any character outside ASCII.
pub open spec fn is_ident_char(c: char) -> bool {
    ||| 'a' <= c <= 'z'
    ||| 'A' <= c <= 'Z'
    ||| '0' <= c <= '9'
    ||| c == '_'
    ||| c >= '\u{80}'
}

/// Whether `c` can continue an identifier (see [`is_ident_char`]).
pub fn ident_char(c: char) -> (r: bool)
    ensures
        r == is_ident_char(c),
{
    ('a' <= c && c <= 'z') || ('A' <= c && c <= 'Z') || ('0' <= c && c <= '9') || c == '_' || c >= '\u{80}'
}

/// What `char::is_alphanumeric` answers for a character: whether it has the Unicode
/// `Alphabetic` or `Numeric` property.
pub uninterp spec fn alphanumeric(c: char) -> bool;

/// `char::is_alphanumeric`. The contract claims only that the answer is a function of the
/// character.
#[verifier::external_body]
fn is_alphanumeric(c: char) -> (r: bool)
    ensures
        r == alphanumeric(c),
{
    c.is_alphanumeric()
}

/// A character that counts as part of a word when renaming: `_`, or an alphanumeric
/// character (for ASCII, a letter or a digit; beyond ASCII, what `char::is_alphanumeric`
/// says).
pub open spec fn is_word_char(c: char) -> bool {
    if c <= '\u{7f}' {
        ('a' <= c <= 'z') || ('A' <= c <= 'Z') || ('0' <= c <= '9') || c == '_'
    } else {
        alphanumeric(c)
    }
}

/// Whether `c` is a word character (see [`is_word_char`]).
pub fn word_char(c: char) -> (r: bool)
    ensures
        r == is_word_char(c),
{
    if c <= '\u{7f}' {
        ('a' <= c && c <= 'z') || ('A' <= c && c <= 'Z') || ('0' <= c && c <= '9') || c == '_'
    } else {
        is_alphanumeric(c)
    }
}

/// The end of the run of word characters that continues at `j`: the first index from `j` on
/// that is past the end or holds a character outside words.
pub open spec fn word_end(cs: Seq<char>, j: int) -> int
    decreases cs.len() - j,
{
    if j < 0 || j >= cs.len() || !is_word_char(cs[j]) {
        j
    } else {
        word_end(cs, j + 1)
    }
}

pub proof fn lemma_word_end(cs: Seq<char>, j: int)
    requires
        0 <= j,
    ensures
        j <= word_end(cs, j),
        word_end(cs, j) <= cs.len() || word_end(cs, j) == j,
        forall|k: int| j <= k < word_end(cs, j) ==> is_word_char(#[trigger] cs[k]),
        word_end(cs, j) < cs.len() ==> !is_word_char(cs[word_end(cs, j)]),
    decreases cs.len() - j,
{
    if j < cs.len() && is_word_char(cs[j]) {
        lemma_word_end(cs, j + 1);
    }
}

/// The characters that renaming produces from `cs[i..]`: each maximal run of word characters
/// is replaced by `to` when it equals `from` and kept otherwise; every other character is
/// kept.
pub open spec fn renamed(cs: Seq<char>, i: int, from: Seq<char>, to: Seq<char>) -> Seq<char>
    decreases cs.len() - i,
{
    if i < 0 || i >= cs.len() {
        seq![]
    } else if is_word_char(cs[i]) {
        let j = word_end(cs, i + 1);
        proof {
            lemma_word_end(cs, i + 1);
        }
        let w = cs.subrange(i, j);
        (if w == from { to } else { w }) + renamed(cs, j, from, to)
    } else {
        seq![cs[i]] + renamed(cs, i + 1, from, to)
    }
}

/// Whether `v[lo..hi]` equals `other`.
fn chars_eq_range(v: &Vec<char>, lo: usize, hi: usize, other: &Vec<char>) -> (r: bool)
    requires
        lo <= hi <= v@.len(),
    ensures
        r == (v@.subrange(lo as int, hi as int) == other@),
{
    if hi - lo != other.len() {
        return false;
    }
    let mut k: usize = 0;
    while k < other.len()
        invariant
            lo <= hi <= v@.len(),
            hi - lo == other@.len(),
            k <= other@.len(),
            forall|m: int| 0 <= m < k ==> v@[lo + m] == other@[m],
        decreases other@.len() - k,
    {
        if v[lo + k] != other[k] {
            assert(v@.subrange(lo as int, hi as int)[k as int] != other@[k as int]);
            return false;
        }
        k += 1;
    }
    assert(v@.subrange(lo as int, hi as int) =~= other@);
    true
}

/// Appends `v[lo..hi]` to `out`.
fn push_range(out: &mut Vec<char>, v: &Vec<char>, lo: usize, hi: usize)
    requires
        lo <= hi <= v@.len(),
    ensures
        final(out)@ == old(out)@ + v@.subrange(lo as int, hi as int),
{
    let ghost start = out@;
    let mut k = lo;
    while k < hi
        invariant
            lo <= k <= hi <= v@.len(),
            out@ == start + v@.subrange(lo as int, k as int),
        decreases hi - k,
    {
        out.push(v[k]);
        assert(v@.subrange(lo as int, k + 1) =~= v@.subrange(lo as int, k as int).push(v@[k as int]));
        k += 1;
    }
}

/// Renames every whole word of `src` equal to `from` to `to`: identifiers that merely contain
/// `from` are left untouched, and so is every other character.
pub fn rename_word(src: &str, from: &str, to: &str) -> (r: String)
    ensures
        r@ == renamed(src@, 0, from@, to@),
{
    let cs = chars_of(src);
    let fc = chars_of(from);
    let tc = chars_of(to);
    let n = cs.len();
    let mut out: Vec<char> = Vec::new();
    let mut i: usize = 0;
    assert(out@ + renamed(cs@, 0, from@, to@) =~= renamed(cs@, 0, from@, to@));
    while i < n
        invariant
            n == cs@.len(),
            cs@ == src@,
            fc@ == from@,
            tc@ == to@,
            i <= n,
            out@ + renamed(cs@, i as int, from@, to@) == renamed(cs@, 0, from@, to@),
        decreases n - i,
    {
        let ghost before = out@;
        if word_char(cs[i]) {
            let mut j = i + 1;
            while j < n && word_char(cs[j])
                invariant
                    i < j <= n,
                    n == cs@.len(),
                    word_end(cs@, i + 1) == word_end(cs@, j as int),
                decreases n - j,
            {
                j += 1;
            }
            assert(word_end(cs@, j as int) == j);
            if chars_eq_range(&cs, i, j, &fc) {
                push_range(&mut out, &tc, 0, tc.len());
                assert(tc@.subrange(0, tc@.len() as int) =~= tc@);
            } else {
                push_range(&mut out, &cs, i, j);
            }
            assert(out@ + renamed(cs@, j as int, from@, to@) =~= before + renamed(cs@, i as int, from@, to@));
            i = j;
        } else {
            out.push(cs[i]);
            assert(out@ + renamed(cs@, i + 1, from@, to@) =~= before + renamed(cs@, i as int, from@, to@));
            i += 1;
        }
    }
    assert(out@ =~= renamed(cs@, 0, from@, to@));
    string_of(&out)
}

/// Unicode `White_Space`, the characters that `str::trim` removes.
pub open spec fn is_white_space(c: char) -> bool {
    ||| '\u{9}' <= c <= '\u{d}'
    ||| c == ' ' || c == '\u{85}' || c == '\u{a0}' || c == '\u{1680}'
    ||| '\u{2000}' <= c <= '\u{200a}'
    ||| c == '\u{2028}' || c == '\u{2029}' || c == '\u{202f}' || c == '\u{205f}' || c == '\u{3000}'
}

/// Whether `c` is white space (see [`is_white_space`]).
pub fn white_space(c: char) -> (r: bool)
    ensures
        r == is_white_space(c),
{
    ('\u{9}' <= c && c <= '\u{d}') || c == ' ' || c == '\u{85}' || c == '\u{a0}' || c
        == '\u{1680}' || ('\u{2000}' <= c && c <= '\u{200a}') || c == '\u{2028}' || c
        == '\u{2029}' || c == '\u{202f}' || c == '\u{205f}' || c == '\u{3000}'
}

/// `cs` without its leading white space.
pub open spec fn trim_start(cs: Seq<char>) -> Seq<char>
    decreases cs.len(),
{
    if cs.len() > 0 && is_white_space(cs[0]) {
        trim_start(cs.drop_first())
    } else {
        cs
    }
}

/// `cs` without its trailing white space.
pub open spec fn trim_end(cs: Seq<char>) -> Seq<char>
    decreases cs.len(),
{
    if cs.len() > 0 && is_white_space(cs.last()) {
        trim_end(cs.drop_last())
    } else {
        cs
    }
}

/// `cs` without leading or trailing white space, as `str::trim` returns it.
pub open spec fn trim(cs: Seq<char>) -> Seq<char> {
    trim_end(trim_start(cs))
}

/// How an opening or closing bracket moves the nesting depth.
pub open spec fn depth_step(c: char) -> int {
    if c == '(' || c == '[' || c == '{' {
        1
    } else if c == ')' || c == ']' || c == '}' {
        -1
    } else {
        0
    }
}

/// Where a scan of Rust tokens stands: in code, or inside a literal, where commas and
/// brackets are text. A `'` opens either a character literal or a lifetime; which one shows
/// only at the character after next, so the scan holds the first character in
/// `CharOne` until then.
pub enum Lex {
    Code,
    /// Inside `"..."`.
    Str,
    /// Just after a backslash inside `"..."`.
    StrEsc,
    /// After an `r` and this many `#`: a raw string begins if a `"` follows.
    MaybeRaw(nat),
    /// Inside a raw string opened with this many `#`.
    Raw(nat),
    /// Inside a raw string opened with `.0` hashes, after its `"` and `.1` of them.
    RawClose(nat, nat),
    /// Just after a `'` read as code.
    CharStart,
    /// After a `'` and one character that is not a backslash.
    CharOne,
    /// After `'` and a backslash.
    CharEsc,
    /// Inside an escaped character literal, after the escaped character.
    CharBody,
}

/// Whether the scan in state `st` reads `c` as code: always in code, and after an `r` or a
/// one-character `'x` that `c` shows to have been no literal after all.
pub open spec fn reads_code(st: Lex, c: char) -> bool {
    match st {
        Lex::Code => true,
        Lex::MaybeRaw(_) => c != '#' && c != '"',
        Lex::CharOne => c != '\'',
        _ => false,
    }
}

/// The state after reading `c` as code.
pub open spec fn code_next(c: char) -> Lex {
    if c == '"' {
        Lex::Str
    } else if c == '\'' {
        Lex::CharStart
    } else if c == 'r' {
        Lex::MaybeRaw(0)
    } else {
        Lex::Code
    }
}

/// The state after reading `c` in state `st`.
pub open spec fn lex_next(st: Lex, c: char) -> Lex {
    if reads_code(st, c) {
        code_next(c)
    } else {
        match st {
            Lex::Str => if c == '\\' { Lex::StrEsc } else if c == '"' { Lex::Code } else { Lex::Str },
            Lex::StrEsc => Lex::Str,
            Lex::MaybeRaw(n) => if c == '#' { Lex::MaybeRaw(n + 1) } else { Lex::Raw(n) },
            Lex::Raw(n) => if c != '"' { Lex::Raw(n) } else if n == 0 { Lex::Code } else { Lex::RawClose(n, 0) },
            Lex::RawClose(n, m) => if c == '#' {
                if m + 1 == n { Lex::Code } else { Lex::RawClose(n, m + 1) }
            } else if c == '"' {
                Lex::RawClose(n, 0)
            } else {
                Lex::Raw(n)
            },
            Lex::CharStart => if c == '\\' { Lex::CharEsc } else { Lex::CharOne },
            Lex::CharOne => Lex::Code,
            Lex::CharEsc => Lex::CharBody,
            Lex::CharBody => if c == '\'' { Lex::Code } else { Lex::CharBody },
            Lex::Code => Lex::Code,
        }
    }
}

/// How reading `c` in state `st` moves the nesting depth: brackets count in code only.
pub open spec fn lex_depth(st: Lex, c: char) -> int {
    if reads_code(st, c) { depth_step(c) } else { 0 }
}

/// Whether index `k` of `cs` holds a comma that splits the token string: read as code at
/// nesting depth 0.
pub open spec fn splits_at(cs: Seq<char>, k: int, st: Lex, depth: int) -> bool {
    reads_code(st, cs[k]) && cs[k] == ',' && depth == 0
}

/// The index of the first splitting `,` from `k` on, where the scan stands in state `st` at
/// nesting `depth`; the length of `cs` when there is none. A comma inside brackets, or inside
/// a string, raw string or character literal, does not split.
pub open spec fn top_comma_from(cs: Seq<char>, k: int, st: Lex, depth: int) -> int
    decreases cs.len() - k,
{
    if k < 0 || k >= cs.len() {
        cs.len() as int
    } else if splits_at(cs, k, st, depth) {
        k
    } else {
        top_comma_from(cs, k + 1, lex_next(st, cs[k]), depth + lex_depth(st, cs[k]))
    }
}

/// The scan of `cs` from `k` meets no splitting comma and ends in code at depth 0: every
/// literal and bracket it opens is closed.
pub open spec fn scan_closes(cs: Seq<char>, k: int, st: Lex, depth: int) -> bool
    decreases cs.len() - k,
{
    if k < 0 || k >= cs.len() {
        st == Lex::Code && depth == 0
    } else if splits_at(cs, k, st, depth) {
        false
    } else {
        scan_closes(cs, k + 1, lex_next(st, cs[k]), depth + lex_depth(st, cs[k]))
    }
}

/// The first comma-separated element of `cs`, trimmed: the text before the first `,` that
/// stands neither inside brackets nor inside a literal.
pub open spec fn first_element(cs: Seq<char>) -> Seq<char> {
    trim(cs.take(top_comma_from(cs, 0, Lex::Code, 0)))
}

proof fn lemma_trim_start(cs: Seq<char>, a: int)
    requires
        0 <= a <= cs.len(),
        forall|k: int| 0 <= k < a ==> is_white_space(#[trigger] cs[k]),
        a == cs.len() || !is_white_space(cs[a]),
    ensures
        trim_start(cs) == cs.subrange(a, cs.len() as int),
    decreases a,
{
    if a > 0 {
        assert forall|k: int| 0 <= k < a - 1 implies is_white_space(#[trigger] cs.drop_first()[k]) by {
            assert(cs.drop_first()[k] == cs[k + 1]);
        }
        lemma_trim_start(cs.drop_first(), a - 1);
        assert(cs.drop_first().subrange(a - 1, cs.len() - 1) =~= cs.subrange(a, cs.len() as int));
    } else {
        assert(cs.subrange(0, cs.len() as int) =~= cs);
    }
}

proof fn lemma_trim_end(cs: Seq<char>, z: int)
    requires
        0 <= z <= cs.len(),
        forall|k: int| z <= k < cs.len() ==> is_white_space(#[trigger] cs[k]),
        z == 0 || !is_white_space(cs[z - 1]),
    ensures
        trim_end(cs) == cs.subrange(0, z),
    decreases cs.len() - z,
{
    if z < cs.len() {
        assert forall|k: int| z <= k < cs.len() - 1 implies is_white_space(#[trigger] cs.drop_last()[k]) by {
            assert(cs.drop_last()[k] == cs[k]);
        }
        lemma_trim_end(cs.drop_last(), z);
        assert(cs.drop_last().subrange(0, z) =~= cs.subrange(0, z));
    } else {
        assert(cs.subrange(0, cs.len() as int) =~= cs);
    }
}

/// The characters `v[lo..hi]` with white space trimmed from both ends.
pub fn trimmed_range(v: &Vec<char>, lo: usize, hi: usize) -> (r: Vec<char>)
    requires
        lo <= hi <= v@.len(),
    ensures
        r@ == trim(v@.subrange(lo as int, hi as int)),
{
    let ghost cs = v@.subrange(lo as int, hi as int);
    let mut a = lo;
    while a < hi && white_space(v[a])
        invariant
            lo <= a <= hi <= v@.len(),
            forall|k: int| lo <= k < a ==> is_white_space(#[trigger] v@[k]),
        decreases hi - a,
    {
        a += 1;
    }
    let mut z = hi;
    while z > a && white_space(v[z - 1])
        invariant
            a <= z <= hi <= v@.len(),
            forall|k: int| z <= k < hi ==> is_white_space(#[trigger] v@[k]),
        decreases z,
    {
        z -= 1;
    }
    proof {
        assert forall|k: int| 0 <= k < a - lo implies is_white_space(#[trigger] cs[k]) by {
            assert(cs[k] == v@[lo + k]);
        }
        lemma_trim_start(cs, a - lo);
        let ts = cs.subrange(a - lo, cs.len() as int);
        assert(ts =~= v@.subrange(a as int, hi as int));
        assert forall|k: int| z - a <= k < ts.len() implies is_white_space(#[trigger] ts[k]) by {
            assert(ts[k] == v@[a + k]);
        }
        lemma_trim_end(ts, z - a);
        assert(ts.subrange(0, z - a) =~= v@.subrange(a as int, z as int));
    }
    let mut r: Vec<char> = Vec::new();
    let mut k = a;
    while k < z
        invariant
            a <= k <= z <= v@.len(),
            r@ =~= v@.subrange(a as int, k as int),
        decreases z - k,
    {
        r.push(v[k]);
        k += 1;
    }
    r
}

/// The executable scan state (see [`Lex`]).
#[derive(Clone, Copy)]
pub enum LexState {
    Code,
    Str,
    StrEsc,
    MaybeRaw(usize),
    Raw(usize),
    RawClose(usize, usize),
    CharStart,
    CharOne,
    CharEsc,
    CharBody,
}

impl View for LexState {
    type V = Lex;

    open spec fn view(&self) -> Lex {
        match *self {
            LexState::Code => Lex::Code,
            LexState::Str => Lex::Str,
            LexState::StrEsc => Lex::StrEsc,
            LexState::MaybeRaw(n) => Lex::MaybeRaw(n as nat),
            LexState::Raw(n) => Lex::Raw(n as nat),
            LexState::RawClose(n, m) => Lex::RawClose(n as nat, m as nat),
            LexState::CharStart => Lex::CharStart,
            LexState::CharOne => Lex::CharOne,
            LexState::CharEsc => Lex::CharEsc,
            LexState::CharBody => Lex::CharBody,
        }
    }
}

/// The counts of a scan state after `k` characters are at most `k`, and a raw string's
/// closing hashes fall short of its opening ones.
pub open spec fn lex_within(st: LexState, k: int) -> bool {
    match st {
        LexState::MaybeRaw(n) => n <= k,
        LexState::Raw(n) => n <= k,
        LexState::RawClose(n, m) => m < n && n <= k,
        _ => true,
    }
}

/// Whether the scan reads `c` as code (see [`reads_code`]).
fn code_read(st: LexState, c: char) -> (r: bool)
    ensures
        r == reads_code(st@, c),
{
    match st {
        LexState::Code => true,
        LexState::MaybeRaw(_) => c != '#' && c != '"',
        LexState::CharOne => c != '\'',
        _ => false,
    }
}

/// The state after the `k`-th character `c` (see [`lex_next`]).
fn lex_step(st: LexState, c: char, k: usize) -> (r: LexState)
    requires
        lex_within(st, k as int),
        k < usize::MAX,
    ensures
        r@ == lex_next(st@, c),
        lex_within(r, k + 1),
{
    if code_read(st, c) {
        return if c == '"' {
            LexState::Str
        } else if c == '\'' {
            LexState::CharStart
        } else if c == 'r' {
            LexState::MaybeRaw(0)
        } else {
            LexState::Code
        };
    }
    match st {
        LexState::Str => if c == '\\' { LexState::StrEsc } else if c == '"' { LexState::Code } else { LexState::Str },
        LexState::StrEsc => LexState::Str,
        LexState::MaybeRaw(n) => if c == '#' { LexState::MaybeRaw(n + 1) } else { LexState::Raw(n) },
        LexState::Raw(n) => if c != '"' { LexState::Raw(n) } else if n == 0 { LexState::Code } else { LexState::RawClose(n, 0) },
        LexState::RawClose(n, m) => if c == '#' {
            if m + 1 == n { LexState::Code } else { LexState::RawClose(n, m + 1) }
        } else if c == '"' {
            LexState::RawClose(n, 0)
        } else {
            LexState::Raw(n)
        },
        LexState::CharStart => if c == '\\' { LexState::CharEsc } else { LexState::CharOne },
        LexState::CharOne => LexState::Code,
        LexState::CharEsc => LexState::CharBody,
        LexState::CharBody => if c == '\'' { LexState::Code } else { LexState::CharBody },
        LexState::Code => LexState::Code,
    }
}

/// The first comma-separated element of `raw`, trimmed, so `pred, "msg"` yields `pred`; a
/// comma nested inside brackets, as in `f(a, b)`, or inside a literal, as in `s == "a,b"`,
/// does not split.
pub fn first_expr(raw: &str) -> (r: String)
    ensures
        r@ == first_element(raw@),
{
    let cs = chars_of(raw);
    let n = cs.len();
    let mut opens: usize = 0;
    let mut closes: usize = 0;
    let mut st = LexState::Code;
    let mut k: usize = 0;
    while k < n
        invariant
            n == cs@.len(),
            k <= n,
            opens + closes <= k,
            lex_within(st, k as int),
            top_comma_from(cs@, 0, Lex::Code, 0) == top_comma_from(cs@, k as int, st@, opens - closes),
        ensures
            k <= n,
            top_comma_from(cs@, 0, Lex::Code, 0) == k,
        decreases n - k,
    {
        let c = cs[k];
        let code = code_read(st, c);
        if code && c == ',' && opens == closes {
            break;
        }
        if code && (c == '(' || c == '[' || c == '{') {
            opens += 1;
        } else if code && (c == ')' || c == ']' || c == '}') {
            closes += 1;
        }
        st = lex_step(st, c, k);
        k += 1;
    }
    assert(cs@.take(k as int) == cs@.subrange(0, k as int));
    string_of(&trimmed_range(&cs, 0, k))
}

} // verus!
