//! Text as sequences of characters: trimming, splitting at white space,
//! replacing, decimal numbers and case.

use vstd::prelude::*;

verus! {

/// The characters with the Unicode property `White_Space`.
pub open spec fn is_white_space(c: char) -> bool {
    ||| 0x9 <= c as u32 <= 0xd
    ||| c as u32 == 0x20
    ||| c as u32 == 0x85
    ||| c as u32 == 0xa0
    ||| c as u32 == 0x1680
    ||| 0x2000 <= c as u32 <= 0x200a
    ||| c as u32 == 0x2028
    ||| c as u32 == 0x2029
    ||| c as u32 == 0x202f
    ||| c as u32 == 0x205f
    ||| c as u32 == 0x3000
}

/// Tells whether `c` has the Unicode property `White_Space`.
pub fn white_space(c: char) -> (r: bool)
    ensures
        r == is_white_space(c),
{
    let u: u32 = c as u32;
    (0x9 <= u && u <= 0xd) || u == 0x20 || u == 0x85 || u == 0xa0 || u == 0x1680 || (0x2000 <= u
        && u <= 0x200a) || u == 0x2028 || u == 0x2029 || u == 0x202f || u == 0x205f || u == 0x3000
}

/// The characters of a text, one by one.
pub fn chars_of(s: &str) -> (r: Vec<char>)
    ensures
        r@ == s@,
{
    let mut r: Vec<char> = Vec::new();
    for c in iter: s.chars()
        invariant
            r@ == iter.seq().take(iter.index() as int),
            iter.seq() == s@,
    {
        r.push(c);
    }
    r
}

/// What `str::to_lowercase` makes of a text: Unicode case mapping, which may
/// turn one character into several.
pub uninterp spec fn lowercase(s: Seq<char>) -> Seq<char>;

/// Every character is an ASCII character.
pub open spec fn is_ascii_text(s: Seq<char>) -> bool {
    forall|i: int| 0 <= i < s.len() ==> (#[trigger] s[i] as u32) < 0x80
}

/// An upper case ASCII letter in lower case; any other character unchanged.
pub open spec fn ascii_lower(c: char) -> char {
    if 0x41 <= c as u32 <= 0x5a {
        (c as u32 + 0x20) as char
    } else {
        c
    }
}

/// A text with its upper case ASCII letters in lower case.
pub open spec fn ascii_lowered(s: Seq<char>) -> Seq<char> {
    s.map_values(|c: char| ascii_lower(c))
}

/// As far as `s` is ASCII from its beginning on, `lower` begins with it, letter by
/// letter in lower case.
pub open spec fn lowered_from_start(s: Seq<char>, lower: Seq<char>) -> bool {
    forall|k: int|
        0 <= k <= s.len() && is_ascii_text(#[trigger] s.take(k)) ==> has_prefix(
            lower,
            ascii_lowered(s.take(k)),
        )
}

/// `str::to_lowercase` of the standard library: the result depends on the text
/// alone, and in a text of ASCII characters it is the upper case letters that
/// change. Every character becomes one or more, in place: a text that is not empty
/// stays so, and an ASCII beginning is lowered letter by letter whatever follows.
/// What becomes of other characters, the Unicode tables say.
pub assume_specification[ str::to_lowercase ](s: &str) -> (r: String)
    ensures
        r@ == lowercase(s@),
        is_ascii_text(s@) ==> r@ == ascii_lowered(s@),
        s@.len() > 0 ==> r@.len() > 0,
        lowered_from_start(s@, r@),
;

/// `String::push` of the standard library: appends the character at the end.
pub assume_specification[ String::push ](s: &mut String, c: char)
    ensures
        final(s)@ == old(s)@.push(c),
;

/// The text made of the given characters.
pub fn string_of(v: &Vec<char>) -> (r: String)
    ensures
        r@ == v@,
{
    let mut r: String = String::new();
    let mut i: usize = 0;
    while i < v.len()
        invariant
            i <= v.len(),
            r@ == v@.take(i as int),
        decreases v.len() - i,
    {
        r.push(v[i]);
        i += 1;
        assert(v@.take(i as int) == v@.take(i - 1).push(v@[i - 1]));
    }
    assert(v@.take(v@.len() as int) == v@);
    r
}

/// Appends `more` to `v`.
pub fn push_all(v: &mut Vec<char>, more: &Vec<char>)
    ensures
        final(v)@ == old(v)@ + more@,
{
    let mut i: usize = 0;
    while i < more.len()
        invariant
            i <= more.len(),
            v@ == old(v)@ + more@.take(i as int),
        decreases more.len() - i,
    {
        v.push(more[i]);
        i += 1;
        assert(more@.take(i as int) == more@.take(i - 1).push(more@[i - 1]));
    }
    assert(more@.take(more@.len() as int) == more@);
}

/// The part of `v` from `from` up to, not including, `to`.
pub fn part_of(v: &Vec<char>, from: usize, to: usize) -> (r: Vec<char>)
    requires
        from <= to <= v.len(),
    ensures
        r@ == v@.subrange(from as int, to as int),
{
    let mut r: Vec<char> = Vec::new();
    let mut i: usize = from;
    while i < to
        invariant
            from <= i <= to <= v.len(),
            r@ == v@.subrange(from as int, i as int),
        decreases to - i,
    {
        r.push(v[i]);
        i += 1;
        assert(v@.subrange(from as int, i as int) == v@.subrange(from as int, i - 1).push(
            v@[i - 1],
        ));
    }
    r
}

/// Two texts one after the other.
pub fn concat(a: &str, b: &str) -> (r: String)
    ensures
        r@ == a@ + b@,
{
    let mut v = chars_of(a);
    push_all(&mut v, &chars_of(b));
    string_of(&v)
}

/// Tells whether two texts are the same.
pub fn same_text(a: &str, b: &str) -> (r: bool)
    ensures
        r == (a@ == b@),
{
    a.to_owned() == b.to_owned()
}

/// The number of bytes that a text takes in UTF-8.
pub open spec fn utf8_len(s: Seq<char>) -> nat {
    vstd::utf8::encode_utf8(s).len()
}

/// The number of bytes that a text takes in UTF-8.
pub fn byte_len(s: &str) -> (r: usize)
    ensures
        r == utf8_len(s@),
{
    s.as_bytes().len()
}

// ---- prefixes ----
/// `s` begins with `p`.
pub open spec fn has_prefix(s: Seq<char>, p: Seq<char>) -> bool {
    s.len() >= p.len() && s.take(p.len() as int) == p
}

/// Tells whether `p` stands in `s` at position `at`.
fn stands_at(s: &Vec<char>, at: usize, p: &Vec<char>) -> (r: bool)
    requires
        at <= s.len(),
    ensures
        r == has_prefix(s@.skip(at as int), p@),
{
    if s.len() - at < p.len() {
        return false;
    }
    let mut i: usize = 0;
    while i < p.len()
        invariant
            i <= p.len(),
            at <= s.len(),
            p.len() <= s.len() - at,
            s@.skip(at as int).take(i as int) == p@.take(i as int),
        decreases p.len() - i,
    {
        if s[at + i] != p[i] {
            assert(s@.skip(at as int).take(p@.len() as int)[i as int] == s@[at + i]);
            return false;
        }
        assert(s@.skip(at as int).take(i + 1) == s@.skip(at as int).take(i as int).push(
            s@[at + i],
        ));
        assert(p@.take(i + 1) == p@.take(i as int).push(p@[i as int]));
        i += 1;
    }
    assert(p@.take(p@.len() as int) == p@);
    true
}

/// Tells whether `s` begins with `p`.
pub fn starts_with(s: &str, p: &str) -> (r: bool)
    ensures
        r == has_prefix(s@, p@),
{
    assert(s@.skip(0) == s@);
    stands_at(&chars_of(s), 0, &chars_of(p))
}

/// What follows the prefix `p` in `s`, if `s` begins with `p`.
pub fn strip_prefix(s: &str, p: &str) -> (r: Option<String>)
    ensures
        r is Some <==> has_prefix(s@, p@),
        r matches Some(t) ==> t@ == s@.skip(p@.len() as int),
{
    let sv = chars_of(s);
    let pv = chars_of(p);
    assert(s@.skip(0) == s@);
    if stands_at(&sv, 0, &pv) {
        let rest = part_of(&sv, pv.len(), sv.len());
        assert(rest@ == s@.skip(p@.len() as int));
        Some(string_of(&rest))
    } else {
        None
    }
}

// ---- substrings ----
/// `p` stands somewhere in `s`.
pub open spec fn occurs_in(p: Seq<char>, s: Seq<char>) -> bool {
    exists|i: int| 0 <= i <= s.len() && #[trigger] has_prefix(s.skip(i), p)
}

/// Tells whether `p` stands somewhere in `s`.
pub fn contains_text(s: &str, p: &str) -> (r: bool)
    ensures
        r == occurs_in(p@, s@),
{
    let sv = chars_of(s);
    let pv = chars_of(p);
    let mut i: usize = 0;
    loop
        invariant
            sv@ == s@,
            pv@ == p@,
            i <= sv.len(),
            forall|j: int| 0 <= j < i ==> !#[trigger] has_prefix(s@.skip(j), p@),
        decreases sv.len() - i,
    {
        if stands_at(&sv, i, &pv) {
            return true;
        }
        if i == sv.len() {
            return false;
        }
        i += 1;
    }
}

/// Tells whether the character `c` stands somewhere in `s`.
pub fn contains_char(s: &str, c: char) -> (r: bool)
    ensures
        r == s@.contains(c),
{
    let v = chars_of(s);
    let mut i: usize = 0;
    while i < v.len()
        invariant
            v@ == s@,
            i <= v.len(),
            forall|j: int| 0 <= j < i ==> s@[j] != c,
        decreases v.len() - i,
    {
        if v[i] == c {
            assert(s@[i as int] == c);
            return true;
        }
        i += 1;
    }
    false
}

// ---- replacing ----
/// `s` with every occurrence of `pat` replaced by `with`. Occurrences are taken
/// from the left and do not overlap.
pub open spec fn replaced(s: Seq<char>, pat: Seq<char>, with: Seq<char>) -> Seq<char>
    decreases s.len(),
{
    if pat.len() == 0 || s.len() < pat.len() {
        s
    } else if has_prefix(s, pat) {
        with + replaced(s.skip(pat.len() as int), pat, with)
    } else {
        seq![s[0]] + replaced(s.skip(1), pat, with)
    }
}

/// Replaces every occurrence of `pat` in `s` by `with`.
pub fn replace_text(s: &str, pat: &str, with: &str) -> (r: String)
    requires
        pat@.len() > 0,
    ensures
        r@ == replaced(s@, pat@, with@),
{
    let sv = chars_of(s);
    let pv = chars_of(pat);
    let wv = chars_of(with);
    let mut out: Vec<char> = Vec::new();
    let mut i: usize = 0;
    assert(s@.skip(0) == s@);
    assert(out@ + replaced(s@, pat@, with@) == replaced(s@, pat@, with@));
    while i < sv.len()
        invariant
            sv@ == s@,
            pv@ == pat@,
            wv@ == with@,
            pat@.len() > 0,
            i <= sv.len(),
            out@ + replaced(s@.skip(i as int), pat@, with@) == replaced(s@, pat@, with@),
        decreases sv.len() - i,
    {
        let ghost rest = s@.skip(i as int);
        if stands_at(&sv, i, &pv) {
            assert(rest.skip(pat@.len() as int) == s@.skip(i + pat@.len()));
            push_all(&mut out, &wv);
            i += pv.len();
        } else {
            proof {
                assert(rest[0] == s@[i as int]);
                assert(rest.skip(1) == s@.skip(i + 1));
                if rest.len() < pat@.len() {
                    assert(replaced(rest.skip(1), pat@, with@) == rest.skip(1));
                    assert(rest == seq![rest[0]] + rest.skip(1));
                }
            }
            out.push(sv[i]);
            i += 1;
        }
    }
    assert(out@ + replaced(s@.skip(i as int), pat@, with@) == out@);
    string_of(&out)
}

// ---- white space ----
/// How many characters at the beginning of `s` are white space.
pub open spec fn leading_space(s: Seq<char>) -> nat
    decreases s.len(),
{
    if s.len() > 0 && is_white_space(s[0]) {
        1 + leading_space(s.skip(1))
    } else {
        0
    }
}

/// How many characters at the beginning of `s` are not white space.
pub open spec fn leading_word(s: Seq<char>) -> nat
    decreases s.len(),
{
    if s.len() > 0 && !is_white_space(s[0]) {
        1 + leading_word(s.skip(1))
    } else {
        0
    }
}

/// `s` without the white space at its end.
pub open spec fn trimmed_end(s: Seq<char>) -> Seq<char>
    decreases s.len(),
{
    if s.len() > 0 && is_white_space(s.last()) {
        trimmed_end(s.drop_last())
    } else {
        s
    }
}

/// `s` without the white space at its beginning and at its end.
pub open spec fn trimmed(s: Seq<char>) -> Seq<char> {
    trimmed_end(s.skip(leading_space(s) as int))
}

/// What `leading_space` counts: the white space before the first other character.
pub proof fn lemma_leading_space(s: Seq<char>)
    ensures
        leading_space(s) <= s.len(),
        forall|i: int| 0 <= i < leading_space(s) ==> is_white_space(#[trigger] s[i]),
        leading_space(s) < s.len() ==> !is_white_space(s[leading_space(s) as int]),
    decreases s.len(),
{
    if s.len() > 0 && is_white_space(s[0]) {
        lemma_leading_space(s.skip(1));
        assert forall|i: int| 0 <= i < leading_space(s) implies is_white_space(#[trigger] s[i]) by {
            if i > 0 {
                assert(s[i] == s.skip(1)[i - 1]);
            }
        }
    }
}

/// What `leading_word` counts: the characters before the first white space.
pub proof fn lemma_leading_word(s: Seq<char>)
    ensures
        leading_word(s) <= s.len(),
        forall|i: int| 0 <= i < leading_word(s) ==> !is_white_space(#[trigger] s[i]),
        leading_word(s) < s.len() ==> is_white_space(s[leading_word(s) as int]),
    decreases s.len(),
{
    if s.len() > 0 && !is_white_space(s[0]) {
        lemma_leading_word(s.skip(1));
        assert forall|i: int| 0 <= i < leading_word(s) implies !is_white_space(
            #[trigger] s[i],
        ) by {
            if i > 0 {
                assert(s[i] == s.skip(1)[i - 1]);
            }
        }
    }
}

/// The first position from `from` on that is not white space.
fn skip_space(v: &Vec<char>, from: usize) -> (r: usize)
    requires
        from <= v.len(),
    ensures
        from <= r <= v.len(),
        r == from + leading_space(v@.skip(from as int)),
{
    let mut i: usize = from;
    while i < v.len() && white_space(v[i])
        invariant
            from <= i <= v.len(),
            leading_space(v@.skip(from as int)) == i - from + leading_space(v@.skip(i as int)),
        decreases v.len() - i,
    {
        assert(v@.skip(i as int)[0] == v@[i as int]);
        assert(v@.skip(i as int).skip(1) == v@.skip(i + 1));
        i += 1;
    }
    assert(i < v.len() ==> v@.skip(i as int)[0] == v@[i as int]);
    i
}

/// The first position from `from` on that is white space.
fn skip_word(v: &Vec<char>, from: usize) -> (r: usize)
    requires
        from <= v.len(),
    ensures
        from <= r <= v.len(),
        r == from + leading_word(v@.skip(from as int)),
{
    let mut i: usize = from;
    while i < v.len() && !white_space(v[i])
        invariant
            from <= i <= v.len(),
            leading_word(v@.skip(from as int)) == i - from + leading_word(v@.skip(i as int)),
        decreases v.len() - i,
    {
        assert(v@.skip(i as int)[0] == v@[i as int]);
        assert(v@.skip(i as int).skip(1) == v@.skip(i + 1));
        i += 1;
    }
    assert(i < v.len() ==> v@.skip(i as int)[0] == v@[i as int]);
    i
}

/// Removes the white space at both ends of `s`.
pub fn trim(s: &str) -> (r: String)
    ensures
        r@ == trimmed(s@),
{
    let v = chars_of(s);
    assert(v@.skip(0) == s@);
    let start: usize = skip_space(&v, 0);
    let mut end: usize = v.len();
    assert(v@.subrange(start as int, v@.len() as int) == v@.skip(start as int));
    while end > start && white_space(v[end - 1])
        invariant
            start <= end <= v.len(),
            trimmed(s@) == trimmed_end(v@.subrange(start as int, end as int)),
        decreases end,
    {
        let ghost cut = v@.subrange(start as int, end as int);
        assert(cut.last() == v@[end - 1]);
        assert(cut.drop_last() == v@.subrange(start as int, end - 1));
        end -= 1;
    }
    assert(end > start ==> v@.subrange(start as int, end as int).last() == v@[end - 1]);
    string_of(&part_of(&v, start, end))
}

/// The words of `s`: its longest runs of characters that are not white space.
pub open spec fn words(s: Seq<char>) -> Seq<Seq<char>>
    decreases s.len(),
{
    let t = s.skip(leading_space(s) as int);
    if t.len() == 0 {
        Seq::empty()
    } else {
        proof {
            lemma_leading_space(s);
            lemma_leading_word(t);
        }
        seq![t.take(leading_word(t) as int)] + words(t.skip(leading_word(t) as int))
    }
}

/// The texts of a list of strings.
pub open spec fn texts(v: Seq<String>) -> Seq<Seq<char>> {
    v.map_values(|s: String| s@)
}

/// An optional string as text.
pub open spec fn text_of(s: Option<String>) -> Option<Seq<char>> {
    match s {
        Some(text) => Some(text@),
        None => None,
    }
}

/// Splits `s` at its white space.
pub fn split_words(s: &str) -> (r: Vec<String>)
    ensures
        texts(r@) == words(s@),
{
    let v = chars_of(s);
    let mut r: Vec<String> = Vec::new();
    let mut i: usize = 0;
    assert(v@.skip(0) == s@);
    assert(texts(r@) + words(s@) == words(s@));
    loop
        invariant
            v@ == s@,
            i <= v.len(),
            texts(r@) + words(v@.skip(i as int)) == words(s@),
        decreases v.len() - i,
    {
        let ghost rest = v@.skip(i as int);
        let start: usize = skip_space(&v, i);
        let ghost t = v@.skip(start as int);
        assert(rest.skip(leading_space(rest) as int) == t);
        if start == v.len() {
            assert(words(rest) == Seq::<Seq<char>>::empty());
            assert(texts(r@) + words(rest) == texts(r@));
            return r;
        }
        let end: usize = skip_word(&v, start);
        proof {
            lemma_leading_space(rest);
            lemma_leading_word(t);
            assert(t[0] == rest[leading_space(rest) as int]);
            assert(t.take(leading_word(t) as int) == v@.subrange(start as int, end as int));
            assert(t.skip(leading_word(t) as int) == v@.skip(end as int));
        }
        let ghost before = r@;
        let word = string_of(&part_of(&v, start, end));
        r.push(word);
        proof {
            assert(texts(r@) == texts(before).push(word@));
            assert(texts(before) + (seq![word@] + words(v@.skip(end as int))) == texts(r@) + words(
                v@.skip(end as int),
            ));
        }
        i = end;
    }
}

// ---- numbers ----
/// The decimal digit of a number below ten.
pub open spec fn digit(d: nat) -> char {
    (0x30 + d) as char
}

/// A number in decimal notation, without leading zeros.
pub open spec fn decimal(n: nat) -> Seq<char>
    decreases n,
{
    if n < 10 {
        seq![digit(n)]
    } else {
        decimal(n / 10).push(digit(n % 10))
    }
}

fn decimal_chars(n: u64) -> (r: Vec<char>)
    ensures
        r@ == decimal(n as nat),
    decreases n,
{
    let last: char = (0x30u8 + (n % 10) as u8) as char;
    if n < 10 {
        let mut v: Vec<char> = Vec::new();
        v.push(last);
        v
    } else {
        let mut v = decimal_chars(n / 10);
        v.push(last);
        v
    }
}

/// Writes a number in decimal notation.
pub fn decimal_text(n: u64) -> (r: String)
    ensures
        r@ == decimal(n as nat),
{
    string_of(&decimal_chars(n))
}

// ---- ASCII case ----
/// `a` and `b` are the same but for the case of ASCII letters.
pub open spec fn same_ignoring_ascii_case(a: Seq<char>, b: Seq<char>) -> bool {
    &&& a.len() == b.len()
    &&& forall|i: int| 0 <= i < a.len() ==> ascii_lower(#[trigger] a[i]) == ascii_lower(b[i])
}

fn lower_ascii(c: char) -> (r: char)
    ensures
        r == ascii_lower(c),
{
    let u: u32 = c as u32;
    if 0x41 <= u && u <= 0x5a {
        (u as u8 + 0x20u8) as char
    } else {
        c
    }
}

/// Compares two texts without regard to the case of ASCII letters.
pub fn eq_ignore_ascii_case(a: &str, b: &str) -> (r: bool)
    ensures
        r == same_ignoring_ascii_case(a@, b@),
{
    let av = chars_of(a);
    let bv = chars_of(b);
    if av.len() != bv.len() {
        return false;
    }
    let mut i: usize = 0;
    while i < av.len()
        invariant
            av@ == a@,
            bv@ == b@,
            av.len() == bv.len(),
            i <= av.len(),
            forall|j: int| 0 <= j < i ==> ascii_lower(#[trigger] a@[j]) == ascii_lower(b@[j]),
        decreases av.len() - i,
    {
        if lower_ascii(av[i]) != lower_ascii(bv[i]) {
            assert(ascii_lower(a@[i as int]) != ascii_lower(b@[i as int]));
            return false;
        }
        i += 1;
    }
    true
}

// ---- what holds of these ----
proof fn lemma_trimmed_end(s: Seq<char>)
    ensures
        trimmed_end(s).len() <= s.len(),
        trimmed_end(s) == s.take(trimmed_end(s).len() as int),
        forall|i: int| trimmed_end(s).len() <= i < s.len() ==> is_white_space(#[trigger] s[i]),
        trimmed_end(s).len() > 0 ==> !is_white_space(trimmed_end(s).last()),
    decreases s.len(),
{
    if s.len() > 0 && is_white_space(s.last()) {
        let front = s.drop_last();
        lemma_trimmed_end(front);
        let n = trimmed_end(s).len() as int;
        assert(front.take(n) == s.take(n));
        assert forall|i: int| n <= i < s.len() implies is_white_space(#[trigger] s[i]) by {
            if i < front.len() {
                assert(s[i] == front[i]);
            }
        }
    } else {
        assert(s.take(s.len() as int) == s);
    }
}

/// Trimming takes away white space at the ends, all of it, and nothing else.
pub proof fn trimming_is_exact(s: Seq<char>)
    ensures
        ({
            let from = leading_space(s) as int;
            let to = from + trimmed(s).len();
            &&& 0 <= from <= to <= s.len()
            &&& trimmed(s) == s.subrange(from, to)
            &&& forall|i: int| 0 <= i < from ==> is_white_space(#[trigger] s[i])
            &&& forall|i: int| to <= i < s.len() ==> is_white_space(#[trigger] s[i])
            &&& from < to ==> !is_white_space(s[from]) && !is_white_space(s[to - 1])
        }),
{
    lemma_leading_space(s);
    let from = leading_space(s) as int;
    let t = s.skip(from);
    lemma_trimmed_end(t);
    let to = from + trimmed(s).len();
    assert(t.take(trimmed(s).len() as int) == s.subrange(from, to));
    assert forall|i: int| to <= i < s.len() implies is_white_space(#[trigger] s[i]) by {
        assert(s[i] == t[i - from]);
    }
    assert(from < to ==> trimmed(s).last() == s[to - 1]);
}

/// A text in which the pattern does not stand is left as it is.
pub proof fn replacing_nothing(s: Seq<char>, pat: Seq<char>, with: Seq<char>)
    requires
        !occurs_in(pat, s),
    ensures
        replaced(s, pat, with) == s,
    decreases s.len(),
{
    if pat.len() > 0 && s.len() >= pat.len() {
        assert(s.skip(0) == s);
        assert(!has_prefix(s.skip(0), pat));
        assert(!occurs_in(pat, s.skip(1))) by {
            if occurs_in(pat, s.skip(1)) {
                let i = choose|i: int|
                    0 <= i <= s.skip(1).len() && #[trigger] has_prefix(s.skip(1).skip(i), pat);
                assert(s.skip(1).skip(i) == s.skip(i + 1));
                assert(has_prefix(s.skip(i + 1), pat));
            }
        }
        replacing_nothing(s.skip(1), pat, with);
        assert(seq![s[0]] + s.skip(1) == s);
    }
}

/// Different numbers are written differently.
pub proof fn decimal_is_injective(a: nat, b: nat)
    requires
        decimal(a) == decimal(b),
    ensures
        a == b,
    decreases a,
{
    lemma_decimal_len(a);
    lemma_decimal_len(b);
    let da = decimal(a);
    let db = decimal(b);
    assert(da.last() == digit(a % 10)) by {
        if a < 10 {
            assert(a % 10 == a);
        }
    }
    assert(db.last() == digit(b % 10)) by {
        if b < 10 {
            assert(b % 10 == b);
        }
    }
    assert(digit(a % 10) as u32 == 0x30 + a % 10);
    assert(digit(b % 10) as u32 == 0x30 + b % 10);
    if a >= 10 && b >= 10 {
        assert(da.drop_last() == decimal(a / 10));
        assert(db.drop_last() == decimal(b / 10));
        decimal_is_injective(a / 10, b / 10);
    }
}

proof fn lemma_decimal_len(n: nat)
    ensures
        decimal(n).len() >= 1,
        n >= 10 ==> decimal(n).len() >= 2,
    decreases n,
{
    if n >= 10 {
        lemma_decimal_len(n / 10);
    }
}

/// Where a text begins with the pattern, the pattern is replaced there and
/// replacing goes on behind it.
pub proof fn replacing_prefix(pat: Seq<char>, rest: Seq<char>, with: Seq<char>)
    requires
        pat.len() > 0,
    ensures
        replaced(pat + rest, pat, with) == with + replaced(rest, pat, with),
{
    let s = pat + rest;
    assert(s.take(pat.len() as int) == pat);
    assert(s.skip(pat.len() as int) == rest);
}

/// A number is written in decimal digits, at least one.
pub proof fn lemma_decimal_digits(n: nat)
    ensures
        decimal(n).len() >= 1,
        forall|i: int|
            0 <= i < decimal(n).len() ==> 0x30 <= (#[trigger] decimal(n)[i]) as u32 <= 0x39,
    decreases n,
{
    if n >= 10 {
        lemma_decimal_digits(n / 10);
    }
    assert(digit(n % 10) as u32 == 0x30 + n % 10);
    assert(n < 10 ==> n % 10 == n);
}

/// Where the pattern does not begin within `front`, replacing begins behind it.
pub proof fn replacing_behind(front: Seq<char>, rest: Seq<char>, pat: Seq<char>, with: Seq<char>)
    requires
        pat.len() > 0,
        forall|i: int|
            0 <= i < front.len() ==> !has_prefix(#[trigger] (front + rest).skip(i), pat),
    ensures
        replaced(front + rest, pat, with) == front + replaced(rest, pat, with),
    decreases front.len(),
{
    let s = front + rest;
    if front.len() == 0 {
        assert(s == rest);
        assert(front + replaced(rest, pat, with) == replaced(rest, pat, with));
    } else {
        let tail = front.skip(1);
        assert(s.skip(0) == s);
        assert(!has_prefix(s.skip(0), pat));
        assert(s.skip(1) == tail + rest);
        assert forall|i: int| 0 <= i < tail.len() implies !has_prefix(
            #[trigger] (tail + rest).skip(i),
            pat,
        ) by {
            assert((tail + rest).skip(i) == s.skip(i + 1));
        }
        replacing_behind(tail, rest, pat, with);
        assert(seq![s[0]] + (tail + replaced(rest, pat, with)) == front + replaced(
            rest,
            pat,
            with,
        ));
        if s.len() < pat.len() {
            assert(replaced(rest, pat, with) == rest);
        }
    }
}

/// Where the pattern cannot reach from one text into the next, because it holds the
/// first character of the next only at its own beginning if at all, the two are
/// replaced apart.
pub proof fn replacing_apart(a: Seq<char>, b: Seq<char>, pat: Seq<char>, with: Seq<char>)
    requires
        pat.len() > 0,
        b.len() > 0,
        forall|i: int| 0 < i < pat.len() ==> #[trigger] pat[i] != b[0],
    ensures
        replaced(a + b, pat, with) == replaced(a, pat, with) + replaced(b, pat, with),
    decreases a.len(),
{
    let s = a + b;
    let end = replaced(b, pat, with);
    if a.len() == 0 {
        assert(s == b);
        assert(a + end == end);
    } else if has_prefix(s, pat) {
        let n = pat.len() as int;
        assert(n <= a.len()) by {
            if n > a.len() {
                assert(s.take(n)[a.len() as int] == b[0]);
            }
        }
        assert(a.take(n) == s.take(n));
        assert(s.skip(n) == a.skip(n) + b);
        replacing_apart(a.skip(n), b, pat, with);
        let middle = replaced(a.skip(n), pat, with);
        assert(with + (middle + end) == (with + middle) + end);
    } else {
        let tail = a.skip(1);
        assert(s.skip(1) == tail + b);
        replacing_apart(tail, b, pat, with);
        assert(!has_prefix(a, pat)) by {
            if has_prefix(a, pat) {
                assert(s.take(pat.len() as int) == a.take(pat.len() as int));
            }
        }
        let middle = replaced(tail, pat, with);
        assert(seq![a[0]] + (middle + end) == (seq![a[0]] + middle) + end);
        if a.len() < pat.len() {
            assert(seq![a[0]] + tail == a);
        }
        if s.len() < pat.len() {
            assert(end == b);
        }
    }
}

/// A text of white space, or nothing.
pub open spec fn all_white_space(s: Seq<char>) -> bool {
    forall|i: int| 0 <= i < s.len() ==> is_white_space(#[trigger] s[i])
}

/// White space around a text stays as it is when a pattern without white space is
/// replaced.
pub proof fn replacing_between_space(
    s: Seq<char>,
    space: Seq<char>,
    pat: Seq<char>,
    with: Seq<char>,
)
    requires
        all_white_space(space),
        pat.len() > 0,
        forall|i: int| 0 <= i < pat.len() ==> !is_white_space(#[trigger] pat[i]),
    ensures
        replaced(space + s, pat, with) == space + replaced(s, pat, with),
        replaced(s + space, pat, with) == replaced(s, pat, with) + space,
{
    lemma_replacing_behind_space(s, space, pat, with);
    let none = Seq::<char>::empty();
    lemma_replacing_behind_space(none, space, pat, with);
    assert(space + none == space);
    if space.len() > 0 {
        assert forall|i: int| 0 < i < pat.len() implies #[trigger] pat[i] != space[0] by {
            assert(is_white_space(space[0]));
        }
        replacing_apart(s, space, pat, with);
    } else {
        assert(s + space == s);
        assert(replaced(s, pat, with) + space == replaced(s, pat, with));
    }
}

proof fn lemma_replacing_behind_space(
    s: Seq<char>,
    space: Seq<char>,
    pat: Seq<char>,
    with: Seq<char>,
)
    requires
        all_white_space(space),
        pat.len() > 0,
        !is_white_space(pat[0]),
    ensures
        replaced(space + s, pat, with) == space + replaced(s, pat, with),
{
    let all = space + s;
    assert forall|i: int| 0 <= i < space.len() implies !has_prefix(
        #[trigger] (space + s).skip(i),
        pat,
    ) by {
        if has_prefix(all.skip(i), pat) {
            assert(all.skip(i).take(pat.len() as int)[0] == all[i]);
            assert(all[i] == space[i]);
        }
    }
    replacing_behind(space, s, pat, with);
}

/// White space around a text makes no difference once it is trimmed.
pub proof fn trimming_space_around(s: Seq<char>, space: Seq<char>)
    requires
        all_white_space(space),
    ensures
        trimmed(space + s) == trimmed(s),
        trimmed(s + space) == trimmed(s),
{
    lemma_leading_space_behind(space, s);
    lemma_leading_space(s);
    assert((space + s).skip((space.len() + leading_space(s)) as int) == s.skip(
        leading_space(s) as int,
    ));
    let n = leading_space(s) as int;
    let behind = s + space;
    lemma_leading_space(behind);
    let m = leading_space(behind) as int;
    if n < s.len() {
        assert(m == n) by {
            if m < n {
                assert(behind[m] == s[m]);
            } else if m > n {
                assert(behind[n] == s[n]);
                assert(is_white_space(behind[n]));
            }
        }
        assert(behind.skip(n) == s.skip(n) + space);
        lemma_trimmed_end_space(s.skip(n), space);
    } else {
        assert(m == behind.len()) by {
            if m < behind.len() {
                if m < s.len() {
                    assert(behind[m] == s[m]);
                } else {
                    assert(behind[m] == space[m - s.len()]);
                }
            }
        }
        assert(behind.skip(m) == s.skip(n));
    }
}

proof fn lemma_leading_space_behind(space: Seq<char>, s: Seq<char>)
    requires
        all_white_space(space),
    ensures
        leading_space(space + s) == space.len() + leading_space(s),
    decreases space.len(),
{
    if space.len() == 0 {
        assert(space + s == s);
    } else {
        assert((space + s)[0] == space[0]);
        assert((space + s).skip(1) == space.skip(1) + s);
        lemma_leading_space_behind(space.skip(1), s);
    }
}

proof fn lemma_trimmed_end_space(s: Seq<char>, space: Seq<char>)
    requires
        all_white_space(space),
    ensures
        trimmed_end(s + space) == trimmed_end(s),
    decreases space.len(),
{
    if space.len() == 0 {
        assert(s + space == s);
    } else {
        assert((s + space).last() == space[space.len() - 1]);
        assert((s + space).drop_last() == s + space.drop_last());
        lemma_trimmed_end_space(s, space.drop_last());
    }
}

/// A text begins with another where it is the other and something behind it.
pub proof fn prefix_stands_in_front(s: Seq<char>, p: Seq<char>)
    ensures
        has_prefix(s, p) <==> exists|rest: Seq<char>| s == #[trigger] (p + rest),
{
    if has_prefix(s, p) {
        assert(s == p + s.skip(p.len() as int));
    }
    if exists|rest: Seq<char>| s == #[trigger] (p + rest) {
        let rest = choose|rest: Seq<char>| s == #[trigger] (p + rest);
        assert((p + rest).take(p.len() as int) == p);
    }
}

/// A text stands in another where the other is something, the text, and something
/// behind it.
pub proof fn occurrence_stands_between(p: Seq<char>, s: Seq<char>)
    ensures
        occurs_in(p, s) <==> exists|a: Seq<char>, b: Seq<char>| s == #[trigger] (a + p + b),
{
    if occurs_in(p, s) {
        let i = choose|i: int| 0 <= i <= s.len() && #[trigger] has_prefix(s.skip(i), p);
        let n = p.len() as int;
        assert(s.skip(i).take(n) == p);
        assert(s == s.take(i) + s.skip(i).take(n) + s.skip(i).skip(n));
        assert(s == s.take(i) + p + s.skip(i).skip(n));
    }
    if exists|a: Seq<char>, b: Seq<char>| s == #[trigger] (a + p + b) {
        let (a, b) = choose|a: Seq<char>, b: Seq<char>| s == #[trigger] (a + p + b);
        assert(s.skip(a.len() as int) == p + b);
        assert((p + b).take(p.len() as int) == p);
        assert(has_prefix(s.skip(a.len() as int), p));
    }
}

/// The number that decimal digits stand for.
pub open spec fn number(digits: Seq<char>) -> int
    decreases digits.len(),
{
    if digits.len() == 0 {
        0
    } else {
        10 * number(digits.drop_last()) + (digits.last() as u32 - '0' as u32)
    }
}

/// A number that is written in decimal digits reads back as itself, and has no
/// zero in front.
pub proof fn decimal_reads_back(n: nat)
    ensures
        number(decimal(n)) == n,
        forall|i: int| 0 <= i < decimal(n).len() ==> '0' <= #[trigger] decimal(n)[i] <= '9',
        decimal(n).len() >= 1,
        decimal(n).len() > 1 ==> decimal(n)[0] != '0',
    decreases n,
{
    lemma_decimal_digits(n);
    lemma_decimal_len(n);
    assert(digit(n % 10) as u32 == 0x30 + n % 10);
    if n < 10 {
        assert(n % 10 == n);
        assert(decimal(n).drop_last() == Seq::<char>::empty());
        assert(number(decimal(n).drop_last()) == 0);
    } else {
        decimal_reads_back(n / 10);
        lemma_decimal_len(n / 10);
        assert(decimal(n).drop_last() == decimal(n / 10));
        assert(decimal(n)[0] == decimal(n / 10)[0]);
        if n / 10 < 10 {
            assert(decimal(n / 10)[0] == digit(n / 10));
            assert(digit(n / 10) as u32 == 0x30 + n / 10);
        }
    }
}

/// Texts that are compared without regard to case are of the same length and differ,
/// place by place, by the case of an ASCII letter at most.
pub proof fn case_differs_at_most(a: Seq<char>, b: Seq<char>)
    ensures
        same_ignoring_ascii_case(a, b) <==> a.len() == b.len() && forall|i: int|
            0 <= i < a.len() ==> {
                ||| #[trigger] a[i] == b[i]
                ||| 'A' <= a[i] <= 'Z' && b[i] as u32 == a[i] as u32 + 32
                ||| 'A' <= b[i] <= 'Z' && a[i] as u32 == b[i] as u32 + 32
            },
{
    if a.len() == b.len() {
        assert forall|i: int| 0 <= i < a.len() implies (ascii_lower(#[trigger] a[i]) == ascii_lower(
            b[i],
        ) <==> {
            ||| a[i] == b[i]
            ||| 'A' <= a[i] <= 'Z' && b[i] as u32 == a[i] as u32 + 32
            ||| 'A' <= b[i] <= 'Z' && a[i] as u32 == b[i] as u32 + 32
        }) by {
            lemma_ascii_lower(a[i]);
            lemma_ascii_lower(b[i]);
        }
    }
}

proof fn lemma_ascii_lower(c: char)
    ensures
        ascii_lower(c) as u32 == if 'A' <= c <= 'Z' {
            c as u32 + 32
        } else {
            c as u32 as int
        },
{
}

/// In lower case every letter from `A` to `Z` is the one 32 places on, and everything
/// else is as it was.
pub proof fn lowering_moves_capitals(s: Seq<char>)
    ensures
        ascii_lowered(s).len() == s.len(),
        forall|i: int|
            0 <= i < s.len() ==> {
                &&& 'A' <= #[trigger] s[i] <= 'Z' ==> ascii_lowered(s)[i] as u32 == s[i] as u32 + 32
                &&& !('A' <= s[i] <= 'Z') ==> ascii_lowered(s)[i] == s[i]
            },
{
    assert forall|i: int| 0 <= i < s.len() implies {
        &&& 'A' <= #[trigger] s[i] <= 'Z' ==> ascii_lowered(s)[i] as u32 == s[i] as u32 + 32
        &&& !('A' <= s[i] <= 'Z') ==> ascii_lowered(s)[i] == s[i]
    } by {
        lemma_ascii_lower(s[i]);
    }
}

/// Strings are taken as their texts, one by one.
pub proof fn strings_are_their_texts(v: Seq<String>, s: Option<String>)
    ensures
        texts(v).len() == v.len(),
        forall|i: int| 0 <= i < v.len() ==> #[trigger] texts(v)[i] == v[i]@,
        s matches Some(t) ==> text_of(s) == Some(t@),
        s is None ==> text_of(s) is None,
{
}

} // verus!
