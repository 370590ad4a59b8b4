//! Text helpers over characters: trimming, searching, splitting, joining and
//! decimal numbers, each with an exact statement of what it computes.
use crate::outside::{debug_quoted, quote_debug};
use vstd::prelude::*;
use vstd::string::*;

verus! {

/// The texts held by a sequence of strings.
pub open spec fn texts(v: Seq<String>) -> Seq<Seq<char>> {
    v.map_values(|s: String| s@)
}

/// The text of an optional string.
pub open spec fn opt_text(o: Option<String>) -> Option<Seq<char>> {
    match o {
        Some(s) => Some(s@),
        None => None,
    }
}

/// The characters of Unicode's `White_Space` property.
pub open spec fn is_space(c: char) -> bool {
    ||| 9 <= c as int <= 13
    ||| c as int == 32
    ||| c as int == 0x85
    ||| c as int == 0xA0
    ||| c as int == 0x1680
    ||| 0x2000 <= c as int <= 0x200A
    ||| c as int == 0x2028
    ||| c as int == 0x2029
    ||| c as int == 0x202F
    ||| c as int == 0x205F
    ||| c as int == 0x3000
}

/// `s` without its leading white space.
pub open spec fn trimmed_start(s: Seq<char>) -> Seq<char>
    decreases s.len(),
{
    if s.len() > 0 && is_space(s[0]) {
        trimmed_start(s.drop_first())
    } else {
        s
    }
}

/// `s` without its trailing white space.
pub open spec fn trimmed_end(s: Seq<char>) -> Seq<char>
    decreases s.len(),
{
    if s.len() > 0 && is_space(s.last()) {
        trimmed_end(s.drop_last())
    } else {
        s
    }
}

/// `s` without white space at either end.
pub open spec fn trimmed(s: Seq<char>) -> Seq<char> {
    trimmed_end(trimmed_start(s))
}

/// Whether `s` holds nothing but white space.
pub open spec fn is_blank(s: Seq<char>) -> bool {
    trimmed(s).len() == 0
}

/// The ASCII lower-case form of a character.
pub open spec fn ascii_lower(c: char) -> char {
    if 'A' <= c && c <= 'Z' {
        ((c as int) + 32) as char
    } else {
        c
    }
}

/// The ASCII upper-case form of a character.
pub open spec fn ascii_upper(c: char) -> char {
    if 'a' <= c && c <= 'z' {
        ((c as int) - 32) as char
    } else {
        c
    }
}

/// `s` with its ASCII letters in lower case.
pub open spec fn lowered(s: Seq<char>) -> Seq<char> {
    s.map_values(|c: char| ascii_lower(c))
}

/// `s` with its ASCII letters in upper case.
pub open spec fn uppered(s: Seq<char>) -> Seq<char> {
    s.map_values(|c: char| ascii_upper(c))
}

/// The first position of `c` in `s`, or the length of `s` where it has none.
pub open spec fn char_position(s: Seq<char>, c: char) -> nat
    decreases s.len(),
{
    if s.len() == 0 {
        0
    } else if s[0] == c {
        0
    } else {
        1 + char_position(s.drop_first(), c)
    }
}

/// The pieces of `s` between the occurrences of `sep`.
pub open spec fn split_on(s: Seq<char>, sep: char) -> Seq<Seq<char>>
    decreases s.len(),
{
    let at = char_position(s, sep) as int;
    if 0 <= at < s.len() {
        seq![s.take(at)] + split_on(s.skip(at + 1), sep)
    } else {
        seq![s]
    }
}

/// The parts written one after another with `sep` between them.
pub open spec fn joined(parts: Seq<Seq<char>>, sep: Seq<char>) -> Seq<char>
    decreases parts.len(),
{
    if parts.len() == 0 {
        Seq::empty()
    } else if parts.len() == 1 {
        parts[0]
    } else {
        joined(parts.drop_last(), sep) + sep + parts.last()
    }
}

/// Whether `needle` stands in `s` at position `i`.
pub open spec fn occurs_at(s: Seq<char>, needle: Seq<char>, i: int) -> bool {
    0 <= i && i + needle.len() <= s.len() && s.subrange(i, i + needle.len()) == needle
}

/// The first position at or after `i` at which `needle` stands in `s`.
pub open spec fn find_from(s: Seq<char>, needle: Seq<char>, i: int) -> Option<int>
    decreases s.len() + 1 - i,
{
    if i + needle.len() > s.len() {
        None
    } else if occurs_at(s, needle, i) {
        Some(i)
    } else {
        find_from(s, needle, i + 1)
    }
}

/// Whether `needle` stands anywhere in `s`.
pub open spec fn has_part(s: Seq<char>, needle: Seq<char>) -> bool {
    find_from(s, needle, 0) is Some
}

/// The decimal digit of a number below ten.
pub open spec fn digit_char(d: nat) -> char {
    ((d + 48) as u8) as char
}

/// The decimal form of a number.
pub open spec fn decimal_text(n: nat) -> Seq<char>
    decreases n,
{
    if n < 10 {
        seq![digit_char(n)]
    } else {
        decimal_text(n / 10).push(digit_char(n % 10))
    }
}

/// The decimal form of a signed number.
pub open spec fn signed_text(n: int) -> Seq<char> {
    if n < 0 {
        seq!['-'] + decimal_text((-n) as nat)
    } else {
        decimal_text(n as nat)
    }
}

/// Why a text is not a number of the wanted range.
#[derive(Debug, Clone, Copy, PartialEq, Eq, Structural)]
pub enum IntParseError {
    Empty,
    InvalidDigit,
    PosOverflow,
}

/// Whether `c` is a decimal digit.
pub open spec fn is_digit(c: char) -> bool {
    '0' <= c && c <= '9'
}

/// The number that a run of digits stands for, read from the left. The first
/// character that is no digit, or that carries the number past `max`, decides
/// the error.
pub open spec fn digits_value(s: Seq<char>, max: nat) -> Result<nat, IntParseError>
    decreases s.len(),
{
    if s.len() == 0 {
        Ok(0)
    } else {
        match digits_value(s.drop_last(), max) {
            Err(e) => Err(e),
            Ok(v) => if !is_digit(s.last()) {
                Err(IntParseError::InvalidDigit)
            } else if v * 10 + (s.last() as int - 48) > max {
                Err(IntParseError::PosOverflow)
            } else {
                Ok((v * 10 + (s.last() as int - 48)) as nat)
            },
        }
    }
}

/// An optional `+` and then digits, with no number above `max`.
pub open spec fn unsigned_value(s: Seq<char>, max: nat) -> Result<nat, IntParseError> {
    if s.len() == 0 {
        Err(IntParseError::Empty)
    } else if s.len() == 1 && s[0] == '+' {
        Err(IntParseError::InvalidDigit)
    } else if s[0] == '+' {
        digits_value(s.drop_first(), max)
    } else {
        digits_value(s, max)
    }
}

/// At most the first `n` characters.
pub open spec fn first_chars(s: Seq<char>, n: nat) -> Seq<char> {
    if s.len() <= n {
        s
    } else {
        s.take(n as int)
    }
}

/// The characters of a string, in order.
pub fn chars_of(s: &str) -> (r: Vec<char>)
    ensures
        r@ == s@,
{
    let mut r: Vec<char> = Vec::new();
    for c in it: s.chars()
        invariant
            r@ == it.seq().take(it.index() as int),
            it.seq() == s@,
    {
        r.push(c);
        assert(it.seq().take(it.index() + 1) =~= it.seq().take(it.index() as int).push(c));
    }
    assert(s@.take(s@.len() as int) =~= s@);
    r
}

/// Whether two strings hold the same characters.
pub fn same(a: &str, b: &str) -> (r: bool)
    ensures
        r == (a@ == b@),
{
    a.to_owned() == b.to_owned()
}

/// Whether two optional strings hold the same text.
pub fn same_opt(a: &Option<String>, b: &Option<String>) -> (r: bool)
    ensures
        r == (opt_text(*a) == opt_text(*b)),
{
    match a {
        Some(x) => match b {
            Some(y) => same(x.as_str(), y.as_str()),
            None => false,
        },
        None => b.is_none(),
    }
}

/// A copy of a list of strings.
pub fn clone_strings(v: &Vec<String>) -> (r: Vec<String>)
    ensures
        r@ == v@,
{
    let mut r: Vec<String> = Vec::new();
    let mut i: usize = 0;
    while i < v.len()
        invariant
            i <= v@.len(),
            r@ == v@.take(i as int),
        decreases v@.len() - i,
    {
        r.push(v[i].clone());
        i = i + 1;
        assert(v@.take(i as int) =~= v@.take(i - 1).push(v@[i - 1]));
    }
    assert(v@.take(i as int) =~= v@);
    r
}

/// A copy of an optional string.
pub fn clone_opt(o: &Option<String>) -> (r: Option<String>)
    ensures
        r == *o,
{
    match o {
        Some(s) => Some(s.clone()),
        None => None,
    }
}

/// Whether a character is white space.
pub fn space_char(c: char) -> (r: bool)
    ensures
        r == is_space(c),
{
    let n: u32 = c as u32;
    (9 <= n && n <= 13) || n == 32 || n == 0x85 || n == 0xA0 || n == 0x1680 || (0x2000 <= n && n
        <= 0x200A) || n == 0x2028 || n == 0x2029 || n == 0x202F || n == 0x205F || n == 0x3000
}

proof fn lemma_trim_start(s: Seq<char>, i: int)
    requires
        0 <= i <= s.len(),
        forall|k: int| 0 <= k < i ==> is_space(#[trigger] s[k]),
        i < s.len() ==> !is_space(s[i]),
    ensures
        trimmed_start(s) == s.skip(i),
    decreases s.len(),
{
    if i > 0 {
        let t = s.drop_first();
        assert forall|k: int| 0 <= k < i - 1 implies is_space(#[trigger] t[k]) by {
            assert(t[k] == s[k + 1]);
        }
        lemma_trim_start(t, i - 1);
        assert(t.skip(i - 1) =~= s.skip(i));
    } else {
        assert(s.skip(0) =~= s);
    }
}

proof fn lemma_trim_end(s: Seq<char>, j: int)
    requires
        0 <= j <= s.len(),
        forall|k: int| j <= k < s.len() ==> is_space(#[trigger] s[k]),
        j > 0 ==> !is_space(s[j - 1]),
    ensures
        trimmed_end(s) == s.take(j),
    decreases s.len(),
{
    if j < s.len() {
        let t = s.drop_last();
        assert forall|k: int| j <= k < t.len() implies is_space(#[trigger] t[k]) by {
            assert(t[k] == s[k]);
        }
        assert(is_space(s[s.len() - 1]));
        lemma_trim_end(t, j);
        assert(t.take(j) =~= s.take(j));
    } else {
        assert(s.take(j) =~= s);
    }
}

/// A trimmed text begins and ends with no white space, so trimming it changes
/// nothing.
pub proof fn lemma_trimmed_twice(s: Seq<char>)
    ensures
        trimmed(trimmed(s)) == trimmed(s),
{
    let a = trimmed_start(s);
    let b = trimmed_end(a);
    lemma_trimmed_start_shape(s);
    lemma_trimmed_end_shape(a);
    if b.len() > 0 {
        assert(b[0] == a[0]);
    }
    assert(trimmed_start(b) == b);
    assert(trimmed_end(b) == b);
}

proof fn lemma_trimmed_start_shape(s: Seq<char>)
    ensures
        trimmed_start(s).len() > 0 ==> !is_space(trimmed_start(s)[0]),
    decreases s.len(),
{
    if s.len() > 0 && is_space(s[0]) {
        lemma_trimmed_start_shape(s.drop_first());
    }
}

proof fn lemma_trimmed_end_shape(s: Seq<char>)
    ensures
        trimmed_end(s).len() > 0 ==> !is_space(trimmed_end(s).last()),
        trimmed_end(s).len() <= s.len(),
        trimmed_end(s) == s.take(trimmed_end(s).len() as int),
    decreases s.len(),
{
    if s.len() > 0 && is_space(s.last()) {
        let t = s.drop_last();
        lemma_trimmed_end_shape(t);
        assert(t.take(trimmed_end(t).len() as int) =~= s.take(trimmed_end(t).len() as int));
    } else {
        assert(s.take(s.len() as int) =~= s);
    }
}

/// The part of `s` between its outer white space.
pub fn trim<'a>(s: &'a str) -> (r: &'a str)
    ensures
        r@ == trimmed(s@),
{
    let v = chars_of(s);
    let n: usize = v.len();
    let mut i: usize = 0;
    while i < n && space_char(v[i])
        invariant
            i <= n == v@.len(),
            forall|k: int| 0 <= k < i ==> is_space(#[trigger] v@[k]),
        decreases n - i,
    {
        i = i + 1;
    }
    let mut j: usize = n;
    while j > i && space_char(v[j - 1])
        invariant
            i <= j <= n == v@.len(),
            forall|k: int| j <= k < n ==> is_space(#[trigger] v@[k]),
        decreases j,
    {
        j = j - 1;
    }
    proof {
        lemma_trim_start(s@, i as int);
        let t = s@.skip(i as int);
        assert forall|k: int| j - i <= k < t.len() implies is_space(#[trigger] t[k]) by {
            assert(t[k] == s@[k + i]);
        }
        lemma_trim_end(t, j - i);
        assert(t.take(j - i) =~= s@.subrange(i as int, j as int));
    }
    s.substring_char(i, j)
}

/// Whether a string is empty or all white space.
pub fn blank(s: &str) -> (r: bool)
    ensures
        r == is_blank(s@),
{
    trim(s).is_empty()
}

/// The ASCII lower-case form of a character.
pub fn lower_char(c: char) -> (r: char)
    ensures
        r == ascii_lower(c),
{
    if 'A' <= c && c <= 'Z' {
        ((c as u8) + 32) as char
    } else {
        c
    }
}

/// The ASCII upper-case form of a character.
pub fn upper_char(c: char) -> (r: char)
    ensures
        r == ascii_upper(c),
{
    if 'a' <= c && c <= 'z' {
        ((c as u8) - 32) as char
    } else {
        c
    }
}

/// A string with its ASCII letters in lower case.
pub fn lowercase(s: &str) -> (r: String)
    ensures
        r@ == lowered(s@),
{
    let v = chars_of(s);
    let mut r: String = String::new();
    let mut i: usize = 0;
    while i < v.len()
        invariant
            i <= v@.len(),
            r@ == lowered(v@.take(i as int)),
        decreases v@.len() - i,
    {
        r.push(lower_char(v[i]));
        i = i + 1;
        assert(lowered(v@.take(i as int)) =~= lowered(v@.take(i - 1)).push(ascii_lower(v@[i - 1])));
    }
    assert(v@.take(i as int) =~= v@);
    r
}

/// A string with its ASCII letters in upper case.
pub fn uppercase(s: &str) -> (r: String)
    ensures
        r@ == uppered(s@),
{
    let v = chars_of(s);
    let mut r: String = String::new();
    let mut i: usize = 0;
    while i < v.len()
        invariant
            i <= v@.len(),
            r@ == uppered(v@.take(i as int)),
        decreases v@.len() - i,
    {
        r.push(upper_char(v[i]));
        i = i + 1;
        assert(uppered(v@.take(i as int)) =~= uppered(v@.take(i - 1)).push(ascii_upper(v@[i - 1])));
    }
    assert(v@.take(i as int) =~= v@);
    r
}

/// Whether `s` begins with `prefix`.
pub fn starts_with(s: &str, prefix: &str) -> (r: bool)
    ensures
        r == prefix@.is_prefix_of(s@),
{
    let n: usize = s.unicode_len();
    let m: usize = prefix.unicode_len();
    if m > n {
        return false;
    }
    let head = s.substring_char(0, m);
    proof {
        if prefix@.is_prefix_of(s@) {
            assert(head@ =~= prefix@);
        }
    }
    same(head, prefix)
}

/// What follows `prefix` in `s`, where `s` begins with it.
pub fn strip_prefix<'a>(s: &'a str, prefix: &str) -> (r: Option<&'a str>)
    ensures
        match r {
            Some(rest) => prefix@.is_prefix_of(s@) && rest@ == s@.skip(prefix@.len() as int),
            None => !prefix@.is_prefix_of(s@),
        },
{
    if starts_with(s, prefix) {
        let rest = s.substring_char(prefix.unicode_len(), s.unicode_len());
        assert(rest@ =~= s@.skip(prefix@.len() as int));
        Some(rest)
    } else {
        None
    }
}

/// Whether `s` ends with `suffix`.
pub fn ends_with(s: &str, suffix: &str) -> (r: bool)
    ensures
        r == suffix@.is_suffix_of(s@),
{
    let n: usize = s.unicode_len();
    let m: usize = suffix.unicode_len();
    if m > n {
        return false;
    }
    let tail = s.substring_char(n - m, n);
    proof {
        if suffix@.is_suffix_of(s@) {
            assert(tail@ =~= suffix@);
        }
    }
    same(tail, suffix)
}

/// Whether `c` occurs in `s`.
pub fn contains_char(s: &str, c: char) -> (r: bool)
    ensures
        r == s@.contains(c),
{
    let v = chars_of(s);
    let mut i: usize = 0;
    while i < v.len()
        invariant
            i <= v@.len(),
            v@ == s@,
            forall|k: int| 0 <= k < i ==> v@[k] != c,
        decreases v@.len() - i,
    {
        if v[i] == c {
            return true;
        }
        i = i + 1;
    }
    false
}

/// The first position, counted in characters, of `needle` in `s`.
pub fn find(s: &str, needle: &str) -> (r: Option<usize>)
    ensures
        match r {
            Some(i) => find_from(s@, needle@, 0) == Some(i as int) && occurs_at(
                s@,
                needle@,
                i as int,
            ),
            None => find_from(s@, needle@, 0) is None,
        },
{
    let n: usize = s.unicode_len();
    let m: usize = needle.unicode_len();
    if m > n {
        return None;
    }
    let mut i: usize = 0;
    while i <= n - m
        invariant
            n == s@.len(),
            m == needle@.len(),
            m <= n,
            i <= n - m + 1,
            find_from(s@, needle@, 0) == find_from(s@, needle@, i as int),
        decreases n - m + 1 - i,
    {
        if same(s.substring_char(i, i + m), needle) {
            return Some(i);
        }
        if i == n - m {
            assert(find_from(s@, needle@, i + 1) is None);
            return None;
        }
        i = i + 1;
    }
    None
}

/// Whether `needle` stands anywhere in `s`.
pub fn contains(s: &str, needle: &str) -> (r: bool)
    ensures
        r == has_part(s@, needle@),
{
    find(s, needle).is_some()
}

proof fn lemma_char_position(s: Seq<char>, c: char, i: int)
    requires
        0 <= i <= s.len(),
        forall|k: int| 0 <= k < i ==> s[k] != c,
        i < s.len() ==> s[i] == c,
    ensures
        char_position(s, c) == i,
    decreases s.len(),
{
    if i > 0 {
        assert(s[0] != c);
        lemma_char_position(s.drop_first(), c, i - 1);
    }
}

/// The pieces of a string between the occurrences of a separator.
pub fn split(s: &str, sep: char) -> (r: Vec<String>)
    ensures
        texts(r@) == split_on(s@, sep),
{
    let v = chars_of(s);
    let n: usize = v.len();
    let mut r: Vec<String> = Vec::new();
    let mut start: usize = 0;
    let mut i: usize = 0;
    proof {
        assert(s@.skip(0) =~= s@);
        assert(texts(r@) + split_on(s@, sep) =~= split_on(s@, sep));
    }
    while i < n
        invariant
            start <= i <= n == v@.len(),
            v@ == s@,
            forall|k: int| start <= k < i ==> v@[k] != sep,
            texts(r@) + split_on(s@.skip(start as int), sep) == split_on(s@, sep),
        decreases n - i,
    {
        if v[i] == sep {
            let ghost rest = s@.skip(start as int);
            proof {
                assert forall|k: int| 0 <= k < i - start implies rest[k] != sep by {
                    assert(rest[k] == v@[k + start]);
                }
                lemma_char_position(rest, sep, i - start);
                assert(rest.take(i - start) =~= s@.subrange(start as int, i as int));
                assert(rest.skip(i - start + 1) =~= s@.skip(i + 1));
            }
            let ghost before = r@;
            let piece = s.substring_char(start, i).to_owned();
            r.push(piece);
            start = i + 1;
            proof {
                assert(texts(r@) =~= texts(before).push(piece@));
                assert(texts(r@) + split_on(s@.skip(start as int), sep) =~= texts(before) + (
                seq![piece@] + split_on(s@.skip(start as int), sep)));
            }
        }
        i = i + 1;
    }
    let ghost rest = s@.skip(start as int);
    proof {
        assert forall|k: int| 0 <= k < n - start implies rest[k] != sep by {
            assert(rest[k] == v@[k + start]);
        }
        lemma_char_position(rest, sep, n - start);
    }
    let ghost before = r@;
    let piece = s.substring_char(start, n).to_owned();
    r.push(piece);
    proof {
        assert(piece@ =~= rest);
        assert(texts(r@) =~= texts(before) + seq![piece@]);
    }
    r
}

/// The strings written one after another with `sep` between them.
pub fn join(parts: &Vec<String>, sep: &str) -> (r: String)
    ensures
        r@ == joined(texts(parts@), sep@),
{
    let mut r: String = String::new();
    let mut i: usize = 0;
    while i < parts.len()
        invariant
            i <= parts@.len(),
            r@ == joined(texts(parts@).take(i as int), sep@),
        decreases parts@.len() - i,
    {
        if i > 0 {
            r.append(sep);
        }
        r.append(parts[i].as_str());
        i = i + 1;
        proof {
            let t = texts(parts@).take(i as int);
            assert(t.drop_last() =~= texts(parts@).take(i - 1));
            if i == 1 {
                assert(r@ =~= t[0]);
            }
        }
    }
    assert(texts(parts@).take(i as int) =~= texts(parts@));
    r
}

/// The decimal form of a number.
pub fn decimal(n: u64) -> (r: String)
    ensures
        r@ == decimal_text(n as nat),
    decreases n,
{
    if n < 10 {
        let mut r: String = String::new();
        r.push(((n as u8) + 48) as char);
        assert(r@ =~= decimal_text(n as nat));
        r
    } else {
        let mut r = decimal(n / 10);
        r.push((((n % 10) as u8) + 48) as char);
        r
    }
}

/// The decimal form of a signed number.
pub fn signed_decimal(n: i32) -> (r: String)
    ensures
        r@ == signed_text(n as int),
{
    if n < 0 {
        let mut r: String = String::new();
        r.push('-');
        let m: i64 = -(n as i64);
        let rest = decimal(m as u64);
        r.append(rest.as_str());
        assert(r@ =~= signed_text(n as int));
        r
    } else {
        decimal(n as u64)
    }
}

/// Reads an unsigned number that is at most `max`.
pub fn parse_unsigned(s: &str, max: u64) -> (r: Result<u64, IntParseError>)
    ensures
        match r {
            Ok(v) => unsigned_value(s@, max as nat) == Ok::<nat, IntParseError>(v as nat),
            Err(e) => unsigned_value(s@, max as nat) == Err::<nat, IntParseError>(e),
        },
{
    let v = chars_of(s);
    let n: usize = v.len();
    if n == 0 {
        return Err(IntParseError::Empty);
    }
    if n == 1 && v[0] == '+' {
        return Err(IntParseError::InvalidDigit);
    }
    let start: usize = if v[0] == '+' {
        1
    } else {
        0
    };
    let ghost digits = s@.skip(start as int);
    proof {
        assert(digits == if start == 1 { s@.drop_first() } else { s@ });
    }
    let mut value: u64 = 0;
    let mut i: usize = start;
    while i < n
        invariant
            start <= i <= n == v@.len(),
            v@ == s@,
            digits == s@.skip(start as int),
            value <= max,
            digits_value(digits.take(i - start), max as nat) == Ok::<nat, IntParseError>(
                value as nat,
            ),
            unsigned_value(s@, max as nat) == digits_value(digits, max as nat),
        decreases n - i,
    {
        let c: char = v[i];
        proof {
            let t = digits.take(i - start + 1);
            assert(t.drop_last() =~= digits.take(i - start));
            assert(t.last() == c);
            lemma_digits_stop(digits, i - start + 1, max as nat);
        }
        if !('0' <= c && c <= '9') {
            return Err(IntParseError::InvalidDigit);
        }
        let d: u64 = (c as u64) - 48;
        if value > (u64::MAX - d) / 10 || value * 10 + d > max {
            return Err(IntParseError::PosOverflow);
        }
        value = value * 10 + d;
        i = i + 1;
    }
    assert(digits.take(n - start) =~= digits);
    Ok(value)
}

/// An error in a prefix of the digits is the error of the whole.
proof fn lemma_digits_stop(s: Seq<char>, i: int, max: nat)
    requires
        0 <= i <= s.len(),
    ensures
        digits_value(s.take(i), max) is Err ==> digits_value(s, max) == digits_value(
            s.take(i),
            max,
        ),
    decreases s.len(),
{
    if i < s.len() {
        lemma_digits_stop(s.drop_last(), i, max);
        assert(s.drop_last().take(i) =~= s.take(i));
    } else {
        assert(s.take(i) =~= s);
    }
}

/// A number that was read is within its bound.
pub proof fn lemma_unsigned_value_bound(s: Seq<char>, max: nat)
    ensures
        unsigned_value(s, max) matches Ok(v) ==> v <= max,
{
}

/// At most the first `n` characters of a string.
pub fn take_chars(s: &str, n: usize) -> (r: String)
    ensures
        r@ == first_chars(s@, n as nat),
{
    if s.unicode_len() <= n {
        s.to_owned()
    } else {
        let head = s.substring_char(0, n);
        assert(head@ =~= s@.take(n as int));
        head.to_owned()
    }
}

/// The debugging form of a list of texts.
pub open spec fn debug_list(list: Seq<Seq<char>>) -> Seq<char> {
    "["@ + joined(list.map_values(|s: Seq<char>| debug_quoted(s)), ", "@) + "]"@
}

/// The debugging form of a list of strings.
pub fn debug_strings(list: &Vec<String>) -> (r: String)
    ensures
        r@ == debug_list(texts(list@)),
{
    let mut quoted: Vec<String> = Vec::new();
    let mut i: usize = 0;
    let ghost all = texts(list@).map_values(|s: Seq<char>| debug_quoted(s));
    while i < list.len()
        invariant
            i <= list@.len(),
            all == texts(list@).map_values(|s: Seq<char>| debug_quoted(s)),
            texts(quoted@) == all.take(i as int),
        decreases list@.len() - i,
    {
        let ghost before = quoted@;
        let q = quote_debug(list[i].as_str());
        quoted.push(q);
        i = i + 1;
        proof {
            assert(texts(quoted@) =~= texts(before).push(q@));
            assert(all.take(i as int) =~= all.take(i - 1).push(all[i - 1]));
        }
    }
    assert(all.take(i as int) =~= all);
    let inner = join(&quoted, ", ");
    cat3("[", inner.as_str(), "]")
}

/// Two texts in a row.
pub fn cat2(a: &str, b: &str) -> (r: String)
    ensures
        r@ == a@ + b@,
{
    let mut r = a.to_owned();
    r.append(b);
    r
}

/// Three texts in a row.
pub fn cat3(a: &str, b: &str, c: &str) -> (r: String)
    ensures
        r@ == a@ + b@ + c@,
{
    let mut r = cat2(a, b);
    r.append(c);
    r
}

/// Four texts in a row.
pub fn cat4(a: &str, b: &str, c: &str, d: &str) -> (r: String)
    ensures
        r@ == a@ + b@ + c@ + d@,
{
    let mut r = cat3(a, b, c);
    r.append(d);
    r
}

/// Five texts in a row.
pub fn cat5(a: &str, b: &str, c: &str, d: &str, e: &str) -> (r: String)
    ensures
        r@ == a@ + b@ + c@ + d@ + e@,
{
    let mut r = cat4(a, b, c, d);
    r.append(e);
    r
}

/// Six texts in a row.
pub fn cat6(a: &str, b: &str, c: &str, d: &str, e: &str, f: &str) -> (r: String)
    ensures
        r@ == a@ + b@ + c@ + d@ + e@ + f@,
{
    let mut r = cat5(a, b, c, d, e);
    r.append(f);
    r
}

/// Lower case keeps what is white space and what is not.
proof fn lemma_lower_space(c: char)
    ensures
        is_space(ascii_lower(c)) == is_space(c),
        ascii_lower(ascii_lower(c)) == ascii_lower(c),
        ascii_upper(ascii_lower(c)) == ascii_upper(c),
{
}

/// Trimming and lower case can be exchanged.
pub proof fn lemma_trim_lowered(s: Seq<char>)
    ensures
        trimmed(lowered(s)) == lowered(trimmed(s)),
{
    lemma_trim_start_lowered(s);
    lemma_trim_end_lowered(trimmed_start(s));
}

proof fn lemma_trim_start_lowered(s: Seq<char>)
    ensures
        trimmed_start(lowered(s)) == lowered(trimmed_start(s)),
    decreases s.len(),
{
    if s.len() > 0 {
        lemma_lower_space(s[0]);
        assert(lowered(s).drop_first() =~= lowered(s.drop_first()));
        if is_space(s[0]) {
            lemma_trim_start_lowered(s.drop_first());
        }
    }
}

proof fn lemma_trim_end_lowered(s: Seq<char>)
    ensures
        trimmed_end(lowered(s)) == lowered(trimmed_end(s)),
    decreases s.len(),
{
    if s.len() > 0 {
        lemma_lower_space(s.last());
        assert(lowered(s).last() == ascii_lower(s.last()));
        assert(lowered(s).drop_last() =~= lowered(s.drop_last()));
        if is_space(s.last()) {
            lemma_trim_end_lowered(s.drop_last());
        }
    }
}

/// What is in lower case stays so, and lower case does not matter to upper case.
pub proof fn lemma_lowered_twice(s: Seq<char>)
    ensures
        lowered(lowered(s)) == lowered(s),
        uppered(lowered(s)) == uppered(s),
{
    assert forall|i: int| 0 <= i < s.len() implies lowered(lowered(s))[i] == lowered(s)[i]
        && uppered(lowered(s))[i] == uppered(s)[i] by {
        lemma_lower_space(s[i]);
    }
    assert(lowered(lowered(s)) =~= lowered(s));
    assert(uppered(lowered(s)) =~= uppered(s));
}

/// A text that begins with something is not blank.
pub proof fn lemma_not_blank(s: Seq<char>)
    requires
        s.len() > 0,
        !is_space(s[0]),
    ensures
        !is_blank(s),
{
    lemma_not_trimmed_away(s);
}

proof fn lemma_not_trimmed_away(s: Seq<char>)
    requires
        s.len() > 0,
        !is_space(s[0]),
    ensures
        trimmed_end(s).len() > 0,
    decreases s.len(),
{
    if is_space(s.last()) {
        assert(s.drop_last()[0] == s[0]);
        lemma_not_trimmed_away(s.drop_last());
    }
}

/// Whether what stands between two places of a text is all of it but white space at
/// either end.
pub open spec fn is_middle(s: Seq<char>, i: int, j: int) -> bool {
    &&& 0 <= i <= j <= s.len()
    &&& forall|k: int| 0 <= k < i || j <= k < s.len() ==> is_space(#[trigger] s[k])
    &&& i < j ==> !is_space(s[i]) && !is_space(s[j - 1])
}

proof fn lemma_trimmed_start_place(s: Seq<char>) -> (i: int)
    ensures
        0 <= i <= s.len(),
        trimmed_start(s) == s.skip(i),
        forall|k: int| 0 <= k < i ==> is_space(#[trigger] s[k]),
        i < s.len() ==> !is_space(s[i]),
    decreases s.len(),
{
    if s.len() > 0 && is_space(s[0]) {
        let j = lemma_trimmed_start_place(s.drop_first());
        assert(s.drop_first().skip(j) =~= s.skip(j + 1));
        assert forall|k: int| 0 <= k < j + 1 implies is_space(#[trigger] s[k]) by {
            if k > 0 {
                assert(s.drop_first()[k - 1] == s[k]);
            }
        }
        j + 1
    } else {
        assert(s.skip(0) =~= s);
        0
    }
}

proof fn lemma_trimmed_end_place(s: Seq<char>) -> (j: int)
    ensures
        0 <= j <= s.len(),
        trimmed_end(s) == s.take(j),
        forall|k: int| j <= k < s.len() ==> is_space(#[trigger] s[k]),
        j > 0 ==> !is_space(s[j - 1]),
    decreases s.len(),
{
    if s.len() > 0 && is_space(s.last()) {
        let j = lemma_trimmed_end_place(s.drop_last());
        assert(s.drop_last().take(j) =~= s.take(j));
        assert forall|k: int| j <= k < s.len() implies is_space(#[trigger] s[k]) by {
            if k < s.len() - 1 {
                assert(s.drop_last()[k] == s[k]);
            }
        }
        j
    } else {
        assert(s.take(s.len() as int) =~= s);
        s.len() as int
    }
}

/// A trimmed text is the text between its outer white space, all of it and nothing
/// else; a blank text is one of white space alone.
pub proof fn law_trimming_takes_white_space_only(s: Seq<char>)
    ensures
        exists|i: int, j: int| #[trigger] is_middle(s, i, j) && trimmed(s) == s.subrange(i, j),
        is_blank(s) <==> forall|k: int| 0 <= k < s.len() ==> is_space(#[trigger] s[k]),
{
    let i = lemma_trimmed_start_place(s);
    let t = s.skip(i);
    let j = lemma_trimmed_end_place(t);
    assert(t.take(j) =~= s.subrange(i, i + j));
    assert forall|k: int| 0 <= k < i || i + j <= k < s.len() implies is_space(#[trigger] s[k]) by {
        if k >= i + j {
            assert(t[k - i] == s[k]);
        }
    }
    if j > 0 {
        assert(t[j - 1] == s[i + j - 1]);
        assert(i < s.len());
    }
    assert(is_middle(s, i, i + j));
    if j > 0 {
        assert(!is_space(s[i]));
    }
}

/// White space in ASCII is the blank and the characters from the tabulator to the
/// carriage return; beyond ASCII it is what Unicode calls so.
pub proof fn law_white_space(c: char)
    ensures
        (c as int) < 128 ==> (is_space(c) <==> c == ' ' || c == '\t' || c == '\n' || c == '\r' || c
            as int == 11 || c as int == 12),
        (c as int) >= 128 ==> (is_space(c) <==> c as int == 0x85 || c as int == 0xA0 || c as int
            == 0x1680 || (0x2000 <= c as int && c as int <= 0x200A) || c as int == 0x2028 || c
            as int == 0x2029 || c as int == 0x202F || c as int == 0x205F || c as int == 0x3000),
{
}

/// Changing the case changes the ASCII letters, each to the other form of itself, and
/// nothing else.
pub proof fn law_case_changes_letters_only(s: Seq<char>)
    ensures
        lowered(s).len() == s.len(),
        uppered(s).len() == s.len(),
        forall|i: int|
            0 <= i < s.len() ==> {
                &&& 'A' <= s[i] && s[i] <= 'Z' ==> (#[trigger] lowered(s)[i]) as int == s[i] as int
                    + 32
                &&& !('A' <= s[i] && s[i] <= 'Z') ==> lowered(s)[i] == s[i]
            },
        forall|i: int|
            0 <= i < s.len() ==> {
                &&& 'a' <= s[i] && s[i] <= 'z' ==> (#[trigger] uppered(s)[i]) as int == s[i] as int
                    - 32
                &&& !('a' <= s[i] && s[i] <= 'z') ==> uppered(s)[i] == s[i]
            },
{
}

/// Joined parts stand in their order, with the separator between each two of them and
/// nowhere else.
pub proof fn law_joined_parts_stand_in_order(
    parts: Seq<Seq<char>>,
    next: Seq<char>,
    sep: Seq<char>,
)
    ensures
        joined(Seq::<Seq<char>>::empty(), sep).len() == 0,
        joined(seq![next], sep) == next,
        parts.len() > 0 ==> joined(parts.push(next), sep) == joined(parts, sep) + sep + next,
{
    assert(parts.push(next).drop_last() =~= parts);
}

proof fn lemma_joined_behind(first: Seq<char>, rest: Seq<Seq<char>>, sep: Seq<char>)
    requires
        rest.len() > 0,
    ensures
        joined(seq![first] + rest, sep) == first + sep + joined(rest, sep),
    decreases rest.len(),
{
    let all = seq![first] + rest;
    if rest.len() == 1 {
        assert(all.drop_last() =~= seq![first]);
        assert(joined(seq![first], sep) == first);
        assert(all.last() == rest[0]);
    } else {
        lemma_joined_behind(first, rest.drop_last(), sep);
        assert(all.drop_last() =~= seq![first] + rest.drop_last());
        assert(all.last() == rest.last());
        assert(first + sep + joined(rest.drop_last(), sep) + sep + rest.last() =~= first + sep + (
        joined(rest.drop_last(), sep) + sep + rest.last()));
    }
}

proof fn lemma_char_position_is_first(s: Seq<char>, c: char)
    ensures
        char_position(s, c) <= s.len(),
        char_position(s, c) < s.len() ==> s[char_position(s, c) as int] == c,
        forall|k: int| 0 <= k < char_position(s, c) ==> s[k] != c,
    decreases s.len(),
{
    if s.len() > 0 && s[0] != c {
        lemma_char_position_is_first(s.drop_first(), c);
        assert forall|k: int| 0 <= k < char_position(s, c) implies s[k] != c by {
            if k > 0 {
                assert(s.drop_first()[k - 1] == s[k]);
            }
        }
    }
}

/// The pieces of a text hold no separator, and joined with it they are the text again.
pub proof fn law_pieces_make_up_the_text(s: Seq<char>, sep: char)
    ensures
        split_on(s, sep).len() > 0,
        joined(split_on(s, sep), seq![sep]) == s,
        forall|i: int|
            0 <= i < split_on(s, sep).len() ==> !(#[trigger] split_on(s, sep)[i]).contains(sep),
    decreases s.len(),
{
    lemma_char_position_is_first(s, sep);
    let at = char_position(s, sep) as int;
    if at < s.len() {
        let head = s.take(at);
        let rest = split_on(s.skip(at + 1), sep);
        law_pieces_make_up_the_text(s.skip(at + 1), sep);
        lemma_joined_behind(head, rest, seq![sep]);
        assert(head + seq![sep] + s.skip(at + 1) =~= s);
        assert forall|i: int| 0 <= i < split_on(s, sep).len() implies !(
        #[trigger] split_on(s, sep)[i]).contains(sep) by {
            if i > 0 {
                assert(split_on(s, sep)[i] == rest[i - 1]);
            }
        }
    } else {
        assert(at == s.len());
    }
}

/// The decimal form of a number is made of digits, with no zero before others, and is
/// read back as the number.
pub proof fn law_decimal_form_reads_back(n: nat, max: nat)
    requires
        n <= max,
    ensures
        decimal_text(n).len() > 0,
        forall|i: int|
            0 <= i < decimal_text(n).len() ==> '0' <= #[trigger] decimal_text(n)[i]
                && decimal_text(n)[i] <= '9',
        decimal_text(n)[0] == '0' ==> n == 0,
        decimal_text(n).last() as int == 48 + n % 10,
        n >= 10 ==> decimal_text(n).drop_last() == decimal_text(n / 10),
        n < 10 ==> decimal_text(n).len() == 1,
        digits_value(decimal_text(n), max) == Ok::<nat, IntParseError>(n),
        unsigned_value(decimal_text(n), max) == Ok::<nat, IntParseError>(n),
    decreases n,
{
    if n >= 10 {
        law_decimal_form_reads_back(n / 10, max);
        assert(decimal_text(n).drop_last() =~= decimal_text(n / 10));
        assert(decimal_text(n)[0] == decimal_text(n / 10)[0]);
    } else {
        assert(decimal_text(n).drop_last() =~= Seq::empty());
        assert(digits_value(decimal_text(n).drop_last(), max) == Ok::<nat, IntParseError>(0));
    }
}

/// A number is read only from digits, with a `+` before them at most, and is never
/// larger than allowed.
pub proof fn law_only_digits_are_numbers(s: Seq<char>, max: nat)
    requires
        unsigned_value(s, max) is Ok,
    ensures
        s.len() > 0,
        forall|i: int|
            0 <= i < s.len() ==> ('0' <= #[trigger] s[i] && s[i] <= '9') || (i == 0 && s[0] == '+'),
        unsigned_value(s, max)->Ok_0 <= max,
{
    if s[0] == '+' {
        lemma_digits_only(s.drop_first(), max);
        assert forall|i: int| 0 < i < s.len() implies '0' <= #[trigger] s[i] && s[i] <= '9' by {
            assert(s.drop_first()[i - 1] == s[i]);
        }
    } else {
        lemma_digits_only(s, max);
    }
}

proof fn lemma_digits_only(s: Seq<char>, max: nat)
    requires
        digits_value(s, max) is Ok,
    ensures
        forall|i: int| 0 <= i < s.len() ==> '0' <= #[trigger] s[i] && s[i] <= '9',
        s.len() > 0 ==> digits_value(s, max)->Ok_0 <= max,
    decreases s.len(),
{
    if s.len() > 0 {
        lemma_digits_only(s.drop_last(), max);
        assert forall|i: int| 0 <= i < s.len() implies '0' <= #[trigger] s[i] && s[i] <= '9' by {
            if i < s.len() - 1 {
                assert(s.drop_last()[i] == s[i]);
            }
        }
    }
}

/// Searching finds the first place at which a text stands, from a place on, and finds
/// none only where there is none.
pub proof fn law_search_finds_the_first(s: Seq<char>, needle: Seq<char>, from: int)
    requires
        0 <= from,
    ensures
        find_from(s, needle, from) matches Some(at) ==> {
            &&& from <= at
            &&& at + needle.len() <= s.len()
            &&& s.subrange(at, at + needle.len()) == needle
            &&& forall|k: int| from <= k < at ==> !#[trigger] occurs_at(s, needle, k)
        },
        find_from(s, needle, from) is None ==> forall|k: int|
            from <= k ==> !#[trigger] occurs_at(s, needle, k),
        from == 0 ==> (has_part(s, needle) <==> exists|k: int| #[trigger] occurs_at(s, needle, k)),
    decreases s.len() + 1 - from,
{
    if from + needle.len() <= s.len() && !occurs_at(s, needle, from) {
        law_search_finds_the_first(s, needle, from + 1);
    }
    if find_from(s, needle, from) is Some {
        assert(occurs_at(s, needle, find_from(s, needle, from)->0));
    }
}

/// Whether two texts are the same but for the case of ASCII letters.
pub open spec fn same_but_case(a: Seq<char>, b: Seq<char>) -> bool {
    &&& a.len() == b.len()
    &&& forall|i: int|
        0 <= i < a.len() ==> {
            ||| #[trigger] a[i] == b[i]
            ||| 'A' <= a[i] && a[i] <= 'Z' && b[i] as int == a[i] as int + 32
            ||| 'a' <= a[i] && a[i] <= 'z' && b[i] as int == a[i] as int - 32
        }
}

/// Texts have one form in lower case exactly where they are the same but for case.
pub proof fn law_lower_case_unites_cases(a: Seq<char>, b: Seq<char>)
    ensures
        lowered(a) == lowered(b) <==> same_but_case(a, b),
{
    assert(lowered(a).len() == a.len());
    assert(lowered(b).len() == b.len());
    if lowered(a) == lowered(b) {
        assert forall|i: int| 0 <= i < a.len() implies {
            ||| #[trigger] a[i] == b[i]
            ||| 'A' <= a[i] && a[i] <= 'Z' && b[i] as int == a[i] as int + 32
            ||| 'a' <= a[i] && a[i] <= 'z' && b[i] as int == a[i] as int - 32
        } by {
            assert(lowered(a)[i] == ascii_lower(a[i]));
            assert(lowered(b)[i] == ascii_lower(b[i]));
        }
    }
    if same_but_case(a, b) {
        assert forall|i: int| 0 <= i < a.len() implies lowered(a)[i] == lowered(b)[i] by {
            assert(a[i] == a[i]);
            assert(lowered(a)[i] == ascii_lower(a[i]));
            assert(lowered(b)[i] == ascii_lower(b[i]));
        }
        assert(lowered(a) =~= lowered(b));
    }
}

/// The first separator ends the first piece.
pub proof fn law_first_piece_ends_at_the_separator(a: Seq<char>, b: Seq<char>, sep: char)
    requires
        !a.contains(sep),
    ensures
        split_on(a + seq![sep] + b, sep) == seq![a] + split_on(b, sep),
        split_on(a, sep) == seq![a],
{
    let s = a + seq![sep] + b;
    assert forall|k: int| 0 <= k < a.len() implies #[trigger] a[k] != sep by {
        assert(a.contains(a[k]));
    }
    assert forall|k: int| 0 <= k < a.len() implies #[trigger] s[k] != sep by {
        assert(s[k] == a[k]);
    }
    lemma_char_position(s, sep, a.len() as int);
    lemma_char_position(a, sep, a.len() as int);
    assert(s.take(a.len() as int) =~= a);
    assert(s.skip(a.len() as int + 1) =~= b);
}

/// A number below zero is written with a minus sign before the digits of its size, any
/// other number with its digits alone.
pub proof fn law_signed_numbers_are_written(n: nat)
    ensures
        signed_text(n as int) == decimal_text(n),
        n > 0 ==> signed_text(-n) == seq!['-'] + decimal_text(n),
{
}

} // verus!
