use vstd::prelude::*;

verus! {

/// Compares two string slices. Calls `<str as PartialEq>::eq`; the claim is that
/// two slices compare equal exactly when they hold the same characters.
#[verifier::external_body]
pub(crate) fn str_eq(a: &str, b: &str) -> (r: bool)
    ensures
        r == (a@ == b@),
{
    a == b
}

/// The characters of a string slice. Calls `str::chars` and collects them; the
/// claim is that they are the slice's characters in order.
#[verifier::external_body]
pub(crate) fn chars_of(s: &str) -> (r: Vec<char>)
    ensures
        r@ == s@,
{
    s.chars().collect()
}

/// A string of the given characters. Collects them with `FromIterator<char>`
/// for `String`; the claim is that the string holds exactly these characters.
#[verifier::external_body]
pub(crate) fn string_of(cs: &[char]) -> (r: String)
    ensures
        r@ == cs@,
{
    cs.iter().collect()
}

/// Appends one character. Calls `String::push`; the claim is that the character
/// is added at the end.
#[verifier::external_body]
pub(crate) fn push_char(s: &mut String, c: char)
    ensures
        final(s)@ == old(s)@.push(c),
{
    s.push(c)
}

/// The lowercase mapping of Unicode that `str::to_lowercase` applies.
pub uninterp spec fn lowercase(s: Seq<char>) -> Seq<char>;

/// Calls `str::to_lowercase`; the result is named `lowercase` of the argument.
#[verifier::external_body]
pub(crate) fn to_lowercase(s: &str) -> (r: String)
    ensures
        r@ == lowercase(s@),
{
    s.to_lowercase()
}

/// `needle` occurs in `hay` at position `i`.
pub open spec fn occurs_at(hay: Seq<char>, needle: Seq<char>, i: int) -> bool {
    0 <= i && i + needle.len() <= hay.len() && hay.subrange(i, i + needle.len()) == needle
}

/// The first position, from `i` on, where `needle` occurs in `hay`.
pub open spec fn first_from(hay: Seq<char>, needle: Seq<char>, i: nat) -> Option<int>
    decreases hay.len() + 1 - i,
{
    if i + needle.len() > hay.len() {
        None
    } else if occurs_at(hay, needle, i as int) {
        Some(i as int)
    } else {
        first_from(hay, needle, i + 1)
    }
}

/// The first position where `needle` occurs in `hay`.
pub open spec fn find_seq(hay: Seq<char>, needle: Seq<char>) -> Option<int> {
    first_from(hay, needle, 0)
}

/// Whether `needle` occurs in `hay`.
pub open spec fn has_seq(hay: Seq<char>, needle: Seq<char>) -> bool {
    find_seq(hay, needle) is Some
}

proof fn lemma_first_from(hay: Seq<char>, needle: Seq<char>, i: nat)
    ensures
        first_from(hay, needle, i) matches Some(j) ==> i <= j && occurs_at(hay, needle, j)
            && forall|m: int| i <= m < j ==> !occurs_at(hay, needle, m),
        first_from(hay, needle, i) is None ==> forall|m: int| i <= m ==> !occurs_at(hay, needle, m),
    decreases hay.len() + 1 - i,
{
    if i + needle.len() <= hay.len() {
        lemma_first_from(hay, needle, i + 1);
    }
}

/// `has_seq` means that the needle occurs somewhere.
pub proof fn lemma_has_seq(hay: Seq<char>, needle: Seq<char>)
    ensures
        has_seq(hay, needle) <==> exists|i: int| occurs_at(hay, needle, i),
        find_seq(hay, needle) matches Some(j) ==> occurs_at(hay, needle, j),
{
    lemma_first_from(hay, needle, 0);
}

fn occurs_here(hay: &Vec<char>, needle: &Vec<char>, i: usize) -> (r: bool)
    requires
        i + needle@.len() <= hay@.len(),
    ensures
        r == occurs_at(hay@, needle@, i as int),
{
    let mut k: usize = 0;
    while k < needle.len()
        invariant
            i + needle@.len() <= hay.len(),
            k <= needle@.len(),
            forall|t: int| 0 <= t < k ==> hay@[i + t] == needle@[t],
        decreases needle@.len() - k,
    {
        if hay[i + k] != needle[k] {
            assert(hay@.subrange(i as int, i + needle@.len())[k as int] != needle@[k as int]);
            return false;
        }
        k = k + 1;
    }
    assert(hay@.subrange(i as int, i + needle@.len()) =~= needle@);
    true
}

/// Position of the first occurrence of `needle` in `hay`.
pub fn find_chars(hay: &Vec<char>, needle: &Vec<char>) -> (r: Option<usize>)
    ensures
        match r {
            Some(i) => find_seq(hay@, needle@) == Some(i as int) && i + needle@.len() <= hay.len(),
            None => find_seq(hay@, needle@) is None,
        },
{
    if needle.len() > hay.len() {
        return None;
    }
    let last = hay.len() - needle.len();
    let mut i: usize = 0;
    while i <= last
        invariant
            last + needle@.len() == hay@.len(),
            i <= last + 1,
            find_seq(hay@, needle@) == first_from(hay@, needle@, i as nat),
        decreases last + 1 - i,
    {
        if occurs_here(hay, needle, i) {
            return Some(i);
        }
        if i == last {
            assert(first_from(hay@, needle@, (i + 1) as nat) is None);
            return None;
        }
        i = i + 1;
    }
    None
}

/// Whether `needle` occurs in `hay`.
pub fn contains(hay: &str, needle: &str) -> (r: bool)
    ensures
        r == has_seq(hay@, needle@),
{
    let h = chars_of(hay);
    let n = chars_of(needle);
    find_chars(&h, &n).is_some()
}

/// The characters that `char::is_whitespace` accepts: those with the Unicode
/// `White_Space` property.
pub open spec fn is_space(c: char) -> bool {
    let u = c as u32;
    ||| 0x09 <= u <= 0x0D
    ||| u == 0x20
    ||| u == 0x85
    ||| u == 0xA0
    ||| u == 0x1680
    ||| 0x2000 <= u <= 0x200A
    ||| u == 0x2028
    ||| u == 0x2029
    ||| u == 0x202F
    ||| u == 0x205F
    ||| u == 0x3000
}

/// Whether `c` is white space.
pub fn is_space_char(c: char) -> (r: bool)
    ensures
        r == is_space(c),
{
    let u = c as u32;
    (0x09 <= u && u <= 0x0D) || u == 0x20 || u == 0x85 || u == 0xA0 || u == 0x1680
        || (0x2000 <= u && u <= 0x200A) || u == 0x2028 || u == 0x2029 || u == 0x202F
        || u == 0x205F || u == 0x3000
}

/// The first position at or after `i` whose character is (`space`) or is not
/// (`!space`) white space, or the length when there is none.
pub open spec fn scan_space(s: Seq<char>, i: nat, space: bool) -> nat
    decreases s.len() - i,
{
    if i >= s.len() {
        s.len()
    } else if is_space(s[i as int]) == space {
        i
    } else {
        scan_space(s, i + 1, space)
    }
}

/// The first word of `s`: its first maximal run of non-white-space characters.
pub open spec fn first_word(s: Seq<char>) -> Option<Seq<char>> {
    let start = scan_space(s, 0, false);
    if start >= s.len() {
        None
    } else {
        Some(s.subrange(start as int, scan_space(s, start, true) as int))
    }
}

proof fn lemma_scan_space(s: Seq<char>, i: nat, space: bool)
    ensures
        i <= s.len() ==> i <= scan_space(s, i, space) <= s.len(),
        i > s.len() ==> scan_space(s, i, space) == s.len(),
    decreases s.len() - i,
{
    if i < s.len() {
        lemma_scan_space(s, i + 1, space);
    }
}

fn scan(s: &Vec<char>, i: usize, space: bool) -> (r: usize)
    requires
        i <= s@.len(),
    ensures
        r == scan_space(s@, i as nat, space),
{
    let mut k = i;
    while k < s.len()
        invariant
            i <= k <= s@.len(),
            scan_space(s@, i as nat, space) == scan_space(s@, k as nat, space),
        decreases s@.len() - k,
    {
        if is_space_char(s[k]) == space {
            return k;
        }
        k = k + 1;
    }
    k
}

/// The first word of `s`.
pub fn first_word_of(s: &Vec<char>) -> (r: Option<Vec<char>>)
    ensures
        match r {
            Some(w) => first_word(s@) == Some(w@),
            None => first_word(s@) is None,
        },
{
    let start = scan(s, 0, false);
    if start >= s.len() {
        return None;
    }
    let end = scan(s, start, true);
    proof {
        lemma_scan_space(s@, start as nat, true);
    }
    Some(slice_chars(s, start, end))
}

/// The characters of `s` from `from` up to `to`.
pub fn slice_chars(s: &Vec<char>, from: usize, to: usize) -> (r: Vec<char>)
    requires
        from <= to <= s@.len(),
    ensures
        r@ == s@.subrange(from as int, to as int),
{
    let mut out: Vec<char> = Vec::new();
    let mut k = from;
    while k < to
        invariant
            from <= k <= to <= s@.len(),
            out@ == s@.subrange(from as int, k as int),
        decreases to - k,
    {
        out.push(s[k]);
        assert(s@.subrange(from as int, k + 1) =~= s@.subrange(from as int, k as int).push(s@[k as int]));
        k = k + 1;
    }
    out
}

/// Numeric value of an ASCII decimal digit.
pub open spec fn digit_value(c: char) -> nat {
    (c as u32 - '0' as u32) as nat
}

/// Whether every character is an ASCII decimal digit.
pub open spec fn all_digits(s: Seq<char>) -> bool {
    forall|i: int| 0 <= i < s.len() ==> '0' <= #[trigger] s[i] <= '9'
}

/// The number that a string of decimal digits denotes.
pub open spec fn digits_value(s: Seq<char>) -> nat
    decreases s.len(),
{
    if s.len() == 0 {
        0
    } else {
        digits_value(s.drop_last()) * 10 + digit_value(s.last())
    }
}

/// What `<u64 as FromStr>::from_str` accepts: an optional `+`, then one or more
/// ASCII digits whose value fits in 64 bits.
pub open spec fn parse_u64_spec(s: Seq<char>) -> Option<u64> {
    let digits = if s.len() > 0 && s[0] == '+' { s.drop_first() } else { s };
    if digits.len() == 0 || !all_digits(digits) || digits_value(digits) > u64::MAX {
        None
    } else {
        Some(digits_value(digits) as u64)
    }
}

/// Parses an unsigned 64-bit decimal number.
pub fn parse_u64(s: &Vec<char>) -> (r: Option<u64>)
    ensures
        r == parse_u64_spec(s@),
{
    let start: usize = if s.len() > 0 && s[0] == '+' { 1 } else { 0 };
    let ghost digits = if s@.len() > 0 && s@[0] == '+' { s@.drop_first() } else { s@ };
    assert(digits =~= s@.subrange(start as int, s@.len() as int));
    if start >= s.len() {
        return None;
    }
    let mut value: u64 = 0;
    let mut k = start;
    while k < s.len()
        invariant
            start <= k <= s@.len(),
            digits =~= s@.subrange(start as int, s@.len() as int),
            digits == (if s@.len() > 0 && s@[0] == '+' { s@.drop_first() } else { s@ }),
            all_digits(s@.subrange(start as int, k as int)),
            value as nat == digits_value(s@.subrange(start as int, k as int)),
        decreases s@.len() - k,
    {
        let c = s[k];
        let ghost prefix = s@.subrange(start as int, k + 1);
        assert(prefix.drop_last() =~= s@.subrange(start as int, k as int));
        if c < '0' || c > '9' {
            assert(!all_digits(digits)) by {
                assert(digits[k - start] == c);
            }
            assert(parse_u64_spec(s@) is None);
            return None;
        }
        let d = (c as u32 - '0' as u32) as u64;
        let next = match value.checked_mul(10) {
            Some(m) => m.checked_add(d),
            None => None,
        };
        match next {
            Some(v) => {
                value = v;
            },
            None => {
                proof {
                    lemma_digits_value_prefix(digits, (k + 1 - start) as nat);
                    assert(digits.subrange(0, (k + 1 - start) as int) =~= prefix);
                    assert(digits_value(prefix) == digits_value(prefix.drop_last()) * 10 + digit_value(c));
                    assert(digits_value(prefix) > u64::MAX);
                }
                assert(parse_u64_spec(s@) is None);
                return None;
            },
        }
        k = k + 1;
    }
    Some(value)
}

/// A longer run of digits denotes at least as much as any of its prefixes.
pub proof fn lemma_digits_value_prefix(s: Seq<char>, n: nat)
    requires
        n <= s.len(),
    ensures
        digits_value(s.subrange(0, n as int)) <= digits_value(s),
    decreases s.len(),
{
    if n < s.len() {
        lemma_digits_value_prefix(s.drop_last(), n);
        assert(s.drop_last().subrange(0, n as int) =~= s.subrange(0, n as int));
    } else {
        assert(s.subrange(0, n as int) =~= s);
    }
}

/// The decimal digits of `n`, most significant first, with no leading zero.
pub open spec fn decimal(n: nat) -> Seq<char>
    decreases n,
{
    if n < 10 {
        seq![digit_char(n)]
    } else {
        decimal(n / 10).push(digit_char(n % 10))
    }
}

/// The ASCII digit of a value below ten.
pub open spec fn digit_char(d: nat) -> char {
    if d == 0 { '0' } else if d == 1 { '1' } else if d == 2 { '2' } else if d == 3 { '3' }
    else if d == 4 { '4' } else if d == 5 { '5' } else if d == 6 { '6' } else if d == 7 { '7' }
    else if d == 8 { '8' } else { '9' }
}

/// Reading the decimal digits of `n` gives `n` back.
pub proof fn lemma_decimal_reads_back(n: nat)
    ensures
        decimal(n).len() > 0,
        all_digits(decimal(n)),
        digits_value(decimal(n)) == n,
    decreases n,
{
    let d = digit_char(n % 10);
    assert('0' <= d <= '9' && digit_value(d) == n % 10);
    if n < 10 {
        assert(seq![d].drop_last() =~= Seq::<char>::empty());
        assert(seq![d].last() == d);
        assert(digits_value(seq![d]) == digits_value(Seq::<char>::empty()) * 10 + digit_value(d));
    } else {
        lemma_decimal_reads_back(n / 10);
        let s = decimal(n / 10).push(d);
        assert(s.drop_last() =~= decimal(n / 10));
        assert(s.last() == d);
        assert(digits_value(s) == digits_value(decimal(n / 10)) * 10 + digit_value(d));
        assert((n / 10) * 10 + n % 10 == n) by (nonlinear_arith);
        assert forall|i: int| 0 <= i < s.len() implies '0' <= #[trigger] s[i] <= '9' by {
            if i < s.len() - 1 {
                assert(s[i] == decimal(n / 10)[i]);
            }
        }
    }
}

pub(crate) fn digit(d: u128) -> (c: char)
    requires
        d < 10,
    ensures
        c == digit_char(d as nat),
{
    if d == 0 { '0' } else if d == 1 { '1' } else if d == 2 { '2' } else if d == 3 { '3' }
    else if d == 4 { '4' } else if d == 5 { '5' } else if d == 6 { '6' } else if d == 7 { '7' }
    else if d == 8 { '8' } else { '9' }
}

/// The decimal representation of `n`.
pub fn decimal_string(n: u128) -> (r: String)
    ensures
        r@ == decimal(n as nat),
    decreases n,
{
    if n < 10 {
        let mut s = String::new();
        push_char(&mut s, digit(n));
        assert(s@ =~= seq![digit_char(n as nat)]);
        s
    } else {
        let mut s = decimal_string(n / 10);
        push_char(&mut s, digit(n % 10));
        s
    }
}

} // verus!

verus! {

/// The uppercase mapping of Unicode that `str::to_uppercase` applies.
pub uninterp spec fn uppercase(s: Seq<char>) -> Seq<char>;

/// Calls `str::to_uppercase`; the result is named `uppercase` of the argument.
#[verifier::external_body]
pub(crate) fn to_uppercase(s: &str) -> (r: String)
    ensures
        r@ == uppercase(s@),
{
    s.to_uppercase()
}

/// The text with every space replaced by an underscore.
pub open spec fn underscored(s: Seq<char>) -> Seq<char> {
    s.map_values(|c: char| if c == ' ' { '_' } else { c })
}

/// Replaces every space by an underscore.
pub fn replace_spaces(s: &str) -> (r: String)
    ensures
        r@ == underscored(s@),
{
    let cs = chars_of(s);
    let mut out = String::new();
    let mut i: usize = 0;
    while i < cs.len()
        invariant
            i <= cs@.len(),
            cs@ == s@,
            out@ == underscored(cs@.take(i as int)),
        decreases cs@.len() - i,
    {
        let c = cs[i];
        push_char(&mut out, if c == ' ' { '_' } else { c });
        assert(underscored(cs@.take(i + 1)) =~= underscored(cs@.take(i as int)).push(if c == ' ' { '_' } else { c }));
        i = i + 1;
    }
    assert(cs@.take(cs@.len() as int) =~= cs@);
    out
}

} // verus!

verus! {

/// The text without the ending `suffix`, when it ends so.
pub open spec fn without_suffix(s: Seq<char>, suffix: Seq<char>) -> Option<Seq<char>> {
    if s.len() >= suffix.len() && s.skip(s.len() - suffix.len()) == suffix {
        Some(s.take(s.len() - suffix.len()))
    } else {
        None
    }
}

/// The text without the ending `suffix`, when it ends so.
pub fn strip_suffix(s: &str, suffix: &str) -> (r: Option<String>)
    ensures
        match r {
            Some(t) => without_suffix(s@, suffix@) == Some(t@),
            None => without_suffix(s@, suffix@) is None,
        },
{
    let cs = chars_of(s);
    let sf = chars_of(suffix);
    if cs.len() < sf.len() {
        return None;
    }
    let start = cs.len() - sf.len();
    let mut i: usize = 0;
    while i < sf.len()
        invariant
            i <= sf@.len(),
            cs@ == s@,
            sf@ == suffix@,
            start + sf@.len() == cs@.len(),
            cs@.len() <= usize::MAX,
            forall|k: int| 0 <= k < i ==> cs@[start + k] == sf@[k],
        decreases sf@.len() - i,
    {
        if cs[start + i] != sf[i] {
            assert(cs@.skip(start as int)[i as int] != sf@[i as int]);
            assert(cs@.skip(start as int) != sf@);
            return None;
        }
        i = i + 1;
    }
    assert(cs@.skip(start as int) =~= sf@);
    let head = slice_chars(&cs, 0, start);
    assert(head@ =~= s@.take(start as int));
    Some(string_of(head.as_slice()))
}

} // verus!

verus! {

/// The text without the leading `prefix`, when it starts so.
pub open spec fn without_prefix(s: Seq<char>, prefix: Seq<char>) -> Option<Seq<char>> {
    if s.len() >= prefix.len() && s.take(prefix.len() as int) == prefix {
        Some(s.skip(prefix.len() as int))
    } else {
        None
    }
}

/// The text without the leading `prefix`, when it starts so.
pub fn strip_prefix(s: &str, prefix: &str) -> (r: Option<String>)
    ensures
        match r {
            Some(t) => without_prefix(s@, prefix@) == Some(t@),
            None => without_prefix(s@, prefix@) is None,
        },
{
    let cs = chars_of(s);
    let pf = chars_of(prefix);
    if cs.len() < pf.len() {
        return None;
    }
    let mut i: usize = 0;
    while i < pf.len()
        invariant
            i <= pf@.len(),
            pf@.len() <= cs@.len(),
            cs@ == s@,
            pf@ == prefix@,
            forall|k: int| 0 <= k < i ==> cs@[k] == pf@[k],
        decreases pf@.len() - i,
    {
        if cs[i] != pf[i] {
            assert(cs@.take(pf@.len() as int)[i as int] != pf@[i as int]);
            return None;
        }
        i = i + 1;
    }
    assert(cs@.take(pf@.len() as int) =~= pf@);
    let rest = slice_chars(&cs, pf.len(), cs.len());
    assert(rest@ =~= s@.skip(prefix@.len() as int));
    Some(string_of(rest.as_slice()))
}

} // verus!
