use vstd::prelude::*;

verus! {

/// Unicode `White_Space` characters, the set that `char::is_whitespace` and
/// `str::trim` use.
pub open spec fn is_white_space(c: char) -> bool {
    let u = c as u32;
    ||| 0x9 <= u <= 0xd
    ||| u == 0x20
    ||| u == 0x85
    ||| u == 0xa0
    ||| u == 0x1680
    ||| 0x2000 <= u <= 0x200a
    ||| u == 0x2028
    ||| u == 0x2029
    ||| u == 0x202f
    ||| u == 0x205f
    ||| u == 0x3000
}

/// The characters a strip removes: dots, or else white space.
pub open spec fn is_stripped(c: char, dots: bool) -> bool {
    if dots {
        c == '.'
    } else {
        is_white_space(c)
    }
}

/// The text with leading stripped characters removed.
pub open spec fn strip_start(s: Seq<char>, dots: bool) -> Seq<char>
    decreases s.len(),
{
    if s.len() > 0 && is_stripped(s[0], dots) {
        strip_start(s.drop_first(), dots)
    } else {
        s
    }
}

/// The text with trailing stripped characters removed.
pub open spec fn strip_end(s: Seq<char>, dots: bool) -> Seq<char>
    decreases s.len(),
{
    if s.len() > 0 && is_stripped(s.last(), dots) {
        strip_end(s.drop_last(), dots)
    } else {
        s
    }
}

/// What `str::trim` gives back.
pub open spec fn trim(s: Seq<char>) -> Seq<char> {
    strip_end(strip_start(s, false), false)
}

/// What `str::trim_matches('.')` gives back.
pub open spec fn trim_dots(s: Seq<char>) -> Seq<char> {
    strip_end(strip_start(s, true), true)
}

/// Every character is white space (so the trimmed text is empty).
pub open spec fn is_blank(s: Seq<char>) -> bool {
    forall|i: int| 0 <= i < s.len() ==> is_white_space(#[trigger] s[i])
}

pub fn is_white_space_char(c: char) -> (b: bool)
    ensures
        b == is_white_space(c),
{
    let u = c as u32;
    (0x9 <= u && u <= 0xd) || u == 0x20 || u == 0x85 || u == 0xa0 || u == 0x1680 || (0x2000 <= u
        && u <= 0x200a) || u == 0x2028 || u == 0x2029 || u == 0x202f || u == 0x205f || u == 0x3000
}

/// `strip_start(s, dots)` is the suffix of `s` that starts at the first character
/// the strip keeps.
pub proof fn lemma_trim_start_at(s: Seq<char>, i: int, dots: bool)
    requires
        0 <= i <= s.len(),
        forall|k: int| 0 <= k < i ==> is_stripped(#[trigger] s[k], dots),
        i == s.len() || !is_stripped(s[i], dots),
    ensures
        strip_start(s, dots) == s.subrange(i, s.len() as int),
    decreases i,
{
    if i == 0 {
        assert(s.subrange(0, s.len() as int) =~= s);
    } else {
        let t = s.drop_first();
        assert forall|k: int| 0 <= k < i - 1 implies is_stripped(#[trigger] t[k], dots) by {
            assert(t[k] == s[k + 1]);
        }
        lemma_trim_start_at(t, i - 1, dots);
        assert(t.subrange(i - 1, t.len() as int) =~= s.subrange(i, s.len() as int));
    }
}

/// `strip_end(s, dots)` is the prefix of `s` that ends after the last character
/// the strip keeps.
pub proof fn lemma_trim_end_at(s: Seq<char>, j: int, dots: bool)
    requires
        0 <= j <= s.len(),
        forall|k: int| j <= k < s.len() ==> is_stripped(#[trigger] s[k], dots),
        j == 0 || !is_stripped(s[j - 1], dots),
    ensures
        strip_end(s, dots) == s.subrange(0, j),
    decreases s.len() - j,
{
    if j == s.len() {
        assert(s.subrange(0, j) =~= s);
    } else {
        let t = s.drop_last();
        assert forall|k: int| j <= k < t.len() implies is_stripped(#[trigger] t[k], dots) by {
            assert(t[k] == s[k]);
        }
        assert(is_stripped(s[s.len() - 1], dots));
        lemma_trim_end_at(t, j, dots);
        assert(t.subrange(0, j) =~= s.subrange(0, j));
    }
}

/// The characters of a string.
#[verifier::external_body]
pub(crate) fn chars_of(s: &str) -> (v: Vec<char>)
    ensures
        v@ == s@,
{
    s.chars().collect()
}

/// A string made of the given characters.
#[verifier::external_body]
pub(crate) fn string_of(v: &[char]) -> (s: String)
    ensures
        s@ == v@,
{
    v.iter().collect()
}

fn is_stripped_char(c: char, dots: bool) -> (b: bool)
    ensures
        b == is_stripped(c, dots),
{
    if dots {
        c == '.'
    } else {
        is_white_space_char(c)
    }
}

/// Strips leading and trailing dots, or else white space.
pub fn strip_chars(s: &Vec<char>, dots: bool) -> (r: Vec<char>)
    ensures
        r@ == strip_end(strip_start(s@, dots), dots),
{
    let n = s.len();
    let mut i: usize = 0;
    while i < n && is_stripped_char(s[i], dots)
        invariant
            n == s.len(),
            i <= n,
            forall|k: int| 0 <= k < i ==> is_stripped(#[trigger] s@[k], dots),
        decreases n - i,
    {
        i = i + 1;
    }
    proof {
        lemma_trim_start_at(s@, i as int, dots);
    }
    let ghost t = s@.subrange(i as int, n as int);
    let mut j: usize = n;
    while j > i && is_stripped_char(s[j - 1], dots)
        invariant
            n == s.len(),
            i <= j <= n,
            forall|k: int| j <= k < n ==> is_stripped(#[trigger] s@[k], dots),
        decreases j,
    {
        j = j - 1;
    }
    proof {
        assert forall|k: int| j - i <= k < t.len() implies is_stripped(#[trigger] t[k], dots) by {
            assert(t[k] == s@[k + i]);
        }
        if j > i {
            assert(t[j - i - 1] == s@[j - 1]);
        }
        lemma_trim_end_at(t, j - i, dots);
        assert(t.subrange(0, j - i) =~= s@.subrange(i as int, j as int));
    }
    let mut r: Vec<char> = Vec::new();
    let mut k: usize = i;
    while k < j
        invariant
            n == s.len(),
            i <= k <= j <= n,
            r@ == s@.subrange(i as int, k as int),
        decreases j - k,
    {
        r.push(s[k]);
        k = k + 1;
        proof {
            assert(r@ =~= s@.subrange(i as int, k as int));
        }
    }
    r
}

/// `str::trim` on characters.
pub fn trim_chars(s: &Vec<char>) -> (r: Vec<char>)
    ensures
        r@ == trim(s@),
{
    strip_chars(s, false)
}

/// Whether the text is empty once trimmed.
pub fn is_blank_chars(s: &Vec<char>) -> (b: bool)
    ensures
        b == is_blank(s@),
        b == (trim(s@).len() == 0),
{
    let n = s.len();
    let mut i: usize = 0;
    while i < n
        invariant
            n == s.len(),
            i <= n,
            forall|k: int| 0 <= k < i ==> is_white_space(#[trigger] s@[k]),
        decreases n - i,
    {
        if !is_white_space_char(s[i]) {
            proof {
                lemma_trim_start_first(s@, i as int);
            }
            return false;
        }
        i = i + 1;
    }
    proof {
        lemma_trim_start_at(s@, n as int, false);
        lemma_trim_end_at(Seq::empty(), 0, false);
    }
    true
}

/// Trimming keeps the first character that is not white space.
pub proof fn lemma_trim_start_first(s: Seq<char>, i: int)
    requires
        0 <= i < s.len(),
        forall|k: int| 0 <= k < i ==> is_white_space(#[trigger] s[k]),
        !is_white_space(s[i]),
    ensures
        trim(s).len() > 0,
{
    lemma_trim_start_at(s, i, false);
    let t = s.subrange(i, s.len() as int);
    assert(t[0] == s[i]);
    lemma_trim_end_nonempty(t);
}

/// A text whose first character is not white space stays non-empty when its end
/// is trimmed.
pub proof fn lemma_trim_end_nonempty(t: Seq<char>)
    requires
        t.len() > 0,
        !is_white_space(t[0]),
    ensures
        strip_end(t, false).len() > 0,
    decreases t.len(),
{
    if is_white_space(t.last()) {
        assert(t.len() > 1);
        assert(t.drop_last()[0] == t[0]);
        lemma_trim_end_nonempty(t.drop_last());
    }
}

/// What `char::to_ascii_lowercase` gives back.
pub open spec fn ascii_lower(c: char) -> char {
    if 'A' <= c <= 'Z' {
        ((c as u32) + 32) as char
    } else {
        c
    }
}

/// What `str::to_ascii_lowercase` gives back.
pub open spec fn ascii_lower_seq(s: Seq<char>) -> Seq<char> {
    s.map_values(|c: char| ascii_lower(c))
}

pub fn ascii_lower_char(c: char) -> (r: char)
    ensures
        r == ascii_lower(c),
{
    if 'A' <= c && c <= 'Z' {
        let u: u8 = (c as u8) + 32;
        u as char
    } else {
        c
    }
}

/// `str::to_ascii_lowercase` on characters.
pub fn ascii_lower_chars(s: &Vec<char>) -> (r: Vec<char>)
    ensures
        r@ == ascii_lower_seq(s@),
{
    let mut r: Vec<char> = Vec::new();
    let mut i: usize = 0;
    while i < s.len()
        invariant
            i <= s.len(),
            r@ == ascii_lower_seq(s@.subrange(0, i as int)),
        decreases s.len() - i,
    {
        r.push(ascii_lower_char(s[i]));
        i = i + 1;
        proof {
            assert(r@ =~= ascii_lower_seq(s@.subrange(0, i as int)));
        }
    }
    proof {
        assert(s@.subrange(0, s.len() as int) =~= s@);
    }
    r
}

/// The decimal digit of a value below ten.
pub open spec fn digit_char(d: nat) -> char {
    ((d + 48) as u32) as char
}

/// The decimal text of a number, as `Display` writes it for unsigned integers.
pub open spec fn decimal(n: nat) -> Seq<char>
    decreases n,
{
    if n < 10 {
        seq![digit_char(n)]
    } else {
        decimal(n / 10).push(digit_char(n % 10))
    }
}

fn digit(d: u64) -> (c: char)
    requires
        d < 10,
    ensures
        c == digit_char(d as nat),
{
    let u: u8 = (d as u8) + 48;
    u as char
}

/// The decimal text of an unsigned number.
pub fn decimal_chars(n: u64) -> (r: Vec<char>)
    ensures
        r@ == decimal(n as nat),
    decreases n,
{
    if n < 10 {
        let mut r: Vec<char> = Vec::new();
        r.push(digit(n));
        proof {
            assert(r@ =~= seq![digit_char(n as nat)]);
        }
        r
    } else {
        let mut r = decimal_chars(n / 10);
        r.push(digit(n % 10));
        r
    }
}

/// Whether the characters spell the given text.
pub fn chars_equal(a: &Vec<char>, b: &str) -> (r: bool)
    ensures
        r == (a@ == b@),
{
    let bs = chars_of(b);
    if a.len() != bs.len() {
        return false;
    }
    let mut i: usize = 0;
    while i < a.len()
        invariant
            a@.len() == bs@.len(),
            bs@ == b@,
            i <= a@.len(),
            forall|k: int| 0 <= k < i ==> a@[k] == bs@[k],
        decreases a@.len() - i,
    {
        if a[i] != bs[i] {
            return false;
        }
        i = i + 1;
    }
    assert(a@ =~= bs@);
    true
}

/// The characters of `a` followed by those of `b`.
pub fn concat_chars(a: &Vec<char>, b: &Vec<char>) -> (r: Vec<char>)
    ensures
        r@ == a@ + b@,
{
    let mut r: Vec<char> = Vec::new();
    let mut i: usize = 0;
    while i < a.len()
        invariant
            i <= a@.len(),
            r@ == a@.subrange(0, i as int),
        decreases a@.len() - i,
    {
        r.push(a[i]);
        i = i + 1;
        assert(r@ =~= a@.subrange(0, i as int));
    }
    let mut j: usize = 0;
    while j < b.len()
        invariant
            j <= b@.len(),
            r@ == a@ + b@.subrange(0, j as int),
        decreases b@.len() - j,
    {
        r.push(b[j]);
        j = j + 1;
        assert(r@ =~= a@ + b@.subrange(0, j as int));
    }
    assert(a@.subrange(0, a@.len() as int) =~= a@);
    assert(b@.subrange(0, b@.len() as int) =~= b@);
    r
}

} // verus!
