use vstd::prelude::*;
use vstd::std_specs::iter::IteratorSpec;

verus! {

/// The characters of a string slice, in order.
pub fn chars_of(s: &str) -> (v: Vec<char>)
    ensures
        v@ == s@,
{
    let mut v: Vec<char> = Vec::new();
    for c in it: s.chars()
        invariant
            it.seq() == s@,
            v@ == s@.take(it.index()),
    {
        v.push(c);
    }
    v
}

/// Whether two strings hold the same characters.
pub fn text_eq(a: &str, b: &str) -> (r: bool)
    ensures
        r == (a@ == b@),
{
    let x = chars_of(a);
    let y = chars_of(b);
    if x.len() != y.len() {
        return false;
    }
    let mut i: usize = 0;
    while i < x.len()
        invariant
            x@ == a@,
            y@ == b@,
            x.len() == y.len(),
            0 <= i <= x.len(),
            forall|k: int| 0 <= k < i ==> x@[k] == y@[k],
        decreases x.len() - i,
    {
        if x[i] != y[i] {
            return false;
        }
        i = i + 1;
    }
    assert(x@ =~= y@);
    true
}

} // verus!

verus! {

/// Whether `c` is a Unicode `White_Space` character, the set that `char::is_whitespace`
/// and `str::trim` go by.
pub open spec fn is_space(c: char) -> bool {
    let u = c as u32;
    (0x09 <= u && u <= 0x0d) || u == 0x20 || u == 0x85 || u == 0xa0 || u == 0x1680 || (0x2000
        <= u && u <= 0x200a) || u == 0x2028 || u == 0x2029 || u == 0x202f || u == 0x205f || u
        == 0x3000
}

/// Whether `c` is white space.
pub fn is_space_char(c: char) -> (b: bool)
    ensures
        b == is_space(c),
{
    let u = c as u32;
    (0x09 <= u && u <= 0x0d) || u == 0x20 || u == 0x85 || u == 0xa0 || u == 0x1680 || (0x2000
        <= u && u <= 0x200a) || u == 0x2028 || u == 0x2029 || u == 0x202f || u == 0x205f || u
        == 0x3000
}

/// `s` without its leading white space.
pub open spec fn trim_start_spec(s: Seq<char>) -> Seq<char>
    decreases s.len(),
{
    if s.len() > 0 && is_space(s[0]) {
        trim_start_spec(s.drop_first())
    } else {
        s
    }
}

/// `s` without its trailing white space.
pub open spec fn trim_end_spec(s: Seq<char>) -> Seq<char>
    decreases s.len(),
{
    if s.len() > 0 && is_space(s.last()) {
        trim_end_spec(s.drop_last())
    } else {
        s
    }
}

/// `s` without leading and trailing white space, as `str::trim` gives it.
pub open spec fn trim_spec(s: Seq<char>) -> Seq<char> {
    trim_end_spec(trim_start_spec(s))
}

/// Whether `s` holds nothing but white space.
pub open spec fn blank(s: Seq<char>) -> bool {
    trim_spec(s).len() == 0
}

proof fn lemma_trim_start_skip(s: Seq<char>, i: int)
    requires
        0 <= i <= s.len(),
        forall|k: int| 0 <= k < i ==> is_space(#[trigger] s[k]),
    ensures
        trim_start_spec(s) == trim_start_spec(s.subrange(i, s.len() as int)),
    decreases i,
{
    if i > 0 {
        assert(s.drop_first().subrange(i - 1, s.drop_first().len() as int) =~= s.subrange(
            i,
            s.len() as int,
        ));
        lemma_trim_start_skip(s.drop_first(), i - 1);
    } else {
        assert(s.subrange(0, s.len() as int) =~= s);
    }
}

proof fn lemma_trim_end_skip(s: Seq<char>, j: int)
    requires
        0 <= j <= s.len(),
        forall|k: int| j <= k < s.len() ==> is_space(#[trigger] s[k]),
    ensures
        trim_end_spec(s) == trim_end_spec(s.subrange(0, j)),
    decreases s.len() - j,
{
    if j < s.len() {
        assert(s.drop_last().subrange(0, j) =~= s.subrange(0, j));
        lemma_trim_end_skip(s.drop_last(), j);
    } else {
        assert(s.subrange(0, j) =~= s);
    }
}

/// The characters of `v` without leading and trailing white space.
pub fn trim_chars(v: &Vec<char>) -> (r: Vec<char>)
    ensures
        r@ == trim_spec(v@),
{
    let n = v.len();
    let mut i: usize = 0;
    while i < n && is_space_char(v[i])
        invariant
            n == v.len(),
            0 <= i <= n,
            forall|k: int| 0 <= k < i ==> is_space(#[trigger] v@[k]),
        decreases n - i,
    {
        i = i + 1;
    }
    proof {
        lemma_trim_start_skip(v@, i as int);
    }
    let ghost front = v@.subrange(i as int, n as int);
    assert(front.len() == 0 || !is_space(front[0]));
    assert(trim_start_spec(front) == front);
    let mut j: usize = n;
    while j > i && is_space_char(v[j - 1])
        invariant
            n == v.len(),
            0 <= i <= j <= n,
            forall|k: int| j <= k < n ==> is_space(#[trigger] v@[k]),
        decreases j,
    {
        j = j - 1;
    }
    proof {
        assert forall|k: int| j - i <= k < front.len() implies is_space(#[trigger] front[k]) by {
            assert(front[k] == v@[k + i]);
        }
        lemma_trim_end_skip(front, j - i);
        let rest = front.subrange(0, j - i);
        assert(rest.len() == 0 || !is_space(rest.last()));
        assert(trim_end_spec(rest) == rest);
    }
    let mut r: Vec<char> = Vec::new();
    let mut k: usize = i;
    while k < j
        invariant
            n == v.len(),
            0 <= i <= k <= j <= n,
            r@ =~= v@.subrange(i as int, k as int),
        decreases j - k,
    {
        r.push(v[k]);
        k = k + 1;
    }
    assert(r@ =~= front.subrange(0, j - i));
    r
}

/// Appends `c` to `s` (`String::push`, which appends the character at the end).
#[verifier::external_body]
pub(crate) fn push_char(s: &mut String, c: char)
    ensures
        final(s)@ == old(s)@.push(c),
{
    s.push(c);
}

/// A string holding the characters of `v`.
pub fn string_of(v: &Vec<char>) -> (s: String)
    ensures
        s@ == v@,
{
    let mut s = String::new();
    let mut i: usize = 0;
    while i < v.len()
        invariant
            0 <= i <= v.len(),
            s@ =~= v@.subrange(0, i as int),
        decreases v.len() - i,
    {
        push_char(&mut s, v[i]);
        i = i + 1;
    }
    s
}

/// Appends the characters of `t` to `s`.
pub fn push_text(s: &mut String, t: &str)
    ensures
        final(s)@ == old(s)@ + t@,
{
    let v = chars_of(t);
    let mut i: usize = 0;
    while i < v.len()
        invariant
            0 <= i <= v.len(),
            v@ == t@,
            s@ =~= old(s)@ + v@.subrange(0, i as int),
        decreases v.len() - i,
    {
        push_char(s, v[i]);
        i = i + 1;
    }
}

/// `s` without leading and trailing white space.
pub fn trimmed(s: &str) -> (r: String)
    ensures
        r@ == trim_spec(s@),
{
    let v = chars_of(s);
    string_of(&trim_chars(&v))
}

/// Whether `s` holds nothing but white space.
pub fn is_blank(s: &str) -> (b: bool)
    ensures
        b == blank(s@),
{
    let v = chars_of(s);
    trim_chars(&v).len() == 0
}

/// An optional text field as the forms store it: nothing when the input is blank, otherwise
/// the input as it was typed.
pub open spec fn optional_text_spec(s: Seq<char>) -> Option<Seq<char>> {
    if blank(s) {
        None
    } else {
        Some(s)
    }
}

/// The text an optional string holds, if any.
pub open spec fn text_of(o: Option<String>) -> Option<Seq<char>> {
    match o {
        Some(t) => Some(t@),
        None => None,
    }
}

/// An optional text field as the forms store it: nothing when the input is blank, otherwise
/// the input as it was typed.
pub fn optional_text(s: &str) -> (r: Option<String>)
    ensures
        text_of(r) == optional_text_spec(s@),
        match r {
            None => optional_text_spec(s@) is None,
            Some(t) => optional_text_spec(s@) == Some(t@),
        },
{
    if is_blank(s) {
        None
    } else {
        Some(string_of(&chars_of(s)))
    }
}

/// An optional trimmed field: nothing when the input is blank, otherwise the trimmed input.
pub open spec fn optional_trimmed_spec(s: Seq<char>) -> Option<Seq<char>> {
    if blank(s) {
        None
    } else {
        Some(trim_spec(s))
    }
}

/// An optional trimmed field: nothing when the input is blank, otherwise the trimmed input.
pub fn optional_trimmed(s: &str) -> (r: Option<String>)
    ensures
        match r {
            None => optional_trimmed_spec(s@) is None,
            Some(t) => optional_trimmed_spec(s@) == Some(t@),
        },
{
    let t = trim_chars(&chars_of(s));
    if t.len() == 0 {
        None
    } else {
        Some(string_of(&t))
    }
}

/// What `str::to_lowercase` gives for a string: its Unicode lowercase mapping.
pub uninterp spec fn lowercase(s: Seq<char>) -> Seq<char>;

/// Calls `str::to_lowercase`; the result is the lowercase mapping of `s`, a function of
/// `s` alone that is named here and not spelled out.
#[verifier::external_body]
pub(crate) fn to_lower(s: &str) -> (r: String)
    ensures
        r@ == lowercase(s@),
{
    s.to_lowercase()
}

} // verus!

verus! {

/// The views of a list of string slices.
pub open spec fn views_of(opts: Seq<&str>) -> Seq<Seq<char>> {
    opts.map_values(|o: &str| o@)
}

/// Whether `s` is one of the strings in `opts`.
pub fn one_of(s: &str, opts: &[&str]) -> (b: bool)
    ensures
        b == views_of(opts@).contains(s@),
{
    let mut i: usize = 0;
    while i < opts.len()
        invariant
            0 <= i <= opts.len(),
            forall|k: int| 0 <= k < i ==> opts@[k]@ != s@,
        decreases opts.len() - i,
    {
        if text_eq(opts[i], s) {
            assert(views_of(opts@)[i as int] == s@);
            return true;
        }
        i = i + 1;
    }
    assert forall|k: int| 0 <= k < views_of(opts@).len() implies views_of(opts@)[k] != s@ by {
        assert(views_of(opts@)[k] == opts@[k]@);
    }
    false
}

/// The number of bytes that `c` takes in UTF-8.
pub open spec fn utf8_width(c: char) -> nat {
    let u = c as u32;
    if u < 0x80 {
        1
    } else if u < 0x800 {
        2
    } else if u < 0x10000 {
        3
    } else {
        4
    }
}

/// The number of bytes that `s` takes in UTF-8, which `str::len` gives.
pub open spec fn byte_len(s: Seq<char>) -> nat
    decreases s.len(),
{
    if s.len() == 0 {
        0
    } else {
        byte_len(s.drop_last()) + utf8_width(s.last())
    }
}

/// The number of bytes that `c` takes in UTF-8.
pub fn utf8_width_of(c: char) -> (w: usize)
    ensures
        w == utf8_width(c),
{
    let u = c as u32;
    if u < 0x80 {
        1
    } else if u < 0x800 {
        2
    } else if u < 0x10000 {
        3
    } else {
        4
    }
}

/// The longest prefix of `s` that takes at most `limit` bytes, as a number of characters,
/// with its byte length.
pub fn prefix_within_bytes(s: &Vec<char>, limit: usize) -> (r: (usize, usize))
    ensures
        r.0 <= s.len(),
        r.1 == byte_len(s@.take(r.0 as int)),
        r.1 <= limit,
        r.0 == s.len() || r.1 + utf8_width(s@[r.0 as int]) > limit,
{
    let mut k: usize = 0;
    let mut bytes: usize = 0;
    assert(s@.take(0) =~= Seq::<char>::empty());
    while k < s.len() && utf8_width_of(s[k]) <= limit - bytes
        invariant
            0 <= k <= s.len(),
            bytes <= limit,
            bytes == byte_len(s@.take(k as int)),
        decreases s.len() - k,
    {
        let w = utf8_width_of(s[k]);
        assert(s@.take(k + 1).drop_last() =~= s@.take(k as int));
        bytes = bytes + w;
        k = k + 1;
    }
    (k, bytes)
}

/// The characters of `v` from `start` up to `end`.
pub fn slice_chars(v: &Vec<char>, start: usize, end: usize) -> (r: Vec<char>)
    requires
        start <= end <= v.len(),
    ensures
        r@ == v@.subrange(start as int, end as int),
{
    let mut r: Vec<char> = Vec::new();
    let mut k: usize = start;
    while k < end
        invariant
            start <= k <= end <= v.len(),
            r@ =~= v@.subrange(start as int, k as int),
        decreases end - k,
    {
        r.push(v[k]);
        k = k + 1;
    }
    r
}

} // verus!
