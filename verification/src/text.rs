//! Character-level text helpers: decimal rendering, whitespace trimming,
//! token splitting and the fixed-width fields the player shows.
use vstd::prelude::*;

verus! {

// ---------------------------------------------------------------------
// std calls that have no specification in vstd
// ---------------------------------------------------------------------

/// `String::push`: the string grows by exactly the one character.
#[verifier::external_body]
pub(crate) fn push_char(s: &mut String, c: char)
    ensures
        final(s)@ == old(s)@.push(c),
{
    s.push(c);
}

/// `String::pop`: the last character is removed, if there is one.
#[verifier::external_body]
pub(crate) fn pop_char(s: &mut String) -> (r: Option<char>)
    ensures
        old(s)@.len() > 0 ==> final(s)@ == old(s)@.drop_last() && r == Some(old(s)@.last()),
        old(s)@.len() == 0 ==> final(s)@ == old(s)@ && r is None,
{
    s.pop()
}

/// `str::chars` collected: the characters of the string, in order.
#[verifier::external_body]
pub(crate) fn chars_of(s: &str) -> (r: Vec<char>)
    ensures
        r@ == s@,
{
    s.chars().collect()
}

/// What `str::to_lowercase` returns for a string: its Unicode lowercase mapping.
pub uninterp spec fn lowercase(s: Seq<char>) -> Seq<char>;

/// What `str::to_uppercase` returns for a string: its Unicode uppercase mapping.
pub uninterp spec fn uppercase(s: Seq<char>) -> Seq<char>;

/// `str::to_lowercase`. The full Unicode mapping is not restated; the
/// result is named `lowercase` of the input's characters.
#[verifier::external_body]
pub(crate) fn to_lowercase(s: &str) -> (r: String)
    ensures
        r@ == lowercase(s@),
{
    s.to_lowercase()
}

/// `str::to_uppercase`. The full Unicode mapping is not restated; the
/// result is named `uppercase` of the input's characters.
#[verifier::external_body]
pub(crate) fn to_uppercase(s: &str) -> (r: String)
    ensures
        r@ == uppercase(s@),
{
    s.to_uppercase()
}

// ---------------------------------------------------------------------
// building strings
// ---------------------------------------------------------------------

/// A string holding the characters `v[from..to]`.
pub fn string_from_range(v: &Vec<char>, from: usize, to: usize) -> (r: String)
    requires
        from <= to <= v@.len(),
    ensures
        r@ == v@.subrange(from as int, to as int),
{
    let mut r = String::new();
    let mut i = from;
    while i < to
        invariant
            from <= i <= to <= v@.len(),
            r@ == v@.subrange(from as int, i as int),
        decreases to - i,
    {
        push_char(&mut r, v[i]);
        assert(v@.subrange(from as int, i + 1) =~= v@.subrange(from as int, i as int).push(v@[i as int]));
        i = i + 1;
    }
    r
}

/// A string holding all characters of `v`.
pub fn string_from_chars(v: &Vec<char>) -> (r: String)
    ensures
        r@ == v@,
{
    let r = string_from_range(v, 0, v.len());
    assert(v@.subrange(0, v@.len() as int) =~= v@);
    r
}

/// Appends the characters of a literal or other string slice.
pub fn push_str(s: &mut String, t: &str)
    ensures
        final(s)@ == old(s)@ + t@,
{
    let v = chars_of(t);
    let ghost start = s@;
    let mut i: usize = 0;
    while i < v.len()
        invariant
            v@ == t@,
            i <= v@.len(),
            s@ == start + v@.subrange(0, i as int),
        decreases v@.len() - i,
    {
        push_char(s, v[i]);
        assert(v@.subrange(0, i + 1) =~= v@.subrange(0, i as int).push(v@[i as int]));
        i = i + 1;
    }
    assert(v@.subrange(0, v@.len() as int) =~= v@);
}

/// A new string equal to a string slice.
pub fn owned(t: &str) -> (r: String)
    ensures
        r@ == t@,
{
    let mut r = String::new();
    push_str(&mut r, t);
    assert(Seq::<char>::empty() + t@ =~= t@);
    r
}

/// Whether two string slices hold the same characters.
pub fn same_text(a: &str, b: &str) -> (r: bool)
    ensures
        r == (a@ == b@),
{
    let va = chars_of(a);
    let vb = chars_of(b);
    if va.len() != vb.len() {
        return false;
    }
    let mut i: usize = 0;
    while i < va.len()
        invariant
            va@ == a@,
            vb@ == b@,
            va@.len() == vb@.len(),
            i <= va@.len(),
            forall|k: int| 0 <= k < i ==> va@[k] == vb@[k],
        decreases va@.len() - i,
    {
        if va[i] != vb[i] {
            return false;
        }
        i = i + 1;
    }
    assert(va@ =~= vb@);
    true
}

/// Whether `p` is a prefix of `s`.
pub fn starts_with(s: &str, p: &str) -> (r: bool)
    ensures
        r == p@.is_prefix_of(s@),
{
    let vs = chars_of(s);
    let vp = chars_of(p);
    if vp.len() > vs.len() {
        return false;
    }
    let mut i: usize = 0;
    while i < vp.len()
        invariant
            vs@ == s@,
            vp@ == p@,
            vp@.len() <= vs@.len(),
            i <= vp@.len(),
            forall|k: int| 0 <= k < i ==> vp@[k] == vs@[k],
        decreases vp@.len() - i,
    {
        if vp[i] != vs[i] {
            return false;
        }
        i = i + 1;
    }
    true
}

// ---------------------------------------------------------------------
// decimal numbers
// ---------------------------------------------------------------------

/// The ASCII digit for `d` (0..=9).
pub open spec fn digit(d: nat) -> char {
    if d == 0 { '0' }
    else if d == 1 { '1' }
    else if d == 2 { '2' }
    else if d == 3 { '3' }
    else if d == 4 { '4' }
    else if d == 5 { '5' }
    else if d == 6 { '6' }
    else if d == 7 { '7' }
    else if d == 8 { '8' }
    else { '9' }
}

/// The decimal rendering of a natural number, without leading zeros.
pub open spec fn decimal(n: nat) -> Seq<char>
    decreases n,
{
    if n < 10 {
        seq![digit(n)]
    } else {
        decimal(n / 10).push(digit(n % 10))
    }
}

/// The decimal rendering padded with zeros to at least two digits (`{:02}`).
pub open spec fn pad2(n: nat) -> Seq<char> {
    if n < 10 {
        seq!['0', digit(n)]
    } else {
        decimal(n)
    }
}

fn digit_char(d: u64) -> (c: char)
    requires
        d < 10,
    ensures
        c == digit(d as nat),
{
    if d == 0 { '0' }
    else if d == 1 { '1' }
    else if d == 2 { '2' }
    else if d == 3 { '3' }
    else if d == 4 { '4' }
    else if d == 5 { '5' }
    else if d == 6 { '6' }
    else if d == 7 { '7' }
    else if d == 8 { '8' }
    else { '9' }
}

/// Appends the decimal rendering of `n`.
pub fn push_decimal(s: &mut String, n: u64)
    ensures
        final(s)@ == old(s)@ + decimal(n as nat),
    decreases n,
{
    if n < 10 {
        push_char(s, digit_char(n));
        assert(old(s)@.push(digit(n as nat)) =~= old(s)@ + seq![digit(n as nat)]);
    } else {
        push_decimal(s, n / 10);
        push_char(s, digit_char(n % 10));
        assert(old(s)@ + decimal((n / 10) as nat) + seq![digit((n % 10) as nat)] =~= old(s)@
            + decimal((n / 10) as nat).push(digit((n % 10) as nat)));
    }
}

/// Appends `n` padded with zeros to at least two digits.
pub fn push_pad2(s: &mut String, n: u64)
    ensures
        final(s)@ == old(s)@ + pad2(n as nat),
{
    if n < 10 {
        push_char(s, '0');
        push_char(s, digit_char(n));
        assert(old(s)@.push('0').push(digit(n as nat)) =~= old(s)@ + seq!['0', digit(n as nat)]);
    } else {
        push_decimal(s, n);
    }
}

/// The decimal rendering of `n` as a new string (`n.to_string()`).
pub fn decimal_string(n: u64) -> (r: String)
    ensures
        r@ == decimal(n as nat),
{
    let mut r = String::new();
    push_decimal(&mut r, n);
    assert(Seq::<char>::empty() + decimal(n as nat) =~= decimal(n as nat));
    r
}

// ---------------------------------------------------------------------
// whitespace
// ---------------------------------------------------------------------

/// `char::is_whitespace`: the Unicode `White_Space` property.
pub open spec fn is_space(c: char) -> bool {
    let u = c as u32;
    ||| 0x09 <= u <= 0x0d
    ||| u == 0x20
    ||| u == 0x85
    ||| u == 0xa0
    ||| u == 0x1680
    ||| 0x2000 <= u <= 0x200a
    ||| u == 0x2028
    ||| u == 0x2029
    ||| u == 0x202f
    ||| u == 0x205f
    ||| u == 0x3000
}

/// Whether a character is white space, as `char::is_whitespace` decides.
pub fn is_whitespace(c: char) -> (r: bool)
    ensures
        r == is_space(c),
{
    let u = c as u32;
    (0x09 <= u && u <= 0x0d) || u == 0x20 || u == 0x85 || u == 0xa0 || u == 0x1680 || (0x2000
        <= u && u <= 0x200a) || u == 0x2028 || u == 0x2029 || u == 0x202f || u == 0x205f || u
        == 0x3000
}

/// `s` without its leading white space.
pub open spec fn trim_start(s: Seq<char>) -> Seq<char>
    decreases s.len(),
{
    if s.len() > 0 && is_space(s[0]) {
        trim_start(s.drop_first())
    } else {
        s
    }
}

/// `s` without its trailing white space.
pub open spec fn trim_end(s: Seq<char>) -> Seq<char>
    decreases s.len(),
{
    if s.len() > 0 && is_space(s.last()) {
        trim_end(s.drop_last())
    } else {
        s
    }
}

/// `str::trim`: white space removed from both ends.
pub open spec fn trimmed(s: Seq<char>) -> Seq<char> {
    trim_end(trim_start(s))
}

/// The characters of `s` with white space removed from both ends (`str::trim`).
pub fn trim(s: &str) -> (r: String)
    ensures
        r@ == trimmed(s@),
{
    let v = chars_of(s);
    let n = v.len();
    let mut i: usize = 0;
    assert(v@.subrange(0, n as int) =~= v@);
    while i < n && is_whitespace(v[i])
        invariant
            v@ == s@,
            n == v@.len(),
            i <= n,
            trim_start(s@) == trim_start(v@.subrange(i as int, n as int)),
        decreases n - i,
    {
        assert(v@.subrange(i as int, n as int).drop_first() =~= v@.subrange(i + 1, n as int));
        i = i + 1;
    }
    assert(trim_start(s@) == v@.subrange(i as int, n as int));
    let mut j: usize = n;
    while j > i && is_whitespace(v[j - 1])
        invariant
            v@ == s@,
            n == v@.len(),
            i <= j <= n,
            trimmed(s@) == trim_end(v@.subrange(i as int, j as int)),
        decreases j - i,
    {
        assert(v@.subrange(i as int, j as int).drop_last() =~= v@.subrange(i as int, j - 1));
        j = j - 1;
    }
    string_from_range(&v, i, j)
}

/// The last word of `t`, where `t` ends in a character that is not white
/// space: the longest suffix of `t` without white space.
pub open spec fn last_word(t: Seq<char>) -> Seq<char>
    decreases t.len(),
{
    if t.len() == 0 || is_space(t.last()) {
        Seq::empty()
    } else {
        last_word(t.drop_last()).push(t.last())
    }
}

/// `str::split_whitespace().last()`: the last white-space separated token.
pub open spec fn last_token(s: Seq<char>) -> Option<Seq<char>> {
    let t = trim_end(s);
    if t.len() == 0 {
        None
    } else {
        Some(last_word(t))
    }
}

/// The last white-space separated token of `s`, if it has one.
pub fn last_token_of(s: &str) -> (r: Option<String>)
    ensures
        r matches Some(t) ==> last_token(s@) == Some(t@),
        r is None ==> last_token(s@) is None,
{
    let v = chars_of(s);
    let n = v.len();
    let mut j: usize = n;
    assert(v@.subrange(0, n as int) =~= v@);
    while j > 0 && is_whitespace(v[j - 1])
        invariant
            v@ == s@,
            n == v@.len(),
            j <= n,
            trim_end(s@) == trim_end(v@.subrange(0, j as int)),
        decreases j,
    {
        assert(v@.subrange(0, j as int).drop_last() =~= v@.subrange(0, j - 1));
        j = j - 1;
    }
    assert(trim_end(s@) == v@.subrange(0, j as int));
    if j == 0 {
        return None;
    }
    let mut i: usize = j;
    while i > 0 && !is_whitespace(v[i - 1])
        invariant
            v@ == s@,
            n == v@.len(),
            i <= j <= n,
            j > 0,
            !is_space(v@[j - 1]),
            last_word(v@.subrange(0, j as int)) == last_word(v@.subrange(0, i as int)) + v@.subrange(
                i as int,
                j as int,
            ),
        decreases i,
    {
        let ghost p = v@.subrange(0, i as int);
        assert(p.drop_last() =~= v@.subrange(0, i - 1));
        assert(v@.subrange(i - 1, j as int) =~= seq![v@[i - 1]] + v@.subrange(i as int, j as int));
        assert(last_word(p) == last_word(p.drop_last()).push(p.last()));
        assert(last_word(p.drop_last()).push(p.last()) + v@.subrange(i as int, j as int)
            =~= last_word(p.drop_last()) + v@.subrange(i - 1, j as int));
        i = i - 1;
    }
    let ghost q = v@.subrange(0, i as int);
    assert(last_word(q) =~= Seq::<char>::empty()) by {
        if q.len() > 0 {
            assert(q.last() == v@[i - 1]);
        }
    }
    assert(last_word(v@.subrange(0, j as int)) =~= v@.subrange(i as int, j as int));
    Some(string_from_range(&v, i, j))
}

// ---------------------------------------------------------------------
// display fields
// ---------------------------------------------------------------------

/// The `MM:SS` or `HH:MM:SS` clock for a whole number of seconds.
pub open spec fn clock(total: nat) -> Seq<char> {
    let hours = total / 3600;
    let mins = (total % 3600) / 60;
    let secs = total % 60;
    if hours > 0 {
        pad2(hours) + seq![':'] + pad2(mins) + seq![':'] + pad2(secs)
    } else {
        pad2(mins) + seq![':'] + pad2(secs)
    }
}

/// The clock for a number of whole seconds.
pub fn clock_string(total_secs: u64) -> (r: String)
    ensures
        r@ == clock(total_secs as nat),
{
    let hours = total_secs / 3600;
    let mins = (total_secs % 3600) / 60;
    let secs = total_secs % 60;
    let mut r = String::new();
    if hours > 0 {
        push_pad2(&mut r, hours);
        push_char(&mut r, ':');
    }
    push_pad2(&mut r, mins);
    push_char(&mut r, ':');
    push_pad2(&mut r, secs);
    if hours > 0 {
        assert(r@ =~= clock(total_secs as nat));
    } else {
        assert(r@ =~= clock(total_secs as nat));
    }
    r
}

/// The label for an audio channel count.
pub open spec fn channels_text(n: u8) -> Seq<char> {
    if n == 1 {
        "Mono"@
    } else if n == 2 {
        "Stereo"@
    } else if n > 0 {
        decimal(n as nat) + " ch"@
    } else {
        Seq::empty()
    }
}

/// The label for an audio channel count: `Mono`, `Stereo`, `N ch`, or empty for 0.
pub fn format_channels(n: u8) -> (r: String)
    ensures
        r@ == channels_text(n),
{
    if n == 1 {
        owned("Mono")
    } else if n == 2 {
        owned("Stereo")
    } else if n > 0 {
        let mut r = decimal_string(n as u64);
        push_str(&mut r, " ch");
        r
    } else {
        String::new()
    }
}

/// The part of `text` shown in a scrolling cell at tick `offset`.
pub open spec fn marquee(text: Seq<char>, offset: nat) -> Seq<char> {
    if text.len() <= 16 {
        text
    } else {
        let cursor = offset % (text.len() + 16);
        if cursor < 8 || cursor - 8 >= text.len() {
            text
        } else {
            text.skip(cursor - 8)
        }
    }
}

/// Scrolls a long text: texts of at most 16 characters are shown whole;
/// longer ones rest for 8 ticks, then scroll one character per tick, then
/// rest again at the full text, in a cycle of `len + 16` ticks.
pub fn marquee_text(text: &str, offset: usize, cell_width: usize) -> (r: String)
    requires
        text@.len() + 16 <= usize::MAX,
    ensures
        r@ == marquee(text@, offset as nat),
{
    let chars = chars_of(text);
    if chars.len() <= 16 {
        return owned(text);
    }
    let total = chars.len() + 8 + 8;
    let cursor = offset % total;
    if cursor < 8 {
        return owned(text);
    }
    let scroll = cursor - 8;
    if scroll >= chars.len() {
        return owned(text);
    }
    string_from_range(&chars, scroll, chars.len())
}

} // verus!
