//! Character-level helpers shared by the room, the invite code and the views.
use vstd::prelude::*;

verus! {

/// Unicode `White_Space`, the property `char::is_whitespace` reports.
pub open spec fn is_white(c: char) -> bool {
    let u = c as u32;
    ||| 0x9 <= u <= 0xD
    ||| u == 0x20
    ||| u == 0x85
    ||| u == 0xA0
    ||| u == 0x1680
    ||| 0x2000 <= u <= 0x200A
    ||| u == 0x2028
    ||| u == 0x2029
    ||| u == 0x202F
    ||| u == 0x205F
    ||| u == 0x3000
}

pub fn is_whitespace(c: char) -> (r: bool)
    ensures
        r == is_white(c),
{
    let u = c as u32;
    (0x9 <= u && u <= 0xD) || u == 0x20 || u == 0x85 || u == 0xA0 || u == 0x1680 || (0x2000 <= u
        && u <= 0x200A) || u == 0x2028 || u == 0x2029 || u == 0x202F || u == 0x205F || u == 0x3000
}

/// Unicode general category `Cc`, the property `char::is_control` reports.
pub open spec fn is_ctrl(c: char) -> bool {
    let u = c as u32;
    u <= 0x1F || (0x7F <= u && u <= 0x9F)
}

pub fn is_control(c: char) -> (r: bool)
    ensures
        r == is_ctrl(c),
{
    let u = c as u32;
    u <= 0x1F || (0x7F <= u && u <= 0x9F)
}

pub fn chars_of(s: &str) -> (r: Vec<char>)
    ensures
        r@ == s@,
{
    let mut out: Vec<char> = Vec::new();
    for c in it: s.chars()
        invariant
            out@ == it.seq().take(it.index() as int),
            it.seq() == s@,
    {
        out.push(c);
    }
    out
}

} // verus!
verus! {

/// `String::push`.
#[verifier::external_body]
pub(crate) fn push_char(s: &mut String, c: char)
    ensures
        final(s)@ == old(s)@.push(c),
{
    s.push(c);
}

/// Builds a string holding exactly the given characters.
pub fn string_of(chars: &[char]) -> (r: String)
    ensures
        r@ == chars@,
{
    let mut out = String::new();
    let mut i: usize = 0;
    while i < chars.len()
        invariant
            i <= chars@.len(),
            out@ == chars@.take(i as int),
        decreases chars@.len() - i,
    {
        push_char(&mut out, chars[i]);
        i = i + 1;
        assert(chars@.take(i as int) == chars@.take(i - 1).push(chars@[i - 1]));
    }
    assert(chars@.take(i as int) == chars@);
    out
}

/// The characters left once leading whitespace is gone.
pub open spec fn trim_start(s: Seq<char>) -> Seq<char>
    decreases s.len(),
{
    if s.len() > 0 && is_white(s[0]) {
        trim_start(s.drop_first())
    } else {
        s
    }
}

/// The characters left once trailing whitespace is gone.
pub open spec fn trim_end(s: Seq<char>) -> Seq<char>
    decreases s.len(),
{
    if s.len() > 0 && is_white(s.last()) {
        trim_end(s.drop_last())
    } else {
        s
    }
}

/// What `str::trim` leaves: no whitespace at either end.
pub open spec fn trim(s: Seq<char>) -> Seq<char> {
    trim_end(trim_start(s))
}

proof fn lemma_trim_start_skip(s: Seq<char>, i: int)
    requires
        0 <= i < s.len(),
        is_white(s[i]),
    ensures
        trim_start(s.subrange(i, s.len() as int)) == trim_start(s.subrange(i + 1, s.len() as int)),
{
    assert(s.subrange(i, s.len() as int).drop_first() =~= s.subrange(i + 1, s.len() as int));
}

proof fn lemma_trim_end_skip(s: Seq<char>, j: int)
    requires
        0 < j <= s.len(),
        is_white(s[j - 1]),
    ensures
        trim_end(s.subrange(0, j)) == trim_end(s.subrange(0, j - 1)),
{
    assert(s.subrange(0, j).drop_last() =~= s.subrange(0, j - 1));
}

/// `str::trim`, on characters.
pub fn trim_chars(s: &[char]) -> (r: Vec<char>)
    ensures
        r@ == trim(s@),
{
    let n = s.len();
    let mut start: usize = 0;
    assert(s@.subrange(0, n as int) =~= s@);
    while start < n && is_whitespace(s[start])
        invariant
            start <= n,
            n == s@.len(),
            trim_start(s@) == trim_start(s@.subrange(start as int, n as int)),
        decreases n - start,
    {
        proof {
            lemma_trim_start_skip(s@, start as int);
        }
        start = start + 1;
    }
    let ghost front = s@.subrange(start as int, n as int);
    assert(trim_start(s@) == front);
    let mut end: usize = n;
    assert(front.subrange(0, (end - start) as int) =~= front);
    while end > start && is_whitespace(s[end - 1])
        invariant
            start <= end <= n,
            n == s@.len(),
            front == s@.subrange(start as int, n as int),
            trim_end(front) == trim_end(front.subrange(0, (end - start) as int)),
        decreases end - start,
    {
        proof {
            lemma_trim_end_skip(front, (end - start) as int);
        }
        end = end - 1;
    }
    let mut out: Vec<char> = Vec::new();
    let mut k = start;
    while k < end
        invariant
            start <= k <= end <= n,
            n == s@.len(),
            out@ == s@.subrange(start as int, k as int),
        decreases end - k,
    {
        out.push(s[k]);
        k = k + 1;
        assert(out@ =~= s@.subrange(start as int, k as int));
    }
    assert(front.subrange(0, (end - start) as int) =~= s@.subrange(start as int, end as int));
    out
}

} // verus!
verus! {

/// The character of a decimal digit.
pub open spec fn digit_char(d: nat) -> char {
    ((d + 48) as u8) as char
}

/// How `Display` writes a natural number: decimal, no leading zeros.
pub open spec fn decimal(n: nat) -> Seq<char>
    decreases n,
{
    if n < 10 {
        seq![digit_char(n)]
    } else {
        decimal(n / 10).push(digit_char(n % 10))
    }
}

fn push_decimal(out: &mut String, n: u64)
    ensures
        final(out)@ == old(out)@ + decimal(n as nat),
    decreases n,
{
    if n >= 10 {
        push_decimal(out, n / 10);
    }
    let d: u8 = (n % 10) as u8;
    push_char(out, (d + 48) as char);
}

fn push_decimal_wide(out: &mut String, n: u128)
    ensures
        final(out)@ == old(out)@ + decimal(n as nat),
    decreases n,
{
    if n >= 10 {
        push_decimal_wide(out, n / 10);
    }
    let d: u8 = (n % 10) as u8;
    push_char(out, (d + 48) as char);
}

/// A wide number written out in decimal.
pub fn decimal_wide(n: u128) -> (r: String)
    ensures
        r@ == decimal(n as nat),
{
    let mut out = String::new();
    push_decimal_wide(&mut out, n);
    assert(out@ =~= decimal(n as nat));
    out
}

/// A number written out in decimal.
pub fn decimal_string(n: u64) -> (r: String)
    ensures
        r@ == decimal(n as nat),
{
    let mut out = String::new();
    push_decimal(&mut out, n);
    assert(out@ =~= decimal(n as nat));
    out
}

/// Whether `pat` occurs in `s` as a run of consecutive characters.
pub open spec fn has_infix(s: Seq<char>, pat: Seq<char>) -> bool {
    exists|i: int| 0 <= i <= s.len() - pat.len() && #[trigger] s.subrange(i, i + pat.len()) == pat
}

/// `str::contains` with a text pattern.
pub fn contains_text(s: &str, pat: &str) -> (r: bool)
    ensures
        r == has_infix(s@, pat@),
{
    let chars = chars_of(s);
    let pattern = chars_of(pat);
    let n = chars.len();
    let m = pattern.len();
    if m > n {
        assert forall|i: int| 0 <= i <= s@.len() - pat@.len() implies #[trigger] s@.subrange(i, i + pat@.len()) != pat@ by {}
        return false;
    }
    let mut i: usize = 0;
    while i <= n - m
        invariant
            n == chars@.len(),
            m == pattern@.len(),
            m <= n,
            chars@ == s@,
            pattern@ == pat@,
            i <= n - m + 1,
            forall|k: int| 0 <= k < i ==> #[trigger] s@.subrange(k, k + pat@.len()) != pat@,
        decreases n - m + 1 - i,
    {
        let mut k: usize = 0;
        let mut same = true;
        while k < m
            invariant
                n == chars@.len(),
                m == pattern@.len(),
                i + m <= n,
                k <= m,
                same <==> forall|t: int| 0 <= t < k ==> chars@[i + t] == pattern@[t],
            decreases m - k,
        {
            if chars[i + k] != pattern[k] {
                same = false;
            }
            k = k + 1;
        }
        if same {
            assert(s@.subrange(i as int, i + pat@.len()) =~= pat@);
            return true;
        }
        assert(s@.subrange(i as int, i + pat@.len()) != pat@) by {
            let t = choose|t: int| 0 <= t < m && chars@[i + t] != pattern@[t];
            assert(s@.subrange(i as int, i + pat@.len())[t] == chars@[i + t]);
        }
        i = i + 1;
    }
    false
}

} // verus!
verus! {

/// The pieces between the line feeds of `s`, always at least one (`str::split('\n')`).
pub open spec fn split_at_feeds(s: Seq<char>) -> Seq<Seq<char>>
    decreases s.len(),
{
    if s.len() == 0 {
        seq![Seq::empty()]
    } else {
        let before = split_at_feeds(s.drop_last());
        if s.last() == '\n' {
            before.push(Seq::empty())
        } else {
            before.update(before.len() - 1, before.last().push(s.last()))
        }
    }
}

/// A line without the carriage return that may end it.
pub open spec fn without_return(line: Seq<char>) -> Seq<char> {
    if line.len() > 0 && line.last() == '\r' {
        line.drop_last()
    } else {
        line
    }
}

/// The lines of `s` as `str::lines` gives them: split at each line feed, with a
/// carriage return just before a feed dropped, and no empty line after a final feed.
/// A carriage return that ends the text without a feed stays.
pub open spec fn lines_of(s: Seq<char>) -> Seq<Seq<char>> {
    let pieces = split_at_feeds(s);
    let ended = pieces.drop_last().map_values(|line: Seq<char>| without_return(line));
    if pieces.last().len() == 0 {
        ended
    } else {
        ended.push(pieces.last())
    }
}

/// What each of a run of character vectors holds.
pub open spec fn views_of(v: Seq<Vec<char>>) -> Seq<Seq<char>> {
    v.map_values(|x: Vec<char>| x@)
}

/// Splits characters into lines as `str::lines` does.
pub fn split_lines(chars: &[char]) -> (r: Vec<Vec<char>>)
    ensures
        views_of(r@) == lines_of(chars@),
{
    let mut done: Vec<Vec<char>> = Vec::new();
    let mut current: Vec<char> = Vec::new();
    let mut i: usize = 0;
    while i < chars.len()
        invariant
            i <= chars@.len(),
            split_at_feeds(chars@.take(i as int)).len() >= 1,
            views_of(done@) == split_at_feeds(chars@.take(i as int)).drop_last().map_values(
                |line: Seq<char>| without_return(line),
            ),
            current@ == split_at_feeds(chars@.take(i as int)).last(),
        decreases chars@.len() - i,
    {
        let ghost pieces = split_at_feeds(chars@.take(i as int));
        let c = chars[i];
        assert(chars@.take(i + 1).drop_last() == chars@.take(i as int));
        assert(chars@.take(i + 1).last() == c);
        let ghost before = views_of(done@);
        if c == '\n' {
            let n = current.len();
            let mut cut = n;
            if cut > 0 && current[cut - 1] == '\r' {
                cut = cut - 1;
            }
            let mut line: Vec<char> = Vec::new();
            let mut j: usize = 0;
            while j < cut
                invariant
                    j <= cut,
                    cut <= current@.len(),
                    line@ == current@.take(j as int),
                decreases cut - j,
            {
                line.push(current[j]);
                j = j + 1;
            }
            assert(line@ == without_return(pieces.last()));
            done.push(line);
            current = Vec::new();
            assert(views_of(done@) =~= before.push(without_return(pieces.last())));
            assert(pieces.push(Seq::empty()).drop_last() == pieces);
            assert(pieces.drop_last().map_values(|line: Seq<char>| without_return(line)).push(
                without_return(pieces.last()),
            ) =~= pieces.map_values(|line: Seq<char>| without_return(line)));
        } else {
            current.push(c);
            assert(views_of(done@) =~= before);
            assert(pieces.update(pieces.len() - 1, pieces.last().push(c)).drop_last() =~= pieces.drop_last());
        }
        i = i + 1;
    }
    assert(chars@.take(i as int) == chars@);
    if current.len() > 0 {
        let ghost before = views_of(done@);
        done.push(current);
        assert(views_of(done@) =~= before.push(split_at_feeds(chars@).last()));
    }
    done
}

} // verus!
verus! {

/// Where `pat` first occurs in `s` at or after position `i`.
pub open spec fn first_at(s: Seq<char>, pat: Seq<char>, i: int) -> Option<int>
    decreases s.len() - i,
{
    if i < 0 || i + pat.len() > s.len() {
        None
    } else if s.subrange(i, i + pat.len()) == pat {
        Some(i)
    } else if i >= s.len() {
        None
    } else {
        first_at(s, pat, i + 1)
    }
}

/// `str::find` with a text pattern, on characters: the first place `pattern` starts.
pub fn find_text(chars: &[char], pattern: &[char]) -> (r: Option<usize>)
    ensures
        match r {
            Some(k) => first_at(chars@, pattern@, 0) == Some(k as int),
            None => first_at(chars@, pattern@, 0) == None::<int>,
        },
{
    let n = chars.len();
    let m = pattern.len();
    if m > n {
        return None;
    }
    let mut i: usize = 0;
    while i <= n - m
        invariant
            n == chars@.len(),
            m == pattern@.len(),
            m <= n,
            i <= n - m + 1,
            first_at(chars@, pattern@, 0) == first_at(chars@, pattern@, i as int),
        decreases n - m + 1 - i,
    {
        let mut k: usize = 0;
        let mut same = true;
        while k < m
            invariant
                n == chars@.len(),
                m == pattern@.len(),
                i + m <= n,
                k <= m,
                same <==> forall|t: int| 0 <= t < k ==> chars@[i + t] == pattern@[t],
            decreases m - k,
        {
            if chars[i + k] != pattern[k] {
                same = false;
            }
            k = k + 1;
        }
        if same {
            assert(chars@.subrange(i as int, i + m) =~= pattern@);
            return Some(i);
        }
        assert(chars@.subrange(i as int, i + m) != pattern@) by {
            let t = choose|t: int| 0 <= t < m && chars@[i + t] != pattern@[t];
            assert(chars@.subrange(i as int, i + m)[t] == chars@[i + t]);
        }
        i = i + 1;
    }
    None
}

/// Appends `chars[from..to]` to a string.
pub fn append_chars(out: &mut String, chars: &[char], from: usize, to: usize)
    requires
        from <= to <= chars@.len(),
    ensures
        final(out)@ == old(out)@ + chars@.subrange(from as int, to as int),
{
    let mut i = from;
    while i < to
        invariant
            from <= i <= to,
            to <= chars@.len(),
            out@ == old(out)@ + chars@.subrange(from as int, i as int),
        decreases to - i,
    {
        push_char(out, chars[i]);
        i = i + 1;
        assert(chars@.subrange(from as int, i as int) == chars@.subrange(from as int, i - 1).push(
            chars@[i - 1],
        ));
    }
}

} // verus!
verus! {

/// Whether two texts hold the same characters.
pub fn same_text(a: &str, b: &str) -> (r: bool)
    ensures
        r == (a@ == b@),
{
    let x = chars_of(a);
    let y = chars_of(b);
    if x.len() != y.len() {
        return false;
    }
    let mut i: usize = 0;
    while i < x.len()
        invariant
            i <= x@.len(),
            x@.len() == y@.len(),
            x@ == a@,
            y@ == b@,
            forall|k: int| 0 <= k < i ==> x@[k] == y@[k],
        decreases x@.len() - i,
    {
        if x[i] != y[i] {
            return false;
        }
        i = i + 1;
    }
    assert(x@ =~= y@);
    true
}

} // verus!
