//! Text: whitespace, lines, prefixes and numbers, over the characters of a string.

use vstd::prelude::*;

verus! {

/// A character with the Unicode property `White_Space`.
pub open spec fn white_space(c: char) -> bool {
    let code = c as u32;
    ||| 0x9 <= code <= 0xd
    ||| code == 0x20
    ||| code == 0x85
    ||| code == 0xa0
    ||| code == 0x1680
    ||| 0x2000 <= code <= 0x200a
    ||| code == 0x2028
    ||| code == 0x2029
    ||| code == 0x202f
    ||| code == 0x205f
    ||| code == 0x3000
}

/// Text made of whitespace alone, or empty.
pub open spec fn blank(s: Seq<char>) -> bool {
    forall|i: int| 0 <= i < s.len() ==> white_space(#[trigger] s[i])
}

/// `s` without the whitespace it begins with.
pub open spec fn trimmed_start(s: Seq<char>) -> Seq<char>
    decreases s.len(),
{
    if s.len() > 0 && white_space(s[0]) {
        trimmed_start(s.skip(1))
    } else {
        s
    }
}

/// `s` without the whitespace it ends with.
pub open spec fn trimmed_end(s: Seq<char>) -> Seq<char>
    decreases s.len(),
{
    if s.len() > 0 && white_space(s.last()) {
        trimmed_end(s.drop_last())
    } else {
        s
    }
}

/// `s` without the whitespace at its two ends.
pub open spec fn trimmed(s: Seq<char>) -> Seq<char> {
    trimmed_end(trimmed_start(s))
}

/// Whether `c` has the Unicode property `White_Space`.
pub fn is_white_space(c: char) -> (r: bool)
    ensures
        r == white_space(c),
{
    let code: u32 = c as u32;
    (0x9 <= code && code <= 0xd) || code == 0x20 || code == 0x85 || code == 0xa0 || code == 0x1680
        || (0x2000 <= code && code <= 0x200a) || code == 0x2028 || code == 0x2029 || code == 0x202f
        || code == 0x205f || code == 0x3000
}

/// The characters of `s`, in order.
pub fn characters(s: &str) -> (r: Vec<char>)
    ensures
        r@ == s@,
{
    let mut out: Vec<char> = Vec::new();
    for c in it: s.chars()
        invariant
            out@ == s@.take(it.index() as int),
            it.seq() == s@,
    {
        assert(s@.take(it.index() as int).push(c) =~= s@.take(it.index() + 1));
        out.push(c);
    }
    assert(s@.take(s@.len() as int) =~= s@);
    out
}

/// Whether two strings hold the same characters.
pub fn same_text(a: &str, b: &str) -> (r: bool)
    ensures
        r == (a@ == b@),
{
    a.to_owned() == b.to_owned()
}

/// Whether `s` holds whitespace alone, or nothing.
pub fn is_blank(s: &str) -> (r: bool)
    ensures
        r == blank(s@),
{
    let chars = characters(s);
    let mut i: usize = 0;
    while i < chars.len()
        invariant
            i <= chars@.len(),
            chars@ == s@,
            forall|j: int| 0 <= j < i ==> white_space(#[trigger] s@[j]),
        decreases chars@.len() - i,
    {
        if !is_white_space(chars[i]) {
            assert(!white_space(s@[i as int]));
            return false;
        }
        i += 1;
    }
    true
}

proof fn lemma_trimmed_start(s: Seq<char>, k: int)
    requires
        0 <= k <= s.len(),
        forall|j: int| 0 <= j < k ==> white_space(#[trigger] s[j]),
        k < s.len() ==> !white_space(s[k]),
    ensures
        trimmed_start(s) == s.skip(k),
    decreases k,
{
    if k == 0 {
        assert(s.skip(0) =~= s);
    } else {
        assert(white_space(s[0]));
        lemma_trimmed_start(s.skip(1), k - 1);
        assert(s.skip(1).skip(k - 1) =~= s.skip(k));
    }
}

proof fn lemma_trimmed_end(s: Seq<char>, k: int)
    requires
        0 <= k <= s.len(),
        forall|j: int| k <= j < s.len() ==> white_space(#[trigger] s[j]),
        k > 0 ==> !white_space(s[k - 1]),
    ensures
        trimmed_end(s) == s.take(k),
    decreases s.len() - k,
{
    if k == s.len() {
        assert(s.take(k) =~= s);
    } else {
        assert(white_space(s[s.len() - 1]));
        lemma_trimmed_end(s.drop_last(), k);
        assert(s.drop_last().take(k) =~= s.take(k));
    }
}

/// `s` without the whitespace at its two ends.
pub fn trim(s: &str) -> (r: String)
    ensures
        r@ == trimmed(s@),
{
    let chars = characters(s);
    let mut start: usize = 0;
    while start < chars.len() && is_white_space(chars[start])
        invariant
            start <= chars@.len(),
            chars@ == s@,
            forall|j: int| 0 <= j < start ==> white_space(#[trigger] s@[j]),
        decreases chars@.len() - start,
    {
        start += 1;
    }
    let mut end: usize = chars.len();
    while end > start && is_white_space(chars[end - 1])
        invariant
            start <= end <= chars@.len(),
            chars@ == s@,
            forall|j: int| end <= j < s@.len() ==> white_space(#[trigger] s@[j]),
        decreases end,
    {
        end -= 1;
    }
    proof {
        lemma_trimmed_start(s@, start as int);
        let rest = s@.skip(start as int);
        assert forall|j: int| end - start <= j < rest.len() implies white_space(#[trigger] rest[j]) by {
            assert(rest[j] == s@[j + start]);
        }
        lemma_trimmed_end(rest, end - start);
        assert(rest.take(end - start) =~= s@.subrange(start as int, end as int));
    }
    s.substring_char(start, end).to_owned()
}

/// Text is blank exactly when nothing is left of it once it is trimmed.
pub proof fn blank_text_trims_to_nothing(s: Seq<char>)
    ensures
        blank(s) <==> trimmed(s).len() == 0,
    decreases s.len(),
{
    if s.len() > 0 {
        if white_space(s[0]) {
            blank_text_trims_to_nothing(s.skip(1));
            assert(blank(s) <==> blank(s.skip(1))) by {
                if blank(s.skip(1)) {
                    assert forall|i: int| 0 <= i < s.len() implies white_space(#[trigger] s[i]) by {
                        if i > 0 {
                            assert(white_space(s.skip(1)[i - 1]));
                        }
                    }
                }
                if blank(s) {
                    assert forall|i: int| 0 <= i < s.len() - 1 implies white_space(
                        #[trigger] s.skip(1)[i],
                    ) by {
                        assert(white_space(s[i + 1]));
                    }
                }
            }
        } else {
            lemma_trimmed_end_keeps_head(s);
        }
    }
}

proof fn lemma_trimmed_end_keeps_head(s: Seq<char>)
    requires
        s.len() > 0,
        !white_space(s[0]),
    ensures
        trimmed_end(s).len() > 0,
        trimmed_end(s)[0] == s[0],
    decreases s.len(),
{
    if white_space(s.last()) {
        assert(s.len() > 1);
        lemma_trimmed_end_keeps_head(s.drop_last());
    }
}

/// How many characters of `s` come before the first `c`: all of them if there is none.
pub open spec fn until(s: Seq<char>, c: char) -> nat
    decreases s.len(),
{
    if s.len() == 0 || s[0] == c {
        0
    } else {
        1 + until(s.skip(1), c)
    }
}

proof fn lemma_until(s: Seq<char>, c: char, k: int)
    requires
        0 <= k <= s.len(),
        forall|j: int| 0 <= j < k ==> #[trigger] s[j] != c,
        k < s.len() ==> s[k] == c,
    ensures
        until(s, c) == k,
    decreases k,
{
    if k > 0 {
        assert(s[0] != c);
        lemma_until(s.skip(1), c, k - 1);
    }
}

/// The place of the first `c` in `chars` at or after `from`, or the number of characters.
fn place_of(chars: &Vec<char>, from: usize, c: char) -> (r: usize)
    requires
        from <= chars@.len(),
    ensures
        from <= r <= chars@.len(),
        r == from + until(chars@.skip(from as int), c),
        r < chars@.len() ==> chars@[r as int] == c,
{
    let mut i: usize = from;
    while i < chars.len() && chars[i] != c
        invariant
            from <= i <= chars@.len(),
            forall|j: int| from <= j < i ==> #[trigger] chars@[j] != c,
        decreases chars@.len() - i,
    {
        i += 1;
    }
    proof {
        let rest = chars@.skip(from as int);
        assert forall|j: int| 0 <= j < i - from implies #[trigger] rest[j] != c by {
            assert(rest[j] == chars@[j + from]);
        }
        lemma_until(rest, c, i - from);
    }
    i
}

/// The characters of each string of a list.
pub open spec fn texts(list: Seq<String>) -> Seq<Seq<char>> {
    list.map_values(|t: String| t@)
}

/// The characters of each string slice of a list.
pub open spec fn words(list: Seq<&str>) -> Seq<Seq<char>> {
    list.map_values(|t: &str| t@)
}

/// `line` without one carriage return at its end.
pub open spec fn without_return(line: Seq<char>) -> Seq<char> {
    if line.len() > 0 && line.last() == '\r' {
        line.drop_last()
    } else {
        line
    }
}

/// The lines of a text. A line ends with a line feed or with a carriage return and a line feed,
/// and the last line may go without.
pub open spec fn lines_of(s: Seq<char>) -> Seq<Seq<char>>
    decreases s.len(),
{
    let n = until(s, '\n');
    if s.len() == 0 {
        Seq::empty()
    } else if n >= s.len() {
        seq![s]
    } else {
        seq![without_return(s.take(n as int))] + lines_of(s.skip(n as int + 1))
    }
}

/// The lines of a text.
pub fn lines(s: &str) -> (r: Vec<String>)
    ensures
        texts(r@) == lines_of(s@),
{
    let chars = characters(s);
    let mut out: Vec<String> = Vec::new();
    let mut pos: usize = 0;
    assert(s@.skip(0) =~= s@);
    while pos < chars.len()
        invariant
            pos <= chars@.len(),
            chars@ == s@,
            texts(out@) + lines_of(s@.skip(pos as int)) == lines_of(s@),
        decreases chars@.len() - pos,
    {
        let end = place_of(&chars, pos, '\n');
        let ghost rest = s@.skip(pos as int);
        let ghost before = out@;
        if end == chars.len() {
            let line = s.substring_char(pos, end).to_owned();
            out.push(line);
            proof {
                assert(line@ =~= rest);
                assert(texts(out@) =~= texts(before) + seq![rest]);
                assert(s@.skip(s@.len() as int) =~= Seq::<char>::empty());
                assert(lines_of(rest) == seq![rest]);
            }
            pos = end;
        } else {
            let stop: usize = if end > pos && chars[end - 1] == '\r' {
                end - 1
            } else {
                end
            };
            let line = s.substring_char(pos, stop).to_owned();
            out.push(line);
            proof {
                let n = until(rest, '\n') as int;
                assert(n == end - pos);
                assert(line@ =~= without_return(rest.take(n)));
                assert(texts(out@) =~= texts(before) + seq![without_return(rest.take(n))]);
                assert(rest.skip(n + 1) =~= s@.skip(end + 1));
                assert(texts(out@) + lines_of(s@.skip(end + 1)) =~= texts(before) + lines_of(rest));
            }
            pos = end + 1;
        }
    }
    proof {
        assert(s@.skip(pos as int) =~= Seq::<char>::empty());
        assert(texts(out@) + lines_of(s@.skip(pos as int)) =~= texts(out@));
    }
    out
}

/// `s` cut in two at its first `c`, which neither part holds; nothing where `s` has no `c`.
pub open spec fn split_at_first(s: Seq<char>, c: char) -> Option<(Seq<char>, Seq<char>)> {
    let n = until(s, c);
    if n < s.len() {
        Some((s.take(n as int), s.skip(n as int + 1)))
    } else {
        None
    }
}

/// `s` cut in two at its first `c`, which neither part holds.
pub fn split_once(s: &str, c: char) -> (r: Option<(String, String)>)
    ensures
        match r {
            Some(parts) => split_at_first(s@, c) == Some((parts.0@, parts.1@)),
            None => split_at_first(s@, c) is None,
        },
{
    let chars = characters(s);
    let end = place_of(&chars, 0, c);
    assert(s@.skip(0) =~= s@);
    if end < chars.len() {
        let head = s.substring_char(0, end).to_owned();
        let tail = s.substring_char(end + 1, chars.len()).to_owned();
        assert(head@ =~= s@.take(end as int));
        assert(tail@ =~= s@.skip(end + 1));
        Some((head, tail))
    } else {
        None
    }
}

/// Whether `chars` holds `prefix` from place `from` on.
fn holds_at(chars: &Vec<char>, from: usize, prefix: &Vec<char>) -> (r: bool)
    requires
        from <= chars@.len(),
    ensures
        r == prefix@.is_prefix_of(chars@.skip(from as int)),
{
    if prefix.len() > chars.len() - from {
        return false;
    }
    let mut i: usize = 0;
    while i < prefix.len()
        invariant
            i <= prefix@.len(),
            from + prefix.len() <= chars.len(),
            forall|j: int| 0 <= j < i ==> #[trigger] prefix@[j] == chars@[from + j],
        decreases prefix@.len() - i,
    {
        if prefix[i] != chars[from + i] {
            proof {
                let rest = chars@.skip(from as int);
                assert(rest.subrange(0, prefix@.len() as int)[i as int] != prefix@[i as int]);
            }
            return false;
        }
        i += 1;
    }
    assert(prefix@ =~= chars@.skip(from as int).subrange(0, prefix@.len() as int));
    true
}

/// Whether `s` begins with `prefix`.
pub fn starts_with(s: &str, prefix: &str) -> (r: bool)
    ensures
        r == prefix@.is_prefix_of(s@),
{
    let chars = characters(s);
    let start = characters(prefix);
    assert(s@.skip(0) =~= s@);
    holds_at(&chars, 0, &start)
}

/// `s` without `prefix` at its beginning, as often as it stands there.
pub open spec fn without_prefixes(s: Seq<char>, prefix: Seq<char>) -> Seq<char>
    decreases s.len(),
{
    if prefix.len() > 0 && prefix.is_prefix_of(s) {
        without_prefixes(s.skip(prefix.len() as int), prefix)
    } else {
        s
    }
}

/// `s` without `prefix` at its beginning, as often as it stands there.
pub fn strip_prefixes(s: &str, prefix: &str) -> (r: String)
    ensures
        r@ == without_prefixes(s@, prefix@),
{
    let chars = characters(s);
    let start = characters(prefix);
    let mut pos: usize = 0;
    assert(s@.skip(0) =~= s@);
    while start.len() > 0 && holds_at(&chars, pos, &start)
        invariant
            pos <= chars@.len(),
            chars@ == s@,
            start@ == prefix@,
            without_prefixes(s@.skip(pos as int), prefix@) == without_prefixes(s@, prefix@),
        decreases chars@.len() - pos,
    {
        proof {
            assert(s@.skip(pos as int).skip(prefix@.len() as int) =~= s@.skip(pos + prefix@.len()));
            assert(pos + start.len() <= chars.len());
        }
        pos += start.len();
    }
    assert(s@.subrange(pos as int, s@.len() as int) =~= s@.skip(pos as int));
    s.substring_char(pos, chars.len()).to_owned()
}

/// The code of `c`, an ASCII capital counted as its small letter.
pub open spec fn ascii_lower(c: char) -> u32 {
    if 'A' <= c <= 'Z' {
        (c as u32 + 32) as u32
    } else {
        c as u32
    }
}

/// Whether two texts differ at most in the case of ASCII letters.
pub open spec fn same_ignoring_ascii_case(a: Seq<char>, b: Seq<char>) -> bool {
    &&& a.len() == b.len()
    &&& forall|i: int| 0 <= i < a.len() ==> ascii_lower(#[trigger] a[i]) == ascii_lower(b[i])
}

fn lower_code(c: char) -> (r: u32)
    ensures
        r == ascii_lower(c),
{
    if 'A' <= c && c <= 'Z' {
        c as u32 + 32
    } else {
        c as u32
    }
}

/// Whether two strings differ at most in the case of ASCII letters.
pub fn eq_ignore_ascii_case(a: &str, b: &str) -> (r: bool)
    ensures
        r == same_ignoring_ascii_case(a@, b@),
{
    let left = characters(a);
    let right = characters(b);
    if left.len() != right.len() {
        return false;
    }
    let mut i: usize = 0;
    while i < left.len()
        invariant
            i <= left@.len(),
            left@ == a@,
            right@ == b@,
            left@.len() == right@.len(),
            forall|j: int| 0 <= j < i ==> ascii_lower(#[trigger] a@[j]) == ascii_lower(b@[j]),
        decreases left@.len() - i,
    {
        if lower_code(left[i]) != lower_code(right[i]) {
            assert(ascii_lower(a@[i as int]) != ascii_lower(b@[i as int]));
            return false;
        }
        i += 1;
    }
    true
}

/// A decimal digit.
pub open spec fn digit(c: char) -> bool {
    '0' <= c <= '9'
}

/// Whether every character of `s` is a decimal digit.
pub open spec fn all_digits(s: Seq<char>) -> bool {
    forall|i: int| 0 <= i < s.len() ==> digit(#[trigger] s[i])
}

/// The number that a row of decimal digits stands for.
pub open spec fn number_of(s: Seq<char>) -> nat
    decreases s.len(),
{
    if s.len() == 0 {
        0
    } else {
        10 * number_of(s.drop_last()) + (s.last() as u32 - '0' as u32) as nat
    }
}

/// The digits of a number that may have a plus sign before it.
pub open spec fn unsigned_digits(s: Seq<char>) -> Seq<char> {
    if s.len() > 0 && s[0] == '+' {
        s.skip(1)
    } else {
        s
    }
}

/// The number that a text spells: decimal digits, at least one, and perhaps a plus sign before
/// them.
pub open spec fn written_number(s: Seq<char>) -> Option<nat> {
    let digits = unsigned_digits(s);
    if digits.len() > 0 && all_digits(digits) {
        Some(number_of(digits))
    } else {
        None
    }
}

proof fn lemma_number_grows(s: Seq<char>, k: int)
    requires
        all_digits(s),
        0 <= k <= s.len(),
    ensures
        number_of(s.take(k)) <= number_of(s),
    decreases s.len(),
{
    if k == s.len() {
        assert(s.take(k) =~= s);
    } else {
        lemma_number_grows(s.drop_last(), k);
        assert(s.drop_last().take(k) =~= s.take(k));
    }
}

/// The number that `s` spells, if there is one and it is at most `max`.
pub fn parse_number(s: &str, max: u64) -> (r: Option<u64>)
    ensures
        match r {
            Some(n) => written_number(s@) == Some(n as nat) && n <= max,
            None => written_number(s@) is None || written_number(s@)->0 > max,
        },
{
    let chars = characters(s);
    let start: usize = if chars.len() > 0 && chars[0] == '+' {
        1
    } else {
        0
    };
    let ghost digits = unsigned_digits(s@);
    assert(digits =~= s@.skip(start as int));
    if start == chars.len() {
        return None;
    }
    let mut total: u64 = 0;
    let mut i: usize = start;
    assert(digits.take(0) =~= Seq::<char>::empty());
    while i < chars.len()
        invariant
            start <= i <= chars@.len(),
            start < chars@.len(),
            chars@ == s@,
            digits == unsigned_digits(s@),
            digits == s@.skip(start as int),
            total <= max,
            total == number_of(digits.take(i - start)),
            all_digits(digits.take(i - start)),
        decreases chars@.len() - i,
    {
        let c = chars[i];
        assert(c == digits[i - start]);
        if !('0' <= c && c <= '9') {
            assert(!digit(digits[i - start]));
            return None;
        }
        let d: u64 = c as u64 - '0' as u64;
        let next: u128 = total as u128 * 10 + d as u128;
        let ghost grown = digits.take(i - start + 1);
        proof {
            assert(grown.drop_last() =~= digits.take(i - start));
            assert(grown.last() == c);
            assert(next == number_of(grown));
            assert forall|j: int| 0 <= j < grown.len() implies digit(#[trigger] grown[j]) by {
                if j < i - start {
                    assert(grown[j] == digits.take(i - start)[j]);
                }
            }
        }
        if next > max as u128 {
            proof {
                if all_digits(digits) {
                    lemma_number_grows(digits, i - start + 1);
                }
            }
            return None;
        }
        total = next as u64;
        i += 1;
    }
    assert(digits.take(i - start) =~= digits);
    Some(total)
}

/// The decimal digit for a number below ten.
pub open spec fn digit_char(d: nat) -> char
    recommends
        d < 10,
{
    ('0' as u32 + d) as char
}

/// A number in decimal.
pub open spec fn number_text(n: nat) -> Seq<char>
    decreases n,
{
    if n < 10 {
        seq![digit_char(n)]
    } else {
        number_text(n / 10).push(digit_char(n % 10))
    }
}

fn digit_string(d: u64) -> (r: String)
    requires
        d < 10,
    ensures
        r@ == seq![digit_char(d as nat)],
{
    proof {
        reveal_strlit("0");
        reveal_strlit("1");
        reveal_strlit("2");
        reveal_strlit("3");
        reveal_strlit("4");
        reveal_strlit("5");
        reveal_strlit("6");
        reveal_strlit("7");
        reveal_strlit("8");
        reveal_strlit("9");
    }
    let text = if d == 0 {
        "0"
    } else if d == 1 {
        "1"
    } else if d == 2 {
        "2"
    } else if d == 3 {
        "3"
    } else if d == 4 {
        "4"
    } else if d == 5 {
        "5"
    } else if d == 6 {
        "6"
    } else if d == 7 {
        "7"
    } else if d == 8 {
        "8"
    } else {
        "9"
    };
    assert(text@ =~= seq![digit_char(d as nat)]);
    text.to_owned()
}

/// A number in decimal.
pub fn number_string(n: u64) -> (r: String)
    ensures
        r@ == number_text(n as nat),
    decreases n,
{
    if n < 10 {
        digit_string(n)
    } else {
        let head = number_string(n / 10);
        let tail = digit_string(n % 10);
        let text = head.concat(tail.as_str());
        assert(text@ =~= number_text((n / 10) as nat).push(digit_char((n % 10) as nat)));
        text
    }
}

/// What a number is written as spells that number.
pub proof fn written_number_reads_back(n: nat)
    ensures
        written_number(number_text(n)) == Some(n),
{
    lemma_number_text(n);
    let s = number_text(n);
    assert(digit(s[0]));
    assert(unsigned_digits(s) == s);
}

proof fn lemma_number_text(n: nat)
    ensures
        number_text(n).len() > 0,
        all_digits(number_text(n)),
        number_of(number_text(n)) == n,
    decreases n,
{
    let s = number_text(n);
    if n < 10 {
        assert(s.drop_last() =~= Seq::<char>::empty());
        assert(number_of(s.drop_last()) == 0);
        assert(s.last() as u32 == '0' as u32 + n);
    } else {
        lemma_number_text(n / 10);
        assert(s.last() as u32 == '0' as u32 + n % 10);
        let head = number_text(n / 10);
        assert(s.drop_last() =~= head);
        assert forall|i: int| 0 <= i < s.len() implies digit(#[trigger] s[i]) by {
            if i < head.len() {
                assert(s[i] == head[i]);
            }
        }
    }
}

/// The parts one after the other, with `separator` between two.
pub open spec fn joined(parts: Seq<Seq<char>>, separator: Seq<char>) -> Seq<char>
    decreases parts.len(),
{
    if parts.len() == 0 {
        Seq::empty()
    } else if parts.len() == 1 {
        parts[0]
    } else {
        joined(parts.drop_last(), separator) + separator + parts.last()
    }
}

/// The parts one after the other, with `separator` between two.
pub fn join(parts: &[&str], separator: &str) -> (r: String)
    ensures
        r@ == joined(words(parts@), separator@),
{
    let mut out: String = String::new();
    let mut i: usize = 0;
    assert(words(parts@).take(0) =~= Seq::<Seq<char>>::empty());
    while i < parts.len()
        invariant
            i <= parts@.len(),
            out@ == joined(words(parts@).take(i as int), separator@),
        decreases parts@.len() - i,
    {
        if i > 0 {
            out.append(separator);
        }
        let part = parts[i];
        out.append(part);
        proof {
            let grown = words(parts@).take(i + 1);
            assert(grown.drop_last() =~= words(parts@).take(i as int));
            assert(grown.last() == part@);
            if i == 0 {
                assert(out@ =~= part@);
            }
        }
        i += 1;
    }
    assert(words(parts@).take(i as int) =~= words(parts@));
    out
}

/// Dictionary order over the codes of the characters: `a` stands strictly before `b`.
pub open spec fn precedes(a: Seq<char>, b: Seq<char>) -> bool
    decreases a.len(),
{
    if b.len() == 0 {
        false
    } else if a.len() == 0 {
        true
    } else if a[0] == b[0] {
        precedes(a.skip(1), b.skip(1))
    } else {
        a[0] < b[0]
    }
}

/// No text stands before itself.
pub proof fn precedes_is_irreflexive(a: Seq<char>)
    ensures
        !precedes(a, a),
    decreases a.len(),
{
    if a.len() > 0 {
        precedes_is_irreflexive(a.skip(1));
    }
}

/// The order of texts is transitive.
pub proof fn precedes_is_transitive(a: Seq<char>, b: Seq<char>, c: Seq<char>)
    requires
        precedes(a, b),
        precedes(b, c),
    ensures
        precedes(a, c),
    decreases a.len(),
{
    if a.len() > 0 && a[0] == b[0] && b[0] == c[0] {
        precedes_is_transitive(a.skip(1), b.skip(1), c.skip(1));
    }
}

/// Of two different texts one stands before the other.
pub proof fn precedes_is_total(a: Seq<char>, b: Seq<char>)
    ensures
        precedes(a, b) || precedes(b, a) || a == b,
    decreases a.len(),
{
    if a.len() == 0 || b.len() == 0 {
        if a.len() == 0 && b.len() == 0 {
            assert(a =~= b);
        }
    } else if a[0] == b[0] {
        precedes_is_total(a.skip(1), b.skip(1));
        if a.skip(1) == b.skip(1) {
            assert(a =~= seq![a[0]] + a.skip(1));
            assert(b =~= seq![b[0]] + b.skip(1));
        }
    }
}

/// Whether `a` stands strictly before `b` in dictionary order.
pub fn stands_before(a: &str, b: &str) -> (r: bool)
    ensures
        r == precedes(a@, b@),
{
    let left = characters(a);
    let right = characters(b);
    let mut i: usize = 0;
    assert(a@.skip(0) =~= a@);
    assert(b@.skip(0) =~= b@);
    while i < left.len() && i < right.len() && left[i] == right[i]
        invariant
            i <= left@.len(),
            i <= right@.len(),
            left@ == a@,
            right@ == b@,
            precedes(a@.skip(i as int), b@.skip(i as int)) == precedes(a@, b@),
        decreases left@.len() - i,
    {
        proof {
            assert(a@.skip(i as int).skip(1) =~= a@.skip(i + 1));
            assert(b@.skip(i as int).skip(1) =~= b@.skip(i + 1));
        }
        i += 1;
    }
    if i == right.len() {
        false
    } else if i == left.len() {
        true
    } else {
        left[i] < right[i]
    }
}

/// Trimming takes the whitespace off both ends and nothing else: what stands between two runs of
/// whitespace, and itself begins and ends with other characters, is what is left.
pub proof fn trimming_uncovers_the_core(before: Seq<char>, core: Seq<char>, after: Seq<char>)
    requires
        blank(before),
        blank(after),
        core.len() > 0 ==> !white_space(core[0]) && !white_space(core.last()),
    ensures
        trimmed(before + core + after) == core,
{
    let s = before + core + after;
    if core.len() == 0 {
        assert forall|i: int| 0 <= i < s.len() implies white_space(#[trigger] s[i]) by {
            if i < before.len() {
                assert(s[i] == before[i]);
            } else {
                assert(s[i] == after[i - before.len()]);
            }
        }
        blank_text_trims_to_nothing(s);
        assert(trimmed(s) =~= core);
    } else {
        let k = before.len() as int;
        assert forall|j: int| 0 <= j < k implies white_space(#[trigger] s[j]) by {
            assert(s[j] == before[j]);
        }
        assert(s[k] == core[0]);
        lemma_trimmed_start(s, k);
        let rest = s.skip(k);
        assert(rest =~= core + after);
        assert forall|j: int| core.len() <= j < rest.len() implies white_space(#[trigger] rest[j]) by {
            assert(rest[j] == after[j - core.len()]);
        }
        assert(rest[core.len() - 1] == core.last());
        lemma_trimmed_end(rest, core.len() as int);
        assert(rest.take(core.len() as int) =~= core);
    }
}

/// A line ends at the first line feed, and loses one carriage return before it; the text after the
/// line feed gives the lines that follow.
pub proof fn first_line_stands_before_the_line_feed(line: Seq<char>, rest: Seq<char>)
    requires
        forall|i: int| 0 <= i < line.len() ==> #[trigger] line[i] != '\n',
    ensures
        lines_of(line + seq!['\n'] + rest) == seq![
            if line.len() > 0 && line.last() == '\r' {
                line.drop_last()
            } else {
                line
            },
        ] + lines_of(rest),
        line.len() > 0 ==> lines_of(line) == seq![line],
{
    let s = line + seq!['\n'] + rest;
    let n = line.len() as int;
    assert forall|j: int| 0 <= j < n implies #[trigger] s[j] != '\n' by {
        assert(s[j] == line[j]);
    }
    assert(s[n] == '\n');
    lemma_until(s, '\n', n);
    assert(s.take(n) =~= line);
    assert(s.skip(n + 1) =~= rest);
    lemma_until(line, '\n', n);
}

/// A text without characters has no lines.
pub proof fn empty_text_has_no_lines()
    ensures
        lines_of(Seq::<char>::empty()).len() == 0,
{
}

/// A text is cut at its first `c`: the two parts with a `c` between them are the text, and the first
/// part holds none. A text without a `c` is not cut.
pub proof fn text_is_cut_at_its_first(s: Seq<char>, c: char, head: Seq<char>, tail: Seq<char>)
    ensures
        split_at_first(s, c) == Some((head, tail)) <==> s == head + seq![c] + tail && (forall|i: int|
            0 <= i < head.len() ==> #[trigger] head[i] != c),
        split_at_first(s, c) is None <==> (forall|i: int| 0 <= i < s.len() ==> #[trigger] s[i] != c),
{
    lemma_until_is_first(s, c);
    let n = until(s, c) as int;
    if split_at_first(s, c) == Some((head, tail)) {
        assert(s =~= head + seq![c] + tail);
        assert forall|i: int| 0 <= i < head.len() implies #[trigger] head[i] != c by {
            assert(head[i] == s[i]);
        }
    }
    if s == head + seq![c] + tail && (forall|i: int|
        0 <= i < head.len() ==> #[trigger] head[i] != c) {
        assert forall|i: int| 0 <= i < head.len() implies #[trigger] s[i] != c by {
            assert(s[i] == head[i]);
        }
        assert(s[head.len() as int] == c);
        lemma_until(s, c, head.len() as int);
        assert(s.take(n) =~= head);
        assert(s.skip(n + 1) =~= tail);
    }
    if n < s.len() {
        assert(s[n] == c);
    }
}

proof fn lemma_until_is_first(s: Seq<char>, c: char)
    ensures
        until(s, c) <= s.len(),
        forall|i: int| 0 <= i < until(s, c) ==> #[trigger] s[i] != c,
        until(s, c) < s.len() ==> s[until(s, c) as int] == c,
    decreases s.len(),
{
    if s.len() > 0 && s[0] != c {
        let rest = s.skip(1);
        lemma_until_is_first(rest, c);
        assert forall|i: int| 0 <= i < until(s, c) implies #[trigger] s[i] != c by {
            if i > 0 {
                assert(s[i] == rest[i - 1]);
            }
        }
        if until(s, c) < s.len() {
            assert(s[until(s, c) as int] == rest[until(rest, c) as int]);
        }
    }
}

/// A prefix is taken off as often as it stands at the beginning: once more for each time that it is
/// put there, and not at all where it does not stand there.
pub proof fn prefix_is_taken_off_each_time(s: Seq<char>, prefix: Seq<char>)
    requires
        prefix.len() > 0,
    ensures
        without_prefixes(prefix + s, prefix) == without_prefixes(s, prefix),
        !prefix.is_prefix_of(s) ==> without_prefixes(s, prefix) == s,
        !prefix.is_prefix_of(without_prefixes(s, prefix)),
    decreases s.len(),
{
    let grown = prefix + s;
    assert(grown.subrange(0, prefix.len() as int) =~= prefix);
    assert(grown.skip(prefix.len() as int) =~= s);
    if prefix.is_prefix_of(s) {
        prefix_is_taken_off_each_time(s.skip(prefix.len() as int), prefix);
    }
}

/// A text spells a number exactly when it is one or more decimal digits, with at most a plus sign
/// before them. A digit put behind the others makes ten times the number and that digit; a plus sign
/// and zeros before it change nothing.
pub proof fn numbers_are_spelled_in_decimal(s: Seq<char>, d: char)
    requires
        '0' <= d <= '9',
    ensures
        written_number(seq![d]) == Some((d as u32 - '0' as u32) as nat),
        written_number(s) matches Some(n) ==> written_number(s.push(d)) == Some(
            10 * n + (d as u32 - '0' as u32) as nat,
        ),
        written_number(s) is Some && s[0] != '+' ==> written_number(seq!['+'] + s) == written_number(s)
            && written_number(seq!['0'] + s) == written_number(s),
        written_number(s) is Some ==> s.len() > 0 && (forall|i: int|
            0 <= i < s.len() ==> '0' <= #[trigger] s[i] <= '9' || i == 0 && s[i] == '+'),
        written_number(seq!['+']) is None,
        written_number(Seq::<char>::empty()) is None,
{
    let one = seq![d];
    assert(one.drop_last() =~= Seq::<char>::empty());
    assert(number_of(one.drop_last()) == 0);
    assert(unsigned_digits(one) == one);
    assert(unsigned_digits(seq!['+']) =~= Seq::<char>::empty());
    if written_number(s) is Some {
        let digits = unsigned_digits(s);
        let grown = unsigned_digits(s.push(d));
        assert(grown =~= digits.push(d));
        assert(grown.drop_last() =~= digits);
        assert forall|i: int| 0 <= i < grown.len() implies digit(#[trigger] grown[i]) by {
            if i < digits.len() {
                assert(grown[i] == digits[i]);
            }
        }
        assert forall|i: int| 0 <= i < s.len() implies '0' <= #[trigger] s[i] <= '9' || i == 0 && s[i]
            == '+' by {
            if s[0] == '+' {
                if i > 0 {
                    assert(digit(digits[i - 1]));
                }
            } else {
                assert(digit(digits[i]));
            }
        }
        if s[0] != '+' {
            assert(unsigned_digits(seq!['+'] + s) =~= s);
            let zeros = seq!['0'] + s;
            assert(zeros[0] == '0');
            assert(unsigned_digits(zeros) == zeros);
            lemma_leading_zero(s);
            assert forall|i: int| 0 <= i < zeros.len() implies digit(#[trigger] zeros[i]) by {
                if i > 0 {
                    assert(zeros[i] == s[i - 1]);
                }
            }
        }
    }
}

proof fn lemma_leading_zero(s: Seq<char>)
    requires
        all_digits(s),
    ensures
        number_of(seq!['0'] + s) == number_of(s),
    decreases s.len(),
{
    let zeros = seq!['0'] + s;
    if s.len() == 0 {
        assert(zeros.drop_last() =~= s);
        assert(number_of(zeros.drop_last()) == 0);
    } else {
        assert(zeros.drop_last() =~= seq!['0'] + s.drop_last());
        lemma_leading_zero(s.drop_last());
        assert(zeros.last() == s.last());
    }
}

/// Joined parts: nothing for none, the part itself for one, and for more the separator between two.
pub proof fn joined_parts_stand_apart(
    parts: Seq<Seq<char>>,
    last: Seq<char>,
    separator: Seq<char>,
)
    ensures
        joined(Seq::<Seq<char>>::empty(), separator) == Seq::<char>::empty(),
        joined(seq![last], separator) == last,
        parts.len() > 0 ==> joined(parts.push(last), separator) == joined(parts, separator) + separator
            + last,
{
    if parts.len() > 0 {
        assert(parts.push(last).drop_last() =~= parts);
    }
}

proof fn lemma_same_letter(x: char, y: char)
    ensures
        ascii_lower(x) == ascii_lower(y) <==> {
            ||| x == y
            ||| 'A' <= x <= 'Z' && y as u32 == x as u32 + 32
            ||| 'A' <= y <= 'Z' && x as u32 == y as u32 + 32
        },
{
}

/// Two texts differ at most in the case of ASCII letters exactly when each pair of characters is the
/// same or an ASCII capital and its small letter.
pub proof fn ascii_case_is_all_that_may_differ(a: Seq<char>, b: Seq<char>)
    ensures
        same_ignoring_ascii_case(a, b) <==> a.len() == b.len() && (forall|i: int|
            #![trigger a[i]]
            0 <= i < a.len() ==> {
                ||| a[i] == b[i]
                ||| 'A' <= a[i] <= 'Z' && b[i] as u32 == a[i] as u32 + 32
                ||| 'A' <= b[i] <= 'Z' && a[i] as u32 == b[i] as u32 + 32
            }),
{
    if a.len() == b.len() {
        assert forall|i: int| 0 <= i < a.len() implies (ascii_lower(#[trigger] a[i]) == ascii_lower(
            b[i],
        ) <==> {
            ||| a[i] == b[i]
            ||| 'A' <= a[i] <= 'Z' && b[i] as u32 == a[i] as u32 + 32
            ||| 'A' <= b[i] <= 'Z' && a[i] as u32 == b[i] as u32 + 32
        }) by {
            lemma_same_letter(a[i], b[i]);
        }
    }
}

/// A written number has no needless zero before it.
pub proof fn written_number_has_no_leading_zero(n: nat)
    ensures
        number_text(n).len() > 0,
        n > 0 ==> number_text(n)[0] != '0',
        n == 0 ==> number_text(n) == seq!['0'],
    decreases n,
{
    if n >= 10 {
        written_number_has_no_leading_zero(n / 10);
    } else {
        assert(number_text(n)[0] as u32 == '0' as u32 + n);
        assert(n == 0 ==> number_text(n) =~= seq!['0']);
    }
}

/// The order of texts is decided by the first character in which they differ, and a text stands before
/// every longer one that begins with it.
pub proof fn first_difference_decides_the_order(
    common: Seq<char>,
    x: char,
    y: char,
    a: Seq<char>,
    b: Seq<char>,
)
    ensures
        x != y ==> (precedes(common + seq![x] + a, common + seq![y] + b) <==> x < y),
        precedes(common, common + seq![x] + a),
    decreases common.len(),
{
    let left = common + seq![x] + a;
    let right = common + seq![y] + b;
    if common.len() == 0 {
        assert(left[0] == x);
        assert(right[0] == y);
    } else {
        let rest = common.skip(1);
        first_difference_decides_the_order(rest, x, y, a, b);
        assert(left.skip(1) =~= rest + seq![x] + a);
        assert(right.skip(1) =~= rest + seq![y] + b);
        assert(left[0] == common[0]);
        assert(right[0] == common[0]);
    }
}

/// These are the characters that are white space, and no others are.
pub proof fn white_space_characters(c: char)
    ensures
        white_space(c) <==> {
            let code = c as u32;
            ||| code == 0x9 || code == 0xa || code == 0xb || code == 0xc || code == 0xd
            ||| code == 0x20 || code == 0x85 || code == 0xa0 || code == 0x1680
            ||| code == 0x2000 || code == 0x2001 || code == 0x2002 || code == 0x2003
            ||| code == 0x2004 || code == 0x2005 || code == 0x2006 || code == 0x2007
            ||| code == 0x2008 || code == 0x2009 || code == 0x200a
            ||| code == 0x2028 || code == 0x2029 || code == 0x202f || code == 0x205f
            ||| code == 0x3000
        },
{
}

} // verus!
