//! Text helpers: white space, ASCII case, comma-separated fields and joining.
use vstd::prelude::*;
use vstd::string::*;

verus! {

/// The characters with the Unicode `White_Space` property.
pub open spec fn is_white_space(c: char) -> bool {
    ||| '\u{9}' <= c <= '\u{d}'
    ||| c == ' '
    ||| c == '\u{85}'
    ||| c == '\u{a0}'
    ||| c == '\u{1680}'
    ||| '\u{2000}' <= c <= '\u{200a}'
    ||| c == '\u{2028}'
    ||| c == '\u{2029}'
    ||| c == '\u{202f}'
    ||| c == '\u{205f}'
    ||| c == '\u{3000}'
}

/// Nothing but white space.
pub open spec fn is_blank_text(s: Seq<char>) -> bool {
    forall|i: int| 0 <= i < s.len() ==> is_white_space(#[trigger] s[i])
}

/// `s` without its leading white space.
pub open spec fn trimmed_start(s: Seq<char>) -> Seq<char>
    decreases s.len(),
{
    if s.len() > 0 && is_white_space(s[0]) {
        trimmed_start(s.drop_first())
    } else {
        s
    }
}

/// `s` without its trailing white space.
pub open spec fn trimmed_end(s: Seq<char>) -> Seq<char>
    decreases s.len(),
{
    if s.len() > 0 && is_white_space(s.last()) {
        trimmed_end(s.drop_last())
    } else {
        s
    }
}

/// `s` without its leading and trailing white space.
pub open spec fn trimmed(s: Seq<char>) -> Seq<char> {
    trimmed_end(trimmed_start(s))
}

/// The ASCII letters in lower case; every other character as it is.
pub open spec fn ascii_lower(c: char) -> char {
    if 'A' <= c <= 'Z' {
        (c as u32 + 32) as char
    } else {
        c
    }
}

/// `ascii_lower`, character by character.
pub open spec fn lowered(s: Seq<char>) -> Seq<char> {
    s.map_values(|c: char| ascii_lower(c))
}

/// What stands before the first comma: all of `s` where there is none.
pub open spec fn first_field(s: Seq<char>) -> Seq<char>
    decreases s.len(),
{
    if s.len() == 0 || s[0] == ',' {
        Seq::empty()
    } else {
        seq![s[0]] + first_field(s.drop_first())
    }
}

/// The parts in order, with `sep` between neighbours.
pub open spec fn joined(parts: Seq<Seq<char>>, sep: Seq<char>) -> Seq<char>
    decreases parts.len(),
{
    if parts.len() == 0 {
        Seq::empty()
    } else if parts.len() == 1 {
        parts[0]
    } else {
        joined(parts.drop_last(), sep) + sep + parts.last()
    }
}

/// Decides whether a character is white space.
pub fn white_space(c: char) -> (r: bool)
    ensures
        r == is_white_space(c),
{
    ('\u{9}' <= c && c <= '\u{d}') || c == ' ' || c == '\u{85}' || c == '\u{a0}' || c == '\u{1680}'
        || ('\u{2000}' <= c && c <= '\u{200a}') || c == '\u{2028}' || c == '\u{2029}' || c
        == '\u{202f}' || c == '\u{205f}' || c == '\u{3000}'
}

/// Decides whether a text is nothing but white space.
pub fn is_blank(s: &str) -> (r: bool)
    ensures
        r == is_blank_text(s@),
{
    for c in it: s.chars()
        invariant
            it.seq() == s@,
            forall|i: int| 0 <= i < it.index() ==> is_white_space(#[trigger] s@[i]),
    {
        if !white_space(c) {
            assert(s@[it.index()] == c);
            return false;
        }
    }
    true
}

/// Dropping `n` leading white-space characters does not change what is left
/// after trimming the start.
proof fn lemma_trimmed_start_skip(s: Seq<char>, n: int)
    requires
        0 <= n <= s.len(),
        forall|i: int| 0 <= i < n ==> is_white_space(#[trigger] s[i]),
    ensures
        trimmed_start(s) == trimmed_start(s.skip(n)),
    decreases n,
{
    if n > 0 {
        lemma_trimmed_start_skip(s.drop_first(), n - 1);
        assert(s.drop_first().skip(n - 1) =~= s.skip(n));
    } else {
        assert(s.skip(0) =~= s);
    }
}

/// Dropping trailing white-space characters does not change what is left
/// after trimming the end.
proof fn lemma_trimmed_end_take(s: Seq<char>, n: int)
    requires
        0 <= n <= s.len(),
        forall|i: int| n <= i < s.len() ==> is_white_space(#[trigger] s[i]),
    ensures
        trimmed_end(s) == trimmed_end(s.take(n)),
    decreases s.len() - n,
{
    if n < s.len() {
        lemma_trimmed_end_take(s.drop_last(), n);
        assert(s.drop_last().take(n) =~= s.take(n));
    } else {
        assert(s.take(n) =~= s);
    }
}

/// A text is blank exactly when nothing is left of it after trimming.
pub proof fn lemma_blank_trims_to_nothing(s: Seq<char>)
    ensures
        is_blank_text(s) <==> trimmed(s).len() == 0,
    decreases s.len(),
{
    if s.len() > 0 {
        if is_white_space(s[0]) {
            lemma_blank_trims_to_nothing(s.drop_first());
            assert forall|i: int| is_blank_text(s.drop_first()) && 0 <= i < s.len() implies is_white_space(
                #[trigger] s[i],
            ) by {
                if i > 0 {
                    assert(s.drop_first()[i - 1] == s[i]);
                }
            }
            assert(is_blank_text(s) ==> is_blank_text(s.drop_first()));
        } else {
            lemma_trimmed_end_keeps_head(s);
        }
    }
}

proof fn lemma_trimmed_end_keeps_head(s: Seq<char>)
    requires
        s.len() > 0,
        !is_white_space(s[0]),
    ensures
        trimmed_end(s).len() > 0,
    decreases s.len(),
{
    if is_white_space(s.last()) {
        lemma_trimmed_end_keeps_head(s.drop_last());
    }
}

/// `s` without its leading and trailing white space.
pub fn trim<'a>(s: &'a str) -> (r: &'a str)
    ensures
        r@ == trimmed(s@),
{
    let total: usize = s.unicode_len();
    let mut at: usize = 0;
    let mut start: usize = 0;
    let mut end: usize = 0;
    for c in it: s.chars()
        invariant
            it.seq() == s@,
            at == it.index(),
            total == s@.len(),
            start <= end <= at <= total,
            start == end ==> start == at,
            forall|i: int| 0 <= i < start ==> is_white_space(#[trigger] s@[i]),
            forall|i: int| end <= i < at ==> is_white_space(#[trigger] s@[i]),
            start < end ==> !is_white_space(s@[start as int]) && !is_white_space(s@[end - 1]),
    {
        assert(s@[at as int] == c);
        if white_space(c) {
            if start == end {
                start = at + 1;
                end = at + 1;
            }
        } else {
            end = at + 1;
        }
        at = at + 1;
    }
    proof {
        lemma_trimmed_start_skip(s@, start as int);
        let rest = s@.skip(start as int);
        assert(trimmed_start(s@) == rest);
        lemma_trimmed_end_take(rest, end - start);
        assert(rest.take(end - start) =~= s@.subrange(start as int, end as int));
    }
    s.substring_char(start, end)
}

/// The lower-case form of an ASCII letter.
fn lower(c: char) -> (r: char)
    ensures
        r == ascii_lower(c),
{
    match c {
        'A' => 'a',
        'B' => 'b',
        'C' => 'c',
        'D' => 'd',
        'E' => 'e',
        'F' => 'f',
        'G' => 'g',
        'H' => 'h',
        'I' => 'i',
        'J' => 'j',
        'K' => 'k',
        'L' => 'l',
        'M' => 'm',
        'N' => 'n',
        'O' => 'o',
        'P' => 'p',
        'Q' => 'q',
        'R' => 'r',
        'S' => 's',
        'T' => 't',
        'U' => 'u',
        'V' => 'v',
        'W' => 'w',
        'X' => 'x',
        'Y' => 'y',
        'Z' => 'z',
        other => other,
    }
}

/// Compares two texts, ASCII letters without regard to case.
pub fn eq_ignore_ascii_case(a: &str, b: &str) -> (r: bool)
    ensures
        r == (lowered(a@) == lowered(b@)),
{
    let mut xs = a.chars();
    let mut ys = b.chars();
    let ghost mut n: int = 0;
    loop
        invariant
            0 <= n <= a@.len(),
            n <= b@.len(),
            vstd::std_specs::iter::IteratorSpec::remaining(&xs) == a@.skip(n),
            vstd::std_specs::iter::IteratorSpec::remaining(&ys) == b@.skip(n),
            vstd::std_specs::iter::IteratorSpec::obeys_prophetic_iter_laws(&xs),
            vstd::std_specs::iter::IteratorSpec::obeys_prophetic_iter_laws(&ys),
            forall|i: int| 0 <= i < n ==> ascii_lower(#[trigger] a@[i]) == ascii_lower(b@[i]),
        decreases a@.len() - n,
    {
        let x = xs.next();
        let y = ys.next();
        match (x, y) {
            (Some(p), Some(q)) => {
                if lower(p) != lower(q) {
                    assert(lowered(a@)[n] != lowered(b@)[n]);
                    return false;
                }
            },
            (None, None) => {
                assert(lowered(a@) =~= lowered(b@));
                return true;
            },
            _ => {
                assert(lowered(a@).len() != lowered(b@).len());
                return false;
            },
        }
        proof {
            assert(a@.skip(n).drop_first() =~= a@.skip(n + 1));
            assert(b@.skip(n).drop_first() =~= b@.skip(n + 1));
            n = n + 1;
        }
    }
}

/// Compares two texts.
pub fn same_text(a: &str, b: &str) -> (r: bool)
    ensures
        r == (a@ == b@),
{
    a.to_owned() == b.to_owned()
}

proof fn lemma_first_field(s: Seq<char>, n: int)
    requires
        0 <= n <= s.len(),
        forall|i: int| 0 <= i < n ==> #[trigger] s[i] != ',',
        n == s.len() || s[n] == ',',
    ensures
        first_field(s) == s.take(n),
    decreases n,
{
    if n > 0 {
        lemma_first_field(s.drop_first(), n - 1);
        assert(seq![s[0]] + s.drop_first().take(n - 1) =~= s.take(n));
    } else {
        assert(s.take(0) =~= Seq::<char>::empty());
    }
}

/// What stands before the first comma.
pub fn before_comma<'a>(s: &'a str) -> (r: &'a str)
    ensures
        r@ == first_field(s@),
{
    let total: usize = s.unicode_len();
    let mut at: usize = 0;
    for c in it: s.chars()
        invariant
            it.seq() == s@,
            at == it.index(),
            total == s@.len(),
            at <= total,
            forall|i: int| 0 <= i < at ==> #[trigger] s@[i] != ',',
    {
        assert(s@[at as int] == c);
        if c == ',' {
            proof {
                lemma_first_field(s@, at as int);
            }
            return s.substring_char(0, at);
        }
        at = at + 1;
    }
    proof {
        lemma_first_field(s@, at as int);
    }
    s.substring_char(0, at)
}

/// The views of a vector of texts.
pub open spec fn views(parts: Seq<&str>) -> Seq<Seq<char>> {
    parts.map_values(|p: &str| p@)
}

/// The parts in order, with `sep` between neighbours.
pub fn join(parts: &Vec<&str>, sep: &str) -> (r: String)
    ensures
        r@ == joined(views(parts@), sep@),
{
    let mut out = String::new();
    let mut i: usize = 0;
    while i < parts.len()
        invariant
            i <= parts@.len(),
            out@ == joined(views(parts@).take(i as int), sep@),
        decreases parts@.len() - i,
    {
        if i > 0 {
            out.append(sep);
        }
        out.append(parts[i]);
        proof {
            let next = views(parts@).take(i + 1);
            assert(next.drop_last() =~= views(parts@).take(i as int));
            assert(next.last() == parts@[i as int]@);
            if i == 0 {
                assert(out@ =~= next[0]);
            }
        }
        i = i + 1;
    }
    assert(views(parts@).take(i as int) =~= views(parts@));
    out
}

/// White space is the tab, the line breaks and the blanks of Unicode, each
/// named by its code point, and nothing else.
pub proof fn lemma_white_space_listed(c: char)
    ensures
        is_white_space(c) <==> seq![
            0x09u32,
            0x0A,
            0x0B,
            0x0C,
            0x0D,
            0x20,
            0x85,
            0xA0,
            0x1680,
            0x2000,
            0x2001,
            0x2002,
            0x2003,
            0x2004,
            0x2005,
            0x2006,
            0x2007,
            0x2008,
            0x2009,
            0x200A,
            0x2028,
            0x2029,
            0x202F,
            0x205F,
            0x3000,
        ].contains(c as u32),
{
    let points = seq![
        0x09u32,
        0x0A,
        0x0B,
        0x0C,
        0x0D,
        0x20,
        0x85,
        0xA0,
        0x1680,
        0x2000,
        0x2001,
        0x2002,
        0x2003,
        0x2004,
        0x2005,
        0x2006,
        0x2007,
        0x2008,
        0x2009,
        0x200A,
        0x2028,
        0x2029,
        0x202F,
        0x205F,
        0x3000,
    ];
    if is_white_space(c) {
        let i = if c as u32 <= 0x0D {
            c as u32 - 0x09
        } else if c as u32 == 0x20 {
            5
        } else if c as u32 == 0x85 {
            6
        } else if c as u32 == 0xA0 {
            7
        } else if c as u32 == 0x1680 {
            8
        } else if c as u32 <= 0x200A {
            c as u32 - 0x2000 + 9
        } else if c as u32 == 0x2028 {
            20
        } else if c as u32 == 0x2029 {
            21
        } else if c as u32 == 0x202F {
            22
        } else if c as u32 == 0x205F {
            23
        } else {
            24
        };
        assert(points[i] == c as u32);
    }
}

/// Whatever white space is put around a text that has none at its ends, it is
/// all that trimming takes away.
pub proof fn lemma_trimmed_is_the_middle(before: Seq<char>, middle: Seq<char>, after: Seq<char>)
    requires
        forall|i: int| 0 <= i < before.len() ==> is_white_space(#[trigger] before[i]),
        forall|i: int| 0 <= i < after.len() ==> is_white_space(#[trigger] after[i]),
        middle.len() > 0 ==> !is_white_space(middle[0]) && !is_white_space(middle.last()),
    ensures
        trimmed(before + middle + after) == middle,
{
    let s = before + middle + after;
    if middle.len() == 0 {
        assert forall|i: int| 0 <= i < s.len() implies is_white_space(#[trigger] s[i]) by {
            if i < before.len() {
                assert(s[i] == before[i]);
            } else {
                assert(s[i] == after[i - before.len()]);
            }
        }
        lemma_blank_trims_to_nothing(s);
        assert(trimmed(s) =~= middle);
    } else {
        let n = before.len() as int;
        assert forall|i: int| 0 <= i < n implies is_white_space(#[trigger] s[i]) by {
            assert(s[i] == before[i]);
        }
        lemma_trimmed_start_skip(s, n);
        let rest = s.skip(n);
        assert(rest =~= middle + after);
        assert(rest[0] == middle[0]);
        assert(trimmed_start(s) == rest);
        assert forall|i: int| middle.len() <= i < rest.len() implies is_white_space(
            #[trigger] rest[i],
        ) by {
            assert(rest[i] == after[i - middle.len()]);
        }
        lemma_trimmed_end_take(rest, middle.len() as int);
        assert(rest.take(middle.len() as int) =~= middle);
    }
}

/// Every text is what trimming leaves of it, with white space around: trimming
/// takes away nothing else, and leaves no white space at the ends. Gives the
/// white space in front and behind.
pub proof fn lemma_trimmed_parts(s: Seq<char>) -> (cut: (Seq<char>, Seq<char>))
    ensures
        s == cut.0 + trimmed(s) + cut.1,
        forall|i: int| 0 <= i < cut.0.len() ==> is_white_space(#[trigger] cut.0[i]),
        forall|i: int| 0 <= i < cut.1.len() ==> is_white_space(#[trigger] cut.1[i]),
        trimmed(s).len() > 0 ==> !is_white_space(trimmed(s)[0]) && !is_white_space(
            trimmed(s).last(),
        ),
{
    let front = lemma_trimmed_start_parts(s);
    let rest = trimmed_start(s);
    let back = lemma_trimmed_end_parts(rest);
    assert(s =~= front + trimmed(s) + back);
    if trimmed(s).len() > 0 {
        assert(trimmed(s)[0] == rest[0]);
    }
    (front, back)
}

proof fn lemma_trimmed_start_parts(s: Seq<char>) -> (front: Seq<char>)
    ensures
        s == front + trimmed_start(s),
        forall|i: int| 0 <= i < front.len() ==> is_white_space(#[trigger] front[i]),
        trimmed_start(s).len() > 0 ==> !is_white_space(trimmed_start(s)[0]),
    decreases s.len(),
{
    if s.len() > 0 && is_white_space(s[0]) {
        let front = lemma_trimmed_start_parts(s.drop_first());
        let longer = seq![s[0]] + front;
        let rest = s.drop_first();
        assert(s =~= seq![s[0]] + rest);
        assert(s =~= longer + trimmed_start(rest));
        longer
    } else {
        assert(s =~= Seq::<char>::empty() + trimmed_start(s));
        Seq::empty()
    }
}

proof fn lemma_trimmed_end_parts(s: Seq<char>) -> (back: Seq<char>)
    ensures
        s == trimmed_end(s) + back,
        forall|i: int| 0 <= i < back.len() ==> is_white_space(#[trigger] back[i]),
        trimmed_end(s).len() > 0 ==> !is_white_space(trimmed_end(s).last()),
    decreases s.len(),
{
    if s.len() > 0 && is_white_space(s.last()) {
        let back = lemma_trimmed_end_parts(s.drop_last());
        let longer = back.push(s.last());
        let rest = s.drop_last();
        assert(s =~= rest.push(s.last()));
        assert(s =~= trimmed_end(rest) + longer);
        longer
    } else {
        assert(s =~= trimmed_end(s) + Seq::<char>::empty());
        Seq::empty()
    }
}

/// What `trim` gives has no white space at its ends, and whatever stood around
/// it in the text was white space.
pub proof fn lemma_trim_result(s: &str, r: &str)
    requires
        call_ensures(trim, (s,), r),
    ensures
        r@.len() > 0 ==> !is_white_space(r@[0]) && !is_white_space(r@.last()),
        exists|n: int|
            0 <= n <= s@.len() - r@.len() && #[trigger] s@.subrange(n, n + r@.len()) == r@ && (
            forall|i: int| 0 <= i < n ==> is_white_space(#[trigger] s@[i])) && (forall|i: int|
                n + r@.len() <= i < s@.len() ==> is_white_space(#[trigger] s@[i])),
{
    let (front, back) = lemma_trimmed_parts(s@);
    let n = front.len() as int;
    assert forall|i: int| 0 <= i < n implies is_white_space(#[trigger] s@[i]) by {
        assert(s@[i] == front[i]);
    }
    assert forall|i: int| n + r@.len() <= i < s@.len() implies is_white_space(#[trigger] s@[i]) by {
        assert(s@[i] == back[i - n - r@.len()]);
    }
    assert(s@.subrange(n, n + r@.len()) =~= r@);
}

/// `is_blank` tells whether trimming would leave nothing.
pub proof fn lemma_is_blank_result(s: &str, r: bool, trimmed_text: &str)
    requires
        call_ensures(is_blank, (s,), r),
        call_ensures(trim, (s,), trimmed_text),
    ensures
        r <==> trimmed_text@.len() == 0,
        r <==> (forall|i: int| 0 <= i < s@.len() ==> is_white_space(#[trigger] s@[i])),
{
    lemma_blank_trims_to_nothing(s@);
}

/// Two texts are equal but for ASCII case exactly when they have the same
/// length and the same letter at every place.
pub proof fn lemma_lowered_equal(a: Seq<char>, b: Seq<char>)
    ensures
        lowered(a) == lowered(b) <==> a.len() == b.len() && (forall|i: int|
            0 <= i < a.len() ==> {
                ||| #[trigger] a[i] == b[i]
                ||| 'A' <= a[i] <= 'Z' && b[i] as u32 == a[i] as u32 + 32
                ||| 'A' <= b[i] <= 'Z' && a[i] as u32 == b[i] as u32 + 32
            }),
{
    if lowered(a) == lowered(b) {
        assert(lowered(a).len() == a.len());
        assert(lowered(b).len() == b.len());
        assert forall|i: int| 0 <= i < a.len() implies {
            ||| #[trigger] a[i] == b[i]
            ||| 'A' <= a[i] <= 'Z' && b[i] as u32 == a[i] as u32 + 32
            ||| 'A' <= b[i] <= 'Z' && a[i] as u32 == b[i] as u32 + 32
        } by {
            assert(lowered(a)[i] == ascii_lower(a[i]));
            assert(lowered(b)[i] == ascii_lower(b[i]));
        }
    }
    if a.len() == b.len() && (forall|i: int|
        0 <= i < a.len() ==> {
            ||| #[trigger] a[i] == b[i]
            ||| 'A' <= a[i] <= 'Z' && b[i] as u32 == a[i] as u32 + 32
            ||| 'A' <= b[i] <= 'Z' && a[i] as u32 == b[i] as u32 + 32
        }) {
        assert forall|i: int| 0 <= i < a.len() implies lowered(a)[i] == lowered(b)[i] by {
            let x = a[i];
        }
        assert(lowered(a) =~= lowered(b));
    }
}

/// `eq_ignore_ascii_case` compares place by place, ASCII letters without regard
/// to case.
pub proof fn lemma_eq_ignore_ascii_case_result(a: &str, b: &str, r: bool)
    requires
        call_ensures(eq_ignore_ascii_case, (a, b), r),
    ensures
        r <==> a@.len() == b@.len() && (forall|i: int|
            0 <= i < a@.len() ==> {
                ||| #[trigger] a@[i] == b@[i]
                ||| 'A' <= a@[i] <= 'Z' && b@[i] as u32 == a@[i] as u32 + 32
                ||| 'A' <= b@[i] <= 'Z' && a@[i] as u32 == b@[i] as u32 + 32
            }),
{
    lemma_lowered_equal(a@, b@);
}

/// The first field is the longest beginning of the text without a comma.
pub proof fn lemma_first_field_ends_at_comma(s: Seq<char>)
    ensures
        first_field(s).len() <= s.len(),
        first_field(s) == s.take(first_field(s).len() as int),
        forall|i: int| 0 <= i < first_field(s).len() ==> #[trigger] s[i] != ',',
        first_field(s).len() == s.len() || s[first_field(s).len() as int] == ',',
    decreases s.len(),
{
    if s.len() > 0 && s[0] != ',' {
        let rest = s.drop_first();
        lemma_first_field_ends_at_comma(rest);
        let n = first_field(s).len() as int;
        assert(first_field(s) =~= s.take(n));
        assert forall|i: int| 0 <= i < n implies #[trigger] s[i] != ',' by {
            if i > 0 {
                assert(rest[i - 1] == s[i]);
            }
        }
    } else {
        assert(first_field(s) =~= s.take(0));
    }
}

/// `before_comma` gives what stands before the first comma, and everything
/// where there is none.
pub proof fn lemma_before_comma_result(s: &str, r: &str)
    requires
        call_ensures(before_comma, (s,), r),
    ensures
        r@.len() <= s@.len(),
        r@ == s@.take(r@.len() as int),
        forall|i: int| 0 <= i < r@.len() ==> #[trigger] s@[i] != ',',
        r@.len() == s@.len() || s@[r@.len() as int] == ',',
{
    lemma_first_field_ends_at_comma(s@);
}

/// Joining puts the separator between neighbours and nowhere else: another part
/// at the end brings one separator in front of it, unless it is the first.
pub proof fn lemma_joined_grows(parts: Seq<Seq<char>>, last: Seq<char>, sep: Seq<char>)
    ensures
        joined(Seq::empty(), sep) == Seq::<char>::empty(),
        joined(seq![last], sep) == last,
        parts.len() > 0 ==> joined(parts.push(last), sep) == joined(parts, sep) + sep + last,
{
    assert(parts.push(last).drop_last() =~= parts);
}

/// `join` of no texts is empty, of one text that text, and of two texts the
/// first, the separator and the second.
pub proof fn lemma_join_result(parts: Vec<&str>, sep: &str, r: String)
    requires
        call_ensures(join, (&parts, sep), r),
    ensures
        parts@.len() == 0 ==> r@.len() == 0,
        parts@.len() == 1 ==> r@ == parts@[0]@,
        parts@.len() == 2 ==> r@ == parts@[0]@ + sep@ + parts@[1]@,
        parts@.len() > 1 ==> r@ == joined(views(parts@.drop_last()), sep@) + sep@
            + parts@.last()@,
{
    let all = views(parts@);
    if parts@.len() > 1 {
        assert(all.drop_last() =~= views(parts@.drop_last()));
        if parts@.len() == 2 {
            assert(all.drop_last().len() == 1);
            assert(joined(all.drop_last(), sep@) == all[0]);
        }
    }
}

} // verus!
