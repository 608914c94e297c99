//! Text helpers: decimal rendering, durations, log tails and the spinner.
use vstd::prelude::*;

verus! {

/// The character of a decimal digit.
pub open spec fn digit_char(d: nat) -> char {
    if d == 0 {
        '0'
    } else if d == 1 {
        '1'
    } else if d == 2 {
        '2'
    } else if d == 3 {
        '3'
    } else if d == 4 {
        '4'
    } else if d == 5 {
        '5'
    } else if d == 6 {
        '6'
    } else if d == 7 {
        '7'
    } else if d == 8 {
        '8'
    } else {
        '9'
    }
}

/// The decimal digits of `n`, most significant first, without leading zeros.
pub open spec fn decimal(n: nat) -> Seq<char>
    decreases n,
{
    if n < 10 {
        seq![digit_char(n)]
    } else {
        decimal(n / 10).push(digit_char(n % 10))
    }
}

/// Lines joined with a newline between each two.
pub open spec fn join_spec(lines: Seq<Seq<char>>) -> Seq<char>
    decreases lines.len(),
{
    if lines.len() == 0 {
        seq![]
    } else if lines.len() == 1 {
        lines[0]
    } else {
        join_spec(lines.drop_last()) + seq!['\n'] + lines.last()
    }
}

/// The last `max` elements of `s`, or all of it when it is no longer.
pub open spec fn tail_spec<A>(s: Seq<A>, max: nat) -> Seq<A> {
    if s.len() > max {
        s.subrange(s.len() - max, s.len() as int)
    } else {
        s
    }
}

/// The text of each string.
pub open spec fn texts(v: Seq<String>) -> Seq<Seq<char>> {
    v.map_values(|l: String| l@)
}

/// The lines of a text, as `str::lines` splits it.
pub uninterp spec fn lines_of(s: Seq<char>) -> Seq<Seq<char>>;

/// Relies on `str::lines`: splits at `\n` and `\r\n`, dropping the terminators.
#[verifier::external_body]
pub(crate) fn split_lines(s: &str) -> (r: Vec<String>)
    ensures
        texts(r@) == lines_of(s@),
{
    s.lines().map(|l| l.to_string()).collect()
}

/// Relies on `format!`: the two texts one after the other.
#[verifier::external_body]
pub(crate) fn concat(a: &str, b: &str) -> (r: String)
    ensures
        r@ == a@ + b@,
{
    format!("{a}{b}")
}

/// Relies on the `Display` impl of `u64`: its decimal digits.
#[verifier::external_body]
pub(crate) fn u64_text(n: u64) -> (r: String)
    ensures
        r@ == decimal(n as nat),
{
    n.to_string()
}

/// Whether `c` has the Unicode `White_Space` property.
pub uninterp spec fn white_space(c: char) -> bool;

/// Relies on `char::is_whitespace`: the Unicode `White_Space` property.
#[verifier::external_body]
fn is_white_space(c: char) -> (r: bool)
    ensures
        r == white_space(c),
{
    c.is_whitespace()
}

/// Relies on `str::chars`: the characters of the text, in order.
#[verifier::external_body]
pub(crate) fn chars_of(s: &str) -> (r: Vec<char>)
    ensures
        r@ == s@,
{
    s.chars().collect()
}

/// Relies on `String`'s `FromIterator<char>`: the text of these characters.
#[verifier::external_body]
pub(crate) fn string_of(v: &[char]) -> (r: String)
    ensures
        r@ == v@,
{
    v.iter().collect()
}

/// `p` occurs in `s`.
pub open spec fn has_infix(s: Seq<char>, p: Seq<char>) -> bool {
    exists|i: int| 0 <= i && i + p.len() <= s.len() && #[trigger] s.subrange(i, i + p.len()) == p
}

/// Some character of `s` is white space.
pub open spec fn has_white_space(s: Seq<char>) -> bool {
    exists|i: int| 0 <= i < s.len() && white_space(#[trigger] s[i])
}

/// `s` without its leading white space.
pub open spec fn trim_start_spec(s: Seq<char>) -> Seq<char>
    decreases s.len(),
{
    if s.len() > 0 && white_space(s[0]) {
        trim_start_spec(s.drop_first())
    } else {
        s
    }
}

/// `s` without its trailing white space.
pub open spec fn trim_end_spec(s: Seq<char>) -> Seq<char>
    decreases s.len(),
{
    if s.len() > 0 && white_space(s.last()) {
        trim_end_spec(s.drop_last())
    } else {
        s
    }
}

/// `s` without leading and trailing white space.
pub open spec fn trim_spec(s: Seq<char>) -> Seq<char> {
    trim_end_spec(trim_start_spec(s))
}

/// Whether `p` occurs in `s`.
pub fn contains_text(s: &Vec<char>, p: &str) -> (r: bool)
    ensures
        r == has_infix(s@, p@),
{
    let pv = chars_of(p);
    if pv.len() > s.len() {
        return false;
    }
    let last = s.len() - pv.len();
    let mut i: usize = 0;
    while i <= last
        invariant
            pv@ == p@,
            pv@.len() <= s@.len(),
            last == s@.len() - pv@.len(),
            s@.len() <= usize::MAX,
            i <= last + 1,
            forall|k: int| 0 <= k < i ==> #[trigger] s@.subrange(k, k + pv@.len()) != pv@,
        decreases s@.len() - i,
    {
        let mut j: usize = 0;
        let mut same = true;
        while j < pv.len()
            invariant
                pv@ == p@,
                s@.len() <= usize::MAX,
                i + pv@.len() <= s@.len(),
                j <= pv@.len(),
                same == (forall|m: int| 0 <= m < j ==> s@[i + m] == pv@[m]),
            decreases pv@.len() - j,
        {
            if s[i + j] != pv[j] {
                same = false;
            }
            j = j + 1;
        }
        if same {
            assert(s@.subrange(i as int, i + pv@.len()) =~= pv@);
            return true;
        }
        proof {
            let m = choose|m: int| 0 <= m < pv@.len() && s@[i + m] != pv@[m];
            assert(s@.subrange(i as int, i + pv@.len())[m] != pv@[m]);
        }
        i = i + 1;
    }
    proof {
        assert forall|k: int| 0 <= k && k + p@.len() <= s@.len() implies #[trigger] s@.subrange(k, k + p@.len()) != p@ by {
            assert(k < i);
        }
    }
    false
}

/// Whether any character of `s` is white space.
pub fn contains_white_space(s: &Vec<char>) -> (r: bool)
    ensures
        r == has_white_space(s@),
{
    let mut i: usize = 0;
    while i < s.len()
        invariant
            i <= s@.len(),
            forall|k: int| 0 <= k < i ==> !white_space(#[trigger] s@[k]),
        decreases s@.len() - i,
    {
        if is_white_space(s[i]) {
            return true;
        }
        i = i + 1;
    }
    false
}

proof fn lemma_trim_start_skip(s: Seq<char>, i: int)
    requires
        0 <= i <= s.len(),
        forall|k: int| 0 <= k < i ==> white_space(#[trigger] s[k]),
    ensures
        trim_start_spec(s) == trim_start_spec(s.subrange(i, s.len() as int)),
    decreases i,
{
    if i > 0 {
        assert(s.drop_first().subrange(i - 1, s.len() - 1) =~= s.subrange(i, s.len() as int));
        lemma_trim_start_skip(s.drop_first(), i - 1);
    } else {
        assert(s.subrange(0, s.len() as int) =~= s);
    }
}

proof fn lemma_trim_end_skip(s: Seq<char>, e: int)
    requires
        0 <= e <= s.len(),
        forall|k: int| e <= k < s.len() ==> white_space(#[trigger] s[k]),
    ensures
        trim_end_spec(s) == trim_end_spec(s.subrange(0, e)),
    decreases s.len() - e,
{
    if e < s.len() {
        assert(s.drop_last().subrange(0, e) =~= s.subrange(0, e));
        lemma_trim_end_skip(s.drop_last(), e);
    } else {
        assert(s.subrange(0, e) =~= s);
    }
}

/// The characters of `s` without leading and trailing white space.
pub fn trim_chars(s: &Vec<char>) -> (r: Vec<char>)
    ensures
        r@ == trim_spec(s@),
{
    let mut a: usize = 0;
    while a < s.len() && is_white_space(s[a])
        invariant
            a <= s@.len(),
            forall|k: int| 0 <= k < a ==> white_space(#[trigger] s@[k]),
        decreases s@.len() - a,
    {
        a = a + 1;
    }
    proof {
        lemma_trim_start_skip(s@, a as int);
    }
    let ghost mid = s@.subrange(a as int, s@.len() as int);
    let mut b: usize = s.len();
    while b > a && is_white_space(s[b - 1])
        invariant
            a <= b <= s@.len(),
            mid == s@.subrange(a as int, s@.len() as int),
            forall|k: int| b <= k < s@.len() ==> white_space(#[trigger] s@[k]),
        decreases b,
    {
        b = b - 1;
    }
    proof {
        assert(trim_start_spec(mid) == mid);
        assert forall|k: int| (b - a) <= k < mid.len() implies white_space(#[trigger] mid[k]) by {
            assert(mid[k] == s@[k + a]);
        }
        lemma_trim_end_skip(mid, b - a);
        assert(mid.subrange(0, b - a) =~= s@.subrange(a as int, b as int));
        let t = s@.subrange(a as int, b as int);
        if t.len() > 0 {
            assert(!white_space(t.last()));
        }
    }
    let mut out: Vec<char> = Vec::new();
    let mut i: usize = a;
    while i < b
        invariant
            a <= i <= b,
            b <= s@.len(),
            out@ == s@.subrange(a as int, i as int),
        decreases b - i,
    {
        out.push(s[i]);
        assert(out@ =~= s@.subrange(a as int, i + 1));
        i = i + 1;
    }
    out
}

/// Whether two texts are equal.
pub fn same_text(a: &str, b: &str) -> (r: bool)
    ensures
        r == (a@ == b@),
{
    let av = chars_of(a);
    let bv = chars_of(b);
    if av.len() != bv.len() {
        return false;
    }
    let mut i: usize = 0;
    while i < av.len()
        invariant
            av@ == a@,
            bv@ == b@,
            av@.len() == bv@.len(),
            i <= av@.len(),
            forall|k: int| 0 <= k < i ==> av@[k] == bv@[k],
        decreases av@.len() - i,
    {
        if av[i] != bv[i] {
            return false;
        }
        i = i + 1;
    }
    assert(av@ =~= bv@);
    true
}

/// The display width of a text in terminal columns.
pub uninterp spec fn str_width(s: Seq<char>) -> nat;

/// The display width of a character, `None` for a control character.
pub uninterp spec fn char_width(c: char) -> Option<usize>;

/// Relies on `unicode_width::UnicodeWidthStr::width`: the text's width in columns.
#[verifier::external_body]
pub(crate) fn text_width(s: &str) -> (r: usize)
    ensures
        r == str_width(s@),
{
    unicode_width::UnicodeWidthStr::width(s)
}

/// Relies on `unicode_width::UnicodeWidthChar::width`: the character's width in columns.
#[verifier::external_body]
fn glyph_width(c: char) -> (r: Option<usize>)
    ensures
        r == char_width(c),
{
    unicode_width::UnicodeWidthChar::width(c)
}

/// The width that truncation counts for a character (control characters count 0).
pub open spec fn counted_width(c: char) -> nat {
    match char_width(c) {
        Some(w) => w as nat,
        None => 0,
    }
}

/// Where truncation cuts, scanning from `i` with `width` columns used: the
/// first character that would leave no room for the ellipsis.
pub open spec fn cut_index(s: Seq<char>, i: int, width: nat, max: nat) -> int
    decreases s.len() - i,
{
    if i >= s.len() || i < 0 {
        s.len() as int
    } else if width + counted_width(s[i]) + 1 > max {
        i
    } else {
        cut_index(s, i + 1, width + counted_width(s[i]), max)
    }
}

/// `s` fitted into `max` columns: unchanged if it fits, else cut with an
/// ellipsis; empty when `max` is 0.
pub open spec fn truncate_spec(s: Seq<char>, max: nat) -> Seq<char> {
    if max == 0 {
        seq![]
    } else if str_width(s) <= max {
        s
    } else {
        let k = cut_index(s, 0, 0, max);
        if k < s.len() {
            s.subrange(0, k) + seq!['\u{2026}']
        } else {
            s
        }
    }
}

/// Fits a text into `max_width` terminal columns, ending a cut text with an
/// ellipsis.
pub fn truncate(s: &str, max_width: usize) -> (r: String)
    ensures
        r@ == truncate_spec(s@, max_width as nat),
{
    if max_width == 0 {
        return String::new();
    }
    if text_width(s) <= max_width {
        return s.to_owned();
    }
    let cs = chars_of(s);
    let mut out: Vec<char> = Vec::new();
    let mut width: usize = 0;
    let mut i: usize = 0;
    while i < cs.len()
        invariant
            cs@ == s@,
            str_width(s@) > max_width,
            max_width > 0,
            i <= cs@.len(),
            width < max_width,
            out@ == cs@.subrange(0, i as int),
            cut_index(cs@, 0, 0, max_width as nat) == cut_index(cs@, i as int, width as nat, max_width as nat),
        decreases cs@.len() - i,
    {
        let cw: usize = match glyph_width(cs[i]) {
            Some(w) => w,
            None => 0,
        };
        if cw >= max_width - width {
            assert(cut_index(cs@, i as int, width as nat, max_width as nat) == i);
            out.push('\u{2026}');
            assert(out@ =~= cs@.subrange(0, i as int) + seq!['\u{2026}']);
            return string_of(out.as_slice());
        }
        out.push(cs[i]);
        assert(out@ =~= cs@.subrange(0, i + 1));
        width = width + cw;
        i = i + 1;
    }
    assert(out@ =~= cs@);
    string_of(out.as_slice())
}

/// The log text shown for a failure: the kept tail, or a placeholder when
/// nothing but white space is left.
pub fn failed_log_text(raw: &str, max_lines: usize) -> (r: String)
    ensures
        ({
            let kept = if lines_of(raw@).len() > max_lines {
                join_spec(tail_spec(lines_of(raw@), max_lines as nat))
            } else {
                raw@
            };
            r@ == if trim_spec(kept).len() == 0 {
                "(no failed step logs available)"@
            } else {
                kept
            }
        }),
{
    let (content, _) = process_log_output(raw, max_lines);
    let cs = chars_of(content.as_str());
    if trim_chars(&cs).len() == 0 {
        "(no failed step logs available)".to_owned()
    } else {
        content
    }
}

/// The lines joined with `\n`.
pub fn join_lines(lines: &Vec<String>) -> (r: String)
    ensures
        r@ == join_spec(texts(lines@)),
{
    let mut out = String::new();
    let mut i: usize = 0;
    while i < lines.len()
        invariant
            i <= lines@.len(),
            out@ == join_spec(texts(lines@.subrange(0, i as int))),
        decreases lines@.len() - i,
    {
        proof {
            reveal_strlit("\n");
            assert(texts(lines@.subrange(0, i + 1)).drop_last() =~= texts(lines@.subrange(0, i as int)));
            assert(texts(lines@.subrange(0, i + 1)).last() == lines@[i as int]@);
        }
        if i == 0 {
            out = lines[i].clone();
        } else {
            let with_sep = concat(out.as_str(), "\n");
            out = concat(with_sep.as_str(), lines[i].as_str());
        }
        i = i + 1;
    }
    assert(lines@.subrange(0, lines@.len() as int) =~= lines@);
    out
}

/// The last `max` lines, or all of them when there are no more.
pub fn tail_lines(lines: Vec<String>, max: usize) -> (r: Vec<String>)
    ensures
        r@ == tail_spec(lines@, max as nat),
{
    if lines.len() > max {
        let start = lines.len() - max;
        let mut out: Vec<String> = Vec::new();
        let mut i: usize = start;
        while i < lines.len()
            invariant
                start <= i <= lines@.len(),
                start == lines@.len() - max,
                out@ == lines@.subrange(start as int, i as int),
            decreases lines@.len() - i,
        {
            out.push(lines[i].clone());
            assert(out@ =~= lines@.subrange(start as int, i + 1));
            i = i + 1;
        }
        out
    } else {
        lines
    }
}

/// The text of `raw` with at most `max_lines` lines, keeping the tail, and
/// whether lines were dropped. A text that fits is returned unchanged.
pub fn process_log_output(raw: &str, max_lines: usize) -> (r: (String, bool))
    ensures
        r.1 == (lines_of(raw@).len() > max_lines),
        r.1 ==> r.0@ == join_spec(tail_spec(lines_of(raw@), max_lines as nat)),
        !r.1 ==> r.0@ == raw@,
{
    let lines = split_lines(raw);
    if lines.len() > max_lines {
        let kept = tail_lines(lines, max_lines);
        proof {
            assert(texts(kept@) =~= tail_spec(lines_of(raw@), max_lines as nat));
        }
        (join_lines(&kept), true)
    } else {
        (raw.to_owned(), false)
    }
}

/// How `format_duration` renders a number of seconds.
pub open spec fn duration_text(secs: int) -> Seq<char> {
    let s = if secs < 0 {
        0
    } else {
        secs
    };
    if s < 60 {
        decimal(s as nat) + seq!['s']
    } else if s < 3600 {
        decimal((s / 60) as nat) + seq!['m', ' '] + decimal((s % 60) as nat) + seq!['s']
    } else {
        decimal((s / 3600) as nat) + seq!['h', ' '] + decimal(((s % 3600) / 60) as nat) + seq!['m']
    }
}

/// A duration in seconds as `"45s"`, `"2m 5s"` or `"1h 1m"`; negative
/// durations count as zero.
pub fn format_duration(secs: i64) -> (r: String)
    ensures
        r@ == duration_text(secs as int),
{
    proof {
        reveal_strlit("s");
        reveal_strlit("m ");
        reveal_strlit("h ");
        reveal_strlit("m");
    }
    let s: u64 = if secs < 0 {
        0
    } else {
        secs as u64
    };
    if s < 60 {
        let n = u64_text(s);
        concat(n.as_str(), "s")
    } else if s < 3600 {
        let m = u64_text(s / 60);
        let m2 = concat(m.as_str(), "m ");
        let sec = u64_text(s % 60);
        let m3 = concat(m2.as_str(), sec.as_str());
        concat(m3.as_str(), "s")
    } else {
        let h = u64_text(s / 3600);
        let h2 = concat(h.as_str(), "h ");
        let m = u64_text((s % 3600) / 60);
        let h3 = concat(h2.as_str(), m.as_str());
        concat(h3.as_str(), "m")
    }
}

/// The spinner's frames, in order.
pub open spec fn braille_frame(i: int) -> char {
    if i == 0 {
        '⠋'
    } else if i == 1 {
        '⠙'
    } else if i == 2 {
        '⠹'
    } else if i == 3 {
        '⠸'
    } else if i == 4 {
        '⠼'
    } else if i == 5 {
        '⠴'
    } else if i == 6 {
        '⠦'
    } else if i == 7 {
        '⠧'
    } else if i == 8 {
        '⠇'
    } else {
        '⠏'
    }
}

/// The spinner frame for a tick count; the frames repeat every ten ticks.
pub fn frame(idx: usize) -> (r: char)
    ensures
        r == braille_frame(idx as int % 10),
{
    let i = idx % 10;
    if i == 0 {
        '⠋'
    } else if i == 1 {
        '⠙'
    } else if i == 2 {
        '⠹'
    } else if i == 3 {
        '⠸'
    } else if i == 4 {
        '⠼'
    } else if i == 5 {
        '⠴'
    } else if i == 6 {
        '⠦'
    } else if i == 7 {
        '⠧'
    } else if i == 8 {
        '⠇'
    } else {
        '⠏'
    }
}

/// Law: a text of more than `max` lines keeps exactly its last `max` lines,
/// in order: kept line `i` is line `len - max + i` of the whole text.
pub proof fn lemma_tail_keeps_last(s: Seq<Seq<char>>, max: nat, i: int)
    requires
        s.len() > max,
        0 <= i < max,
    ensures
        tail_spec(s, max).len() == max,
        tail_spec(s, max)[i] == s[s.len() - max + i],
{
}

/// Law: a text within the limit is kept whole.
pub proof fn lemma_tail_keeps_short(s: Seq<Seq<char>>, max: nat)
    requires
        s.len() <= max,
    ensures
        tail_spec(s, max) == s,
{
}

} // verus!
