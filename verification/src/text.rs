//! Text as sequences of characters: splitting, trimming, case and numbers.

use vstd::prelude::*;
use vstd::string::*;

verus! {

/// What the strings of a list say.
pub open spec fn texts(list: Seq<String>) -> Seq<Seq<char>> {
    list.map_values(|s: String| s@)
}

/// What an optional string says.
pub open spec fn text_of(s: Option<String>) -> Option<Seq<char>> {
    match s {
        Some(s) => Some(s@),
        None => None,
    }
}

/// What an optional string slice says.
pub open spec fn str_of(s: Option<&str>) -> Option<Seq<char>> {
    match s {
        Some(s) => Some(s@),
        None => None,
    }
}

/// The lower-case form of a text, as Unicode defines it. This is what
/// `str::to_lowercase` returns.
pub uninterp spec fn lowercase(s: Seq<char>) -> Seq<char>;

/// The upper-case form of a text, as Unicode defines it. This is what
/// `str::to_uppercase` returns.
pub uninterp spec fn uppercase(s: Seq<char>) -> Seq<char>;

/// Calls `str::to_lowercase`: the result depends on the text alone.
#[verifier::external_body]
pub(crate) fn to_lowercase(s: &str) -> (out: String)
    ensures
        out@ == lowercase(s@),
{
    s.to_lowercase()
}

/// Calls `str::to_uppercase`: the result depends on the text alone.
#[verifier::external_body]
pub(crate) fn to_uppercase(s: &str) -> (out: String)
    ensures
        out@ == uppercase(s@),
{
    s.to_uppercase()
}

/// How a list of texts is shown, quoted and escaped. This is what the `Debug`
/// of a list of strings writes.
pub uninterp spec fn quoted(list: Seq<Seq<char>>) -> Seq<char>;

/// Calls `format` with the `Debug` of a list of strings: the result depends on
/// the texts alone.
#[verifier::external_body]
pub(crate) fn quote_list(list: &Vec<String>) -> (out: String)
    ensures
        out@ == quoted(texts(list@)),
{
    format!("{:?}", list)
}

/// Calls `String::from_iter` on characters: the string holds them in order.
#[verifier::external_body]
pub(crate) fn string_of(chars: Vec<char>) -> (out: String)
    ensures
        out@ == chars@,
{
    String::from_iter(chars)
}

/// The characters of `s`, in order.
pub fn chars_of(s: &str) -> (out: Vec<char>)
    ensures
        out@ == s@,
{
    let mut out: Vec<char> = Vec::new();
    for c in it: s.chars()
        invariant
            it.seq() == s@,
            out@ == s@.take(it.index()),
    {
        out.push(c);
        assert(out@ =~= s@.take(it.index() + 1));
    }
    assert(s@.take(s@.len() as int) =~= s@);
    out
}

/// The characters `chars[from..to]` as a string.
pub fn slice_text(chars: &Vec<char>, from: usize, to: usize) -> (out: String)
    requires
        from <= to <= chars@.len(),
    ensures
        out@ == chars@.subrange(from as int, to as int),
{
    let mut part: Vec<char> = Vec::new();
    let mut i: usize = from;
    while i < to
        invariant
            from <= i <= to <= chars@.len(),
            part@ == chars@.subrange(from as int, i as int),
        decreases to - i,
    {
        part.push(chars[i]);
        i += 1;
        assert(part@ =~= chars@.subrange(from as int, i as int));
    }
    string_of(part)
}

/// Whether `s` starts with `prefix`.
pub fn starts_with(s: &str, prefix: &str) -> (found: bool)
    ensures
        found == prefix@.is_prefix_of(s@),
{
    let chars = chars_of(s);
    let start = chars_of(prefix);
    if start.len() > chars.len() {
        return false;
    }
    let mut i: usize = 0;
    while i < start.len()
        invariant
            chars@ == s@,
            start@ == prefix@,
            i <= prefix@.len() <= s@.len(),
            forall|j: int| 0 <= j < i ==> s@[j] == prefix@[j],
        decreases start@.len() - i,
    {
        if chars[i] != start[i] {
            assert(s@.subrange(0, prefix@.len() as int)[i as int] != prefix@[i as int]);
            return false;
        }
        i += 1;
    }
    assert(prefix@ =~= s@.subrange(0, prefix@.len() as int));
    true
}

/// Whether two string slices say the same.
pub fn same_text(a: &str, b: &str) -> (same: bool)
    ensures
        same == (a@ == b@),
{
    a.to_owned() == b.to_owned()
}

/// The characters of Unicode's White_Space property.
pub open spec fn white_space(c: char) -> bool {
    ||| '\u{9}' <= c <= '\u{d}'
    ||| c == '\u{20}'
    ||| c == '\u{85}'
    ||| c == '\u{a0}'
    ||| c == '\u{1680}'
    ||| '\u{2000}' <= c <= '\u{200a}'
    ||| c == '\u{2028}'
    ||| c == '\u{2029}'
    ||| c == '\u{202f}'
    ||| c == '\u{205f}'
    ||| c == '\u{3000}'
}

/// Whether `c` is white space.
pub fn is_white_space(c: char) -> (is: bool)
    ensures
        is == white_space(c),
{
    ('\u{9}' <= c && c <= '\u{d}') || c == '\u{20}' || c == '\u{85}' || c == '\u{a0}' || c
        == '\u{1680}' || ('\u{2000}' <= c && c <= '\u{200a}') || c == '\u{2028}' || c == '\u{2029}'
        || c == '\u{202f}' || c == '\u{205f}' || c == '\u{3000}'
}

/// `s` without its leading white space.
pub open spec fn trim_start(s: Seq<char>) -> Seq<char>
    decreases s.len(),
{
    if s.len() > 0 && white_space(s[0]) {
        trim_start(s.skip(1))
    } else {
        s
    }
}

/// `s` without its trailing white space.
pub open spec fn trim_end(s: Seq<char>) -> Seq<char>
    decreases s.len(),
{
    if s.len() > 0 && white_space(s.last()) {
        trim_end(s.drop_last())
    } else {
        s
    }
}

/// `s` without the white space at its two ends.
pub open spec fn trimmed(s: Seq<char>) -> Seq<char> {
    trim_end(trim_start(s))
}

/// `s` without the white space at its two ends.
pub fn trim(s: &str) -> (out: String)
    ensures
        out@ == trimmed(s@),
{
    let chars = chars_of(s);
    let mut from: usize = 0;
    assert(chars@.skip(0) =~= chars@);
    while from < chars.len() && is_white_space(chars[from])
        invariant
            from <= chars@.len(),
            trim_start(chars@) == trim_start(chars@.skip(from as int)),
        decreases chars@.len() - from,
    {
        assert(chars@.skip(from as int).skip(1) =~= chars@.skip(from + 1));
        from += 1;
    }
    let ghost rest = chars@.skip(from as int);
    let mut to: usize = chars.len();
    assert(chars@.subrange(from as int, to as int) =~= rest);
    while from < to && is_white_space(chars[to - 1])
        invariant
            from <= to <= chars@.len(),
            trim_end(rest) == trim_end(chars@.subrange(from as int, to as int)),
        decreases to - from,
    {
        assert(chars@.subrange(from as int, to as int).drop_last() =~= chars@.subrange(
            from as int,
            to - 1,
        ));
        to -= 1;
    }
    slice_text(&chars, from, to)
}

/// The number of characters in front of the first line feed.
pub open spec fn line_length(s: Seq<char>) -> nat
    decreases s.len(),
{
    if s.len() == 0 || s[0] == '\n' {
        0
    } else {
        1 + line_length(s.skip(1))
    }
}

/// A line feed ends a line together with a carriage return in front of it.
pub open spec fn without_return(line: Seq<char>) -> Seq<char> {
    if line.len() > 0 && line.last() == '\r' {
        line.drop_last()
    } else {
        line
    }
}

/// The lines of a text without their endings. The last ending is optional.
pub open spec fn lines(s: Seq<char>) -> Seq<Seq<char>>
    decreases s.len(),
{
    let end = line_length(s) as int;
    if s.len() == 0 {
        seq![]
    } else if end < s.len() {
        seq![without_return(s.take(end))] + lines(s.skip(end + 1))
    } else {
        seq![s]
    }
}

/// The first line ends within the text, and at a line feed if not at the end.
pub proof fn lemma_line_length(s: Seq<char>, end: int)
    requires
        0 <= end <= s.len(),
        forall|i: int| 0 <= i < end ==> s[i] != '\n',
        end < s.len() ==> s[end] == '\n',
    ensures
        line_length(s) == end,
    decreases s.len(),
{
    if end > 0 {
        assert(s[0] != '\n');
        lemma_line_length(s.skip(1), end - 1);
    }
}

/// The first line ends at the first line feed, or else at the end.
proof fn lemma_line_end(s: Seq<char>)
    ensures
        line_length(s) <= s.len(),
        forall|i: int| 0 <= i < line_length(s) ==> s[i] != '\n',
        line_length(s) < s.len() ==> s[line_length(s) as int] == '\n',
    decreases s.len(),
{
    if s.len() > 0 && s[0] != '\n' {
        let rest = s.skip(1);
        lemma_line_end(rest);
        assert forall|i: int| 0 <= i < line_length(s) implies s[i] != '\n' by {
            if i > 0 {
                assert(rest[i - 1] == s[i]);
            }
        }
    }
}

/// The lines of a text behind ended lines are lines of their own.
pub proof fn lemma_lines_concat(ended: Seq<char>, rest: Seq<char>)
    requires
        ended.len() == 0 || ended.last() == '\n',
    ensures
        lines(ended + rest) == lines(ended) + lines(rest),
    decreases ended.len(),
{
    if ended.len() == 0 {
        assert(ended + rest =~= rest);
        assert(lines(ended) + lines(rest) =~= lines(rest));
    } else {
        let all = ended + rest;
        let end = line_length(ended) as int;
        lemma_line_end(ended);
        assert(end < ended.len()) by {
            if end == ended.len() {
                assert(ended[end - 1] == ended.last());
            }
        }
        lemma_line_length(all, end);
        let left = ended.skip(end + 1);
        assert(all.take(end) =~= ended.take(end));
        assert(all.skip(end + 1) =~= left + rest);
        if left.len() > 0 {
            assert(left.last() == ended.last());
        }
        lemma_lines_concat(left, rest);
        let first = seq![without_return(ended.take(end))];
        assert(first + (lines(left) + lines(rest)) =~= first + lines(left) + lines(rest));
    }
}

/// A line that is appended behind ended lines stands on its own.
pub proof fn lemma_appended_line(ended: Seq<char>, line: Seq<char>)
    requires
        ended.len() == 0 || ended.last() == '\n',
        !line.contains('\n'),
    ensures
        lines(ended + line.push('\n')) == lines(ended).push(without_return(line)),
{
    let tail = line.push('\n');
    let end = line.len() as int;
    assert forall|i: int| 0 <= i < end implies tail[i] != '\n' by {
        assert(line.contains(line[i]));
    }
    lemma_line_length(tail, end);
    assert(tail.take(end) =~= line);
    assert(tail.skip(end + 1) =~= seq![]);
    assert(lines(tail.skip(end + 1)) =~= seq![]);
    assert(lines(tail) =~= seq![without_return(line)]);
    lemma_lines_concat(ended, tail);
}

/// To end the last line of a text changes nothing but that a carriage return at
/// its end becomes a part of the ending.
pub proof fn lemma_ended_last_line(s: Seq<char>)
    requires
        s.len() > 0,
        s.last() != '\n',
    ensures
        lines(s).len() > 0,
        lines(s.push('\n')) == lines(s).drop_last().push(without_return(lines(s).last())),
    decreases s.len(),
{
    let all = s.push('\n');
    let end = line_length(s) as int;
    lemma_line_end(s);
    assert forall|i: int| 0 <= i < end implies all[i] != '\n' by {
        assert(s[i] != '\n');
    }
    lemma_line_length(all, end);
    assert(all.take(end) =~= s.take(end));
    if end < s.len() {
        let rest = s.skip(end + 1);
        assert(rest.last() == s.last());
        assert(all.skip(end + 1) =~= rest.push('\n'));
        lemma_ended_last_line(rest);
        let first = seq![without_return(s.take(end))];
        assert(lines(s) == first + lines(rest));
        assert(lines(all) =~= lines(s).drop_last().push(without_return(lines(s).last())));
    } else {
        assert(s.take(end) =~= s);
        assert(all.skip(end + 1) =~= seq![]);
        assert(lines(all.skip(end + 1)) =~= seq![]);
        assert(lines(all) =~= seq![without_return(s)]);
        assert(lines(s) =~= seq![s]);
    }
}

/// The lines of a text.
pub fn lines_of(s: &str) -> (out: Vec<String>)
    ensures
        texts(out@) == lines(s@),
{
    let chars = chars_of(s);
    let mut out: Vec<String> = Vec::new();
    let mut from: usize = 0;
    assert(chars@.skip(0) =~= chars@);
    assert(texts(out@) =~= seq![]);
    while from < chars.len()
        invariant
            from <= chars.len(),
            lines(chars@) == texts(out@) + lines(chars@.skip(from as int)),
        decreases chars@.len() - from,
    {
        let ghost rest = chars@.skip(from as int);
        let ghost before = texts(out@);
        let mut end: usize = from;
        while end < chars.len() && chars[end] != '\n'
            invariant
                from <= end <= chars@.len(),
                forall|i: int| from <= i < end ==> chars@[i] != '\n',
            decreases chars@.len() - end,
        {
            end += 1;
        }
        proof {
            lemma_line_length(rest, end - from);
        }
        if end == chars.len() {
            let line = slice_text(&chars, from, end);
            assert(line@ =~= rest);
            out.push(line);
            assert(texts(out@) =~= before + seq![rest]);
            assert(lines(chars@.skip(end as int)) =~= seq![]);
            from = end;
        } else {
            let mut cut: usize = end;
            if from < end && chars[end - 1] == '\r' {
                cut = end - 1;
            }
            let line = slice_text(&chars, from, cut);
            assert(line@ =~= without_return(rest.take(end - from)));
            out.push(line);
            assert(rest.skip(end - from + 1) =~= chars@.skip(end + 1));
            assert(texts(out@) + lines(chars@.skip(end + 1)) =~= before + (seq![
                without_return(rest.take(end - from)),
            ] + lines(chars@.skip(end + 1))));
            from = end + 1;
        }
    }
    assert(lines(chars@.skip(from as int)) =~= seq![]);
    assert(texts(out@) + lines(chars@.skip(from as int)) =~= texts(out@));
    out
}

/// The part of `s` behind its last slash; the whole of it if it has none.
pub open spec fn last_segment(s: Seq<char>) -> Seq<char>
    decreases s.len(),
{
    if s.len() == 0 || s.last() == '/' {
        seq![]
    } else {
        last_segment(s.drop_last()).push(s.last())
    }
}

/// `s` without the slashes at its end.
pub open spec fn without_slashes(s: Seq<char>) -> Seq<char>
    decreases s.len(),
{
    if s.len() > 0 && s.last() == '/' {
        without_slashes(s.drop_last())
    } else {
        s
    }
}

/// `s` without any `suffix` at its end, however often it stands there.
pub open spec fn trim_end_matches(s: Seq<char>, suffix: Seq<char>) -> Seq<char>
    decreases s.len(),
{
    if suffix.len() > 0 && suffix.is_suffix_of(s) {
        trim_end_matches(s.take(s.len() - suffix.len()), suffix)
    } else {
        s
    }
}

/// Slashes at the end go, and nothing else.
pub proof fn lemma_without_slashes(s: Seq<char>, slashes: Seq<char>)
    requires
        s.len() > 0,
        s.last() != '/',
        forall|i: int| 0 <= i < slashes.len() ==> #[trigger] slashes[i] == '/',
    ensures
        without_slashes(s + slashes) == s,
    decreases slashes.len(),
{
    if slashes.len() == 0 {
        assert(s + slashes =~= s);
    } else {
        assert((s + slashes).drop_last() =~= s + slashes.drop_last());
        assert((s + slashes).last() == slashes[slashes.len() - 1]);
        lemma_without_slashes(s, slashes.drop_last());
    }
}

/// The last segment is what follows the last slash.
pub proof fn lemma_last_segment(s: Seq<char>, from: int)
    requires
        0 <= from <= s.len(),
        forall|i: int| from <= i < s.len() ==> s[i] != '/',
        from > 0 ==> s[from - 1] == '/',
    ensures
        last_segment(s) == s.skip(from),
    decreases s.len(),
{
    if from == s.len() {
        assert(s.skip(from) =~= seq![]);
    } else {
        lemma_last_segment(s.drop_last(), from);
        assert(s.drop_last().skip(from).push(s.last()) =~= s.skip(from));
    }
}

/// The last part of a text between slashes, without `suffix` at its end.
/// Slashes at the end of the text do not count.
pub fn last_segment_without(s: &str, suffix: &str) -> (out: String)
    requires
        suffix@.len() > 0,
    ensures
        out@ == trim_end_matches(last_segment(without_slashes(s@)), suffix@),
{
    let mut chars = chars_of(s);
    while chars.len() > 0 && chars[chars.len() - 1] == '/'
        invariant
            without_slashes(s@) == without_slashes(chars@),
        decreases chars@.len(),
    {
        chars.pop();
    }
    assert(chars@ == without_slashes(s@));
    let ending = chars_of(suffix);
    let mut from: usize = chars.len();
    while from > 0 && chars[from - 1] != '/'
        invariant
            from <= chars@.len(),
            forall|i: int| from <= i < chars@.len() ==> chars@[i] != '/',
        decreases from,
    {
        from -= 1;
    }
    let ghost segment = chars@.skip(from as int);
    proof {
        lemma_last_segment(chars@, from as int);
    }
    let mut to: usize = chars.len();
    assert(chars@.subrange(from as int, to as int) =~= segment);
    loop
        invariant
            from <= to <= chars@.len(),
            ending@ == suffix@,
            suffix@.len() > 0,
            segment == last_segment(without_slashes(s@)),
            trim_end_matches(segment, suffix@) == trim_end_matches(
                chars@.subrange(from as int, to as int),
                suffix@,
            ),
        decreases to,
    {
        let ghost part = chars@.subrange(from as int, to as int);
        if to - from < ending.len() {
            return slice_text(&chars, from, to);
        }
        let cut: usize = to - ending.len();
        let mut i: usize = 0;
        while i < ending.len()
            invariant
                i <= suffix@.len(),
                ending@ == suffix@,
                segment == last_segment(without_slashes(s@)),
                cut + suffix@.len() == to <= chars.len(),
                from <= cut,
                part == chars@.subrange(from as int, to as int),
                suffix@.len() > 0,
                trim_end_matches(segment, suffix@) == trim_end_matches(part, suffix@),
                forall|j: int| 0 <= j < i ==> chars@[cut + j] == suffix@[j],
            decreases suffix@.len() - i,
        {
            if chars[cut + i] != ending[i] {
                assert(part.subrange(
                    part.len() - suffix@.len(),
                    part.len() as int,
                )[i as int] != suffix@[i as int]);
                return slice_text(&chars, from, to);
            }
            i += 1;
        }
        assert(suffix@ =~= part.subrange(part.len() - suffix@.len(), part.len() as int));
        assert(part.take(part.len() - suffix@.len()) =~= chars@.subrange(from as int, cut as int));
        to = cut;
    }
}

/// The texts of a list with `separator` between any two.
pub open spec fn joined(list: Seq<Seq<char>>, separator: Seq<char>) -> Seq<char>
    decreases list.len(),
{
    if list.len() == 0 {
        seq![]
    } else if list.len() == 1 {
        list[0]
    } else {
        joined(list.drop_last(), separator) + separator + list.last()
    }
}

/// The strings of a list with `separator` between any two.
pub fn join(list: &Vec<String>, separator: &str) -> (out: String)
    ensures
        out@ == joined(texts(list@), separator@),
{
    let mut out = String::new();
    let mut i: usize = 0;
    let ghost all = texts(list@);
    assert(out@ =~= joined(all.take(0), separator@));
    while i < list.len()
        invariant
            i <= list@.len(),
            all == texts(list@),
            out@ == joined(all.take(i as int), separator@),
        decreases list@.len() - i,
    {
        assert(all.take(i + 1).drop_last() =~= all.take(i as int));
        if i > 0 {
            out.append(separator);
        }
        out.append(list[i].as_str());
        i += 1;
        assert(out@ =~= joined(all.take(i as int), separator@));
    }
    assert(all.take(i as int) =~= all);
    out
}

/// The character of a decimal digit.
pub open spec fn digit(n: int) -> char {
    (48 + n) as char
}

/// A number in decimal notation.
pub open spec fn decimal(n: nat) -> Seq<char>
    decreases n,
{
    if n < 10 {
        seq![digit(n as int)]
    } else {
        decimal(n / 10).push(digit((n % 10) as int))
    }
}

/// A number in decimal notation.
pub fn decimal_of(n: u64) -> (out: Vec<char>)
    ensures
        out@ == decimal(n as nat),
    decreases n,
{
    let mut out: Vec<char> = Vec::new();
    if n >= 10 {
        out = decimal_of(n / 10);
    }
    let last: u8 = (n % 10) as u8;
    out.push((48 + last) as char);
    assert(out@ =~= decimal(n as nat));
    out
}

/// What strings say is what they hold, one by one, and nothing where there is
/// none.
pub proof fn lemma_texts_are_views(s: String, t: &str, list: Seq<String>, i: int)
    requires
        0 <= i < list.len(),
    ensures
        text_of(Some(s)) == Some(s@),
        text_of(None) == None::<Seq<char>>,
        str_of(Some(t)) == Some(t@),
        str_of(None) == None::<Seq<char>>,
        texts(list).len() == list.len(),
        texts(list)[i] == list[i]@,
{
}

/// Trimming at the start takes white space, and stops at anything else.
proof fn lemma_trim_start_parts(s: Seq<char>) -> (from: int)
    ensures
        0 <= from <= s.len(),
        trim_start(s) == s.skip(from),
        forall|i: int| 0 <= i < from ==> white_space(#[trigger] s[i]),
        from < s.len() ==> !white_space(s[from]),
    decreases s.len(),
{
    if s.len() > 0 && white_space(s[0]) {
        let rest = s.skip(1);
        let at = lemma_trim_start_parts(rest);
        assert(rest.skip(at) =~= s.skip(at + 1));
        assert forall|i: int| 0 <= i < at + 1 implies white_space(#[trigger] s[i]) by {
            if i > 0 {
                assert(rest[i - 1] == s[i]);
            }
        }
        if at < rest.len() {
            assert(rest[at] == s[at + 1]);
        }
        at + 1
    } else {
        assert(s.skip(0) =~= s);
        0
    }
}

/// Trimming at the end takes white space, and stops at anything else.
proof fn lemma_trim_end_parts(s: Seq<char>) -> (to: int)
    ensures
        0 <= to <= s.len(),
        trim_end(s) == s.take(to),
        forall|i: int| to <= i < s.len() ==> white_space(#[trigger] s[i]),
        to > 0 ==> !white_space(s[to - 1]),
    decreases s.len(),
{
    if s.len() > 0 && white_space(s.last()) {
        let rest = s.drop_last();
        let at = lemma_trim_end_parts(rest);
        assert(rest.take(at) =~= s.take(at));
        assert forall|i: int| at <= i < s.len() implies white_space(#[trigger] s[i]) by {
            if i < rest.len() {
                assert(rest[i] == s[i]);
            }
        }
        if at > 0 {
            assert(rest[at - 1] == s[at - 1]);
        }
        at
    } else {
        assert(s.take(s.len() as int) =~= s);
        s.len() as int
    }
}

/// Trimming takes white space from the two ends, all of it, and leaves what
/// stands between as it is.
pub proof fn lemma_trim_takes_white_space(s: &str, out: String)
    requires
        call_ensures(trim, (s,), out),
    ensures
        exists|from: int, to: int|
            #![trigger s@.subrange(from, to)]
            {
                &&& 0 <= from <= to <= s@.len()
                &&& out@ == s@.subrange(from, to)
                &&& forall|i: int| 0 <= i < from ==> white_space(#[trigger] s@[i])
                &&& forall|i: int| to <= i < s@.len() ==> white_space(#[trigger] s@[i])
            },
        out@.len() > 0 ==> !white_space(out@[0]) && !white_space(out@.last()),
{
    let from = lemma_trim_start_parts(s@);
    let rest = s@.skip(from);
    let at = lemma_trim_end_parts(rest);
    let to = from + at;
    assert(rest.take(at) =~= s@.subrange(from, to));
    assert forall|i: int| to <= i < s@.len() implies white_space(#[trigger] s@[i]) by {
        assert(rest[i - from] == s@[i]);
    }
    if at > 0 {
        assert(rest[at - 1] == out@.last());
        assert(out@[0] == s@[from]);
    }
}

/// A text of one line that is not ended is its only line, and no text has no
/// lines.
pub proof fn lemma_lines_of_one_line(s: &str, out: Vec<String>)
    requires
        call_ensures(lines_of, (s,), out),
        !s@.contains('\n'),
    ensures
        s@.len() == 0 ==> out@.len() == 0,
        s@.len() > 0 ==> out@.len() == 1 && out@[0]@ == s@,
{
    let end = s@.len() as int;
    assert forall|i: int| 0 <= i < end implies s@[i] != '\n' by {
        assert(s@.contains(s@[i]));
    }
    lemma_line_length(s@, end);
    assert(texts(out@).len() == out@.len());
    if end > 0 {
        assert(texts(out@)[0] == out@[0]@);
    }
}

/// A line that is ended comes first, without its ending, which may have a
/// carriage return; the lines of what follows it come behind.
pub proof fn lemma_lines_of_first_and_rest(
    s: &str,
    rest: &str,
    line: Seq<char>,
    out: Vec<String>,
    out_rest: Vec<String>,
)
    requires
        call_ensures(lines_of, (s,), out),
        call_ensures(lines_of, (rest,), out_rest),
        !line.contains('\n'),
        s@ == line.push('\n') + rest@,
    ensures
        out@.len() == out_rest@.len() + 1,
        line.len() > 0 && line.last() == '\r' ==> out@[0]@ == line.drop_last(),
        line.len() == 0 || line.last() != '\r' ==> out@[0]@ == line,
        forall|i: int| 0 <= i < out_rest@.len() ==> out@[i + 1]@ == (#[trigger] out_rest@[i])@,
{
    let end = line.len() as int;
    assert forall|i: int| 0 <= i < end implies s@[i] != '\n' by {
        assert(line.contains(line[i]));
        assert(s@[i] == line[i]);
    }
    lemma_line_length(s@, end);
    assert(s@.take(end) =~= line);
    assert(s@.skip(end + 1) =~= rest@);
    assert(texts(out@).len() == out@.len());
    assert(texts(out_rest@).len() == out_rest@.len());
    assert(texts(out@)[0] == out@[0]@);
    assert forall|i: int| 0 <= i < out_rest@.len() implies out@[i + 1]@ == (
    #[trigger] out_rest@[i])@ by {
        assert(texts(out@)[i + 1] == lines(rest@)[i]);
        assert(texts(out_rest@)[i] == out_rest@[i]@);
        assert(texts(out@)[i + 1] == out@[i + 1]@);
    }
}

/// Joining one text gives that text, joining none gives nothing, and one more
/// text comes behind a separator.
pub proof fn lemma_join_puts_separators_between(
    list: Vec<String>,
    longer: Vec<String>,
    separator: &str,
    out: String,
    out_longer: String,
)
    requires
        call_ensures(join, (&list, separator), out),
        call_ensures(join, (&longer, separator), out_longer),
        longer@.len() == list@.len() + 1,
        longer@.drop_last() == list@,
    ensures
        list@.len() == 0 ==> out@.len() == 0 && out_longer@ == longer@.last()@,
        list@.len() > 0 ==> out_longer@ == out@ + separator@ + longer@.last()@,
{
    assert(texts(longer@).drop_last() =~= texts(list@));
    assert(texts(longer@).last() == longer@.last()@);
}

/// The number that decimal digits stand for.
pub open spec fn number_of(digits: Seq<char>) -> int
    decreases digits.len(),
{
    if digits.len() == 0 {
        0
    } else {
        10 * number_of(digits.drop_last()) + (digits.last() as int - '0' as int)
    }
}

/// The digits of a number.
proof fn lemma_decimal_digits(n: nat)
    requires
        n <= u64::MAX,
    ensures
        decimal(n).len() > 0,
        forall|i: int| 0 <= i < decimal(n).len() ==> '0' <= #[trigger] decimal(n)[i] <= '9',
        n > 0 ==> decimal(n)[0] != '0',
        number_of(decimal(n)) == n,
    decreases n,
{
    reveal_with_fuel(number_of, 2);
    if n < 10 {
        assert(decimal(n) =~= seq![digit(n as int)]);
        assert(decimal(n).drop_last() =~= seq![]);
    } else {
        lemma_decimal_digits(n / 10);
        let front = decimal(n / 10);
        assert(decimal(n).drop_last() =~= front);
        assert forall|i: int| 0 <= i < decimal(n).len() implies '0' <= #[trigger] decimal(n)[i]
            <= '9' by {
            if i < front.len() {
                assert(decimal(n)[i] == front[i]);
            }
        }
    }
}

/// The decimal notation of a number consists of digits that stand for the
/// number, and has no leading zero.
pub proof fn lemma_decimal_stands_for_number(n: u64, out: Vec<char>)
    requires
        call_ensures(decimal_of, (n,), out),
    ensures
        number_of(out@) == n,
        forall|i: int| 0 <= i < out@.len() ==> '0' <= #[trigger] out@[i] <= '9',
        out@.len() > 0,
        out@[0] == '0' ==> n == 0 && out@.len() == 1,
{
    lemma_decimal_digits(n as nat);
}

/// Slashes at the end, and the suffix behind the last part, make no difference.
pub proof fn lemma_last_part_ignores_endings(
    s: &str,
    longer: &str,
    suffix: &str,
    out: String,
    out_longer: String,
)
    requires
        call_ensures(last_segment_without, (s, suffix), out),
        call_ensures(last_segment_without, (longer, suffix), out_longer),
        longer@ == s@.push('/') || {
            &&& longer@ == s@ + suffix@
            &&& !suffix@.contains('/')
            &&& s@.len() > 0 ==> s@.last() != '/'
        },
        suffix@.len() > 0,
    ensures
        out_longer@ == out@,
{
    if longer@ == s@.push('/') {
        assert(longer@.drop_last() =~= s@);
    } else {
        let tail = suffix@;
        assert(longer@.last() == tail.last());
        assert(tail.contains(tail.last()));
        assert(without_slashes(s@) == s@);
        assert(without_slashes(longer@) == longer@);
        lemma_segment_of_longer(s@, tail);
        let segment = last_segment(s@);
        let all = segment + tail;
        assert(all.subrange(all.len() - tail.len(), all.len() as int) =~= tail);
        assert(all.take(all.len() - tail.len()) =~= segment);
    }
}

/// What has no slash stays in the last segment.
proof fn lemma_segment_of_longer(s: Seq<char>, tail: Seq<char>)
    requires
        !tail.contains('/'),
    ensures
        last_segment(s + tail) == last_segment(s) + tail,
    decreases tail.len(),
{
    if tail.len() == 0 {
        assert(s + tail =~= s);
        assert(last_segment(s) + tail =~= last_segment(s));
    } else {
        let shorter = tail.drop_last();
        assert forall|c: char| shorter.contains(c) implies tail.contains(c) by {
            let i = choose|i: int| 0 <= i < shorter.len() && shorter[i] == c;
            assert(tail[i] == c);
        }
        lemma_segment_of_longer(s, shorter);
        assert((s + tail).drop_last() =~= s + shorter);
        assert(tail.contains(tail.last()));
        assert((last_segment(s) + shorter).push(tail.last()) =~= last_segment(s) + tail);
    }
}

/// The last part of a text is what stands behind its last slash, or all of it,
/// where neither a slash nor the suffix ends it.
pub proof fn lemma_last_part(
    s: &str,
    suffix: &str,
    start: Seq<char>,
    part: Seq<char>,
    out: String,
)
    requires
        call_ensures(last_segment_without, (s, suffix), out),
        suffix@.len() > 0,
        s@ == start + part,
        start.len() == 0 || start.last() == '/',
        !part.contains('/'),
        !suffix@.is_suffix_of(part),
        part.len() > 0 || start.len() == 0,
    ensures
        out@ == part,
{
    if part.len() > 0 {
        assert(s@.last() == part.last());
        assert(part.contains(part.last()));
    }
    assert(without_slashes(s@) == s@);
    assert forall|i: int| start.len() <= i < s@.len() implies s@[i] != '/' by {
        assert(s@[i] == part[i - start.len()]);
        assert(part.contains(part[i - start.len()]));
    }
    lemma_last_segment(s@, start.len() as int);
    assert(s@.skip(start.len() as int) =~= part);
}

/// What stands in front of the last slash makes no difference.
pub proof fn lemma_last_part_stands_alone(
    s: &str,
    part: &str,
    suffix: &str,
    start: Seq<char>,
    out: String,
    out_part: String,
)
    requires
        call_ensures(last_segment_without, (s, suffix), out),
        call_ensures(last_segment_without, (part, suffix), out_part),
        suffix@.len() > 0,
        s@ == start + part@,
        start.len() > 0 && start.last() == '/',
        part@.len() > 0 && !part@.contains('/'),
    ensures
        out@ == out_part@,
{
    assert(part@.contains(part@.last()));
    assert(s@.last() == part@.last());
    assert(without_slashes(s@) == s@);
    assert(without_slashes(part@) == part@);
    lemma_segment_of_longer(start, part@);
    lemma_segment_of_longer(Seq::empty(), part@);
    assert(Seq::<char>::empty() + part@ =~= part@);
    assert(last_segment(start) =~= seq![]);
    assert(last_segment(Seq::<char>::empty()) =~= seq![]);
}

} // verus!
