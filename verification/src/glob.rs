//! Glob matching: `*` stands for any run of characters, every other
//! character for itself.

use vstd::prelude::*;

verus! {

/// `pattern` matches the whole of `subject`, where `*` stands for any run of
/// characters (the empty one too) and every other character for itself.
pub open spec fn glob(pattern: Seq<char>, subject: Seq<char>) -> bool
    decreases pattern.len(),
{
    if pattern.len() == 0 {
        subject.len() == 0
    } else if pattern[0] == '*' {
        exists|k: int|
            0 <= k <= subject.len() && glob(pattern.skip(1), #[trigger] subject.skip(k))
    } else {
        subject.len() > 0 && subject[0] == pattern[0] && glob(pattern.skip(1), subject.skip(1))
    }
}

/// `part` stands in `subject` at position `at`.
pub open spec fn occurs_at(part: Seq<char>, subject: Seq<char>, at: int) -> bool {
    0 <= at && at + part.len() <= subject.len() && subject.subrange(at, at + part.len()) == part
}

/// A literal start of a pattern matches exactly the same start of the subject.
proof fn lemma_literal_start(literal: Seq<char>, rest: Seq<char>, subject: Seq<char>)
    requires
        !literal.contains('*'),
    ensures
        glob(literal + rest, subject) <==> occurs_at(literal, subject, 0) && glob(
            rest,
            subject.skip(literal.len() as int),
        ),
    decreases literal.len(),
{
    let pattern = literal + rest;
    if literal.len() == 0 {
        assert(pattern =~= rest);
        assert(subject.skip(0) =~= subject);
        assert(subject.subrange(0, 0) =~= literal);
    } else {
        assert(literal.contains(literal[0]));
        assert(pattern[0] == literal[0]);
        let tail = literal.skip(1);
        assert forall|c: char| tail.contains(c) implies literal.contains(c) by {
            let i = choose|i: int| 0 <= i < tail.len() && tail[i] == c;
            assert(literal[i + 1] == c);
        }
        assert(pattern.skip(1) =~= tail + rest);
        if subject.len() > 0 {
            lemma_literal_start(tail, rest, subject.skip(1));
            if literal.len() <= subject.len() {
                assert(subject.skip(1).skip(tail.len() as int) =~= subject.skip(
                    literal.len() as int,
                ));
            }
            if occurs_at(literal, subject, 0) {
                assert(subject[0] == subject.subrange(0, literal.len() as int)[0]);
                assert(subject.skip(1).subrange(0, tail.len() as int) =~= subject.subrange(
                    0,
                    literal.len() as int,
                ).skip(1));
            }
            if subject[0] == literal[0] && occurs_at(tail, subject.skip(1), 0) {
                assert forall|i: int| 0 <= i < literal.len() implies subject.subrange(
                    0,
                    literal.len() as int,
                )[i] == literal[i] by {
                    if i > 0 {
                        assert(tail[i - 1] == subject.skip(1).subrange(
                            0,
                            tail.len() as int,
                        )[i - 1]);
                    }
                }
                assert(subject.subrange(0, literal.len() as int) =~= literal);
            }
        }
    }
}

/// Without a `*`, a pattern matches itself and nothing else.
pub proof fn lemma_glob_literal(literal: Seq<char>, subject: Seq<char>)
    requires
        !literal.contains('*'),
    ensures
        glob(literal, subject) <==> subject == literal,
{
    let nothing = Seq::<char>::empty();
    assert(literal + nothing =~= literal);
    lemma_literal_start(literal, nothing, subject);
    if subject == literal {
        assert(subject.subrange(0, literal.len() as int) =~= literal);
    } else if occurs_at(literal, subject, 0) && subject.len() == literal.len() {
        assert(subject.subrange(0, literal.len() as int) =~= subject);
    }
}

/// A leading `*` may swallow the start of the subject.
proof fn lemma_star_from_later(rest: Seq<char>, subject: Seq<char>, from: int, later: int)
    requires
        0 <= from <= later <= subject.len(),
        glob(seq!['*'] + rest, subject.skip(later)),
    ensures
        glob(seq!['*'] + rest, subject.skip(from)),
{
    let pattern = seq!['*'] + rest;
    assert(pattern.skip(1) =~= rest);
    let tail = subject.skip(later);
    let k = choose|k: int| 0 <= k <= tail.len() && glob(rest, #[trigger] tail.skip(k));
    assert(tail.skip(k) =~= subject.skip(from).skip(later - from + k));
}

/// `*literal` matches exactly the subjects that end with `literal`.
pub proof fn lemma_glob_suffix(literal: Seq<char>, subject: Seq<char>)
    requires
        !literal.contains('*'),
    ensures
        glob(seq!['*'] + literal, subject) <==> occurs_at(
            literal,
            subject,
            subject.len() - literal.len(),
        ),
{
    let pattern = seq!['*'] + literal;
    assert(pattern.skip(1) =~= literal);
    if glob(pattern, subject) {
        let k = choose|k: int| 0 <= k <= subject.len() && glob(literal, #[trigger] subject.skip(k));
        lemma_glob_literal(literal, subject.skip(k));
        assert(subject.subrange(k, k + literal.len()) =~= subject.skip(k));
    }
    let at = subject.len() - literal.len();
    if occurs_at(literal, subject, at) {
        lemma_glob_literal(literal, subject.skip(at));
        assert(subject.skip(at) =~= literal);
    }
}

/// After a `*`, a literal that another `*` follows may as well be taken at its
/// first occurrence.
proof fn lemma_star_literal_star(
    literal: Seq<char>,
    rest: Seq<char>,
    subject: Seq<char>,
    first: Option<int>,
)
    requires
        !literal.contains('*'),
        first matches Some(at) ==> occurs_at(literal, subject, at) && forall|i: int|
            #![trigger occurs_at(literal, subject, i)]
            0 <= i < at ==> !occurs_at(literal, subject, i),
        first is None ==> forall|i: int| !occurs_at(literal, subject, i),
    ensures
        glob(seq!['*'] + literal + (seq!['*'] + rest), subject) <==> (first matches Some(at)
            && glob(seq!['*'] + rest, subject.skip(at + literal.len()))),
{
    let starred = seq!['*'] + rest;
    let pattern = seq!['*'] + literal + starred;
    let tail = literal + starred;
    assert(pattern.skip(1) =~= tail);
    if glob(pattern, subject) {
        let k = choose|k: int| 0 <= k <= subject.len() && glob(tail, #[trigger] subject.skip(k));
        lemma_literal_start(literal, starred, subject.skip(k));
        assert(subject.skip(k).subrange(0, literal.len() as int) =~= subject.subrange(
            k,
            k + literal.len(),
        ));
        assert(occurs_at(literal, subject, k));
        assert(subject.skip(k).skip(literal.len() as int) =~= subject.skip(k + literal.len()));
        let at = first->0;
        lemma_star_from_later(rest, subject, at + literal.len(), k + literal.len());
    }
    if let Some(at) = first {
        if glob(starred, subject.skip(at + literal.len())) {
            assert(subject.skip(at).skip(literal.len() as int) =~= subject.skip(
                at + literal.len(),
            ));
            assert(subject.skip(at).subrange(0, literal.len() as int) =~= subject.subrange(
                at,
                at + literal.len(),
            ));
            lemma_literal_start(literal, starred, subject.skip(at));
            assert(glob(tail, subject.skip(at)));
        }
    }
}

/// `literal*` matches exactly the subjects that start with `literal`.
pub proof fn lemma_glob_prefix(literal: Seq<char>, subject: Seq<char>)
    requires
        !literal.contains('*'),
    ensures
        glob(literal + seq!['*'], subject) <==> occurs_at(literal, subject, 0),
{
    lemma_literal_start(literal, seq!['*'], subject);
    if occurs_at(literal, subject, 0) {
        lemma_glob_star(subject.skip(literal.len() as int));
    }
}

/// `*` matches everything.
pub proof fn lemma_glob_star(subject: Seq<char>)
    ensures
        glob(seq!['*'], subject),
{
    let nothing = Seq::<char>::empty();
    assert(seq!['*'].skip(1) =~= nothing);
    assert(glob(nothing, subject.skip(subject.len() as int)));
}

/// `*literal*` matches exactly the subjects that `literal` occurs in.
pub proof fn lemma_glob_contains(literal: Seq<char>, subject: Seq<char>)
    requires
        !literal.contains('*'),
    ensures
        glob(seq!['*'] + literal + seq!['*'], subject) <==> exists|at: int|
            occurs_at(literal, subject, at),
{
    let nothing = Seq::<char>::empty();
    assert(seq!['*'] + nothing =~= seq!['*']);
    if exists|at: int| occurs_at(literal, subject, at) {
        let some = choose|at: int| occurs_at(literal, subject, at);
        let at = lemma_first_occurrence(literal, subject, some);
        lemma_star_literal_star(literal, nothing, subject, Some(at));
        lemma_glob_star(subject.skip(at + literal.len()));
    } else {
        lemma_star_literal_star(literal, nothing, subject, None);
    }
}

/// Where there is an occurrence there is a first one.
proof fn lemma_first_occurrence(literal: Seq<char>, subject: Seq<char>, some: int) -> (at: int)
    requires
        occurs_at(literal, subject, some),
    ensures
        occurs_at(literal, subject, at),
        forall|i: int|
            #![trigger occurs_at(literal, subject, i)]
            0 <= i < at ==> !occurs_at(literal, subject, i),
    decreases some,
{
    if exists|i: int| 0 <= i < some && #[trigger] occurs_at(literal, subject, i) {
        let i = choose|i: int| 0 <= i < some && #[trigger] occurs_at(literal, subject, i);
        lemma_first_occurrence(literal, subject, i)
    } else {
        some
    }
}

/// Whether `pattern[from..to]` stands in `subject` at position `at`.
fn segment_at(
    pattern: &Vec<char>,
    from: usize,
    to: usize,
    subject: &Vec<char>,
    at: usize,
) -> (found: bool)
    requires
        from <= to <= pattern@.len(),
        at <= subject@.len(),
    ensures
        found == occurs_at(pattern@.subrange(from as int, to as int), subject@, at as int),
{
    let len: usize = to - from;
    let ghost part = pattern@.subrange(from as int, to as int);
    if subject.len() - at < len {
        return false;
    }
    let mut i: usize = 0;
    while i < len
        invariant
            i <= len,
            len == to - from,
            from <= to <= pattern@.len(),
            part == pattern@.subrange(from as int, to as int),
            at + len <= subject.len(),
            forall|j: int| 0 <= j < i ==> subject@[at + j] == part[j],
        decreases len - i,
    {
        if subject[at + i] != pattern[from + i] {
            assert(subject@.subrange(at as int, at + len)[i as int] != part[i as int]);
            return false;
        }
        i += 1;
    }
    assert(subject@.subrange(at as int, at + len) =~= part);
    true
}

/// The first position at or after `start` where `pattern[from..to]` stands in
/// `subject`.
fn find_segment(
    pattern: &Vec<char>,
    from: usize,
    to: usize,
    subject: &Vec<char>,
    start: usize,
) -> (found: Option<usize>)
    requires
        from <= to <= pattern@.len(),
        start <= subject@.len(),
    ensures
        ({
            let part = pattern@.subrange(from as int, to as int);
            match found {
                Some(at) => start <= at && occurs_at(part, subject@, at as int) && forall|i: int|
                    #![trigger occurs_at(part, subject@, i)]
                    start <= i < at ==> !occurs_at(part, subject@, i),
                None => forall|i: int|
                    #![trigger occurs_at(part, subject@, i)]
                    start <= i ==> !occurs_at(part, subject@, i),
            }
        }),
{
    let ghost part = pattern@.subrange(from as int, to as int);
    let mut at: usize = start;
    loop
        invariant
            from <= to <= pattern@.len(),
            start <= at <= subject@.len(),
            part == pattern@.subrange(from as int, to as int),
            forall|i: int|
                #![trigger occurs_at(part, subject@, i)]
                start <= i < at ==> !occurs_at(part, subject@, i),
        decreases subject@.len() - at,
    {
        if segment_at(pattern, from, to, subject, at) {
            return Some(at);
        }
        if at == subject.len() {
            return None;
        }
        at += 1;
    }
}

/// The position of the first `*` at or after `start`, or the pattern's end.
fn next_star(pattern: &Vec<char>, start: usize) -> (at: usize)
    requires
        start <= pattern@.len(),
    ensures
        start <= at <= pattern@.len(),
        !pattern@.subrange(start as int, at as int).contains('*'),
        at < pattern@.len() ==> pattern@[at as int] == '*',
{
    let mut at: usize = start;
    while at < pattern.len() && pattern[at] != '*'
        invariant
            start <= at <= pattern@.len(),
            forall|i: int| start <= i < at ==> pattern@[i] != '*',
        decreases pattern@.len() - at,
    {
        at += 1;
    }
    at
}

/// Whether `pattern` matches the whole of `subject`.
///
/// Each run of characters between two `*` is taken at its first occurrence
/// behind the one before it. The first run is anchored at the start of the
/// subject and the last one at its end.
pub fn glob_matches(pattern: &Vec<char>, subject: &Vec<char>) -> (matched: bool)
    ensures
        matched == glob(pattern@, subject@),
{
    let mut star: usize = next_star(pattern, 0);
    let ghost head = pattern@.subrange(0, star as int);
    if star == pattern.len() {
        assert(head =~= pattern@);
        proof {
            lemma_glob_literal(pattern@, subject@);
        }
        assert(subject@.len() == pattern@.len() && occurs_at(pattern@, subject@, 0) ==> subject@
            =~= subject@.subrange(0, pattern@.len() as int));
        assert(subject@ == pattern@ ==> subject@.subrange(0, pattern@.len() as int) =~= pattern@);
        return subject.len() == pattern.len() && segment_at(pattern, 0, star, subject, 0);
    }
    proof {
        assert(head + pattern@.skip(star as int) =~= pattern@);
        lemma_literal_start(head, pattern@.skip(star as int), subject@);
    }
    if !segment_at(pattern, 0, star, subject, 0) {
        return false;
    }
    let mut rest: usize = star;
    loop
        invariant
            star < pattern.len(),
            pattern@[star as int] == '*',
            rest <= subject.len(),
            glob(pattern@, subject@) == glob(
                pattern@.skip(star as int),
                subject@.skip(rest as int),
            ),
        decreases pattern@.len() - star,
    {
        let next: usize = next_star(pattern, star + 1);
        let ghost literal = pattern@.subrange(star + 1, next as int);
        let ghost tail = subject@.skip(rest as int);
        if next == pattern.len() {
            // Anchored end.
            let len: usize = next - (star + 1);
            proof {
                assert(pattern@.skip(star as int) =~= seq!['*'] + literal);
                lemma_glob_suffix(literal, tail);
            }
            if subject.len() - rest < len {
                return false;
            }
            let at: usize = subject.len() - len;
            assert(tail.subrange(tail.len() - len, tail.len() as int) =~= subject@.subrange(
                at as int,
                at + len,
            ));
            return segment_at(pattern, star + 1, next, subject, at);
        }
        let ghost behind = pattern@.skip(next + 1);
        assert(pattern@.skip(star as int) =~= seq!['*'] + literal + (seq!['*'] + behind));
        assert(pattern@.skip(next as int) =~= seq!['*'] + behind);
        assert forall|i: int| #[trigger] occurs_at(literal, tail, i) implies occurs_at(
            literal,
            subject@,
            rest + i,
        ) by {
            assert(tail.subrange(i, i + literal.len()) =~= subject@.subrange(
                rest + i,
                rest + i + literal.len(),
            ));
        }
        match find_segment(pattern, star + 1, next, subject, rest) {
            Some(at) => {
                proof {
                    assert(tail.subrange(at - rest, at - rest + literal.len())
                        =~= subject@.subrange(at as int, at + literal.len()));
                    lemma_star_literal_star(literal, behind, tail, Some(at - rest));
                    assert(tail.skip(at - rest + literal.len()) =~= subject@.skip(
                        at + literal.len(),
                    ));
                }
                rest = at + (next - (star + 1));
                star = next;
            },
            None => {
                proof {
                    lemma_star_literal_star(literal, behind, tail, None);
                }
                return false;
            },
        }
    }
}

/// A pattern of two parts matches a subject exactly when the subject has two
/// parts that the two parts of the pattern match.
pub proof fn lemma_glob_concat(first: Seq<char>, second: Seq<char>, subject: Seq<char>)
    ensures
        glob(first + second, subject) <==> exists|k: int|
            0 <= k <= subject.len() && glob(first, #[trigger] subject.take(k)) && glob(
                second,
                subject.skip(k),
            ),
    decreases first.len(),
{
    let pattern = first + second;
    if first.len() == 0 {
        assert(pattern =~= second);
        assert(subject.skip(0) =~= subject);
        if glob(pattern, subject) {
            assert(glob(first, subject.take(0)));
        }
        if exists|k: int|
            0 <= k <= subject.len() && glob(first, #[trigger] subject.take(k)) && glob(
                second,
                subject.skip(k),
            ) {
            let k = choose|k: int|
                0 <= k <= subject.len() && glob(first, #[trigger] subject.take(k)) && glob(
                    second,
                    subject.skip(k),
                );
            assert(k == 0);
        }
    } else {
        let rest = first.skip(1);
        assert(pattern.skip(1) =~= rest + second);
        assert(pattern[0] == first[0]);
        if first[0] == '*' {
            if glob(pattern, subject) {
                let j = choose|j: int|
                    0 <= j <= subject.len() && glob(pattern.skip(1), #[trigger] subject.skip(j));
                let tail = subject.skip(j);
                lemma_glob_concat(rest, second, tail);
                let m = choose|m: int|
                    0 <= m <= tail.len() && glob(rest, #[trigger] tail.take(m)) && glob(
                        second,
                        tail.skip(m),
                    );
                let k = j + m;
                assert(subject.take(k).skip(j) =~= tail.take(m));
                assert(subject.skip(k) =~= tail.skip(m));
                assert(glob(rest, subject.take(k).skip(j)));
                assert(glob(first, subject.take(k)));
            }
            if exists|k: int|
                0 <= k <= subject.len() && glob(first, #[trigger] subject.take(k)) && glob(
                    second,
                    subject.skip(k),
                ) {
                let k = choose|k: int|
                    0 <= k <= subject.len() && glob(first, #[trigger] subject.take(k)) && glob(
                        second,
                        subject.skip(k),
                    );
                let head = subject.take(k);
                let j = choose|j: int|
                    0 <= j <= head.len() && glob(first.skip(1), #[trigger] head.skip(j));
                let tail = subject.skip(j);
                let m = k - j;
                assert(tail.take(m) =~= head.skip(j));
                assert(tail.skip(m) =~= subject.skip(k));
                lemma_glob_concat(rest, second, tail);
                assert(glob(rest, tail.take(m)) && glob(second, tail.skip(m)));
                assert(glob(pattern.skip(1), subject.skip(j)));
            }
        } else {
            if glob(pattern, subject) {
                let tail = subject.skip(1);
                lemma_glob_concat(rest, second, tail);
                let m = choose|m: int|
                    0 <= m <= tail.len() && glob(rest, #[trigger] tail.take(m)) && glob(
                        second,
                        tail.skip(m),
                    );
                let k = m + 1;
                assert(subject.take(k).skip(1) =~= tail.take(m));
                assert(subject.skip(k) =~= tail.skip(m));
                assert(glob(first, subject.take(k)));
            }
            if exists|k: int|
                0 <= k <= subject.len() && glob(first, #[trigger] subject.take(k)) && glob(
                    second,
                    subject.skip(k),
                ) {
                let k = choose|k: int|
                    0 <= k <= subject.len() && glob(first, #[trigger] subject.take(k)) && glob(
                        second,
                        subject.skip(k),
                    );
                let tail = subject.skip(1);
                let m = k - 1;
                assert(subject.take(k).len() > 0);
                assert(tail.take(m) =~= subject.take(k).skip(1));
                assert(tail.skip(m) =~= subject.skip(k));
                lemma_glob_concat(rest, second, tail);
                assert(glob(rest, tail.take(m)) && glob(second, tail.skip(m)));
            }
        }
    }
}

/// A pattern without `*` matches its own text and nothing else, a lone `*`
/// matches everything, and a pattern of two parts matches what has two parts
/// that they match. That says of every pattern what it matches.
pub proof fn lemma_glob_matches_by_parts(
    pattern: Vec<char>,
    subject: Vec<char>,
    out: bool,
    first: Seq<char>,
    second: Seq<char>,
)
    requires
        call_ensures(glob_matches, (&pattern, &subject), out),
    ensures
        !pattern@.contains('*') ==> out == (subject@ == pattern@),
        pattern@ == seq!['*'] ==> out,
        pattern@ == first + second ==> (out <==> exists|k: int|
            0 <= k <= subject@.len() && glob(first, #[trigger] subject@.take(k)) && glob(
                second,
                subject@.skip(k),
            )),
{
    if !pattern@.contains('*') {
        lemma_glob_literal(pattern@, subject@);
    }
    if pattern@ == seq!['*'] {
        assert(pattern@.skip(1) =~= seq![]);
        let all = subject@.skip(subject@.len() as int);
        assert(glob(pattern@.skip(1), all));
    }
    lemma_glob_concat(first, second, subject@);
}

} // verus!
