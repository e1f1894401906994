//! Text as sequences of characters: the predicates and operations that the
//! tag reader and the renderers share, each with an executable counterpart
//! on `&str`.

use vstd::prelude::*;
use vstd::string::*;
use vstd::utf8::encode_utf8;

verus! {

/// `suffix` is the end of `s`.
pub open spec fn has_suffix(s: Seq<char>, suffix: Seq<char>) -> bool {
    suffix.len() <= s.len() && s.subrange(s.len() - suffix.len(), s.len() as int) == suffix
}

/// `s` without its last `n` characters.
pub open spec fn without_last(s: Seq<char>, n: nat) -> Seq<char>
    recommends
        n <= s.len(),
{
    s.subrange(0, s.len() - n)
}

/// `pattern` stands in `s` at position `at`.
pub open spec fn occurs_at(s: Seq<char>, pattern: Seq<char>, at: int) -> bool {
    0 <= at && at + pattern.len() <= s.len() && s.subrange(at, at + pattern.len()) == pattern
}

/// `pattern` stands somewhere in `s`.
pub open spec fn occurs(s: Seq<char>, pattern: Seq<char>) -> bool {
    exists|at: int| occurs_at(s, pattern, at)
}

/// The first position at or after `from` where `pattern` stands in `s`.
pub open spec fn find_from(s: Seq<char>, pattern: Seq<char>, from: int) -> Option<int>
    decreases s.len() - from,
{
    if from < 0 || from + pattern.len() > s.len() {
        None
    } else if occurs_at(s, pattern, from) {
        Some(from)
    } else if from < s.len() {
        find_from(s, pattern, from + 1)
    } else {
        None
    }
}

/// The first position where `pattern` stands in `s`.
pub open spec fn find(s: Seq<char>, pattern: Seq<char>) -> Option<int> {
    find_from(s, pattern, 0)
}

/// `s` with the first occurrence of `pattern` taken out; `s` itself where
/// there is none.
pub open spec fn remove_first(s: Seq<char>, pattern: Seq<char>) -> Seq<char> {
    match find(s, pattern) {
        Some(at) => s.subrange(0, at) + s.subrange(at + pattern.len(), s.len() as int),
        None => s,
    }
}

/// The position of the first `sep` in `s`, or `s.len()` where there is none.
pub open spec fn index_of_char(s: Seq<char>, sep: char) -> int
    decreases s.len(),
{
    if s.len() == 0 {
        0
    } else if s[0] == sep {
        0
    } else {
        1 + index_of_char(s.drop_first(), sep)
    }
}

/// The pieces of `s` between occurrences of `sep`. There is always at least
/// one piece; a separator at either end gives an empty piece there.
pub open spec fn split_on(s: Seq<char>, sep: char) -> Seq<Seq<char>>
    decreases s.len(),
{
    let at = index_of_char(s, sep);
    if 0 <= at < s.len() {
        seq![s.subrange(0, at)] + split_on(s.subrange(at + 1, s.len() as int), sep)
    } else {
        seq![s]
    }
}

/// All the parts one after another.
pub open spec fn concat_all(parts: Seq<Seq<char>>) -> Seq<char>
    decreases parts.len(),
{
    if parts.len() == 0 {
        Seq::empty()
    } else {
        concat_all(parts.drop_last()) + parts.last()
    }
}

/// The parts one after another with `sep` between each two.
pub open spec fn join(parts: Seq<Seq<char>>, sep: Seq<char>) -> Seq<char>
    decreases parts.len(),
{
    if parts.len() == 0 {
        Seq::empty()
    } else if parts.len() == 1 {
        parts[0]
    } else {
        join(parts.drop_last(), sep) + sep + parts.last()
    }
}

/// `x` is one of `A` to `Z`.
pub open spec fn is_ascii_upper(x: char) -> bool {
    'A' <= x <= 'Z'
}

/// The two characters are the same, or the same ASCII letter in different case.
pub open spec fn same_char_ignoring_ascii_case(x: char, y: char) -> bool {
    ||| x == y
    ||| is_ascii_upper(x) && y as int == x as int + 32
    ||| is_ascii_upper(y) && x as int == y as int + 32
}

/// The two texts have the same length and agree character by character up to
/// the case of ASCII letters.
pub open spec fn eq_ignore_ascii_case(a: Seq<char>, b: Seq<char>) -> bool {
    &&& a.len() == b.len()
    &&& forall|i: int| 0 <= i < a.len() ==> same_char_ignoring_ascii_case(#[trigger] a[i], b[i])
}

/// The number of bytes that `s` takes in UTF-8.
pub open spec fn byte_len(s: Seq<char>) -> nat {
    encode_utf8(s).len()
}

/// The number of bytes that `s` takes in UTF-8.
pub fn byte_length(s: &str) -> (bytes: usize)
    ensures
        bytes == byte_len(s@),
{
    s.as_bytes().len()
}

/// The characters of `s`, in order.
pub fn chars_of(s: &str) -> (chars: Vec<char>)
    ensures
        chars@ == s@,
{
    let mut chars: Vec<char> = Vec::new();
    let it = s.chars();
    for c in iter: it
        invariant
            chars@ == iter.seq().take(iter.index()),
            iter.seq() == s@,
    {
        chars.push(c);
    }
    chars
}

/// Whether two slices of characters are equal, element by element.
pub fn same_chars(a: &Vec<char>, b: &Vec<char>) -> (same: bool)
    ensures
        same == (a@ == b@),
{
    if a.len() != b.len() {
        return false;
    }
    let mut i: usize = 0;
    while i < a.len()
        invariant
            a.len() == b.len(),
            i <= a.len(),
            a@.take(i as int) == b@.take(i as int),
        decreases a.len() - i,
    {
        if a[i] != b[i] {
            assert(a@[i as int] != b@[i as int]);
            return false;
        }
        assert(a@.take(i + 1) == a@.take(i as int).push(a@[i as int]));
        assert(b@.take(i + 1) == b@.take(i as int).push(b@[i as int]));
        i += 1;
    }
    assert(a@.take(a.len() as int) == a@);
    assert(b@.take(b.len() as int) == b@);
    true
}

/// Whether two texts are equal.
pub fn same_text(a: &str, b: &str) -> (same: bool)
    ensures
        same == (a@ == b@),
{
    let x = chars_of(a);
    let y = chars_of(b);
    same_chars(&x, &y)
}

/// Whether `pattern` stands in `s` at position `at`.
pub fn chars_occur_at(s: &Vec<char>, pattern: &Vec<char>, at: usize) -> (found: bool)
    ensures
        found == occurs_at(s@, pattern@, at as int),
{
    if pattern.len() > s.len() || at > s.len() - pattern.len() {
        return false;
    }
    let mut i: usize = 0;
    while i < pattern.len()
        invariant
            at + pattern.len() <= s.len(),
            i <= pattern.len(),
            s@.subrange(at as int, at + i) == pattern@.take(i as int),
        decreases pattern.len() - i,
    {
        if s[at + i] != pattern[i] {
            assert(s@.subrange(at as int, at + pattern.len())[i as int] != pattern@[i as int]);
            return false;
        }
        assert(s@.subrange(at as int, at + i + 1) == s@.subrange(at as int, at + i).push(
            s@[at + i],
        ));
        assert(pattern@.take(i + 1) == pattern@.take(i as int).push(pattern@[i as int]));
        i += 1;
    }
    assert(pattern@.take(pattern.len() as int) == pattern@);
    true
}

/// Whether `s` ends with `suffix`.
pub fn ends_with(s: &str, suffix: &str) -> (found: bool)
    ensures
        found == has_suffix(s@, suffix@),
{
    let text = chars_of(s);
    let tail = chars_of(suffix);
    if tail.len() > text.len() {
        return false;
    }
    chars_occur_at(&text, &tail, text.len() - tail.len())
}

/// The part of `s` from character `from` up to character `to`.
pub fn substring(s: &str, from: usize, to: usize) -> (part: String)
    requires
        from <= to <= s@.len(),
    ensures
        part@ == s@.subrange(from as int, to as int),
{
    s.substring_char(from, to).to_owned()
}

/// Where `index_of_char` is `k`: nothing before `k` is `sep`, and `k` is the
/// end of `s` or holds `sep`.
pub proof fn lemma_index_of_char(s: Seq<char>, sep: char, k: int)
    requires
        0 <= k <= s.len(),
        forall|j: int| 0 <= j < k ==> s[j] != sep,
        k < s.len() ==> s[k] == sep,
    ensures
        index_of_char(s, sep) == k,
    decreases k,
{
    if k > 0 {
        let rest = s.drop_first();
        assert forall|j: int| 0 <= j < k - 1 implies rest[j] != sep by {
            assert(rest[j] == s[j + 1]);
        }
        lemma_index_of_char(rest, sep, k - 1);
    }
}

/// A text without the separator is a single piece.
pub proof fn lemma_split_on_whole(s: Seq<char>, sep: char)
    requires
        forall|j: int| 0 <= j < s.len() ==> s[j] != sep,
    ensures
        split_on(s, sep) == seq![s],
{
    lemma_index_of_char(s, sep, s.len() as int);
}

/// The first piece ends at the first separator, and the rest is split in
/// turn.
pub proof fn lemma_split_on_first(s: Seq<char>, sep: char, k: int)
    requires
        0 <= k < s.len(),
        forall|j: int| 0 <= j < k ==> s[j] != sep,
        s[k] == sep,
    ensures
        split_on(s, sep) == seq![s.subrange(0, k)] + split_on(
            s.subrange(k + 1, s.len() as int),
            sep,
        ),
{
    lemma_index_of_char(s, sep, k);
}

/// What `find` gives is the first occurrence: the pattern stands there and
/// nowhere before; where it gives nothing, the pattern stands nowhere.
pub proof fn lemma_find_from_is_first(s: Seq<char>, pattern: Seq<char>, from: int)
    requires
        0 <= from,
    ensures
        match find_from(s, pattern, from) {
            Some(at) => from <= at && occurs_at(s, pattern, at) && forall|j: int|
                from <= j < at ==> !occurs_at(s, pattern, j),
            None => forall|j: int| from <= j ==> !occurs_at(s, pattern, j),
        },
    decreases s.len() - from,
{
    if from + pattern.len() > s.len() {
    } else if occurs_at(s, pattern, from) {
    } else if from < s.len() {
        lemma_find_from_is_first(s, pattern, from + 1);
    } else {
        assert(s.subrange(from, from + pattern.len()) =~= pattern);
    }
}

/// The first position where `pattern` stands in `s`.
pub fn find_chars(s: &Vec<char>, pattern: &Vec<char>) -> (at: Option<usize>)
    ensures
        match at {
            Some(i) => find(s@, pattern@) == Some(i as int) && occurs_at(s@, pattern@, i as int),
            None => find(s@, pattern@) is None,
        },
{
    if pattern.len() > s.len() {
        return None;
    }
    let last: usize = s.len() - pattern.len();
    let mut i: usize = 0;
    loop
        invariant
            pattern.len() <= s.len(),
            last == s.len() - pattern.len(),
            i <= last,
            find(s@, pattern@) == find_from(s@, pattern@, i as int),
        decreases last - i,
    {
        if chars_occur_at(s, pattern, i) {
            return Some(i);
        }
        proof {
            if pattern.len() == 0 {
                assert(s@.subrange(i as int, i as int) =~= pattern@);
            }
        }
        if i == last {
            assert(find_from(s@, pattern@, i + 1) is None);
            return None;
        }
        i += 1;
    }
}

/// `s` with the first occurrence of `pattern` taken out.
pub fn remove_first_occurrence(s: &str, pattern: &str) -> (rest: String)
    ensures
        rest@ == remove_first(s@, pattern@),
{
    let text = chars_of(s);
    let pat = chars_of(pattern);
    match find_chars(&text, &pat) {
        Some(at) => {
            assert(occurs_at(text@, pat@, at as int));
            assert(at + pat.len() <= text.len());
            let end: usize = at + pat.len();
            let mut rest = substring(s, 0, at);
            rest.append(s.substring_char(end, text.len()));
            rest
        },
        None => s.to_owned(),
    }
}

/// Whether `pattern` stands somewhere in `s`.
pub fn contains_text(s: &str, pattern: &str) -> (found: bool)
    ensures
        found == occurs(s@, pattern@),
{
    let text = chars_of(s);
    let pat = chars_of(pattern);
    proof {
        lemma_find_from_is_first(s@, pattern@, 0);
    }
    match find_chars(&text, &pat) {
        Some(_) => true,
        None => {
            assert(!occurs(s@, pattern@)) by {
                if occurs(s@, pattern@) {
                    let at = choose|at: int| occurs_at(s@, pattern@, at);
                    assert(!occurs_at(s@, pattern@, at));
                }
            }
            false
        },
    }
}

/// The pieces of `s` between occurrences of `sep`.
pub fn split(s: &str, sep: char) -> (parts: Vec<String>)
    ensures
        parts.deep_view() == split_on(s@, sep),
        parts.len() >= 1,
{
    let text = chars_of(s);
    let mut parts: Vec<String> = Vec::new();
    let mut start: usize = 0;
    let mut i: usize = 0;
    assert(s@.subrange(0, s@.len() as int) == s@);
    while i < text.len()
        invariant
            text@ == s@,
            start <= i <= text.len(),
            forall|j: int| start <= j < i ==> text@[j] != sep,
            split_on(s@, sep) == parts.deep_view() + split_on(
                s@.subrange(start as int, s@.len() as int),
                sep,
            ),
        decreases text.len() - i,
    {
        if text[i] == sep {
            let piece = substring(s, start, i);
            proof {
                let rest = s@.subrange(start as int, s@.len() as int);
                lemma_split_on_first(rest, sep, i - start);
                assert(rest.subrange(0, i - start) == s@.subrange(start as int, i as int));
                assert(rest.subrange(i - start + 1, rest.len() as int) == s@.subrange(
                    i + 1,
                    s@.len() as int,
                ));
                assert(parts.deep_view().push(piece@) + split_on(
                    s@.subrange(i + 1, s@.len() as int),
                    sep,
                ) == parts.deep_view() + split_on(rest, sep));
            }
            let ghost before = parts.deep_view();
            parts.push(piece);
            assert(parts.deep_view() == before.push(piece@));
            start = i + 1;
        }
        i += 1;
    }
    let piece = substring(s, start, text.len());
    proof {
        lemma_split_on_whole(s@.subrange(start as int, s@.len() as int), sep);
        assert(parts.deep_view().push(piece@) == parts.deep_view() + seq![piece@]);
    }
    let ghost before = parts.deep_view();
    parts.push(piece);
    assert(parts.deep_view() == before.push(piece@));
    parts
}

/// All the parts one after another.
pub fn concat_strings(parts: &Vec<String>) -> (whole: String)
    ensures
        whole@ == concat_all(parts.deep_view()),
{
    let mut whole = String::new();
    let mut i: usize = 0;
    while i < parts.len()
        invariant
            i <= parts.len(),
            whole@ == concat_all(parts.deep_view().take(i as int)),
        decreases parts.len() - i,
    {
        proof {
            let upto = parts.deep_view().take(i + 1);
            assert(upto.drop_last() == parts.deep_view().take(i as int));
            assert(upto.last() == parts@[i as int]@);
        }
        whole.append(parts[i].as_str());
        i += 1;
    }
    assert(parts.deep_view().take(parts.len() as int) == parts.deep_view());
    whole
}

/// The parts one after another with `sep` between each two.
pub fn join_strings(parts: &Vec<String>, sep: &str) -> (whole: String)
    ensures
        whole@ == join(parts.deep_view(), sep@),
{
    let mut whole = String::new();
    let mut i: usize = 0;
    while i < parts.len()
        invariant
            i <= parts.len(),
            whole@ == join(parts.deep_view().take(i as int), sep@),
        decreases parts.len() - i,
    {
        proof {
            let upto = parts.deep_view().take(i + 1);
            assert(upto.drop_last() == parts.deep_view().take(i as int));
            assert(upto.last() == parts@[i as int]@);
            if i == 0 {
                assert(Seq::<char>::empty() + parts@[0]@ == parts@[0]@);
            }
        }
        if i > 0 {
            whole.append(sep);
        }
        whole.append(parts[i].as_str());
        i += 1;
    }
    assert(parts.deep_view().take(parts.len() as int) == parts.deep_view());
    whole
}

/// Whether two texts are equal up to the case of ASCII letters.
pub fn same_text_ignoring_ascii_case(a: &str, b: &str) -> (same: bool)
    ensures
        same == eq_ignore_ascii_case(a@, b@),
{
    let x = chars_of(a);
    let y = chars_of(b);
    if x.len() != y.len() {
        return false;
    }
    let mut i: usize = 0;
    while i < x.len()
        invariant
            x@ == a@,
            y@ == b@,
            x.len() == y.len(),
            i <= x.len(),
            forall|j: int| 0 <= j < i ==> same_char_ignoring_ascii_case(#[trigger] x@[j], y@[j]),
        decreases x.len() - i,
    {
        if !same_char_ignoring_case(x[i], y[i]) {
            return false;
        }
        i += 1;
    }
    true
}

/// Whether two characters are the same up to the case of ASCII letters.
pub fn same_char_ignoring_case(x: char, y: char) -> (same: bool)
    ensures
        same == same_char_ignoring_ascii_case(x, y),
{
    let p: u32 = x as u32;
    let q: u32 = y as u32;
    p == q || ('A' <= x && x <= 'Z' && q == p + 32) || ('A' <= y && y <= 'Z' && p == q + 32)
}

/// Where `name` stands at `at` and nowhere before, `at` is its first position.
pub proof fn lemma_first_position(names: Seq<Seq<char>>, name: Seq<char>, at: int)
    requires
        0 <= at < names.len(),
        names[at] == name,
        forall|j: int| 0 <= j < at ==> names[j] != name,
    ensures
        names.index_of_first(name) == Some(at),
{
    names.index_of_first_ensures(name);
}

/// Where `name` stands nowhere, it has no first position.
pub proof fn lemma_no_position(names: Seq<Seq<char>>, name: Seq<char>)
    requires
        forall|j: int| 0 <= j < names.len() ==> names[j] != name,
    ensures
        names.index_of_first(name) is None,
{
    names.index_of_first_ensures(name);
}

/// The first position of `wanted` among `names`, if it is one of them.
pub fn find_text(names: &Vec<String>, wanted: &str) -> (found: Option<usize>)
    ensures
        match found {
            Some(at) => names.deep_view().index_of_first(wanted@) == Some(at as int) && at
                < names.len(),
            None => names.deep_view().index_of_first(wanted@) is None,
        },
{
    let target = chars_of(wanted);
    let mut i: usize = 0;
    while i < names.len()
        invariant
            target@ == wanted@,
            i <= names.len(),
            forall|j: int| 0 <= j < i ==> names.deep_view()[j] != wanted@,
        decreases names.len() - i,
    {
        let here = chars_of(names[i].as_str());
        assert(names.deep_view()[i as int] == names@[i as int]@);
        if same_chars(&here, &target) {
            proof {
                lemma_first_position(names.deep_view(), wanted@, i as int);
            }
            return Some(i);
        }
        i += 1;
    }
    proof {
        lemma_no_position(names.deep_view(), wanted@);
    }
    None
}

/// Whether `wanted` is one of `names`.
pub fn holds_text(names: &Vec<String>, wanted: &str) -> (found: bool)
    ensures
        found == names.deep_view().contains(wanted@),
{
    let mut i: usize = 0;
    while i < names.len()
        invariant
            i <= names.len(),
            forall|j: int| 0 <= j < i ==> names.deep_view()[j] != wanted@,
        decreases names.len() - i,
    {
        if same_text(names[i].as_str(), wanted) {
            assert(names.deep_view()[i as int] == wanted@);
            return true;
        }
        i += 1;
    }
    false
}

} // verus!
