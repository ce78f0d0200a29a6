//! Text as sequences of characters: the searching, trimming, splitting, number
//! reading and number writing that the rest of the library is built from.
use vstd::prelude::*;
use vstd::string::*;
use vstd::utf8::*;

verus! {

/// `String::push`: the character is appended to the end of the string.
pub assume_specification[ String::push ](string: &mut String, ch: char)
    ensures
        final(string)@ == old(string)@.push(ch),
;

// ---------------------------------------------------------------------------
// Views of the optional and repeated strings that functions take and return.
// ---------------------------------------------------------------------------

/// The characters of an optional owned string.
pub open spec fn text_opt(o: Option<String>) -> Option<Seq<char>> {
    match o {
        Some(s) => Some(s@),
        None => None,
    }
}

/// The characters of an optional borrowed string.
pub open spec fn str_opt(o: Option<&str>) -> Option<Seq<char>> {
    match o {
        Some(s) => Some(s@),
        None => None,
    }
}

/// The characters of each string of a list.
pub open spec fn texts(v: Seq<String>) -> Seq<Seq<char>> {
    v.map_values(|s: String| s@)
}

// ---------------------------------------------------------------------------
// Comparing and converting.
// ---------------------------------------------------------------------------

/// Whether two strings hold the same characters.
pub fn same_text(a: &str, b: &str) -> (r: bool)
    ensures
        r == (a@ == b@),
{
    let x: &[u8] = a.as_bytes();
    let y: &[u8] = b.as_bytes();
    proof {
        encode_utf8_decode_utf8(a@);
        encode_utf8_decode_utf8(b@);
    }
    if x.len() != y.len() {
        return false;
    }
    let mut i: usize = 0;
    while i < x.len()
        invariant
            i <= x@.len(),
            x@.len() == y@.len(),
            x@ == a.spec_bytes(),
            y@ == b.spec_bytes(),
            forall|j: int| 0 <= j < i ==> x@[j] == y@[j],
        decreases x@.len() - i,
    {
        if x[i] != y[i] {
            return false;
        }
        i += 1;
    }
    assert(x@ =~= y@);
    true
}

/// The characters of a string, one by one.
pub fn chars_of(text: &str) -> (r: Vec<char>)
    ensures
        r@ == text@,
{
    let mut r: Vec<char> = Vec::new();
    for c in it: text.chars()
        invariant
            r@ == text@.take(it.index()),
            it.seq() == text@,
    {
        r.push(c);
        assert(text@.take(it.index() + 1) =~= text@.take(it.index()).push(text@[it.index()]));
    }
    assert(text@.take(text@.len() as int) =~= text@);
    r
}

/// Appends `chars[from..to]` to `out`.
pub fn push_range(out: &mut String, chars: &Vec<char>, from: usize, to: usize)
    requires
        from <= to <= chars@.len(),
    ensures
        final(out)@ == old(out)@ + chars@.subrange(from as int, to as int),
{
    let mut i: usize = from;
    assert(out@ =~= old(out)@ + chars@.subrange(from as int, from as int));
    while i < to
        invariant
            from <= i <= to <= chars@.len(),
            out@ == old(out)@ + chars@.subrange(from as int, i as int),
        decreases to - i,
    {
        out.push(chars[i]);
        i += 1;
        assert(out@ =~= old(out)@ + chars@.subrange(from as int, i as int));
    }
}

/// The string made of `chars[from..to]`.
pub fn text_of(chars: &Vec<char>, from: usize, to: usize) -> (r: String)
    requires
        from <= to <= chars@.len(),
    ensures
        r@ == chars@.subrange(from as int, to as int),
{
    let mut r: String = String::new();
    push_range(&mut r, chars, from, to);
    assert(r@ =~= chars@.subrange(from as int, to as int));
    r
}

/// Whether `s` begins with `prefix`.
pub open spec fn starts_with(s: Seq<char>, prefix: Seq<char>) -> bool {
    prefix.len() <= s.len() && s.take(prefix.len() as int) == prefix
}

/// Whether `prefix` stands in `chars` at position `at`.
pub fn stands_at(chars: &Vec<char>, at: usize, prefix: &Vec<char>) -> (r: bool)
    requires
        at <= chars@.len(),
    ensures
        r == starts_with(chars@.skip(at as int), prefix@),
{
    let ghost rest = chars@.skip(at as int);
    if prefix.len() > chars.len() - at {
        return false;
    }
    let mut i: usize = 0;
    while i < prefix.len()
        invariant
            i <= prefix@.len(),
            at + prefix.len() <= chars.len(),
            rest == chars@.skip(at as int),
            forall|j: int| 0 <= j < i ==> rest[j] == prefix@[j],
        decreases prefix@.len() - i,
    {
        assert(rest[i as int] == chars@[at + i]);
        if chars[at + i] != prefix[i] {
            assert(rest.take(prefix@.len() as int)[i as int] != prefix@[i as int]);
            return false;
        }
        i += 1;
    }
    assert(rest.take(prefix@.len() as int) =~= prefix@);
    true
}

// ---------------------------------------------------------------------------
// Searching.
// ---------------------------------------------------------------------------

/// The position of the first `c` in `s`, or the length of `s` where there is none.
pub open spec fn find(s: Seq<char>, c: char) -> int
    decreases s.len(),
{
    if s.len() == 0 || s[0] == c {
        0
    } else {
        1 + find(s.drop_first(), c)
    }
}

/// The part of `s` before its first `c`; all of `s` where there is none.
pub open spec fn before(s: Seq<char>, c: char) -> Seq<char> {
    s.take(find(s, c))
}

/// The part of `s` after its first `c`; empty where there is none.
pub open spec fn after(s: Seq<char>, c: char) -> Seq<char> {
    if find(s, c) < s.len() {
        s.skip(find(s, c) + 1)
    } else {
        Seq::empty()
    }
}

/// `find` is the one position with no `c` before it that is at a `c` or at the end.
pub proof fn lemma_find(s: Seq<char>, c: char)
    ensures
        0 <= find(s, c) <= s.len(),
        forall|i: int| 0 <= i < find(s, c) ==> s[i] != c,
        find(s, c) < s.len() ==> s[find(s, c)] == c,
        find(s, c) < s.len() <==> s.contains(c),
    decreases s.len(),
{
    if s.len() > 0 && s[0] != c {
        let rest = s.drop_first();
        lemma_find(rest, c);
        assert forall|i: int| 0 <= i < find(s, c) implies s[i] != c by {
            if i > 0 {
                assert(rest[i - 1] == s[i]);
            }
        }
        if find(rest, c) < rest.len() {
            assert(rest[find(rest, c)] == s[find(s, c)]);
        } else {
            assert(!s.contains(c)) by {
                if s.contains(c) {
                    let k = choose|k: int| 0 <= k < s.len() && s[k] == c;
                    assert(rest[k - 1] == c);
                }
            }
        }
    } else if s.len() > 0 {
        assert(s[0] == c);
    }
}

/// A position with no `c` before it that is at a `c` or at the end is `find`.
pub proof fn lemma_find_is(s: Seq<char>, c: char, at: int)
    requires
        0 <= at <= s.len(),
        forall|i: int| 0 <= i < at ==> s[i] != c,
        at < s.len() ==> s[at] == c,
    ensures
        find(s, c) == at,
{
    lemma_find(s, c);
    if find(s, c) < at {
        assert(s[find(s, c)] == c);
    }
}

/// The first position at or after `from` that holds `c`, or the length of `chars`.
pub fn find_from(chars: &Vec<char>, from: usize, c: char) -> (r: usize)
    requires
        from <= chars@.len(),
    ensures
        from <= r <= chars@.len(),
        r - from == find(chars@.skip(from as int), c),
        forall|j: int| from <= j < r ==> chars@[j] != c,
        r < chars@.len() ==> chars@[r as int] == c,
{
    let ghost rest = chars@.skip(from as int);
    let mut i: usize = from;
    while i < chars.len() && chars[i] != c
        invariant
            from <= i <= chars@.len(),
            forall|j: int| from <= j < i ==> chars@[j] != c,
        decreases chars@.len() - i,
    {
        i += 1;
    }
    proof {
        lemma_find_is(rest, c, i - from);
    }
    i
}

// ---------------------------------------------------------------------------
// Replacing.
// ---------------------------------------------------------------------------

/// `s` with every occurrence of `from`, found from the left and without overlap,
/// replaced by `to`.
pub open spec fn replace(s: Seq<char>, from: Seq<char>, to: Seq<char>) -> Seq<char>
    decreases s.len(),
{
    if s.len() == 0 {
        Seq::empty()
    } else if from.len() > 0 && starts_with(s, from) {
        to + replace(s.skip(from.len() as int), from, to)
    } else {
        seq![s[0]] + replace(s.drop_first(), from, to)
    }
}

/// Replaces every occurrence of the non-empty `from` by `to`.
pub fn replace_text(text: &str, from: &str, to: &str) -> (r: String)
    requires
        from@.len() > 0,
    ensures
        r@ == replace(text@, from@, to@),
{
    let chars: Vec<char> = chars_of(text);
    let pattern: Vec<char> = chars_of(from);
    let mut out: String = String::new();
    let mut i: usize = 0;
    assert(chars@.skip(0) =~= chars@);
    assert(out@ + replace(chars@, from@, to@) =~= replace(chars@, from@, to@));
    while i < chars.len()
        invariant
            i <= chars@.len(),
            pattern@ == from@,
            from@.len() > 0,
            out@ + replace(chars@.skip(i as int), from@, to@) == replace(chars@, from@, to@),
        decreases chars@.len() - i,
    {
        let ghost rest = chars@.skip(i as int);
        let ghost done = out@;
        if stands_at(&chars, i, &pattern) {
            out.append(to);
            assert(rest.skip(from@.len() as int) =~= chars@.skip(i + from@.len()));
            assert(done + (to@ + replace(chars@.skip(i + from@.len()), from@, to@))
                =~= out@ + replace(chars@.skip(i + from@.len()), from@, to@));
            i += pattern.len();
        } else {
            out.push(chars[i]);
            assert(rest.drop_first() =~= chars@.skip(i + 1));
            assert(rest[0] == chars@[i as int]);
            assert(done + (seq![rest[0]] + replace(chars@.skip(i + 1), from@, to@))
                =~= out@ + replace(chars@.skip(i + 1), from@, to@));
            i += 1;
        }
    }
    assert(chars@.skip(i as int) =~= Seq::empty());
    assert(out@ + Seq::<char>::empty() =~= out@);
    out
}

// ---------------------------------------------------------------------------
// Trimming.
// ---------------------------------------------------------------------------

/// The characters with Unicode's `White_Space` property.
pub open spec fn is_space(c: char) -> bool {
    ||| 0x09 <= c as u32 <= 0x0d
    ||| c as u32 == 0x20
    ||| c as u32 == 0x85
    ||| c as u32 == 0xa0
    ||| c as u32 == 0x1680
    ||| 0x2000 <= c as u32 <= 0x200a
    ||| c as u32 == 0x2028
    ||| c as u32 == 0x2029
    ||| c as u32 == 0x202f
    ||| c as u32 == 0x205f
    ||| c as u32 == 0x3000
}

/// Whether `c` is white space.
pub fn space(c: char) -> (r: bool)
    ensures
        r == is_space(c),
{
    let u: u32 = c as u32;
    (0x09 <= u && u <= 0x0d) || u == 0x20 || u == 0x85 || u == 0xa0 || u == 0x1680 || (0x2000 <= u
        && u <= 0x200a) || u == 0x2028 || u == 0x2029 || u == 0x202f || u == 0x205f || u == 0x3000
}

/// `s` without the white space at its front.
pub open spec fn trim_start(s: Seq<char>) -> Seq<char>
    decreases s.len(),
{
    if s.len() > 0 && is_space(s[0]) {
        trim_start(s.drop_first())
    } else {
        s
    }
}

/// `s` without the white space at its back.
pub open spec fn trim_end(s: Seq<char>) -> Seq<char>
    decreases s.len(),
{
    if s.len() > 0 && is_space(s.last()) {
        trim_end(s.drop_last())
    } else {
        s
    }
}

/// `s` without the white space at both ends.
pub open spec fn trim(s: Seq<char>) -> Seq<char> {
    trim_end(trim_start(s))
}

/// The characters of `text` without the white space at both ends.
pub fn trimmed(text: &str) -> (r: Vec<char>)
    ensures
        r@ == trim(text@),
{
    let chars: Vec<char> = chars_of(text);
    let mut from: usize = 0;
    assert(chars@.skip(0) =~= chars@);
    while from < chars.len() && space(chars[from])
        invariant
            from <= chars@.len(),
            trim_start(chars@.skip(from as int)) == trim_start(chars@),
        decreases chars@.len() - from,
    {
        assert(chars@.skip(from as int).drop_first() =~= chars@.skip(from + 1));
        from += 1;
    }
    let mut to: usize = chars.len();
    assert(trim_start(chars@) == chars@.skip(from as int));
    assert(chars@.subrange(from as int, to as int) =~= chars@.skip(from as int));
    while from < to && space(chars[to - 1])
        invariant
            from <= to <= chars@.len(),
            trim_end(chars@.subrange(from as int, to as int)) == trim(chars@),
        decreases to - from,
    {
        assert(chars@.subrange(from as int, to as int).drop_last() =~= chars@.subrange(
            from as int,
            to - 1,
        ));
        to -= 1;
    }
    let mut r: Vec<char> = Vec::new();
    let mut i: usize = from;
    while i < to
        invariant
            from <= i <= to <= chars@.len(),
            r@ == chars@.subrange(from as int, i as int),
        decreases to - i,
    {
        r.push(chars[i]);
        i += 1;
        assert(r@ =~= chars@.subrange(from as int, i as int));
    }
    r
}

/// Whether `s` holds nothing but white space.
pub open spec fn is_blank(s: Seq<char>) -> bool {
    forall|i: int| 0 <= i < s.len() ==> is_space(#[trigger] s[i])
}

/// Whether `text` holds nothing but white space.
pub fn blank(text: &str) -> (r: bool)
    ensures
        r == is_blank(text@),
{
    let chars: Vec<char> = chars_of(text);
    let mut i: usize = 0;
    while i < chars.len()
        invariant
            i <= chars@.len(),
            chars@ == text@,
            forall|j: int| 0 <= j < i ==> is_space(#[trigger] chars@[j]),
        decreases chars@.len() - i,
    {
        if !space(chars[i]) {
            return false;
        }
        i += 1;
    }
    true
}

/// `s` without the copies of `prefix` that it begins with.
pub open spec fn strip_prefixes(s: Seq<char>, prefix: Seq<char>) -> Seq<char>
    decreases s.len(),
{
    if prefix.len() > 0 && starts_with(s, prefix) {
        strip_prefixes(s.skip(prefix.len() as int), prefix)
    } else {
        s
    }
}

/// The position in `chars`, at or after `from`, behind the copies of the non-empty
/// `prefix` that stand there.
pub fn skip_prefixes(chars: &Vec<char>, from: usize, prefix: &str) -> (r: usize)
    requires
        from <= chars@.len(),
        prefix@.len() > 0,
    ensures
        from <= r <= chars@.len(),
        chars@.skip(r as int) == strip_prefixes(chars@.skip(from as int), prefix@),
{
    let pattern: Vec<char> = chars_of(prefix);
    let mut i: usize = from;
    while stands_at(chars, i, &pattern)
        invariant
            from <= i <= chars@.len(),
            pattern@ == prefix@,
            prefix@.len() > 0,
            strip_prefixes(chars@.skip(i as int), prefix@) == strip_prefixes(
                chars@.skip(from as int),
                prefix@,
            ),
        decreases chars@.len() - i,
    {
        assert(chars@.skip(i as int).skip(prefix@.len() as int) =~= chars@.skip(i + prefix@.len()));
        assert(i + pattern.len() <= chars.len());
        i += pattern.len();
    }
    i
}

/// `s` without the copies of `c` that it ends with.
pub open spec fn strip_trailing(s: Seq<char>, c: char) -> Seq<char>
    decreases s.len(),
{
    if s.len() > 0 && s.last() == c {
        strip_trailing(s.drop_last(), c)
    } else {
        s
    }
}

// ---------------------------------------------------------------------------
// Splitting and joining.
// ---------------------------------------------------------------------------

/// The parts of `s` between its `c`s, in order; always at least one part.
pub open spec fn split(s: Seq<char>, c: char) -> Seq<Seq<char>>
    decreases s.len(),
{
    proof {
        lemma_find(s, c);
    }
    if find(s, c) < s.len() {
        seq![before(s, c)] + split(after(s, c), c)
    } else {
        seq![s]
    }
}

/// Splits `text` at every `c`.
pub fn split_text(text: &str, c: char) -> (r: Vec<String>)
    ensures
        texts(r@) == split(text@, c),
{
    let chars: Vec<char> = chars_of(text);
    let mut r: Vec<String> = Vec::new();
    let mut from: usize = 0;
    assert(chars@.skip(0) =~= chars@);
    assert(texts(r@) + split(chars@, c) =~= split(chars@, c));
    loop
        invariant
            from <= chars@.len(),
            chars@ == text@,
            texts(r@) + split(chars@.skip(from as int), c) == split(text@, c),
        decreases chars@.len() - from,
    {
        let ghost rest = chars@.skip(from as int);
        let ghost done = texts(r@);
        let to: usize = find_from(&chars, from, c);
        let part: String = text_of(&chars, from, to);
        r.push(part);
        assert(texts(r@) =~= done.push(part@));
        if to == chars.len() {
            assert(part@ =~= rest);
            assert(texts(r@) =~= done + seq![rest]);
            return r;
        }
        assert(part@ =~= before(rest, c));
        assert(after(rest, c) =~= chars@.skip(to + 1));
        assert(done + (seq![part@] + split(after(rest, c), c)) =~= texts(r@) + split(
            after(rest, c),
            c,
        ));
        from = to + 1;
    }
}

/// Text without `c` is one part; text with a `c` splits there.
pub proof fn lemma_split(a: Seq<char>, b: Seq<char>, c: char)
    requires
        !a.contains(c),
    ensures
        split(a, c) == seq![a],
        split(a + seq![c] + b, c) == seq![a] + split(b, c),
{
    lemma_find(a, c);
    let s = a + seq![c] + b;
    assert(s[a.len() as int] == c);
    assert forall|i: int| 0 <= i < a.len() implies s[i] != c by {
        assert(s[i] == a[i]);
    }
    lemma_find_is(s, c, a.len() as int);
    assert(before(s, c) =~= a);
    assert(after(s, c) =~= b);
}

/// The parts one after the other, with `sep` between any two neighbours.
pub open spec fn join(parts: Seq<Seq<char>>, sep: Seq<char>) -> Seq<char>
    decreases parts.len(),
{
    if parts.len() == 0 {
        Seq::empty()
    } else if parts.len() == 1 {
        parts[0]
    } else {
        join(parts.drop_last(), sep) + sep + parts.last()
    }
}

/// Joins `parts` with `sep` between them.
pub fn join_texts(parts: &Vec<String>, sep: &str) -> (r: String)
    ensures
        r@ == join(texts(parts@), sep@),
{
    let mut r: String = String::new();
    let mut i: usize = 0;
    let ghost all = texts(parts@);
    while i < parts.len()
        invariant
            i <= parts@.len(),
            all == texts(parts@),
            r@ == join(all.take(i as int), sep@),
        decreases parts@.len() - i,
    {
        if i > 0 {
            r.append(sep);
        }
        r.append(parts[i].as_str());
        assert(all.take(i + 1).drop_last() =~= all.take(i as int));
        assert(all.take(i + 1).last() == parts@[i as int]@);
        if i == 0 {
            assert(r@ =~= parts@[0]@);
        }
        i += 1;
    }
    assert(all.take(i as int) =~= all);
    r
}

// ---------------------------------------------------------------------------
// Laws.
// ---------------------------------------------------------------------------

/// A text is what stands before the first `c`, that `c`, and what stands behind it; where it
/// holds none, all of it stands before.
pub proof fn law_before_and_after_make_up_the_text(s: Seq<char>, c: char)
    ensures
        !before(s, c).contains(c),
        s.contains(c) ==> s == before(s, c) + seq![c] + after(s, c),
        !s.contains(c) ==> before(s, c) == s && after(s, c) == Seq::<char>::empty(),
{
    lemma_find(s, c);
    let head = before(s, c);
    assert forall|i: int| 0 <= i < head.len() implies head[i] != c by {
        assert(head[i] == s[i]);
    }
    if s.contains(c) {
        assert(s =~= head + seq![c] + after(s, c));
    } else {
        assert(head =~= s);
    }
}

/// Where a text is divided by a `c` with none before it, these are the parts.
pub proof fn law_first_division(a: Seq<char>, b: Seq<char>, c: char)
    requires
        !a.contains(c),
    ensures
        before(a + seq![c] + b, c) == a,
        after(a + seq![c] + b, c) == b,
{
    let s = a + seq![c] + b;
    assert forall|i: int| 0 <= i < a.len() implies s[i] != c by {
        assert(s[i] == a[i]);
    }
    assert(s[a.len() as int] == c);
    lemma_find_is(s, c, a.len() as int);
    assert(before(s, c) =~= a);
    assert(after(s, c) =~= b);
}

/// A text starts with exactly the texts that something can be put behind to give it.
pub proof fn law_starting_with(s: Seq<char>, prefix: Seq<char>, rest: Seq<char>)
    ensures
        starts_with(prefix + rest, prefix),
        starts_with(s, prefix) ==> s == prefix + s.skip(prefix.len() as int),
{
    assert((prefix + rest).take(prefix.len() as int) =~= prefix);
    if starts_with(s, prefix) {
        assert(s =~= s.take(prefix.len() as int) + s.skip(prefix.len() as int));
    }
}

/// Joining one more part adds it behind a separator; the first one is joined as it is.
pub proof fn law_joining_one_more(parts: Seq<Seq<char>>, part: Seq<char>, sep: Seq<char>)
    ensures
        join(Seq::empty(), sep) == Seq::<char>::empty(),
        join(seq![part], sep) == part,
        parts.len() > 0 ==> join(parts.push(part), sep) == join(parts, sep) + sep + part,
        join(parts.push(part), Seq::empty()) == join(parts, Seq::empty()) + part,
{
    assert(parts.push(part).drop_last() =~= parts);
    if parts.len() == 0 {
        assert(parts.push(part)[0] == part);
        assert(join(parts, Seq::empty()) + part =~= part);
    } else {
        assert(join(parts, Seq::empty()) + Seq::empty() + part =~= join(parts, Seq::empty())
            + part);
    }
}

proof fn lemma_join_first(part: Seq<char>, parts: Seq<Seq<char>>, sep: Seq<char>)
    requires
        parts.len() > 0,
    ensures
        join(seq![part] + parts, sep) == part + sep + join(parts, sep),
    decreases parts.len(),
{
    let all = seq![part] + parts;
    if parts.len() == 1 {
        assert(all =~= seq![part].push(parts[0]));
        law_joining_one_more(seq![part], parts[0], sep);
        law_joining_one_more(seq![part], part, sep);
    } else {
        let init = parts.drop_last();
        lemma_join_first(part, init, sep);
        assert(all.drop_last() =~= seq![part] + init);
        assert(all.last() == parts.last());
        assert(part + sep + join(init, sep) + sep + parts.last() =~= part + sep + (join(init, sep)
            + sep + parts.last()));
    }
}

/// Splitting divides a text at every `c` and nowhere else: no part holds one, and joined by
/// `c` the parts give the text again.
pub proof fn law_splitting_is_undone_by_joining(s: Seq<char>, c: char)
    ensures
        split(s, c).len() > 0,
        forall|i: int| 0 <= i < split(s, c).len() ==> !(#[trigger] split(s, c)[i]).contains(c),
        join(split(s, c), seq![c]) == s,
    decreases s.len(),
{
    lemma_find(s, c);
    law_before_and_after_make_up_the_text(s, c);
    if find(s, c) < s.len() {
        let tail = after(s, c);
        law_splitting_is_undone_by_joining(tail, c);
        lemma_join_first(before(s, c), split(tail, c), seq![c]);
        assert forall|i: int| 0 <= i < split(s, c).len() implies !(#[trigger] split(
            s,
            c,
        )[i]).contains(c) by {
            if i > 0 {
                assert(split(s, c)[i] == split(tail, c)[i - 1]);
            } else {
                assert(split(s, c)[0] == before(s, c));
            }
        }
    } else {
        law_joining_one_more(Seq::empty(), s, seq![c]);
    }
}

/// Whether `pattern` stands at `i` in `s`.
pub open spec fn occurs_at(s: Seq<char>, pattern: Seq<char>, i: int) -> bool {
    0 <= i <= s.len() - pattern.len() && s.subrange(i, i + pattern.len()) == pattern
}

/// A text without the pattern is left as it is.
pub proof fn law_nothing_to_replace(s: Seq<char>, from: Seq<char>, to: Seq<char>)
    requires
        forall|i: int| !#[trigger] occurs_at(s, from, i),
    ensures
        replace(s, from, to) == s,
    decreases s.len(),
{
    if s.len() > 0 {
        let rest = s.drop_first();
        assert(!occurs_at(s, from, 0));
        if starts_with(s, from) {
            assert(s.take(from.len() as int) =~= s.subrange(0, from.len() as int));
        }
        assert forall|i: int| !#[trigger] occurs_at(rest, from, i) by {
            if occurs_at(rest, from, i) {
                assert(rest.subrange(i, i + from.len()) =~= s.subrange(i + 1, i + 1 + from.len()));
                assert(occurs_at(s, from, i + 1));
            }
        }
        law_nothing_to_replace(rest, from, to);
        assert(seq![s[0]] + rest =~= s);
    }
}

/// The first occurrence of the pattern is replaced, what stands before it is left as it is,
/// and the search goes on behind it.
pub proof fn law_first_occurrence_is_replaced(
    a: Seq<char>,
    b: Seq<char>,
    from: Seq<char>,
    to: Seq<char>,
)
    requires
        from.len() > 0,
        forall|i: int| 0 <= i < a.len() ==> !#[trigger] occurs_at(a + from + b, from, i),
    ensures
        replace(a + from + b, from, to) == a + to + replace(b, from, to),
    decreases a.len(),
{
    let s = a + from + b;
    if a.len() == 0 {
        assert(s.take(from.len() as int) =~= from);
        assert(s.skip(from.len() as int) =~= b);
        assert(a + to =~= to);
    } else {
        let more = a.drop_first();
        let rest = more + from + b;
        assert(s.drop_first() =~= rest);
        assert(!occurs_at(s, from, 0));
        if starts_with(s, from) {
            assert(s.take(from.len() as int) =~= s.subrange(0, from.len() as int));
        }
        assert forall|i: int| 0 <= i < more.len() implies !#[trigger] occurs_at(rest, from, i) by {
            if occurs_at(rest, from, i) {
                assert(rest.subrange(i, i + from.len()) =~= s.subrange(i + 1, i + 1 + from.len()));
                assert(occurs_at(s, from, i + 1));
            }
        }
        law_first_occurrence_is_replaced(more, b, from, to);
        assert(seq![s[0]] + (more + to + replace(b, from, to)) =~= a + to + replace(b, from, to));
    }
}

/// These characters and no others are white space.
pub proof fn law_white_space(ch: char)
    ensures
        is_space(ch) <==> (('\t' <= ch && ch <= '\r') || ch == ' ' || ch == '\u{85}' || ch
            == '\u{a0}' || ch == '\u{1680}' || ('\u{2000}' <= ch && ch <= '\u{200a}') || ch
            == '\u{2028}' || ch == '\u{2029}' || ch == '\u{202f}' || ch == '\u{205f}' || ch
            == '\u{3000}'),
{
}

proof fn lemma_trim_start(s: Seq<char>) -> (lead: Seq<char>)
    ensures
        is_blank(lead),
        s == lead + trim_start(s),
        trim_start(s).len() > 0 ==> !is_space(trim_start(s)[0]),
    decreases s.len(),
{
    if s.len() > 0 && is_space(s[0]) {
        let more = lemma_trim_start(s.drop_first());
        let lead = seq![s[0]] + more;
        assert(s =~= seq![s[0]] + s.drop_first());
        assert(s =~= lead + trim_start(s));
        lead
    } else {
        assert(s =~= Seq::empty() + s);
        Seq::empty()
    }
}

proof fn lemma_trim_end(s: Seq<char>) -> (trail: Seq<char>)
    ensures
        is_blank(trail),
        s == trim_end(s) + trail,
        trim_end(s).len() > 0 ==> !is_space(trim_end(s).last()) && trim_end(s)[0] == s[0],
    decreases s.len(),
{
    if s.len() > 0 && is_space(s.last()) {
        let more = lemma_trim_end(s.drop_last());
        let trail = more.push(s.last());
        assert(s =~= s.drop_last().push(s.last()));
        assert(s =~= trim_end(s) + trail);
        trail
    } else {
        assert(s =~= s + Seq::empty());
        Seq::empty()
    }
}

/// Trimming takes nothing but white space off the two ends, and leaves none there.
pub proof fn law_trimming(s: Seq<char>)
    ensures
        exists|lead: Seq<char>, trail: Seq<char>|
            is_blank(lead) && is_blank(trail) && s == #[trigger] (lead + trim(s) + trail),
        trim(s).len() > 0 ==> !is_space(trim(s)[0]) && !is_space(trim(s).last()),
        is_blank(s) <==> trim(s).len() == 0,
{
    let lead = lemma_trim_start(s);
    let t = trim_start(s);
    let trail = lemma_trim_end(t);
    assert(s =~= lead + trim(s) + trail);
    if trim(s).len() == 0 {
        assert forall|i: int| 0 <= i < s.len() implies is_space(#[trigger] s[i]) by {
            if i < lead.len() {
                assert(s[i] == lead[i]);
            } else {
                assert(s[i] == trail[i - lead.len()]);
            }
        }
    } else {
        assert(s[lead.len() as int] == trim(s)[0]);
    }
}

/// `unit`, `n` times over.
pub open spec fn repeated(unit: Seq<char>, n: nat) -> Seq<char>
    decreases n,
{
    if n == 0 {
        Seq::empty()
    } else {
        unit + repeated(unit, (n - 1) as nat)
    }
}

/// Stripping takes the prefix off as often as it stands at the start, and nothing else.
pub proof fn law_stripping_prefixes(s: Seq<char>, prefix: Seq<char>)
    requires
        prefix.len() > 0,
    ensures
        !starts_with(strip_prefixes(s, prefix), prefix),
        exists|n: nat| s == #[trigger] repeated(prefix, n) + strip_prefixes(s, prefix),
    decreases s.len(),
{
    if starts_with(s, prefix) {
        let rest = s.skip(prefix.len() as int);
        law_stripping_prefixes(rest, prefix);
        let n = choose|n: nat| rest == #[trigger] repeated(prefix, n) + strip_prefixes(rest, prefix);
        law_starting_with(s, prefix, rest);
        assert(s =~= repeated(prefix, n + 1) + strip_prefixes(s, prefix));
    } else {
        assert(s =~= repeated(prefix, 0) + s);
    }
}

/// Stripping takes every `c` off the end, and nothing else.
pub proof fn law_stripping_the_end(s: Seq<char>, c: char)
    ensures
        strip_trailing(s, c).len() > 0 ==> strip_trailing(s, c).last() != c,
        strip_trailing(s, c).len() <= s.len(),
        s.take(strip_trailing(s, c).len() as int) == strip_trailing(s, c),
        forall|i: int| strip_trailing(s, c).len() <= i < s.len() ==> #[trigger] s[i] == c,
    decreases s.len(),
{
    if s.len() > 0 && s.last() == c {
        let init = s.drop_last();
        law_stripping_the_end(init, c);
        assert(s.take(strip_trailing(s, c).len() as int) =~= init.take(
            strip_trailing(s, c).len() as int,
        ));
        assert forall|i: int| strip_trailing(s, c).len() <= i < s.len() implies #[trigger] s[i]
            == c by {
            if i < init.len() {
                assert(init[i] == s[i]);
            }
        }
    } else {
        assert(s.take(s.len() as int) =~= s);
    }
}

} // verus!
