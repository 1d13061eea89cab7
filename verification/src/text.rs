//! Text as sequences of characters: trimming, splitting, case folding,
//! comparison, decimal numbers, quoting and concatenation.

use vstd::prelude::*;
use vstd::string::{StrSliceExecFns, StringExecFns};

verus! {

/// `String::push` appends one character to the end of the string.
pub assume_specification[ String::push ](s: &mut String, c: char)
    ensures
        final(s)@ == old(s)@.push(c),
;

// ---------------------------------------------------------------- characters

/// The characters with the Unicode property White_Space.
pub open spec fn is_white_space(c: char) -> bool {
    let n = c as u32;
    ||| 0x9 <= n <= 0xd
    ||| n == 0x20
    ||| n == 0x85
    ||| n == 0xa0
    ||| n == 0x1680
    ||| 0x2000 <= n <= 0x200a
    ||| n == 0x2028
    ||| n == 0x2029
    ||| n == 0x202f
    ||| n == 0x205f
    ||| n == 0x3000
}

/// Whether `c` is white space.
pub fn white_space(c: char) -> (r: bool)
    ensures
        r == is_white_space(c),
{
    let n: u32 = c as u32;
    (0x9 <= n && n <= 0xd) || n == 0x20 || n == 0x85 || n == 0xa0 || n == 0x1680 || (0x2000 <= n
        && n <= 0x200a) || n == 0x2028 || n == 0x2029 || n == 0x202f || n == 0x205f || n == 0x3000
}

/// The control characters (Unicode general category Cc).
pub open spec fn is_control(c: char) -> bool {
    let n = c as u32;
    n <= 0x1f || 0x7f <= n <= 0x9f
}

/// Whether `c` is a control character.
pub fn control(c: char) -> (r: bool)
    ensures
        r == is_control(c),
{
    let n: u32 = c as u32;
    n <= 0x1f || (0x7f <= n && n <= 0x9f)
}

/// `c` with an ASCII capital turned into its small letter.
pub open spec fn lower_char(c: char) -> char {
    if 'A' <= c <= 'Z' {
        ((c as u8 + 32) as u8) as char
    } else {
        c
    }
}

/// `c` with an ASCII small letter turned into its capital.
pub open spec fn upper_char(c: char) -> char {
    if 'a' <= c <= 'z' {
        ((c as u8 - 32) as u8) as char
    } else {
        c
    }
}

/// A text with its ASCII capitals turned into small letters.
pub open spec fn lowered(s: Seq<char>) -> Seq<char> {
    s.map_values(|c: char| lower_char(c))
}

/// A text with its ASCII small letters turned into capitals.
pub open spec fn uppered(s: Seq<char>) -> Seq<char> {
    s.map_values(|c: char| upper_char(c))
}

fn lower(c: char) -> (r: char)
    ensures
        r == lower_char(c),
{
    if 'A' <= c && c <= 'Z' {
        (c as u8 + 32) as char
    } else {
        c
    }
}

fn upper(c: char) -> (r: char)
    ensures
        r == upper_char(c),
{
    if 'a' <= c && c <= 'z' {
        (c as u8 - 32) as char
    } else {
        c
    }
}

// ---------------------------------------------------------------- views

/// What a reference to a text stands for.
pub open spec fn opt_str_view(v: Option<&str>) -> Option<Seq<char>> {
    match v {
        Some(s) => Some(s@),
        None => None,
    }
}

/// What a text that may be missing stands for.
pub open spec fn opt_string_view(v: Option<String>) -> Option<Seq<char>> {
    match v {
        Some(s) => Some(s@),
        None => None,
    }
}

/// What a text or a message stands for.
pub open spec fn res_str_view(r: Result<&str, String>) -> Result<Seq<char>, Seq<char>> {
    match r {
        Ok(s) => Ok(s@),
        Err(message) => Err(message@),
    }
}

/// What a text or a message stands for.
pub open spec fn res_string_view(r: Result<String, String>) -> Result<Seq<char>, Seq<char>> {
    match r {
        Ok(s) => Ok(s@),
        Err(message) => Err(message@),
    }
}

/// What a success or a message stands for.
pub open spec fn res_unit_view(r: Result<(), String>) -> Result<(), Seq<char>> {
    match r {
        Ok(_) => Ok(()),
        Err(message) => Err(message@),
    }
}

// ---------------------------------------------------------------- building

/// The characters of a text.
pub fn chars_of(s: &str) -> (r: Vec<char>)
    ensures
        r@ == s@,
{
    let mut out: Vec<char> = Vec::new();
    for c in it: s.chars()
        invariant
            it.seq() == s@,
            out@ == s@.take(it.index() as int),
    {
        out.push(c);
    }
    assert(s@.take(s@.len() as int) == s@);
    out
}

/// The text `a` followed by `b`.
pub fn cat2(a: &str, b: &str) -> (r: String)
    ensures
        r@ == a@ + b@,
{
    let mut out = a.to_string();
    out.append(b);
    out
}

/// The texts `a`, `b` and `c`, one after the other.
pub fn cat3(a: &str, b: &str, c: &str) -> (r: String)
    ensures
        r@ == a@ + b@ + c@,
{
    let mut out = a.to_string();
    out.append(b);
    out.append(c);
    out
}

/// The texts `a`, `b`, `c` and `d`, one after the other.
pub fn cat4(a: &str, b: &str, c: &str, d: &str) -> (r: String)
    ensures
        r@ == a@ + b@ + c@ + d@,
{
    let mut out = cat3(a, b, c);
    out.append(d);
    out
}

/// The texts `a`, `b`, `c`, `d` and `e`, one after the other.
pub fn cat5(a: &str, b: &str, c: &str, d: &str, e: &str) -> (r: String)
    ensures
        r@ == a@ + b@ + c@ + d@ + e@,
{
    let mut out = cat4(a, b, c, d);
    out.append(e);
    out
}

// ---------------------------------------------------------------- comparison

/// Whether two texts are equal.
pub fn same_text(a: &str, b: &str) -> (r: bool)
    ensures
        r == (a@ == b@),
{
    a.to_string() == b.to_string()
}

/// `s` with its ASCII capitals turned into small letters.
pub fn ascii_lower(s: &str) -> (r: String)
    ensures
        r@ == lowered(s@),
{
    let chars = chars_of(s);
    let mut out = String::new();
    for i in 0..chars.len()
        invariant
            out@.len() == i,
            forall|k: int| 0 <= k < i ==> out@[k] == lower_char(chars@[k]),
    {
        out.push(lower(chars[i]));
    }
    assert(out@ =~= lowered(s@));
    out
}

/// `s` with its ASCII small letters turned into capitals.
pub fn ascii_upper(s: &str) -> (r: String)
    ensures
        r@ == uppered(s@),
{
    let chars = chars_of(s);
    let mut out = String::new();
    for i in 0..chars.len()
        invariant
            out@.len() == i,
            forall|k: int| 0 <= k < i ==> out@[k] == upper_char(chars@[k]),
    {
        out.push(upper(chars[i]));
    }
    assert(out@ =~= uppered(s@));
    out
}

/// Whether two texts are equal but for the case of ASCII letters.
pub fn same_ignoring_case(a: &str, b: &str) -> (r: bool)
    ensures
        r == (lowered(a@) == lowered(b@)),
{
    ascii_lower(a) == ascii_lower(b)
}

/// Whether `s` begins with `prefix`.
pub open spec fn begins_with(s: Seq<char>, prefix: Seq<char>) -> bool {
    prefix.len() <= s.len() && s.take(prefix.len() as int) == prefix
}

/// Whether `s` ends with `suffix`.
pub open spec fn finishes_with(s: Seq<char>, suffix: Seq<char>) -> bool {
    suffix.len() <= s.len() && s.skip(s.len() - suffix.len()) == suffix
}

/// Whether `s` begins with `prefix`.
pub fn starts_with(s: &str, prefix: &str) -> (r: bool)
    ensures
        r == begins_with(s@, prefix@),
{
    let n = prefix.unicode_len();
    if s.unicode_len() < n {
        return false;
    }
    same_text(s.substring_char(0, n), prefix)
}

/// Whether `s` ends with `suffix`.
pub fn ends_with(s: &str, suffix: &str) -> (r: bool)
    ensures
        r == finishes_with(s@, suffix@),
{
    let n = suffix.unicode_len();
    let len = s.unicode_len();
    if len < n {
        return false;
    }
    same_text(s.substring_char(len - n, len), suffix)
}

/// Whether `a` comes before `b` in the dictionary order of their characters.
pub open spec fn text_before(a: Seq<char>, b: Seq<char>) -> bool
    decreases a.len(),
{
    if b.len() == 0 {
        false
    } else if a.len() == 0 {
        true
    } else if a[0] != b[0] {
        a[0] < b[0]
    } else {
        text_before(a.drop_first(), b.drop_first())
    }
}

/// Whether `a` comes before `b` in the dictionary order of their characters.
pub fn before(a: &str, b: &str) -> (r: bool)
    ensures
        r == text_before(a@, b@),
{
    let x = chars_of(a);
    let y = chars_of(b);
    let mut i: usize = 0;
    assert(a@.skip(0) =~= a@);
    assert(b@.skip(0) =~= b@);
    while i < x.len() && i < y.len() && x[i] == y[i]
        invariant
            i <= x@.len(),
            i <= y@.len(),
            x@ == a@,
            y@ == b@,
            text_before(a@, b@) == text_before(a@.skip(i as int), b@.skip(i as int)),
        decreases x@.len() - i,
    {
        assert(a@.skip(i as int).drop_first() =~= a@.skip(i + 1));
        assert(b@.skip(i as int).drop_first() =~= b@.skip(i + 1));
        i = i + 1;
    }
    if i >= y.len() {
        false
    } else if i >= x.len() {
        true
    } else {
        x[i] < y[i]
    }
}

/// The dictionary order puts no text before itself.
pub proof fn lemma_before_irreflexive(a: Seq<char>)
    ensures
        !text_before(a, a),
    decreases a.len(),
{
    if a.len() > 0 {
        lemma_before_irreflexive(a.drop_first());
    }
}

/// The dictionary order is transitive.
pub proof fn lemma_before_transitive(a: Seq<char>, b: Seq<char>, c: Seq<char>)
    requires
        text_before(a, b),
        text_before(b, c),
    ensures
        text_before(a, c),
    decreases a.len(),
{
    if a.len() > 0 && a[0] == b[0] && b[0] == c[0] {
        lemma_before_transitive(a.drop_first(), b.drop_first(), c.drop_first());
    }
}

/// Of two different texts one comes before the other.
pub proof fn lemma_before_total(a: Seq<char>, b: Seq<char>)
    ensures
        a == b || text_before(a, b) || text_before(b, a),
    decreases a.len(),
{
    if a.len() > 0 && b.len() > 0 && a[0] == b[0] {
        lemma_before_total(a.drop_first(), b.drop_first());
        if a.drop_first() == b.drop_first() {
            assert(a =~= seq![a[0]] + a.drop_first());
            assert(b =~= seq![b[0]] + b.drop_first());
        }
    } else if a.len() == 0 && b.len() == 0 {
        assert(a =~= b);
    }
}

/// Whether `part` stands somewhere in `s`.
pub open spec fn mentions(s: Seq<char>, part: Seq<char>) -> bool {
    exists|i: int| 0 <= i <= s.len() - part.len() && #[trigger] s.subrange(i, i + part.len()) == part
}

/// A text stands in every concatenation of which it is a part.
pub proof fn lemma_mentions(a: Seq<char>, part: Seq<char>, b: Seq<char>)
    ensures
        mentions(a + part + b, part),
{
    let s = a + part + b;
    assert(s.subrange(a.len() as int, a.len() as int + part.len()) =~= part);
}

/// What stands in a text still stands in it when more text follows.
pub proof fn lemma_mentions_more(s: Seq<char>, part: Seq<char>, b: Seq<char>)
    requires
        mentions(s, part),
    ensures
        mentions(s + b, part),
{
    let i = choose|i: int|
        0 <= i <= s.len() - part.len() && #[trigger] s.subrange(i, i + part.len()) == part;
    assert((s + b).subrange(i, i + part.len()) =~= part);
}

/// What stands in a text still stands in it when it follows other text.
pub proof fn lemma_mentions_after(a: Seq<char>, s: Seq<char>, part: Seq<char>)
    requires
        mentions(s, part),
    ensures
        mentions(a + s, part),
{
    let i = choose|i: int|
        0 <= i <= s.len() - part.len() && #[trigger] s.subrange(i, i + part.len()) == part;
    let j = a.len() + i;
    assert((a + s).subrange(j, j + part.len()) =~= part);
}

/// What stands in a part of a text stands in the text.
pub proof fn lemma_mentions_within(s: Seq<char>, part: Seq<char>, inner: Seq<char>)
    requires
        mentions(s, part),
        mentions(part, inner),
    ensures
        mentions(s, inner),
{
    let i = choose|i: int|
        0 <= i <= s.len() - part.len() && #[trigger] s.subrange(i, i + part.len()) == part;
    let j = choose|j: int|
        0 <= j <= part.len() - inner.len() && #[trigger] part.subrange(j, j + inner.len()) == inner;
    let k = i + j;
    assert(s.subrange(k, k + inner.len()) =~= inner);
}

// ---------------------------------------------------------------- trimming

/// `s` without the white space at its start.
pub open spec fn trimmed_start(s: Seq<char>) -> Seq<char>
    decreases s.len(),
{
    if s.len() > 0 && is_white_space(s.first()) {
        trimmed_start(s.drop_first())
    } else {
        s
    }
}

/// `s` without the white space at its end.
pub open spec fn trimmed_end(s: Seq<char>) -> Seq<char>
    decreases s.len(),
{
    if s.len() > 0 && is_white_space(s.last()) {
        trimmed_end(s.drop_last())
    } else {
        s
    }
}

/// `s` without the white space around it.
pub open spec fn trimmed(s: Seq<char>) -> Seq<char> {
    trimmed_end(trimmed_start(s))
}

/// `s` without the white space around it.
pub fn trim(s: &str) -> (r: &str)
    ensures
        r@ == trimmed(s@),
{
    let chars = chars_of(s);
    let n = chars.len();
    let mut from: usize = 0;
    assert(s@.skip(0) =~= s@);
    while from < n && white_space(chars[from])
        invariant
            from <= n == chars@.len(),
            chars@ == s@,
            trimmed_start(s@) == trimmed_start(s@.skip(from as int)),
        decreases n - from,
    {
        assert(s@.skip(from as int).drop_first() =~= s@.skip(from + 1));
        from = from + 1;
    }
    let mut to: usize = n;
    assert(s@.subrange(from as int, n as int) =~= s@.skip(from as int));
    while from < to && white_space(chars[to - 1])
        invariant
            from <= to <= chars@.len(),
            chars@ == s@,
            trimmed(s@) == trimmed_end(s@.subrange(from as int, to as int)),
        decreases to - from,
    {
        assert(s@.subrange(from as int, to as int).drop_last() =~= s@.subrange(
            from as int,
            to - 1,
        ));
        to = to - 1;
    }
    s.substring_char(from, to)
}

/// `s` without the characters `c` at its end.
pub open spec fn without_end(s: Seq<char>, c: char) -> Seq<char>
    decreases s.len(),
{
    if s.len() > 0 && s.last() == c {
        without_end(s.drop_last(), c)
    } else {
        s
    }
}

/// `s` without the characters `c` at its end.
pub fn trim_end_char(s: &str, c: char) -> (r: &str)
    ensures
        r@ == without_end(s@, c),
{
    let chars = chars_of(s);
    let mut to: usize = chars.len();
    assert(s@.take(to as int) =~= s@);
    while 0 < to && chars[to - 1] == c
        invariant
            to <= chars@.len(),
            chars@ == s@,
            without_end(s@, c) == without_end(s@.take(to as int), c),
        decreases to,
    {
        assert(s@.take(to as int).drop_last() =~= s@.take(to - 1));
        to = to - 1;
    }
    assert(s@.subrange(0, to as int) =~= s@.take(to as int));
    s.substring_char(0, to)
}

/// What is left of a text after trimming neither begins nor ends with white space.
pub proof fn lemma_trimmed_edges(s: Seq<char>)
    ensures
        trimmed(s).len() > 0 ==> !is_white_space(trimmed(s).first()) && !is_white_space(
            trimmed(s).last(),
        ),
{
    lemma_trimmed_start_edge(s);
    lemma_trimmed_end_edge(trimmed_start(s));
}

proof fn lemma_trimmed_start_edge(s: Seq<char>)
    ensures
        trimmed_start(s).len() <= s.len(),
        trimmed_start(s) == s.skip(s.len() - trimmed_start(s).len()),
        forall|i: int|
            0 <= i < s.len() - trimmed_start(s).len() ==> is_white_space(#[trigger] s[i]),
        trimmed_start(s).len() > 0 ==> !is_white_space(trimmed_start(s).first()),
    decreases s.len(),
{
    if s.len() > 0 && is_white_space(s.first()) {
        let rest = s.drop_first();
        lemma_trimmed_start_edge(rest);
        assert(s.skip(s.len() - trimmed_start(s).len()) =~= rest.skip(
            rest.len() - trimmed_start(rest).len(),
        ));
        assert forall|i: int| 0 <= i < s.len() - trimmed_start(s).len() implies is_white_space(
            #[trigger] s[i],
        ) by {
            if i > 0 {
                assert(s[i] == rest[i - 1]);
            }
        }
    } else {
        assert(s.skip(0) =~= s);
    }
}

/// A text is white space, its trimmed form and white space again.
pub proof fn lemma_trimmed_within(s: Seq<char>)
    ensures
        trimmed(s).len() <= trimmed_start(s).len() <= s.len(),
        trimmed(s) == s.subrange(
            s.len() - trimmed_start(s).len(),
            s.len() - trimmed_start(s).len() + trimmed(s).len(),
        ),
        forall|i: int|
            0 <= i < s.len() - trimmed_start(s).len() ==> is_white_space(#[trigger] s[i]),
{
    lemma_trimmed_start_edge(s);
    lemma_trimmed_end_edge(trimmed_start(s));
    assert(trimmed(s) =~= s.subrange(
        s.len() - trimmed_start(s).len(),
        s.len() - trimmed_start(s).len() + trimmed(s).len(),
    ));
}

/// What stands behind some white space, up to a last character that is none, is
/// the trimmed form.
pub proof fn lemma_trimmed_is(s: Seq<char>, from: int)
    requires
        0 <= from < s.len(),
        forall|i: int| 0 <= i < from ==> is_white_space(#[trigger] s[i]),
        !is_white_space(s[from]),
        !is_white_space(s.last()),
    ensures
        trimmed_start(s) == s.skip(from),
        trimmed(s) == s.skip(from),
    decreases from,
{
    if from == 0 {
        assert(s.skip(0) =~= s);
    } else {
        let rest = s.drop_first();
        assert forall|i: int| 0 <= i < from - 1 implies is_white_space(#[trigger] rest[i]) by {
            assert(rest[i] == s[i + 1]);
        }
        assert(is_white_space(s[0]));
        lemma_trimmed_is(rest, from - 1);
        assert(rest.skip(from - 1) =~= s.skip(from));
    }
}

/// What is left of a text without the white space at its end is a beginning of it,
/// and does not end with white space.
pub proof fn lemma_trimmed_end_edge(s: Seq<char>)
    ensures
        trimmed_end(s).len() <= s.len(),
        trimmed_end(s) == s.take(trimmed_end(s).len() as int),
        trimmed_end(s).len() > 0 ==> !is_white_space(trimmed_end(s).last()),
    decreases s.len(),
{
    if s.len() > 0 && is_white_space(s.last()) {
        lemma_trimmed_end_edge(s.drop_last());
        assert(s.drop_last().take(trimmed_end(s).len() as int) =~= s.take(
            trimmed_end(s).len() as int,
        ));
    } else {
        assert(s.take(s.len() as int) =~= s);
    }
}

// ---------------------------------------------------------------- lists of texts

/// The characters of each text of a list.
pub open spec fn texts(list: Seq<String>) -> Seq<Seq<char>> {
    list.map_values(|s: String| s@)
}

/// The parts of `s` between the characters `sep`; there is always at least one.
pub open spec fn split(s: Seq<char>, sep: char) -> Seq<Seq<char>>
    decreases s.len(),
{
    if s.len() == 0 {
        seq![Seq::<char>::empty()]
    } else {
        let parts = split(s.drop_last(), sep);
        if s.last() == sep {
            parts.push(Seq::<char>::empty())
        } else {
            parts.drop_last().push(parts.last().push(s.last()))
        }
    }
}

/// The parts of a text between the characters `sep` hold characters of the text
/// other than `sep`.
pub proof fn lemma_split_parts(s: Seq<char>, sep: char)
    ensures
        split(s, sep).len() > 0,
        forall|i: int, k: int|
            0 <= i < split(s, sep).len() && 0 <= k < split(s, sep)[i].len() ==> #[trigger] split(
                s,
                sep,
            )[i][k] != sep && s.contains(split(s, sep)[i][k]),
    decreases s.len(),
{
    if s.len() > 0 {
        let shorter = s.drop_last();
        lemma_split_parts(shorter, sep);
        let before = split(shorter, sep);
        let parts = split(s, sep);
        assert forall|i: int, k: int| 0 <= i < parts.len() && 0 <= k < parts[i].len() implies
            #[trigger] parts[i][k] != sep && s.contains(parts[i][k]) by {
            if s.last() != sep && i == parts.len() - 1 && k == parts[i].len() - 1 {
                assert(parts[i][k] == s[s.len() - 1]);
            } else {
                assert(before[i][k] == parts[i][k]);
                let at = choose|at: int| 0 <= at < shorter.len() && shorter[at] == before[i][k];
                assert(s[at] == before[i][k]);
            }
        }
    }
}

/// A text without the character `sep` is one part.
pub proof fn lemma_split_one(s: Seq<char>, sep: char)
    requires
        !s.contains(sep),
    ensures
        split(s, sep) == seq![s],
    decreases s.len(),
{
    if s.len() > 0 {
        let shorter = s.drop_last();
        assert forall|i: int| 0 <= i < shorter.len() implies shorter[i] != sep by {
            assert(s[i] == shorter[i]);
            assert(s.contains(s[i]));
        }
        assert(s.contains(s.last())) by {
            assert(s[s.len() - 1] == s.last());
        }
        lemma_split_one(shorter, sep);
        assert(shorter.push(s.last()) =~= s);
        assert(split(s, sep) =~= seq![s]);
    } else {
        assert(s =~= Seq::empty());
    }
}

/// The parts of `s` between the characters `sep`, each trimmed, without the
/// empty ones.
pub open spec fn fields_of(s: Seq<char>, sep: char) -> Seq<Seq<char>> {
    kept_fields(split(s, sep))
}

/// Each part trimmed, without the ones that are then empty.
pub open spec fn kept_fields(parts: Seq<Seq<char>>) -> Seq<Seq<char>>
    decreases parts.len(),
{
    if parts.len() == 0 {
        Seq::empty()
    } else {
        let kept = kept_fields(parts.drop_last());
        if trimmed(parts.last()).len() == 0 {
            kept
        } else {
            kept.push(trimmed(parts.last()))
        }
    }
}

/// The parts of `s` between the characters `sep`.
pub fn split_text(s: &str, sep: char) -> (r: Vec<String>)
    ensures
        texts(r@) == split(s@, sep),
{
    let chars = chars_of(s);
    let mut out: Vec<String> = Vec::new();
    let mut part = String::new();
    assert(texts(out@).push(part@) =~= split(s@.take(0), sep));
    for i in 0..chars.len()
        invariant
            chars@ == s@,
            texts(out@).push(part@) == split(s@.take(i as int), sep),
    {
        let ghost parts = texts(out@).push(part@);
        assert(s@.take(i + 1).drop_last() =~= s@.take(i as int));
        if chars[i] == sep {
            out.push(part);
            part = String::new();
            assert(texts(out@) =~= parts);
        } else {
            part.push(chars[i]);
            assert(parts.drop_last() =~= texts(out@));
        }
        assert(texts(out@).push(part@) =~= split(s@.take(i + 1), sep));
    }
    assert(s@.take(s@.len() as int) =~= s@);
    let ghost parts = texts(out@).push(part@);
    out.push(part);
    assert(texts(out@) =~= parts);
    out
}

/// The parts of `s` between the characters `sep`, each trimmed, without the
/// empty ones.
pub fn fields(s: &str, sep: char) -> (r: Vec<String>)
    ensures
        texts(r@) == fields_of(s@, sep),
{
    let parts = split_text(s, sep);
    let ghost all = texts(parts@);
    let mut out: Vec<String> = Vec::new();
    assert(texts(out@) =~= kept_fields(all.take(0)));
    for i in 0..parts.len()
        invariant
            all == texts(parts@),
            texts(out@) == kept_fields(all.take(i as int)),
    {
        assert(all.take(i + 1).drop_last() =~= all.take(i as int));
        push_field(&mut out, parts[i].as_str());
    }
    assert(all.take(parts@.len() as int) =~= all);
    out
}

/// Appends the trimmed `part` unless nothing is left of it.
fn push_field(out: &mut Vec<String>, part: &str)
    ensures
        texts(final(out)@) == (if trimmed(part@).len() == 0 {
            texts(old(out)@)
        } else {
            texts(old(out)@).push(trimmed(part@))
        }),
{
    let kept = trim(part);
    if !kept.is_empty() {
        let ghost before = out@;
        out.push(kept.to_string());
        assert(texts(out@) =~= texts(before).push(trimmed(part@)));
    }
}

/// Whether the text `s` is on the list.
pub fn contains_text(list: &Vec<String>, s: &str) -> (r: bool)
    ensures
        r == texts(list@).contains(s@),
{
    let mut i: usize = 0;
    while i < list.len()
        invariant
            i <= list@.len(),
            forall|k: int| 0 <= k < i ==> (#[trigger] list@[k])@ != s@,
        decreases list@.len() - i,
    {
        if same_text(list[i].as_str(), s) {
            assert(texts(list@)[i as int] == s@);
            return true;
        }
        i = i + 1;
    }
    assert(!texts(list@).contains(s@)) by {
        assert forall|k: int| 0 <= k < texts(list@).len() implies texts(list@)[k] != s@ by {
            assert(list@[k]@ != s@);
        }
    }
    false
}

/// The texts of a list with `sep` between each two of them.
pub open spec fn joined(list: Seq<Seq<char>>, sep: Seq<char>) -> Seq<char>
    decreases list.len(),
{
    if list.len() == 0 {
        Seq::empty()
    } else if list.len() == 1 {
        list[0]
    } else {
        joined(list.drop_last(), sep) + sep + list.last()
    }
}

/// Every text of a list stands in the joined text.
pub proof fn lemma_mentions_joined(list: Seq<Seq<char>>, sep: Seq<char>, i: int)
    requires
        0 <= i < list.len(),
    ensures
        mentions(joined(list, sep), list[i]),
    decreases list.len(),
{
    let whole = joined(list, sep);
    if list.len() == 1 {
        lemma_mentions(Seq::empty(), list[i], Seq::empty());
        assert(Seq::<char>::empty() + list[i] + Seq::<char>::empty() =~= whole);
    } else {
        let start = joined(list.drop_last(), sep);
        if i == list.len() - 1 {
            lemma_mentions(start + sep, list[i], Seq::empty());
            assert(start + sep + list[i] + Seq::<char>::empty() =~= whole);
        } else {
            lemma_mentions_joined(list.drop_last(), sep, i);
            lemma_mentions_more(start, list[i], sep + list.last());
            assert(start + (sep + list.last()) =~= whole);
        }
    }
}

/// The texts of `list` with `sep` between each two of them.
pub fn join(list: &Vec<String>, sep: &str) -> (r: String)
    ensures
        r@ == joined(texts(list@), sep@),
{
    let mut out = String::new();
    let ghost all = texts(list@);
    assert(out@ =~= joined(all.take(0), sep@));
    for i in 0..list.len()
        invariant
            all == texts(list@),
            out@ == joined(all.take(i as int), sep@),
    {
        assert(all.take(i + 1).drop_last() =~= all.take(i as int));
        if i > 0 {
            out.append(sep);
        }
        out.append(list[i].as_str());
        assert(i == 0 ==> out@ =~= list@[0]@);
        assert(out@ =~= joined(all.take(i + 1), sep@));
    }
    assert(all.take(list@.len() as int) =~= all);
    out
}

// ---------------------------------------------------------------- numbers

/// The decimal digit for a number below ten.
pub open spec fn digit(n: int) -> char {
    ((48 + n) as u8) as char
}

/// A natural number in decimal.
pub open spec fn decimal_of(n: nat) -> Seq<char>
    decreases n,
{
    if n < 10 {
        seq![digit(n as int)]
    } else {
        decimal_of(n / 10).push(digit((n % 10) as int))
    }
}

/// An integer in decimal, with a minus sign in front where it is negative.
pub open spec fn signed_decimal_of(n: int) -> Seq<char> {
    if n < 0 {
        seq!['-'] + decimal_of((-n) as nat)
    } else {
        decimal_of(n as nat)
    }
}

/// `n` in decimal.
pub fn decimal(n: u64) -> (r: String)
    ensures
        r@ == decimal_of(n as nat),
    decreases n,
{
    let mut out = if n < 10 {
        String::new()
    } else {
        decimal(n / 10)
    };
    let d: u8 = (n % 10) as u8;
    out.push((48 + d) as char);
    assert(n < 10 ==> out@ =~= seq![digit(n as int)]);
    out
}

/// `n` in decimal, with a minus sign in front where it is negative.
pub fn signed_decimal(n: i64) -> (r: String)
    ensures
        r@ == signed_decimal_of(n as int),
{
    if n < 0 {
        let size: u64 = if n == i64::MIN {
            0x8000_0000_0000_0000
        } else {
            (-n) as u64
        };
        proof {
            reveal_strlit("-");
            assert("-"@ =~= seq!['-']);
        }
        cat2("-", decimal(size).as_str())
    } else {
        decimal(n as u64)
    }
}

/// No text yet.
pub open spec fn no_words() -> Seq<Seq<char>> {
    Seq::empty()
}

/// A list of texts under construction.
pub struct Words {
    list: Vec<String>,
}

impl View for Words {
    type V = Seq<Seq<char>>;

    closed spec fn view(&self) -> Seq<Seq<char>> {
        texts(self.list@)
    }
}

impl Words {
    /// No text yet.
    pub fn new() -> (r: Words)
        ensures
            r@ == no_words(),
    {
        let r = Words { list: Vec::new() };
        assert(r@ =~= no_words());
        r
    }

    /// One more text at the end.
    pub fn with(self, word: &str) -> (r: Words)
        ensures
            r@ == self@.push(word@),
    {
        let mut list = self.list;
        list.push(word.to_string());
        let r = Words { list };
        assert(r@ =~= self@.push(word@));
        r
    }

    /// The list of these texts.
    pub fn list(self) -> (r: Vec<String>)
        ensures
            texts(r@) == self@,
    {
        self.list
    }
}

// ---------------------------------------------------------------- bytes

/// How many bytes a text takes in UTF-8.
pub open spec fn byte_len(s: Seq<char>) -> nat {
    vstd::utf8::encode_utf8(s).len()
}

/// How many bytes a character takes in UTF-8.
pub open spec fn char_width(c: char) -> nat {
    let n = c as u32;
    if n <= 0x7f {
        1
    } else if n <= 0x7ff {
        2
    } else if n <= 0xffff {
        3
    } else {
        4
    }
}

/// How many bytes a character takes in UTF-8.
pub fn width(c: char) -> (r: usize)
    ensures
        r == char_width(c),
{
    let n: u32 = c as u32;
    if n <= 0x7f {
        1
    } else if n <= 0x7ff {
        2
    } else if n <= 0xffff {
        3
    } else {
        4
    }
}

proof fn lemma_char_width(c: char)
    ensures
        vstd::utf8::encode_scalar(c as u32).len() == char_width(c),
{
}

/// A text takes the bytes of its last character and those of the rest.
pub proof fn lemma_byte_len_last(s: Seq<char>)
    requires
        s.len() > 0,
    ensures
        byte_len(s) == byte_len(s.drop_last()) + char_width(s.last()),
    decreases s.len(),
{
    let rest = s.drop_first();
    lemma_char_width(s[0]);
    assert(byte_len(s) == char_width(s[0]) + byte_len(rest));
    if s.len() == 1 {
        assert(byte_len(rest) == 0);
        assert(byte_len(s.drop_last()) == 0);
    } else {
        lemma_byte_len_last(rest);
        assert(rest.drop_last() =~= s.drop_last().drop_first());
    }
}

/// The beginning of a text takes no more bytes than the whole.
pub proof fn lemma_byte_len_take(s: Seq<char>, k: int)
    requires
        0 <= k <= s.len(),
    ensures
        byte_len(s.take(k)) <= byte_len(s),
    decreases s.len(),
{
    if k == s.len() {
        assert(s.take(k) =~= s);
    } else {
        lemma_byte_len_last(s);
        lemma_byte_len_take(s.drop_last(), k);
        assert(s.drop_last().take(k) =~= s.take(k));
    }
}

/// A part of a text takes no more bytes than the whole.
pub proof fn lemma_byte_len_within(s: Seq<char>, from: int, n: int)
    requires
        0 <= from,
        0 <= n,
        from + n <= s.len(),
    ensures
        byte_len(s.subrange(from, from + n)) <= byte_len(s),
    decreases from,
{
    if from == 0 {
        lemma_byte_len_take(s, n);
        assert(s.subrange(0, n) =~= s.take(n));
    } else {
        lemma_byte_len_within(s.drop_first(), from - 1, n);
        assert(s.drop_first().subrange(from - 1, from - 1 + n) =~= s.subrange(from, from + n));
    }
}

/// The longest beginning of `s` that takes at most `n` bytes in UTF-8.
pub open spec fn byte_head_of(s: Seq<char>, n: nat) -> Seq<char>
    decreases s.len(),
{
    if s.len() == 0 || byte_len(s) <= n {
        s
    } else {
        byte_head_of(s.drop_last(), n)
    }
}

/// The first `k` characters of a text are its longest beginning of at most `n`
/// bytes, if they fit and one more would not.
proof fn lemma_byte_head(s: Seq<char>, n: nat, k: int)
    requires
        0 <= k <= s.len(),
        byte_len(s.take(k)) <= n,
        k < s.len() ==> byte_len(s.take(k + 1)) > n,
    ensures
        byte_head_of(s, n) == s.take(k),
    decreases s.len(),
{
    if k == s.len() {
        assert(s.take(k) =~= s);
    } else {
        lemma_byte_len_take(s, k + 1);
        let rest = s.drop_last();
        assert(rest.take(k) =~= s.take(k));
        if k < rest.len() {
            assert(rest.take(k + 1) =~= s.take(k + 1));
        }
        lemma_byte_head(rest, n, k);
    }
}

/// The longest beginning of a text that takes at most `n` bytes: it is a
/// beginning, it fits, and one more character would not.
pub proof fn lemma_byte_head_is_longest(s: Seq<char>, n: nat)
    ensures
        begins_with(s, byte_head_of(s, n)),
        byte_len(byte_head_of(s, n)) <= n,
        byte_head_of(s, n).len() < s.len() ==> byte_len(
            s.take(byte_head_of(s, n).len() as int + 1),
        ) > n,
    decreases s.len(),
{
    if s.len() == 0 || byte_len(s) <= n {
        assert(s.take(s.len() as int) =~= s);
    } else {
        let rest = s.drop_last();
        lemma_byte_head_is_longest(rest, n);
        let k = byte_head_of(rest, n).len() as int;
        assert(s.take(k) =~= rest.take(k));
        if k < rest.len() {
            assert(s.take(k + 1) =~= rest.take(k + 1));
        } else {
            assert(s.take(k + 1) =~= s);
        }
    }
}

/// The longest beginning of `s` that takes at most `n` bytes in UTF-8.
pub fn byte_head(s: &str, n: usize) -> (r: &str)
    ensures
        r@ == byte_head_of(s@, n as nat),
{
    let chars = chars_of(s);
    let mut k: usize = 0;
    let mut size: usize = 0;
    let mut full: bool = false;
    assert(s@.take(0) =~= Seq::empty());
    while k < chars.len() && !full
        invariant
            chars@ == s@,
            k <= chars@.len(),
            size == byte_len(s@.take(k as int)),
            size <= n,
            full ==> k < chars@.len() && byte_len(s@.take(k + 1)) > n,
        decreases
            chars@.len() - k + (if full {
                0int
            } else {
                1int
            }),
    {
        proof {
            let longer = s@.take(k + 1);
            lemma_byte_len_last(longer);
            assert(longer.drop_last() =~= s@.take(k as int));
            assert(longer.last() == chars@[k as int]);
        }
        let w: usize = width(chars[k]);
        if w > n - size {
            full = true;
        } else {
            size = size + w;
            k = k + 1;
        }
    }
    proof {
        lemma_byte_head(s@, n as nat, k as int);
        assert(s@.subrange(0, k as int) =~= s@.take(k as int));
    }
    s.substring_char(0, k)
}

/// What `String::from_utf8_lossy` makes of bytes.
pub uninterp spec fn lossy_text(bytes: Seq<u8>) -> Seq<char>;

/// `String::from_utf8_lossy`: the text that the bytes encode in UTF-8, where they
/// encode one. Otherwise what is not UTF-8 is replaced; the result is a function
/// of the bytes alone and has the name `lossy_text`, and how much each
/// replacement character stands for is not stated.
#[verifier::external_body]
pub(crate) fn lossy(bytes: &Vec<u8>) -> (r: String)
    ensures
        r@ == lossy_text(bytes@),
        vstd::utf8::valid_utf8(bytes@) ==> r@ == vstd::utf8::decode_utf8(bytes@),
{
    String::from_utf8_lossy(bytes.as_slice()).into_owned()
}

// ---------------------------------------------------------------- quoting

/// What the `Debug` format of `str` writes for a text.
pub uninterp spec fn debug_text(s: Seq<char>) -> Seq<char>;

/// The `Debug` format of `str` (`{:?}`): the text in double quotes with its
/// special characters escaped. The result is a function of the text alone and
/// has the name `debug_text`; how each character is escaped is not stated.
#[verifier::external_body]
pub(crate) fn quoted(s: &str) -> (r: String)
    ensures
        r@ == debug_text(s@),
{
    format!("{:?}", s)
}

/// Each text of a list in the `Debug` format.
pub open spec fn debug_texts(list: Seq<Seq<char>>) -> Seq<Seq<char>> {
    list.map_values(|s: Seq<char>| debug_text(s))
}

/// A list of texts in square brackets, each quoted, with commas between them.
pub open spec fn debug_list(list: Seq<Seq<char>>) -> Seq<char> {
    seq!['['] + joined(debug_texts(list), ", "@) + seq![']']
}

/// The list in square brackets, each text quoted, with commas between them.
pub fn quoted_list(list: &Vec<String>) -> (r: String)
    ensures
        r@ == debug_list(texts(list@)),
{
    let mut parts: Vec<String> = Vec::new();
    for i in 0..list.len()
        invariant
            parts@.len() == i,
            forall|k: int| 0 <= k < i ==> (#[trigger] parts@[k])@ == debug_text(list@[k]@),
    {
        parts.push(quoted(list[i].as_str()));
    }
    assert(texts(parts@) =~= debug_texts(texts(list@)));
    proof {
        reveal_strlit("[");
        reveal_strlit("]");
        assert("["@ =~= seq!['[']);
        assert("]"@ =~= seq![']']);
    }
    cat3("[", join(&parts, ", ").as_str(), "]")
}

// ---------------------------------------------------------------- picking

/// Whether these are the places, of the first `n`, that are to be kept: all of them
/// and no other, in their order.
pub open spec fn picks(at: Seq<int>, n: int, keep: spec_fn(int) -> bool) -> bool {
    &&& forall|a: int, b: int| 0 <= a < b < at.len() ==> #[trigger] at[a] < #[trigger] at[b]
    &&& forall|a: int| 0 <= a < at.len() ==> 0 <= #[trigger] at[a] < n && keep(at[a])
    &&& forall|i: int| 0 <= i < n && #[trigger] keep(i) ==> at.contains(i)
}

/// The places, of the first `n`, that are to be kept.
pub open spec fn picked(n: int, keep: spec_fn(int) -> bool) -> Seq<int>
    decreases n,
{
    if n <= 0 {
        Seq::empty()
    } else if keep(n - 1) {
        picked(n - 1, keep).push(n - 1)
    } else {
        picked(n - 1, keep)
    }
}

/// The places that are picked are those that are to be kept.
pub proof fn lemma_picked(n: int, keep: spec_fn(int) -> bool)
    ensures
        picks(picked(n, keep), n, keep),
    decreases n,
{
    if n > 0 {
        lemma_picked(n - 1, keep);
        let head = picked(n - 1, keep);
        let at = picked(n, keep);
        assert forall|i: int| 0 <= i < n && #[trigger] keep(i) implies at.contains(i) by {
            if i == n - 1 {
                assert(at[at.len() - 1] == i);
            } else {
                assert(head.contains(i));
                let a = choose|a: int| 0 <= a < head.len() && head[a] == i;
                assert(at[a] == i);
            }
        }
    }
}

// ---------------------------------------------------------------- laws

/// Which of these texts are more than white space.
pub open spec fn not_blank(parts: Seq<Seq<char>>) -> spec_fn(int) -> bool {
    |i: int| trimmed(parts[i]).len() > 0
}

proof fn lemma_kept_fields(parts: Seq<Seq<char>>, n: int)
    requires
        0 <= n <= parts.len(),
    ensures
        kept_fields(parts.take(n)).len() == picked(n, not_blank(parts)).len(),
        forall|a: int|
            0 <= a < picked(n, not_blank(parts)).len() ==> #[trigger] kept_fields(parts.take(n))[a]
                == trimmed(parts[picked(n, not_blank(parts))[a]]),
    decreases n,
{
    if n > 0 {
        lemma_kept_fields(parts, n - 1);
        assert(parts.take(n).drop_last() =~= parts.take(n - 1));
        assert(parts.take(n).last() == parts[n - 1]);
    }
}

/// The fields of a text are its parts between the separators that are more than white
/// space, all of them and in their order, each without the white space around it.
pub proof fn the_fields_are_the_parts_that_hold_something(s: Seq<char>, sep: char)
    ensures
        exists|at: Seq<int>| #[trigger]
            picks(at, split(s, sep).len() as int, not_blank(split(s, sep))) && fields_of(s, sep).len()
                == at.len() && forall|a: int|
                0 <= a < at.len() ==> #[trigger] fields_of(s, sep)[a] == trimmed(
                    split(s, sep)[at[a]],
                ),
{
    let parts = split(s, sep);
    let n = parts.len() as int;
    lemma_kept_fields(parts, n);
    lemma_picked(n, not_blank(parts));
    assert(parts.take(n) =~= parts);
    let at = picked(n, not_blank(parts));
    assert(picks(at, n, not_blank(parts)));
}

/// Splitting is undone by joining, so the parts are all that a text holds, and no
/// part holds the separator.
pub proof fn a_split_text_is_joined_again(s: Seq<char>, sep: char)
    ensures
        joined(split(s, sep), seq![sep]) == s,
        forall|i: int, k: int|
            0 <= i < split(s, sep).len() && 0 <= k < split(s, sep)[i].len() ==> #[trigger] split(
                s,
                sep,
            )[i][k] != sep,
    decreases s.len(),
{
    lemma_split_parts(s, sep);
    if s.len() > 0 {
        let head = s.drop_last();
        a_split_text_is_joined_again(head, sep);
        lemma_split_parts(head, sep);
        let before = split(head, sep);
        let parts = split(s, sep);
        let line = seq![sep];
        if s.last() == sep {
            assert(parts.drop_last() =~= before);
            assert(joined(parts, line) =~= joined(before, line) + line);
            assert(head + line =~= s);
        } else {
            assert(parts.drop_last() =~= before.drop_last());
            assert(parts.last() =~= before.last().push(s.last()));
            assert(before.len() == parts.len());
            assert(joined(parts, line) =~= joined(before, line).push(s.last()));
            assert(head.push(s.last()) =~= s);
        }
    }
}

/// The text that is left of a trimmed one neither begins nor ends with white space,
/// and only white space was taken away, before it and behind it.
pub proof fn only_white_space_is_trimmed(s: Seq<char>)
    ensures
        exists|from: int, to: int|
            0 <= from <= to <= s.len() && trimmed(s) == #[trigger] s.subrange(from, to) && (forall|
                i: int,
            |
                0 <= i < from || to <= i < s.len() ==> is_white_space(#[trigger] s[i])),
        trimmed(s).len() > 0 ==> !is_white_space(trimmed(s)[0]) && !is_white_space(
            trimmed(s)[trimmed(s).len() - 1],
        ),
        is_white_space(' ') && is_white_space('\n') && is_white_space('\t') && is_white_space('\r'),
        forall|c: char| 'A' <= c <= 'Z' || 'a' <= c <= 'z' || '0' <= c <= '9' ==> !#[trigger]
            is_white_space(c),
{
    lemma_trimmed_edges(s);
    lemma_trimmed_within(s);
    let from = s.len() - trimmed_start(s).len();
    let to = from + trimmed(s).len();
    lemma_trimmed_tail(trimmed_start(s));
    lemma_trimmed_start_edge(s);
    assert forall|i: int| 0 <= i < from || to <= i < s.len() implies is_white_space(
        #[trigger] s[i],
    ) by {
        if to <= i {
            assert(s[i] == trimmed_start(s)[i - from]);
        }
    }
    assert(trimmed(s) == s.subrange(from, to));
}

proof fn lemma_trimmed_tail(s: Seq<char>)
    ensures
        forall|i: int| trimmed_end(s).len() <= i < s.len() ==> is_white_space(#[trigger] s[i]),
    decreases s.len(),
{
    if s.len() > 0 && is_white_space(s.last()) {
        let rest = s.drop_last();
        lemma_trimmed_tail(rest);
        assert forall|i: int| trimmed_end(s).len() <= i < s.len() implies is_white_space(
            #[trigger] s[i],
        ) by {
            if i < rest.len() {
                assert(rest[i] == s[i]);
            }
        }
    }
}

/// What is left of a text without some characters at its end is a beginning of it
/// that does not end with that character, and nothing else was taken away.
pub proof fn only_the_end_is_taken_away(s: Seq<char>, c: char)
    ensures
        without_end(s, c).len() <= s.len(),
        without_end(s, c) == s.take(without_end(s, c).len() as int),
        without_end(s, c).len() > 0 ==> without_end(s, c).last() != c,
        forall|i: int| without_end(s, c).len() <= i < s.len() ==> #[trigger] s[i] == c,
    decreases s.len(),
{
    if s.len() > 0 && s.last() == c {
        let rest = s.drop_last();
        only_the_end_is_taken_away(rest, c);
        assert(rest.take(without_end(s, c).len() as int) =~= s.take(
            without_end(s, c).len() as int,
        ));
        assert forall|i: int| without_end(s, c).len() <= i < s.len() implies #[trigger] s[i] == c by {
            if i < rest.len() {
                assert(rest[i] == s[i]);
            }
        }
    } else {
        assert(s.take(s.len() as int) =~= s);
    }
}

/// Only the case of ASCII letters is changed: a capital becomes the small letter with
/// the same place in the alphabet and the other way round, every other character
/// stays, and no text changes its length.
pub proof fn only_the_case_is_changed(s: Seq<char>, i: int)
    requires
        0 <= i < s.len(),
    ensures
        lowered(s).len() == s.len(),
        uppered(s).len() == s.len(),
        'A' <= s[i] <= 'Z' ==> lowered(s)[i] as int - 'a' as int == s[i] as int - 'A' as int
            && uppered(s)[i] == s[i],
        'a' <= s[i] <= 'z' ==> uppered(s)[i] as int - 'A' as int == s[i] as int - 'a' as int
            && lowered(s)[i] == s[i],
        !('A' <= s[i] <= 'Z') && !('a' <= s[i] <= 'z') ==> lowered(s)[i] == s[i] && uppered(s)[i]
            == s[i],
{
}

/// Of two texts that begin alike, the one with the smaller character at the first
/// place where they differ comes first, and a beginning of a text comes before it.
pub proof fn the_first_difference_decides(start: Seq<char>, a: Seq<char>, b: Seq<char>)
    ensures
        a.len() > 0 && b.len() > 0 && a[0] < b[0] ==> text_before(start + a, start + b)
            && !text_before(start + b, start + a),
        a.len() > 0 ==> text_before(start, start + a) && !text_before(start + a, start),
        !text_before(start, start),
    decreases start.len(),
{
    if start.len() > 0 {
        let rest = start.drop_first();
        the_first_difference_decides(rest, a, b);
        assert((start + a).drop_first() =~= rest + a);
        assert((start + b).drop_first() =~= rest + b);
    } else {
        assert(start + a =~= a);
        assert(start + b =~= b);
    }
}

/// The number that a decimal text stands for.
pub open spec fn decimal_value(s: Seq<char>) -> int
    decreases s.len(),
{
    if s.len() == 0 {
        0
    } else {
        decimal_value(s.drop_last()) * 10 + (s.last() as int - '0' as int)
    }
}

/// The decimal text of a number is made of digits, has no zero in front unless it is
/// one digit, and stands for the number; that of a negative one has a minus in front.
pub proof fn a_decimal_text_stands_for_its_number(n: nat)
    ensures
        decimal_value(decimal_of(n)) == n,
        decimal_of(n).len() >= 1,
        forall|i: int| 0 <= i < decimal_of(n).len() ==> '0' <= #[trigger] decimal_of(n)[i] <= '9',
        decimal_of(n).len() > 1 ==> decimal_of(n)[0] != '0',
        n >= 10 ==> decimal_of(n)[0] != '0',
        signed_decimal_of(n as int) == decimal_of(n),
        n > 0 ==> signed_decimal_of(-(n as int)) == seq!['-'] + decimal_of(n),
    decreases n,
{
    let s = decimal_of(n);
    if n < 10 {
        assert(s.drop_last() =~= Seq::empty());
        assert(decimal_value(s.drop_last()) == 0);
    } else {
        a_decimal_text_stands_for_its_number(n / 10);
        let head = decimal_of(n / 10);
        assert(s.drop_last() =~= head);
        assert(decimal_value(s) == (n / 10) * 10 + n % 10);
        assert forall|i: int| 0 <= i < s.len() implies '0' <= #[trigger] s[i] <= '9' by {
            if i < head.len() {
                assert(s[i] == head[i]);
            }
        }
        if n / 10 < 10 {
            assert(head[0] == digit((n / 10) as int));
        }
        assert(s[0] == head[0]);
    }
}

/// A text begins with another exactly where it is that text and something behind it,
/// and ends with another where it is something and then that text.
pub proof fn a_beginning_and_an_end(s: Seq<char>, part: Seq<char>, rest: Seq<char>)
    ensures
        begins_with(part + rest, part),
        finishes_with(rest + part, part),
        begins_with(s, part) ==> s == part + s.skip(part.len() as int),
        finishes_with(s, part) ==> s == s.take(s.len() - part.len()) + part,
{
    assert((part + rest).take(part.len() as int) =~= part);
    assert((rest + part).skip(rest.len() as int) =~= part);
    if begins_with(s, part) {
        assert(s =~= s.take(part.len() as int) + s.skip(part.len() as int));
    }
    if finishes_with(s, part) {
        assert(s =~= s.take(s.len() - part.len()) + s.skip(s.len() - part.len()));
    }
}

/// Joined texts stand one behind the other with the separator between each two, and
/// with none before the first or behind the last.
pub proof fn texts_are_joined_in_order(
    list: Seq<Seq<char>>,
    more: Seq<Seq<char>>,
    one: Seq<char>,
    sep: Seq<char>,
)
    requires
        list.len() > 0,
        more.len() > 0,
    ensures
        joined(list + more, sep) == joined(list, sep) + sep + joined(more, sep),
        joined(seq![one], sep) == one,
        joined(Seq::empty(), sep).len() == 0,
    decreases more.len(),
{
    let all = list + more;
    assert(all.drop_last() =~= list + more.drop_last());
    if more.len() == 1 {
        assert(list + more.drop_last() =~= list);
        assert(joined(all, sep) =~= joined(list, sep) + sep + more[0]);
    } else {
        texts_are_joined_in_order(list, more.drop_last(), one, sep);
        assert(joined(all, sep) =~= joined(list, sep) + sep + joined(more, sep));
    }
}

/// A quoted list shows every text of it, quoted.
pub proof fn a_quoted_list_shows_every_text(list: Seq<Seq<char>>, i: int)
    requires
        0 <= i < list.len(),
    ensures
        mentions(debug_list(list), debug_text(list[i])),
{
    let parts = debug_texts(list);
    lemma_mentions_joined(parts, ", "@, i);
    lemma_mentions_after(seq!['['], joined(parts, ", "@), parts[i]);
    lemma_mentions_more(seq!['['] + joined(parts, ", "@), parts[i], seq![']']);
}

} // verus!
