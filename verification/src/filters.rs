//! Log filters: the check of one, and for which filters it can be made.

use vstd::prelude::*;
use crate::text::{
    byte_len, chars_of, is_white_space, lemma_byte_len_last, lemma_byte_len_take,
    lemma_byte_len_within, lemma_split_one, lemma_split_parts, lemma_trimmed_edges,
    lemma_trimmed_end_edge, lemma_trimmed_is, lemma_trimmed_within, opt_string_view, split,
    split_text, texts, trim, trimmed, trimmed_start, white_space,
};

verus! {

/// What `EnvFilter::try_new` finds wrong with a log filter.
pub uninterp spec fn filter_fault(filter: Seq<char>) -> Option<Seq<char>>;

// ---------------------------------------------------------------- directives

/// Whether a byte position lies between two characters of a text, or at an end.
pub open spec fn is_between(s: Seq<char>, position: int) -> bool {
    vstd::utf8::is_char_boundary(vstd::utf8::encode_utf8(s), position)
}

/// Whether a directive of a log filter can be cut before the `k`-th character of
/// its trimmed form. The byte position is counted in the trimmed form and used on
/// the directive as it is.
pub open spec fn can_be_cut(directive: Seq<char>, k: int) -> bool {
    is_between(directive, byte_len(trimmed(directive).take(k)) as int)
}

/// The first place at or after `from` where one of two marks stands, or the length
/// of the text where none does.
pub open spec fn next_mark(s: Seq<char>, from: int, a: char, b: char) -> int
    decreases s.len() - from,
{
    if 0 <= from < s.len() && s[from] != a && s[from] != b {
        next_mark(s, from + 1, a, b)
    } else {
        from
    }
}

/// How many characters of white space a text begins with.
pub open spec fn lead(s: Seq<char>) -> int {
    s.len() - trimmed_start(s).len()
}

/// A directive as far as the `k`-th character of its trimmed form, closed by `]`.
pub open spec fn closed_after(directive: Seq<char>, k: int) -> Seq<char> {
    directive.take(lead(directive) + k + 1).push(']')
}

/// A level begins behind the `=` that may stand at `from`, behind a target or a
/// span: the directive is cut there.
pub open spec fn is_plain_level(directive: Seq<char>, from: int) -> bool {
    let inner = trimmed(directive);
    from < inner.len() && inner[from] == '=' ==> can_be_cut(directive, from + 1)
}

/// A field begins at `from`, behind `{`, and ends before the next `}`: the directive
/// is cut there. A level may follow, unless the field is refused.
pub open spec fn is_plain_field(directive: Seq<char>, from: int) -> bool {
    let inner = trimmed(directive);
    let end = next_mark(inner, from, '}', '}');
    end < inner.len() ==> {
        &&& can_be_cut(directive, from)
        &&& can_be_cut(directive, end)
        &&& end + 1 < inner.len() && inner[end + 1] == ']' && filter_fault(
            closed_after(directive, end),
        ) is None ==> is_plain_level(directive, end + 2)
    }
}

/// The name of a span begins at `from`, behind `[`, and ends before the next `]` or
/// `{`: the directive is cut there.
pub open spec fn is_plain_span(directive: Seq<char>, from: int) -> bool {
    let inner = trimmed(directive);
    let end = next_mark(inner, from, ']', '{');
    end < inner.len() ==> {
        &&& can_be_cut(directive, from)
        &&& can_be_cut(directive, end)
        &&& if inner[end] == ']' {
            is_plain_level(directive, end + 1)
        } else {
            is_plain_field(directive, end + 1)
        }
    }
}

/// Whether a directive of a log filter is never cut inside a character. It is cut
/// around its target, which ends before the first `=` or `[` and may be refused, and
/// around the parts that follow.
pub open spec fn is_plain_directive(directive: Seq<char>) -> bool {
    let inner = trimmed(directive);
    let end = next_mark(inner, 0, '=', '[');
    if end >= inner.len() {
        true
    } else if end == 0 {
        inner[0] == '[' ==> is_plain_span(directive, 1)
    } else {
        filter_fault(inner.take(end)) is None ==> {
            &&& can_be_cut(directive, end)
            &&& is_plain_level(directive, end)
            &&& inner[end] == '[' ==> is_plain_span(directive, end + 1)
        }
    }
}

/// Whether no directive of a log filter is cut inside a character. The directives
/// stand between commas and are read in order, up to the first that is refused.
pub open spec fn is_plain_filter(filter: Seq<char>) -> bool {
    let parts = split(filter, ',');
    forall|i: int|
        0 <= i < parts.len() && (forall|j: int|
            0 <= j < i ==> filter_fault(#[trigger] parts[j]) is None) ==> is_plain_directive(
            #[trigger] parts[i],
        )
}

// ---------------------------------------------------------------- the check

/// `EnvFilter::try_new` of tracing-subscriber: whether a text is a log filter, and
/// the error as text where it is not. The result is a function of the text alone
/// and has the name `filter_fault`; which texts are filters is not stated. A
/// directive is cut at byte positions that are counted in its trimmed form; a filter
/// that would be cut inside a character is left out.
#[verifier::external_body]
pub(crate) fn check_filter(filter: &str) -> (r: Option<String>)
    requires
        is_plain_filter(filter@),
    ensures
        opt_string_view(r) == filter_fault(filter@),
{
    tracing_subscriber::EnvFilter::try_new(filter).err().map(|e| e.to_string())
}

/// The next mark is one, and none stands before it.
proof fn lemma_next_mark(s: Seq<char>, from: int, a: char, b: char)
    requires
        0 <= from <= s.len(),
    ensures
        from <= next_mark(s, from, a, b) <= s.len(),
        next_mark(s, from, a, b) < s.len() ==> s[next_mark(s, from, a, b)] == a || s[next_mark(
            s,
            from,
            a,
            b,
        )] == b,
        forall|i: int| from <= i < next_mark(s, from, a, b) ==> #[trigger] s[i] != a && s[i] != b,
    decreases s.len() - from,
{
    if from < s.len() && s[from] != a && s[from] != b {
        lemma_next_mark(s, from + 1, a, b);
    }
}

/// The next mark of a text is that of any other text with the same characters up to
/// the mark.
proof fn lemma_next_mark_same(s: Seq<char>, other: Seq<char>, from: int, a: char, b: char)
    requires
        0 <= from,
        next_mark(s, from, a, b) < s.len(),
        next_mark(s, from, a, b) < other.len(),
        forall|i: int| from <= i <= next_mark(s, from, a, b) ==> #[trigger] other[i] == s[i],
    ensures
        next_mark(other, from, a, b) == next_mark(s, from, a, b),
    decreases s.len() - from,
{
    if from < s.len() {
        lemma_next_mark(s, from, a, b);
        assert(other[from] == s[from]);
        if s[from] != a && s[from] != b {
            lemma_next_mark_same(s, other, from + 1, a, b);
        }
    }
}

/// What follows a text adds no place between the characters of the text and takes
/// none away.
proof fn lemma_between_front(front: Seq<char>, rest: Seq<char>, position: int)
    requires
        position <= byte_len(front),
    ensures
        is_between(front + rest, position) == is_between(front, position),
    decreases front.len(),
{
    let all = front + rest;
    vstd::utf8::encode_utf8_valid_utf8(all);
    vstd::utf8::encode_utf8_valid_utf8(front);
    if front.len() > 0 && position > 0 {
        let shorter = front.drop_first();
        vstd::utf8::encode_utf8_first_scalar(all);
        vstd::utf8::encode_utf8_first_scalar(front);
        assert(all.drop_first() =~= shorter + rest);
        assert(all[0] == front[0]);
        lemma_byte_len_take(all, front.len() as int);
        assert(all.take(front.len() as int) =~= front);
        let all_bytes = vstd::utf8::encode_utf8(all);
        let bytes = vstd::utf8::encode_utf8(front);
        assert(vstd::utf8::pop_first_scalar(all_bytes) =~= vstd::utf8::encode_utf8(
            all.drop_first(),
        ));
        assert(vstd::utf8::pop_first_scalar(bytes) =~= vstd::utf8::encode_utf8(shorter));
        lemma_between_front(
            shorter,
            rest,
            position - vstd::utf8::length_of_first_scalar(bytes),
        );
    }
}

/// A text without a comma is one directive.
proof fn lemma_one_directive(s: Seq<char>)
    requires
        !s.contains(','),
    ensures
        is_plain_filter(s) == is_plain_directive(s),
{
    lemma_split_one(s, ',');
    let parts = split(s, ',');
    assert(parts[0] == s);
    if is_plain_filter(s) {
        assert(is_plain_directive(parts[0]));
    }
}

/// A directive that is only a target is not cut.
proof fn lemma_target_is_plain(s: Seq<char>)
    requires
        forall|i: int| 0 <= i < s.len() ==> #[trigger] s[i] != '=' && s[i] != '[',
    ensures
        is_plain_directive(s),
{
    let inner = trimmed(s);
    lemma_trimmed_within(s);
    lemma_next_mark(inner, 0, '=', '[');
    let end = next_mark(inner, 0, '=', '[');
    if end < inner.len() {
        assert(inner[end] == s[lead(s) + end]);
    }
}

/// Whether the directive is cut cleanly up to a field that begins at `from`.
spec fn reaches_field(directive: Seq<char>, from: int) -> bool {
    let inner = trimmed(directive);
    let target = next_mark(inner, 0, '=', '[');
    let span = next_mark(inner, target + 1, ']', '{');
    &&& target < inner.len()
    &&& inner[target] == '['
    &&& target > 0 ==> filter_fault(inner.take(target)) is None
    &&& can_be_cut(directive, target)
    &&& can_be_cut(directive, target + 1)
    &&& span < inner.len()
    &&& inner[span] == '{'
    &&& can_be_cut(directive, span)
    &&& from == span + 1
}

/// A directive that is cut cleanly up to the end of its field, and closed there, is
/// plain.
proof fn lemma_closed_is_plain(directive: Seq<char>, from: int, end: int)
    requires
        !directive.contains(','),
        reaches_field(directive, from),
        end == next_mark(trimmed(directive), from, '}', '}'),
        end < trimmed(directive).len(),
        can_be_cut(directive, from),
        can_be_cut(directive, end),
    ensures
        !closed_after(directive, end).contains(','),
        is_plain_directive(closed_after(directive, end)),
{
    let inner = trimmed(directive);
    let target = next_mark(inner, 0, '=', '[');
    let span = next_mark(inner, target + 1, ']', '{');
    let at = lead(directive);
    let front = directive.take(at + end + 1);
    let closed = closed_after(directive, end);
    lemma_trimmed_within(directive);
    lemma_trimmed_edges(directive);
    lemma_next_mark(inner, 0, '=', '[');
    lemma_next_mark(inner, target + 1, ']', '{');
    lemma_next_mark(inner, from, '}', '}');
    assert forall|i: int| 0 <= i < closed.len() implies closed[i] != ',' by {
        if i < front.len() {
            assert(closed[i] == directive[i]);
            assert(directive.contains(directive[i]));
        }
    }
    assert(closed[at] == inner[0]);
    assert forall|i: int| 0 <= i < at implies is_white_space(#[trigger] closed[i]) by {
        assert(closed[i] == directive[i]);
    }
    lemma_trimmed_is(closed, at);
    let short = trimmed(closed);
    assert forall|i: int| 0 <= i <= end implies #[trigger] short[i] == inner[i] by {
        assert(short[i] == closed[at + i]);
    }
    assert(short.len() == end + 2);
    lemma_next_mark_same(inner, short, 0, '=', '[');
    lemma_next_mark_same(inner, short, target + 1, ']', '{');
    lemma_next_mark_same(inner, short, from, '}', '}');
    assert(short.take(target) =~= inner.take(target));
    assert forall|k: int| 0 <= k <= end && can_be_cut(directive, k) implies #[trigger] can_be_cut(
        closed,
        k,
    ) by {
        let position = byte_len(inner.take(k)) as int;
        assert(short.take(k) =~= inner.take(k));
        lemma_byte_len_within(front, at, k);
        assert(front.subrange(at, at + k) =~= inner.take(k));
        assert(front + directive.skip(at + end + 1) =~= directive);
        lemma_between_front(front, directive.skip(at + end + 1), position);
        assert(front + seq![']'] =~= closed);
        lemma_between_front(front, seq![']'], position);
    }
}

fn find_mark(chars: &Vec<char>, from: usize, a: char, b: char) -> (r: usize)
    requires
        from <= chars@.len(),
    ensures
        r == next_mark(chars@, from as int, a, b),
        from <= r <= chars@.len(),
        r < chars@.len() ==> chars@[r as int] == a || chars@[r as int] == b,
{
    let mut at: usize = from;
    while at < chars.len() && chars[at] != a && chars[at] != b
        invariant
            from <= at <= chars@.len(),
            next_mark(chars@, from as int, a, b) == next_mark(chars@, at as int, a, b),
        decreases chars@.len() - at,
    {
        at = at + 1;
    }
    at
}

/// A directive together with its trimmed form.
struct Directive<'a> {
    whole: &'a str,
    inner: &'a str,
    chars: Vec<char>,
}

impl<'a> Directive<'a> {
    spec fn wf(&self) -> bool {
        &&& self.inner@ == trimmed(self.whole@)
        &&& self.chars@ == self.inner@
        &&& !self.whole@.contains(',')
    }

    fn cuttable(&self, k: usize) -> (r: bool)
        requires
            self.wf(),
            k <= self.inner@.len(),
        ensures
            r == can_be_cut(self.whole@, k as int),
    {
        let front = self.inner.substring_char(0, k);
        assert(front@ =~= self.inner@.take(k as int));
        self.whole.is_char_boundary(front.as_bytes().len())
    }

    fn plain_level(&self, from: usize) -> (r: bool)
        requires
            self.wf(),
            from <= self.inner@.len(),
        ensures
            r == is_plain_level(self.whole@, from as int),
    {
        if from < self.chars.len() && self.chars[from] == '=' {
            self.cuttable(from + 1)
        } else {
            true
        }
    }

    fn plain_field(&self, from: usize) -> (r: bool)
        requires
            self.wf(),
            from <= self.inner@.len(),
            reaches_field(self.whole@, from as int),
        ensures
            r == is_plain_field(self.whole@, from as int),
    {
        let end: usize = find_mark(&self.chars, from, '}', '}');
        if end == self.chars.len() {
            return true;
        }
        if !self.cuttable(from) || !self.cuttable(end) {
            return false;
        }
        if end + 1 == self.chars.len() || self.chars[end + 1] != ']' {
            return true;
        }
        proof {
            lemma_closed_is_plain(self.whole@, from as int, end as int);
            lemma_one_directive(closed_after(self.whole@, end as int));
        }
        match check_filter(self.close_after(end).as_str()) {
            Some(_) => true,
            None => self.plain_level(end + 2),
        }
    }

    fn close_after(&self, k: usize) -> (r: String)
        requires
            self.wf(),
            k < self.inner@.len(),
        ensures
            r@ == closed_after(self.whole@, k as int),
    {
        proof {
            lemma_trimmed_within(self.whole@);
        }
        let chars = chars_of(self.whole);
        let from: usize = white_space_before(&chars);
        assert(from + k + 1 <= chars.len());
        let front = self.whole.substring_char(0, from + k + 1);
        assert(front@ =~= self.whole@.take(from + k + 1));
        let mut closed = front.to_string();
        closed.push(']');
        closed
    }

    fn plain_span(&self, target: usize) -> (r: bool)
        requires
            self.wf(),
            target < self.inner@.len(),
            target == next_mark(self.inner@, 0, '=', '['),
            self.inner@[target as int] == '[',
            target > 0 ==> filter_fault(self.inner@.take(target as int)) is None,
            can_be_cut(self.whole@, target as int),
        ensures
            r == is_plain_span(self.whole@, target + 1),
    {
        assert(target < self.chars.len());
        let from: usize = target + 1;
        let end: usize = find_mark(&self.chars, from, ']', '{');
        if end == self.chars.len() {
            return true;
        }
        if !self.cuttable(from) || !self.cuttable(end) {
            return false;
        }
        if self.chars[end] == ']' {
            self.plain_level(end + 1)
        } else {
            self.plain_field(end + 1)
        }
    }

    fn plain(&self) -> (r: bool)
        requires
            self.wf(),
        ensures
            r == is_plain_directive(self.whole@),
    {
        let end: usize = find_mark(&self.chars, 0, '=', '[');
        if end == self.chars.len() {
            return true;
        }
        if end == 0 {
            if self.chars[0] != '[' {
                return true;
            }
            proof {
                lemma_is_between(self.whole@, 0);
                assert(self.inner@.take(0) =~= self.whole@.take(0));
            }
            return self.plain_span(0);
        }
        let target = self.inner.substring_char(0, end);
        proof {
            assert(target@ =~= self.inner@.take(end as int));
            lemma_trimmed_within(self.whole@);
            lemma_next_mark(self.inner@, 0, '=', '[');
            assert forall|i: int| 0 <= i < target@.len() implies #[trigger] target@[i] != '='
                && target@[i] != '[' by {
                assert(target@[i] == self.inner@[i]);
            }
            assert forall|i: int| 0 <= i < target@.len() implies target@[i] != ',' by {
                assert(target@[i] == self.whole@[lead(self.whole@) + i]);
                assert(self.whole@.contains(target@[i]));
            }
            lemma_target_is_plain(target@);
            lemma_one_directive(target@);
        }
        if check_filter(target).is_some() {
            return true;
        }
        if !self.cuttable(end) || !self.plain_level(end) {
            return false;
        }
        self.chars[end] == '=' || self.plain_span(end)
    }
}

fn white_space_before(chars: &Vec<char>) -> (r: usize)
    ensures
        r == lead(chars@),
{
    let mut from: usize = 0;
    assert(chars@.skip(0) =~= chars@);
    while from < chars.len() && white_space(chars[from])
        invariant
            from <= chars@.len(),
            trimmed_start(chars@) == trimmed_start(chars@.skip(from as int)),
        decreases chars@.len() - from,
    {
        assert(chars@.skip(from as int).drop_first() =~= chars@.skip(from + 1));
        from = from + 1;
    }
    from
}

/// Whether no directive of a log filter is cut inside a character: only such a
/// filter can be checked.
pub fn plain_filter(filter: &str) -> (r: bool)
    ensures
        r == is_plain_filter(filter@),
{
    let parts = split_text(filter, ',');
    let ghost all = split(filter@, ',');
    proof {
        lemma_split_parts(filter@, ',');
    }
    for i in 0..parts.len()
        invariant
            all == split(filter@, ','),
            all == texts(parts@),
            forall|n: int, k: int|
                0 <= n < all.len() && 0 <= k < all[n].len() ==> #[trigger] all[n][k] != ',',
            forall|k: int| 0 <= k < i ==> is_plain_directive(#[trigger] all[k]),
            forall|k: int| 0 <= k < i ==> filter_fault(#[trigger] all[k]) is None,
    {
        let part = parts[i].as_str();
        assert(all[i as int] == part@);
        let inner = trim(part);
        let directive = Directive { whole: part, inner, chars: chars_of(inner) };
        if !directive.plain() {
            return false;
        }
        proof {
            lemma_one_directive(part@);
        }
        if check_filter(part).is_some() {
            return true;
        }
    }
    true
}

// ---------------------------------------------------------------- laws

/// The place before a character lies between two characters.
proof fn lemma_is_between(s: Seq<char>, k: int)
    requires
        0 <= k <= s.len(),
    ensures
        is_between(s, byte_len(s.take(k)) as int),
    decreases k,
{
    vstd::utf8::encode_utf8_valid_utf8(s);
    if k == 0 {
        assert(s.take(0) =~= Seq::empty());
    } else {
        let bytes = vstd::utf8::encode_utf8(s);
        let rest = s.drop_first();
        vstd::utf8::encode_utf8_first_scalar(s);
        assert(vstd::utf8::pop_first_scalar(bytes) =~= vstd::utf8::encode_utf8(rest));
        lemma_is_between(rest, k - 1);
        lemma_byte_len_take(s, k);
        assert(s.take(k).drop_first() =~= rest.take(k - 1));
        assert(s.take(k)[0] == s[0]);
    }
}

/// A directive that can be cut before each of its characters is plain.
proof fn lemma_cuts_are_enough(directive: Seq<char>)
    requires
        forall|k: int| 0 <= k <= trimmed(directive).len() ==> #[trigger] can_be_cut(directive, k),
    ensures
        is_plain_directive(directive),
{
    let inner = trimmed(directive);
    let target = next_mark(inner, 0, '=', '[');
    lemma_next_mark(inner, 0, '=', '[');
    if target < inner.len() {
        let span = next_mark(inner, target + 1, ']', '{');
        lemma_next_mark(inner, target + 1, ']', '{');
        if span < inner.len() {
            lemma_next_mark(inner, span + 1, '}', '}');
        }
    }
}

/// A directive that does not begin with white space is plain, whatever characters
/// it holds.
pub proof fn a_directive_that_begins_at_once_is_plain(directive: Seq<char>)
    requires
        directive.len() > 0,
        !is_white_space(directive[0]),
    ensures
        is_plain_directive(directive),
{
    let inner = trimmed(directive);
    assert(trimmed_start(directive) == directive);
    lemma_trimmed_end_edge(directive);
    assert forall|k: int| 0 <= k <= inner.len() implies #[trigger] can_be_cut(directive, k) by {
        lemma_is_between(directive, k);
        assert(inner.take(k) =~= directive.take(k));
    }
    lemma_cuts_are_enough(directive);
}

/// A text of ASCII characters takes a byte for each.
proof fn lemma_ascii_bytes(s: Seq<char>)
    requires
        forall|i: int| 0 <= i < s.len() ==> #[trigger] s[i] as u32 <= 0x7f,
    ensures
        byte_len(s) == s.len(),
    decreases s.len(),
{
    if s.len() > 0 {
        lemma_byte_len_last(s);
        lemma_ascii_bytes(s.drop_last());
    }
}

/// A log filter of ASCII characters is plain, whatever white space it holds.
pub proof fn an_ascii_filter_is_plain(filter: Seq<char>)
    requires
        forall|i: int| 0 <= i < filter.len() ==> #[trigger] filter[i] as u32 <= 0x7f,
    ensures
        is_plain_filter(filter),
{
    let parts = split(filter, ',');
    lemma_split_parts(filter, ',');
    assert forall|i: int| 0 <= i < parts.len() implies is_plain_directive(#[trigger] parts[i]) by {
        let part = parts[i];
        let inner = trimmed(part);
        assert forall|k: int| 0 <= k < part.len() implies #[trigger] part[k] as u32 <= 0x7f by {
            assert(filter.contains(parts[i][k]));
        }
        lemma_trimmed_within(part);
        assert forall|k: int| 0 <= k <= inner.len() implies #[trigger] can_be_cut(part, k) by {
            lemma_is_between(part, k);
            lemma_ascii_bytes(part.take(k));
            assert forall|n: int| 0 <= n < k implies #[trigger] inner.take(k)[n] as u32 <= 0x7f by {
                assert(inner.take(k)[n] == part[lead(part) + n]);
            }
            lemma_ascii_bytes(inner.take(k));
        }
        lemma_cuts_are_enough(part);
    }
}

} // verus!
