//! Escaping of overlay text for the encoder's text-filter syntax.
//!
//! The text filter reads backslash, colon and single quote as syntax. Each is
//! made literal by a backslash in front of it. The escaping runs as three
//! passes in a fixed order (backslash, colon, quote): with any pass before
//! the backslash pass, the backslashes that pass inserts would be doubled.

use vstd::prelude::*;
use crate::text::{chars_of, string_of_range};

verus! {

/// What one character becomes when every `target` is replaced by `with`.
pub open spec fn replacement_of(c: char, target: char, with: Seq<char>) -> Seq<char> {
    if c == target {
        with
    } else {
        seq![c]
    }
}

/// `s` with every occurrence of `target` replaced by `with`.
pub open spec fn replaced(s: Seq<char>, target: char, with: Seq<char>) -> Seq<char>
    decreases s.len(),
{
    if s.len() == 0 {
        Seq::empty()
    } else {
        replaced(s.drop_last(), target, with) + replacement_of(s.last(), target, with)
    }
}

/// `s` with every backslash doubled.
pub open spec fn escaped_backslashes(s: Seq<char>) -> Seq<char> {
    replaced(s, '\\', seq!['\\', '\\'])
}

/// The three escaping passes in their fixed order: backslash, colon, quote.
pub open spec fn escaped_chars(s: Seq<char>) -> Seq<char> {
    replaced(replaced(escaped_backslashes(s), ':', seq!['\\', ':']), '\'', seq!['\\', '\''])
}

/// The same three passes with the colon pass moved in front of the backslash
/// pass: the order that must not be used.
pub open spec fn colon_first_chars(s: Seq<char>) -> Seq<char> {
    replaced(escaped_backslashes(replaced(s, ':', seq!['\\', ':'])), '\'', seq!['\\', '\''])
}

/// The characters that the text filter reads as syntax.
pub open spec fn is_special(c: char) -> bool {
    c == '\\' || c == ':' || c == '\''
}

/// A special character with one backslash in front; any other character as it is.
pub open spec fn escaped_one(c: char) -> Seq<char> {
    if is_special(c) {
        seq!['\\', c]
    } else {
        seq![c]
    }
}

/// `s` with each character escaped on its own.
pub open spec fn escaped_each(s: Seq<char>) -> Seq<char>
    decreases s.len(),
{
    if s.len() == 0 {
        Seq::empty()
    } else {
        escaped_each(s.drop_last()) + escaped_one(s.last())
    }
}

/// The characters of `s` that are not special, in order.
pub open spec fn plain_text(s: Seq<char>) -> Seq<char> {
    s.filter(|c: char| !is_special(c))
}

/// The characters with the Unicode property White_Space.
pub open spec fn is_whitespace(c: char) -> bool {
    let n = c as u32;
    ||| 0x09 <= n <= 0x0d
    ||| n == 0x20
    ||| n == 0x85
    ||| n == 0xa0
    ||| n == 0x1680
    ||| 0x2000 <= n <= 0x200a
    ||| n == 0x2028
    ||| n == 0x2029
    ||| n == 0x202f
    ||| n == 0x205f
    ||| n == 0x3000
}

/// `s` without its leading whitespace.
pub open spec fn trimmed_start(s: Seq<char>) -> Seq<char>
    decreases s.len(),
{
    if s.len() > 0 && is_whitespace(s.first()) {
        trimmed_start(s.drop_first())
    } else {
        s
    }
}

/// `s` without its trailing whitespace.
pub open spec fn trimmed_end(s: Seq<char>) -> Seq<char>
    decreases s.len(),
{
    if s.len() > 0 && is_whitespace(s.last()) {
        trimmed_end(s.drop_last())
    } else {
        s
    }
}

/// `s` without the whitespace around it.
pub open spec fn trimmed(s: Seq<char>) -> Seq<char> {
    trimmed_end(trimmed_start(s))
}

/// Overlay text as it is embedded in the filter expression: escaped, then trimmed.
pub open spec fn escaped_overlay_text(s: Seq<char>) -> Seq<char> {
    trimmed(escaped_chars(s))
}

/// Replaces every `target` in `s` by `with`.
pub fn replace_char(s: &str, target: char, with: &str) -> (out: String)
    ensures
        out@ == replaced(s@, target, with@),
{
    let mut out = String::new();
    for c in iter: s.chars()
        invariant
            iter.seq() == s@,
            out@ == replaced(iter.seq().take(iter.index() as int), target, with@),
    {
        proof {
            let done = iter.seq().take(iter.index() as int);
            let next = iter.seq().take(iter.index() as int + 1);
            assert(next.drop_last() == done);
            assert(next.last() == c);
        }
        if c == target {
            out.append(with);
        } else {
            out.push(c);
        }
    }
    proof {
        assert(s@.take(s@.len() as int) == s@);
    }
    out
}

/// Tells whether `c` is whitespace.
pub fn is_whitespace_char(c: char) -> (b: bool)
    ensures
        b == is_whitespace(c),
{
    let n: u32 = c as u32;
    (0x09 <= n && n <= 0x0d) || n == 0x20 || n == 0x85 || n == 0xa0 || n == 0x1680 || (0x2000 <= n
        && n <= 0x200a) || n == 0x2028 || n == 0x2029 || n == 0x202f || n == 0x205f || n == 0x3000
}

/// Removes the whitespace around `s`.
pub fn trim(s: &str) -> (out: String)
    ensures
        out@ == trimmed(s@),
{
    let chars = chars_of(s);
    let n = chars.len();
    let mut start: usize = 0;
    assert(chars@.subrange(0, n as int) == chars@);
    while start < n && is_whitespace_char(chars[start])
        invariant
            start <= n == chars.len(),
            trimmed_start(chars@) == trimmed_start(chars@.subrange(start as int, n as int)),
        decreases n - start,
    {
        proof {
            let rest = chars@.subrange(start as int, n as int);
            assert(rest.first() == chars@[start as int]);
            assert(rest.drop_first() == chars@.subrange(start as int + 1, n as int));
        }
        start += 1;
    }
    let mut end: usize = n;
    while end > start && is_whitespace_char(chars[end - 1])
        invariant
            start <= end <= n == chars.len(),
            trimmed_end(chars@.subrange(start as int, n as int)) == trimmed_end(
                chars@.subrange(start as int, end as int),
            ),
        decreases end - start,
    {
        proof {
            let rest = chars@.subrange(start as int, end as int);
            assert(rest.last() == chars@[end as int - 1]);
            assert(rest.drop_last() == chars@.subrange(start as int, end as int - 1));
        }
        end -= 1;
    }
    proof {
        let kept = chars@.subrange(start as int, n as int);
        if start < n {
            assert(kept.first() == chars@[start as int]);
        }
        assert(trimmed_start(kept) == kept);
        let core = chars@.subrange(start as int, end as int);
        if end > start {
            assert(core.last() == chars@[end as int - 1]);
        }
        assert(trimmed_end(core) == core);
    }
    string_of_range(&chars, start, end)
}

/// Doubles every backslash of `path`, as the filter expression needs it for
/// the font file's path.
pub fn escape_backslashes(path: &str) -> (out: String)
    ensures
        out@ == escaped_backslashes(path@),
{
    proof {
        reveal_strlit("\\\\");
        assert("\\\\"@ == seq!['\\', '\\']);
    }
    replace_char(path, '\\', "\\\\")
}

/// Escapes overlay text for the text filter: backslash, colon and single
/// quote each get a backslash in front, in three passes in that order, and
/// the whitespace around the result is removed.
pub fn escape_overlay_text(text: &str) -> (out: String)
    ensures
        out@ == escaped_overlay_text(text@),
{
    proof {
        reveal_strlit("\\:");
        reveal_strlit("\\'");
        assert("\\:"@ == seq!['\\', ':']);
        assert("\\'"@ == seq!['\\', '\'']);
    }
    let backslashes = escape_backslashes(text);
    let colons = replace_char(backslashes.as_str(), ':', "\\:");
    let quotes = replace_char(colons.as_str(), '\'', "\\'");
    trim(quotes.as_str())
}

/// No character of `s` is special.
pub open spec fn is_plain(s: Seq<char>) -> bool {
    forall|i: int| 0 <= i < s.len() ==> !is_special(#[trigger] s[i])
}

proof fn lemma_replaced_concat(a: Seq<char>, b: Seq<char>, target: char, with: Seq<char>)
    ensures
        replaced(a + b, target, with) == replaced(a, target, with) + replaced(b, target, with),
    decreases b.len(),
{
    if b.len() == 0 {
        assert(a + b == a);
        assert(replaced(a, target, with) + Seq::<char>::empty() == replaced(a, target, with));
    } else {
        assert((a + b).drop_last() == a + b.drop_last());
        assert((a + b).last() == b.last());
        lemma_replaced_concat(a, b.drop_last(), target, with);
        let head = replaced(a, target, with);
        let middle = replaced(b.drop_last(), target, with);
        let tail = replacement_of(b.last(), target, with);
        assert((head + middle) + tail == head + (middle + tail));
    }
}

proof fn lemma_replaced_single(c: char, target: char, with: Seq<char>)
    ensures
        replaced(seq![c], target, with) == replacement_of(c, target, with),
{
    let s = seq![c];
    assert(s.drop_last() == Seq::<char>::empty());
    assert(replaced(s.drop_last(), target, with) == Seq::<char>::empty());
    assert(Seq::<char>::empty() + replacement_of(c, target, with) == replacement_of(
        c,
        target,
        with,
    ));
}

proof fn lemma_replaced_pair(a: char, b: char, target: char, with: Seq<char>)
    ensures
        replaced(seq![a, b], target, with) == replacement_of(a, target, with) + replacement_of(
            b,
            target,
            with,
        ),
{
    assert(seq![a, b] == seq![a] + seq![b]);
    lemma_replaced_concat(seq![a], seq![b], target, with);
    lemma_replaced_single(a, target, with);
    lemma_replaced_single(b, target, with);
}

proof fn lemma_escaped_chars_concat(a: Seq<char>, b: Seq<char>)
    ensures
        escaped_chars(a + b) == escaped_chars(a) + escaped_chars(b),
{
    let bs = seq!['\\', '\\'];
    let cs = seq!['\\', ':'];
    let qs = seq!['\\', '\''];
    lemma_replaced_concat(a, b, '\\', bs);
    lemma_replaced_concat(replaced(a, '\\', bs), replaced(b, '\\', bs), ':', cs);
    lemma_replaced_concat(
        replaced(replaced(a, '\\', bs), ':', cs),
        replaced(replaced(b, '\\', bs), ':', cs),
        '\'',
        qs,
    );
}

proof fn lemma_colon_first_concat(a: Seq<char>, b: Seq<char>)
    ensures
        colon_first_chars(a + b) == colon_first_chars(a) + colon_first_chars(b),
{
    let bs = seq!['\\', '\\'];
    let cs = seq!['\\', ':'];
    let qs = seq!['\\', '\''];
    lemma_replaced_concat(a, b, ':', cs);
    lemma_replaced_concat(replaced(a, ':', cs), replaced(b, ':', cs), '\\', bs);
    lemma_replaced_concat(
        replaced(replaced(a, ':', cs), '\\', bs),
        replaced(replaced(b, ':', cs), '\\', bs),
        '\'',
        qs,
    );
}

proof fn lemma_escaped_chars_single(c: char)
    ensures
        escaped_chars(seq![c]) == escaped_one(c),
{
    let bs = seq!['\\', '\\'];
    let cs = seq!['\\', ':'];
    let qs = seq!['\\', '\''];
    lemma_replaced_single(c, '\\', bs);
    if c == '\\' {
        lemma_replaced_pair('\\', '\\', ':', cs);
        assert(seq!['\\'] + seq!['\\'] == bs);
        lemma_replaced_pair('\\', '\\', '\'', qs);
    } else if c == ':' {
        lemma_replaced_single(c, ':', cs);
        lemma_replaced_pair('\\', ':', '\'', qs);
        assert(seq!['\\'] + seq![':'] == cs);
    } else {
        lemma_replaced_single(c, ':', cs);
        lemma_replaced_single(c, '\'', qs);
    }
}

proof fn lemma_colon_first_single(c: char)
    ensures
        colon_first_chars(seq![c]) == if c == ':' {
            seq!['\\', '\\', ':']
        } else {
            escaped_one(c)
        },
{
    let bs = seq!['\\', '\\'];
    let cs = seq!['\\', ':'];
    let qs = seq!['\\', '\''];
    lemma_replaced_single(c, ':', cs);
    if c == ':' {
        lemma_replaced_pair('\\', ':', '\\', bs);
        let doubled = seq!['\\', '\\', ':'];
        assert(bs + seq![':'] == doubled);
        assert(doubled == seq!['\\', '\\'] + seq![':']);
        lemma_replaced_concat(seq!['\\', '\\'], seq![':'], '\'', qs);
        lemma_replaced_pair('\\', '\\', '\'', qs);
        lemma_replaced_single(':', '\'', qs);
        assert(seq!['\\'] + seq!['\\'] == bs);
    } else if c == '\\' {
        lemma_replaced_single(c, '\\', bs);
        lemma_replaced_pair('\\', '\\', '\'', qs);
        assert(seq!['\\'] + seq!['\\'] == bs);
    } else {
        lemma_replaced_single(c, '\\', bs);
        lemma_replaced_single(c, '\'', qs);
    }
}

/// The three passes in their fixed order put exactly one backslash in front
/// of each backslash, colon and single quote of the input, and change nothing
/// else: no backslash that a pass inserted is escaped again.
pub proof fn lemma_escape_is_per_character(s: Seq<char>)
    ensures
        escaped_chars(s) == escaped_each(s),
    decreases s.len(),
{
    if s.len() == 0 {
        assert(replaced(s, '\\', seq!['\\', '\\']) == Seq::<char>::empty());
        assert(escaped_chars(s) == Seq::<char>::empty());
    } else {
        assert(s == s.drop_last() + seq![s.last()]);
        lemma_escaped_chars_concat(s.drop_last(), seq![s.last()]);
        lemma_escaped_chars_single(s.last());
        lemma_escape_is_per_character(s.drop_last());
    }
}

/// Escaping leaves every character other than backslash, colon and single
/// quote where it was: what `s` holds beside those three is what its escaped
/// form holds beside them, in the same order. This holds of text that was
/// escaped before as of any other.
pub proof fn lemma_escape_keeps_plain_text(s: Seq<char>)
    ensures
        plain_text(escaped_chars(s)) == plain_text(s),
    decreases s.len(),
{
    let keep = |c: char| !is_special(c);
    lemma_escape_is_per_character(s);
    reveal(Seq::filter);
    if s.len() > 0 {
        let front = s.drop_last();
        let c = s.last();
        lemma_escape_keeps_plain_text(front);
        lemma_escape_is_per_character(front);
        Seq::filter_distributes_over_add(escaped_each(front), escaped_one(c), keep);
        if is_special(c) {
            let pair = seq!['\\', c];
            assert(pair.drop_last() == seq!['\\']);
            assert(seq!['\\'].drop_last() == Seq::<char>::empty());
            assert(Seq::<char>::empty().filter(keep) == Seq::<char>::empty());
            assert(seq!['\\'].filter(keep) == Seq::<char>::empty());
            assert(pair.filter(keep) == Seq::<char>::empty());
            assert(plain_text(front) + Seq::<char>::empty() == plain_text(front));
        } else {
            assert(seq![c].drop_last() == Seq::<char>::empty());
            assert(seq![c].filter(keep) == seq![c]);
            assert(plain_text(front) + seq![c] == plain_text(front).push(c));
        }
    }
}

/// Text without a backslash, colon or single quote passes through the three
/// passes unchanged.
pub proof fn lemma_escape_leaves_plain_unchanged(s: Seq<char>)
    requires
        is_plain(s),
    ensures
        escaped_chars(s) == s,
    decreases s.len(),
{
    lemma_escape_is_per_character(s);
    if s.len() > 0 {
        let front = s.drop_last();
        assert(is_plain(front)) by {
            assert forall|i: int| 0 <= i < front.len() implies !is_special(#[trigger] front[i]) by {
                assert(front[i] == s[i]);
            }
        }
        lemma_escape_leaves_plain_unchanged(front);
        lemma_escape_is_per_character(front);
        assert(!is_special(s[s.len() - 1]));
        assert(front + seq![s.last()] == s);
    }
}

proof fn lemma_trimmed_start_shape(s: Seq<char>)
    ensures
        trimmed_start(s).len() <= s.len(),
        trimmed_start(s) == s.subrange(s.len() - trimmed_start(s).len(), s.len() as int),
        trimmed_start(s).len() > 0 ==> !is_whitespace(trimmed_start(s).first()),
    decreases s.len(),
{
    if s.len() > 0 && is_whitespace(s.first()) {
        let rest = s.drop_first();
        lemma_trimmed_start_shape(rest);
        let kept = trimmed_start(rest);
        assert(rest.subrange(rest.len() - kept.len(), rest.len() as int) == s.subrange(
            s.len() - kept.len(),
            s.len() as int,
        ));
    } else {
        assert(s.subrange(0, s.len() as int) == s);
    }
}

proof fn lemma_trimmed_end_shape(s: Seq<char>)
    ensures
        trimmed_end(s).len() <= s.len(),
        trimmed_end(s) == s.subrange(0, trimmed_end(s).len() as int),
        trimmed_end(s).len() > 0 ==> !is_whitespace(trimmed_end(s).last()),
    decreases s.len(),
{
    if s.len() > 0 && is_whitespace(s.last()) {
        let rest = s.drop_last();
        lemma_trimmed_end_shape(rest);
        let kept = trimmed_end(rest);
        assert(rest.subrange(0, kept.len() as int) == s.subrange(0, kept.len() as int));
    } else {
        assert(s.subrange(0, s.len() as int) == s);
    }
}

/// What trimming returns is a stretch of its input that neither starts nor
/// ends with whitespace.
pub proof fn lemma_trimmed_shape(s: Seq<char>)
    ensures
        exists|from: int, to: int|
            0 <= from <= to <= s.len() && trimmed(s) == #[trigger] s.subrange(from, to),
        trimmed(s).len() > 0 ==> !is_whitespace(trimmed(s).first()) && !is_whitespace(
            trimmed(s).last(),
        ),
{
    let inner = trimmed_start(s);
    lemma_trimmed_start_shape(s);
    lemma_trimmed_end_shape(inner);
    let from = s.len() - inner.len();
    let to = from + trimmed(s).len();
    assert(inner.subrange(0, trimmed(s).len() as int) == s.subrange(from, to));
    if trimmed(s).len() > 0 {
        assert(trimmed(s).first() == inner.first());
    }
}

/// Trimming what is already trimmed changes nothing.
pub proof fn lemma_trimmed_idempotent(s: Seq<char>)
    ensures
        trimmed(trimmed(s)) == trimmed(s),
{
    lemma_trimmed_shape(s);
}

/// On text without a backslash, colon or single quote, escaping twice gives
/// what escaping once gives.
pub proof fn lemma_escape_idempotent_on_plain(s: Seq<char>)
    requires
        is_plain(s),
    ensures
        escaped_overlay_text(escaped_overlay_text(s)) == escaped_overlay_text(s),
{
    lemma_escape_leaves_plain_unchanged(s);
    lemma_trimmed_shape(s);
    let once = trimmed(s);
    let (from, to) = choose|from: int, to: int|
        0 <= from <= to <= s.len() && trimmed(s) == #[trigger] s.subrange(from, to);
    assert(is_plain(once)) by {
        assert forall|i: int| 0 <= i < once.len() implies !is_special(#[trigger] once[i]) by {
            assert(once[i] == s[from + i]);
        }
    }
    lemma_escape_leaves_plain_unchanged(once);
    lemma_trimmed_idempotent(s);
}

proof fn lemma_escaped_each_concat(a: Seq<char>, b: Seq<char>)
    ensures
        escaped_each(a + b) == escaped_each(a) + escaped_each(b),
{
    lemma_escape_is_per_character(a + b);
    lemma_escape_is_per_character(a);
    lemma_escape_is_per_character(b);
    lemma_escaped_chars_concat(a, b);
}

proof fn lemma_escaped_each_single(c: char)
    ensures
        escaped_each(seq![c]) == escaped_one(c),
{
    lemma_escape_is_per_character(seq![c]);
    lemma_escaped_chars_single(c);
}

proof fn lemma_trim_start_commutes(s: Seq<char>)
    ensures
        trimmed_start(escaped_each(s)) == escaped_each(trimmed_start(s)),
    decreases s.len(),
{
    if s.len() > 0 {
        let rest = s.drop_first();
        assert(s == seq![s.first()] + rest);
        lemma_escaped_each_concat(seq![s.first()], rest);
        lemma_escaped_each_single(s.first());
        let escaped = escaped_each(s);
        assert(escaped == escaped_one(s.first()) + escaped_each(rest));
        if is_whitespace(s.first()) {
            assert(!is_special(s.first()));
            assert(escaped.first() == s.first());
            assert(escaped.drop_first() == escaped_each(rest));
            lemma_trim_start_commutes(rest);
        } else {
            assert(escaped.first() == escaped_one(s.first()).first());
            assert(!is_whitespace(escaped.first()));
        }
    }
}

proof fn lemma_trim_end_commutes(s: Seq<char>)
    ensures
        trimmed_end(escaped_each(s)) == escaped_each(trimmed_end(s)),
    decreases s.len(),
{
    if s.len() > 0 {
        let front = s.drop_last();
        let escaped = escaped_each(s);
        assert(escaped.last() == escaped_one(s.last()).last());
        assert(escaped.last() == s.last());
        if is_whitespace(s.last()) {
            assert(!is_special(s.last()));
            assert(escaped.drop_last() == escaped_each(front));
            lemma_trim_end_commutes(front);
        }
    }
}

/// Escaping and trimming do not get in each other's way: the escaped and
/// trimmed text is the trimmed text with each of its characters escaped on
/// its own.
pub proof fn lemma_escape_commutes_with_trim(s: Seq<char>)
    ensures
        escaped_overlay_text(s) == escaped_each(trimmed(s)),
        escaped_overlay_text(s) == escaped_chars(trimmed(s)),
{
    lemma_escape_is_per_character(s);
    lemma_escape_is_per_character(trimmed(s));
    lemma_trim_start_commutes(s);
    lemma_trim_end_commutes(trimmed_start(s));
}

/// What the escaped overlay text holds beside backslashes, colons and single
/// quotes is what the trimmed input holds beside them, in the same order,
/// whether or not the input was escaped before.
pub proof fn lemma_escaped_text_keeps_plain_text(s: Seq<char>)
    ensures
        plain_text(escaped_overlay_text(s)) == plain_text(trimmed(s)),
{
    lemma_escape_commutes_with_trim(s);
    lemma_escape_keeps_plain_text(trimmed(s));
}

proof fn lemma_colon_first_longer(s: Seq<char>)
    ensures
        colon_first_chars(s).len() >= escaped_chars(s).len(),
        s.contains(':') ==> colon_first_chars(s).len() > escaped_chars(s).len(),
    decreases s.len(),
{
    if s.len() == 0 {
        assert(replaced(s, ':', seq!['\\', ':']) == Seq::<char>::empty());
        assert(replaced(s, '\\', seq!['\\', '\\']) == Seq::<char>::empty());
    } else {
        let front = s.drop_last();
        assert(s == front + seq![s.last()]);
        lemma_escaped_chars_concat(front, seq![s.last()]);
        lemma_colon_first_concat(front, seq![s.last()]);
        lemma_escaped_chars_single(s.last());
        lemma_colon_first_single(s.last());
        lemma_colon_first_longer(front);
        if s.contains(':') && s.last() != ':' {
            let i = choose|i: int| 0 <= i < s.len() && s[i] == ':';
            assert(front[i] == ':');
        }
    }
}

/// The order of the passes matters: on any text that holds a colon, running
/// the colon pass before the backslash pass gives another result than the
/// fixed order, because the backslash put in front of the colon is doubled.
pub proof fn lemma_escape_order_matters(s: Seq<char>)
    requires
        s.contains(':'),
    ensures
        colon_first_chars(s) != escaped_chars(s),
{
    lemma_colon_first_longer(s);
}

} // verus!
