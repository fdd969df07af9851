//! Command text: white space, trimming, comparison and the exit keyword.

use vstd::prelude::*;
use vstd::string::*;

verus! {

/// Whether `c` is one of the characters that Unicode gives the property
/// White_Space.
pub open spec fn is_space(c: char) -> bool {
    let n = c as u32;
    ||| 0x09 <= n <= 0x0D
    ||| n == 0x20
    ||| n == 0x85
    ||| n == 0xA0
    ||| n == 0x1680
    ||| 0x2000 <= n <= 0x200A
    ||| n == 0x2028
    ||| n == 0x2029
    ||| n == 0x202F
    ||| n == 0x205F
    ||| n == 0x3000
}

/// `s` without the white space it begins with.
pub open spec fn strip_front(s: Seq<char>) -> Seq<char>
    decreases s.len(),
{
    if s.len() > 0 && is_space(s[0]) {
        strip_front(s.drop_first())
    } else {
        s
    }
}

/// `s` without the white space it ends with.
pub open spec fn strip_back(s: Seq<char>) -> Seq<char>
    decreases s.len(),
{
    if s.len() > 0 && is_space(s.last()) {
        strip_back(s.drop_last())
    } else {
        s
    }
}

/// `s` without the white space that surrounds it.
pub open spec fn trimmed(s: Seq<char>) -> Seq<char> {
    strip_back(strip_front(s))
}

/// Whether `text` begins with `prefix`.
pub open spec fn has_prefix(text: Seq<char>, prefix: Seq<char>) -> bool {
    prefix.len() <= text.len() && text.subrange(0, prefix.len() as int) == prefix
}

/// Decides [`is_space`].
pub fn is_whitespace(c: char) -> (b: bool)
    ensures
        b == is_space(c),
{
    let n: u32 = c as u32;
    (0x09 <= n && n <= 0x0D) || n == 0x20 || n == 0x85 || n == 0xA0 || n == 0x1680 || (0x2000 <= n
        && n <= 0x200A) || n == 0x2028 || n == 0x2029 || n == 0x202F || n == 0x205F || n == 0x3000
}

/// The part of `line` that is left when the white space at both ends is
/// taken away.
pub fn trim(line: &str) -> (r: &str)
    ensures
        r@ == trimmed(line@),
{
    let n: usize = line.unicode_len();
    let mut start: usize = 0;
    assert(line@.skip(0) =~= line@);
    while start < n && is_whitespace(line.get_char(start))
        invariant
            start <= n,
            n == line@.len(),
            strip_front(line@) == strip_front(line@.skip(start as int)),
        decreases n - start,
    {
        assert(line@.skip(start as int).drop_first() =~= line@.skip(start + 1));
        start = start + 1;
    }
    let mut end: usize = n;
    while end > start && is_whitespace(line.get_char(end - 1))
        invariant
            start <= end <= n,
            n == line@.len(),
            strip_back(line@.skip(start as int)) == strip_back(
                line@.subrange(start as int, end as int),
            ),
        decreases end - start,
    {
        assert(line@.subrange(start as int, end as int).drop_last() =~= line@.subrange(
            start as int,
            end - 1,
        ));
        end = end - 1;
    }
    proof {
        assert(line@.skip(start as int) =~= line@.subrange(start as int, n as int));
    }
    line.substring_char(start, end)
}

/// Whether `a` and `b` hold the same characters.
pub fn same_text(a: &str, b: &str) -> (r: bool)
    ensures
        r == (a@ == b@),
{
    let n: usize = a.unicode_len();
    if n != b.unicode_len() {
        return false;
    }
    let mut i: usize = 0;
    while i < n
        invariant
            i <= n,
            n == a@.len(),
            n == b@.len(),
            a@.subrange(0, i as int) == b@.subrange(0, i as int),
        decreases n - i,
    {
        if a.get_char(i) != b.get_char(i) {
            return false;
        }
        assert(a@.subrange(0, i + 1) =~= a@.subrange(0, i as int).push(a@[i as int]));
        assert(b@.subrange(0, i + 1) =~= b@.subrange(0, i as int).push(b@[i as int]));
        i = i + 1;
    }
    assert(a@ =~= a@.subrange(0, n as int));
    assert(b@ =~= b@.subrange(0, n as int));
    true
}

/// Whether `text` begins with `prefix`.
pub fn starts_with(text: &str, prefix: &str) -> (r: bool)
    ensures
        r == has_prefix(text@, prefix@),
{
    let n: usize = prefix.unicode_len();
    if n > text.unicode_len() {
        return false;
    }
    same_text(text.substring_char(0, n), prefix)
}

/// Whether `s` is white space throughout.
pub open spec fn all_space(s: Seq<char>) -> bool {
    forall|i: int| 0 <= i < s.len() ==> is_space(#[trigger] s[i])
}

/// Whether `s` neither begins nor ends with white space.
pub open spec fn is_trim(s: Seq<char>) -> bool {
    s.len() > 0 ==> !is_space(s[0]) && !is_space(s.last())
}

proof fn lemma_strip_front_padding(pad: Seq<char>, rest: Seq<char>)
    requires
        all_space(pad),
    ensures
        strip_front(pad + rest) == strip_front(rest),
    decreases pad.len(),
{
    if pad.len() == 0 {
        assert(pad + rest =~= rest);
    } else {
        assert((pad + rest)[0] == pad[0]);
        assert((pad + rest).drop_first() =~= pad.drop_first() + rest);
        assert forall|i: int| 0 <= i < pad.drop_first().len() implies is_space(
            #[trigger] pad.drop_first()[i],
        ) by {
            assert(pad.drop_first()[i] == pad[i + 1]);
        }
        lemma_strip_front_padding(pad.drop_first(), rest);
    }
}

proof fn lemma_strip_back_padding(rest: Seq<char>, pad: Seq<char>)
    requires
        all_space(pad),
    ensures
        strip_back(rest + pad) == strip_back(rest),
    decreases pad.len(),
{
    if pad.len() == 0 {
        assert(rest + pad =~= rest);
    } else {
        assert((rest + pad).last() == pad.last());
        assert((rest + pad).drop_last() =~= rest + pad.drop_last());
        assert forall|i: int| 0 <= i < pad.drop_last().len() implies is_space(
            #[trigger] pad.drop_last()[i],
        ) by {
            assert(pad.drop_last()[i] == pad[i]);
        }
        lemma_strip_back_padding(rest, pad.drop_last());
    }
}

/// White space around a text is all that trimming takes away: of a text
/// that neither begins nor ends with white space, set between two runs of
/// white space, it leaves the text itself.
pub proof fn law_trim_removes_padding(before: Seq<char>, core: Seq<char>, behind: Seq<char>)
    requires
        all_space(before),
        all_space(behind),
        is_trim(core),
    ensures
        trimmed(before + core + behind) == core,
{
    assert(before + core + behind =~= before + (core + behind));
    lemma_strip_front_padding(before, core + behind);
    if core.len() == 0 {
        assert(core + behind =~= behind + core);
        lemma_strip_front_padding(behind, core);
    } else {
        assert((core + behind)[0] == core[0]);
        lemma_strip_back_padding(core, behind);
    }
}

/// Every text is white space, then what trimming leaves of it, then white
/// space again; and what is left neither begins nor ends with white space.
pub proof fn law_trim_splits(s: Seq<char>) -> (cut: (Seq<char>, Seq<char>))
    ensures
        s == cut.0 + trimmed(s) + cut.1,
        all_space(cut.0),
        all_space(cut.1),
        is_trim(trimmed(s)),
{
    let before = lemma_strip_front_splits(s);
    let behind = lemma_strip_back_splits(strip_front(s));
    let kept = trimmed(s);
    if kept.len() > 0 {
        assert(kept[0] == strip_front(s)[0]);
    }
    assert(s =~= before + kept + behind);
    (before, behind)
}

proof fn lemma_strip_front_splits(s: Seq<char>) -> (pad: Seq<char>)
    ensures
        s == pad + strip_front(s),
        all_space(pad),
        strip_front(s).len() > 0 ==> !is_space(strip_front(s)[0]),
    decreases s.len(),
{
    if s.len() > 0 && is_space(s[0]) {
        let inner = lemma_strip_front_splits(s.drop_first());
        let pad = seq![s[0]] + inner;
        let tail = s.drop_first();
        assert(s =~= seq![s[0]] + tail);
        assert(seq![s[0]] + (inner + strip_front(tail)) =~= pad + strip_front(tail));
        pad
    } else {
        let pad = Seq::<char>::empty();
        assert(s =~= pad + strip_front(s));
        pad
    }
}

proof fn lemma_strip_back_splits(s: Seq<char>) -> (pad: Seq<char>)
    ensures
        s == strip_back(s) + pad,
        all_space(pad),
        strip_back(s).len() > 0 ==> !is_space(strip_back(s).last()),
        strip_back(s).len() > 0 ==> strip_back(s)[0] == s[0],
    decreases s.len(),
{
    if s.len() > 0 && is_space(s.last()) {
        let inner = lemma_strip_back_splits(s.drop_last());
        let pad = inner.push(s.last());
        let front = s.drop_last();
        assert(s =~= front.push(s.last()));
        assert((strip_back(front) + inner).push(s.last()) =~= strip_back(front) + pad);
        pad
    } else {
        let pad = Seq::<char>::empty();
        assert(s =~= strip_back(s) + pad);
        pad
    }
}

} // verus!
