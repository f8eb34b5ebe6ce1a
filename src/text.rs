//! Joining, cutting and rendering text.

use vstd::prelude::*;

verus! {

/// The views of a sequence of strings.
pub open spec fn views_of(strings: Seq<String>) -> Seq<Seq<char>> {
    strings.map_values(|s: String| s@)
}

/// `parts` with `sep` between each two neighbours.
pub open spec fn join_with(parts: Seq<Seq<char>>, sep: Seq<char>) -> Seq<char>
    decreases parts.len(),
{
    if parts.len() == 0 {
        Seq::empty()
    } else if parts.len() == 1 {
        parts[0]
    } else {
        join_with(parts.drop_last(), sep) + sep + parts.last()
    }
}

/// `parts` with `sep` between each two neighbours.
pub fn join(parts: &[String], sep: &str) -> (r: String)
    ensures
        r@ == join_with(views_of(parts@), sep@),
{
    let ghost all = views_of(parts@);
    let mut joined = String::new();
    let mut i: usize = 0;
    while i < parts.len()
        invariant
            i <= parts.len(),
            all == views_of(parts@),
            joined@ == join_with(all.subrange(0, i as int), sep@),
        decreases parts.len() - i,
    {
        if i > 0 {
            joined.append(sep);
        }
        joined.append(parts[i].as_str());
        proof {
            let next = all.subrange(0, i + 1);
            assert(next.drop_last() =~= all.subrange(0, i as int));
            assert(next.last() == parts@[i as int]@);
            assert(joined@ =~= join_with(next, sep@));
        }
        i = i + 1;
    }
    proof {
        assert(all.subrange(0, i as int) =~= all);
    }
    joined
}

/// The part of `s` before its first `T`; all of `s` if it has none.
pub open spec fn before_first_t(s: Seq<char>) -> Seq<char>
    decreases s.len(),
{
    if s.len() == 0 || s[0] == 'T' {
        Seq::empty()
    } else {
        seq![s[0]] + before_first_t(s.drop_first())
    }
}

/// Where `s` has no `T` before `i`, and `i` is its end or a `T`, the part before the
/// first `T` is the first `i` characters.
proof fn lemma_before_first_t(s: Seq<char>, i: int)
    requires
        0 <= i <= s.len(),
        forall|j: int| 0 <= j < i ==> s[j] != 'T',
        i == s.len() || s[i] == 'T',
    ensures
        before_first_t(s) == s.take(i),
    decreases i,
{
    if i > 0 {
        let rest = s.drop_first();
        assert forall|j: int| 0 <= j < i - 1 implies rest[j] != 'T' by {
            assert(rest[j] == s[j + 1]);
        }
        lemma_before_first_t(rest, i - 1);
        assert(seq![s[0]] + rest.take(i - 1) =~= s.take(i));
    } else {
        assert(s.take(0) =~= Seq::<char>::empty());
    }
}

/// The part of `s` before its first `T`; all of `s` if it has none.
pub fn date_part(s: &str) -> (r: String)
    ensures
        r@ == before_first_t(s@),
{
    let n = s.unicode_len();
    let mut i: usize = 0;
    while i < n && s.get_char(i) != 'T'
        invariant
            i <= n,
            n == s@.len(),
            forall|j: int| 0 <= j < i ==> s@[j] != 'T',
        decreases n - i,
    {
        i = i + 1;
    }
    proof {
        lemma_before_first_t(s@, i as int);
    }
    s.substring_char(0, i).to_owned()
}

/// `s` with every tab written twice.
pub open spec fn tabs_doubled(s: Seq<char>) -> Seq<char>
    decreases s.len(),
{
    if s.len() == 0 {
        Seq::empty()
    } else if s.last() == '\t' {
        tabs_doubled(s.drop_last()) + seq!['\t', '\t']
    } else {
        tabs_doubled(s.drop_last()) + seq![s.last()]
    }
}

/// A stretch without tabs is taken over as it is.
proof fn lemma_tabs_doubled_plain(s: Seq<char>, start: int, end: int)
    requires
        0 <= start <= end <= s.len(),
        forall|j: int| start <= j < end ==> s[j] != '\t',
    ensures
        tabs_doubled(s.take(end)) == tabs_doubled(s.take(start)) + s.subrange(start, end),
    decreases end - start,
{
    if end > start {
        lemma_tabs_doubled_plain(s, start, end - 1);
        assert(s.take(end).drop_last() =~= s.take(end - 1));
        assert(s.subrange(start, end) =~= s.subrange(start, end - 1).push(s[end - 1]));
    } else {
        assert(s.subrange(start, end) =~= Seq::<char>::empty());
    }
}

/// `s` with every tab written twice.
pub fn double_tabs(s: &str) -> (r: String)
    ensures
        r@ == tabs_doubled(s@),
{
    let n = s.unicode_len();
    let mut out = String::new();
    let mut start: usize = 0;
    let mut i: usize = 0;
    while i < n
        invariant
            start <= i <= n,
            n == s@.len(),
            out@ == tabs_doubled(s@.take(start as int)),
            forall|j: int| start <= j < i ==> s@[j] != '\t',
        decreases n - i,
    {
        if s.get_char(i) == '\t' {
            proof {
                lemma_tabs_doubled_plain(s@, start as int, i as int);
                assert(s@.take(i + 1).drop_last() =~= s@.take(i as int));
            }
            out.append(s.substring_char(start, i));
            out.append("\t\t");
            proof {
                reveal_strlit("\t\t");
                assert(s@.take(i + 1).last() == '\t');
                assert(out@ =~= tabs_doubled(s@.take(i + 1)));
            }
            start = i + 1;
        }
        i = i + 1;
    }
    proof {
        lemma_tabs_doubled_plain(s@, start as int, n as int);
        assert(s@.take(n as int) =~= s@);
    }
    out.append(s.substring_char(start, n));
    out
}

/// The decimal digits of `n`, most significant first, without sign or padding.
pub open spec fn decimal(n: nat) -> Seq<char>
    decreases n,
{
    let digit = seq!['0', '1', '2', '3', '4', '5', '6', '7', '8', '9'][(n % 10) as int];
    if n < 10 {
        seq![digit]
    } else {
        decimal(n / 10).push(digit)
    }
}

/// Relies on the `Display` of `usize`, through `ToString::to_string`: the decimal
/// digits of `n`, without sign or padding.
#[verifier::external_body]
pub(crate) fn decimal_text(n: usize) -> (r: String)
    ensures
        r@ == decimal(n as nat),
{
    n.to_string()
}

} // verus!
