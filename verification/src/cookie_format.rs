use vstd::prelude::*;

verus! {

/// One cookie as the browser reports it: its name and its value.
pub struct CookiePair {
    pub name: String,
    pub value: String,
}

/// The text that stands for one cookie: `name=value`.
pub open spec fn pair_text(name: Seq<char>, value: Seq<char>) -> Seq<char> {
    name + seq!['='] + value
}

/// The `name=value` text of each cookie, in order.
pub open spec fn pair_texts(pairs: Seq<CookiePair>) -> Seq<Seq<char>> {
    pairs.map_values(|p: CookiePair| pair_text(p.name@, p.value@))
}

/// The parts, in order, with `sep` between each two neighbours.
pub open spec fn join_with(parts: Seq<Seq<char>>, sep: char) -> Seq<char>
    decreases parts.len(),
{
    if parts.len() == 0 {
        seq![]
    } else if parts.len() == 1 {
        parts[0]
    } else {
        join_with(parts.drop_last(), sep) + seq![sep] + parts.last()
    }
}

/// The cookie string of a list of cookies: `name=value` pairs joined by `;`.
pub open spec fn spec_cookie_string(pairs: Seq<CookiePair>) -> Seq<char> {
    join_with(pair_texts(pairs), ';')
}

/// Builds the cookie string that a reading session hands to its matcher:
/// each cookie as `name=value`, separated by `;`, in the order given.
pub fn cookie_string(pairs: &Vec<CookiePair>) -> (res: String)
    ensures
        res@ == spec_cookie_string(pairs@),
{
    let mut s = String::new();
    let n = pairs.len();
    for i in 0..n
        invariant
            n == pairs@.len(),
            s@ == join_with(pair_texts(pairs@.take(i as int)), ';'),
    {
        let ghost prev = pair_texts(pairs@.take(i as int));
        let ghost next = pair_texts(pairs@.take(i + 1));
        let ghost text = pair_text(pairs@[i as int].name@, pairs@[i as int].value@);
        assert(next.drop_last() == prev);
        assert(next.last() == text);
        proof {
            reveal_strlit("=");
            reveal_strlit(";");
        }
        let ghost before = s@;
        if i > 0 {
            s.append(";");
        }
        let p = &pairs[i];
        s.append(p.name.as_str());
        s.append("=");
        s.append(p.value.as_str());
        if i == 0 {
            assert(s@ == text);
        } else {
            assert(s@ == before + seq![';'] + text);
        }
    }
    assert(pairs@.take(n as int) == pairs@);
    s
}

/// There is one `name=value` text per cookie, in the cookies' order.
pub proof fn lemma_pair_texts(pairs: Seq<CookiePair>)
    ensures
        pair_texts(pairs).len() == pairs.len(),
        forall|i: int|
            0 <= i < pairs.len() ==> #[trigger] pair_texts(pairs)[i] == pairs[i].name@ + seq!['=']
                + pairs[i].value@,
{
}

/// No cookies give the empty cookie string.
pub proof fn lemma_cookie_string_empty()
    ensures
        spec_cookie_string(Seq::<CookiePair>::empty()) == Seq::<char>::empty(),
{
}

/// One cookie gives its name, `=`, and its value, and nothing else.
pub proof fn lemma_cookie_string_single(p: CookiePair)
    ensures
        spec_cookie_string(seq![p]) == p.name@ + seq!['='] + p.value@,
{
    lemma_pair_texts(seq![p]);
    assert(pair_texts(seq![p]).len() == 1);
}

/// One more cookie at the end of a non-empty list adds `;`, its name, `=`
/// and its value at the end of the cookie string, and changes nothing before.
/// With the two laws above, this fixes the cookie string of every list.
pub proof fn lemma_cookie_string_push(pairs: Seq<CookiePair>, p: CookiePair)
    requires
        pairs.len() >= 1,
    ensures
        spec_cookie_string(pairs.push(p)) == spec_cookie_string(pairs) + seq![';'] + p.name@
            + seq!['='] + p.value@,
{
    lemma_pair_texts(pairs);
    lemma_pair_texts(pairs.push(p));
    let t = pair_texts(pairs.push(p));
    assert(t.drop_last() =~= pair_texts(pairs));
    assert(t.last() == p.name@ + seq!['='] + p.value@);
    assert(t.len() >= 2);
}

/// The pieces of `s` between the occurrences of `sep`, in order; a string
/// without `sep` is one piece, the empty string one empty piece.
pub open spec fn split_on(s: Seq<char>, sep: char) -> Seq<Seq<char>>
    decreases s.len(),
{
    if s.len() == 0 {
        seq![seq![]]
    } else {
        let r = split_on(s.drop_last(), sep);
        if s.last() == sep {
            r.push(seq![])
        } else {
            r.update(r.len() - 1, r.last().push(s.last()))
        }
    }
}

/// `sep` does not occur in `s`.
pub open spec fn free_of(s: Seq<char>, sep: char) -> bool {
    forall|k: int| 0 <= k < s.len() ==> s[k] != sep
}

proof fn lemma_split_nonempty(s: Seq<char>, sep: char)
    ensures
        split_on(s, sep).len() >= 1,
    decreases s.len(),
{
    if s.len() > 0 {
        lemma_split_nonempty(s.drop_last(), sep);
    }
}

/// Appending text without a separator extends the last piece.
proof fn lemma_split_append_plain(a: Seq<char>, b: Seq<char>, sep: char)
    requires
        free_of(b, sep),
    ensures
        split_on(a + b, sep).len() == split_on(a, sep).len(),
        split_on(a + b, sep) == split_on(a, sep).update(
            split_on(a, sep).len() - 1,
            split_on(a, sep).last() + b,
        ),
    decreases b.len(),
{
    lemma_split_nonempty(a, sep);
    if b.len() == 0 {
        assert(a + b == a);
        assert(split_on(a, sep).last() + b == split_on(a, sep).last());
        assert(split_on(a, sep).update(split_on(a, sep).len() - 1, split_on(a, sep).last())
            == split_on(a, sep));
    } else {
        let b0 = b.drop_last();
        lemma_split_append_plain(a, b0, sep);
        assert((a + b).drop_last() == a + b0);
        assert((a + b).last() == b.last());
        let r = split_on(a, sep);
        assert(r.last() + b0 + seq![b.last()] == r.last() + b);
        assert(b0.push(b.last()) == b);
        assert((r.last() + b0).push(b.last()) == r.last() + b);
    }
}

/// Appending a separator starts a new, empty piece.
proof fn lemma_split_append_sep(a: Seq<char>, sep: char)
    ensures
        split_on(a + seq![sep], sep) == split_on(a, sep).push(seq![]),
{
    assert((a + seq![sep]).drop_last() == a);
}

/// Splitting a joined list at its separator gives the list back, when no part
/// holds the separator.
pub proof fn lemma_split_join(parts: Seq<Seq<char>>, sep: char)
    requires
        parts.len() >= 1,
        forall|i: int| 0 <= i < parts.len() ==> free_of(#[trigger] parts[i], sep),
    ensures
        split_on(join_with(parts, sep), sep) == parts,
    decreases parts.len(),
{
    if parts.len() == 1 {
        lemma_split_append_plain(seq![], parts[0], sep);
        assert(Seq::<char>::empty() + parts[0] == parts[0]);
        assert(split_on(Seq::<char>::empty(), sep) == seq![Seq::<char>::empty()]);
        assert(seq![Seq::<char>::empty()].last() + parts[0] == parts[0]);
        assert(split_on(parts[0], sep) == parts);
    } else {
        let init = parts.drop_last();
        assert forall|i: int| 0 <= i < init.len() implies free_of(#[trigger] init[i], sep) by {
            assert(init[i] == parts[i]);
        }
        lemma_split_join(init, sep);
        let j = join_with(init, sep);
        lemma_split_append_sep(j, sep);
        assert(free_of(parts.last(), sep)) by {
            assert(parts.last() == parts[parts.len() - 1]);
        }
        lemma_split_append_plain(j + seq![sep], parts.last(), sep);
        let r = split_on(j + seq![sep], sep);
        assert(r == init.push(seq![]));
        assert(r.last() + parts.last() == parts.last());
        assert(init.push(seq![]).update(init.len() as int, parts.last()) == parts);
    }
}

/// The cookie string can be taken apart again: split at `;`, it gives each
/// cookie's `name=value` text, in order, provided that there is at least one
/// cookie and that no name or value holds a `;`.
pub proof fn lemma_cookie_string_splits(pairs: Seq<CookiePair>)
    requires
        pairs.len() >= 1,
        forall|i: int|
            0 <= i < pairs.len() ==> free_of(#[trigger] pairs[i].name@, ';') && free_of(
                pairs[i].value@,
                ';',
            ),
    ensures
        split_on(spec_cookie_string(pairs), ';') == pair_texts(pairs),
        split_on(spec_cookie_string(pairs), ';').len() == pairs.len(),
        forall|i: int|
            0 <= i < pairs.len() ==> (#[trigger] split_on(spec_cookie_string(pairs), ';')[i])
                == pairs[i].name@ + seq!['='] + pairs[i].value@,
{
    lemma_pair_texts(pairs);
    let parts = pair_texts(pairs);
    assert forall|i: int| 0 <= i < parts.len() implies free_of(#[trigger] parts[i], ';') by {
        let p = pairs[i];
        assert(parts[i] == p.name@ + seq!['='] + p.value@);
        assert forall|k: int| 0 <= k < parts[i].len() implies parts[i][k] != ';' by {
            if k < p.name@.len() {
                assert(parts[i][k] == p.name@[k]);
            } else if k == p.name@.len() {
                assert(parts[i][k] == '=');
            } else {
                assert(parts[i][k] == p.value@[k - p.name@.len() - 1]);
            }
        }
    }
    lemma_split_join(parts, ';');
}

} // verus!
