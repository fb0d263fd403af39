use vstd::prelude::*;

verus! {

/// `needle` stands in `hay` starting at character position `i`.
pub open spec fn occurs_at(hay: Seq<char>, needle: Seq<char>, i: int) -> bool {
    &&& 0 <= i
    &&& i + needle.len() <= hay.len()
    &&& hay.subrange(i, i + needle.len()) == needle
}

/// `needle` stands somewhere in `hay`.
pub open spec fn spec_contains(hay: Seq<char>, needle: Seq<char>) -> bool {
    exists|i: int| occurs_at(hay, needle, i)
}

/// From position `i` on, the characters of `hay` are those of `needle`, one
/// by one.
pub open spec fn agrees_from(hay: Seq<char>, needle: Seq<char>, i: int) -> bool {
    &&& 0 <= i
    &&& i + needle.len() <= hay.len()
    &&& forall|k: int| 0 <= k < needle.len() ==> #[trigger] hay[i + k] == needle[k]
}

/// `needle` stands in `hay` exactly when, from some position on, the
/// characters of `hay` are those of `needle`, one by one.
pub proof fn lemma_contains_char_by_char(hay: Seq<char>, needle: Seq<char>)
    ensures
        spec_contains(hay, needle) <==> exists|i: int| #[trigger] agrees_from(hay, needle, i),
{
    if spec_contains(hay, needle) {
        let i = choose|i: int| occurs_at(hay, needle, i);
        assert forall|k: int| 0 <= k < needle.len() implies #[trigger] hay[i + k] == needle[k] by {
            assert(hay.subrange(i, i + needle.len())[k] == hay[i + k]);
        }
        assert(agrees_from(hay, needle, i));
    }
    if exists|i: int| #[trigger] agrees_from(hay, needle, i) {
        let i = choose|i: int| #[trigger] agrees_from(hay, needle, i);
        assert forall|k: int| 0 <= k < needle.len() implies hay.subrange(i, i + needle.len())[k]
            == needle[k] by {
            assert(hay[i + k] == needle[k]);
        }
        assert(hay.subrange(i, i + needle.len()) =~= needle);
        assert(occurs_at(hay, needle, i));
    }
}

/// A string stands in any string that is built around it, and in no string
/// shorter than itself.
pub proof fn lemma_contains_laws(before: Seq<char>, needle: Seq<char>, after: Seq<char>)
    ensures
        spec_contains(before + needle + after, needle),
        spec_contains(needle, needle),
        needle.len() > before.len() ==> !spec_contains(before, needle),
{
    let h = before + needle + after;
    assert(h.subrange(before.len() as int, (before.len() + needle.len()) as int) =~= needle);
    assert(occurs_at(h, needle, before.len() as int));
    assert(needle.subrange(0, needle.len() as int) =~= needle);
    assert(occurs_at(needle, needle, 0));
}

/// The characters of a string, in order.
pub fn chars_of(s: &str) -> (v: Vec<char>)
    ensures
        v@ == s@,
{
    broadcast use vstd::string::axiom_spec_iter;
    let mut v: Vec<char> = Vec::new();
    for c in it: s.chars()
        invariant
            it.seq() == s@,
            v.len() == it.index(),
            forall|k: int| 0 <= k < v.len() ==> v@[k] == it.seq()[k],
    {
        v.push(c);
    }
    assert(v@ == s@);
    v
}

/// Whether `needle` stands in `hay` at position `i`, comparing character by
/// character.
fn matches_at(hay: &Vec<char>, needle: &Vec<char>, i: usize) -> (r: bool)
    requires
        i + needle.len() <= hay.len(),
    ensures
        r == occurs_at(hay@, needle@, i as int),
{
    let n = needle.len();
    for k in 0..n
        invariant
            n == needle.len(),
            i + n <= hay.len(),
            forall|j: int| 0 <= j < k ==> hay@[i + j] == needle@[j],
    {
        if hay[i + k] != needle[k] {
            assert(hay@.subrange(i as int, i + n)[k as int] != needle@[k as int]);
            return false;
        }
    }
    assert(hay@.subrange(i as int, i + n) == needle@);
    true
}

/// Whether `needle` occurs as a run of characters in `hay` (the empty needle
/// occurs in every string).
pub fn contains(hay: &str, needle: &str) -> (r: bool)
    ensures
        r == spec_contains(hay@, needle@),
{
    let h = chars_of(hay);
    let n = chars_of(needle);
    if n.len() > h.len() {
        assert forall|i: int| !occurs_at(hay@, needle@, i) by {}
        return false;
    }
    let last = h.len() - n.len();
    let mut i: usize = 0;
    while i < last
        invariant
            h@ == hay@,
            n@ == needle@,
            last + n.len() == h.len(),
            i <= last,
            forall|j: int| 0 <= j < i ==> !occurs_at(hay@, needle@, j),
        decreases last - i,
    {
        if matches_at(&h, &n, i) {
            return true;
        }
        i = i + 1;
    }
    let found = matches_at(&h, &n, last);
    assert(!found ==> forall|j: int| !occurs_at(hay@, needle@, j));
    found
}

} // verus!
